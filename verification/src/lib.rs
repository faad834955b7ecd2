//! Goal-oriented action planning: actions and goals over a planner state,
//! A*-based plan search, and the decision logic of a trading-driver agent
//! that plans with it.

pub mod state;
pub mod action;
pub mod goal;
pub mod distance;
pub mod sequence_distance;
pub mod planner;
pub mod storage;
pub mod ai_driver;
pub mod ai_trader;
pub mod naming;
pub mod memory;
pub mod radar;
pub mod map_distance;
pub mod trade_routes;

