use vstd::prelude::*;

verus! {

// Whether `char::is_uppercase` holds of a character (the Unicode
// `Uppercase` property).
pub uninterp spec fn char_is_uppercase(c: char) -> bool;

// The characters that `char::to_lowercase` maps a character to.
pub uninterp spec fn char_lowercase(c: char) -> Seq<char>;

/// Calls `char::is_uppercase`. Claimed of it, beyond its named result: among
/// ASCII characters exactly `'A'..='Z'` are uppercase.
#[verifier::external_body]
fn is_uppercase(c: char) -> (r: bool)
    ensures
        r == char_is_uppercase(c),
        'A' <= c <= 'Z' ==> r,
        (c as u32) < 128 && !('A' <= c <= 'Z') ==> !r,
{
    c.is_uppercase()
}

/// Calls `char::to_lowercase` and collects its characters into a `String`.
/// Claimed of it, beyond its named result: it gives at least one character
/// (the documentation: one or more), and an ASCII capital letter maps to
/// the one small letter 32 code points above it.
#[verifier::external_body]
fn lowercase(c: char) -> (r: String)
    ensures
        r@ == char_lowercase(c),
        r@.len() >= 1,
        'A' <= c <= 'Z' ==> r@ == seq![((c as u32) + 32) as char],
{
    c.to_lowercase().collect()
}

/// Calls `String::push`: appends one character.
#[verifier::external_body]
fn push_char(s: &mut String, c: char)
    ensures
        final(s)@ == old(s)@.push(c),
{
    s.push(c)
}

/// The snake-case form of a name: each uppercase character becomes its
/// lowercase form, preceded by an underscore unless nothing precedes it in
/// the result; other characters stay.
pub open spec fn snake_case_of(s: Seq<char>) -> Seq<char>
    decreases s.len(),
{
    if s.len() == 0 {
        Seq::empty()
    } else {
        let prev = snake_case_of(s.drop_last());
        let c = s.last();
        if char_is_uppercase(c) {
            (if prev.len() == 0 { prev } else { prev.push('_') }) + char_lowercase(c)
        } else {
            prev.push(c)
        }
    }
}

/// The snake-case form of a name, by position: each uppercase character
/// becomes its lowercase form, preceded by an underscore unless it is the
/// name's first character; other characters stay.
pub open spec fn snake_case_by_position(s: Seq<char>) -> Seq<char>
    decreases s.len(),
{
    if s.len() == 0 {
        Seq::empty()
    } else {
        let prev = snake_case_by_position(s.drop_last());
        let c = s.last();
        if char_is_uppercase(c) {
            (if s.len() == 1 { prev } else { prev.push('_') }) + char_lowercase(c)
        } else {
            prev.push(c)
        }
    }
}

/// Whether every character is ASCII.
pub open spec fn is_ascii_text(s: Seq<char>) -> bool {
    forall|i: int| 0 <= i < s.len() ==> (#[trigger] s[i] as u32) < 128
}

/// Whether a character is an ASCII capital letter.
pub open spec fn ascii_upper(c: char) -> bool {
    'A' <= c <= 'Z'
}

/// The small letter of an ASCII capital.
pub open spec fn ascii_lower(c: char) -> char {
    ((c as u32) + 32) as char
}

/// `snake_case_of` on ASCII text: each capital becomes its small letter,
/// preceded by an underscore unless nothing precedes it in the result.
pub open spec fn ascii_snake_case(s: Seq<char>) -> Seq<char>
    decreases s.len(),
{
    if s.len() == 0 {
        Seq::empty()
    } else {
        let prev = ascii_snake_case(s.drop_last());
        let c = s.last();
        if ascii_upper(c) {
            (if prev.len() == 0 { prev } else { prev.push('_') }).push(ascii_lower(c))
        } else {
            prev.push(c)
        }
    }
}

proof fn lemma_ascii_snake_case_shape(s: Seq<char>)
    requires
        is_ascii_text(s),
    ensures
        is_ascii_text(ascii_snake_case(s)),
        forall|i: int| 0 <= i < ascii_snake_case(s).len() ==> !ascii_upper(#[trigger] ascii_snake_case(s)[i]),
    decreases s.len(),
{
    if s.len() > 0 {
        let rest = s.drop_last();
        assert(is_ascii_text(rest)) by {
            assert forall|i: int| 0 <= i < rest.len() implies (#[trigger] rest[i] as u32) < 128 by {
                assert(rest[i] == s[i]);
            }
        }
        lemma_ascii_snake_case_shape(rest);
        assert((s.last() as u32) < 128) by {
            assert(s.last() == s[s.len() - 1]);
        }
    }
}

proof fn lemma_ascii_snake_case_keeps_small(t: Seq<char>)
    requires
        forall|i: int| 0 <= i < t.len() ==> !ascii_upper(#[trigger] t[i]),
    ensures
        ascii_snake_case(t) == t,
    decreases t.len(),
{
    if t.len() > 0 {
        let rest = t.drop_last();
        assert forall|i: int| 0 <= i < rest.len() implies !ascii_upper(#[trigger] rest[i]) by {
            assert(rest[i] == t[i]);
        }
        lemma_ascii_snake_case_keeps_small(rest);
        assert(!ascii_upper(t[t.len() - 1]));
        assert(rest.push(t.last()) =~= t);
    }
}

/// On ASCII text the snake-case form is ASCII, holds no capital letter, and
/// is its own snake-case form.
pub proof fn law_ascii_snake_case_is_settled(s: Seq<char>)
    requires
        is_ascii_text(s),
    ensures
        is_ascii_text(ascii_snake_case(s)),
        forall|i: int| 0 <= i < ascii_snake_case(s).len() ==> !ascii_upper(#[trigger] ascii_snake_case(s)[i]),
        ascii_snake_case(ascii_snake_case(s)) == ascii_snake_case(s),
{
    lemma_ascii_snake_case_shape(s);
    lemma_ascii_snake_case_keeps_small(ascii_snake_case(s));
}

/// The snake-case form of a type name, such as `refuel_action` for `RefuelAction`.
pub fn to_snake_case(s: &str) -> (r: String)
    ensures
        r@ == snake_case_of(s@),
        r@ == snake_case_by_position(s@),
        is_ascii_text(s@) ==> r@ == ascii_snake_case(s@),
{
    let mut snake_case = String::new();
    let ghost chars = s@;
    for c in it: s.chars()
        invariant
            it.seq() == chars,
            snake_case@ == snake_case_of(chars.take(it.index())),
            snake_case@ == snake_case_by_position(chars.take(it.index())),
            it.index() > 0 ==> snake_case@.len() > 0,
            is_ascii_text(chars) ==> snake_case@ == ascii_snake_case(chars.take(it.index())),
    {
        assert(chars.take(it.index() + 1).drop_last() == chars.take(it.index()));
        assert(chars.take(it.index() + 1).last() == c);
        if is_uppercase(c) {
            if !snake_case.as_str().is_empty() {
                push_char(&mut snake_case, '_');
            }
            let lower = lowercase(c);
            snake_case.append(lower.as_str());
        } else {
            push_char(&mut snake_case, c);
        }
    }
    assert(chars.take(chars.len() as int) == chars);
    snake_case
}

} // verus!
