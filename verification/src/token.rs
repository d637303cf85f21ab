//! The push-token validator: a pure predicate over recipient identifier
//! strings.
//!
//! A token is valid iff it has one of two shapes: a bracket form, a known
//! label followed by `[`, anything, and a closing `]` at the very end; or a
//! canonical UUID shape, five groups of lowercase letters and digits of
//! lengths 8-4-4-4-12 joined by hyphens.

use vstd::prelude::*;

verus! {

/// The first accepted bracket-form label, including the opening bracket.
pub open spec fn exponent_prefix() -> Seq<char> {
    "ExponentPushToken["@
}

/// The second accepted bracket-form label, including the opening bracket.
pub open spec fn expo_prefix() -> Seq<char> {
    "ExpoPushToken["@
}

/// `p` is a prefix of `s`.
pub open spec fn spec_starts_with(s: Seq<char>, p: Seq<char>) -> bool {
    p.len() <= s.len() && s.subrange(0, p.len() as int) == p
}

/// The bracket form: a known label with its opening bracket at the start, and
/// a closing bracket as the very last character.
pub open spec fn spec_bracket_token(s: Seq<char>) -> bool {
    &&& spec_starts_with(s, exponent_prefix()) || spec_starts_with(s, expo_prefix())
    &&& s.len() > 0
    &&& s.last() == ']'
}

/// A character allowed inside a UUID group: a lowercase letter or a digit.
pub open spec fn spec_uuid_char(c: char) -> bool {
    ('a' <= c && c <= 'z') || ('0' <= c && c <= '9')
}

/// The positions of the four hyphens in the canonical UUID shape.
pub open spec fn spec_uuid_hyphen_pos(i: int) -> bool {
    i == 8 || i == 13 || i == 18 || i == 23
}

/// The canonical UUID form: 36 characters, hyphens at the group boundaries,
/// lowercase letters or digits everywhere else.
pub open spec fn spec_uuid_token(s: Seq<char>) -> bool {
    &&& s.len() == 36
    &&& forall|i: int|
        0 <= i < 36 ==> if spec_uuid_hyphen_pos(i) {
            s[i] == '-'
        } else {
            spec_uuid_char(#[trigger] s[i])
        }
}

/// A valid push token matches the bracket form or the UUID form.
pub open spec fn spec_is_valid_token(s: Seq<char>) -> bool {
    spec_bracket_token(s) || spec_uuid_token(s)
}

/// `p` is a prefix of `s`, compared character by character.
pub(crate) fn str_has_prefix(s: &str, p: &str) -> (r: bool)
    ensures
        r == spec_starts_with(s@, p@),
{
    let sl = s.unicode_len();
    let pl = p.unicode_len();
    if sl < pl {
        assert(!spec_starts_with(s@, p@));
        return false;
    }
    for i in 0..pl
        invariant
            pl <= sl,
            sl == s@.len(),
            pl == p@.len(),
            forall|j: int| 0 <= j < i ==> s@[j] == p@[j],
    {
        if s.get_char(i) != p.get_char(i) {
            assert(s@.subrange(0, pl as int)[i as int] != p@[i as int]);
            return false;
        }
    }
    assert(s@.subrange(0, pl as int) =~= p@);
    true
}

/// A character allowed inside a UUID group.
fn is_uuid_char(c: char) -> (r: bool)
    ensures
        r == spec_uuid_char(c),
{
    ('a' <= c && c <= 'z') || ('0' <= c && c <= '9')
}

/// Whether `token` is a valid push token: the bracket form (a known label and
/// a closing `]` at the end) or the canonical lowercase UUID shape.
pub fn is_expo_push_token(token: &str) -> (r: bool)
    ensures
        r == spec_is_valid_token(token@),
{
    let len = token.unicode_len();
    let bracket = (str_has_prefix(token, "ExponentPushToken[") || str_has_prefix(
        token,
        "ExpoPushToken[",
    )) && len > 0 && token.get_char(len - 1) == ']';
    if bracket {
        return true;
    }
    if len != 36 {
        assert(!spec_uuid_token(token@));
        return false;
    }
    for i in 0..36usize
        invariant
            token@.len() == 36,
            !spec_bracket_token(token@),
            forall|j: int|
                0 <= j < i ==> if spec_uuid_hyphen_pos(j) {
                    token@[j] == '-'
                } else {
                    spec_uuid_char(#[trigger] token@[j])
                },
    {
        let c = token.get_char(i);
        let ok = if i == 8 || i == 13 || i == 18 || i == 23 {
            c == '-'
        } else {
            is_uuid_char(c)
        };
        if !ok {
            assert(!spec_uuid_token(token@));
            return false;
        }
    }
    true
}

} // verus!
