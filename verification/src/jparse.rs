//! The JSON parser: from response bytes to a [`JsonValue`].
//!
//! The grammar is stated by the `sp_*` spec functions, a recursive-descent
//! parser over a byte sequence: each takes the position it starts at and
//! returns the parsed construct and the position just past it, or `None` where
//! the input does not match. The executable parser returns exactly what the
//! spec parser says, position for position.
//!
//! Strings decode the standard escapes, including `\uXXXX` with surrogate
//! pairs, into UTF-8 bytes. Numbers are taken as their lexeme, a maximal run
//! of number characters, and are not interpreted. Documents reject trailing
//! content after the single top-level value.

use vstd::prelude::*;

use crate::json::{arr_model_prefix, json_model, lemma_arr_model_prefix, lemma_obj_model_prefix,
    obj_model_prefix, JsonModel, JsonValue};

verus! {

/// JSON whitespace: space, tab, line feed, carriage return.
pub open spec fn is_ws(b: u8) -> bool {
    b == 0x20 || b == 0x09 || b == 0x0a || b == 0x0d
}

/// The first position at or after `i` holding no whitespace.
pub open spec fn skip_ws(s: Seq<u8>, i: int) -> int
    decreases s.len() - i,
{
    if 0 <= i < s.len() && is_ws(s[i]) {
        skip_ws(s, i + 1)
    } else {
        i
    }
}

/// `j`, floored at `lo`: the parser positions only ever move forward, and the
/// floor makes that plain to the termination checker.
pub open spec fn floor_at(j: int, lo: int) -> int {
    if j < lo {
        lo
    } else {
        j
    }
}

/// The value of an ASCII hexadecimal digit, either case.
pub open spec fn hex_val(b: u8) -> Option<u32> {
    if 0x30 <= b && b <= 0x39 {
        Some((b - 0x30) as u32)
    } else if 0x61 <= b && b <= 0x66 {
        Some((b - 0x61 + 10) as u32)
    } else if 0x41 <= b && b <= 0x46 {
        Some((b - 0x41 + 10) as u32)
    } else {
        None
    }
}

/// The value of the four hexadecimal digits at `i`.
pub open spec fn hex4(s: Seq<u8>, i: int) -> Option<u32> {
    if 0 <= i && i + 4 <= s.len() && hex_val(s[i]) is Some && hex_val(s[i + 1]) is Some && hex_val(
        s[i + 2],
    ) is Some && hex_val(s[i + 3]) is Some {
        Some(
            (4096 * hex_val(s[i])->0 + 256 * hex_val(s[i + 1])->0 + 16 * hex_val(s[i + 2])->0
                + hex_val(s[i + 3])->0) as u32,
        )
    } else {
        None
    }
}

/// The UTF-8 encoding of the scalar value `cp`.
pub open spec fn utf8_enc(cp: u32) -> Seq<u8> {
    if cp < 0x80 {
        seq![cp as u8]
    } else if cp < 0x800 {
        seq![(0xc0 + cp / 64) as u8, (0x80 + cp % 64) as u8]
    } else if cp < 0x10000 {
        seq![(0xe0 + cp / 4096) as u8, (0x80 + (cp / 64) % 64) as u8, (0x80 + cp % 64) as u8]
    } else {
        seq![
            (0xf0 + cp / 0x40000) as u8,
            (0x80 + (cp / 4096) % 64) as u8,
            (0x80 + (cp / 64) % 64) as u8,
            (0x80 + cp % 64) as u8,
        ]
    }
}

/// The body of a string, starting just after the opening quote: the decoded
/// bytes and the position just past the closing quote. Control bytes must be
/// escaped; `\uXXXX` escapes decode to UTF-8, with surrogate pairs combined
/// and lone surrogates rejected.
pub open spec fn sp_string_body(s: Seq<u8>, i: int) -> Option<(Seq<u8>, int)>
    decreases s.len() - i,
{
    if i < 0 || i >= s.len() {
        None
    } else if s[i] == 0x22 {
        Some((Seq::empty(), i + 1))
    } else if s[i] == 0x5c {
        if i + 2 > s.len() {
            None
        } else {
            let e = s[i + 1];
            if e == 0x22 || e == 0x5c || e == 0x2f {
                match sp_string_body(s, i + 2) {
                    Some((rest, k)) => Some((seq![e] + rest, k)),
                    None => None,
                }
            } else if e == 0x62 || e == 0x66 || e == 0x6e || e == 0x72 || e == 0x74 {
                let d: u8 = if e == 0x62 {
                    0x08
                } else if e == 0x66 {
                    0x0c
                } else if e == 0x6e {
                    0x0a
                } else if e == 0x72 {
                    0x0d
                } else {
                    0x09
                };
                match sp_string_body(s, i + 2) {
                    Some((rest, k)) => Some((seq![d] + rest, k)),
                    None => None,
                }
            } else if e == 0x75 {
                match hex4(s, i + 2) {
                    Some(cp) => if cp < 0xd800 || cp >= 0xe000 {
                        match sp_string_body(s, i + 6) {
                            Some((rest, k)) => Some((utf8_enc(cp) + rest, k)),
                            None => None,
                        }
                    } else if cp < 0xdc00 {
                        if i + 12 <= s.len() && s[i + 6] == 0x5c && s[i + 7] == 0x75 {
                            match hex4(s, i + 8) {
                                Some(lo) => if 0xdc00 <= lo && lo < 0xe000 {
                                    match sp_string_body(s, i + 12) {
                                        Some((rest, k)) => Some(
                                            (
                                                utf8_enc(
                                                    (0x10000 + (cp - 0xd800) * 0x400 + (lo
                                                        - 0xdc00)) as u32,
                                                ) + rest,
                                                k,
                                            ),
                                        ),
                                        None => None,
                                    }
                                } else {
                                    None
                                },
                                None => None,
                            }
                        } else {
                            None
                        }
                    } else {
                        None
                    },
                    None => None,
                }
            } else {
                None
            }
        }
    } else if s[i] < 0x20 {
        None
    } else {
        match sp_string_body(s, i + 1) {
            Some((rest, k)) => Some((seq![s[i]] + rest, k)),
            None => None,
        }
    }
}

/// A character that may appear in a number lexeme.
pub open spec fn is_num_char(b: u8) -> bool {
    (0x30 <= b && b <= 0x39) || b == 0x2d || b == 0x2b || b == 0x2e || b == 0x65 || b == 0x45
}

/// The position just past the number lexeme starting at `i`.
pub open spec fn num_end(s: Seq<u8>, i: int) -> int
    decreases s.len() - i,
{
    if 0 <= i < s.len() && is_num_char(s[i]) {
        num_end(s, i + 1)
    } else {
        i
    }
}

/// The number lexeme at `i`: a maximal, non-empty run of number characters.
pub open spec fn sp_number(s: Seq<u8>, i: int) -> Option<(Seq<u8>, int)> {
    let e = num_end(s, i);
    if 0 <= i && i < e {
        Some((s.subrange(i, e), e))
    } else {
        None
    }
}

/// A JSON value at `i`, leading whitespace skipped, and the position just
/// past it.
pub open spec fn sp_value(s: Seq<u8>, i: int) -> Option<(JsonModel, int)>
    decreases s.len() - i, 1int,
{
    let j = floor_at(skip_ws(s, i), i);
    if j >= s.len() {
        None
    } else {
        let b = s[j];
        if b == 0x6e {
            if j + 4 <= s.len() && s[j + 1] == 0x75 && s[j + 2] == 0x6c && s[j + 3] == 0x6c {
                Some((JsonModel::Null, j + 4))
            } else {
                None
            }
        } else if b == 0x74 {
            if j + 4 <= s.len() && s[j + 1] == 0x72 && s[j + 2] == 0x75 && s[j + 3] == 0x65 {
                Some((JsonModel::Bool(true), j + 4))
            } else {
                None
            }
        } else if b == 0x66 {
            if j + 5 <= s.len() && s[j + 1] == 0x61 && s[j + 2] == 0x6c && s[j + 3] == 0x73 && s[j
                + 4] == 0x65 {
                Some((JsonModel::Bool(false), j + 5))
            } else {
                None
            }
        } else if b == 0x22 {
            match sp_string_body(s, j + 1) {
                Some((t, k)) => Some((JsonModel::Str(t), k)),
                None => None,
            }
        } else if b == 0x2d || (0x30 <= b && b <= 0x39) {
            match sp_number(s, j) {
                Some((t, k)) => Some((JsonModel::Num(t), k)),
                None => None,
            }
        } else if b == 0x5b {
            match sp_array(s, j + 1) {
                Some((items, k)) => Some((JsonModel::Arr(items), k)),
                None => None,
            }
        } else if b == 0x7b {
            match sp_object(s, j + 1) {
                Some((members, k)) => Some((JsonModel::Obj(members), k)),
                None => None,
            }
        } else {
            None
        }
    }
}

/// The elements of an array, starting just after `[`: either the closing
/// bracket at once, or a non-empty element list.
pub open spec fn sp_array(s: Seq<u8>, i: int) -> Option<(Seq<JsonModel>, int)>
    decreases s.len() - i, 3int,
{
    let j = floor_at(skip_ws(s, i), i);
    if j >= s.len() {
        None
    } else if s[j] == 0x5d {
        Some((Seq::empty(), j + 1))
    } else {
        sp_elements(s, i)
    }
}

/// A non-empty element list and the position just past the closing `]`.
pub open spec fn sp_elements(s: Seq<u8>, i: int) -> Option<(Seq<JsonModel>, int)>
    decreases s.len() - i, 2int,
{
    match sp_value(s, i) {
        None => None,
        Some((v, k)) => {
            let k2 = floor_at(k, i + 1);
            let m = floor_at(skip_ws(s, k2), k2);
            if m < s.len() && s[m] == 0x2c {
                match sp_elements(s, m + 1) {
                    Some((rest, e)) => Some((seq![v] + rest, e)),
                    None => None,
                }
            } else if m < s.len() && s[m] == 0x5d {
                Some((seq![v], m + 1))
            } else {
                None
            }
        },
    }
}

/// The members of an object, starting just after `{`: either the closing
/// brace at once, or a non-empty member list.
pub open spec fn sp_object(s: Seq<u8>, i: int) -> Option<(Seq<(Seq<u8>, JsonModel)>, int)>
    decreases s.len() - i, 3int,
{
    let j = floor_at(skip_ws(s, i), i);
    if j >= s.len() {
        None
    } else if s[j] == 0x7d {
        Some((Seq::empty(), j + 1))
    } else {
        sp_members(s, i)
    }
}

/// A non-empty member list and the position just past the closing `}`.
pub open spec fn sp_members(s: Seq<u8>, i: int) -> Option<(Seq<(Seq<u8>, JsonModel)>, int)>
    decreases s.len() - i, 2int,
{
    let j = floor_at(skip_ws(s, i), i);
    if j >= s.len() || s[j] != 0x22 {
        None
    } else {
        match sp_string_body(s, j + 1) {
            None => None,
            Some((key, k)) => {
                let k2 = floor_at(k, j + 2);
                let m = floor_at(skip_ws(s, k2), k2);
                if m < s.len() && s[m] == 0x3a {
                    match sp_value(s, m + 1) {
                        None => None,
                        Some((v, k3)) => {
                            let k4 = floor_at(k3, m + 2);
                            let c = floor_at(skip_ws(s, k4), k4);
                            if c < s.len() && s[c] == 0x2c {
                                match sp_members(s, c + 1) {
                                    Some((rest, e)) => Some((seq![(key, v)] + rest, e)),
                                    None => None,
                                }
                            } else if c < s.len() && s[c] == 0x7d {
                                Some((seq![(key, v)], c + 1))
                            } else {
                                None
                            }
                        },
                    }
                } else {
                    None
                }
            },
        }
    }
}

/// A whole document: one value, with nothing but whitespace after it.
pub open spec fn sp_document(s: Seq<u8>) -> Option<JsonModel> {
    match sp_value(s, 0) {
        None => None,
        Some((v, k)) => {
            let k2 = floor_at(k, 0);
            let m = floor_at(skip_ws(s, k2), k2);
            if m == s.len() {
                Some(v)
            } else {
                None
            }
        },
    }
}

proof fn lemma_arr_model_cons(before: Vec<JsonValue>, after: Vec<JsonValue>, v: JsonValue)
    requires
        after@ == before@.insert(0, v),
    ensures
        arr_model_prefix(after, after@.len() as int) == seq![json_model(v)] + arr_model_prefix(
            before,
            before@.len() as int,
        ),
{
    lemma_arr_model_prefix(after, after@.len() as int);
    lemma_arr_model_prefix(before, before@.len() as int);
    assert(arr_model_prefix(after, after@.len() as int) =~= seq![json_model(v)]
        + arr_model_prefix(before, before@.len() as int));
}

proof fn lemma_obj_model_cons(
    before: Vec<(Vec<u8>, JsonValue)>,
    after: Vec<(Vec<u8>, JsonValue)>,
    key: Vec<u8>,
    v: JsonValue,
)
    requires
        after@ == before@.insert(0, (key, v)),
    ensures
        obj_model_prefix(after, after@.len() as int) == seq![(key@, json_model(v))]
            + obj_model_prefix(before, before@.len() as int),
{
    lemma_obj_model_prefix(after, after@.len() as int);
    lemma_obj_model_prefix(before, before@.len() as int);
    assert(obj_model_prefix(after, after@.len() as int) =~= seq![(key@, json_model(v))]
        + obj_model_prefix(before, before@.len() as int));
}

/// The first position at or after `i` holding no whitespace.
fn skip_ws_x(s: &[u8], i: usize) -> (r: usize)
    requires
        i <= s@.len(),
    ensures
        r as int == skip_ws(s@, i as int),
        i <= r <= s@.len(),
{
    let mut j = i;
    loop
        invariant
            i <= j <= s@.len(),
            skip_ws(s@, i as int) == skip_ws(s@, j as int),
        decreases s@.len() - j,
    {
        if j < s.len() && (s[j] == 0x20 || s[j] == 0x09 || s[j] == 0x0a || s[j] == 0x0d) {
            j = j + 1;
        } else {
            return j;
        }
    }
}

/// The value of the four hexadecimal digits at `i`.
fn parse_hex4(s: &[u8], i: usize) -> (r: Option<u32>)
    requires
        i <= s@.len(),
    ensures
        match r {
            Some(cp) => hex4(s@, i as int) == Some(cp) && cp < 0x10000,
            None => hex4(s@, i as int) is None,
        },
{
    if s.len() - i < 4 {
        return None;
    }
    let d0 = match hex_digit_val(s[i]) {
        Some(d) => d,
        None => {
            return None;
        },
    };
    let d1 = match hex_digit_val(s[i + 1]) {
        Some(d) => d,
        None => {
            return None;
        },
    };
    let d2 = match hex_digit_val(s[i + 2]) {
        Some(d) => d,
        None => {
            return None;
        },
    };
    let d3 = match hex_digit_val(s[i + 3]) {
        Some(d) => d,
        None => {
            return None;
        },
    };
    Some(4096 * (d0 as u32) + 256 * (d1 as u32) + 16 * (d2 as u32) + (d3 as u32))
}

/// The value of one ASCII hexadecimal digit, either case.
fn hex_digit_val(b: u8) -> (r: Option<u8>)
    ensures
        match r {
            Some(d) => hex_val(b) == Some(d as u32) && d < 16,
            None => hex_val(b) is None,
        },
{
    if 0x30 <= b && b <= 0x39 {
        Some(b - 0x30)
    } else if 0x61 <= b && b <= 0x66 {
        Some(b - 0x61 + 10)
    } else if 0x41 <= b && b <= 0x46 {
        Some(b - 0x41 + 10)
    } else {
        None
    }
}

/// The body of a string, starting just after the opening quote.
fn parse_string_body(s: &[u8], i: usize) -> (r: Option<(Vec<u8>, usize)>)
    ensures
        match r {
            Some(p) => sp_string_body(s@, i as int) == Some((p.0@, p.1 as int)) && i < p.1
                <= s@.len(),
            None => sp_string_body(s@, i as int) is None,
        },
    decreases s@.len() - i,
{
    if i >= s.len() {
        return None;
    }
    let b = s[i];
    if b == 0x22 {
        let t: Vec<u8> = Vec::new();
        return Some((t, i + 1));
    }
    if b == 0x5c {
        if s.len() - i < 2 {
            return None;
        }
        let e = s[i + 1];
        if e == 0x22 || e == 0x5c || e == 0x2f {
            match parse_string_body(s, i + 2) {
                Some((mut rest, k)) => {
                    let ghost pre = rest@;
                    rest.insert(0, e);
                    assert(rest@ =~= seq![e] + pre);
                    return Some((rest, k));
                },
                None => {
                    return None;
                },
            }
        } else if e == 0x62 || e == 0x66 || e == 0x6e || e == 0x72 || e == 0x74 {
            let d: u8 = if e == 0x62 {
                0x08
            } else if e == 0x66 {
                0x0c
            } else if e == 0x6e {
                0x0a
            } else if e == 0x72 {
                0x0d
            } else {
                0x09
            };
            match parse_string_body(s, i + 2) {
                Some((mut rest, k)) => {
                    let ghost pre = rest@;
                    rest.insert(0, d);
                    assert(rest@ =~= seq![d] + pre);
                    return Some((rest, k));
                },
                None => {
                    return None;
                },
            }
        } else if e == 0x75 {
            match parse_hex4(s, i + 2) {
                None => {
                    return None;
                },
                Some(cp) => {
                    if cp < 0xd800 || cp >= 0xe000 {
                        match parse_string_body(s, i + 6) {
                            Some((mut rest, k)) => {
                                let ghost pre = rest@;
                                push_utf8_front(&mut rest, cp);
                                assert(rest@ =~= utf8_enc(cp) + pre);
                                return Some((rest, k));
                            },
                            None => {
                                return None;
                            },
                        }
                    } else if cp < 0xdc00 {
                        if s.len() - i >= 12 && s[i + 6] == 0x5c && s[i + 7] == 0x75 {
                            match parse_hex4(s, i + 8) {
                                None => {
                                    return None;
                                },
                                Some(lo) => {
                                    if 0xdc00 <= lo && lo < 0xe000 {
                                        let full: u32 = 0x10000 + (cp - 0xd800) * 0x400 + (lo
                                            - 0xdc00);
                                        match parse_string_body(s, i + 12) {
                                            Some((mut rest, k)) => {
                                                let ghost pre = rest@;
                                                push_utf8_front(&mut rest, full);
                                                assert(rest@ =~= utf8_enc(full) + pre);
                                                return Some((rest, k));
                                            },
                                            None => {
                                                return None;
                                            },
                                        }
                                    } else {
                                        return None;
                                    }
                                },
                            }
                        } else {
                            return None;
                        }
                    } else {
                        return None;
                    }
                },
            }
        } else {
            return None;
        }
    }
    if b < 0x20 {
        return None;
    }
    match parse_string_body(s, i + 1) {
        Some((mut rest, k)) => {
            let ghost pre = rest@;
            rest.insert(0, b);
            assert(rest@ =~= seq![b] + pre);
            Some((rest, k))
        },
        None => None,
    }
}

/// Prepends the UTF-8 encoding of the scalar value `cp` to `out`.
fn push_utf8_front(out: &mut Vec<u8>, cp: u32)
    requires
        cp < 0x110000,
    ensures
        final(out)@ == utf8_enc(cp) + old(out)@,
{
    if cp < 0x80 {
        out.insert(0, cp as u8);
        assert(out@ =~= utf8_enc(cp) + old(out)@);
    } else if cp < 0x800 {
        out.insert(0, (0x80 + cp % 64) as u8);
        out.insert(0, (0xc0 + cp / 64) as u8);
        assert(out@ =~= utf8_enc(cp) + old(out)@);
    } else if cp < 0x10000 {
        out.insert(0, (0x80 + cp % 64) as u8);
        out.insert(0, (0x80 + (cp / 64) % 64) as u8);
        out.insert(0, (0xe0 + cp / 4096) as u8);
        assert(out@ =~= utf8_enc(cp) + old(out)@);
    } else {
        out.insert(0, (0x80 + cp % 64) as u8);
        out.insert(0, (0x80 + (cp / 64) % 64) as u8);
        out.insert(0, (0x80 + (cp / 4096) % 64) as u8);
        out.insert(0, (0xf0 + cp / 0x40000) as u8);
        assert(out@ =~= utf8_enc(cp) + old(out)@);
    }
}

/// The number lexeme at `i`.
fn parse_number(s: &[u8], i: usize) -> (r: Option<(Vec<u8>, usize)>)
    requires
        i <= s@.len(),
    ensures
        match r {
            Some(p) => sp_number(s@, i as int) == Some((p.0@, p.1 as int)) && i < p.1 <= s@.len(),
            None => sp_number(s@, i as int) is None,
        },
{
    let mut j = i;
    loop
        invariant
            i <= j <= s@.len(),
            num_end(s@, i as int) == num_end(s@, j as int),
        ensures
            i <= j <= s@.len(),
            num_end(s@, i as int) == j,
        decreases s@.len() - j,
    {
        if j < s.len() {
            let b = s[j];
            if (0x30 <= b && b <= 0x39) || b == 0x2d || b == 0x2b || b == 0x2e || b == 0x65 || b
                == 0x45 {
                j = j + 1;
            } else {
                break ;
            }
        } else {
            break ;
        }
    }
    if j == i {
        return None;
    }
    let mut t: Vec<u8> = Vec::new();
    let mut idx = i;
    while idx < j
        invariant
            i <= idx <= j <= s@.len(),
            t@ == s@.subrange(i as int, idx as int),
        decreases j - idx,
    {
        t.push(s[idx]);
        assert(t@ =~= s@.subrange(i as int, idx + 1));
        idx = idx + 1;
    }
    Some((t, j))
}

/// A JSON value at `i`, leading whitespace skipped.
pub fn parse_value(s: &[u8], i: usize) -> (r: Option<(JsonValue, usize)>)
    requires
        i <= s@.len(),
    ensures
        match r {
            Some(p) => sp_value(s@, i as int) == Some((p.0@, p.1 as int)) && i < p.1 <= s@.len(),
            None => sp_value(s@, i as int) is None,
        },
    decreases s@.len() - i, 1int,
{
    let j = skip_ws_x(s, i);
    if j >= s.len() {
        return None;
    }
    let b = s[j];
    if b == 0x6e {
        if s.len() - j >= 4 && s[j + 1] == 0x75 && s[j + 2] == 0x6c && s[j + 3] == 0x6c {
            Some((JsonValue::Null, j + 4))
        } else {
            None
        }
    } else if b == 0x74 {
        if s.len() - j >= 4 && s[j + 1] == 0x72 && s[j + 2] == 0x75 && s[j + 3] == 0x65 {
            Some((JsonValue::Bool(true), j + 4))
        } else {
            None
        }
    } else if b == 0x66 {
        if s.len() - j >= 5 && s[j + 1] == 0x61 && s[j + 2] == 0x6c && s[j + 3] == 0x73 && s[j + 4]
            == 0x65 {
            Some((JsonValue::Bool(false), j + 5))
        } else {
            None
        }
    } else if b == 0x22 {
        match parse_string_body(s, j + 1) {
            Some((t, k)) => Some((JsonValue::Str(t), k)),
            None => None,
        }
    } else if b == 0x2d || (0x30 <= b && b <= 0x39) {
        match parse_number(s, j) {
            Some((t, k)) => Some((JsonValue::Num(t), k)),
            None => None,
        }
    } else if b == 0x5b {
        match parse_array(s, j + 1) {
            Some((items, k)) => Some((JsonValue::Arr(items), k)),
            None => None,
        }
    } else if b == 0x7b {
        match parse_object(s, j + 1) {
            Some((members, k)) => Some((JsonValue::Obj(members), k)),
            None => None,
        }
    } else {
        None
    }
}

/// The elements of an array, starting just after `[`.
fn parse_array(s: &[u8], i: usize) -> (r: Option<(Vec<JsonValue>, usize)>)
    requires
        i <= s@.len(),
    ensures
        match r {
            Some(p) => sp_array(s@, i as int) == Some(
                (arr_model_prefix(p.0, p.0@.len() as int), p.1 as int),
            ) && i < p.1 <= s@.len(),
            None => sp_array(s@, i as int) is None,
        },
    decreases s@.len() - i, 3int,
{
    let j = skip_ws_x(s, i);
    if j >= s.len() {
        return None;
    }
    if s[j] == 0x5d {
        let items: Vec<JsonValue> = Vec::new();
        assert(arr_model_prefix(items, 0) =~= Seq::<JsonModel>::empty());
        return Some((items, j + 1));
    }
    parse_elements(s, i)
}

/// A non-empty element list, up to and past the closing `]`.
fn parse_elements(s: &[u8], i: usize) -> (r: Option<(Vec<JsonValue>, usize)>)
    requires
        i <= s@.len(),
    ensures
        match r {
            Some(p) => sp_elements(s@, i as int) == Some(
                (arr_model_prefix(p.0, p.0@.len() as int), p.1 as int),
            ) && i < p.1 <= s@.len(),
            None => sp_elements(s@, i as int) is None,
        },
    decreases s@.len() - i, 2int,
{
    match parse_value(s, i) {
        None => None,
        Some((v, k)) => {
            let m = skip_ws_x(s, k);
            if m < s.len() && s[m] == 0x2c {
                match parse_elements(s, m + 1) {
                    None => None,
                    Some((mut rest, e)) => {
                        let ghost before = rest;
                        rest.insert(0, v);
                        proof {
                            lemma_arr_model_cons(before, rest, v);
                        }
                        Some((rest, e))
                    },
                }
            } else if m < s.len() && s[m] == 0x5d {
                let mut items: Vec<JsonValue> = Vec::new();
                items.push(v);
                proof {
                    lemma_arr_model_prefix(items, 1);
                    assert(arr_model_prefix(items, 1) =~= seq![json_model(v)]);
                }
                Some((items, m + 1))
            } else {
                None
            }
        },
    }
}

/// The members of an object, starting just after `{`.
fn parse_object(s: &[u8], i: usize) -> (r: Option<(Vec<(Vec<u8>, JsonValue)>, usize)>)
    requires
        i <= s@.len(),
    ensures
        match r {
            Some(p) => sp_object(s@, i as int) == Some(
                (obj_model_prefix(p.0, p.0@.len() as int), p.1 as int),
            ) && i < p.1 <= s@.len(),
            None => sp_object(s@, i as int) is None,
        },
    decreases s@.len() - i, 3int,
{
    let j = skip_ws_x(s, i);
    if j >= s.len() {
        return None;
    }
    if s[j] == 0x7d {
        let members: Vec<(Vec<u8>, JsonValue)> = Vec::new();
        assert(obj_model_prefix(members, 0) =~= Seq::<(Seq<u8>, JsonModel)>::empty());
        return Some((members, j + 1));
    }
    parse_members(s, i)
}

/// A non-empty member list, up to and past the closing `}`.
fn parse_members(s: &[u8], i: usize) -> (r: Option<(Vec<(Vec<u8>, JsonValue)>, usize)>)
    requires
        i <= s@.len(),
    ensures
        match r {
            Some(p) => sp_members(s@, i as int) == Some(
                (obj_model_prefix(p.0, p.0@.len() as int), p.1 as int),
            ) && i < p.1 <= s@.len(),
            None => sp_members(s@, i as int) is None,
        },
    decreases s@.len() - i, 2int,
{
    let j = skip_ws_x(s, i);
    if j >= s.len() {
        return None;
    }
    if s[j] != 0x22 {
        return None;
    }
    match parse_string_body(s, j + 1) {
        None => None,
        Some((key, k)) => {
            let m = skip_ws_x(s, k);
            if m < s.len() && s[m] == 0x3a {
                match parse_value(s, m + 1) {
                    None => None,
                    Some((v, k3)) => {
                        let c = skip_ws_x(s, k3);
                        if c < s.len() && s[c] == 0x2c {
                            match parse_members(s, c + 1) {
                                None => None,
                                Some((mut rest, e)) => {
                                    let ghost before = rest;
                                    let ghost gkey = key;
                                    let ghost gv = v;
                                    rest.insert(0, (key, v));
                                    proof {
                                        lemma_obj_model_cons(before, rest, gkey, gv);
                                    }
                                    Some((rest, e))
                                },
                            }
                        } else if c < s.len() && s[c] == 0x7d {
                            let ghost gkey = key;
                            let ghost gv = v;
                            let mut members: Vec<(Vec<u8>, JsonValue)> = Vec::new();
                            members.push((key, v));
                            proof {
                                lemma_obj_model_prefix(members, 1);
                                assert(obj_model_prefix(members, 1) =~= seq![
                                    (gkey@, json_model(gv)),
                                ]);
                            }
                            Some((members, c + 1))
                        } else {
                            None
                        }
                    },
                }
            } else {
                None
            }
        },
    }
}

/// Parses a whole JSON document: one value with nothing but whitespace after
/// it. Returns exactly the value that [`sp_document`] assigns to the bytes.
pub fn parse_json(s: &[u8]) -> (r: Option<JsonValue>)
    ensures
        match r {
            Some(v) => sp_document(s@) == Some(v@),
            None => sp_document(s@) is None,
        },
{
    match parse_value(s, 0) {
        None => None,
        Some((v, k)) => {
            let m = skip_ws_x(s, k);
            if m == s.len() {
                Some(v)
            } else {
                None
            }
        },
    }
}

} // verus!
