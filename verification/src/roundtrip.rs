//! The codec round trip: parsing what the writer produced yields the
//! original document.
//!
//! [`lemma_document_roundtrip`] states it for every well-formed model: the
//! wire bytes of [`crate::json::json_bytes`] parse back, under
//! [`crate::jparse::sp_document`], to exactly the model they were written
//! from. Well-formedness only constrains number lexemes, which the library
//! carries verbatim: a lexeme must be a non-empty run of number characters
//! that starts like a number, else the writer would emit text the parser
//! reads differently.

use vstd::prelude::*;

use crate::jparse::{hex_val, is_num_char, is_ws, num_end, skip_ws, sp_document, sp_elements,
    sp_members, sp_number, sp_string_body, sp_value, utf8_enc};
use crate::json::{arr_bytes_prefix, esc_byte, esc_prefix, json_bytes, member_bytes,
    obj_bytes_prefix, spec_hex_digit, string_bytes, JsonModel};

verus! {

/// A model the writer and parser agree on: number lexemes are non-empty runs
/// of number characters that begin with a digit or a minus sign.
pub open spec fn wf_json(m: JsonModel) -> bool
    decreases m,
{
    match m {
        JsonModel::Null => true,
        JsonModel::Bool(_) => true,
        JsonModel::Num(t) => t.len() > 0 && (forall|i: int|
            0 <= i < t.len() ==> is_num_char(#[trigger] t[i])) && (t[0] == 0x2d || (0x30 <= t[0]
            && t[0] <= 0x39)),
        JsonModel::Str(_) => true,
        JsonModel::Arr(items) => forall|i: int|
            0 <= i < items.len() ==> wf_json(#[trigger] items[i]),
        JsonModel::Obj(members) => forall|i: int|
            0 <= i < members.len() ==> wf_json((#[trigger] members[i]).1),
    }
}

/// Skipping whitespace at a non-whitespace byte stays put.
proof fn lemma_skip_ws_noop(b: Seq<u8>, i: int)
    requires
        0 <= i < b.len(),
        !is_ws(b[i]),
    ensures
        skip_ws(b, i) == i,
{
}

/// Reading back a written hexadecimal digit yields the digit.
proof fn lemma_hex_digit_roundtrip(x: u8)
    requires
        x < 16,
    ensures
        hex_val(spec_hex_digit(x)) == Some(x as u32),
{
}

/// The escaped form of a string body, taken from the front: the first
/// byte's escape, then the rest.
proof fn lemma_esc_prefix_cons(s: Seq<u8>, n: int)
    requires
        1 <= n <= s.len(),
    ensures
        esc_prefix(s, n) == esc_byte(s[0]) + esc_prefix(s.drop_first(), n - 1),
    decreases n,
{
    if n == 1 {
        assert(esc_prefix(s, 0) == Seq::<u8>::empty());
        assert(esc_prefix(s.drop_first(), 0) == Seq::<u8>::empty());
        assert(esc_prefix(s, 1) == esc_prefix(s, 0) + esc_byte(s[0]));
        assert(esc_prefix(s, 1) =~= esc_byte(s[0]) + esc_prefix(s.drop_first(), 0));
    } else {
        lemma_esc_prefix_cons(s, n - 1);
        assert(s.drop_first()[n - 2] == s[n - 1]);
        assert(esc_prefix(s, n) == esc_prefix(s, n - 1) + esc_byte(s[n - 1]));
        assert(esc_prefix(s.drop_first(), n - 1) == esc_prefix(s.drop_first(), n - 2) + esc_byte(
            s.drop_first()[n - 2],
        ));
        assert(esc_prefix(s, n) =~= esc_byte(s[0]) + esc_prefix(s.drop_first(), n - 1));
    }
}

/// Reading back a written string body: the escaped bytes followed by the
/// closing quote parse to exactly the original bytes.
#[verifier::rlimit(50)]
proof fn lemma_parse_escaped(b: Seq<u8>, i: int, s: Seq<u8>)
    requires
        0 <= i,
        i + esc_prefix(s, s.len() as int).len() + 1 <= b.len(),
        b.subrange(i, i + esc_prefix(s, s.len() as int).len()) == esc_prefix(s, s.len() as int),
        b[i + esc_prefix(s, s.len() as int).len()] == 0x22,
    ensures
        sp_string_body(b, i) == Some((s, i + esc_prefix(s, s.len() as int).len() + 1)),
    decreases s.len(),
{
    let el = esc_prefix(s, s.len() as int);
    if s.len() == 0 {
        assert(el.len() == 0);
        assert(b[i] == 0x22);
        assert(s =~= Seq::<u8>::empty());
    } else {
        lemma_esc_prefix_cons(s, s.len() as int);
        let c = s[0];
        let e0 = esc_byte(c);
        let rest = s.drop_first();
        let el_rest = esc_prefix(rest, rest.len() as int);
        assert(el == e0 + el_rest);
        assert(el.len() == e0.len() + el_rest.len());
        assert forall|j: int| 0 <= j < el.len() implies b[i + j] == #[trigger] el[j] by {
            assert(b.subrange(i, i + el.len() as int)[j] == b[i + j]);
        }
        assert forall|j: int| 0 <= j < e0.len() implies b[i + j] == #[trigger] e0[j] by {
            assert(el[j] == e0[j]);
        }
        let i2 = i + e0.len();
        assert forall|j: int|
            0 <= j < el_rest.len() implies b.subrange(i2, i2 + el_rest.len() as int)[j]
            == el_rest[j] by {
            assert(b[i2 + j] == el[e0.len() + j]);
            assert(el[e0.len() + j] == el_rest[j]);
        }
        assert(b.subrange(i2, i2 + el_rest.len() as int) =~= el_rest);
        assert(b[i2 + el_rest.len()] == 0x22);
        lemma_parse_escaped(b, i2, rest);
        if c == 0x22 {
            assert(b[i] == 0x5c && b[i + 1] == 0x22);
            assert(sp_string_body(b, i) == Some((seq![c] + rest, i + el.len() + 1)));
            assert(seq![c] + rest =~= s);
        } else if c == 0x5c {
            assert(b[i] == 0x5c && b[i + 1] == 0x5c);
            assert(seq![c] + rest =~= s);
        } else if c < 0x20 {
            assert(b[i] == 0x5c && b[i + 1] == 0x75 && b[i + 2] == 0x30 && b[i + 3] == 0x30);
            assert(b[i + 4] == spec_hex_digit(c / 16) && b[i + 5] == spec_hex_digit(c % 16));
            lemma_hex_digit_roundtrip(c / 16);
            lemma_hex_digit_roundtrip(c % 16);
            assert(crate::jparse::hex4(b, i + 2) == Some(
                (16 * ((c / 16) as u32) + ((c % 16) as u32)) as u32,
            ));
            assert(16 * ((c / 16) as u32) + ((c % 16) as u32) == c as u32);
            assert(utf8_enc(c as u32) =~= seq![c]);
            assert(seq![c] + rest =~= s);
            assert(sp_string_body(b, i) == Some((s, i + el.len() + 1)));
        } else {
            assert(e0 =~= seq![c]);
            assert(b[i + 0] == e0[0]);
            assert(b[i] == c);
            assert(b[i] != 0x22 && b[i] != 0x5c && !(b[i] < 0x20));
            assert(seq![c] + rest =~= s);
        }
    }
}

/// A matched segment gives the byte at every offset.
proof fn lemma_bytes_at(b: Seq<u8>, i: int, seg: Seq<u8>)
    requires
        0 <= i,
        i + seg.len() <= b.len(),
        b.subrange(i, i + seg.len() as int) == seg,
    ensures
        forall|j: int| 0 <= j < seg.len() ==> b[i + j] == #[trigger] seg[j],
{
    assert forall|j: int| 0 <= j < seg.len() implies b[i + j] == #[trigger] seg[j] by {
        assert(b.subrange(i, i + seg.len() as int)[j] == b[i + j]);
    }
}

/// A matched segment matches on every sub-segment.
proof fn lemma_seg_sub(b: Seq<u8>, i: int, seg: Seq<u8>, lo: int, hi: int)
    requires
        0 <= i,
        i + seg.len() <= b.len(),
        b.subrange(i, i + seg.len() as int) == seg,
        0 <= lo <= hi <= seg.len(),
    ensures
        b.subrange(i + lo, i + hi) == seg.subrange(lo, hi),
{
    lemma_bytes_at(b, i, seg);
    assert forall|j: int| 0 <= j < hi - lo implies b.subrange(i + lo, i + hi)[j] == seg.subrange(
        lo,
        hi,
    )[j] by {
        assert(b[i + (lo + j)] == seg[lo + j]);
    }
    assert(b.subrange(i + lo, i + hi) =~= seg.subrange(lo, hi));
}

/// A maximal run of number characters ends exactly where the run does.
proof fn lemma_num_end_run(b: Seq<u8>, i: int, e: int)
    requires
        0 <= i <= e <= b.len(),
        forall|j: int| i <= j < e ==> is_num_char(#[trigger] b[j]),
        e == b.len() || !is_num_char(b[e]),
    ensures
        num_end(b, i) == e,
    decreases e - i,
{
    if i < e {
        lemma_num_end_run(b, i + 1, e);
    }
}

/// Reading back a written number lexeme yields the lexeme.
proof fn lemma_parse_number_at(b: Seq<u8>, i: int, t: Seq<u8>)
    requires
        0 <= i,
        t.len() > 0,
        forall|j: int| 0 <= j < t.len() ==> is_num_char(#[trigger] t[j]),
        i + t.len() <= b.len(),
        b.subrange(i, i + t.len() as int) == t,
        i + t.len() == b.len() || !is_num_char(b[i + t.len()]),
    ensures
        sp_number(b, i) == Some((t, i + t.len() as int)),
{
    lemma_bytes_at(b, i, t);
    assert forall|j: int| i <= j < i + t.len() implies is_num_char(#[trigger] b[j]) by {
        assert(b[i + (j - i)] == t[j - i]);
    }
    lemma_num_end_run(b, i, i + t.len());
}

/// The written form of a well-formed value is non-empty, and its first byte
/// is a value start: never whitespace nor a closing or separating
/// punctuation byte.
proof fn lemma_json_bytes_first(m: JsonModel)
    requires
        wf_json(m),
    ensures
        json_bytes(m).len() > 0,
        !is_ws(json_bytes(m)[0]),
        json_bytes(m)[0] != 0x5d,
        json_bytes(m)[0] != 0x7d,
        json_bytes(m)[0] != 0x2c,
        json_bytes(m)[0] != 0x3a,
{
    match m {
        JsonModel::Null => {},
        JsonModel::Bool(x) => {},
        JsonModel::Num(t) => {
            assert(json_bytes(m) == t);
        },
        JsonModel::Str(s) => {
            assert(json_bytes(m)[0] == 0x22);
        },
        JsonModel::Arr(items) => {
            assert(json_bytes(m)[0] == 0x5b);
        },
        JsonModel::Obj(members) => {
            assert(json_bytes(m)[0] == 0x7b);
        },
    }
}

/// The comma-joined form of an array body, taken from the front: the first
/// element's bytes, then a comma and the rest when more elements follow.
proof fn lemma_arr_prefix_cons(ms: Seq<JsonModel>, n: int)
    requires
        1 <= n <= ms.len(),
    ensures
        n == 1 ==> crate::json::arr_bytes_prefix(ms, n) == json_bytes(ms[0]),
        n > 1 ==> crate::json::arr_bytes_prefix(ms, n) == json_bytes(ms[0]) + seq![0x2cu8]
            + crate::json::arr_bytes_prefix(ms.drop_first(), n - 1),
    decreases n,
{
    if n == 1 {
    } else if n == 2 {
        assert(ms.drop_first()[0] == ms[1]);
        assert(crate::json::arr_bytes_prefix(ms.drop_first(), 1) == json_bytes(ms[1]));
        assert(crate::json::arr_bytes_prefix(ms, 1) == json_bytes(ms[0]));
        assert(crate::json::arr_bytes_prefix(ms, 2) == crate::json::arr_bytes_prefix(ms, 1)
            + seq![0x2cu8] + json_bytes(ms[1]));
        assert(crate::json::arr_bytes_prefix(ms, 2) =~= json_bytes(ms[0]) + seq![0x2cu8]
            + crate::json::arr_bytes_prefix(ms.drop_first(), 1));
    } else {
        lemma_arr_prefix_cons(ms, n - 1);
        assert(ms.drop_first()[n - 2] == ms[n - 1]);
        assert(crate::json::arr_bytes_prefix(ms.drop_first(), n - 1)
            == crate::json::arr_bytes_prefix(ms.drop_first(), n - 2) + seq![0x2cu8] + json_bytes(
            ms.drop_first()[n - 2],
        ));
        assert(crate::json::arr_bytes_prefix(ms, n) =~= json_bytes(ms[0]) + seq![0x2cu8]
            + crate::json::arr_bytes_prefix(ms.drop_first(), n - 1));
    }
}

/// The comma-joined form of an object body, taken from the front.
proof fn lemma_obj_prefix_cons(ms: Seq<(Seq<u8>, JsonModel)>, n: int)
    requires
        1 <= n <= ms.len(),
    ensures
        n == 1 ==> crate::json::obj_bytes_prefix(ms, n) == crate::json::member_bytes(ms[0]),
        n > 1 ==> crate::json::obj_bytes_prefix(ms, n) == crate::json::member_bytes(ms[0])
            + seq![0x2cu8] + crate::json::obj_bytes_prefix(ms.drop_first(), n - 1),
    decreases n,
{
    if n == 1 {
    } else if n == 2 {
        assert(ms.drop_first()[0] == ms[1]);
        assert(crate::json::obj_bytes_prefix(ms.drop_first(), 1) == crate::json::member_bytes(
            ms[1],
        ));
        assert(crate::json::obj_bytes_prefix(ms, 1) == crate::json::member_bytes(ms[0]));
        assert(crate::json::obj_bytes_prefix(ms, 2) == crate::json::obj_bytes_prefix(ms, 1)
            + seq![0x2cu8] + crate::json::member_bytes(ms[1]));
        assert(crate::json::obj_bytes_prefix(ms, 2) =~= crate::json::member_bytes(ms[0])
            + seq![0x2cu8] + crate::json::obj_bytes_prefix(ms.drop_first(), 1));
    } else {
        lemma_obj_prefix_cons(ms, n - 1);
        assert(ms.drop_first()[n - 2] == ms[n - 1]);
        assert(crate::json::obj_bytes_prefix(ms.drop_first(), n - 1)
            == crate::json::obj_bytes_prefix(ms.drop_first(), n - 2) + seq![0x2cu8]
            + crate::json::member_bytes(ms.drop_first()[n - 2]));
        assert(crate::json::obj_bytes_prefix(ms, n) =~= crate::json::member_bytes(ms[0])
            + seq![0x2cu8] + crate::json::obj_bytes_prefix(ms.drop_first(), n - 1));
    }
}

/// Reading back a written value: the wire bytes of a well-formed model,
/// embedded at `i`, parse to exactly that model. The side condition on
/// numbers keeps the maximal lexeme from running into following bytes; at
/// every use below, the next byte is a separator or the input ends there.
#[verifier::rlimit(100)]
proof fn lemma_parse_value_at(b: Seq<u8>, i: int, m: JsonModel)
    requires
        wf_json(m),
        0 <= i,
        i + json_bytes(m).len() <= b.len(),
        b.subrange(i, i + json_bytes(m).len() as int) == json_bytes(m),
        m is Num ==> i + json_bytes(m).len() == b.len() || !is_num_char(
            b[i + json_bytes(m).len()],
        ),
    ensures
        sp_value(b, i) == Some((m, i + json_bytes(m).len() as int)),
    decreases m, 0int,
{
    let w = json_bytes(m);
    lemma_json_bytes_first(m);
    lemma_bytes_at(b, i, w);
    assert(b[i + 0] == w[0]);
    lemma_skip_ws_noop(b, i);
    match m {
        JsonModel::Null => {
            assert(w =~= seq![0x6eu8, 0x75u8, 0x6cu8, 0x6cu8]);
            assert(b[i + 1] == 0x75 && b[i + 2] == 0x6c && b[i + 3] == 0x6c);
        },
        JsonModel::Bool(x) => {
            if x {
                assert(w =~= seq![0x74u8, 0x72u8, 0x75u8, 0x65u8]);
                assert(b[i + 1] == 0x72 && b[i + 2] == 0x75 && b[i + 3] == 0x65);
            } else {
                assert(w =~= seq![0x66u8, 0x61u8, 0x6cu8, 0x73u8, 0x65u8]);
                assert(b[i + 1] == 0x61 && b[i + 2] == 0x6c && b[i + 3] == 0x73 && b[i + 4]
                    == 0x65);
            }
        },
        JsonModel::Num(t) => {
            assert(w == t);
            assert(b[i] == t[0]);
            lemma_parse_number_at(b, i, t);
        },
        JsonModel::Str(s) => {
            let el = esc_prefix(s, s.len() as int);
            assert(w == seq![0x22u8] + el + seq![0x22u8]);
            assert(b[i] == 0x22);
            assert forall|j: int|
                0 <= j < el.len() implies b.subrange(i + 1, i + 1 + el.len() as int)[j]
                == el[j] by {
                assert(b[i + (1 + j)] == w[1 + j]);
                assert(w[1 + j] == el[j]);
            }
            assert(b.subrange(i + 1, i + 1 + el.len() as int) =~= el);
            assert(b[i + (1 + el.len())] == w[1 + el.len() as int]);
            assert(w[1 + el.len() as int] == 0x22);
            lemma_parse_escaped(b, i + 1, s);
        },
        JsonModel::Arr(items) => {
            assert(b[i] == 0x5b);
            let pre = arr_bytes_prefix(items, items.len() as int);
            assert(w == seq![0x5bu8] + pre + seq![0x5du8]);
            if items.len() == 0 {
                assert(pre.len() == 0);
                assert(b[i + 1] == w[1]);
                assert(w[1] == 0x5d);
                lemma_skip_ws_noop(b, i + 1);
                assert(items =~= Seq::<JsonModel>::empty());
            } else {
                lemma_arr_prefix_cons(items, items.len() as int);
                assert(decreases_to!(m => m->Arr_0));
                lemma_json_bytes_first(items[0]);
                assert(b[i + 1] == w[1]);
                assert(w[1] == pre[0]);
                assert(pre[0] == json_bytes(items[0])[0]);
                lemma_skip_ws_noop(b, i + 1);
                assert forall|j: int|
                    0 <= j < pre.len() implies b.subrange(i + 1, i + 1 + pre.len() as int)[j]
                    == pre[j] by {
                    assert(b[i + (1 + j)] == w[1 + j]);
                    assert(w[1 + j] == pre[j]);
                }
                assert(b.subrange(i + 1, i + 1 + pre.len() as int) =~= pre);
                assert(b[i + 1 + pre.len()] == w[1 + pre.len() as int]);
                assert(w[1 + pre.len() as int] == 0x5d);
                lemma_parse_elements_at(b, i + 1, items);
            }
        },
        JsonModel::Obj(members) => {
            assert(b[i] == 0x7b);
            let pre = obj_bytes_prefix(members, members.len() as int);
            assert(w == seq![0x7bu8] + pre + seq![0x7du8]);
            if members.len() == 0 {
                assert(pre.len() == 0);
                assert(b[i + 1] == w[1]);
                assert(w[1] == 0x7d);
                lemma_skip_ws_noop(b, i + 1);
                assert(members =~= Seq::<(Seq<u8>, JsonModel)>::empty());
            } else {
                lemma_obj_prefix_cons(members, members.len() as int);
                assert(decreases_to!(m => m->Obj_0));
                assert(b[i + 1] == w[1]);
                assert(w[1] == pre[0]);
                assert(pre[0] == member_bytes(members[0])[0]);
                assert(member_bytes(members[0])[0] == string_bytes(members[0].0)[0]);
                assert(string_bytes(members[0].0)[0] == 0x22);
                lemma_skip_ws_noop(b, i + 1);
                assert forall|j: int|
                    0 <= j < pre.len() implies b.subrange(i + 1, i + 1 + pre.len() as int)[j]
                    == pre[j] by {
                    assert(b[i + (1 + j)] == w[1 + j]);
                    assert(w[1 + j] == pre[j]);
                }
                assert(b.subrange(i + 1, i + 1 + pre.len() as int) =~= pre);
                assert(b[i + 1 + pre.len()] == w[1 + pre.len() as int]);
                assert(w[1 + pre.len() as int] == 0x7d);
                lemma_parse_members_at(b, i + 1, members);
            }
        },
    }
}

/// Reading back a written element list: the comma-joined bytes followed by
/// the closing bracket parse to exactly the written elements.
#[verifier::rlimit(100)]
proof fn lemma_parse_elements_at(b: Seq<u8>, i: int, ms: Seq<JsonModel>)
    requires
        0 <= i,
        ms.len() > 0,
        forall|k: int| 0 <= k < ms.len() ==> wf_json(#[trigger] ms[k]),
        i + arr_bytes_prefix(ms, ms.len() as int).len() + 1 <= b.len(),
        b.subrange(i, i + arr_bytes_prefix(ms, ms.len() as int).len()) == arr_bytes_prefix(
            ms,
            ms.len() as int,
        ),
        b[i + arr_bytes_prefix(ms, ms.len() as int).len()] == 0x5d,
    ensures
        sp_elements(b, i) == Some((ms, i + arr_bytes_prefix(ms, ms.len() as int).len() + 1)),
    decreases ms, 1int,
{
    let pre = arr_bytes_prefix(ms, ms.len() as int);
    lemma_arr_prefix_cons(ms, ms.len() as int);
    let m0 = ms[0];
    let w0 = json_bytes(m0);
    assert(decreases_to!(ms => ms[0]));
    lemma_json_bytes_first(m0);
    lemma_bytes_at(b, i, pre);
    if ms.len() == 1 {
        assert(pre == w0);
        lemma_parse_value_at(b, i, m0);
        lemma_skip_ws_noop(b, i + w0.len());
        assert(seq![m0] =~= ms);
    } else {
        let rest = ms.drop_first();
        let pre_rest = arr_bytes_prefix(rest, rest.len() as int);
        assert(pre == w0 + seq![0x2cu8] + pre_rest);
        lemma_seg_sub(b, i, pre, 0, w0.len() as int);
        assert(pre.subrange(0, w0.len() as int) =~= w0);
        assert(b[i + w0.len()] == pre[w0.len() as int]);
        assert(pre[w0.len() as int] == 0x2c);
        lemma_parse_value_at(b, i, m0);
        lemma_skip_ws_noop(b, i + w0.len());
        let i2 = i + w0.len() + 1;
        lemma_seg_sub(b, i, pre, w0.len() as int + 1, pre.len() as int);
        assert(pre.subrange(w0.len() as int + 1, pre.len() as int) =~= pre_rest);
        assert(i2 + pre_rest.len() == i + pre.len());
        assert forall|k: int| 0 <= k < rest.len() implies wf_json(#[trigger] rest[k]) by {
            assert(rest[k] == ms[k + 1]);
        }
        assert(decreases_to!(ms => ms.subrange(1, ms.len() as int)));
        lemma_parse_elements_at(b, i2, rest);
        assert(seq![m0] + rest =~= ms);
    }
}

/// Reading back a written member list: the comma-joined key-value bytes
/// followed by the closing brace parse to exactly the written members.
#[verifier::rlimit(100)]
proof fn lemma_parse_members_at(b: Seq<u8>, i: int, ms: Seq<(Seq<u8>, JsonModel)>)
    requires
        0 <= i,
        ms.len() > 0,
        forall|k: int| 0 <= k < ms.len() ==> wf_json((#[trigger] ms[k]).1),
        i + obj_bytes_prefix(ms, ms.len() as int).len() + 1 <= b.len(),
        b.subrange(i, i + obj_bytes_prefix(ms, ms.len() as int).len()) == obj_bytes_prefix(
            ms,
            ms.len() as int,
        ),
        b[i + obj_bytes_prefix(ms, ms.len() as int).len()] == 0x7d,
    ensures
        sp_members(b, i) == Some((ms, i + obj_bytes_prefix(ms, ms.len() as int).len() + 1)),
    decreases ms, 1int,
{
    let pre = obj_bytes_prefix(ms, ms.len() as int);
    lemma_obj_prefix_cons(ms, ms.len() as int);
    let key = ms[0].0;
    let v = ms[0].1;
    let w_m = member_bytes(ms[0]);
    let w_k = string_bytes(key);
    let w_v = json_bytes(v);
    let el_k = esc_prefix(key, key.len() as int);
    assert(decreases_to!(ms => ms[0]));
    assert(decreases_to!(ms[0] => ms[0].1));
    lemma_json_bytes_first(v);
    lemma_bytes_at(b, i, pre);
    assert(w_m == w_k + seq![0x3au8] + w_v);
    assert(w_k == seq![0x22u8] + el_k + seq![0x22u8]);
    // The member's bytes sit at the front of the segment.
    assert forall|j: int| 0 <= j < w_m.len() implies b[i + j] == #[trigger] w_m[j] by {
        assert(pre[j] == w_m[j]);
        assert(b[i + j] == pre[j]);
    }
    // The key string parses back.
    assert(b[i + 0] == w_m[0]);
    assert(w_m[0] == w_k[0]);
    assert(w_k[0] == 0x22);
    assert(b[i] == 0x22);
    lemma_skip_ws_noop(b, i);
    assert forall|j: int|
        0 <= j < el_k.len() implies b.subrange(i + 1, i + 1 + el_k.len() as int)[j]
        == el_k[j] by {
        assert(b[i + (1 + j)] == w_m[1 + j]);
        assert(w_m[1 + j] == w_k[1 + j]);
        assert(w_k[1 + j] == el_k[j]);
    }
    assert(b.subrange(i + 1, i + 1 + el_k.len() as int) =~= el_k);
    assert(b[i + (1 + el_k.len())] == w_m[1 + el_k.len() as int]);
    assert(w_m[1 + el_k.len() as int] == w_k[1 + el_k.len() as int]);
    assert(w_k[1 + el_k.len() as int] == 0x22);
    lemma_parse_escaped(b, i + 1, key);
    let k = i + w_k.len();
    assert(sp_string_body(b, i + 1) == Some((key, k)));
    // The colon, then the value.
    assert(b[i + w_k.len()] == w_m[w_k.len() as int]);
    assert(w_m[w_k.len() as int] == 0x3a);
    lemma_skip_ws_noop(b, k);
    let iv = k + 1;
    assert forall|j: int|
        0 <= j < w_v.len() implies b.subrange(iv, iv + w_v.len() as int)[j] == w_v[j] by {
        assert(b[iv + j] == w_m[w_k.len() + 1 + j]);
        assert(w_m[w_k.len() + 1 + j] == w_v[j]);
    }
    assert(b.subrange(iv, iv + w_v.len() as int) =~= w_v);
    // After the value: a comma and the remaining members, or the brace.
    if ms.len() == 1 {
        assert(pre == w_m);
        assert(b[iv + w_v.len()] == 0x7d);
        assert(!is_num_char(0x7du8));
        lemma_parse_value_at(b, iv, v);
        lemma_skip_ws_noop(b, iv + w_v.len());
        assert(seq![(key, v)] =~= ms);
    } else {
        let rest = ms.drop_first();
        let pre_rest = obj_bytes_prefix(rest, rest.len() as int);
        assert(pre == w_m + seq![0x2cu8] + pre_rest);
        assert(b[iv + w_v.len()] == pre[w_m.len() as int]);
        assert(pre[w_m.len() as int] == 0x2c);
        assert(!is_num_char(0x2cu8));
        lemma_parse_value_at(b, iv, v);
        lemma_skip_ws_noop(b, iv + w_v.len());
        let i2 = iv + w_v.len() + 1;
        assert(i2 == i + w_m.len() + 1);
        lemma_seg_sub(b, i, pre, w_m.len() as int + 1, pre.len() as int);
        assert(pre.subrange(w_m.len() as int + 1, pre.len() as int) =~= pre_rest);
        assert(i2 + pre_rest.len() == i + pre.len());
        assert forall|kk: int| 0 <= kk < rest.len() implies wf_json((#[trigger] rest[kk]).1) by {
            assert(rest[kk] == ms[kk + 1]);
        }
        assert(decreases_to!(ms => ms.subrange(1, ms.len() as int)));
        lemma_parse_members_at(b, i2, rest);
        assert(seq![(key, v)] + rest =~= ms);
    }
}

/// The codec round trip: the wire bytes of any well-formed document parse
/// back to exactly that document.
pub proof fn lemma_document_roundtrip(m: JsonModel)
    requires
        wf_json(m),
    ensures
        sp_document(json_bytes(m)) == Some(m),
{
    let b = json_bytes(m);
    assert(b.subrange(0, b.len() as int) =~= b);
    lemma_parse_value_at(b, 0, m);
}

/// Every member value in the list is well-formed.
pub open spec fn wf_members(ms: Seq<(Seq<u8>, JsonModel)>) -> bool {
    forall|i: int| 0 <= i < ms.len() ==> wf_json((#[trigger] ms[i]).1)
}

/// Joining two well-formed member lists keeps well-formedness.
proof fn lemma_wf_obj_concat(a: Seq<(Seq<u8>, JsonModel)>, c: Seq<(Seq<u8>, JsonModel)>)
    requires
        wf_members(a),
        wf_members(c),
    ensures
        wf_members(a + c),
{
    assert forall|i: int| 0 <= i < (a + c).len() implies wf_json((#[trigger] (a + c)[i]).1) by {
        if i < a.len() {
            assert((a + c)[i] == a[i]);
        } else {
            assert((a + c)[i] == c[i - a.len()]);
        }
    }
}

/// A single well-formed member forms a well-formed member list.
proof fn lemma_wf_obj_singleton(k: Seq<u8>, v: JsonModel)
    requires
        wf_json(v),
    ensures
        wf_members(seq![(k, v)]),
{
    assert forall|i: int| 0 <= i < 1 implies wf_json((#[trigger] seq![(k, v)][i]).1) by {
        assert(seq![(k, v)][i] == (k, v));
    }
}

/// An empty member list is well-formed.
proof fn lemma_wf_obj_empty()
    ensures
        wf_members(Seq::<(Seq<u8>, JsonModel)>::empty()),
{
}

/// The wire object of a message is well-formed, as long as its opaque data
/// payload (the one field a caller supplies as a JSON document) is.
#[verifier::rlimit(100)]
proof fn lemma_message_json_wf(m: crate::message::MessageModel)
    requires
        match m.data {
            Some(d) => wf_json(d),
            None => true,
        },
    ensures
        wf_json(crate::message::message_json(m)),
{
    let s0 = seq![
        (vstd::utf8::encode_utf8("to"@), crate::message::to_json_arr(m.to)),
    ];
    let s1 = crate::message::opt_str_member("title"@, m.title);
    let s2 = crate::message::opt_str_member("body"@, m.body);
    let s3 = crate::message::opt_json_member("data"@, m.data);
    let s4 = crate::message::opt_num_member("ttl"@, m.ttl);
    let s5 = crate::message::opt_num_member("expiration"@, m.expiration);
    let s6: Seq<(Seq<u8>, JsonModel)> = match m.priority {
        Some(p) => seq![
            (vstd::utf8::encode_utf8("priority"@), crate::message::priority_json(p)),
        ],
        None => Seq::empty(),
    };
    let s7 = crate::message::opt_str_member("subtitle"@, m.subtitle);
    let s8: Seq<(Seq<u8>, JsonModel)> = match m.sound {
        Some(s) => seq![(vstd::utf8::encode_utf8("sound"@), crate::message::sound_json(s))],
        None => Seq::empty(),
    };
    let s9 = crate::message::opt_num_member("badge"@, m.badge);
    let s10 = crate::message::opt_str_member("channelId"@, m.channel_id);
    let s11 = crate::message::opt_str_member("categoryId"@, m.category_id);
    let s12 = crate::message::opt_bool_member("mutableContent"@, m.mutable_content);
    let s13: Seq<(Seq<u8>, JsonModel)> = match m.rich_content {
        Some(rc) => seq![
            (vstd::utf8::encode_utf8("richContent"@), crate::message::rich_json(rc)),
        ],
        None => Seq::empty(),
    };
    let s14 = crate::message::opt_bool_member("_contentAvailable"@, m.content_available);
    let s15: Seq<(Seq<u8>, JsonModel)> = match m.interruption_level {
        Some(l) => seq![
            (vstd::utf8::encode_utf8("interruptionLevel"@), crate::message::level_json(l)),
        ],
        None => Seq::empty(),
    };
    assert(crate::message::message_members(m) == s0 + s1 + s2 + s3 + s4 + s5 + s6 + s7 + s8 + s9
        + s10 + s11 + s12 + s13 + s14 + s15);
    assert(wf_json(crate::message::to_json_arr(m.to))) by {
        let mapped = m.to.map_values(|t: Seq<char>| JsonModel::Str(vstd::utf8::encode_utf8(t)));
        assert(forall|i: int| 0 <= i < mapped.len() ==> wf_json(#[trigger] mapped[i]));
    }
    lemma_wf_obj_singleton(
        vstd::utf8::encode_utf8("to"@),
        crate::message::to_json_arr(m.to),
    );
    match m.title {
        Some(v) => lemma_wf_obj_singleton(
            vstd::utf8::encode_utf8("title"@),
            JsonModel::Str(vstd::utf8::encode_utf8(v)),
        ),
        None => lemma_wf_obj_empty(),
    }
    match m.body {
        Some(v) => lemma_wf_obj_singleton(
            vstd::utf8::encode_utf8("body"@),
            JsonModel::Str(vstd::utf8::encode_utf8(v)),
        ),
        None => lemma_wf_obj_empty(),
    }
    match m.data {
        Some(d) => lemma_wf_obj_singleton(vstd::utf8::encode_utf8("data"@), d),
        None => lemma_wf_obj_empty(),
    }
    match m.ttl {
        Some(n) => {
            crate::json::lemma_dec_digits_digits(n as nat);
            assert(wf_json(JsonModel::Num(crate::json::dec_digits(n as nat))));
            lemma_wf_obj_singleton(
                vstd::utf8::encode_utf8("ttl"@),
                JsonModel::Num(crate::json::dec_digits(n as nat)),
            );
        },
        None => lemma_wf_obj_empty(),
    }
    match m.expiration {
        Some(n) => {
            crate::json::lemma_dec_digits_digits(n as nat);
            assert(wf_json(JsonModel::Num(crate::json::dec_digits(n as nat))));
            lemma_wf_obj_singleton(
                vstd::utf8::encode_utf8("expiration"@),
                JsonModel::Num(crate::json::dec_digits(n as nat)),
            );
        },
        None => lemma_wf_obj_empty(),
    }
    match m.priority {
        Some(p) => lemma_wf_obj_singleton(
            vstd::utf8::encode_utf8("priority"@),
            crate::message::priority_json(p),
        ),
        None => lemma_wf_obj_empty(),
    }
    match m.subtitle {
        Some(v) => lemma_wf_obj_singleton(
            vstd::utf8::encode_utf8("subtitle"@),
            JsonModel::Str(vstd::utf8::encode_utf8(v)),
        ),
        None => lemma_wf_obj_empty(),
    }
    match m.sound {
        Some(s) => lemma_wf_obj_singleton(
            vstd::utf8::encode_utf8("sound"@),
            crate::message::sound_json(s),
        ),
        None => lemma_wf_obj_empty(),
    }
    match m.badge {
        Some(n) => {
            crate::json::lemma_dec_digits_digits(n as nat);
            assert(wf_json(JsonModel::Num(crate::json::dec_digits(n as nat))));
            lemma_wf_obj_singleton(
                vstd::utf8::encode_utf8("badge"@),
                JsonModel::Num(crate::json::dec_digits(n as nat)),
            );
        },
        None => lemma_wf_obj_empty(),
    }
    match m.channel_id {
        Some(v) => lemma_wf_obj_singleton(
            vstd::utf8::encode_utf8("channelId"@),
            JsonModel::Str(vstd::utf8::encode_utf8(v)),
        ),
        None => lemma_wf_obj_empty(),
    }
    match m.category_id {
        Some(v) => lemma_wf_obj_singleton(
            vstd::utf8::encode_utf8("categoryId"@),
            JsonModel::Str(vstd::utf8::encode_utf8(v)),
        ),
        None => lemma_wf_obj_empty(),
    }
    match m.mutable_content {
        Some(v) => lemma_wf_obj_singleton(
            vstd::utf8::encode_utf8("mutableContent"@),
            JsonModel::Bool(v),
        ),
        None => lemma_wf_obj_empty(),
    }
    match m.rich_content {
        Some(rc) => {
            assert(wf_json(crate::message::rich_json(rc))) by {
                match rc.image {
                    Some(u) => lemma_wf_obj_singleton(
                        vstd::utf8::encode_utf8("image"@),
                        JsonModel::Str(vstd::utf8::encode_utf8(u)),
                    ),
                    None => lemma_wf_obj_empty(),
                }
            }
            lemma_wf_obj_singleton(
                vstd::utf8::encode_utf8("richContent"@),
                crate::message::rich_json(rc),
            );
        },
        None => lemma_wf_obj_empty(),
    }
    match m.content_available {
        Some(v) => lemma_wf_obj_singleton(
            vstd::utf8::encode_utf8("_contentAvailable"@),
            JsonModel::Bool(v),
        ),
        None => lemma_wf_obj_empty(),
    }
    match m.interruption_level {
        Some(l) => lemma_wf_obj_singleton(
            vstd::utf8::encode_utf8("interruptionLevel"@),
            crate::message::level_json(l),
        ),
        None => lemma_wf_obj_empty(),
    }
    lemma_wf_obj_concat(s0, s1);
    lemma_wf_obj_concat(s0 + s1, s2);
    lemma_wf_obj_concat(s0 + s1 + s2, s3);
    lemma_wf_obj_concat(s0 + s1 + s2 + s3, s4);
    lemma_wf_obj_concat(s0 + s1 + s2 + s3 + s4, s5);
    lemma_wf_obj_concat(s0 + s1 + s2 + s3 + s4 + s5, s6);
    lemma_wf_obj_concat(s0 + s1 + s2 + s3 + s4 + s5 + s6, s7);
    lemma_wf_obj_concat(s0 + s1 + s2 + s3 + s4 + s5 + s6 + s7, s8);
    lemma_wf_obj_concat(s0 + s1 + s2 + s3 + s4 + s5 + s6 + s7 + s8, s9);
    lemma_wf_obj_concat(s0 + s1 + s2 + s3 + s4 + s5 + s6 + s7 + s8 + s9, s10);
    lemma_wf_obj_concat(s0 + s1 + s2 + s3 + s4 + s5 + s6 + s7 + s8 + s9 + s10, s11);
    lemma_wf_obj_concat(s0 + s1 + s2 + s3 + s4 + s5 + s6 + s7 + s8 + s9 + s10 + s11, s12);
    lemma_wf_obj_concat(s0 + s1 + s2 + s3 + s4 + s5 + s6 + s7 + s8 + s9 + s10 + s11 + s12, s13);
    lemma_wf_obj_concat(
        s0 + s1 + s2 + s3 + s4 + s5 + s6 + s7 + s8 + s9 + s10 + s11 + s12 + s13,
        s14,
    );
    lemma_wf_obj_concat(
        s0 + s1 + s2 + s3 + s4 + s5 + s6 + s7 + s8 + s9 + s10 + s11 + s12 + s13 + s14,
        s15,
    );
    assert(wf_members(crate::message::message_members(m)));
}

/// The message round trip: the wire bytes of a message parse back to exactly
/// the object the message serializes to, as long as the opaque data payload
/// is well-formed (unset, or a document with sound number lexemes).
pub proof fn lemma_message_wire_roundtrip(m: crate::message::MessageModel)
    requires
        match m.data {
            Some(d) => wf_json(d),
            None => true,
        },
    ensures
        sp_document(crate::message::message_wire(m)) == Some(crate::message::message_json(m)),
{
    lemma_message_json_wf(m);
    lemma_document_roundtrip(crate::message::message_json(m));
}

/// The receipt-query round trip: the wire bytes of a receipt query parse
/// back to exactly the object the query serializes to, for every id list.
pub proof fn lemma_receipts_request_roundtrip(ids: Seq<Seq<char>>)
    ensures
        sp_document(crate::request::receipts_request_wire(ids)) == Some(
            crate::request::receipts_request_json(ids),
        ),
{
    let j = crate::request::receipts_request_json(ids);
    assert(wf_json(j)) by {
        let mapped = ids.map_values(|t: Seq<char>| JsonModel::Str(vstd::utf8::encode_utf8(t)));
        assert(forall|i: int| 0 <= i < mapped.len() ==> wf_json(#[trigger] mapped[i]));
        let ms = match j {
            JsonModel::Obj(ms) => ms,
            _ => Seq::empty(),
        };
        assert(forall|i: int| 0 <= i < ms.len() ==> wf_json((#[trigger] ms[i]).1));
    }
    lemma_document_roundtrip(j);
}

} // verus!
