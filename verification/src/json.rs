//! The JSON data model of the library and its wire form.
//!
//! Request bodies and response payloads travel as JSON text. The library
//! models a JSON document as a [`JsonValue`], whose mathematical counterpart
//! is [`JsonModel`]: the same tree with sequences in place of vectors.
//! [`json_bytes`] states the exact byte sequence a model serializes to, and
//! [`write_json`] produces it.
//!
//! Strings are carried as their decoded UTF-8 bytes; numbers are carried as
//! their unparsed lexemes. The library never interprets a number it did not
//! write itself, so keeping the lexeme loses nothing and keeps the model free
//! of floating point.

use vstd::prelude::*;

verus! {

broadcast use vstd::std_specs::vec::axiom_vec_index_decreases;

/// A JSON document: the executable form.
#[derive(Debug, PartialEq, Eq)]
pub enum JsonValue {
    Null,
    Bool(bool),
    /// A number, as its unparsed decimal lexeme.
    Num(Vec<u8>),
    /// A string, as its decoded UTF-8 bytes.
    Str(Vec<u8>),
    Arr(Vec<JsonValue>),
    /// An object, as its members in order of appearance.
    Obj(Vec<(Vec<u8>, JsonValue)>),
}

/// A JSON document: the mathematical form, used in contracts.
pub enum JsonModel {
    Null,
    Bool(bool),
    Num(Seq<u8>),
    Str(Seq<u8>),
    Arr(Seq<JsonModel>),
    Obj(Seq<(Seq<u8>, JsonModel)>),
}

/// The model of an executable JSON value.
pub open spec fn json_model(v: JsonValue) -> JsonModel
    decreases v, 1int, 0int,
{
    match v {
        JsonValue::Null => JsonModel::Null,
        JsonValue::Bool(b) => JsonModel::Bool(b),
        JsonValue::Num(t) => JsonModel::Num(t@),
        JsonValue::Str(t) => JsonModel::Str(t@),
        JsonValue::Arr(items) => JsonModel::Arr(arr_model_prefix(items, items@.len() as int)),
        JsonValue::Obj(members) => JsonModel::Obj(
            obj_model_prefix(members, members@.len() as int),
        ),
    }
}

/// The models of the first `n` elements of an array.
pub open spec fn arr_model_prefix(items: Vec<JsonValue>, n: int) -> Seq<JsonModel>
    decreases items, 0int, n,
{
    if n <= 0 || n > items@.len() {
        Seq::empty()
    } else {
        arr_model_prefix(items, n - 1).push(json_model(items@[n - 1]))
    }
}

/// The models of the first `n` members of an object.
pub open spec fn obj_model_prefix(members: Vec<(Vec<u8>, JsonValue)>, n: int) -> Seq<
    (Seq<u8>, JsonModel),
>
    decreases members, 0int, n,
{
    if n <= 0 || n > members@.len() {
        Seq::empty()
    } else {
        obj_model_prefix(members, n - 1).push(
            (members@[n - 1].0@, json_model(members@[n - 1].1)),
        )
    }
}

impl View for JsonValue {
    type V = JsonModel;

    open spec fn view(&self) -> JsonModel {
        json_model(*self)
    }
}

pub proof fn lemma_arr_model_prefix(items: Vec<JsonValue>, n: int)
    requires
        0 <= n <= items@.len(),
    ensures
        arr_model_prefix(items, n).len() == n,
        forall|i: int| 0 <= i < n ==> arr_model_prefix(items, n)[i] == json_model(items@[i]),
    decreases n,
{
    if n > 0 {
        lemma_arr_model_prefix(items, n - 1);
    }
}

pub proof fn lemma_obj_model_prefix(members: Vec<(Vec<u8>, JsonValue)>, n: int)
    requires
        0 <= n <= members@.len(),
    ensures
        obj_model_prefix(members, n).len() == n,
        forall|i: int|
            0 <= i < n ==> obj_model_prefix(members, n)[i] == (
                members@[i].0@,
                json_model(members@[i].1),
            ),
    decreases n,
{
    if n > 0 {
        lemma_obj_model_prefix(members, n - 1);
    }
}

pub proof fn lemma_arr_model_snoc(before: Vec<JsonValue>, after: Vec<JsonValue>, v: JsonValue)
    requires
        after@ == before@.push(v),
    ensures
        arr_model_prefix(after, after@.len() as int) == arr_model_prefix(
            before,
            before@.len() as int,
        ).push(json_model(v)),
{
    lemma_arr_model_prefix(after, after@.len() as int);
    lemma_arr_model_prefix(before, before@.len() as int);
    assert(arr_model_prefix(after, after@.len() as int) =~= arr_model_prefix(
        before,
        before@.len() as int,
    ).push(json_model(v)));
}

pub proof fn lemma_obj_model_snoc(
    before: Vec<(Vec<u8>, JsonValue)>,
    after: Vec<(Vec<u8>, JsonValue)>,
    key: Vec<u8>,
    v: JsonValue,
)
    requires
        after@ == before@.push((key, v)),
    ensures
        obj_model_prefix(after, after@.len() as int) == obj_model_prefix(
            before,
            before@.len() as int,
        ).push((key@, json_model(v))),
{
    lemma_obj_model_prefix(after, after@.len() as int);
    lemma_obj_model_prefix(before, before@.len() as int);
    assert(obj_model_prefix(after, after@.len() as int) =~= obj_model_prefix(
        before,
        before@.len() as int,
    ).push((key@, json_model(v))));
}

/// An ASCII hexadecimal digit, lowercase.
pub open spec fn spec_hex_digit(n: u8) -> u8 {
    if n < 10 {
        (0x30 + n) as u8
    } else {
        (0x57 + n) as u8
    }
}

/// The escaped wire form of one byte inside a JSON string: quote and
/// backslash get a backslash escape, control bytes a `\u00XX` escape, and
/// every other byte (including UTF-8 continuation bytes) passes through.
pub open spec fn esc_byte(b: u8) -> Seq<u8> {
    if b == 0x22 {
        seq![0x5cu8, 0x22u8]
    } else if b == 0x5c {
        seq![0x5cu8, 0x5cu8]
    } else if b < 0x20 {
        seq![0x5cu8, 0x75u8, 0x30u8, 0x30u8, spec_hex_digit(b / 16), spec_hex_digit(b % 16)]
    } else {
        seq![b]
    }
}

/// The escaped wire form of the first `n` bytes of a string body.
pub open spec fn esc_prefix(s: Seq<u8>, n: int) -> Seq<u8>
    decreases n,
{
    if n <= 0 || n > s.len() {
        Seq::empty()
    } else {
        esc_prefix(s, n - 1) + esc_byte(s[n - 1])
    }
}

/// The wire form of a JSON string: quoted and escaped.
pub open spec fn string_bytes(s: Seq<u8>) -> Seq<u8> {
    seq![0x22u8] + esc_prefix(s, s.len() as int) + seq![0x22u8]
}

/// The wire form of a JSON document. Members and elements are joined by
/// commas, with no whitespace anywhere; absent fields are absent members.
pub open spec fn json_bytes(m: JsonModel) -> Seq<u8>
    decreases m, 1int, 0int,
{
    match m {
        JsonModel::Null => seq![0x6eu8, 0x75u8, 0x6cu8, 0x6cu8],
        JsonModel::Bool(b) => if b {
            seq![0x74u8, 0x72u8, 0x75u8, 0x65u8]
        } else {
            seq![0x66u8, 0x61u8, 0x6cu8, 0x73u8, 0x65u8]
        },
        JsonModel::Num(t) => t,
        JsonModel::Str(s) => string_bytes(s),
        JsonModel::Arr(items) => seq![0x5bu8] + arr_bytes_prefix(items, items.len() as int)
            + seq![0x5du8],
        JsonModel::Obj(members) => seq![0x7bu8] + obj_bytes_prefix(members, members.len() as int)
            + seq![0x7du8],
    }
}

/// The comma-joined wire form of the first `n` elements of an array.
pub open spec fn arr_bytes_prefix(items: Seq<JsonModel>, n: int) -> Seq<u8>
    decreases items, 0int, n,
{
    if n <= 0 || n > items.len() {
        Seq::empty()
    } else if n == 1 {
        json_bytes(items[0])
    } else {
        arr_bytes_prefix(items, n - 1) + seq![0x2cu8] + json_bytes(items[n - 1])
    }
}

/// The wire form of one object member: quoted key, colon, value.
pub open spec fn member_bytes(m: (Seq<u8>, JsonModel)) -> Seq<u8>
    decreases m, 0int, 0int,
{
    string_bytes(m.0) + seq![0x3au8] + json_bytes(m.1)
}

/// The comma-joined wire form of the first `n` members of an object.
pub open spec fn obj_bytes_prefix(members: Seq<(Seq<u8>, JsonModel)>, n: int) -> Seq<u8>
    decreases members, 0int, n,
{
    if n <= 0 || n > members.len() {
        Seq::empty()
    } else if n == 1 {
        member_bytes(members[0])
    } else {
        obj_bytes_prefix(members, n - 1) + seq![0x2cu8] + member_bytes(members[n - 1])
    }
}

/// An ASCII hexadecimal digit, lowercase.
fn hex_digit(n: u8) -> (r: u8)
    requires
        n < 16,
    ensures
        r == spec_hex_digit(n),
{
    if n < 10 {
        0x30 + n
    } else {
        0x57 + n
    }
}

/// Appends a copy of `src` to `out`.
pub(crate) fn push_bytes(out: &mut Vec<u8>, src: &[u8])
    ensures
        final(out)@ == old(out)@ + src@,
{
    let n = src.len();
    for i in 0..n
        invariant
            n == src@.len(),
            out@ == old(out)@ + src@.subrange(0, i as int),
    {
        out.push(src[i]);
        assert(src@.subrange(0, i + 1) =~= src@.subrange(0, i as int).push(src@[i as int]));
    }
    assert(src@.subrange(0, n as int) =~= src@);
}

/// Appends the quoted, escaped wire form of a string body to `out`.
fn write_string_bytes(s: &Vec<u8>, out: &mut Vec<u8>)
    ensures
        final(out)@ == old(out)@ + string_bytes(s@),
{
    out.push(0x22);
    let n = s.len();
    for i in 0..n
        invariant
            n == s@.len(),
            out@ == old(out)@ + seq![0x22u8] + esc_prefix(s@, i as int),
    {
        let b = s[i];
        if b == 0x22 {
            out.push(0x5c);
            out.push(0x22);
        } else if b == 0x5c {
            out.push(0x5c);
            out.push(0x5c);
        } else if b < 0x20 {
            out.push(0x5c);
            out.push(0x75);
            out.push(0x30);
            out.push(0x30);
            out.push(hex_digit(b / 16));
            out.push(hex_digit(b % 16));
        } else {
            out.push(b);
        }
        assert(out@ =~= old(out)@ + seq![0x22u8] + (esc_prefix(s@, i as int) + esc_byte(s@[i as int])));
    }
    out.push(0x22);
    assert(out@ =~= old(out)@ + string_bytes(s@));
}

/// Appends the wire form of `v` to `out`.
pub fn write_json(v: &JsonValue, out: &mut Vec<u8>)
    ensures
        final(out)@ == old(out)@ + json_bytes(v@),
    decreases *v,
{
    match v {
        JsonValue::Null => {
            out.push(0x6e);
            out.push(0x75);
            out.push(0x6c);
            out.push(0x6c);
            assert(out@ =~= old(out)@ + json_bytes(v@));
        },
        JsonValue::Bool(b) => {
            if *b {
                out.push(0x74);
                out.push(0x72);
                out.push(0x75);
                out.push(0x65);
            } else {
                out.push(0x66);
                out.push(0x61);
                out.push(0x6c);
                out.push(0x73);
                out.push(0x65);
            }
            assert(out@ =~= old(out)@ + json_bytes(v@));
        },
        JsonValue::Num(t) => {
            push_bytes(out, t.as_slice());
        },
        JsonValue::Str(t) => {
            write_string_bytes(t, out);
        },
        JsonValue::Arr(items) => {
            proof {
                lemma_arr_model_prefix(*items, items@.len() as int);
            }
            let ghost m_items = arr_model_prefix(*items, items@.len() as int);
            out.push(0x5b);
            let n = items.len();
            for i in 0..n
                invariant
                    n == items@.len(),
                    m_items == arr_model_prefix(*items, items@.len() as int),
                    m_items.len() == n,
                    forall|j: int| 0 <= j < n ==> m_items[j] == json_model(items@[j]),
                    *v == JsonValue::Arr(*items),
                    out@ == old(out)@ + seq![0x5bu8] + arr_bytes_prefix(m_items, i as int),
            {
                if i > 0 {
                    out.push(0x2c);
                }
                proof {
                    assert(decreases_to!(*v => v->Arr_0));
                    assert(decreases_to!(v->Arr_0 => v->Arr_0@));
                    assert(decreases_to!(v->Arr_0@ => v->Arr_0@[i as int]));
                    assert(decreases_to!(*v => items@[i as int]));
                }
                write_json(&items[i], out);
                assert(out@ =~= old(out)@ + seq![0x5bu8] + arr_bytes_prefix(m_items, i + 1));
            }
            out.push(0x5d);
            assert(out@ =~= old(out)@ + json_bytes(v@));
        },
        JsonValue::Obj(members) => {
            proof {
                lemma_obj_model_prefix(*members, members@.len() as int);
            }
            let ghost m_members = obj_model_prefix(*members, members@.len() as int);
            out.push(0x7b);
            let n = members.len();
            for i in 0..n
                invariant
                    n == members@.len(),
                    m_members == obj_model_prefix(*members, members@.len() as int),
                    m_members.len() == n,
                    forall|j: int|
                        0 <= j < n ==> m_members[j] == (members@[j].0@, json_model(members@[j].1)),
                    *v == JsonValue::Obj(*members),
                    out@ == old(out)@ + seq![0x7bu8] + obj_bytes_prefix(m_members, i as int),
            {
                if i > 0 {
                    out.push(0x2c);
                }
                let member = &members[i];
                write_string_bytes(&member.0, out);
                out.push(0x3a);
                proof {
                    assert(decreases_to!(*v => v->Obj_0));
                    assert(decreases_to!(v->Obj_0 => v->Obj_0@));
                    assert(decreases_to!(v->Obj_0@ => v->Obj_0@[i as int]));
                    assert(decreases_to!(v->Obj_0@[i as int] => v->Obj_0@[i as int].1));
                    assert(decreases_to!(*v => members@[i as int].1));
                }
                write_json(&member.1, out);
                proof {
                    assert(m_members[i as int].0 == members@[i as int].0@);
                    assert(m_members[i as int].1 == json_model(members@[i as int].1));
                    assert(member_bytes(m_members[i as int]) == string_bytes(
                        members@[i as int].0@,
                    ) + seq![0x3au8] + json_bytes(json_model(members@[i as int].1)));
                }
                assert(out@ =~= old(out)@ + seq![0x7bu8] + obj_bytes_prefix(m_members, i + 1));
            }
            out.push(0x7d);
            assert(out@ =~= old(out)@ + json_bytes(v@));
        },
    }
}

/// The wire form of `v`, as a fresh byte vector.
pub fn to_json_bytes(v: &JsonValue) -> (r: Vec<u8>)
    ensures
        r@ == json_bytes(v@),
{
    let mut out: Vec<u8> = Vec::new();
    write_json(v, &mut out);
    out
}

/// The decimal digits of `n`, most significant first.
pub open spec fn dec_digits(n: nat) -> Seq<u8>
    decreases n,
{
    if n < 10 {
        seq![(0x30 + n) as u8]
    } else {
        dec_digits(n / 10) + seq![(0x30 + n % 10) as u8]
    }
}

/// The decimal digits of a number are a non-empty run of ASCII digit bytes.
pub proof fn lemma_dec_digits_digits(n: nat)
    ensures
        dec_digits(n).len() > 0,
        forall|i: int| 0 <= i < dec_digits(n).len() ==> 0x30 <= #[trigger] dec_digits(n)[i] <= 0x39,
    decreases n,
{
    if n >= 10 {
        lemma_dec_digits_digits(n / 10);
    }
}

/// Formats `x` in decimal.
pub fn fmt_u64(x: u64) -> (r: Vec<u8>)
    ensures
        r@ == dec_digits(x as nat),
{
    if x == 0 {
        let mut r: Vec<u8> = Vec::new();
        r.push(0x30);
        assert(r@ =~= dec_digits(0));
        return r;
    }
    let mut digits: Vec<u8> = Vec::new();
    let mut n = x;
    while n > 0
        invariant
            n > 0 ==> dec_digits(x as nat) == dec_digits(n as nat) + digits@,
            n == 0 ==> dec_digits(x as nat) == digits@,
        decreases n,
    {
        let ghost pre = digits@;
        let d: u8 = 0x30 + (n % 10) as u8;
        digits.insert(0, d);
        assert(digits@ =~= seq![d] + pre);
        if n >= 10 {
            assert(dec_digits(n as nat) == dec_digits((n as nat) / 10) + seq![d]);
            assert(dec_digits((n / 10) as nat) + digits@ =~= dec_digits(n as nat) + pre);
        } else {
            assert(dec_digits(n as nat) =~= seq![d]);
            assert(digits@ =~= dec_digits(n as nat) + pre);
        }
        n = n / 10;
    }
    digits
}

} // verus!
