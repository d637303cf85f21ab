//! The early, plain form of the API: a fixed three-field payload, free-form
//! status strings, and string-keyed validation.
//!
//! This surface predates the typed builder and reconciler and is kept for
//! callers that still use it. Validation is stricter than the token grammar
//! of [`crate::token`]: only the `ExponentPushToken[` label is accepted, and
//! a title and body are mandatory.

use vstd::prelude::*;
use vstd::utf8::encode_utf8;

use crate::error::CustomError;
use crate::json::{json_bytes, obj_model_prefix, JsonModel, JsonValue};
use crate::text::{str_bytes_vec, str_eq};
use crate::token::{spec_starts_with, str_has_prefix};

verus! {

/// A receipt query in its plain form: the ids as strings.
#[derive(Clone, Debug, PartialEq, Eq)]
pub struct PushIds {
    pub ids: Vec<String>,
}

impl PushIds {
    /// Wraps a list of receipt id strings.
    pub fn new(ids: Vec<String>) -> (r: Self)
        ensures
            r.ids == ids,
    {
        PushIds { ids }
    }
}

/// The fixed payload of the plain send call: recipients, title and body, all
/// mandatory.
#[derive(Clone, Debug, PartialEq, Eq)]
pub struct PushPayload {
    pub to: Vec<String>,
    pub title: String,
    pub body: String,
}

/// A successful ticket in its plain form: the status literal and the id.
#[derive(Clone, Debug, PartialEq, Eq)]
pub struct PushSuccessTicket {
    pub status: String,
    pub id: String,
}

/// The structured details of a plain failure ticket: the failure kind as the
/// gateway spelled it.
#[derive(Clone, Debug, PartialEq, Eq)]
pub struct Details {
    pub error: String,
}

/// A failed ticket in its plain form.
#[derive(Clone, Debug, PartialEq, Eq)]
pub struct PushErrorTicket {
    pub status: String,
    pub message: String,
    pub details: Option<Details>,
}

/// A per-message outcome in its plain form.
#[derive(Clone, Debug, PartialEq, Eq)]
pub enum PushTicket {
    Success(PushSuccessTicket),
    Error(PushErrorTicket),
}

/// A successful receipt in its plain form.
#[derive(Clone, Debug, PartialEq, Eq)]
pub struct PushSuccessReceipt {
    pub status: String,
}

/// The label every recipient of the plain send call must carry.
pub open spec fn exponent_prefix_only(s: Seq<char>) -> bool {
    spec_starts_with(s, "ExponentPushToken["@)
}

/// Whether the plain payload passes validation: every token carries the
/// accepted label, and title and body are non-empty.
pub open spec fn spec_payload_valid(to: Seq<Seq<char>>, title: Seq<char>, body: Seq<char>) -> bool {
    &&& forall|i: int| 0 <= i < to.len() ==> exponent_prefix_only(#[trigger] to[i])
    &&& title.len() > 0
    &&& body.len() > 0
}

/// The characters of each recipient token.
pub open spec fn view_to(to: Seq<String>) -> Seq<Seq<char>> {
    to.map_values(|s: String| s@)
}

/// The first recipient token without the accepted label, if any.
pub open spec fn first_invalid_token(to: Seq<Seq<char>>) -> Option<Seq<char>>
    decreases to.len(),
{
    if to.len() == 0 {
        None
    } else if !exponent_prefix_only(to[0]) {
        Some(to[0])
    } else {
        first_invalid_token(to.drop_first())
    }
}

/// The message of the first violation, in check order: the first token
/// without the accepted label, then an empty title, then an empty body.
pub open spec fn payload_error_text(
    to: Seq<Seq<char>>,
    title: Seq<char>,
    body: Seq<char>,
) -> Seq<char> {
    match first_invalid_token(to) {
        Some(t) => "Invalid expo push token: "@ + t,
        None => if title.len() == 0 {
            "Title is empty"@
        } else {
            "Body is empty"@
        },
    }
}

/// Validates the plain payload, in the order the send call checks it: the
/// first token without the accepted label fails, then an empty title, then
/// an empty body. Each failure is a local `InvalidArgument` carrying the
/// first violation's message, raised before any network call.
pub fn validate_push_payload(payload: &PushPayload) -> (r: Result<(), CustomError>)
    ensures
        r is Ok <==> spec_payload_valid(view_to(payload.to@), payload.title@, payload.body@),
        r matches Err(e) ==> (e matches CustomError::InvalidArgument(m) && m@
            == payload_error_text(view_to(payload.to@), payload.title@, payload.body@)),
{
    let ghost full = view_to(payload.to@);
    let n = payload.to.len();
    assert(full.subrange(0, n as int) =~= full);
    for i in 0..n
        invariant
            n == payload.to@.len(),
            full == view_to(payload.to@),
            full.len() == n,
            forall|j: int| 0 <= j < i ==> exponent_prefix_only(#[trigger] full[j]),
            first_invalid_token(full) == first_invalid_token(full.subrange(i as int, n as int)),
    {
        proof {
            assert(full.subrange(i as int, n as int)[0] == full[i as int]);
            assert(full.subrange(i as int, n as int).drop_first() =~= full.subrange(
                i + 1,
                n as int,
            ));
            assert(full[i as int] == payload.to@[i as int]@);
        }
        if !str_has_prefix(payload.to[i].as_str(), "ExponentPushToken[") {
            assert(first_invalid_token(full) == Some(full[i as int]));
            let mut m = "Invalid expo push token: ".to_owned();
            m.append(payload.to[i].as_str());
            return Err(CustomError::InvalidArgument(m));
        }
    }
    assert(full.subrange(n as int, n as int).len() == 0);
    assert(first_invalid_token(full) is None);
    if payload.title.as_str().is_empty() {
        return Err(CustomError::InvalidArgument("Title is empty".to_owned()));
    }
    if payload.body.as_str().is_empty() {
        return Err(CustomError::InvalidArgument("Body is empty".to_owned()));
    }
    Ok(())
}

/// Validates a plain receipt query: an empty id is a local error.
pub fn validate_push_ids(push_ids: &PushIds) -> (r: Result<(), CustomError>)
    ensures
        r is Ok <==> (forall|i: int|
            0 <= i < push_ids.ids@.len() ==> (#[trigger] push_ids.ids@[i])@.len() > 0),
        r matches Err(e) ==> (e matches CustomError::InvalidArgument(m) && m@ == "id is empty"@),
{
    let n = push_ids.ids.len();
    for i in 0..n
        invariant
            n == push_ids.ids@.len(),
            forall|j: int| 0 <= j < i ==> (#[trigger] push_ids.ids@[j])@.len() > 0,
    {
        if push_ids.ids[i].as_str().is_empty() {
            return Err(CustomError::InvalidArgument("id is empty".to_owned()));
        }
    }
    Ok(())
}

/// The wire object of the plain payload: always exactly the three fields, in
/// order.
pub open spec fn payload_json(to: Seq<Seq<char>>, title: Seq<char>, body: Seq<char>) -> JsonModel {
    JsonModel::Obj(
        seq![
            (encode_utf8("to"@), crate::message::to_json_arr(to)),
            (encode_utf8("title"@), JsonModel::Str(encode_utf8(title))),
            (encode_utf8("body"@), JsonModel::Str(encode_utf8(body))),
        ],
    )
}

/// The wire bytes of the plain payload.
pub open spec fn payload_wire(to: Seq<Seq<char>>, title: Seq<char>, body: Seq<char>) -> Seq<u8> {
    json_bytes(payload_json(to, title, body))
}

impl PushPayload {
    /// The wire object of this payload.
    pub fn to_json(&self) -> (r: JsonValue)
        ensures
            r@ == payload_json(view_to(self.to@), self.title@, self.body@),
    {
        let n = self.to.len();
        let mut items: Vec<JsonValue> = Vec::new();
        assert(crate::json::arr_model_prefix(items, 0) =~= Seq::<JsonModel>::empty());
        for i in 0..n
            invariant
                n == self.to@.len(),
                items@.len() == i,
                crate::json::arr_model_prefix(items, i as int) == view_to(self.to@).subrange(
                    0,
                    i as int,
                ).map_values(|t: Seq<char>| JsonModel::Str(encode_utf8(t))),
        {
            let ghost before_items = items;
            let jv = JsonValue::Str(str_bytes_vec(self.to[i].as_str()));
            let ghost gjv = jv;
            items.push(jv);
            proof {
                crate::json::lemma_arr_model_snoc(before_items, items, gjv);
                assert(view_to(self.to@).subrange(0, i + 1).map_values(
                    |t: Seq<char>| JsonModel::Str(encode_utf8(t)),
                ) =~= crate::json::arr_model_prefix(before_items, i as int).push(
                    JsonModel::Str(encode_utf8(self.to@[i as int]@)),
                ));
            }
        }
        let mut members: Vec<(Vec<u8>, JsonValue)> = Vec::new();
        let ghost garr = items;
        let kb_to = str_bytes_vec("to");
        let kb_title = str_bytes_vec("title");
        let kb_body = str_bytes_vec("body");
        members.push((kb_to, JsonValue::Arr(items)));
        members.push((kb_title, JsonValue::Str(str_bytes_vec(self.title.as_str()))));
        members.push((kb_body, JsonValue::Str(str_bytes_vec(self.body.as_str()))));
        let ghost gmembers = members;
        let r = JsonValue::Obj(members);
        proof {
            assert(view_to(self.to@).subrange(0, n as int) =~= view_to(self.to@));
            crate::json::lemma_obj_model_prefix(gmembers, 3);
            assert(obj_model_prefix(gmembers, 3) =~= seq![
                (encode_utf8("to"@), crate::json::json_model(JsonValue::Arr(garr))),
                (encode_utf8("title"@), JsonModel::Str(encode_utf8(self.title@))),
                (encode_utf8("body"@), JsonModel::Str(encode_utf8(self.body@))),
            ]);
        }
        r
    }

    /// The wire bytes of this payload.
    pub fn to_body_bytes(&self) -> (r: Vec<u8>)
        ensures
            r@ == payload_wire(view_to(self.to@), self.title@, self.body@),
    {
        let v = self.to_json();
        crate::json::to_json_bytes(&v)
    }
}

/// Classifies one parsed result item of the plain send call by its status
/// string: `"ok"` selects a success ticket, `"error"` a failure ticket with
/// absent fields defaulted to empty, and any other status is unrecognized.
pub fn classify_push_result_item(
    status: String,
    id: Option<String>,
    message: Option<String>,
    details: Option<Details>,
) -> (r: Option<PushTicket>)
    ensures
        status@ == "ok"@ ==> (r matches Some(t) && t matches PushTicket::Success(s) && s.status@
            == status@ && (match id {
            Some(v) => s.id@ == v@,
            None => s.id@.len() == 0,
        })),
        status@ == "error"@ ==> (r matches Some(t) && t matches PushTicket::Error(e) && e.status@
            == status@ && (match message {
            Some(v) => e.message@ == v@,
            None => e.message@.len() == 0,
        }) && e.details == details),
        status@ != "ok"@ && status@ != "error"@ ==> r is None,
{
    proof {
        reveal_strlit("ok");
        reveal_strlit("error");
    }
    if str_eq(status.as_str(), "ok") {
        let id_v = match id {
            Some(v) => v,
            None => String::new(),
        };
        Some(PushTicket::Success(PushSuccessTicket { status, id: id_v }))
    } else if str_eq(status.as_str(), "error") {
        let message_v = match message {
            Some(v) => v,
            None => String::new(),
        };
        Some(PushTicket::Error(PushErrorTicket { status, message: message_v, details }))
    } else {
        None
    }
}

} // verus!
