//! The response reconciler: from a parsed JSON response to typed per-item
//! outcomes.
//!
//! Both response shapes are driven by a `status` discriminator in each item:
//! `"ok"` selects the success shape, `"error"` the failure shape, and any
//! other value is a protocol violation. The `spec_*` functions state exactly
//! which documents decode, and to what; extra members are ignored, as the
//! wire format allows the gateway to add fields.

use vstd::prelude::*;
use vstd::utf8::{decode_utf8, encode_utf8, valid_utf8};

use crate::json::{arr_model_prefix, json_model, lemma_arr_model_prefix, lemma_obj_model_prefix,
    obj_model_prefix, JsonModel, JsonValue};
use crate::text::{bytes_eq, bytes_vec, string_from_utf8};
use crate::ticket::{Details, DetailsErrorType, ErrorReceiptModel, ExpoPushErrorReceipt,
    ExpoPushReceipt, ExpoPushReceiptId, ExpoPushTicket, ReceiptModel, TicketModel};

verus! {

/// The value of the first member with the given key, if any.
pub open spec fn member_lookup(ms: Seq<(Seq<u8>, JsonModel)>, key: Seq<u8>) -> Option<JsonModel>
    decreases ms.len(),
{
    if ms.len() == 0 {
        None
    } else if ms[0].0 == key {
        Some(ms[0].1)
    } else {
        member_lookup(ms.drop_first(), key)
    }
}

/// The failure kind a wire name stands for; `None` for an unknown name.
pub open spec fn spec_error_type(eb: Seq<u8>) -> Option<DetailsErrorType> {
    if eb == encode_utf8("DeveloperError"@) {
        Some(DetailsErrorType::DeveloperError)
    } else if eb == encode_utf8("DeviceNotRegistered"@) {
        Some(DetailsErrorType::DeviceNotRegistered)
    } else if eb == encode_utf8("ExpoError"@) {
        Some(DetailsErrorType::ExpoError)
    } else if eb == encode_utf8("InvalidCredentials"@) {
        Some(DetailsErrorType::InvalidCredentials)
    } else if eb == encode_utf8("MessageTooBig"@) {
        Some(DetailsErrorType::MessageTooBig)
    } else if eb == encode_utf8("MessageRateExceeded"@) {
        Some(DetailsErrorType::MessageRateExceeded)
    } else if eb == encode_utf8("MismatchSenderId"@) {
        Some(DetailsErrorType::MismatchSenderId)
    } else if eb == encode_utf8("ProviderError"@) {
        Some(DetailsErrorType::ProviderError)
    } else {
        None
    }
}

/// The details object of a failure item: an absent or null `error` member
/// means no kind, a known name selects a kind, anything else is malformed.
pub open spec fn spec_details(dm: Seq<(Seq<u8>, JsonModel)>) -> Option<Details> {
    match member_lookup(dm, encode_utf8("error"@)) {
        None => Some(Details { error: None }),
        Some(JsonModel::Null) => Some(Details { error: None }),
        Some(JsonModel::Str(eb)) => match spec_error_type(eb) {
            Some(t) => Some(Details { error: Some(t) }),
            None => None,
        },
        Some(_) => None,
    }
}

/// The optional `details` member of a failure item: `Some(None)` when absent
/// or null, `Some(Some(..))` when well-formed, `None` when malformed.
pub open spec fn spec_details_opt(ms: Seq<(Seq<u8>, JsonModel)>) -> Option<Option<Details>> {
    match member_lookup(ms, encode_utf8("details"@)) {
        None => Some(None),
        Some(JsonModel::Null) => Some(None),
        Some(JsonModel::Obj(dm)) => match spec_details(dm) {
            Some(d) => Some(Some(d)),
            None => None,
        },
        Some(_) => None,
    }
}

/// The failure fields of an item: a mandatory string `message` and the
/// optional `details`.
pub open spec fn spec_error_fields(ms: Seq<(Seq<u8>, JsonModel)>) -> Option<ErrorReceiptModel> {
    match member_lookup(ms, encode_utf8("message"@)) {
        Some(JsonModel::Str(mb)) => if valid_utf8(mb) {
            match spec_details_opt(ms) {
                Some(d) => Some(ErrorReceiptModel { message: decode_utf8(mb), details: d }),
                None => None,
            }
        } else {
            None
        },
        _ => None,
    }
}

/// One ticket item: an object whose `status` selects the shape. `"ok"`
/// requires a string `id`; `"error"` requires the failure fields; any other
/// status is a protocol violation.
pub open spec fn spec_ticket_item(j: JsonModel) -> Option<TicketModel> {
    match j {
        JsonModel::Obj(ms) => match member_lookup(ms, encode_utf8("status"@)) {
            Some(JsonModel::Str(st)) => if st == encode_utf8("ok"@) {
                match member_lookup(ms, encode_utf8("id"@)) {
                    Some(JsonModel::Str(idb)) => if valid_utf8(idb) {
                        Some(TicketModel::Success(decode_utf8(idb)))
                    } else {
                        None
                    },
                    _ => None,
                }
            } else if st == encode_utf8("error"@) {
                match spec_error_fields(ms) {
                    Some(e) => Some(TicketModel::Error(e)),
                    None => None,
                }
            } else {
                None
            },
            _ => None,
        },
        _ => None,
    }
}

/// The tickets of a response array, in the array's order; `None` if any item
/// is malformed.
pub open spec fn spec_tickets(items: Seq<JsonModel>) -> Option<Seq<TicketModel>>
    decreases items.len(),
{
    if items.len() == 0 {
        Some(Seq::empty())
    } else {
        match (spec_ticket_item(items[0]), spec_tickets(items.drop_first())) {
            (Some(t), Some(rest)) => Some(seq![t] + rest),
            _ => None,
        }
    }
}

/// A send response: an object whose `data` member is the ticket array.
pub open spec fn spec_send_response(j: JsonModel) -> Option<Seq<TicketModel>> {
    match j {
        JsonModel::Obj(ms) => match member_lookup(ms, encode_utf8("data"@)) {
            Some(JsonModel::Arr(items)) => spec_tickets(items),
            _ => None,
        },
        _ => None,
    }
}

/// One receipt item: an object whose `status` selects the shape.
pub open spec fn spec_receipt_item(j: JsonModel) -> Option<ReceiptModel> {
    match j {
        JsonModel::Obj(ms) => match member_lookup(ms, encode_utf8("status"@)) {
            Some(JsonModel::Str(st)) => if st == encode_utf8("ok"@) {
                Some(ReceiptModel::Success)
            } else if st == encode_utf8("error"@) {
                match spec_error_fields(ms) {
                    Some(e) => Some(ReceiptModel::Error(e)),
                    None => None,
                }
            } else {
                None
            },
            _ => None,
        },
        _ => None,
    }
}

/// The receipt entries of a response object, keyed by receipt id, in the
/// object's order; `None` if any entry is malformed.
pub open spec fn spec_receipt_entries(dm: Seq<(Seq<u8>, JsonModel)>) -> Option<
    Seq<(Seq<char>, ReceiptModel)>,
>
    decreases dm.len(),
{
    if dm.len() == 0 {
        Some(Seq::empty())
    } else if valid_utf8(dm[0].0) {
        match (spec_receipt_item(dm[0].1), spec_receipt_entries(dm.drop_first())) {
            (Some(r), Some(rest)) => Some(seq![(decode_utf8(dm[0].0), r)] + rest),
            _ => None,
        }
    } else {
        None
    }
}

/// A receipts response: an object whose `data` member maps receipt ids to
/// receipt items.
pub open spec fn spec_receipts_response(j: JsonModel) -> Option<Seq<(Seq<char>, ReceiptModel)>> {
    match j {
        JsonModel::Obj(ms) => match member_lookup(ms, encode_utf8("data"@)) {
            Some(JsonModel::Obj(dm)) => spec_receipt_entries(dm),
            _ => None,
        },
        _ => None,
    }
}

/// The models of a ticket list.
pub open spec fn view_tickets(v: Seq<ExpoPushTicket>) -> Seq<TicketModel> {
    v.map_values(|t: ExpoPushTicket| t@)
}

/// The models of a receipt entry list.
pub open spec fn view_receipt_entries(v: Seq<(ExpoPushReceiptId, ExpoPushReceipt)>) -> Seq<
    (Seq<char>, ReceiptModel),
> {
    v.map_values(|e: (ExpoPushReceiptId, ExpoPushReceipt)| (e.0@, e.1@))
}

/// `rest` with `pre` prepended, where `rest` may have failed.
pub open spec fn opt_concat<T>(pre: Seq<T>, rest: Option<Seq<T>>) -> Option<Seq<T>> {
    match rest {
        Some(r) => Some(pre + r),
        None => None,
    }
}

/// Which constructor an executable value's model uses: the model mirrors the
/// value constructor for constructor.
pub proof fn lemma_json_model_variant(v: JsonValue)
    ensures
        (json_model(v) is Null <==> v is Null),
        (json_model(v) is Bool <==> v is Bool),
        (json_model(v) is Num <==> v is Num),
        (json_model(v) is Str <==> v is Str),
        (json_model(v) is Arr <==> v is Arr),
        (json_model(v) is Obj <==> v is Obj),
{
    match v {
        JsonValue::Null => {},
        JsonValue::Bool(_) => {},
        JsonValue::Num(_) => {},
        JsonValue::Str(_) => {},
        JsonValue::Arr(_) => {},
        JsonValue::Obj(_) => {},
    }
}

/// The string bytes of a value, if it is a string.
fn json_as_str<'a>(v: &'a JsonValue) -> (r: Option<&'a Vec<u8>>)
    ensures
        match r {
            Some(b) => v@ == JsonModel::Str(b@),
            None => !(v@ is Str),
        },
{
    proof {
        lemma_json_model_variant(*v);
    }
    match v {
        JsonValue::Str(b) => Some(b),
        _ => None,
    }
}

/// The elements of a value, if it is an array.
fn json_as_arr<'a>(v: &'a JsonValue) -> (r: Option<&'a Vec<JsonValue>>)
    ensures
        match r {
            Some(items) => v@ == JsonModel::Arr(arr_model_prefix(*items, items@.len() as int)),
            None => !(v@ is Arr),
        },
{
    proof {
        lemma_json_model_variant(*v);
    }
    match v {
        JsonValue::Arr(items) => Some(items),
        _ => None,
    }
}

/// The members of a value, if it is an object.
fn json_as_obj<'a>(v: &'a JsonValue) -> (r: Option<&'a Vec<(Vec<u8>, JsonValue)>>)
    ensures
        match r {
            Some(ms) => v@ == JsonModel::Obj(obj_model_prefix(*ms, ms@.len() as int)),
            None => !(v@ is Obj),
        },
{
    proof {
        lemma_json_model_variant(*v);
    }
    match v {
        JsonValue::Obj(ms) => Some(ms),
        _ => None,
    }
}

/// Whether a value is the JSON null.
fn json_is_null(v: &JsonValue) -> (r: bool)
    ensures
        r == (v@ is Null),
{
    proof {
        lemma_json_model_variant(*v);
    }
    match v {
        JsonValue::Null => true,
        _ => false,
    }
}

/// The value of the first member with the given key, if any.
fn obj_get<'a>(members: &'a Vec<(Vec<u8>, JsonValue)>, key: &str) -> (r: Option<&'a JsonValue>)
    ensures
        match r {
            Some(v) => member_lookup(
                obj_model_prefix(*members, members@.len() as int),
                encode_utf8(key@),
            ) == Some(v@),
            None => member_lookup(
                obj_model_prefix(*members, members@.len() as int),
                encode_utf8(key@),
            ) is None,
        },
{
    proof {
        lemma_obj_model_prefix(*members, members@.len() as int);
    }
    let ghost full = obj_model_prefix(*members, members@.len() as int);
    let n = members.len();
    assert(full.subrange(0, n as int) =~= full);
    for i in 0..n
        invariant
            n == members@.len(),
            full == obj_model_prefix(*members, members@.len() as int),
            full.len() == n,
            forall|j: int| 0 <= j < n ==> full[j] == (members@[j].0@, json_model(members@[j].1)),
            member_lookup(full, encode_utf8(key@)) == member_lookup(
                full.subrange(i as int, n as int),
                encode_utf8(key@),
            ),
    {
        proof {
            assert(full.subrange(i as int, n as int)[0] == full[i as int]);
            assert(full.subrange(i as int, n as int).drop_first() =~= full.subrange(
                i + 1,
                n as int,
            ));
        }
        if bytes_eq(members[i].0.as_slice(), key.as_bytes()) {
            return Some(&members[i].1);
        }
    }
    assert(full.subrange(n as int, n as int).len() == 0);
    None
}

/// The failure kind a wire name stands for.
fn error_type_from(eb: &Vec<u8>) -> (r: Option<DetailsErrorType>)
    ensures
        r == spec_error_type(eb@),
{
    if bytes_eq(eb.as_slice(), "DeveloperError".as_bytes()) {
        Some(DetailsErrorType::DeveloperError)
    } else if bytes_eq(eb.as_slice(), "DeviceNotRegistered".as_bytes()) {
        Some(DetailsErrorType::DeviceNotRegistered)
    } else if bytes_eq(eb.as_slice(), "ExpoError".as_bytes()) {
        Some(DetailsErrorType::ExpoError)
    } else if bytes_eq(eb.as_slice(), "InvalidCredentials".as_bytes()) {
        Some(DetailsErrorType::InvalidCredentials)
    } else if bytes_eq(eb.as_slice(), "MessageTooBig".as_bytes()) {
        Some(DetailsErrorType::MessageTooBig)
    } else if bytes_eq(eb.as_slice(), "MessageRateExceeded".as_bytes()) {
        Some(DetailsErrorType::MessageRateExceeded)
    } else if bytes_eq(eb.as_slice(), "MismatchSenderId".as_bytes()) {
        Some(DetailsErrorType::MismatchSenderId)
    } else if bytes_eq(eb.as_slice(), "ProviderError".as_bytes()) {
        Some(DetailsErrorType::ProviderError)
    } else {
        None
    }
}

/// The details object of a failure item.
fn details_from(dm: &Vec<(Vec<u8>, JsonValue)>) -> (r: Option<Details>)
    ensures
        r == spec_details(obj_model_prefix(*dm, dm@.len() as int)),
{
    match obj_get(dm, "error") {
        None => Some(Details { error: None }),
        Some(ev) => {
            if json_is_null(ev) {
                Some(Details { error: None })
            } else {
                match json_as_str(ev) {
                    Some(eb) => match error_type_from(eb) {
                        Some(t) => Some(Details { error: Some(t) }),
                        None => None,
                    },
                    None => None,
                }
            }
        },
    }
}

/// The failure fields of an item.
fn error_fields_from(ms: &Vec<(Vec<u8>, JsonValue)>) -> (r: Option<ExpoPushErrorReceipt>)
    ensures
        match r {
            Some(e) => spec_error_fields(obj_model_prefix(*ms, ms@.len() as int)) == Some(e@),
            None => spec_error_fields(obj_model_prefix(*ms, ms@.len() as int)) is None,
        },
{
    let mv = match obj_get(ms, "message") {
        Some(mv) => mv,
        None => {
            return None;
        },
    };
    let mb = match json_as_str(mv) {
        Some(mb) => mb,
        None => {
            return None;
        },
    };
    let message = match string_from_utf8(bytes_vec(mb.as_slice())) {
        Some(s) => s,
        None => {
            return None;
        },
    };
    let details = match obj_get(ms, "details") {
        None => None,
        Some(dv) => {
            if json_is_null(dv) {
                None
            } else {
                match json_as_obj(dv) {
                    Some(dm) => match details_from(dm) {
                        Some(d) => Some(d),
                        None => {
                            return None;
                        },
                    },
                    None => {
                        return None;
                    },
                }
            }
        },
    };
    Some(ExpoPushErrorReceipt { message, details })
}

/// One ticket item.
fn ticket_from_json(v: &JsonValue) -> (r: Option<ExpoPushTicket>)
    ensures
        match r {
            Some(t) => spec_ticket_item(v@) == Some(t@),
            None => spec_ticket_item(v@) is None,
        },
{
    let ms = match json_as_obj(v) {
        Some(ms) => ms,
        None => {
            return None;
        },
    };
    let sv = match obj_get(ms, "status") {
        Some(sv) => sv,
        None => {
            return None;
        },
    };
    let st = match json_as_str(sv) {
        Some(st) => st,
        None => {
            return None;
        },
    };
    if bytes_eq(st.as_slice(), "ok".as_bytes()) {
        let iv = match obj_get(ms, "id") {
            Some(iv) => iv,
            None => {
                return None;
            },
        };
        let idb = match json_as_str(iv) {
            Some(idb) => idb,
            None => {
                return None;
            },
        };
        match string_from_utf8(bytes_vec(idb.as_slice())) {
            Some(id) => Some(
                ExpoPushTicket::Success(
                    crate::ticket::ExpoPushSuccessTicket { id: ExpoPushReceiptId::new(id) },
                ),
            ),
            None => None,
        }
    } else if bytes_eq(st.as_slice(), "error".as_bytes()) {
        match error_fields_from(ms) {
            Some(e) => Some(ExpoPushTicket::Error(e)),
            None => None,
        }
    } else {
        None
    }
}

/// One receipt item.
fn receipt_from_json(v: &JsonValue) -> (r: Option<ExpoPushReceipt>)
    ensures
        match r {
            Some(t) => spec_receipt_item(v@) == Some(t@),
            None => spec_receipt_item(v@) is None,
        },
{
    let ms = match json_as_obj(v) {
        Some(ms) => ms,
        None => {
            return None;
        },
    };
    let sv = match obj_get(ms, "status") {
        Some(sv) => sv,
        None => {
            return None;
        },
    };
    let st = match json_as_str(sv) {
        Some(st) => st,
        None => {
            return None;
        },
    };
    if bytes_eq(st.as_slice(), "ok".as_bytes()) {
        Some(ExpoPushReceipt::Success)
    } else if bytes_eq(st.as_slice(), "error".as_bytes()) {
        match error_fields_from(ms) {
            Some(e) => Some(ExpoPushReceipt::Error(e)),
            None => None,
        }
    } else {
        None
    }
}

/// The tickets of a parsed send response.
pub fn tickets_from_response(v: &JsonValue) -> (r: Option<Vec<ExpoPushTicket>>)
    ensures
        match r {
            Some(ts) => spec_send_response(v@) == Some(view_tickets(ts@)),
            None => spec_send_response(v@) is None,
        },
{
    let ms = match json_as_obj(v) {
        Some(ms) => ms,
        None => {
            return None;
        },
    };
    let dv = match obj_get(ms, "data") {
        Some(dv) => dv,
        None => {
            return None;
        },
    };
    let items = match json_as_arr(dv) {
        Some(items) => items,
        None => {
            return None;
        },
    };
    proof {
        lemma_arr_model_prefix(*items, items@.len() as int);
    }
    let ghost models = arr_model_prefix(*items, items@.len() as int);
    let n = items.len();
    let mut out: Vec<ExpoPushTicket> = Vec::new();
    proof {
        assert(models.subrange(0, n as int) =~= models);
        if spec_tickets(models) is Some {
            assert(view_tickets(out@) + spec_tickets(models)->0 =~= spec_tickets(models)->0);
        }
    }
    for i in 0..n
        invariant
            n == items@.len(),
            models == arr_model_prefix(*items, items@.len() as int),
            models.len() == n,
            forall|j: int| 0 <= j < n ==> models[j] == json_model(items@[j]),
            spec_send_response(v@) == spec_tickets(models),
            out@.len() == i,
            spec_tickets(models) == opt_concat(
                view_tickets(out@),
                spec_tickets(models.subrange(i as int, n as int)),
            ),
    {
        let ghost suffix = models.subrange(i as int, n as int);
        proof {
            assert(suffix[0] == models[i as int]);
            assert(suffix.drop_first() =~= models.subrange(i + 1, n as int));
        }
        match ticket_from_json(&items[i]) {
            None => {
                assert(spec_tickets(suffix) is None);
                return None;
            },
            Some(t) => {
                let ghost old_out = out@;
                let ghost gt = t@;
                out.push(t);
                proof {
                    assert(view_tickets(out@) =~= view_tickets(old_out).push(gt));
                    if spec_tickets(models.subrange(i + 1, n as int)) is Some {
                        let rest = spec_tickets(models.subrange(i + 1, n as int))->0;
                        assert(spec_tickets(suffix) == Some(seq![gt] + rest));
                        assert(view_tickets(old_out) + (seq![gt] + rest) =~= view_tickets(out@)
                            + rest);
                    }
                }
            },
        }
    }
    proof {
        assert(models.subrange(n as int, n as int).len() == 0);
        assert(view_tickets(out@) + Seq::<TicketModel>::empty() =~= view_tickets(out@));
    }
    Some(out)
}

/// The receipt entries of a parsed receipts response, in the response's
/// order.
pub fn receipts_from_response(v: &JsonValue) -> (r: Option<
    Vec<(ExpoPushReceiptId, ExpoPushReceipt)>,
>)
    ensures
        match r {
            Some(es) => spec_receipts_response(v@) == Some(view_receipt_entries(es@)),
            None => spec_receipts_response(v@) is None,
        },
{
    let ms = match json_as_obj(v) {
        Some(ms) => ms,
        None => {
            return None;
        },
    };
    let dv = match obj_get(ms, "data") {
        Some(dv) => dv,
        None => {
            return None;
        },
    };
    let dm = match json_as_obj(dv) {
        Some(dm) => dm,
        None => {
            return None;
        },
    };
    proof {
        lemma_obj_model_prefix(*dm, dm@.len() as int);
    }
    let ghost models = obj_model_prefix(*dm, dm@.len() as int);
    let n = dm.len();
    let mut out: Vec<(ExpoPushReceiptId, ExpoPushReceipt)> = Vec::new();
    proof {
        assert(models.subrange(0, n as int) =~= models);
        if spec_receipt_entries(models) is Some {
            assert(view_receipt_entries(out@) + spec_receipt_entries(models)->0
                =~= spec_receipt_entries(models)->0);
        }
    }
    for i in 0..n
        invariant
            n == dm@.len(),
            models == obj_model_prefix(*dm, dm@.len() as int),
            models.len() == n,
            forall|j: int| 0 <= j < n ==> models[j] == (dm@[j].0@, json_model(dm@[j].1)),
            spec_receipts_response(v@) == spec_receipt_entries(models),
            out@.len() == i,
            spec_receipt_entries(models) == opt_concat(
                view_receipt_entries(out@),
                spec_receipt_entries(models.subrange(i as int, n as int)),
            ),
    {
        let ghost suffix = models.subrange(i as int, n as int);
        proof {
            assert(suffix[0] == models[i as int]);
            assert(suffix.drop_first() =~= models.subrange(i + 1, n as int));
        }
        let entry = &dm[i];
        let key = match string_from_utf8(bytes_vec(entry.0.as_slice())) {
            Some(k) => k,
            None => {
                assert(spec_receipt_entries(suffix) is None);
                return None;
            },
        };
        match receipt_from_json(&entry.1) {
            None => {
                assert(spec_receipt_entries(suffix) is None);
                return None;
            },
            Some(rec) => {
                let ghost old_out = out@;
                let ghost gkey = key@;
                let ghost grec = rec@;
                out.push((ExpoPushReceiptId::new(key), rec));
                proof {
                    assert(view_receipt_entries(out@) =~= view_receipt_entries(old_out).push(
                        (gkey, grec),
                    ));
                    if spec_receipt_entries(models.subrange(i + 1, n as int)) is Some {
                        let rest = spec_receipt_entries(models.subrange(i + 1, n as int))->0;
                        assert(spec_receipt_entries(suffix) == Some(seq![(gkey, grec)] + rest));
                        assert(view_receipt_entries(old_out) + (seq![(gkey, grec)] + rest)
                            =~= view_receipt_entries(out@) + rest);
                    }
                }
            },
        }
    }
    proof {
        assert(models.subrange(n as int, n as int).len() == 0);
        assert(view_receipt_entries(out@) + Seq::<(Seq<char>, ReceiptModel)>::empty()
            =~= view_receipt_entries(out@));
    }
    Some(out)
}

/// The receipt a key maps to: the first entry with that key, if any.
pub open spec fn entries_lookup(es: Seq<(Seq<char>, ReceiptModel)>, key: Seq<char>) -> Option<
    ReceiptModel,
>
    decreases es.len(),
{
    if es.len() == 0 {
        None
    } else if es[0].0 == key {
        Some(es[0].1)
    } else {
        entries_lookup(es.drop_first(), key)
    }
}

/// The typed result of a receipt query: receipts keyed by receipt id. A key
/// absent from the map means "no receipt available yet", not an error.
#[derive(Debug, PartialEq)]
pub struct ReceiptMap {
    entries: Vec<(ExpoPushReceiptId, ExpoPushReceipt)>,
}

impl View for ReceiptMap {
    type V = Seq<(Seq<char>, ReceiptModel)>;

    closed spec fn view(&self) -> Seq<(Seq<char>, ReceiptModel)> {
        view_receipt_entries(self.entries@)
    }
}

impl ReceiptMap {
    /// Wraps a list of keyed receipts.
    pub fn new(entries: Vec<(ExpoPushReceiptId, ExpoPushReceipt)>) -> (r: Self)
        ensures
            r@ == view_receipt_entries(entries@),
    {
        ReceiptMap { entries }
    }

    /// How many receipts the map holds.
    pub fn len(&self) -> (r: usize)
        ensures
            r == self@.len(),
    {
        self.entries.len()
    }

    /// The keyed receipts, in the order the response listed them.
    pub fn entries(&self) -> (r: &Vec<(ExpoPushReceiptId, ExpoPushReceipt)>)
        ensures
            view_receipt_entries(r@) == self@,
    {
        &self.entries
    }

    /// The receipt for the given id, or `None` when the gateway has not
    /// reported one yet.
    pub fn get(&self, id: &str) -> (r: Option<&ExpoPushReceipt>)
        ensures
            match r {
                Some(rec) => entries_lookup(self@, id@) == Some(rec@),
                None => entries_lookup(self@, id@) is None,
            },
    {
        let ghost full = self@;
        let n = self.entries.len();
        assert(full.subrange(0, n as int) =~= full);
        for i in 0..n
            invariant
                n == self.entries@.len(),
                full == view_receipt_entries(self.entries@),
                full.len() == n,
                forall|j: int|
                    0 <= j < n ==> full[j] == (self.entries@[j].0@, self.entries@[j].1@),
                entries_lookup(full, id@) == entries_lookup(
                    full.subrange(i as int, n as int),
                    id@,
                ),
        {
            proof {
                assert(full.subrange(i as int, n as int)[0] == full[i as int]);
                assert(full.subrange(i as int, n as int).drop_first() =~= full.subrange(
                    i + 1,
                    n as int,
                ));
            }
            if crate::text::str_eq(self.entries[i].0.as_str(), id) {
                return Some(&self.entries[i].1);
            }
        }
        assert(full.subrange(n as int, n as int).len() == 0);
        None
    }

    /// Whether the gateway has reported a receipt for the given id.
    pub fn contains_key(&self, id: &str) -> (r: bool)
        ensures
            r == (entries_lookup(self@, id@) is Some),
    {
        match self.get(id) {
            Some(_) => true,
            None => false,
        }
    }
}

/// A well-formed ticket array decodes element for element: the ticket list
/// has the array's length, and the item at each position decodes to the
/// ticket at the same position, so input order is preserved and a failure
/// item never disturbs its neighbours.
pub proof fn lemma_spec_tickets_index(items: Seq<JsonModel>)
    requires
        spec_tickets(items) is Some,
    ensures
        spec_tickets(items)->0.len() == items.len(),
        forall|i: int|
            0 <= i < items.len() ==> spec_ticket_item(items[i]) == Some(
                #[trigger] spec_tickets(items)->0[i],
            ),
    decreases items.len(),
{
    if items.len() > 0 {
        lemma_spec_tickets_index(items.drop_first());
    }
}

/// A well-formed receipts object decodes entry for entry: the decoded map
/// holds exactly the response's keys, in the response's order.
pub proof fn lemma_spec_receipt_entries_index(dm: Seq<(Seq<u8>, JsonModel)>)
    requires
        spec_receipt_entries(dm) is Some,
    ensures
        spec_receipt_entries(dm)->0.len() == dm.len(),
        forall|i: int|
            0 <= i < dm.len() ==> #[trigger] spec_receipt_entries(dm)->0[i] == (
                decode_utf8(dm[i].0),
                spec_receipt_item(dm[i].1)->0,
            ),
    decreases dm.len(),
{
    if dm.len() > 0 {
        lemma_spec_receipt_entries_index(dm.drop_first());
        let rest = spec_receipt_entries(dm.drop_first())->0;
        assert forall|i: int| 0 <= i < dm.len() implies #[trigger] spec_receipt_entries(dm)->0[i]
            == (decode_utf8(dm[i].0), spec_receipt_item(dm[i].1)->0) by {
            if i > 0 {
                assert(spec_receipt_entries(dm)->0[i] == rest[i - 1]);
                assert(dm.drop_first()[i - 1] == dm[i]);
            }
        }
    }
}

/// A receipt id that the response did not mention maps to nothing: looking
/// it up yields "not present", never an error.
pub proof fn lemma_entries_lookup_absent(es: Seq<(Seq<char>, ReceiptModel)>, key: Seq<char>)
    ensures
        entries_lookup(es, key) is None <==> (forall|i: int|
            0 <= i < es.len() ==> (#[trigger] es[i]).0 != key),
    decreases es.len(),
{
    if es.len() > 0 {
        lemma_entries_lookup_absent(es.drop_first(), key);
        assert(forall|i: int|
            0 <= i < es.drop_first().len() ==> #[trigger] es.drop_first()[i] == es[i + 1]);
        assert(forall|i: int| 1 <= i < es.len() ==> #[trigger] es[i] == es.drop_first()[i - 1]);
    }
}

} // verus!
