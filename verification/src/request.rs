//! The two request bodies the client sends: a batch of push messages, and a
//! receipt query.
//!
//! A batch of exactly one message serializes as that message's object alone;
//! a larger batch serializes as an array of message objects. A receipt query
//! serializes as an object holding the queried ids.

use vstd::prelude::*;
use vstd::utf8::encode_utf8;

use crate::error::CustomError;
use crate::json::{arr_model_prefix, json_bytes, json_model, lemma_arr_model_snoc, JsonModel,
    JsonValue};
use crate::message::{message_json, ExpoPushMessage, MessageModel};
use crate::text::str_bytes_vec;
use crate::ticket::ExpoPushReceiptId;

verus! {

/// The models of a message list.
pub open spec fn view_messages(v: Seq<ExpoPushMessage>) -> Seq<MessageModel> {
    v.map_values(|m: ExpoPushMessage| m@)
}

/// The models of a receipt id list.
pub open spec fn view_ids(v: Seq<ExpoPushReceiptId>) -> Seq<Seq<char>> {
    v.map_values(|id: ExpoPushReceiptId| id@)
}

/// The wire value of a batch: one message's object alone, or an array of
/// message objects.
pub open spec fn request_json(ms: Seq<MessageModel>) -> JsonModel {
    if ms.len() == 1 {
        message_json(ms[0])
    } else {
        JsonModel::Arr(ms.map_values(|m: MessageModel| message_json(m)))
    }
}

/// The wire bytes of a batch.
pub open spec fn request_wire(ms: Seq<MessageModel>) -> Seq<u8> {
    json_bytes(request_json(ms))
}

/// A non-empty batch of validated messages, submitted in one send call.
#[derive(Debug, PartialEq)]
pub struct SendPushNotificationsRequest(Vec<ExpoPushMessage>);

impl View for SendPushNotificationsRequest {
    type V = Seq<MessageModel>;

    closed spec fn view(&self) -> Seq<MessageModel> {
        view_messages(self.0@)
    }
}

impl SendPushNotificationsRequest {
    /// Wraps a message batch. Fails iff the batch is empty: an empty send is
    /// a local validation error, raised before any network call.
    pub fn new(messages: Vec<ExpoPushMessage>) -> (r: Result<Self, CustomError>)
        ensures
            messages@.len() > 0 <==> r is Ok,
            r matches Ok(req) ==> req@ == view_messages(messages@),
            r matches Err(e) ==> (e matches CustomError::InvalidArgument(m) && m@
                == "messages must not be empty"@),
    {
        if messages.is_empty() {
            return Err(CustomError::InvalidArgument("messages must not be empty".to_owned()));
        }
        Ok(SendPushNotificationsRequest(messages))
    }

    /// The messages of the batch, in submission order.
    pub fn messages(&self) -> (r: &Vec<ExpoPushMessage>)
        ensures
            view_messages(r@) == self@,
    {
        &self.0
    }

    /// The wire value of the batch.
    pub fn into_body_json(self) -> (r: JsonValue)
        ensures
            r@ == request_json(self@),
    {
        let ghost all = self.0@;
        let mut msgs = self.0;
        if msgs.len() == 1 {
            let m = match msgs.pop() {
                Some(m) => m,
                None => {
                    proof {
                        assert(false);
                    }
                    unreached()
                },
            };
            assert(m == all[0]);
            return m.into_json();
        }
        let n = msgs.len();
        let mut items: Vec<JsonValue> = Vec::new();
        assert(arr_model_prefix(items, 0) =~= Seq::<JsonModel>::empty());
        assert(msgs@ == all.subrange(0, n as int));
        for i in 0..n
            invariant
                n == all.len(),
                msgs@ == all.subrange(i as int, n as int),
                items@.len() == i,
                arr_model_prefix(items, i as int) == all.subrange(0, i as int).map_values(
                    |m: ExpoPushMessage| message_json(m@),
                ),
        {
            let ghost before_items = items;
            let m = msgs.remove(0);
            proof {
                assert(all.subrange(i as int, n as int)[0] == all[i as int]);
                assert(all.subrange(i as int, n as int).remove(0) =~= all.subrange(
                    i + 1,
                    n as int,
                ));
            }
            let jv = m.into_json();
            let ghost gjv = jv;
            items.push(jv);
            proof {
                lemma_arr_model_snoc(before_items, items, gjv);
                assert(all.subrange(0, i + 1).map_values(|m: ExpoPushMessage| message_json(m@))
                    =~= arr_model_prefix(before_items, i as int).push(message_json(
                    all[i as int]@,
                )));
            }
        }
        proof {
            assert(all.subrange(0, n as int) =~= all);
            assert(all.map_values(|m: ExpoPushMessage| message_json(m@)) =~= view_messages(
                all,
            ).map_values(|m: MessageModel| message_json(m)));
        }
        JsonValue::Arr(items)
    }

    /// The wire bytes of the batch.
    pub fn into_body_bytes(self) -> (r: Vec<u8>)
        ensures
            r@ == request_wire(self@),
    {
        let ghost ms = self@;
        let v = self.into_body_json();
        crate::json::to_json_bytes(&v)
    }
}

/// A batch source: anything a send call accepts as its request.
pub trait TryIntoSendPushNotificationsRequest: Sized {
    /// The message batch the value stands for.
    spec fn batch_spec(&self) -> Seq<MessageModel>;

    /// The batch the value stands for, or the validation error it raises:
    /// succeeds iff the batch is non-empty, and the batch is exactly what the
    /// value stands for.
    fn try_into_send_push_notifications_request(self) -> (r: Result<
        SendPushNotificationsRequest,
        CustomError,
    >)
        ensures
            self.batch_spec().len() > 0 <==> r is Ok,
            r matches Ok(req) ==> req@ == self.batch_spec(),
            r matches Err(e) ==> (e matches CustomError::InvalidArgument(m) && m@
                == "messages must not be empty"@),
    ;
}

impl TryIntoSendPushNotificationsRequest for ExpoPushMessage {
    /// A single message stands for the one-message batch; it can never form
    /// an empty request.
    open spec fn batch_spec(&self) -> Seq<MessageModel> {
        seq![self@]
    }

    fn try_into_send_push_notifications_request(self) -> (r: Result<
        SendPushNotificationsRequest,
        CustomError,
    >) {
        let ghost gm = self@;
        let mut messages: Vec<ExpoPushMessage> = Vec::new();
        messages.push(self);
        proof {
            assert(view_messages(messages@) =~= seq![gm]);
        }
        SendPushNotificationsRequest::new(messages)
    }
}

impl TryIntoSendPushNotificationsRequest for Vec<ExpoPushMessage> {
    /// A message list stands for itself as a batch.
    open spec fn batch_spec(&self) -> Seq<MessageModel> {
        view_messages(self@)
    }

    fn try_into_send_push_notifications_request(self) -> (r: Result<
        SendPushNotificationsRequest,
        CustomError,
    >) {
        SendPushNotificationsRequest::new(self)
    }
}

/// The wire value of a receipt query: an object holding the queried ids.
pub open spec fn receipts_request_json(ids: Seq<Seq<char>>) -> JsonModel {
    JsonModel::Obj(
        seq![
            (
                encode_utf8("ids"@),
                JsonModel::Arr(ids.map_values(|t: Seq<char>| JsonModel::Str(encode_utf8(t)))),
            ),
        ],
    )
}

/// The wire bytes of a receipt query.
pub open spec fn receipts_request_wire(ids: Seq<Seq<char>>) -> Seq<u8> {
    json_bytes(receipts_request_json(ids))
}

/// A receipt query: the ids whose delivery outcomes are requested.
#[derive(Debug, PartialEq)]
pub struct GetPushNotificationReceiptsRequest {
    ids: Vec<ExpoPushReceiptId>,
}

impl View for GetPushNotificationReceiptsRequest {
    type V = Seq<Seq<char>>;

    closed spec fn view(&self) -> Seq<Seq<char>> {
        view_ids(self.ids@)
    }
}

impl GetPushNotificationReceiptsRequest {
    /// Wraps a list of receipt ids.
    pub fn new(ids: Vec<ExpoPushReceiptId>) -> (r: Self)
        ensures
            r@ == view_ids(ids@),
    {
        GetPushNotificationReceiptsRequest { ids }
    }

    /// The queried ids, in order.
    pub fn ids(&self) -> (r: &Vec<ExpoPushReceiptId>)
        ensures
            view_ids(r@) == self@,
    {
        &self.ids
    }

    /// The wire value of the query.
    pub fn to_body_json(&self) -> (r: JsonValue)
        ensures
            r@ == receipts_request_json(self@),
    {
        let n = self.ids.len();
        let mut items: Vec<JsonValue> = Vec::new();
        assert(arr_model_prefix(items, 0) =~= Seq::<JsonModel>::empty());
        for i in 0..n
            invariant
                n == self.ids@.len(),
                items@.len() == i,
                arr_model_prefix(items, i as int) == view_ids(self.ids@).subrange(
                    0,
                    i as int,
                ).map_values(|t: Seq<char>| JsonModel::Str(encode_utf8(t))),
        {
            let ghost before_items = items;
            let jv = JsonValue::Str(str_bytes_vec(self.ids[i].as_str()));
            let ghost gjv = jv;
            items.push(jv);
            proof {
                lemma_arr_model_snoc(before_items, items, gjv);
                assert(view_ids(self.ids@).subrange(0, i + 1).map_values(
                    |t: Seq<char>| JsonModel::Str(encode_utf8(t)),
                ) =~= arr_model_prefix(before_items, i as int).push(
                    JsonModel::Str(encode_utf8(self.ids@[i as int]@)),
                ));
            }
        }
        let mut members: Vec<(Vec<u8>, JsonValue)> = Vec::new();
        let ghost garr = items;
        let kb = str_bytes_vec("ids");
        let ghost gkb = kb;
        members.push((kb, JsonValue::Arr(items)));
        let ghost gmembers = members;
        let r = JsonValue::Obj(members);
        proof {
            assert(view_ids(self.ids@).subrange(0, n as int) =~= view_ids(self.ids@));
            assert(gmembers@.len() == 1);
            assert(gmembers@[0] == (gkb, JsonValue::Arr(garr)));
            crate::json::lemma_obj_model_prefix(gmembers, 1);
            assert(crate::json::obj_model_prefix(gmembers, 1) =~= seq![
                (encode_utf8("ids"@), json_model(JsonValue::Arr(garr))),
            ]);
        }
        r
    }

    /// The wire bytes of the query.
    pub fn to_body_bytes(&self) -> (r: Vec<u8>)
        ensures
            r@ == receipts_request_wire(self@),
    {
        let v = self.to_body_json();
        crate::json::to_json_bytes(&v)
    }
}

} // verus!
