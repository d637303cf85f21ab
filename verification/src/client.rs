//! The client: immutable configuration, batching, request preparation and
//! response handling.
//!
//! The client holds only configuration (base URL, credential, a delivery
//! backend flag) and is free of any transport state: each call prepares a
//! complete request (method, URL, headers, body) for the caller's transport
//! to issue, and decodes the raw status and bytes the transport got back.
//! The pipeline is stateless and re-entrant.

use vstd::prelude::*;
use vstd::string::StringExecFns;

use crate::error::CustomError;
use crate::jparse::{parse_json, sp_document};
use crate::json::fmt_u64;
use crate::message::{view_opt_string, ExpoPushMessage};
use crate::payload::{encode_payload, gzip_of, EncodedPayload, GZIP_THRESHOLD};
use crate::reconcile::{receipts_from_response, spec_receipts_response, spec_send_response,
    tickets_from_response, view_tickets, ReceiptMap};
use crate::request::{receipts_request_wire, request_wire, GetPushNotificationReceiptsRequest,
    SendPushNotificationsRequest};
use crate::text::string_from_utf8;
use crate::ticket::ExpoPushTicket;
use crate::token::spec_is_valid_token;

verus! {

/// The hard per-request ceiling on messages in one send call.
pub const PUSH_NOTIFICATION_CHUNK_LIMIT: usize = 100;

/// The configuration a client is built from.
#[derive(Clone, Debug)]
pub struct ExpoClientOptions {
    pub access_token: Option<String>,
    pub use_fcm_v1: Option<bool>,
}

impl Default for ExpoClientOptions {
    /// No credential, the default delivery backend.
    fn default() -> (r: Self)
        ensures
            view_opt_string(&r.access_token) is None,
            r.use_fcm_v1 is None,
    {
        ExpoClientOptions { access_token: None, use_fcm_v1: None }
    }
}

/// The mathematical form of a client: its immutable configuration.
pub struct ExpoModel {
    pub access_token: Option<Seq<char>>,
    pub base_url: Seq<char>,
    pub use_fcm_v1: Option<bool>,
}

/// The push client. Holds only immutable configuration and may be shared
/// freely; the network exchange itself belongs to the caller's transport.
#[derive(Clone)]
pub struct Expo {
    access_token: Option<String>,
    base_url: String,
    use_fcm_v1: Option<bool>,
}

impl View for Expo {
    type V = ExpoModel;

    closed spec fn view(&self) -> ExpoModel {
        ExpoModel {
            access_token: view_opt_string(&self.access_token),
            base_url: self.base_url@,
            use_fcm_v1: self.use_fcm_v1,
        }
    }
}

/// A fully prepared HTTP request: what the caller's transport must send.
pub struct PreparedRequest {
    /// The request method; always POST.
    pub method: String,
    /// The absolute URL: the configured base followed by the endpoint path.
    pub url: String,
    /// The headers to set, name and value.
    pub headers: Vec<(String, String)>,
    /// The encoded body bytes.
    pub body: Vec<u8>,
}

/// The characters of each header pair.
pub open spec fn view_headers(h: Seq<(String, String)>) -> Seq<(Seq<char>, Seq<char>)> {
    h.map_values(|p: (String, String)| (p.0@, p.1@))
}

/// The headers of a prepared request: the content type and the wish for a
/// compressed response always, the bearer credential when one is configured,
/// and the content-encoding mark exactly when the body was compressed.
pub open spec fn spec_headers(access_token: Option<Seq<char>>, gzipped: bool) -> Seq<
    (Seq<char>, Seq<char>),
> {
    seq![("Content-Type"@, "application/json"@), ("Accept-Encoding"@, "gzip"@)] + (
    match access_token {
        Some(t) => seq![("Authorization"@, "Bearer "@ + t)],
        None => Seq::empty(),
    }) + (if gzipped {
        seq![("Content-Encoding"@, "gzip"@)]
    } else {
        Seq::empty()
    })
}

/// The send endpoint's path, with the optional delivery backend selector.
pub open spec fn send_path(use_fcm_v1: Option<bool>) -> Seq<char> {
    "/--/api/v2/push/send"@ + (match use_fcm_v1 {
        Some(true) => "?useFcmV1=true"@,
        Some(false) => "?useFcmV1=false"@,
        None => Seq::<char>::empty(),
    })
}

/// The receipts endpoint's path.
pub open spec fn receipts_path() -> Seq<char> {
    "/--/api/v2/push/getReceipts"@
}

/// A response status that counts as success.
pub open spec fn spec_status_success(status: u16) -> bool {
    200 <= status < 300
}

/// The description a failed request's server error carries: the status code
/// in decimal, as context.
pub open spec fn status_text(status: u16) -> Seq<char> {
    "Request failed: "@ + vstd::utf8::decode_utf8(crate::json::dec_digits(status as nat))
}

/// The messages of all chunks, in order.
pub open spec fn chunks_flat(cs: Seq<Vec<ExpoPushMessage>>) -> Seq<ExpoPushMessage>
    decreases cs.len(),
{
    if cs.len() == 0 {
        Seq::empty()
    } else {
        chunks_flat(cs.drop_last()) + cs.last()@
    }
}

/// How many chunks a list of `n` messages splits into: every chunk but the
/// last holds the full limit, so the count is `n` divided by the limit,
/// rounded up.
proof fn lemma_chunk_count(n: int, k: int, r: int)
    requires
        k >= 1,
        n == (k - 1) * PUSH_NOTIFICATION_CHUNK_LIMIT + r,
        0 < r <= PUSH_NOTIFICATION_CHUNK_LIMIT,
    ensures
        k == (n + PUSH_NOTIFICATION_CHUNK_LIMIT - 1) / (PUSH_NOTIFICATION_CHUNK_LIMIT as int),
{
    assert(k == (n + PUSH_NOTIFICATION_CHUNK_LIMIT - 1) / (PUSH_NOTIFICATION_CHUNK_LIMIT as int))
        by (nonlinear_arith)
        requires
            k >= 1,
            n == (k - 1) * PUSH_NOTIFICATION_CHUNK_LIMIT + r,
            0 < r <= PUSH_NOTIFICATION_CHUNK_LIMIT,
    ;
}

impl Expo {
    /// A client for the public gateway, from the given configuration.
    pub fn new(options: ExpoClientOptions) -> (r: Self)
        ensures
            r@ == (ExpoModel {
                access_token: view_opt_string(&options.access_token),
                base_url: "https://exp.host"@,
                use_fcm_v1: options.use_fcm_v1,
            }),
    {
        Expo {
            access_token: options.access_token,
            base_url: "https://exp.host".to_owned(),
            use_fcm_v1: options.use_fcm_v1,
        }
    }

    /// A client for a gateway at the given base URL.
    pub fn new_with_base_url(
        access_token: Option<String>,
        base_url: &str,
        use_fcm_v1: Option<bool>,
    ) -> (r: Self)
        ensures
            r@ == (ExpoModel {
                access_token: view_opt_string(&access_token),
                base_url: base_url@,
                use_fcm_v1,
            }),
    {
        Expo { access_token, base_url: base_url.to_owned(), use_fcm_v1 }
    }

    /// Whether a string is a valid push token.
    pub fn is_expo_push_token(token: &str) -> (r: bool)
        ensures
            r == spec_is_valid_token(token@),
    {
        crate::token::is_expo_push_token(token)
    }

    /// Splits a message list into chunks that respect the gateway's
    /// per-request ceiling: every chunk but the last holds exactly the limit,
    /// the last holds the non-empty remainder, concatenating all chunks in
    /// order reproduces the input exactly, and an empty input yields no
    /// chunks at all.
    pub fn chunk_push_notifications(&self, messages: Vec<ExpoPushMessage>) -> (r: Vec<
        Vec<ExpoPushMessage>,
    >)
        ensures
            chunks_flat(r@) == messages@,
            forall|i: int|
                0 <= i < r@.len() ==> 0 < #[trigger] r@[i]@.len() <= PUSH_NOTIFICATION_CHUNK_LIMIT,
            forall|i: int|
                0 <= i < r@.len() - 1 ==> #[trigger] r@[i]@.len() == PUSH_NOTIFICATION_CHUNK_LIMIT,
            messages@.len() == 0 ==> r@.len() == 0,
            messages@.len() > 0 ==> r@.len() == (messages@.len() + PUSH_NOTIFICATION_CHUNK_LIMIT
                - 1) / (PUSH_NOTIFICATION_CHUNK_LIMIT as int),
    {
        let ghost all = messages@;
        let mut rest = messages;
        let mut chunks: Vec<Vec<ExpoPushMessage>> = Vec::new();
        assert(chunks_flat(chunks@) + rest@ =~= all);
        while rest.len() > PUSH_NOTIFICATION_CHUNK_LIMIT
            invariant
                chunks_flat(chunks@) + rest@ == all,
                forall|i: int|
                    0 <= i < chunks@.len() ==> #[trigger] chunks@[i]@.len()
                        == PUSH_NOTIFICATION_CHUNK_LIMIT,
                all.len() == chunks@.len() * PUSH_NOTIFICATION_CHUNK_LIMIT + rest@.len(),
            decreases rest@.len(),
        {
            let ghost pre_chunks = chunks@;
            let ghost pre_rest = rest@;
            let tail = rest.split_off(PUSH_NOTIFICATION_CHUNK_LIMIT);
            let head = rest;
            rest = tail;
            chunks.push(head);
            proof {
                assert(chunks@.drop_last() =~= pre_chunks);
                assert(chunks_flat(chunks@) == chunks_flat(pre_chunks) + chunks@.last()@);
                assert(chunks_flat(pre_chunks) + (pre_rest.subrange(
                    0,
                    PUSH_NOTIFICATION_CHUNK_LIMIT as int,
                ) + pre_rest.subrange(
                    PUSH_NOTIFICATION_CHUNK_LIMIT as int,
                    pre_rest.len() as int,
                )) =~= chunks_flat(pre_chunks) + pre_rest);
                assert(chunks_flat(chunks@) + rest@ =~= (chunks_flat(pre_chunks)
                    + chunks@.last()@) + rest@);
                assert((chunks_flat(pre_chunks) + chunks@.last()@) + rest@ =~= chunks_flat(
                    pre_chunks,
                ) + (chunks@.last()@ + rest@));
            }
        }
        if rest.len() > 0 {
            let ghost pre_chunks = chunks@;
            let ghost pre_rest = rest@;
            chunks.push(rest);
            proof {
                assert(chunks@.drop_last() =~= pre_chunks);
                assert(chunks_flat(chunks@) == chunks_flat(pre_chunks) + pre_rest);
            }
        } else {
            assert(chunks_flat(chunks@) + rest@ =~= chunks_flat(chunks@));
        }
        proof {
            if all.len() > 0 {
                lemma_chunk_count(
                    all.len() as int,
                    chunks@.len() as int,
                    chunks@.last()@.len() as int,
                );
            }
        }
        chunks
    }

    /// Prepares the send call for a batch: the POST request to the send
    /// endpoint, with the batch's wire bytes as body, compressed above the
    /// threshold. Always succeeds: compression runs in memory and cannot
    /// fail.
    pub fn prepare_send_request(&self, request: SendPushNotificationsRequest) -> (r: Result<
        PreparedRequest,
        CustomError,
    >)
        ensures
            r matches Ok(p) && {
                &&& p.method@ == "POST"@
                &&& p.url@ == self@.base_url + send_path(self@.use_fcm_v1)
                &&& request_wire(request@).len() <= GZIP_THRESHOLD ==> p.body@ == request_wire(
                    request@,
                ) && view_headers(p.headers@) == spec_headers(self@.access_token, false)
                &&& request_wire(request@).len() > GZIP_THRESHOLD ==> p.body@ == gzip_of(
                    request_wire(request@),
                ) && view_headers(p.headers@) == spec_headers(self@.access_token, true)
            },
    {
        let ghost wire = request_wire(request@);
        let body = request.into_body_bytes();
        let mut url = self.base_url.clone();
        url.append("/--/api/v2/push/send");
        match self.use_fcm_v1 {
            Some(true) => {
                url.append("?useFcmV1=true");
            },
            Some(false) => {
                url.append("?useFcmV1=false");
            },
            None => {},
        }
        proof {
            assert(url@ =~= self@.base_url + send_path(self@.use_fcm_v1));
        }
        self.finish_request(url, body)
    }

    /// Prepares the receipt query for a list of ids: the POST request to the
    /// receipts endpoint, with the query's wire bytes as body, compressed
    /// above the threshold. Always succeeds: compression runs in memory and
    /// cannot fail.
    pub fn prepare_get_receipts_request(
        &self,
        request: &GetPushNotificationReceiptsRequest,
    ) -> (r: Result<PreparedRequest, CustomError>)
        ensures
            r matches Ok(p) && {
                &&& p.method@ == "POST"@
                &&& p.url@ == self@.base_url + receipts_path()
                &&& receipts_request_wire(request@).len() <= GZIP_THRESHOLD ==> p.body@
                    == receipts_request_wire(request@) && view_headers(p.headers@) == spec_headers(
                    self@.access_token,
                    false,
                )
                &&& receipts_request_wire(request@).len() > GZIP_THRESHOLD ==> p.body@ == gzip_of(
                    receipts_request_wire(request@),
                ) && view_headers(p.headers@) == spec_headers(self@.access_token, true)
            },
    {
        let body = request.to_body_bytes();
        let mut url = self.base_url.clone();
        url.append("/--/api/v2/push/getReceipts");
        proof {
            assert(url@ =~= self@.base_url + receipts_path());
        }
        self.finish_request(url, body)
    }

    /// Encodes the body and assembles method, URL and headers. Always
    /// succeeds.
    fn finish_request(&self, url: String, body: Vec<u8>) -> (r: Result<
        PreparedRequest,
        CustomError,
    >)
        ensures
            r matches Ok(p) && {
                &&& p.method@ == "POST"@
                &&& p.url@ == url@
                &&& body@.len() <= GZIP_THRESHOLD ==> p.body@ == body@ && view_headers(p.headers@)
                    == spec_headers(self@.access_token, false)
                &&& body@.len() > GZIP_THRESHOLD ==> p.body@ == gzip_of(body@) && view_headers(
                    p.headers@,
                ) == spec_headers(self@.access_token, true)
            },
    {
        let payload: EncodedPayload = match encode_payload(body) {
            Ok(p) => p,
            Err(e) => {
                return Err(e);
            },
        };
        let mut headers: Vec<(String, String)> = Vec::new();
        headers.push(("Content-Type".to_owned(), "application/json".to_owned()));
        headers.push(("Accept-Encoding".to_owned(), "gzip".to_owned()));
        match &self.access_token {
            Some(token) => {
                let mut auth = "Bearer ".to_owned();
                auth.append(token.as_str());
                headers.push(("Authorization".to_owned(), auth));
            },
            None => {},
        }
        if payload.gzipped {
            headers.push(("Content-Encoding".to_owned(), "gzip".to_owned()));
        }
        proof {
            assert(view_headers(headers@) =~= spec_headers(self@.access_token, payload.gzipped));
        }
        Ok(
            PreparedRequest {
                method: "POST".to_owned(),
                url,
                headers,
                body: payload.bytes,
            },
        )
    }
}

/// Decodes a send response: a non-success status is a server error for the
/// whole call; a success status must carry a well-formed ticket array, which
/// decodes into tickets in the array's order, or the call fails as
/// undecodable.
pub fn handle_send_response(status: u16, body: &[u8]) -> (r: Result<
    Vec<ExpoPushTicket>,
    CustomError,
>)
    ensures
        !spec_status_success(status) ==> (r matches Err(e) && e matches CustomError::ServerErr(m)
            && m@ == status_text(status)),
        spec_status_success(status) ==> match sp_document(body@) {
            Some(j) => match spec_send_response(j) {
                Some(ts) => r matches Ok(v) && view_tickets(v@) == ts,
                None => (r matches Err(e) && e is DeserializeErr),
            },
            None => (r matches Err(e) && e is DeserializeErr),
        },
{
    if !(200 <= status && status < 300) {
        return Err(CustomError::ServerErr(status_message(status)));
    }
    let v = match parse_json(body) {
        Some(v) => v,
        None => {
            return Err(
                CustomError::DeserializeErr("Failed to deserialize response".to_owned()),
            );
        },
    };
    match tickets_from_response(&v) {
        Some(ts) => Ok(ts),
        None => Err(
            CustomError::DeserializeErr("response does not hold a ticket array".to_owned()),
        ),
    }
}

/// Decodes a receipts response: a non-success status is a server error for
/// the whole call; a success status must carry a well-formed receipt object,
/// whose entries decode into a map keyed by receipt id.
pub fn handle_receipts_response(status: u16, body: &[u8]) -> (r: Result<ReceiptMap, CustomError>)
    ensures
        !spec_status_success(status) ==> (r matches Err(e) && e matches CustomError::ServerErr(m)
            && m@ == status_text(status)),
        spec_status_success(status) ==> match sp_document(body@) {
            Some(j) => match spec_receipts_response(j) {
                Some(es) => r matches Ok(m) && m@ == es,
                None => (r matches Err(e) && e is DeserializeErr),
            },
            None => (r matches Err(e) && e is DeserializeErr),
        },
{
    if !(200 <= status && status < 300) {
        return Err(CustomError::ServerErr(status_message(status)));
    }
    let v = match parse_json(body) {
        Some(v) => v,
        None => {
            return Err(
                CustomError::DeserializeErr("Failed to deserialize response".to_owned()),
            );
        },
    };
    match receipts_from_response(&v) {
        Some(entries) => Ok(ReceiptMap::new(entries)),
        None => Err(
            CustomError::DeserializeErr("response does not hold a receipt object".to_owned()),
        ),
    }
}

/// A human-readable description of a failed request's status code.
fn status_message(status: u16) -> (r: String)
    ensures
        r@ == status_text(status),
{
    let digits = fmt_u64(status as u64);
    proof {
        crate::json::lemma_dec_digits_digits(status as nat);
        crate::text::lemma_ascii_valid_utf8(digits@);
    }
    match string_from_utf8(digits) {
        Some(s) => {
            let mut m = "Request failed: ".to_owned();
            m.append(s.as_str());
            m
        },
        None => {
            proof {
                assert(false);
            }
            unreached()
        },
    }
}

} // verus!
