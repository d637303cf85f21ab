//! A client-side library for dispatching push notifications through a remote
//! gateway and reconciling delivery receipts.
//!
//! The library builds validated push messages, batches them into size-bounded
//! chunks, serializes request bodies to their JSON wire form, compresses large
//! payloads, and decodes per-item outcomes from the gateway's responses into
//! typed results. The network exchange itself is left to the caller: the
//! library produces a fully prepared request (method, path, headers, body) and
//! consumes the raw status and bytes of the response.

pub mod client;
pub mod error;
pub mod jparse;
pub mod json;
pub mod message;
pub mod payload;
pub mod reconcile;
pub mod request;
pub mod roundtrip;
pub mod simple;
pub mod text;
pub mod ticket;
pub mod token;

pub use client::{handle_receipts_response, handle_send_response, Expo, ExpoClientOptions,
    ExpoModel, PreparedRequest, PUSH_NOTIFICATION_CHUNK_LIMIT};
pub use error::{CustomError, ValidationError};
pub use json::{JsonModel, JsonValue};
pub use message::{ExpoPushMessage, ExpoPushMessageBuilder, InterruptionLevel, MessageModel,
    Priority, RichContent, Sound};
pub use payload::{encode_payload, EncodedPayload, GZIP_THRESHOLD};
pub use reconcile::ReceiptMap;
pub use request::{GetPushNotificationReceiptsRequest, SendPushNotificationsRequest,
    TryIntoSendPushNotificationsRequest};
pub use simple::{PushIds, PushPayload};
pub use ticket::{Details, DetailsErrorType, ExpoPushErrorReceipt, ExpoPushErrorTicket,
    ExpoPushReceipt, ExpoPushReceiptId, ExpoPushSuccessTicket, ExpoPushTicket};
