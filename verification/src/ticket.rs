//! Tickets and receipts: the typed per-item outcomes decoded from the
//! gateway's responses.
//!
//! A ticket is the immediate per-message acknowledgment returned by the send
//! call, one per submitted message in the same position. A receipt is the
//! later-available delivery outcome, queried separately by receipt id.

use vstd::prelude::*;

verus! {

/// An opaque handle returned by a successful ticket, used later to query the
/// delivery receipt. No structure is assumed beyond equality.
#[derive(Clone, Debug, Eq, Hash, Ord, PartialEq, PartialOrd)]
pub struct ExpoPushReceiptId(String);

impl View for ExpoPushReceiptId {
    type V = Seq<char>;

    closed spec fn view(&self) -> Seq<char> {
        self.0@
    }
}

impl ExpoPushReceiptId {
    /// Wraps a receipt id string.
    pub fn new(id: String) -> (r: Self)
        ensures
            r@ == id@,
    {
        ExpoPushReceiptId(id)
    }

    /// Wraps a receipt id string. Every string is accepted: the id is an
    /// opaque handle.
    pub fn try_from(id: String) -> (r: Result<Self, crate::error::CustomError>)
        ensures
            r matches Ok(v) && v@ == id@,
    {
        Ok(ExpoPushReceiptId(id))
    }

    /// Wraps a receipt id string. Every string is accepted.
    pub fn from_str(id: &str) -> (r: Result<Self, crate::error::CustomError>)
        ensures
            r matches Ok(v) && v@ == id@,
    {
        Ok(ExpoPushReceiptId(id.to_owned()))
    }

    /// The id as a string slice.
    pub fn as_str(&self) -> (r: &str)
        ensures
            r@ == self@,
    {
        self.0.as_str()
    }

    /// The id as an owned string.
    pub fn into_string(self) -> (r: String)
        ensures
            r@ == self@,
    {
        self.0
    }
}

/// The closed vocabulary of per-item failure kinds reported by the gateway.
#[derive(Clone, Copy, Debug, Eq, PartialEq)]
pub enum DetailsErrorType {
    DeveloperError,
    DeviceNotRegistered,
    ExpoError,
    InvalidCredentials,
    MessageTooBig,
    MessageRateExceeded,
    MismatchSenderId,
    ProviderError,
}

/// The structured details of a per-item failure.
#[derive(Clone, Debug, Eq, PartialEq)]
pub struct Details {
    pub error: Option<DetailsErrorType>,
}

/// A per-item failure: the gateway's message and optional structured details.
#[derive(Clone, Debug, Eq, PartialEq)]
pub struct ExpoPushErrorReceipt {
    pub message: String,
    pub details: Option<Details>,
}

/// A failed ticket, under the name the send call once used for it: the same
/// shape as [`ExpoPushErrorReceipt`].
#[derive(Clone, Debug, Eq, PartialEq)]
pub struct ExpoPushErrorTicket {
    pub message: String,
    pub details: Option<Details>,
}

/// A successful ticket: carries the receipt id to query later.
#[derive(Clone, Debug, Eq, PartialEq)]
pub struct ExpoPushSuccessTicket {
    pub id: ExpoPushReceiptId,
}

/// The per-message outcome of a send call.
#[derive(Clone, Debug, Eq, PartialEq)]
pub enum ExpoPushTicket {
    Success(ExpoPushSuccessTicket),
    Error(ExpoPushErrorReceipt),
}

/// The per-id outcome of a receipt query.
#[derive(Clone, Debug, Eq, PartialEq)]
pub enum ExpoPushReceipt {
    Success,
    Error(ExpoPushErrorReceipt),
}

/// The mathematical form of a per-item failure.
pub struct ErrorReceiptModel {
    pub message: Seq<char>,
    pub details: Option<Details>,
}

/// The mathematical form of a ticket.
pub enum TicketModel {
    Success(Seq<char>),
    Error(ErrorReceiptModel),
}

/// The mathematical form of a receipt.
pub enum ReceiptModel {
    Success,
    Error(ErrorReceiptModel),
}

impl View for ExpoPushErrorReceipt {
    type V = ErrorReceiptModel;

    open spec fn view(&self) -> ErrorReceiptModel {
        ErrorReceiptModel { message: self.message@, details: self.details }
    }
}

impl View for ExpoPushTicket {
    type V = TicketModel;

    open spec fn view(&self) -> TicketModel {
        match self {
            ExpoPushTicket::Success(t) => TicketModel::Success(t.id@),
            ExpoPushTicket::Error(e) => TicketModel::Error(e@),
        }
    }
}

impl View for ExpoPushReceipt {
    type V = ReceiptModel;

    open spec fn view(&self) -> ReceiptModel {
        match self {
            ExpoPushReceipt::Success => ReceiptModel::Success,
            ExpoPushReceipt::Error(e) => ReceiptModel::Error(e@),
        }
    }
}

} // verus!
