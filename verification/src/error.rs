//! Error taxonomy raised by the swap engine and its facade.

use vstd::prelude::*;

use crate::model::PaymentState;

verus! {

/// Errors raised by payment operations.
#[derive(Clone, Debug, PartialEq)]
pub enum PaymentError {
    /// A claim was attempted for a swap whose claim transaction is
    /// already recorded.
    AlreadyClaimed,
    /// The amount lies outside the swapper's limits or below the swap
    /// fees.
    AmountOutOfRange,
    Generic { err: String },
    /// The fee snapshot handed to `send_payment` or `receive_payment`
    /// no longer matches a freshly quoted estimate.
    InvalidOrExpiredFees,
    InsufficientFunds,
    /// Parse failure, network mismatch, expiry, or a payment-hash
    /// mismatch on the invoice.
    InvalidInvoice,
    /// A preimage whose hash does not match the invoice's payment hash.
    InvalidPreimage,
    /// An error surfaced by the wallet backend.
    LwkError { err: String },
    /// The swapper did not quote the requested pair.
    PairsNotFound,
    PersistError,
    /// The swap failed but the locked funds are being returned; carries
    /// the refund transaction id for the caller to follow.
    Refunded { err: String, refund_tx_id: String },
    SendError { err: String },
    SignerError { err: String },
}

impl PaymentError {
    /// A `Generic` error noting that a transition into the given state
    /// is not allowed.
    pub fn invalid_transition(to_state: PaymentState) -> (r: PaymentError)
        ensures
            r is Generic,
    {
        match to_state {
            PaymentState::Created => PaymentError::Generic {
                err: "Cannot transition to Created state".to_owned(),
            },
            PaymentState::Pending => PaymentError::Generic {
                err: "Cannot transition to Pending state".to_owned(),
            },
            PaymentState::Complete => PaymentError::Generic {
                err: "Cannot transition to Complete state".to_owned(),
            },
            PaymentState::Failed => PaymentError::Generic {
                err: "Cannot transition to Failed state".to_owned(),
            },
        }
    }
}

/// Errors raised by the facade operations that are not payments.
#[derive(Clone, Debug, PartialEq)]
pub enum LiquidSdkError {
    Generic { err: String },
    ServiceConnectivity { err: String },
}

pub type LiquidSdkResult<T> = Result<T, LiquidSdkError>;

/// The single error kind exposed over the plain bindings facade.
#[derive(Clone, Debug, PartialEq)]
pub enum LsSdkError {
    Generic { err: String },
}

/// Errors raised when paying through an LNURL endpoint.
#[derive(Clone, Debug, PartialEq)]
pub enum LnUrlPayError {
    /// The invoice has already been paid.
    AlreadyPaid,
    Generic { err: String },
    /// The amount in the parsed invoice is not set.
    InvalidAmount { err: String },
    /// The Lightning invoice cannot be parsed.
    InvalidInvoice { err: String },
    /// The Lightning invoice is for a different Bitcoin network.
    InvalidNetwork { err: String },
    /// The decoded LNURL URI does not follow the specification.
    InvalidUri { err: String },
    /// The Lightning invoice has passed its expiry time.
    InvoiceExpired { err: String },
    PaymentFailed { err: String },
    PaymentTimeout { err: String },
    RouteNotFound { err: String },
    RouteTooExpensive { err: String },
    ServiceConnectivity { err: String },
}

impl LnUrlPayError {
    /// Folds any payment error into the LNURL taxonomy's generic bucket.
    pub fn from_payment_error(e: &PaymentError) -> (r: LnUrlPayError)
        ensures
            r is Generic,
    {
        match e {
            PaymentError::AlreadyClaimed => LnUrlPayError::Generic {
                err: "Funds already claimed".to_owned(),
            },
            PaymentError::AmountOutOfRange => LnUrlPayError::Generic {
                err: "Amount out of range".to_owned(),
            },
            PaymentError::Generic { err } => LnUrlPayError::Generic { err: err.clone() },
            PaymentError::InvalidOrExpiredFees => LnUrlPayError::Generic {
                err: "Invalid or expired fees".to_owned(),
            },
            PaymentError::InsufficientFunds => LnUrlPayError::Generic {
                err: "Insufficient funds".to_owned(),
            },
            PaymentError::InvalidInvoice => LnUrlPayError::Generic {
                err: "Invalid invoice".to_owned(),
            },
            PaymentError::InvalidPreimage => LnUrlPayError::Generic {
                err: "Invalid preimage".to_owned(),
            },
            PaymentError::LwkError { err } => LnUrlPayError::Generic { err: err.clone() },
            PaymentError::PairsNotFound => LnUrlPayError::Generic {
                err: "Pairs not found".to_owned(),
            },
            PaymentError::PersistError => LnUrlPayError::Generic {
                err: "Persist error".to_owned(),
            },
            PaymentError::Refunded { err, .. } => LnUrlPayError::Generic { err: err.clone() },
            PaymentError::SendError { err } => LnUrlPayError::Generic { err: err.clone() },
            PaymentError::SignerError { err } => LnUrlPayError::Generic { err: err.clone() },
        }
    }
}

} // verus!
