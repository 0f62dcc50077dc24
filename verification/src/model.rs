//! Core data model: networks, payment states, swap records, the payment
//! transaction ledger, the derived payment view, and the request/response
//! types of the public facade.

use vstd::prelude::*;

verus! {

/// The Liquid network a wallet instance is bound to. Selects endpoints
/// and key-derivation flavors.
#[derive(Clone, Copy, Debug, PartialEq, Eq, Structural)]
pub enum Network {
    Mainnet,
    Testnet,
}

/// Lifecycle state shared by both swap kinds.
///
/// `Created` is the initial state and can never be entered again;
/// `Complete` and `Failed` are terminal except that any state may move
/// to `Failed`; `Pending` may re-enter `Pending` to record sub-phase
/// progress through the transaction-id fields.
#[derive(Clone, Copy, Debug, PartialEq, Eq, Structural)]
pub enum PaymentState {
    Created,
    Pending,
    Complete,
    Failed,
}

/// Direction of a payment, as seen from the local wallet.
#[derive(Clone, Copy, Debug, PartialEq, Eq, Structural)]
pub enum PaymentType {
    Send,
    Receive,
}

/// The two swap kinds tracked against the swapper's status feed.
#[derive(Clone, Copy, Debug, PartialEq, Eq, Structural)]
pub enum SwapType {
    Submarine,
    Reverse,
}

/// Whether a state-to-state move is allowed by the swap state machine:
/// no transition into `Created`; `Pending` and `Complete` are reached
/// only from `Created` or `Pending`; any state may move to `Failed`.
pub open spec fn transition_allowed(from: PaymentState, to: PaymentState) -> bool {
    match to {
        PaymentState::Created => false,
        PaymentState::Pending => from == PaymentState::Created || from == PaymentState::Pending,
        PaymentState::Complete => from == PaymentState::Created || from == PaymentState::Pending,
        PaymentState::Failed => true,
    }
}

/// The swap state machine is closed: no transition enters `Created`;
/// `Complete` and `Failed` are terminal except for the always-allowed
/// move to `Failed`; `Pending` and `Complete` are entered only from
/// `Created` or `Pending`.
pub proof fn lemma_state_machine_closure(from: PaymentState, to: PaymentState)
    ensures
        !transition_allowed(from, PaymentState::Created),
        transition_allowed(from, PaymentState::Failed),
        transition_allowed(PaymentState::Complete, to) ==> to == PaymentState::Failed,
        transition_allowed(PaymentState::Failed, to) ==> to == PaymentState::Failed,
        transition_allowed(from, PaymentState::Pending) <==> from == PaymentState::Created || from
            == PaymentState::Pending,
        transition_allowed(from, PaymentState::Complete) <==> from == PaymentState::Created || from
            == PaymentState::Pending,
{
}

/// A Send (submarine) swap record: the wallet locks L-BTC so the swapper
/// pays a Lightning invoice.
#[derive(Debug, PartialEq)]
pub struct SendSwap {
    /// Swap identifier handed out by the swapper.
    pub id: String,
    /// The BOLT-11 invoice the swapper is asked to pay.
    pub invoice: String,
    /// What the wallet locks: receiver amount plus all fees.
    pub payer_amount_sat: u64,
    pub receiver_amount_sat: u64,
    /// Opaque serialized swapper handshake payload, decoded lazily.
    pub create_response_blob: String,
    pub lockup_tx_id: Option<String>,
    pub refund_tx_id: Option<String>,
    /// The invoice preimage, learned when the swap completes.
    pub preimage: Option<String>,
    pub state: PaymentState,
    pub created_at: u32,
}

/// A Receive (reverse submarine) swap record: the swapper locks L-BTC
/// that the locally stored preimage lets the wallet claim.
#[derive(Debug, PartialEq)]
pub struct ReceiveSwap {
    /// Swap identifier handed out by the swapper.
    pub id: String,
    /// Hex-encoded preimage, generated locally at creation.
    pub preimage: String,
    /// Opaque serialized swapper handshake payload, decoded lazily.
    pub create_response_blob: String,
    /// The HODL invoice issued by the swapper.
    pub invoice: String,
    pub payer_amount_sat: u64,
    pub receiver_amount_sat: u64,
    pub claim_fees_sat: u64,
    pub claim_tx_id: Option<String>,
    pub state: PaymentState,
    pub created_at: u32,
}

/// Clones an optional character datum, preserving its view.
pub fn clone_opt_string(o: &Option<String>) -> (r: Option<String>)
    ensures
        r.deep_view() == o.deep_view(),
{
    match o {
        Some(s) => Some(s.clone()),
        None => None,
    }
}

impl Clone for SendSwap {
    /// Clones the record, preserving its view.
    fn clone(&self) -> (res: SendSwap)
        ensures
            res.deep_view() == self.deep_view(),
    {
        SendSwap {
            id: self.id.clone(),
            invoice: self.invoice.clone(),
            payer_amount_sat: self.payer_amount_sat,
            receiver_amount_sat: self.receiver_amount_sat,
            create_response_blob: self.create_response_blob.clone(),
            lockup_tx_id: clone_opt_string(&self.lockup_tx_id),
            refund_tx_id: clone_opt_string(&self.refund_tx_id),
            preimage: clone_opt_string(&self.preimage),
            state: self.state,
            created_at: self.created_at,
        }
    }
}

impl Clone for ReceiveSwap {
    /// Clones the record, preserving its view.
    fn clone(&self) -> (res: ReceiveSwap)
        ensures
            res.deep_view() == self.deep_view(),
    {
        ReceiveSwap {
            id: self.id.clone(),
            preimage: self.preimage.clone(),
            create_response_blob: self.create_response_blob.clone(),
            invoice: self.invoice.clone(),
            payer_amount_sat: self.payer_amount_sat,
            receiver_amount_sat: self.receiver_amount_sat,
            claim_fees_sat: self.claim_fees_sat,
            claim_tx_id: clone_opt_string(&self.claim_tx_id),
            state: self.state,
            created_at: self.created_at,
        }
    }
}

/// Either kind of swap record, as returned by the ongoing-swap listing.
#[derive(Clone, Debug, PartialEq)]
pub enum Swap {
    Send(SendSwap),
    Receive(ReceiveSwap),
}

impl Swap {
    /// The swap identifier, whichever kind the record is.
    pub fn id(&self) -> (r: String)
        ensures
            r == self.spec_id(),
    {
        match self {
            Swap::Send(s) => s.id.clone(),
            Swap::Receive(r) => r.id.clone(),
        }
    }

    pub open spec fn spec_id(&self) -> String {
        match self {
            Swap::Send(s) => s.id,
            Swap::Receive(r) => r.id,
        }
    }
}

/// One row per distinct Liquid transaction observed on chain or in the
/// mempool: lockup, claim or refund.
#[derive(Clone, Debug, PartialEq)]
pub struct PaymentTxData {
    pub tx_id: String,
    /// May stay unset until the transaction confirms.
    pub timestamp: Option<u32>,
    pub amount_sat: u64,
    pub payment_type: PaymentType,
    pub is_confirmed: bool,
}

/// The derived payment view: a ledger row joined with its owning swap,
/// if any, keyed by lockup, refund or claim transaction id.
#[derive(Clone, Debug, PartialEq)]
pub struct Payment {
    pub tx_id: String,
    pub swap_id: Option<String>,
    /// The ledger row's timestamp, or zero while the transaction is
    /// unconfirmed and carries none.
    pub timestamp: u32,
    pub amount_sat: u64,
    /// The swap fees, when the row is joined with a swap.
    pub fees_sat: Option<u64>,
    pub preimage: Option<String>,
    pub refund_tx_id: Option<String>,
    pub refund_tx_amount_sat: Option<u64>,
    pub payment_type: PaymentType,
    /// The owning swap's state if joined, else `Complete` when the
    /// transaction is confirmed and `Pending` otherwise.
    pub status: PaymentState,
}

/// A wallet transaction as reported by the chain scan, reduced to the
/// plain values the reconciliation logic reads.
#[derive(Clone, Debug, PartialEq)]
pub struct WalletTx {
    pub tx_id: String,
    /// Block height, unset while the transaction sits in the mempool.
    pub height: Option<u32>,
    pub timestamp: Option<u32>,
    /// Net balance delta of the wallet, in satoshi.
    pub balance_sat: i64,
}

/// Payment lifecycle events fanned out to registered listeners.
#[derive(Clone, Debug, PartialEq)]
pub enum LiquidSdkEvent {
    PaymentFailed { details: Payment },
    PaymentPending { details: Payment },
    PaymentRefunded { details: Payment },
    PaymentRefundPending { details: Payment },
    PaymentSucceed { details: Payment },
    PaymentWaitingConfirmation { details: Payment },
    Synced,
}

// ---------------------------------------------------------------------
// Swapper status feed states
// ---------------------------------------------------------------------

/// The states a Send (submarine) swap's status feed announces.
#[derive(Clone, Copy, Debug, PartialEq, Eq, Structural)]
pub enum SubSwapStates {
    Created,
    InvoiceSet,
    InvoicePending,
    InvoicePaid,
    InvoiceFailedToPay,
    TransactionMempool,
    TransactionConfirmed,
    TransactionClaimPending,
    TransactionClaimed,
    TransactionLockupFailed,
    SwapExpired,
}

/// The states a Receive (reverse submarine) swap's status feed
/// announces.
#[derive(Clone, Copy, Debug, PartialEq, Eq, Structural)]
pub enum RevSwapStates {
    Created,
    MinerFeePaid,
    TransactionMempool,
    TransactionConfirmed,
    InvoiceSettled,
    InvoiceExpired,
    SwapExpired,
    TransactionFailed,
    TransactionRefunded,
}

/// The Send swap state a raw status string denotes, if any.
pub open spec fn spec_parse_sub_swap_state(s: Seq<char>) -> Option<SubSwapStates> {
    if s == "swap.created"@ {
        Some(SubSwapStates::Created)
    } else if s == "invoice.set"@ {
        Some(SubSwapStates::InvoiceSet)
    } else if s == "invoice.pending"@ {
        Some(SubSwapStates::InvoicePending)
    } else if s == "invoice.paid"@ {
        Some(SubSwapStates::InvoicePaid)
    } else if s == "invoice.failedToPay"@ {
        Some(SubSwapStates::InvoiceFailedToPay)
    } else if s == "transaction.mempool"@ {
        Some(SubSwapStates::TransactionMempool)
    } else if s == "transaction.confirmed"@ {
        Some(SubSwapStates::TransactionConfirmed)
    } else if s == "transaction.claim.pending"@ {
        Some(SubSwapStates::TransactionClaimPending)
    } else if s == "transaction.claimed"@ {
        Some(SubSwapStates::TransactionClaimed)
    } else if s == "transaction.lockupFailed"@ {
        Some(SubSwapStates::TransactionLockupFailed)
    } else if s == "swap.expired"@ {
        Some(SubSwapStates::SwapExpired)
    } else {
        None
    }
}

/// Parses a raw Send status string; unknown states give `None` and are
/// dropped by the stream.
pub fn parse_sub_swap_state(s: &str) -> (r: Option<SubSwapStates>)
    ensures
        r == spec_parse_sub_swap_state(s@),
{
    if crate::utils::str_eq(s, "swap.created") {
        Some(SubSwapStates::Created)
    } else if crate::utils::str_eq(s, "invoice.set") {
        Some(SubSwapStates::InvoiceSet)
    } else if crate::utils::str_eq(s, "invoice.pending") {
        Some(SubSwapStates::InvoicePending)
    } else if crate::utils::str_eq(s, "invoice.paid") {
        Some(SubSwapStates::InvoicePaid)
    } else if crate::utils::str_eq(s, "invoice.failedToPay") {
        Some(SubSwapStates::InvoiceFailedToPay)
    } else if crate::utils::str_eq(s, "transaction.mempool") {
        Some(SubSwapStates::TransactionMempool)
    } else if crate::utils::str_eq(s, "transaction.confirmed") {
        Some(SubSwapStates::TransactionConfirmed)
    } else if crate::utils::str_eq(s, "transaction.claim.pending") {
        Some(SubSwapStates::TransactionClaimPending)
    } else if crate::utils::str_eq(s, "transaction.claimed") {
        Some(SubSwapStates::TransactionClaimed)
    } else if crate::utils::str_eq(s, "transaction.lockupFailed") {
        Some(SubSwapStates::TransactionLockupFailed)
    } else if crate::utils::str_eq(s, "swap.expired") {
        Some(SubSwapStates::SwapExpired)
    } else {
        None
    }
}

/// The Receive swap state a raw status string denotes, if any.
pub open spec fn spec_parse_rev_swap_state(s: Seq<char>) -> Option<RevSwapStates> {
    if s == "swap.created"@ {
        Some(RevSwapStates::Created)
    } else if s == "minerfee.paid"@ {
        Some(RevSwapStates::MinerFeePaid)
    } else if s == "transaction.mempool"@ {
        Some(RevSwapStates::TransactionMempool)
    } else if s == "transaction.confirmed"@ {
        Some(RevSwapStates::TransactionConfirmed)
    } else if s == "invoice.settled"@ {
        Some(RevSwapStates::InvoiceSettled)
    } else if s == "invoice.expired"@ {
        Some(RevSwapStates::InvoiceExpired)
    } else if s == "swap.expired"@ {
        Some(RevSwapStates::SwapExpired)
    } else if s == "transaction.failed"@ {
        Some(RevSwapStates::TransactionFailed)
    } else if s == "transaction.refunded"@ {
        Some(RevSwapStates::TransactionRefunded)
    } else {
        None
    }
}

/// Parses a raw Receive status string; unknown states give `None` and
/// are dropped by the stream.
pub fn parse_rev_swap_state(s: &str) -> (r: Option<RevSwapStates>)
    ensures
        r == spec_parse_rev_swap_state(s@),
{
    if crate::utils::str_eq(s, "swap.created") {
        Some(RevSwapStates::Created)
    } else if crate::utils::str_eq(s, "minerfee.paid") {
        Some(RevSwapStates::MinerFeePaid)
    } else if crate::utils::str_eq(s, "transaction.mempool") {
        Some(RevSwapStates::TransactionMempool)
    } else if crate::utils::str_eq(s, "transaction.confirmed") {
        Some(RevSwapStates::TransactionConfirmed)
    } else if crate::utils::str_eq(s, "invoice.settled") {
        Some(RevSwapStates::InvoiceSettled)
    } else if crate::utils::str_eq(s, "invoice.expired") {
        Some(RevSwapStates::InvoiceExpired)
    } else if crate::utils::str_eq(s, "swap.expired") {
        Some(RevSwapStates::SwapExpired)
    } else if crate::utils::str_eq(s, "transaction.failed") {
        Some(RevSwapStates::TransactionFailed)
    } else if crate::utils::str_eq(s, "transaction.refunded") {
        Some(RevSwapStates::TransactionRefunded)
    } else {
        None
    }
}

// ---------------------------------------------------------------------
// Facade request/response types
// ---------------------------------------------------------------------

#[derive(Clone, Debug, PartialEq)]
pub struct ConnectRequest {
    pub mnemonic: String,
    pub data_dir: Option<String>,
    pub network: Network,
}

#[derive(Clone, Copy, Debug, PartialEq, Eq, Structural)]
pub struct GetInfoRequest {
    pub with_scan: bool,
}

#[derive(Clone, Debug, PartialEq)]
pub struct GetInfoResponse {
    /// Confirmed receives minus confirmed sends minus pending sends.
    pub balance_sat: u64,
    pub pending_send_sat: u64,
    pub pending_receive_sat: u64,
    pub pubkey: String,
}

#[derive(Clone, Debug, PartialEq)]
pub struct PrepareSendRequest {
    pub invoice: String,
}

#[derive(Clone, Debug, PartialEq)]
pub struct PrepareSendResponse {
    pub invoice: String,
    pub fees_sat: u64,
}

#[derive(Clone, Debug, PartialEq)]
pub struct SendPaymentResponse {
    pub txid: String,
}

#[derive(Clone, Copy, Debug, PartialEq, Eq, Structural)]
pub struct PrepareReceiveRequest {
    pub payer_amount_sat: u64,
}

#[derive(Clone, Copy, Debug, PartialEq, Eq, Structural)]
pub struct PrepareReceiveResponse {
    pub payer_amount_sat: u64,
    pub fees_sat: u64,
}

#[derive(Clone, Debug, PartialEq)]
pub struct ReceivePaymentResponse {
    pub id: String,
    pub invoice: String,
}

#[derive(Clone, Debug, PartialEq)]
pub struct RestoreRequest {
    pub backup_path: Option<String>,
}

/// The role of a party in a swap exchange: the service locking or
/// paying against the user's funds, or the user's own wallet.
#[derive(Clone, Copy, Debug, PartialEq, Eq, Structural)]
pub enum ParticipantType {
    Swapper,
    User,
}

impl ParticipantType {
    /// The role's lower-case name.
    pub fn to_string(&self) -> (r: String)
        ensures
            *self == ParticipantType::Swapper ==> r@ == "swapper"@,
            *self == ParticipantType::User ==> r@ == "user"@,
    {
        match self {
            ParticipantType::Swapper => "swapper".to_owned(),
            ParticipantType::User => "user".to_owned(),
        }
    }
}

// ---------------------------------------------------------------------
// Mathematical views of the record types
//
// Contracts speak of records through these views, with every character
// datum abstracted to its character sequence.
// ---------------------------------------------------------------------

pub struct SendSwapV {
    pub id: Seq<char>,
    pub invoice: Seq<char>,
    pub payer_amount_sat: u64,
    pub receiver_amount_sat: u64,
    pub create_response_blob: Seq<char>,
    pub lockup_tx_id: Option<Seq<char>>,
    pub refund_tx_id: Option<Seq<char>>,
    pub preimage: Option<Seq<char>>,
    pub state: PaymentState,
    pub created_at: u32,
}

impl DeepView for SendSwap {
    type V = SendSwapV;

    open spec fn deep_view(&self) -> SendSwapV {
        SendSwapV {
            id: self.id.deep_view(),
            invoice: self.invoice.deep_view(),
            payer_amount_sat: self.payer_amount_sat,
            receiver_amount_sat: self.receiver_amount_sat,
            create_response_blob: self.create_response_blob.deep_view(),
            lockup_tx_id: self.lockup_tx_id.deep_view(),
            refund_tx_id: self.refund_tx_id.deep_view(),
            preimage: self.preimage.deep_view(),
            state: self.state,
            created_at: self.created_at,
        }
    }
}

pub struct ReceiveSwapV {
    pub id: Seq<char>,
    pub preimage: Seq<char>,
    pub create_response_blob: Seq<char>,
    pub invoice: Seq<char>,
    pub payer_amount_sat: u64,
    pub receiver_amount_sat: u64,
    pub claim_fees_sat: u64,
    pub claim_tx_id: Option<Seq<char>>,
    pub state: PaymentState,
    pub created_at: u32,
}

impl DeepView for ReceiveSwap {
    type V = ReceiveSwapV;

    open spec fn deep_view(&self) -> ReceiveSwapV {
        ReceiveSwapV {
            id: self.id.deep_view(),
            preimage: self.preimage.deep_view(),
            create_response_blob: self.create_response_blob.deep_view(),
            invoice: self.invoice.deep_view(),
            payer_amount_sat: self.payer_amount_sat,
            receiver_amount_sat: self.receiver_amount_sat,
            claim_fees_sat: self.claim_fees_sat,
            claim_tx_id: self.claim_tx_id.deep_view(),
            state: self.state,
            created_at: self.created_at,
        }
    }
}

pub enum SwapV {
    Send(SendSwapV),
    Receive(ReceiveSwapV),
}

impl DeepView for Swap {
    type V = SwapV;

    open spec fn deep_view(&self) -> SwapV {
        match self {
            Swap::Send(s) => SwapV::Send(s.deep_view()),
            Swap::Receive(r) => SwapV::Receive(r.deep_view()),
        }
    }
}

pub struct PaymentTxDataV {
    pub tx_id: Seq<char>,
    pub timestamp: Option<u32>,
    pub amount_sat: u64,
    pub payment_type: PaymentType,
    pub is_confirmed: bool,
}

impl DeepView for PaymentTxData {
    type V = PaymentTxDataV;

    open spec fn deep_view(&self) -> PaymentTxDataV {
        PaymentTxDataV {
            tx_id: self.tx_id.deep_view(),
            timestamp: self.timestamp,
            amount_sat: self.amount_sat,
            payment_type: self.payment_type,
            is_confirmed: self.is_confirmed,
        }
    }
}

pub struct PaymentV {
    pub tx_id: Seq<char>,
    pub swap_id: Option<Seq<char>>,
    pub timestamp: u32,
    pub amount_sat: u64,
    pub fees_sat: Option<u64>,
    pub preimage: Option<Seq<char>>,
    pub refund_tx_id: Option<Seq<char>>,
    pub refund_tx_amount_sat: Option<u64>,
    pub payment_type: PaymentType,
    pub status: PaymentState,
}

impl DeepView for Payment {
    type V = PaymentV;

    open spec fn deep_view(&self) -> PaymentV {
        PaymentV {
            tx_id: self.tx_id.deep_view(),
            swap_id: self.swap_id.deep_view(),
            timestamp: self.timestamp,
            amount_sat: self.amount_sat,
            fees_sat: self.fees_sat,
            preimage: self.preimage.deep_view(),
            refund_tx_id: self.refund_tx_id.deep_view(),
            refund_tx_amount_sat: self.refund_tx_amount_sat,
            payment_type: self.payment_type,
            status: self.status,
        }
    }
}

pub struct WalletTxV {
    pub tx_id: Seq<char>,
    pub height: Option<u32>,
    pub timestamp: Option<u32>,
    pub balance_sat: i64,
}

impl DeepView for WalletTx {
    type V = WalletTxV;

    open spec fn deep_view(&self) -> WalletTxV {
        WalletTxV {
            tx_id: self.tx_id.deep_view(),
            height: self.height,
            timestamp: self.timestamp,
            balance_sat: self.balance_sat,
        }
    }
}

pub enum LiquidSdkEventV {
    PaymentFailed { details: PaymentV },
    PaymentPending { details: PaymentV },
    PaymentRefunded { details: PaymentV },
    PaymentRefundPending { details: PaymentV },
    PaymentSucceed { details: PaymentV },
    PaymentWaitingConfirmation { details: PaymentV },
    Synced,
}

impl DeepView for LiquidSdkEvent {
    type V = LiquidSdkEventV;

    open spec fn deep_view(&self) -> LiquidSdkEventV {
        match self {
            LiquidSdkEvent::PaymentFailed { details } => LiquidSdkEventV::PaymentFailed {
                details: details.deep_view(),
            },
            LiquidSdkEvent::PaymentPending { details } => LiquidSdkEventV::PaymentPending {
                details: details.deep_view(),
            },
            LiquidSdkEvent::PaymentRefunded { details } => LiquidSdkEventV::PaymentRefunded {
                details: details.deep_view(),
            },
            LiquidSdkEvent::PaymentRefundPending { details } => {
                LiquidSdkEventV::PaymentRefundPending { details: details.deep_view() }
            },
            LiquidSdkEvent::PaymentSucceed { details } => LiquidSdkEventV::PaymentSucceed {
                details: details.deep_view(),
            },
            LiquidSdkEvent::PaymentWaitingConfirmation { details } => {
                LiquidSdkEventV::PaymentWaitingConfirmation { details: details.deep_view() }
            },
            LiquidSdkEvent::Synced => LiquidSdkEventV::Synced,
        }
    }
}

} // verus!
