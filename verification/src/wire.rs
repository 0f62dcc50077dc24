//! The flat wire layer of the bindings bridge.
//!
//! Values cross the language boundary as flat records: character data as
//! byte strings, optional columns as nullable slots, and enums as a tag
//! with one payload slot per variant. The decoders here turn those
//! records back into model values, totally: a missing mandatory slot or
//! an unknown tag decodes to `None` instead of trapping.

#![allow(non_camel_case_types)]

use vstd::prelude::*;

use crate::error::LiquidSdkError;
use crate::error::PaymentError;
use crate::model::ConnectRequest;
use crate::model::GetInfoRequest;
use crate::model::GetInfoResponse;
use crate::model::LiquidSdkEvent;
use crate::model::Network;
use crate::model::Payment;
use crate::model::PaymentState;
use crate::model::PaymentType;
use crate::model::PrepareReceiveRequest;
use crate::model::PrepareReceiveResponse;
use crate::model::PrepareSendRequest;
use crate::model::PrepareSendResponse;
use crate::model::ReceivePaymentResponse;
use crate::model::RestoreRequest;
use crate::model::SendPaymentResponse;

verus! {

/// A character datum on the wire.
#[derive(Clone, Debug, PartialEq)]
pub struct wire_cst_list_prim_u_8_strict {
    pub value: String,
}

impl wire_cst_list_prim_u_8_strict {
    pub fn new(value: String) -> (r: wire_cst_list_prim_u_8_strict)
        ensures
            r.value@ == value@,
    {
        wire_cst_list_prim_u_8_strict { value }
    }

    pub fn cst_decode(&self) -> (r: String)
        ensures
            r@ == self.value@,
    {
        self.value.clone()
    }
}

/// The character view of a nullable wire string slot.
pub open spec fn spec_opt_wire_str(o: Option<wire_cst_list_prim_u_8_strict>) -> Option<Seq<char>> {
    match o {
        Some(w) => Some(w.value@),
        None => None,
    }
}

/// The network a wire tag denotes.
pub open spec fn spec_decode_network(tag: i32) -> Option<Network> {
    if tag == 0 {
        Some(Network::Mainnet)
    } else if tag == 1 {
        Some(Network::Testnet)
    } else {
        None
    }
}

/// The payment type a wire tag denotes.
pub open spec fn spec_decode_payment_type(tag: i32) -> Option<PaymentType> {
    if tag == 0 {
        Some(PaymentType::Send)
    } else if tag == 1 {
        Some(PaymentType::Receive)
    } else {
        None
    }
}

/// The payment state a wire tag denotes.
pub open spec fn spec_decode_payment_state(tag: i32) -> Option<PaymentState> {
    if tag == 0 {
        Some(PaymentState::Created)
    } else if tag == 1 {
        Some(PaymentState::Pending)
    } else if tag == 2 {
        Some(PaymentState::Complete)
    } else if tag == 3 {
        Some(PaymentState::Failed)
    } else {
        None
    }
}

fn decode_network(tag: i32) -> (r: Option<Network>)
    ensures
        r == spec_decode_network(tag),
{
    if tag == 0 {
        Some(Network::Mainnet)
    } else if tag == 1 {
        Some(Network::Testnet)
    } else {
        None
    }
}

fn decode_payment_type(tag: i32) -> (r: Option<PaymentType>)
    ensures
        r == spec_decode_payment_type(tag),
{
    if tag == 0 {
        Some(PaymentType::Send)
    } else if tag == 1 {
        Some(PaymentType::Receive)
    } else {
        None
    }
}

fn decode_payment_state(tag: i32) -> (r: Option<PaymentState>)
    ensures
        r == spec_decode_payment_state(tag),
{
    if tag == 0 {
        Some(PaymentState::Created)
    } else if tag == 1 {
        Some(PaymentState::Pending)
    } else if tag == 2 {
        Some(PaymentState::Complete)
    } else if tag == 3 {
        Some(PaymentState::Failed)
    } else {
        None
    }
}

fn decode_opt_wire_str(o: &Option<wire_cst_list_prim_u_8_strict>) -> (r: Option<String>)
    ensures
        r.deep_view() == spec_opt_wire_str(*o),
{
    match o {
        Some(w) => Some(w.cst_decode()),
        None => None,
    }
}

#[derive(Clone, Debug, PartialEq)]
pub struct wire_cst_connect_request {
    pub mnemonic: Option<wire_cst_list_prim_u_8_strict>,
    pub data_dir: Option<wire_cst_list_prim_u_8_strict>,
    pub network: i32,
}

impl wire_cst_connect_request {
    pub fn cst_decode(&self) -> (r: Option<ConnectRequest>)
        ensures
            r is Some <==> self.mnemonic is Some && spec_decode_network(self.network) is Some,
            r matches Some(c) ==> {
                &&& c.mnemonic@ == self.mnemonic->Some_0.value@
                &&& c.data_dir.deep_view() == spec_opt_wire_str(self.data_dir)
                &&& Some(c.network) == spec_decode_network(self.network)
            },
    {
        let mnemonic = match &self.mnemonic {
            Some(w) => w.cst_decode(),
            None => {
                return None;
            },
        };
        let network = match decode_network(self.network) {
            Some(n) => n,
            None => {
                return None;
            },
        };
        Some(ConnectRequest { mnemonic, data_dir: decode_opt_wire_str(&self.data_dir), network })
    }
}

#[derive(Clone, Copy, Debug, PartialEq, Eq, Structural)]
pub struct wire_cst_get_info_request {
    pub with_scan: bool,
}

impl wire_cst_get_info_request {
    pub fn cst_decode(&self) -> (r: GetInfoRequest)
        ensures
            r.with_scan == self.with_scan,
    {
        GetInfoRequest { with_scan: self.with_scan }
    }
}

#[derive(Clone, Debug, PartialEq)]
pub struct wire_cst_get_info_response {
    pub balance_sat: u64,
    pub pending_send_sat: u64,
    pub pending_receive_sat: u64,
    pub pubkey: Option<wire_cst_list_prim_u_8_strict>,
}

impl wire_cst_get_info_response {
    pub fn cst_decode(&self) -> (r: Option<GetInfoResponse>)
        ensures
            r is Some <==> self.pubkey is Some,
            r matches Some(g) ==> {
                &&& g.balance_sat == self.balance_sat
                &&& g.pending_send_sat == self.pending_send_sat
                &&& g.pending_receive_sat == self.pending_receive_sat
                &&& g.pubkey@ == self.pubkey->Some_0.value@
            },
    {
        match &self.pubkey {
            Some(w) => Some(
                GetInfoResponse {
                    balance_sat: self.balance_sat,
                    pending_send_sat: self.pending_send_sat,
                    pending_receive_sat: self.pending_receive_sat,
                    pubkey: w.cst_decode(),
                },
            ),
            None => None,
        }
    }
}

#[derive(Clone, Debug, PartialEq)]
pub struct wire_cst_LiquidSdkError_Generic {
    pub err: Option<wire_cst_list_prim_u_8_strict>,
}

/// The facade error on the wire: a tag and one payload slot per
/// variant, the slot of the selected variant filled.
#[derive(Clone, Debug, PartialEq)]
pub struct wire_cst_liquid_sdk_error {
    pub tag: i32,
    pub generic: Option<wire_cst_LiquidSdkError_Generic>,
}

impl wire_cst_liquid_sdk_error {
    pub fn cst_decode(&self) -> (r: Option<LiquidSdkError>)
        ensures
            r is Some <==> self.tag == 0 && (self.generic matches Some(g) && g.err is Some),
            r matches Some(e) ==> e matches LiquidSdkError::Generic { err } && err@
                == self.generic->Some_0.err->Some_0.value@,
    {
        if self.tag == 0 {
            match &self.generic {
                Some(g) => match &g.err {
                    Some(w) => Some(LiquidSdkError::Generic { err: w.cst_decode() }),
                    None => None,
                },
                None => None,
            }
        } else {
            None
        }
    }
}

#[derive(Clone, Debug, PartialEq)]
pub struct wire_cst_payment {
    pub tx_id: Option<wire_cst_list_prim_u_8_strict>,
    pub swap_id: Option<wire_cst_list_prim_u_8_strict>,
    pub timestamp: u32,
    pub amount_sat: u64,
    pub fees_sat: Option<u64>,
    pub preimage: Option<wire_cst_list_prim_u_8_strict>,
    pub refund_tx_id: Option<wire_cst_list_prim_u_8_strict>,
    pub refund_tx_amount_sat: Option<u64>,
    pub payment_type: i32,
    pub status: i32,
}

impl wire_cst_payment {
    /// Builds the wire form of a payment.
    pub fn cst_encode(p: &Payment) -> (r: wire_cst_payment)
        ensures
            r.cst_decode_spec() == Some(p.deep_view()),
    {
        let r = wire_cst_payment {
            tx_id: Some(wire_cst_list_prim_u_8_strict::new(p.tx_id.clone())),
            swap_id: encode_opt_wire_str(&p.swap_id),
            timestamp: p.timestamp,
            amount_sat: p.amount_sat,
            fees_sat: p.fees_sat,
            preimage: encode_opt_wire_str(&p.preimage),
            refund_tx_id: encode_opt_wire_str(&p.refund_tx_id),
            refund_tx_amount_sat: p.refund_tx_amount_sat,
            payment_type: match p.payment_type {
                PaymentType::Send => 0,
                PaymentType::Receive => 1,
            },
            status: match p.status {
                PaymentState::Created => 0,
                PaymentState::Pending => 1,
                PaymentState::Complete => 2,
                PaymentState::Failed => 3,
            },
        };
        r
    }

    /// The payment view this wire record denotes, if well-formed.
    pub open spec fn cst_decode_spec(&self) -> Option<crate::model::PaymentV> {
        match (self.tx_id, spec_decode_payment_type(self.payment_type), spec_decode_payment_state(
            self.status,
        )) {
            (Some(tx), Some(t), Some(st)) => Some(
                crate::model::PaymentV {
                    tx_id: tx.value@,
                    swap_id: spec_opt_wire_str(self.swap_id),
                    timestamp: self.timestamp,
                    amount_sat: self.amount_sat,
                    fees_sat: self.fees_sat,
                    preimage: spec_opt_wire_str(self.preimage),
                    refund_tx_id: spec_opt_wire_str(self.refund_tx_id),
                    refund_tx_amount_sat: self.refund_tx_amount_sat,
                    payment_type: t,
                    status: st,
                },
            ),
            _ => None,
        }
    }

    pub fn cst_decode(&self) -> (r: Option<Payment>)
        ensures
            r is Some <==> self.cst_decode_spec() is Some,
            r matches Some(p) ==> Some(p.deep_view()) == self.cst_decode_spec(),
    {
        let tx_id = match &self.tx_id {
            Some(w) => w.cst_decode(),
            None => {
                return None;
            },
        };
        let payment_type = match decode_payment_type(self.payment_type) {
            Some(t) => t,
            None => {
                return None;
            },
        };
        let status = match decode_payment_state(self.status) {
            Some(st) => st,
            None => {
                return None;
            },
        };
        Some(
            Payment {
                tx_id,
                swap_id: decode_opt_wire_str(&self.swap_id),
                timestamp: self.timestamp,
                amount_sat: self.amount_sat,
                fees_sat: self.fees_sat,
                preimage: decode_opt_wire_str(&self.preimage),
                refund_tx_id: decode_opt_wire_str(&self.refund_tx_id),
                refund_tx_amount_sat: self.refund_tx_amount_sat,
                payment_type,
                status,
            },
        )
    }
}

fn encode_opt_wire_str(o: &Option<String>) -> (r: Option<wire_cst_list_prim_u_8_strict>)
    ensures
        spec_opt_wire_str(r) == o.deep_view(),
{
    match o {
        Some(s) => Some(wire_cst_list_prim_u_8_strict::new(s.clone())),
        None => None,
    }
}

/// A list of payments on the wire.
#[derive(Clone, Debug, PartialEq)]
pub struct wire_cst_list_payment {
    pub items: Vec<wire_cst_payment>,
}

impl wire_cst_list_payment {
    /// Decodes every item; a single malformed item fails the list.
    pub fn cst_decode(&self) -> (r: Option<Vec<Payment>>)
        ensures
            r is Some <==> forall|i: int|
                0 <= i < self.items@.len() ==> (#[trigger] self.items@[i]).cst_decode_spec()
                    is Some,
            r matches Some(v) ==> {
                &&& v.deep_view().len() == self.items@.len()
                &&& forall|i: int|
                    0 <= i < self.items@.len() ==> Some(#[trigger] v.deep_view()[i]) == self.items@[i].cst_decode_spec()
            },
    {
        let n = self.items.len();
        let mut out: Vec<Payment> = Vec::new();
        let mut i: usize = 0;
        while i < n
            invariant
                n == self.items@.len(),
                i <= n,
                out.deep_view().len() == i,
                forall|k: int|
                    0 <= k < i ==> (#[trigger] self.items@[k]).cst_decode_spec() is Some,
                forall|k: int|
                    0 <= k < i ==> Some(#[trigger] out.deep_view()[k]) == self.items@[k].cst_decode_spec(),
            decreases n - i,
        {
            match self.items[i].cst_decode() {
                Some(p) => {
                    let ghost before = out.deep_view();
                    out.push(p);
                    proof {
                        assert(out.deep_view() =~= before.push(out@[i as int].deep_view()));
                        assert(forall|k: int|
                            0 <= k < i ==> #[trigger] out.deep_view()[k] == before[k]);
                    }
                },
                None => {
                    return None;
                },
            }
            i = i + 1;
        }
        Some(out)
    }
}

#[derive(Clone, Debug, PartialEq)]
pub struct wire_cst_LiquidSdkEvent_PaymentFailed {
    pub details: Option<wire_cst_payment>,
}

#[derive(Clone, Debug, PartialEq)]
pub struct wire_cst_LiquidSdkEvent_PaymentPending {
    pub details: Option<wire_cst_payment>,
}

#[derive(Clone, Debug, PartialEq)]
pub struct wire_cst_LiquidSdkEvent_PaymentRefunded {
    pub details: Option<wire_cst_payment>,
}

#[derive(Clone, Debug, PartialEq)]
pub struct wire_cst_LiquidSdkEvent_PaymentRefundPending {
    pub details: Option<wire_cst_payment>,
}

#[derive(Clone, Debug, PartialEq)]
pub struct wire_cst_LiquidSdkEvent_PaymentSucceed {
    pub details: Option<wire_cst_payment>,
}

#[derive(Clone, Debug, PartialEq)]
pub struct wire_cst_LiquidSdkEvent_PaymentWaitingConfirmation {
    pub details: Option<wire_cst_payment>,
}

/// A lifecycle event on the wire: a tag and one payload slot per
/// variant; the last tag is the payload-free `Synced`.
#[derive(Clone, Debug, PartialEq)]
pub struct wire_cst_liquid_sdk_event {
    pub tag: i32,
    pub payment_failed: Option<wire_cst_LiquidSdkEvent_PaymentFailed>,
    pub payment_pending: Option<wire_cst_LiquidSdkEvent_PaymentPending>,
    pub payment_refunded: Option<wire_cst_LiquidSdkEvent_PaymentRefunded>,
    pub payment_refund_pending: Option<wire_cst_LiquidSdkEvent_PaymentRefundPending>,
    pub payment_succeed: Option<wire_cst_LiquidSdkEvent_PaymentSucceed>,
    pub payment_waiting_confirmation: Option<wire_cst_LiquidSdkEvent_PaymentWaitingConfirmation>,
}

impl wire_cst_liquid_sdk_event {
    pub fn cst_decode(&self) -> (r: Option<LiquidSdkEvent>)
        ensures
            self.tag == 0 ==> (r matches Some(e) ==> e is PaymentFailed),
            self.tag == 1 ==> (r matches Some(e) ==> e is PaymentPending),
            self.tag == 2 ==> (r matches Some(e) ==> e is PaymentRefunded),
            self.tag == 3 ==> (r matches Some(e) ==> e is PaymentRefundPending),
            self.tag == 4 ==> (r matches Some(e) ==> e is PaymentSucceed),
            self.tag == 5 ==> (r matches Some(e) ==> e is PaymentWaitingConfirmation),
            self.tag == 6 ==> r == Some(LiquidSdkEvent::Synced),
            (self.tag < 0 || self.tag > 6) ==> r is None,
    {
        match self.tag {
            0 => match &self.payment_failed {
                Some(v) => match &v.details {
                    Some(w) => match w.cst_decode() {
                        Some(p) => Some(LiquidSdkEvent::PaymentFailed { details: p }),
                        None => None,
                    },
                    None => None,
                },
                None => None,
            },
            1 => match &self.payment_pending {
                Some(v) => match &v.details {
                    Some(w) => match w.cst_decode() {
                        Some(p) => Some(LiquidSdkEvent::PaymentPending { details: p }),
                        None => None,
                    },
                    None => None,
                },
                None => None,
            },
            2 => match &self.payment_refunded {
                Some(v) => match &v.details {
                    Some(w) => match w.cst_decode() {
                        Some(p) => Some(LiquidSdkEvent::PaymentRefunded { details: p }),
                        None => None,
                    },
                    None => None,
                },
                None => None,
            },
            3 => match &self.payment_refund_pending {
                Some(v) => match &v.details {
                    Some(w) => match w.cst_decode() {
                        Some(p) => Some(LiquidSdkEvent::PaymentRefundPending { details: p }),
                        None => None,
                    },
                    None => None,
                },
                None => None,
            },
            4 => match &self.payment_succeed {
                Some(v) => match &v.details {
                    Some(w) => match w.cst_decode() {
                        Some(p) => Some(LiquidSdkEvent::PaymentSucceed { details: p }),
                        None => None,
                    },
                    None => None,
                },
                None => None,
            },
            5 => match &self.payment_waiting_confirmation {
                Some(v) => match &v.details {
                    Some(w) => match w.cst_decode() {
                        Some(p) => Some(
                            LiquidSdkEvent::PaymentWaitingConfirmation { details: p },
                        ),
                        None => None,
                    },
                    None => None,
                },
                None => None,
            },
            6 => Some(LiquidSdkEvent::Synced),
            _ => None,
        }
    }
}

#[derive(Clone, Debug, PartialEq)]
pub struct wire_cst_PaymentError_Generic {
    pub err: Option<wire_cst_list_prim_u_8_strict>,
}

#[derive(Clone, Debug, PartialEq)]
pub struct wire_cst_PaymentError_LwkError {
    pub err: Option<wire_cst_list_prim_u_8_strict>,
}

#[derive(Clone, Debug, PartialEq)]
pub struct wire_cst_PaymentError_Refunded {
    pub err: Option<wire_cst_list_prim_u_8_strict>,
    pub refund_tx_id: Option<wire_cst_list_prim_u_8_strict>,
}

#[derive(Clone, Debug, PartialEq)]
pub struct wire_cst_PaymentError_SendError {
    pub err: Option<wire_cst_list_prim_u_8_strict>,
}

#[derive(Clone, Debug, PartialEq)]
pub struct wire_cst_PaymentError_SignerError {
    pub err: Option<wire_cst_list_prim_u_8_strict>,
}

/// A payment error on the wire: a tag and one payload slot per variant
/// that carries data; the other tags are payload-free.
#[derive(Clone, Debug, PartialEq)]
pub struct wire_cst_payment_error {
    pub tag: i32,
    pub generic: Option<wire_cst_PaymentError_Generic>,
    pub lwk_error: Option<wire_cst_PaymentError_LwkError>,
    pub refunded: Option<wire_cst_PaymentError_Refunded>,
    pub send_error: Option<wire_cst_PaymentError_SendError>,
    pub signer_error: Option<wire_cst_PaymentError_SignerError>,
}

impl wire_cst_payment_error {
    pub fn cst_decode(&self) -> (r: Option<PaymentError>)
        ensures
            self.tag == 0 ==> r == Some(PaymentError::AlreadyClaimed),
            self.tag == 1 ==> r == Some(PaymentError::AmountOutOfRange),
            self.tag == 3 ==> r == Some(PaymentError::InvalidOrExpiredFees),
            self.tag == 4 ==> r == Some(PaymentError::InsufficientFunds),
            self.tag == 5 ==> r == Some(PaymentError::InvalidInvoice),
            self.tag == 6 ==> r == Some(PaymentError::InvalidPreimage),
            self.tag == 8 ==> r == Some(PaymentError::PairsNotFound),
            self.tag == 9 ==> r == Some(PaymentError::PersistError),
            self.tag == 2 ==> (r matches Some(e) ==> e is Generic),
            self.tag == 7 ==> (r matches Some(e) ==> e is LwkError),
            self.tag == 10 ==> (r matches Some(e) ==> e is Refunded),
            self.tag == 11 ==> (r matches Some(e) ==> e is SendError),
            self.tag == 12 ==> (r matches Some(e) ==> e is SignerError),
            (self.tag < 0 || self.tag > 12) ==> r is None,
    {
        match self.tag {
            0 => Some(PaymentError::AlreadyClaimed),
            1 => Some(PaymentError::AmountOutOfRange),
            2 => match &self.generic {
                Some(v) => match &v.err {
                    Some(w) => Some(PaymentError::Generic { err: w.cst_decode() }),
                    None => None,
                },
                None => None,
            },
            3 => Some(PaymentError::InvalidOrExpiredFees),
            4 => Some(PaymentError::InsufficientFunds),
            5 => Some(PaymentError::InvalidInvoice),
            6 => Some(PaymentError::InvalidPreimage),
            7 => match &self.lwk_error {
                Some(v) => match &v.err {
                    Some(w) => Some(PaymentError::LwkError { err: w.cst_decode() }),
                    None => None,
                },
                None => None,
            },
            8 => Some(PaymentError::PairsNotFound),
            9 => Some(PaymentError::PersistError),
            10 => match &self.refunded {
                Some(v) => match (&v.err, &v.refund_tx_id) {
                    (Some(w), Some(t)) => Some(
                        PaymentError::Refunded {
                            err: w.cst_decode(),
                            refund_tx_id: t.cst_decode(),
                        },
                    ),
                    _ => None,
                },
                None => None,
            },
            11 => match &self.send_error {
                Some(v) => match &v.err {
                    Some(w) => Some(PaymentError::SendError { err: w.cst_decode() }),
                    None => None,
                },
                None => None,
            },
            12 => match &self.signer_error {
                Some(v) => match &v.err {
                    Some(w) => Some(PaymentError::SignerError { err: w.cst_decode() }),
                    None => None,
                },
                None => None,
            },
            _ => None,
        }
    }
}

#[derive(Clone, Copy, Debug, PartialEq, Eq, Structural)]
pub struct wire_cst_prepare_receive_request {
    pub payer_amount_sat: u64,
}

impl wire_cst_prepare_receive_request {
    pub fn cst_decode(&self) -> (r: PrepareReceiveRequest)
        ensures
            r.payer_amount_sat == self.payer_amount_sat,
    {
        PrepareReceiveRequest { payer_amount_sat: self.payer_amount_sat }
    }
}

#[derive(Clone, Copy, Debug, PartialEq, Eq, Structural)]
pub struct wire_cst_prepare_receive_response {
    pub payer_amount_sat: u64,
    pub fees_sat: u64,
}

impl wire_cst_prepare_receive_response {
    pub fn cst_decode(&self) -> (r: PrepareReceiveResponse)
        ensures
            r.payer_amount_sat == self.payer_amount_sat,
            r.fees_sat == self.fees_sat,
    {
        PrepareReceiveResponse {
            payer_amount_sat: self.payer_amount_sat,
            fees_sat: self.fees_sat,
        }
    }
}

#[derive(Clone, Debug, PartialEq)]
pub struct wire_cst_prepare_send_request {
    pub invoice: Option<wire_cst_list_prim_u_8_strict>,
}

impl wire_cst_prepare_send_request {
    pub fn cst_decode(&self) -> (r: Option<PrepareSendRequest>)
        ensures
            r is Some <==> self.invoice is Some,
            r matches Some(q) ==> q.invoice@ == self.invoice->Some_0.value@,
    {
        match &self.invoice {
            Some(w) => Some(PrepareSendRequest { invoice: w.cst_decode() }),
            None => None,
        }
    }
}

#[derive(Clone, Debug, PartialEq)]
pub struct wire_cst_prepare_send_response {
    pub invoice: Option<wire_cst_list_prim_u_8_strict>,
    pub fees_sat: u64,
}

impl wire_cst_prepare_send_response {
    pub fn cst_decode(&self) -> (r: Option<PrepareSendResponse>)
        ensures
            r is Some <==> self.invoice is Some,
            r matches Some(q) ==> q.invoice@ == self.invoice->Some_0.value@ && q.fees_sat
                == self.fees_sat,
    {
        match &self.invoice {
            Some(w) => Some(
                PrepareSendResponse { invoice: w.cst_decode(), fees_sat: self.fees_sat },
            ),
            None => None,
        }
    }
}

#[derive(Clone, Debug, PartialEq)]
pub struct wire_cst_receive_payment_response {
    pub id: Option<wire_cst_list_prim_u_8_strict>,
    pub invoice: Option<wire_cst_list_prim_u_8_strict>,
}

impl wire_cst_receive_payment_response {
    pub fn cst_decode(&self) -> (r: Option<ReceivePaymentResponse>)
        ensures
            r is Some <==> self.id is Some && self.invoice is Some,
            r matches Some(q) ==> q.id@ == self.id->Some_0.value@ && q.invoice@
                == self.invoice->Some_0.value@,
    {
        match (&self.id, &self.invoice) {
            (Some(id), Some(invoice)) => Some(
                ReceivePaymentResponse { id: id.cst_decode(), invoice: invoice.cst_decode() },
            ),
            _ => None,
        }
    }
}

#[derive(Clone, Debug, PartialEq)]
pub struct wire_cst_restore_request {
    pub backup_path: Option<wire_cst_list_prim_u_8_strict>,
}

impl wire_cst_restore_request {
    pub fn cst_decode(&self) -> (r: RestoreRequest)
        ensures
            r.backup_path.deep_view() == spec_opt_wire_str(self.backup_path),
    {
        RestoreRequest { backup_path: decode_opt_wire_str(&self.backup_path) }
    }
}

#[derive(Clone, Debug, PartialEq)]
pub struct wire_cst_send_payment_response {
    pub txid: Option<wire_cst_list_prim_u_8_strict>,
}

impl wire_cst_send_payment_response {
    pub fn cst_decode(&self) -> (r: Option<SendPaymentResponse>)
        ensures
            r is Some <==> self.txid is Some,
            r matches Some(q) ==> q.txid@ == self.txid->Some_0.value@,
    {
        match &self.txid {
            Some(w) => Some(SendPaymentResponse { txid: w.cst_decode() }),
            None => None,
        }
    }
}

} // verus!
