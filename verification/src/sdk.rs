//! The swap lifecycle engine.
//!
//! The engine owns the durable store, the event manager and the tracked
//! set, and makes every decision of the Send and Receive state machines.
//! All network work — swapper HTTP/websocket calls, wallet signing,
//! transaction broadcast, chain scans — happens at the application edge,
//! which feeds the engine plain values (quotes, create responses, status
//! strings, wallet transactions, broadcast transaction ids) and performs
//! the actions the engine hands back.

use vstd::prelude::*;

use vstd::multiset::Multiset;

use crate::error::PaymentError;
use crate::event::EventManager;
use crate::model::LiquidSdkEvent;
use crate::model::LiquidSdkEventV;
use crate::model::Network;
use crate::model::PaymentState;
use crate::model::PaymentType;
use crate::model::PaymentV;
use crate::model::ReceiveSwapV;
use crate::model::SendSwapV;
use crate::model::clone_opt_string;
use crate::model::transition_allowed;
use crate::persist::Persister;
use crate::persist::spec_find_receive_by_id;
use crate::persist::spec_find_send_by_id;
use crate::persist::spec_find_tx;
use crate::persist::spec_opt_str_view;
use crate::persist::spec_payment_of;
use crate::persist::spec_receive_swaps_updated;
use crate::persist::spec_receive_updated;
use crate::persist::spec_send_swaps_updated;
use crate::persist::spec_send_updated;
use crate::status_stream::BoltzStatusStream;

verus! {

/// REST endpoint of the swapper on mainnet.
pub const BOLTZ_MAINNET_URL_V2: &'static str = "https://api.boltz.exchange/v2";

/// REST endpoint of the swapper on testnet.
pub const BOLTZ_TESTNET_URL_V2: &'static str = "https://api.testnet.boltz.exchange/v2";

/// The default directory the store and wallet caches live under.
pub const DEFAULT_DATA_DIR: &'static str = ".data";

/// Electrum endpoint on mainnet.
pub const LIQUID_MAINNET_ELECTRUM_URL: &'static str = "blockstream.info:995";

/// Electrum endpoint on testnet.
pub const LIQUID_TESTNET_ELECTRUM_URL: &'static str = "blockstream.info:465";

/// Sentinel taproot address on mainnet, used solely to build throwaway
/// transactions for lockup fee estimation until the wallet backend can
/// build the swap script's own output kind. The estimated transaction
/// is never broadcast, so no funds can reach it.
pub const MAINNET_FEE_ESTIMATION_ADDRESS: &'static str =
    "lq1pqvzxvqhrf54dd4sny4cag7497pe38252qefk46t92frs7us8r80ja9ha8r5me09nn22m4tmdqp5p4wafq3s59cql3v9n45t5trwtxrmxfsyxjnstkctj";

/// Sentinel taproot address on testnet; see the mainnet counterpart.
pub const TESTNET_FEE_ESTIMATION_ADDRESS: &'static str =
    "tlq1pq0wqu32e2xacxeyps22x8gjre4qk3u6r70pj4r62hzczxeyz8x3yxucrpn79zy28plc4x37aaf33kwt6dz2nn6gtkya6h02mwpzy4eh69zzexq7cf5y5";

/// The swap lifecycle engine.
pub struct LiquidSdk {
    pub network: Network,
    pub data_dir_path: String,
    /// The wallet's public key, rendered by the signer at start-up.
    pub pubkey: String,
    pub persister: Persister,
    pub event_manager: EventManager,
    pub status_stream: BoltzStatusStream,
}

/// The event the engine emits for a payment, per its derived status:
/// `Complete` succeeds; `Pending` reports refund-pending or
/// waiting-confirmation when the owning swap already carries its refund
/// or claim transaction, plain pending otherwise; `Failed` reports a
/// refunded Send or a failed Receive. A payment in `Created` state or
/// one whose swap cannot be found emits nothing.
pub open spec fn spec_payment_event(
    sends: Seq<SendSwapV>,
    receives: Seq<ReceiveSwapV>,
    p: PaymentV,
) -> Option<LiquidSdkEventV> {
    match p.status {
        PaymentState::Complete => Some(LiquidSdkEventV::PaymentSucceed { details: p }),
        PaymentState::Pending => match p.swap_id {
            Some(sid) => match p.payment_type {
                PaymentType::Send => match spec_find_send_by_id(sends, sid) {
                    Some(sw) => if sw.refund_tx_id is Some {
                        Some(LiquidSdkEventV::PaymentRefundPending { details: p })
                    } else {
                        Some(LiquidSdkEventV::PaymentPending { details: p })
                    },
                    None => None,
                },
                PaymentType::Receive => match spec_find_receive_by_id(receives, sid) {
                    Some(sw) => if sw.claim_tx_id is Some {
                        Some(LiquidSdkEventV::PaymentWaitingConfirmation { details: p })
                    } else {
                        Some(LiquidSdkEventV::PaymentPending { details: p })
                    },
                    None => None,
                },
            },
            None => None,
        },
        PaymentState::Failed => match p.payment_type {
            PaymentType::Receive => Some(LiquidSdkEventV::PaymentFailed { details: p }),
            PaymentType::Send => Some(LiquidSdkEventV::PaymentRefunded { details: p }),
        },
        PaymentState::Created => None,
    }
}

/// An optional event as the log segment it appends.
pub open spec fn spec_opt_event_seq(e: Option<LiquidSdkEventV>) -> Seq<LiquidSdkEventV> {
    match e {
        Some(ev) => seq![ev],
        None => Seq::empty(),
    }
}

/// The log segment a payment-updated notification appends: nothing
/// without a payment id or ledger row, else the event chosen for the
/// row's derived payment.
pub open spec fn spec_emitted_for_payment(
    sends: Seq<SendSwapV>,
    receives: Seq<ReceiveSwapV>,
    txs: Seq<crate::model::PaymentTxDataV>,
    payment_id: Option<Seq<char>>,
) -> Seq<LiquidSdkEventV> {
    match payment_id {
        None => Seq::empty(),
        Some(t) => match spec_find_tx(txs, t) {
            None => Seq::empty(),
            Some(row) => spec_opt_event_seq(
                spec_payment_event(sends, receives, spec_payment_of(sends, receives, row)),
            ),
        },
    }
}

/// The ledger id whose payment a Send update notifies: the lockup
/// transaction id passed with the update, or the one already stored.
pub open spec fn spec_send_payment_id(
    sends: Seq<SendSwapV>,
    swap_id: Seq<char>,
    lockup_arg: Option<Seq<char>>,
) -> Option<Seq<char>> {
    if lockup_arg is Some {
        lockup_arg
    } else {
        match spec_find_send_by_id(sends, swap_id) {
            Some(sw) => sw.lockup_tx_id,
            None => None,
        }
    }
}

/// The ledger id whose payment a Receive update notifies: the claim
/// transaction id passed with the update, or the one already stored.
pub open spec fn spec_receive_payment_id(
    receives: Seq<ReceiveSwapV>,
    swap_id: Seq<char>,
    claim_arg: Option<Seq<char>>,
) -> Option<Seq<char>> {
    if claim_arg is Some {
        claim_arg
    } else {
        match spec_find_receive_by_id(receives, swap_id) {
            Some(sw) => sw.claim_tx_id,
            None => None,
        }
    }
}

/// Whether a validated Send update actually changes the stored record:
/// the state moves, or a write-once column gains its first value. A
/// replayed update that rewrites identical values is no change.
pub open spec fn spec_send_update_changes(
    sw: SendSwapV,
    to_state: PaymentState,
    preimage: Option<Seq<char>>,
    lockup_tx_id: Option<Seq<char>>,
    refund_tx_id: Option<Seq<char>>,
) -> bool {
    spec_send_updated(sw, to_state, preimage, lockup_tx_id, refund_tx_id) != sw
}

/// Whether a validated Receive update actually changes the stored
/// record.
pub open spec fn spec_receive_update_changes(
    sw: ReceiveSwapV,
    to_state: PaymentState,
    claim_tx_id: Option<Seq<char>>,
) -> bool {
    spec_receive_updated(sw, to_state, claim_tx_id) != sw
}

/// The log segment a Send update appends: the lifecycle event of its
/// payment, but nothing when the validated update leaves the record
/// unchanged, so replaying an already-applied status event leaves the
/// event log as it is.
pub open spec fn spec_send_update_emitted(
    sends_old: Seq<SendSwapV>,
    receives: Seq<ReceiveSwapV>,
    txs: Seq<crate::model::PaymentTxDataV>,
    swap_id: Seq<char>,
    to_state: PaymentState,
    preimage: Option<Seq<char>>,
    lockup_tx_id: Option<Seq<char>>,
    refund_tx_id: Option<Seq<char>>,
) -> Seq<LiquidSdkEventV> {
    match spec_find_send_by_id(sends_old, swap_id) {
        Some(sw) => if spec_send_update_changes(sw, to_state, preimage, lockup_tx_id, refund_tx_id) {
            spec_emitted_for_payment(
                spec_send_swaps_updated(
                    sends_old,
                    swap_id,
                    to_state,
                    preimage,
                    lockup_tx_id,
                    refund_tx_id,
                ),
                receives,
                txs,
                spec_send_payment_id(sends_old, swap_id, lockup_tx_id),
            )
        } else {
            Seq::empty()
        },
        None => Seq::empty(),
    }
}

/// The log segment a Receive update appends; empty when the validated
/// update leaves the record unchanged.
pub open spec fn spec_receive_update_emitted(
    receives_old: Seq<ReceiveSwapV>,
    sends: Seq<SendSwapV>,
    txs: Seq<crate::model::PaymentTxDataV>,
    swap_id: Seq<char>,
    to_state: PaymentState,
    claim_tx_id: Option<Seq<char>>,
) -> Seq<LiquidSdkEventV> {
    match spec_find_receive_by_id(receives_old, swap_id) {
        Some(sw) => if spec_receive_update_changes(sw, to_state, claim_tx_id) {
            spec_emitted_for_payment(
                sends,
                spec_receive_swaps_updated(receives_old, swap_id, to_state, claim_tx_id),
                txs,
                spec_receive_payment_id(receives_old, swap_id, claim_tx_id),
            )
        } else {
            Seq::empty()
        },
        None => Seq::empty(),
    }
}

impl LiquidSdk {
    /// Engine invariant: every owned component is well-formed.
    pub open spec fn wf(&self) -> bool {
        &&& self.persister.wf()
        &&& self.event_manager.wf()
        &&& self.status_stream.wf()
    }

    /// The engine's configuration fields are unchanged.
    pub open spec fn same_config(&self, other: &LiquidSdk) -> bool {
        &&& self.network == other.network
        &&& self.data_dir_path == other.data_dir_path
        &&& self.pubkey == other.pubkey
    }

    /// Builds a fresh engine over an empty, migrated store.
    pub fn new(network: Network, data_dir_path: String, pubkey: String) -> (r: LiquidSdk)
        ensures
            r.wf(),
            r.network == network,
            r.data_dir_path@ == data_dir_path@,
            r.pubkey@ == pubkey@,
            r.persister.sends() =~= Seq::<SendSwapV>::empty(),
            r.persister.receives() =~= Seq::<ReceiveSwapV>::empty(),
            r.persister.txs() =~= Seq::<crate::model::PaymentTxDataV>::empty(),
            r.event_manager.log() =~= Seq::<LiquidSdkEventV>::empty(),
    {
        let mut persister = Persister::new(data_dir_path.as_str(), network);
        persister.init();
        LiquidSdk {
            network,
            data_dir_path,
            pubkey,
            persister,
            event_manager: EventManager::new(),
            status_stream: BoltzStatusStream::new(),
        }
    }

    /// The swapper REST endpoint for this engine's network.
    pub fn boltz_url_v2(&self) -> (r: &'static str)
        ensures
            self.network == Network::Mainnet ==> r@ == BOLTZ_MAINNET_URL_V2@,
            self.network == Network::Testnet ==> r@ == BOLTZ_TESTNET_URL_V2@,
    {
        match self.network {
            Network::Mainnet => BOLTZ_MAINNET_URL_V2,
            Network::Testnet => BOLTZ_TESTNET_URL_V2,
        }
    }

    /// The Electrum endpoint for this engine's network.
    pub fn electrum_url(&self) -> (r: &'static str)
        ensures
            self.network == Network::Mainnet ==> r@ == LIQUID_MAINNET_ELECTRUM_URL@,
            self.network == Network::Testnet ==> r@ == LIQUID_TESTNET_ELECTRUM_URL@,
    {
        match self.network {
            Network::Mainnet => LIQUID_MAINNET_ELECTRUM_URL,
            Network::Testnet => LIQUID_TESTNET_ELECTRUM_URL,
        }
    }

    /// The sentinel address the fee-estimation transaction pays for
    /// this engine's network.
    pub fn fee_estimation_address(&self) -> (r: &'static str)
        ensures
            self.network == Network::Mainnet ==> r@ == MAINNET_FEE_ESTIMATION_ADDRESS@,
            self.network == Network::Testnet ==> r@ == TESTNET_FEE_ESTIMATION_ADDRESS@,
    {
        match self.network {
            Network::Mainnet => MAINNET_FEE_ESTIMATION_ADDRESS,
            Network::Testnet => TESTNET_FEE_ESTIMATION_ADDRESS,
        }
    }

    /// Checks a state move against the swap state machine; every
    /// rejection is a `Generic` error naming the target state.
    pub fn validate_state_transition(from_state: PaymentState, to_state: PaymentState) -> (r:
        Result<(), PaymentError>)
        ensures
            r is Ok <==> transition_allowed(from_state, to_state),
            r is Err ==> r->Err_0 is Generic,
    {
        match to_state {
            PaymentState::Created => Err(PaymentError::invalid_transition(to_state)),
            PaymentState::Pending | PaymentState::Complete => {
                let from_ok = from_state == PaymentState::Created || from_state
                    == PaymentState::Pending;
                if from_ok {
                    Ok(())
                } else {
                    Err(PaymentError::invalid_transition(to_state))
                }
            },
            PaymentState::Failed => Ok(()),
        }
    }

    /// Chooses and logs the lifecycle event for the payment with the
    /// given ledger id, per [`spec_payment_event`]. Without an id or a
    /// matching ledger row nothing is emitted.
    fn emit_payment_updated(&mut self, payment_id: Option<&str>)
        requires
            old(self).wf(),
        ensures
            final(self).wf(),
            final(self).persister == old(self).persister,
            final(self).status_stream == old(self).status_stream,
            final(self).same_config(old(self)),
            final(self).event_manager.ids() == old(self).event_manager.ids(),
            final(self).event_manager.next_listener_id == old(self).event_manager.next_listener_id,
            final(self).event_manager.log() == old(self).event_manager.log()
                + spec_emitted_for_payment(
                old(self).persister.sends(),
                old(self).persister.receives(),
                old(self).persister.txs(),
                spec_opt_str_view(payment_id),
            ),
    {
        let ghost emitted = spec_emitted_for_payment(
            old(self).persister.sends(),
            old(self).persister.receives(),
            old(self).persister.txs(),
            spec_opt_str_view(payment_id),
        );
        let id = match payment_id {
            Some(id) => id,
            None => {
                proof {
                    assert(self.event_manager.log() =~= old(self).event_manager.log() + emitted);
                }
                return ;
            },
        };
        let payment = match self.persister.get_payment(id) {
            Some(p) => p,
            None => {
                proof {
                    assert(self.event_manager.log() =~= old(self).event_manager.log() + emitted);
                }
                return ;
            },
        };
        // For a Pending payment the event depends on whether the owning
        // swap already carries its refund (Send) or claim (Receive)
        // transaction: `Some(true)` when it does.
        let pending_choice: Option<bool> = match &payment.swap_id {
            Some(sid) => match payment.payment_type {
                PaymentType::Send => match self.persister.fetch_send_swap(sid.as_str()) {
                    Some(sw) => Some(sw.refund_tx_id.is_some()),
                    None => None,
                },
                PaymentType::Receive => match self.persister.fetch_receive_swap(sid.as_str()) {
                    Some(sw) => Some(sw.claim_tx_id.is_some()),
                    None => None,
                },
            },
            None => None,
        };
        let event: Option<LiquidSdkEvent> = match payment.status {
            PaymentState::Complete => Some(LiquidSdkEvent::PaymentSucceed { details: payment }),
            PaymentState::Pending => match pending_choice {
                Some(true) => Some(
                    match payment.payment_type {
                        PaymentType::Send => LiquidSdkEvent::PaymentRefundPending {
                            details: payment,
                        },
                        PaymentType::Receive => LiquidSdkEvent::PaymentWaitingConfirmation {
                            details: payment,
                        },
                    },
                ),
                Some(false) => Some(LiquidSdkEvent::PaymentPending { details: payment }),
                None => None,
            },
            PaymentState::Failed => Some(
                match payment.payment_type {
                    PaymentType::Receive => LiquidSdkEvent::PaymentFailed { details: payment },
                    PaymentType::Send => LiquidSdkEvent::PaymentRefunded { details: payment },
                },
            ),
            PaymentState::Created => None,
        };
        match event {
            Some(e) => {
                proof {
                    assert(emitted =~= seq![e.deep_view()]);
                }
                self.event_manager.notify(e);
                proof {
                    assert(self.event_manager.log() =~= old(self).event_manager.log() + emitted);
                }
            },
            None => {
                proof {
                    assert(self.event_manager.log() =~= old(self).event_manager.log() + emitted);
                }
            },
        }
    }

    /// Transitions a Send swap to a new state through the validated
    /// store update, then logs the lifecycle event for its lockup
    /// transaction's payment. Fails, leaving the engine unchanged, when
    /// the swap is missing or the transition is not allowed.
    pub(crate) fn try_handle_send_swap_update(
        &mut self,
        swap_id: &str,
        to_state: PaymentState,
        preimage: Option<&str>,
        lockup_tx_id: Option<&str>,
        refund_tx_id: Option<&str>,
    ) -> (r: Result<(), PaymentError>)
        requires
            old(self).wf(),
            preimage matches Some(p) ==> (spec_find_send_by_id(
                old(self).persister.sends(),
                swap_id@,
            ) matches Some(sw) ==> crate::digest::spec_invoice_binding(sw.invoice, p@)),
            to_state == PaymentState::Complete ==> preimage is Some,
        ensures
            final(self).wf(),
            final(self).status_stream == old(self).status_stream,
            final(self).same_config(old(self)),
            final(self).event_manager.ids() == old(self).event_manager.ids(),
            r is Ok <==> (spec_find_send_by_id(old(self).persister.sends(), swap_id@)
                matches Some(sw) && transition_allowed(sw.state, to_state)),
            r is Ok ==> {
                &&& final(self).persister.sends() == spec_send_swaps_updated(
                    old(self).persister.sends(),
                    swap_id@,
                    to_state,
                    spec_opt_str_view(preimage),
                    spec_opt_str_view(lockup_tx_id),
                    spec_opt_str_view(refund_tx_id),
                )
                &&& final(self).persister.receives() == old(self).persister.receives()
                &&& final(self).persister.txs() == old(self).persister.txs()
                &&& final(self).event_manager.log() == old(self).event_manager.log()
                    + spec_send_update_emitted(
                    old(self).persister.sends(),
                    old(self).persister.receives(),
                    old(self).persister.txs(),
                    swap_id@,
                    to_state,
                    spec_opt_str_view(preimage),
                    spec_opt_str_view(lockup_tx_id),
                    spec_opt_str_view(refund_tx_id),
                )
            },
            r is Err ==> *final(self) == *old(self) && r->Err_0 is Generic,
    {
        let (payment_id, changed): (Option<String>, bool) = match self.persister.fetch_send_swap(
            swap_id,
        ) {
            Some(sw) => {
                let pid = match lockup_tx_id {
                    Some(t) => Some(t.to_owned()),
                    None => clone_opt_string(&sw.lockup_tx_id),
                };
                let changed = sw.state != to_state || (preimage.is_some() && sw.preimage.is_none())
                    || (lockup_tx_id.is_some() && sw.lockup_tx_id.is_none()) || (
                refund_tx_id.is_some() && sw.refund_tx_id.is_none());
                proof {
                    assert(changed == spec_send_update_changes(
                        sw.deep_view(),
                        to_state,
                        spec_opt_str_view(preimage),
                        spec_opt_str_view(lockup_tx_id),
                        spec_opt_str_view(refund_tx_id),
                    ));
                }
                (pid, changed)
            },
            None => {
                return Err(PaymentError::Generic { err: "Send Swap not found".to_owned() });
            },
        };
        match self.persister.try_handle_send_swap_update(
            swap_id,
            to_state,
            preimage,
            lockup_tx_id,
            refund_tx_id,
        ) {
            Ok(()) => {},
            Err(e) => {
                return Err(e);
            },
        }
        if changed {
            match &payment_id {
                Some(s) => self.emit_payment_updated(Some(s.as_str())),
                None => self.emit_payment_updated(None),
            }
        }
        proof {
            assert(self.event_manager.log() =~= old(self).event_manager.log()
                + spec_send_update_emitted(
                old(self).persister.sends(),
                old(self).persister.receives(),
                old(self).persister.txs(),
                swap_id@,
                to_state,
                spec_opt_str_view(preimage),
                spec_opt_str_view(lockup_tx_id),
                spec_opt_str_view(refund_tx_id),
            ));
        }
        Ok(())
    }

    /// Transitions a Receive swap to a new state through the validated
    /// store update, then logs the lifecycle event for its claim
    /// transaction's payment. Fails, leaving the engine unchanged, when
    /// the swap is missing or the transition is not allowed.
    pub(crate) fn try_handle_receive_swap_update(
        &mut self,
        swap_id: &str,
        to_state: PaymentState,
        claim_tx_id: Option<&str>,
    ) -> (r: Result<(), PaymentError>)
        requires
            old(self).wf(),
        ensures
            final(self).wf(),
            final(self).status_stream == old(self).status_stream,
            final(self).same_config(old(self)),
            final(self).event_manager.ids() == old(self).event_manager.ids(),
            r is Ok <==> (spec_find_receive_by_id(old(self).persister.receives(), swap_id@)
                matches Some(sw) && transition_allowed(sw.state, to_state)),
            r is Ok ==> {
                &&& final(self).persister.receives() == spec_receive_swaps_updated(
                    old(self).persister.receives(),
                    swap_id@,
                    to_state,
                    spec_opt_str_view(claim_tx_id),
                )
                &&& final(self).persister.sends() == old(self).persister.sends()
                &&& final(self).persister.txs() == old(self).persister.txs()
                &&& final(self).event_manager.log() == old(self).event_manager.log()
                    + spec_receive_update_emitted(
                    old(self).persister.receives(),
                    old(self).persister.sends(),
                    old(self).persister.txs(),
                    swap_id@,
                    to_state,
                    spec_opt_str_view(claim_tx_id),
                )
            },
            r is Err ==> *final(self) == *old(self) && r->Err_0 is Generic,
    {
        let (payment_id, changed): (Option<String>, bool) = match self.persister.fetch_receive_swap(
            swap_id,
        ) {
            Some(sw) => {
                let pid = match claim_tx_id {
                    Some(t) => Some(t.to_owned()),
                    None => clone_opt_string(&sw.claim_tx_id),
                };
                let changed = sw.state != to_state || (claim_tx_id.is_some()
                    && sw.claim_tx_id.is_none());
                proof {
                    assert(changed == spec_receive_update_changes(
                        sw.deep_view(),
                        to_state,
                        spec_opt_str_view(claim_tx_id),
                    ));
                }
                (pid, changed)
            },
            None => {
                return Err(PaymentError::Generic { err: "Receive Swap not found".to_owned() });
            },
        };
        match self.persister.try_handle_receive_swap_update(swap_id, to_state, claim_tx_id) {
            Ok(()) => {},
            Err(e) => {
                return Err(e);
            },
        }
        if changed {
            match &payment_id {
                Some(s) => self.emit_payment_updated(Some(s.as_str())),
                None => self.emit_payment_updated(None),
            }
        }
        proof {
            assert(self.event_manager.log() =~= old(self).event_manager.log()
                + spec_receive_update_emitted(
                old(self).persister.receives(),
                old(self).persister.sends(),
                old(self).persister.txs(),
                swap_id@,
                to_state,
                spec_opt_str_view(claim_tx_id),
            ));
        }
        Ok(())
    }
}

/// The outside work a Send status event asks the application to
/// perform.
#[derive(Clone, Copy, Debug, PartialEq, Eq, Structural)]
pub enum SendSwapAction {
    /// Build, sign and broadcast the lockup transaction paying the
    /// swapper's address, then report it back. The field carries the
    /// amount the swapper expects locked, decoded from the stored
    /// create-response blob, which also holds the lockup address.
    BroadcastLockup { expected_amount_sat: u64 },
    /// Fetch the swapper's claim details and run the cooperative claim.
    CooperativeClaim,
    /// Scrape the swap script's history for the swapper's unilateral
    /// claim and recover the preimage from its witness.
    RecoverPreimage,
    /// Build and broadcast a refund transaction, cooperatively if the
    /// swapper signs, else through the timelock branch.
    BroadcastRefund { receiver_amount_sat: u64 },
    Ignore,
}

/// The outside work a Receive status event asks the application to
/// perform.
#[derive(Clone, Copy, Debug, PartialEq, Eq, Structural)]
pub enum ReceiveSwapAction {
    /// Build, sign and broadcast the claim transaction to a fresh wallet
    /// address, then report it back.
    BroadcastClaim { claim_fees_sat: u64 },
    Ignore,
}

/// The action the Send state machine takes on a status event: lock up
/// funds once the invoice is set (skipped when a lockup is already
/// recorded), claim cooperatively when the swapper asks, recover the
/// preimage after a unilateral claim, refund on the unrecoverable
/// states, and ignore everything else.
pub open spec fn spec_send_status_action(
    sw: SendSwapV,
    state: crate::model::SubSwapStates,
) -> SendSwapAction {
    match state {
        crate::model::SubSwapStates::InvoiceSet => if sw.lockup_tx_id is Some {
            SendSwapAction::Ignore
        } else {
            SendSwapAction::BroadcastLockup {
                expected_amount_sat: crate::blob::spec_blob_expected_amount(
                    sw.create_response_blob,
                )->Some_0,
            }
        },
        crate::model::SubSwapStates::TransactionClaimPending => SendSwapAction::CooperativeClaim,
        crate::model::SubSwapStates::TransactionClaimed => SendSwapAction::RecoverPreimage,
        crate::model::SubSwapStates::InvoiceFailedToPay => SendSwapAction::BroadcastRefund {
            receiver_amount_sat: sw.receiver_amount_sat,
        },
        crate::model::SubSwapStates::SwapExpired => SendSwapAction::BroadcastRefund {
            receiver_amount_sat: sw.receiver_amount_sat,
        },
        crate::model::SubSwapStates::TransactionLockupFailed => SendSwapAction::BroadcastRefund {
            receiver_amount_sat: sw.receiver_amount_sat,
        },
        _ => SendSwapAction::Ignore,
    }
}

/// The Receive status feed states on which the swap is unrecoverable
/// and moves to `Failed`.
pub open spec fn spec_is_rev_unrecoverable(state: crate::model::RevSwapStates) -> bool {
    ||| state == crate::model::RevSwapStates::SwapExpired
    ||| state == crate::model::RevSwapStates::InvoiceExpired
    ||| state == crate::model::RevSwapStates::TransactionFailed
    ||| state == crate::model::RevSwapStates::TransactionRefunded
}

/// The Receive status feed states announcing the swapper's lockup, on
/// which the wallet tries to claim.
pub open spec fn spec_is_rev_claimable(state: crate::model::RevSwapStates) -> bool {
    ||| state == crate::model::RevSwapStates::TransactionMempool
    ||| state == crate::model::RevSwapStates::TransactionConfirmed
}

impl LiquidSdk {
    /// Decides the Send state machine's reaction to a swapper status
    /// event. Pure: the commit happens when the application reports the
    /// performed action back.
    pub fn try_handle_send_swap_boltz_status(
        &self,
        swap_state: crate::model::SubSwapStates,
        id: &str,
    ) -> (r: Result<SendSwapAction, PaymentError>)
        ensures
            r is Ok <==> (spec_find_send_by_id(self.persister.sends(), id@) matches Some(sw) && !(
            swap_state == crate::model::SubSwapStates::InvoiceSet && sw.lockup_tx_id is None
                && crate::blob::spec_blob_expected_amount(sw.create_response_blob) is None)),
            r matches Ok(action) ==> action == spec_send_status_action(
                spec_find_send_by_id(self.persister.sends(), id@)->Some_0,
                swap_state,
            ),
            r is Err ==> r->Err_0 is Generic,
    {
        let sw = match self.persister.fetch_send_swap(id) {
            Some(sw) => sw,
            None => {
                return Err(PaymentError::Generic { err: "Send Swap not found".to_owned() });
            },
        };
        match swap_state {
            crate::model::SubSwapStates::InvoiceSet => {
                if sw.lockup_tx_id.is_some() {
                    Ok(SendSwapAction::Ignore)
                } else {
                    // The lockup pays the amount the swapper asked for,
                    // decoded lazily from the stored create response.
                    let blob_char_len = sw.create_response_blob.unicode_len();
                    proof {
                        assert(sw.create_response_blob@.len() == blob_char_len as nat);
                    }
                    match crate::blob::SubmarineCreateResponse::decode(
                        sw.create_response_blob.as_str(),
                    ) {
                        Some(resp) => {
                            proof {
                                crate::blob::lemma_blob_expected_amount(
                                    sw.create_response_blob@,
                                    resp,
                                );
                            }
                            Ok(
                                SendSwapAction::BroadcastLockup {
                                    expected_amount_sat: resp.expected_amount_sat,
                                },
                            )
                        },
                        None => Err(
                            PaymentError::Generic {
                                err: "Create response blob does not decode".to_owned(),
                            },
                        ),
                    }
                }
            },
            crate::model::SubSwapStates::TransactionClaimPending => Ok(
                SendSwapAction::CooperativeClaim,
            ),
            crate::model::SubSwapStates::TransactionClaimed => Ok(SendSwapAction::RecoverPreimage),
            crate::model::SubSwapStates::InvoiceFailedToPay
            | crate::model::SubSwapStates::SwapExpired
            | crate::model::SubSwapStates::TransactionLockupFailed => Ok(
                SendSwapAction::BroadcastRefund { receiver_amount_sat: sw.receiver_amount_sat },
            ),
            _ => Ok(SendSwapAction::Ignore),
        }
    }

    /// Commits a broadcast lockup transaction: writes the provisional
    /// ledger row so the payment appears instantly, records the lockup
    /// id and moves the swap to `Pending`.
    pub fn handle_send_lockup_broadcast(&mut self, swap_id: &str, lockup_tx_id: &str) -> (r: Result<
        (),
        PaymentError,
    >)
        requires
            old(self).wf(),
        ensures
            final(self).wf(),
            final(self).same_config(old(self)),
            final(self).status_stream == old(self).status_stream,
            r is Ok <==> (spec_find_send_by_id(old(self).persister.sends(), swap_id@)
                matches Some(sw) && transition_allowed(sw.state, PaymentState::Pending)),
            r is Ok ==> {
                &&& final(self).persister.txs() == crate::persist::spec_txs_upserted(
                    old(self).persister.txs(),
                    crate::model::PaymentTxDataV {
                        tx_id: lockup_tx_id@,
                        timestamp: None,
                        amount_sat: spec_find_send_by_id(
                            old(self).persister.sends(),
                            swap_id@,
                        )->Some_0.payer_amount_sat,
                        payment_type: PaymentType::Send,
                        is_confirmed: false,
                    },
                )
                &&& final(self).persister.sends() == spec_send_swaps_updated(
                    old(self).persister.sends(),
                    swap_id@,
                    PaymentState::Pending,
                    None,
                    Some(lockup_tx_id@),
                    None,
                )
                &&& final(self).persister.receives() == old(self).persister.receives()
                &&& final(self).event_manager.log() == old(self).event_manager.log()
                    + spec_send_update_emitted(
                    old(self).persister.sends(),
                    old(self).persister.receives(),
                    final(self).persister.txs(),
                    swap_id@,
                    PaymentState::Pending,
                    None,
                    Some(lockup_tx_id@),
                    None,
                )
            },
            r is Err ==> *final(self) == *old(self) && r->Err_0 is Generic,
    {
        let payer_amount_sat = match self.persister.fetch_send_swap(swap_id) {
            Some(sw) => {
                match Self::validate_state_transition(sw.state, PaymentState::Pending) {
                    Ok(()) => {},
                    Err(e) => {
                        return Err(e);
                    },
                }
                sw.payer_amount_sat
            },
            None => {
                return Err(PaymentError::Generic { err: "Send Swap not found".to_owned() });
            },
        };
        self.persister.insert_or_update_payment(
            crate::model::PaymentTxData {
                tx_id: lockup_tx_id.to_owned(),
                timestamp: None,
                amount_sat: payer_amount_sat,
                payment_type: PaymentType::Send,
                is_confirmed: false,
            },
        );
        match self.try_handle_send_swap_update(
            swap_id,
            PaymentState::Pending,
            None,
            Some(lockup_tx_id),
            None,
        ) {
            Ok(()) => Ok(()),
            Err(e) => Err(e),
        }
    }

    /// Checks a preimage received from the swapper against the stored
    /// invoice and, on a match, marks the Send swap `Complete` with it.
    /// A mismatching preimage is refused with `InvalidPreimage` and the
    /// swap is left untouched.
    pub fn validate_send_swap_preimage(&mut self, swap_id: &str, preimage: &str) -> (r: Result<
        (),
        PaymentError,
    >)
        requires
            old(self).wf(),
        ensures
            final(self).wf(),
            final(self).same_config(old(self)),
            final(self).status_stream == old(self).status_stream,
            r is Ok <==> (spec_find_send_by_id(old(self).persister.sends(), swap_id@)
                matches Some(sw) && crate::digest::spec_invoice_binding(sw.invoice, preimage@)
                && transition_allowed(sw.state, PaymentState::Complete)),
            r is Ok ==> {
                &&& final(self).persister.sends() == spec_send_swaps_updated(
                    old(self).persister.sends(),
                    swap_id@,
                    PaymentState::Complete,
                    Some(preimage@),
                    None,
                    None,
                )
                &&& final(self).persister.receives() == old(self).persister.receives()
                &&& final(self).persister.txs() == old(self).persister.txs()
                &&& final(self).event_manager.log() == old(self).event_manager.log()
                    + spec_send_update_emitted(
                    old(self).persister.sends(),
                    old(self).persister.receives(),
                    old(self).persister.txs(),
                    swap_id@,
                    PaymentState::Complete,
                    Some(preimage@),
                    None,
                    None,
                )
            },
            r is Err ==> *final(self) == *old(self),
            r matches Err(e) ==> {
                if spec_find_send_by_id(old(self).persister.sends(), swap_id@) is None {
                    e is Generic
                } else {
                    let sw = spec_find_send_by_id(old(self).persister.sends(), swap_id@)->Some_0;
                    if crate::utils::spec_hex_decode(preimage@) is None {
                        e == PaymentError::InvalidPreimage
                    } else if crate::invoice::parsed_invoice(sw.invoice) is None {
                        e == PaymentError::InvalidInvoice
                    } else if !crate::digest::spec_invoice_binding(sw.invoice, preimage@) {
                        e == PaymentError::InvalidPreimage
                    } else {
                        e is Generic
                    }
                }
            },
    {
        let invoice: String = match self.persister.fetch_send_swap(swap_id) {
            Some(sw) => sw.invoice.clone(),
            None => {
                return Err(PaymentError::Generic { err: "Send Swap not found".to_owned() });
            },
        };
        match crate::digest::verify_payment_hash(preimage, invoice.as_str()) {
            Ok(()) => {},
            Err(e) => {
                return Err(e);
            },
        }
        self.try_handle_send_swap_update(swap_id, PaymentState::Complete, Some(preimage), None, None)
    }

    /// Commits a broadcast refund transaction: records the refund id and
    /// keeps the swap `Pending` until the refund confirms.
    pub fn handle_send_refund_broadcast(&mut self, swap_id: &str, refund_tx_id: &str) -> (r: Result<
        (),
        PaymentError,
    >)
        requires
            old(self).wf(),
        ensures
            final(self).wf(),
            final(self).same_config(old(self)),
            final(self).status_stream == old(self).status_stream,
            r is Ok <==> (spec_find_send_by_id(old(self).persister.sends(), swap_id@)
                matches Some(sw) && transition_allowed(sw.state, PaymentState::Pending)),
            r is Ok ==> {
                &&& final(self).persister.sends() == spec_send_swaps_updated(
                    old(self).persister.sends(),
                    swap_id@,
                    PaymentState::Pending,
                    None,
                    None,
                    Some(refund_tx_id@),
                )
                &&& final(self).persister.receives() == old(self).persister.receives()
                &&& final(self).persister.txs() == old(self).persister.txs()
                &&& final(self).event_manager.log() == old(self).event_manager.log()
                    + spec_send_update_emitted(
                    old(self).persister.sends(),
                    old(self).persister.receives(),
                    old(self).persister.txs(),
                    swap_id@,
                    PaymentState::Pending,
                    None,
                    None,
                    Some(refund_tx_id@),
                )
            },
            r is Err ==> *final(self) == *old(self) && r->Err_0 is Generic,
    {
        self.try_handle_send_swap_update(
            swap_id,
            PaymentState::Pending,
            None,
            None,
            Some(refund_tx_id),
        )
    }

    /// The failure the synchronous send flow surfaces once a refund is
    /// under way: the swap failed, but the locked funds are being
    /// returned, and the error carries the recorded refund transaction
    /// id for the caller to follow. Without a recorded refund the
    /// outcome is a `Generic` error.
    pub fn refunded_send_error(&self, swap_id: &str) -> (r: PaymentError)
        ensures
            (spec_find_send_by_id(self.persister.sends(), swap_id@) matches Some(sw)
                && sw.refund_tx_id is Some) ==> (r matches PaymentError::Refunded {
                err,
                refund_tx_id,
            } && refund_tx_id@ == spec_find_send_by_id(
                self.persister.sends(),
                swap_id@,
            )->Some_0.refund_tx_id->Some_0),
            !(spec_find_send_by_id(self.persister.sends(), swap_id@) matches Some(sw)
                && sw.refund_tx_id is Some) ==> r is Generic,
    {
        match self.persister.fetch_send_swap(swap_id) {
            Some(sw) => match &sw.refund_tx_id {
                Some(t) => PaymentError::Refunded {
                    err: "Unrecoverable swap state, refund under way".to_owned(),
                    refund_tx_id: t.clone(),
                },
                None => PaymentError::Generic {
                    err: "Swap failed without a recorded refund".to_owned(),
                },
            },
            None => PaymentError::Generic { err: "Send Swap not found".to_owned() },
        }
    }

    /// Starts a Receive claim: refuses a swap whose claim transaction is
    /// already recorded with `AlreadyClaimed`, else moves the swap to
    /// `Pending` and returns the claim fee budget for the transaction
    /// the application is to broadcast.
    pub fn try_claim(&mut self, swap_id: &str) -> (r: Result<u64, PaymentError>)
        requires
            old(self).wf(),
        ensures
            final(self).wf(),
            final(self).same_config(old(self)),
            final(self).status_stream == old(self).status_stream,
            r is Ok <==> (spec_find_receive_by_id(old(self).persister.receives(), swap_id@)
                matches Some(sw) && sw.claim_tx_id is None && transition_allowed(
                sw.state,
                PaymentState::Pending,
            )),
            r matches Ok(f) ==> {
                &&& f == spec_find_receive_by_id(
                    old(self).persister.receives(),
                    swap_id@,
                )->Some_0.claim_fees_sat
                &&& final(self).persister.receives() == spec_receive_swaps_updated(
                    old(self).persister.receives(),
                    swap_id@,
                    PaymentState::Pending,
                    None,
                )
                &&& final(self).persister.sends() == old(self).persister.sends()
                &&& final(self).persister.txs() == old(self).persister.txs()
                &&& final(self).event_manager.log() == old(self).event_manager.log()
            },
            r is Err ==> *final(self) == *old(self),
            r matches Err(e) ==> {
                if spec_find_receive_by_id(old(self).persister.receives(), swap_id@) is None {
                    e is Generic
                } else if spec_find_receive_by_id(
                    old(self).persister.receives(),
                    swap_id@,
                )->Some_0.claim_tx_id is Some {
                    e == PaymentError::AlreadyClaimed
                } else {
                    e is Generic
                }
            },
    {
        let claim_fees_sat = match self.persister.fetch_receive_swap(swap_id) {
            Some(sw) => {
                if sw.claim_tx_id.is_some() {
                    return Err(PaymentError::AlreadyClaimed);
                }
                sw.claim_fees_sat
            },
            None => {
                return Err(PaymentError::Generic { err: "Receive Swap not found".to_owned() });
            },
        };
        match self.try_handle_receive_swap_update(swap_id, PaymentState::Pending, None) {
            Ok(()) => Ok(claim_fees_sat),
            Err(e) => Err(e),
        }
    }

    /// Drives the Receive state machine on a swapper status event: the
    /// unrecoverable states fail the swap, the lockup announcements
    /// start a claim unless one is already recorded, everything else is
    /// ignored. Returns the outside work left to the application.
    pub fn try_handle_receive_swap_boltz_status(
        &mut self,
        swap_state: crate::model::RevSwapStates,
        id: &str,
    ) -> (r: Result<ReceiveSwapAction, PaymentError>)
        requires
            old(self).wf(),
        ensures
            final(self).wf(),
            final(self).same_config(old(self)),
            final(self).status_stream == old(self).status_stream,
            r is Err <==> spec_find_receive_by_id(old(self).persister.receives(), id@) is None,
            r is Err ==> *final(self) == *old(self) && r->Err_0 is Generic,
            r is Ok ==> final(self).persister.sends() == old(self).persister.sends()
                && final(self).persister.txs() == old(self).persister.txs(),
            r is Ok && spec_is_rev_unrecoverable(swap_state) ==> {
                &&& r->Ok_0 == ReceiveSwapAction::Ignore
                &&& final(self).persister.receives() == spec_receive_swaps_updated(
                    old(self).persister.receives(),
                    id@,
                    PaymentState::Failed,
                    None,
                )
                &&& final(self).event_manager.log() == old(self).event_manager.log()
                    + spec_receive_update_emitted(
                    old(self).persister.receives(),
                    old(self).persister.sends(),
                    old(self).persister.txs(),
                    id@,
                    PaymentState::Failed,
                    None,
                )
            },
            r is Ok && spec_is_rev_claimable(swap_state) ==> {
                let sw = spec_find_receive_by_id(old(self).persister.receives(), id@)->Some_0;
                if sw.claim_tx_id is None && transition_allowed(sw.state, PaymentState::Pending) {
                    &&& r->Ok_0 == (ReceiveSwapAction::BroadcastClaim {
                        claim_fees_sat: sw.claim_fees_sat,
                    })
                    &&& final(self).persister.receives() == spec_receive_swaps_updated(
                        old(self).persister.receives(),
                        id@,
                        PaymentState::Pending,
                        None,
                    )
                    &&& final(self).event_manager.log() == old(self).event_manager.log()
                } else {
                    r->Ok_0 == ReceiveSwapAction::Ignore && *final(self) == *old(self)
                }
            },
            r is Ok && !spec_is_rev_unrecoverable(swap_state) && !spec_is_rev_claimable(swap_state)
                ==> r->Ok_0 == ReceiveSwapAction::Ignore && *final(self) == *old(self),
    {
        match swap_state {
            crate::model::RevSwapStates::SwapExpired
            | crate::model::RevSwapStates::InvoiceExpired
            | crate::model::RevSwapStates::TransactionFailed
            | crate::model::RevSwapStates::TransactionRefunded => {
                match self.try_handle_receive_swap_update(id, PaymentState::Failed, None) {
                    Ok(()) => Ok(ReceiveSwapAction::Ignore),
                    Err(e) => Err(e),
                }
            },
            crate::model::RevSwapStates::TransactionMempool
            | crate::model::RevSwapStates::TransactionConfirmed => {
                let already_claimed = match self.persister.fetch_receive_swap(id) {
                    Some(sw) => sw.claim_tx_id.is_some(),
                    None => {
                        return Err(
                            PaymentError::Generic { err: "Receive Swap not found".to_owned() },
                        );
                    },
                };
                if already_claimed {
                    return Ok(ReceiveSwapAction::Ignore);
                }
                match self.try_claim(id) {
                    Ok(claim_fees_sat) => Ok(ReceiveSwapAction::BroadcastClaim { claim_fees_sat }),
                    Err(_) => Ok(ReceiveSwapAction::Ignore),
                }
            },
            crate::model::RevSwapStates::Created
            | crate::model::RevSwapStates::MinerFeePaid
            | crate::model::RevSwapStates::InvoiceSettled => {
                match self.persister.fetch_receive_swap(id) {
                    Some(_) => Ok(ReceiveSwapAction::Ignore),
                    None => Err(PaymentError::Generic { err: "Receive Swap not found".to_owned() }),
                }
            },
        }
    }

    /// Commits a broadcast Receive claim transaction: writes the
    /// provisional ledger row, records the claim id and keeps the swap
    /// `Pending` until the claim confirms.
    pub fn handle_receive_claim_broadcast(&mut self, swap_id: &str, claim_tx_id: &str) -> (r:
        Result<(), PaymentError>)
        requires
            old(self).wf(),
        ensures
            final(self).wf(),
            final(self).same_config(old(self)),
            final(self).status_stream == old(self).status_stream,
            r is Ok <==> (spec_find_receive_by_id(old(self).persister.receives(), swap_id@)
                matches Some(sw) && transition_allowed(sw.state, PaymentState::Pending)),
            r is Ok ==> {
                &&& final(self).persister.txs() == crate::persist::spec_txs_upserted(
                    old(self).persister.txs(),
                    crate::model::PaymentTxDataV {
                        tx_id: claim_tx_id@,
                        timestamp: None,
                        amount_sat: spec_find_receive_by_id(
                            old(self).persister.receives(),
                            swap_id@,
                        )->Some_0.receiver_amount_sat,
                        payment_type: PaymentType::Receive,
                        is_confirmed: false,
                    },
                )
                &&& final(self).persister.receives() == spec_receive_swaps_updated(
                    old(self).persister.receives(),
                    swap_id@,
                    PaymentState::Pending,
                    Some(claim_tx_id@),
                )
                &&& final(self).persister.sends() == old(self).persister.sends()
                &&& final(self).event_manager.log() == old(self).event_manager.log()
                    + spec_receive_update_emitted(
                    old(self).persister.receives(),
                    old(self).persister.sends(),
                    final(self).persister.txs(),
                    swap_id@,
                    PaymentState::Pending,
                    Some(claim_tx_id@),
                )
            },
            r is Err ==> *final(self) == *old(self) && r->Err_0 is Generic,
    {
        let receiver_amount_sat = match self.persister.fetch_receive_swap(swap_id) {
            Some(sw) => {
                match Self::validate_state_transition(sw.state, PaymentState::Pending) {
                    Ok(()) => {},
                    Err(e) => {
                        return Err(e);
                    },
                }
                sw.receiver_amount_sat
            },
            None => {
                return Err(PaymentError::Generic { err: "Receive Swap not found".to_owned() });
            },
        };
        self.persister.insert_or_update_payment(
            crate::model::PaymentTxData {
                tx_id: claim_tx_id.to_owned(),
                timestamp: None,
                amount_sat: receiver_amount_sat,
                payment_type: PaymentType::Receive,
                is_confirmed: false,
            },
        );
        match self.try_handle_receive_swap_update(swap_id, PaymentState::Pending, Some(claim_tx_id))
        {
            Ok(()) => Ok(()),
            Err(e) => Err(e),
        }
    }
}

/// An exec pair argument as its spec value.
pub open spec fn spec_opt_sub_pair(o: Option<&crate::fees::SubmarinePair>) -> Option<
    crate::fees::SubmarinePair,
> {
    match o {
        Some(p) => Some(*p),
        None => None,
    }
}

/// An exec pair argument as its spec value.
pub open spec fn spec_opt_rev_pair(o: Option<&crate::fees::ReversePair>) -> Option<
    crate::fees::ReversePair,
> {
    match o {
        Some(p) => Some(*p),
        None => None,
    }
}

/// What preparing a Send payment computes: the total fees (swap fees
/// plus the broadcast-fee estimate), or the exact error. The invoice
/// must be valid and carry an amount the quote accepts; every amount
/// failure, including fee totals beyond the 64-bit satoshi range, is
/// `AmountOutOfRange`.
pub open spec fn spec_prepare_send_fees(
    network: Network,
    invoice: Seq<char>,
    pair: Option<crate::fees::SubmarinePair>,
    broadcast_fees_sat: u64,
    now_secs: u64,
) -> Result<u64, PaymentError> {
    if !crate::invoice::spec_invoice_valid(invoice, network, now_secs) {
        Err(PaymentError::InvalidInvoice)
    } else {
        match crate::invoice::spec_invoice_amount_sat(
            crate::invoice::parsed_invoice(invoice)->Some_0,
        ) {
            None => Err(PaymentError::AmountOutOfRange),
            Some(amt) => match pair {
                None => Err(PaymentError::PairsNotFound),
                Some(p) => if !crate::fees::spec_submarine_quote_ok(p, amt) {
                    Err(PaymentError::AmountOutOfRange)
                } else if crate::fees::spec_submarine_total_fees(p, amt) + broadcast_fees_sat
                    > u64::MAX {
                    Err(PaymentError::AmountOutOfRange)
                } else {
                    Ok((crate::fees::spec_submarine_total_fees(p, amt) + broadcast_fees_sat) as u64)
                },
            },
        }
    }
}

/// What committing a Send payment checks beyond preparation: the fee
/// snapshot must equal a fresh total (`InvalidOrExpiredFees` otherwise),
/// and the payer amount (fees plus receiver amount) must fit. Returns
/// the receiver and payer amounts.
pub open spec fn spec_send_payment_check(
    network: Network,
    invoice: Seq<char>,
    pair: Option<crate::fees::SubmarinePair>,
    broadcast_fees_sat: u64,
    now_secs: u64,
    fees_sat: u64,
) -> Result<(u64, u64), PaymentError> {
    match spec_prepare_send_fees(network, invoice, pair, broadcast_fees_sat, now_secs) {
        Err(e) => Err(e),
        Ok(total) => if fees_sat != total {
            Err(PaymentError::InvalidOrExpiredFees)
        } else {
            let receiver = crate::invoice::spec_invoice_amount_sat(
                crate::invoice::parsed_invoice(invoice)->Some_0,
            )->Some_0;
            if fees_sat + receiver > u64::MAX {
                Err(PaymentError::AmountOutOfRange)
            } else {
                Ok((receiver, (fees_sat + receiver) as u64))
            }
        },
    }
}

/// What committing a Receive payment checks: the fee snapshot must
/// equal a fresh total of the quote; the swapper's HODL invoice must
/// parse, carry an amount above the fees, and commit to the local
/// preimage (any violation is `InvalidInvoice`). Returns the payer and
/// receiver amounts.
pub open spec fn spec_receive_payment_check(
    pair: Option<crate::fees::ReversePair>,
    req: crate::model::PrepareReceiveResponse,
    invoice: Seq<char>,
    preimage: Seq<char>,
) -> Result<(u64, u64), PaymentError> {
    match pair {
        None => Err(PaymentError::PairsNotFound),
        Some(p) => if crate::fees::spec_reverse_total_fees(p, req.payer_amount_sat)
            != req.fees_sat {
            Err(PaymentError::InvalidOrExpiredFees)
        } else {
            match crate::invoice::parsed_invoice(invoice) {
                None => Err(PaymentError::InvalidInvoice),
                Some(inv) => match crate::invoice::spec_invoice_amount_sat(inv) {
                    None => Err(PaymentError::InvalidInvoice),
                    Some(payer) => if !crate::digest::spec_preimage_matches(
                        preimage,
                        inv.payment_hash_hex@,
                    ) {
                        Err(PaymentError::InvalidInvoice)
                    } else if payer < req.fees_sat {
                        Err(PaymentError::InvalidInvoice)
                    } else {
                        Ok((payer, (payer - req.fees_sat) as u64))
                    },
                },
            }
        },
    }
}

/// The payments sequence is ordered by non-decreasing timestamp.
pub open spec fn spec_sorted_by_timestamp(s: Seq<PaymentV>) -> bool {
    forall|i: int, j: int|
        0 <= i <= j < s.len() ==> (#[trigger] s[i]).timestamp <= (#[trigger] s[j]).timestamp
}

/// The sum of the amounts of one payment class: a payment type together
/// with either the terminal `Complete` state or the non-terminal
/// (`Created` or `Pending`) states.
pub open spec fn spec_sum_class(s: Seq<PaymentV>, t: PaymentType, pending: bool) -> int
    decreases s.len(),
{
    if s.len() == 0 {
        0
    } else {
        spec_sum_class(s.drop_last(), t, pending) + {
            let p = s.last();
            if p.payment_type == t && (if pending {
                p.status == PaymentState::Created || p.status == PaymentState::Pending
            } else {
                p.status == PaymentState::Complete
            }) {
                p.amount_sat as int
            } else {
                0
            }
        }
    }
}

/// The ledger row the reconciliation writes for a wallet transaction:
/// its absolute balance delta, a `Receive` for an incoming delta and a
/// `Send` for an outgoing one, confirmed once it has a height.
pub open spec fn spec_wallet_row(t: crate::model::WalletTxV) -> crate::model::PaymentTxDataV {
    crate::model::PaymentTxDataV {
        tx_id: t.tx_id,
        timestamp: t.timestamp,
        amount_sat: if t.balance_sat >= 0 {
            t.balance_sat as u64
        } else {
            (-(t.balance_sat as int)) as u64
        },
        payment_type: if t.balance_sat >= 0 {
            PaymentType::Receive
        } else {
            PaymentType::Send
        },
        is_confirmed: t.height is Some,
    }
}

impl LiquidSdk {
    /// Quotes a Send payment: validates the invoice against the wallet
    /// network and clock, holds its amount against the swapper quote,
    /// and returns the invoice with the total fees, per
    /// [`spec_prepare_send_fees`].
    pub fn prepare_send_payment(
        &self,
        req: &crate::model::PrepareSendRequest,
        pair: Option<&crate::fees::SubmarinePair>,
        broadcast_fees_sat: u64,
        now_secs: u64,
    ) -> (r: Result<crate::model::PrepareSendResponse, PaymentError>)
        ensures
            match r {
                Ok(resp) => spec_prepare_send_fees(
                    self.network,
                    req.invoice@,
                    spec_opt_sub_pair(pair),
                    broadcast_fees_sat,
                    now_secs,
                ) == Ok::<u64, PaymentError>(resp.fees_sat) && resp.invoice@ == req.invoice@,
                Err(e) => spec_prepare_send_fees(
                    self.network,
                    req.invoice@,
                    spec_opt_sub_pair(pair),
                    broadcast_fees_sat,
                    now_secs,
                ) == Err::<u64, PaymentError>(e),
            },
    {
        let inv = match crate::invoice::validate_invoice(
            req.invoice.as_str(),
            self.network,
            now_secs,
        ) {
            Ok(inv) => inv,
            Err(e) => {
                return Err(e);
            },
        };
        let receiver_amount_sat = match crate::invoice::invoice_amount_sat(&inv) {
            Some(a) => a,
            None => {
                return Err(PaymentError::AmountOutOfRange);
            },
        };
        let swap_fees_sat = match crate::fees::validate_submarine_pairs(pair, receiver_amount_sat) {
            Ok(f) => f,
            Err(e) => {
                return Err(e);
            },
        };
        let total = (swap_fees_sat as u128) + (broadcast_fees_sat as u128);
        if total > u64::MAX as u128 {
            return Err(PaymentError::AmountOutOfRange);
        }
        Ok(
            crate::model::PrepareSendResponse {
                invoice: req.invoice.clone(),
                fees_sat: total as u64,
            },
        )
    }

    /// Commits a Send payment against a created swap: re-validates the
    /// invoice and quote, checks the fee snapshot, inserts the swap
    /// record in `Created` state and marks its status feed as tracked.
    /// The lockup follows when the swapper announces the invoice is set.
    pub fn send_payment(
        &mut self,
        req: &crate::model::PrepareSendResponse,
        pair: Option<&crate::fees::SubmarinePair>,
        broadcast_fees_sat: u64,
        now_secs: u64,
        create_id: &str,
        create_response_blob: &str,
        created_at: u32,
    ) -> (r: Result<(), PaymentError>)
        requires
            old(self).wf(),
        ensures
            final(self).wf(),
            final(self).same_config(old(self)),
            final(self).persister.receives() == old(self).persister.receives(),
            final(self).persister.txs() == old(self).persister.txs(),
            final(self).event_manager.log() == old(self).event_manager.log(),
            r is Ok <==> spec_send_payment_check(
                old(self).network,
                req.invoice@,
                spec_opt_sub_pair(pair),
                broadcast_fees_sat,
                now_secs,
                req.fees_sat,
            ) is Ok && spec_find_send_by_id(old(self).persister.sends(), create_id@) is None,
            r is Ok ==> {
                &&& final(self).persister.sends() == old(self).persister.sends().push(
                    SendSwapV {
                        id: create_id@,
                        invoice: req.invoice@,
                        payer_amount_sat: spec_send_payment_check(
                            old(self).network,
                            req.invoice@,
                            spec_opt_sub_pair(pair),
                            broadcast_fees_sat,
                            now_secs,
                            req.fees_sat,
                        )->Ok_0.1,
                        receiver_amount_sat: spec_send_payment_check(
                            old(self).network,
                            req.invoice@,
                            spec_opt_sub_pair(pair),
                            broadcast_fees_sat,
                            now_secs,
                            req.fees_sat,
                        )->Ok_0.0,
                        create_response_blob: create_response_blob@,
                        lockup_tx_id: None,
                        refund_tx_id: None,
                        preimage: None,
                        state: PaymentState::Created,
                        created_at,
                    },
                )
                &&& crate::status_stream::spec_is_tracked(
                    final(self).status_stream.keys(),
                    create_id@,
                    crate::model::SwapType::Submarine,
                )
            },
            r matches Err(e) ==> final(self).persister.sends() == old(self).persister.sends()
                && final(self).status_stream == old(self).status_stream && e == {
                match spec_send_payment_check(
                    old(self).network,
                    req.invoice@,
                    spec_opt_sub_pair(pair),
                    broadcast_fees_sat,
                    now_secs,
                    req.fees_sat,
                ) {
                    Err(check_err) => check_err,
                    Ok(_) => PaymentError::PersistError,
                }
            },
    {
        let inv = match crate::invoice::validate_invoice(
            req.invoice.as_str(),
            self.network,
            now_secs,
        ) {
            Ok(inv) => inv,
            Err(e) => {
                return Err(e);
            },
        };
        let receiver_amount_sat = match crate::invoice::invoice_amount_sat(&inv) {
            Some(a) => a,
            None => {
                return Err(PaymentError::AmountOutOfRange);
            },
        };
        let swap_fees_sat = match crate::fees::validate_submarine_pairs(pair, receiver_amount_sat) {
            Ok(f) => f,
            Err(e) => {
                return Err(e);
            },
        };
        let total = (swap_fees_sat as u128) + (broadcast_fees_sat as u128);
        if total > u64::MAX as u128 {
            return Err(PaymentError::AmountOutOfRange);
        }
        if req.fees_sat != total as u64 {
            return Err(PaymentError::InvalidOrExpiredFees);
        }
        let payer = (req.fees_sat as u128) + (receiver_amount_sat as u128);
        if payer > u64::MAX as u128 {
            return Err(PaymentError::AmountOutOfRange);
        }
        let swap = crate::model::SendSwap {
            id: create_id.to_owned(),
            invoice: req.invoice.clone(),
            payer_amount_sat: payer as u64,
            receiver_amount_sat,
            create_response_blob: create_response_blob.to_owned(),
            lockup_tx_id: None,
            refund_tx_id: None,
            preimage: None,
            state: PaymentState::Created,
            created_at,
        };
        match self.persister.insert_send_swap(swap) {
            Ok(()) => {},
            Err(e) => {
                return Err(e);
            },
        }
        self.status_stream.mark_swap_as_tracked(create_id, crate::model::SwapType::Submarine);
        Ok(())
    }

    /// Quotes a Receive payment: holds the payer amount against the
    /// swapper quote and returns it with the total fees. Nothing is
    /// stored.
    pub fn prepare_receive_payment(
        &self,
        req: &crate::model::PrepareReceiveRequest,
        pair: Option<&crate::fees::ReversePair>,
    ) -> (r: Result<crate::model::PrepareReceiveResponse, PaymentError>)
        ensures
            pair is None ==> r == Err::<crate::model::PrepareReceiveResponse, PaymentError>(
                PaymentError::PairsNotFound,
            ),
            pair matches Some(p) ==> {
                &&& r is Ok <==> crate::fees::spec_reverse_quote_ok(*p, req.payer_amount_sat)
                &&& (r matches Ok(resp) ==> resp.payer_amount_sat == req.payer_amount_sat
                    && resp.fees_sat == crate::fees::spec_reverse_total_fees(
                    *p,
                    req.payer_amount_sat,
                ))
                &&& (r is Err ==> r == Err::<crate::model::PrepareReceiveResponse, PaymentError>(
                    PaymentError::AmountOutOfRange,
                ))
            },
    {
        let fees_sat = match crate::fees::validate_reverse_pairs(pair, req.payer_amount_sat) {
            Ok(f) => f,
            Err(e) => {
                return Err(e);
            },
        };
        Ok(
            crate::model::PrepareReceiveResponse {
                payer_amount_sat: req.payer_amount_sat,
                fees_sat,
            },
        )
    }

    /// Commits a Receive payment against a created reverse swap:
    /// re-checks the fee snapshot against the quote, verifies that the
    /// swapper's HODL invoice commits to the locally generated preimage,
    /// inserts the swap record in `Created` state, and returns the
    /// invoice for the payer. On success the returned invoice's payment
    /// hash is the hash of `preimage`.
    pub fn receive_payment(
        &mut self,
        req: &crate::model::PrepareReceiveResponse,
        pair: Option<&crate::fees::ReversePair>,
        preimage: &str,
        create_id: &str,
        create_invoice: &str,
        create_response_blob: &str,
        created_at: u32,
    ) -> (r: Result<crate::model::ReceivePaymentResponse, PaymentError>)
        requires
            old(self).wf(),
        ensures
            final(self).wf(),
            final(self).same_config(old(self)),
            final(self).status_stream == old(self).status_stream,
            final(self).persister.sends() == old(self).persister.sends(),
            final(self).persister.txs() == old(self).persister.txs(),
            final(self).event_manager.log() == old(self).event_manager.log(),
            r is Ok <==> spec_receive_payment_check(
                spec_opt_rev_pair(pair),
                *req,
                create_invoice@,
                preimage@,
            ) is Ok && spec_find_receive_by_id(old(self).persister.receives(), create_id@) is None,
            r matches Ok(resp) ==> {
                &&& resp.id@ == create_id@
                &&& resp.invoice@ == create_invoice@
                &&& crate::digest::spec_invoice_binding(resp.invoice@, preimage@)
                &&& final(self).persister.receives() == old(self).persister.receives().push(
                    ReceiveSwapV {
                        id: create_id@,
                        preimage: preimage@,
                        create_response_blob: create_response_blob@,
                        invoice: create_invoice@,
                        payer_amount_sat: spec_receive_payment_check(
                            spec_opt_rev_pair(pair),
                            *req,
                            create_invoice@,
                            preimage@,
                        )->Ok_0.0,
                        receiver_amount_sat: spec_receive_payment_check(
                            spec_opt_rev_pair(pair),
                            *req,
                            create_invoice@,
                            preimage@,
                        )->Ok_0.1,
                        claim_fees_sat: spec_opt_rev_pair(pair)->Some_0.fees_miner_claim,
                        claim_tx_id: None,
                        state: PaymentState::Created,
                        created_at,
                    },
                )
            },
            r matches Err(e) ==> final(self).persister.receives() == old(
                self,
            ).persister.receives() && e == {
                match spec_receive_payment_check(
                    spec_opt_rev_pair(pair),
                    *req,
                    create_invoice@,
                    preimage@,
                ) {
                    Err(check_err) => check_err,
                    Ok(_) => PaymentError::PersistError,
                }
            },
    {
        let p = match pair {
            Some(p) => p,
            None => {
                return Err(PaymentError::PairsNotFound);
            },
        };
        let fresh_fees = match crate::fees::reverse_total_fees_sat(p, req.payer_amount_sat) {
            Some(f) => if f == req.fees_sat {
                f
            } else {
                return Err(PaymentError::InvalidOrExpiredFees);
            },
            None => {
                return Err(PaymentError::InvalidOrExpiredFees);
            },
        };
        let inv = match crate::invoice::parse_bolt11(create_invoice) {
            Some(i) => i,
            None => {
                return Err(PaymentError::InvalidInvoice);
            },
        };
        let payer_amount_sat = match crate::invoice::invoice_amount_sat(&inv) {
            Some(a) => a,
            None => {
                return Err(PaymentError::InvalidInvoice);
            },
        };
        match crate::digest::verify_payment_hash(preimage, create_invoice) {
            Ok(()) => {},
            Err(_) => {
                return Err(PaymentError::InvalidInvoice);
            },
        }
        if payer_amount_sat < req.fees_sat {
            return Err(PaymentError::InvalidInvoice);
        }
        let swap = crate::model::ReceiveSwap {
            id: create_id.to_owned(),
            preimage: preimage.to_owned(),
            create_response_blob: create_response_blob.to_owned(),
            invoice: create_invoice.to_owned(),
            payer_amount_sat,
            receiver_amount_sat: payer_amount_sat - req.fees_sat,
            claim_fees_sat: p.fees_miner_claim,
            claim_tx_id: None,
            state: PaymentState::Created,
            created_at,
        };
        match self.persister.insert_receive_swap(swap) {
            Ok(()) => {},
            Err(e) => {
                return Err(e);
            },
        }
        Ok(
            crate::model::ReceivePaymentResponse {
                id: create_id.to_owned(),
                invoice: create_invoice.to_owned(),
            },
        )
    }
}

impl LiquidSdk {
    /// Computes the wallet snapshot from the derived payment view: the
    /// balance is the confirmed receives minus the confirmed sends minus
    /// the pending sends. The chain scan `req` asks for happens at the
    /// application edge before this call.
    pub fn get_info(&self, _req: crate::model::GetInfoRequest) -> (r:
        crate::model::GetInfoResponse)
        requires
            self.wf(),
            spec_sum_class(self.payments_view(), PaymentType::Receive, false) <= u64::MAX,
            spec_sum_class(self.payments_view(), PaymentType::Send, false) <= u64::MAX,
            spec_sum_class(self.payments_view(), PaymentType::Send, true) <= u64::MAX,
            spec_sum_class(self.payments_view(), PaymentType::Receive, true) <= u64::MAX,
            spec_sum_class(self.payments_view(), PaymentType::Receive, false) - spec_sum_class(
                self.payments_view(),
                PaymentType::Send,
                false,
            ) - spec_sum_class(self.payments_view(), PaymentType::Send, true) >= 0,
        ensures
            r.balance_sat == spec_sum_class(self.payments_view(), PaymentType::Receive, false)
                - spec_sum_class(self.payments_view(), PaymentType::Send, false) - spec_sum_class(
                self.payments_view(),
                PaymentType::Send,
                true,
            ),
            r.pending_send_sat == spec_sum_class(self.payments_view(), PaymentType::Send, true),
            r.pending_receive_sat == spec_sum_class(
                self.payments_view(),
                PaymentType::Receive,
                true,
            ),
            r.pubkey@ == self.pubkey@,
    {
        let payments = self.persister.get_payments();
        let ghost view = self.payments_view();
        let n = payments.len();
        let mut pending_send_sat: u128 = 0;
        let mut pending_receive_sat: u128 = 0;
        let mut confirmed_sent_sat: u128 = 0;
        let mut confirmed_received_sat: u128 = 0;
        let mut i: usize = 0;
        proof {
            assert(view.take(0) =~= Seq::<PaymentV>::empty());
        }
        while i < n
            invariant
                n == view.len(),
                i <= n,
                payments.deep_view() == view,
                confirmed_received_sat == spec_sum_class(
                    view.take(i as int),
                    PaymentType::Receive,
                    false,
                ),
                confirmed_sent_sat == spec_sum_class(view.take(i as int), PaymentType::Send, false),
                pending_send_sat == spec_sum_class(view.take(i as int), PaymentType::Send, true),
                pending_receive_sat == spec_sum_class(
                    view.take(i as int),
                    PaymentType::Receive,
                    true,
                ),
                confirmed_received_sat <= i * (u64::MAX as u128),
                confirmed_sent_sat <= i * (u64::MAX as u128),
                pending_send_sat <= i * (u64::MAX as u128),
                pending_receive_sat <= i * (u64::MAX as u128),
            decreases n - i,
        {
            let p = &payments[i];
            proof {
                assert(view.take(i as int + 1).drop_last() =~= view.take(i as int));
                assert(view.take(i as int + 1).last() == view[i as int]);
                assert(view[i as int] == p.deep_view());
            }
            let amount = p.amount_sat as u128;
            match p.payment_type {
                PaymentType::Send => match p.status {
                    PaymentState::Complete => {
                        confirmed_sent_sat = confirmed_sent_sat + amount;
                    },
                    PaymentState::Failed => {},
                    _ => {
                        pending_send_sat = pending_send_sat + amount;
                    },
                },
                PaymentType::Receive => match p.status {
                    PaymentState::Complete => {
                        confirmed_received_sat = confirmed_received_sat + amount;
                    },
                    PaymentState::Failed => {},
                    _ => {
                        pending_receive_sat = pending_receive_sat + amount;
                    },
                },
            }
            i = i + 1;
        }
        proof {
            assert(view.take(n as int) =~= view);
        }
        crate::model::GetInfoResponse {
            balance_sat: (confirmed_received_sat - confirmed_sent_sat - pending_send_sat) as u64,
            pending_send_sat: pending_send_sat as u64,
            pending_receive_sat: pending_receive_sat as u64,
            pubkey: self.pubkey.clone(),
        }
    }

    /// The derived payment view of the engine's store.
    pub open spec fn payments_view(&self) -> Seq<PaymentV> {
        crate::persist::spec_payments_view(
            self.persister.sends(),
            self.persister.receives(),
            self.persister.txs(),
        )
    }

    /// Lists the wallet's payments, ordered by non-decreasing timestamp:
    /// the derived payment view of the store, sorted.
    pub fn list_payments(&self) -> (r: Result<Vec<crate::model::Payment>, PaymentError>)
        requires
            self.wf(),
        ensures
            r is Ok,
            r matches Ok(v) ==> spec_sorted_by_timestamp(v.deep_view()) && v.deep_view()
                .to_multiset() == self.payments_view().to_multiset(),
    {
        let payments = self.persister.get_payments();
        Ok(sort_payments_by_timestamp(payments))
    }

    /// All swaps whose state is `Created` or `Pending`, for the status
    /// stream to subscribe.
    pub fn list_ongoing_swaps(&self) -> (r: Vec<crate::model::Swap>)
        ensures
            forall|k: int|
                0 <= k < r.deep_view().len() ==> match #[trigger] r.deep_view()[k] {
                    crate::model::SwapV::Send(sw) => crate::persist::spec_is_ongoing(sw.state),
                    crate::model::SwapV::Receive(sw) => crate::persist::spec_is_ongoing(sw.state),
                },
            forall|i: int|
                0 <= i < self.persister.sends().len() && crate::persist::spec_is_ongoing(
                    (#[trigger] self.persister.sends()[i]).state,
                ) ==> r.deep_view().contains(crate::model::SwapV::Send(self.persister.sends()[i])),
            forall|i: int|
                0 <= i < self.persister.receives().len() && crate::persist::spec_is_ongoing(
                    (#[trigger] self.persister.receives()[i]).state,
                ) ==> r.deep_view().contains(
                    crate::model::SwapV::Receive(self.persister.receives()[i]),
                ),
    {
        self.persister.list_ongoing_swaps()
    }

    /// Registers an event listener and returns its identifier.
    pub fn add_event_listener(&mut self) -> (r: Result<String, crate::error::LiquidSdkError>)
        requires
            old(self).wf(),
        ensures
            final(self).wf(),
            final(self).persister == old(self).persister,
            final(self).event_manager.log() == old(self).event_manager.log(),
            r matches Ok(id) ==> id@ == crate::event::spec_listener_id_of(
                old(self).event_manager.next_listener_id,
            ) && final(self).event_manager.ids() == old(self).event_manager.ids().push(
                old(self).event_manager.next_listener_id,
            ),
    {
        self.event_manager.add()
    }

    /// Unregisters an event listener by identifier: the matching
    /// registration is removed; without a match the registry is
    /// unchanged.
    pub fn remove_event_listener(&mut self, id: &str) -> (r: Result<
        (),
        crate::error::LiquidSdkError,
    >)
        requires
            old(self).wf(),
        ensures
            final(self).wf(),
            final(self).persister == old(self).persister,
            final(self).status_stream == old(self).status_stream,
            final(self).event_manager.log() == old(self).event_manager.log(),
            final(self).event_manager.next_listener_id == old(
                self,
            ).event_manager.next_listener_id,
            (exists|i: int|
                0 <= i < old(self).event_manager.ids().len() && crate::event::spec_listener_id_of(
                    #[trigger] old(self).event_manager.ids()[i],
                ) == id@) ==> exists|i: int|
                {
                    &&& 0 <= i < old(self).event_manager.ids().len()
                    &&& crate::event::spec_listener_id_of(#[trigger] old(self).event_manager.ids()[i])
                        == id@
                    &&& final(self).event_manager.ids() == old(self).event_manager.ids().remove(i)
                },
            !(exists|i: int|
                0 <= i < old(self).event_manager.ids().len() && crate::event::spec_listener_id_of(
                    #[trigger] old(self).event_manager.ids()[i],
                ) == id@) ==> final(self).event_manager.ids() == old(self).event_manager.ids(),
            r is Ok,
    {
        self.event_manager.remove(id);
        Ok(())
    }

    /// Picks the claim transaction out of a swap script's history: the
    /// lockup is the first entry, the claim the second, and a history
    /// of more than two transactions is malformed.
    pub fn find_claim_tx_in_history(history: &Vec<String>) -> (r: Result<String, PaymentError>)
        ensures
            r is Ok <==> history.deep_view().len() == 2,
            r matches Ok(t) ==> t@ == history.deep_view()[1],
            r is Err ==> r->Err_0 is Generic,
    {
        if history.len() > 2 {
            return Err(
                PaymentError::Generic {
                    err: "Lockup address history has more than 2 txs".to_owned(),
                },
            );
        }
        if history.len() < 2 {
            return Err(PaymentError::Generic { err: "Send Swap has no claim tx".to_owned() });
        }
        Ok(history[1].clone())
    }

    /// Recovers the invoice preimage from the witness of the swapper's
    /// unilateral claim transaction: the preimage is the witness's
    /// second item, a 32-byte value, returned hex-encoded.
    pub fn get_preimage_from_script_path_claim_spend(witness: &Vec<Vec<u8>>) -> (r: Result<
        String,
        PaymentError,
    >)
        ensures
            r is Ok <==> witness.deep_view().len() >= 2 && witness.deep_view()[1].len() == 32,
            r matches Ok(p) ==> p@ == crate::utils::spec_hex_of(witness.deep_view()[1]),
            r is Err ==> r->Err_0 is Generic,
    {
        if witness.len() < 2 {
            return Err(PaymentError::Generic { err: "Claim tx witness has no preimage".to_owned() });
        }
        let preimage_bytes = &witness[1];
        if preimage_bytes.len() != 32 {
            return Err(
                PaymentError::Generic { err: "Claim tx witness has invalid preimage".to_owned() },
            );
        }
        proof {
            assert(witness.deep_view()[1] == witness@[1]@);
        }
        Ok(crate::utils::to_hex(preimage_bytes))
    }
}

/// Sorts payments by non-decreasing timestamp, keeping the multiset of
/// payments intact.
fn sort_payments_by_timestamp(input: Vec<crate::model::Payment>) -> (r: Vec<
    crate::model::Payment,
>)
    ensures
        spec_sorted_by_timestamp(r.deep_view()),
        r.deep_view().to_multiset() == input.deep_view().to_multiset(),
{
    broadcast use vstd::seq_lib::group_to_multiset_ensures;

    let mut rest = input;
    let mut out: Vec<crate::model::Payment> = Vec::new();
    let ghost orig = rest.deep_view();
    proof {
        assert(out.deep_view() =~= Seq::<PaymentV>::empty());
        assert(out.deep_view().to_multiset().add(rest.deep_view().to_multiset())
            =~= orig.to_multiset());
    }
    while rest.len() > 0
        invariant
            spec_sorted_by_timestamp(out.deep_view()),
            out.deep_view().to_multiset().add(rest.deep_view().to_multiset()) == orig.to_multiset(),
            forall|i: int, j: int|
                0 <= i < out.deep_view().len() && 0 <= j < rest.deep_view().len() ==> (
                #[trigger] out.deep_view()[i]).timestamp <= (#[trigger] rest.deep_view()[j]).timestamp,
        decreases rest.len(),
    {
        let n = rest.len();
        let mut min_idx: usize = 0;
        let mut k: usize = 1;
        while k < n
            invariant
                n == rest.len(),
                min_idx < k <= n,
                forall|m: int|
                    0 <= m < k ==> rest.deep_view()[min_idx as int].timestamp <= (
                    #[trigger] rest.deep_view()[m]).timestamp,
            decreases n - k,
        {
            if rest[k].timestamp < rest[min_idx].timestamp {
                min_idx = k;
            }
            k = k + 1;
        }
        let ghost rest_before = rest.deep_view();
        let ghost out_before = out.deep_view();
        let x = rest.remove(min_idx);
        out.push(x);
        proof {
            broadcast use vstd::seq_lib::group_to_multiset_ensures;

            assert(rest.deep_view() =~= rest_before.remove(min_idx as int));
            assert(out.deep_view() =~= out_before.push(rest_before[min_idx as int]));
            assert(rest.deep_view().to_multiset() =~= rest_before.to_multiset().remove(
                rest_before[min_idx as int],
            ));
            assert(out.deep_view().to_multiset() =~= out_before.to_multiset().insert(
                rest_before[min_idx as int],
            ));
            assert(rest_before.to_multiset().contains(rest_before[min_idx as int]));
            assert(out.deep_view().to_multiset().add(rest.deep_view().to_multiset())
                =~= out_before.to_multiset().add(rest_before.to_multiset()));
            assert(forall|j: int|
                0 <= j < rest.deep_view().len() ==> (#[trigger] rest.deep_view()[j])
                    == rest_before[if j < min_idx {
                    j
                } else {
                    j + 1
                }]);
            assert(forall|i: int|
                0 <= i < out.deep_view().len() ==> (#[trigger] out.deep_view()[i]).timestamp
                    <= rest_before[min_idx as int].timestamp);
        }
    }
    proof {
        assert(rest.deep_view().to_multiset() =~= Multiset::<PaymentV>::empty());
        assert(out.deep_view().to_multiset().add(Multiset::<PaymentV>::empty())
            =~= out.deep_view().to_multiset());
    }
    out
}


/// Whether some input transaction carries the id.
pub open spec fn spec_tx_id_in(txs: Seq<crate::model::WalletTxV>, t: Seq<char>) -> bool {
    exists|k: int| 0 <= k < txs.len() && (#[trigger] txs[k]).tx_id == t
}

/// Whether some confirmed input transaction carries the id.
pub open spec fn spec_tx_confirmed_in(txs: Seq<crate::model::WalletTxV>, t: Seq<char>) -> bool {
    exists|k: int|
        0 <= k < txs.len() && (#[trigger] txs[k]).tx_id == t && txs[k].height is Some
}

/// Whether reconciliation against the wallet snapshot completes a
/// Receive record: it is `Pending` and its claim transaction is
/// confirmed in the snapshot.
pub open spec fn spec_receive_sync_hit(sw: ReceiveSwapV, txs: Seq<crate::model::WalletTxV>) -> bool {
    sw.state == PaymentState::Pending && (sw.claim_tx_id matches Some(c) && spec_tx_confirmed_in(
        txs,
        c,
    ))
}

/// Whether reconciliation against the wallet snapshot fails a Send
/// record: it is `Pending` and its refund transaction is confirmed in
/// the snapshot.
pub open spec fn spec_send_sync_hit(sw: SendSwapV, txs: Seq<crate::model::WalletTxV>) -> bool {
    sw.state == PaymentState::Pending && (sw.refund_tx_id matches Some(c) && spec_tx_confirmed_in(
        txs,
        c,
    ))
}

/// A Receive record after reconciliation: completed exactly when its
/// confirmed claim was observed, untouched otherwise.
pub open spec fn spec_receive_after_sync(
    sw: ReceiveSwapV,
    txs: Seq<crate::model::WalletTxV>,
) -> ReceiveSwapV {
    if spec_receive_sync_hit(sw, txs) {
        spec_receive_updated(sw, PaymentState::Complete, None)
    } else {
        sw
    }
}

/// A Send record after reconciliation: failed exactly when its
/// confirmed refund was observed, untouched otherwise.
pub open spec fn spec_send_after_sync(
    sw: SendSwapV,
    txs: Seq<crate::model::WalletTxV>,
) -> SendSwapV {
    if spec_send_sync_hit(sw, txs) {
        spec_send_updated(sw, PaymentState::Failed, None, None, None)
    } else {
        sw
    }
}

/// The record was matched by one of the first `m` snapshot entries
/// while the transaction with the given id was processed.
pub open spec fn spec_receive_snap_matched(
    sw: ReceiveSwapV,
    snap: Seq<ReceiveSwapV>,
    m: int,
    tid: Seq<char>,
) -> bool {
    sw.claim_tx_id == Some(tid) && exists|mp: int| 0 <= mp < m && #[trigger] snap[mp] == sw
}

/// The record was matched by one of the first `m` snapshot entries
/// while the transaction with the given id was processed.
pub open spec fn spec_send_snap_matched(
    sw: SendSwapV,
    snap: Seq<SendSwapV>,
    m: int,
    tid: Seq<char>,
) -> bool {
    sw.refund_tx_id == Some(tid) && exists|mp: int| 0 <= mp < m && #[trigger] snap[mp] == sw
}

/// Extending the snapshot keeps an id confirmed, and the one new
/// transaction is the only way a fresh id becomes confirmed.
proof fn lemma_confirmed_in_step(txs: Seq<crate::model::WalletTxV>, i: int, c: Seq<char>)
    requires
        0 <= i < txs.len(),
    ensures
        spec_tx_confirmed_in(txs.take(i + 1), c) <==> (spec_tx_confirmed_in(txs.take(i), c) || (
        txs[i].tx_id == c && txs[i].height is Some)),
{
    if spec_tx_confirmed_in(txs.take(i + 1), c) {
        let k = choose|k: int|
            0 <= k < txs.take(i + 1).len() && (#[trigger] txs.take(i + 1)[k]).tx_id == c && txs.take(
                i + 1,
            )[k].height is Some;
        if k < i {
            assert(txs.take(i as int)[k] == txs.take(i + 1)[k]);
        } else {
            assert(txs.take(i + 1)[k] == txs[i]);
        }
    }
    if spec_tx_confirmed_in(txs.take(i as int), c) {
        let k = choose|k: int|
            0 <= k < txs.take(i as int).len() && (#[trigger] txs.take(i as int)[k]).tx_id == c
                && txs.take(i as int)[k].height is Some;
        assert(txs.take(i + 1)[k] == txs.take(i as int)[k]);
    }
    if txs[i].tx_id == c && txs[i].height is Some {
        assert(txs.take(i + 1)[i] == txs[i]);
    }
}


impl LiquidSdk {
    /// One reconciliation pass of a confirmed transaction over the
    /// pending-Receive snapshot: every snapshot record whose claim is
    /// that transaction is completed, unless a record already completed
    /// by an earlier pass. `base` is the store's Receive table from
    /// before the first pass; the current table differs from it only by
    /// completions.
    fn complete_receives_for_tx(
        &mut self,
        snapshot: &Vec<crate::model::ReceiveSwap>,
        tx_id: &str,
        Ghost(base): Ghost<Seq<ReceiveSwapV>>,
    )
        requires
            old(self).wf(),
            crate::persist::spec_unique_receive_ids(base),
            old(self).persister.receives().len() == base.len(),
            forall|j: int|
                0 <= j < base.len() ==> #[trigger] old(self).persister.receives()[j] == base[j]
                    || old(self).persister.receives()[j] == spec_receive_updated(
                    base[j],
                    PaymentState::Complete,
                    None,
                ),
            forall|m: int|
                0 <= m < snapshot.deep_view().len() ==> (#[trigger] snapshot.deep_view()[m]).state
                    == PaymentState::Pending && snapshot.deep_view()[m].claim_tx_id is Some
                    && exists|j: int|
                    0 <= j < base.len() && #[trigger] base[j] == snapshot.deep_view()[m],
            forall|j: int|
                0 <= j < base.len() && (#[trigger] base[j]).state == PaymentState::Pending
                    && base[j].claim_tx_id is Some ==> snapshot.deep_view().contains(base[j]),
        ensures
            final(self).wf(),
            final(self).same_config(old(self)),
            final(self).status_stream == old(self).status_stream,
            final(self).event_manager == old(self).event_manager,
            final(self).persister.sends() == old(self).persister.sends(),
            final(self).persister.txs() == old(self).persister.txs(),
            final(self).persister.receives().len() == base.len(),
            forall|j: int|
                0 <= j < base.len() ==> #[trigger] final(self).persister.receives()[j] == {
                    if old(self).persister.receives()[j] != base[j] || (base[j].state
                        == PaymentState::Pending && base[j].claim_tx_id == Some(tx_id@)) {
                        spec_receive_updated(base[j], PaymentState::Complete, None)
                    } else {
                        base[j]
                    }
                },
    {
        let ghost snap = snapshot.deep_view();
        let n = snapshot.len();
        let mut m: usize = 0;
        while m < n
            invariant
                old(self).wf(),
                crate::persist::spec_unique_receive_ids(base),
                n == snap.len(),
                m <= n,
                snap == snapshot.deep_view(),
                forall|mp: int|
                    0 <= mp < snap.len() ==> (#[trigger] snap[mp]).state == PaymentState::Pending
                        && snap[mp].claim_tx_id is Some && exists|j: int|
                        0 <= j < base.len() && #[trigger] base[j] == snap[mp],
                forall|j: int|
                    0 <= j < base.len() ==> #[trigger] old(self).persister.receives()[j] == base[j]
                        || old(self).persister.receives()[j] == spec_receive_updated(
                        base[j],
                        PaymentState::Complete,
                        None,
                    ),
                self.wf(),
                self.same_config(old(self)),
                self.status_stream == old(self).status_stream,
                self.event_manager == old(self).event_manager,
                self.persister.sends() == old(self).persister.sends(),
                self.persister.txs() == old(self).persister.txs(),
                self.persister.receives().len() == base.len(),
                forall|j: int|
                    0 <= j < base.len() ==> #[trigger] self.persister.receives()[j] == {
                        if old(self).persister.receives()[j] != base[j]
                            || spec_receive_snap_matched(base[j], snap, m as int, tx_id@) {
                            spec_receive_updated(base[j], PaymentState::Complete, None)
                        } else {
                            base[j]
                        }
                    },
            decreases n - m,
        {
            let entry = &snapshot[m];
            let hit = match &entry.claim_tx_id {
                Some(t) => crate::utils::str_eq(t.as_str(), tx_id),
                None => false,
            };
            if hit {
                let ghost j0 = choose|j: int|
                    0 <= j < base.len() && #[trigger] base[j] == snap[m as int];
                proof {
                    assert forall|k: int|
                        0 <= k < base.len() implies (#[trigger] self.persister.receives()[k]).id
                        == base[k].id by {
                        assert(self.persister.receives()[k] == base[k]
                            || self.persister.receives()[k] == spec_receive_updated(
                            base[k],
                            PaymentState::Complete,
                            None,
                        ));
                    }
                    crate::persist::lemma_receive_find_at(
                        self.persister.receives(),
                        base[j0].id,
                        j0,
                    );
                }
                let still_pending = match self.persister.fetch_receive_swap(entry.id.as_str()) {
                    Some(sw) => sw.state == PaymentState::Pending,
                    None => false,
                };
                if still_pending {
                    proof {
                        assert(self.persister.receives()[j0] == base[j0]);
                    }
                    let ghost before = *self;
                    match self.persister.try_handle_receive_swap_update(
                        entry.id.as_str(),
                        PaymentState::Complete,
                        None,
                    ) {
                        Ok(()) => {
                            proof {
                                crate::persist::lemma_receive_update_at(
                                    before.persister.receives(),
                                    base[j0].id,
                                    j0,
                                    PaymentState::Complete,
                                    None,
                                );
                                assert(self.persister.receives() =~= before.persister.receives()
                                    .update(
                                    j0,
                                    spec_receive_updated(base[j0], PaymentState::Complete, None),
                                ));
                                assert forall|j: int|
                                    0 <= j < base.len() implies #[trigger] self.persister.receives()[j]
                                    == {
                                    if old(self).persister.receives()[j] != base[j]
                                        || spec_receive_snap_matched(
                                        base[j],
                                        snap,
                                        m as int + 1,
                                        tx_id@,
                                    ) {
                                        spec_receive_updated(base[j], PaymentState::Complete, None)
                                    } else {
                                        base[j]
                                    }
                                } by {
                                    if j == j0 {
                                        assert(snap[m as int] == base[j0]);
                                        assert(spec_receive_snap_matched(
                                            base[j0],
                                            snap,
                                            m as int + 1,
                                            tx_id@,
                                        ));
                                    } else {
                                        assert(self.persister.receives()[j]
                                            == before.persister.receives()[j]);
                                        if spec_receive_snap_matched(
                                            base[j],
                                            snap,
                                            m as int + 1,
                                            tx_id@,
                                        ) && !spec_receive_snap_matched(
                                            base[j],
                                            snap,
                                            m as int,
                                            tx_id@,
                                        ) {
                                            assert(snap[m as int] == base[j]);
                                            assert(base[j].id == base[j0].id);
                                            assert(j == j0);
                                        }
                                    }
                                }
                            }
                        },
                        Err(_) => {
                            proof {
                                assert(false);
                            }
                        },
                    }
                } else {
                    proof {
                        assert(self.persister.receives()[j0] != base[j0]);
                        assert forall|j: int|
                            0 <= j < base.len() implies #[trigger] self.persister.receives()[j] == {
                            if old(self).persister.receives()[j] != base[j]
                                || spec_receive_snap_matched(base[j], snap, m as int + 1, tx_id@) {
                                spec_receive_updated(base[j], PaymentState::Complete, None)
                            } else {
                                base[j]
                            }
                        } by {
                            if j != j0 && spec_receive_snap_matched(
                                base[j],
                                snap,
                                m as int + 1,
                                tx_id@,
                            ) && !spec_receive_snap_matched(base[j], snap, m as int, tx_id@) {
                                assert(snap[m as int] == base[j]);
                                assert(base[j].id == base[j0].id);
                                assert(j == j0);
                            }
                        }
                    }
                }
            } else {
                proof {
                    assert forall|j: int|
                        0 <= j < base.len() implies !(spec_receive_snap_matched(
                        base[j],
                        snap,
                        m as int + 1,
                        tx_id@,
                    ) && !spec_receive_snap_matched(base[j], snap, m as int, tx_id@)) by {
                        if spec_receive_snap_matched(base[j], snap, m as int + 1, tx_id@)
                            && !spec_receive_snap_matched(base[j], snap, m as int, tx_id@) {
                            assert(snap[m as int] == base[j]);
                        }
                    }
                }
            }
            m = m + 1;
        }
        proof {
            assert forall|j: int|
                0 <= j < base.len() implies #[trigger] self.persister.receives()[j] == {
                if old(self).persister.receives()[j] != base[j] || (base[j].state
                    == PaymentState::Pending && base[j].claim_tx_id == Some(tx_id@)) {
                    spec_receive_updated(base[j], PaymentState::Complete, None)
                } else {
                    base[j]
                }
            } by {
                if base[j].state == PaymentState::Pending && base[j].claim_tx_id == Some(tx_id@) {
                    assert(snap.contains(base[j]));
                    assert(spec_receive_snap_matched(base[j], snap, snap.len() as int, tx_id@));
                }
                if spec_receive_snap_matched(base[j], snap, snap.len() as int, tx_id@) {
                    let mp = choose|mp: int| 0 <= mp < snap.len() && #[trigger] snap[mp] == base[j];
                    assert(base[j].state == PaymentState::Pending);
                }
            }
        }
    }

    /// One reconciliation pass of a confirmed transaction over the
    /// pending-Send snapshot: every snapshot record whose refund is that
    /// transaction is failed, unless a record already failed by an
    /// earlier pass.
    fn fail_sends_for_tx(
        &mut self,
        snapshot: &Vec<crate::model::SendSwap>,
        tx_id: &str,
        Ghost(base): Ghost<Seq<SendSwapV>>,
    )
        requires
            old(self).wf(),
            crate::persist::spec_unique_send_ids(base),
            old(self).persister.sends().len() == base.len(),
            forall|j: int|
                0 <= j < base.len() ==> #[trigger] old(self).persister.sends()[j] == base[j] || old(
                    self,
                ).persister.sends()[j] == spec_send_updated(
                    base[j],
                    PaymentState::Failed,
                    None,
                    None,
                    None,
                ),
            forall|m: int|
                0 <= m < snapshot.deep_view().len() ==> (#[trigger] snapshot.deep_view()[m]).state
                    == PaymentState::Pending && snapshot.deep_view()[m].refund_tx_id is Some
                    && exists|j: int|
                    0 <= j < base.len() && #[trigger] base[j] == snapshot.deep_view()[m],
            forall|j: int|
                0 <= j < base.len() && (#[trigger] base[j]).state == PaymentState::Pending
                    && base[j].refund_tx_id is Some ==> snapshot.deep_view().contains(base[j]),
        ensures
            final(self).wf(),
            final(self).same_config(old(self)),
            final(self).status_stream == old(self).status_stream,
            final(self).event_manager == old(self).event_manager,
            final(self).persister.receives() == old(self).persister.receives(),
            final(self).persister.txs() == old(self).persister.txs(),
            final(self).persister.sends().len() == base.len(),
            forall|j: int|
                0 <= j < base.len() ==> #[trigger] final(self).persister.sends()[j] == {
                    if old(self).persister.sends()[j] != base[j] || (base[j].state
                        == PaymentState::Pending && base[j].refund_tx_id == Some(tx_id@)) {
                        spec_send_updated(base[j], PaymentState::Failed, None, None, None)
                    } else {
                        base[j]
                    }
                },
    {
        let ghost snap = snapshot.deep_view();
        let n = snapshot.len();
        let mut m: usize = 0;
        while m < n
            invariant
                old(self).wf(),
                crate::persist::spec_unique_send_ids(base),
                n == snap.len(),
                m <= n,
                snap == snapshot.deep_view(),
                forall|mp: int|
                    0 <= mp < snap.len() ==> (#[trigger] snap[mp]).state == PaymentState::Pending
                        && snap[mp].refund_tx_id is Some && exists|j: int|
                        0 <= j < base.len() && #[trigger] base[j] == snap[mp],
                forall|j: int|
                    0 <= j < base.len() ==> #[trigger] old(self).persister.sends()[j] == base[j]
                        || old(self).persister.sends()[j] == spec_send_updated(
                        base[j],
                        PaymentState::Failed,
                        None,
                        None,
                        None,
                    ),
                self.wf(),
                self.same_config(old(self)),
                self.status_stream == old(self).status_stream,
                self.event_manager == old(self).event_manager,
                self.persister.receives() == old(self).persister.receives(),
                self.persister.txs() == old(self).persister.txs(),
                self.persister.sends().len() == base.len(),
                forall|j: int|
                    0 <= j < base.len() ==> #[trigger] self.persister.sends()[j] == {
                        if old(self).persister.sends()[j] != base[j] || spec_send_snap_matched(
                            base[j],
                            snap,
                            m as int,
                            tx_id@,
                        ) {
                            spec_send_updated(base[j], PaymentState::Failed, None, None, None)
                        } else {
                            base[j]
                        }
                    },
            decreases n - m,
        {
            let entry = &snapshot[m];
            let hit = match &entry.refund_tx_id {
                Some(t) => crate::utils::str_eq(t.as_str(), tx_id),
                None => false,
            };
            if hit {
                let ghost j0 = choose|j: int|
                    0 <= j < base.len() && #[trigger] base[j] == snap[m as int];
                proof {
                    assert forall|k: int|
                        0 <= k < base.len() implies (#[trigger] self.persister.sends()[k]).id
                        == base[k].id by {
                        assert(self.persister.sends()[k] == base[k] || self.persister.sends()[k]
                            == spec_send_updated(
                            base[k],
                            PaymentState::Failed,
                            None,
                            None,
                            None,
                        ));
                    }
                    crate::persist::lemma_send_find_at(self.persister.sends(), base[j0].id, j0);
                }
                let still_pending = match self.persister.fetch_send_swap(entry.id.as_str()) {
                    Some(sw) => sw.state == PaymentState::Pending,
                    None => false,
                };
                if still_pending {
                    proof {
                        assert(self.persister.sends()[j0] == base[j0]);
                    }
                    let ghost before = *self;
                    match self.persister.try_handle_send_swap_update(
                        entry.id.as_str(),
                        PaymentState::Failed,
                        None,
                        None,
                        None,
                    ) {
                        Ok(()) => {
                            proof {
                                crate::persist::lemma_send_update_at(
                                    before.persister.sends(),
                                    base[j0].id,
                                    j0,
                                    PaymentState::Failed,
                                    None,
                                    None,
                                    None,
                                );
                                assert(self.persister.sends() =~= before.persister.sends().update(
                                    j0,
                                    spec_send_updated(
                                        base[j0],
                                        PaymentState::Failed,
                                        None,
                                        None,
                                        None,
                                    ),
                                ));
                                assert forall|j: int|
                                    0 <= j < base.len() implies #[trigger] self.persister.sends()[j]
                                    == {
                                    if old(self).persister.sends()[j] != base[j]
                                        || spec_send_snap_matched(
                                        base[j],
                                        snap,
                                        m as int + 1,
                                        tx_id@,
                                    ) {
                                        spec_send_updated(
                                            base[j],
                                            PaymentState::Failed,
                                            None,
                                            None,
                                            None,
                                        )
                                    } else {
                                        base[j]
                                    }
                                } by {
                                    if j == j0 {
                                        assert(snap[m as int] == base[j0]);
                                        assert(spec_send_snap_matched(
                                            base[j0],
                                            snap,
                                            m as int + 1,
                                            tx_id@,
                                        ));
                                    } else {
                                        assert(self.persister.sends()[j]
                                            == before.persister.sends()[j]);
                                        if spec_send_snap_matched(
                                            base[j],
                                            snap,
                                            m as int + 1,
                                            tx_id@,
                                        ) && !spec_send_snap_matched(
                                            base[j],
                                            snap,
                                            m as int,
                                            tx_id@,
                                        ) {
                                            assert(snap[m as int] == base[j]);
                                            assert(base[j].id == base[j0].id);
                                            assert(j == j0);
                                        }
                                    }
                                }
                            }
                        },
                        Err(_) => {
                            proof {
                                assert(false);
                            }
                        },
                    }
                } else {
                    proof {
                        assert(self.persister.sends()[j0] != base[j0]);
                        assert forall|j: int|
                            0 <= j < base.len() implies #[trigger] self.persister.sends()[j] == {
                            if old(self).persister.sends()[j] != base[j] || spec_send_snap_matched(
                                base[j],
                                snap,
                                m as int + 1,
                                tx_id@,
                            ) {
                                spec_send_updated(base[j], PaymentState::Failed, None, None, None)
                            } else {
                                base[j]
                            }
                        } by {
                            if j != j0 && spec_send_snap_matched(
                                base[j],
                                snap,
                                m as int + 1,
                                tx_id@,
                            ) && !spec_send_snap_matched(base[j], snap, m as int, tx_id@) {
                                assert(snap[m as int] == base[j]);
                                assert(base[j].id == base[j0].id);
                                assert(j == j0);
                            }
                        }
                    }
                }
            } else {
                proof {
                    assert forall|j: int|
                        0 <= j < base.len() implies !(spec_send_snap_matched(
                        base[j],
                        snap,
                        m as int + 1,
                        tx_id@,
                    ) && !spec_send_snap_matched(base[j], snap, m as int, tx_id@)) by {
                        if spec_send_snap_matched(base[j], snap, m as int + 1, tx_id@)
                            && !spec_send_snap_matched(base[j], snap, m as int, tx_id@) {
                            assert(snap[m as int] == base[j]);
                        }
                    }
                }
            }
            m = m + 1;
        }
        proof {
            assert forall|j: int|
                0 <= j < base.len() implies #[trigger] self.persister.sends()[j] == {
                if old(self).persister.sends()[j] != base[j] || (base[j].state
                    == PaymentState::Pending && base[j].refund_tx_id == Some(tx_id@)) {
                    spec_send_updated(base[j], PaymentState::Failed, None, None, None)
                } else {
                    base[j]
                }
            } by {
                if base[j].state == PaymentState::Pending && base[j].refund_tx_id == Some(tx_id@) {
                    assert(snap.contains(base[j]));
                    assert(spec_send_snap_matched(base[j], snap, snap.len() as int, tx_id@));
                }
                if spec_send_snap_matched(base[j], snap, snap.len() as int, tx_id@) {
                    let mp = choose|mp: int| 0 <= mp < snap.len() && #[trigger] snap[mp] == base[j];
                    assert(base[j].state == PaymentState::Pending);
                }
            }
        }
    }

}

/// The Receive table after a reconciliation pass, record by record.
pub open spec fn spec_receives_table_after_sync(
    old_r: Seq<ReceiveSwapV>,
    txs: Seq<crate::model::WalletTxV>,
) -> Seq<ReceiveSwapV> {
    Seq::new(old_r.len(), |j: int| spec_receive_after_sync(old_r[j], txs))
}

/// The Send table after a reconciliation pass, record by record.
pub open spec fn spec_sends_table_after_sync(
    old_s: Seq<SendSwapV>,
    txs: Seq<crate::model::WalletTxV>,
) -> Seq<SendSwapV> {
    Seq::new(old_s.len(), |j: int| spec_send_after_sync(old_s[j], txs))
}

/// The ledger after a reconciliation pass: every wallet transaction's
/// row upserted, in snapshot order.
pub open spec fn spec_txs_after_sync(
    old_t: Seq<crate::model::PaymentTxDataV>,
    txs: Seq<crate::model::WalletTxV>,
) -> Seq<crate::model::PaymentTxDataV>
    decreases txs.len(),
{
    if txs.len() == 0 {
        old_t
    } else {
        crate::persist::spec_txs_upserted(
            spec_txs_after_sync(old_t, txs.drop_last()),
            spec_wallet_row(txs.last()),
        )
    }
}

/// The events a reconciliation pass logs for the pending Receive
/// records, in listing order: for each record whose claim transaction
/// is confirmed in the snapshot, the lifecycle event of that claim's
/// payment, chosen against the pass's final tables.
pub open spec fn spec_sync_receive_events(
    pending: Seq<ReceiveSwapV>,
    txs: Seq<crate::model::WalletTxV>,
    fs: Seq<SendSwapV>,
    fr: Seq<ReceiveSwapV>,
    ft: Seq<crate::model::PaymentTxDataV>,
) -> Seq<LiquidSdkEventV>
    decreases pending.len(),
{
    if pending.len() == 0 {
        Seq::empty()
    } else {
        (if pending[0].claim_tx_id is Some && spec_tx_confirmed_in(
            txs,
            pending[0].claim_tx_id->Some_0,
        ) {
            spec_emitted_for_payment(fs, fr, ft, Some(pending[0].claim_tx_id->Some_0))
        } else {
            Seq::empty()
        }) + spec_sync_receive_events(pending.drop_first(), txs, fs, fr, ft)
    }
}

/// The events a reconciliation pass logs for the pending Send records,
/// in listing order: for each record whose refund transaction is
/// confirmed in the snapshot, the lifecycle event of that refund's
/// payment, chosen against the pass's final tables.
pub open spec fn spec_sync_send_events(
    pending: Seq<SendSwapV>,
    txs: Seq<crate::model::WalletTxV>,
    fs: Seq<SendSwapV>,
    fr: Seq<ReceiveSwapV>,
    ft: Seq<crate::model::PaymentTxDataV>,
) -> Seq<LiquidSdkEventV>
    decreases pending.len(),
{
    if pending.len() == 0 {
        Seq::empty()
    } else {
        (if pending[0].refund_tx_id is Some && spec_tx_confirmed_in(
            txs,
            pending[0].refund_tx_id->Some_0,
        ) {
            spec_emitted_for_payment(fs, fr, ft, Some(pending[0].refund_tx_id->Some_0))
        } else {
            Seq::empty()
        }) + spec_sync_send_events(pending.drop_first(), txs, fs, fr, ft)
    }
}

/// Everything a reconciliation pass appends to the event log: the
/// completion events of the pending Receive records, then the failure
/// events of the pending Send records.
pub open spec fn spec_sync_events(
    old_r: Seq<ReceiveSwapV>,
    old_s: Seq<SendSwapV>,
    old_t: Seq<crate::model::PaymentTxDataV>,
    txs: Seq<crate::model::WalletTxV>,
) -> Seq<LiquidSdkEventV> {
    spec_sync_receive_events(
        crate::persist::spec_pending_claim_receives(old_r),
        txs,
        spec_sends_table_after_sync(old_s, txs),
        spec_receives_table_after_sync(old_r, txs),
        spec_txs_after_sync(old_t, txs),
    ) + spec_sync_send_events(
        crate::persist::spec_pending_refund_sends(old_s),
        txs,
        spec_sends_table_after_sync(old_s, txs),
        spec_receives_table_after_sync(old_r, txs),
        spec_txs_after_sync(old_t, txs),
    )
}

/// Scans the wallet snapshot for a confirmed transaction with the id.
fn wallet_tx_confirmed(txs: &Vec<crate::model::WalletTx>, tx_id: &str) -> (r: bool)
    ensures
        r == spec_tx_confirmed_in(txs.deep_view(), tx_id@),
{
    let n = txs.len();
    let mut k: usize = 0;
    while k < n
        invariant
            n == txs.deep_view().len(),
            k <= n,
            forall|m: int|
                0 <= m < k ==> !((#[trigger] txs.deep_view()[m]).tx_id == tx_id@
                    && txs.deep_view()[m].height is Some),
        decreases n - k,
    {
        if txs[k].height.is_some() && crate::utils::str_eq(txs[k].tx_id.as_str(), tx_id) {
            proof {
                assert(txs.deep_view()[k as int].tx_id == tx_id@ && txs.deep_view()[k as int].height
                    is Some);
            }
            return true;
        }
        k = k + 1;
    }
    false
}

impl LiquidSdk {
    /// Reconciles the store with a snapshot of the wallet's chain data.
    /// Every wallet transaction is upserted as a ledger row carrying its
    /// absolute balance delta, direction and confirmation flag; ledger
    /// rows for transactions outside the snapshot are untouched. Every
    /// `Pending` Receive record whose claim transaction is confirmed in
    /// the snapshot moves to `Complete`, every `Pending` Send record
    /// whose refund transaction is confirmed moves to `Failed`, and no
    /// other swap record changes. After the state changes, exactly the
    /// lifecycle events of the completed claims and failed refunds are
    /// logged, in listing order, chosen against the final tables. The
    /// pass always succeeds.
    pub fn sync_payments_with_chain_data(&mut self, txs: &Vec<crate::model::WalletTx>) -> (r:
        Result<(), PaymentError>)
        requires
            old(self).wf(),
            forall|a: int, b: int|
                0 <= a < b < txs.deep_view().len() ==> (#[trigger] txs.deep_view()[a]).tx_id != (
                #[trigger] txs.deep_view()[b]).tx_id,
        ensures
            final(self).wf(),
            final(self).same_config(old(self)),
            final(self).status_stream == old(self).status_stream,
            final(self).event_manager.ids() == old(self).event_manager.ids(),
            final(self).event_manager.log() == old(self).event_manager.log() + spec_sync_events(
                old(self).persister.receives(),
                old(self).persister.sends(),
                old(self).persister.txs(),
                txs.deep_view(),
            ),
            r is Ok,
            final(self).persister.receives() == spec_receives_table_after_sync(
                old(self).persister.receives(),
                txs.deep_view(),
            ),
            forall|j: int|
                0 <= j < old(self).persister.receives().len()
                    ==> #[trigger] final(self).persister.receives()[j] == spec_receive_after_sync(
                    old(self).persister.receives()[j],
                    txs.deep_view(),
                ),
            final(self).persister.sends() == spec_sends_table_after_sync(
                old(self).persister.sends(),
                txs.deep_view(),
            ),
            forall|j: int|
                0 <= j < old(self).persister.sends().len()
                    ==> #[trigger] final(self).persister.sends()[j] == spec_send_after_sync(
                    old(self).persister.sends()[j],
                    txs.deep_view(),
                ),
            final(self).persister.txs() == spec_txs_after_sync(
                old(self).persister.txs(),
                txs.deep_view(),
            ),
            forall|k: int|
                0 <= k < txs.deep_view().len() ==> spec_find_tx(
                    final(self).persister.txs(),
                    (#[trigger] txs.deep_view()[k]).tx_id,
                ) == Some(spec_wallet_row(txs.deep_view()[k])),
            forall|t: Seq<char>|
                !spec_tx_id_in(txs.deep_view(), t) ==> #[trigger] spec_find_tx(
                    final(self).persister.txs(),
                    t,
                ) == spec_find_tx(old(self).persister.txs(), t),
    {
        let pending_receives = self.persister.list_pending_receive_swaps_by_claim_tx_id();
        let pending_sends = self.persister.list_pending_send_swaps_by_refund_tx_id();
        let ghost old_r = old(self).persister.receives();
        let ghost old_s = old(self).persister.sends();
        let ghost old_t = old(self).persister.txs();
        let n = txs.len();
        let mut i: usize = 0;
        proof {
            assert forall|j: int|
                0 <= j < old_r.len() implies #[trigger] self.persister.receives()[j]
                == spec_receive_after_sync(old_r[j], txs.deep_view().take(0)) by {
                assert(!spec_receive_sync_hit(old_r[j], txs.deep_view().take(0)));
            }
            assert forall|j: int|
                0 <= j < old_s.len() implies #[trigger] self.persister.sends()[j]
                == spec_send_after_sync(old_s[j], txs.deep_view().take(0)) by {
                assert(!spec_send_sync_hit(old_s[j], txs.deep_view().take(0)));
            }
            assert(txs.deep_view().take(0) =~= Seq::<crate::model::WalletTxV>::empty());
            assert(spec_txs_after_sync(old_t, txs.deep_view().take(0)) == old_t);
        }
        while i < n
            invariant
                old(self).wf(),
                forall|a: int, b: int|
                    0 <= a < b < txs.deep_view().len() ==> (#[trigger] txs.deep_view()[a]).tx_id
                        != (#[trigger] txs.deep_view()[b]).tx_id,
                n == txs.deep_view().len(),
                i <= n,
                old_r == old(self).persister.receives(),
                old_s == old(self).persister.sends(),
                old_t == old(self).persister.txs(),
                forall|m: int|
                    0 <= m < pending_receives.deep_view().len() ==> (
                    #[trigger] pending_receives.deep_view()[m]).state == PaymentState::Pending
                        && pending_receives.deep_view()[m].claim_tx_id is Some && exists|j: int|
                        0 <= j < old_r.len() && #[trigger] old_r[j]
                            == pending_receives.deep_view()[m],
                forall|j: int|
                    0 <= j < old_r.len() && (#[trigger] old_r[j]).state == PaymentState::Pending
                        && old_r[j].claim_tx_id is Some ==> pending_receives.deep_view().contains(
                        old_r[j],
                    ),
                forall|m: int|
                    0 <= m < pending_sends.deep_view().len() ==> (
                    #[trigger] pending_sends.deep_view()[m]).state == PaymentState::Pending
                        && pending_sends.deep_view()[m].refund_tx_id is Some && exists|j: int|
                        0 <= j < old_s.len() && #[trigger] old_s[j] == pending_sends.deep_view()[m],
                forall|j: int|
                    0 <= j < old_s.len() && (#[trigger] old_s[j]).state == PaymentState::Pending
                        && old_s[j].refund_tx_id is Some ==> pending_sends.deep_view().contains(
                        old_s[j],
                    ),
                self.wf(),
                self.same_config(old(self)),
                self.status_stream == old(self).status_stream,
                self.event_manager == old(self).event_manager,
                self.persister.receives().len() == old_r.len(),
                forall|j: int|
                    0 <= j < old_r.len() ==> #[trigger] self.persister.receives()[j]
                        == spec_receive_after_sync(old_r[j], txs.deep_view().take(i as int)),
                self.persister.sends().len() == old_s.len(),
                forall|j: int|
                    0 <= j < old_s.len() ==> #[trigger] self.persister.sends()[j]
                        == spec_send_after_sync(old_s[j], txs.deep_view().take(i as int)),
                self.persister.txs() == spec_txs_after_sync(old_t, txs.deep_view().take(i as int)),
                forall|k: int|
                    0 <= k < i ==> spec_find_tx(
                        self.persister.txs(),
                        (#[trigger] txs.deep_view()[k]).tx_id,
                    ) == Some(spec_wallet_row(txs.deep_view()[k])),
                forall|t: Seq<char>|
                    !spec_tx_id_in(txs.deep_view(), t) ==> #[trigger] spec_find_tx(
                        self.persister.txs(),
                        t,
                    ) == spec_find_tx(old(self).persister.txs(), t),
            decreases n - i,
        {
            let tx = &txs[i];
            let is_confirmed = tx.height.is_some();
            let ghost tid = txs.deep_view()[i as int].tx_id;
            let ghost mid = *self;
            if is_confirmed {
                proof {
                    assert forall|j: int|
                        0 <= j < old_r.len() implies #[trigger] self.persister.receives()[j]
                        == old_r[j] || self.persister.receives()[j] == spec_receive_updated(
                        old_r[j],
                        PaymentState::Complete,
                        None,
                    ) by {
                        assert(self.persister.receives()[j] == spec_receive_after_sync(
                            old_r[j],
                            txs.deep_view().take(i as int),
                        ));
                    }
                }
                self.complete_receives_for_tx(&pending_receives, tx.tx_id.as_str(), Ghost(old_r));
                proof {
                    assert forall|j: int|
                        0 <= j < old_s.len() implies #[trigger] self.persister.sends()[j]
                        == old_s[j] || self.persister.sends()[j] == spec_send_updated(
                        old_s[j],
                        PaymentState::Failed,
                        None,
                        None,
                        None,
                    ) by {
                        assert(self.persister.sends()[j] == spec_send_after_sync(
                            old_s[j],
                            txs.deep_view().take(i as int),
                        ));
                    }
                }
                let ghost mid2 = *self;
                self.fail_sends_for_tx(&pending_sends, tx.tx_id.as_str(), Ghost(old_s));
                proof {
                    assert forall|j: int|
                        0 <= j < old_r.len() implies #[trigger] self.persister.receives()[j]
                        == spec_receive_after_sync(old_r[j], txs.deep_view().take(i as int + 1)) by {
                        if old_r[j].claim_tx_id is Some {
                            lemma_confirmed_in_step(
                                txs.deep_view(),
                                i as int,
                                old_r[j].claim_tx_id->Some_0,
                            );
                        }
                        assert(mid.persister.receives()[j] == spec_receive_after_sync(
                            old_r[j],
                            txs.deep_view().take(i as int),
                        ));
                    }
                    assert forall|j: int|
                        0 <= j < old_s.len() implies #[trigger] self.persister.sends()[j]
                        == spec_send_after_sync(old_s[j], txs.deep_view().take(i as int + 1)) by {
                        if old_s[j].refund_tx_id is Some {
                            lemma_confirmed_in_step(
                                txs.deep_view(),
                                i as int,
                                old_s[j].refund_tx_id->Some_0,
                            );
                        }
                        assert(mid2.persister.sends()[j] == spec_send_after_sync(
                            old_s[j],
                            txs.deep_view().take(i as int),
                        ));
                    }
                }
            } else {
                proof {
                    assert forall|j: int|
                        0 <= j < old_r.len() implies #[trigger] self.persister.receives()[j]
                        == spec_receive_after_sync(old_r[j], txs.deep_view().take(i as int + 1)) by {
                        if old_r[j].claim_tx_id is Some {
                            lemma_confirmed_in_step(
                                txs.deep_view(),
                                i as int,
                                old_r[j].claim_tx_id->Some_0,
                            );
                        }
                        assert(self.persister.receives()[j] == spec_receive_after_sync(
                            old_r[j],
                            txs.deep_view().take(i as int),
                        ));
                    }
                    assert forall|j: int|
                        0 <= j < old_s.len() implies #[trigger] self.persister.sends()[j]
                        == spec_send_after_sync(old_s[j], txs.deep_view().take(i as int + 1)) by {
                        if old_s[j].refund_tx_id is Some {
                            lemma_confirmed_in_step(
                                txs.deep_view(),
                                i as int,
                                old_s[j].refund_tx_id->Some_0,
                            );
                        }
                        assert(self.persister.sends()[j] == spec_send_after_sync(
                            old_s[j],
                            txs.deep_view().take(i as int),
                        ));
                    }
                }
            }
            let amount_sat: u64 = if tx.balance_sat >= 0 {
                tx.balance_sat as u64
            } else {
                ((-(tx.balance_sat + 1)) as u64) + 1
            };
            let ghost txs_before = self.persister.txs();
            let row = crate::model::PaymentTxData {
                tx_id: tx.tx_id.clone(),
                timestamp: tx.timestamp,
                amount_sat,
                payment_type: if tx.balance_sat >= 0 {
                    PaymentType::Receive
                } else {
                    PaymentType::Send
                },
                is_confirmed,
            };
            let ghost row_view = row.deep_view();
            self.persister.insert_or_update_payment(row);
            proof {
                assert(row_view == spec_wallet_row(txs.deep_view()[i as int]));
                assert(txs.deep_view().take(i as int + 1).drop_last() =~= txs.deep_view().take(
                    i as int,
                ));
                assert(txs.deep_view().take(i as int + 1).last() == txs.deep_view()[i as int]);
                crate::persist::lemma_tx_upsert_find_self(txs_before, row_view);
                assert forall|k: int| 0 <= k < i + 1 implies spec_find_tx(
                    self.persister.txs(),
                    (#[trigger] txs.deep_view()[k]).tx_id,
                ) == Some(spec_wallet_row(txs.deep_view()[k])) by {
                    if k < i {
                        crate::persist::lemma_tx_upsert_find_other(
                            txs_before,
                            row_view,
                            txs.deep_view()[k].tx_id,
                        );
                    }
                }
                assert forall|t: Seq<char>| !spec_tx_id_in(txs.deep_view(), t) implies #[trigger] spec_find_tx(
                    self.persister.txs(),
                    t,
                ) == spec_find_tx(old(self).persister.txs(), t) by {
                    assert(txs.deep_view()[i as int].tx_id == tid);
                    crate::persist::lemma_tx_upsert_find_other(txs_before, row_view, t);
                }
            }
            i = i + 1;
        }
        proof {
            assert(txs.deep_view().take(n as int) =~= txs.deep_view());
            assert(self.persister.receives() =~= spec_receives_table_after_sync(
                old_r,
                txs.deep_view(),
            ));
            assert(self.persister.sends() =~= spec_sends_table_after_sync(old_s, txs.deep_view()));
        }
        // All state changes are committed; log the lifecycle events of
        // the completed claims and failed refunds against the final
        // tables, in listing order.
        let ghost fs = spec_sends_table_after_sync(old_s, txs.deep_view());
        let ghost fr = spec_receives_table_after_sync(old_r, txs.deep_view());
        let ghost ft = spec_txs_after_sync(old_t, txs.deep_view());
        let ghost snap_r = pending_receives.deep_view();
        let ghost base_r = self.event_manager.log();
        let ghost persister_settled = self.persister;
        let n_r = pending_receives.len();
        let mut m: usize = 0;
        proof {
            assert(snap_r.skip(0) =~= snap_r);
        }
        while m < n_r
            invariant
                n_r == snap_r.len(),
                m <= n_r,
                snap_r == pending_receives.deep_view(),
                self.wf(),
                self.same_config(old(self)),
                self.status_stream == old(self).status_stream,
                self.event_manager.ids() == old(self).event_manager.ids(),
                self.persister == persister_settled,
                persister_settled.sends() == fs,
                persister_settled.receives() == fr,
                persister_settled.txs() == ft,
                self.event_manager.log() + spec_sync_receive_events(
                    snap_r.skip(m as int),
                    txs.deep_view(),
                    fs,
                    fr,
                    ft,
                ) =~= base_r + spec_sync_receive_events(snap_r, txs.deep_view(), fs, fr, ft),
            decreases n_r - m,
        {
            proof {
                assert(snap_r.skip(m as int).first() == snap_r[m as int]);
                assert(snap_r.skip(m as int).drop_first() =~= snap_r.skip(m as int + 1));
            }
            let entry_claim = crate::model::clone_opt_string(&pending_receives[m].claim_tx_id);
            match &entry_claim {
                Some(c) => {
                    if wallet_tx_confirmed(txs, c.as_str()) {
                        self.emit_payment_updated(Some(c.as_str()));
                        proof {
                            assert(self.event_manager.log() + spec_sync_receive_events(
                                snap_r.skip(m as int + 1),
                                txs.deep_view(),
                                fs,
                                fr,
                                ft,
                            ) =~= base_r + spec_sync_receive_events(
                                snap_r,
                                txs.deep_view(),
                                fs,
                                fr,
                                ft,
                            ));
                        }
                    }
                },
                None => {},
            }
            m = m + 1;
        }
        proof {
            assert(snap_r.skip(n_r as int) =~= Seq::<ReceiveSwapV>::empty());
            assert(self.event_manager.log() + Seq::<LiquidSdkEventV>::empty()
                =~= self.event_manager.log());
        }
        let ghost snap_s = pending_sends.deep_view();
        let ghost base_s = self.event_manager.log();
        let n_s = pending_sends.len();
        let mut m2: usize = 0;
        proof {
            assert(snap_s.skip(0) =~= snap_s);
        }
        while m2 < n_s
            invariant
                n_s == snap_s.len(),
                m2 <= n_s,
                snap_s == pending_sends.deep_view(),
                self.wf(),
                self.same_config(old(self)),
                self.status_stream == old(self).status_stream,
                self.event_manager.ids() == old(self).event_manager.ids(),
                self.persister == persister_settled,
                persister_settled.sends() == fs,
                persister_settled.receives() == fr,
                persister_settled.txs() == ft,
                self.event_manager.log() + spec_sync_send_events(
                    snap_s.skip(m2 as int),
                    txs.deep_view(),
                    fs,
                    fr,
                    ft,
                ) =~= base_s + spec_sync_send_events(snap_s, txs.deep_view(), fs, fr, ft),
            decreases n_s - m2,
        {
            proof {
                assert(snap_s.skip(m2 as int).first() == snap_s[m2 as int]);
                assert(snap_s.skip(m2 as int).drop_first() =~= snap_s.skip(m2 as int + 1));
            }
            let entry_refund = crate::model::clone_opt_string(&pending_sends[m2].refund_tx_id);
            match &entry_refund {
                Some(c) => {
                    if wallet_tx_confirmed(txs, c.as_str()) {
                        self.emit_payment_updated(Some(c.as_str()));
                        proof {
                            assert(self.event_manager.log() + spec_sync_send_events(
                                snap_s.skip(m2 as int + 1),
                                txs.deep_view(),
                                fs,
                                fr,
                                ft,
                            ) =~= base_s + spec_sync_send_events(
                                snap_s,
                                txs.deep_view(),
                                fs,
                                fr,
                                ft,
                            ));
                        }
                    }
                },
                None => {},
            }
            m2 = m2 + 1;
        }
        proof {
            assert(snap_s.skip(n_s as int) =~= Seq::<SendSwapV>::empty());
            assert(self.event_manager.log() + Seq::<LiquidSdkEventV>::empty()
                =~= self.event_manager.log());
            assert(snap_r == crate::persist::spec_pending_claim_receives(old_r));
            assert(snap_s == crate::persist::spec_pending_refund_sends(old_s));
            assert(self.event_manager.log() =~= old(self).event_manager.log() + spec_sync_events(
                old_r,
                old_s,
                old_t,
                txs.deep_view(),
            ));
        }
        Ok(())
    }

    /// Runs a chain-data reconciliation pass and then logs a `Synced`
    /// event: the whole reconciliation contract of
    /// [`Self::sync_payments_with_chain_data`] is carried through — the
    /// appended log segment is exactly the pass's completion and
    /// failure events followed by `Synced` — and the call always
    /// succeeds.
    pub fn sync(&mut self, txs: &Vec<crate::model::WalletTx>) -> (r: Result<(), PaymentError>)
        requires
            old(self).wf(),
            forall|a: int, b: int|
                0 <= a < b < txs.deep_view().len() ==> (#[trigger] txs.deep_view()[a]).tx_id != (
                #[trigger] txs.deep_view()[b]).tx_id,
        ensures
            final(self).wf(),
            final(self).same_config(old(self)),
            final(self).status_stream == old(self).status_stream,
            final(self).event_manager.ids() == old(self).event_manager.ids(),
            final(self).event_manager.log() == old(self).event_manager.log() + spec_sync_events(
                old(self).persister.receives(),
                old(self).persister.sends(),
                old(self).persister.txs(),
                txs.deep_view(),
            ) + seq![LiquidSdkEventV::Synced],
            r is Ok,
            final(self).event_manager.log().len() > 0 && final(self).event_manager.log().last()
                == LiquidSdkEventV::Synced,
            final(self).persister.receives() == spec_receives_table_after_sync(
                old(self).persister.receives(),
                txs.deep_view(),
            ),
            forall|j: int|
                0 <= j < old(self).persister.receives().len()
                    ==> #[trigger] final(self).persister.receives()[j] == spec_receive_after_sync(
                    old(self).persister.receives()[j],
                    txs.deep_view(),
                ),
            final(self).persister.sends() == spec_sends_table_after_sync(
                old(self).persister.sends(),
                txs.deep_view(),
            ),
            forall|j: int|
                0 <= j < old(self).persister.sends().len()
                    ==> #[trigger] final(self).persister.sends()[j] == spec_send_after_sync(
                    old(self).persister.sends()[j],
                    txs.deep_view(),
                ),
            final(self).persister.txs() == spec_txs_after_sync(
                old(self).persister.txs(),
                txs.deep_view(),
            ),
            forall|k: int|
                0 <= k < txs.deep_view().len() ==> spec_find_tx(
                    final(self).persister.txs(),
                    (#[trigger] txs.deep_view()[k]).tx_id,
                ) == Some(spec_wallet_row(txs.deep_view()[k])),
            forall|t: Seq<char>|
                !spec_tx_id_in(txs.deep_view(), t) ==> #[trigger] spec_find_tx(
                    final(self).persister.txs(),
                    t,
                ) == spec_find_tx(old(self).persister.txs(), t),
    {
        match self.sync_payments_with_chain_data(txs) {
            Ok(()) => {},
            Err(e) => {
                return Err(e);
            },
        }
        let ghost mid = *self;
        self.event_manager.notify(LiquidSdkEvent::Synced);
        proof {
            assert(mid.event_manager.log() + seq![LiquidSdkEventV::Synced]
                =~= mid.event_manager.log().push(LiquidSdkEventV::Synced));
            assert(self.event_manager.log() =~= old(self).event_manager.log() + spec_sync_events(
                old(self).persister.receives(),
                old(self).persister.sends(),
                old(self).persister.txs(),
                txs.deep_view(),
            ) + seq![LiquidSdkEventV::Synced]);
        }
        Ok(())
    }
}

/// The stages of resolving a refund or a claim against the swapper.
#[derive(Clone, Copy, Debug, PartialEq, Eq, Structural)]
pub enum RefundStep {
    /// Ask the swapper to co-sign a key-path spend.
    TryCooperative,
    /// Sign the timelocked script path locally.
    TryUnilateral,
}

/// The next stage of the cooperative-first resolution: start
/// cooperatively; when the co-signing fails, fall back to the
/// unilateral script path; after that, or after a success, stop.
pub open spec fn spec_next_refund_step(step: RefundStep, sign_failed: bool) -> Option<RefundStep> {
    match step {
        RefundStep::TryCooperative => if sign_failed {
            Some(RefundStep::TryUnilateral)
        } else {
            None
        },
        RefundStep::TryUnilateral => None,
    }
}

/// Decides the next stage of a refund (or claim) signing round:
/// cooperative first, the timelocked unilateral path on a failed
/// co-sign, and done otherwise.
pub fn next_refund_step(step: RefundStep, sign_failed: bool) -> (r: Option<RefundStep>)
    ensures
        r == spec_next_refund_step(step, sign_failed),
{
    match step {
        RefundStep::TryCooperative => if sign_failed {
            Some(RefundStep::TryUnilateral)
        } else {
            None
        },
        RefundStep::TryUnilateral => None,
    }
}

/// Replaying the invoice-set status after its lockup was committed is a
/// no-op: the recorded lockup makes the Send decision `Ignore`, so the
/// store and the event log stay as they are.
pub proof fn lemma_idempotent_invoice_set(
    sends: Seq<SendSwapV>,
    id: Seq<char>,
    lockup_tx_id: Seq<char>,
)
    requires
        spec_find_send_by_id(sends, id) is Some,
    ensures
        spec_find_send_by_id(
            spec_send_swaps_updated(
                sends,
                id,
                PaymentState::Pending,
                None,
                Some(lockup_tx_id),
                None,
            ),
            id,
        ) matches Some(sw) && spec_send_status_action(sw, crate::model::SubSwapStates::InvoiceSet)
            == SendSwapAction::Ignore,
{
    crate::persist::lemma_send_update_find_same(
        sends,
        id,
        PaymentState::Pending,
        None,
        Some(lockup_tx_id),
        None,
    );
}

/// Replaying an unrecoverable status after the swap already failed is a
/// no-op: the second `Failed` update rewrites identical values, so the
/// store keeps its state and, since the validated update changes
/// nothing, no event is appended.
pub proof fn lemma_idempotent_failed_status(
    sends: Seq<SendSwapV>,
    receives: Seq<ReceiveSwapV>,
    txs: Seq<crate::model::PaymentTxDataV>,
    id: Seq<char>,
)
    ensures
        spec_receive_swaps_updated(
            spec_receive_swaps_updated(receives, id, PaymentState::Failed, None),
            id,
            PaymentState::Failed,
            None,
        ) =~= spec_receive_swaps_updated(receives, id, PaymentState::Failed, None),
        spec_receive_update_emitted(
            spec_receive_swaps_updated(receives, id, PaymentState::Failed, None),
            sends,
            txs,
            id,
            PaymentState::Failed,
            None,
        ) == Seq::<LiquidSdkEventV>::empty(),
        spec_send_update_emitted(
            spec_send_swaps_updated(sends, id, PaymentState::Failed, None, None, None),
            receives,
            txs,
            id,
            PaymentState::Failed,
            None,
            None,
            None,
        ) == Seq::<LiquidSdkEventV>::empty(),
{
    crate::persist::lemma_receive_failed_update_idempotent(receives, id);
    crate::persist::lemma_receive_update_find_same(receives, id, PaymentState::Failed, None);
    crate::persist::lemma_send_update_find_same(sends, id, PaymentState::Failed, None, None, None);
}

/// Replaying a lockup announcement after the claim was started is a
/// no-op: the recorded claim transaction makes the Receive swap count
/// as already claimed.
pub proof fn lemma_idempotent_receive_claim(
    receives: Seq<ReceiveSwapV>,
    id: Seq<char>,
    claim_tx_id: Seq<char>,
)
    requires
        spec_find_receive_by_id(receives, id) is Some,
    ensures
        spec_find_receive_by_id(
            spec_receive_swaps_updated(
                receives,
                id,
                PaymentState::Pending,
                Some(claim_tx_id),
            ),
            id,
        ) matches Some(sw) && sw.claim_tx_id is Some,
{
    crate::persist::lemma_receive_update_find_same(
        receives,
        id,
        PaymentState::Pending,
        Some(claim_tx_id),
    );
}

} // verus!



