//! The durable store of swap records and payment-transaction rows, and
//! the derived payment view.
//!
//! The store is held in memory as vectors with unique-identifier
//! invariants; the surrounding application copies it to and from disk.
//! Every state change of a swap record goes through the validated
//! read-modify-write updates here, which re-check the stored state, so a
//! record can only ever move along the allowed transitions, and each
//! transaction-id column is written at most once.

use vstd::prelude::*;

use crate::digest::spec_invoice_binding;
use crate::error::PaymentError;
use crate::model::PaymentState;
use crate::model::PaymentType;
use crate::model::PaymentV;
use crate::model::Payment;
use crate::model::PaymentTxData;
use crate::model::PaymentTxDataV;
use crate::model::ReceiveSwap;
use crate::model::ReceiveSwapV;
use crate::model::SendSwap;
use crate::model::SendSwapV;
use crate::model::Swap;
use crate::model::SwapV;
use crate::model::clone_opt_string;
use crate::model::transition_allowed;
use crate::utils::str_eq;

verus! {

broadcast use vstd::seq_lib::lemma_seq_contains_after_push;

/// The schema version that `init` migrates the store to.
pub const CURRENT_SCHEMA_VERSION: u32 = 1;

/// In-memory durable store: swap records by kind and one row per
/// observed Liquid transaction.
pub struct Persister {
    /// Path of the database file the surrounding application copies
    /// this store to and from.
    pub main_db_file: String,
    /// Last migration applied; `init` raises it to the current version.
    pub schema_version: u32,
    pub send_swaps: Vec<SendSwap>,
    pub receive_swaps: Vec<ReceiveSwap>,
    pub payments: Vec<PaymentTxData>,
}

/// The view of an optional new column value merged onto a stored one:
/// a column already set keeps its value, so it is written at most once.
pub open spec fn spec_merge_once(existing: Option<Seq<char>>, new_v: Option<Seq<char>>) -> Option<
    Seq<char>,
> {
    if existing is Some {
        existing
    } else {
        new_v
    }
}

/// The view of an optional borrowed string argument.
pub open spec fn spec_opt_str_view(o: Option<&str>) -> Option<Seq<char>> {
    match o {
        Some(s) => Some(s@),
        None => None,
    }
}

/// A Send record after a validated update: the state is replaced, the
/// write-once columns keep their first value.
pub open spec fn spec_send_updated(
    sw: SendSwapV,
    to_state: PaymentState,
    preimage: Option<Seq<char>>,
    lockup_tx_id: Option<Seq<char>>,
    refund_tx_id: Option<Seq<char>>,
) -> SendSwapV {
    SendSwapV {
        state: to_state,
        preimage: spec_merge_once(sw.preimage, preimage),
        lockup_tx_id: spec_merge_once(sw.lockup_tx_id, lockup_tx_id),
        refund_tx_id: spec_merge_once(sw.refund_tx_id, refund_tx_id),
        ..sw
    }
}

/// A Receive record after a validated update: the state is replaced, the
/// write-once claim column keeps its first value.
pub open spec fn spec_receive_updated(
    sw: ReceiveSwapV,
    to_state: PaymentState,
    claim_tx_id: Option<Seq<char>>,
) -> ReceiveSwapV {
    ReceiveSwapV { state: to_state, claim_tx_id: spec_merge_once(sw.claim_tx_id, claim_tx_id), ..sw }
}

/// The first Send record with the identifier, scanning from the front.
pub open spec fn spec_find_send_by_id(s: Seq<SendSwapV>, id: Seq<char>) -> Option<SendSwapV>
    decreases s.len(),
{
    if s.len() == 0 {
        None
    } else if s[0].id == id {
        Some(s[0])
    } else {
        spec_find_send_by_id(s.drop_first(), id)
    }
}

/// The first Receive record with the identifier, scanning from the
/// front.
pub open spec fn spec_find_receive_by_id(s: Seq<ReceiveSwapV>, id: Seq<char>) -> Option<
    ReceiveSwapV,
>
    decreases s.len(),
{
    if s.len() == 0 {
        None
    } else if s[0].id == id {
        Some(s[0])
    } else {
        spec_find_receive_by_id(s.drop_first(), id)
    }
}

/// The first ledger row with the transaction id, scanning from the
/// front.
pub open spec fn spec_find_tx(s: Seq<PaymentTxDataV>, tx_id: Seq<char>) -> Option<PaymentTxDataV>
    decreases s.len(),
{
    if s.len() == 0 {
        None
    } else if s[0].tx_id == tx_id {
        Some(s[0])
    } else {
        spec_find_tx(s.drop_first(), tx_id)
    }
}

/// The Send table after a validated update of the first record with the
/// identifier; without a match the table is unchanged.
pub open spec fn spec_send_swaps_updated(
    s: Seq<SendSwapV>,
    id: Seq<char>,
    to_state: PaymentState,
    preimage: Option<Seq<char>>,
    lockup_tx_id: Option<Seq<char>>,
    refund_tx_id: Option<Seq<char>>,
) -> Seq<SendSwapV>
    decreases s.len(),
{
    if s.len() == 0 {
        s
    } else if s[0].id == id {
        seq![spec_send_updated(s[0], to_state, preimage, lockup_tx_id, refund_tx_id)]
            + s.drop_first()
    } else {
        seq![s[0]] + spec_send_swaps_updated(
            s.drop_first(),
            id,
            to_state,
            preimage,
            lockup_tx_id,
            refund_tx_id,
        )
    }
}

/// The Receive table after a validated update of the first record with
/// the identifier; without a match the table is unchanged.
pub open spec fn spec_receive_swaps_updated(
    s: Seq<ReceiveSwapV>,
    id: Seq<char>,
    to_state: PaymentState,
    claim_tx_id: Option<Seq<char>>,
) -> Seq<ReceiveSwapV>
    decreases s.len(),
{
    if s.len() == 0 {
        s
    } else if s[0].id == id {
        seq![spec_receive_updated(s[0], to_state, claim_tx_id)] + s.drop_first()
    } else {
        seq![s[0]] + spec_receive_swaps_updated(s.drop_first(), id, to_state, claim_tx_id)
    }
}

/// The ledger after an upsert: the first row with the same transaction
/// id is replaced, or the row is appended.
pub open spec fn spec_txs_upserted(s: Seq<PaymentTxDataV>, row: PaymentTxDataV) -> Seq<
    PaymentTxDataV,
>
    decreases s.len(),
{
    if s.len() == 0 {
        seq![row]
    } else if s[0].tx_id == row.tx_id {
        seq![row] + s.drop_first()
    } else {
        seq![s[0]] + spec_txs_upserted(s.drop_first(), row)
    }
}

pub proof fn lemma_send_find_at(s: Seq<SendSwapV>, id: Seq<char>, i: int)
    requires
        0 <= i < s.len(),
        s[i].id == id,
        forall|k: int| 0 <= k < i ==> (#[trigger] s[k]).id != id,
    ensures
        spec_find_send_by_id(s, id) == Some(s[i]),
    decreases i,
{
    if i > 0 {
        lemma_send_find_at(s.drop_first(), id, i - 1);
    }
}

pub proof fn lemma_send_find_none(s: Seq<SendSwapV>, id: Seq<char>)
    requires
        forall|k: int| 0 <= k < s.len() ==> (#[trigger] s[k]).id != id,
    ensures
        spec_find_send_by_id(s, id) is None,
    decreases s.len(),
{
    if s.len() > 0 {
        lemma_send_find_none(s.drop_first(), id);
    }
}

pub proof fn lemma_send_update_at(
    s: Seq<SendSwapV>,
    id: Seq<char>,
    i: int,
    to_state: PaymentState,
    preimage: Option<Seq<char>>,
    lockup_tx_id: Option<Seq<char>>,
    refund_tx_id: Option<Seq<char>>,
)
    requires
        0 <= i < s.len(),
        s[i].id == id,
        forall|k: int| 0 <= k < i ==> (#[trigger] s[k]).id != id,
    ensures
        spec_send_swaps_updated(s, id, to_state, preimage, lockup_tx_id, refund_tx_id)
            =~= s.update(
            i,
            spec_send_updated(s[i], to_state, preimage, lockup_tx_id, refund_tx_id),
        ),
    decreases i,
{
    if i > 0 {
        lemma_send_update_at(s.drop_first(), id, i - 1, to_state, preimage, lockup_tx_id,
            refund_tx_id);
        assert(s.drop_first().update(
            i - 1,
            spec_send_updated(s[i], to_state, preimage, lockup_tx_id, refund_tx_id),
        ) =~= s.update(
            i,
            spec_send_updated(s[i], to_state, preimage, lockup_tx_id, refund_tx_id),
        ).drop_first());
    }
}

pub proof fn lemma_receive_find_at(s: Seq<ReceiveSwapV>, id: Seq<char>, i: int)
    requires
        0 <= i < s.len(),
        s[i].id == id,
        forall|k: int| 0 <= k < i ==> (#[trigger] s[k]).id != id,
    ensures
        spec_find_receive_by_id(s, id) == Some(s[i]),
    decreases i,
{
    if i > 0 {
        lemma_receive_find_at(s.drop_first(), id, i - 1);
    }
}

pub proof fn lemma_receive_find_none(s: Seq<ReceiveSwapV>, id: Seq<char>)
    requires
        forall|k: int| 0 <= k < s.len() ==> (#[trigger] s[k]).id != id,
    ensures
        spec_find_receive_by_id(s, id) is None,
    decreases s.len(),
{
    if s.len() > 0 {
        lemma_receive_find_none(s.drop_first(), id);
    }
}

pub proof fn lemma_receive_update_at(
    s: Seq<ReceiveSwapV>,
    id: Seq<char>,
    i: int,
    to_state: PaymentState,
    claim_tx_id: Option<Seq<char>>,
)
    requires
        0 <= i < s.len(),
        s[i].id == id,
        forall|k: int| 0 <= k < i ==> (#[trigger] s[k]).id != id,
    ensures
        spec_receive_swaps_updated(s, id, to_state, claim_tx_id) =~= s.update(
            i,
            spec_receive_updated(s[i], to_state, claim_tx_id),
        ),
    decreases i,
{
    if i > 0 {
        lemma_receive_update_at(s.drop_first(), id, i - 1, to_state, claim_tx_id);
        assert(s.drop_first().update(
            i - 1,
            spec_receive_updated(s[i], to_state, claim_tx_id),
        ) =~= s.update(i, spec_receive_updated(s[i], to_state, claim_tx_id)).drop_first());
    }
}

pub proof fn lemma_tx_find_at(s: Seq<PaymentTxDataV>, tx_id: Seq<char>, i: int)
    requires
        0 <= i < s.len(),
        s[i].tx_id == tx_id,
        forall|k: int| 0 <= k < i ==> (#[trigger] s[k]).tx_id != tx_id,
    ensures
        spec_find_tx(s, tx_id) == Some(s[i]),
    decreases i,
{
    if i > 0 {
        lemma_tx_find_at(s.drop_first(), tx_id, i - 1);
    }
}

pub proof fn lemma_tx_find_none(s: Seq<PaymentTxDataV>, tx_id: Seq<char>)
    requires
        forall|k: int| 0 <= k < s.len() ==> (#[trigger] s[k]).tx_id != tx_id,
    ensures
        spec_find_tx(s, tx_id) is None,
    decreases s.len(),
{
    if s.len() > 0 {
        lemma_tx_find_none(s.drop_first(), tx_id);
    }
}

pub proof fn lemma_tx_upsert_at(s: Seq<PaymentTxDataV>, row: PaymentTxDataV, i: int)
    requires
        0 <= i < s.len(),
        s[i].tx_id == row.tx_id,
        forall|k: int| 0 <= k < i ==> (#[trigger] s[k]).tx_id != row.tx_id,
    ensures
        spec_txs_upserted(s, row) =~= s.update(i, row),
    decreases i,
{
    if i > 0 {
        lemma_tx_upsert_at(s.drop_first(), row, i - 1);
        assert(s.drop_first().update(i - 1, row) =~= s.update(i, row).drop_first());
    }
}

pub proof fn lemma_tx_upsert_none(s: Seq<PaymentTxDataV>, row: PaymentTxDataV)
    requires
        forall|k: int| 0 <= k < s.len() ==> (#[trigger] s[k]).tx_id != row.tx_id,
    ensures
        spec_txs_upserted(s, row) =~= s.push(row),
    decreases s.len(),
{
    if s.len() > 0 {
        lemma_tx_upsert_none(s.drop_first(), row);
        assert(s.drop_first().push(row) =~= s.push(row).drop_first());
    }
}

/// An upsert makes its own row the one its transaction id finds.
pub proof fn lemma_tx_upsert_find_self(s: Seq<PaymentTxDataV>, row: PaymentTxDataV)
    ensures
        spec_find_tx(spec_txs_upserted(s, row), row.tx_id) == Some(row),
    decreases s.len(),
{
    if s.len() == 0 {
        let u = seq![row];
        assert(spec_txs_upserted(s, row) == u);
        assert(u[0] == row);
    } else if s[0].tx_id == row.tx_id {
        let u = seq![row] + s.drop_first();
        assert(spec_txs_upserted(s, row) == u);
        assert(u[0] == row);
    } else {
        lemma_tx_upsert_find_self(s.drop_first(), row);
        let u = seq![s[0]] + spec_txs_upserted(s.drop_first(), row);
        assert(spec_txs_upserted(s, row) == u);
        assert(u[0] == s[0]);
        assert(u.drop_first() =~= spec_txs_upserted(s.drop_first(), row));
    }
}

/// An upsert changes lookups of its own transaction id alone.
pub proof fn lemma_tx_upsert_find_other(
    s: Seq<PaymentTxDataV>,
    row: PaymentTxDataV,
    tx_id: Seq<char>,
)
    requires
        tx_id != row.tx_id,
    ensures
        spec_find_tx(spec_txs_upserted(s, row), tx_id) == spec_find_tx(s, tx_id),
    decreases s.len(),
{
    if s.len() > 0 {
        if s[0].tx_id == row.tx_id {
            let u = seq![row] + s.drop_first();
            assert(spec_txs_upserted(s, row) == u);
            assert(u[0] == row);
            assert(u.drop_first() =~= s.drop_first());
            assert(spec_find_tx(u, tx_id) == spec_find_tx(s.drop_first(), tx_id));
            assert(spec_find_tx(s, tx_id) == spec_find_tx(s.drop_first(), tx_id));
        } else {
            lemma_tx_upsert_find_other(s.drop_first(), row, tx_id);
            let u = seq![s[0]] + spec_txs_upserted(s.drop_first(), row);
            assert(spec_txs_upserted(s, row) == u);
            assert(u[0] == s[0]);
            assert(u.drop_first() =~= spec_txs_upserted(s.drop_first(), row));
            if s[0].tx_id == tx_id {
                assert(spec_find_tx(u, tx_id) == Some(s[0]));
                assert(spec_find_tx(s, tx_id) == Some(s[0]));
            } else {
                assert(spec_find_tx(u, tx_id) == spec_find_tx(
                    spec_txs_upserted(s.drop_first(), row),
                    tx_id,
                ));
                assert(spec_find_tx(s, tx_id) == spec_find_tx(s.drop_first(), tx_id));
            }
        }
    } else {
        let u = seq![row];
        assert(spec_txs_upserted(s, row) == u);
        assert(u[0] == row);
        assert(u.drop_first().len() == 0);
        assert(spec_find_tx(u.drop_first(), tx_id) is None);
        assert(spec_find_tx(u, tx_id) is None);
    }
}

/// An update keeps the table's length and identifiers, and changes at
/// most the records carrying the updated identifier, each by exactly the
/// record update.
pub proof fn lemma_send_update_pointwise(
    s: Seq<SendSwapV>,
    id: Seq<char>,
    to_state: PaymentState,
    preimage: Option<Seq<char>>,
    lockup_tx_id: Option<Seq<char>>,
    refund_tx_id: Option<Seq<char>>,
)
    ensures
        spec_send_swaps_updated(s, id, to_state, preimage, lockup_tx_id, refund_tx_id).len()
            == s.len(),
        forall|i: int|
            0 <= i < s.len() ==> {
                ||| #[trigger] spec_send_swaps_updated(
                    s,
                    id,
                    to_state,
                    preimage,
                    lockup_tx_id,
                    refund_tx_id,
                )[i] == s[i]
                ||| (s[i].id == id && spec_send_swaps_updated(
                    s,
                    id,
                    to_state,
                    preimage,
                    lockup_tx_id,
                    refund_tx_id,
                )[i] == spec_send_updated(s[i], to_state, preimage, lockup_tx_id, refund_tx_id))
            },
    decreases s.len(),
{
    if s.len() > 0 {
        let u = spec_send_swaps_updated(s, id, to_state, preimage, lockup_tx_id, refund_tx_id);
        if s[0].id == id {
            assert(u == seq![
                spec_send_updated(s[0], to_state, preimage, lockup_tx_id, refund_tx_id),
            ] + s.drop_first());
            assert(forall|i: int| 1 <= i < s.len() ==> u[i] == s.drop_first()[i - 1] && s[i]
                == s.drop_first()[i - 1]);
        } else {
            lemma_send_update_pointwise(s.drop_first(), id, to_state, preimage, lockup_tx_id,
                refund_tx_id);
            let ud = spec_send_swaps_updated(s.drop_first(), id, to_state, preimage, lockup_tx_id,
                refund_tx_id);
            assert(u == seq![s[0]] + ud);
            assert(forall|i: int| 1 <= i < s.len() ==> u[i] == ud[i - 1] && s[i]
                == s.drop_first()[i - 1]);
        }
    }
}

/// An update keeps the table's length and identifiers, and changes at
/// most the records carrying the updated identifier, each by exactly the
/// record update.
pub proof fn lemma_receive_update_pointwise(
    s: Seq<ReceiveSwapV>,
    id: Seq<char>,
    to_state: PaymentState,
    claim_tx_id: Option<Seq<char>>,
)
    ensures
        spec_receive_swaps_updated(s, id, to_state, claim_tx_id).len() == s.len(),
        forall|i: int|
            0 <= i < s.len() ==> {
                ||| #[trigger] spec_receive_swaps_updated(s, id, to_state, claim_tx_id)[i] == s[i]
                ||| (s[i].id == id && spec_receive_swaps_updated(s, id, to_state, claim_tx_id)[i]
                    == spec_receive_updated(s[i], to_state, claim_tx_id))
            },
    decreases s.len(),
{
    if s.len() > 0 {
        let u = spec_receive_swaps_updated(s, id, to_state, claim_tx_id);
        if s[0].id == id {
            assert(u == seq![spec_receive_updated(s[0], to_state, claim_tx_id)] + s.drop_first());
            assert(forall|i: int| 1 <= i < s.len() ==> u[i] == s.drop_first()[i - 1] && s[i]
                == s.drop_first()[i - 1]);
        } else {
            lemma_receive_update_pointwise(s.drop_first(), id, to_state, claim_tx_id);
            let ud = spec_receive_swaps_updated(s.drop_first(), id, to_state, claim_tx_id);
            assert(u == seq![s[0]] + ud);
            assert(forall|i: int| 1 <= i < s.len() ==> u[i] == ud[i - 1] && s[i]
                == s.drop_first()[i - 1]);
        }
    }
}

/// Well-formedness of one Send record: the payer amount covers the
/// receiver amount; a stored preimage is bound to the stored invoice;
/// a `Complete` record always carries its preimage.
pub open spec fn spec_send_swap_wf(sw: SendSwapV) -> bool {
    &&& sw.payer_amount_sat >= sw.receiver_amount_sat
    &&& (sw.preimage matches Some(p) ==> spec_invoice_binding(sw.invoice, p))
    &&& (sw.state == PaymentState::Complete ==> sw.preimage is Some)
}

/// Well-formedness of one Receive record: the payer amount covers the
/// receiver amount and the locally generated preimage is bound to the
/// swapper's HODL invoice.
pub open spec fn spec_receive_swap_wf(sw: ReceiveSwapV) -> bool {
    &&& sw.payer_amount_sat >= sw.receiver_amount_sat
    &&& spec_invoice_binding(sw.invoice, sw.preimage)
}

pub open spec fn spec_unique_send_ids(s: Seq<SendSwapV>) -> bool {
    forall|i: int, j: int|
        0 <= i < s.len() && 0 <= j < s.len() && i != j ==> (#[trigger] s[i]).id != (
        #[trigger] s[j]).id
}

pub open spec fn spec_unique_receive_ids(s: Seq<ReceiveSwapV>) -> bool {
    forall|i: int, j: int|
        0 <= i < s.len() && 0 <= j < s.len() && i != j ==> (#[trigger] s[i]).id != (
        #[trigger] s[j]).id
}

pub open spec fn spec_unique_tx_ids(s: Seq<PaymentTxDataV>) -> bool {
    forall|i: int, j: int|
        0 <= i < s.len() && 0 <= j < s.len() && i != j ==> (#[trigger] s[i]).tx_id != (
        #[trigger] s[j]).tx_id
}

impl Persister {
    /// The Send records as a sequence of views.
    pub open spec fn sends(&self) -> Seq<SendSwapV> {
        self.send_swaps.deep_view()
    }

    /// The Receive records as a sequence of views.
    pub open spec fn receives(&self) -> Seq<ReceiveSwapV> {
        self.receive_swaps.deep_view()
    }

    /// The payment-transaction rows as a sequence of views.
    pub open spec fn txs(&self) -> Seq<PaymentTxDataV> {
        self.payments.deep_view()
    }

    /// Store invariant: identifiers are unique per table and every
    /// record is well-formed.
    pub open spec fn wf(&self) -> bool {
        &&& spec_unique_send_ids(self.sends())
        &&& spec_unique_receive_ids(self.receives())
        &&& spec_unique_tx_ids(self.txs())
        &&& forall|i: int| 0 <= i < self.sends().len() ==> spec_send_swap_wf(#[trigger] self.sends()[i])
        &&& forall|i: int|
            0 <= i < self.receives().len() ==> spec_receive_swap_wf(#[trigger] self.receives()[i])
    }

    /// Opens a store rooted in the given working directory.
    pub fn new(working_dir: &str, _network: crate::model::Network) -> (r: Persister)
        ensures
            r.wf(),
            r.sends() =~= Seq::<SendSwapV>::empty(),
            r.receives() =~= Seq::<ReceiveSwapV>::empty(),
            r.txs() =~= Seq::<PaymentTxDataV>::empty(),
            r.schema_version == 0,
            r.main_db_file@ == working_dir@ + "/storage.sql"@,
    {
        Persister {
            main_db_file: working_dir.to_owned().concat("/storage.sql"),
            schema_version: 0,
            send_swaps: Vec::new(),
            receive_swaps: Vec::new(),
            payments: Vec::new(),
        }
    }

    /// Runs the pending schema migrations; idempotent, and the stored
    /// records are untouched.
    pub fn init(&mut self)
        requires
            old(self).wf(),
        ensures
            final(self).wf(),
            final(self).schema_version == CURRENT_SCHEMA_VERSION,
            final(self).sends() == old(self).sends(),
            final(self).receives() == old(self).receives(),
            final(self).txs() == old(self).txs(),
            final(self).main_db_file == old(self).main_db_file,
    {
        self.schema_version = CURRENT_SCHEMA_VERSION;
    }

    /// Finds the position of a Send record by identifier.
    fn find_send_index(&self, id: &str) -> (r: Option<usize>)
        ensures
            match r {
                Some(i) => i < self.sends().len() && self.sends()[i as int].id == id@ && forall|
                    k: int,
                | 0 <= k < i ==> (#[trigger] self.sends()[k]).id != id@,
                None => forall|k: int|
                    0 <= k < self.sends().len() ==> (#[trigger] self.sends()[k]).id != id@,
            },
    {
        let n = self.send_swaps.len();
        let mut i: usize = 0;
        while i < n
            invariant
                n == self.sends().len(),
                i <= n,
                forall|k: int| 0 <= k < i ==> (#[trigger] self.sends()[k]).id != id@,
            decreases n - i,
        {
            if str_eq(self.send_swaps[i].id.as_str(), id) {
                return Some(i);
            }
            i = i + 1;
        }
        None
    }

    /// Finds the position of a Receive record by identifier.
    fn find_receive_index(&self, id: &str) -> (r: Option<usize>)
        ensures
            match r {
                Some(i) => i < self.receives().len() && self.receives()[i as int].id == id@
                    && forall|k: int| 0 <= k < i ==> (#[trigger] self.receives()[k]).id != id@,
                None => forall|k: int|
                    0 <= k < self.receives().len() ==> (#[trigger] self.receives()[k]).id != id@,
            },
    {
        let n = self.receive_swaps.len();
        let mut i: usize = 0;
        while i < n
            invariant
                n == self.receives().len(),
                i <= n,
                forall|k: int| 0 <= k < i ==> (#[trigger] self.receives()[k]).id != id@,
            decreases n - i,
        {
            if str_eq(self.receive_swaps[i].id.as_str(), id) {
                return Some(i);
            }
            i = i + 1;
        }
        None
    }

    /// Looks a Send record up by identifier.
    pub fn fetch_send_swap(&self, id: &str) -> (r: Option<&SendSwap>)
        ensures
            match r {
                Some(sw) => spec_find_send_by_id(self.sends(), id@) == Some(sw.deep_view())
                    && sw.deep_view().id == id@,
                None => spec_find_send_by_id(self.sends(), id@) is None,
            },
    {
        match self.find_send_index(id) {
            Some(i) => {
                proof {
                    lemma_send_find_at(self.sends(), id@, i as int);
                }
                Some(&self.send_swaps[i])
            },
            None => {
                proof {
                    lemma_send_find_none(self.sends(), id@);
                }
                None
            },
        }
    }

    /// Looks a Receive record up by identifier.
    pub fn fetch_receive_swap(&self, id: &str) -> (r: Option<&ReceiveSwap>)
        ensures
            match r {
                Some(sw) => spec_find_receive_by_id(self.receives(), id@) == Some(sw.deep_view())
                    && sw.deep_view().id == id@,
                None => spec_find_receive_by_id(self.receives(), id@) is None,
            },
    {
        match self.find_receive_index(id) {
            Some(i) => {
                proof {
                    lemma_receive_find_at(self.receives(), id@, i as int);
                }
                Some(&self.receive_swaps[i])
            },
            None => {
                proof {
                    lemma_receive_find_none(self.receives(), id@);
                }
                None
            },
        }
    }

    /// Inserts a fresh Send record; fails when the identifier exists.
    pub(crate) fn insert_send_swap(&mut self, swap: SendSwap) -> (r: Result<(), PaymentError>)
        requires
            old(self).wf(),
            swap.state == PaymentState::Created,
            swap.lockup_tx_id is None,
            swap.refund_tx_id is None,
            swap.preimage is None,
            swap.payer_amount_sat >= swap.receiver_amount_sat,
        ensures
            final(self).wf(),
            r is Ok <==> spec_find_send_by_id(old(self).sends(), swap.deep_view().id) is None,
            r is Ok ==> final(self).sends() == old(self).sends().push(swap.deep_view()),
            r is Err ==> final(self).sends() == old(self).sends() && r == Err::<(), PaymentError>(
                PaymentError::PersistError,
            ),
            final(self).receives() == old(self).receives(),
            final(self).txs() == old(self).txs(),
            final(self).schema_version == old(self).schema_version,
            final(self).main_db_file == old(self).main_db_file,
    {
        match self.find_send_index(swap.id.as_str()) {
            Some(i) => {
                proof {
                    lemma_send_find_at(self.sends(), swap.deep_view().id, i as int);
                }
                Err(PaymentError::PersistError)
            },
            None => {
                proof {
                    lemma_send_find_none(self.sends(), swap.deep_view().id);
                }
                self.send_swaps.push(swap);
                proof {
                    assert(self.sends() =~= old(self).sends().push(swap.deep_view()));
                }
                Ok(())
            },
        }
    }

    /// Inserts a fresh Receive record; fails when the identifier exists.
    pub(crate) fn insert_receive_swap(&mut self, swap: ReceiveSwap) -> (r: Result<
        (),
        PaymentError,
    >)
        requires
            old(self).wf(),
            swap.state == PaymentState::Created,
            swap.claim_tx_id is None,
            swap.payer_amount_sat >= swap.receiver_amount_sat,
            spec_invoice_binding(swap.deep_view().invoice, swap.deep_view().preimage),
        ensures
            final(self).wf(),
            r is Ok <==> spec_find_receive_by_id(old(self).receives(), swap.deep_view().id) is None,
            r is Ok ==> final(self).receives() == old(self).receives().push(swap.deep_view()),
            r is Err ==> final(self).receives() == old(self).receives() && r == Err::<(), PaymentError>(
                PaymentError::PersistError,
            ),
            final(self).sends() == old(self).sends(),
            final(self).txs() == old(self).txs(),
            final(self).schema_version == old(self).schema_version,
            final(self).main_db_file == old(self).main_db_file,
    {
        match self.find_receive_index(swap.id.as_str()) {
            Some(i) => {
                proof {
                    lemma_receive_find_at(self.receives(), swap.deep_view().id, i as int);
                }
                Err(PaymentError::PersistError)
            },
            None => {
                proof {
                    lemma_receive_find_none(self.receives(), swap.deep_view().id);
                }
                self.receive_swaps.push(swap);
                proof {
                    assert(self.receives() =~= old(self).receives().push(swap.deep_view()));
                }
                Ok(())
            },
        }
    }

    /// Atomically transitions a Send record: re-checks the stored state
    /// against the target, replaces the state and merges the write-once
    /// columns. Fails when the record is missing or the transition is
    /// not allowed, leaving the store unchanged.
    pub(crate) fn try_handle_send_swap_update(
        &mut self,
        swap_id: &str,
        to_state: PaymentState,
        preimage: Option<&str>,
        lockup_tx_id: Option<&str>,
        refund_tx_id: Option<&str>,
    ) -> (r: Result<(), PaymentError>)
        requires
            old(self).wf(),
            preimage matches Some(p) ==> (spec_find_send_by_id(old(self).sends(), swap_id@)
                matches Some(sw) ==> spec_invoice_binding(sw.invoice, p@)),
            to_state == PaymentState::Complete ==> preimage is Some,
        ensures
            final(self).wf(),
            r is Ok <==> (spec_find_send_by_id(old(self).sends(), swap_id@) matches Some(sw)
                && transition_allowed(sw.state, to_state)),
            r is Ok ==> final(self).sends() == spec_send_swaps_updated(
                old(self).sends(),
                swap_id@,
                to_state,
                spec_opt_str_view(preimage),
                spec_opt_str_view(lockup_tx_id),
                spec_opt_str_view(refund_tx_id),
            ),
            r is Err ==> *final(self) == *old(self) && r->Err_0 is Generic,
            final(self).receives() == old(self).receives(),
            final(self).txs() == old(self).txs(),
            final(self).schema_version == old(self).schema_version,
            final(self).main_db_file == old(self).main_db_file,
    {
        let i = match self.find_send_index(swap_id) {
            Some(i) => i,
            None => {
                proof {
                    lemma_send_find_none(self.sends(), swap_id@);
                }
                return Err(PaymentError::Generic { err: "Send Swap not found".to_owned() });
            },
        };
        proof {
            lemma_send_find_at(self.sends(), swap_id@, i as int);
            lemma_send_update_at(
                self.sends(),
                swap_id@,
                i as int,
                to_state,
                spec_opt_str_view(preimage),
                spec_opt_str_view(lockup_tx_id),
                spec_opt_str_view(refund_tx_id),
            );
        }
        if !transition_ok(self.send_swaps[i].state, to_state) {
            return Err(PaymentError::invalid_transition(to_state));
        }
        let old_sw = self.send_swaps.remove(i);
        let ghost old_view = old_sw.deep_view();
        let updated = SendSwap {
            state: to_state,
            preimage: merge_once(old_sw.preimage, preimage),
            lockup_tx_id: merge_once(old_sw.lockup_tx_id, lockup_tx_id),
            refund_tx_id: merge_once(old_sw.refund_tx_id, refund_tx_id),
            id: old_sw.id,
            invoice: old_sw.invoice,
            payer_amount_sat: old_sw.payer_amount_sat,
            receiver_amount_sat: old_sw.receiver_amount_sat,
            create_response_blob: old_sw.create_response_blob,
            created_at: old_sw.created_at,
        };
        self.send_swaps.insert(i, updated);
        proof {
            assert(self.sends() =~= old(self).sends().update(
                i as int,
                spec_send_updated(
                    old_view,
                    to_state,
                    spec_opt_str_view(preimage),
                    spec_opt_str_view(lockup_tx_id),
                    spec_opt_str_view(refund_tx_id),
                ),
            ));
        }
        Ok(())
    }

    /// Atomically transitions a Receive record: re-checks the stored
    /// state against the target, replaces the state and merges the
    /// write-once claim column. Fails when the record is missing or the
    /// transition is not allowed, leaving the store unchanged.
    pub(crate) fn try_handle_receive_swap_update(
        &mut self,
        swap_id: &str,
        to_state: PaymentState,
        claim_tx_id: Option<&str>,
    ) -> (r: Result<(), PaymentError>)
        requires
            old(self).wf(),
        ensures
            final(self).wf(),
            r is Ok <==> (spec_find_receive_by_id(old(self).receives(), swap_id@) matches Some(sw)
                && transition_allowed(sw.state, to_state)),
            r is Ok ==> final(self).receives() == spec_receive_swaps_updated(
                old(self).receives(),
                swap_id@,
                to_state,
                spec_opt_str_view(claim_tx_id),
            ),
            r is Err ==> *final(self) == *old(self) && r->Err_0 is Generic,
            final(self).sends() == old(self).sends(),
            final(self).txs() == old(self).txs(),
            final(self).schema_version == old(self).schema_version,
            final(self).main_db_file == old(self).main_db_file,
    {
        let i = match self.find_receive_index(swap_id) {
            Some(i) => i,
            None => {
                proof {
                    lemma_receive_find_none(self.receives(), swap_id@);
                }
                return Err(PaymentError::Generic { err: "Receive Swap not found".to_owned() });
            },
        };
        proof {
            lemma_receive_find_at(self.receives(), swap_id@, i as int);
            lemma_receive_update_at(
                self.receives(),
                swap_id@,
                i as int,
                to_state,
                spec_opt_str_view(claim_tx_id),
            );
        }
        if !transition_ok(self.receive_swaps[i].state, to_state) {
            return Err(PaymentError::invalid_transition(to_state));
        }
        let old_sw = self.receive_swaps.remove(i);
        let ghost old_view = old_sw.deep_view();
        let updated = ReceiveSwap {
            state: to_state,
            claim_tx_id: merge_once(old_sw.claim_tx_id, claim_tx_id),
            id: old_sw.id,
            preimage: old_sw.preimage,
            create_response_blob: old_sw.create_response_blob,
            invoice: old_sw.invoice,
            payer_amount_sat: old_sw.payer_amount_sat,
            receiver_amount_sat: old_sw.receiver_amount_sat,
            claim_fees_sat: old_sw.claim_fees_sat,
            created_at: old_sw.created_at,
        };
        self.receive_swaps.insert(i, updated);
        proof {
            assert(self.receives() =~= old(self).receives().update(
                i as int,
                spec_receive_updated(old_view, to_state, spec_opt_str_view(claim_tx_id)),
            ));
        }
        Ok(())
    }
}

// ---------------------------------------------------------------------
// The derived payment view
// ---------------------------------------------------------------------

/// Whether a Send record owns a transaction: the row is its lockup or
/// its refund transaction.
pub open spec fn spec_send_tx_match(sw: SendSwapV, tx_id: Seq<char>) -> bool {
    sw.lockup_tx_id == Some(tx_id) || sw.refund_tx_id == Some(tx_id)
}

/// Whether a Receive record owns a transaction: the row is its claim
/// transaction.
pub open spec fn spec_receive_tx_match(sw: ReceiveSwapV, tx_id: Seq<char>) -> bool {
    sw.claim_tx_id == Some(tx_id)
}

/// The first Send record owning the transaction, scanning from the
/// front.
pub open spec fn spec_find_send_by_tx(s: Seq<SendSwapV>, tx_id: Seq<char>) -> Option<SendSwapV>
    decreases s.len(),
{
    if s.len() == 0 {
        None
    } else if spec_send_tx_match(s[0], tx_id) {
        Some(s[0])
    } else {
        spec_find_send_by_tx(s.drop_first(), tx_id)
    }
}

/// The first Receive record owning the transaction, scanning from the
/// front.
pub open spec fn spec_find_receive_by_tx(s: Seq<ReceiveSwapV>, tx_id: Seq<char>) -> Option<
    ReceiveSwapV,
>
    decreases s.len(),
{
    if s.len() == 0 {
        None
    } else if spec_receive_tx_match(s[0], tx_id) {
        Some(s[0])
    } else {
        spec_find_receive_by_tx(s.drop_first(), tx_id)
    }
}

/// A found Send record is one of the stored records.
pub proof fn lemma_find_send_by_tx_member(s: Seq<SendSwapV>, tx_id: Seq<char>)
    requires
        spec_find_send_by_tx(s, tx_id) is Some,
    ensures
        exists|i: int|
            0 <= i < s.len() && #[trigger] s[i] == spec_find_send_by_tx(s, tx_id)->Some_0,
    decreases s.len(),
{
    if s.len() > 0 && !spec_send_tx_match(s[0], tx_id) {
        lemma_find_send_by_tx_member(s.drop_first(), tx_id);
        let v = spec_find_send_by_tx(s, tx_id)->Some_0;
        let i = choose|i: int| 0 <= i < s.drop_first().len() && #[trigger] s.drop_first()[i] == v;
        assert(s[i + 1] == v);
    }
}

/// A found Receive record is one of the stored records.
pub proof fn lemma_find_receive_by_tx_member(s: Seq<ReceiveSwapV>, tx_id: Seq<char>)
    requires
        spec_find_receive_by_tx(s, tx_id) is Some,
    ensures
        exists|i: int|
            0 <= i < s.len() && #[trigger] s[i] == spec_find_receive_by_tx(s, tx_id)->Some_0,
    decreases s.len(),
{
    if s.len() > 0 && !spec_receive_tx_match(s[0], tx_id) {
        lemma_find_receive_by_tx_member(s.drop_first(), tx_id);
        let v = spec_find_receive_by_tx(s, tx_id)->Some_0;
        let i = choose|i: int| 0 <= i < s.drop_first().len() && #[trigger] s.drop_first()[i] == v;
        assert(s[i + 1] == v);
    }
}

/// A row's timestamp, or zero while it has none.
pub open spec fn spec_timestamp_or_zero(t: Option<u32>) -> u32 {
    match t {
        Some(v) => v,
        None => 0,
    }
}

/// The derived payment view of one ledger row: the row joined with the
/// first swap record owning its transaction, Send records first. A
/// joined row takes the swap's identifier, fee total and state; a row
/// owned by no swap is `Complete` when confirmed and `Pending`
/// otherwise. When the row is a Send record's refund transaction, the
/// row's amount is exposed as the refunded amount.
pub open spec fn spec_payment_of(
    sends: Seq<SendSwapV>,
    receives: Seq<ReceiveSwapV>,
    t: PaymentTxDataV,
) -> PaymentV {
    match spec_find_send_by_tx(sends, t.tx_id) {
        Some(sw) => PaymentV {
            tx_id: t.tx_id,
            swap_id: Some(sw.id),
            timestamp: spec_timestamp_or_zero(t.timestamp),
            amount_sat: t.amount_sat,
            fees_sat: Some((sw.payer_amount_sat - sw.receiver_amount_sat) as u64),
            preimage: sw.preimage,
            refund_tx_id: sw.refund_tx_id,
            refund_tx_amount_sat: if sw.refund_tx_id == Some(t.tx_id) {
                Some(t.amount_sat)
            } else {
                None
            },
            payment_type: PaymentType::Send,
            status: sw.state,
        },
        None => match spec_find_receive_by_tx(receives, t.tx_id) {
            Some(sw) => PaymentV {
                tx_id: t.tx_id,
                swap_id: Some(sw.id),
                timestamp: spec_timestamp_or_zero(t.timestamp),
                amount_sat: t.amount_sat,
                fees_sat: Some((sw.payer_amount_sat - sw.receiver_amount_sat) as u64),
                preimage: Some(sw.preimage),
                refund_tx_id: None,
                refund_tx_amount_sat: None,
                payment_type: PaymentType::Receive,
                status: sw.state,
            },
            None => PaymentV {
                tx_id: t.tx_id,
                swap_id: None,
                timestamp: spec_timestamp_or_zero(t.timestamp),
                amount_sat: t.amount_sat,
                fees_sat: None,
                preimage: None,
                refund_tx_id: None,
                refund_tx_amount_sat: None,
                payment_type: t.payment_type,
                status: if t.is_confirmed {
                    PaymentState::Complete
                } else {
                    PaymentState::Pending
                },
            },
        },
    }
}

/// The derived payment view of a whole store, one payment per ledger
/// row, in ledger order.
pub open spec fn spec_payments_view(
    sends: Seq<SendSwapV>,
    receives: Seq<ReceiveSwapV>,
    txs: Seq<PaymentTxDataV>,
) -> Seq<PaymentV> {
    txs.map_values(|t: PaymentTxDataV| spec_payment_of(sends, receives, t))
}

/// The `Pending` Send records whose refund transaction is known, in
/// table order.
pub open spec fn spec_pending_refund_sends(s: Seq<SendSwapV>) -> Seq<SendSwapV>
    decreases s.len(),
{
    if s.len() == 0 {
        Seq::empty()
    } else {
        (if s[0].state == PaymentState::Pending && s[0].refund_tx_id is Some {
            seq![s[0]]
        } else {
            Seq::empty()
        }) + spec_pending_refund_sends(s.drop_first())
    }
}

/// The `Pending` Receive records whose claim transaction is known, in
/// table order.
pub open spec fn spec_pending_claim_receives(s: Seq<ReceiveSwapV>) -> Seq<ReceiveSwapV>
    decreases s.len(),
{
    if s.len() == 0 {
        Seq::empty()
    } else {
        (if s[0].state == PaymentState::Pending && s[0].claim_tx_id is Some {
            seq![s[0]]
        } else {
            Seq::empty()
        }) + spec_pending_claim_receives(s.drop_first())
    }
}

/// Whether a swap state counts as ongoing.
pub open spec fn spec_is_ongoing(state: PaymentState) -> bool {
    state == PaymentState::Created || state == PaymentState::Pending
}

impl Persister {
    fn find_payment_index(&self, tx_id: &str) -> (r: Option<usize>)
        ensures
            match r {
                Some(i) => i < self.txs().len() && self.txs()[i as int].tx_id == tx_id@ && forall|
                    k: int,
                | 0 <= k < i ==> (#[trigger] self.txs()[k]).tx_id != tx_id@,
                None => forall|k: int|
                    0 <= k < self.txs().len() ==> (#[trigger] self.txs()[k]).tx_id != tx_id@,
            },
    {
        let n = self.payments.len();
        let mut i: usize = 0;
        while i < n
            invariant
                n == self.txs().len(),
                i <= n,
                forall|k: int| 0 <= k < i ==> (#[trigger] self.txs()[k]).tx_id != tx_id@,
            decreases n - i,
        {
            if str_eq(self.payments[i].tx_id.as_str(), tx_id) {
                return Some(i);
            }
            i = i + 1;
        }
        None
    }

    /// Upserts a ledger row, keyed on its transaction id.
    pub(crate) fn insert_or_update_payment(&mut self, ptd: PaymentTxData)
        requires
            old(self).wf(),
        ensures
            final(self).wf(),
            final(self).txs() == spec_txs_upserted(old(self).txs(), ptd.deep_view()),
            final(self).sends() == old(self).sends(),
            final(self).receives() == old(self).receives(),
            final(self).schema_version == old(self).schema_version,
            final(self).main_db_file == old(self).main_db_file,
    {
        match self.find_payment_index(ptd.tx_id.as_str()) {
            Some(i) => {
                proof {
                    lemma_tx_upsert_at(self.txs(), ptd.deep_view(), i as int);
                }
                let _ = self.payments.remove(i);
                self.payments.insert(i, ptd);
                proof {
                    assert(self.txs() =~= old(self).txs().update(i as int, ptd.deep_view()));
                }
            },
            None => {
                proof {
                    lemma_tx_upsert_none(self.txs(), ptd.deep_view());
                }
                self.payments.push(ptd);
                proof {
                    assert(self.txs() =~= old(self).txs().push(ptd.deep_view()));
                }
            },
        }
    }

    fn find_send_by_tx(&self, tx_id: &str) -> (r: Option<&SendSwap>)
        ensures
            match r {
                Some(sw) => spec_find_send_by_tx(self.sends(), tx_id@) == Some(sw.deep_view()),
                None => spec_find_send_by_tx(self.sends(), tx_id@) is None,
            },
    {
        let n = self.send_swaps.len();
        let mut i: usize = 0;
        proof {
            assert(self.sends().skip(0) =~= self.sends());
        }
        while i < n
            invariant
                n == self.sends().len(),
                i <= n,
                spec_find_send_by_tx(self.sends(), tx_id@) == spec_find_send_by_tx(
                    self.sends().skip(i as int),
                    tx_id@,
                ),
            decreases n - i,
        {
            proof {
                assert(self.sends().skip(i as int)[0] == self.sends()[i as int]);
                assert(self.sends().skip(i as int).drop_first() =~= self.sends().skip(i as int + 1));
            }
            let sw = &self.send_swaps[i];
            let hit = match &sw.lockup_tx_id {
                Some(t) => str_eq(t.as_str(), tx_id),
                None => false,
            } || match &sw.refund_tx_id {
                Some(t) => str_eq(t.as_str(), tx_id),
                None => false,
            };
            if hit {
                return Some(sw);
            }
            i = i + 1;
        }
        None
    }

    fn find_receive_by_tx(&self, tx_id: &str) -> (r: Option<&ReceiveSwap>)
        ensures
            match r {
                Some(sw) => spec_find_receive_by_tx(self.receives(), tx_id@) == Some(
                    sw.deep_view(),
                ),
                None => spec_find_receive_by_tx(self.receives(), tx_id@) is None,
            },
    {
        let n = self.receive_swaps.len();
        let mut i: usize = 0;
        proof {
            assert(self.receives().skip(0) =~= self.receives());
        }
        while i < n
            invariant
                n == self.receives().len(),
                i <= n,
                spec_find_receive_by_tx(self.receives(), tx_id@) == spec_find_receive_by_tx(
                    self.receives().skip(i as int),
                    tx_id@,
                ),
            decreases n - i,
        {
            proof {
                assert(self.receives().skip(i as int)[0] == self.receives()[i as int]);
                assert(self.receives().skip(i as int).drop_first() =~= self.receives().skip(
                    i as int + 1,
                ));
            }
            let sw = &self.receive_swaps[i];
            let hit = match &sw.claim_tx_id {
                Some(t) => str_eq(t.as_str(), tx_id),
                None => false,
            };
            if hit {
                return Some(sw);
            }
            i = i + 1;
        }
        None
    }

    /// Builds the derived payment view of one ledger row.
    fn payment_of(&self, ptd: &PaymentTxData) -> (r: Payment)
        requires
            self.wf(),
        ensures
            r.deep_view() == spec_payment_of(self.sends(), self.receives(), ptd.deep_view()),
    {
        let timestamp = match ptd.timestamp {
            Some(t) => t,
            None => 0,
        };
        if let Some(sw) = self.find_send_by_tx(ptd.tx_id.as_str()) {
            proof {
                lemma_find_send_by_tx_member(self.sends(), ptd.deep_view().tx_id);
            }
            let refund_tx_amount_sat = match &sw.refund_tx_id {
                Some(t) => if str_eq(t.as_str(), ptd.tx_id.as_str()) {
                    Some(ptd.amount_sat)
                } else {
                    None
                },
                None => None,
            };
            Payment {
                tx_id: ptd.tx_id.clone(),
                swap_id: Some(sw.id.clone()),
                timestamp,
                amount_sat: ptd.amount_sat,
                fees_sat: Some(sw.payer_amount_sat - sw.receiver_amount_sat),
                preimage: clone_opt_string(&sw.preimage),
                refund_tx_id: clone_opt_string(&sw.refund_tx_id),
                refund_tx_amount_sat,
                payment_type: PaymentType::Send,
                status: sw.state,
            }
        } else if let Some(sw) = self.find_receive_by_tx(ptd.tx_id.as_str()) {
            proof {
                lemma_find_receive_by_tx_member(self.receives(), ptd.deep_view().tx_id);
            }
            Payment {
                tx_id: ptd.tx_id.clone(),
                swap_id: Some(sw.id.clone()),
                timestamp,
                amount_sat: ptd.amount_sat,
                fees_sat: Some(sw.payer_amount_sat - sw.receiver_amount_sat),
                preimage: Some(sw.preimage.clone()),
                refund_tx_id: None,
                refund_tx_amount_sat: None,
                payment_type: PaymentType::Receive,
                status: sw.state,
            }
        } else {
            Payment {
                tx_id: ptd.tx_id.clone(),
                swap_id: None,
                timestamp,
                amount_sat: ptd.amount_sat,
                fees_sat: None,
                refund_tx_id: None,
                refund_tx_amount_sat: None,
                preimage: None,
                payment_type: ptd.payment_type,
                status: if ptd.is_confirmed {
                    PaymentState::Complete
                } else {
                    PaymentState::Pending
                },
            }
        }
    }

    /// The derived payment view of the row with the given transaction
    /// id, if one is stored.
    pub fn get_payment(&self, tx_id: &str) -> (r: Option<Payment>)
        requires
            self.wf(),
        ensures
            match r {
                Some(p) => spec_find_tx(self.txs(), tx_id@) matches Some(row) && p.deep_view()
                    == spec_payment_of(self.sends(), self.receives(), row),
                None => spec_find_tx(self.txs(), tx_id@) is None,
            },
    {
        match self.find_payment_index(tx_id) {
            Some(i) => {
                proof {
                    lemma_tx_find_at(self.txs(), tx_id@, i as int);
                }
                Some(self.payment_of(&self.payments[i]))
            },
            None => {
                proof {
                    lemma_tx_find_none(self.txs(), tx_id@);
                }
                None
            },
        }
    }

    /// Computes the derived payment view of the whole store, one payment
    /// per ledger row, in ledger order.
    pub fn get_payments(&self) -> (r: Vec<Payment>)
        requires
            self.wf(),
        ensures
            r.deep_view() == spec_payments_view(self.sends(), self.receives(), self.txs()),
    {
        let n = self.payments.len();
        let mut out: Vec<Payment> = Vec::new();
        let mut i: usize = 0;
        while i < n
            invariant
                self.wf(),
                n == self.txs().len(),
                i <= n,
                out.deep_view().len() == i,
                forall|k: int|
                    0 <= k < i ==> out.deep_view()[k] == spec_payment_of(
                        self.sends(),
                        self.receives(),
                        #[trigger] self.txs()[k],
                    ),
            decreases n - i,
        {
            let p = self.payment_of(&self.payments[i]);
            out.push(p);
            i = i + 1;
        }
        proof {
            assert(out.deep_view() =~= spec_payments_view(self.sends(), self.receives(), self.txs()));
        }
        out
    }

    /// The Pending Send records whose refund transaction is known: the
    /// records the syncer watches for refund confirmations.
    pub fn list_pending_send_swaps_by_refund_tx_id(&self) -> (r: Vec<SendSwap>)
        ensures
            r.deep_view() == spec_pending_refund_sends(self.sends()),
            forall|k: int|
                0 <= k < r.deep_view().len() ==> {
                    &&& (#[trigger] r.deep_view()[k]).state == PaymentState::Pending
                    &&& r.deep_view()[k].refund_tx_id is Some
                    &&& exists|i: int|
                        0 <= i < self.sends().len() && #[trigger] self.sends()[i] == r.deep_view()[k]
                },
            forall|i: int|
                0 <= i < self.sends().len() && (#[trigger] self.sends()[i]).state
                    == PaymentState::Pending && self.sends()[i].refund_tx_id is Some
                    ==> r.deep_view().contains(self.sends()[i]),
    {
        let n = self.send_swaps.len();
        let mut out: Vec<SendSwap> = Vec::new();
        let mut i: usize = 0;
        proof {
            assert(self.sends().skip(0) =~= self.sends());
        }
        while i < n
            invariant
                n == self.sends().len(),
                i <= n,
                out.deep_view() + spec_pending_refund_sends(self.sends().skip(i as int))
                    =~= spec_pending_refund_sends(self.sends()),
                forall|k: int|
                    0 <= k < out.deep_view().len() ==> {
                        &&& (#[trigger] out.deep_view()[k]).state == PaymentState::Pending
                        &&& out.deep_view()[k].refund_tx_id is Some
                        &&& exists|m: int|
                            0 <= m < self.sends().len() && #[trigger] self.sends()[m]
                                == out.deep_view()[k]
                    },
                forall|m: int|
                    0 <= m < i && (#[trigger] self.sends()[m]).state == PaymentState::Pending
                        && self.sends()[m].refund_tx_id is Some ==> out.deep_view().contains(
                        self.sends()[m],
                    ),
            decreases n - i,
        {
            proof {
                assert(self.sends().skip(i as int).first() == self.sends()[i as int]);
                assert(self.sends().skip(i as int).drop_first() =~= self.sends().skip(i as int + 1));
            }
            let sw = &self.send_swaps[i];
            let is_pending = match sw.state {
                PaymentState::Pending => true,
                _ => false,
            };
            if is_pending && sw.refund_tx_id.is_some() {
                let ghost before = out.deep_view();
                out.push(sw.clone());
                proof {
                    assert(out.deep_view() =~= before.push(self.sends()[i as int]));
                    assert(out.deep_view() =~= before + seq![self.sends()[i as int]]);
                    assert(out.deep_view()[before.len() as int] == self.sends()[i as int]);
                    assert(forall|m: int|
                        0 <= m < before.len() ==> #[trigger] out.deep_view()[m] == before[m]);
                    assert(out.deep_view() + spec_pending_refund_sends(
                        self.sends().skip(i as int + 1),
                    ) =~= spec_pending_refund_sends(self.sends()));
                }
            }
            i = i + 1;
        }
        proof {
            assert(self.sends().skip(n as int) =~= Seq::<SendSwapV>::empty());
            assert(out.deep_view() + Seq::<SendSwapV>::empty() =~= out.deep_view());
        }
        out
    }

    /// The Pending Receive records whose claim transaction is known: the
    /// records the syncer watches for claim confirmations.
    pub fn list_pending_receive_swaps_by_claim_tx_id(&self) -> (r: Vec<ReceiveSwap>)
        ensures
            r.deep_view() == spec_pending_claim_receives(self.receives()),
            forall|k: int|
                0 <= k < r.deep_view().len() ==> {
                    &&& (#[trigger] r.deep_view()[k]).state == PaymentState::Pending
                    &&& r.deep_view()[k].claim_tx_id is Some
                    &&& exists|i: int|
                        0 <= i < self.receives().len() && #[trigger] self.receives()[i]
                            == r.deep_view()[k]
                },
            forall|i: int|
                0 <= i < self.receives().len() && (#[trigger] self.receives()[i]).state
                    == PaymentState::Pending && self.receives()[i].claim_tx_id is Some
                    ==> r.deep_view().contains(self.receives()[i]),
    {
        let n = self.receive_swaps.len();
        let mut out: Vec<ReceiveSwap> = Vec::new();
        let mut i: usize = 0;
        proof {
            assert(self.receives().skip(0) =~= self.receives());
        }
        while i < n
            invariant
                n == self.receives().len(),
                i <= n,
                out.deep_view() + spec_pending_claim_receives(self.receives().skip(i as int))
                    =~= spec_pending_claim_receives(self.receives()),
                forall|k: int|
                    0 <= k < out.deep_view().len() ==> {
                        &&& (#[trigger] out.deep_view()[k]).state == PaymentState::Pending
                        &&& out.deep_view()[k].claim_tx_id is Some
                        &&& exists|m: int|
                            0 <= m < self.receives().len() && #[trigger] self.receives()[m]
                                == out.deep_view()[k]
                    },
                forall|m: int|
                    0 <= m < i && (#[trigger] self.receives()[m]).state == PaymentState::Pending
                        && self.receives()[m].claim_tx_id is Some ==> out.deep_view().contains(
                        self.receives()[m],
                    ),
            decreases n - i,
        {
            proof {
                assert(self.receives().skip(i as int).first() == self.receives()[i as int]);
                assert(self.receives().skip(i as int).drop_first() =~= self.receives().skip(
                    i as int + 1,
                ));
            }
            let sw = &self.receive_swaps[i];
            let is_pending = match sw.state {
                PaymentState::Pending => true,
                _ => false,
            };
            if is_pending && sw.claim_tx_id.is_some() {
                let ghost before = out.deep_view();
                out.push(sw.clone());
                proof {
                    assert(out.deep_view() =~= before.push(self.receives()[i as int]));
                    assert(out.deep_view() =~= before + seq![self.receives()[i as int]]);
                    assert(out.deep_view()[before.len() as int] == self.receives()[i as int]);
                    assert(forall|m: int|
                        0 <= m < before.len() ==> #[trigger] out.deep_view()[m] == before[m]);
                    assert(out.deep_view() + spec_pending_claim_receives(
                        self.receives().skip(i as int + 1),
                    ) =~= spec_pending_claim_receives(self.receives()));
                }
            }
            i = i + 1;
        }
        proof {
            assert(self.receives().skip(n as int) =~= Seq::<ReceiveSwapV>::empty());
            assert(out.deep_view() + Seq::<ReceiveSwapV>::empty() =~= out.deep_view());
        }
        out
    }

    /// All swaps whose state is `Created` or `Pending`, Send records
    /// first.
    pub fn list_ongoing_swaps(&self) -> (r: Vec<Swap>)
        ensures
            forall|k: int|
                0 <= k < r.deep_view().len() ==> match #[trigger] r.deep_view()[k] {
                    SwapV::Send(sw) => spec_is_ongoing(sw.state) && exists|i: int|
                        0 <= i < self.sends().len() && #[trigger] self.sends()[i] == sw,
                    SwapV::Receive(sw) => spec_is_ongoing(sw.state) && exists|i: int|
                        0 <= i < self.receives().len() && #[trigger] self.receives()[i] == sw,
                },
            forall|i: int|
                0 <= i < self.sends().len() && spec_is_ongoing(
                    (#[trigger] self.sends()[i]).state,
                ) ==> r.deep_view().contains(SwapV::Send(self.sends()[i])),
            forall|i: int|
                0 <= i < self.receives().len() && spec_is_ongoing(
                    (#[trigger] self.receives()[i]).state,
                ) ==> r.deep_view().contains(SwapV::Receive(self.receives()[i])),
    {
        let mut out: Vec<Swap> = Vec::new();
        let n_send = self.send_swaps.len();
        let mut i: usize = 0;
        while i < n_send
            invariant
                n_send == self.sends().len(),
                i <= n_send,
                forall|k: int|
                    0 <= k < out.deep_view().len() ==> match #[trigger] out.deep_view()[k] {
                        SwapV::Send(sw) => spec_is_ongoing(sw.state) && exists|m: int|
                            0 <= m < self.sends().len() && #[trigger] self.sends()[m] == sw,
                        SwapV::Receive(_) => false,
                    },
                forall|m: int|
                    0 <= m < i && spec_is_ongoing((#[trigger] self.sends()[m]).state)
                        ==> out.deep_view().contains(SwapV::Send(self.sends()[m])),
            decreases n_send - i,
        {
            let sw = &self.send_swaps[i];
            let ongoing = match sw.state {
                PaymentState::Created => true,
                PaymentState::Pending => true,
                _ => false,
            };
            if ongoing {
                let ghost before = out.deep_view();
                out.push(Swap::Send(sw.clone()));
                proof {
                    assert(out.deep_view() =~= before.push(SwapV::Send(self.sends()[i as int])));
                    assert(out.deep_view()[before.len() as int] == SwapV::Send(
                        self.sends()[i as int],
                    ));
                    assert(forall|m: int|
                        0 <= m < before.len() ==> #[trigger] out.deep_view()[m] == before[m]);
                }
            }
            i = i + 1;
        }
        let n_receive = self.receive_swaps.len();
        let mut j: usize = 0;
        while j < n_receive
            invariant
                n_receive == self.receives().len(),
                j <= n_receive,
                forall|k: int|
                    0 <= k < out.deep_view().len() ==> match #[trigger] out.deep_view()[k] {
                        SwapV::Send(sw) => spec_is_ongoing(sw.state) && exists|m: int|
                            0 <= m < self.sends().len() && #[trigger] self.sends()[m] == sw,
                        SwapV::Receive(sw) => spec_is_ongoing(sw.state) && exists|m: int|
                            0 <= m < self.receives().len() && #[trigger] self.receives()[m] == sw,
                    },
                forall|m: int|
                    0 <= m < self.sends().len() && spec_is_ongoing(
                        (#[trigger] self.sends()[m]).state,
                    ) ==> out.deep_view().contains(SwapV::Send(self.sends()[m])),
                forall|m: int|
                    0 <= m < j && spec_is_ongoing((#[trigger] self.receives()[m]).state)
                        ==> out.deep_view().contains(SwapV::Receive(self.receives()[m])),
            decreases n_receive - j,
        {
            let sw = &self.receive_swaps[j];
            let ongoing = match sw.state {
                PaymentState::Created => true,
                PaymentState::Pending => true,
                _ => false,
            };
            if ongoing {
                let ghost before = out.deep_view();
                out.push(Swap::Receive(sw.clone()));
                proof {
                    assert(out.deep_view() =~= before.push(
                        SwapV::Receive(self.receives()[j as int]),
                    ));
                    assert(out.deep_view()[before.len() as int] == SwapV::Receive(
                        self.receives()[j as int],
                    ));
                    assert(forall|m: int|
                        0 <= m < before.len() ==> #[trigger] out.deep_view()[m] == before[m]);
                }
            }
            j = j + 1;
        }
        out
    }
}

/// An update maps its own identifier's lookup through the record
/// update.
pub proof fn lemma_send_update_find_same(
    s: Seq<SendSwapV>,
    id: Seq<char>,
    to_state: PaymentState,
    preimage: Option<Seq<char>>,
    lockup_tx_id: Option<Seq<char>>,
    refund_tx_id: Option<Seq<char>>,
)
    ensures
        spec_find_send_by_id(
            spec_send_swaps_updated(s, id, to_state, preimage, lockup_tx_id, refund_tx_id),
            id,
        ) == match spec_find_send_by_id(s, id) {
            Some(sw) => Some(spec_send_updated(sw, to_state, preimage, lockup_tx_id, refund_tx_id)),
            None => None,
        },
    decreases s.len(),
{
    if s.len() > 0 {
        if s[0].id == id {
            let upd = spec_send_updated(s[0], to_state, preimage, lockup_tx_id, refund_tx_id);
            let u = seq![upd] + s.drop_first();
            assert(spec_send_swaps_updated(s, id, to_state, preimage, lockup_tx_id, refund_tx_id)
                == u);
            assert(u[0] == upd);
        } else {
            lemma_send_update_find_same(s.drop_first(), id, to_state, preimage, lockup_tx_id,
                refund_tx_id);
            let u = seq![s[0]] + spec_send_swaps_updated(
                s.drop_first(),
                id,
                to_state,
                preimage,
                lockup_tx_id,
                refund_tx_id,
            );
            assert(spec_send_swaps_updated(s, id, to_state, preimage, lockup_tx_id, refund_tx_id)
                == u);
            assert(u[0] == s[0]);
            assert(u.drop_first() =~= spec_send_swaps_updated(
                s.drop_first(),
                id,
                to_state,
                preimage,
                lockup_tx_id,
                refund_tx_id,
            ));
        }
    }
}

/// An update maps its own identifier's lookup through the record
/// update.
pub proof fn lemma_receive_update_find_same(
    s: Seq<ReceiveSwapV>,
    id: Seq<char>,
    to_state: PaymentState,
    claim_tx_id: Option<Seq<char>>,
)
    ensures
        spec_find_receive_by_id(spec_receive_swaps_updated(s, id, to_state, claim_tx_id), id)
            == match spec_find_receive_by_id(s, id) {
            Some(sw) => Some(spec_receive_updated(sw, to_state, claim_tx_id)),
            None => None,
        },
    decreases s.len(),
{
    if s.len() > 0 {
        if s[0].id == id {
            let upd = spec_receive_updated(s[0], to_state, claim_tx_id);
            let u = seq![upd] + s.drop_first();
            assert(spec_receive_swaps_updated(s, id, to_state, claim_tx_id) == u);
            assert(u[0] == upd);
        } else {
            lemma_receive_update_find_same(s.drop_first(), id, to_state, claim_tx_id);
            let u = seq![s[0]] + spec_receive_swaps_updated(s.drop_first(), id, to_state,
                claim_tx_id);
            assert(spec_receive_swaps_updated(s, id, to_state, claim_tx_id) == u);
            assert(u[0] == s[0]);
            assert(u.drop_first() =~= spec_receive_swaps_updated(
                s.drop_first(),
                id,
                to_state,
                claim_tx_id,
            ));
        }
    }
}

/// Transaction-id columns are written at most once: a column that is
/// set survives every further validated update unchanged, for the
/// lockup and refund columns of a Send record and the claim column of
/// a Receive record.
pub proof fn lemma_txid_write_once(
    sw: SendSwapV,
    rw: ReceiveSwapV,
    to_state: PaymentState,
    preimage: Option<Seq<char>>,
    lockup_tx_id: Option<Seq<char>>,
    refund_tx_id: Option<Seq<char>>,
    claim_tx_id: Option<Seq<char>>,
)
    ensures
        sw.lockup_tx_id matches Some(t) ==> spec_send_updated(
            sw,
            to_state,
            preimage,
            lockup_tx_id,
            refund_tx_id,
        ).lockup_tx_id == Some(t),
        sw.refund_tx_id matches Some(t) ==> spec_send_updated(
            sw,
            to_state,
            preimage,
            lockup_tx_id,
            refund_tx_id,
        ).refund_tx_id == Some(t),
        rw.claim_tx_id matches Some(t) ==> spec_receive_updated(
            rw,
            to_state,
            claim_tx_id,
        ).claim_tx_id == Some(t),
{
}

/// Failing a Receive swap is idempotent on the store: applying the
/// `Failed` update a second time changes nothing.
pub proof fn lemma_receive_failed_update_idempotent(s: Seq<ReceiveSwapV>, id: Seq<char>)
    ensures
        spec_receive_swaps_updated(
            spec_receive_swaps_updated(s, id, PaymentState::Failed, None),
            id,
            PaymentState::Failed,
            None,
        ) =~= spec_receive_swaps_updated(s, id, PaymentState::Failed, None),
    decreases s.len(),
{
    if s.len() > 0 {
        if s[0].id == id {
            let upd = spec_receive_updated(s[0], PaymentState::Failed, None);
            let once = seq![upd] + s.drop_first();
            assert(spec_receive_swaps_updated(s, id, PaymentState::Failed, None) == once);
            assert(once[0] == upd);
            assert(upd.id == id);
            assert(spec_receive_updated(upd, PaymentState::Failed, None) == upd);
            assert(spec_receive_swaps_updated(once, id, PaymentState::Failed, None) == seq![
                spec_receive_updated(upd, PaymentState::Failed, None),
            ] + once.drop_first());
            assert(once.drop_first() =~= s.drop_first());
        } else {
            lemma_receive_failed_update_idempotent(s.drop_first(), id);
            let once = seq![s[0]] + spec_receive_swaps_updated(
                s.drop_first(),
                id,
                PaymentState::Failed,
                None,
            );
            assert(spec_receive_swaps_updated(s, id, PaymentState::Failed, None) == once);
            assert(once[0] == s[0]);
            assert(once.drop_first() =~= spec_receive_swaps_updated(
                s.drop_first(),
                id,
                PaymentState::Failed,
                None,
            ));
        }
    }
}

/// A `Complete` Send record always carries a preimage bound to its
/// invoice: the stored preimage hashes to the invoice's payment hash.
pub proof fn lemma_complete_send_preimage_binding(p: &Persister, i: int)
    requires
        p.wf(),
        0 <= i < p.sends().len(),
        p.sends()[i].state == PaymentState::Complete,
    ensures
        p.sends()[i].preimage is Some,
        spec_invoice_binding(p.sends()[i].invoice, p.sends()[i].preimage->Some_0),
{
}

/// Every stored Receive record's locally generated preimage is bound to
/// the swapper's HODL invoice: its hash is the invoice's payment hash.
pub proof fn lemma_receive_swap_invoice_binding(p: &Persister, i: int)
    requires
        p.wf(),
        0 <= i < p.receives().len(),
    ensures
        spec_invoice_binding(p.receives()[i].invoice, p.receives()[i].preimage),
{
}

/// Checks a state transition against the swap state machine.
fn transition_ok(from: PaymentState, to: PaymentState) -> (r: bool)
    ensures
        r == transition_allowed(from, to),
{
    match to {
        PaymentState::Created => false,
        PaymentState::Pending => from == PaymentState::Created || from == PaymentState::Pending,
        PaymentState::Complete => from == PaymentState::Created || from == PaymentState::Pending,
        PaymentState::Failed => true,
    }
}

/// Merges an optional new column value onto a stored one, keeping a
/// value that is already set.
fn merge_once(existing: Option<String>, new_v: Option<&str>) -> (r: Option<String>)
    ensures
        r.deep_view() == spec_merge_once(existing.deep_view(), spec_opt_str_view(new_v)),
{
    match existing {
        Some(s) => Some(s),
        None => match new_v {
            Some(s) => Some(s.to_owned()),
            None => None,
        },
    }
}

} // verus!
