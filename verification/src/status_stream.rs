//! Book-keeping for the long-lived swapper status subscriptions.
//!
//! The stream task itself lives at the application edge: it keeps one
//! websocket subscription per ongoing swap, reconnects with bounded
//! backoff, and hands every received `(swap id, state string)` pair to
//! the engine. What is verified here is the process-wide tracked set
//! that prevents duplicate handling when the synchronous send flow is
//! already tailing the socket for the same swap: marking and unmarking
//! are idempotent.

use vstd::prelude::*;

use crate::model::SwapType;
use crate::utils::str_eq;

verus! {

/// One tracked subscription key.
#[derive(Debug, PartialEq)]
pub struct TrackedSwap {
    pub id: String,
    pub kind: SwapType,
}

pub struct TrackedSwapV {
    pub id: Seq<char>,
    pub kind: SwapType,
}

impl DeepView for TrackedSwap {
    type V = TrackedSwapV;

    open spec fn deep_view(&self) -> TrackedSwapV {
        TrackedSwapV { id: self.id.deep_view(), kind: self.kind }
    }
}

/// Whether the set holds the `(swap id, kind)` key.
pub open spec fn spec_is_tracked(s: Seq<TrackedSwapV>, id: Seq<char>, kind: SwapType) -> bool {
    exists|i: int| 0 <= i < s.len() && (#[trigger] s[i]).id == id && s[i].kind == kind
}

/// The tracked set of swap status subscriptions, keyed by swap id and
/// kind.
pub struct BoltzStatusStream {
    pub entries: Vec<TrackedSwap>,
}

impl BoltzStatusStream {
    pub open spec fn keys(&self) -> Seq<TrackedSwapV> {
        self.entries.deep_view()
    }

    /// No key occurs twice.
    pub open spec fn wf(&self) -> bool {
        forall|i: int, j: int|
            0 <= i < self.keys().len() && 0 <= j < self.keys().len() && i != j ==> !((
            #[trigger] self.keys()[i]).id == (#[trigger] self.keys()[j]).id && self.keys()[i].kind
                == self.keys()[j].kind)
    }

    pub fn new() -> (r: BoltzStatusStream)
        ensures
            r.wf(),
            r.keys() =~= Seq::<TrackedSwapV>::empty(),
    {
        BoltzStatusStream { entries: Vec::new() }
    }

    fn find_index(&self, swap_id: &str, kind: SwapType) -> (r: Option<usize>)
        ensures
            match r {
                Some(i) => i < self.keys().len() && self.keys()[i as int].id == swap_id@
                    && self.keys()[i as int].kind == kind,
                None => !spec_is_tracked(self.keys(), swap_id@, kind),
            },
    {
        let n = self.entries.len();
        let mut i: usize = 0;
        while i < n
            invariant
                n == self.keys().len(),
                i <= n,
                forall|k: int|
                    0 <= k < i ==> !((#[trigger] self.keys()[k]).id == swap_id@
                        && self.keys()[k].kind == kind),
            decreases n - i,
        {
            if str_eq(self.entries[i].id.as_str(), swap_id) && self.entries[i].kind == kind {
                return Some(i);
            }
            i = i + 1;
        }
        None
    }

    /// Whether a swap's status feed is already being followed.
    pub fn is_tracked(&self, swap_id: &str, kind: SwapType) -> (r: bool)
        ensures
            r == spec_is_tracked(self.keys(), swap_id@, kind),
    {
        self.find_index(swap_id, kind).is_some()
    }

    /// Marks a swap as tracked; idempotent.
    pub fn mark_swap_as_tracked(&mut self, swap_id: &str, kind: SwapType)
        requires
            old(self).wf(),
        ensures
            final(self).wf(),
            spec_is_tracked(final(self).keys(), swap_id@, kind),
            spec_is_tracked(old(self).keys(), swap_id@, kind) ==> final(self).keys() == old(
                self,
            ).keys(),
            !spec_is_tracked(old(self).keys(), swap_id@, kind) ==> final(self).keys() == old(
                self,
            ).keys().push(TrackedSwapV { id: swap_id@, kind }),
    {
        match self.find_index(swap_id, kind) {
            Some(_) => {},
            None => {
                let ghost before = self.keys();
                self.entries.push(TrackedSwap { id: swap_id.to_owned(), kind });
                proof {
                    assert(self.keys() =~= before.push(TrackedSwapV { id: swap_id@, kind }));
                    assert(self.keys()[before.len() as int].id == swap_id@);
                }
            },
        }
    }

    /// Unmarks a swap; idempotent.
    pub fn unmark_swap_as_tracked(&mut self, swap_id: &str, kind: SwapType)
        requires
            old(self).wf(),
        ensures
            final(self).wf(),
            !spec_is_tracked(final(self).keys(), swap_id@, kind),
            spec_is_tracked(old(self).keys(), swap_id@, kind) ==> exists|i: int|
                {
                    &&& 0 <= i < old(self).keys().len()
                    &&& (#[trigger] old(self).keys()[i]).id == swap_id@
                    &&& old(self).keys()[i].kind == kind
                    &&& final(self).keys() == old(self).keys().remove(i)
                },
            !spec_is_tracked(old(self).keys(), swap_id@, kind) ==> final(self).keys() == old(
                self,
            ).keys(),
    {
        match self.find_index(swap_id, kind) {
            Some(i) => {
                let ghost before = self.keys();
                let _ = self.entries.remove(i);
                proof {
                    assert(self.keys() =~= before.remove(i as int));
                    assert forall|k: int| 0 <= k < self.keys().len() implies !((
                    #[trigger] self.keys()[k]).id == swap_id@ && self.keys()[k].kind == kind) by {
                        if k < i {
                            assert(self.keys()[k] == before[k]);
                        } else {
                            assert(self.keys()[k] == before[k + 1]);
                        }
                    }
                }
            },
            None => {},
        }
    }
}

} // verus!
