//! Pub/sub fan-out of payment lifecycle events.
//!
//! The manager keeps the registered listener identifiers and an ordered
//! log of every event notified. Actual delivery to listener callbacks is
//! the surrounding application's task: it drains the log and forwards
//! each event, best effort, so a slow or failing listener never blocks
//! the engine.

use vstd::prelude::*;

use crate::error::LiquidSdkError;
use crate::model::LiquidSdkEvent;
use crate::model::LiquidSdkEventV;
use crate::utils::spec_dec_of;
use crate::utils::str_eq;
use crate::utils::u64_to_dec_string;

verus! {

/// The identifier handed out for the `n`-th registered listener.
pub open spec fn spec_listener_id_of(n: u64) -> Seq<char> {
    "listener-"@ + spec_dec_of(n as nat)
}

/// Listener registry and event log.
pub struct EventManager {
    /// Counter the next listener identifier is rendered from.
    pub next_listener_id: u64,
    /// Counters of the currently registered listeners.
    pub listener_ids: Vec<u64>,
    /// Every event notified so far, oldest first.
    pub event_log: Vec<LiquidSdkEvent>,
}

impl EventManager {
    pub open spec fn ids(&self) -> Seq<u64> {
        self.listener_ids@
    }

    pub open spec fn log(&self) -> Seq<LiquidSdkEventV> {
        self.event_log.deep_view()
    }

    /// All registered listener counters were handed out already.
    pub open spec fn wf(&self) -> bool {
        forall|i: int| 0 <= i < self.ids().len() ==> #[trigger] self.ids()[i] < self.next_listener_id
    }

    pub fn new() -> (r: EventManager)
        ensures
            r.wf(),
            r.ids() =~= Seq::<u64>::empty(),
            r.log() =~= Seq::<LiquidSdkEventV>::empty(),
            r.next_listener_id == 0,
    {
        EventManager { next_listener_id: 0, listener_ids: Vec::new(), event_log: Vec::new() }
    }

    /// Registers a listener and returns its fresh identifier. Fails only
    /// when the identifier space is exhausted.
    pub fn add(&mut self) -> (r: Result<String, LiquidSdkError>)
        requires
            old(self).wf(),
        ensures
            final(self).wf(),
            r is Ok <==> old(self).next_listener_id < u64::MAX,
            r matches Ok(id) ==> {
                &&& id@ == spec_listener_id_of(old(self).next_listener_id)
                &&& final(self).ids() == old(self).ids().push(old(self).next_listener_id)
                &&& final(self).next_listener_id == old(self).next_listener_id + 1
            },
            r is Err ==> final(self).ids() == old(self).ids() && final(self).next_listener_id
                == old(self).next_listener_id,
            final(self).log() == old(self).log(),
    {
        if self.next_listener_id == u64::MAX {
            return Err(LiquidSdkError::Generic { err: "Listener ids exhausted".to_owned() });
        }
        let n = self.next_listener_id;
        self.listener_ids.push(n);
        self.next_listener_id = n + 1;
        proof {
            assert(self.ids() == old(self).ids().push(n));
            assert forall|i: int| 0 <= i < self.ids().len() implies #[trigger] self.ids()[i]
                < self.next_listener_id by {
                if i < old(self).ids().len() {
                    assert(self.ids()[i] == old(self).ids()[i]);
                } else {
                    assert(self.ids()[i] == n);
                }
            }
        }
        Ok(render_listener_id(n))
    }

    /// Unregisters the listener with the given identifier; without a
    /// match the registry is unchanged.
    pub fn remove(&mut self, id: &str)
        requires
            old(self).wf(),
        ensures
            final(self).wf(),
            (exists|i: int|
                0 <= i < old(self).ids().len() && spec_listener_id_of(#[trigger] old(self).ids()[i])
                    == id@) ==> exists|i: int|
                {
                    &&& 0 <= i < old(self).ids().len()
                    &&& spec_listener_id_of(#[trigger] old(self).ids()[i]) == id@
                    &&& final(self).ids() == old(self).ids().remove(i)
                },
            !(exists|i: int|
                0 <= i < old(self).ids().len() && spec_listener_id_of(#[trigger] old(self).ids()[i])
                    == id@) ==> final(self).ids() == old(self).ids(),
            final(self).log() == old(self).log(),
            final(self).next_listener_id == old(self).next_listener_id,
    {
        let n = self.listener_ids.len();
        let mut i: usize = 0;
        while i < n
            invariant
                old(self).wf(),
                self == old(self),
                n == self.ids().len(),
                i <= n,
                forall|k: int|
                    0 <= k < i ==> spec_listener_id_of(#[trigger] self.ids()[k]) != id@,
            decreases n - i,
        {
            let rendered = render_listener_id(self.listener_ids[i]);
            if str_eq(rendered.as_str(), id) {
                let ghost before = self.ids();
                let _ = self.listener_ids.remove(i);
                proof {
                    assert(self.ids() == before.remove(i as int));
                    assert(before == old(self).ids());
                    assert(self.next_listener_id == old(self).next_listener_id);
                    assert forall|k: int| 0 <= k < self.ids().len() implies #[trigger] self.ids()[k]
                        < self.next_listener_id by {
                        if k < i {
                            assert(self.ids()[k] == before[k]);
                            assert(old(self).ids()[k] < old(self).next_listener_id);
                        } else {
                            assert(self.ids()[k] == before[k + 1]);
                            assert(old(self).ids()[k + 1] < old(self).next_listener_id);
                        }
                    }
                }
                return ;
            }
            i = i + 1;
        }
    }

    /// Appends an event to the log for the application to deliver.
    pub fn notify(&mut self, e: LiquidSdkEvent)
        requires
            old(self).wf(),
        ensures
            final(self).wf(),
            final(self).log() == old(self).log().push(e.deep_view()),
            final(self).ids() == old(self).ids(),
            final(self).next_listener_id == old(self).next_listener_id,
    {
        let ghost before = self.log();
        self.event_log.push(e);
        proof {
            assert(self.log() =~= before.push(e.deep_view()));
            assert(self.ids() == old(self).ids());
        }
    }
}

/// Renders a listener counter as its identifier string.
fn render_listener_id(n: u64) -> (r: String)
    ensures
        r@ == spec_listener_id_of(n),
{
    "listener-".to_owned().concat(u64_to_dec_string(n).as_str())
}

} // verus!
