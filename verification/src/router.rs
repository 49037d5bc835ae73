//! The demultiplexer: owns every routing table and decides, frame by frame,
//! which consumer each inbound message belongs to. The I/O shell performs
//! the returned action (delivering on a one-shot, publishing to a stream)
//! and reports publish failures back, which evict the dead subscription.

use vstd::prelude::*;
use std::collections::HashMap;
use crate::frame::Frame;
use crate::sinks::{
    short_availability_of, AccountState, TickerState, TrackerState, TICK_ASK, TICK_ASK_SIZE,
    TICK_BID, TICK_BID_SIZE, TICK_DELAYED_ASK, TICK_DELAYED_ASK_SIZE, TICK_DELAYED_BID,
    TICK_DELAYED_BID_SIZE, TICK_DELAYED_LAST, TICK_DELAYED_LAST_SIZE, TICK_LAST, TICK_LAST_SIZE,
    TICK_SHORTABLE, TICK_SHORTABLE_SHARES,
};
use crate::types::{BarSeries, CommissionReport, ContractDetails, Execution, OrderStatusData,
    Position};

verus! {

broadcast use vstd::std_specs::hash::group_hash_axioms;

/// What the I/O shell must do after one frame was routed.
pub enum Action {
    /// Pop the front one-shot waiting for an order ID and send it this one.
    DeliverOrderId { id: i32 },
    /// Complete the pending one-shot of this request with the batch.
    DeliverContractDetails { req_id: i32, details: Vec<ContractDetails> },
    /// A tracker was created: hand its receiver half to the pending
    /// one-shot of this order ID.
    TrackerCreated { order_id: i32 },
    /// Publish the tracker's changed fields downstream.
    TrackerUpdated { order_id: i32 },
    /// A ticker was created: hand its receiver half to the pending one-shot
    /// of this request ID.
    TickerCreated { req_id: i32 },
    /// Publish the ticker's changed fields downstream.
    TickerUpdated { req_id: i32 },
    /// Complete the pending one-shot of this request with the bar series.
    DeliverBars { req_id: i32, series: BarSeries },
    /// An account cell changed: refresh the account view.
    AccountChanged,
    /// A server error owns this pending request: fail its one-shot.
    FailPending { req_id: i32, code: i32, message: String },
}

/// First match in the exec-ID table.
pub open spec fn assoc_find(s: Seq<(Seq<char>, i32)>, k: Seq<char>) -> Option<i32>
    decreases s.len(),
{
    if s.len() == 0 {
        None
    } else if s[0].0 == k {
        Some(s[0].1)
    } else {
        assoc_find(s.skip(1), k)
    }
}

/// The table without the first entry for `k`.
pub open spec fn assoc_remove(s: Seq<(Seq<char>, i32)>, k: Seq<char>) -> Seq<(Seq<char>, i32)>
    decreases s.len(),
{
    if s.len() == 0 {
        s
    } else if s[0].0 == k {
        s.skip(1)
    } else {
        seq![s[0]] + assoc_remove(s.skip(1), k)
    }
}

pub open spec fn execs_view(v: Seq<(String, i32)>) -> Seq<(Seq<char>, i32)> {
    Seq::new(v.len(), |i: int| (v[i].0@, v[i].1))
}

/// No two entries of the exec-ID table carry the same exec ID.
pub open spec fn exec_ids_unique(s: Seq<(Seq<char>, i32)>) -> bool {
    forall|i: int, j: int| 0 <= i < j < s.len() ==> (#[trigger] s[i]).0 != (#[trigger] s[j]).0
}

/// A table without the key finds nothing under it.
proof fn lemma_assoc_find_absent(s: Seq<(Seq<char>, i32)>, k: Seq<char>)
    requires
        forall|j: int| 0 <= j < s.len() ==> (#[trigger] s[j]).0 != k,
    ensures
        assoc_find(s, k) is None,
    decreases s.len(),
{
    if s.len() > 0 {
        assert(forall|j: int| 0 <= j < s.len() - 1 ==> (#[trigger] s.skip(1)[j]) == s[j + 1]);
        lemma_assoc_find_absent(s.skip(1), k);
    }
}

/// Appending a fresh key makes it findable, at its new value.
proof fn lemma_assoc_find_push(s: Seq<(Seq<char>, i32)>, k: Seq<char>, v: i32)
    requires
        forall|j: int| 0 <= j < s.len() ==> (#[trigger] s[j]).0 != k,
    ensures
        assoc_find(s.push((k, v)), k) == Some(v),
    decreases s.len(),
{
    let t = s.push((k, v));
    if s.len() == 0 {
        assert(t[0] == (k, v));
    } else {
        assert(t[0] == s[0]);
        assert(t.skip(1) =~= s.skip(1).push((k, v)));
        assert(forall|j: int| 0 <= j < s.len() - 1 ==> (#[trigger] s.skip(1)[j]) == s[j + 1]);
        lemma_assoc_find_push(s.skip(1), k, v);
    }
}

/// Appending a fresh key keeps the table duplicate-free.
proof fn lemma_unique_push(s: Seq<(Seq<char>, i32)>, k: Seq<char>, v: i32)
    requires
        exec_ids_unique(s),
        forall|j: int| 0 <= j < s.len() ==> (#[trigger] s[j]).0 != k,
    ensures
        exec_ids_unique(s.push((k, v))),
{
    let t = s.push((k, v));
    assert forall|i: int, j: int| 0 <= i < j < t.len() implies (#[trigger] t[i]).0 != (
    #[trigger] t[j]).0 by {
        if j == s.len() {
            assert(t[i] == s[i]);
        } else {
            assert(t[i] == s[i] && t[j] == s[j]);
        }
    }
}

/// Removing from a duplicate-free table leaves it duplicate-free and
/// without the removed key; every surviving entry stood in the table.
proof fn lemma_assoc_remove_unique(s: Seq<(Seq<char>, i32)>, k: Seq<char>)
    requires
        exec_ids_unique(s),
    ensures
        exec_ids_unique(assoc_remove(s, k)),
        forall|j: int| 0 <= j < assoc_remove(s, k).len() ==> (#[trigger] assoc_remove(s, k)[j]).0
            != k,
        forall|j: int| 0 <= j < assoc_remove(s, k).len() ==> exists|i: int|
            0 <= i < s.len() && #[trigger] assoc_remove(s, k)[j] == s[i],
        assoc_find(assoc_remove(s, k), k) is None,
    decreases s.len(),
{
    let r = assoc_remove(s, k);
    if s.len() == 0 {
    } else if s[0].0 == k {
        assert(r == s.skip(1));
        assert forall|i: int, j: int| 0 <= i < j < r.len() implies (#[trigger] r[i]).0 != (
        #[trigger] r[j]).0 by {
            assert(r[i] == s[i + 1] && r[j] == s[j + 1]);
        }
        assert forall|j: int| 0 <= j < r.len() implies (#[trigger] r[j]).0 != k by {
            assert(r[j] == s[j + 1]);
            assert(s[0].0 != s[j + 1].0);
        }
        assert forall|j: int| 0 <= j < r.len() implies exists|i: int|
            0 <= i < s.len() && #[trigger] r[j] == s[i] by {
            assert(r[j] == s[j + 1]);
        }
        lemma_assoc_find_absent(r, k);
    } else {
        assert(exec_ids_unique(s.skip(1))) by {
            assert(forall|j: int| 0 <= j < s.len() - 1 ==> (#[trigger] s.skip(1)[j]) == s[j + 1]);
        }
        lemma_assoc_remove_unique(s.skip(1), k);
        let rr = assoc_remove(s.skip(1), k);
        assert(r =~= seq![s[0]] + rr);
        // every entry of the tail result stood in the tail, so its key
        // differs from the head's
        assert forall|j: int| 0 <= j < rr.len() implies (#[trigger] rr[j]).0 != s[0].0 by {
            let i = choose|i: int| 0 <= i < s.skip(1).len() && rr[j] == s.skip(1)[i];
            assert(s.skip(1)[i] == s[i + 1]);
            assert(s[0].0 != s[i + 1].0);
        }
        assert forall|i: int, j: int| 0 <= i < j < r.len() implies (#[trigger] r[i]).0 != (
        #[trigger] r[j]).0 by {
            if i == 0 {
                assert(r[j] == rr[j - 1]);
            } else {
                assert(r[i] == rr[i - 1] && r[j] == rr[j - 1]);
            }
        }
        assert forall|j: int| 0 <= j < r.len() implies (#[trigger] r[j]).0 != k by {
            if j > 0 {
                assert(r[j] == rr[j - 1]);
            }
        }
        assert forall|j: int| 0 <= j < r.len() implies exists|i: int|
            0 <= i < s.len() && #[trigger] r[j] == s[i] by {
            if j == 0 {
                assert(r[0] == s[0]);
            } else {
                assert(r[j] == rr[j - 1]);
                let i = choose|i: int| 0 <= i < s.skip(1).len() && rr[j - 1] == s.skip(1)[i];
                assert(s.skip(1)[i] == s[i + 1]);
            }
        }
        lemma_assoc_find_absent(r, k);
    }
}

/// The router and its tables. All of it lives inside the reader task; the
/// façade talks to it only through registrations.
pub struct Router {
    /// How many one-shots wait, in FIFO order, for an unsolicited order ID.
    pub order_id_reqs: usize,
    /// Request IDs whose first correlated reply is still awaited.
    pub pending: HashMap<i32, ()>,
    /// Live order trackers by order ID.
    pub trackers: HashMap<i32, TrackerState>,
    /// Live tickers by request ID.
    pub tickers: HashMap<i32, TickerState>,
    /// Contract-details batches still accumulating, by request ID.
    pub contract_details_cache: HashMap<i32, Vec<ContractDetails>>,
    /// Executions whose commission report is still owed: exec ID to order
    /// ID.
    pub executions_by_exec_id: Vec<(String, i32)>,
    /// Positions accumulating until the account update ends.
    pub positions_cache: Vec<Position>,
    /// The account view.
    pub account: AccountState,
}

impl Router {
    /// A request ID never sits in `pending` and in a live subscription
    /// table at once, and the exec-ID table holds each exec ID at most
    /// once.
    pub open spec fn wf(self) -> bool {
        &&& forall|id: i32| #[trigger] self.pending@.contains_key(id)
            ==> !self.tickers@.contains_key(id) && !self.trackers@.contains_key(id)
        &&& exec_ids_unique(execs_view(self.executions_by_exec_id@))
    }

    /// The order-ID waiter count, the positions cache and the account view
    /// are untouched.
    pub open spec fn same_account_side(self, o: Router) -> bool {
        self.order_id_reqs == o.order_id_reqs && self.positions_cache@ == o.positions_cache@
            && self.account == o.account
    }

    /// The tracker table keeps its domain, and every tracker other than the
    /// one at `oid` keeps its value.
    pub open spec fn trackers_same_except(self, o: Router, oid: i32) -> bool {
        self.trackers@.dom() == o.trackers@.dom() && forall|k: i32|
            #[trigger] self.trackers@.contains_key(k) && k != oid ==> self.trackers@[k]
                == o.trackers@[k]
    }

    /// A fresh router: every table empty.
    pub fn new() -> (r: Router)
        ensures
            r.wf(),
            r.order_id_reqs == 0,
            r.pending@ =~= Map::<i32, ()>::empty(),
            r.trackers@ =~= Map::<i32, TrackerState>::empty(),
            r.tickers@ =~= Map::<i32, TickerState>::empty(),
            r.contract_details_cache@ =~= Map::<i32, Vec<ContractDetails>>::empty(),
            execs_view(r.executions_by_exec_id@) =~= Seq::<(Seq<char>, i32)>::empty(),
            r.positions_cache@.len() == 0,
    {
        let r = Router {
            order_id_reqs: 0,
            pending: HashMap::new(),
            trackers: HashMap::new(),
            tickers: HashMap::new(),
            contract_details_cache: HashMap::new(),
            executions_by_exec_id: Vec::new(),
            positions_cache: Vec::new(),
            account: AccountState::new(),
        };
        proof {
            assert(execs_view(r.executions_by_exec_id@) =~= Seq::<(Seq<char>, i32)>::empty());
        }
        r
    }

    /// Register: the next unsolicited order ID belongs to a new one-shot.
    pub fn register_order_id_request(&mut self)
        requires
            old(self).wf(),
            old(self).order_id_reqs < usize::MAX,
        ensures
            final(self).wf(),
            final(self).order_id_reqs == old(self).order_id_reqs + 1,
            final(self).pending@ == old(self).pending@,
            final(self).tickers@ == old(self).tickers@,
            final(self).trackers@ == old(self).trackers@,
            final(self).contract_details_cache@ == old(self).contract_details_cache@,
            final(self).executions_by_exec_id@ == old(self).executions_by_exec_id@,
            final(self).positions_cache@ == old(self).positions_cache@,
            final(self).account == old(self).account,
    {
        self.order_id_reqs = self.order_id_reqs + 1;
    }

    /// Register: expect a first correlated reply for this request ID. A
    /// registration under an ID that already streams is refused, so an ID
    /// never lives in two tables.
    pub fn register_request(&mut self, id: i32) -> (accepted: bool)
        requires
            old(self).wf(),
        ensures
            final(self).wf(),
            accepted == (!old(self).tickers@.contains_key(id) && !old(self).trackers@.contains_key(
                id,
            )),
            accepted ==> final(self).pending@ == old(self).pending@.insert(id, ()),
            !accepted ==> final(self).pending@ == old(self).pending@,
            final(self).tickers@ == old(self).tickers@,
            final(self).trackers@ == old(self).trackers@,
            final(self).contract_details_cache@ == old(self).contract_details_cache@,
            final(self).executions_by_exec_id@ == old(self).executions_by_exec_id@,
            final(self).same_account_side(*old(self)),
    {
        if self.tickers.contains_key(&id) || self.trackers.contains_key(&id) {
            return false;
        }
        self.pending.insert(id, ());
        true
    }

    /// Route an unsolicited order ID: the front waiter, if any, gets it.
    pub fn on_order_id(&mut self, id: i32) -> (r: Option<Action>)
        requires
            old(self).wf(),
        ensures
            final(self).wf(),
            old(self).order_id_reqs > 0 ==> r == Some(Action::DeliverOrderId { id })
                && final(self).order_id_reqs == old(self).order_id_reqs - 1,
            old(self).order_id_reqs == 0 ==> r is None && *final(self) == *old(self),
            final(self).pending@ == old(self).pending@,
            final(self).tickers@ == old(self).tickers@,
            final(self).trackers@ == old(self).trackers@,
            final(self).contract_details_cache@ == old(self).contract_details_cache@,
            final(self).executions_by_exec_id@ == old(self).executions_by_exec_id@,
            final(self).positions_cache@ == old(self).positions_cache@,
            final(self).account == old(self).account,
    {
        if self.order_id_reqs > 0 {
            self.order_id_reqs = self.order_id_reqs - 1;
            Some(Action::DeliverOrderId { id })
        } else {
            None
        }
    }

    /// Accumulate one contract-details record under its request ID.
    pub fn on_contract_details(&mut self, req_id: i32, details: ContractDetails)
        requires
            old(self).wf(),
        ensures
            final(self).wf(),
            final(self).contract_details_cache@.contains_key(req_id),
            old(self).contract_details_cache@.contains_key(req_id) ==> final(self).contract_details_cache@[req_id]@ == old(self).contract_details_cache@[req_id]@.push(
                details,
            ),
            !old(self).contract_details_cache@.contains_key(req_id) ==> final(self).contract_details_cache@[req_id]@ =~= seq![details],
            // batches for other request IDs are untouched
            final(self).contract_details_cache@.dom() == old(self).contract_details_cache@.dom().insert(req_id),
            forall|k: i32| #[trigger] final(self).contract_details_cache@.contains_key(k) && k
                != req_id ==> final(self).contract_details_cache@[k] == old(self).contract_details_cache@[k],
            final(self).pending@ == old(self).pending@,
            final(self).tickers@ == old(self).tickers@,
            final(self).trackers@ == old(self).trackers@,
            final(self).order_id_reqs == old(self).order_id_reqs,
            final(self).executions_by_exec_id@ == old(self).executions_by_exec_id@,
            final(self).positions_cache@ == old(self).positions_cache@,
            final(self).account == old(self).account,
    {
        let ghost cdc0 = self.contract_details_cache@;
        match self.contract_details_cache.remove(&req_id) {
            Some(mut v) => {
                v.push(details);
                self.contract_details_cache.insert(req_id, v);
                proof {
                    assert(self.contract_details_cache@.dom() =~= cdc0.dom().insert(req_id));
                }
            },
            None => {
                let mut v: Vec<ContractDetails> = Vec::new();
                v.push(details);
                proof {
                    assert(v@ =~= seq![details]);
                }
                self.contract_details_cache.insert(req_id, v);
                proof {
                    assert(self.contract_details_cache@.dom() =~= cdc0.dom().insert(req_id));
                }
            },
        }
    }

    /// The details batch is complete: deliver it (or an empty one) to the
    /// pending one-shot, and drain both tables for this ID.
    pub fn on_contract_details_end(&mut self, req_id: i32) -> (r: Option<Action>)
        requires
            old(self).wf(),
        ensures
            final(self).wf(),
            // the caches keyed by this request ID are drained
            !final(self).contract_details_cache@.contains_key(req_id),
            !final(self).pending@.contains_key(req_id),
            final(self).contract_details_cache@ == old(self).contract_details_cache@.remove(
                req_id,
            ),
            final(self).pending@ == old(self).pending@.remove(req_id),
            // delivery happens exactly when a request was pending
            old(self).pending@.contains_key(req_id) <==> (r matches Some(
                Action::DeliverContractDetails { req_id: rid, .. },
            ) && rid == req_id),
            old(self).pending@.contains_key(req_id) && old(self).contract_details_cache@.contains_key(req_id) ==> (r matches Some(
                Action::DeliverContractDetails { details, .. },
            ) && details@ == old(self).contract_details_cache@[req_id]@),
            // with nothing accumulated, the delivered batch is empty
            old(self).pending@.contains_key(req_id) && !old(self).contract_details_cache@.contains_key(req_id) ==> (r matches Some(
                Action::DeliverContractDetails { details, .. },
            ) && details@.len() == 0),
            final(self).tickers@ == old(self).tickers@,
            final(self).trackers@ == old(self).trackers@,
            final(self).order_id_reqs == old(self).order_id_reqs,
            final(self).executions_by_exec_id@ == old(self).executions_by_exec_id@,
            final(self).positions_cache@ == old(self).positions_cache@,
            final(self).account == old(self).account,
    {
        let cached = self.contract_details_cache.remove(&req_id);
        if self.pending.remove(&req_id).is_some() {
            let details = match cached {
                Some(v) => v,
                None => Vec::new(),
            };
            Some(Action::DeliverContractDetails { req_id, details })
        } else {
            None
        }
    }

    /// Route an open-order frame. The first one for a pending order ID
    /// creates the tracker, exactly once; later ones update it; without a
    /// pending request or a tracker the frame is dropped.
    pub fn on_open_order(&mut self, order: crate::types::Order, state: crate::types::OrderState)
        -> (r: Option<Action>)
        requires
            old(self).wf(),
        ensures
            final(self).wf(),
            ({
                let oid = order.order_id;
                // creation happens exactly on the first frame for a pending ID
                &&& (old(self).pending@.contains_key(oid) ==> r == Some(
                    Action::TrackerCreated { order_id: oid },
                ) && final(self).trackers@.contains_key(oid) && final(self).trackers@[oid].order
                    == order && final(self).trackers@[oid].order_state == state && final(self).trackers@[oid].status is None && final(self).trackers@[oid].executions@.len()
                    == 0 && final(self).trackers@[oid].commission_reports@.len() == 0 && final(self).pending@ == old(self).pending@.remove(oid) && final(self).trackers@ == old(self).trackers@.insert(oid, final(self).trackers@[oid]))
                // creation is idempotent: an existing tracker is only updated
                &&& (!old(self).pending@.contains_key(oid) && old(self).trackers@.contains_key(oid)
                    ==> r == Some(Action::TrackerUpdated { order_id: oid }) && final(self).trackers_same_except(*old(self), oid) && final(self).trackers@[oid].order
                    == order && final(self).trackers@[oid].order_state == state && final(self).trackers@[oid].status == old(self).trackers@[oid].status && final(self).trackers@[oid].executions == old(self).trackers@[oid].executions && final(self).trackers@[oid].commission_reports == old(self).trackers@[oid].commission_reports && final(self).pending@ == old(self).pending@)
                &&& (!old(self).pending@.contains_key(oid) && !old(self).trackers@.contains_key(
                    oid,
                ) ==> r is None && final(self).pending@ == old(self).pending@ && final(self).trackers@ == old(self).trackers@)
                &&& final(self).tickers@ == old(self).tickers@
                &&& final(self).contract_details_cache@ == old(self).contract_details_cache@
                &&& final(self).executions_by_exec_id@ == old(self).executions_by_exec_id@
                &&& final(self).same_account_side(*old(self))
            }),
    {
        let oid = order.order_id;
        if self.pending.remove(&oid).is_some() {
            let t = TrackerState::new(order, state);
            self.trackers.insert(oid, t);
            proof {
                assert(self.trackers@.dom() =~= old(self).trackers@.dom().insert(oid));
            }
            Some(Action::TrackerCreated { order_id: oid })
        } else {
            proof {
                assert(self.pending@ =~= old(self).pending@);
            }
            match self.trackers.remove(&oid) {
                Some(mut t) => {
                    t.order = order;
                    t.order_state = state;
                    self.trackers.insert(oid, t);
                    proof {
                        assert(self.trackers@.dom() =~= old(self).trackers@.dom());
                    }
                    Some(Action::TrackerUpdated { order_id: oid })
                },
                None => {
                    proof {
                        assert(self.trackers@ =~= old(self).trackers@);
                    }
                    None
                },
            }
        }
    }

    /// Publish an order status into its tracker, if one exists.
    pub fn on_order_status(&mut self, status: OrderStatusData) -> (r: Option<Action>)
        requires
            old(self).wf(),
        ensures
            final(self).wf(),
            old(self).trackers@.contains_key(status.order_id) ==> r == Some(
                Action::TrackerUpdated { order_id: status.order_id },
            ) && final(self).trackers@[status.order_id].status == Some(status) && final(self).trackers_same_except(*old(self), status.order_id) && final(self).trackers@[status.order_id].order == old(self).trackers@[status.order_id].order
                && final(self).trackers@[status.order_id].order_state == old(self).trackers@[status.order_id].order_state && final(self).trackers@[status.order_id].executions == old(self).trackers@[status.order_id].executions && final(self).trackers@[status.order_id].commission_reports == old(self).trackers@[status.order_id].commission_reports,
            !old(self).trackers@.contains_key(status.order_id) ==> r is None && final(self).trackers@ == old(self).trackers@,
            final(self).pending@ == old(self).pending@,
            final(self).tickers@ == old(self).tickers@,
            final(self).contract_details_cache@ == old(self).contract_details_cache@,
            final(self).executions_by_exec_id@ == old(self).executions_by_exec_id@,
            final(self).same_account_side(*old(self)),
    {
        let oid = status.order_id;
        match self.trackers.remove(&oid) {
            Some(mut t) => {
                t.status = Some(status);
                self.trackers.insert(oid, t);
                proof {
                    assert(self.trackers@.dom() =~= old(self).trackers@.dom());
                }
                Some(Action::TrackerUpdated { order_id: oid })
            },
            None => {
                proof {
                    assert(self.trackers@ =~= old(self).trackers@);
                }
                None
            },
        }
    }

    /// Route an execution: record which order its exec ID belongs to —
    /// replacing any stale entry for the same exec ID — and append it to
    /// that tracker. An execution for an unknown order is dropped and
    /// leaves no table entry behind.
    pub fn on_execution(&mut self, e: Execution) -> (r: Option<Action>)
        requires
            old(self).wf(),
        ensures
            final(self).wf(),
            final(self).pending@ == old(self).pending@,
            final(self).tickers@ == old(self).tickers@,
            final(self).contract_details_cache@ == old(self).contract_details_cache@,
            final(self).same_account_side(*old(self)),
            old(self).trackers@.contains_key(e.order_id) ==> ({
                &&& r == Some(Action::TrackerUpdated { order_id: e.order_id })
                &&& execs_view(final(self).executions_by_exec_id@) == assoc_remove(
                    execs_view(old(self).executions_by_exec_id@),
                    e.exec_id@,
                ).push((e.exec_id@, e.order_id))
                &&& assoc_find(execs_view(final(self).executions_by_exec_id@), e.exec_id@)
                    == Some(e.order_id)
                &&& final(self).trackers_same_except(*old(self), e.order_id)
                &&& final(self).trackers@[e.order_id].executions@ == old(self).trackers@[e.order_id].executions@.push(e)
                &&& final(self).trackers@[e.order_id].order == old(self).trackers@[e.order_id].order
                &&& final(self).trackers@[e.order_id].order_state == old(self).trackers@[e.order_id].order_state
                &&& final(self).trackers@[e.order_id].status == old(self).trackers@[e.order_id].status
                &&& final(self).trackers@[e.order_id].commission_reports == old(self).trackers@[e.order_id].commission_reports
            }),
            !old(self).trackers@.contains_key(e.order_id) ==> r is None && final(self).trackers@
                == old(self).trackers@ && final(self).executions_by_exec_id@ == old(self).executions_by_exec_id@,
    {
        let oid = e.order_id;
        match self.trackers.remove(&oid) {
            Some(mut t) => {
                // drop any stale entry for this exec ID, then record the
                // fresh one: the table holds each exec ID at most once
                let ghost before = execs_view(old(self).executions_by_exec_id@);
                let _stale = self.take_exec_entry(&e.exec_id);
                proof {
                    lemma_assoc_remove_unique(before, e.exec_id@);
                }
                let key = e.exec_id.clone();
                t.executions.push(e);
                self.executions_by_exec_id.push((key, oid));
                self.trackers.insert(oid, t);
                proof {
                    let removed = assoc_remove(before, e.exec_id@);
                    assert(execs_view(self.executions_by_exec_id@) =~= removed.push(
                        (e.exec_id@, oid),
                    ));
                    lemma_unique_push(removed, e.exec_id@, oid);
                    lemma_assoc_find_push(removed, e.exec_id@, oid);
                    assert(self.trackers@.dom() =~= old(self).trackers@.dom());
                }
                Some(Action::TrackerUpdated { order_id: oid })
            },
            None => {
                proof {
                    assert(self.trackers@ =~= old(self).trackers@);
                }
                None
            },
        }
    }

    /// Route a commission report: it goes to the same tracker as the
    /// execution that announced its exec ID, and that exec ID is then
    /// forgotten, so a second report for it is dropped.
    pub fn on_commission_report(&mut self, c: CommissionReport) -> (r: Option<Action>)
        requires
            old(self).wf(),
        ensures
            final(self).wf(),
            final(self).pending@ == old(self).pending@,
            final(self).tickers@ == old(self).tickers@,
            final(self).contract_details_cache@ == old(self).contract_details_cache@,
            final(self).same_account_side(*old(self)),
            // the exec ID is no longer in the table afterwards, routed or not
            execs_view(final(self).executions_by_exec_id@) == assoc_remove(
                execs_view(old(self).executions_by_exec_id@),
                c.exec_id@,
            ),
            assoc_find(execs_view(final(self).executions_by_exec_id@), c.exec_id@) is None,
            ({
                let found = assoc_find(execs_view(old(self).executions_by_exec_id@), c.exec_id@);
                // routed to exactly the recorded order's tracker
                &&& (match found {
                    Some(oid) => {
                        if old(self).trackers@.contains_key(oid) {
                            &&& r == Some(Action::TrackerUpdated { order_id: oid })
                            &&& final(self).trackers_same_except(*old(self), oid)
                            &&& final(self).trackers@[oid].commission_reports@ == old(self).trackers@[oid].commission_reports@.push(c)
                            &&& final(self).trackers@[oid].order == old(self).trackers@[oid].order
                            &&& final(self).trackers@[oid].order_state == old(self).trackers@[oid].order_state
                            &&& final(self).trackers@[oid].status == old(self).trackers@[oid].status
                            &&& final(self).trackers@[oid].executions == old(self).trackers@[oid].executions
                        } else {
                            r is None && final(self).trackers@ == old(self).trackers@
                        }
                    },
                    None => r is None && final(self).trackers@ == old(self).trackers@,
                })
            }),
    {
        proof {
            lemma_assoc_remove_unique(execs_view(old(self).executions_by_exec_id@), c.exec_id@);
        }
        let oid = match self.take_exec_entry(&c.exec_id) {
            Some(oid) => oid,
            None => {
                return None;
            },
        };
        match self.trackers.remove(&oid) {
            Some(mut t) => {
                t.commission_reports.push(c);
                self.trackers.insert(oid, t);
                proof {
                    assert(self.trackers@.dom() =~= old(self).trackers@.dom());
                }
                Some(Action::TrackerUpdated { order_id: oid })
            },
            None => {
                proof {
                    assert(self.trackers@ =~= old(self).trackers@);
                }
                None
            },
        }
    }

    /// Find and remove the entry for an exec ID.
    fn take_exec_entry(&mut self, key: &String) -> (r: Option<i32>)
        requires
            old(self).wf(),
        ensures
            final(self).wf(),
            r == assoc_find(execs_view(old(self).executions_by_exec_id@), key@),
            execs_view(final(self).executions_by_exec_id@) == assoc_remove(
                execs_view(old(self).executions_by_exec_id@),
                key@,
            ),
            final(self).pending@ == old(self).pending@,
            final(self).tickers@ == old(self).tickers@,
            final(self).trackers@ == old(self).trackers@,
            final(self).order_id_reqs == old(self).order_id_reqs,
            final(self).contract_details_cache@ == old(self).contract_details_cache@,
            final(self).positions_cache@ == old(self).positions_cache@,
            final(self).account == old(self).account,
    {
        let ghost orig = execs_view(self.executions_by_exec_id@);
        proof {
            assert(orig.skip(0) =~= orig);
            assert(orig.subrange(0, 0) + assoc_remove(orig.skip(0), key@) =~= assoc_remove(
                orig,
                key@,
            ));
        }
        let n = self.executions_by_exec_id.len();
        let mut i: usize = 0;
        while i < n
            invariant
                i <= n == self.executions_by_exec_id@.len(),
                orig == execs_view(self.executions_by_exec_id@),
                orig == execs_view(old(self).executions_by_exec_id@),
                self.wf(),
                self.pending@ == old(self).pending@,
                self.tickers@ == old(self).tickers@,
                self.trackers@ == old(self).trackers@,
                self.order_id_reqs == old(self).order_id_reqs,
                self.contract_details_cache@ == old(self).contract_details_cache@,
                self.positions_cache@ == old(self).positions_cache@,
                self.account == old(self).account,
                forall|j: int| 0 <= j < i ==> orig[j].0 != key@,
                assoc_find(orig, key@) == assoc_find(orig.skip(i as int), key@),
                assoc_remove(orig, key@) == orig.subrange(0, i as int) + assoc_remove(
                    orig.skip(i as int),
                    key@,
                ),
            decreases n - i,
        {
            let hit = String::eq(&self.executions_by_exec_id[i].0, key);
            proof {
                assert(orig.skip(i as int)[0] == orig[i as int]);
            }
            if hit {
                proof {
                    assert(orig[i as int].0 == self.executions_by_exec_id@[i as int].0@);
                    assert(orig[i as int].1 == self.executions_by_exec_id@[i as int].1);
                    assert(orig.skip(i as int)[0] == orig[i as int]);
                    assert(assoc_find(orig.skip(i as int), key@) == Some(orig[i as int].1));
                }
                let entry = self.executions_by_exec_id.remove(i);
                proof {
                    assert(orig.skip(i as int).skip(1) =~= orig.skip(i as int + 1));
                    assert(execs_view(self.executions_by_exec_id@) =~= orig.subrange(
                        0,
                        i as int,
                    ) + orig.skip(i as int + 1));
                    assert(assoc_remove(orig.skip(i as int), key@) =~= orig.skip(i as int + 1));
                    assert(entry.1 == orig[i as int].1);
                    assert(Some(entry.1) == assoc_find(orig, key@));
                    assert(execs_view(self.executions_by_exec_id@) == assoc_remove(orig, key@));
                    assert(orig == execs_view(old(self).executions_by_exec_id@));
                }
                return Some(entry.1);
            }
            proof {
                assert(orig.skip(i as int).skip(1) =~= orig.skip(i as int + 1));
                assert(orig.subrange(0, i as int).push(orig[i as int]) =~= orig.subrange(
                    0,
                    i as int + 1,
                ));
                assert(seq![orig[i as int]] + assoc_remove(orig.skip(i as int + 1), key@)
                    =~= orig.subrange(i as int, i as int + 1) + assoc_remove(
                    orig.skip(i as int + 1),
                    key@,
                ));
                assert(orig.subrange(0, i as int) + (orig.subrange(i as int, i as int + 1)
                    + assoc_remove(orig.skip(i as int + 1), key@)) =~= orig.subrange(
                    0,
                    i as int + 1,
                ) + assoc_remove(orig.skip(i as int + 1), key@));
            }
            i = i + 1;
        }
        proof {
            assert(orig.skip(n as int) =~= Seq::<(Seq<char>, i32)>::empty());
            assert(assoc_remove(orig, key@) =~= orig.subrange(0, n as int));
            assert(orig.subrange(0, n as int) =~= orig);
        }
        None
    }

    /// Route a tick. The first tick for a pending request ID creates the
    /// ticker, exactly once; the tick is then applied to the ticker's
    /// latest-value fields, so each field holds the most recently published
    /// value of its kind.
    pub fn on_tick(&mut self, f: &Frame) -> (r: Option<Action>)
        requires
            old(self).wf(),
            f is PriceTick || f is SizeTick || f is GenericTick,
            f@.wf(),
        ensures
            final(self).wf(),
            final(self).trackers@ == old(self).trackers@,
            final(self).contract_details_cache@ == old(self).contract_details_cache@,
            final(self).executions_by_exec_id@ == old(self).executions_by_exec_id@,
            final(self).same_account_side(*old(self)),
            ({
                let rid = tick_req_id(f@);
                // at most one ticker is ever created under one request ID,
                // and the new ticker is exactly the fresh state with this
                // tick applied
                &&& (old(self).pending@.contains_key(rid) ==> r == Some(
                    Action::TickerCreated { req_id: rid },
                ) && !old(self).tickers@.contains_key(rid) && final(self).pending@ == old(self).pending@.remove(rid) && final(self).tickers@ == old(self).tickers@.insert(
                    rid,
                    spec_apply_tick(crate::sinks::spec_init_ticker(), f@),
                ))
                // an existing ticker takes the tick's values, nothing else
                // changes
                &&& (!old(self).pending@.contains_key(rid) && old(self).tickers@.contains_key(rid)
                    ==> r == Some(Action::TickerUpdated { req_id: rid }) && final(self).pending@
                    == old(self).pending@ && final(self).tickers@ == old(self).tickers@.insert(
                    rid,
                    spec_apply_tick(old(self).tickers@[rid], f@),
                ))
                &&& (!old(self).pending@.contains_key(rid) && !old(self).tickers@.contains_key(rid)
                    ==> r is None && final(self).pending@ == old(self).pending@ && final(self).tickers@ == old(self).tickers@)
            }),
    {
        let rid = match f {
            Frame::PriceTick { req_id, .. } => *req_id,
            Frame::SizeTick { req_id, .. } => *req_id,
            Frame::GenericTick { req_id, .. } => *req_id,
            _ => {
                return None;
            },
        };
        let ghost t0 = if old(self).pending@.contains_key(rid) {
            crate::sinks::spec_init_ticker()
        } else {
            old(self).tickers@[rid]
        };
        let created = self.pending.remove(&rid).is_some();
        if created {
            self.tickers.insert(rid, TickerState::new());
        }
        match self.tickers.remove(&rid) {
            Some(mut t) => {
                proof {
                    assert(t == t0);
                }
                apply_tick(&mut t, f);
                self.tickers.insert(rid, t);
                proof {
                    assert(self.tickers@ =~= old(self).tickers@.insert(
                        rid,
                        spec_apply_tick(t0, f@),
                    ));
                }
                if created {
                    Some(Action::TickerCreated { req_id: rid })
                } else {
                    Some(Action::TickerUpdated { req_id: rid })
                }
            },
            None => {
                proof {
                    assert(self.pending@ =~= old(self).pending@);
                    assert(self.tickers@ =~= old(self).tickers@);
                }
                None
            },
        }
    }

    /// Deliver a complete bar series to the pending one-shot.
    pub fn on_bars(&mut self, req_id: i32, series: BarSeries) -> (r: Option<Action>)
        requires
            old(self).wf(),
        ensures
            final(self).wf(),
            final(self).pending@ == old(self).pending@.remove(req_id),
            old(self).pending@.contains_key(req_id) ==> (r matches Some(
                Action::DeliverBars { req_id: rid, series: s },
            ) && rid == req_id && s == series),
            !old(self).pending@.contains_key(req_id) ==> r is None,
            final(self).tickers@ == old(self).tickers@,
            final(self).trackers@ == old(self).trackers@,
            final(self).contract_details_cache@ == old(self).contract_details_cache@,
            final(self).executions_by_exec_id@ == old(self).executions_by_exec_id@,
            final(self).same_account_side(*old(self)),
    {
        if self.pending.remove(&req_id).is_some() {
            Some(Action::DeliverBars { req_id, series })
        } else {
            None
        }
    }

    /// A publish to this ticker failed: the caller dropped its receiver, so
    /// the subscription is evicted.
    pub fn ticker_dead(&mut self, req_id: i32)
        requires
            old(self).wf(),
        ensures
            final(self).wf(),
            !final(self).tickers@.contains_key(req_id),
            final(self).tickers@ == old(self).tickers@.remove(req_id),
            final(self).pending@ == old(self).pending@,
            final(self).trackers@ == old(self).trackers@,
            final(self).contract_details_cache@ == old(self).contract_details_cache@,
            final(self).executions_by_exec_id@ == old(self).executions_by_exec_id@,
            final(self).same_account_side(*old(self)),
    {
        self.tickers.remove(&req_id);
    }

    /// A publish to this tracker failed: the caller dropped its receiver,
    /// so the subscription is evicted.
    pub fn tracker_dead(&mut self, order_id: i32)
        requires
            old(self).wf(),
        ensures
            final(self).wf(),
            !final(self).trackers@.contains_key(order_id),
            final(self).trackers@ == old(self).trackers@.remove(order_id),
            final(self).pending@ == old(self).pending@,
            final(self).tickers@ == old(self).tickers@,
            final(self).contract_details_cache@ == old(self).contract_details_cache@,
            final(self).executions_by_exec_id@ == old(self).executions_by_exec_id@,
            final(self).same_account_side(*old(self)),
    {
        self.trackers.remove(&order_id);
    }

    /// A pending one-shot was cancelled by its caller: forget the request.
    pub fn pending_dead(&mut self, req_id: i32)
        requires
            old(self).wf(),
        ensures
            final(self).wf(),
            !final(self).pending@.contains_key(req_id),
            final(self).pending@ == old(self).pending@.remove(req_id),
            final(self).tickers@ == old(self).tickers@,
            final(self).trackers@ == old(self).trackers@,
            final(self).contract_details_cache@ == old(self).contract_details_cache@,
            final(self).executions_by_exec_id@ == old(self).executions_by_exec_id@,
            final(self).same_account_side(*old(self)),
    {
        self.pending.remove(&req_id);
    }

    /// Accumulate one portfolio position.
    pub fn on_portfolio_value(&mut self, p: Position)
        requires
            old(self).wf(),
        ensures
            final(self).wf(),
            final(self).positions_cache@ == old(self).positions_cache@.push(p),
            final(self).pending@ == old(self).pending@,
            final(self).tickers@ == old(self).tickers@,
            final(self).trackers@ == old(self).trackers@,
            final(self).contract_details_cache@ == old(self).contract_details_cache@,
            final(self).executions_by_exec_id@ == old(self).executions_by_exec_id@,
            final(self).order_id_reqs == old(self).order_id_reqs,
            final(self).account == old(self).account,
    {
        self.positions_cache.push(p);
    }

    /// The account update batch ended: swap the accumulated positions into
    /// the portfolio cell and reset the cache.
    pub fn on_account_update_end(&mut self)
        requires
            old(self).wf(),
        ensures
            final(self).wf(),
            final(self).account.portfolio matches Some(v) && v@ == old(self).positions_cache@,
            // only the portfolio cell of the account view changes
            final(self).account == (AccountState {
                portfolio: final(self).account.portfolio,
                ..old(self).account
            }),
            final(self).positions_cache@.len() == 0,
            final(self).pending@ == old(self).pending@,
            final(self).tickers@ == old(self).tickers@,
            final(self).trackers@ == old(self).trackers@,
            final(self).contract_details_cache@ == old(self).contract_details_cache@,
            final(self).executions_by_exec_id@ == old(self).executions_by_exec_id@,
            final(self).order_id_reqs == old(self).order_id_reqs,
    {
        let mut swapped: Vec<Position> = Vec::new();
        std::mem::swap(&mut swapped, &mut self.positions_cache);
        self.account.portfolio = Some(swapped);
    }

    /// Publish one account frame into its cell of the account view: each
    /// scalar is a latest-value cell, so the cell takes the frame's value
    /// and every other cell keeps its own.
    pub fn on_account_frame(&mut self, f: Frame) -> (r: Option<Action>)
        requires
            old(self).wf(),
            f is AccountCode || f is AccountType || f is AccountUpdateTime || f is CashBalance
                || f is EquityWithLoanValue || f is ExcessLiquidity || f is NetLiquidation
                || f is UnrealizedPnL || f is RealizedPnL || f is TotalCashBalance,
        ensures
            final(self).wf(),
            r == Some(Action::AccountChanged),
            final(self).pending@ == old(self).pending@,
            final(self).tickers@ == old(self).tickers@,
            final(self).trackers@ == old(self).trackers@,
            final(self).contract_details_cache@ == old(self).contract_details_cache@,
            final(self).executions_by_exec_id@ == old(self).executions_by_exec_id@,
            final(self).positions_cache@ == old(self).positions_cache@,
            final(self).order_id_reqs == old(self).order_id_reqs,
            match f@ {
                crate::frame::FrameV::AccountCode(v) => (final(self).account.account_code
                    matches Some(x) && x@ == v) && final(self).account == (AccountState {
                    account_code: final(self).account.account_code,
                    ..old(self).account
                }),
                crate::frame::FrameV::AccountType(v) => (final(self).account.account_type
                    matches Some(x) && x@ == v) && final(self).account == (AccountState {
                    account_type: final(self).account.account_type,
                    ..old(self).account
                }),
                crate::frame::FrameV::AccountUpdateTime(v) => (final(self).account.update_time
                    matches Some(x) && x@ == v) && final(self).account == (AccountState {
                    update_time: final(self).account.update_time,
                    ..old(self).account
                }),
                crate::frame::FrameV::CashBalance(d) => final(self).account.cash_balance == Some(
                    d,
                ) && final(self).account == (AccountState {
                    cash_balance: final(self).account.cash_balance,
                    ..old(self).account
                }),
                crate::frame::FrameV::EquityWithLoanValue(d) => final(self).account.equity_with_loan_value == Some(d) && final(self).account
                    == (AccountState {
                    equity_with_loan_value: final(self).account.equity_with_loan_value,
                    ..old(self).account
                }),
                crate::frame::FrameV::ExcessLiquidity(d) => final(self).account.excess_liquidity
                    == Some(d) && final(self).account == (AccountState {
                    excess_liquidity: final(self).account.excess_liquidity,
                    ..old(self).account
                }),
                crate::frame::FrameV::NetLiquidation(d) => final(self).account.net_liquidation
                    == Some(d) && final(self).account == (AccountState {
                    net_liquidation: final(self).account.net_liquidation,
                    ..old(self).account
                }),
                crate::frame::FrameV::UnrealizedPnL(d) => final(self).account.unrealized_pnl
                    == Some(d) && final(self).account == (AccountState {
                    unrealized_pnl: final(self).account.unrealized_pnl,
                    ..old(self).account
                }),
                crate::frame::FrameV::RealizedPnL(d) => final(self).account.realized_pnl == Some(
                    d,
                ) && final(self).account == (AccountState {
                    realized_pnl: final(self).account.realized_pnl,
                    ..old(self).account
                }),
                crate::frame::FrameV::TotalCashBalance(d) => final(self).account.total_cash_balance == Some(d) && final(self).account == (AccountState {
                    total_cash_balance: final(self).account.total_cash_balance,
                    ..old(self).account
                }),
                _ => true,
            },
    {
        match f {
            Frame::AccountCode(v) => {
                self.account.account_code = Some(v);
            },
            Frame::AccountType(v) => {
                self.account.account_type = Some(v);
            },
            Frame::AccountUpdateTime(v) => {
                self.account.update_time = Some(v);
            },
            Frame::CashBalance(d) => {
                self.account.cash_balance = Some(d);
            },
            Frame::EquityWithLoanValue(d) => {
                self.account.equity_with_loan_value = Some(d);
            },
            Frame::ExcessLiquidity(d) => {
                self.account.excess_liquidity = Some(d);
            },
            Frame::NetLiquidation(d) => {
                self.account.net_liquidation = Some(d);
            },
            Frame::UnrealizedPnL(d) => {
                self.account.unrealized_pnl = Some(d);
            },
            Frame::RealizedPnL(d) => {
                self.account.realized_pnl = Some(d);
            },
            Frame::TotalCashBalance(d) => {
                self.account.total_cash_balance = Some(d);
            },
            _ => {},
        }
        Some(Action::AccountChanged)
    }

    /// Route a server error frame: a pending request under its ID fails
    /// with the error; without one, the shell only logs it.
    pub fn on_error(&mut self, req_id: i32, code: i32, message: String) -> (r: Option<Action>)
        requires
            old(self).wf(),
        ensures
            final(self).wf(),
            final(self).pending@ == old(self).pending@.remove(req_id),
            old(self).pending@.contains_key(req_id) ==> (r matches Some(
                Action::FailPending { req_id: rid, code: cd, message: m },
            ) && rid == req_id && cd == code && m@ == message@),
            !old(self).pending@.contains_key(req_id) ==> r is None,
            final(self).tickers@ == old(self).tickers@,
            final(self).trackers@ == old(self).trackers@,
            final(self).contract_details_cache@ == old(self).contract_details_cache@,
            final(self).executions_by_exec_id@ == old(self).executions_by_exec_id@,
            final(self).same_account_side(*old(self)),
    {
        if self.pending.remove(&req_id).is_some() {
            Some(Action::FailPending { req_id, code, message })
        } else {
            None
        }
    }
}

/// The request ID a tick frame carries.
pub open spec fn tick_req_id(f: crate::frame::FrameV) -> i32 {
    match f {
        crate::frame::FrameV::PriceTick { req_id, .. } => req_id,
        crate::frame::FrameV::SizeTick { req_id, .. } => req_id,
        crate::frame::FrameV::GenericTick { req_id, .. } => req_id,
        _ => 0,
    }
}

/// What one tick does to a ticker's latest-value fields. A price tick sets
/// the price and its size; a size tick sets one size; the shortable generic
/// tick sets the availability class; unknown kinds change nothing.
pub open spec fn spec_apply_tick(t: TickerState, f: crate::frame::FrameV) -> TickerState {
    match f {
        crate::frame::FrameV::PriceTick { kind, price, size, .. } => {
            if kind == TICK_BID || kind == TICK_DELAYED_BID {
                TickerState { bid: Some(price), bid_size: Some(size), ..t }
            } else if kind == TICK_ASK || kind == TICK_DELAYED_ASK {
                TickerState { ask: Some(price), ask_size: Some(size), ..t }
            } else if kind == TICK_LAST || kind == TICK_DELAYED_LAST {
                TickerState { last: Some(price), last_size: Some(size), ..t }
            } else {
                t
            }
        },
        crate::frame::FrameV::SizeTick { kind, size, .. } => {
            if kind == TICK_BID_SIZE || kind == TICK_DELAYED_BID_SIZE {
                TickerState { bid_size: Some(size), ..t }
            } else if kind == TICK_ASK_SIZE || kind == TICK_DELAYED_ASK_SIZE {
                TickerState { ask_size: Some(size), ..t }
            } else if kind == TICK_LAST_SIZE || kind == TICK_DELAYED_LAST_SIZE {
                TickerState { last_size: Some(size), ..t }
            } else if kind == TICK_SHORTABLE_SHARES {
                TickerState { shortable_shares: Some(size), ..t }
            } else {
                t
            }
        },
        crate::frame::FrameV::GenericTick { kind, value, .. } => {
            if kind == TICK_SHORTABLE {
                TickerState {
                    short_availability: Some(crate::sinks::spec_short_availability(value)),
                    ..t
                }
            } else {
                t
            }
        },
        _ => t,
    }
}

/// Apply one tick to a ticker's latest-value fields.
fn apply_tick(t: &mut TickerState, f: &Frame)
    requires
        f@.wf(),
    ensures
        *final(t) == spec_apply_tick(*old(t), f@),
{
    match f {
        Frame::PriceTick { kind, price, size, .. } => {
            let k = *kind;
            if k == TICK_BID || k == TICK_DELAYED_BID {
                t.bid = Some(*price);
                t.bid_size = Some(*size);
            } else if k == TICK_ASK || k == TICK_DELAYED_ASK {
                t.ask = Some(*price);
                t.ask_size = Some(*size);
            } else if k == TICK_LAST || k == TICK_DELAYED_LAST {
                t.last = Some(*price);
                t.last_size = Some(*size);
            }
        },
        Frame::SizeTick { kind, size, .. } => {
            let k = *kind;
            if k == TICK_BID_SIZE || k == TICK_DELAYED_BID_SIZE {
                t.bid_size = Some(*size);
            } else if k == TICK_ASK_SIZE || k == TICK_DELAYED_ASK_SIZE {
                t.ask_size = Some(*size);
            } else if k == TICK_LAST_SIZE || k == TICK_DELAYED_LAST_SIZE {
                t.last_size = Some(*size);
            } else if k == TICK_SHORTABLE_SHARES {
                t.shortable_shares = Some(*size);
            }
        },
        Frame::GenericTick { kind, value, .. } => {
            if *kind == TICK_SHORTABLE {
                t.short_availability = Some(short_availability_of(value));
            }
        },
        _ => {},
    }
}

} // verus!
