use vstd::prelude::*;

use crate::events::{
    app_views_of, lemma_app_views_of_props, lemma_app_views_of_push, AppEvent, AppEventView,
};

verus! {

// The in-process event bus.  Publishing delivers a copy of the event to
// every registered subscription's queue; each subscription observes, in
// publication order, exactly the events published after it subscribed and
// not yet drained — never one published before.
struct SubEntry {
    id: u64,
    queue: Vec<AppEvent>,
    joined: Ghost<int>,
    taken: Ghost<int>,
}

/// Publish/subscribe fanout of bus events to independent consumers.
pub struct EventBus {
    subs: Vec<SubEntry>,
    next_id: u64,
    hist: Ghost<Seq<AppEventView>>,
}

impl EventBus {
    /// Every event ever published, in order.
    pub closed spec fn history(&self) -> Seq<AppEventView> {
        self.hist@
    }

    closed spec fn distinct_ids(&self) -> bool {
        forall|i: int, j: int|
            0 <= i < j < self.subs@.len() ==> self.subs@[i].id != self.subs@[j].id
    }

    /// A subscription under this handle is registered.
    pub closed spec fn has_sub(&self, sid: u64) -> bool {
        exists|i: int| 0 <= i < self.subs@.len() && self.subs@[i].id == sid
    }

    closed spec fn idx_of(&self, sid: u64) -> int {
        choose|i: int| 0 <= i < self.subs@.len() && self.subs@[i].id == sid
    }

    /// What the subscription would observe if drained now: the events
    /// published since it subscribed and not yet drained, in order.
    pub closed spec fn pending(&self, sid: u64) -> Option<Seq<AppEventView>> {
        if self.has_sub(sid) {
            Some(app_views_of(self.subs@[self.idx_of(sid)].queue@))
        } else {
            None
        }
    }

    pub closed spec fn wf(&self) -> bool {
        &&& self.distinct_ids()
        &&& forall|i: int| 0 <= i < self.subs@.len() ==> self.subs@[i].id < self.next_id
        &&& forall|i: int|
            0 <= i < self.subs@.len() ==> 0 <= self.subs@[i].joined@ && 0 <= self.subs@[i].taken@
                && self.subs@[i].joined@ + self.subs@[i].taken@ <= self.hist@.len()
        &&& forall|i: int|
            0 <= i < self.subs@.len() ==> app_views_of(self.subs@[i].queue@) == self.hist@.subrange(
                self.subs@[i].joined@ + self.subs@[i].taken@,
                self.hist@.len() as int,
            )
    }

    /// Handles are not exhausted; holds until `u64::MAX` subscriptions
    /// were made.
    pub closed spec fn ids_left(&self) -> bool {
        self.next_id < u64::MAX
    }

    proof fn lemma_sub_at(&self, i: int)
        requires
            self.distinct_ids(),
            0 <= i < self.subs@.len(),
        ensures
            self.has_sub(self.subs@[i].id),
            self.idx_of(self.subs@[i].id) == i,
    {
        assert(0 <= i < self.subs@.len() && self.subs@[i].id == self.subs@[i].id);
        let j = self.idx_of(self.subs@[i].id);
        assert(0 <= j < self.subs@.len() && self.subs@[j].id == self.subs@[i].id);
    }

    /// What a subscription can still observe is a suffix of the
    /// publication history: the events published after it subscribed (and
    /// after whatever it already drained), in publication order — never
    /// one published before it subscribed.
    pub proof fn lemma_subscription_window(&self, sid: u64)
        requires
            self.wf(),
            self.pending(sid) is Some,
        ensures
            exists|start: int|
                0 <= start <= self.history().len() && self.pending(sid).unwrap()
                    == self.history().subrange(start, self.history().len() as int),
    {
        let i = self.idx_of(sid);
        let start = self.subs@[i].joined@ + self.subs@[i].taken@;
        assert(0 <= start <= self.history().len() && self.pending(sid).unwrap()
            == self.history().subrange(start, self.history().len() as int));
    }

    /// Runtime check for `ids_left`, so a caller can refuse further
    /// subscriptions instead of violating the precondition.
    pub fn can_subscribe(&self) -> (r: bool)
        ensures
            r == self.ids_left(),
    {
        self.next_id < u64::MAX
    }

    pub fn new() -> (r: EventBus)
        ensures
            r.wf(),
            r.ids_left(),
            r.history() == Seq::<AppEventView>::empty(),
            forall|sid: u64| r.pending(sid) is None,
    {
        EventBus { subs: Vec::new(), next_id: 0, hist: Ghost(Seq::empty()) }
    }

    /// Registers a new ordered delivery queue and returns its handle.  The
    /// new subscription starts empty: it observes none of the events
    /// already published, and every one published afterward, in order.
    pub fn subscribe(&mut self) -> (sid: u64)
        requires
            old(self).wf(),
            old(self).ids_left(),
        ensures
            final(self).wf(),
            final(self).history() == old(self).history(),
            old(self).pending(sid) is None,
            final(self).pending(sid) == Some(Seq::<AppEventView>::empty()),
            forall|s2: u64| s2 != sid ==> final(self).pending(s2) == old(self).pending(s2),
    {
        let sid = self.next_id;
        self.next_id = self.next_id + 1;
        let entry = SubEntry {
            id: sid,
            queue: Vec::new(),
            joined: Ghost(self.hist@.len() as int),
            taken: Ghost(0),
        };
        self.subs.push(entry);
        proof {
            let n = old(self).subs@.len() as int;
            assert(self.subs@.drop_last() =~= old(self).subs@);
            assert forall|i: int| 0 <= i < self.subs@.len() implies app_views_of(
                self.subs@[i].queue@,
            ) == self.hist@.subrange(
                self.subs@[i].joined@ + self.subs@[i].taken@,
                self.hist@.len() as int,
            ) by {
                if i < n {
                    assert(self.subs@[i] == old(self).subs@[i]);
                } else {
                    assert(self.subs@[i].queue@ =~= Seq::<AppEvent>::empty());
                    assert(app_views_of(self.subs@[i].queue@) =~= self.hist@.subrange(
                        self.hist@.len() as int,
                        self.hist@.len() as int,
                    ));
                }
            }
            assert(final(self).wf());
            // The fresh handle was unknown before and holds an empty queue
            // now.
            if old(self).has_sub(sid) {
                let i = old(self).idx_of(sid);
                assert(old(self).subs@[i].id < sid);
            }
            self.lemma_sub_at(n);
            assert(app_views_of(self.subs@[n].queue@) =~= Seq::<AppEventView>::empty());
            // Older subscriptions are untouched.
            assert forall|s2: u64| s2 != sid implies final(self).pending(s2) == old(self).pending(
                s2,
            ) by {
                if old(self).has_sub(s2) {
                    let i = old(self).idx_of(s2);
                    assert(self.subs@[i] == old(self).subs@[i]);
                    self.lemma_sub_at(i);
                } else {
                    if self.has_sub(s2) {
                        let i = self.idx_of(s2);
                        assert(i < n || self.subs@[i].id == sid);
                        if i < n {
                            assert(old(self).subs@[i].id == s2);
                        }
                    }
                }
            }
        }
        sid
    }

    /// Delivers a copy of `ev` to every registered subscription, in
    /// per-subscription publication order, and appends it to the history.
    pub fn publish(&mut self, ev: &AppEvent)
        requires
            old(self).wf(),
        ensures
            final(self).wf(),
            final(self).ids_left() == old(self).ids_left(),
            final(self).history() == old(self).history().push(ev@),
            forall|sid: u64|
                old(self).pending(sid) is Some ==> final(self).pending(sid) == Some(
                    old(self).pending(sid).unwrap().push(ev@),
                ),
            forall|sid: u64| old(self).pending(sid) is None ==> final(self).pending(sid) is None,
    {
        self.hist = Ghost(self.hist@.push(ev@));
        let ghost hist2 = self.hist@;
        let ghost subs0 = old(self).subs@;
        let mut i: usize = 0;
        while i < self.subs.len()
            invariant
                0 <= i <= self.subs@.len(),
                self.subs@.len() == subs0.len(),
                self.hist@ == hist2,
                self.next_id == old(self).next_id,
                hist2 == old(self).hist@.push(ev@),
                old(self).wf(),
                forall|k: int|
                    0 <= k < self.subs@.len() ==> self.subs@[k].id == subs0[k].id
                        && self.subs@[k].joined@ == subs0[k].joined@ && self.subs@[k].taken@
                        == subs0[k].taken@,
                forall|k: int|
                    0 <= k < i ==> app_views_of(self.subs@[k].queue@) == app_views_of(
                        subs0[k].queue@,
                    ).push(ev@),
                forall|k: int| i <= k < self.subs@.len() ==> self.subs@[k].queue@ == subs0[k].queue@,
            decreases self.subs@.len() - i,
        {
            let dupped = ev.dup();
            proof {
                lemma_app_views_of_push(self.subs@[i as int].queue@, dupped);
            }
            self.subs[i].queue.push(dupped);
            i = i + 1;
        }
        proof {
            assert forall|k: int| 0 <= k < self.subs@.len() implies app_views_of(
                self.subs@[k].queue@,
            ) == self.hist@.subrange(
                self.subs@[k].joined@ + self.subs@[k].taken@,
                self.hist@.len() as int,
            ) by {
                let jt = subs0[k].joined@ + subs0[k].taken@;
                assert(app_views_of(subs0[k].queue@) == old(self).hist@.subrange(
                    jt,
                    old(self).hist@.len() as int,
                ));
                assert(hist2.subrange(jt, hist2.len() as int) =~= old(self).hist@.subrange(
                    jt,
                    old(self).hist@.len() as int,
                ).push(ev@));
            }
            assert(final(self).wf());
            assert forall|sid: u64| old(self).pending(sid) is Some implies final(self).pending(sid)
                == Some(old(self).pending(sid).unwrap().push(ev@)) by {
                let i2 = old(self).idx_of(sid);
                old(self).lemma_sub_at(i2);
                self.lemma_sub_at(i2);
            }
            assert forall|sid: u64| old(self).pending(sid) is None implies final(self).pending(sid)
                is None by {
                if self.has_sub(sid) {
                    let i2 = self.idx_of(sid);
                    old(self).lemma_sub_at(i2);
                }
            }
        }
    }

    fn find(&self, sid: u64) -> (r: Option<usize>)
        ensures
            match r {
                Some(i) => i < self.subs@.len() && self.subs@[i as int].id == sid,
                None => forall|i: int| 0 <= i < self.subs@.len() ==> self.subs@[i].id != sid,
            },
    {
        let mut i: usize = 0;
        while i < self.subs.len()
            invariant
                0 <= i <= self.subs@.len(),
                forall|k: int| 0 <= k < i ==> self.subs@[k].id != sid,
            decreases self.subs@.len() - i,
        {
            if self.subs[i].id == sid {
                return Some(i);
            }
            i = i + 1;
        }
        None
    }

    /// Hands over everything the subscription has observed and not yet
    /// taken: exactly the events published after it subscribed (and after
    /// any earlier drain), in publication order.  An unknown handle yields
    /// nothing.
    pub fn drain(&mut self, sid: u64) -> (evs: Vec<AppEvent>)
        requires
            old(self).wf(),
        ensures
            final(self).wf(),
            final(self).ids_left() == old(self).ids_left(),
            final(self).history() == old(self).history(),
            match old(self).pending(sid) {
                Some(q) => app_views_of(evs@) == q && final(self).pending(sid) == Some(
                    Seq::<AppEventView>::empty(),
                ),
                None => evs@.len() == 0 && final(self).pending(sid) is None,
            },
            forall|s2: u64| s2 != sid ==> final(self).pending(s2) == old(self).pending(s2),
    {
        let found = self.find(sid);
        match found {
            None => {
                proof {
                    if old(self).has_sub(sid) {
                        let i = old(self).idx_of(sid);
                    }
                }
                Vec::new()
            },
            Some(i) => {
                proof {
                    self.lemma_sub_at(i as int);
                }
                let ghost q0 = self.subs@[i as int].queue@;
                let mut evs: Vec<AppEvent> = Vec::new();
                let mut k: usize = 0;
                while k < self.subs[i].queue.len()
                    invariant
                        0 <= k <= self.subs@[i as int].queue@.len(),
                        i < self.subs@.len(),
                        self.subs@[i as int].queue@ == q0,
                        *self == *old(self),
                        evs@.len() == k,
                        forall|m: int| 0 <= m < k ==> evs@[m]@ == q0[m]@,
                    decreases self.subs@[i as int].queue@.len() - k,
                {
                    let e = self.subs[i].queue[k].dup();
                    evs.push(e);
                    k = k + 1;
                }
                proof {
                    lemma_app_views_of_props(evs@);
                    lemma_app_views_of_props(q0);
                    assert(app_views_of(evs@) =~= app_views_of(q0));
                }
                let ghost qlen = q0.len() as int;
                self.subs[i].queue.clear();
                let ghost jt = self.subs@[i as int].joined@ + self.subs@[i as int].taken@;
                self.subs[i].taken = Ghost(self.subs@[i as int].taken@ + qlen);
                proof {
                    let n = self.subs@.len() as int;
                    // The drained subscription's queue was the history tail
                    // from `jt`, so its new cursor lands exactly at the end.
                    lemma_app_views_of_props(q0);
                    assert(qlen == self.hist@.len() - jt);
                    assert forall|k2: int| 0 <= k2 < n implies app_views_of(
                        self.subs@[k2].queue@,
                    ) == self.hist@.subrange(
                        self.subs@[k2].joined@ + self.subs@[k2].taken@,
                        self.hist@.len() as int,
                    ) by {
                        if k2 == i as int {
                            assert(app_views_of(self.subs@[k2].queue@) =~= self.hist@.subrange(
                                self.hist@.len() as int,
                                self.hist@.len() as int,
                            ));
                        } else {
                            assert(self.subs@[k2] == old(self).subs@[k2]);
                        }
                    }
                    assert(final(self).wf());
                    self.lemma_sub_at(i as int);
                    assert(app_views_of(self.subs@[i as int].queue@) =~= Seq::<
                        AppEventView,
                    >::empty());
                    assert forall|s2: u64| s2 != sid implies final(self).pending(s2) == old(
                        self,
                    ).pending(s2) by {
                        if old(self).has_sub(s2) {
                            let i2 = old(self).idx_of(s2);
                            old(self).lemma_sub_at(i2);
                            self.lemma_sub_at(i2);
                            assert(self.subs@[i2].queue@ == old(self).subs@[i2].queue@);
                        } else {
                            if self.has_sub(s2) {
                                let i2 = self.idx_of(s2);
                                old(self).lemma_sub_at(i2);
                            }
                        }
                    }
                }
                evs
            },
        }
    }

    /// Removes a subscription whose consumer is gone; delivery to it is
    /// never attempted again.  Unknown handles are ignored.
    pub fn unsubscribe(&mut self, sid: u64)
        requires
            old(self).wf(),
        ensures
            final(self).wf(),
            final(self).ids_left() == old(self).ids_left(),
            final(self).history() == old(self).history(),
            final(self).pending(sid) is None,
            forall|s2: u64| s2 != sid ==> final(self).pending(s2) == old(self).pending(s2),
    {
        let found = self.find(sid);
        match found {
            None => {
                proof {
                    if self.has_sub(sid) {
                        let i = self.idx_of(sid);
                    }
                }
            },
            Some(i) => {
                self.subs.remove(i);
                proof {
                    let n = self.subs@.len() as int;
                    assert forall|k: int| 0 <= k < n implies self.subs@[k] == if k < i as int {
                        old(self).subs@[k]
                    } else {
                        old(self).subs@[k + 1]
                    } by {}
                    assert(final(self).wf());
                    if self.has_sub(sid) {
                        let k = self.idx_of(sid);
                        if k < i as int {
                            assert(old(self).subs@[k].id == sid);
                            assert(old(self).subs@[i as int].id == sid);
                        } else {
                            assert(old(self).subs@[k + 1].id == sid);
                            assert(old(self).subs@[i as int].id == sid);
                        }
                    }
                    assert forall|s2: u64| s2 != sid implies final(self).pending(s2) == old(
                        self,
                    ).pending(s2) by {
                        if old(self).has_sub(s2) {
                            let k = old(self).idx_of(s2);
                            assert(old(self).subs@[k].id == s2);
                            if k < i as int {
                                self.lemma_sub_at(k);
                            } else {
                                assert(k > i as int);
                                assert(self.subs@[k - 1] == old(self).subs@[k]);
                                self.lemma_sub_at(k - 1);
                            }
                        } else {
                            if self.has_sub(s2) {
                                let k = self.idx_of(s2);
                                if k < i as int {
                                    assert(old(self).subs@[k].id == s2);
                                } else {
                                    assert(old(self).subs@[k + 1].id == s2);
                                }
                            }
                        }
                    }
                }
            },
        }
    }
}

} // verus!
