use vstd::prelude::*;

use crate::text::bytes_eq;

verus! {

// The debounce scheduler's registry.  Each pending delayed action is an
// entry `key -> token`; the token names one timer instance, so that a
// timer that fires late — after its key was canceled or rescheduled — can
// be told apart and refused.  The registry holds at most one entry per
// key at any instant.
/// One pending delayed action.
#[derive(Clone, PartialEq, Eq, Debug)]
pub struct PendingTask {
    pub key: Vec<u8>,
    pub token: u64,
}

/// The mathematical contents of the registry, later entries winning.
pub open spec fn reg_of(s: Seq<PendingTask>) -> Map<Seq<u8>, u64>
    decreases s.len(),
{
    if s.len() == 0 {
        Map::empty()
    } else {
        reg_of(s.drop_last()).insert(s.last().key@, s.last().token)
    }
}

pub open spec fn distinct_task_keys(s: Seq<PendingTask>) -> bool {
    forall|i: int, j: int| 0 <= i < j < s.len() ==> s[i].key@ != s[j].key@
}

pub proof fn lemma_reg_of_contains(s: Seq<PendingTask>, k: Seq<u8>)
    ensures
        reg_of(s).contains_key(k) <==> exists|i: int| 0 <= i < s.len() && s[i].key@ == k,
    decreases s.len(),
{
    if s.len() > 0 {
        let t = s.drop_last();
        lemma_reg_of_contains(t, k);
        if s.last().key@ == k {
            assert(s[s.len() - 1].key@ == k);
        } else {
            if reg_of(t).contains_key(k) {
                let i = choose|i: int| 0 <= i < t.len() && t[i].key@ == k;
                assert(s[i].key@ == k);
            }
            if exists|i: int| 0 <= i < s.len() && s[i].key@ == k {
                let i = choose|i: int| 0 <= i < s.len() && s[i].key@ == k;
                assert(t[i].key@ == k);
            }
        }
    }
}

pub proof fn lemma_reg_of_get(s: Seq<PendingTask>, i: int)
    requires
        distinct_task_keys(s),
        0 <= i < s.len(),
    ensures
        reg_of(s).contains_key(s[i].key@),
        reg_of(s)[s[i].key@] == s[i].token,
    decreases s.len(),
{
    if i < s.len() - 1 {
        let t = s.drop_last();
        assert(t[i] == s[i]);
        lemma_reg_of_get(t, i);
    }
}

proof fn lemma_reg_of_update(s: Seq<PendingTask>, i: int, nv: PendingTask)
    requires
        distinct_task_keys(s),
        0 <= i < s.len(),
        s[i].key@ == nv.key@,
    ensures
        reg_of(s.update(i, nv)) == reg_of(s).insert(nv.key@, nv.token),
    decreases s.len(),
{
    let s2 = s.update(i, nv);
    if i == s.len() - 1 {
        assert(s2.drop_last() =~= s.drop_last());
        assert(reg_of(s2) =~= reg_of(s).insert(nv.key@, nv.token));
    } else {
        let t = s.drop_last();
        assert(t[i] == s[i]);
        lemma_reg_of_update(t, i, nv);
        assert(s2.drop_last() =~= t.update(i, nv));
        assert(s2.last() == s.last());
        assert(s.last().key@ != nv.key@);
        assert(reg_of(s2) =~= reg_of(s).insert(nv.key@, nv.token));
    }
}

proof fn lemma_reg_of_remove(s: Seq<PendingTask>, i: int)
    requires
        distinct_task_keys(s),
        0 <= i < s.len(),
    ensures
        reg_of(s.remove(i)) == reg_of(s).remove(s[i].key@),
    decreases s.len(),
{
    let s2 = s.remove(i);
    if i == s.len() - 1 {
        assert(s2 =~= s.drop_last());
        lemma_reg_of_contains(s.drop_last(), s[i].key@);
        assert(!reg_of(s.drop_last()).contains_key(s[i].key@));
        assert(reg_of(s2) =~= reg_of(s).remove(s[i].key@));
    } else {
        let t = s.drop_last();
        assert(t[i] == s[i]);
        lemma_reg_of_remove(t, i);
        assert(s2.drop_last() =~= t.remove(i));
        assert(s2.last() == s.last());
        assert(s.last().key@ != s[i].key@);
        assert(reg_of(s2) =~= reg_of(s).remove(s[i].key@));
    }
}

/// Per-key delayed-task registry: at most one pending task per key, with
/// immediate cancellation on supersession or key removal.
pub struct DebounceScheduler {
    entries: Vec<PendingTask>,
    next_token: u64,
}

impl View for DebounceScheduler {
    type V = Map<Seq<u8>, u64>;

    closed spec fn view(&self) -> Map<Seq<u8>, u64> {
        reg_of(self.entries@)
    }
}

impl DebounceScheduler {
    /// Each key stands at most once, and every registered token was handed
    /// out earlier than the next one will be.
    pub closed spec fn wf(&self) -> bool {
        &&& distinct_task_keys(self.entries@)
        &&& forall|i: int|
            0 <= i < self.entries@.len() ==> self.entries@[i].token < self.next_token
    }

    /// Tokens are not exhausted; holds until `u64::MAX` schedules happened.
    pub closed spec fn tokens_left(&self) -> bool {
        self.next_token < u64::MAX
    }

    /// Runtime check for `tokens_left`, so a caller can refuse further
    /// schedules instead of violating the precondition.
    pub fn can_schedule(&self) -> (r: bool)
        ensures
            r == self.tokens_left(),
    {
        self.next_token < u64::MAX
    }

    pub fn new() -> (r: DebounceScheduler)
        ensures
            r.wf(),
            r.tokens_left(),
            r@ == Map::<Seq<u8>, u64>::empty(),
    {
        DebounceScheduler { entries: Vec::new(), next_token: 0 }
    }

    fn find(&self, key: &Vec<u8>) -> (r: Option<usize>)
        ensures
            match r {
                Some(i) => i < self.entries@.len() && self.entries@[i as int].key@ == key@,
                None => forall|i: int| 0 <= i < self.entries@.len() ==> self.entries@[i].key@ != key@,
            },
    {
        let mut i: usize = 0;
        while i < self.entries.len()
            invariant
                0 <= i <= self.entries@.len(),
                forall|k: int| 0 <= k < i ==> self.entries@[k].key@ != key@,
            decreases self.entries@.len() - i,
        {
            if bytes_eq(&self.entries[i].key, key) {
                return Some(i);
            }
            i = i + 1;
        }
        None
    }

    /// Every token the registry holds is older than the next one.
    proof fn lemma_registered_tokens(&self)
        requires
            self.wf(),
        ensures
            forall|k: Seq<u8>| #[trigger]
                self@.contains_key(k) ==> self@[k] < self.next_token,
    {
        assert forall|k: Seq<u8>| #[trigger] self@.contains_key(k) implies self@[k]
            < self.next_token by {
            lemma_reg_of_contains(self.entries@, k);
            let i = choose|i: int| 0 <= i < self.entries@.len() && self.entries@[i].key@ == k;
            lemma_reg_of_get(self.entries@, i);
        }
    }

    /// Registers a delayed task under `key`, superseding and cancelling any
    /// task the key already had: the returned pair is the new task's token
    /// and the superseded task's token, if there was one.  The new token
    /// differs from every token the registry knew — in particular from the
    /// superseded one, so a superseded timer that still fires is refused by
    /// `fire` and its action never runs.
    pub fn schedule(&mut self, key: Vec<u8>) -> (r: (u64, Option<u64>))
        requires
            old(self).wf(),
            old(self).tokens_left(),
        ensures
            final(self).wf(),
            final(self)@ == old(self)@.insert(key@, r.0),
            r.1 == if old(self)@.contains_key(key@) {
                Some(old(self)@[key@])
            } else {
                None::<u64>
            },
            forall|k: Seq<u8>| #[trigger] old(self)@.contains_key(k) ==> old(self)@[k] != r.0,
    {
        proof {
            self.lemma_registered_tokens();
        }
        let token = self.next_token;
        self.next_token = self.next_token + 1;
        let found = self.find(&key);
        match found {
            Some(i) => {
                let prev = self.entries[i].token;
                proof {
                    lemma_reg_of_get(self.entries@, i as int);
                    lemma_reg_of_update(
                        self.entries@,
                        i as int,
                        PendingTask { key: key, token: token },
                    );
                }
                self.entries[i] = PendingTask { key: key, token: token };
                (token, Some(prev))
            },
            None => {
                proof {
                    lemma_reg_of_contains(self.entries@, key@);
                }
                self.entries.push(PendingTask { key: key, token: token });
                proof {
                    assert(self.entries@.drop_last() =~= old(self).entries@);
                }
                (token, None)
            },
        }
    }

    /// Stops the pending task for `key` before it fires, handing back its
    /// token so the caller can abort the timer.  Cancelling a key with no
    /// pending task changes nothing and never errors.
    pub fn cancel(&mut self, key: &Vec<u8>) -> (r: Option<u64>)
        requires
            old(self).wf(),
        ensures
            final(self).wf(),
            final(self).tokens_left() == old(self).tokens_left(),
            final(self)@ == old(self)@.remove(key@),
            r == if old(self)@.contains_key(key@) {
                Some(old(self)@[key@])
            } else {
                None::<u64>
            },
            !old(self)@.contains_key(key@) ==> final(self)@ == old(self)@,
    {
        let found = self.find(key);
        match found {
            Some(i) => {
                let prev = self.entries[i].token;
                proof {
                    lemma_reg_of_get(self.entries@, i as int);
                    lemma_reg_of_remove(self.entries@, i as int);
                }
                self.entries.remove(i);
                Some(prev)
            },
            None => {
                proof {
                    lemma_reg_of_contains(self.entries@, key@);
                    assert(old(self)@.remove(key@) =~= old(self)@);
                }
                None
            },
        }
    }

    /// A timer for `key` carrying `token` went off: its action may run
    /// exactly when the registry still holds that very task, and the entry
    /// is removed at the same instant (self-cleanup).  A timer whose task
    /// was canceled or superseded is refused, whatever its key holds now.
    pub fn fire(&mut self, key: &Vec<u8>, token: u64) -> (run: bool)
        requires
            old(self).wf(),
        ensures
            final(self).wf(),
            final(self).tokens_left() == old(self).tokens_left(),
            run == (old(self)@.contains_key(key@) && old(self)@[key@] == token),
            run ==> final(self)@ == old(self)@.remove(key@),
            !run ==> final(self)@ == old(self)@,
    {
        let found = self.find(key);
        match found {
            Some(i) => {
                proof {
                    lemma_reg_of_get(self.entries@, i as int);
                }
                if self.entries[i].token == token {
                    proof {
                        lemma_reg_of_remove(self.entries@, i as int);
                    }
                    self.entries.remove(i);
                    true
                } else {
                    false
                }
            },
            None => {
                proof {
                    lemma_reg_of_contains(self.entries@, key@);
                }
                false
            },
        }
    }

    /// The token registered for `key`, if any.
    pub fn pending_token(&self, key: &Vec<u8>) -> (r: Option<u64>)
        requires
            self.wf(),
        ensures
            r == if self@.contains_key(key@) {
                Some(self@[key@])
            } else {
                None::<u64>
            },
    {
        let found = self.find(key);
        proof {
            lemma_reg_of_contains(self.entries@, key@);
        }
        match found {
            Some(i) => {
                proof {
                    lemma_reg_of_get(self.entries@, i as int);
                }
                Some(self.entries[i].token)
            },
            None => None,
        }
    }
}

} // verus!
