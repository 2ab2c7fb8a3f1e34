//! Priority scheduling shared by the page rasterizer and the terminal
//! renderer: at most `max_concurrent` jobs run at once, one slot is always
//! kept free for visible work, and a queued preload can be promoted when it
//! becomes visible.

use vstd::prelude::*;

use crate::keyed::{
    find_key, has_key, keys_distinct, lemma_map_of_absent, lemma_map_of_index, lemma_map_of_push,
    lemma_map_of_remove, lemma_map_of_update, map_of, JobKey,
};

verus! {

/// A job priority. Priorities are ordered by their rank; a priority whose
/// rank is below the rank of visible work is a preload.
pub trait JobPriority: Copy + Sized {
    spec fn rank_spec(self) -> int;

    spec fn visible_rank_spec() -> int;

    fn rank(self) -> (r: u32)
        ensures
            r as int == self.rank_spec(),
    ;

    /// The rank of work the user is waiting for.
    fn visible_rank() -> (r: u32)
        ensures
            r as int == Self::visible_rank_spec(),
    ;

    fn is_preload(self) -> (preload: bool)
        ensures
            preload == (self.rank_spec() < Self::visible_rank_spec()),
    {
        self.rank() < Self::visible_rank()
    }
}

pub open spec fn is_preload_priority<P: JobPriority>(p: P) -> bool {
    p.rank_spec() < P::visible_rank_spec()
}

/// Some element of `s` has view `k`.
pub open spec fn listed<K: View>(s: Seq<K>, k: K::V) -> bool {
    exists|j: int| 0 <= j < s.len() && #[trigger] s[j]@ == k
}

/// Whether queue entry `a` is taken before `b`: higher priority first, then
/// first come, first served.
pub open spec fn pops_before<V, P: JobPriority>(a: (V, P, u64), b: (V, P, u64)) -> bool {
    a.1.rank_spec() > b.1.rank_spec() || (a.1.rank_spec() == b.1.rank_spec() && a.2 < b.2)
}

/// The sequence number that follows `s`.
pub open spec fn next_sequence_after(s: u64) -> u64 {
    if s == u64::MAX {
        0
    } else {
        (s + 1) as u64
    }
}

/// Number of entries whose flag is set.
pub open spec fn count_flagged<K>(s: Seq<(K, bool)>) -> nat
    decreases s.len(),
{
    if s.len() == 0 {
        0
    } else {
        count_flagged(s.drop_last()) + if s.last().1 {
            1nat
        } else {
            0nat
        }
    }
}

proof fn lemma_count_flagged_push<K>(s: Seq<(K, bool)>, e: (K, bool))
    ensures
        count_flagged(s.push(e)) == count_flagged(s) + if e.1 {
            1nat
        } else {
            0nat
        },
{
    assert(s.push(e).drop_last() =~= s);
}

proof fn lemma_count_flagged_bound<K>(s: Seq<(K, bool)>)
    ensures
        count_flagged(s) <= s.len(),
    decreases s.len(),
{
    if s.len() > 0 {
        lemma_count_flagged_bound(s.drop_last());
    }
}

proof fn lemma_count_flagged_remove<K>(s: Seq<(K, bool)>, i: int)
    requires
        0 <= i < s.len(),
    ensures
        count_flagged(s) == count_flagged(s.remove(i)) + if s[i].1 {
            1nat
        } else {
            0nat
        },
    decreases s.len(),
{
    if i == s.len() - 1 {
        assert(s.remove(i) =~= s.drop_last());
    } else {
        let t = s.drop_last();
        lemma_count_flagged_remove(t, i);
        assert(s.remove(i) =~= t.remove(i).push(s.last()));
        lemma_count_flagged_push(t.remove(i), s.last());
    }
}

struct Queued<K, P> {
    priority: P,
    sequence: u64,
    key: K,
}

pub struct JobQueue<K, P> {
    /// Current priority of every queued or running job.
    priorities: Vec<(K, P)>,
    /// Running jobs and whether each was started as a preload.
    running: Vec<(K, bool)>,
    running_preloads: usize,
    /// Queue entries; promotions push a second entry, so stale ones are
    /// skipped when popped.
    pending: Vec<Queued<K, P>>,
    sequence: u64,
    max_concurrent: usize,
}

impl<K: JobKey, P: JobPriority> JobQueue<K, P> {
    /// Current priority of every queued or running job, by key.
    pub closed spec fn job_priorities(&self) -> Map<K::V, P> {
        map_of(self.priorities@)
    }

    /// Running jobs, each with whether it was started as a preload.
    pub closed spec fn running_jobs(&self) -> Map<K::V, bool> {
        map_of(self.running@)
    }

    /// Number of running jobs (the size of `running_jobs`).
    pub closed spec fn running_len(&self) -> nat {
        self.running@.len()
    }

    /// Queue entries as (key, priority, sequence number), in storage order.
    pub closed spec fn queue_entries(&self) -> Seq<(K::V, P, u64)> {
        self.pending@.map_values(|q: Queued<K, P>| (q.key@, q.priority, q.sequence))
    }

    /// The number of jobs that may run at once.
    pub closed spec fn limit(&self) -> nat {
        self.max_concurrent as nat
    }

    /// Sequence number given to the next queue entry.
    pub closed spec fn next_sequence(&self) -> u64 {
        self.sequence
    }

    /// Number of running jobs that were started as preloads.
    pub closed spec fn preloads_running(&self) -> nat {
        self.running_preloads as nat
    }

    pub closed spec fn wf(&self) -> bool {
        &&& self.max_concurrent >= 1
        &&& keys_distinct(self.priorities@)
        &&& keys_distinct(self.running@)
        &&& forall|i: int|
            0 <= i < self.running@.len() ==> has_key(self.priorities@, #[trigger] self.running@[i].0@)
        &&& self.running@.len() <= self.max_concurrent
        &&& self.running_preloads == count_flagged(self.running@)
        &&& self.running_preloads <= self.max_concurrent - 1
    }

    /// Whether queue entry `e` would start if it were popped now: its job
    /// is known, not running, and the entry is not stale: it carries the
    /// job's current priority, neither an older lower one nor a higher one
    /// the job no longer has.
    pub open spec fn startable(&self, e: (K::V, P, u64)) -> bool {
        &&& self.job_priorities().contains_key(e.0)
        &&& !self.running_jobs().contains_key(e.0)
        &&& e.1.rank_spec() == self.job_priorities()[e.0].rank_spec()
    }

    /// Whether `cancel_queued_preloads` cancels the job `k`: it is known,
    /// has a preload priority and is not running.
    pub open spec fn cancels(&self, k: K::V) -> bool {
        &&& self.job_priorities().contains_key(k)
        &&& is_preload_priority(self.job_priorities()[k])
        &&& !self.running_jobs().contains_key(k)
    }

    /// `e` is a startable queue entry and no startable entry pops before it.
    pub open spec fn is_next(&self, e: (K::V, P, u64)) -> bool {
        &&& self.queue_entries().contains(e)
        &&& self.startable(e)
        &&& forall|f: (K::V, P, u64)|
            #![trigger self.queue_entries().contains(f)]
            self.queue_entries().contains(f) && self.startable(f) ==> !pops_before(f, e)
    }

    /// Queue entries that survive popping up to `e`: entries that pop
    /// before it and cannot start are discarded on the way.
    pub open spec fn survivors(&self, e: (K::V, P, u64)) -> Seq<(K::V, P, u64)> {
        self.queue_entries().filter(|f: (K::V, P, u64)| !(!self.startable(f) && pops_before(f, e)))
    }

    pub fn new(max_concurrent: usize) -> (queue: Self)
        ensures
            queue.wf(),
            queue.well_queued(),
            queue.job_priorities() == Map::<K::V, P>::empty(),
            queue.running_jobs() == Map::<K::V, bool>::empty(),
            queue.running_len() == 0,
            queue.preloads_running() == 0,
            queue.queue_entries() == Seq::<(K::V, P, u64)>::empty(),
            queue.next_sequence() == 0,
            queue.limit() == if max_concurrent == 0 {
                1
            } else {
                max_concurrent
            },
    {
        let queue = Self {
            priorities: Vec::new(),
            running: Vec::new(),
            running_preloads: 0,
            pending: Vec::new(),
            sequence: 0,
            max_concurrent: if max_concurrent == 0 {
                1
            } else {
                max_concurrent
            },
        };
        proof {
            assert(queue.job_priorities() =~= Map::<K::V, P>::empty());
            assert(queue.running_jobs() =~= Map::<K::V, bool>::empty());
            assert(queue.queue_entries() =~= Seq::<(K::V, P, u64)>::empty());
        }
        queue
    }

    /// Preloads never take the last slot, so with one slot there are none.
    pub fn allows_preloads(&self) -> (allowed: bool)
        requires
            self.wf(),
        ensures
            allowed == (self.limit() > 1),
    {
        self.max_preloads() > 0
    }

    /// Whether `key` is queued or running.
    pub fn contains(&self, key: &K) -> (found: bool)
        requires
            self.wf(),
        ensures
            found == self.job_priorities().contains_key(key@),
    {
        match find_key(&self.priorities, key) {
            Some(i) => {
                proof {
                    lemma_map_of_index(self.priorities@, i as int);
                }
                true
            },
            None => false,
        }
    }

    pub fn running_count(&self) -> (count: usize)
        ensures
            count == self.running_len(),
    {
        self.running.len()
    }

    pub fn running_preloads(&self) -> (count: usize)
        ensures
            count == self.preloads_running(),
    {
        self.running_preloads
    }

    pub fn queued_count(&self) -> (count: usize)
        ensures
            count == self.queue_entries().len(),
    {
        self.pending.len()
    }

    /// Queues a job; a job already known gets `priority` as its current
    /// priority.
    pub fn enqueue(&mut self, key: K, priority: P)
        requires
            old(self).wf(),
            old(self).well_queued(),
        ensures
            final(self).wf(),
            final(self).well_queued(),
            final(self).job_priorities() == old(self).job_priorities().insert(key@, priority),
            final(self).running_jobs() == old(self).running_jobs(),
            final(self).running_len() == old(self).running_len(),
            final(self).preloads_running() == old(self).preloads_running(),
            final(self).queue_entries() == old(self).queue_entries().push(
                (key@, priority, old(self).next_sequence()),
            ),
            final(self).next_sequence() == next_sequence_after(old(self).next_sequence()),
            final(self).limit() == old(self).limit(),
    {
        let ghost before = *self;
        let ghost kv = key@;
        self.enqueue_steps(key, priority);
        proof {
            lemma_well_queued_push(before, *self, kv, priority, before.next_sequence());
        }
    }

    fn enqueue_steps(&mut self, key: K, priority: P)
        requires
            old(self).wf(),
        ensures
            final(self).wf(),
            final(self).job_priorities() == old(self).job_priorities().insert(key@, priority),
            final(self).running_jobs() == old(self).running_jobs(),
            final(self).running_len() == old(self).running_len(),
            final(self).preloads_running() == old(self).preloads_running(),
            final(self).queue_entries() == old(self).queue_entries().push(
                (key@, priority, old(self).next_sequence()),
            ),
            final(self).next_sequence() == next_sequence_after(old(self).next_sequence()),
            final(self).limit() == old(self).limit(),
    {
        let copy = key.duplicate();
        self.set_priority(copy, priority);
        self.push(key, priority);
    }

    /// Records `priority` as the current priority of `key`.
    fn set_priority(&mut self, key: K, priority: P)
        requires
            old(self).wf(),
        ensures
            final(self).wf(),
            final(self).job_priorities() == old(self).job_priorities().insert(key@, priority),
            final(self).running@ == old(self).running@,
            final(self).running_preloads == old(self).running_preloads,
            final(self).pending@ == old(self).pending@,
            final(self).sequence == old(self).sequence,
            final(self).max_concurrent == old(self).max_concurrent,
    {
        let ghost old_priorities = self.priorities@;
        match find_key(&self.priorities, &key) {
            Some(i) => {
                proof {
                    lemma_map_of_update(old_priorities, i as int, (key, priority));
                }
                self.priorities.set(i, (key, priority));
                proof {
                    assert forall|j: int| 0 <= j < self.running@.len() implies has_key(
                        self.priorities@,
                        #[trigger] self.running@[j].0@,
                    ) by {
                        let w = choose|w: int|
                            0 <= w < old_priorities.len() && #[trigger] old_priorities[w].0@
                                == self.running@[j].0@;
                        assert(self.priorities@[w].0@ == old_priorities[w].0@);
                    }
                }
            },
            None => {
                proof {
                    lemma_map_of_push(old_priorities, (key, priority));
                }
                self.priorities.push((key, priority));
                proof {
                    assert forall|j: int| 0 <= j < self.running@.len() implies has_key(
                        self.priorities@,
                        #[trigger] self.running@[j].0@,
                    ) by {
                        let w = choose|w: int|
                            0 <= w < old_priorities.len() && #[trigger] old_priorities[w].0@
                                == self.running@[j].0@;
                        assert(self.priorities@[w] == old_priorities[w]);
                    }
                }
            },
        }
    }

    /// Raises a queued or running job to `priority`; returns whether it was
    /// lower. Raising a running job only affects its bookkeeping.
    pub fn promote(&mut self, key: &K, priority: P) -> (raised: bool)
        requires
            old(self).wf(),
            old(self).well_queued(),
        ensures
            final(self).wf(),
            final(self).well_queued(),
            raised == (old(self).job_priorities().contains_key(key@) && old(
                self,
            ).job_priorities()[key@].rank_spec() < priority.rank_spec()),
            raised ==> final(self).job_priorities() == old(self).job_priorities().insert(key@, priority),
            // A queued job gets a new queue entry at its new priority.
            raised && !old(self).running_jobs().contains_key(key@) ==> {
                &&& final(self).queue_entries() == old(self).queue_entries().push(
                    (key@, priority, old(self).next_sequence()),
                )
                &&& final(self).next_sequence() == next_sequence_after(old(self).next_sequence())
            },
            // A running job only has its priority raised.
            raised && old(self).running_jobs().contains_key(key@) ==> {
                &&& final(self).queue_entries() == old(self).queue_entries()
                &&& final(self).next_sequence() == old(self).next_sequence()
            },
            !raised ==> {
                &&& final(self).job_priorities() == old(self).job_priorities()
                &&& final(self).queue_entries() == old(self).queue_entries()
                &&& final(self).next_sequence() == old(self).next_sequence()
            },
            final(self).running_jobs() == old(self).running_jobs(),
            final(self).running_len() == old(self).running_len(),
            final(self).preloads_running() == old(self).preloads_running(),
            final(self).limit() == old(self).limit(),
    {
        let ghost before = *self;
        let raised = self.promote_steps(key, priority);
        proof {
            if raised && !before.running_jobs().contains_key(key@) {
                lemma_well_queued_push(before, *self, key@, priority, before.next_sequence());
            } else if raised {
                assert forall|k: K::V|
                    #![trigger self.job_priorities().contains_key(k)]
                    self.job_priorities().contains_key(k) && !self.running_jobs().contains_key(k) implies exists|q: u64|
                    #[trigger] self.queue_entries().contains((k, self.job_priorities()[k], q)) by {
                    assert(k != key@);
                    assert(before.job_priorities().contains_key(k));
                    let q = choose|q: u64| #[trigger] before.queue_entries().contains((k, before.job_priorities()[k], q));
                    assert(self.queue_entries().contains((k, self.job_priorities()[k], q)));
                }
            }
        }
        raised
    }

    fn promote_steps(&mut self, key: &K, priority: P) -> (raised: bool)
        requires
            old(self).wf(),
        ensures
            final(self).wf(),
            raised == (old(self).job_priorities().contains_key(key@) && old(
                self,
            ).job_priorities()[key@].rank_spec() < priority.rank_spec()),
            raised ==> final(self).job_priorities() == old(self).job_priorities().insert(key@, priority),
            // A queued job gets a new queue entry at its new priority.
            raised && !old(self).running_jobs().contains_key(key@) ==> {
                &&& final(self).queue_entries() == old(self).queue_entries().push(
                    (key@, priority, old(self).next_sequence()),
                )
                &&& final(self).next_sequence() == next_sequence_after(old(self).next_sequence())
            },
            // A running job only has its priority raised.
            raised && old(self).running_jobs().contains_key(key@) ==> {
                &&& final(self).queue_entries() == old(self).queue_entries()
                &&& final(self).next_sequence() == old(self).next_sequence()
            },
            !raised ==> {
                &&& final(self).job_priorities() == old(self).job_priorities()
                &&& final(self).queue_entries() == old(self).queue_entries()
                &&& final(self).next_sequence() == old(self).next_sequence()
            },
            final(self).running_jobs() == old(self).running_jobs(),
            final(self).running_len() == old(self).running_len(),
            final(self).preloads_running() == old(self).preloads_running(),
            final(self).limit() == old(self).limit(),
    {
        let found = find_key(&self.priorities, key);
        let Some(i) = found else {
            proof {
                lemma_map_of_absent(self.priorities@, key@);
            }
            return false;
        };
        proof {
            lemma_map_of_index(self.priorities@, i as int);
        }
        if self.priorities[i].1.rank() >= priority.rank() {
            return false;
        }
        let running = self.is_running(key);
        let copy = key.duplicate();
        self.set_priority(copy, priority);
        if !running {
            let second = key.duplicate();
            self.push(second, priority);
        }
        true
    }

    /// Index of the current priority of `key`.
    fn priority_index(&self, key: &K) -> (found: Option<usize>)
        requires
            self.wf(),
        ensures
            match found {
                Some(i) => {
                    &&& i < self.priorities@.len()
                    &&& self.priorities@[i as int].0@ == key@
                    &&& self.job_priorities().contains_key(key@)
                    &&& self.job_priorities()[key@] == self.priorities@[i as int].1
                },
                None => !self.job_priorities().contains_key(key@),
            },
    {
        let found = find_key(&self.priorities, key);
        proof {
            match found {
                Some(i) => lemma_map_of_index(self.priorities@, i as int),
                None => lemma_map_of_absent(self.priorities@, key@),
            }
        }
        found
    }

    fn is_running(&self, key: &K) -> (found: bool)
        requires
            self.wf(),
        ensures
            found == self.running_jobs().contains_key(key@),
    {
        match find_key(&self.running, key) {
            Some(i) => {
                proof {
                    lemma_map_of_index(self.running@, i as int);
                }
                true
            },
            None => {
                proof {
                    lemma_map_of_absent(self.running@, key@);
                }
                false
            },
        }
    }

    /// Whether the queue entry at index `i` would start if popped now.
    fn entry_startable(&self, i: usize) -> (startable: bool)
        requires
            self.wf(),
            i < self.pending@.len(),
        ensures
            startable == self.startable(self.queue_entries()[i as int]),
    {
        let entry = &self.pending[i];
        if self.is_running(&entry.key) {
            return false;
        }
        match self.priority_index(&entry.key) {
            Some(p) => entry.priority.rank() == self.priorities[p].1.rank(),
            None => false,
        }
    }

    /// Index of the first startable queue entry that no startable entry
    /// pops before.
    fn next_startable(&self) -> (found: Option<usize>)
        requires
            self.wf(),
        ensures
            match found {
                Some(i) => i < self.pending@.len() && self.is_next(self.queue_entries()[i as int]),
                None => forall|f: (K::V, P, u64)|
                    #![trigger self.queue_entries().contains(f)]
                    self.queue_entries().contains(f) ==> !self.startable(f),
            },
    {
        let ghost q = self.queue_entries();
        let mut best: Option<usize> = None;
        let mut i: usize = 0;
        while i < self.pending.len()
            invariant
                self.wf(),
                q == self.queue_entries(),
                i <= self.pending@.len(),
                q.len() == self.pending@.len(),
                match best {
                    Some(b) => b < i && self.startable(q[b as int]) && forall|j: int|
                        0 <= j < i && #[trigger] self.startable(q[j]) ==> !pops_before(
                            q[j],
                            q[b as int],
                        ),
                    None => forall|j: int| 0 <= j < i ==> !#[trigger] self.startable(q[j]),
                },
            decreases self.pending@.len() - i,
        {
            if self.entry_startable(i) {
                match best {
                    None => {
                        best = Some(i);
                    },
                    Some(b) => {
                        let e = &self.pending[i];
                        let c = &self.pending[b];
                        let er = e.priority.rank();
                        let cr = c.priority.rank();
                        if er > cr || (er == cr && e.sequence < c.sequence) {
                            best = Some(i);
                        }
                    },
                }
            }
            i += 1;
        }
        proof {
            match best {
                Some(b) => {
                    assert forall|f: (K::V, P, u64)|
                        #![trigger q.contains(f)]
                        q.contains(f) && self.startable(f) implies !pops_before(
                        f,
                        q[b as int],
                    ) by {
                        let j = choose|j: int| 0 <= j < q.len() && q[j] == f;
                        assert(self.startable(q[j]));
                    }
                    assert(q.contains(q[b as int]));
                },
                None => {
                    assert forall|f: (K::V, P, u64)|
                        #![trigger q.contains(f)]
                        q.contains(f) implies !self.startable(f) by {
                        let j = choose|j: int| 0 <= j < q.len() && q[j] == f;
                        assert(!self.startable(q[j]));
                    }
                },
            }
        }
        best
    }

    /// Drops the queue entries that cannot start and pop before the entry
    /// `e` of rank `rank` and sequence number `sequence`.
    fn discard_stale_before(&mut self, rank: u32, sequence: u64, e: Ghost<(K::V, P, u64)>)
        requires
            old(self).wf(),
            rank as int == e@.1.rank_spec(),
            sequence == e@.2,
        ensures
            final(self).wf(),
            final(self).priorities@ == old(self).priorities@,
            final(self).running@ == old(self).running@,
            final(self).running_preloads == old(self).running_preloads,
            final(self).sequence == old(self).sequence,
            final(self).max_concurrent == old(self).max_concurrent,
            final(self).queue_entries() == old(self).queue_entries().filter(
                |f: (K::V, P, u64)| !(!old(self).startable(f) && pops_before(f, e@)),
            ),
    {
        let ghost q = self.queue_entries();
        let ghost pred = |f: (K::V, P, u64)| !(!self.startable(f) && pops_before(f, e@));
        let mut kept: Vec<Queued<K, P>> = Vec::new();
        let mut i: usize = 0;
        while i < self.pending.len()
            invariant
                self.wf(),
                q == self.queue_entries(),
                i <= self.pending@.len(),
                q.len() == self.pending@.len(),
                rank as int == e@.1.rank_spec(),
                sequence == e@.2,
                pred == (|f: (K::V, P, u64)| !(!self.startable(f) && pops_before(f, e@))),
                kept@.map_values(|x: Queued<K, P>| (x.key@, x.priority, x.sequence)) == q.take(
                    i as int,
                ).filter(pred),
            decreases self.pending@.len() - i,
        {
            let ghost before = kept@;
            let entry = &self.pending[i];
            let startable = self.entry_startable(i);
            let r = entry.priority.rank();
            let before_target = r > rank || (r == rank && entry.sequence < sequence);
            proof {
                assert(q[i as int] == (entry.key@, entry.priority, entry.sequence));
                assert(startable == self.startable(q[i as int]));
                assert(before_target == pops_before(q[i as int], e@));
                assert(pred(q[i as int]) == !(!startable && before_target));
                assert(q.take(i + 1) =~= q.take(i as int).push(q[i as int]));
                q.take(i as int).lemma_filter_push(q[i as int], pred);
            }
            if !(!startable && before_target) {
                kept.push(Queued { priority: entry.priority, sequence: entry.sequence, key: entry.key.duplicate() });
                proof {
                    assert(kept@.map_values(|x: Queued<K, P>| (x.key@, x.priority, x.sequence))
                        =~= before.map_values(
                        |x: Queued<K, P>| (x.key@, x.priority, x.sequence),
                    ).push(q[i as int]));
                }
            }
            i += 1;
        }
        proof {
            assert(q.take(i as int) =~= q);
        }
        self.pending = kept;
    }

    /// Takes the next job that may start now and marks it running.
    pub fn start_next(&mut self) -> (started: Option<(K, P)>)
        requires
            old(self).wf(),
            old(self).well_queued(),
        ensures
            final(self).wf(),
            final(self).well_queued(),
            // The started job's current priority is the highest among the
            // jobs waiting to start.
            started matches Some((key, priority)) ==> forall|k: K::V|
                #![trigger old(self).job_priorities().contains_key(k)]
                old(self).job_priorities().contains_key(k) && !old(self).running_jobs().contains_key(k)
                    ==> old(self).job_priorities()[k].rank_spec() <= priority.rank_spec(),
            // Nothing starts with a slot free only when every waiting job is
            // a preload and preloads hold every slot they may take.
            started is None && old(self).running_len() < old(self).limit() ==> forall|k: K::V|
                #![trigger old(self).job_priorities().contains_key(k)]
                old(self).job_priorities().contains_key(k) && !old(self).running_jobs().contains_key(k)
                    ==> is_preload_priority(old(self).job_priorities()[k]) && old(self).preloads_running()
                    >= old(self).limit() - 1,
            final(self).job_priorities() == old(self).job_priorities(),
            final(self).limit() == old(self).limit(),
            final(self).next_sequence() == old(self).next_sequence(),
            // Everything runs: nothing changes.
            old(self).running_len() >= old(self).limit() ==> started is None && final(self).queue_entries()
                == old(self).queue_entries(),
            // Only stale entries are queued: all are dropped.
            old(self).running_len() < old(self).limit() && (forall|f: (K::V, P, u64)|
                #![trigger old(self).queue_entries().contains(f)]
                old(self).queue_entries().contains(f) ==> !old(self).startable(f)) ==> started is None
                && final(self).queue_entries() == Seq::<(K::V, P, u64)>::empty(),
            match started {
                Some((key, priority)) => exists|i: int|
                    #![trigger old(self).queue_entries()[i]]
                    0 <= i < old(self).queue_entries().len() && {
                        let e = old(self).queue_entries()[i];
                        &&& old(self).running_len() < old(self).limit()
                        &&& old(self).is_next(e)
                        &&& e.0 == key@
                        &&& priority == old(self).job_priorities()[key@]
                        &&& !(is_preload_priority(priority) && old(self).preloads_running() >= old(
                            self,
                        ).limit() - 1)
                        &&& final(self).running_jobs() == old(self).running_jobs().insert(
                            key@,
                            is_preload_priority(priority),
                        )
                        &&& final(self).running_len() == old(self).running_len() + 1
                        &&& final(self).preloads_running() == old(self).preloads_running() + if is_preload_priority(priority) {
                            1nat
                        } else {
                            0nat
                        }
                        &&& final(self).queue_entries() == old(self).queue_entries().remove(
                            i,
                        ).filter(|f: (K::V, P, u64)| !(!old(self).startable(f) && pops_before(f, e)))
                    },
                None => {
                    &&& final(self).running_jobs() == old(self).running_jobs()
                    &&& final(self).running_len() == old(self).running_len()
                    &&& final(self).preloads_running() == old(self).preloads_running()
                    &&& (old(self).running_len() < old(self).limit() && (exists|f: (K::V, P, u64)|
                        #![trigger old(self).queue_entries().contains(f)]
                        old(self).queue_entries().contains(f) && old(self).startable(f)) ==> exists|e: (K::V, P, u64)|
                        #![trigger old(self).is_next(e)]
                        {
                            &&& old(self).is_next(e)
                            &&& is_preload_priority(old(self).job_priorities()[e.0])
                            &&& old(self).preloads_running() >= old(self).limit() - 1
                            &&& final(self).queue_entries() == old(self).queue_entries().filter(
                                |f: (K::V, P, u64)| !(!old(self).startable(f) && pops_before(f, e)),
                            )
                        })
                },
            },
    {
        let ghost before = *self;
        let started = self.start_next_steps();
        proof {
            lemma_well_queued_after_start(before, *self, started);
            lemma_start_picks_most_urgent(before, *self, started);
        }
        started
    }

    fn start_next_steps(&mut self) -> (started: Option<(K, P)>)
        requires
            old(self).wf(),
        ensures
            final(self).wf(),
            final(self).job_priorities() == old(self).job_priorities(),
            final(self).limit() == old(self).limit(),
            final(self).next_sequence() == old(self).next_sequence(),
            // Everything runs: nothing changes.
            old(self).running_len() >= old(self).limit() ==> started is None && final(self).queue_entries()
                == old(self).queue_entries(),
            // Only stale entries are queued: all are dropped.
            old(self).running_len() < old(self).limit() && (forall|f: (K::V, P, u64)|
                #![trigger old(self).queue_entries().contains(f)]
                old(self).queue_entries().contains(f) ==> !old(self).startable(f)) ==> started is None
                && final(self).queue_entries() == Seq::<(K::V, P, u64)>::empty(),
            match started {
                Some((key, priority)) => exists|i: int|
                    #![trigger old(self).queue_entries()[i]]
                    0 <= i < old(self).queue_entries().len() && {
                        let e = old(self).queue_entries()[i];
                        &&& old(self).running_len() < old(self).limit()
                        &&& old(self).is_next(e)
                        &&& e.0 == key@
                        &&& priority == old(self).job_priorities()[key@]
                        &&& !(is_preload_priority(priority) && old(self).preloads_running() >= old(
                            self,
                        ).limit() - 1)
                        &&& final(self).running_jobs() == old(self).running_jobs().insert(
                            key@,
                            is_preload_priority(priority),
                        )
                        &&& final(self).running_len() == old(self).running_len() + 1
                        &&& final(self).preloads_running() == old(self).preloads_running() + if is_preload_priority(priority) {
                            1nat
                        } else {
                            0nat
                        }
                        &&& final(self).queue_entries() == old(self).queue_entries().remove(
                            i,
                        ).filter(|f: (K::V, P, u64)| !(!old(self).startable(f) && pops_before(f, e)))
                    },
                None => {
                    &&& final(self).running_jobs() == old(self).running_jobs()
                    &&& final(self).running_len() == old(self).running_len()
                    &&& final(self).preloads_running() == old(self).preloads_running()
                    &&& (old(self).running_len() < old(self).limit() && (exists|f: (K::V, P, u64)|
                        #![trigger old(self).queue_entries().contains(f)]
                        old(self).queue_entries().contains(f) && old(self).startable(f)) ==> exists|e: (K::V, P, u64)|
                        #![trigger old(self).is_next(e)]
                        {
                            &&& old(self).is_next(e)
                            &&& is_preload_priority(old(self).job_priorities()[e.0])
                            &&& old(self).preloads_running() >= old(self).limit() - 1
                            &&& final(self).queue_entries() == old(self).queue_entries().filter(
                                |f: (K::V, P, u64)| !(!old(self).startable(f) && pops_before(f, e)),
                            )
                        })
                },
            },
    {
        if self.running.len() >= self.max_concurrent {
            return None;
        }
        let ghost start = *self;
        let found = self.next_startable();
        let Some(b) = found else {
            self.pending = Vec::new();
            proof {
                assert(self.queue_entries() =~= Seq::<(K::V, P, u64)>::empty());
            }
            return None;
        };
        let ghost q = self.queue_entries();
        let ghost e = q[b as int];
        let rank = self.pending[b].priority.rank();
        let sequence = self.pending[b].sequence;
        let p = self.priority_index(&self.pending[b].key);
        let Some(p) = p else {
            proof {
                assert(false);
            }
            return None;
        };
        let priority = self.priorities[p].1;
        let preload = priority.is_preload();
        if preload && self.running_preloads >= self.max_preloads() {
            self.discard_stale_before(rank, sequence, Ghost(e));
            return None;
        }
        let entry = self.pending.remove(b);
        proof {
            assert(self.queue_entries() =~= q.remove(b as int));
        }
        // startable() is unchanged: priorities and running are as before.
        let ghost mid = *self;
        self.discard_stale_before(rank, sequence, Ghost(e));
        proof {
            let pred_mid = |f: (K::V, P, u64)| !(!mid.startable(f) && pops_before(f, e));
            let pred_start = |f: (K::V, P, u64)| !(!start.startable(f) && pops_before(f, e));
            assert(pred_mid =~= pred_start);
        }
        let ghost old_running = self.running@;
        let result_key = entry.key.duplicate();
        proof {
            assert(!has_key(old_running, entry.key@));
            lemma_map_of_push(old_running, (entry.key, preload));
            lemma_count_flagged_push(old_running, (entry.key, preload));
        }
        self.running.push((entry.key, preload));
        proof {
            assert forall|j: int| 0 <= j < self.running@.len() implies has_key(
                self.priorities@,
                #[trigger] self.running@[j].0@,
            ) by {
                if j < old_running.len() {
                    assert(self.running@[j] == old_running[j]);
                }
            }
        }
        if preload {
            self.running_preloads = self.running_preloads + 1;
        }
        proof {
            let pred_then = |f: (K::V, P, u64)| !(!start.startable(f) && pops_before(f, e));
            assert(start.queue_entries()[b as int] == e);
            assert(self.running_jobs() =~= start.running_jobs().insert(e.0, preload));
            lemma_count_flagged_bound(old_running);
            assert(start.running_len() < start.limit());
            assert(start.is_next(e));
            assert(e.0 == result_key@);
            assert(priority == start.job_priorities()[result_key@]);
            assert(self.running_len() == start.running_len() + 1);
            assert(self.queue_entries() == start.queue_entries().remove(b as int).filter(pred_then));
        }
        Some((result_key, priority))
    }

    /// Forgets a finished job; its queue entries stay until they are popped.
    /// Unknown keys (e.g. jobs from before a `clear`) are ignored.
    pub fn finish(&mut self, key: &K)
        requires
            old(self).wf(),
            old(self).well_queued(),
        ensures
            final(self).wf(),
            final(self).well_queued(),
            final(self).job_priorities() == old(self).job_priorities().remove(key@),
            final(self).running_jobs() == old(self).running_jobs().remove(key@),
            final(self).running_len() == old(self).running_len() - if old(
                self,
            ).running_jobs().contains_key(key@) {
                1int
            } else {
                0int
            },
            final(self).preloads_running() == old(self).preloads_running() - if old(
                self,
            ).running_jobs().contains_key(key@) && old(self).running_jobs()[key@] {
                1int
            } else {
                0int
            },
            final(self).queue_entries() == old(self).queue_entries(),
            final(self).next_sequence() == old(self).next_sequence(),
            final(self).limit() == old(self).limit(),
    {
        let ghost before = *self;
        self.finish_steps(key);
        proof {
            assert forall|k: K::V|
                #![trigger self.job_priorities().contains_key(k)]
                self.job_priorities().contains_key(k) && !self.running_jobs().contains_key(k) implies exists|q: u64|
                #[trigger] self.queue_entries().contains((k, self.job_priorities()[k], q)) by {
                assert(before.job_priorities().contains_key(k) && !before.running_jobs().contains_key(k));
                let q = choose|q: u64| #[trigger] before.queue_entries().contains((k, before.job_priorities()[k], q));
                assert(self.queue_entries().contains((k, self.job_priorities()[k], q)));
            }
        }
    }

    fn finish_steps(&mut self, key: &K)
        requires
            old(self).wf(),
        ensures
            final(self).wf(),
            final(self).job_priorities() == old(self).job_priorities().remove(key@),
            final(self).running_jobs() == old(self).running_jobs().remove(key@),
            final(self).running_len() == old(self).running_len() - if old(
                self,
            ).running_jobs().contains_key(key@) {
                1int
            } else {
                0int
            },
            final(self).preloads_running() == old(self).preloads_running() - if old(
                self,
            ).running_jobs().contains_key(key@) && old(self).running_jobs()[key@] {
                1int
            } else {
                0int
            },
            final(self).queue_entries() == old(self).queue_entries(),
            final(self).next_sequence() == old(self).next_sequence(),
            final(self).limit() == old(self).limit(),
    {
        let ghost old_priorities = self.priorities@;
        let ghost old_running = self.running@;
        match find_key(&self.priorities, key) {
            Some(i) => {
                proof {
                    lemma_map_of_remove(old_priorities, i as int);
                }
                self.priorities.remove(i);
            },
            None => {
                proof {
                    lemma_map_of_absent(old_priorities, key@);
                    assert(map_of(old_priorities).remove(key@) =~= map_of(old_priorities));
                }
            },
        }
        match find_key(&self.running, key) {
            Some(r) => {
                proof {
                    lemma_map_of_remove(old_running, r as int);
                    lemma_map_of_index(old_running, r as int);
                    lemma_count_flagged_remove(old_running, r as int);
                }
                let (_, preload) = self.running.remove(r);
                if preload {
                    self.running_preloads = self.running_preloads - 1;
                }
            },
            None => {
                proof {
                    lemma_map_of_absent(old_running, key@);
                    assert(map_of(old_running).remove(key@) =~= map_of(old_running));
                }
            },
        }
        proof {
            assert forall|j: int| 0 <= j < self.running@.len() implies has_key(
                self.priorities@,
                #[trigger] self.running@[j].0@,
            ) by {
                let k = self.running@[j].0@;
                assert(map_of(self.running@).contains_key(k));
                assert(map_of(old_running).contains_key(k));
                let w = choose|w: int| 0 <= w < old_running.len() && #[trigger] old_running[w].0@ == k;
                assert(has_key(old_priorities, old_running[w].0@));
                assert(map_of(old_priorities).contains_key(k));
                assert(map_of(self.priorities@).contains_key(k));
            }
        }
    }

    /// Drops queued preloads that have not started; returns their keys.
    pub fn cancel_queued_preloads(&mut self) -> (cancelled: Vec<K>)
        requires
            old(self).wf(),
            old(self).well_queued(),
        ensures
            final(self).wf(),
            final(self).well_queued(),
            final(self).queue_entries() == old(self).queue_entries().filter(
                |f: (K::V, P, u64)| !is_preload_priority(f.1),
            ),
            forall|k: K::V|
                #![trigger final(self).job_priorities().contains_key(k)]
                final(self).job_priorities().contains_key(k) == (old(self).job_priorities().contains_key(k)
                    && !old(self).cancels(k)),
            forall|k: K::V|
                #![trigger final(self).job_priorities()[k]]
                final(self).job_priorities().contains_key(k) ==> final(self).job_priorities()[k]
                    == old(self).job_priorities()[k],
            forall|k: K::V| #[trigger] listed(cancelled@, k) == old(self).cancels(k),
            forall|a: int, b: int|
                0 <= a < cancelled@.len() && 0 <= b < cancelled@.len() && a != b
                    ==> #[trigger] cancelled@[a]@ != #[trigger] cancelled@[b]@,
            final(self).running_jobs() == old(self).running_jobs(),
            final(self).running_len() == old(self).running_len(),
            final(self).preloads_running() == old(self).preloads_running(),
            final(self).next_sequence() == old(self).next_sequence(),
            final(self).limit() == old(self).limit(),
    {
        let ghost before = *self;
        let cancelled = self.cancel_queued_preloads_steps();
        proof {
            let keep = |f: (K::V, P, u64)| !is_preload_priority(f.1);
            assert forall|k: K::V|
                #![trigger self.job_priorities().contains_key(k)]
                self.job_priorities().contains_key(k) && !self.running_jobs().contains_key(k) implies exists|q: u64|
                #[trigger] self.queue_entries().contains((k, self.job_priorities()[k], q)) by {
                assert(before.job_priorities().contains_key(k) && !before.cancels(k));
                let p = before.job_priorities()[k];
                let q = choose|q: u64| #[trigger] before.queue_entries().contains((k, p, q));
                let j = before.queue_entries().index_of((k, p, q));
                before.queue_entries().lemma_filter_contains(keep, j);
                assert(self.queue_entries().contains((k, self.job_priorities()[k], q)));
            }
        }
        cancelled
    }

    fn cancel_queued_preloads_steps(&mut self) -> (cancelled: Vec<K>)
        requires
            old(self).wf(),
        ensures
            final(self).wf(),
            final(self).queue_entries() == old(self).queue_entries().filter(
                |f: (K::V, P, u64)| !is_preload_priority(f.1),
            ),
            forall|k: K::V|
                #![trigger final(self).job_priorities().contains_key(k)]
                final(self).job_priorities().contains_key(k) == (old(self).job_priorities().contains_key(k)
                    && !old(self).cancels(k)),
            forall|k: K::V|
                #![trigger final(self).job_priorities()[k]]
                final(self).job_priorities().contains_key(k) ==> final(self).job_priorities()[k]
                    == old(self).job_priorities()[k],
            forall|k: K::V| #[trigger] listed(cancelled@, k) == old(self).cancels(k),
            forall|a: int, b: int|
                0 <= a < cancelled@.len() && 0 <= b < cancelled@.len() && a != b
                    ==> #[trigger] cancelled@[a]@ != #[trigger] cancelled@[b]@,
            final(self).running_jobs() == old(self).running_jobs(),
            final(self).running_len() == old(self).running_len(),
            final(self).preloads_running() == old(self).preloads_running(),
            final(self).next_sequence() == old(self).next_sequence(),
            final(self).limit() == old(self).limit(),
    {
        self.drop_queued_preloads();
        let ghost start = *self;
        let ghost p = self.priorities@;
        let mut kept: Vec<(K, P)> = Vec::new();
        let mut cancelled: Vec<K> = Vec::new();
        let mut i: usize = 0;
        while i < self.priorities.len()
            invariant
                self.wf(),
                *self == start,
                p == self.priorities@,
                i <= p.len(),
                keys_distinct(kept@),
                forall|k: K::V|
                    #![trigger map_of(kept@).contains_key(k)]
                    map_of(kept@).contains_key(k) == (has_key(p.take(i as int), k)
                        && !start.cancels(k)),
                forall|k: K::V|
                    #![trigger map_of(kept@)[k]]
                    map_of(kept@).contains_key(k) ==> map_of(kept@)[k] == start.job_priorities()[k],
                forall|k: K::V|
                    #[trigger] listed(cancelled@, k) == (has_key(p.take(i as int), k) && start.cancels(k)),
                forall|a: int, b: int|
                    0 <= a < cancelled@.len() && 0 <= b < cancelled@.len() && a != b
                        ==> #[trigger] cancelled@[a]@ != #[trigger] cancelled@[b]@,
            decreases p.len() - i,
        {
            let ghost kept_before = kept@;
            let ghost cancelled_before = cancelled@;
            let ghost k = p[i as int].0@;
            proof {
                lemma_map_of_index(p, i as int);
                assert(p.take(i + 1) =~= p.take(i as int).push(p[i as int]));
                assert forall|x: K::V| has_key(p.take(i + 1), x) == (has_key(p.take(i as int), x)
                    || x == k) by {
                    if has_key(p.take(i + 1), x) {
                        let w = choose|w: int| 0 <= w < p.take(i + 1).len() && #[trigger] p.take(i + 1)[w].0@ == x;
                        if w < i {
                            assert(p.take(i as int)[w] == p.take(i + 1)[w]);
                        }
                    }
                    if has_key(p.take(i as int), x) {
                        let w = choose|w: int| 0 <= w < p.take(i as int).len() && #[trigger] p.take(i as int)[w].0@ == x;
                        assert(p.take(i as int)[w] == p.take(i + 1)[w]);
                    }
                    if x == k {
                        assert(p.take(i + 1)[i as int] == p[i as int]);
                    }
                }
                assert(!has_key(p.take(i as int), k)) by {
                    if has_key(p.take(i as int), k) {
                        let w = choose|w: int| 0 <= w < p.take(i as int).len() && #[trigger] p.take(i as int)[w].0@ == k;
                        assert(p[w].0@ == p[i as int].0@);
                    }
                }
            }
            let entry = &self.priorities[i];
            let running = self.is_running(&entry.0);
            if entry.1.is_preload() && !running {
                cancelled.push(entry.0.duplicate());
                proof {
                    assert(start.cancels(k));
                    assert forall|x: K::V|
                        #[trigger] listed(cancelled@, x) == (has_key(p.take(i + 1), x) && start.cancels(x)) by {
                        assert(listed(cancelled_before, x) == (has_key(p.take(i as int), x) && start.cancels(x)));
                        if listed(cancelled@, x) {
                            let j = choose|j: int| 0 <= j < cancelled@.len() && #[trigger] cancelled@[j]@ == x;
                            if j < cancelled_before.len() {
                                assert(cancelled_before[j] == cancelled@[j]);
                            }
                        }
                        if listed(cancelled_before, x) {
                            let j = choose|j: int| 0 <= j < cancelled_before.len() && #[trigger] cancelled_before[j]@ == x;
                            assert(cancelled@[j] == cancelled_before[j]);
                        }
                        if x == k {
                            assert(cancelled@[cancelled_before.len() as int]@ == k);
                        }
                    }
                    assert(!listed(cancelled_before, k));
                    assert forall|a: int, b: int|
                        0 <= a < cancelled@.len() && 0 <= b < cancelled@.len() && a != b
                            implies #[trigger] cancelled@[a]@ != #[trigger] cancelled@[b]@ by {
                        if a < cancelled_before.len() && b < cancelled_before.len() {
                            assert(cancelled@[a] == cancelled_before[a]);
                            assert(cancelled@[b] == cancelled_before[b]);
                        } else if a < cancelled_before.len() {
                            assert(cancelled@[a] == cancelled_before[a]);
                            assert(!(has_key(p.take(i as int), k) && start.cancels(k)));
                        } else {
                            assert(cancelled@[b] == cancelled_before[b]);
                            assert(!(has_key(p.take(i as int), k) && start.cancels(k)));
                        }
                    }
                }
            } else {
                let copy = entry.0.duplicate();
                proof {
                    assert(!has_key(kept_before, k)) by {
                        if has_key(kept_before, k) {
                            assert(map_of(kept_before).contains_key(k));
                        }
                    }
                    lemma_map_of_push(kept_before, (copy, entry.1));
                }
                kept.push((copy, entry.1));
            }
            i += 1;
        }
        proof {
            assert(p.take(i as int) =~= p);
        }
        self.priorities = kept;
        proof {
            assert forall|j: int| 0 <= j < self.running@.len() implies has_key(
                self.priorities@,
                #[trigger] self.running@[j].0@,
            ) by {
                let x = self.running@[j].0@;
                lemma_map_of_index(self.running@, j);
                assert(has_key(p, x));
                assert(map_of(self.priorities@).contains_key(x));
            }
        }
        cancelled
    }

    /// Removes queue entries whose priority is a preload.
    fn drop_queued_preloads(&mut self)
        requires
            old(self).wf(),
        ensures
            final(self).wf(),
            final(self).priorities@ == old(self).priorities@,
            final(self).running@ == old(self).running@,
            final(self).running_preloads == old(self).running_preloads,
            final(self).sequence == old(self).sequence,
            final(self).max_concurrent == old(self).max_concurrent,
            final(self).queue_entries() == old(self).queue_entries().filter(
                |f: (K::V, P, u64)| !is_preload_priority(f.1),
            ),
    {
        let ghost q = self.queue_entries();
        let ghost pred = |f: (K::V, P, u64)| !is_preload_priority(f.1);
        let mut kept: Vec<Queued<K, P>> = Vec::new();
        let mut i: usize = 0;
        while i < self.pending.len()
            invariant
                self.wf(),
                q == self.queue_entries(),
                i <= self.pending@.len(),
                q.len() == self.pending@.len(),
                pred == (|f: (K::V, P, u64)| !is_preload_priority(f.1)),
                kept@.map_values(|x: Queued<K, P>| (x.key@, x.priority, x.sequence)) == q.take(
                    i as int,
                ).filter(pred),
            decreases self.pending@.len() - i,
        {
            let ghost before = kept@;
            let entry = &self.pending[i];
            proof {
                assert(q[i as int] == (entry.key@, entry.priority, entry.sequence));
                assert(q.take(i + 1) =~= q.take(i as int).push(q[i as int]));
                q.take(i as int).lemma_filter_push(q[i as int], pred);
            }
            if !entry.priority.is_preload() {
                kept.push(Queued { priority: entry.priority, sequence: entry.sequence, key: entry.key.duplicate() });
                proof {
                    assert(kept@.map_values(|x: Queued<K, P>| (x.key@, x.priority, x.sequence))
                        =~= before.map_values(
                        |x: Queued<K, P>| (x.key@, x.priority, x.sequence),
                    ).push(q[i as int]));
                }
            }
            i += 1;
        }
        proof {
            assert(q.take(i as int) =~= q);
        }
        self.pending = kept;
    }

    /// Every queued job that is not running has a queue entry at its
    /// current priority, so it can start once it is first in line.
    pub open spec fn well_queued(&self) -> bool {
        forall|k: K::V|
            #![trigger self.job_priorities().contains_key(k)]
            self.job_priorities().contains_key(k) && !self.running_jobs().contains_key(k) ==> exists|q: u64|
                #[trigger] self.queue_entries().contains((k, self.job_priorities()[k], q))
    }

    /// Nothing more can start: when a slot is free and some queued job could
    /// start, the job first in line is a preload and preloads already hold
    /// every slot they may take.
    pub open spec fn is_settled(&self) -> bool {
        self.running_len() < self.limit() && (exists|f: (K::V, P, u64)|
            #![trigger self.queue_entries().contains(f)]
            self.queue_entries().contains(f) && self.startable(f)) ==> exists|e: (K::V, P, u64)|
            #![trigger self.is_next(e)]
            {
                &&& self.is_next(e)
                &&& is_preload_priority(self.job_priorities()[e.0])
                &&& self.preloads_running() + 1 >= self.limit()
            }
    }

    /// Starts jobs until nothing more can start; returns each started job
    /// with whether it was started as a preload.
    pub fn start_all(&mut self) -> (started: Vec<(K, bool)>)
        requires
            old(self).wf(),
            old(self).well_queued(),
        ensures
            final(self).wf(),
            final(self).well_queued(),
            final(self).is_settled(),
            final(self).job_priorities() == old(self).job_priorities(),
            final(self).limit() == old(self).limit(),
            final(self).next_sequence() == old(self).next_sequence(),
            final(self).running_len() == old(self).running_len() + started@.len(),
            forall|i: int|
                #![trigger started@[i]]
                0 <= i < started@.len() ==> {
                    &&& !old(self).running_jobs().contains_key(started@[i].0@)
                    &&& final(self).running_jobs().contains_key(started@[i].0@)
                    &&& final(self).running_jobs()[started@[i].0@] == started@[i].1
                    &&& started@[i].1 == is_preload_priority(
                        final(self).job_priorities()[started@[i].0@],
                    )
                },
            forall|k: K::V|
                #![trigger final(self).running_jobs().contains_key(k)]
                final(self).running_jobs().contains_key(k) == (old(self).running_jobs().contains_key(k)
                    || has_key(started@, k)),
            forall|k: K::V|
                #![trigger final(self).running_jobs()[k]]
                old(self).running_jobs().contains_key(k) ==> final(self).running_jobs()[k] == old(
                    self,
                ).running_jobs()[k],
            forall|a: int, b: int|
                0 <= a < started@.len() && 0 <= b < started@.len() && a != b
                    ==> #[trigger] started@[a].0@ != #[trigger] started@[b].0@,
    {
        let ghost start = *self;
        let mut started: Vec<(K, bool)> = Vec::new();
        loop
            invariant_except_break
                self.wf(),
                self.well_queued(),
                self.job_priorities() == start.job_priorities(),
                self.limit() == start.limit(),
                self.next_sequence() == start.next_sequence(),
                self.running_len() == start.running_len() + started@.len(),
                forall|i: int|
                    #![trigger started@[i]]
                    0 <= i < started@.len() ==> {
                        &&& !start.running_jobs().contains_key(started@[i].0@)
                        &&& self.running_jobs().contains_key(started@[i].0@)
                        &&& self.running_jobs()[started@[i].0@] == started@[i].1
                        &&& started@[i].1 == is_preload_priority(self.job_priorities()[started@[i].0@])
                    },
                forall|k: K::V|
                    #![trigger self.running_jobs().contains_key(k)]
                    self.running_jobs().contains_key(k) == (start.running_jobs().contains_key(k)
                        || has_key(started@, k)),
                forall|k: K::V|
                    #![trigger self.running_jobs()[k]]
                    start.running_jobs().contains_key(k) ==> self.running_jobs()[k]
                        == start.running_jobs()[k],
                forall|a: int, b: int|
                    0 <= a < started@.len() && 0 <= b < started@.len() && a != b
                        ==> #[trigger] started@[a].0@ != #[trigger] started@[b].0@,
            ensures
                self.wf(),
                self.well_queued(),
                self.is_settled(),
                self.job_priorities() == start.job_priorities(),
                self.limit() == start.limit(),
                self.next_sequence() == start.next_sequence(),
                self.running_len() == start.running_len() + started@.len(),
                forall|i: int|
                    #![trigger started@[i]]
                    0 <= i < started@.len() ==> {
                        &&& !start.running_jobs().contains_key(started@[i].0@)
                        &&& self.running_jobs().contains_key(started@[i].0@)
                        &&& self.running_jobs()[started@[i].0@] == started@[i].1
                        &&& started@[i].1 == is_preload_priority(self.job_priorities()[started@[i].0@])
                    },
                forall|k: K::V|
                    #![trigger self.running_jobs().contains_key(k)]
                    self.running_jobs().contains_key(k) == (start.running_jobs().contains_key(k)
                        || has_key(started@, k)),
                forall|k: K::V|
                    #![trigger self.running_jobs()[k]]
                    start.running_jobs().contains_key(k) ==> self.running_jobs()[k]
                        == start.running_jobs()[k],
                forall|a: int, b: int|
                    0 <= a < started@.len() && 0 <= b < started@.len() && a != b
                        ==> #[trigger] started@[a].0@ != #[trigger] started@[b].0@,
            decreases self.limit() - self.running_len(),
        {
            let ghost before = *self;
            let ghost before_started = started@;
            proof {
                lemma_slots_reserved_for_visible_work(&before);
            }
            match self.start_next() {
                Some((key, priority)) => {
                    let preload = priority.is_preload();
                    proof {
                        assert(!before.running_jobs().contains_key(key@));
                        assert(self.running_jobs() == before.running_jobs().insert(key@, preload));
                        assert forall|i: int| 0 <= i < before_started.len() implies before_started[i].0@
                            != key@ by {
                            assert(before.running_jobs().contains_key(before_started[i].0@));
                        }
                    }
                    started.push((key, preload));
                    proof {
                        assert(started@ == before_started.push((key, preload)));
                        assert forall|k: K::V| #[trigger]
                            self.running_jobs().contains_key(k) == (start.running_jobs().contains_key(k)
                                || has_key(started@, k)) by {
                            if has_key(before_started, k) {
                                let j = choose|j: int| 0 <= j < before_started.len() && #[trigger] before_started[j].0@ == k;
                                assert(started@[j].0@ == k);
                            }
                            if k == key@ {
                                assert(started@[before_started.len() as int].0@ == k);
                            }
                            if has_key(started@, k) && k != key@ {
                                let j = choose|j: int| 0 <= j < started@.len() && #[trigger] started@[j].0@ == k;
                                assert(before_started[j].0@ == k);
                            }
                        }
                    }
                },
                None => {
                    proof {
                        if self.running_len() < self.limit() && (exists|f: (K::V, P, u64)|
                            #![trigger self.queue_entries().contains(f)]
                            self.queue_entries().contains(f) && self.startable(f)) {
                            let f = choose|f: (K::V, P, u64)|
                                #![trigger self.queue_entries().contains(f)]
                                self.queue_entries().contains(f) && self.startable(f);
                            assert(before.running_len() < before.limit());
                            if before.running_len() < before.limit() && (exists|g: (K::V, P, u64)|
                                #![trigger before.queue_entries().contains(g)]
                                before.queue_entries().contains(g) && before.startable(g)) {
                                let e = choose|e: (K::V, P, u64)|
                                    #![trigger before.is_next(e)]
                                    {
                                        &&& before.is_next(e)
                                        &&& is_preload_priority(before.job_priorities()[e.0])
                                        &&& before.preloads_running() >= before.limit() - 1
                                        &&& self.queue_entries() == before.queue_entries().filter(
                                            |g: (K::V, P, u64)| !(!before.startable(g) && pops_before(g, e)),
                                        )
                                    };
                                let pe = |g: (K::V, P, u64)| !(!before.startable(g) && pops_before(g, e));
                                let bq = before.queue_entries();
                                let i = bq.index_of(e);
                                bq.lemma_filter_contains(pe, i);
                                assert(self.queue_entries().contains(e));
                                assert forall|g: (K::V, P, u64)|
                                    #![trigger self.queue_entries().contains(g)]
                                    self.queue_entries().contains(g) && self.startable(g) implies !pops_before(g, e) by {
                                    bq.lemma_filter_contains_rev(pe, g);
                                }
                                assert(self.is_next(e));
                            } else {
                                assert(self.queue_entries() == Seq::<(K::V, P, u64)>::empty());
                            }
                        }
                    }
                    break;
                },
            }
        }
        started
    }

    /// Forgets all jobs; results of jobs still running are ignored later.
    pub fn clear(&mut self)
        requires
            old(self).wf(),
        ensures
            final(self).wf(),
            final(self).well_queued(),
            final(self).job_priorities() == Map::<K::V, P>::empty(),
            final(self).running_jobs() == Map::<K::V, bool>::empty(),
            final(self).running_len() == 0,
            final(self).preloads_running() == 0,
            final(self).queue_entries() == Seq::<(K::V, P, u64)>::empty(),
            final(self).next_sequence() == 0,
            final(self).limit() == old(self).limit(),
    {
        self.priorities = Vec::new();
        self.running = Vec::new();
        self.running_preloads = 0;
        self.pending = Vec::new();
        self.sequence = 0;
        proof {
            assert(self.job_priorities() =~= Map::<K::V, P>::empty());
            assert(self.running_jobs() =~= Map::<K::V, bool>::empty());
            assert(self.queue_entries() =~= Seq::<(K::V, P, u64)>::empty());
        }
    }

    fn max_preloads(&self) -> (count: usize)
        requires
            self.wf(),
        ensures
            count == self.limit() - 1,
    {
        self.max_concurrent - 1
    }

    fn push(&mut self, key: K, priority: P)
        ensures
            final(self).priorities@ == old(self).priorities@,
            final(self).running@ == old(self).running@,
            final(self).running_preloads == old(self).running_preloads,
            final(self).max_concurrent == old(self).max_concurrent,
            final(self).queue_entries() == old(self).queue_entries().push(
                (key@, priority, old(self).sequence),
            ),
            final(self).sequence == next_sequence_after(old(self).sequence),
    {
        let sequence = self.sequence;
        self.sequence = self.sequence.wrapping_add(1);
        self.pending.push(Queued { priority, sequence, key });
        proof {
            assert(self.queue_entries() =~= old(self).queue_entries().push(
                (key@, priority, old(self).sequence),
            ));
        }
    }
}

/// At most `limit` jobs run at once, and preloads never take the last slot:
/// one slot is always kept free for visible work.
pub proof fn lemma_slots_reserved_for_visible_work<K: JobKey, P: JobPriority>(queue: &JobQueue<K, P>)
    requires
        queue.wf(),
    ensures
        queue.running_len() <= queue.limit(),
        queue.preloads_running() <= queue.running_len(),
        queue.preloads_running() + 1 <= queue.limit(),
{
    lemma_count_flagged_bound(queue.running@);
}

/// Every running job is known: it has a current priority, so a key that
/// `contains` denies is not running either.
pub proof fn lemma_running_jobs_are_known<K: JobKey, P: JobPriority>(queue: &JobQueue<K, P>, k: K::V)
    requires
        queue.wf(),
        queue.running_jobs().contains_key(k),
    ensures
        queue.job_priorities().contains_key(k),
{
    let w = choose|w: int| 0 <= w < queue.running@.len() && #[trigger] queue.running@[w].0@ == k;
    assert(has_key(queue.priorities@, queue.running@[w].0@));
}

/// Every known job that is not running can start once it is first in
/// line: it has a startable queue entry at its current priority.
pub proof fn lemma_waiting_jobs_can_start<K: JobKey, P: JobPriority>(queue: &JobQueue<K, P>, k: K::V)
    requires
        queue.wf(),
        queue.well_queued(),
        queue.job_priorities().contains_key(k),
        !queue.running_jobs().contains_key(k),
    ensures
        exists|q: u64|
            #![trigger queue.queue_entries().contains((k, queue.job_priorities()[k], q))]
            queue.queue_entries().contains((k, queue.job_priorities()[k], q)) && queue.startable(
                (k, queue.job_priorities()[k], q),
            ),
{
    let q = choose|q: u64| #[trigger] queue.queue_entries().contains((k, queue.job_priorities()[k], q));
    assert(queue.startable((k, queue.job_priorities()[k], q)));
}

/// When the next queue entry is a preload, every startable entry is a
/// preload: higher priorities are always taken first, so what is left
/// behind a preload is preloads only.
pub proof fn lemma_preload_next_leaves_only_preloads<K: JobKey, P: JobPriority>(
    queue: &JobQueue<K, P>,
    e: (K::V, P, u64),
)
    requires
        queue.wf(),
        queue.is_next(e),
        is_preload_priority(e.1),
    ensures
        forall|f: (K::V, P, u64)|
            #![trigger queue.queue_entries().contains(f)]
            queue.queue_entries().contains(f) && queue.startable(f) ==> is_preload_priority(f.1)
                && is_preload_priority(queue.job_priorities()[f.0]),
{
}


proof fn lemma_well_queued_push<K: JobKey, P: JobPriority>(
    before: JobQueue<K, P>,
    after: JobQueue<K, P>,
    k: K::V,
    p: P,
    q: u64,
)
    requires
        before.well_queued(),
        after.job_priorities() == before.job_priorities().insert(k, p),
        after.running_jobs() == before.running_jobs(),
        after.queue_entries() == before.queue_entries().push((k, p, q)),
    ensures
        after.well_queued(),
{
    assert forall|kk: K::V|
        #![trigger after.job_priorities().contains_key(kk)]
        after.job_priorities().contains_key(kk) && !after.running_jobs().contains_key(kk) implies exists|r: u64|
            #[trigger] after.queue_entries().contains((kk, after.job_priorities()[kk], r)) by {
        let qs = before.queue_entries();
        if kk == k {
            assert(qs.push((k, p, q))[qs.len() as int] == (k, p, q));
            assert(after.queue_entries().contains((kk, after.job_priorities()[kk], q)));
        } else {
            let r = choose|r: u64| #[trigger] qs.contains((kk, before.job_priorities()[kk], r));
            let j = qs.index_of((kk, before.job_priorities()[kk], r));
            assert(qs.push((k, p, q))[j] == qs[j]);
            assert(after.queue_entries().contains((kk, after.job_priorities()[kk], r)));
        }
    }
}

proof fn lemma_start_picks_most_urgent<K: JobKey, P: JobPriority>(
    before: JobQueue<K, P>,
    after: JobQueue<K, P>,
    started: Option<(K, P)>,
)
    requires
        before.wf(),
        before.well_queued(),
        match started {
            Some((key, priority)) => exists|i: int|
                #![trigger before.queue_entries()[i]]
                0 <= i < before.queue_entries().len() && {
                    let e = before.queue_entries()[i];
                    &&& before.is_next(e)
                    &&& e.0 == key@
                    &&& priority == before.job_priorities()[key@]
                },
            None => before.running_len() < before.limit() && (exists|f: (K::V, P, u64)|
                #![trigger before.queue_entries().contains(f)]
                before.queue_entries().contains(f) && before.startable(f)) ==> exists|e: (K::V, P, u64)|
                #![trigger before.is_next(e)]
                {
                    &&& before.is_next(e)
                    &&& is_preload_priority(before.job_priorities()[e.0])
                    &&& before.preloads_running() >= before.limit() - 1
                },
        },
    ensures
        started matches Some((key, priority)) ==> forall|k: K::V|
            #![trigger before.job_priorities().contains_key(k)]
            before.job_priorities().contains_key(k) && !before.running_jobs().contains_key(k)
                ==> before.job_priorities()[k].rank_spec() <= priority.rank_spec(),
        started is None && before.running_len() < before.limit() ==> forall|k: K::V|
            #![trigger before.job_priorities().contains_key(k)]
            before.job_priorities().contains_key(k) && !before.running_jobs().contains_key(k)
                ==> is_preload_priority(before.job_priorities()[k]) && before.preloads_running()
                >= before.limit() - 1,
{
    let qs = before.queue_entries();
    match started {
        Some((key, priority)) => {
            let i = choose|i: int|
                #![trigger qs[i]]
                0 <= i < qs.len() && {
                    let e = qs[i];
                    &&& before.is_next(e)
                    &&& e.0 == key@
                    &&& priority == before.job_priorities()[key@]
                };
            let e = qs[i];
            assert forall|k: K::V|
                #![trigger before.job_priorities().contains_key(k)]
                before.job_priorities().contains_key(k) && !before.running_jobs().contains_key(k)
                    implies before.job_priorities()[k].rank_spec() <= priority.rank_spec() by {
                let r = choose|r: u64| #[trigger] qs.contains((k, before.job_priorities()[k], r));
                let f = (k, before.job_priorities()[k], r);
                assert(before.startable(f));
                assert(!pops_before(f, e));
            }
        },
        None => {
            if before.running_len() < before.limit() {
                assert forall|k: K::V|
                    #![trigger before.job_priorities().contains_key(k)]
                    before.job_priorities().contains_key(k) && !before.running_jobs().contains_key(k)
                        implies is_preload_priority(before.job_priorities()[k]) && before.preloads_running()
                        >= before.limit() - 1 by {
                    let r = choose|r: u64| #[trigger] qs.contains((k, before.job_priorities()[k], r));
                    let f = (k, before.job_priorities()[k], r);
                    assert(before.startable(f));
                    let e = choose|e: (K::V, P, u64)|
                        #![trigger before.is_next(e)]
                        {
                            &&& before.is_next(e)
                            &&& is_preload_priority(before.job_priorities()[e.0])
                            &&& before.preloads_running() >= before.limit() - 1
                        };
                    assert(!pops_before(f, e));
                    assert(before.startable(e));
                }
            }
        },
    }
}

proof fn lemma_well_queued_after_start<K: JobKey, P: JobPriority>(
    before: JobQueue<K, P>,
    after: JobQueue<K, P>,
    started: Option<(K, P)>,
)
    requires
        before.wf(),
        before.well_queued(),
        after.job_priorities() == before.job_priorities(),
        before.running_len() >= before.limit() ==> started is None && after.queue_entries()
            == before.queue_entries(),
        before.running_len() < before.limit() && (forall|f: (K::V, P, u64)|
            #![trigger before.queue_entries().contains(f)]
            before.queue_entries().contains(f) ==> !before.startable(f)) ==> started is None
            && after.queue_entries() == Seq::<(K::V, P, u64)>::empty(),
        match started {
            Some((key, priority)) => exists|i: int|
                #![trigger before.queue_entries()[i]]
                0 <= i < before.queue_entries().len() && {
                    let e = before.queue_entries()[i];
                    &&& e.0 == key@
                    &&& after.running_jobs() == before.running_jobs().insert(
                        key@,
                        is_preload_priority(priority),
                    )
                    &&& after.queue_entries() == before.queue_entries().remove(i).filter(
                        |f: (K::V, P, u64)| !(!before.startable(f) && pops_before(f, e)),
                    )
                },
            None => {
                &&& after.running_jobs() == before.running_jobs()
                &&& (before.running_len() < before.limit() && (exists|f: (K::V, P, u64)|
                    #![trigger before.queue_entries().contains(f)]
                    before.queue_entries().contains(f) && before.startable(f)) ==> exists|e: (K::V, P, u64)|
                    #![trigger before.is_next(e)]
                    {
                        &&& before.is_next(e)
                        &&& after.queue_entries() == before.queue_entries().filter(
                            |f: (K::V, P, u64)| !(!before.startable(f) && pops_before(f, e)),
                        )
                    })
            },
        },
    ensures
        after.well_queued(),
{
    let qs = before.queue_entries();
    assert forall|kk: K::V|
        #![trigger after.job_priorities().contains_key(kk)]
        after.job_priorities().contains_key(kk) && !after.running_jobs().contains_key(kk) implies exists|r: u64|
            #[trigger] after.queue_entries().contains((kk, after.job_priorities()[kk], r)) by {
        let p = before.job_priorities()[kk];
        assert(!before.running_jobs().contains_key(kk));
        let r = choose|r: u64| #[trigger] qs.contains((kk, p, r));
        let f = (kk, p, r);
        let j = qs.index_of(f);
        assert(before.startable(f));
        match started {
            Some((key, priority)) => {
                let i = choose|i: int|
                    #![trigger qs[i]]
                    0 <= i < qs.len() && {
                        let e = qs[i];
                        &&& e.0 == key@
                        &&& after.running_jobs() == before.running_jobs().insert(
                            key@,
                            is_preload_priority(priority),
                        )
                        &&& after.queue_entries() == qs.remove(i).filter(
                            |g: (K::V, P, u64)| !(!before.startable(g) && pops_before(g, qs[i])),
                        )
                    };
                let e = qs[i];
                assert(kk != key@);
                assert(j != i);
                let jj = if j < i { j } else { j - 1 };
                assert(qs.remove(i)[jj] == f);
                let pred = |g: (K::V, P, u64)| !(!before.startable(g) && pops_before(g, e));
                qs.remove(i).lemma_filter_contains(pred, jj);
                assert(after.queue_entries().contains(f));
            },
            None => {
                if before.running_len() >= before.limit() {
                    assert(after.queue_entries().contains(f));
                } else {
                    assert(qs.contains(f) && before.startable(f));
                    let e = choose|e: (K::V, P, u64)|
                        #![trigger before.is_next(e)]
                        {
                            &&& before.is_next(e)
                            &&& after.queue_entries() == qs.filter(
                                |g: (K::V, P, u64)| !(!before.startable(g) && pops_before(g, e)),
                            )
                        };
                    let pred = |g: (K::V, P, u64)| !(!before.startable(g) && pops_before(g, e));
                    qs.lemma_filter_contains(pred, j);
                    assert(after.queue_entries().contains(f));
                }
            },
        }
    }
}

/// Jobs were started from `before_running` (the running jobs and their
/// count just before scheduling) until nothing more could start: `started`
/// lists each newly running job, once, with whether it runs as a preload.
pub open spec fn started_from<K: JobKey, P: JobPriority>(
    before_running: Map<K::V, bool>,
    before_len: nat,
    after: JobQueue<K, P>,
    started: Seq<(K, bool)>,
) -> bool {
    &&& after.is_settled()
    &&& after.running_len() == before_len + started.len()
    &&& forall|i: int|
        #![trigger started[i]]
        0 <= i < started.len() ==> {
            &&& !before_running.contains_key(started[i].0@)
            &&& after.running_jobs().contains_key(started[i].0@)
            &&& after.running_jobs()[started[i].0@] == started[i].1
            &&& started[i].1 == is_preload_priority(after.job_priorities()[started[i].0@])
        }
    &&& forall|k: K::V|
        #![trigger after.running_jobs().contains_key(k)]
        after.running_jobs().contains_key(k) == (before_running.contains_key(k) || has_key(started, k))
    &&& forall|k: K::V|
        #![trigger after.running_jobs()[k]]
        before_running.contains_key(k) ==> after.running_jobs()[k] == before_running[k]
    &&& forall|a: int, b: int|
        0 <= a < started.len() && 0 <= b < started.len() && a != b ==> #[trigger] started[a].0@
            != #[trigger] started[b].0@
}

/// Priorities of page rasterizing jobs: whole-page preloads, then slice
/// preloads, then pages on screen.
#[derive(Debug, Clone, Copy, PartialEq, Eq, PartialOrd, Ord)]
pub enum PageJobPriority {
    PagePreload,
    SlicePreload,
    Visible,
}

impl JobPriority for PageJobPriority {
    open spec fn rank_spec(self) -> int {
        match self {
            PageJobPriority::PagePreload => 0,
            PageJobPriority::SlicePreload => 1,
            PageJobPriority::Visible => 2,
        }
    }

    open spec fn visible_rank_spec() -> int {
        2
    }

    fn rank(self) -> (r: u32) {
        match self {
            PageJobPriority::PagePreload => 0,
            PageJobPriority::SlicePreload => 1,
            PageJobPriority::Visible => 2,
        }
    }

    fn visible_rank() -> (r: u32) {
        2
    }
}

/// Priorities of terminal rendering jobs: preloads, then pages on screen.
#[derive(Debug, Clone, Copy, PartialEq, Eq, PartialOrd, Ord)]
pub enum RenderJobPriority {
    TerminalPreload,
    Visible,
}

impl JobPriority for RenderJobPriority {
    open spec fn rank_spec(self) -> int {
        match self {
            RenderJobPriority::TerminalPreload => 0,
            RenderJobPriority::Visible => 1,
        }
    }

    open spec fn visible_rank_spec() -> int {
        1
    }

    fn rank(self) -> (r: u32) {
        match self {
            RenderJobPriority::TerminalPreload => 0,
            RenderJobPriority::Visible => 1,
        }
    }

    fn visible_rank() -> (r: u32) {
        1
    }
}

} // verus!
