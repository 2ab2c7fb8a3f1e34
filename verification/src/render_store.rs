//! Scheduling of terminal rendering: turning page images into output for a
//! cell area, visible requests first. The store decides which renders
//! start and what a finished render means for the screen; the caller keeps
//! the rendered images, runs each started render and reports its outcome
//! back through `finish`.

use vstd::prelude::*;

use crate::job_queue::{started_from, JobPriority, JobQueue, RenderJobPriority};
use crate::keyed::{get_keyed, insert_keyed, keys_distinct, map_of, remove_keyed};
use crate::pdf::PageImage;
use crate::text::{extend_str, string_of};

verus! {

/// How a page is fitted into its cells.
#[derive(Debug, Clone, Copy, PartialEq, Eq, Hash, Structural)]
pub enum RenderKind {
    Fit,
}

/// What a finished render means for the screen: a status message, and
/// whether the screen must be drawn again.
#[derive(Debug, Clone, PartialEq, Eq)]
pub struct RenderFinish {
    pub message: Option<String>,
    pub needs_draw: bool,
}

/// What one render job turns into terminal output.
#[derive(Debug, Clone)]
pub struct RenderJobInput {
    pub page: PageImage,
    pub width: u16,
    pub height: u16,
    pub kind: RenderKind,
}

pub struct RenderStore {
    /// Failed visible renders and their errors; they are not retried
    /// until the state is cleared.
    failures: Vec<(String, String)>,
    jobs: JobQueue<String, RenderJobPriority>,
    /// Inputs of queued or running jobs.
    job_inputs: Vec<(String, RenderJobInput)>,
    /// Queued or running jobs a visible request is waiting for.
    visible_waits: Vec<(String, ())>,
}

/// `request` (or `preload`, with a preload priority) from `before` to
/// `after`: nothing happens for an empty cell area, an image already in
/// memory, a preload of a known job, or a visible request for a key whose
/// visible render failed; otherwise the job gets `priority` (a visible
/// request for a known job waits on it; a new job keeps its input) and
/// renders start until nothing more can.
pub open spec fn render_requested(
    before: RenderStore,
    after: RenderStore,
    cache_key: Seq<char>,
    input: RenderJobInput,
    cached: bool,
    priority: RenderJobPriority,
    started: Seq<(String, bool)>,
) -> bool {
    let known = before.queue().job_priorities().contains_key(cache_key);
    let preload = priority.rank_spec() < RenderJobPriority::visible_rank_spec();
    if input.width == 0 || input.height == 0 || cached || (known && preload) || (!known && !preload
        && before.failures().contains_key(cache_key)) {
        after == before && started.len() == 0
    } else {
        &&& after.failures() == before.failures()
        &&& after.queue().job_priorities() == before.queue().job_priorities().insert(cache_key, priority)
        &&& after.queue().limit() == before.queue().limit()
        &&& after.waits() == if known {
            before.waits().insert(cache_key)
        } else {
            before.waits()
        }
        &&& after.inputs() == if known {
            before.inputs()
        } else {
            before.inputs().insert(cache_key, input)
        }
        &&& started_from(before.queue().running_jobs(), before.queue().running_len(), after.queue(), started)
    }
}

/// The message shown when a visible render fails.
pub open spec fn render_failed_message(error: Seq<char>) -> Seq<char> {
    "render failed: "@ + error
}

/// `finish` from `before` to `after` on the outcome of the render of
/// `cache_key`: the job and its input are forgotten; a success clears an
/// earlier failure and is drawn when it was visible or waited on; a failed
/// preload is dropped quietly (it is retried when the page becomes
/// visible); a failed visible render is recorded and reported.
pub open spec fn render_finished(
    before: RenderStore,
    after: RenderStore,
    cache_key: Seq<char>,
    preload: bool,
    result: Result<(), Seq<char>>,
    finish: RenderFinish,
    started: Seq<(String, bool)>,
) -> bool {
    let q = before.queue();
    let visible_wait = before.waits().contains(cache_key);
    &&& after.waits() == before.waits().remove(cache_key)
    &&& after.inputs() == before.inputs().remove(cache_key)
    &&& after.queue().job_priorities() == q.job_priorities().remove(cache_key)
    &&& after.queue().limit() == q.limit()
    &&& match result {
        Ok(()) => {
            &&& after.failures() == before.failures().remove(cache_key)
            &&& finish.message is None
            &&& finish.needs_draw == (!preload || visible_wait)
        },
        Err(error) => if preload {
            &&& after.failures() == before.failures()
            &&& finish.message is None
            &&& finish.needs_draw == visible_wait
        } else {
            &&& after.failures().contains_key(cache_key)
            &&& after.failures()[cache_key]@ == error
            &&& after.failures().remove(cache_key) == before.failures().remove(cache_key)
            &&& finish.message matches Some(m) && m@ == render_failed_message(error)
            &&& finish.needs_draw
        },
    }
    &&& started_from(
        q.running_jobs().remove(cache_key),
        (q.running_len() - if q.running_jobs().contains_key(cache_key) {
            1int
        } else {
            0int
        }) as nat,
        after.queue(),
        started,
    )
}

impl RenderStore {
    pub closed spec fn queue(&self) -> JobQueue<String, RenderJobPriority> {
        self.jobs
    }

    /// Failed visible renders and their errors, by cache key.
    pub closed spec fn failures(&self) -> Map<Seq<char>, String> {
        map_of(self.failures@)
    }

    /// Inputs of queued or running renders, by cache key.
    pub closed spec fn inputs(&self) -> Map<Seq<char>, RenderJobInput> {
        map_of(self.job_inputs@)
    }

    /// Renders a visible request waits on.
    pub closed spec fn waits(&self) -> Set<Seq<char>> {
        map_of(self.visible_waits@).dom()
    }

    /// Every queued or running render has its input, and every render a
    /// visible request waits on is known at visible priority.
    pub closed spec fn wf(&self) -> bool {
        &&& self.jobs.wf()
        &&& self.jobs.well_queued()
        &&& keys_distinct(self.failures@)
        &&& keys_distinct(self.job_inputs@)
        &&& keys_distinct(self.visible_waits@)
        &&& forall|k: Seq<char>|
            #![trigger self.jobs.job_priorities().contains_key(k)]
            #![trigger map_of(self.job_inputs@).contains_key(k)]
            self.jobs.job_priorities().contains_key(k) == map_of(self.job_inputs@).contains_key(k)
        &&& forall|k: Seq<char>|
            #![trigger map_of(self.visible_waits@).contains_key(k)]
            map_of(self.visible_waits@).contains_key(k) ==> self.jobs.job_priorities().contains_key(k)
                && self.jobs.job_priorities()[k] == RenderJobPriority::Visible
    }

    pub fn new(max_concurrent: usize) -> (store: Self)
        ensures
            store.wf(),
            store.queue().job_priorities() == Map::<Seq<char>, RenderJobPriority>::empty(),
            store.queue().running_jobs() == Map::<Seq<char>, bool>::empty(),
            store.queue().limit() == if max_concurrent == 0 {
                1
            } else {
                max_concurrent
            },
            store.failures() == Map::<Seq<char>, String>::empty(),
            store.inputs() == Map::<Seq<char>, RenderJobInput>::empty(),
            store.waits() == Set::<Seq<char>>::empty(),
    {
        let store = RenderStore {
            failures: Vec::new(),
            jobs: JobQueue::new(max_concurrent),
            job_inputs: Vec::new(),
            visible_waits: Vec::new(),
        };
        proof {
            assert(store.failures() =~= Map::<Seq<char>, String>::empty());
            assert(store.inputs() =~= Map::<Seq<char>, RenderJobInput>::empty());
            assert(store.waits() =~= Set::<Seq<char>>::empty());
        }
        store
    }

    /// Asks for `input` rendered under `cache_key`, on screen now; `cached`
    /// tells whether the rendered image is already in memory.
    pub fn request(&mut self, cache_key: String, input: RenderJobInput, cached: bool) -> (started: Vec<
        (String, bool),
    >)
        requires
            old(self).wf(),
        ensures
            final(self).wf(),
            render_requested(
                *old(self),
                *final(self),
                cache_key@,
                input,
                cached,
                RenderJobPriority::Visible,
                started@,
            ),
    {
        self.request_with_priority(cache_key, input, cached, RenderJobPriority::Visible)
    }

    /// Asks for a render ahead of time; nothing happens when the queue
    /// keeps no slot for preloads.
    pub fn preload(&mut self, cache_key: String, input: RenderJobInput, cached: bool) -> (started: Vec<
        (String, bool),
    >)
        requires
            old(self).wf(),
        ensures
            final(self).wf(),
            old(self).queue().limit() <= 1 ==> *final(self) == *old(self) && started@.len() == 0,
            old(self).queue().limit() > 1 ==> render_requested(
                *old(self),
                *final(self),
                cache_key@,
                input,
                cached,
                RenderJobPriority::TerminalPreload,
                started@,
            ),
    {
        if self.jobs.allows_preloads() {
            self.request_with_priority(cache_key, input, cached, RenderJobPriority::TerminalPreload)
        } else {
            Vec::new()
        }
    }

    fn request_with_priority(
        &mut self,
        cache_key: String,
        input: RenderJobInput,
        cached: bool,
        priority: RenderJobPriority,
    ) -> (started: Vec<(String, bool)>)
        requires
            old(self).wf(),
        ensures
            final(self).wf(),
            render_requested(*old(self), *final(self), cache_key@, input, cached, priority, started@),
    {
        if input.width == 0 || input.height == 0 || cached {
            return Vec::new();
        }
        let preload = priority.is_preload();
        if self.jobs.contains(&cache_key) {
            if preload {
                return Vec::new();
            }
            let key = cache_key.clone();
            insert_keyed(&mut self.visible_waits, key, ());
            self.jobs.promote(&cache_key, priority);
            proof {
                assert(priority == RenderJobPriority::Visible);
                assert(self.jobs.job_priorities() =~= old(self).jobs.job_priorities().insert(
                    cache_key@,
                    priority,
                ));
                assert(self.waits() =~= old(self).waits().insert(cache_key@));
            }
            return self.schedule();
        }
        if !preload && get_keyed(&self.failures, &cache_key).is_some() {
            return Vec::new();
        }
        let key = cache_key.clone();
        insert_keyed(&mut self.job_inputs, key, input);
        self.jobs.enqueue(cache_key, priority);
        proof {
            assert(!map_of(old(self).visible_waits@).contains_key(cache_key@));
        }
        self.schedule()
    }

    fn schedule(&mut self) -> (started: Vec<(String, bool)>)
        requires
            old(self).wf(),
        ensures
            final(self).wf(),
            final(self).queue().job_priorities() == old(self).queue().job_priorities(),
            final(self).queue().limit() == old(self).queue().limit(),
            final(self).failures == old(self).failures,
            final(self).job_inputs == old(self).job_inputs,
            final(self).visible_waits == old(self).visible_waits,
            started_from(
                old(self).queue().running_jobs(),
                old(self).queue().running_len(),
                final(self).queue(),
                started@,
            ),
    {
        self.jobs.start_all()
    }

    /// The input of a queued or running render.
    pub fn input(&self, cache_key: &String) -> (input: Option<&RenderJobInput>)
        requires
            self.wf(),
        ensures
            match input {
                Some(i) => self.inputs().contains_key(cache_key@) && self.inputs()[cache_key@] == *i,
                None => !self.inputs().contains_key(cache_key@),
            },
    {
        get_keyed(&self.job_inputs, cache_key)
    }

    /// The error of the failed visible render under `cache_key`, if any.
    pub fn failure(&self, cache_key: &String) -> (error: Option<&String>)
        requires
            self.wf(),
        ensures
            match error {
                Some(e) => self.failures().contains_key(cache_key@) && self.failures()[cache_key@] == *e,
                None => !self.failures().contains_key(cache_key@),
            },
    {
        get_keyed(&self.failures, cache_key)
    }

    /// Forgets every render and every failure.
    pub fn clear_state(&mut self)
        requires
            old(self).wf(),
        ensures
            final(self).wf(),
            final(self).queue().job_priorities() == Map::<Seq<char>, RenderJobPriority>::empty(),
            final(self).queue().running_jobs() == Map::<Seq<char>, bool>::empty(),
            final(self).queue().limit() == old(self).queue().limit(),
            final(self).failures() == Map::<Seq<char>, String>::empty(),
            final(self).inputs() == Map::<Seq<char>, RenderJobInput>::empty(),
            final(self).waits() == Set::<Seq<char>>::empty(),
    {
        self.failures = Vec::new();
        self.jobs.clear();
        self.job_inputs = Vec::new();
        self.visible_waits = Vec::new();
        proof {
            assert(self.failures() =~= Map::<Seq<char>, String>::empty());
            assert(self.inputs() =~= Map::<Seq<char>, RenderJobInput>::empty());
            assert(self.waits() =~= Set::<Seq<char>>::empty());
        }
    }

    /// Drops queued preloads that have not started, with their inputs.
    pub fn cancel_preloads(&mut self)
        requires
            old(self).wf(),
        ensures
            final(self).wf(),
            forall|k: Seq<char>|
                #![trigger final(self).queue().job_priorities().contains_key(k)]
                final(self).queue().job_priorities().contains_key(k) == (old(self).queue().job_priorities().contains_key(k)
                    && !old(self).queue().cancels(k)),
            forall|k: Seq<char>|
                #![trigger final(self).inputs().contains_key(k)]
                final(self).inputs().contains_key(k) == (old(self).inputs().contains_key(k)
                    && !old(self).queue().cancels(k)),
            forall|k: Seq<char>|
                #![trigger final(self).inputs()[k]]
                final(self).inputs().contains_key(k) ==> final(self).inputs()[k] == old(self).inputs()[k],
            final(self).queue().running_jobs() == old(self).queue().running_jobs(),
            final(self).queue().limit() == old(self).queue().limit(),
            final(self).failures() == old(self).failures(),
            final(self).waits() == old(self).waits(),
    {
        let cancelled = self.jobs.cancel_queued_preloads();
        let ghost after_cancel = self.jobs;
        let mut i: usize = 0;
        while i < cancelled.len()
            invariant
                i <= cancelled.len(),
                self.jobs == after_cancel,
                self.jobs.wf(),
                self.failures == old(self).failures,
                keys_distinct(self.job_inputs@),
                keys_distinct(self.visible_waits@),
                forall|k: Seq<char>| #[trigger]
                    crate::job_queue::listed(cancelled@, k) == old(self).queue().cancels(k),
                forall|a: int, b: int|
                    0 <= a < cancelled@.len() && 0 <= b < cancelled@.len() && a != b
                        ==> #[trigger] cancelled@[a]@ != #[trigger] cancelled@[b]@,
                forall|k: Seq<char>|
                    #![trigger map_of(self.job_inputs@).contains_key(k)]
                    map_of(self.job_inputs@).contains_key(k) == (map_of(old(self).job_inputs@).contains_key(k)
                        && !crate::job_queue::listed(cancelled@.take(i as int), k)),
                forall|k: Seq<char>|
                    #![trigger map_of(self.job_inputs@)[k]]
                    map_of(self.job_inputs@).contains_key(k) ==> map_of(self.job_inputs@)[k] == map_of(
                        old(self).job_inputs@,
                    )[k],
                map_of(self.visible_waits@) == map_of(old(self).visible_waits@),
                forall|k: Seq<char>|
                    #![trigger map_of(old(self).visible_waits@).contains_key(k)]
                    map_of(old(self).visible_waits@).contains_key(k) ==> old(self).jobs.job_priorities().contains_key(k)
                        && old(self).jobs.job_priorities()[k] == RenderJobPriority::Visible,
            decreases cancelled.len() - i,
        {
            let key = &cancelled[i];
            proof {
                assert(crate::job_queue::listed(cancelled@, key@)) by {
                    assert(cancelled@[i as int]@ == key@);
                }
                assert(!map_of(old(self).visible_waits@).contains_key(key@));
            }
            remove_keyed(&mut self.job_inputs, key);
            let ghost waits_before = self.visible_waits@;
            remove_keyed(&mut self.visible_waits, key);
            proof {
                assert(map_of(self.visible_waits@) =~= map_of(waits_before));
                assert forall|k: Seq<char>| #[trigger]
                    crate::job_queue::listed(cancelled@.take(i + 1), k) == (crate::job_queue::listed(
                        cancelled@.take(i as int),
                        k,
                    ) || k == key@) by {
                    if crate::job_queue::listed(cancelled@.take(i + 1), k) && k != key@ {
                        let j = choose|j: int| 0 <= j < i + 1 && #[trigger] cancelled@.take(i + 1)[j]@ == k;
                        assert(cancelled@.take(i as int)[j]@ == k);
                    }
                    if crate::job_queue::listed(cancelled@.take(i as int), k) {
                        let j = choose|j: int| 0 <= j < i && #[trigger] cancelled@.take(i as int)[j]@ == k;
                        assert(cancelled@.take(i + 1)[j]@ == k);
                    }
                    if k == key@ {
                        assert(cancelled@.take(i + 1)[i as int]@ == k);
                    }
                }
            }
            i += 1;
        }
        proof {
            assert(cancelled@.take(i as int) =~= cancelled@);
            assert forall|k: Seq<char>| #[trigger] self.jobs.job_priorities().contains_key(k)
                == map_of(self.job_inputs@).contains_key(k) by {
                assert(old(self).jobs.job_priorities().contains_key(k) == map_of(old(self).job_inputs@).contains_key(k));
            }
            assert forall|k: Seq<char>| #[trigger] map_of(self.visible_waits@).contains_key(k) implies self.jobs.job_priorities().contains_key(k)
                && self.jobs.job_priorities()[k] == RenderJobPriority::Visible by {
                assert(!old(self).queue().cancels(k));
            }
        }
    }

    /// Records a finished render of `cache_key` and starts what may start
    /// next. `preload` tells whether the render started as a preload; the
    /// caller keeps a successfully rendered image.
    pub fn finish(&mut self, cache_key: &String, preload: bool, result: Result<(), String>) -> (outcome: (
        RenderFinish,
        Vec<(String, bool)>,
    ))
        requires
            old(self).wf(),
        ensures
            final(self).wf(),
            render_finished(
                *old(self),
                *final(self),
                cache_key@,
                preload,
                match result {
                    Ok(()) => Ok(()),
                    Err(e) => Err(e@),
                },
                outcome.0,
                outcome.1@,
            ),
    {
        self.jobs.finish(cache_key);
        remove_keyed(&mut self.job_inputs, cache_key);
        let visible_wait = remove_keyed(&mut self.visible_waits, cache_key);
        proof {
            assert(self.waits() =~= old(self).waits().remove(cache_key@));
        }
        let finish = match result {
            Ok(()) => {
                remove_keyed(&mut self.failures, cache_key);
                RenderFinish { message: None, needs_draw: !preload || visible_wait }
            },
            Err(error) => {
                if preload {
                    RenderFinish { message: None, needs_draw: visible_wait }
                } else {
                    let mut text: Vec<char> = Vec::new();
                    extend_str(&mut text, "render failed: ");
                    extend_str(&mut text, error.as_str());
                    let message = string_of(&text);
                    let ghost before_failures = map_of(self.failures@);
                    insert_keyed(&mut self.failures, cache_key.clone(), error);
                    proof {
                        assert(map_of(self.failures@).remove(cache_key@) =~= before_failures.remove(cache_key@));
                    }
                    RenderFinish { message: Some(message), needs_draw: true }
                }
            },
        };
        let started = self.schedule();
        (finish, started)
    }
}

/// Every render a visible request waits on is queued or running at
/// visible priority, and every queued or running render has its input.
pub proof fn lemma_render_waits_are_visible_jobs(store: &RenderStore)
    requires
        store.wf(),
    ensures
        forall|k: Seq<char>|
            #![trigger store.waits().contains(k)]
            store.waits().contains(k) ==> store.queue().job_priorities().contains_key(k)
                && store.queue().job_priorities()[k] == RenderJobPriority::Visible,
        forall|k: Seq<char>|
            #![trigger store.inputs().contains_key(k)]
            store.queue().job_priorities().contains_key(k) == store.inputs().contains_key(k),
{
    assert forall|k: Seq<char>| #[trigger] store.inputs().contains_key(k) implies store.queue().job_priorities().contains_key(k) by {}
}

/// A visible render that failed is not retried: asking for it again on
/// screen changes nothing until the state is cleared.
pub proof fn lemma_failed_render_not_retried(
    s0: RenderStore,
    s1: RenderStore,
    s2: RenderStore,
    cache_key: Seq<char>,
    error: Seq<char>,
    finish: RenderFinish,
    finished_started: Seq<(String, bool)>,
    input: RenderJobInput,
    started: Seq<(String, bool)>,
)
    requires
        render_finished(s0, s1, cache_key, false, Err(error), finish, finished_started),
        render_requested(s1, s2, cache_key, input, false, RenderJobPriority::Visible, started),
    ensures
        s2 == s1,
        started.len() == 0,
{
}

/// A failed preload does not block the page: asking for the same render on
/// screen queues it again.
pub proof fn lemma_failed_preload_is_retried_when_visible(
    s0: RenderStore,
    s1: RenderStore,
    s2: RenderStore,
    cache_key: Seq<char>,
    error: Seq<char>,
    finish: RenderFinish,
    finished_started: Seq<(String, bool)>,
    input: RenderJobInput,
    started: Seq<(String, bool)>,
)
    requires
        !s0.failures().contains_key(cache_key),
        render_finished(s0, s1, cache_key, true, Err(error), finish, finished_started),
        render_requested(s1, s2, cache_key, input, false, RenderJobPriority::Visible, started),
        input.width > 0,
        input.height > 0,
    ensures
        s2.queue().job_priorities().contains_key(cache_key),
        s2.inputs().contains_key(cache_key),
{
}

} // verus!
