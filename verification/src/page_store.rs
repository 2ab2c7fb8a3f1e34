//! Scheduling of page rasterization: whole-page images and scroll slices,
//! visible requests first. The store decides which jobs start; the caller
//! runs each started job and reports its outcome back through `finish`.

use vstd::prelude::*;

use crate::job_queue::{is_preload_priority, listed, started_from, JobPriority, JobQueue, PageJobPriority};
use crate::keyed::{has_key, JobKey};
use crate::pdf::{max1_u32, normalized_spec, PageSliceSpec, PdfDocument};
use crate::session::PageOutcome;

verus! {

/// A whole-page image of one page at one pixel size.
#[derive(Debug, Clone, Copy, PartialEq, Eq, Hash, Structural)]
pub struct PageRequestKey {
    pub page_index: usize,
    pub target_width: u32,
    pub target_height: u32,
}

/// One rasterizing job: a whole page or one scroll slice.
#[derive(Debug, Clone, Copy, PartialEq, Eq, Hash, Structural)]
pub enum PageJob {
    Page(PageRequestKey),
    Slice(PageSliceSpec),
}

impl View for PageJob {
    type V = PageJob;

    open spec fn view(&self) -> PageJob {
        *self
    }
}

impl JobKey for PageJob {
    fn same_key(&self, other: &Self) -> (same: bool) {
        *self == *other
    }

    fn duplicate(&self) -> (copy: Self) {
        *self
    }
}

pub open spec fn job_page_index(job: PageJob) -> usize {
    match job {
        PageJob::Page(key) => key.page_index,
        PageJob::Slice(spec) => spec.page_index,
    }
}

impl PageJob {
    pub fn page_index(self) -> (index: usize)
        ensures
            index == job_page_index(self),
    {
        match self {
            PageJob::Page(key) => key.page_index,
            PageJob::Slice(spec) => spec.page_index,
        }
    }
}

/// The key of a whole-page request; sizes are at least one pixel.
pub open spec fn page_key_spec(page_index: usize, target_width: u32, target_height: u32) -> PageRequestKey {
    PageRequestKey {
        page_index,
        target_width: max1_u32(target_width),
        target_height: max1_u32(target_height),
    }
}

pub fn page_key(page_index: usize, target_width: u32, target_height: u32) -> (key: PageRequestKey)
    ensures
        key == page_key_spec(page_index, target_width, target_height),
{
    PageRequestKey {
        page_index,
        target_width: if target_width < 1 {
            1
        } else {
            target_width
        },
        target_height: if target_height < 1 {
            1
        } else {
            target_height
        },
    }
}

/// The job a rasterizing outcome reports on.
pub open spec fn outcome_job(page: PageOutcome) -> PageJob {
    match page.slice {
        Some(spec) => PageJob::Slice(spec),
        None => PageJob::Page(page_key_spec(page.page_index, page.target_width, page.target_height)),
    }
}

/// The last completed request recorded for `page`.
pub open spec fn completed_key(s: Seq<PageRequestKey>, page: usize) -> Option<PageRequestKey>
    decreases s.len(),
{
    if s.len() == 0 {
        None
    } else if s.last().page_index == page {
        Some(s.last())
    } else {
        completed_key(s.drop_last(), page)
    }
}

/// Jobs are started from `before_running` (the running jobs and their
/// count just before scheduling) until nothing more can start; `started`
/// lists each with whether it runs as a preload.
pub open spec fn starts(
    before_running: Map<PageJob, bool>,
    before_len: nat,
    after: JobQueue<PageJob, PageJobPriority>,
    started: Seq<(PageJob, bool)>,
) -> bool {
    started_from(before_running, before_len, after, started)
}

pub struct PageStore {
    document: PdfDocument,
    jobs: JobQueue<PageJob, PageJobPriority>,
    /// Queued or running jobs a visible request is waiting for; finishing
    /// one triggers a redraw even when it started as a preload.
    visible_waits: Vec<PageJob>,
    /// Finished whole-page requests; the last one per page counts.
    completed: Vec<PageRequestKey>,
    completed_slices: Vec<PageSliceSpec>,
}

/// `request_job` from `before` to `after`: a job outside the document, or a
/// preload of a job already known, changes nothing; otherwise the job gets
/// `priority`, a visible request for a known job waits on it, and jobs
/// start until nothing more can.
pub open spec fn requested(
    before: PageStore,
    after: PageStore,
    job: PageJob,
    priority: PageJobPriority,
    started: Seq<(PageJob, bool)>,
) -> bool {
    let known = before.queue().job_priorities().contains_key(job);
    if job_page_index(job) >= before.document().page_count || (known && is_preload_priority(
        priority,
    )) {
        after == before && started.len() == 0
    } else {
        &&& after.document() == before.document()
        &&& after.completed_pages() == before.completed_pages()
        &&& after.completed_slice_set() == before.completed_slice_set()
        &&& after.queue().job_priorities() == before.queue().job_priorities().insert(job, priority)
        &&& after.queue().limit() == before.queue().limit()
        &&& after.waits() == if known {
            before.waits().insert(job)
        } else {
            before.waits()
        }
        &&& starts(before.queue().running_jobs(), before.queue().running_len(), after.queue(), started)
    }
}

/// `request` of a whole page from `before` to `after`.
pub open spec fn requests_page(
    before: PageStore,
    after: PageStore,
    page_index: usize,
    target_width: u32,
    target_height: u32,
    priority: PageJobPriority,
    started: Seq<(PageJob, bool)>,
) -> bool {
    let key = page_key_spec(page_index, target_width, target_height);
    if before.completed_pages().contains_key(page_index) && before.completed_pages()[page_index]
        == key {
        after == before && started.len() == 0
    } else {
        requested(before, after, PageJob::Page(key), priority, started)
    }
}

/// `request_slice` from `before` to `after`.
pub open spec fn requests_slice(
    before: PageStore,
    after: PageStore,
    spec: PageSliceSpec,
    priority: PageJobPriority,
    started: Seq<(PageJob, bool)>,
) -> bool {
    let spec = normalized_spec(spec);
    if before.completed_slice_set().contains(spec) {
        after == before && started.len() == 0
    } else {
        requested(before, after, PageJob::Slice(spec), priority, started)
    }
}

/// `finish` from `before` to `after` on the outcome `page`.
pub open spec fn finishes(
    before: PageStore,
    after: PageStore,
    page: PageOutcome,
    completed: bool,
    visible_wait: bool,
    started: Seq<(PageJob, bool)>,
) -> bool {
    let job = outcome_job(page);
    let q = before.queue();
    &&& visible_wait == before.waits().contains(job)
    &&& after.waits() == before.waits().remove(job)
    &&& after.document() == before.document()
    &&& after.queue().job_priorities() == q.job_priorities().remove(job)
    &&& after.queue().limit() == q.limit()
    &&& after.completed_pages() == match job {
        PageJob::Page(key) => if completed {
            before.completed_pages().insert(key.page_index, key)
        } else {
            before.completed_pages()
        },
        PageJob::Slice(_) => before.completed_pages(),
    }
    &&& after.completed_slice_set() == match job {
        PageJob::Slice(spec) => if completed {
            before.completed_slice_set().insert(spec)
        } else {
            before.completed_slice_set()
        },
        PageJob::Page(_) => before.completed_slice_set(),
    }
    &&& starts(
        q.running_jobs().remove(job),
        (q.running_len() - if q.running_jobs().contains_key(job) {
            1int
        } else {
            0int
        }) as nat,
        after.queue(),
        started,
    )
}

proof fn lemma_push_contains<T>(s: Seq<T>, x: T)
    ensures
        forall|y: T| #[trigger] s.push(x).contains(y) == (s.contains(y) || y == x),
{
    assert forall|y: T| #[trigger] s.push(x).contains(y) == (s.contains(y) || y == x) by {
        if s.push(x).contains(y) {
            let k = choose|k: int| 0 <= k < s.len() + 1 && #[trigger] s.push(x)[k] == y;
            if k < s.len() {
                assert(s[k] == y);
            }
        }
        if s.contains(y) {
            let k = choose|k: int| 0 <= k < s.len() && #[trigger] s[k] == y;
            assert(s.push(x)[k] == y);
        }
        if y == x {
            assert(s.push(x)[s.len() as int] == y);
        }
    }
}

fn contains_job(v: &Vec<PageJob>, job: PageJob) -> (found: bool)
    ensures
        found == v@.contains(job),
{
    let mut i: usize = 0;
    while i < v.len()
        invariant
            i <= v.len(),
            forall|j: int| 0 <= j < i ==> v@[j] != job,
        decreases v.len() - i,
    {
        if v[i] == job {
            return true;
        }
        i += 1;
    }
    false
}

fn without_job(v: &Vec<PageJob>, job: PageJob) -> (kept: Vec<PageJob>)
    ensures
        forall|x: PageJob| #[trigger] kept@.contains(x) == (v@.contains(x) && x != job),
{
    let mut kept: Vec<PageJob> = Vec::new();
    let mut i: usize = 0;
    while i < v.len()
        invariant
            i <= v.len(),
            forall|x: PageJob| #[trigger]
                kept@.contains(x) == (v@.take(i as int).contains(x) && x != job),
        decreases v.len() - i,
    {
        let x = v[i];
        let ghost before = kept@;
        proof {
            assert(v@.take(i + 1) =~= v@.take(i as int).push(x));
            lemma_push_contains(v@.take(i as int), x);
            lemma_push_contains(before, x);
        }
        if x != job {
            kept.push(x);
        }
        i += 1;
    }
    proof {
        assert(v@.take(v.len() as int) =~= v@);
    }
    kept
}

fn contains_slice(v: &Vec<PageSliceSpec>, spec: PageSliceSpec) -> (found: bool)
    ensures
        found == v@.contains(spec),
{
    let mut i: usize = 0;
    while i < v.len()
        invariant
            i <= v.len(),
            forall|j: int| 0 <= j < i ==> v@[j] != spec,
        decreases v.len() - i,
    {
        if v[i] == spec {
            return true;
        }
        i += 1;
    }
    false
}

fn without_page(v: &Vec<PageRequestKey>, page: usize) -> (kept: Vec<PageRequestKey>)
    ensures
        forall|p: usize| #[trigger]
            completed_key(kept@, p) == if p == page {
                None
            } else {
                completed_key(v@, p)
            },
{
    let mut kept: Vec<PageRequestKey> = Vec::new();
    let mut i: usize = 0;
    while i < v.len()
        invariant
            i <= v.len(),
            forall|p: usize| #[trigger]
                completed_key(kept@, p) == if p == page {
                    None
                } else {
                    completed_key(v@.take(i as int), p)
                },
        decreases v.len() - i,
    {
        let x = v[i];
        let ghost before = kept@;
        proof {
            assert(v@.take(i + 1).drop_last() =~= v@.take(i as int));
            assert(v@.take(i + 1).last() == x);
        }
        if x.page_index != page {
            kept.push(x);
            proof {
                assert(kept@.drop_last() =~= before);
                assert(kept@.last() == x);
            }
        }
        proof {
            assert forall|p: usize| #[trigger]
                completed_key(kept@, p) == if p == page {
                    None
                } else {
                    completed_key(v@.take(i + 1), p)
                } by {
                assert(completed_key(before, p) == if p == page {
                    None
                } else {
                    completed_key(v@.take(i as int), p)
                });
            }
        }
        i += 1;
    }
    proof {
        assert(v@.take(v.len() as int) =~= v@);
    }
    kept
}

impl PageStore {
    pub closed spec fn document(&self) -> PdfDocument {
        self.document
    }

    pub closed spec fn queue(&self) -> JobQueue<PageJob, PageJobPriority> {
        self.jobs
    }

    /// Jobs a visible request waits on.
    pub closed spec fn waits(&self) -> Set<PageJob> {
        Set::new(|job: PageJob| self.visible_waits@.contains(job))
    }

    /// The last finished whole-page request of each page.
    pub closed spec fn completed_pages(&self) -> Map<usize, PageRequestKey> {
        Map::new(
            |page: usize| completed_key(self.completed@, page) is Some,
            |page: usize| completed_key(self.completed@, page)->0,
        )
    }

    pub closed spec fn completed_slice_set(&self) -> Set<PageSliceSpec> {
        Set::new(|spec: PageSliceSpec| self.completed_slices@.contains(spec))
    }

    /// The queue is consistent, and every job a visible request waits on
    /// is known at visible priority.
    pub closed spec fn wf(&self) -> bool {
        &&& self.jobs.wf()
        &&& self.jobs.well_queued()
        &&& forall|job: PageJob|
            #![trigger self.visible_waits@.contains(job)]
            self.visible_waits@.contains(job) ==> self.jobs.job_priorities().contains_key(job)
                && self.jobs.job_priorities()[job] == PageJobPriority::Visible
    }

    pub fn new(document: PdfDocument, max_concurrent: usize) -> (store: Self)
        ensures
            store.wf(),
            store.document() == document,
            store.queue().job_priorities() == Map::<PageJob, PageJobPriority>::empty(),
            store.queue().running_jobs() == Map::<PageJob, bool>::empty(),
            store.queue().limit() == if max_concurrent == 0 {
                1
            } else {
                max_concurrent
            },
            store.waits() == Set::<PageJob>::empty(),
            store.completed_pages() == Map::<usize, PageRequestKey>::empty(),
            store.completed_slice_set() == Set::<PageSliceSpec>::empty(),
    {
        let store = PageStore {
            document,
            jobs: JobQueue::new(max_concurrent),
            visible_waits: Vec::new(),
            completed: Vec::new(),
            completed_slices: Vec::new(),
        };
        proof {
            assert(store.waits() =~= Set::<PageJob>::empty());
            assert(store.completed_pages() =~= Map::<usize, PageRequestKey>::empty());
            assert(store.completed_slice_set() =~= Set::<PageSliceSpec>::empty());
        }
        store
    }

    /// Forgets every job and every finished request.
    pub fn clear_state(&mut self)
        requires
            old(self).wf(),
        ensures
            final(self).wf(),
            final(self).document() == old(self).document(),
            final(self).queue().job_priorities() == Map::<PageJob, PageJobPriority>::empty(),
            final(self).queue().running_jobs() == Map::<PageJob, bool>::empty(),
            final(self).queue().limit() == old(self).queue().limit(),
            final(self).waits() == Set::<PageJob>::empty(),
            final(self).completed_pages() == Map::<usize, PageRequestKey>::empty(),
            final(self).completed_slice_set() == Set::<PageSliceSpec>::empty(),
    {
        self.jobs.clear();
        self.visible_waits = Vec::new();
        self.completed = Vec::new();
        self.completed_slices = Vec::new();
        proof {
            assert(self.waits() =~= Set::<PageJob>::empty());
            assert(self.completed_pages() =~= Map::<usize, PageRequestKey>::empty());
            assert(self.completed_slice_set() =~= Set::<PageSliceSpec>::empty());
        }
    }

    /// Drops queued preloads that have not started.
    pub fn cancel_preloads(&mut self)
        requires
            old(self).wf(),
        ensures
            final(self).wf(),
            final(self).document() == old(self).document(),
            forall|k: PageJob|
                #![trigger final(self).queue().job_priorities().contains_key(k)]
                final(self).queue().job_priorities().contains_key(k) == (old(self).queue().job_priorities().contains_key(k) && !old(self).queue().cancels(k)),
            forall|k: PageJob|
                #![trigger final(self).queue().job_priorities()[k]]
                final(self).queue().job_priorities().contains_key(k) ==> final(self).queue().job_priorities()[k] == old(self).queue().job_priorities()[k],
            final(self).queue().running_jobs() == old(self).queue().running_jobs(),
            final(self).queue().limit() == old(self).queue().limit(),
            final(self).waits() == old(self).waits(),
            final(self).completed_pages() == old(self).completed_pages(),
            final(self).completed_slice_set() == old(self).completed_slice_set(),
    {
        let cancelled = self.jobs.cancel_queued_preloads();
        let ghost after_cancel = self.jobs;
        let mut i: usize = 0;
        while i < cancelled.len()
            invariant
                i <= cancelled.len(),
                self.jobs == after_cancel,
                self.jobs.wf(),
                self.document == old(self).document,
                self.completed == old(self).completed,
                self.completed_slices == old(self).completed_slices,
                forall|k: PageJob| #[trigger] listed(cancelled@, k) == old(self).queue().cancels(k),
                forall|job: PageJob| #[trigger]
                    self.visible_waits@.contains(job) == old(self).visible_waits@.contains(job),
                forall|job: PageJob|
                    #![trigger old(self).visible_waits@.contains(job)]
                    old(self).visible_waits@.contains(job) ==> old(self).jobs.job_priorities().contains_key(job)
                        && old(self).jobs.job_priorities()[job] == PageJobPriority::Visible,
            decreases cancelled.len() - i,
        {
            let job = cancelled[i];
            proof {
                assert(cancelled@[i as int]@ == job);
                assert(listed(cancelled@, job));
                assert(!old(self).visible_waits@.contains(job));
            }
            let kept = without_job(&self.visible_waits, job);
            self.visible_waits = kept;
            i += 1;
        }
        proof {
            assert(self.waits() =~= old(self).waits());
            assert forall|job: PageJob| #[trigger] self.visible_waits@.contains(job) implies self.jobs.job_priorities().contains_key(job)
                && self.jobs.job_priorities()[job] == PageJobPriority::Visible by {
                assert(!old(self).queue().cancels(job));
            }
        }
    }

    /// Opens another document and forgets everything about the last one.
    pub fn replace_document(&mut self, document: PdfDocument)
        requires
            old(self).wf(),
        ensures
            final(self).wf(),
            final(self).document() == document,
            final(self).queue().job_priorities() == Map::<PageJob, PageJobPriority>::empty(),
            final(self).queue().running_jobs() == Map::<PageJob, bool>::empty(),
            final(self).queue().limit() == old(self).queue().limit(),
            final(self).waits() == Set::<PageJob>::empty(),
            final(self).completed_pages() == Map::<usize, PageRequestKey>::empty(),
            final(self).completed_slice_set() == Set::<PageSliceSpec>::empty(),
    {
        self.document = document;
        self.clear_state();
    }

    fn schedule(&mut self) -> (started: Vec<(PageJob, bool)>)
        requires
            old(self).wf(),
        ensures
            final(self).wf(),
            final(self).document() == old(self).document(),
            final(self).queue().job_priorities() == old(self).queue().job_priorities(),
            final(self).queue().limit() == old(self).queue().limit(),
            final(self).visible_waits == old(self).visible_waits,
            final(self).completed == old(self).completed,
            final(self).completed_slices == old(self).completed_slices,
            starts(
                old(self).queue().running_jobs(),
                old(self).queue().running_len(),
                final(self).queue(),
                started@,
            ),
    {
        self.jobs.start_all()
    }

    fn request_job(&mut self, job: PageJob, priority: PageJobPriority) -> (started: Vec<(PageJob, bool)>)
        requires
            old(self).wf(),
        ensures
            final(self).wf(),
            requested(*old(self), *final(self), job, priority, started@),
    {
        if job.page_index() >= self.document.page_count {
            return Vec::new();
        }
        let known = self.jobs.contains(&job);
        if known {
            if priority.is_preload() {
                return Vec::new();
            }
            if !contains_job(&self.visible_waits, job) {
                proof {
                    lemma_push_contains(self.visible_waits@, job);
                }
                self.visible_waits.push(job);
            }
            self.jobs.promote(&job, priority);
            proof {
                let p = old(self).jobs.job_priorities()[job];
                assert(priority == PageJobPriority::Visible);
                assert(self.jobs.job_priorities() =~= old(self).jobs.job_priorities().insert(job, priority));
                assert(self.waits() =~= old(self).waits().insert(job));
            }
        } else {
            self.jobs.enqueue(job, priority);
            proof {
                assert(!old(self).visible_waits@.contains(job));
            }
        }
        let ghost mid = *self;
        let started = self.schedule();
        proof {
            assert(self.waits() == mid.waits());
        }
        started
    }

    /// Asks for a page that is on screen.
    pub fn request(&mut self, page_index: usize, target_width: u32, target_height: u32) -> (started: Vec<
        (PageJob, bool),
    >)
        requires
            old(self).wf(),
        ensures
            final(self).wf(),
            requests_page(
                *old(self),
                *final(self),
                page_index,
                target_width,
                target_height,
                PageJobPriority::Visible,
                started@,
            ),
    {
        let key = page_key(page_index, target_width, target_height);
        self.request_page_with_priority(key, PageJobPriority::Visible)
    }

    /// Asks for a page ahead of time; nothing happens when the queue keeps
    /// no slot for preloads.
    pub fn preload(&mut self, page_index: usize, target_width: u32, target_height: u32) -> (started: Vec<
        (PageJob, bool),
    >)
        requires
            old(self).wf(),
        ensures
            final(self).wf(),
            old(self).queue().limit() <= 1 ==> *final(self) == *old(self) && started@.len() == 0,
            old(self).queue().limit() > 1 ==> requests_page(
                *old(self),
                *final(self),
                page_index,
                target_width,
                target_height,
                PageJobPriority::PagePreload,
                started@,
            ),
    {
        if self.jobs.allows_preloads() {
            let key = page_key(page_index, target_width, target_height);
            self.request_page_with_priority(key, PageJobPriority::PagePreload)
        } else {
            Vec::new()
        }
    }

    /// Asks for a scroll slice that is on screen.
    pub fn request_slice(&mut self, spec: PageSliceSpec) -> (started: Vec<(PageJob, bool)>)
        requires
            old(self).wf(),
        ensures
            final(self).wf(),
            requests_slice(*old(self), *final(self), spec, PageJobPriority::Visible, started@),
    {
        self.request_slice_with_priority(spec, PageJobPriority::Visible)
    }

    /// Asks for a scroll slice ahead of time; nothing happens when the
    /// queue keeps no slot for preloads.
    pub fn preload_slice(&mut self, spec: PageSliceSpec) -> (started: Vec<(PageJob, bool)>)
        requires
            old(self).wf(),
        ensures
            final(self).wf(),
            old(self).queue().limit() <= 1 ==> *final(self) == *old(self) && started@.len() == 0,
            old(self).queue().limit() > 1 ==> requests_slice(
                *old(self),
                *final(self),
                spec,
                PageJobPriority::SlicePreload,
                started@,
            ),
    {
        if self.jobs.allows_preloads() {
            self.request_slice_with_priority(spec, PageJobPriority::SlicePreload)
        } else {
            Vec::new()
        }
    }

    fn request_slice_with_priority(&mut self, spec: PageSliceSpec, priority: PageJobPriority) -> (started:
        Vec<(PageJob, bool)>)
        requires
            old(self).wf(),
        ensures
            final(self).wf(),
            requests_slice(*old(self), *final(self), spec, priority, started@),
    {
        let spec = spec.normalized();
        if contains_slice(&self.completed_slices, spec) {
            return Vec::new();
        }
        self.request_job(PageJob::Slice(spec), priority)
    }

    fn request_page_with_priority(&mut self, key: PageRequestKey, priority: PageJobPriority) -> (started:
        Vec<(PageJob, bool)>)
        requires
            old(self).wf(),
            key == page_key_spec(key.page_index, key.target_width, key.target_height),
        ensures
            final(self).wf(),
            requests_page(
                *old(self),
                *final(self),
                key.page_index,
                key.target_width,
                key.target_height,
                priority,
                started@,
            ),
    {
        match last_completed(&self.completed, key.page_index) {
            Some(done) => {
                if done == key {
                    return Vec::new();
                }
            },
            None => {},
        }
        self.request_job(PageJob::Page(key), priority)
    }

    /// Records a finished job and starts what may start next. Returns
    /// whether a visible request was waiting for the job; `completed`
    /// marks it done so it is not requested again.
    pub fn finish(&mut self, page: &PageOutcome, completed: bool) -> (result: (bool, Vec<(PageJob, bool)>))
        requires
            old(self).wf(),
        ensures
            final(self).wf(),
            finishes(*old(self), *final(self), *page, completed, result.0, result.1@),
    {
        let job = match page.slice {
            Some(spec) => PageJob::Slice(spec),
            None => PageJob::Page(page_key(page.page_index, page.target_width, page.target_height)),
        };
        self.jobs.finish(&job);
        let visible_wait = contains_job(&self.visible_waits, job);
        let kept = without_job(&self.visible_waits, job);
        self.visible_waits = kept;
        if completed {
            match job {
                PageJob::Page(key) => {
                    let mut pages = without_page(&self.completed, key.page_index);
                    let ghost base = pages@;
                    pages.push(key);
                    proof {
                        assert(pages@.drop_last() =~= base);
                        assert(pages@.last() == key);
                        assert forall|p: usize| #[trigger]
                            completed_key(pages@, p) == if p == key.page_index {
                                Some(key)
                            } else {
                                completed_key(old(self).completed@, p)
                            } by {
                            assert(completed_key(base, p) == if p == key.page_index {
                                None
                            } else {
                                completed_key(old(self).completed@, p)
                            });
                        }
                    }
                    self.completed = pages;
                },
                PageJob::Slice(spec) => {
                    if !contains_slice(&self.completed_slices, spec) {
                        proof {
                            lemma_push_contains(self.completed_slices@, spec);
                        }
                        self.completed_slices.push(spec);
                    }
                },
            }
        }
        proof {
            assert(self.waits() =~= old(self).waits().remove(job));
            assert(self.completed_pages() =~= match job {
                PageJob::Page(key) => if completed {
                    old(self).completed_pages().insert(key.page_index, key)
                } else {
                    old(self).completed_pages()
                },
                PageJob::Slice(_) => old(self).completed_pages(),
            });
            assert(self.completed_slice_set() =~= match job {
                PageJob::Slice(spec) => if completed {
                    old(self).completed_slice_set().insert(spec)
                } else {
                    old(self).completed_slice_set()
                },
                PageJob::Page(_) => old(self).completed_slice_set(),
            });
        }
        let started = self.schedule();
        (visible_wait, started)
    }
}

fn last_completed(v: &Vec<PageRequestKey>, page: usize) -> (found: Option<PageRequestKey>)
    ensures
        found == completed_key(v@, page),
{
    let mut i: usize = v.len();
    proof {
        assert(v@.take(v.len() as int) =~= v@);
    }
    while i > 0
        invariant
            i <= v.len(),
            completed_key(v@, page) == completed_key(v@.take(i as int), page),
        decreases i,
    {
        proof {
            assert(v@.take(i as int).drop_last() =~= v@.take(i - 1));
            assert(v@.take(i as int).last() == v@[i - 1]);
        }
        if v[i - 1].page_index == page {
            return Some(v[i - 1]);
        }
        i -= 1;
    }
    None
}

/// Every job a visible request waits on is queued or running at visible
/// priority: a wait is never left behind a preload.
pub proof fn lemma_waits_are_visible_jobs(store: &PageStore)
    requires
        store.wf(),
    ensures
        forall|job: PageJob|
            #![trigger store.waits().contains(job)]
            store.waits().contains(job) ==> store.queue().job_priorities().contains_key(job)
                && store.queue().job_priorities()[job] == PageJobPriority::Visible,
{
}

/// A whole page that finished and was marked completed is not rasterized
/// again: asking for the same page at the same size changes nothing.
pub proof fn lemma_completed_page_not_requested_again(
    s0: PageStore,
    s1: PageStore,
    s2: PageStore,
    page: PageOutcome,
    visible_wait: bool,
    finished_started: Seq<(PageJob, bool)>,
    priority: PageJobPriority,
    started: Seq<(PageJob, bool)>,
)
    requires
        page.slice is None,
        finishes(s0, s1, page, true, visible_wait, finished_started),
        requests_page(s1, s2, page.page_index, page.target_width, page.target_height, priority, started),
    ensures
        s2 == s1,
        started.len() == 0,
{
}

/// A scroll slice that finished and was marked completed is not rasterized
/// again: asking for the same slice changes nothing.
pub proof fn lemma_completed_slice_not_requested_again(
    s0: PageStore,
    s1: PageStore,
    s2: PageStore,
    page: PageOutcome,
    spec: PageSliceSpec,
    visible_wait: bool,
    finished_started: Seq<(PageJob, bool)>,
    priority: PageJobPriority,
    started: Seq<(PageJob, bool)>,
)
    requires
        page.slice == Some(spec),
        normalized_spec(spec) == spec,
        finishes(s0, s1, page, true, visible_wait, finished_started),
        requests_slice(s1, s2, spec, priority, started),
    ensures
        s2 == s1,
        started.len() == 0,
{
}

} // verus!
