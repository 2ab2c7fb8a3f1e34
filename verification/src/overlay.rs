//! Page images with search highlights and selection marks drawn in: which
//! requests are finished, failed or running. Producing one decodes and
//! re-encodes a PNG on the blocking pool; the draw path only looks results
//! up and shows the plain image until the marked one is ready.

use std::collections::{HashMap, HashSet};

use vstd::prelude::*;

use crate::config::render::RenderConfig;
use crate::pdf::PageImage;

verus! {

broadcast use vstd::std_specs::hash::group_hash_axioms;

/// Remembered results beyond this are dropped wholesale; they are cached
/// on disk, so a later request is cheap.
pub const MAX_READY: usize = 256;

/// A request: the base image and the marks to draw, hashed.
#[derive(Debug, Clone, Copy, PartialEq, Eq, Hash)]
pub struct OverlayKey(pub u64);

/// The state of a request: its stored image or error, or still pending.
pub enum OverlayState<'a> {
    Ready(&'a PageImage),
    Failed(&'a String),
    Pending,
}

/// A finished overlay job.
pub struct OverlayOutcome {
    pub key: OverlayKey,
    pub preload: bool,
    pub result: Result<PageImage, String>,
}

pub struct OverlayStore {
    cache_dir: std::path::PathBuf,
    search_highlight_max_bytes: u64,
    selection_max_bytes: u64,
    ready: HashMap<u64, Result<PageImage, String>>,
    in_flight: HashSet<u64>,
}

/// `finish` from `before` to `after` on the result of request `key`: the
/// result is wanted when the request's job was running; the job is no
/// longer running; a wanted result is stored (all stored results dropped
/// first when `MAX_READY` are kept), an unwanted one is ignored.
pub open spec fn overlay_finished(
    before: OverlayStore,
    after: OverlayStore,
    key: u64,
    result: Result<PageImage, String>,
    wanted: bool,
) -> bool {
    &&& wanted == before.running().contains(key)
    &&& after.running() == before.running().remove(key)
    &&& wanted ==> after.ready_results() == if before.ready_results().len() >= MAX_READY {
        Map::<u64, Result<PageImage, String>>::empty().insert(key, result)
    } else {
        before.ready_results().insert(key, result)
    }
    &&& !wanted ==> after.ready_results() == before.ready_results()
}

impl OverlayStore {
    /// Finished results by request.
    pub closed spec fn ready_results(&self) -> Map<u64, Result<PageImage, String>> {
        self.ready@
    }

    /// Requests whose job is running.
    pub closed spec fn running(&self) -> Set<u64> {
        self.in_flight@
    }

    pub closed spec fn budgets(&self) -> (u64, u64) {
        (self.search_highlight_max_bytes, self.selection_max_bytes)
    }

    pub fn new(cache_dir: std::path::PathBuf, render: &RenderConfig) -> (store: Self)
        ensures
            store.ready_results() == Map::<u64, Result<PageImage, String>>::empty(),
            store.running() == Set::<u64>::empty(),
            store.budgets() == (
                render.search_highlight_cache_max_bytes,
                render.selection_cache_max_bytes,
            ),
    {
        OverlayStore {
            cache_dir,
            search_highlight_max_bytes: render.search_highlight_cache_max_bytes,
            selection_max_bytes: render.selection_cache_max_bytes,
            ready: HashMap::new(),
            in_flight: HashSet::new(),
        }
    }

    /// The state of request `key`, and whether its job must be started
    /// now: a known result is returned as stored; an unknown request is
    /// pending, and is started unless it already runs.
    pub fn request(&mut self, key: OverlayKey) -> (answer: (OverlayState<'_>, bool))
        ensures
            match old(self).ready_results().get(key.0) {
                Some(Ok(stored)) => answer.0 matches OverlayState::Ready(img) && *img == stored
                    && !answer.1 && final(self).running() == old(self).running(),
                Some(Err(e)) => answer.0 matches OverlayState::Failed(f) && *f == e && !answer.1
                    && final(self).running() == old(self).running(),
                None => answer.0 is Pending && answer.1 == !old(self).running().contains(key.0)
                    && final(self).running() == old(self).running().insert(key.0),
            },
            final(self).ready_results() == old(self).ready_results(),
            final(self).budgets() == old(self).budgets(),
    {
        if self.ready.contains_key(&key.0) {
            match self.ready.get(&key.0) {
                Some(Ok(image)) => (OverlayState::Ready(image), false),
                Some(Err(error)) => (OverlayState::Failed(error), false),
                None => (OverlayState::Pending, false),
            }
        } else {
            let start = self.in_flight.insert(key.0);
            (OverlayState::Pending, start)
        }
    }

    /// Stores a finished job; returns whether it was still wanted. When
    /// `MAX_READY` results are remembered they are all dropped first.
    pub fn finish(&mut self, outcome: OverlayOutcome) -> (wanted: bool)
        ensures
            overlay_finished(*old(self), *final(self), outcome.key.0, outcome.result, wanted),
            final(self).budgets() == old(self).budgets(),
    {
        if !self.in_flight.remove(&outcome.key.0) {
            return false;
        }
        if self.ready.len() >= MAX_READY {
            self.ready.clear();
        }
        self.ready.insert(outcome.key.0, outcome.result);
        true
    }

    /// Forgets everything, e.g. after a reload or a cache clear; jobs still
    /// running are ignored when they finish.
    pub fn clear(&mut self)
        ensures
            final(self).ready_results() == Map::<u64, Result<PageImage, String>>::empty(),
            final(self).running() == Set::<u64>::empty(),
            final(self).budgets() == old(self).budgets(),
    {
        self.ready.clear();
        self.in_flight.clear();
    }

    /// What a job needs: the cache directory and the search-highlight and
    /// selection cache budgets.
    pub fn job_settings(&self) -> (settings: (std::path::PathBuf, u64, u64))
        ensures
            (settings.1, settings.2) == self.budgets(),
    {
        (self.cache_dir.clone(), self.search_highlight_max_bytes, self.selection_max_bytes)
    }
}

/// A job that is not running stays so until it is requested again: a
/// finish of any job leaves it out of the running set, and its own finish
/// is not wanted and stores nothing. With `clear` (which empties the
/// running set) and `request` (which adds only the key it is asked for),
/// the result of a job requested before a `clear` is ignored until its key
/// is requested again.
pub proof fn lemma_unrequested_results_are_ignored(
    before: OverlayStore,
    after: OverlayStore,
    key: u64,
    result: Result<PageImage, String>,
    wanted: bool,
    k: u64,
)
    requires
        !before.running().contains(k),
        overlay_finished(before, after, key, result, wanted),
    ensures
        !after.running().contains(k),
        key == k ==> !wanted && after.ready_results() == before.ready_results(),
{
}

/// After `clear`, the results of jobs requested before it are ignored:
/// finishing such a job stores nothing and the store stays empty, so every
/// request is pending until a new result is stored.
pub proof fn lemma_cleared_store_ignores_earlier_jobs(
    cleared: OverlayStore,
    after: OverlayStore,
    key: u64,
    result: Result<PageImage, String>,
    wanted: bool,
)
    requires
        cleared.ready_results() == Map::<u64, Result<PageImage, String>>::empty(),
        cleared.running() == Set::<u64>::empty(),
        overlay_finished(cleared, after, key, result, wanted),
    ensures
        !wanted,
        after.ready_results() == Map::<u64, Result<PageImage, String>>::empty(),
        forall|k: u64| #[trigger] after.ready_results().get(k) is None,
{
}

} // verus!
