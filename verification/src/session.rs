//! Decisions of the main loop that do not depend on how events arrive: the
//! switch in front of terminal input, the refresh queue, which finished
//! background work still applies to the open document, and the outcomes
//! that background work reports.

use vstd::prelude::*;

use crate::cache::CacheCleanupReport;
use crate::metadata::PdfMetadataEntry;
use crate::pdf::{PageImage, PageSliceSpec, PdfDocument};
use crate::text::{decimal_spec, extend_str, push_decimal, string_of};

verus! {

/// The generation after `generation`: one more, wrapping at `u64::MAX`.
pub open spec fn next_generation(generation: u64) -> u64 {
    if generation == u64::MAX {
        0
    } else {
        (generation + 1) as u64
    }
}

fn bump(generation: u64) -> (next: u64)
    ensures
        next == next_generation(generation),
{
    if generation == u64::MAX {
        0
    } else {
        generation + 1
    }
}

/// The input switch after a pause: input is not read, and the generation
/// moves on.
pub open spec fn paused_gate(gate: InputGate) -> InputGate {
    InputGate { enabled: false, generation: next_generation(gate.generation) }
}

/// The input switch after a resume: the generation moves on, and input is
/// read.
pub open spec fn resumed_gate(gate: InputGate) -> InputGate {
    InputGate { enabled: true, generation: next_generation(gate.generation) }
}

/// Controls the reading of terminal input. While paused (an external
/// editor owns the terminal) input is not read; every pause and resume
/// starts a new generation, and events tagged with an older generation are
/// dropped.
#[derive(Debug, Clone, Copy, PartialEq, Eq)]
pub struct InputGate {
    pub enabled: bool,
    pub generation: u64,
}

impl InputGate {
    /// A gate that reads input, at generation 0.
    pub fn new() -> (gate: Self)
        ensures
            gate == (InputGate { enabled: true, generation: 0 }),
    {
        InputGate { enabled: true, generation: 0 }
    }

    /// The current generation; input read now is tagged with it.
    pub fn generation(&self) -> (generation: u64)
        ensures
            generation == self.generation,
    {
        self.generation
    }

    /// Whether input is being read.
    pub fn is_reading(&self) -> (reading: bool)
        ensures
            reading == self.enabled,
    {
        self.enabled
    }

    /// Stops reading input and starts a new generation.
    pub fn pause(&mut self)
        ensures
            *final(self) == paused_gate(*old(self)),
    {
        self.enabled = false;
        self.generation = bump(self.generation);
    }

    /// Starts a new generation and reads input again.
    pub fn resume(&mut self)
        ensures
            *final(self) == resumed_gate(*old(self)),
    {
        self.generation = bump(self.generation);
        self.enabled = true;
    }

    /// Whether an event tagged with `generation` is still current.
    pub fn accepts(&self, generation: u64) -> (current: bool)
        ensures
            current == (generation == self.generation),
    {
        generation == self.generation
    }
}

/// Input read before an editor took the terminal is never applied after
/// it: once input was paused and resumed, no event marked with the
/// generation of the time before the pause, or of the paused time, is
/// current.
pub proof fn lemma_editor_round_trip_drops_old_input(gate: InputGate)
    ensures
        paused_gate(gate).generation != gate.generation,
        !paused_gate(gate).enabled,
        resumed_gate(paused_gate(gate)).generation != gate.generation,
        resumed_gate(paused_gate(gate)).generation != paused_gate(gate).generation,
        resumed_gate(paused_gate(gate)).enabled,
{
}

/// A reload is asked for in `state`: the new state, and whether the reload
/// starts now (it does unless one is running; then it is queued).
pub open spec fn refresh_requested(state: RefreshState) -> (RefreshState, bool) {
    if state.in_flight {
        (RefreshState { in_flight: true, queued: true }, false)
    } else {
        (RefreshState { in_flight: true, queued: state.queued }, true)
    }
}

/// The running reload finished in `state`: nothing runs or waits, and
/// whether a queued reload is to be asked for now.
pub open spec fn refresh_finished(state: RefreshState) -> (RefreshState, bool) {
    (RefreshState { in_flight: false, queued: false }, state.queued)
}

/// Document reloads: at most one runs at a time, and a reload asked for
/// while one runs is queued (several such requests make one).
#[derive(Debug, Clone, Copy, PartialEq, Eq)]
pub struct RefreshState {
    pub in_flight: bool,
    pub queued: bool,
}

impl RefreshState {
    /// No reload running or queued.
    pub fn new() -> (state: Self)
        ensures
            state == (RefreshState { in_flight: false, queued: false }),
    {
        RefreshState { in_flight: false, queued: false }
    }

    /// A reload is asked for: it starts (`true`) unless one is running, in
    /// which case it is queued.
    pub fn request(&mut self) -> (start: bool)
        ensures
            (*final(self), start) == refresh_requested(*old(self)),
    {
        if self.in_flight {
            self.queued = true;
            false
        } else {
            self.in_flight = true;
            true
        }
    }

    /// The running reload finished; returns whether a queued one should be
    /// asked for now.
    pub fn finish(&mut self) -> (again: bool)
        ensures
            (*final(self), again) == refresh_finished(*old(self)),
    {
        let again = self.queued;
        self.in_flight = false;
        self.queued = false;
        again
    }
}

/// A reload asked for while another runs is not lost: it does not start
/// beside the running one, and when that one finishes it is asked for
/// again and starts.
pub proof fn lemma_queued_refresh_runs_next(state: RefreshState)
    requires
        state.in_flight,
    ensures
        !refresh_requested(state).1,
        refresh_requested(state).0.in_flight,
        refresh_finished(refresh_requested(state).0).1,
        refresh_requested(refresh_finished(refresh_requested(state).0).0).1,
{
}

/// Whatever happened before, no reload starts while another runs.
pub proof fn lemma_one_refresh_at_a_time(state: RefreshState)
    ensures
        refresh_requested(state).1 ==> !state.in_flight,
        refresh_requested(state).0.in_flight,
{
}

/// Results computed for another version of the file (before a refresh or
/// an edit) do not apply to the open document.
pub fn is_current_document(size_bytes: u64, modified_nanos: u128, document: &PdfDocument) -> (current:
    bool)
    ensures
        current == (size_bytes == document.size_bytes && modified_nanos == document.modified_nanos),
{
    size_bytes == document.size_bytes && modified_nanos == document.modified_nanos
}

/// Whether a finished page render is applied: a failed preload is dropped
/// silently (the page is asked for again, and its error shown, once it is
/// visible).
pub fn page_result_applies(succeeded: bool, preload: bool) -> (applies: bool)
    ensures
        applies == (succeeded || !preload),
{
    succeeded || !preload
}

/// Whether a finished page render needs a redraw: a dropped result only
/// when a visible request waited for it; an applied one unless it was a
/// preload nobody waited for.
pub fn page_result_redraws(applied: bool, preload: bool, visible_wait: bool) -> (redraw: bool)
    ensures
        redraw == if applied {
            !preload || visible_wait
        } else {
            visible_wait
        },
{
    if applied {
        !preload || visible_wait
    } else {
        visible_wait
    }
}

/// The reloaded document with its metadata (or why it could not be read).
#[derive(Debug)]
pub struct DocumentReload {
    pub document: PdfDocument,
    pub metadata: Result<Vec<PdfMetadataEntry>, String>,
}

/// What a reload reported.
#[derive(Debug)]
pub struct DocumentReloadOutcome {
    pub result: Result<DocumentReload, String>,
}

/// What a metadata edit reported, with the number of tags it changed.
#[derive(Debug)]
pub struct MetadataWriteOutcome {
    pub result: Result<DocumentReload, String>,
    pub changed_tags: usize,
}

/// What clearing the cache reported.
#[derive(Debug)]
pub struct CacheClearOutcome {
    pub result: Result<CacheCleanupReport, String>,
}

/// A finished page (or page slice) render, for the file version it was
/// made from.
#[derive(Debug)]
pub struct PageOutcome {
    pub source_size_bytes: u64,
    pub source_modified_nanos: u128,
    pub page_index: usize,
    pub target_width: u32,
    pub target_height: u32,
    pub slice: Option<PageSliceSpec>,
    pub preload: bool,
    pub result: Result<PageImage, String>,
}

/// The status line after the cache was cleared.
pub open spec fn cache_cleared_message_spec(report: CacheCleanupReport) -> Seq<char> {
    "cache cleared: "@ + decimal_spec(report.removed_files as nat) + " files, "@ + decimal_spec(
        report.removed_bytes as nat,
    ) + " bytes"@
}

/// The status line after the cache was cleared: files and bytes removed.
pub fn cache_cleared_message(report: &CacheCleanupReport) -> (message: String)
    requires
        report.removed_files <= u64::MAX,
    ensures
        message@ == cache_cleared_message_spec(*report),
{
    let mut out: Vec<char> = Vec::new();
    extend_str(&mut out, "cache cleared: ");
    push_decimal(&mut out, report.removed_files as u64);
    extend_str(&mut out, " files, ");
    push_decimal(&mut out, report.removed_bytes);
    extend_str(&mut out, " bytes");
    string_of(&out)
}

/// The status line after a metadata edit was written.
pub open spec fn metadata_updated_message_spec(changed_tags: usize) -> Seq<char> {
    "metadata updated: "@ + decimal_spec(changed_tags as nat) + " tag(s)"@
}

/// The status line after a metadata edit was written.
pub fn metadata_updated_message(changed_tags: usize) -> (message: String)
    requires
        changed_tags <= u64::MAX,
    ensures
        message@ == metadata_updated_message_spec(changed_tags),
{
    let mut out: Vec<char> = Vec::new();
    extend_str(&mut out, "metadata updated: ");
    push_decimal(&mut out, changed_tags as u64);
    extend_str(&mut out, " tag(s)");
    string_of(&out)
}

} // verus!
