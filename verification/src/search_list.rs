//! The result list of the search view: which result is selected, how far
//! the list is scrolled, and the pause after typing that preview
//! preloading waits for.

use vstd::prelude::*;

use crate::session::next_generation;

verus! {

/// The state of the result list: how many results there are, the selected
/// one, the first row shown, and the preload generations (each edit of
/// the query starts one; preloading runs once the ready generation caught
/// up with it).
#[derive(Debug, Clone, Copy, PartialEq, Eq)]
pub struct SearchList {
    pub result_count: usize,
    pub selected: Option<usize>,
    pub scroll: u16,
    pub preload_generation: u64,
    pub preload_ready_generation: u64,
    pub preload_reset_pending: bool,
}

/// A `usize` as a `u16`, saturating.
pub open spec fn sat_u16(v: int) -> int {
    if v > u16::MAX {
        u16::MAX as int
    } else {
        v
    }
}

/// The scroll position after `clamp_scroll(visible_height)`.
pub open spec fn clamped_scroll(list: SearchList, visible_height: u16) -> int {
    let height = if visible_height >= 1 {
        visible_height as int
    } else {
        1
    };
    let count = sat_u16(list.result_count as int);
    let max_scroll = if count >= height {
        count - height
    } else {
        0
    };
    let scroll = match list.selected {
        Some(s) => {
            let sel = sat_u16(s as int);
            let bottom = if list.scroll + height - 1 > u16::MAX {
                u16::MAX as int
            } else {
                list.scroll + height - 1
            };
            if sel < list.scroll {
                sel
            } else if sel > bottom {
                sel - (height - 1)
            } else {
                list.scroll as int
            }
        },
        None => list.scroll as int,
    };
    if scroll <= max_scroll {
        scroll
    } else {
        max_scroll
    }
}

/// The selection after moving it by `delta`: from the selected result (or
/// the first), saturating at 0, at most the last result.
pub open spec fn moved_selection(list: SearchList, delta: int) -> int {
    let current = match list.selected {
        Some(s) => s as int,
        None => 0,
    };
    let raw = current + delta;
    let sat = if raw < 0 {
        0
    } else if raw > usize::MAX {
        usize::MAX as int
    } else {
        raw
    };
    if sat <= list.result_count - 1 {
        sat
    } else {
        list.result_count - 1
    }
}

impl SearchList {
    /// No results, nothing selected, nothing pending.
    pub fn new() -> (list: Self)
        ensures
            list == (SearchList {
                result_count: 0,
                selected: None,
                scroll: 0,
                preload_generation: 0,
                preload_ready_generation: 0,
                preload_reset_pending: false,
            }),
    {
        SearchList {
            result_count: 0,
            selected: None,
            scroll: 0,
            preload_generation: 0,
            preload_ready_generation: 0,
            preload_reset_pending: false,
        }
    }

    /// The results of a document that was reloaded are gone.
    pub fn reset_for_reload(&mut self)
        ensures
            *final(self) == (SearchList {
                result_count: 0,
                selected: None,
                scroll: 0,
                ..*old(self)
            }),
    {
        self.result_count = 0;
        self.selected = None;
        self.scroll = 0;
    }

    /// The result shown on row `row_offset` of the list, if there is one.
    pub fn result_at_row(&self, row_offset: usize) -> (index: Option<usize>)
        requires
            self.scroll + row_offset <= usize::MAX,
        ensures
            index == (if self.scroll + row_offset < self.result_count {
                Some((self.scroll + row_offset) as usize)
            } else {
                None
            }),
    {
        let index = self.scroll as usize + row_offset;
        if index < self.result_count {
            Some(index)
        } else {
            None
        }
    }

    /// The query was run again and found `count` results: the selection
    /// stays where it was (or goes to the first result) within the new
    /// list; returns whether the selection or the count changed.
    pub fn set_results(&mut self, count: usize) -> (changed: bool)
        ensures
            count == 0 ==> final(self).selected is None && final(self).scroll == 0,
            count > 0 ==> final(self).selected == Some(
                (if (match old(self).selected {
                    Some(s) => s,
                    None => 0,
                }) <= count - 1 {
                    match old(self).selected {
                        Some(s) => s,
                        None => 0,
                    }
                } else {
                    (count - 1) as usize
                }) as usize,
            ) && final(self).scroll == old(self).scroll,
            final(self).result_count == count,
            final(self).preload_generation == old(self).preload_generation,
            final(self).preload_ready_generation == old(self).preload_ready_generation,
            final(self).preload_reset_pending == old(self).preload_reset_pending,
            changed == (old(self).selected != final(self).selected || old(self).result_count
                != count),
    {
        let previous_selected = self.selected;
        let previous_count = self.result_count;
        self.result_count = count;
        if count == 0 {
            self.selected = None;
            self.scroll = 0;
        } else {
            let current = match self.selected {
                Some(s) => s,
                None => 0,
            };
            self.selected = Some(if current <= count - 1 { current } else { count - 1 });
        }
        let same_selection = match (previous_selected, self.selected) {
            (Some(a), Some(b)) => a == b,
            (None, None) => true,
            _ => false,
        };
        !same_selection || previous_count != count
    }

    /// Scrolls so that the selected result is within `visible_height`
    /// rows, and no further than the last full page of results.
    pub fn clamp_scroll(&mut self, visible_height: u16)
        ensures
            final(self).scroll as int == clamped_scroll(*old(self), visible_height),
            *final(self) == (SearchList { scroll: final(self).scroll, ..*old(self) }),
    {
        let height: u16 = if visible_height >= 1 { visible_height } else { 1 };
        let count: u16 = if self.result_count > 65535 { 65535 } else { self.result_count as u16 };
        let max_scroll: u16 = if count >= height { count - height } else { 0 };
        if let Some(selected) = self.selected {
            let sel: u16 = if selected > 65535 { 65535 } else { selected as u16 };
            let bottom: u16 = if self.scroll as u32 + height as u32 - 1 > 65535 {
                65535
            } else {
                self.scroll + (height - 1)
            };
            if sel < self.scroll {
                self.scroll = sel;
            } else if sel > bottom {
                self.scroll = sel - (height - 1);
            }
        }
        if self.scroll > max_scroll {
            self.scroll = max_scroll;
        }
    }

    /// Moves the selection by `delta`; returns whether it changed. With no
    /// results nothing is selected.
    pub fn select_delta(&mut self, delta: isize) -> (changed: bool)
        ensures
            old(self).result_count == 0 ==> final(self).selected is None && !changed,
            old(self).result_count > 0 ==> final(self).selected == Some(
                moved_selection(*old(self), delta as int) as usize,
            ) && changed == (moved_selection(*old(self), delta as int) != (match old(self).selected {
                Some(s) => s as int,
                None => 0,
            })),
            *final(self) == (SearchList { selected: final(self).selected, ..*old(self) }),
    {
        if self.result_count == 0 {
            self.selected = None;
            return false;
        }
        let current = match self.selected {
            Some(s) => s,
            None => 0,
        };
        let moved: usize = if delta < 0 {
            let back = (0 - (delta + 1)) as usize + 1;
            if back > current { 0 } else { current - back }
        } else {
            let forward = delta as usize;
            if forward > usize::MAX - current { usize::MAX } else { current + forward }
        };
        let next = if moved <= self.result_count - 1 { moved } else { self.result_count - 1 };
        self.selected = Some(next);
        next != current
    }

    /// Preview preloading may run: the view shows search results and no
    /// edit came after the last pause.
    pub fn preload_ready(&self, in_search_view: bool) -> (ready: bool)
        ensures
            ready == (in_search_view && self.preload_ready_generation == self.preload_generation),
    {
        in_search_view && self.preload_ready_generation == self.preload_generation
    }

    /// Preloading may run at once (the results were not just typed).
    pub fn make_preload_ready_now(&mut self)
        ensures
            *final(self) == (SearchList {
                preload_ready_generation: old(self).preload_generation,
                ..*old(self)
            }),
    {
        self.preload_ready_generation = self.preload_generation;
    }

    /// The query was edited: a new preload generation starts, queued
    /// preloads are stale. Returns the generation whose pause to wait for.
    pub fn defer_preload_after_input(&mut self) -> (generation: u64)
        ensures
            generation == next_generation(old(self).preload_generation),
            *final(self) == (SearchList {
                preload_generation: generation,
                preload_reset_pending: true,
                ..*old(self)
            }),
    {
        self.preload_generation = if self.preload_generation == u64::MAX {
            0
        } else {
            self.preload_generation + 1
        };
        self.preload_reset_pending = true;
        self.preload_generation
    }

    /// The typing pause of `generation` elapsed; returns whether preloading
    /// may start now (only for the latest edit, in the search view).
    pub fn finish_preload_delay(&mut self, generation: u64, in_search_view: bool) -> (start: bool)
        ensures
            start == (in_search_view && generation == old(self).preload_generation),
            start ==> *final(self) == (SearchList {
                preload_ready_generation: generation,
                ..*old(self)
            }),
            !start ==> *final(self) == *old(self),
    {
        if !in_search_view || generation != self.preload_generation {
            return false;
        }
        self.preload_ready_generation = generation;
        true
    }

    /// Whether queued preloads are to be dropped; the flag is cleared.
    pub fn take_preload_reset(&mut self) -> (reset: bool)
        ensures
            reset == old(self).preload_reset_pending,
            *final(self) == (SearchList { preload_reset_pending: false, ..*old(self) }),
    {
        let reset = self.preload_reset_pending;
        self.preload_reset_pending = false;
        reset
    }
}

/// After clamping, a selected result among the first `u16::MAX` rows is in
/// view whenever the list is at least one page long past it, and the list
/// never scrolls past its last full page.
pub proof fn lemma_clamp_scroll_shows_selection(list: SearchList, visible_height: u16)
    requires
        list.selected matches Some(s) && s < list.result_count && s < u16::MAX,
        list.result_count <= u16::MAX,
    ensures
        ({
            let height = if visible_height >= 1 {
                visible_height as int
            } else {
                1
            };
            let scroll = clamped_scroll(list, visible_height);
            let s = list.selected->0 as int;
            &&& scroll <= s
            &&& s < scroll + height
            &&& scroll + height <= list.result_count || scroll == 0
        }),
{
}

/// An edit makes preloading wait: right after it nothing is ready, and the
/// pause of an older edit does not start it.
pub proof fn lemma_edit_waits_for_its_own_pause(list: SearchList, older: u64)
    requires
        list.preload_ready_generation == list.preload_generation,
        older == list.preload_generation,
    ensures
        next_generation(list.preload_generation) != list.preload_ready_generation,
        older != next_generation(list.preload_generation),
{
}

} // verus!
