//! Reading behavior: scrolling, frame-synchronized navigation, automatic
//! refresh and the split of the two-panel views.

use vstd::prelude::*;

verus! {

#[derive(Debug, Clone)]
pub struct BehaviorConfig {
    pub scroll_lines: u16,
    pub frame_sync_navigation_viewer: bool,
    pub frame_sync_navigation_bookmarks: bool,
    pub frame_sync_navigation_search: bool,
    pub auto_refresh: bool,
    pub auto_refresh_poll_ms: u64,
    pub auto_refresh_min_interval_ms: u64,
    pub bookmarks_left_ratio: u16,
    pub bookmarks_right_ratio: u16,
    pub search_left_ratio: u16,
    pub search_right_ratio: u16,
}

impl Default for BehaviorConfig {
    fn default() -> (config: Self)
        ensures
            config.scroll_lines == 4,
            config.frame_sync_navigation_viewer,
            !config.frame_sync_navigation_bookmarks,
            !config.frame_sync_navigation_search,
            !config.auto_refresh,
            config.auto_refresh_poll_ms == 500,
            config.auto_refresh_min_interval_ms == 1500,
            config.bookmarks_left_ratio == 2,
            config.bookmarks_right_ratio == 1,
            config.search_left_ratio == 2,
            config.search_right_ratio == 1,
    {
        BehaviorConfig {
            scroll_lines: 4,
            frame_sync_navigation_viewer: true,
            frame_sync_navigation_bookmarks: false,
            frame_sync_navigation_search: false,
            auto_refresh: false,
            auto_refresh_poll_ms: 500,
            auto_refresh_min_interval_ms: 1500,
            bookmarks_left_ratio: 2,
            bookmarks_right_ratio: 1,
            search_left_ratio: 2,
            search_right_ratio: 1,
        }
    }
}

/// `value`, at least `floor`.
pub open spec fn at_least(value: int, floor: int) -> int {
    if value < floor {
        floor
    } else {
        value
    }
}

impl BehaviorConfig {
    /// Raises settings below their minimum: one line per scroll step, a
    /// 200 ms poll, 500 ms between refreshes, panel shares of at least 1.
    pub fn normalize_defaults(&mut self)
        ensures
            final(self).scroll_lines == at_least(old(self).scroll_lines as int, 1),
            final(self).auto_refresh_poll_ms == at_least(old(self).auto_refresh_poll_ms as int, 200),
            final(self).auto_refresh_min_interval_ms == at_least(
                old(self).auto_refresh_min_interval_ms as int,
                500,
            ),
            final(self).bookmarks_left_ratio == at_least(old(self).bookmarks_left_ratio as int, 1),
            final(self).bookmarks_right_ratio == at_least(old(self).bookmarks_right_ratio as int, 1),
            final(self).search_left_ratio == at_least(old(self).search_left_ratio as int, 1),
            final(self).search_right_ratio == at_least(old(self).search_right_ratio as int, 1),
            final(self).frame_sync_navigation_viewer == old(self).frame_sync_navigation_viewer,
            final(self).frame_sync_navigation_bookmarks == old(
                self,
            ).frame_sync_navigation_bookmarks,
            final(self).frame_sync_navigation_search == old(self).frame_sync_navigation_search,
            final(self).auto_refresh == old(self).auto_refresh,
    {
        if self.scroll_lines < 1 {
            self.scroll_lines = 1;
        }
        if self.auto_refresh_poll_ms < 200 {
            self.auto_refresh_poll_ms = 200;
        }
        if self.auto_refresh_min_interval_ms < 500 {
            self.auto_refresh_min_interval_ms = 500;
        }
        if self.bookmarks_left_ratio < 1 {
            self.bookmarks_left_ratio = 1;
        }
        if self.bookmarks_right_ratio < 1 {
            self.bookmarks_right_ratio = 1;
        }
        if self.search_left_ratio < 1 {
            self.search_left_ratio = 1;
        }
        if self.search_right_ratio < 1 {
            self.search_right_ratio = 1;
        }
    }
}

} // verus!
