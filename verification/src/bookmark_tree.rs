//! The bookmarks view: the document outline shown as a tree whose entries
//! can be expanded and collapsed, with a selected entry and a scroll
//! offset.

use std::collections::HashSet;

use vstd::prelude::*;

use crate::bookmarks::PdfBookmark;

verus! {

broadcast use vstd::std_specs::hash::group_hash_axioms;

/// Whether entry `i` has children: the entry after it is nested deeper.
pub open spec fn has_children_spec(entries: Seq<PdfBookmark>, i: int) -> bool {
    0 <= i && i + 1 < entries.len() && entries[i + 1].level > entries[i].level
}

/// Every entry with children is expanded.
pub open spec fn all_parents_expanded(entries: Seq<PdfBookmark>, expanded: Set<usize>) -> bool {
    forall|j: int| #[trigger] has_children_spec(entries, j) ==> expanded.contains(j as usize)
}

/// The entries with children.
pub open spec fn parent_entries(entries: Seq<PdfBookmark>) -> Set<usize> {
    Set::new(|j: usize| has_children_spec(entries, j as int))
}

/// Scans the first `k` entries: the indices shown so far, and the level
/// below which entries are hidden because a collapsed entry is open above
/// them.
pub open spec fn visible_scan(entries: Seq<PdfBookmark>, expanded: Set<usize>, k: int) -> (
    Seq<usize>,
    Option<u16>,
)
    decreases k,
{
    if k <= 0 {
        (Seq::empty(), None)
    } else {
        let (shown, hidden) = visible_scan(entries, expanded, k - 1);
        let i = k - 1;
        let level = entries[i].level;
        if hidden is Some && level > hidden->0 {
            (shown, hidden)
        } else {
            (
                shown.push(i as usize),
                if has_children_spec(entries, i) && !expanded.contains(i as usize) {
                    Some(level)
                } else {
                    None
                },
            )
        }
    }
}

/// The entries shown by the tree: the children of collapsed entries are
/// hidden.
pub open spec fn visible_spec(entries: Seq<PdfBookmark>, expanded: Set<usize>) -> Seq<usize> {
    visible_scan(entries, expanded, entries.len() as int).0
}

/// The closest entry before `k` whose level is below `level`.
pub open spec fn last_below(entries: Seq<PdfBookmark>, level: u16, k: int) -> Option<usize>
    decreases k,
{
    if k <= 0 {
        None
    } else if entries[k - 1].level < level {
        Some((k - 1) as usize)
    } else {
        last_below(entries, level, k - 1)
    }
}

/// The parent of entry `i`: the closest earlier entry of a lower level;
/// top-level entries (level 1) have none.
pub open spec fn parent_spec(entries: Seq<PdfBookmark>, i: int) -> Option<usize> {
    if 0 <= i < entries.len() && entries[i].level > 1 {
        last_below(entries, entries[i].level, i)
    } else {
        None
    }
}

pub proof fn lemma_last_below(entries: Seq<PdfBookmark>, level: u16, k: int)
    requires
        k <= entries.len(),
        k <= usize::MAX,
    ensures
        match last_below(entries, level, k) {
            Some(p) => 0 <= p < k && entries[p as int].level < level && forall|c: int|
                p < c < k ==> entries[c].level >= level,
            None => forall|c: int| 0 <= c < k ==> entries[c].level >= level,
        },
    decreases k,
{
    if k > 0 {
        lemma_last_below(entries, level, k - 1);
    }
}

/// The topmost ancestor of entry `i`.
pub open spec fn root_of(entries: Seq<PdfBookmark>, i: int) -> int
    decreases i,
{
    match parent_spec(entries, i) {
        Some(p) => if 0 <= p < i {
            root_of(entries, p as int)
        } else {
            i
        },
        None => i,
    }
}

/// The ancestors of entry `i`.
pub open spec fn ancestors(entries: Seq<PdfBookmark>, i: int) -> Set<usize>
    decreases i,
{
    match parent_spec(entries, i) {
        Some(p) => if 0 <= p < i {
            ancestors(entries, p as int).insert(p)
        } else {
            Set::empty()
        },
        None => Set::empty(),
    }
}

/// The first position at or after `i` where `x` occurs in `s`.
pub open spec fn position_from(s: Seq<usize>, x: usize, i: int) -> Option<int>
    decreases s.len() - i,
{
    if i < 0 || i >= s.len() {
        None
    } else if s[i] == x {
        Some(i)
    } else {
        position_from(s, x, i + 1)
    }
}

/// The first position of `x` in `s`, if it occurs.
pub open spec fn position_of(s: Seq<usize>, x: usize) -> Option<int> {
    position_from(s, x, 0)
}

pub proof fn lemma_position_from(s: Seq<usize>, x: usize, i: int)
    requires
        0 <= i,
    ensures
        match position_from(s, x, i) {
            Some(p) => i <= p < s.len() && s[p] == x && forall|c: int| i <= c < p ==> s[c] != x,
            None => forall|c: int| i <= c < s.len() ==> s[c] != x,
        },
    decreases s.len() - i,
{
    if i < s.len() && s[i] != x {
        lemma_position_from(s, x, i + 1);
    }
}

/// `value` clamped into `0..=hi`.
pub open spec fn clamp_index(value: int, hi: int) -> int {
    if value < 0 {
        0
    } else if value > hi {
        hi
    } else {
        value
    }
}

/// The scroll offset that brings row `position` into a window of
/// `height` rows, from `scroll`, then bounded by `max_scroll`.
pub open spec fn clamp_scroll_spec(rows: nat, position: Option<int>, scroll: u16, height: u16) -> u16 {
    let h: int = if height < 1 {
        1
    } else {
        height as int
    };
    let count: int = if rows > u16::MAX {
        u16::MAX as int
    } else {
        rows as int
    };
    let max_scroll: int = if count > h {
        count - h
    } else {
        0
    };
    let moved: int = match position {
        Some(p) => {
            let p16: int = if p > u16::MAX {
                u16::MAX as int
            } else {
                p
            };
            let last: int = if scroll + h - 1 > u16::MAX {
                u16::MAX as int
            } else {
                scroll + h - 1
            };
            if p16 < scroll {
                p16
            } else if p16 > last {
                p16 - (h - 1)
            } else {
                scroll as int
            }
        },
        None => scroll as int,
    };
    (if moved < max_scroll {
        moved
    } else {
        max_scroll
    }) as u16
}

/// The document outline and the tree state of the bookmarks view.
#[derive(Debug)]
pub struct BookmarkTree {
    pub entries: Vec<PdfBookmark>,
    /// Why the outline could not be read (e.g. `pdftk` is missing).
    pub error: Option<String>,
    pub expanded: HashSet<usize>,
    pub selected: Option<usize>,
    pub scroll: u16,
    /// Whether the last expand-all left every entry expanded.
    pub all_expanded: bool,
    pub left_ratio: u16,
    pub right_ratio: u16,
}

impl BookmarkTree {
    pub open spec fn visible(&self) -> Seq<usize> {
        visible_spec(self.entries@, self.expanded@)
    }

    pub fn new(loaded: Result<Vec<PdfBookmark>, String>, left_ratio: u16, right_ratio: u16) -> (tree:
        Self)
        ensures
            tree.left_ratio == if left_ratio < 1 {
                1
            } else {
                left_ratio
            },
            tree.right_ratio == if right_ratio < 1 {
                1
            } else {
                right_ratio
            },
            match loaded {
                Ok(entries) => tree.entries@ == entries@ && tree.error is None,
                Err(error) => tree.entries@.len() == 0 && tree.error == Some(error),
            },
            tree.expanded@ == Set::<usize>::empty(),
            tree.selected is None,
            tree.scroll == 0,
            !tree.all_expanded,
    {
        let mut tree = BookmarkTree {
            entries: Vec::new(),
            error: None,
            expanded: HashSet::new(),
            selected: None,
            scroll: 0,
            all_expanded: false,
            left_ratio: if left_ratio < 1 {
                1
            } else {
                left_ratio
            },
            right_ratio: if right_ratio < 1 {
                1
            } else {
                right_ratio
            },
        };
        tree.replace(loaded);
        tree
    }

    /// Installs a freshly read outline; expansion and selection start over.
    pub fn replace(&mut self, loaded: Result<Vec<PdfBookmark>, String>)
        ensures
            match loaded {
                Ok(entries) => final(self).entries@ == entries@ && final(self).error is None,
                Err(error) => final(self).entries@.len() == 0 && final(self).error == Some(error),
            },
            final(self).expanded@ == Set::<usize>::empty(),
            final(self).selected is None,
            final(self).scroll == 0,
            !final(self).all_expanded,
            final(self).left_ratio == old(self).left_ratio,
            final(self).right_ratio == old(self).right_ratio,
    {
        match loaded {
            Ok(entries) => {
                self.entries = entries;
                self.error = None;
            },
            Err(error) => {
                self.entries = Vec::new();
                self.error = Some(error);
            },
        }
        self.expanded.clear();
        self.selected = None;
        self.scroll = 0;
        self.all_expanded = false;
    }

    /// Whether entry `index` has children.
    pub fn has_children(&self, index: usize) -> (children: bool)
        ensures
            children == has_children_spec(self.entries@, index as int),
    {
        if index >= self.entries.len() {
            return false;
        }
        let next = index + 1;
        next < self.entries.len() && self.entries[next].level > self.entries[index].level
    }

    /// Entry indices shown in the tree: children of collapsed entries are
    /// hidden.
    pub fn visible_indices(&self) -> (visible: Vec<usize>)
        ensures
            visible@ == self.visible(),
    {
        let mut visible: Vec<usize> = Vec::new();
        let mut hidden_below: Option<u16> = None;
        let mut index: usize = 0;
        while index < self.entries.len()
            invariant
                index <= self.entries@.len(),
                (visible@, hidden_below) == visible_scan(self.entries@, self.expanded@, index as int),
            decreases self.entries@.len() - index,
        {
            let level = self.entries[index].level;
            let skip = match hidden_below {
                Some(limit) => level > limit,
                None => false,
            };
            if !skip {
                visible.push(index);
                if self.has_children(index) && !self.expanded.contains(&index) {
                    hidden_below = Some(level);
                } else {
                    hidden_below = None;
                }
            }
            index += 1;
        }
        visible
    }

    /// The selected entry, when the selection names one.
    pub fn selected_entry(&self) -> (entry: Option<&PdfBookmark>)
        ensures
            match self.selected {
                Some(i) => if i < self.entries@.len() {
                    entry == Some(&self.entries@[i as int])
                } else {
                    entry is None
                },
                None => entry is None,
            },
    {
        match self.selected {
            Some(index) => if index < self.entries.len() {
                Some(&self.entries[index])
            } else {
                None
            },
            None => None,
        }
    }

    /// Entry shown on row `row_offset` of the tree panel.
    pub fn index_at_row(&self, row_offset: usize) -> (index: Option<usize>)
        requires
            self.scroll + row_offset <= usize::MAX,
        ensures
            ({
                let row = self.scroll + row_offset;
                if row < self.visible().len() {
                    index == Some(self.visible()[row])
                } else {
                    index is None
                }
            }),
    {
        let visible = self.visible_indices();
        let row = self.scroll as usize + row_offset;
        if row < visible.len() {
            Some(visible[row])
        } else {
            None
        }
    }
}


impl BookmarkTree {
    /// Position of the selected entry among the visible ones.
    fn selected_position(&self, rows: &Vec<usize>) -> (position: Option<usize>)
        ensures
            match self.selected {
                Some(x) => match position_of(rows@, x) {
                    Some(p) => 0 <= p < rows@.len() && position == Some(p as usize),
                    None => position is None,
                },
                None => position is None,
            },
    {
        let target = match self.selected {
            Some(x) => x,
            None => return None,
        };
        proof {
            lemma_position_from(rows@, target, 0);
        }
        let mut j: usize = 0;
        while j < rows.len()
            invariant
                j <= rows@.len(),
                self.selected == Some(target),
                position_of(rows@, target) == position_from(rows@, target, j as int),
            decreases rows@.len() - j,
        {
            if rows[j] == target {
                return Some(j);
            }
            j += 1;
        }
        None
    }

    /// Scrolls so the selected entry is within `visible_height` rows.
    pub fn clamp_scroll(&mut self, visible_height: u16)
        ensures
            final(self).scroll == clamp_scroll_spec(
                old(self).visible().len(),
                match old(self).selected {
                    Some(x) => position_of(old(self).visible(), x),
                    None => None,
                },
                old(self).scroll,
                visible_height,
            ),
            final(self).entries == old(self).entries,
            final(self).expanded@ == old(self).expanded@,
            final(self).selected == old(self).selected,
            final(self).all_expanded == old(self).all_expanded,
    {
        let rows = self.visible_indices();
        let height: u16 = if visible_height < 1 {
            1
        } else {
            visible_height
        };
        let count: u16 = if rows.len() > 65535 {
            65535
        } else {
            rows.len() as u16
        };
        let max_scroll = count.saturating_sub(height);
        match self.selected_position(&rows) {
            Some(position) => {
                let p: u16 = if position > 65535 {
                    65535
                } else {
                    position as u16
                };
                if p < self.scroll {
                    self.scroll = p;
                } else if p > self.scroll.saturating_add(height - 1) {
                    self.scroll = p.saturating_sub(height - 1);
                }
            },
            None => {},
        }
        if self.scroll > max_scroll {
            self.scroll = max_scroll;
        }
    }

    /// Moves the selection `delta` visible rows, staying on the first or
    /// last visible entry; with no selection it starts from the first.
    pub fn select_visible_delta(&mut self, delta: isize)
        ensures
            ({
                let rows = old(self).visible();
                if rows.len() == 0 {
                    final(self).selected is None
                } else {
                    let current: int = match old(self).selected {
                        Some(x) => match position_of(rows, x) {
                            Some(p) => p,
                            None => 0,
                        },
                        None => 0,
                    };
                    final(self).selected == Some(
                        rows[clamp_index(current + delta, rows.len() - 1)],
                    )
                }
            }),
            final(self).entries == old(self).entries,
            final(self).expanded@ == old(self).expanded@,
            final(self).scroll == old(self).scroll,
            final(self).all_expanded == old(self).all_expanded,
    {
        let visible = self.visible_indices();
        if visible.len() == 0 {
            self.selected = None;
            return;
        }
        let current: usize = match self.selected_position(&visible) {
            Some(p) => p,
            None => 0,
        };
        proof {
            match self.selected {
                Some(x) => lemma_position_from(visible@, x, 0),
                None => {},
            }
        }
        let last = visible.len() - 1;
        let next: usize = if delta >= 0 {
            let forward = delta as usize;
            if forward > last - current {
                last
            } else {
                current + forward
            }
        } else {
            let back: usize = (-(delta + 1)) as usize + 1;
            if back > current {
                0
            } else {
                current - back
            }
        };
        self.selected = Some(visible[next]);
    }

    /// The parent of entry `index`: the closest earlier entry of a lower
    /// level.
    pub fn parent(&self, index: usize) -> (parent: Option<usize>)
        ensures
            parent == parent_spec(self.entries@, index as int),
    {
        if index >= self.entries.len() {
            return None;
        }
        let level = self.entries[index].level;
        if level <= 1 {
            return None;
        }
        let mut candidate = index;
        while candidate > 0
            invariant
                candidate <= index < self.entries@.len(),
                level == self.entries@[index as int].level,
                level > 1,
                last_below(self.entries@, level, index as int) == last_below(
                    self.entries@,
                    level,
                    candidate as int,
                ),
            decreases candidate,
        {
            if self.entries[candidate - 1].level < level {
                return Some(candidate - 1);
            }
            candidate -= 1;
        }
        None
    }

    /// Whether every entry with children is expanded.
    fn every_parent_expanded(&self) -> (all: bool)
        ensures
            all == all_parents_expanded(self.entries@, self.expanded@),
    {
        let mut j: usize = 0;
        while j < self.entries.len()
            invariant
                j <= self.entries@.len(),
                forall|c: int|
                    0 <= c < j && #[trigger] has_children_spec(self.entries@, c)
                        ==> self.expanded@.contains(c as usize),
            decreases self.entries@.len() - j,
        {
            if self.has_children(j) && !self.expanded.contains(&j) {
                return false;
            }
            j += 1;
        }
        true
    }

    /// The topmost ancestor of entry `start`.
    fn root_entry(&self, start: usize) -> (root: usize)
        ensures
            root as int == root_of(self.entries@, start as int),
    {
        let mut selected = start;
        loop
            invariant
                selected <= start,
                root_of(self.entries@, selected as int) == root_of(self.entries@, start as int),
            decreases selected,
        {
            let parent = self.parent(selected);
            match parent {
                Some(p) => {
                    proof {
                        lemma_last_below(
                            self.entries@,
                            self.entries@[selected as int].level,
                            selected as int,
                        );
                    }
                    selected = p;
                },
                None => {
                    return selected;
                },
            }
        }
    }

    /// Expands or collapses the selected entry, when it has children.
    pub fn toggle_selected(&mut self)
        ensures
            match old(self).selected {
                Some(i) => if has_children_spec(old(self).entries@, i as int) {
                    if old(self).expanded@.contains(i) {
                        &&& final(self).expanded@ == old(self).expanded@.remove(i)
                        &&& !final(self).all_expanded
                    } else {
                        &&& final(self).expanded@ == old(self).expanded@.insert(i)
                        &&& final(self).all_expanded == all_parents_expanded(
                            old(self).entries@,
                            final(self).expanded@,
                        )
                    }
                } else {
                    final(self).expanded@ == old(self).expanded@ && final(self).all_expanded
                        == old(self).all_expanded
                },
                None => final(self).expanded@ == old(self).expanded@ && final(self).all_expanded
                    == old(self).all_expanded,
            },
            final(self).entries == old(self).entries,
            final(self).selected == old(self).selected,
            final(self).scroll == old(self).scroll,
    {
        let index = match self.selected {
            Some(i) => i,
            None => return,
        };
        if !self.has_children(index) {
            return;
        }
        if self.expanded.remove(&index) {
            self.all_expanded = false;
        } else {
            self.expanded.insert(index);
            self.all_expanded = self.every_parent_expanded();
        }
    }

    /// Expands every entry with children, or collapses everything when
    /// all are expanded; collapsing moves the selection to its topmost
    /// ancestor, which stays visible.
    pub fn toggle_all(&mut self)
        ensures
            if old(self).all_expanded {
                &&& final(self).expanded@ == Set::<usize>::empty()
                &&& !final(self).all_expanded
                &&& final(self).selected == match old(self).selected {
                    Some(i) => Some(root_of(old(self).entries@, i as int) as usize),
                    None => None,
                }
            } else {
                &&& final(self).expanded@ == parent_entries(old(self).entries@)
                &&& final(self).all_expanded
                &&& final(self).selected == old(self).selected
            },
            final(self).entries == old(self).entries,
            final(self).scroll == old(self).scroll,
    {
        self.expanded.clear();
        if self.all_expanded {
            self.all_expanded = false;
            match self.selected {
                Some(start) => {
                    let root = self.root_entry(start);
                    self.selected = Some(root);
                },
                None => {},
            }
            return;
        }
        let mut j: usize = 0;
        while j < self.entries.len()
            invariant
                j <= self.entries@.len(),
                self.entries == old(self).entries,
                self.selected == old(self).selected,
                self.scroll == old(self).scroll,
                !old(self).all_expanded,
                self.expanded@ == Set::new(
                    |c: usize| c < j && has_children_spec(self.entries@, c as int),
                ),
            decreases self.entries@.len() - j,
        {
            if self.has_children(j) {
                self.expanded.insert(j);
            }
            proof {
                assert(self.expanded@ =~= Set::new(
                    |c: usize| c < j + 1 && has_children_spec(self.entries@, c as int),
                ));
            }
            j += 1;
        }
        proof {
            assert(self.expanded@ =~= parent_entries(self.entries@));
        }
        self.all_expanded = true;
    }

    /// Selects entry `best` and expands its ancestors so it is shown,
    /// scrolling back to the top; `None` clears the selection.
    pub fn select_revealed(&mut self, best: Option<usize>)
        requires
            match best {
                Some(b) => b < old(self).entries@.len(),
                None => true,
            },
        ensures
            match best {
                Some(b) => {
                    &&& final(self).selected == Some(b)
                    &&& final(self).expanded@ == old(self).expanded@.union(
                        ancestors(old(self).entries@, b as int),
                    )
                    &&& final(self).scroll == 0
                },
                None => {
                    &&& final(self).selected is None
                    &&& final(self).expanded@ == old(self).expanded@
                    &&& final(self).scroll == old(self).scroll
                },
            },
            final(self).entries == old(self).entries,
            final(self).all_expanded == old(self).all_expanded,
    {
        let best = match best {
            Some(b) => b,
            None => {
                self.selected = None;
                return;
            },
        };
        self.selected = Some(best);
        let ghost before = self.expanded@;
        let mut index = best;
        loop
            invariant_except_break
                index <= best < self.entries@.len(),
                self.entries == old(self).entries,
                self.selected == Some(best),
                self.all_expanded == old(self).all_expanded,
                self.expanded@.union(ancestors(self.entries@, index as int)) == before.union(
                    ancestors(self.entries@, best as int),
                ),
            ensures
                self.entries == old(self).entries,
                self.selected == Some(best),
                self.all_expanded == old(self).all_expanded,
                self.expanded@ == before.union(ancestors(self.entries@, best as int)),
            decreases index,
        {
            let parent = self.parent(index);
            match parent {
                Some(p) => {
                    proof {
                        lemma_last_below(
                            self.entries@,
                            self.entries@[index as int].level,
                            index as int,
                        );
                    }
                    let ghost prior = self.expanded@;
                    self.expanded.insert(p);
                    proof {
                        assert(self.expanded@.union(ancestors(self.entries@, p as int)) =~= prior.union(
                            ancestors(self.entries@, index as int),
                        ));
                    }
                    index = p;
                },
                None => {
                    proof {
                        assert(self.expanded@ =~= self.expanded@.union(
                            ancestors(self.entries@, index as int),
                        ));
                    }
                    break ;
                },
            }
        }
        self.scroll = 0;
    }

    /// Gives the tree panel one share less, keeping at least one.
    pub fn narrow_panel(&mut self)
        ensures
            final(self).left_ratio == if old(self).left_ratio <= 2 {
                1
            } else {
                old(self).left_ratio - 1
            },
    {
        let ratio = self.left_ratio.saturating_sub(1);
        self.left_ratio = if ratio < 1 {
            1
        } else {
            ratio
        };
    }

    /// Gives the tree panel one share more, up to eight.
    pub fn widen_panel(&mut self)
        ensures
            final(self).left_ratio == if old(self).left_ratio >= 7 {
                8
            } else {
                old(self).left_ratio + 1
            },
    {
        let ratio = self.left_ratio.saturating_add(1);
        self.left_ratio = if ratio > 8 {
            8
        } else {
            ratio
        };
    }
}

/// Shown entries are listed in order, each once, and name real entries.
pub proof fn lemma_visible_in_order(entries: Seq<PdfBookmark>, expanded: Set<usize>)
    requires
        entries.len() <= usize::MAX,
    ensures
        forall|a: int, b: int|
            0 <= a < b < visible_spec(entries, expanded).len() ==> visible_spec(entries, expanded)[a]
                < visible_spec(entries, expanded)[b],
        forall|a: int|
            0 <= a < visible_spec(entries, expanded).len() ==> visible_spec(entries, expanded)[a]
                < entries.len(),
{
    lemma_scan_in_order(entries, expanded, entries.len() as int);
}

proof fn lemma_scan_in_order(entries: Seq<PdfBookmark>, expanded: Set<usize>, k: int)
    requires
        k <= entries.len() <= usize::MAX,
    ensures
        forall|a: int, b: int|
            0 <= a < b < visible_scan(entries, expanded, k).0.len() ==> visible_scan(
                entries,
                expanded,
                k,
            ).0[a] < visible_scan(entries, expanded, k).0[b],
        forall|a: int|
            0 <= a < visible_scan(entries, expanded, k).0.len() ==> visible_scan(
                entries,
                expanded,
                k,
            ).0[a] < k,
    decreases k,
{
    if k > 0 {
        lemma_scan_in_order(entries, expanded, k - 1);
        let prev = visible_scan(entries, expanded, k - 1).0;
        let next = visible_scan(entries, expanded, k).0;
        if next.len() > prev.len() {
            assert(next == prev.push((k - 1) as usize));
            assert forall|a: int, b: int| 0 <= a < b < next.len() implies next[a] < next[b] by {
                if b < prev.len() {
                    assert(next[a] == prev[a] && next[b] == prev[b]);
                } else {
                    assert(next[a] == prev[a]);
                }
            }
        }
    }
}

/// With every entry that has children expanded, the tree shows every
/// entry.
pub proof fn lemma_expanded_tree_shows_everything(entries: Seq<PdfBookmark>, expanded: Set<usize>)
    requires
        entries.len() <= usize::MAX,
        all_parents_expanded(entries, expanded),
    ensures
        visible_spec(entries, expanded) == Seq::new(entries.len(), |i: int| i as usize),
{
    lemma_scan_everything(entries, expanded, entries.len() as int);
    assert(visible_spec(entries, expanded) =~= Seq::new(entries.len(), |i: int| i as usize));
}

proof fn lemma_scan_everything(entries: Seq<PdfBookmark>, expanded: Set<usize>, k: int)
    requires
        0 <= k <= entries.len() <= usize::MAX,
        all_parents_expanded(entries, expanded),
    ensures
        visible_scan(entries, expanded, k).0 == Seq::new(k as nat, |i: int| i as usize),
        visible_scan(entries, expanded, k).1 is None,
    decreases k,
{
    if k > 0 {
        lemma_scan_everything(entries, expanded, k - 1);
        let i = k - 1;
        if has_children_spec(entries, i) {
            assert(expanded.contains(i as usize));
        }
        assert(visible_scan(entries, expanded, k).0 =~= Seq::new(k as nat, |i: int| i as usize));
    }
}

/// Expanding all entries shows every entry.
pub proof fn lemma_expand_all_shows_everything(entries: Seq<PdfBookmark>)
    requires
        entries.len() <= usize::MAX,
    ensures
        visible_spec(entries, parent_entries(entries)) == Seq::new(
            entries.len(),
            |i: int| i as usize,
        ),
{
    assert forall|j: int| #[trigger] has_children_spec(entries, j) implies parent_entries(
        entries,
    ).contains(j as usize) by {
        assert(j as usize as int == j);
    }
    lemma_expanded_tree_shows_everything(entries, parent_entries(entries));
}

/// After scrolling, a shown selection lies inside the window, and the
/// window never starts past the last full page of rows.
pub proof fn lemma_clamp_scroll_keeps_selection_in_view(
    rows: nat,
    position: int,
    scroll: u16,
    height: u16,
)
    requires
        0 <= position < rows <= u16::MAX,
    ensures
        ({
            let h: int = if height < 1 {
                1
            } else {
                height as int
            };
            let s = clamp_scroll_spec(rows, Some(position), scroll, height);
            &&& s <= position < s + h
            &&& s + h <= rows || s == 0
        }),
{
}

} // verus!
