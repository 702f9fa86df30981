//! Navigation history of one tab: the files visited, and a cursor into them.

use crate::text::same_text;
use crate::text::texts;
use vstd::prelude::*;

verus! {

/// The history as mathematics: the visited paths, oldest first, and the
/// position of the current one.
pub ghost struct HistoryView {
    pub entries: Seq<Seq<char>>,
    pub current_index: int,
}

/// The cursor points at an entry, or at zero in an empty history.
pub open spec fn history_wf(h: HistoryView) -> bool {
    if h.entries.len() == 0 {
        h.current_index == 0
    } else {
        0 <= h.current_index < h.entries.len()
    }
}

/// The path under the cursor.
pub open spec fn history_current(h: HistoryView) -> Option<Seq<char>> {
    if h.entries.len() == 0 {
        None
    } else {
        Some(h.entries[h.current_index])
    }
}

/// The history after visiting `path`: unchanged if `path` is the current
/// entry; otherwise everything ahead of the cursor is dropped, `path` is
/// appended and becomes current.
pub open spec fn history_push(h: HistoryView, path: Seq<char>) -> HistoryView {
    if history_current(h) == Some(path) {
        h
    } else if h.entries.len() == 0 {
        HistoryView { entries: seq![path], current_index: 0 }
    } else {
        HistoryView {
            entries: h.entries.take(h.current_index + 1).push(path),
            current_index: h.current_index + 1,
        }
    }
}

pub open spec fn history_can_go_back(h: HistoryView) -> bool {
    h.current_index > 0
}

pub open spec fn history_can_go_forward(h: HistoryView) -> bool {
    h.entries.len() > 0 && h.current_index < h.entries.len() - 1
}

/// The history after one step back, where there is one.
pub open spec fn history_back(h: HistoryView) -> HistoryView {
    if h.entries.len() > 0 && history_can_go_back(h) {
        HistoryView { entries: h.entries, current_index: h.current_index - 1 }
    } else {
        h
    }
}

/// The history after one step forward, where there is one.
pub open spec fn history_forward(h: HistoryView) -> HistoryView {
    if history_can_go_forward(h) {
        HistoryView { entries: h.entries, current_index: h.current_index + 1 }
    } else {
        h
    }
}

/// Whether an optional string slice shows the given optional text.
pub open spec fn shows(shown: Option<&str>, text: Option<Seq<char>>) -> bool {
    match shown {
        Some(s) => text == Some(s@),
        None => text is None,
    }
}

/// Manages the navigation history of a tab.
#[derive(Debug, PartialEq)]
pub struct HistoryManager {
    history: Vec<String>,
    current_index: usize,
}

impl View for HistoryManager {
    type V = HistoryView;

    closed spec fn view(&self) -> HistoryView {
        HistoryView { entries: texts(self.history@), current_index: self.current_index as int }
    }
}

impl Clone for HistoryManager {
    /// An independent copy with the same entries and cursor.
    fn clone(&self) -> (copy: Self)
        ensures
            copy@ == self@,
    {
        let mut history: Vec<String> = Vec::new();
        let mut i: usize = 0;
        while i < self.history.len()
            invariant
                i <= self.history.len(),
                history@.len() == i,
                forall|j: int| 0 <= j < i ==> (#[trigger] history@[j])@ == self.history@[j]@,
            decreases self.history.len() - i,
        {
            history.push(self.history[i].clone());
            i += 1;
        }
        let copy = HistoryManager { history, current_index: self.current_index };
        proof {
            assert(copy@.entries =~= self@.entries);
        }
        copy
    }
}

impl Default for HistoryManager {
    fn default() -> (manager: Self)
        ensures
            manager.wf(),
            manager@.entries.len() == 0,
            manager@.current_index == 0,
    {
        HistoryManager::new()
    }
}

impl HistoryManager {
    /// The cursor points at an entry, or at zero in an empty history.
    pub open spec fn wf(&self) -> bool {
        history_wf(self@)
    }

    /// An empty history.
    pub fn new() -> (manager: Self)
        ensures
            manager.wf(),
            manager@.entries.len() == 0,
            manager@.current_index == 0,
    {
        HistoryManager { history: Vec::new(), current_index: 0 }
    }

    /// Whether the cursor is in range.
    pub fn is_well_formed(&self) -> (ok: bool)
        ensures
            ok == self.wf(),
    {
        if self.history.len() == 0 {
            self.current_index == 0
        } else {
            self.current_index < self.history.len()
        }
    }

    /// Whether both histories hold the same paths and the same cursor.
    pub fn same_as(&self, other: &HistoryManager) -> (same: bool)
        ensures
            same == (self@ == other@),
    {
        if self.current_index != other.current_index || self.history.len() != other.history.len() {
            proof {
                if self@ == other@ {
                    assert(self@.entries.len() == other@.entries.len());
                }
            }
            return false;
        }
        let mut i: usize = 0;
        while i < self.history.len()
            invariant
                i <= self.history.len(),
                self.history.len() == other.history.len(),
                forall|j: int| 0 <= j < i ==> self.history@[j]@ == other.history@[j]@,
            decreases self.history.len() - i,
        {
            if !same_text(self.history[i].as_str(), other.history[i].as_str()) {
                proof {
                    assert(self@.entries[i as int] != other@.entries[i as int]);
                }
                return false;
            }
            i += 1;
        }
        proof {
            assert(self@.entries =~= other@.entries);
        }
        true
    }

    /// Visits `path`. Nothing happens if it is the current entry; otherwise
    /// the entries ahead of the cursor are dropped and `path` becomes the
    /// newest and current entry.
    pub fn push(&mut self, path: &str)
        requires
            old(self).wf(),
        ensures
            final(self).wf(),
            final(self)@ == history_push(old(self)@, path@),
    {
        if self.history.len() > 0 {
            if same_text(self.history[self.current_index].as_str(), path) {
                return ;
            }
        }
        let ghost before = self@;
        if self.history.len() == 0 {
            self.history.push(path.to_owned());
            self.current_index = 0;
            proof {
                assert(self@.entries =~= seq![path@]);
            }
        } else {
            self.history.truncate(self.current_index + 1);
            self.history.push(path.to_owned());
            self.current_index = self.current_index + 1;
            proof {
                assert(self@.entries =~= before.entries.take(before.current_index + 1).push(path@));
            }
        }
    }

    /// Whether there is an entry behind the cursor.
    pub fn can_go_back(&self) -> (can: bool)
        ensures
            can == history_can_go_back(self@),
    {
        self.current_index > 0
    }

    /// Whether there is an entry ahead of the cursor.
    pub fn can_go_forward(&self) -> (can: bool)
        ensures
            can == history_can_go_forward(self@),
    {
        self.history.len() > 0 && self.current_index < self.history.len() - 1
    }

    /// Moves the cursor one entry back and returns the entry it then points
    /// at; `None`, and no move, when there is no entry behind the cursor.
    pub fn go_back(&mut self) -> (previous: Option<&str>)
        requires
            old(self).wf(),
        ensures
            final(self).wf(),
            final(self)@ == history_back(old(self)@),
            shows(
                previous,
                if history_can_go_back(old(self)@) {
                    history_current(final(self)@)
                } else {
                    None
                },
            ),
    {
        if self.history.len() > 0 && self.current_index > 0 {
            self.current_index = self.current_index - 1;
            return self.current();
        }
        None
    }

    /// Moves the cursor one entry forward and returns the entry it then
    /// points at; `None`, and no move, when there is no entry ahead.
    pub fn go_forward(&mut self) -> (next: Option<&str>)
        requires
            old(self).wf(),
        ensures
            final(self).wf(),
            final(self)@ == history_forward(old(self)@),
            shows(
                next,
                if history_can_go_forward(old(self)@) {
                    history_current(final(self)@)
                } else {
                    None
                },
            ),
    {
        if self.history.len() > 0 && self.current_index < self.history.len() - 1 {
            self.current_index = self.current_index + 1;
            return self.current();
        }
        None
    }

    /// The entry under the cursor, if the history is not empty.
    pub fn current(&self) -> (current: Option<&str>)
        requires
            self.wf(),
        ensures
            shows(current, history_current(self@)),
    {
        if self.history.len() > 0 {
            return Some(self.history[self.current_index].as_str());
        }
        None
    }

    /// The number of entries.
    pub fn len(&self) -> (len: usize)
        ensures
            len == self@.entries.len(),
    {
        self.history.len()
    }

    /// Whether there is no entry.
    pub fn is_empty(&self) -> (empty: bool)
        ensures
            empty == (self@.entries.len() == 0),
    {
        self.history.len() == 0
    }
}

/// Visiting the current entry again changes nothing.
pub proof fn lemma_push_current_is_noop(h: HistoryView, path: Seq<char>)
    requires
        history_wf(h),
        history_current(h) == Some(path),
    ensures
        history_push(h, path) == h,
{
}

/// After a visit the visited path is current and nothing lies ahead of it.
pub proof fn lemma_push_makes_current(h: HistoryView, path: Seq<char>)
    requires
        history_wf(h),
    ensures
        history_wf(history_push(h, path)),
        history_current(history_push(h, path)) == Some(path),
        history_current(h) != Some(path) ==> !history_can_go_forward(history_push(h, path)),
{
}

/// A step back followed by a step forward returns to where it started, and
/// so does a step forward followed by a step back.
pub proof fn lemma_back_forward_round_trip(h: HistoryView)
    requires
        history_wf(h),
    ensures
        history_can_go_back(h) ==> history_forward(history_back(h)) == h,
        history_can_go_forward(h) ==> history_back(history_forward(h)) == h,
{
}

} // verus!
