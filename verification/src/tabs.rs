//! A tab: what it shows, and the history of files visited in it.

use crate::history::history_push;
use crate::history::history_wf;
use crate::history::HistoryManager;
use crate::history::HistoryView;
use crate::paths::display_file_name;
use crate::paths::file_name_or;
use crate::text::same_text;
use vstd::prelude::*;

verus! {

/// Content source for a tab.
#[derive(Debug, PartialEq)]
pub enum TabContent {
    /// No content.
    Empty,
    /// File from the file system.
    File(String),
    /// Inline markdown content, as on the welcome screen.
    Inline(String),
    /// File that cannot be opened, with the reason.
    FileError(String, String),
    /// Preferences page.
    Preferences,
}

/// A tab's content as mathematics.
pub ghost enum TabContentView {
    Empty,
    File(Seq<char>),
    Inline(Seq<char>),
    FileError(Seq<char>, Seq<char>),
    Preferences,
}

impl View for TabContent {
    type V = TabContentView;

    open spec fn view(&self) -> TabContentView {
        match self {
            TabContent::Empty => TabContentView::Empty,
            TabContent::File(path) => TabContentView::File(path@),
            TabContent::Inline(text) => TabContentView::Inline(text@),
            TabContent::FileError(path, reason) => TabContentView::FileError(path@, reason@),
            TabContent::Preferences => TabContentView::Preferences,
        }
    }
}

impl Clone for TabContent {
    fn clone(&self) -> (copy: Self)
        ensures
            copy@ == self@,
    {
        match self {
            TabContent::Empty => TabContent::Empty,
            TabContent::File(path) => TabContent::File(path.clone()),
            TabContent::Inline(text) => TabContent::Inline(text.clone()),
            TabContent::FileError(path, reason) => TabContent::FileError(
                path.clone(),
                reason.clone(),
            ),
            TabContent::Preferences => TabContent::Preferences,
        }
    }
}

impl Default for TabContent {
    fn default() -> (content: Self)
        ensures
            content@ == TabContentView::Empty,
    {
        TabContent::Empty
    }
}

impl TabContent {
    /// Whether both contents are of the same kind and hold the same text.
    pub fn same_as(&self, other: &TabContent) -> (same: bool)
        ensures
            same == (self@ == other@),
    {
        match (self, other) {
            (TabContent::Empty, TabContent::Empty) => true,
            (TabContent::File(a), TabContent::File(b)) => same_text(a.as_str(), b.as_str()),
            (TabContent::Inline(a), TabContent::Inline(b)) => same_text(a.as_str(), b.as_str()),
            (TabContent::FileError(a, ra), TabContent::FileError(b, rb)) => same_text(
                a.as_str(),
                b.as_str(),
            ) && same_text(ra.as_str(), rb.as_str()),
            (TabContent::Preferences, TabContent::Preferences) => true,
            _ => false,
        }
    }
}

/// The path of the file that a content refers to, if it refers to one.
pub open spec fn content_file(content: TabContentView) -> Option<Seq<char>> {
    match content {
        TabContentView::File(path) => Some(path),
        TabContentView::FileError(path, _) => Some(path),
        _ => None,
    }
}

/// Whether a content shows no file: nothing, inline text, or a file error.
pub open spec fn content_is_no_file(content: TabContentView) -> bool {
    content is Empty || content is Inline || content is FileError
}

/// The label of a tab with the given content.
pub open spec fn content_display_name(content: TabContentView) -> Seq<char> {
    match content {
        TabContentView::File(path) => display_file_name(path, "Unnamed file"@),
        TabContentView::FileError(path, _) => display_file_name(path, "Unnamed file"@),
        TabContentView::Inline(_) => "Welcome"@,
        TabContentView::Preferences => "Preferences"@,
        TabContentView::Empty => "No file"@,
    }
}

/// A tab as mathematics.
pub ghost struct TabView {
    pub content: TabContentView,
    pub history: HistoryView,
}

/// The tab that shows nothing and has visited nothing.
pub open spec fn empty_tab() -> TabView {
    TabView {
        content: TabContentView::Empty,
        history: HistoryView { entries: Seq::empty(), current_index: 0 },
    }
}

/// The tab after navigating to `file`: the file is shown and has been
/// visited.
pub open spec fn tab_navigate(tab: TabView, file: Seq<char>) -> TabView {
    TabView { content: TabContentView::File(file), history: history_push(tab.history, file) }
}

/// A deep copy of a tab as it travels in a message: owned by the message,
/// sharing nothing with the window it was taken from.
pub type TabSnapshot = Tab;

/// A single tab with its content and navigation history.
#[derive(Debug, PartialEq)]
pub struct Tab {
    pub content: TabContent,
    pub history: HistoryManager,
}

impl View for Tab {
    type V = TabView;

    open spec fn view(&self) -> TabView {
        TabView { content: self.content@, history: self.history@ }
    }
}

impl Clone for Tab {
    /// A deep copy that shares nothing with the original.
    fn clone(&self) -> (copy: Self)
        ensures
            copy@ == self@,
    {
        Tab { content: self.content.clone(), history: self.history.clone() }
    }
}

impl Default for Tab {
    fn default() -> (tab: Self)
        ensures
            tab@ == empty_tab(),
            tab.wf(),
    {
        let tab = Tab { content: TabContent::Empty, history: HistoryManager::new() };
        proof {
            assert(tab@.history.entries =~= Seq::<Seq<char>>::empty());
        }
        tab
    }
}

impl Tab {
    /// The history's cursor is in range.
    pub open spec fn wf(&self) -> bool {
        history_wf(self@.history)
    }

    /// A tab that shows `file`, with `file` as its only visited entry.
    pub fn new(file: &str) -> (tab: Self)
        ensures
            tab.wf(),
            tab@ == tab_navigate(empty_tab(), file@),
    {
        let mut history = HistoryManager::new();
        proof {
            assert(history@.entries =~= Seq::<Seq<char>>::empty());
        }
        history.push(file);
        Tab { content: TabContent::File(file.to_owned()), history }
    }

    /// A tab that shows the given markdown text and has visited nothing.
    pub fn with_inline_content(content: &str) -> (tab: Self)
        ensures
            tab.wf(),
            tab@ == (TabView { content: TabContentView::Inline(content@), history: empty_tab().history }),
    {
        let tab = Tab {
            content: TabContent::Inline(content.to_owned()),
            history: HistoryManager::new(),
        };
        proof {
            assert(tab@.history.entries =~= Seq::<Seq<char>>::empty());
        }
        tab
    }

    /// The path of the file shown, also where it could not be opened.
    pub fn file(&self) -> (file: Option<&str>)
        ensures
            crate::history::shows(file, content_file(self@.content)),
    {
        match &self.content {
            TabContent::File(path) => Some(path.as_str()),
            TabContent::FileError(path, _) => Some(path.as_str()),
            _ => None,
        }
    }

    /// Whether the tab shows no file: nothing, inline text, or a file error.
    pub fn is_no_file(&self) -> (no_file: bool)
        ensures
            no_file == content_is_no_file(self@.content),
    {
        match &self.content {
            TabContent::Empty => true,
            TabContent::Inline(_) => true,
            TabContent::FileError(_, _) => true,
            _ => false,
        }
    }

    /// Shows `file` in this tab and records the visit.
    pub fn navigate_to(&mut self, file: &str)
        requires
            old(self).wf(),
        ensures
            final(self).wf(),
            final(self)@ == tab_navigate(old(self)@, file@),
    {
        self.history.push(file);
        self.content = TabContent::File(file.to_owned());
    }

    /// The label of the tab: the file's name, or a fixed word for the other
    /// kinds of content.
    pub fn display_name(&self) -> (name: String)
        ensures
            name@ == content_display_name(self@.content),
    {
        match &self.content {
            TabContent::File(path) => file_name_or(path.as_str(), "Unnamed file"),
            TabContent::FileError(path, _) => file_name_or(path.as_str(), "Unnamed file"),
            TabContent::Inline(_) => "Welcome".to_owned(),
            TabContent::Preferences => "Preferences".to_owned(),
            TabContent::Empty => "No file".to_owned(),
        }
    }

    /// Whether both tabs show the same content and have the same history.
    pub fn same_as(&self, other: &Tab) -> (same: bool)
        ensures
            same == (self@ == other@),
    {
        self.content.same_as(&other.content) && self.history.same_as(&other.history)
    }
}

} // verus!
