//! The state of one window: its tabs, the active tab, the root directory, the
//! sidebar and the window's geometry.
//!
//! Every window owns one `AppState`. Windows never reach into each other's
//! state; what crosses from one window to another is a copy carried by a
//! message.

use crate::history::history_wf;
use crate::history::HistoryManager;
use crate::metrics::schedule_view;
use crate::metrics::DebouncedMetricsUpdater;
use crate::metrics::PendingMetricsWrite;
use crate::scan::first_true;
use crate::scan::lemma_first_true_is;
use crate::sidebar::toggled;
use crate::sidebar::Sidebar;
use crate::sidebar::SidebarView;
use crate::tabs::content_file;
use crate::tabs::content_is_no_file;
use crate::tabs::empty_tab;
use crate::tabs::tab_navigate;
use crate::tabs::Tab;
use crate::tabs::TabContent;
use crate::tabs::TabContentView;
use crate::tabs::TabView;
use crate::text::opt_text;
use crate::text::same_text;
use crate::theme::Theme;
use crate::window::Position;
use crate::window::Size;
use vstd::prelude::*;

verus! {

/// The state of a window as mathematics.
pub ghost struct AppStateView {
    pub tabs: Seq<TabView>,
    pub active_tab: int,
    pub current_theme: Theme,
    pub directory: Option<Seq<char>>,
    pub sidebar: SidebarView,
    pub position: Position,
    pub size: Size,
}

/// The views of a sequence of tabs.
pub open spec fn tab_views(tabs: Seq<Tab>) -> Seq<TabView> {
    Seq::new(tabs.len(), |i: int| tabs[i]@)
}

/// Every tab's history cursor is in range.
pub open spec fn histories_wf(s: AppStateView) -> bool {
    forall|i: int| 0 <= i < s.tabs.len() ==> history_wf((#[trigger] s.tabs[i]).history)
}

/// A window always has a tab, its active tab exists, and every tab's history
/// cursor is in range.
pub open spec fn state_wf(s: AppStateView) -> bool {
    &&& s.tabs.len() > 0
    &&& 0 <= s.active_tab < s.tabs.len()
    &&& histories_wf(s)
}

/// For each tab, whether it shows `file`, also where the file failed to open.
pub open spec fn shows_file(tabs: Seq<TabView>, file: Seq<char>) -> Seq<bool> {
    Seq::new(tabs.len(), |i: int| content_file(tabs[i].content) == Some(file))
}

/// For each tab, whether it shows the preferences.
pub open spec fn shows_preferences(tabs: Seq<TabView>) -> Seq<bool> {
    Seq::new(tabs.len(), |i: int| tabs[i].content is Preferences)
}

/// The position at which a tab is inserted when `index` is asked for: `index`,
/// or the end of the list where `index` lies beyond it.
pub open spec fn insert_position(s: AppStateView, index: int) -> int {
    if index < s.tabs.len() {
        index
    } else {
        s.tabs.len() as int
    }
}

/// The state after the tab at `index` was closed. The tabs behind it move up
/// by one; the active tab stays the same tab where it can, and becomes the
/// last tab where the active tab was closed at the end. A window never has
/// no tab: closing the only one leaves a single empty tab.
pub open spec fn state_close_tab(s: AppStateView, index: int) -> AppStateView {
    if !(0 <= index < s.tabs.len()) {
        s
    } else {
        let tabs = s.tabs.remove(index);
        if tabs.len() == 0 {
            AppStateView { tabs: seq![empty_tab()], active_tab: 0, ..s }
        } else if s.active_tab > index {
            AppStateView { tabs, active_tab: s.active_tab - 1, ..s }
        } else if s.active_tab == index && s.active_tab >= tabs.len() {
            AppStateView { tabs, active_tab: tabs.len() - 1, ..s }
        } else {
            AppStateView { tabs, ..s }
        }
    }
}

/// The state after `tab` was inserted at `index`, or at the end where `index`
/// lies beyond it. The active index is not touched.
pub open spec fn state_insert_tab(s: AppStateView, tab: TabView, index: int) -> AppStateView {
    AppStateView { tabs: s.tabs.insert(insert_position(s, index), tab), ..s }
}

/// The state after switching to the tab at `index`; unchanged where there is
/// no such tab.
pub open spec fn state_switch_to_tab(s: AppStateView, index: int) -> AppStateView {
    if 0 <= index < s.tabs.len() {
        AppStateView { active_tab: index, ..s }
    } else {
        s
    }
}

/// The state after `tab` was added at the end, and made active if asked.
pub open spec fn state_add_tab(s: AppStateView, tab: TabView, switch_to: bool) -> AppStateView {
    let added = state_insert_tab(s, tab, s.tabs.len() as int);
    if switch_to {
        state_switch_to_tab(added, s.tabs.len() as int)
    } else {
        added
    }
}

/// The state after the active tab was replaced by `tab`; unchanged where the
/// active index names no tab.
pub open spec fn state_update_current_tab(s: AppStateView, tab: TabView) -> AppStateView {
    if 0 <= s.active_tab < s.tabs.len() {
        AppStateView { tabs: s.tabs.update(s.active_tab, tab), ..s }
    } else {
        s
    }
}

/// Whether the active tab exists and shows no file.
pub open spec fn current_is_no_file(s: AppStateView) -> bool {
    0 <= s.active_tab < s.tabs.len() && content_is_no_file(s.tabs[s.active_tab].content)
}

/// The state after the active tab navigated to `file`.
pub open spec fn state_navigate_to_file(s: AppStateView, file: Seq<char>) -> AppStateView {
    if 0 <= s.active_tab < s.tabs.len() {
        state_update_current_tab(s, tab_navigate(s.tabs[s.active_tab], file))
    } else {
        s
    }
}

/// The state after `file` was opened: the first tab that already shows it
/// becomes active; failing that, an active tab that shows no file navigates
/// to it; failing that, a new tab for it is added and made active.
pub open spec fn state_open_file(s: AppStateView, file: Seq<char>) -> AppStateView {
    let found = first_true(shows_file(s.tabs, file));
    if found < s.tabs.len() {
        state_switch_to_tab(s, found)
    } else if current_is_no_file(s) {
        state_navigate_to_file(s, file)
    } else {
        state_add_tab(s, tab_navigate(empty_tab(), file), true)
    }
}

/// The state after the preferences were opened: the first tab that already
/// shows them becomes active; failing that, an active tab that shows no file
/// shows them instead; failing that, a new tab for them is added and made
/// active.
pub open spec fn state_open_preferences(s: AppStateView) -> AppStateView {
    let found = first_true(shows_preferences(s.tabs));
    if found < s.tabs.len() {
        state_switch_to_tab(s, found)
    } else if current_is_no_file(s) {
        state_update_current_tab(
            s,
            TabView { content: TabContentView::Preferences, history: s.tabs[s.active_tab].history },
        )
    } else {
        AppStateView {
            tabs: s.tabs.push(
                TabView { content: TabContentView::Preferences, history: empty_tab().history },
            ),
            active_tab: s.tabs.len() as int,
            ..s
        }
    }
}

/// The state after `path` became the root directory: nothing is expanded any
/// more.
pub open spec fn state_set_root_directory(s: AppStateView, path: Seq<char>) -> AppStateView {
    AppStateView {
        directory: Some(path),
        sidebar: SidebarView { expanded_dirs: Set::empty(), ..s.sidebar },
        ..s
    }
}

/// Per-window application state.
#[derive(Debug, PartialEq)]
pub struct AppState {
    pub tabs: Vec<Tab>,
    pub active_tab: usize,
    pub current_theme: Theme,
    pub directory: Option<String>,
    pub sidebar: Sidebar,
    pub position: Position,
    pub size: Size,
}

impl View for AppState {
    type V = AppStateView;

    open spec fn view(&self) -> AppStateView {
        AppStateView {
            tabs: tab_views(self.tabs@),
            active_tab: self.active_tab as int,
            current_theme: self.current_theme,
            directory: opt_text(self.directory),
            sidebar: self.sidebar@,
            position: self.position,
            size: self.size,
        }
    }
}

impl Clone for AppState {
    /// An independent copy of the whole state.
    fn clone(&self) -> (copy: Self)
        ensures
            copy@ == self@,
    {
        let mut tabs: Vec<Tab> = Vec::new();
        let mut i: usize = 0;
        while i < self.tabs.len()
            invariant
                i <= self.tabs.len(),
                tabs@.len() == i,
                forall|j: int| 0 <= j < i ==> (#[trigger] tabs@[j])@ == self.tabs@[j]@,
            decreases self.tabs.len() - i,
        {
            tabs.push(self.tabs[i].clone());
            i += 1;
        }
        let copy = AppState {
            tabs,
            active_tab: self.active_tab,
            current_theme: self.current_theme,
            directory: match &self.directory {
                Some(directory) => Some(directory.clone()),
                None => None,
            },
            sidebar: self.sidebar.clone(),
            position: self.position,
            size: self.size,
        };
        proof {
            assert(copy@.tabs =~= self@.tabs);
        }
        copy
    }
}

impl Default for AppState {
    /// A window with one empty tab that follows the system theme.
    fn default() -> (state: Self)
        ensures
            state.wf(),
            state@.tabs == seq![empty_tab()],
            state@.active_tab == 0,
            state@.current_theme == Theme::Auto,
            state@.directory is None,
    {
        AppState::with_theme(Theme::Auto)
    }
}

impl AppState {
    /// A window always has a tab, its active tab exists, and every tab's
    /// history cursor is in range.
    pub open spec fn wf(&self) -> bool {
        state_wf(self@)
    }

    /// A window with one empty tab, no root directory, a closed sidebar and
    /// the given theme.
    pub fn with_theme(theme: Theme) -> (state: Self)
        ensures
            state.wf(),
            state@.tabs == seq![empty_tab()],
            state@.active_tab == 0,
            state@.current_theme == theme,
            state@.directory is None,
            state@.sidebar == Sidebar::default_view(),
            state@.position == (Position { x: 0, y: 0 }),
            state@.size == (Size { width: 0, height: 0 }),
    {
        let mut tabs: Vec<Tab> = Vec::new();
        tabs.push(Tab::default());
        let state = AppState {
            tabs,
            active_tab: 0,
            current_theme: theme,
            directory: None,
            sidebar: Sidebar::default(),
            position: Position { x: 0, y: 0 },
            size: Size { width: 0, height: 0 },
        };
        proof {
            assert(state@.tabs =~= seq![empty_tab()]);
        }
        state
    }

    /// Whether the state is well formed; a shell that fills the public fields
    /// itself can test this before it calls a method that demands it.
    pub fn is_well_formed(&self) -> (ok: bool)
        ensures
            ok ==> self.wf(),
            self.wf() ==> ok,
    {
        if self.tabs.len() == 0 || self.active_tab >= self.tabs.len() {
            return false;
        }
        let mut i: usize = 0;
        while i < self.tabs.len()
            invariant
                i <= self.tabs.len(),
                forall|j: int| 0 <= j < i ==> history_wf((#[trigger] self@.tabs[j]).history),
            decreases self.tabs.len() - i,
        {
            if !self.tabs[i].history.is_well_formed() {
                proof {
                    assert(!history_wf(self@.tabs[i as int].history));
                }
                return false;
            }
            i += 1;
        }
        true
    }

    /// Whether every tab's history cursor is in range, which is all that the
    /// methods that navigate demand.
    pub fn has_valid_histories(&self) -> (ok: bool)
        ensures
            ok == histories_wf(self@),
    {
        let mut i: usize = 0;
        while i < self.tabs.len()
            invariant
                i <= self.tabs.len(),
                forall|j: int| 0 <= j < i ==> history_wf((#[trigger] self@.tabs[j]).history),
            decreases self.tabs.len() - i,
        {
            if !self.tabs[i].history.is_well_formed() {
                proof {
                    assert(!history_wf(self@.tabs[i as int].history));
                }
                return false;
            }
            i += 1;
        }
        true
    }

    /// Sets the root directory and collapses the file explorer.
    pub fn set_root_directory(&mut self, path: &str)
        ensures
            final(self)@ == state_set_root_directory(old(self)@, path@),
    {
        self.directory = Some(path.to_owned());
        self.sidebar.collapse_all();
    }

    /// Shows the sidebar if it is hidden and hides it if it is shown.
    /// Returns whether it is shown now.
    pub fn toggle_sidebar(&mut self) -> (open: bool)
        ensures
            open == !old(self)@.sidebar.open,
            final(self)@ == (AppStateView {
                sidebar: SidebarView { open, ..old(self)@.sidebar },
                ..old(self)@
            }),
    {
        self.sidebar.open = !self.sidebar.open;
        self.sidebar.open
    }

    /// Expands or collapses a directory in the file explorer.
    pub fn toggle_directory_expansion(&mut self, path: &str)
        ensures
            final(self)@ == (AppStateView {
                sidebar: SidebarView {
                    expanded_dirs: toggled(old(self)@.sidebar.expanded_dirs, path@),
                    ..old(self)@.sidebar
                },
                ..old(self)@
            }),
    {
        self.sidebar.toggle_expansion(path);
    }

    /// A deep copy of the tab at `index`, if there is one. The window keeps
    /// its tab.
    pub fn get_tab(&self, index: usize) -> (tab: Option<Tab>)
        ensures
            match tab {
                Some(t) => index < self@.tabs.len() && t@ == self@.tabs[index as int],
                None => index >= self@.tabs.len(),
            },
    {
        if index < self.tabs.len() {
            Some(self.tabs[index].clone())
        } else {
            None
        }
    }

    /// A deep copy of the active tab.
    pub fn current_tab(&self) -> (tab: Option<Tab>)
        ensures
            match tab {
                Some(t) => self@.active_tab < self@.tabs.len() && t@
                    == self@.tabs[self@.active_tab],
                None => self@.active_tab >= self@.tabs.len(),
            },
    {
        self.get_tab(self.active_tab)
    }

    /// Replaces the active tab by `tab`.
    pub fn update_current_tab(&mut self, tab: Tab)
        ensures
            final(self)@ == state_update_current_tab(old(self)@, tab@),
            histories_wf(old(self)@) && tab.wf() ==> histories_wf(final(self)@),
            old(self).wf() && tab.wf() ==> final(self).wf(),
    {
        if self.active_tab < self.tabs.len() {
            let ghost before = self@;
            let ghost shown = tab@;
            self.tabs[self.active_tab] = tab;
            proof {
                assert(self@.tabs =~= before.tabs.update(before.active_tab, shown));
            }
        }
    }

    /// Closes the tab at `index` and returns `true`; returns `false`, with
    /// nothing changed, where there is no such tab. Where the last tab is
    /// closed, an empty tab takes its place to keep the window open.
    pub fn close_tab(&mut self, index: usize) -> (closed: bool)
        ensures
            closed == (index < old(self)@.tabs.len()),
            final(self)@ == state_close_tab(old(self)@, index as int),
            histories_wf(old(self)@) ==> histories_wf(final(self)@),
            old(self).wf() ==> final(self).wf(),
    {
        if index >= self.tabs.len() {
            return false;
        }
        let ghost before = self@;
        self.tabs.remove(index);
        proof {
            assert(self@.tabs =~= before.tabs.remove(index as int));
        }
        let current_active = self.active_tab;
        let new_active = if current_active > index {
            current_active - 1
        } else if current_active == index && current_active >= self.tabs.len() {
            self.tabs.len().saturating_sub(1)
        } else {
            current_active
        };
        if new_active != current_active && !self.tabs.is_empty() {
            self.active_tab = new_active;
        }
        if self.tabs.is_empty() {
            self.tabs.push(Tab::default());
            self.active_tab = 0;
            proof {
                assert(self@.tabs =~= seq![empty_tab()]);
            }
        }
        true
    }

    /// Inserts `tab` at `index`, or at the end where `index` lies beyond it,
    /// and returns the position it was inserted at.
    pub fn insert_tab(&mut self, tab: Tab, index: usize) -> (inserted_at: usize)
        ensures
            inserted_at == insert_position(old(self)@, index as int),
            final(self)@ == state_insert_tab(old(self)@, tab@, index as int),
            histories_wf(old(self)@) && tab.wf() ==> histories_wf(final(self)@),
            old(self).wf() && tab.wf() ==> final(self).wf(),
    {
        let ghost before = self@;
        let ghost shown = tab@;
        let insert_index = if index < self.tabs.len() {
            index
        } else {
            self.tabs.len()
        };
        self.tabs.insert(insert_index, tab);
        proof {
            assert(self@.tabs =~= before.tabs.insert(insert_index as int, shown));
            if state_wf(before) && history_wf(shown.history) {
                assert forall|i: int| 0 <= i < self@.tabs.len() implies history_wf(
                    (#[trigger] self@.tabs[i]).history,
                ) by {
                    if i < insert_index {
                        assert(self@.tabs[i] == before.tabs[i]);
                    } else if i > insert_index {
                        assert(self@.tabs[i] == before.tabs[i - 1]);
                    }
                }
            }
        }
        insert_index
    }

    /// Adds `tab` at the end, makes it active if asked, and returns its
    /// position.
    pub fn add_tab(&mut self, tab: Tab, switch_to: bool) -> (index: usize)
        ensures
            index == old(self)@.tabs.len(),
            final(self)@ == state_add_tab(old(self)@, tab@, switch_to),
            histories_wf(old(self)@) && tab.wf() ==> histories_wf(final(self)@),
            old(self).wf() && tab.wf() ==> final(self).wf(),
    {
        let tabs_len = self.tabs.len();
        let index = self.insert_tab(tab, tabs_len);
        if switch_to {
            self.switch_to_tab(index);
        }
        index
    }

    /// Adds a tab for `file` at the end and returns its position.
    pub fn add_file_tab(&mut self, file: &str, switch_to: bool) -> (index: usize)
        ensures
            index == old(self)@.tabs.len(),
            final(self)@ == state_add_tab(
                old(self)@,
                tab_navigate(empty_tab(), file@),
                switch_to,
            ),
            histories_wf(old(self)@) ==> histories_wf(final(self)@),
            old(self).wf() ==> final(self).wf(),
    {
        self.add_tab(Tab::new(file), switch_to)
    }

    /// Adds an empty tab at the end and returns its position.
    pub fn add_empty_tab(&mut self, switch_to: bool) -> (index: usize)
        ensures
            index == old(self)@.tabs.len(),
            final(self)@ == state_add_tab(old(self)@, empty_tab(), switch_to),
            histories_wf(old(self)@) ==> histories_wf(final(self)@),
            old(self).wf() ==> final(self).wf(),
    {
        self.add_tab(Tab::default(), switch_to)
    }

    /// Makes the tab at `index` the active one; does nothing where there is no
    /// such tab.
    pub fn switch_to_tab(&mut self, index: usize)
        ensures
            final(self)@ == state_switch_to_tab(old(self)@, index as int),
            histories_wf(old(self)@) ==> histories_wf(final(self)@),
            old(self).wf() ==> final(self).wf(),
    {
        if index < self.tabs.len() {
            self.active_tab = index;
        }
    }

    /// Whether the active tab shows no file, so that a file may be opened in
    /// its place.
    pub fn is_current_tab_no_file(&self) -> (no_file: bool)
        ensures
            no_file == current_is_no_file(self@),
    {
        if self.active_tab < self.tabs.len() {
            self.tabs[self.active_tab].is_no_file()
        } else {
            false
        }
    }

    /// The position of the first tab that shows `file`.
    pub fn find_tab_with_file(&self, file: &str) -> (found: Option<usize>)
        ensures
            match found {
                Some(i) => i < self@.tabs.len() && i == first_true(shows_file(self@.tabs, file@)),
                None => first_true(shows_file(self@.tabs, file@)) == self@.tabs.len(),
            },
    {
        let ghost flags = shows_file(self@.tabs, file@);
        let mut i: usize = 0;
        while i < self.tabs.len()
            invariant
                i <= self.tabs.len(),
                flags == shows_file(self@.tabs, file@),
                forall|j: int| 0 <= j < i ==> !flags[j],
            decreases self.tabs.len() - i,
        {
            let shown = match self.tabs[i].file() {
                Some(path) => same_text(path, file),
                None => false,
            };
            if shown {
                proof {
                    lemma_first_true_is(flags, i as int);
                }
                return Some(i);
            }
            i += 1;
        }
        proof {
            lemma_first_true_is(flags, self.tabs.len() as int);
        }
        None
    }

    /// The position of the first tab that shows the preferences.
    pub fn find_preferences_tab(&self) -> (found: Option<usize>)
        ensures
            match found {
                Some(i) => i < self@.tabs.len() && i == first_true(shows_preferences(self@.tabs)),
                None => first_true(shows_preferences(self@.tabs)) == self@.tabs.len(),
            },
    {
        let ghost flags = shows_preferences(self@.tabs);
        let mut i: usize = 0;
        while i < self.tabs.len()
            invariant
                i <= self.tabs.len(),
                flags == shows_preferences(self@.tabs),
                forall|j: int| 0 <= j < i ==> !flags[j],
            decreases self.tabs.len() - i,
        {
            let is_preferences = match &self.tabs[i].content {
                TabContent::Preferences => true,
                _ => false,
            };
            if is_preferences {
                proof {
                    lemma_first_true_is(flags, i as int);
                }
                return Some(i);
            }
            i += 1;
        }
        proof {
            lemma_first_true_is(flags, self.tabs.len() as int);
        }
        None
    }

    /// Opens `file`, reusing a tab that already shows it, or else the active
    /// tab if that shows no file, or else a new tab.
    pub fn open_file(&mut self, file: &str)
        requires
            histories_wf(old(self)@),
        ensures
            final(self)@ == state_open_file(old(self)@, file@),
            histories_wf(final(self)@),
            old(self).wf() ==> final(self).wf(),
    {
        match self.find_tab_with_file(file) {
            Some(tab_index) => {
                self.switch_to_tab(tab_index);
            },
            None => {
                if self.is_current_tab_no_file() {
                    self.navigate_to_file(file);
                } else {
                    self.add_file_tab(file, true);
                }
            },
        }
    }

    /// Shows `file` in the active tab, whether or not another tab shows it
    /// already.
    pub fn navigate_to_file(&mut self, file: &str)
        requires
            histories_wf(old(self)@),
        ensures
            final(self)@ == state_navigate_to_file(old(self)@, file@),
            histories_wf(final(self)@),
            old(self).wf() ==> final(self).wf(),
    {
        let ghost before = self@;
        if self.active_tab < self.tabs.len() {
            assert(history_wf(before.tabs[before.active_tab].history));
            self.tabs[self.active_tab].navigate_to(file);
            proof {
                assert(self@.tabs =~= before.tabs.update(
                    before.active_tab,
                    tab_navigate(before.tabs[before.active_tab], file@),
                ));
                assert forall|i: int| 0 <= i < self@.tabs.len() implies history_wf(
                    (#[trigger] self@.tabs[i]).history,
                ) by {
                    if i != before.active_tab {
                        assert(self@.tabs[i] == before.tabs[i]);
                    }
                }
            }
        }
    }

    /// Opens the preferences, reusing a tab that already shows them, or else
    /// the active tab if that shows no file, or else a new tab.
    pub fn open_preferences(&mut self)
        ensures
            final(self)@ == state_open_preferences(old(self)@),
            histories_wf(old(self)@) ==> histories_wf(final(self)@),
            old(self).wf() ==> final(self).wf(),
    {
        let ghost before = self@;
        if let Some(index) = self.find_preferences_tab() {
            self.switch_to_tab(index);
            return ;
        }
        if self.is_current_tab_no_file() {
            self.tabs[self.active_tab].content = TabContent::Preferences;
            proof {
                assert(self@.tabs =~= before.tabs.update(
                    before.active_tab,
                    TabView {
                        content: TabContentView::Preferences,
                        history: before.tabs[before.active_tab].history,
                    },
                ));
                if histories_wf(before) {
                    assert forall|i: int| 0 <= i < self@.tabs.len() implies history_wf(
                        (#[trigger] self@.tabs[i]).history,
                    ) by {
                        assert(self@.tabs[i].history == before.tabs[i].history);
                    }
                }
            }
        } else {
            let tab = Tab { content: TabContent::Preferences, history: HistoryManager::new() };
            proof {
                assert(tab@.history.entries =~= Seq::<Seq<char>>::empty());
            }
            let ghost shown = tab@;
            self.tabs.push(tab);
            let new_index = self.tabs.len() - 1;
            self.active_tab = new_index;
            proof {
                assert(self@.tabs =~= before.tabs.push(shown));
                if histories_wf(before) {
                    assert forall|i: int| 0 <= i < self@.tabs.len() implies history_wf(
                        (#[trigger] self@.tabs[i]).history,
                    ) by {
                        if i < before.tabs.len() {
                            assert(self@.tabs[i] == before.tabs[i]);
                        }
                    }
                }
            }
        }
    }

    /// Takes over the position and size that the window reports, where it
    /// reports them, and schedules a debounced write of the window's metrics
    /// if either was reported. Returns the scheduled write for the timer to
    /// carry.
    pub fn sync_window_metrics(
        &mut self,
        position: Option<Position>,
        size: Option<Size>,
        debounced_metrics: &mut DebouncedMetricsUpdater,
    ) -> (scheduled: Option<PendingMetricsWrite>)
        ensures
            final(self)@ == (AppStateView {
                position: match position {
                    Some(p) => p,
                    None => old(self)@.position,
                },
                size: match size {
                    Some(s) => s,
                    None => old(self)@.size,
                },
                ..old(self)@
            }),
            position is None && size is None ==> scheduled is None && final(debounced_metrics)@
                == old(debounced_metrics)@,
            position is Some || size is Some ==> scheduled is Some && final(debounced_metrics)@
                == schedule_view(
                old(debounced_metrics)@,
                final(self)@.position,
                final(self)@.size,
            ) && scheduled.unwrap().token == final(debounced_metrics)@.token
                && scheduled.unwrap().window_position == final(self)@.position
                && scheduled.unwrap().window_size == final(self)@.size,
    {
        if let Some(p) = position {
            self.position = p;
        }
        if let Some(s) = size {
            self.size = s;
        }
        if position.is_some() || size.is_some() {
            Some(debounced_metrics.schedule(self.position, self.size))
        } else {
            None
        }
    }
}

} // verus!
