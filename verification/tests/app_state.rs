use arto::app_state::AppState;
use arto::tabs::{Tab, TabContent};
use arto::theme::Theme;

fn window_with(files: &[&str]) -> AppState {
    let mut state = AppState::default();
    for (i, file) in files.iter().enumerate() {
        if i == 0 {
            state.open_file(file);
        } else {
            state.add_file_tab(file, false);
        }
    }
    state
}

fn files_of(state: &AppState) -> Vec<Option<String>> {
    state.tabs.iter().map(|tab| tab.file().map(String::from)).collect()
}

fn some(files: &[&str]) -> Vec<Option<String>> {
    files.iter().map(|f| Some(String::from(*f))).collect()
}

#[test]
fn new_window_has_one_empty_tab() {
    let state = AppState::default();
    assert_eq!(state.tabs, vec![Tab::default()]);
    assert_eq!(state.active_tab, 0);
    assert_eq!(state.current_theme, Theme::Auto);
    assert_eq!(state.directory, None);
    assert!(!state.sidebar.open);
    assert!(state.is_well_formed());
    assert_eq!(AppState::with_theme(Theme::Dark).current_theme, Theme::Dark);
}

#[test]
fn close_tab_before_the_active_one_keeps_the_active_tab() {
    let mut state = window_with(&["/a", "/b", "/c"]);
    state.switch_to_tab(2);
    assert!(state.close_tab(0));
    assert_eq!(files_of(&state), some(&["/b", "/c"]));
    assert_eq!(state.active_tab, 1);
}

#[test]
fn close_tab_behind_the_active_one_keeps_the_index() {
    let mut state = window_with(&["/a", "/b", "/c"]);
    state.switch_to_tab(0);
    assert!(state.close_tab(2));
    assert_eq!(files_of(&state), some(&["/a", "/b"]));
    assert_eq!(state.active_tab, 0);
}

#[test]
fn close_active_tab_in_the_middle_activates_its_successor() {
    let mut state = window_with(&["/a", "/b", "/c"]);
    state.switch_to_tab(1);
    assert!(state.close_tab(1));
    assert_eq!(files_of(&state), some(&["/a", "/c"]));
    assert_eq!(state.active_tab, 1);
}

#[test]
fn close_active_tab_at_the_end_activates_the_new_last() {
    let mut state = window_with(&["/a", "/b", "/c"]);
    state.switch_to_tab(2);
    assert!(state.close_tab(2));
    assert_eq!(files_of(&state), some(&["/a", "/b"]));
    assert_eq!(state.active_tab, 1);
}

#[test]
fn close_last_remaining_tab_leaves_an_empty_tab() {
    let mut state = window_with(&["/a"]);
    assert!(state.close_tab(0));
    assert_eq!(state.tabs, vec![Tab::default()]);
    assert_eq!(state.active_tab, 0);
    assert!(state.is_well_formed());
}

#[test]
fn close_tab_with_bad_index_does_nothing() {
    let mut state = window_with(&["/a", "/b"]);
    let before = state.clone();
    assert!(!state.close_tab(2));
    assert!(!state.close_tab(usize::MAX));
    assert_eq!(state, before);
}

#[test]
fn insert_tab_clamps_the_index() {
    let mut state = window_with(&["/a", "/b"]);
    assert_eq!(state.insert_tab(Tab::new("/c"), 1), 1);
    assert_eq!(state.insert_tab(Tab::new("/d"), 100), 3);
    assert_eq!(state.insert_tab(Tab::new("/e"), 0), 0);
    assert_eq!(files_of(&state), some(&["/e", "/a", "/c", "/b", "/d"]));
    assert_eq!(state.active_tab, 0);
}

#[test]
fn add_tab_switches_only_when_asked() {
    let mut state = window_with(&["/a"]);
    assert_eq!(state.add_tab(Tab::new("/b"), false), 1);
    assert_eq!(state.active_tab, 0);
    assert_eq!(state.add_file_tab("/c", true), 2);
    assert_eq!(state.active_tab, 2);
    assert_eq!(state.add_empty_tab(true), 3);
    assert_eq!(state.active_tab, 3);
    assert_eq!(state.tabs[3], Tab::default());
    assert!(state.is_current_tab_no_file());
}

#[test]
fn switch_to_missing_tab_is_ignored() {
    let mut state = window_with(&["/a", "/b"]);
    state.switch_to_tab(1);
    state.switch_to_tab(2);
    assert_eq!(state.active_tab, 1);
}

#[test]
fn get_tab_and_current_tab_hand_out_copies() {
    let mut state = window_with(&["/a", "/b"]);
    state.switch_to_tab(1);
    assert_eq!(state.get_tab(0), Some(Tab::new("/a")));
    assert_eq!(state.get_tab(2), None);
    let mut copy = state.current_tab().unwrap();
    copy.navigate_to("/z");
    assert_eq!(state.current_tab(), Some(Tab::new("/b")));
    state.update_current_tab(copy.clone());
    assert_eq!(state.current_tab(), Some(copy));
    assert_eq!(files_of(&state), some(&["/a", "/z"]));
}

#[test]
fn find_tab_with_file_returns_the_first() {
    let mut state = window_with(&["/a", "/b", "/a"]);
    state.tabs[1].content = TabContent::FileError(String::from("/e"), String::from("bad"));
    assert_eq!(state.find_tab_with_file("/a"), Some(0));
    assert_eq!(state.find_tab_with_file("/e"), Some(1));
    assert_eq!(state.find_tab_with_file("/b"), None);
}

#[test]
fn open_file_reuses_a_tab_that_shows_it() {
    let mut state = window_with(&["/a", "/b"]);
    state.open_file("/b");
    assert_eq!(state.tabs.len(), 2);
    assert_eq!(state.active_tab, 1);
}

#[test]
fn open_file_fills_an_empty_active_tab() {
    let mut state = AppState::default();
    state.open_file("/a");
    assert_eq!(state.tabs, vec![Tab::new("/a")]);
    assert_eq!(state.active_tab, 0);
}

#[test]
fn open_file_adds_a_tab_otherwise() {
    let mut state = window_with(&["/a"]);
    state.open_file("/b");
    assert_eq!(files_of(&state), some(&["/a", "/b"]));
    assert_eq!(state.active_tab, 1);
}

#[test]
fn navigate_to_file_stays_in_the_active_tab() {
    let mut state = window_with(&["/a", "/b"]);
    state.navigate_to_file("/b");
    assert_eq!(files_of(&state), some(&["/b", "/b"]));
    assert_eq!(state.active_tab, 0);
    assert_eq!(state.tabs[0].history.len(), 2);
}

#[test]
fn open_preferences_reuses_or_adds() {
    let mut state = AppState::default();
    state.open_preferences();
    assert_eq!(state.tabs.len(), 1);
    assert_eq!(state.tabs[0].content, TabContent::Preferences);

    state.add_file_tab("/a", true);
    state.open_preferences();
    assert_eq!(state.tabs.len(), 2);
    assert_eq!(state.active_tab, 0);

    let mut other = window_with(&["/a"]);
    other.open_preferences();
    assert_eq!(other.tabs.len(), 2);
    assert_eq!(other.tabs[1].content, TabContent::Preferences);
    assert_eq!(other.active_tab, 1);
    assert!(other.tabs[1].history.is_empty());
    assert_eq!(other.find_preferences_tab(), Some(1));
}

#[test]
fn open_preferences_keeps_the_history_of_a_reused_tab() {
    let mut state = window_with(&["/a"]);
    state.tabs[0].content = TabContent::FileError(String::from("/a"), String::from("bad"));
    state.open_preferences();
    assert_eq!(state.tabs.len(), 1);
    assert_eq!(state.tabs[0].content, TabContent::Preferences);
    assert_eq!(state.tabs[0].history.len(), 1);
}

#[test]
fn set_root_directory_collapses_the_explorer() {
    let mut state = AppState::default();
    state.toggle_directory_expansion("/root/a");
    state.toggle_directory_expansion("/root/b");
    state.toggle_directory_expansion("/root/a");
    assert!(state.sidebar.is_expanded("/root/b"));
    assert!(!state.sidebar.is_expanded("/root/a"));
    state.set_root_directory("/other");
    assert_eq!(state.directory, Some(String::from("/other")));
    assert!(state.sidebar.expanded_dirs.is_empty());
}

#[test]
fn toggle_sidebar_flips_and_reports() {
    let mut state = AppState::default();
    assert!(state.toggle_sidebar());
    assert!(state.sidebar.open);
    assert!(!state.toggle_sidebar());
    assert!(!state.sidebar.open);
}

#[test]
fn ill_formed_states_are_told_apart() {
    let mut state = window_with(&["/a"]);
    state.active_tab = 1;
    assert!(!state.is_well_formed());
    state.active_tab = 0;
    state.tabs.clear();
    assert!(!state.is_well_formed());
}

#[test]
fn opening_needs_histories_in_range_only() {
    // The active index names no tab: the state is not well formed, but every
    // history is in range, and files and preferences can still be opened.
    let mut state = window_with(&["/a"]);
    state.active_tab = 5;
    assert!(!state.is_well_formed());
    assert!(state.has_valid_histories());
    state.navigate_to_file("/ignored");
    assert_eq!(files_of(&state), some(&["/a"]));
    state.open_file("/b");
    assert_eq!(files_of(&state), some(&["/a", "/b"]));
    assert_eq!(state.active_tab, 1);
    state.active_tab = 9;
    state.open_preferences();
    assert_eq!(state.tabs.len(), 3);
    assert_eq!(state.tabs[2].content, TabContent::Preferences);
    assert_eq!(state.active_tab, 2);
    assert!(state.is_well_formed());

    let mut empty = AppState::default();
    empty.tabs.clear();
    assert!(empty.has_valid_histories());
    empty.open_file("/a");
    assert_eq!(files_of(&empty), some(&["/a"]));
    assert_eq!(empty.active_tab, 0);
}
