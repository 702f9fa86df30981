use arto::sidebar::Sidebar;

#[test]
fn test_sidebar_default() {
    let sidebar = Sidebar::default();

    assert!(!sidebar.open);
    assert!(!sidebar.show_all_files);
    assert!(sidebar.expanded_dirs.is_empty());
}

#[test]
fn test_sidebar_toggle_expansion() {
    let mut sidebar = Sidebar::default();
    let path = String::from("/test/dir");

    // Initially empty
    assert!(!sidebar.expanded_dirs.contains(&path));

    // First toggle - expands
    sidebar.toggle_expansion(&path);
    assert!(sidebar.expanded_dirs.contains(&path));

    // Second toggle - collapses
    sidebar.toggle_expansion(&path);
    assert!(!sidebar.expanded_dirs.contains(&path));
}

#[test]
fn test_sidebar_toggle_multiple_paths() {
    let mut sidebar = Sidebar::default();
    let path1 = String::from("/test/dir1");
    let path2 = String::from("/test/dir2");

    sidebar.toggle_expansion(&path1);
    sidebar.toggle_expansion(&path2);

    assert!(sidebar.expanded_dirs.contains(&path1));
    assert!(sidebar.expanded_dirs.contains(&path2));

    sidebar.toggle_expansion(&path1);

    assert!(!sidebar.expanded_dirs.contains(&path1));
    assert!(sidebar.expanded_dirs.contains(&path2));
}

#[test]
fn sidebar_starts_closed_and_collapsed() {
    let sidebar = Sidebar::default();
    assert!(!sidebar.open);
    assert!(!sidebar.show_all_files);
    assert!(sidebar.expanded_dirs.is_empty());
    assert!(!sidebar.is_expanded("/anything"));
}

#[test]
fn toggle_removes_every_copy_of_a_directory() {
    let mut sidebar = Sidebar::default();
    sidebar.expanded_dirs = vec![String::from("/a"), String::from("/b"), String::from("/a")];
    assert!(sidebar.is_expanded("/a"));
    sidebar.toggle_expansion("/a");
    assert!(!sidebar.is_expanded("/a"));
    assert!(sidebar.is_expanded("/b"));
    assert_eq!(sidebar.expanded_dirs, vec![String::from("/b")]);
}

#[test]
fn collapse_all_keeps_the_other_settings() {
    let mut sidebar = Sidebar::default();
    sidebar.open = true;
    sidebar.show_all_files = true;
    sidebar.toggle_expansion("/a");
    sidebar.toggle_expansion("/b");
    let copy = sidebar.clone();
    sidebar.collapse_all();
    assert!(sidebar.expanded_dirs.is_empty());
    assert!(sidebar.open);
    assert!(sidebar.show_all_files);
    assert!(copy.is_expanded("/a"));
    assert!(copy.is_expanded("/b"));
}
