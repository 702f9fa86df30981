use arto::tabs::{Tab, TabContent};

#[test]
fn test_tab_empty() {
    let tab = Tab::default();
    assert_eq!(tab.content, TabContent::Empty);
    assert!(tab.is_no_file());
}

#[test]
fn test_tab_new_with_file() {
    let path = String::from("/test/file.md");
    let tab = Tab::new(&path);

    assert_eq!(tab.content, TabContent::File(path.clone()));
    assert_eq!(tab.file(), Some(path.as_str()));
    assert!(!tab.is_no_file());
}

#[test]
fn test_tab_with_inline_content() {
    let content = "# Welcome".to_string();
    let tab = Tab::with_inline_content(&content);

    assert_eq!(tab.content, TabContent::Inline(content));
    assert!(tab.is_no_file());
    assert_eq!(tab.file(), None);
}

#[test]
fn test_tab_is_no_file() {
    assert!(Tab::default().is_no_file());
    assert!(Tab::with_inline_content("test").is_no_file());

    let tab = Tab {
        content: TabContent::FileError(String::from("/test"), "error".to_string()),
        ..Default::default()
    };
    assert!(tab.is_no_file());

    let tab = Tab {
        content: TabContent::File(String::from("/test")),
        ..Default::default()
    };
    assert!(!tab.is_no_file());

    let tab = Tab {
        content: TabContent::Preferences,
        ..Default::default()
    };
    assert!(!tab.is_no_file());
}

#[test]
fn test_tab_navigate_to() {
    let mut tab = Tab::default();
    let path = String::from("/test/file.md");

    tab.navigate_to(&path);

    assert_eq!(tab.content, TabContent::File(path.clone()));
    assert_eq!(tab.file(), Some(path.as_str()));
}

#[test]
fn test_tab_file() {
    let path = String::from("/test/file.md");

    let mut tab = Tab::new(&path);
    assert_eq!(tab.file(), Some(path.as_str()));

    tab.content = TabContent::FileError(path.clone(), "error".to_string());
    assert_eq!(tab.file(), Some(path.as_str()));

    tab.content = TabContent::Empty;
    assert_eq!(tab.file(), None);

    tab.content = TabContent::Inline("test".to_string());
    assert_eq!(tab.file(), None);

    tab.content = TabContent::Preferences;
    assert_eq!(tab.file(), None);
}

#[test]
fn test_tab_content_default() {
    assert_eq!(TabContent::default(), TabContent::Empty);
}

#[test]
fn test_tab_content_equality() {
    let path = String::from("/test/file.md");
    assert_eq!(TabContent::File(path.clone()), TabContent::File(path));
    assert_ne!(TabContent::Empty, TabContent::Preferences);
}

#[test]
fn new_tab_has_visited_its_file() {
    let tab = Tab::new("/docs/a.md");
    assert_eq!(tab.history.len(), 1);
    assert_eq!(tab.history.current(), Some("/docs/a.md"));
}

#[test]
fn navigation_is_recorded_in_the_history() {
    let mut tab = Tab::new("/docs/a.md");
    tab.navigate_to("/docs/b.md");
    tab.navigate_to("/docs/b.md");
    assert_eq!(tab.history.len(), 2);
    assert_eq!(tab.history.current(), Some("/docs/b.md"));
    assert!(tab.history.can_go_back());
}

#[test]
fn tab_clone_is_deep() {
    let mut tab = Tab::new("/docs/a.md");
    let copy = tab.clone();
    tab.navigate_to("/docs/b.md");
    assert_eq!(copy.content, TabContent::File(String::from("/docs/a.md")));
    assert_eq!(copy.history.len(), 1);
    assert!(!copy.same_as(&tab));
    assert!(copy.same_as(&Tab::new("/docs/a.md")));
}

#[test]
fn display_names_of_tabs() {
    assert_eq!(Tab::new("/docs/readme.md").display_name(), "readme.md");
    assert_eq!(Tab::new("/").display_name(), "Unnamed file");
    assert_eq!(Tab::new("/docs/..").display_name(), "Unnamed file");
    assert_eq!(Tab::with_inline_content("# Hi").display_name(), "Welcome");
    assert_eq!(Tab::default().display_name(), "No file");
    let preferences = Tab { content: TabContent::Preferences, ..Default::default() };
    assert_eq!(preferences.display_name(), "Preferences");
    let broken = Tab {
        content: TabContent::FileError(String::from("/docs/bin.dat"), String::from("binary")),
        ..Default::default()
    };
    assert_eq!(broken.display_name(), "bin.dat");
}

#[test]
fn content_comparison_tells_kinds_apart() {
    let file = TabContent::File(String::from("/a"));
    let inline = TabContent::Inline(String::from("/a"));
    let error = TabContent::FileError(String::from("/a"), String::from("r"));
    assert!(file.same_as(&file.clone()));
    assert!(!file.same_as(&inline));
    assert!(!file.same_as(&error));
    assert!(!error.same_as(&TabContent::FileError(String::from("/a"), String::from("s"))));
    assert!(TabContent::Empty.same_as(&TabContent::default()));
    assert!(!TabContent::Empty.same_as(&TabContent::Preferences));
}
