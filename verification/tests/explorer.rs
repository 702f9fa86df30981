use arto::explorer::{
    entry_precedes, is_entry_visible, sort_entries, text_precedes, ExplorerEntry,
};

fn dir(path: &str) -> ExplorerEntry {
    ExplorerEntry { path: String::from(path), is_dir: true }
}

fn file(path: &str) -> ExplorerEntry {
    ExplorerEntry { path: String::from(path), is_dir: false }
}

fn paths(entries: &[ExplorerEntry]) -> Vec<&str> {
    entries.iter().map(|entry| entry.path.as_str()).collect()
}

#[test]
fn directories_come_first_then_files_by_name() {
    let mut items = vec![
        file("/root/zeta.md"),
        dir("/root/src"),
        file("/root/alpha.md"),
        dir("/root/docs"),
        file("/root/Makefile"),
    ];
    sort_entries(&mut items);
    assert_eq!(
        paths(&items),
        vec!["/root/docs", "/root/src", "/root/Makefile", "/root/alpha.md", "/root/zeta.md"]
    );
}

#[test]
fn sorting_goes_by_file_name_not_by_path() {
    let mut items = vec![file("/b/a.md"), file("/a/b.md"), file("/c/0.md")];
    sort_entries(&mut items);
    assert_eq!(paths(&items), vec!["/c/0.md", "/b/a.md", "/a/b.md"]);
}

#[test]
fn equal_names_keep_their_order() {
    let mut items = vec![file("/x/same"), file("/y/same"), file("/a/same"), dir("/q/same")];
    sort_entries(&mut items);
    assert_eq!(paths(&items), vec!["/q/same", "/x/same", "/y/same", "/a/same"]);
}

#[test]
fn entries_without_a_name_come_first_in_their_kind() {
    let mut items = vec![file("/a"), file("/"), dir("/b"), dir("/c/..")];
    sort_entries(&mut items);
    assert_eq!(paths(&items), vec!["/c/..", "/b", "/", "/a"]);
}

#[test]
fn sorting_nothing_and_one() {
    let mut none: Vec<ExplorerEntry> = Vec::new();
    sort_entries(&mut none);
    assert!(none.is_empty());
    let mut one = vec![file("/a")];
    sort_entries(&mut one);
    assert_eq!(one, vec![file("/a")]);
}

#[test]
fn sorted_input_stays_and_reversed_input_is_turned() {
    let sorted = vec![dir("/a"), dir("/b"), file("/a.md"), file("/b.md")];
    let mut same = sorted.clone();
    sort_entries(&mut same);
    assert_eq!(same, sorted);
    let mut reversed: Vec<ExplorerEntry> = sorted.iter().rev().cloned().collect();
    sort_entries(&mut reversed);
    assert_eq!(reversed, sorted);
}

#[test]
fn sort_agrees_with_the_standard_stable_sort() {
    let names = ["m", "a", "z", "Z", "é", "a.md", "b", "m", "0", "日本", "a", ""];
    let mut items: Vec<ExplorerEntry> = names
        .iter()
        .enumerate()
        .map(|(i, name)| ExplorerEntry { path: format!("/{i}/{name}"), is_dir: i % 3 == 0 })
        .collect();
    let mut expected = items.clone();
    expected.sort_by(|a, b| {
        let a_name = std::path::Path::new(&a.path).file_name();
        let b_name = std::path::Path::new(&b.path).file_name();
        match (a.is_dir, b.is_dir) {
            (true, false) => std::cmp::Ordering::Less,
            (false, true) => std::cmp::Ordering::Greater,
            _ => a_name.cmp(&b_name),
        }
    });
    sort_entries(&mut items);
    assert_eq!(items, expected);
}

#[test]
fn dictionary_order_of_texts() {
    assert!(text_precedes("", ""));
    assert!(text_precedes("", "a"));
    assert!(!text_precedes("a", ""));
    assert!(text_precedes("a", "a"));
    assert!(text_precedes("a", "b"));
    assert!(!text_precedes("b", "a"));
    assert!(text_precedes("a", "ab"));
    assert!(!text_precedes("ab", "a"));
    assert!(text_precedes("Z", "a"));
    assert!(text_precedes("z", "é"));
    assert!(text_precedes("é", "日"));
    assert!(!text_precedes("😀", "日"));
}

#[test]
fn order_of_entries() {
    assert!(entry_precedes(&dir("/z"), &file("/a")));
    assert!(!entry_precedes(&file("/a"), &dir("/z")));
    assert!(entry_precedes(&file("/x/a"), &file("/y/a")));
    assert!(entry_precedes(&file("/y/a"), &file("/x/a")));
    assert!(entry_precedes(&file("/"), &file("/a")));
    assert!(!entry_precedes(&file("/a"), &file("/")));
}

#[test]
fn visibility_of_entries() {
    assert!(is_entry_visible(&dir("/root/src"), false));
    assert!(is_entry_visible(&file("/root/readme.md"), false));
    assert!(is_entry_visible(&file("/root/notes.markdown"), false));
    assert!(!is_entry_visible(&file("/root/main.rs"), false));
    assert!(is_entry_visible(&file("/root/main.rs"), true));
    assert!(!is_entry_visible(&file("/root/.md"), false));
}
