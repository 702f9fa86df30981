use arto::ids::Timestamp;
use arto::pinned_search::{
    add_pinned_search, remove_pinned_search, set_pinned_search_color,
    toggle_pinned_search_disabled, HighlightColor, PinnedSearch, PinnedSearchId, PinnedSearches,
    SaveAction,
};

#[test]
fn test_pinned_search_id_generation() {
    let id1 = PinnedSearchId::new();
    let id2 = PinnedSearchId::new();
    assert_ne!(id1, id2);
    assert!(id1.0.starts_with("ps_"));
}

#[test]
fn test_highlight_color_css_class() {
    assert_eq!(HighlightColor::Green.css_class(), "highlight-green");
    assert_eq!(HighlightColor::Blue.css_class(), "highlight-blue");
    assert_eq!(HighlightColor::Pink.css_class(), "highlight-pink");
    assert_eq!(HighlightColor::Orange.css_class(), "highlight-orange");
    assert_eq!(HighlightColor::Purple.css_class(), "highlight-purple");
}

#[test]
fn test_pinned_search_creation() {
    let pinned = PinnedSearch::new("TODO", HighlightColor::Orange);
    assert_eq!(pinned.pattern, "TODO");
    assert_eq!(pinned.color, HighlightColor::Orange);
    assert!(!pinned.case_sensitive);
    assert!(!pinned.disabled);
}

#[test]
fn test_pinned_searches_add_remove() {
    let mut searches = PinnedSearches::default();

    let search = searches.add("TODO");
    let id = search.id.clone();
    assert_eq!(searches.pinned_searches.len(), 1);
    assert!(searches.contains_pattern("TODO"));

    assert!(searches.remove(&id));
    assert_eq!(searches.pinned_searches.len(), 0);
    assert!(!searches.contains_pattern("TODO"));
}

#[test]
fn test_pinned_searches_color_distribution() {
    let mut searches = PinnedSearches::default();

    // Add 5 pinned searches - should use all 5 colors
    searches.add("A");
    searches.add("B");
    searches.add("C");
    searches.add("D");
    searches.add("E");

    let colors: Vec<_> = searches.pinned_searches.iter().map(|p| p.color).collect();
    assert!(colors.contains(&HighlightColor::Green));
    assert!(colors.contains(&HighlightColor::Blue));
    assert!(colors.contains(&HighlightColor::Pink));
    assert!(colors.contains(&HighlightColor::Orange));
    assert!(colors.contains(&HighlightColor::Purple));
}

#[test]
fn test_pinned_searches_toggle_disabled() {
    let mut searches = PinnedSearches::default();
    let search = searches.add("TODO");
    let id = search.id.clone();

    assert!(!searches.pinned_searches[0].disabled);

    assert!(searches.toggle_disabled(&id));
    assert!(searches.pinned_searches[0].disabled);

    assert!(searches.toggle_disabled(&id));
    assert!(!searches.pinned_searches[0].disabled);
}

#[test]
fn test_pinned_searches_set_color() {
    let mut searches = PinnedSearches::default();
    let search = searches.add("TODO");
    let id = search.id.clone();

    assert!(searches.set_color(&id, HighlightColor::Pink));
    assert_eq!(searches.pinned_searches[0].color, HighlightColor::Pink);
}

#[test]
fn identifier_is_prefix_and_simple_uuid() {
    let id = PinnedSearchId::from_uuid(0xa1a2a3a4b1b2c1c2d1d2d3d4d5d6d7d8);
    assert_eq!(id.as_str(), "ps_a1a2a3a4b1b2c1c2d1d2d3d4d5d6d7d8");
    assert_eq!(id.to_text(), "ps_a1a2a3a4b1b2c1c2d1d2d3d4d5d6d7d8");
    let zero = PinnedSearchId::from_uuid(0);
    assert_eq!(zero.as_str(), "ps_00000000000000000000000000000000");
    assert_eq!(zero.as_str().len(), 35);
    let max = PinnedSearchId::from_uuid(u128::MAX);
    assert_eq!(max.as_str(), "ps_ffffffffffffffffffffffffffffffff");
}

#[test]
fn generated_identifier_has_35_characters() {
    let id = PinnedSearchId::new();
    assert_eq!(id.as_str().len(), 35);
    assert!(id.as_str()[3..]
        .chars()
        .all(|c| c.is_ascii_digit() || ('a'..='f').contains(&c)));
    let other = PinnedSearchId::default();
    assert!(other.as_str().starts_with("ps_"));
    assert!(!id.same_as(&other));
}

#[test]
fn identifier_from_string_keeps_the_text() {
    let id = PinnedSearchId::from(String::from("custom"));
    assert_eq!(id.as_str(), "custom");
    assert!(id.same_as(&id.clone()));
}

#[test]
fn new_search_is_stamped_with_the_current_time() {
    let pinned = PinnedSearch::new("now", HighlightColor::Green);
    // Later than the first of January 2020.
    assert!(pinned.created_at.seconds > 1_577_836_800);
    assert!(pinned.created_at.nanoseconds < 2_000_000_000);
    assert!(pinned.id.as_str().starts_with("ps_"));
}

#[test]
fn with_identity_builds_the_entry_exactly() {
    let at = Timestamp { seconds: 1_700_000_000, nanoseconds: 42 };
    let pinned = PinnedSearch::with_identity(1, at, "FIXME", HighlightColor::Purple);
    assert_eq!(pinned.id.as_str(), "ps_00000000000000000000000000000001");
    assert_eq!(pinned.pattern, "FIXME");
    assert_eq!(pinned.color, HighlightColor::Purple);
    assert!(!pinned.case_sensitive);
    assert!(!pinned.disabled);
    assert_eq!(pinned.created_at, at);
    assert_eq!(pinned.clone(), pinned);
}

#[test]
fn colors_are_handed_out_in_order() {
    let at = Timestamp { seconds: 0, nanoseconds: 0 };
    let mut searches = PinnedSearches::default();
    let expected = [
        HighlightColor::Green,
        HighlightColor::Blue,
        HighlightColor::Pink,
        HighlightColor::Orange,
        HighlightColor::Purple,
        HighlightColor::Green,
        HighlightColor::Blue,
    ];
    for (i, color) in expected.iter().enumerate() {
        assert_eq!(searches.next_color(), *color);
        let added = searches.add_with_identity(i as u128, at, "x");
        assert_eq!(added.color, *color);
    }
    assert_eq!(searches.pinned_searches.len(), 7);
}

#[test]
fn next_color_prefers_the_least_used() {
    let at = Timestamp { seconds: 0, nanoseconds: 0 };
    let mut searches = PinnedSearches::default();
    for i in 0..5u128 {
        searches.add_with_identity(i, at, "x");
    }
    // Free pink: it is now the only color that is not in use.
    let pink = searches.pinned_searches[2].id.clone();
    assert!(searches.remove(&pink));
    assert_eq!(searches.next_color(), HighlightColor::Pink);
    // Recolor the green entry: green and pink are unused, green comes first.
    let green = searches.pinned_searches[0].id.clone();
    assert!(searches.set_color(&green, HighlightColor::Purple));
    assert_eq!(searches.next_color(), HighlightColor::Green);
}

#[test]
fn remove_takes_every_entry_with_the_identifier() {
    let at = Timestamp { seconds: 0, nanoseconds: 0 };
    let mut searches = PinnedSearches::default();
    searches.add_with_identity(7, at, "a");
    searches.add_with_identity(8, at, "b");
    searches.add_with_identity(7, at, "c");
    let id = PinnedSearchId::from_uuid(7);
    assert!(searches.remove(&id));
    assert_eq!(searches.pinned_searches.len(), 1);
    assert_eq!(searches.pinned_searches[0].pattern, "b");
    assert!(!searches.remove(&id));
    assert_eq!(searches.pinned_searches.len(), 1);
}

#[test]
fn set_color_and_toggle_touch_the_first_match_only() {
    let at = Timestamp { seconds: 0, nanoseconds: 0 };
    let mut searches = PinnedSearches::default();
    searches.add_with_identity(7, at, "a");
    searches.add_with_identity(7, at, "b");
    let id = PinnedSearchId::from_uuid(7);
    assert!(searches.set_color(&id, HighlightColor::Orange));
    assert!(searches.toggle_disabled(&id));
    assert_eq!(searches.pinned_searches[0].color, HighlightColor::Orange);
    assert!(searches.pinned_searches[0].disabled);
    assert_eq!(searches.pinned_searches[1].color, HighlightColor::Blue);
    assert!(!searches.pinned_searches[1].disabled);
}

#[test]
fn unknown_identifier_changes_nothing() {
    let at = Timestamp { seconds: 0, nanoseconds: 0 };
    let mut searches = PinnedSearches::default();
    searches.add_with_identity(1, at, "a");
    let before = searches.clone();
    let unknown = PinnedSearchId::from_uuid(2);
    assert!(!searches.remove(&unknown));
    assert!(!searches.set_color(&unknown, HighlightColor::Pink));
    assert!(!searches.toggle_disabled(&unknown));
    assert_eq!(searches, before);
}

#[test]
fn free_functions_report_whether_the_list_changed() {
    let mut list = PinnedSearches::default();
    let id = add_pinned_search(&mut list, "TODO");
    assert_eq!(list.pinned_searches.len(), 1);
    assert_eq!(list.pinned_searches[0].id, id);
    assert_eq!(list.pinned_searches[0].pattern, "TODO");
    assert_eq!(list.pinned_searches[0].color, HighlightColor::Green);

    assert!(set_pinned_search_color(&mut list, &id, HighlightColor::Blue));
    assert_eq!(list.pinned_searches[0].color, HighlightColor::Blue);
    assert!(toggle_pinned_search_disabled(&mut list, &id));
    assert!(list.pinned_searches[0].disabled);

    let unknown = PinnedSearchId::from_uuid(5);
    assert!(!set_pinned_search_color(&mut list, &unknown, HighlightColor::Pink));
    assert!(!toggle_pinned_search_disabled(&mut list, &unknown));
    assert!(!remove_pinned_search(&mut list, &unknown));
    assert_eq!(list.pinned_searches.len(), 1);

    assert!(remove_pinned_search(&mut list, &id));
    assert!(list.pinned_searches.is_empty());
}

#[test]
fn saving_an_empty_list_removes_the_file() {
    let mut list = PinnedSearches::default();
    assert_eq!(list.version, 1);
    assert_eq!(list.save_action(), SaveAction::RemoveFile);
    add_pinned_search(&mut list, "TODO");
    assert_eq!(list.save_action(), SaveAction::WriteFile);
}

#[test]
fn js_names_of_colors() {
    assert_eq!(HighlightColor::Green.to_js_name(), "green");
    assert_eq!(HighlightColor::Blue.to_js_name(), "blue");
    assert_eq!(HighlightColor::Pink.to_js_name(), "pink");
    assert_eq!(HighlightColor::Orange.to_js_name(), "orange");
    assert_eq!(HighlightColor::Purple.to_js_name(), "purple");
    assert_eq!(HighlightColor::default(), HighlightColor::Green);
    assert_eq!(
        HighlightColor::all(),
        vec![
            HighlightColor::Green,
            HighlightColor::Blue,
            HighlightColor::Pink,
            HighlightColor::Orange,
            HighlightColor::Purple
        ]
    );
}

#[test]
fn contains_pattern_is_exact() {
    let mut list = PinnedSearches::default();
    add_pinned_search(&mut list, "TODO");
    assert!(list.contains_pattern("TODO"));
    assert!(!list.contains_pattern("todo"));
    assert!(!list.contains_pattern("TOD"));
    assert!(!list.contains_pattern(""));
}
