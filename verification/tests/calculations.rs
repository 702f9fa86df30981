use arto::calculations::{calculate_shift_class, is_tab_transferable};
use arto::tabs::TabContent;

#[test]
fn returns_none_when_not_target_window() {
    assert_eq!(calculate_shift_class(false, Some(2), 0), None);
    assert_eq!(calculate_shift_class(false, Some(2), 2), None);
    assert_eq!(calculate_shift_class(false, Some(2), 5), None);
}

#[test]
fn returns_none_when_target_index_is_none() {
    assert_eq!(calculate_shift_class(true, None, 0), None);
    assert_eq!(calculate_shift_class(true, None, 5), None);
}

#[test]
fn returns_none_for_tabs_before_target() {
    assert_eq!(calculate_shift_class(true, Some(3), 0), None);
    assert_eq!(calculate_shift_class(true, Some(3), 1), None);
    assert_eq!(calculate_shift_class(true, Some(3), 2), None);
}

#[test]
fn returns_shifting_right_for_tabs_at_or_after_target() {
    assert_eq!(
        calculate_shift_class(true, Some(2), 2),
        Some("shifting-right")
    );
    assert_eq!(
        calculate_shift_class(true, Some(2), 3),
        Some("shifting-right")
    );
    assert_eq!(
        calculate_shift_class(true, Some(2), 10),
        Some("shifting-right")
    );
}

#[test]
fn handles_target_index_zero() {
    // All tabs should shift when inserting at index 0
    assert_eq!(
        calculate_shift_class(true, Some(0), 0),
        Some("shifting-right")
    );
    assert_eq!(
        calculate_shift_class(true, Some(0), 1),
        Some("shifting-right")
    );
}

#[test]
fn file_tab_is_transferable() {
    let content = TabContent::File(String::from("/test.md"));
    assert!(is_tab_transferable(&content));
}

#[test]
fn file_error_tab_is_transferable() {
    let content = TabContent::FileError(String::from("/test.md"), "error".to_string());
    assert!(is_tab_transferable(&content));
}

#[test]
fn none_tab_is_not_transferable() {
    let content = TabContent::Empty;
    assert!(!is_tab_transferable(&content));
}

#[test]
fn inline_tab_is_not_transferable() {
    let content = TabContent::Inline("content".to_string());
    assert!(!is_tab_transferable(&content));
}

#[test]
fn preferences_tab_is_not_transferable() {
    let content = TabContent::Preferences;
    assert!(!is_tab_transferable(&content));
}

#[test]
fn shift_class_at_largest_index() {
    assert_eq!(
        calculate_shift_class(true, Some(usize::MAX), usize::MAX),
        Some("shifting-right")
    );
    assert_eq!(calculate_shift_class(true, Some(usize::MAX), 0), None);
}
