//! Decisions of the tab bar that depend on nothing but their arguments.

use crate::tabs::TabContent;
use crate::tabs::TabContentView;
use vstd::prelude::*;

verus! {

/// Whether a tab in a window must shift right to make room for a tab that is
/// dragged over the window: the window is the drag's target, an insertion
/// index is known, and the tab stands at or behind that index.
pub open spec fn shifts_right(
    is_target_window: bool,
    target_index: Option<usize>,
    current_index: usize,
) -> bool {
    is_target_window && target_index is Some && current_index >= target_index.unwrap()
}

/// The style class of a tab while another tab is dragged across windows:
/// `shifting-right` for the tabs that make room, none for the others.
pub fn calculate_shift_class(
    is_target_window: bool,
    target_index: Option<usize>,
    current_index: usize,
) -> (class: Option<&'static str>)
    ensures
        class is Some <==> shifts_right(is_target_window, target_index, current_index),
        class matches Some(name) ==> name@ == "shifting-right"@,
{
    if !is_target_window {
        return None;
    }
    match target_index {
        Some(target) => {
            if current_index >= target {
                Some("shifting-right")
            } else {
                None
            }
        },
        None => None,
    }
}

/// Whether a content can move to another window: files can, also those that
/// failed to open; empty tabs, inline text and the preferences cannot.
pub open spec fn content_is_transferable(content: TabContentView) -> bool {
    content is File || content is FileError
}

/// Whether a tab with this content may be offered for transfer to another
/// window. The transfer itself does not check this; the caller does.
pub fn is_tab_transferable(content: &TabContent) -> (transferable: bool)
    ensures
        transferable == content_is_transferable(content@),
{
    match content {
        TabContent::File(_) => true,
        TabContent::FileError(_, _) => true,
        _ => false,
    }
}

} // verus!
