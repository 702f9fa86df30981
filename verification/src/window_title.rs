//! The title of a window, from what its active tab shows.

use crate::paths::display_file_name;
use crate::paths::file_name_or;
use crate::tabs::TabContent;
use crate::tabs::TabContentView;
use vstd::prelude::*;
use vstd::string::StringExecFns;

verus! {

/// The title of a window whose active tab shows `content`.
pub open spec fn window_title(content: TabContentView) -> Seq<char> {
    match content {
        TabContentView::File(path) => "Arto - "@ + display_file_name(path, "Unknown"@),
        TabContentView::Inline(_) => "Arto - Welcome"@,
        TabContentView::Preferences => "Arto - Preferences"@,
        TabContentView::FileError(path, _) => "Arto - "@ + display_file_name(path, "Unknown"@)
            + " (Error)"@,
        TabContentView::Empty => "Arto"@,
    }
}

/// The file name of a path, or `Unknown` where the path has none.
pub fn extract_filename(path: &str) -> (name: String)
    ensures
        name@ == display_file_name(path@, "Unknown"@),
{
    file_name_or(path, "Unknown")
}

/// The window title for the active tab's content.
pub fn generate_window_title(tab_content: &TabContent) -> (title: String)
    ensures
        title@ == window_title(tab_content@),
{
    match tab_content {
        TabContent::File(path) => {
            let name = extract_filename(path.as_str());
            "Arto - ".to_owned().concat(name.as_str())
        },
        TabContent::Inline(_) => "Arto - Welcome".to_owned(),
        TabContent::Preferences => "Arto - Preferences".to_owned(),
        TabContent::FileError(path, _) => {
            let name = extract_filename(path.as_str());
            "Arto - ".to_owned().concat(name.as_str()).concat(" (Error)")
        },
        TabContent::Empty => "Arto".to_owned(),
    }
}

} // verus!
