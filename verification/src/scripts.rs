//! The snippets of script that the windows hand to their pages.

use crate::pinned_json::build_pinned_json;
use crate::pinned_json::pinned_json;
use crate::pinned_search::search_views;
use crate::pinned_search::PinnedSearch;
use vstd::prelude::*;
use vstd::string::StrSliceExecFns;
use vstd::string::StringExecFns;

verus! {

/// A character as it stands inside a template literal: a backslash is
/// doubled, a backtick gets a backslash in front, anything else stands for
/// itself.
pub open spec fn template_char(c: char) -> Seq<char> {
    if c == '\\' {
        seq!['\\', '\\']
    } else if c == '`' {
        seq!['\\', '`']
    } else {
        seq![c]
    }
}

/// A text as it stands inside a template literal.
pub open spec fn template_escaped(text: Seq<char>) -> Seq<char>
    decreases text.len(),
{
    if text.len() == 0 {
        Seq::empty()
    } else {
        template_escaped(text.drop_last()) + template_char(text.last())
    }
}

/// The script that puts `text` on the clipboard.
pub open spec fn clipboard_script_text(text: Seq<char>) -> Seq<char> {
    "navigator.clipboard.writeText(`"@ + template_escaped(text) + "`)"@
}

/// The script that hands the pinned searches to the page.
pub open spec fn set_pinned_script_text(json: Seq<char>) -> Seq<char> {
    "window.Arto.search.setPinned("@ + json + ");"@
}

/// The script that moves to the next or the previous match.
pub open spec fn navigate_script_text(direction: Seq<char>) -> Seq<char> {
    "window.Arto.search.navigate('"@ + direction + "')"@
}

/// Escapes a text for use inside a template literal.
pub fn escape_template(text: &str) -> (out: String)
    ensures
        out@ == template_escaped(text@),
{
    proof {
        reveal_strlit("\\\\");
        reveal_strlit("\\`");
    }
    let len = text.unicode_len();
    let mut out = String::new();
    let mut i: usize = 0;
    while i < len
        invariant
            i <= len,
            len == text@.len(),
            out@ == template_escaped(text@.take(i as int)),
            "\\\\"@ =~= seq!['\\', '\\'],
            "\\`"@ =~= seq!['\\', '`'],
        decreases len - i,
    {
        proof {
            assert(text@.take(i as int + 1).drop_last() =~= text@.take(i as int));
            assert(text@.take(i as int + 1).last() == text@[i as int]);
        }
        let c = text.get_char(i);
        if c == '\\' {
            out.append("\\\\");
        } else if c == '`' {
            out.append("\\`");
        } else {
            let piece = text.substring_char(i, i + 1);
            proof {
                assert(piece@ =~= seq![text@[i as int]]);
            }
            out.append(piece);
        }
        i += 1;
    }
    proof {
        assert(text@.take(len as int) =~= text@);
    }
    out
}

/// The script that puts `text`, a path for instance, on the clipboard.
pub fn clipboard_script(text: &str) -> (script: String)
    ensures
        script@ == clipboard_script_text(text@),
{
    let escaped = escape_template(text);
    let mut script = "navigator.clipboard.writeText(`".to_owned();
    script.append(escaped.as_str());
    script.append("`)");
    script
}

/// The script that hands the pinned searches to the page for highlighting.
pub fn set_pinned_script(searches: &[PinnedSearch]) -> (script: String)
    ensures
        script@ == set_pinned_script_text(pinned_json(search_views(searches@))),
{
    let json = build_pinned_json(searches);
    let mut script = "window.Arto.search.setPinned(".to_owned();
    script.append(json.as_str());
    script.append(");");
    script
}

/// The script that moves to the next (`next`) or the previous (`prev`)
/// match.
pub fn navigate_script(direction: &str) -> (script: String)
    ensures
        script@ == navigate_script_text(direction@),
{
    let mut script = "window.Arto.search.navigate('".to_owned();
    script.append(direction);
    script.append("')");
    script
}

} // verus!
