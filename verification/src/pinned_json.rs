//! The pinned searches written out for the page's script.

use crate::pinned_search::color_js_name;
use crate::pinned_search::search_views;
use crate::pinned_search::PinnedSearch;
use crate::pinned_search::PinnedSearchView;
use vstd::prelude::*;
use vstd::string::StrSliceExecFns;
use vstd::string::StringExecFns;

verus! {

/// A character as it stands inside a quoted string: a backslash is doubled, a
/// quote gets a backslash in front, anything else stands for itself.
pub open spec fn escape_char(c: char) -> Seq<char> {
    if c == '\\' {
        seq!['\\', '\\']
    } else if c == '"' {
        seq!['\\', '"']
    } else {
        seq![c]
    }
}

/// A text as it stands inside a quoted string.
pub open spec fn escaped(text: Seq<char>) -> Seq<char>
    decreases text.len(),
{
    if text.len() == 0 {
        Seq::empty()
    } else {
        escaped(text.drop_last()) + escape_char(text.last())
    }
}

/// `true` or `false`.
pub open spec fn bool_text(b: bool) -> Seq<char> {
    if b {
        "true"@
    } else {
        "false"@
    }
}

/// One pinned search as an object with the keys `id`, `pattern`, `color`,
/// `caseSensitive` and `disabled`. Only the pattern is escaped.
pub open spec fn search_json(pinned: PinnedSearchView) -> Seq<char> {
    "{\"id\":\""@ + pinned.id + "\",\"pattern\":\""@ + escaped(pinned.pattern)
        + "\",\"color\":\""@ + color_js_name(pinned.color) + "\",\"caseSensitive\":"@ + bool_text(
        pinned.case_sensitive,
    ) + ",\"disabled\":"@ + bool_text(pinned.disabled) + "}"@
}

/// The objects of the pinned searches, separated by commas.
pub open spec fn joined_json(searches: Seq<PinnedSearchView>) -> Seq<char>
    decreases searches.len(),
{
    if searches.len() == 0 {
        Seq::empty()
    } else if searches.len() == 1 {
        search_json(searches[0])
    } else {
        joined_json(searches.drop_last()) + ","@ + search_json(searches.last())
    }
}

/// The pinned searches as an array of objects, in their order, hidden ones
/// included.
pub open spec fn pinned_json(searches: Seq<PinnedSearchView>) -> Seq<char> {
    "["@ + joined_json(searches) + "]"@
}

/// Escapes a text for use inside a quoted string.
pub fn escape(text: &str) -> (out: String)
    ensures
        out@ == escaped(text@),
{
    proof {
        reveal_strlit("\\\\");
        reveal_strlit("\\\"");
    }
    let len = text.unicode_len();
    let mut out = String::new();
    let mut i: usize = 0;
    while i < len
        invariant
            i <= len,
            len == text@.len(),
            out@ == escaped(text@.take(i as int)),
            "\\\\"@ =~= seq!['\\', '\\'],
            "\\\""@ =~= seq!['\\', '"'],
        decreases len - i,
    {
        proof {
            assert(text@.take(i as int + 1).drop_last() =~= text@.take(i as int));
            assert(text@.take(i as int + 1).last() == text@[i as int]);
        }
        let c = text.get_char(i);
        if c == '\\' {
            out.append("\\\\");
        } else if c == '"' {
            out.append("\\\"");
        } else {
            let piece = text.substring_char(i, i + 1);
            proof {
                assert(piece@ =~= seq![text@[i as int]]);
            }
            out.append(piece);
        }
        i += 1;
    }
    proof {
        assert(text@.take(len as int) =~= text@);
    }
    out
}

fn bool_word(b: bool) -> (word: &'static str)
    ensures
        word@ == bool_text(b),
{
    if b {
        "true"
    } else {
        "false"
    }
}

/// One pinned search as an object.
pub fn build_search_json(pinned: &PinnedSearch) -> (json: String)
    ensures
        json@ == search_json(pinned@),
{
    let pattern = escape(pinned.pattern.as_str());
    let mut json = "{\"id\":\"".to_owned();
    json.append(pinned.id.as_str());
    json.append("\",\"pattern\":\"");
    json.append(pattern.as_str());
    json.append("\",\"color\":\"");
    json.append(pinned.color.to_js_name());
    json.append("\",\"caseSensitive\":");
    json.append(bool_word(pinned.case_sensitive));
    json.append(",\"disabled\":");
    json.append(bool_word(pinned.disabled));
    json.append("}");
    json
}

/// The pinned searches as the array that the page's script takes. Hidden
/// searches are included, so that their matches can still be listed.
pub fn build_pinned_json(searches: &[PinnedSearch]) -> (json: String)
    ensures
        json@ == pinned_json(search_views(searches@)),
{
    let ghost views = search_views(searches@);
    let mut json = "[".to_owned();
    let mut i: usize = 0;
    while i < searches.len()
        invariant
            i <= searches.len(),
            views == search_views(searches@),
            json@ == "["@ + joined_json(views.take(i as int)),
        decreases searches.len() - i,
    {
        let ghost before = json@;
        let ghost done = views.take(i as int);
        let ghost next = views.take(i as int + 1);
        proof {
            assert(next.drop_last() =~= done);
            assert(next.last() == searches@[i as int]@);
        }
        if i > 0 {
            json.append(",");
        }
        let entry = build_search_json(&searches[i]);
        json.append(entry.as_str());
        proof {
            if i == 0 {
                assert(done =~= Seq::<PinnedSearchView>::empty());
                assert(next[0] == searches@[i as int]@);
                assert(json@ =~= "["@ + joined_json(next));
            } else {
                assert(json@ =~= "["@ + (joined_json(done) + ","@ + search_json(
                    searches@[i as int]@,
                )));
            }
        }
        i += 1;
    }
    proof {
        assert(views.take(searches.len() as int) =~= views);
    }
    json.append("]");
    json
}

} // verus!
