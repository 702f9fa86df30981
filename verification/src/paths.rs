//! File names and extensions of paths held as text. A path is a text whose
//! components are separated by `/`.

use crate::text::opt_text;
use crate::text::same_text;
use vstd::prelude::*;
use vstd::string::StrSliceExecFns;

verus! {

/// The position of the last `c` in `s`, or -1 if there is none.
pub open spec fn last_index_of(s: Seq<char>, c: char) -> int
    decreases s.len(),
{
    if s.len() == 0 {
        -1
    } else if s.last() == c {
        s.len() - 1
    } else {
        last_index_of(s.drop_last(), c)
    }
}

/// The extension of a file name: what follows its last dot. A name without a
/// dot, a name whose only dot comes first, and the name `..` have none.
pub open spec fn name_extension(name: Seq<char>) -> Option<Seq<char>> {
    let dot = last_index_of(name, '.');
    if dot <= 0 || name == seq!['.', '.'] {
        None
    } else {
        Some(name.subrange(dot + 1, name.len() as int))
    }
}

/// Whether a file name ends in `.md` or `.markdown`.
pub open spec fn is_markdown_name(name: Seq<char>) -> bool {
    name_extension(name) == Some("md"@) || name_extension(name) == Some("markdown"@)
}

/// Whether the path written as `path` names a markdown file.
pub open spec fn is_markdown_path(path: Seq<char>) -> bool {
    match path_file_name(path) {
        Some(name) => is_markdown_name(name),
        None => false,
    }
}

proof fn lemma_last_index_of_is(s: Seq<char>, c: char, i: int)
    requires
        -1 <= i < s.len(),
        i >= 0 ==> s[i] == c,
        forall|j: int| i < j < s.len() ==> s[j] != c,
    ensures
        last_index_of(s, c) == i,
    decreases s.len(),
{
    if s.len() > 0 {
        if s.last() == c {
            assert(i == s.len() - 1);
        } else {
            assert(i < s.len() - 1);
            let shorter = s.drop_last();
            assert forall|j: int| i < j < shorter.len() implies shorter[j] != c by {
                assert(shorter[j] == s[j]);
            }
            if i >= 0 {
                assert(shorter[i] == s[i]);
            }
            lemma_last_index_of_is(shorter, c, i);
        }
    }
}

/// The file name of a path: its last component. Separators at the end and
/// components that are a single dot do not count. A path without components
/// has no file name, nor has one whose last component is `..`.
pub open spec fn path_file_name(path: Seq<char>) -> Option<Seq<char>>
    decreases path.len(),
{
    if path.len() == 0 {
        None
    } else if path.last() == '/' {
        path_file_name(path.drop_last())
    } else {
        let start = last_index_of(path, '/') + 1;
        let component = path.subrange(start, path.len() as int);
        if !(0 <= start < path.len()) {
            None
        } else if component == seq!['.'] {
            path_file_name(path.take(start))
        } else if component == seq!['.', '.'] {
            None
        } else {
            Some(component)
        }
    }
}

/// The file name of a path, if it has one.
pub fn file_name(path: &str) -> (name: Option<String>)
    ensures
        opt_text(name) == path_file_name(path@),
{
    proof {
        reveal_strlit(".");
        reveal_strlit("..");
        assert("."@ =~= seq!['.']);
        assert(".."@ =~= seq!['.', '.']);
    }
    let mut end: usize = path.unicode_len();
    proof {
        assert(path@.take(end as int) =~= path@);
    }
    while end > 0
        invariant
            end <= path@.len(),
            path_file_name(path@) == path_file_name(path@.take(end as int)),
            "."@ == seq!['.'],
            ".."@ == seq!['.', '.'],
        decreases end,
    {
        let ghost rest = path@.take(end as int);
        proof {
            assert(rest.last() == path@[end as int - 1]);
        }
        if path.get_char(end - 1) == '/' {
            proof {
                assert(rest.drop_last() =~= path@.take(end as int - 1));
            }
            end -= 1;
        } else {
            let mut start: usize = end - 1;
            while start > 0 && path.get_char(start - 1) != '/'
                invariant
                    start < end <= path@.len(),
                    forall|j: int| start <= j < end ==> path@[j] != '/',
                decreases start,
            {
                start -= 1;
            }
            proof {
                assert forall|j: int| start as int - 1 < j < rest.len() implies rest[j] != '/' by {
                    assert(rest[j] == path@[j]);
                }
                if start > 0 {
                    assert(rest[start as int - 1] == path@[start as int - 1]);
                }
                lemma_last_index_of_is(rest, '/', start as int - 1);
                assert(rest.subrange(start as int, rest.len() as int) =~= path@.subrange(
                    start as int,
                    end as int,
                ));
                assert(rest.take(start as int) =~= path@.take(start as int));
            }
            let component = path.substring_char(start, end);
            if same_text(component, ".") {
                end = start;
            } else if same_text(component, "..") {
                return None;
            } else {
                return Some(component.to_owned());
            }
        }
    }
    proof {
        assert(path@.take(0).len() == 0);
    }
    None
}

/// The extension of a file name, if it has one.
pub fn extension_of_name(name: &str) -> (extension: Option<String>)
    ensures
        opt_text(extension) == name_extension(name@),
{
    let len = name.unicode_len();
    let mut i: usize = len;
    while i > 0 && name.get_char(i - 1) != '.'
        invariant
            i <= len,
            len == name@.len(),
            forall|j: int| i <= j < len ==> name@[j] != '.',
        decreases i,
    {
        i -= 1;
    }
    proof {
        lemma_last_index_of_is(name@, '.', i as int - 1);
    }
    if i <= 1 {
        return None;
    }
    if len == 2 && name.get_char(0) == '.' {
        proof {
            assert(name@ =~= seq!['.', '.']);
        }
        return None;
    }
    proof {
        if name@ == seq!['.', '.'] {
            assert(seq!['.', '.'].len() == 2);
            assert(seq!['.', '.'][0] == '.');
        }
    }
    Some(name.substring_char(i, len).to_owned())
}

/// Whether a file name ends in `.md` or `.markdown`.
pub fn has_markdown_extension(name: &str) -> (markdown: bool)
    ensures
        markdown == is_markdown_name(name@),
{
    match extension_of_name(name) {
        Some(extension) => same_text(extension.as_str(), "md") || same_text(
            extension.as_str(),
            "markdown",
        ),
        None => false,
    }
}

/// Whether a path names a markdown file: its final component ends in `.md`
/// or `.markdown`.
pub fn is_markdown_file(path: &str) -> (markdown: bool)
    ensures
        markdown == is_markdown_path(path@),
{
    match file_name(path) {
        Some(name) => has_markdown_extension(name.as_str()),
        None => false,
    }
}

/// The final component of a path for display, or `fallback` where the path
/// has none.
pub fn file_name_or(path: &str, fallback: &str) -> (name: String)
    ensures
        name@ == display_file_name(path@, fallback@),
{
    match file_name(path) {
        Some(name) => name,
        None => fallback.to_owned(),
    }
}

/// The final component of a path, or `fallback` where the path has none.
pub open spec fn display_file_name(path: Seq<char>, fallback: Seq<char>) -> Seq<char> {
    match path_file_name(path) {
        Some(name) => name,
        None => fallback,
    }
}

} // verus!
