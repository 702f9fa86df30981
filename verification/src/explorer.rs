//! The order of entries in the file explorer: directories first, then files,
//! each group by name.

use crate::paths::file_name;
use crate::paths::is_markdown_file;
use crate::paths::is_markdown_path;
use crate::paths::path_file_name;
use vstd::prelude::*;
use vstd::string::StrSliceExecFns;

verus! {

/// One entry of a directory listing: its path, and whether it is a
/// directory.
#[derive(Debug, PartialEq, Eq)]
pub struct ExplorerEntry {
    pub path: String,
    pub is_dir: bool,
}

/// An entry as mathematics.
pub ghost struct EntryView {
    pub path: Seq<char>,
    pub is_dir: bool,
}

impl View for ExplorerEntry {
    type V = EntryView;

    open spec fn view(&self) -> EntryView {
        EntryView { path: self.path@, is_dir: self.is_dir }
    }
}

impl Clone for ExplorerEntry {
    fn clone(&self) -> (copy: Self)
        ensures
            copy@ == self@,
    {
        ExplorerEntry { path: self.path.clone(), is_dir: self.is_dir }
    }
}

/// Whether the explorer lists an entry: directories and markdown files
/// always, other files only where all files are asked for.
pub open spec fn entry_visible(entry: EntryView, show_all_files: bool) -> bool {
    show_all_files || entry.is_dir || is_markdown_path(entry.path)
}

/// Whether the explorer lists the entry.
pub fn is_entry_visible(entry: &ExplorerEntry, show_all_files: bool) -> (visible: bool)
    ensures
        visible == entry_visible(entry@, show_all_files),
{
    show_all_files || entry.is_dir || is_markdown_file(entry.path.as_str())
}

/// The views of a sequence of entries.
pub open spec fn entry_views(entries: Seq<ExplorerEntry>) -> Seq<EntryView> {
    Seq::new(entries.len(), |i: int| entries[i]@)
}

/// Whether `a` comes before `b` in the dictionary or equals it, character by
/// character in the order of their code points.
pub open spec fn text_le(a: Seq<char>, b: Seq<char>) -> bool
    decreases a.len(),
{
    if a.len() == 0 {
        true
    } else if b.len() == 0 {
        false
    } else if a[0] != b[0] {
        (a[0] as u32) < (b[0] as u32)
    } else {
        text_le(a.drop_first(), b.drop_first())
    }
}

/// The order of optional names: a missing name comes first.
pub open spec fn name_le(a: Option<Seq<char>>, b: Option<Seq<char>>) -> bool {
    match (a, b) {
        (None, _) => true,
        (Some(_), None) => false,
        (Some(x), Some(y)) => text_le(x, y),
    }
}

/// Whether `a` may stand before `b`: a directory before a file, and among
/// two of a kind the one whose file name is not the later.
pub open spec fn entry_le(a: EntryView, b: EntryView) -> bool {
    if a.is_dir != b.is_dir {
        a.is_dir
    } else {
        name_le(path_file_name(a.path), path_file_name(b.path))
    }
}

/// A sorted sequence with `x` put in behind every entry that may stand
/// before it.
pub open spec fn insert_sorted(sorted: Seq<EntryView>, x: EntryView) -> Seq<EntryView>
    decreases sorted.len(),
{
    if sorted.len() == 0 {
        seq![x]
    } else if entry_le(sorted.last(), x) {
        sorted.push(x)
    } else {
        insert_sorted(sorted.drop_last(), x).push(sorted.last())
    }
}

/// The entries in explorer order. Entries that are equal in kind and name
/// keep the order they came in.
pub open spec fn sorted_entries(entries: Seq<EntryView>) -> Seq<EntryView>
    decreases entries.len(),
{
    if entries.len() == 0 {
        Seq::empty()
    } else {
        insert_sorted(sorted_entries(entries.drop_last()), entries.last())
    }
}

/// Whether every entry may stand before every later one.
pub open spec fn in_order(entries: Seq<EntryView>) -> bool {
    forall|i: int, j: int| 0 <= i < j < entries.len() ==> entry_le(entries[i], entries[j])
}

/// Of two texts, one comes before the other or equals it.
pub proof fn lemma_text_le_total(a: Seq<char>, b: Seq<char>)
    ensures
        text_le(a, b) || text_le(b, a),
    decreases a.len(),
{
    if a.len() > 0 && b.len() > 0 {
        if a[0] == b[0] {
            lemma_text_le_total(a.drop_first(), b.drop_first());
        } else {
            vstd::utf8::char_u32_cast(a[0], a[0] as u32);
            vstd::utf8::char_u32_cast(b[0], b[0] as u32);
        }
    }
}

/// The dictionary order is transitive.
pub proof fn lemma_text_le_transitive(a: Seq<char>, b: Seq<char>, c: Seq<char>)
    requires
        text_le(a, b),
        text_le(b, c),
    ensures
        text_le(a, c),
    decreases a.len(),
{
    if a.len() > 0 && b.len() > 0 && c.len() > 0 {
        if a[0] == b[0] && b[0] == c[0] {
            lemma_text_le_transitive(a.drop_first(), b.drop_first(), c.drop_first());
        }
    }
}

/// Of two entries, one may stand before the other.
pub proof fn lemma_entry_le_total(a: EntryView, b: EntryView)
    ensures
        entry_le(a, b) || entry_le(b, a),
{
    match (path_file_name(a.path), path_file_name(b.path)) {
        (Some(x), Some(y)) => {
            lemma_text_le_total(x, y);
        },
        _ => {},
    }
}

/// The explorer order is transitive.
pub proof fn lemma_entry_le_transitive(a: EntryView, b: EntryView, c: EntryView)
    requires
        entry_le(a, b),
        entry_le(b, c),
    ensures
        entry_le(a, c),
{
    match (path_file_name(a.path), path_file_name(b.path), path_file_name(c.path)) {
        (Some(x), Some(y), Some(z)) => {
            if a.is_dir == b.is_dir && b.is_dir == c.is_dir {
                lemma_text_le_transitive(x, y, z);
            }
        },
        _ => {},
    }
}

proof fn lemma_insert_sorted(sorted: Seq<EntryView>, x: EntryView)
    requires
        in_order(sorted),
    ensures
        in_order(insert_sorted(sorted, x)),
        insert_sorted(sorted, x).len() == sorted.len() + 1,
        insert_sorted(sorted, x).to_multiset() == sorted.to_multiset().insert(x),
        forall|k: int|
            0 <= k < insert_sorted(sorted, x).len() ==> #[trigger] insert_sorted(sorted, x)[k] == x
                || sorted.contains(insert_sorted(sorted, x)[k]),
    decreases sorted.len(),
{
    broadcast use vstd::seq_lib::group_to_multiset_ensures;

    let out = insert_sorted(sorted, x);
    if sorted.len() == 0 {
        assert(out =~= Seq::<EntryView>::empty().push(x));
    } else if entry_le(sorted.last(), x) {
        assert forall|i: int, j: int| 0 <= i < j < out.len() implies entry_le(out[i], out[j]) by {
            if j == sorted.len() {
                if i < sorted.len() - 1 {
                    assert(entry_le(sorted[i], sorted.last()));
                    lemma_entry_le_transitive(sorted[i], sorted.last(), x);
                }
            } else {
                assert(entry_le(sorted[i], sorted[j]));
            }
        }
        assert forall|k: int| 0 <= k < out.len() implies #[trigger] out[k] == x || sorted.contains(
            out[k],
        ) by {
            if k < sorted.len() {
                assert(sorted[k] == out[k]);
            }
        }
    } else {
        let shorter = sorted.drop_last();
        let last = sorted.last();
        assert(in_order(shorter)) by {
            assert forall|i: int, j: int| 0 <= i < j < shorter.len() implies entry_le(
                shorter[i],
                shorter[j],
            ) by {
                assert(entry_le(sorted[i], sorted[j]));
            }
        }
        lemma_insert_sorted(shorter, x);
        let inner = insert_sorted(shorter, x);
        lemma_entry_le_total(last, x);
        assert forall|i: int, j: int| 0 <= i < j < out.len() implies entry_le(out[i], out[j]) by {
            if j == out.len() - 1 {
                assert(out[j] == last);
                assert(out[i] == inner[i]);
                if inner[i] == x {
                } else {
                    assert(shorter.contains(inner[i]));
                    let w = choose|w: int| 0 <= w < shorter.len() && shorter[w] == inner[i];
                    assert(entry_le(sorted[w], sorted[sorted.len() - 1]));
                }
            } else {
                assert(out[i] == inner[i] && out[j] == inner[j]);
            }
        }
        assert forall|k: int| 0 <= k < out.len() implies #[trigger] out[k] == x || sorted.contains(
            out[k],
        ) by {
            if k < inner.len() {
                assert(out[k] == inner[k]);
                if inner[k] != x {
                    let w = choose|w: int| 0 <= w < shorter.len() && shorter[w] == inner[k];
                    assert(sorted[w] == inner[k]);
                }
            } else {
                assert(sorted[sorted.len() - 1] == out[k]);
            }
        }
        assert(sorted =~= shorter.push(last));
        assert(out.to_multiset() =~= sorted.to_multiset().insert(x));
    }
}

/// The sorted entries are the given entries, each as often as it was given,
/// in an order in which every entry may stand before every later one; so all
/// directories come before all files.
pub proof fn lemma_sorted_entries(entries: Seq<EntryView>)
    ensures
        sorted_entries(entries).len() == entries.len(),
        sorted_entries(entries).to_multiset() == entries.to_multiset(),
        in_order(sorted_entries(entries)),
        forall|i: int, j: int|
            0 <= i < j < entries.len() && sorted_entries(entries)[j].is_dir ==> sorted_entries(
                entries,
            )[i].is_dir,
    decreases entries.len(),
{
    broadcast use vstd::seq_lib::group_to_multiset_ensures;

    if entries.len() > 0 {
        lemma_sorted_entries(entries.drop_last());
        lemma_insert_sorted(sorted_entries(entries.drop_last()), entries.last());
        assert(entries =~= entries.drop_last().push(entries.last()));
    }
    let out = sorted_entries(entries);
    assert forall|i: int, j: int| 0 <= i < j < entries.len() && out[j].is_dir implies out[i].is_dir by {
        assert(entry_le(out[i], out[j]));
    }
}

proof fn lemma_insert_position(sorted: Seq<EntryView>, x: EntryView, at: int)
    requires
        0 <= at <= sorted.len(),
        at > 0 ==> entry_le(sorted[at - 1], x),
        forall|k: int| at <= k < sorted.len() ==> !entry_le(sorted[k], x),
    ensures
        insert_sorted(sorted, x) == sorted.insert(at, x),
    decreases sorted.len(),
{
    if sorted.len() == 0 {
        assert(sorted.insert(at, x) =~= seq![x]);
    } else if at == sorted.len() {
        assert(sorted.insert(at, x) =~= sorted.push(x));
    } else {
        lemma_insert_position(sorted.drop_last(), x, at);
        assert(sorted.insert(at, x) =~= sorted.drop_last().insert(at, x).push(sorted.last()));
    }
}

/// Whether `a` comes before `b` in the dictionary or equals it.
pub fn text_precedes(a: &str, b: &str) -> (le: bool)
    ensures
        le == text_le(a@, b@),
{
    let la = a.unicode_len();
    let lb = b.unicode_len();
    let mut i: usize = 0;
    proof {
        assert(a@.skip(0) =~= a@);
        assert(b@.skip(0) =~= b@);
    }
    while i < la && i < lb
        invariant
            i <= la,
            i <= lb,
            la == a@.len(),
            lb == b@.len(),
            text_le(a@, b@) == text_le(a@.skip(i as int), b@.skip(i as int)),
        decreases la - i,
    {
        let ca = a.get_char(i);
        let cb = b.get_char(i);
        proof {
            assert(a@.skip(i as int)[0] == ca);
            assert(b@.skip(i as int)[0] == cb);
            assert(a@.skip(i as int).drop_first() =~= a@.skip(i as int + 1));
            assert(b@.skip(i as int).drop_first() =~= b@.skip(i as int + 1));
        }
        if ca != cb {
            return (ca as u32) < (cb as u32);
        }
        i += 1;
    }
    i == la
}

/// Whether the entry `a` may stand before the entry `b` in the explorer.
pub fn entry_precedes(a: &ExplorerEntry, b: &ExplorerEntry) -> (le: bool)
    ensures
        le == entry_le(a@, b@),
{
    if a.is_dir != b.is_dir {
        return a.is_dir;
    }
    match file_name(a.path.as_str()) {
        None => true,
        Some(name_a) => match file_name(b.path.as_str()) {
            None => false,
            Some(name_b) => text_precedes(name_a.as_str(), name_b.as_str()),
        },
    }
}

/// Sorts the entries of a listing for the explorer: directories first, then
/// files, each group by file name; entries equal in kind and name keep their
/// order.
pub fn sort_entries(items: &mut Vec<ExplorerEntry>)
    ensures
        entry_views(final(items)@) == sorted_entries(entry_views(old(items)@)),
        final(items)@.len() == old(items)@.len(),
{
    let ghost all = entry_views(items@);
    let mut sorted: Vec<ExplorerEntry> = Vec::new();
    let mut i: usize = 0;
    while i < items.len()
        invariant
            i <= items.len(),
            all == entry_views(items@),
            entry_views(sorted@) == sorted_entries(all.take(i as int)),
            sorted@.len() == i,
        decreases items.len() - i,
    {
        let entry = items[i].clone();
        let ghost done = entry_views(sorted@);
        let mut at: usize = sorted.len();
        while at > 0 && !entry_precedes(&sorted[at - 1], &entry)
            invariant
                at <= sorted.len(),
                done == entry_views(sorted@),
                forall|k: int| at <= k < sorted.len() ==> !entry_le(done[k], entry@),
            decreases at,
        {
            at -= 1;
        }
        proof {
            assert(all.take(i as int + 1).drop_last() =~= all.take(i as int));
            assert(all.take(i as int + 1).last() == entry@);
            if at > 0 {
                assert(done[at - 1] == sorted@[at - 1]@);
            }
            lemma_insert_position(done, entry@, at as int);
        }
        let ghost shown = entry@;
        sorted.insert(at, entry);
        proof {
            assert(entry_views(sorted@) =~= done.insert(at as int, shown));
        }
        i += 1;
    }
    proof {
        assert(all.take(items.len() as int) =~= all);
    }
    *items = sorted;
}

} // verus!
