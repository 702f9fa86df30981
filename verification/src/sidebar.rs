//! The file explorer's open and expanded state.

use crate::text::same_text;
use crate::text::texts;
use vstd::prelude::*;

verus! {

/// State of the sidebar file explorer. Its width is a fractional pixel
/// measure and is kept by the shell that draws it.
#[derive(Debug, PartialEq)]
pub struct Sidebar {
    pub open: bool,
    /// The directories shown expanded.
    pub expanded_dirs: Vec<String>,
    pub show_all_files: bool,
}

/// The sidebar as mathematics.
pub ghost struct SidebarView {
    pub open: bool,
    pub expanded_dirs: Set<Seq<char>>,
    pub show_all_files: bool,
}

impl View for Sidebar {
    type V = SidebarView;

    open spec fn view(&self) -> SidebarView {
        SidebarView {
            open: self.open,
            expanded_dirs: texts(self.expanded_dirs@).to_set(),
            show_all_files: self.show_all_files,
        }
    }
}

/// The set with `path` taken out if it was in, and put in if it was not.
pub open spec fn toggled(dirs: Set<Seq<char>>, path: Seq<char>) -> Set<Seq<char>> {
    if dirs.contains(path) {
        dirs.remove(path)
    } else {
        dirs.insert(path)
    }
}

impl Clone for Sidebar {
    fn clone(&self) -> (copy: Self)
        ensures
            copy@ == self@,
    {
        let mut expanded: Vec<String> = Vec::new();
        let mut i: usize = 0;
        while i < self.expanded_dirs.len()
            invariant
                i <= self.expanded_dirs.len(),
                expanded@.len() == i,
                forall|j: int| 0 <= j < i ==> (#[trigger] expanded@[j])@ == self.expanded_dirs@[j]@,
            decreases self.expanded_dirs.len() - i,
        {
            expanded.push(self.expanded_dirs[i].clone());
            i += 1;
        }
        proof {
            assert(texts(expanded@) =~= texts(self.expanded_dirs@));
        }
        Sidebar { open: self.open, expanded_dirs: expanded, show_all_files: self.show_all_files }
    }
}

impl Default for Sidebar {
    /// A closed sidebar with nothing expanded that hides non-markdown files.
    fn default() -> (sidebar: Self)
        ensures
            sidebar@ == Sidebar::default_view(),
    {
        let sidebar = Sidebar { open: false, expanded_dirs: Vec::new(), show_all_files: false };
        proof {
            assert(texts(sidebar.expanded_dirs@) =~= Seq::<Seq<char>>::empty());
            assert(sidebar@.expanded_dirs =~= Set::<Seq<char>>::empty());
        }
        sidebar
    }
}

impl Sidebar {
    /// The sidebar of a new window: closed, nothing expanded, non-markdown
    /// files hidden.
    pub open spec fn default_view() -> SidebarView {
        SidebarView { open: false, expanded_dirs: Set::empty(), show_all_files: false }
    }

    /// Whether the directory is shown expanded.
    pub fn is_expanded(&self, path: &str) -> (expanded: bool)
        ensures
            expanded == self@.expanded_dirs.contains(path@),
    {
        let ghost dirs = texts(self.expanded_dirs@);
        let mut i: usize = 0;
        while i < self.expanded_dirs.len()
            invariant
                i <= self.expanded_dirs.len(),
                dirs == texts(self.expanded_dirs@),
                forall|j: int| 0 <= j < i ==> dirs[j] != path@,
            decreases self.expanded_dirs.len() - i,
        {
            if same_text(self.expanded_dirs[i].as_str(), path) {
                proof {
                    assert(dirs[i as int] == path@);
                }
                return true;
            }
            i += 1;
        }
        false
    }

    /// Expands the directory if it is collapsed and collapses it if it is
    /// expanded; the other directories stay as they are.
    pub fn toggle_expansion(&mut self, path: &str)
        ensures
            final(self)@ == (SidebarView {
                expanded_dirs: toggled(old(self)@.expanded_dirs, path@),
                ..old(self)@
            }),
    {
        let ghost before = texts(self.expanded_dirs@);
        let mut kept: Vec<String> = Vec::new();
        let mut found = false;
        let mut i: usize = 0;
        proof {
            assert(texts(kept@).to_set() =~= before.take(0).to_set().remove(path@));
        }
        while i < self.expanded_dirs.len()
            invariant
                i <= self.expanded_dirs.len(),
                before == texts(self.expanded_dirs@),
                found == before.take(i as int).to_set().contains(path@),
                texts(kept@).to_set() == before.take(i as int).to_set().remove(path@),
            decreases self.expanded_dirs.len() - i,
        {
            let ghost shorter = before.take(i as int);
            let ghost kept_before = texts(kept@);
            proof {
                assert(before.take(i as int + 1) =~= shorter.push(before[i as int]));
                shorter.lemma_push_to_set_commute(before[i as int]);
            }
            if same_text(self.expanded_dirs[i].as_str(), path) {
                found = true;
                proof {
                    assert(shorter.to_set().insert(path@).remove(path@) =~= shorter.to_set().remove(
                        path@,
                    ));
                }
            } else {
                kept.push(self.expanded_dirs[i].clone());
                proof {
                    assert(texts(kept@) =~= kept_before.push(before[i as int]));
                    kept_before.lemma_push_to_set_commute(before[i as int]);
                    assert(shorter.to_set().remove(path@).insert(before[i as int])
                        =~= shorter.to_set().insert(before[i as int]).remove(path@));
                }
            }
            i += 1;
        }
        proof {
            assert(before.take(self.expanded_dirs.len() as int) =~= before);
        }
        if !found {
            let ghost kept_before = texts(kept@);
            kept.push(path.to_owned());
            proof {
                assert(texts(kept@) =~= kept_before.push(path@));
                kept_before.lemma_push_to_set_commute(path@);
                assert(before.to_set().remove(path@) =~= before.to_set());
            }
        }
        self.expanded_dirs = kept;
    }

    /// Collapses every directory.
    pub fn collapse_all(&mut self)
        ensures
            final(self)@ == (SidebarView { expanded_dirs: Set::empty(), ..old(self)@ }),
    {
        self.expanded_dirs = Vec::new();
        proof {
            assert(texts(self.expanded_dirs@) =~= Seq::<Seq<char>>::empty());
            assert(self@.expanded_dirs =~= Set::<Seq<char>>::empty());
        }
    }
}

/// Toggling a directory twice leaves the expanded directories as they were.
pub proof fn lemma_toggle_twice(dirs: Set<Seq<char>>, path: Seq<char>)
    ensures
        toggled(toggled(dirs, path), path) == dirs,
{
    assert(toggled(toggled(dirs, path), path) =~= dirs);
}

/// Toggling one directory does not touch another.
pub proof fn lemma_toggle_leaves_others(dirs: Set<Seq<char>>, path: Seq<char>, other: Seq<char>)
    requires
        other != path,
    ensures
        toggled(dirs, path).contains(other) == dirs.contains(other),
        toggled(dirs, path).contains(path) == !dirs.contains(path),
{
}

} // verus!
