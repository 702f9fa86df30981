//! Pinned searches: patterns that stay highlighted in every window.

use crate::ids::current_time;
use crate::ids::random_uuid;
use crate::ids::uuid_simple;
use crate::ids::uuid_simple_text;
use crate::ids::Timestamp;
use crate::scan::first_true;
use crate::scan::lemma_first_true_is;
use crate::text::same_text;
use vstd::prelude::*;
use vstd::std_specs::convert::FromSpecImpl;
use vstd::string::StringExecFns;

verus! {

/// Highlight color of a pinned search. Yellow is missing on purpose: it
/// marks the active search.
#[derive(Debug, Clone, Copy, PartialEq, Eq, Hash, Structural)]
pub enum HighlightColor {
    Green,
    Blue,
    Pink,
    Orange,
    Purple,
}

impl Default for HighlightColor {
    fn default() -> (color: Self)
        ensures
            color == HighlightColor::Green,
    {
        HighlightColor::Green
    }
}

/// All colors, in the order in which they are handed out.
pub open spec fn all_colors() -> Seq<HighlightColor> {
    seq![
        HighlightColor::Green,
        HighlightColor::Blue,
        HighlightColor::Pink,
        HighlightColor::Orange,
        HighlightColor::Purple,
    ]
}

/// The style class of a color.
pub open spec fn color_css_class(color: HighlightColor) -> Seq<char> {
    match color {
        HighlightColor::Green => "highlight-green"@,
        HighlightColor::Blue => "highlight-blue"@,
        HighlightColor::Pink => "highlight-pink"@,
        HighlightColor::Orange => "highlight-orange"@,
        HighlightColor::Purple => "highlight-purple"@,
    }
}

/// The name of a color as the page's script knows it.
pub open spec fn color_js_name(color: HighlightColor) -> Seq<char> {
    match color {
        HighlightColor::Green => "green"@,
        HighlightColor::Blue => "blue"@,
        HighlightColor::Pink => "pink"@,
        HighlightColor::Orange => "orange"@,
        HighlightColor::Purple => "purple"@,
    }
}

impl HighlightColor {
    /// All colors, in the order in which they are handed out.
    pub fn all() -> (colors: Vec<HighlightColor>)
        ensures
            colors@ == all_colors(),
    {
        let mut colors: Vec<HighlightColor> = Vec::new();
        colors.push(HighlightColor::Green);
        colors.push(HighlightColor::Blue);
        colors.push(HighlightColor::Pink);
        colors.push(HighlightColor::Orange);
        colors.push(HighlightColor::Purple);
        proof {
            assert(colors@ =~= all_colors());
        }
        colors
    }

    /// The style class for this color.
    pub fn css_class(&self) -> (class: &'static str)
        ensures
            class@ == color_css_class(*self),
    {
        match self {
            HighlightColor::Green => "highlight-green",
            HighlightColor::Blue => "highlight-blue",
            HighlightColor::Pink => "highlight-pink",
            HighlightColor::Orange => "highlight-orange",
            HighlightColor::Purple => "highlight-purple",
        }
    }

    /// The color's name for the page's script.
    pub fn to_js_name(self) -> (name: &'static str)
        ensures
            name@ == color_js_name(self),
    {
        match self {
            HighlightColor::Green => "green",
            HighlightColor::Blue => "blue",
            HighlightColor::Pink => "pink",
            HighlightColor::Orange => "orange",
            HighlightColor::Purple => "purple",
        }
    }
}

/// The text of the identifier that is made from the 128-bit value `value`:
/// `ps_` and the value's 32 hexadecimal digits.
pub open spec fn generated_id(value: u128) -> Seq<char> {
    "ps_"@ + uuid_simple_text(value)
}

/// Unique identifier of a pinned search.
#[derive(Debug, PartialEq, Eq, Hash)]
pub struct PinnedSearchId(pub String);

impl View for PinnedSearchId {
    type V = Seq<char>;

    open spec fn view(&self) -> Seq<char> {
        self.0@
    }
}

impl Clone for PinnedSearchId {
    fn clone(&self) -> (copy: Self)
        ensures
            copy@ == self@,
    {
        PinnedSearchId(self.0.clone())
    }
}

impl Default for PinnedSearchId {
    /// A fresh identifier.
    fn default() -> (id: Self)
        ensures
            exists|value: u128| id@ == generated_id(value),
    {
        PinnedSearchId::new()
    }
}

impl From<String> for PinnedSearchId {
    fn from(text: String) -> (id: Self) {
        PinnedSearchId(text)
    }
}

impl FromSpecImpl<String> for PinnedSearchId {
    open spec fn obeys_from_spec() -> bool {
        true
    }

    open spec fn from_spec(text: String) -> Self {
        PinnedSearchId(text)
    }
}

impl PinnedSearchId {
    /// A fresh identifier: `ps_` followed by the 32 hexadecimal digits of a
    /// random 128-bit value.
    pub fn new() -> (id: Self)
        ensures
            exists|value: u128| id@ == generated_id(value),
    {
        let value = random_uuid();
        let id = PinnedSearchId::from_uuid(value);
        assert(id@ == generated_id(value));
        id
    }

    /// The identifier made from the given 128-bit value.
    pub fn from_uuid(value: u128) -> (id: Self)
        ensures
            id@ == generated_id(value),
            id@.len() == 35,
    {
        proof {
            reveal_strlit("ps_");
        }
        let digits = uuid_simple(value);
        PinnedSearchId("ps_".to_owned().concat(digits.as_str()))
    }

    /// The identifier as text.
    pub fn as_str(&self) -> (text: &str)
        ensures
            text@ == self@,
    {
        self.0.as_str()
    }

    /// The identifier as an owned text.
    pub fn to_text(&self) -> (text: String)
        ensures
            text@ == self@,
    {
        self.0.clone()
    }

    /// Whether both identifiers read the same.
    pub fn same_as(&self, other: &PinnedSearchId) -> (same: bool)
        ensures
            same == (self@ == other@),
    {
        same_text(self.0.as_str(), other.0.as_str())
    }
}

/// A pinned search as mathematics.
pub ghost struct PinnedSearchView {
    pub id: Seq<char>,
    pub pattern: Seq<char>,
    pub color: HighlightColor,
    pub case_sensitive: bool,
    pub disabled: bool,
    pub created_at: Timestamp,
}

/// A pinned search entry.
#[derive(Debug, PartialEq)]
pub struct PinnedSearch {
    /// Unique identifier.
    pub id: PinnedSearchId,
    /// Search pattern: plain text, not a regular expression.
    pub pattern: String,
    /// Highlight color.
    pub color: HighlightColor,
    /// Whether matching respects case.
    pub case_sensitive: bool,
    /// Whether the highlight is hidden while the entry is kept.
    pub disabled: bool,
    /// When the entry was made.
    pub created_at: Timestamp,
}

impl View for PinnedSearch {
    type V = PinnedSearchView;

    open spec fn view(&self) -> PinnedSearchView {
        PinnedSearchView {
            id: self.id@,
            pattern: self.pattern@,
            color: self.color,
            case_sensitive: self.case_sensitive,
            disabled: self.disabled,
            created_at: self.created_at,
        }
    }
}

impl Clone for PinnedSearch {
    fn clone(&self) -> (copy: Self)
        ensures
            copy@ == self@,
    {
        PinnedSearch {
            id: self.id.clone(),
            pattern: self.pattern.clone(),
            color: self.color,
            case_sensitive: self.case_sensitive,
            disabled: self.disabled,
            created_at: self.created_at,
        }
    }
}

/// The entry that is made for `pattern` in `color` from the 128-bit value of
/// its identifier and the time of its making: shown, and matching without
/// regard to case.
pub open spec fn new_search(
    id_value: u128,
    created_at: Timestamp,
    pattern: Seq<char>,
    color: HighlightColor,
) -> PinnedSearchView {
    PinnedSearchView {
        id: generated_id(id_value),
        pattern,
        color,
        case_sensitive: false,
        disabled: false,
        created_at,
    }
}

impl PinnedSearch {
    /// A new entry for `pattern` in `color`, with a fresh identifier and the
    /// current time.
    pub fn new(pattern: &str, color: HighlightColor) -> (pinned: Self)
        ensures
            exists|id_value: u128|
                pinned@ == new_search(id_value, pinned@.created_at, pattern@, color),
    {
        let id_value = random_uuid();
        let created_at = current_time();
        let pinned = PinnedSearch::with_identity(id_value, created_at, pattern, color);
        assert(pinned@ == new_search(id_value, pinned@.created_at, pattern@, color));
        pinned
    }

    /// The entry for `pattern` in `color` whose identifier is made from
    /// `id_value` and that was made at `created_at`.
    pub fn with_identity(
        id_value: u128,
        created_at: Timestamp,
        pattern: &str,
        color: HighlightColor,
    ) -> (pinned: Self)
        ensures
            pinned@ == new_search(id_value, created_at, pattern@, color),
    {
        PinnedSearch {
            id: PinnedSearchId::from_uuid(id_value),
            pattern: pattern.to_owned(),
            color,
            case_sensitive: false,
            disabled: false,
            created_at,
        }
    }
}

/// The views of a sequence of entries.
pub open spec fn search_views(searches: Seq<PinnedSearch>) -> Seq<PinnedSearchView> {
    Seq::new(searches.len(), |i: int| searches[i]@)
}

/// How many of the entries have the given color.
pub open spec fn color_uses(searches: Seq<PinnedSearchView>, color: HighlightColor) -> nat
    decreases searches.len(),
{
    if searches.len() == 0 {
        0
    } else {
        color_uses(searches.drop_last(), color) + (if searches.last().color == color {
            1nat
        } else {
            0nat
        })
    }
}

/// Whether no color is used less often than `color`.
pub open spec fn is_least_used(searches: Seq<PinnedSearchView>, color: HighlightColor) -> bool {
    forall|other: HighlightColor|
        color_uses(searches, color) <= #[trigger] color_uses(searches, other)
}

proof fn lemma_least_used(searches: Seq<PinnedSearchView>, color: HighlightColor)
    requires
        color_uses(searches, color) <= color_uses(searches, HighlightColor::Green),
        color_uses(searches, color) <= color_uses(searches, HighlightColor::Blue),
        color_uses(searches, color) <= color_uses(searches, HighlightColor::Pink),
        color_uses(searches, color) <= color_uses(searches, HighlightColor::Orange),
        color_uses(searches, color) <= color_uses(searches, HighlightColor::Purple),
    ensures
        is_least_used(searches, color),
{
    assert forall|other: HighlightColor|
        color_uses(searches, color) <= #[trigger] color_uses(searches, other) by {
        match other {
            HighlightColor::Green => {},
            HighlightColor::Blue => {},
            HighlightColor::Pink => {},
            HighlightColor::Orange => {},
            HighlightColor::Purple => {},
        }
    }
}

/// The color for the next entry: the one used least, and among several of
/// those the first in the order of `all_colors`.
pub open spec fn least_used_color(searches: Seq<PinnedSearchView>) -> HighlightColor {
    if is_least_used(searches, HighlightColor::Green) {
        HighlightColor::Green
    } else if is_least_used(searches, HighlightColor::Blue) {
        HighlightColor::Blue
    } else if is_least_used(searches, HighlightColor::Pink) {
        HighlightColor::Pink
    } else if is_least_used(searches, HighlightColor::Orange) {
        HighlightColor::Orange
    } else {
        HighlightColor::Purple
    }
}

/// The entries without those that carry the identifier `id`, in their order.
pub open spec fn without_id(searches: Seq<PinnedSearchView>, id: Seq<char>) -> Seq<
    PinnedSearchView,
>
    decreases searches.len(),
{
    if searches.len() == 0 {
        Seq::empty()
    } else if searches.last().id == id {
        without_id(searches.drop_last(), id)
    } else {
        without_id(searches.drop_last(), id).push(searches.last())
    }
}

/// For each entry, whether it carries the identifier `id`.
pub open spec fn has_id(searches: Seq<PinnedSearchView>, id: Seq<char>) -> Seq<bool> {
    Seq::new(searches.len(), |i: int| searches[i].id == id)
}

/// Whether some entry carries the identifier `id`.
pub open spec fn knows_id(searches: Seq<PinnedSearchView>, id: Seq<char>) -> bool {
    first_true(has_id(searches, id)) < searches.len()
}

/// The entries after the first that carries `id` was given `color`.
pub open spec fn with_color(
    searches: Seq<PinnedSearchView>,
    id: Seq<char>,
    color: HighlightColor,
) -> Seq<PinnedSearchView> {
    let at = first_true(has_id(searches, id));
    if at < searches.len() {
        searches.update(at, PinnedSearchView { color, ..searches[at] })
    } else {
        searches
    }
}

/// The entries after the first that carries `id` was switched from shown to
/// hidden or back.
pub open spec fn with_toggled(searches: Seq<PinnedSearchView>, id: Seq<char>) -> Seq<
    PinnedSearchView,
> {
    let at = first_true(has_id(searches, id));
    if at < searches.len() {
        searches.update(at, PinnedSearchView { disabled: !searches[at].disabled, ..searches[at] })
    } else {
        searches
    }
}

/// For each entry, whether its pattern is `pattern`.
pub open spec fn has_pattern(searches: Seq<PinnedSearchView>, pattern: Seq<char>) -> Seq<bool> {
    Seq::new(searches.len(), |i: int| searches[i].pattern == pattern)
}

proof fn lemma_without_id_length(searches: Seq<PinnedSearchView>, id: Seq<char>)
    ensures
        without_id(searches, id).len() <= searches.len(),
        without_id(searches, id).len() < searches.len() <==> knows_id(searches, id),
    decreases searches.len(),
{
    crate::scan::lemma_first_true(has_id(searches, id));
    if searches.len() > 0 {
        let shorter = searches.drop_last();
        lemma_without_id_length(shorter, id);
        crate::scan::lemma_first_true(has_id(shorter, id));
        assert(has_id(searches, id).drop_last() =~= has_id(shorter, id));
    }
}

/// The list of pinned searches as mathematics.
pub ghost struct PinnedSearchesView {
    pub version: u32,
    pub searches: Seq<PinnedSearchView>,
}

/// What has to happen to the stored file so that it matches the list.
#[derive(Debug, Clone, Copy, PartialEq, Eq, Structural)]
pub enum SaveAction {
    /// The list is empty: the file is removed if it exists.
    RemoveFile,
    /// The list is written to the file.
    WriteFile,
}

/// The pinned searches of the application, in the order they were pinned.
#[derive(Debug, PartialEq)]
pub struct PinnedSearches {
    /// Version of the stored format.
    pub version: u32,
    /// The entries.
    pub pinned_searches: Vec<PinnedSearch>,
}

impl View for PinnedSearches {
    type V = PinnedSearchesView;

    open spec fn view(&self) -> PinnedSearchesView {
        PinnedSearchesView {
            version: self.version,
            searches: search_views(self.pinned_searches@),
        }
    }
}

impl Default for PinnedSearches {
    /// An empty list in the current format.
    fn default() -> (list: Self)
        ensures
            list@ == (PinnedSearchesView { version: 1, searches: Seq::empty() }),
    {
        let list = PinnedSearches { version: default_version(), pinned_searches: Vec::new() };
        proof {
            assert(list@.searches =~= Seq::<PinnedSearchView>::empty());
        }
        list
    }
}

impl Clone for PinnedSearches {
    fn clone(&self) -> (copy: Self)
        ensures
            copy@ == self@,
    {
        let mut entries: Vec<PinnedSearch> = Vec::new();
        let mut i: usize = 0;
        while i < self.pinned_searches.len()
            invariant
                i <= self.pinned_searches.len(),
                entries@.len() == i,
                forall|j: int| 0 <= j < i ==> (#[trigger] entries@[j])@ == self.pinned_searches@[j]@,
            decreases self.pinned_searches.len() - i,
        {
            entries.push(self.pinned_searches[i].clone());
            i += 1;
        }
        let copy = PinnedSearches { version: self.version, pinned_searches: entries };
        proof {
            assert(copy@.searches =~= self@.searches);
        }
        copy
    }
}

/// The version of the stored format that is assumed where a file states none.
pub fn default_version() -> (version: u32)
    ensures
        version == 1,
{
    1
}

impl PinnedSearches {
    /// What saving the list does to the stored file.
    pub fn save_action(&self) -> (action: SaveAction)
        ensures
            action == (if self@.searches.len() == 0 {
                SaveAction::RemoveFile
            } else {
                SaveAction::WriteFile
            }),
    {
        if self.pinned_searches.len() == 0 {
            SaveAction::RemoveFile
        } else {
            SaveAction::WriteFile
        }
    }

    /// Pins `pattern` under a fresh identifier, in the color used least so
    /// far, and returns the new entry.
    pub fn add(&mut self, pattern: &str) -> (added: &PinnedSearch)
        ensures
            final(self)@ == (PinnedSearchesView {
                searches: old(self)@.searches.push(added@),
                ..old(self)@
            }),
            exists|id_value: u128|
                added@ == new_search(
                    id_value,
                    added@.created_at,
                    pattern@,
                    least_used_color(old(self)@.searches),
                ),
    {
        let id_value = random_uuid();
        let created_at = current_time();
        let ghost before = self@;
        let added = self.add_with_identity(id_value, created_at, pattern);
        assert(added@ == new_search(
            id_value,
            added@.created_at,
            pattern@,
            least_used_color(before.searches),
        ));
        added
    }

    /// Pins `pattern` under the identifier made from `id_value`, as made at
    /// `created_at`, in the color used least so far, and returns the new
    /// entry.
    pub fn add_with_identity(
        &mut self,
        id_value: u128,
        created_at: Timestamp,
        pattern: &str,
    ) -> (added: &PinnedSearch)
        ensures
            final(self)@ == (PinnedSearchesView {
                searches: old(self)@.searches.push(added@),
                ..old(self)@
            }),
            added@ == new_search(
                id_value,
                created_at,
                pattern@,
                least_used_color(old(self)@.searches),
            ),
    {
        let ghost before = self@;
        let color = self.next_color();
        let pinned = PinnedSearch::with_identity(id_value, created_at, pattern, color);
        let ghost shown = pinned@;
        self.pinned_searches.push(pinned);
        proof {
            assert(self@.searches =~= before.searches.push(shown));
        }
        let last = self.pinned_searches.len() - 1;
        &self.pinned_searches[last]
    }

    /// Removes every entry with the identifier `id` and says whether there
    /// was one.
    pub fn remove(&mut self, id: &PinnedSearchId) -> (removed: bool)
        ensures
            removed == knows_id(old(self)@.searches, id@),
            final(self)@ == (PinnedSearchesView {
                searches: without_id(old(self)@.searches, id@),
                ..old(self)@
            }),
    {
        let ghost before = self@.searches;
        let len_before = self.pinned_searches.len();
        let mut kept: Vec<PinnedSearch> = Vec::new();
        let mut i: usize = 0;
        while i < self.pinned_searches.len()
            invariant
                i <= self.pinned_searches.len(),
                before == search_views(self.pinned_searches@),
                search_views(kept@) == without_id(before.take(i as int), id@),
            decreases self.pinned_searches.len() - i,
        {
            proof {
                assert(before.take(i as int + 1).drop_last() =~= before.take(i as int));
            }
            let ghost kept_before = search_views(kept@);
            if !self.pinned_searches[i].id.same_as(id) {
                kept.push(self.pinned_searches[i].clone());
                proof {
                    assert(search_views(kept@) =~= kept_before.push(before[i as int]));
                }
            }
            i += 1;
        }
        proof {
            assert(before.take(len_before as int) =~= before);
            lemma_without_id_length(before, id@);
        }
        let removed = kept.len() < len_before;
        self.pinned_searches = kept;
        removed
    }

    fn find(&self, id: &PinnedSearchId) -> (found: Option<usize>)
        ensures
            match found {
                Some(i) => i < self@.searches.len() && i == first_true(
                    has_id(self@.searches, id@),
                ),
                None => first_true(has_id(self@.searches, id@)) == self@.searches.len(),
            },
    {
        let ghost flags = has_id(self@.searches, id@);
        let mut i: usize = 0;
        while i < self.pinned_searches.len()
            invariant
                i <= self.pinned_searches.len(),
                flags == has_id(self@.searches, id@),
                forall|j: int| 0 <= j < i ==> !flags[j],
            decreases self.pinned_searches.len() - i,
        {
            if self.pinned_searches[i].id.same_as(id) {
                proof {
                    lemma_first_true_is(flags, i as int);
                }
                return Some(i);
            }
            i += 1;
        }
        proof {
            lemma_first_true_is(flags, self.pinned_searches.len() as int);
        }
        None
    }

    /// Gives the first entry with the identifier `id` the color `color` and
    /// says whether there is such an entry.
    pub fn set_color(&mut self, id: &PinnedSearchId, color: HighlightColor) -> (found: bool)
        ensures
            found == knows_id(old(self)@.searches, id@),
            final(self)@ == (PinnedSearchesView {
                searches: with_color(old(self)@.searches, id@, color),
                ..old(self)@
            }),
    {
        let ghost before = self@.searches;
        match self.find(id) {
            Some(i) => {
                self.pinned_searches[i].color = color;
                proof {
                    assert(self@.searches =~= with_color(before, id@, color));
                }
                true
            },
            None => false,
        }
    }

    /// Hides the first entry with the identifier `id` if it is shown, shows
    /// it if it is hidden, and says whether there is such an entry.
    pub fn toggle_disabled(&mut self, id: &PinnedSearchId) -> (found: bool)
        ensures
            found == knows_id(old(self)@.searches, id@),
            final(self)@ == (PinnedSearchesView {
                searches: with_toggled(old(self)@.searches, id@),
                ..old(self)@
            }),
    {
        let ghost before = self@.searches;
        match self.find(id) {
            Some(i) => {
                let disabled = self.pinned_searches[i].disabled;
                self.pinned_searches[i].disabled = !disabled;
                proof {
                    assert(self@.searches =~= with_toggled(before, id@));
                }
                true
            },
            None => false,
        }
    }

    /// Whether `pattern` is pinned already.
    pub fn contains_pattern(&self, pattern: &str) -> (pinned: bool)
        ensures
            pinned == (first_true(has_pattern(self@.searches, pattern@)) < self@.searches.len()),
    {
        let ghost flags = has_pattern(self@.searches, pattern@);
        let mut i: usize = 0;
        while i < self.pinned_searches.len()
            invariant
                i <= self.pinned_searches.len(),
                flags == has_pattern(self@.searches, pattern@),
                forall|j: int| 0 <= j < i ==> !flags[j],
            decreases self.pinned_searches.len() - i,
        {
            if same_text(self.pinned_searches[i].pattern.as_str(), pattern) {
                proof {
                    lemma_first_true_is(flags, i as int);
                }
                return true;
            }
            i += 1;
        }
        proof {
            lemma_first_true_is(flags, self.pinned_searches.len() as int);
        }
        false
    }

    fn count_color(&self, color: HighlightColor) -> (count: usize)
        ensures
            count == color_uses(self@.searches, color),
    {
        let ghost all = self@.searches;
        let mut count: usize = 0;
        let mut i: usize = 0;
        while i < self.pinned_searches.len()
            invariant
                i <= self.pinned_searches.len(),
                all == self@.searches,
                count <= i,
                count == color_uses(all.take(i as int), color),
            decreases self.pinned_searches.len() - i,
        {
            proof {
                assert(all.take(i as int + 1).drop_last() =~= all.take(i as int));
            }
            if self.pinned_searches[i].color == color {
                count += 1;
            }
            i += 1;
        }
        proof {
            assert(all.take(self.pinned_searches.len() as int) =~= all);
        }
        count
    }

    /// The color for the next entry: the one used least so far, and among
    /// several of those the first in the order of `all_colors`.
    pub fn next_color(&self) -> (color: HighlightColor)
        ensures
            color == least_used_color(self@.searches),
    {
        let green = self.count_color(HighlightColor::Green);
        let blue = self.count_color(HighlightColor::Blue);
        let pink = self.count_color(HighlightColor::Pink);
        let orange = self.count_color(HighlightColor::Orange);
        let purple = self.count_color(HighlightColor::Purple);
        let mut best = HighlightColor::Green;
        let mut least = green;
        if blue < least {
            best = HighlightColor::Blue;
            least = blue;
        }
        if pink < least {
            best = HighlightColor::Pink;
            least = pink;
        }
        if orange < least {
            best = HighlightColor::Orange;
            least = orange;
        }
        if purple < least {
            best = HighlightColor::Purple;
        }
        proof {
            let s = self@.searches;
            if green <= blue && green <= pink && green <= orange && green <= purple {
                lemma_least_used(s, HighlightColor::Green);
            }
            if blue <= green && blue <= pink && blue <= orange && blue <= purple {
                lemma_least_used(s, HighlightColor::Blue);
            }
            if pink <= green && pink <= blue && pink <= orange && pink <= purple {
                lemma_least_used(s, HighlightColor::Pink);
            }
            if orange <= green && orange <= blue && orange <= pink && orange <= purple {
                lemma_least_used(s, HighlightColor::Orange);
            }
        }
        best
    }
}

/// Pins `pattern` in the list and returns the identifier of the new entry.
/// The caller stores the list and tells the windows.
pub fn add_pinned_search(list: &mut PinnedSearches, pattern: &str) -> (id: PinnedSearchId)
    ensures
        final(list)@.version == old(list)@.version,
        final(list)@.searches.len() == old(list)@.searches.len() + 1,
        final(list)@.searches.drop_last() == old(list)@.searches,
        final(list)@.searches.last().id == id@,
        exists|id_value: u128|
            final(list)@.searches.last() == new_search(
                id_value,
                final(list)@.searches.last().created_at,
                pattern@,
                least_used_color(old(list)@.searches),
            ),
{
    let ghost before = list@.searches;
    let search = list.add(pattern);
    let id = search.id.clone();
    proof {
        assert(list@.searches.drop_last() =~= before);
    }
    id
}

/// Removes the entries with the identifier `id` from the list. Returns
/// whether anything changed, in which case the caller stores the list and
/// tells the windows.
pub fn remove_pinned_search(list: &mut PinnedSearches, id: &PinnedSearchId) -> (changed: bool)
    ensures
        changed == knows_id(old(list)@.searches, id@),
        final(list)@ == (PinnedSearchesView {
            searches: without_id(old(list)@.searches, id@),
            ..old(list)@
        }),
{
    list.remove(id)
}

/// Gives the entry with the identifier `id` a color. Returns whether there
/// is such an entry, in which case the caller stores the list and tells the
/// windows.
pub fn set_pinned_search_color(
    list: &mut PinnedSearches,
    id: &PinnedSearchId,
    color: HighlightColor,
) -> (changed: bool)
    ensures
        changed == knows_id(old(list)@.searches, id@),
        final(list)@ == (PinnedSearchesView {
            searches: with_color(old(list)@.searches, id@, color),
            ..old(list)@
        }),
{
    list.set_color(id, color)
}

/// Hides or shows the entry with the identifier `id`. Returns whether there
/// is such an entry, in which case the caller stores the list and tells the
/// windows.
pub fn toggle_pinned_search_disabled(list: &mut PinnedSearches, id: &PinnedSearchId) -> (changed:
    bool)
    ensures
        changed == knows_id(old(list)@.searches, id@),
        final(list)@ == (PinnedSearchesView {
            searches: with_toggled(old(list)@.searches, id@),
            ..old(list)@
        }),
{
    list.toggle_disabled(id)
}

} // verus!
