//! Picking a display among those that the system reports.

use crate::scan::first_true;
use crate::scan::lemma_first_true_is;
use vstd::prelude::*;

verus! {

/// One display: its origin and extent in the system's coordinates, and
/// whether it is the primary one.
#[derive(Debug, Clone, Copy, PartialEq, Eq, Structural)]
pub struct Display {
    pub x: i32,
    pub y: i32,
    pub width: u32,
    pub height: u32,
    pub is_primary: bool,
}

/// Whether the point lies on the display: at or right of its left edge and
/// left of its right edge, at or below its top edge and above its bottom
/// edge.
pub open spec fn display_contains(display: Display, x: int, y: int) -> bool {
    &&& display.x <= x < display.x + display.width
    &&& display.y <= y < display.y + display.height
}

/// For each display, whether it is the primary one.
pub open spec fn primary_flags(displays: Seq<Display>) -> Seq<bool> {
    Seq::new(displays.len(), |i: int| displays[i].is_primary)
}

/// For each display, whether the point lies on it.
pub open spec fn containing_flags(displays: Seq<Display>, x: int, y: int) -> Seq<bool> {
    Seq::new(displays.len(), |i: int| display_contains(displays[i], x, y))
}

/// The display to treat as primary: the first that is marked so, or the first
/// of all where none is marked, or none where there is no display.
pub open spec fn primary_index(displays: Seq<Display>) -> Option<int> {
    if displays.len() == 0 {
        None
    } else if first_true(primary_flags(displays)) < displays.len() {
        Some(first_true(primary_flags(displays)))
    } else {
        Some(0)
    }
}

/// The index of the display to treat as primary.
pub fn primary_display_index(displays: &[Display]) -> (index: Option<usize>)
    ensures
        match index {
            Some(i) => primary_index(displays@) == Some(i as int),
            None => primary_index(displays@) is None,
        },
{
    let ghost flags = primary_flags(displays@);
    let mut i: usize = 0;
    while i < displays.len()
        invariant
            i <= displays.len(),
            flags == primary_flags(displays@),
            forall|j: int| 0 <= j < i ==> !flags[j],
        decreases displays.len() - i,
    {
        if displays[i].is_primary {
            proof {
                lemma_first_true_is(flags, i as int);
            }
            return Some(i);
        }
        i += 1;
    }
    proof {
        lemma_first_true_is(flags, displays.len() as int);
    }
    if displays.len() > 0 {
        Some(0)
    } else {
        None
    }
}

/// The index of the first display on which the point lies.
pub fn find_display_index(x: i32, y: i32, displays: &[Display]) -> (index: Option<usize>)
    ensures
        match index {
            Some(i) => i < displays.len() && i == first_true(
                containing_flags(displays@, x as int, y as int),
            ),
            None => first_true(containing_flags(displays@, x as int, y as int)) == displays.len(),
        },
{
    let ghost flags = containing_flags(displays@, x as int, y as int);
    let mut i: usize = 0;
    while i < displays.len()
        invariant
            i <= displays.len(),
            flags == containing_flags(displays@, x as int, y as int),
            forall|j: int| 0 <= j < i ==> !flags[j],
        decreases displays.len() - i,
    {
        let display = displays[i];
        let left = display.x as i64;
        let top = display.y as i64;
        let right = left + display.width as i64;
        let bottom = top + display.height as i64;
        let px = x as i64;
        let py = y as i64;
        if px >= left && px < right && py >= top && py < bottom {
            proof {
                lemma_first_true_is(flags, i as int);
            }
            return Some(i);
        }
        i += 1;
    }
    proof {
        lemma_first_true_is(flags, displays.len() as int);
    }
    None
}

/// A vertical coordinate mirrored within a display, for systems that count
/// the cursor's `y` from the bottom: the display's bottom edge less `y`. The
/// mirrored coordinate must be one that can be written down.
pub fn flip_y(y: i32, display: &Display) -> (flipped: i32)
    requires
        i32::MIN <= display.y + display.height - y <= i32::MAX,
    ensures
        flipped == display.y + display.height - y,
{
    let bottom = display.y as i64 + display.height as i64;
    (bottom - y as i64) as i32
}

/// `flip_y` for any display and coordinate: `None` where the mirrored
/// coordinate cannot be written down.
pub fn checked_flip_y(y: i32, display: &Display) -> (flipped: Option<i32>)
    ensures
        match flipped {
            Some(f) => f == display.y + display.height - y,
            None => !(i32::MIN <= display.y + display.height - y <= i32::MAX),
        },
{
    let mirrored = display.y as i64 + display.height as i64 - y as i64;
    if mirrored >= i32::MIN as i64 && mirrored <= i32::MAX as i64 {
        Some(flip_y(y, display))
    } else {
        None
    }
}

/// Mirroring twice gives the coordinate back.
pub proof fn lemma_flip_y_twice(y: int, display: Display)
    ensures
        display.y + display.height - (display.y + display.height - y) == y,
{
}

} // verus!
