//! Window geometry in logical pixels, as reported by the windowing system.

use vstd::prelude::*;

verus! {

/// Top-left corner of a window.
#[derive(Debug, Clone, Copy, PartialEq, Eq, Structural)]
pub struct Position {
    pub x: i32,
    pub y: i32,
}

/// Extent of a window's content area.
#[derive(Debug, Clone, Copy, PartialEq, Eq, Structural)]
pub struct Size {
    pub width: u32,
    pub height: u32,
}

/// Position and inner size of a window, always in absolute logical pixels.
#[derive(Debug, Clone, Copy, PartialEq, Eq, Structural)]
pub struct WindowMetrics {
    /// Top-left corner of the window.
    pub position: Position,
    /// Size of the inner content area.
    pub size: Size,
}

impl Default for Position {
    fn default() -> (position: Self)
        ensures
            position == (Position { x: 0, y: 0 }),
    {
        Position { x: 0, y: 0 }
    }
}

impl Default for Size {
    fn default() -> (size: Self)
        ensures
            size == (Size { width: 0, height: 0 }),
    {
        Size { width: 0, height: 0 }
    }
}

impl Default for WindowMetrics {
    fn default() -> (metrics: Self)
        ensures
            metrics == (WindowMetrics {
                position: Position { x: 0, y: 0 },
                size: Size { width: 0, height: 0 },
            }),
    {
        WindowMetrics { position: Position { x: 0, y: 0 }, size: Size { width: 0, height: 0 } }
    }
}

/// How much larger a window's outer frame is than its content area.
#[derive(Debug, Clone, Copy, PartialEq, Eq, Structural)]
pub struct OuterToInnerMetrics {
    pub width_delta: u32,
    pub height_delta: u32,
}

/// `a - b`, or zero where `b` is the larger.
pub open spec fn minus_or_zero(a: u32, b: u32) -> u32 {
    if a >= b {
        (a - b) as u32
    } else {
        0
    }
}

/// The decoration deltas measured from one window's outer and inner size.
pub open spec fn measured_deltas(outer: Size, inner: Size) -> OuterToInnerMetrics {
    OuterToInnerMetrics {
        width_delta: minus_or_zero(outer.width, inner.width),
        height_delta: minus_or_zero(outer.height, inner.height),
    }
}

/// The inner size that belongs to an outer size: the outer size less the
/// known deltas, or the outer size itself while no deltas are known.
pub open spec fn inner_size_of(outer: Size, metrics: Option<OuterToInnerMetrics>) -> Size {
    match metrics {
        Some(m) => Size {
            width: minus_or_zero(outer.width, m.width_delta),
            height: minus_or_zero(outer.height, m.height_delta),
        },
        None => outer,
    }
}

/// Records the decoration deltas of the first window that is measured; later
/// measurements leave the recorded deltas as they are.
pub fn update_outer_to_inner_metrics(
    known: &mut Option<OuterToInnerMetrics>,
    outer: Size,
    inner: Size,
)
    ensures
        *final(known) == (match *old(known) {
            Some(m) => Some(m),
            None => Some(measured_deltas(outer, inner)),
        }),
{
    if known.is_none() {
        *known = Some(
            OuterToInnerMetrics {
                width_delta: outer.width.saturating_sub(inner.width),
                height_delta: outer.height.saturating_sub(inner.height),
            },
        );
    }
}

/// The inner size of a window with the given outer size.
pub fn outer_to_inner_size(outer: Size, metrics: Option<OuterToInnerMetrics>) -> (inner: Size)
    ensures
        inner == inner_size_of(outer, metrics),
{
    match metrics {
        Some(m) => Size {
            width: outer.width.saturating_sub(m.width_delta),
            height: outer.height.saturating_sub(m.height_delta),
        },
        None => outer,
    }
}

/// The metrics of a window from what the windowing system reports: its outer
/// position where that is known (the origin otherwise), and its inner size,
/// derived from the outer size once the decoration deltas are known and taken
/// as reported until then.
pub fn capture_window_metrics(
    outer_position: Option<Position>,
    outer_size: Size,
    inner_size: Size,
    metrics: Option<OuterToInnerMetrics>,
) -> (captured: WindowMetrics)
    ensures
        captured.position == (match outer_position {
            Some(p) => p,
            None => Position { x: 0, y: 0 },
        }),
        captured.size == (match metrics {
            Some(_) => inner_size_of(outer_size, metrics),
            None => inner_size,
        }),
{
    let position = match outer_position {
        Some(p) => p,
        None => Position { x: 0, y: 0 },
    };
    let size = if metrics.is_some() {
        outer_to_inner_size(outer_size, metrics)
    } else {
        inner_size
    };
    WindowMetrics { position, size }
}

} // verus!
