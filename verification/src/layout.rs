//! The pane layout: how the drawing region splits into the target pane,
//! the action pane and the output pane.

use vstd::prelude::*;

verus! {

/// A rectangle of the drawing region, in terminal cells.
#[derive(Clone, Copy, PartialEq, Eq, Structural, Debug)]
pub struct PaneRect {
    pub x: u16,
    pub y: u16,
    pub width: u16,
    pub height: u16,
}

/// How the output pane's border is drawn: set apart while the operator's
/// keystrokes are forwarded to a running child.
#[derive(Clone, Copy, PartialEq, Eq, Structural, Debug)]
pub enum OutputBorder {
    Forwarding,
    Normal,
}

/// The region is wide and tall enough to split, and the split stays
/// inside the coordinate range.
pub open spec fn splittable(area: PaneRect) -> bool {
    &&& area.width >= 4
    &&& area.height >= 1
    &&& area.x + 1 + area.width / 4 <= u16::MAX
    &&& area.y + area.height <= u16::MAX
}

/// The target pane's area: the top half of the left quarter column, one
/// cell in from the left edge.
pub open spec fn projects_area_of(area: PaneRect) -> PaneRect {
    PaneRect { x: (area.x + 1) as u16, y: area.y, width: area.width / 4, height: area.height / 2 }
}

/// The action pane's area: directly under the target pane.
pub open spec fn actions_area_of(area: PaneRect) -> PaneRect {
    PaneRect {
        x: (area.x + 1) as u16,
        y: (area.y + area.height / 2) as u16,
        width: area.width / 4,
        height: area.height / 2,
    }
}

/// The output pane's area: the rest of the region, to the right.
pub open spec fn output_area_of(area: PaneRect) -> PaneRect {
    PaneRect {
        x: (area.x + 1 + area.width / 4) as u16,
        y: area.y,
        width: (area.width / 4 * 3 - 1) as u16,
        height: (area.height - 1) as u16,
    }
}

/// Split the drawing region into the three pane areas: a left quarter
/// column holding the target pane stacked over the action pane, and the
/// rest as the output pane.
pub fn pane_layout(area: &PaneRect) -> (r: (PaneRect, PaneRect, PaneRect))
    requires
        splittable(*area),
    ensures
        r.0 == projects_area_of(*area),
        r.1 == actions_area_of(*area),
        r.2 == output_area_of(*area),
{
    let projects_area = PaneRect {
        x: area.x + 1,
        y: area.y,
        width: area.width / 4,
        height: area.height / 2,
    };
    let actions_area = PaneRect {
        x: area.x + 1,
        y: projects_area.y + projects_area.height,
        width: area.width / 4,
        height: area.height / 2,
    };
    let out_area = PaneRect {
        x: projects_area.x + projects_area.width,
        y: area.y,
        width: area.width / 4 * 3 - 1,
        height: area.height - 1,
    };
    (projects_area, actions_area, out_area)
}

} // verus!
