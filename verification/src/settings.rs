//! Configuration surfaces: interaction gates, navigation tuning and style
//! sizes. Every gate is an independent boolean; any combination is handled.

use vstd::prelude::*;
use crate::rat::{Rat, rle};

verus! {

/// Gates for pointer interaction features.
#[derive(Clone, Copy, Debug, PartialEq, Eq, Structural)]
pub struct SettingsInteraction {
    pub clicking_enabled: bool,
    pub dragging_enabled: bool,
    pub selection_enabled: bool,
    pub selection_multi_enabled: bool,
}

impl Default for SettingsInteraction {
    /// Everything disabled, as for a read-only canvas.
    fn default() -> (r: Self)
        ensures
            !r.clicking_enabled,
            !r.dragging_enabled,
            !r.selection_enabled,
            !r.selection_multi_enabled,
    {
        SettingsInteraction {
            clicking_enabled: false,
            dragging_enabled: false,
            selection_enabled: false,
            selection_multi_enabled: false,
        }
    }
}

/// Gates and tuning for zoom, pan and fit-to-screen.
#[derive(Clone, Copy, Debug, PartialEq, Eq, Structural)]
pub struct SettingsNavigation {
    pub fit_to_screen_enabled: bool,
    pub zoom_and_pan_enabled: bool,
    /// Magnitude of the relative zoom step applied per zoom gesture.
    pub zoom_speed: Rat,
    /// Fraction of the graph diagonal kept as padding by fit-to-screen.
    pub screen_padding: Rat,
}

impl SettingsNavigation {
    /// Rationals well formed, padding nonnegative, and the zoom step small
    /// enough that zooming out keeps the zoom positive.
    pub open spec fn wf(self) -> bool {
        self.zoom_speed.wf() && self.screen_padding.wf() && rle((0int, 1int), self.screen_padding@)
            && rle((0int, 1int), self.zoom_speed@) && rle(self.zoom_speed@, (1int, 1int))
    }
}

impl Default for SettingsNavigation {
    /// Fit once on the first frame, navigation off, zoom step 1/10,
    /// padding 3/10.
    fn default() -> (r: Self)
        ensures
            r.fit_to_screen_enabled,
            !r.zoom_and_pan_enabled,
            r.zoom_speed@ == (1int, 10int),
            r.screen_padding@ == (3int, 10int),
            r.wf(),
    {
        SettingsNavigation {
            fit_to_screen_enabled: true,
            zoom_and_pan_enabled: false,
            zoom_speed: Rat { n: 1, d: 10 },
            screen_padding: Rat { n: 3, d: 10 },
        }
    }
}

/// Style sizes used by the geometry engine. The arrowhead angle is carried as
/// its cosine and sine, the exact form in which the rotation needs it.
#[derive(Clone, Copy, Debug, PartialEq, Eq, Structural)]
pub struct SettingsStyle {
    /// Radius added to a node per incident edge.
    pub edge_radius_weight: Rat,
    pub edge_width: Rat,
    /// Perpendicular offset step between parallel edges.
    pub edge_curve_size: Rat,
    /// Length of the arrowhead along the edge.
    pub edge_tip_size: Rat,
    /// Cosine of the arrowhead half-angle.
    pub edge_tip_cos: Rat,
    /// Sine of the arrowhead half-angle.
    pub edge_tip_sin: Rat,
}

impl SettingsStyle {
    /// All sizes well formed and the radius weight nonnegative.
    pub open spec fn wf(self) -> bool {
        self.edge_radius_weight.wf() && self.edge_width.wf() && self.edge_curve_size.wf()
            && self.edge_tip_size.wf() && self.edge_tip_cos.wf() && self.edge_tip_sin.wf() && rle(
            (0int, 1int),
            self.edge_radius_weight@,
        )
    }
}

impl Default for SettingsStyle {
    /// One radius unit per connection, width 2, curve step 20, tip length 15,
    /// and a 30-degree arrowhead half-angle given by cosine 866025/1000000 and
    /// sine 1/2.
    fn default() -> (r: Self)
        ensures
            r.edge_radius_weight@ == (1int, 1int),
            r.edge_width@ == (2int, 1int),
            r.edge_curve_size@ == (20int, 1int),
            r.edge_tip_size@ == (15int, 1int),
            r.edge_tip_cos@ == (866025int, 1000000int),
            r.edge_tip_sin@ == (1int, 2int),
            r.wf(),
    {
        SettingsStyle {
            edge_radius_weight: Rat { n: 1, d: 1 },
            edge_width: Rat { n: 2, d: 1 },
            edge_curve_size: Rat { n: 20, d: 1 },
            edge_tip_size: Rat { n: 15, d: 1 },
            edge_tip_cos: Rat { n: 866025, d: 1000000 },
            edge_tip_sin: Rat { n: 1, d: 2 },
        }
    }
}

} // verus!
