//! Surface materials.

use vstd::prelude::*;
use crate::image::{Color, color_wf};

verus! {

/// A surface material: base color, opacity flag (reserved; the current
/// shading algorithm does not read it) and a mirror-reflection flag.
#[derive(Clone, Copy, Debug, PartialEq, Eq, Structural)]
pub struct Material {
    pub color: Color,
    pub opaque: bool,
    pub reflective: bool,
}

impl Material {
    /// Channels of the base color within `[0, 1]`; shading relies on this.
    pub open spec fn wf(&self) -> bool {
        color_wf(self.color@)
    }
}

} // verus!
