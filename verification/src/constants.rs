use vstd::prelude::*;

use crate::colors::presets::GrapesColors;

verus! {

/// The colour that shapes and renderers draw with until told otherwise.
pub const DEFAULT_FOREGROUND: GrapesColors = GrapesColors::White;

} // verus!
