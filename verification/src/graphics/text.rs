//! Font handles.

use vstd::prelude::*;

verus! {

/// The index of a loaded font in the graphics context's font cache.
#[derive(Debug, Clone, Copy, PartialEq, Eq, Structural, Hash)]
pub struct FontId(pub usize);

/// A font, as a handle into the font cache.
#[derive(Debug, Clone, Copy, PartialEq, Eq, Structural)]
pub struct Font(pub FontId);

impl Default for Font {
    /// The default font, which is loaded first.
    fn default() -> (f: Font)
        ensures
            f == Font(FontId(0)),
    {
        Font(FontId(0))
    }
}

} // verus!
