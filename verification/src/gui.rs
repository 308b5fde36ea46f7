use vstd::prelude::*;

verus! {

/// The figures that the overlay shows.
pub struct GuiInfo {
    pub fps: u32,
    pub notes_collected: u32,
}

} // verus!
