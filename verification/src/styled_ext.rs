//! How far above the application's background a surface lies.

use vstd::prelude::*;

verus! {

/// The layer a surface is drawn on. A higher layer casts more shadow.
#[derive(Clone, Copy, Debug, PartialEq, Eq)]
pub enum ElevationIndex {
    /// Directly above the background.
    Surface,
    /// Above most elements, as a popover is.
    PopoverSurface,
    /// Above everything else, as a modal is.
    ModalSurface,
}

} // verus!
