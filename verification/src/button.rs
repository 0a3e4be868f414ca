//! The choices a button is configured with.

use vstd::prelude::*;

verus! {

/// How far a button's corners are rounded.
#[derive(Clone, Copy, Debug, PartialEq, Eq)]
pub enum ButtonRounded {
    Square,
    Small,
    Medium,
    Large,
}

/// How large a button's label is set.
#[derive(Clone, Copy, Debug, PartialEq, Eq)]
pub enum ButtonSize {
    Small,
    Medium,
}

/// Which of the theme's colour roles a button is painted in.
#[derive(Clone, Copy, Debug, PartialEq, Eq)]
pub enum ButtonStyle {
    Primary,
    Secondary,
    Danger,
}

} // verus!
