//! The icons that the toolkit ships.

use vstd::prelude::*;

verus! {

/// An icon of the toolkit, by name.
#[derive(Clone, Copy, Debug, PartialEq, Eq)]
pub enum IconName {
    Check,
    Minus,
    Dash,
    Maximize,
    Minimize,
    Close,
    ChevronDown,
}

impl IconName {
    /// The path of the icon's drawing in the bundle of assets.
    pub open spec fn asset(self) -> Seq<char> {
        match self {
            IconName::Check => "icons/check.svg"@,
            IconName::Minus => "icons/minus.svg"@,
            IconName::Dash => "icons/dash.svg"@,
            IconName::Maximize => "icons/maximize.svg"@,
            IconName::Minimize => "icons/minimize.svg"@,
            IconName::Close => "icons/close.svg"@,
            IconName::ChevronDown => "icons/chevron-down.svg"@,
        }
    }

    /// The path of the icon's drawing in the bundle of assets.
    pub fn path(self) -> (r: String)
        ensures
            r@ == self.asset(),
    {
        let path: &str = match self {
            IconName::Check => "icons/check.svg",
            IconName::Minus => "icons/minus.svg",
            IconName::Dash => "icons/dash.svg",
            IconName::Maximize => "icons/maximize.svg",
            IconName::Minimize => "icons/minimize.svg",
            IconName::Close => "icons/close.svg",
            IconName::ChevronDown => "icons/chevron-down.svg",
        };
        path.to_owned()
    }
}

} // verus!
