//! State and rules of a small widget toolkit: the single-line text input, and
//! the plain choices that its sibling widgets are configured with.

pub mod boundary;
pub mod button;
pub mod calendar;
pub mod icon;
pub mod input;
pub mod label;
pub mod model;
pub mod offsets;
pub mod styled_ext;
