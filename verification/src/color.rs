//! The closed set of display colors a decoded run can carry.
//!
//! `Default` stands for "no color override": the rendering surface picks
//! its normal text color. The eight named colors are the standard SGR
//! foreground colors (parameter codes 30 through 37).

use crate::severity::Severity;
use vstd::prelude::*;

verus! {

/// A resolved display color for one run of text.
#[derive(Clone, Copy, Debug, PartialEq, Eq, Structural)]
pub enum Color {
    Default,
    Black,
    Red,
    Green,
    Yellow,
    Blue,
    Magenta,
    Cyan,
    White,
}

/// The base color a record's severity contributes before any SGR override:
/// warnings are yellow, errors are red, everything else is uncolored.
pub open spec fn base_color_spec(s: Severity) -> Color {
    match s {
        Severity::Warn => Color::Yellow,
        Severity::Error => Color::Red,
        _ => Color::Default,
    }
}

/// Maps a record's severity to the base color its runs start out with.
pub fn base_color(s: Severity) -> (c: Color)
    ensures
        c == base_color_spec(s),
{
    match s {
        Severity::Warn => Color::Yellow,
        Severity::Error => Color::Red,
        _ => Color::Default,
    }
}

} // verus!
