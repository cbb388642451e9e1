//! Tracking events and per-habit view modes.

use vstd::prelude::*;

verus! {

/// A user intent against one habit on one date.
#[derive(Clone, Copy, Debug, PartialEq, Eq, Structural)]
pub enum TrackEvent {
    Increment,
    Decrement,
}

/// The granularity a habit's grid is rendered at.
#[derive(Clone, Copy, Debug, PartialEq, Eq, Structural)]
pub enum ViewMode {
    Day,
    Week,
    Month,
    Year,
}

/// "DAY" / "WEEK" / "MONTH" / "YEAR".
pub open spec fn spec_view_mode_label(m: ViewMode) -> Seq<char> {
    match m {
        ViewMode::Day => "DAY"@,
        ViewMode::Week => "WEEK"@,
        ViewMode::Month => "MONTH"@,
        ViewMode::Year => "YEAR"@,
    }
}

impl ViewMode {
    /// The upper-case label shown in the status line.
    pub fn label(&self) -> (r: String)
        ensures
            r@ == spec_view_mode_label(*self),
    {
        match self {
            ViewMode::Day => "DAY".to_owned(),
            ViewMode::Week => "WEEK".to_owned(),
            ViewMode::Month => "MONTH".to_owned(),
            ViewMode::Year => "YEAR".to_owned(),
        }
    }
}

impl Default for ViewMode {
    fn default() -> (r: Self)
        ensures
            r == ViewMode::Day,
    {
        ViewMode::Day
    }
}

/// Whether a counted habit starts out as externally auto-incrementable.
pub fn default_auto() -> (r: bool)
    ensures
        r == false,
{
    false
}

} // verus!
