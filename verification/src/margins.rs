//! Margin data model: pixel margins, content rectangles and trim results.

use vstd::prelude::*;

verus! {

/// Margin information in pixels.
#[derive(Clone, Copy, Debug, PartialEq, Eq, Structural)]
pub struct Margins {
    pub top: u32,
    pub bottom: u32,
    pub left: u32,
    pub right: u32,
}

impl Margins {
    /// Create uniform margins.
    pub fn uniform(value: u32) -> (m: Margins)
        ensures
            m.top == value,
            m.bottom == value,
            m.left == value,
            m.right == value,
    {
        Margins { top: value, bottom: value, left: value, right: value }
    }

    /// Total horizontal margin.
    pub fn total_horizontal(&self) -> (t: u32)
        requires
            self.left + self.right <= u32::MAX,
        ensures
            t == self.left + self.right,
    {
        self.left + self.right
    }

    /// Total vertical margin.
    pub fn total_vertical(&self) -> (t: u32)
        requires
            self.top + self.bottom <= u32::MAX,
        ensures
            t == self.top + self.bottom,
    {
        self.top + self.bottom
    }
}

impl Default for Margins {
    /// Zero margins on every side.
    fn default() -> (m: Margins)
        ensures
            m.top == 0 && m.bottom == 0 && m.left == 0 && m.right == 0,
    {
        Margins { top: 0, bottom: 0, left: 0, right: 0 }
    }
}

/// Content rectangle inside an image.
#[derive(Clone, Copy, Debug, PartialEq, Eq, Structural)]
pub struct ContentRect {
    pub x: u32,
    pub y: u32,
    pub width: u32,
    pub height: u32,
}

} // verus!

