//! Plain models of the terminal events the components react to, and the
//! result a component reports after handling one.

use vstd::prelude::*;

verus! {

/// The keys the finder and the input widget care about; everything else is
/// `Other`.
#[derive(Clone, Copy, Debug, PartialEq, Eq, Structural)]
pub enum KeyCode {
    Up,
    Down,
    Left,
    Right,
    Home,
    End,
    Backspace,
    Esc,
    Char(char),
    Other,
}

/// Modifier keys held together with a key press.
#[derive(Clone, Copy, Debug, PartialEq, Eq, Structural)]
pub struct KeyMods {
    pub shift: bool,
    pub control: bool,
    pub alt: bool,
}

impl KeyMods {
    pub fn none() -> (r: KeyMods)
        ensures
            r == (KeyMods { shift: false, control: false, alt: false }),
    {
        KeyMods { shift: false, control: false, alt: false }
    }

    /// True when no modifier at all is held.
    pub fn is_empty(&self) -> (r: bool)
        ensures
            r == (!self.shift && !self.control && !self.alt),
    {
        !self.shift && !self.control && !self.alt
    }

    /// True when a modifier other than shift is held.
    pub fn beyond_shift(&self) -> (r: bool)
        ensures
            r == (self.control || self.alt),
    {
        self.control || self.alt
    }
}

/// A terminal event, reduced to what the components read.
#[derive(Clone, Copy, Debug, PartialEq, Eq, Structural)]
pub enum Event {
    Key(KeyCode, KeyMods),
    Resize,
    Other,
}

/// What a component reports after seeing an event: whether it must be drawn
/// again, and whether the event is consumed (stops propagating).
#[derive(Default, Debug, PartialEq, Eq, Structural)]
pub struct EventHandleResult {
    pub redraw: bool,
    pub consumed: bool,
}

impl EventHandleResult {
    pub fn all() -> (r: Self)
        ensures
            r.redraw && r.consumed,
    {
        Self { redraw: true, consumed: true }
    }

    pub fn empty() -> (r: Self)
        ensures
            !r.redraw && !r.consumed,
    {
        Self { redraw: false, consumed: false }
    }

    pub fn redraw() -> (r: Self)
        ensures
            r.redraw && !r.consumed,
    {
        Self { redraw: true, consumed: false }
    }

    pub fn consume() -> (r: Self)
        ensures
            !r.redraw && r.consumed,
    {
        Self { redraw: false, consumed: true }
    }
}

/// A width and height in terminal cells.
#[derive(Copy, Clone, Debug, PartialEq, Eq, Structural)]
pub struct Size {
    pub width: u16,
    pub height: u16,
}

impl Size {
    pub fn new(width: u16, height: u16) -> (r: Self)
        ensures
            r.width == width,
            r.height == height,
    {
        Self { width, height }
    }
}

} // verus!
