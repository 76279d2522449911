//! Edit events produced by the terminal input decoder.

use vstd::prelude::*;

verus! {

/// Horizontal cursor movement inside the pattern box.
#[derive(Clone, Copy, Debug, PartialEq, Eq, Structural)]
pub enum Direction {
    Left,
    Right,
}

/// Larger movements: scrolling the viewport and jumping inside the pattern.
#[derive(Clone, Copy, Debug, PartialEq, Eq, Structural)]
pub enum Navigation {
    PageUp,
    PageDown,
    Home,
    End,
}

/// One decoded edit event.  `Exit` is also what a failed read degrades to.
#[derive(Clone, Copy, Debug, PartialEq, Eq, Structural)]
pub enum Event {
    Key(char),
    Direction(Direction),
    Navigation(Navigation),
    Backspace,
    Clear,
    Enter,
    Exit,
}

} // verus!
