//! What the keyboard delivered during one frame.

use vstd::prelude::*;

verus! {

/// The input of one frame: the characters typed, the keys that went down
/// during the frame, the modifier keys that are held, and the text that a
/// paste would bring in.
pub struct FrameInput {
    /// Characters typed during the frame, oldest first.
    pub typed: Vec<char>,
    pub space: bool,
    pub enter: bool,
    pub backspace: bool,
    pub delete: bool,
    pub left: bool,
    pub right: bool,
    pub home: bool,
    pub end: bool,
    /// Either shift key is held.
    pub shift: bool,
    /// Either control key is held.
    pub ctrl: bool,
    pub a: bool,
    pub c: bool,
    pub v: bool,
    pub x: bool,
    pub r: bool,
    pub s: bool,
    /// What the clipboard offers to a paste.
    pub clipboard: String,
}

impl FrameInput {
    /// A frame in which nothing was typed or pressed.
    pub open spec fn is_idle(self) -> bool {
        &&& self.typed@.len() == 0
        &&& !self.space && !self.enter && !self.backspace && !self.delete
        &&& !self.left && !self.right && !self.home && !self.end
        &&& !self.shift && !self.ctrl
        &&& !self.a && !self.c && !self.v && !self.x && !self.r && !self.s
        &&& self.clipboard@.len() == 0
    }

    /// A frame in which nothing was typed or pressed.
    pub fn idle() -> (input: FrameInput)
        ensures
            input.is_idle(),
    {
        FrameInput {
            typed: Vec::new(),
            space: false,
            enter: false,
            backspace: false,
            delete: false,
            left: false,
            right: false,
            home: false,
            end: false,
            shift: false,
            ctrl: false,
            a: false,
            c: false,
            v: false,
            x: false,
            r: false,
            s: false,
            clipboard: String::new(),
        }
    }
}

} // verus!
