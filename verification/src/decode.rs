//! The raw-mode escape-sequence decoder.
//!
//! The terminal hands the program one byte at a time; special keys arrive as
//! CSI sequences beginning `ESC [`.  The decoder is a small state machine:
//! each step consumes the outcome of one blocking read (`None` when the read
//! failed or the stream ended) and either finishes with an event or asks for
//! the next byte.  No malformed or truncated sequence hangs or fails it;
//! worst case it degrades to an ordinary key.

use vstd::prelude::*;

use crate::events::Direction;
use crate::events::Event;
use crate::events::Navigation;

verus! {

pub const BYTE_BACKSPACE: u8 = 0x08;

pub const BYTE_DELETE: u8 = 0x7f;

pub const BYTE_CTRL_U: u8 = 0x15;

pub const BYTE_CTRL_D: u8 = 0x04;

pub const BYTE_ENTER: u8 = 0x0d;

pub const BYTE_ESCAPE: u8 = 0x1b;

pub const BYTE_BRACKET: u8 = 0x5b;

pub const BYTE_TILDE: u8 = 0x7e;

/// Where the decoder stands between reads.
#[derive(Clone, Copy, Debug, PartialEq, Eq, Structural)]
pub enum DecoderState {
    /// Nothing pending: the next byte starts a fresh event.
    Start,
    /// An ESC byte was read; waiting for the byte after it.
    AfterEscape,
    /// `ESC [` was read; waiting for the CSI selector byte.
    AfterBracket,
    /// A selector that needs a confirming `~` was read; it is carried so the
    /// decoder can degrade to it as a key if the confirmation fails.
    AwaitConfirm(u8),
}

/// The outcome of feeding one read to the decoder.
#[derive(Clone, Copy, Debug, PartialEq, Eq, Structural)]
pub enum DecodeStep {
    Pending(DecoderState),
    Done(Event),
}

/// The navigation key a CSI selector byte stands for.
pub open spec fn spec_navigation_of(b: u8) -> Navigation {
    if b == 0x35 {
        Navigation::PageUp
    } else if b == 0x36 {
        Navigation::PageDown
    } else if b == 0x31 {
        Navigation::Home
    } else {
        Navigation::End
    }
}

/// One transition of the decoder: from a state and the outcome of one read
/// (`None` means the read failed) to either an event or the next state.
pub open spec fn spec_decoder_step(st: DecoderState, b: Option<u8>) -> DecodeStep {
    match st {
        DecoderState::Start => match b {
            Option::None => DecodeStep::Done(Event::Exit),
            Option::Some(x) => {
                if x == BYTE_BACKSPACE || x == BYTE_DELETE {
                    DecodeStep::Done(Event::Backspace)
                } else if x == BYTE_CTRL_U {
                    DecodeStep::Done(Event::Clear)
                } else if x == BYTE_CTRL_D {
                    DecodeStep::Done(Event::Exit)
                } else if x == BYTE_ENTER {
                    DecodeStep::Done(Event::Enter)
                } else if x == BYTE_ESCAPE {
                    DecodeStep::Pending(DecoderState::AfterEscape)
                } else {
                    DecodeStep::Done(Event::Key(x as char))
                }
            },
        },
        DecoderState::AfterEscape => match b {
            Option::None => DecodeStep::Done(Event::Key(BYTE_ESCAPE as char)),
            Option::Some(x) => {
                if x == BYTE_BRACKET {
                    DecodeStep::Pending(DecoderState::AfterBracket)
                } else {
                    DecodeStep::Done(Event::Key(x as char))
                }
            },
        },
        DecoderState::AfterBracket => match b {
            Option::None => DecodeStep::Done(Event::Key(BYTE_BRACKET as char)),
            Option::Some(x) => {
                if x == 0x43 {
                    DecodeStep::Done(Event::Direction(Direction::Right))
                } else if x == 0x44 {
                    DecodeStep::Done(Event::Direction(Direction::Left))
                } else if x == 0x35 || x == 0x36 || x == 0x31 || x == 0x34 {
                    DecodeStep::Pending(DecoderState::AwaitConfirm(x))
                } else {
                    DecodeStep::Done(Event::Key(x as char))
                }
            },
        },
        DecoderState::AwaitConfirm(sel) => match b {
            Option::None => DecodeStep::Done(Event::Key(sel as char)),
            Option::Some(x) => {
                if x == BYTE_TILDE {
                    DecodeStep::Done(Event::Navigation(spec_navigation_of(sel)))
                } else {
                    DecodeStep::Done(Event::Key(x as char))
                }
            },
        },
    }
}

/// One transition of the decoder.  The driving loop performs a blocking read
/// and feeds the outcome in; it is done when a `Done` comes back.
pub fn decoder_step(st: DecoderState, b: Option<u8>) -> (r: DecodeStep)
    ensures
        r == spec_decoder_step(st, b),
{
    match st {
        DecoderState::Start => match b {
            Option::None => DecodeStep::Done(Event::Exit),
            Option::Some(x) => {
                if x == BYTE_BACKSPACE || x == BYTE_DELETE {
                    DecodeStep::Done(Event::Backspace)
                } else if x == BYTE_CTRL_U {
                    DecodeStep::Done(Event::Clear)
                } else if x == BYTE_CTRL_D {
                    DecodeStep::Done(Event::Exit)
                } else if x == BYTE_ENTER {
                    DecodeStep::Done(Event::Enter)
                } else if x == BYTE_ESCAPE {
                    DecodeStep::Pending(DecoderState::AfterEscape)
                } else {
                    DecodeStep::Done(Event::Key(x as char))
                }
            },
        },
        DecoderState::AfterEscape => match b {
            Option::None => DecodeStep::Done(Event::Key(BYTE_ESCAPE as char)),
            Option::Some(x) => {
                if x == BYTE_BRACKET {
                    DecodeStep::Pending(DecoderState::AfterBracket)
                } else {
                    DecodeStep::Done(Event::Key(x as char))
                }
            },
        },
        DecoderState::AfterBracket => match b {
            Option::None => DecodeStep::Done(Event::Key(BYTE_BRACKET as char)),
            Option::Some(x) => {
                if x == 0x43 {
                    DecodeStep::Done(Event::Direction(Direction::Right))
                } else if x == 0x44 {
                    DecodeStep::Done(Event::Direction(Direction::Left))
                } else if x == 0x35 || x == 0x36 || x == 0x31 || x == 0x34 {
                    DecodeStep::Pending(DecoderState::AwaitConfirm(x))
                } else {
                    DecodeStep::Done(Event::Key(x as char))
                }
            },
        },
        DecoderState::AwaitConfirm(sel) => match b {
            Option::None => DecodeStep::Done(Event::Key(sel as char)),
            Option::Some(x) => {
                if x == BYTE_TILDE {
                    let nav = if sel == 0x35 {
                        Navigation::PageUp
                    } else if sel == 0x36 {
                        Navigation::PageDown
                    } else if sel == 0x31 {
                        Navigation::Home
                    } else {
                        Navigation::End
                    };
                    DecodeStep::Done(Event::Navigation(nav))
                } else {
                    DecodeStep::Done(Event::Key(x as char))
                }
            },
        },
    }
}

/// What decoding one event from position `i` of a byte stream yields, and
/// how many bytes it consumes.  A position past the end of the stream stands
/// for a failed read.
pub open spec fn spec_decode(s: Seq<u8>, i: int) -> (Event, int) {
    if i >= s.len() {
        (Event::Exit, 0)
    } else {
        let b0 = s[i];
        if b0 == BYTE_BACKSPACE || b0 == BYTE_DELETE {
            (Event::Backspace, 1)
        } else if b0 == BYTE_CTRL_U {
            (Event::Clear, 1)
        } else if b0 == BYTE_CTRL_D {
            (Event::Exit, 1)
        } else if b0 == BYTE_ENTER {
            (Event::Enter, 1)
        } else if b0 != BYTE_ESCAPE {
            (Event::Key(b0 as char), 1)
        } else if i + 1 >= s.len() {
            (Event::Key(BYTE_ESCAPE as char), 1)
        } else {
            let b1 = s[i + 1];
            if b1 != BYTE_BRACKET {
                (Event::Key(b1 as char), 2)
            } else if i + 2 >= s.len() {
                (Event::Key(BYTE_BRACKET as char), 2)
            } else {
                let b2 = s[i + 2];
                if b2 == 0x43 {
                    (Event::Direction(Direction::Right), 3)
                } else if b2 == 0x44 {
                    (Event::Direction(Direction::Left), 3)
                } else if b2 == 0x35 || b2 == 0x36 || b2 == 0x31 || b2 == 0x34 {
                    if i + 3 >= s.len() {
                        (Event::Key(b2 as char), 3)
                    } else {
                        let b3 = s[i + 3];
                        if b3 == BYTE_TILDE {
                            (Event::Navigation(spec_navigation_of(b2)), 4)
                        } else {
                            (Event::Key(b3 as char), 4)
                        }
                    }
                } else {
                    (Event::Key(b2 as char), 3)
                }
            }
        }
    }
}

/// Decodes one event from `bytes` starting at `start`, returning the event
/// and the number of bytes consumed.  Running off the end of the buffer acts
/// as a failed read, exactly as the step machine does on a real stream.
pub fn decode_event(bytes: &Vec<u8>, start: usize) -> (r: (Event, usize))
    requires
        start <= bytes@.len(),
    ensures
        r.0 == spec_decode(bytes@, start as int).0,
        r.1 as int == spec_decode(bytes@, start as int).1,
{
    let len = bytes.len();
    let b0 = if start < len {
        Some(bytes[start])
    } else {
        None
    };
    let s1 = match decoder_step(DecoderState::Start, b0) {
        DecodeStep::Done(e) => {
            return (e, if start < len { 1 } else { 0 });
        },
        DecodeStep::Pending(s) => s,
    };
    let b1 = if len - start >= 2 {
        Some(bytes[start + 1])
    } else {
        None
    };
    let s2 = match decoder_step(s1, b1) {
        DecodeStep::Done(e) => {
            return (e, if len - start >= 2 { 2 } else { 1 });
        },
        DecodeStep::Pending(s) => s,
    };
    let b2 = if len - start >= 3 {
        Some(bytes[start + 2])
    } else {
        None
    };
    let s3 = match decoder_step(s2, b2) {
        DecodeStep::Done(e) => {
            return (e, if len - start >= 3 { 3 } else { 2 });
        },
        DecodeStep::Pending(s) => s,
    };
    let b3 = if len - start >= 4 {
        Some(bytes[start + 3])
    } else {
        None
    };
    match decoder_step(s3, b3) {
        DecodeStep::Done(e) => (e, if len - start >= 4 { 4 } else { 3 }),
        // a confirmation step always finishes, whatever the read returned
        DecodeStep::Pending(_) => vstd::pervasive::unreached(),
    }
}

} // verus!
