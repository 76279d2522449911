//! The controller's edit-state transition: how one decoded event changes the
//! pattern buffer, the cursor and the scroll position.
//!
//! Positions count characters.  The cursor always stays within
//! `0..=pattern.len()`; the scroll is clamped against the rendered line
//! count separately, by the renderer.

use vstd::prelude::*;

use crate::events::Direction;
use crate::events::Event;
use crate::events::Navigation;
use crate::strutil::push_char;

verus! {

/// How far one page movement shifts the scroll position.
pub const SCROLL_STEP: usize = 5;

/// The full effect of one event on the edit state: `p0`/`c0`/`s0` are the
/// pattern, cursor and scroll before, `p1`/`c1`/`s1` after, and `r` the
/// returned pattern.  `Enter` ends the session with the pattern, `Exit` with
/// an empty result; everything else edits in place and returns nothing.
pub open spec fn spec_edit_step(
    p0: Seq<char>,
    c0: int,
    s0: int,
    ev: Event,
    p1: Seq<char>,
    c1: int,
    s1: int,
    r: Option<String>,
) -> bool {
    match ev {
        Event::Key(ch) => {
            &&& p1 == p0.subrange(0, c0) + seq![ch] + p0.subrange(c0, p0.len() as int)
            &&& c1 == c0 + 1
            &&& s1 == s0
            &&& r is None
        },
        Event::Direction(d) => {
            &&& p1 == p0
            &&& s1 == s0
            &&& r is None
            &&& c1 == (match d {
                Direction::Left => if c0 > 0 {
                    c0 - 1
                } else {
                    0
                },
                Direction::Right => if c0 < p0.len() {
                    c0 + 1
                } else {
                    p0.len() as int
                },
            })
        },
        Event::Navigation(n) => {
            &&& p1 == p0
            &&& r is None
            &&& (match n {
                Navigation::PageUp => c1 == c0 && s1 == (if s0 >= SCROLL_STEP {
                    s0 - SCROLL_STEP
                } else {
                    0
                }),
                Navigation::PageDown => c1 == c0 && s1 == s0 + SCROLL_STEP,
                Navigation::Home => c1 == 0 && s1 == s0,
                Navigation::End => c1 == p0.len() && s1 == s0,
            })
        },
        Event::Backspace => {
            &&& s1 == s0
            &&& r is None
            &&& (if c0 > 0 {
                p1 == p0.subrange(0, c0 - 1) + p0.subrange(c0, p0.len() as int) && c1 == c0 - 1
            } else {
                p1 == p0 && c1 == 0
            })
        },
        Event::Clear => {
            &&& p1 == Seq::<char>::empty()
            &&& c1 == 0
            &&& s1 == s0
            &&& r is None
        },
        Event::Enter => {
            &&& p1 == p0
            &&& c1 == c0
            &&& s1 == s0
            &&& r is Some
            &&& r->Some_0@ == p0
        },
        Event::Exit => {
            &&& p1 == p0
            &&& c1 == c0
            &&& s1 == s0
            &&& r is Some
            &&& r->Some_0@ == Seq::<char>::empty()
        },
    }
}

/// Applies one decoded event to the edit state.  `Key` inserts at the cursor
/// and advances it; the arrows move the cursor, saturating at the ends; the
/// page keys move the scroll; `Home`/`End` jump the cursor; `Backspace`
/// deletes the character before the cursor and is a no-op at the start;
/// `Clear` empties the pattern; `Enter` returns the pattern and `Exit` an
/// empty result, both leaving the state untouched.
pub fn handle_input(
    pattern: &mut String,
    cursor_pos: &mut usize,
    scroll: &mut usize,
    event: Event,
) -> (r: Option<String>)
    requires
        *old(cursor_pos) <= old(pattern)@.len(),
        old(pattern)@.len() < usize::MAX,
        event == Event::Navigation(Navigation::PageDown) ==> *old(scroll) + SCROLL_STEP
            <= usize::MAX,
    ensures
        spec_edit_step(
            old(pattern)@,
            *old(cursor_pos) as int,
            *old(scroll) as int,
            event,
            final(pattern)@,
            *final(cursor_pos) as int,
            *final(scroll) as int,
            r,
        ),
        *final(cursor_pos) <= final(pattern)@.len(),
{
    match event {
        Event::Key(c) => {
            let len = pattern.as_str().unicode_len();
            if *cursor_pos < len {
                let mut head = pattern.as_str().substring_char(0, *cursor_pos).to_owned();
                let tail = pattern.as_str().substring_char(*cursor_pos, len).to_owned();
                push_char(&mut head, c);
                head.append(tail.as_str());
                proof {
                    assert(head@ =~= old(pattern)@.subrange(0, *old(cursor_pos) as int) + seq![c]
                        + old(pattern)@.subrange(
                        *old(cursor_pos) as int,
                        old(pattern)@.len() as int,
                    ));
                }
                *pattern = head;
            } else {
                push_char(pattern, c);
                proof {
                    assert(pattern@ =~= old(pattern)@.subrange(0, *old(cursor_pos) as int) + seq![c]
                        + old(pattern)@.subrange(
                        *old(cursor_pos) as int,
                        old(pattern)@.len() as int,
                    ));
                }
            }
            *cursor_pos = *cursor_pos + 1;
            None
        },
        Event::Direction(d) => {
            match d {
                Direction::Left => {
                    if *cursor_pos > 0 {
                        *cursor_pos = *cursor_pos - 1;
                    }
                },
                Direction::Right => {
                    let len = pattern.as_str().unicode_len();
                    if *cursor_pos < len {
                        *cursor_pos = *cursor_pos + 1;
                    }
                },
            }
            None
        },
        Event::Navigation(n) => {
            match n {
                Navigation::PageUp => {
                    if *scroll >= SCROLL_STEP {
                        *scroll = *scroll - SCROLL_STEP;
                    } else {
                        *scroll = 0;
                    }
                },
                Navigation::PageDown => {
                    *scroll = *scroll + SCROLL_STEP;
                },
                Navigation::Home => {
                    *cursor_pos = 0;
                },
                Navigation::End => {
                    *cursor_pos = pattern.as_str().unicode_len();
                },
            }
            None
        },
        Event::Backspace => {
            if *cursor_pos > 0 {
                let len = pattern.as_str().unicode_len();
                let mut head = pattern.as_str().substring_char(0, *cursor_pos - 1).to_owned();
                let tail = pattern.as_str().substring_char(*cursor_pos, len).to_owned();
                head.append(tail.as_str());
                proof {
                    assert(head@ =~= old(pattern)@.subrange(0, *old(cursor_pos) as int - 1)
                        + old(pattern)@.subrange(
                        *old(cursor_pos) as int,
                        old(pattern)@.len() as int,
                    ));
                }
                *pattern = head;
                *cursor_pos = *cursor_pos - 1;
            }
            None
        },
        Event::Clear => {
            *pattern = String::new();
            *cursor_pos = 0;
            None
        },
        Event::Enter => Some(pattern.clone()),
        Event::Exit => Some(String::new()),
    }
}

} // verus!
