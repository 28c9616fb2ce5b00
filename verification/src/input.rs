//! The query input line: a character buffer, a cursor, and a horizontal
//! viewport over it. Every edit announces the new query so the filter engine
//! can restart.

use vstd::prelude::*;

use crate::events::{Event, EventHandleResult, KeyCode};
use crate::fileinfo::copy_chars;

verus! {

/// What the input line is told.
#[derive(Debug)]
pub enum InputIn {
    Clear,
    Event(Event),
}

/// What the input line announces: the query text after an edit.
#[derive(Debug)]
pub enum InputOut {
    Input(Vec<char>),
}

/// The last cursor movement, consulted when the viewport is recomputed.
#[derive(Debug, Clone, Copy, PartialEq, Eq, Structural)]
pub enum InputMove {
    Start,
    Left,
    Right,
    End,
    Nil,
}

/// The query editor's state.
pub struct Input {
    pub input: Vec<char>,
    pub cursor_position: usize,
    pub show_start: usize,
    pub input_move: InputMove,
    pub pending_out: Option<InputOut>,
}

impl Input {
    /// The cursor sits inside the text (one past the end is allowed), and the
    /// viewport never starts past the end.
    pub open spec fn wf(&self) -> bool {
        &&& self.cursor_position <= self.input@.len()
        &&& self.show_start <= self.input@.len()
    }

    pub fn new() -> (r: Input)
        ensures
            r.wf(),
            r.input@.len() == 0,
            r.cursor_position == 0,
            r.show_start == 0,
            r.input_move is Nil,
            r.pending_out is None,
    {
        Input {
            input: Vec::new(),
            cursor_position: 0,
            show_start: 0,
            input_move: InputMove::Nil,
            pending_out: None,
        }
    }

    /// The query text.
    pub fn line(&self) -> (r: &Vec<char>)
        ensures
            r@ == self.input@,
    {
        &self.input
    }

    /// Announce the current text (the caller forwards it to the filter).
    pub fn send_input(&mut self)
        ensures
            final(self).pending_out is Some,
            final(self).pending_out->0 is Input,
            (final(self).pending_out->0)->Input_0@ == old(self).input@,
            final(self).input == old(self).input,
            final(self).cursor_position == old(self).cursor_position,
            final(self).show_start == old(self).show_start,
            final(self).input_move == old(self).input_move,
    {
        self.pending_out = Some(InputOut::Input(copy_chars(&self.input)));
    }

    /// Hand out the pending announcement, if an edit made one.
    pub fn poll_out(&mut self) -> (r: Option<InputOut>)
        ensures
            r == old(self).pending_out,
            final(self).pending_out is None,
            final(self).input == old(self).input,
            final(self).cursor_position == old(self).cursor_position,
            final(self).show_start == old(self).show_start,
            final(self).input_move == old(self).input_move,
    {
        let out = self.pending_out.take();
        out
    }

    /// One step left, never past the start.
    pub fn move_cursor_left(&mut self)
        requires
            old(self).wf(),
        ensures
            final(self).wf(),
            final(self).cursor_position == if old(self).cursor_position > 0 {
                old(self).cursor_position - 1
            } else {
                0
            },
            final(self).input_move is Left,
            final(self).input == old(self).input,
            final(self).show_start == old(self).show_start,
            final(self).pending_out == old(self).pending_out,
    {
        self.cursor_position = self.cursor_position.saturating_sub(1);
        self.input_move = InputMove::Left;
    }

    /// One step right, never past the end of the text.
    pub fn move_cursor_right(&mut self)
        requires
            old(self).wf(),
        ensures
            final(self).wf(),
            final(self).cursor_position == if old(self).cursor_position + 1 <= old(
                self,
            ).input@.len() {
                old(self).cursor_position + 1
            } else {
                old(self).input@.len() as int
            },
            final(self).input_move is Right,
            final(self).input == old(self).input,
            final(self).show_start == old(self).show_start,
            final(self).pending_out == old(self).pending_out,
    {
        if self.cursor_position < self.input.len() {
            self.cursor_position = self.cursor_position + 1;
        }
        self.input_move = InputMove::Right;
    }

    /// Insert a character at the cursor, step right, and announce the new
    /// query.
    pub fn enter_char(&mut self, new_char: char)
        requires
            old(self).wf(),
        ensures
            final(self).wf(),
            final(self).input@ == old(self).input@.insert(
                old(self).cursor_position as int,
                new_char,
            ),
            final(self).cursor_position == old(self).cursor_position + 1,
            final(self).input_move is Right,
            final(self).show_start == old(self).show_start,
            final(self).pending_out is Some,
            (final(self).pending_out->0)->Input_0@ == final(self).input@,
    {
        self.input.insert(self.cursor_position, new_char);
        self.move_cursor_right();
        self.send_input();
    }

    /// Jump to the very start.
    pub fn move_start(&mut self)
        requires
            old(self).wf(),
        ensures
            final(self).wf(),
            final(self).cursor_position == 0,
            final(self).show_start == 0,
            final(self).input == old(self).input,
            final(self).input_move == old(self).input_move,
            final(self).pending_out == old(self).pending_out,
    {
        self.cursor_position = 0;
        self.show_start = 0;
    }

    /// Jump to the last character (the start when the text is empty), keeping
    /// it visible in a window of `width` columns.
    pub fn move_end(&mut self, width: usize)
        requires
            old(self).wf(),
        ensures
            final(self).wf(),
            final(self).cursor_position == if old(self).input@.len() > 0 {
                old(self).input@.len() - 1
            } else {
                0
            },
            final(self).show_start == if final(self).cursor_position >= width {
                final(self).cursor_position - width
            } else {
                0
            },
            final(self).input == old(self).input,
            final(self).input_move == old(self).input_move,
            final(self).pending_out == old(self).pending_out,
    {
        self.cursor_position = self.input.len().saturating_sub(1);
        self.show_start = self.cursor_position.saturating_sub(width);
    }

    /// Delete the character left of the cursor, if any, step left, and
    /// announce the new query.
    pub fn delete_char(&mut self)
        requires
            old(self).wf(),
        ensures
            final(self).wf(),
            old(self).cursor_position == 0 ==> *final(self) == *old(self),
            old(self).cursor_position > 0 ==> {
                &&& final(self).input@ == old(self).input@.remove(
                    old(self).cursor_position - 1,
                )
                &&& final(self).cursor_position == old(self).cursor_position - 1
                &&& final(self).input_move is Left
                &&& final(self).show_start == if old(self).show_start > 0 {
                    old(self).show_start - 1
                } else {
                    0
                }
                &&& final(self).pending_out is Some
                &&& (final(self).pending_out->0)->Input_0@ == final(self).input@
            },
    {
        if self.cursor_position != 0 {
            self.input.remove(self.cursor_position - 1);
            self.cursor_position = self.cursor_position - 1;
            self.input_move = InputMove::Left;
            self.send_input();
            self.show_start = self.show_start.saturating_sub(1);
        }
    }

    /// One draw pass over the input viewport: follow the recorded movement,
    /// then in every case leave the cursor visible. Returns the cursor's
    /// column inside the window.
    pub fn recompute_view(&mut self, width: usize) -> (cursor_x: usize)
        requires
            old(self).wf(),
            width >= 1,
        ensures
            final(self).wf(),
            final(self).show_start <= final(self).cursor_position,
            final(self).cursor_position - final(self).show_start < width,
            cursor_x == final(self).cursor_position - final(self).show_start,
            final(self).input_move is Nil,
            final(self).input == old(self).input,
            final(self).cursor_position == (if old(self).input_move is End {
                if old(self).input@.len() > 0 {
                    old(self).input@.len() - 1
                } else {
                    0
                }
            } else if old(self).input_move is Start {
                0
            } else {
                old(self).cursor_position as int
            }),
            final(self).pending_out == old(self).pending_out,
    {
        match self.input_move {
            InputMove::Start => {
                self.move_start();
            },
            InputMove::Left => {
                if self.cursor_position.saturating_sub(self.show_start) > width {
                    self.show_start = self.cursor_position.saturating_sub(width);
                } else {
                    if self.cursor_position <= self.show_start {
                        self.show_start = self.show_start.saturating_sub(1);
                    }
                }
            },
            InputMove::Right => {
                if self.cursor_position.saturating_sub(self.show_start) > width {
                    self.show_start = self.cursor_position.saturating_sub(width);
                } else {
                    if self.cursor_position >= self.show_start.saturating_add(width).saturating_sub(
                        1,
                    ) {
                        self.show_start = self.show_start.saturating_add(1);
                    }
                }
            },
            InputMove::End => {
                let w = width;
                self.cursor_position = self.input.len().saturating_sub(1);
                self.show_start = self.cursor_position.saturating_sub(w);
            },
            InputMove::Nil => {},
        }
        self.input_move = InputMove::Nil;
        // whatever the movement did, the cursor stays inside the window
        if self.show_start > self.cursor_position {
            self.show_start = self.cursor_position;
        }
        if self.cursor_position - self.show_start >= width {
            self.show_start = self.cursor_position - width + 1;
        }
        self.cursor_position - self.show_start
    }

    /// Keyboard handling: unmodified (or shift-modified) editing keys edit the
    /// query; anything with control or alt is left for other components.
    pub fn handle_event(&mut self, event: &Event) -> (r: EventHandleResult)
        requires
            old(self).wf(),
        ensures
            final(self).wf(),
            final(self).cursor_position == old(self).cursor_position || final(self).input_move
                !is Nil || old(self).input_move !is Nil,
            match *event {
                Event::Key(KeyCode::Char(c), m) => if !m.control && !m.alt {
                    &&& r.redraw && r.consumed
                    &&& final(self).input@ == old(self).input@.insert(
                        old(self).cursor_position as int,
                        c,
                    )
                    &&& final(self).cursor_position == old(self).cursor_position + 1
                    &&& final(self).pending_out is Some
                    &&& (final(self).pending_out->0)->Input_0@ == final(self).input@
                } else {
                    *final(self) == *old(self) && !r.redraw && !r.consumed
                },
                Event::Key(KeyCode::Backspace, m) => if !m.control && !m.alt {
                    &&& r.redraw && r.consumed
                    &&& (old(self).cursor_position > 0 ==> final(self).input@ == old(
                        self,
                    ).input@.remove(old(self).cursor_position - 1) && final(self).pending_out
                        is Some && (final(self).pending_out->0)->Input_0@ == final(self).input@)
                    &&& (old(self).cursor_position == 0 ==> *final(self) == *old(self))
                } else {
                    *final(self) == *old(self) && !r.redraw && !r.consumed
                },
                Event::Key(KeyCode::Left, m) => if !m.control && !m.alt {
                    &&& r.redraw && r.consumed
                    &&& final(self).input == old(self).input
                    &&& final(self).input_move is Left
                    &&& final(self).pending_out == old(self).pending_out
                } else {
                    *final(self) == *old(self) && !r.redraw && !r.consumed
                },
                Event::Key(KeyCode::Right, m) => if !m.control && !m.alt {
                    &&& r.redraw && r.consumed
                    &&& final(self).input == old(self).input
                    &&& final(self).input_move is Right
                    &&& final(self).pending_out == old(self).pending_out
                } else {
                    *final(self) == *old(self) && !r.redraw && !r.consumed
                },
                Event::Key(KeyCode::Home, m) => if !m.control && !m.alt {
                    &&& r.redraw && r.consumed
                    &&& final(self).input == old(self).input
                    &&& final(self).cursor_position == old(self).cursor_position
                    &&& final(self).input_move is Start
                    &&& final(self).pending_out == old(self).pending_out
                } else {
                    *final(self) == *old(self) && !r.redraw && !r.consumed
                },
                Event::Key(KeyCode::End, m) => if !m.control && !m.alt {
                    &&& r.redraw && r.consumed
                    &&& final(self).input == old(self).input
                    &&& final(self).cursor_position == old(self).cursor_position
                    &&& final(self).input_move is End
                    &&& final(self).pending_out == old(self).pending_out
                } else {
                    *final(self) == *old(self) && !r.redraw && !r.consumed
                },
                _ => *final(self) == *old(self) && !r.redraw && !r.consumed,
            },
    {
        match event {
            Event::Key(code, mods) => {
                if mods.beyond_shift() {
                    return EventHandleResult::empty();
                }
                match code {
                    KeyCode::Backspace => {
                        self.delete_char();
                        EventHandleResult::all()
                    },
                    KeyCode::Left => {
                        self.move_cursor_left();
                        EventHandleResult::all()
                    },
                    KeyCode::Right => {
                        self.move_cursor_right();
                        EventHandleResult::all()
                    },
                    KeyCode::Home => {
                        self.input_move = InputMove::Start;
                        EventHandleResult::all()
                    },
                    KeyCode::End => {
                        self.input_move = InputMove::End;
                        EventHandleResult::all()
                    },
                    KeyCode::Char(c) => {
                        self.enter_char(*c);
                        EventHandleResult::all()
                    },
                    _ => EventHandleResult::empty(),
                }
            },
            _ => EventHandleResult::empty(),
        }
    }
}

} // verus!
