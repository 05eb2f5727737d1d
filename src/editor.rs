//! The controller: owns the cursor location and the quit state, turns input
//! events into state changes, and composes each frame.

use vstd::prelude::*;
use vstd::view::View as _;

use crate::buffer::text_lines;
use crate::terminal::{instructions, Command, Instruction, Position, Size, Terminal};
use crate::view::{rows, View};

verus! {

/// The modifier bit of the Control key, in the bit set of `KeyEvent::modifiers`.
pub const CONTROL: u8 = 0b0000_0010;

/// The cursor location held by the controller.
#[derive(Copy, Clone, Debug, PartialEq, Eq, Structural, Default)]
pub struct Location {
    pub x: usize,
    pub y: usize,
}

/// The key of a key event.
#[derive(Copy, Clone, Debug, PartialEq, Eq, Structural)]
pub enum KeyCode {
    Up,
    Down,
    Left,
    Right,
    PageUp,
    PageDown,
    Home,
    End,
    Char(char),
    Other,
}

/// Whether a key went down, repeated or went up.
#[derive(Copy, Clone, Debug, PartialEq, Eq, Structural)]
pub enum KeyEventKind {
    Press,
    Repeat,
    Release,
}

/// A key event: the key, its kind, and the bit set of held modifiers.
#[derive(Copy, Clone, Debug, PartialEq, Eq, Structural)]
pub struct KeyEvent {
    pub code: KeyCode,
    pub kind: KeyEventKind,
    pub modifiers: u8,
}

/// An input event.
#[derive(Copy, Clone, Debug, PartialEq, Eq, Structural)]
pub enum Event {
    Key(KeyEvent),
    /// The terminal was resized to (columns, rows).
    Resize(u16, u16),
    Other,
}

/// `n - 1`, stopping at zero.
pub open spec fn sat_dec(n: usize) -> usize {
    if n > 0 {
        (n - 1) as usize
    } else {
        0
    }
}

/// `n + 1`, stopping at the largest `usize`.
pub open spec fn sat_inc(n: usize) -> usize {
    if n < usize::MAX {
        (n + 1) as usize
    } else {
        n
    }
}

/// The smaller of `a` and `b`.
pub open spec fn min_usize(a: usize, b: usize) -> usize {
    if a <= b {
        a
    } else {
        b
    }
}

/// True of the eight navigation keys.
pub open spec fn is_navigation(code: KeyCode) -> bool {
    match code {
        KeyCode::Char(_) | KeyCode::Other => false,
        _ => true,
    }
}

/// The cursor location after `code` is pressed on a screen of `size`.
pub open spec fn moved(loc: Location, code: KeyCode, size: Size) -> Location {
    match code {
        KeyCode::Up => Location { y: sat_dec(loc.y), ..loc },
        KeyCode::Down => Location { y: min_usize(sat_inc(size.height), sat_inc(loc.y)), ..loc },
        KeyCode::Left => Location { x: sat_dec(loc.x), ..loc },
        KeyCode::Right => Location { x: min_usize(sat_inc(size.width), sat_inc(loc.x)), ..loc },
        KeyCode::PageUp => Location { y: 0, ..loc },
        KeyCode::PageDown => Location { y: sat_dec(size.height), ..loc },
        KeyCode::Home => Location { x: 0, ..loc },
        KeyCode::End => Location { x: sat_dec(size.width), ..loc },
        _ => loc,
    }
}

/// True of the quit command: Control and `q`, pressed.
pub open spec fn is_quit(event: Event) -> bool {
    match event {
        Event::Key(k) => k.kind == KeyEventKind::Press && k.code == KeyCode::Char('q')
            && k.modifiers == CONTROL,
        _ => false,
    }
}

/// The cursor location after `event`.
pub open spec fn next_location(loc: Location, event: Event, size: Size) -> Location {
    match event {
        Event::Key(k) => if k.kind == KeyEventKind::Press && is_navigation(k.code) {
            moved(loc, k.code, size)
        } else {
            loc
        },
        _ => loc,
    }
}

/// The screen size known after `event`.
pub open spec fn next_size(size: Size, event: Event) -> Size {
    match event {
        Event::Resize(w, h) => Size { width: w as usize, height: h as usize },
        _ => size,
    }
}

/// The controller state after `event`.
pub open spec fn next_state(e: Editor, event: Event) -> Editor {
    Editor {
        should_quit: e.should_quit || is_quit(event),
        location: next_location(e.location, event, e.view.size),
        view: View { buffer: e.view.buffer, size: next_size(e.view.size, event) },
    }
}

/// The frame drawn for state `e`: with the caret hidden, either the goodbye
/// message on a cleared screen or the view with the caret at the cursor
/// location; then the caret is shown.
pub open spec fn frame(e: Editor) -> Seq<Instruction> {
    seq![Instruction::HideCaret, Instruction::MoveCaretTo(Position { col: 0, row: 0 })] + if e.should_quit {
        seq![Instruction::ClearScreen, Instruction::Print("Goodbye.\r\n"@)]
    } else {
        rows(text_lines(e.view.buffer.lines@), e.view.size, e.view.size.height as nat) + seq![
            Instruction::MoveCaretTo(Position { col: e.location.x, row: e.location.y }),
        ]
    } + seq![Instruction::ShowCaret]
}

/// The main loop run over the input that arrives, `events`: each pass draws a
/// frame, stops when quitting, and otherwise reads and handles one event.
/// Gives the frames drawn and the number of events read, up to the point
/// where it stops or waits for more input.
pub open spec fn session(e: Editor, events: Seq<Event>) -> (Seq<Seq<Instruction>>, nat)
    decreases events.len(),
{
    if e.should_quit || events.len() == 0 {
        (seq![frame(e)], 0)
    } else {
        let rest = session(next_state(e, events[0]), events.drop_first());
        (seq![frame(e)] + rest.0, rest.1 + 1)
    }
}

/// No cursor move takes a coordinate below zero: `Up` on the top row and
/// `Left` on the first column leave the cursor where it is, and every other
/// step down or left stops at zero.
pub proof fn lemma_moves_saturate_at_zero(loc: Location, code: KeyCode, size: Size)
    ensures
        moved(loc, code, size).x >= 0,
        moved(loc, code, size).y >= 0,
        moved(loc, KeyCode::Up, size).y as int == if loc.y == 0 {
            0
        } else {
            loc.y - 1
        },
        moved(loc, KeyCode::Left, size).x as int == if loc.x == 0 {
            0
        } else {
            loc.x - 1
        },
        loc.y == 0 ==> moved(loc, KeyCode::Up, size).y == 0,
        loc.x == 0 ==> moved(loc, KeyCode::Left, size).x == 0,
{
}

/// `Down` never takes the row past `height + 1`, and `Right` never takes the
/// column past `width + 1`.
pub proof fn lemma_moves_bounded_above(loc: Location, size: Size)
    ensures
        moved(loc, KeyCode::Down, size).y <= size.height + 1,
        moved(loc, KeyCode::Right, size).x <= size.width + 1,
{
}

/// `PageUp` always goes to the top row and `Home` to the first column,
/// whatever the state before.
pub proof fn lemma_page_up_and_home(loc: Location, size: Size)
    ensures
        moved(loc, KeyCode::PageUp, size).y == 0,
        moved(loc, KeyCode::Home, size).x == 0,
{
}

/// The frame drawn when quitting: the screen cleared and the goodbye message.
pub open spec fn goodbye_frame() -> Seq<Instruction> {
    seq![
        Instruction::HideCaret,
        Instruction::MoveCaretTo(Position { col: 0, row: 0 }),
        Instruction::ClearScreen,
        Instruction::Print("Goodbye.\r\n"@),
        Instruction::ShowCaret,
    ]
}

/// Quitting is final: no event leaves it.
pub proof fn lemma_quitting_is_final(e: Editor, event: Event)
    requires
        e.should_quit,
    ensures
        next_state(e, event).should_quit,
        frame(next_state(e, event)) == goodbye_frame(),
{
    assert(frame(next_state(e, event)) =~= goodbye_frame());
}

/// The quit command, received while running, moves the session to quitting;
/// the loop then draws exactly one more frame, the goodbye frame, and reads no
/// further input.
pub proof fn lemma_quit_ends_session(e: Editor, events: Seq<Event>)
    requires
        !e.should_quit,
        events.len() >= 1,
        is_quit(events[0]),
    ensures
        next_state(e, events[0]).should_quit,
        session(e, events).1 == 1,
        session(e, events).0.len() == 2,
        session(e, events).0[0] == frame(e),
        session(e, events).0[1] == goodbye_frame(),
{
    let q = next_state(e, events[0]);
    assert(frame(q) =~= goodbye_frame());
    assert(session(q, events.drop_first()) == (seq![frame(q)], 0nat));
}

/// The controller: the quit flag, the cursor location and the view.
pub struct Editor {
    pub should_quit: bool,
    pub location: Location,
    pub view: View,
}

impl Editor {
    /// A running session on a screen of `size`, with the cursor at the top
    /// left and the text of a file loaded when `contents` holds one.
    pub fn new(size: Size, contents: Option<&str>) -> (r: Editor)
        ensures
            !r.should_quit,
            r.location == (Location { x: 0, y: 0 }),
            r.view.size == size,
            match contents {
                Some(c) => text_lines(r.view.buffer.lines@) == crate::buffer::lines_of(c@),
                None => r.view.buffer.lines@.len() == 0,
            },
    {
        let mut view = View::new(size);
        view.load(contents);
        Editor { should_quit: false, location: Location { x: 0, y: 0 }, view }
    }

    fn move_point(&mut self, key_code: KeyCode)
        ensures
            final(self).location == moved(old(self).location, key_code, old(self).view.size),
            final(self).should_quit == old(self).should_quit,
            final(self).view == old(self).view,
    {
        let Location { mut x, mut y } = self.location;
        let Size { height, width } = self.view.size;
        match key_code {
            KeyCode::Up => {
                y = y.saturating_sub(1);
            },
            KeyCode::Down => {
                let bound = height.saturating_add(1);
                let next = y.saturating_add(1);
                y = if bound <= next { bound } else { next };
            },
            KeyCode::Left => {
                x = x.saturating_sub(1);
            },
            KeyCode::Right => {
                let bound = width.saturating_add(1);
                let next = x.saturating_add(1);
                x = if bound <= next { bound } else { next };
            },
            KeyCode::PageUp => {
                y = 0;
            },
            KeyCode::PageDown => {
                y = height.saturating_sub(1);
            },
            KeyCode::Home => {
                x = 0;
            },
            KeyCode::End => {
                x = width.saturating_sub(1);
            },
            _ => {},
        }
        self.location = Location { x, y };
    }

    /// Handles one input event.
    pub fn evaluate_event(&mut self, event: Event)
        ensures
            *final(self) == next_state(*old(self), event),
    {
        match event {
            Event::Key(KeyEvent { code, kind: KeyEventKind::Press, modifiers }) => {
                if code == KeyCode::Char('q') && modifiers == CONTROL {
                    self.should_quit = true;
                } else {
                    match code {
                        KeyCode::Up | KeyCode::Down | KeyCode::Left | KeyCode::Right
                        | KeyCode::PageUp | KeyCode::PageDown | KeyCode::Home | KeyCode::End => {
                            self.move_point(code);
                        },
                        _ => {},
                    }
                }
            },
            Event::Resize(width_u16, height_u16) => {
                let width = width_u16 as usize;
                let height = height_u16 as usize;
                self.view.resize(Size { width, height });
            },
            _ => {},
        }
    }

    /// Queues the frame for the current state on `terminal` and hands out the
    /// whole batch for a single flush.
    pub fn refresh_screen(&self, terminal: &mut Terminal) -> (batch: Vec<Command>)
        ensures
            instructions(batch@) == old(terminal)@ + frame(*self),
            final(terminal)@ == Seq::<Instruction>::empty(),
    {
        terminal.hide_caret();
        terminal.move_caret_to(Position { col: 0, row: 0 });
        if self.should_quit {
            terminal.clear_screen();
            terminal.print("Goodbye.\r\n");
        } else {
            self.view.render(terminal);
            terminal.move_caret_to(Position { col: self.location.x, row: self.location.y });
        }
        terminal.show_caret();
        assert(terminal@ =~= old(terminal)@ + frame(*self));
        terminal.execute()
    }
}

} // verus!
