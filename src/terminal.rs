//! The terminal surface: every drawing operation is queued as a command and
//! the whole batch is handed out at once by `execute`, which the host writes
//! to the terminal device in a single flush.

use vstd::prelude::*;
use vstd::string::StringExecFns;

verus! {

/// Dimensions of the screen, in columns and rows.
#[derive(Copy, Clone, Debug, PartialEq, Eq, Structural, Default)]
pub struct Size {
    pub width: usize,
    pub height: usize,
}

/// A zero-based caret position on the visible grid.
#[derive(Copy, Clone, Debug, PartialEq, Eq, Structural, Default)]
pub struct Position {
    pub col: usize,
    pub row: usize,
}

/// One queued drawing instruction.
#[derive(Debug, PartialEq, Eq)]
pub enum Command {
    ClearScreen,
    ClearLine,
    MoveCaretTo(Position),
    ShowCaret,
    HideCaret,
    Print(String),
}

/// The mathematical model of a `Command`: printed text is a sequence of chars.
pub enum Instruction {
    ClearScreen,
    ClearLine,
    MoveCaretTo(Position),
    ShowCaret,
    HideCaret,
    Print(Seq<char>),
}

impl View for Command {
    type V = Instruction;

    open spec fn view(&self) -> Instruction {
        match self {
            Command::ClearScreen => Instruction::ClearScreen,
            Command::ClearLine => Instruction::ClearLine,
            Command::MoveCaretTo(p) => Instruction::MoveCaretTo(*p),
            Command::ShowCaret => Instruction::ShowCaret,
            Command::HideCaret => Instruction::HideCaret,
            Command::Print(s) => Instruction::Print(s@),
        }
    }
}

/// The model of a batch of commands.
pub open spec fn instructions(cmds: Seq<Command>) -> Seq<Instruction> {
    cmds.map_values(|c: Command| c@)
}

/// The terminal surface: holds the commands queued since the last `execute`.
pub struct Terminal {
    queued: Vec<Command>,
}

impl View for Terminal {
    type V = Seq<Instruction>;

    closed spec fn view(&self) -> Seq<Instruction> {
        instructions(self.queued@)
    }
}

impl Terminal {
    /// A surface with nothing queued.
    pub fn new() -> (r: Terminal)
        ensures
            r@ == Seq::<Instruction>::empty(),
    {
        let r = Terminal { queued: Vec::new() };
        assert(r@ =~= Seq::<Instruction>::empty());
        r
    }

    fn queue_command(&mut self, command: Command)
        ensures
            final(self)@ == old(self)@.push(command@),
    {
        self.queued.push(command);
        assert(final(self)@ =~= old(self)@.push(command@));
    }

    /// Queues a caret move to `position`.
    pub fn move_caret_to(&mut self, position: Position)
        ensures
            final(self)@ == old(self)@.push(Instruction::MoveCaretTo(position)),
    {
        self.queue_command(Command::MoveCaretTo(position));
    }

    /// Queues a clear of the whole screen.
    pub fn clear_screen(&mut self)
        ensures
            final(self)@ == old(self)@.push(Instruction::ClearScreen),
    {
        self.queue_command(Command::ClearScreen);
    }

    /// Queues a clear of the line the caret is on.
    pub fn clear_line(&mut self)
        ensures
            final(self)@ == old(self)@.push(Instruction::ClearLine),
    {
        self.queue_command(Command::ClearLine);
    }

    /// Queues showing the caret.
    pub fn show_caret(&mut self)
        ensures
            final(self)@ == old(self)@.push(Instruction::ShowCaret),
    {
        self.queue_command(Command::ShowCaret);
    }

    /// Queues hiding the caret.
    pub fn hide_caret(&mut self)
        ensures
            final(self)@ == old(self)@.push(Instruction::HideCaret),
    {
        self.queue_command(Command::HideCaret);
    }

    /// Queues `string` for output at the caret.
    pub fn print(&mut self, string: &str)
        ensures
            final(self)@ == old(self)@.push(Instruction::Print(string@)),
    {
        self.queue_command(Command::Print(String::from_str(string)));
    }

    /// Hands out the whole queued batch, in order, and leaves the queue empty.
    pub fn execute(&mut self) -> (batch: Vec<Command>)
        ensures
            instructions(batch@) == old(self)@,
            final(self)@ == Seq::<Instruction>::empty(),
    {
        let mut batch: Vec<Command> = Vec::new();
        std::mem::swap(&mut batch, &mut self.queued);
        assert(final(self)@ =~= Seq::<Instruction>::empty());
        batch
    }
}

} // verus!
