//! The view: decides what each visible row shows and queues it on the
//! terminal surface.

use vstd::prelude::*;
use vstd::view::View as _;
use vstd::string::StrSliceExecFns;
use vstd::string::StringExecFns;

use crate::buffer::{text_lines, Buffer};
use crate::terminal::{Instruction, Size, Terminal};

verus! {

pub const NAME: &'static str = "ember";

pub const VERSION: &'static str = "0.1.0";

/// The welcome label: the name and the version.
pub open spec fn welcome_text() -> Seq<char> {
    NAME@ + " - v"@ + VERSION@
}

/// Spaces between the leading `~` and the label, so that the label stands
/// centred: `(width - label length) / 2 - 1`, where a negative value counts as
/// zero.
pub open spec fn banner_padding(width: nat) -> nat {
    let m = welcome_text().len();
    let pad: nat = if width >= m {
        ((width - m) / 2) as nat
    } else {
        0
    };
    if pad >= 1 {
        (pad - 1) as nat
    } else {
        0
    }
}

/// The welcome banner for a screen `width` columns wide, truncated so that it
/// never overflows the row.
pub open spec fn banner(width: nat) -> Seq<char> {
    let full = seq!['~'] + Seq::new(banner_padding(width), |i: int| ' ') + welcome_text();
    if full.len() <= width {
        full
    } else {
        full.take(width as int)
    }
}

/// What row `row` shows: the corresponding file line when a file is loaded
/// (nothing past its end); without one, the banner on row `height / 3` and a
/// `~` marker on every other row.
pub open spec fn row_content(lines: Seq<Seq<char>>, size: Size, row: int) -> Seq<Instruction> {
    if lines.len() > 0 {
        if row < lines.len() {
            seq![Instruction::Print(lines[row])]
        } else {
            Seq::<Instruction>::empty()
        }
    } else if row == size.height / 3 {
        seq![Instruction::Print(banner(size.width as nat))]
    } else {
        seq![Instruction::Print("~"@)]
    }
}

/// The instructions for one row: clear the line, draw its content, and break
/// the line unless it is the last row.
pub open spec fn row_instructions(lines: Seq<Seq<char>>, size: Size, row: int) -> Seq<
    Instruction,
> {
    seq![Instruction::ClearLine] + row_content(lines, size, row) + if row + 1 < size.height {
        seq![Instruction::Print("\r\n"@)]
    } else {
        Seq::<Instruction>::empty()
    }
}

/// The instructions for the first `n` rows, top to bottom.
pub open spec fn rows(lines: Seq<Seq<char>>, size: Size, n: nat) -> Seq<Instruction>
    decreases n,
{
    if n == 0 {
        Seq::<Instruction>::empty()
    } else {
        rows(lines, size, (n - 1) as nat) + row_instructions(lines, size, n - 1)
    }
}

/// The banner never overflows its row; where the row is wide enough, it is
/// the `~` marker, `(width - label length) / 2 - 1` spaces and the label, so
/// that the label stands centred.
pub proof fn lemma_banner_fits(width: nat)
    ensures
        banner(width).len() <= width,
        width >= welcome_text().len() + 2 ==> banner(width) == seq!['~'] + Seq::new(
            ((width - welcome_text().len()) / 2 - 1) as nat,
            |i: int| ' ',
        ) + welcome_text(),
{
}

proof fn lemma_empty_rows_len(size: Size, n: nat)
    requires
        n <= size.height,
    ensures
        rows(Seq::<Seq<char>>::empty(), size, n).len() == if n == size.height && n > 0 {
            3 * n - 1
        } else {
            3 * n as int
        },
    decreases n,
{
    if n > 0 {
        lemma_empty_rows_len(size, (n - 1) as nat);
    }
}

/// With no file loaded, a screen of height `H` gets exactly `H` rows. Each
/// row clears its line and prints one text: `~` on every row but row `H / 3`,
/// which prints the banner, no wider than the screen. Every row but the last
/// ends in a line break.
pub proof fn lemma_empty_view_rows(size: Size, r: int)
    requires
        0 <= r < size.height,
    ensures
        row_instructions(Seq::<Seq<char>>::empty(), size, r) == seq![
            Instruction::ClearLine,
            Instruction::Print(
                if r == size.height / 3 {
                    banner(size.width as nat)
                } else {
                    "~"@
                },
            ),
        ] + if r + 1 < size.height {
            seq![Instruction::Print("\r\n"@)]
        } else {
            Seq::<Instruction>::empty()
        },
        rows(Seq::<Seq<char>>::empty(), size, size.height as nat).len() == 3 * size.height - 1,
        banner(size.width as nat).len() <= size.width,
{
    lemma_empty_rows_len(size, size.height as nat);
    lemma_banner_fits(size.width as nat);
    assert(row_instructions(Seq::<Seq<char>>::empty(), size, r) =~= seq![
        Instruction::ClearLine,
        Instruction::Print(
            if r == size.height / 3 {
                banner(size.width as nat)
            } else {
                "~"@
            },
        ),
    ] + if r + 1 < size.height {
        seq![Instruction::Print("\r\n"@)]
    } else {
        Seq::<Instruction>::empty()
    });
}

/// The view: the loaded buffer and the latest known screen size.
pub struct View {
    pub buffer: Buffer,
    pub size: Size,
}

impl View {
    /// A view with no file loaded, for a screen of `size`.
    pub fn new(size: Size) -> (r: View)
        ensures
            r.buffer.lines@.len() == 0,
            r.size == size,
    {
        View { buffer: Buffer::new(), size }
    }

    /// Takes the outcome of reading a file: its full text, or `None` when it
    /// could not be read, in which case the buffer stays as it was.
    pub fn load(&mut self, contents: Option<&str>)
        ensures
            final(self).size == old(self).size,
            match contents {
                Some(c) => text_lines(final(self).buffer.lines@) == crate::buffer::lines_of(c@),
                None => final(self).buffer == old(self).buffer,
            },
    {
        if let Some(c) = contents {
            self.buffer = Buffer::load(c);
        }
    }

    /// Records the screen size used by later renders.
    pub fn resize(&mut self, size: Size)
        ensures
            final(self).size == size,
            final(self).buffer == old(self).buffer,
    {
        self.size = size;
    }

    /// Queues the whole view.
    pub fn render(&self, terminal: &mut Terminal)
        ensures
            final(terminal)@ == old(terminal)@ + rows(
                text_lines(self.buffer.lines@),
                self.size,
                self.size.height as nat,
            ),
    {
        self.draw_rows(terminal);
    }

    /// Queues every row, top to bottom.
    pub fn draw_rows(&self, terminal: &mut Terminal)
        ensures
            final(terminal)@ == old(terminal)@ + rows(
                text_lines(self.buffer.lines@),
                self.size,
                self.size.height as nat,
            ),
    {
        let ghost lines = text_lines(self.buffer.lines@);
        let height = self.size.height;
        let mut current_row: usize = 0;
        while current_row < height
            invariant
                current_row <= height,
                height == self.size.height,
                lines == text_lines(self.buffer.lines@),
                terminal@ == old(terminal)@ + rows(lines, self.size, current_row as nat),
            decreases height - current_row,
        {
            let ghost before = terminal@;
            terminal.clear_line();
            if self.buffer.lines.len() > 0 {
                if current_row < self.buffer.lines.len() {
                    terminal.print(self.buffer.lines[current_row].as_str());
                }
            } else if current_row == height / 3 {
                self.draw_welcome_message(terminal);
            } else {
                self.draw_empty_row(terminal);
            }
            if current_row + 1 < height {
                terminal.print("\r\n");
            }
            assert(terminal@ =~= before + row_instructions(lines, self.size, current_row as int));
            current_row = current_row + 1;
        }
    }

    fn draw_empty_row(&self, terminal: &mut Terminal)
        ensures
            final(terminal)@ == old(terminal)@.push(Instruction::Print("~"@)),
    {
        terminal.print("~");
    }

    fn draw_welcome_message(&self, terminal: &mut Terminal)
        ensures
            final(terminal)@ == old(terminal)@.push(
                Instruction::Print(banner(self.size.width as nat)),
            ),
    {
        let message = welcome_message(self.size.width);
        terminal.print(message.as_str());
    }
}

/// The welcome banner for a screen `width` columns wide.
pub fn welcome_message(width: usize) -> (r: String)
    ensures
        r@ == banner(width as nat),
{
    proof {
        reveal_strlit("ember");
        reveal_strlit(" - v");
        reveal_strlit("0.1.0");
        reveal_strlit("~");
        reveal_strlit(" ");
    }
    let label = String::from_str(NAME).concat(" - v").concat(VERSION);
    let len = label.as_str().unicode_len();
    let padding = width.saturating_sub(len) / 2;
    let spaces = padding.saturating_sub(1);
    let mut message = String::from_str("~");
    let mut i: usize = 0;
    while i < spaces
        invariant
            i <= spaces,
            message@ == seq!['~'] + Seq::new(i as nat, |k: int| ' '),
        decreases spaces - i,
    {
        proof {
            reveal_strlit(" ");
        }
        message.append(" ");
        i = i + 1;
        assert(message@ =~= seq!['~'] + Seq::new(i as nat, |k: int| ' '));
    }
    message.append(label.as_str());
    assert(spaces == banner_padding(width as nat));
    let full_len = message.as_str().unicode_len();
    if full_len <= width {
        message
    } else {
        String::from_str(message.as_str().substring_char(0, width))
    }
}

} // verus!
