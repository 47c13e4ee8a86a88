//! Lines of text for a terminal: the ciphertext as it is, and as it shows
//! through the guesses, with ambiguous letters in reverse video.

use crate::model::{rendering, Cryptoquip, QuipView, RenderedChar};
use vstd::prelude::*;
use vstd::string::StringExecFns;

verus! {

/// The escape sequence that switches reverse video on.
pub open spec fn highlight_on() -> Seq<char> {
    seq!['\x1b', '[', '7', 'm']
}

/// The escape sequence that switches every attribute off.
pub open spec fn highlight_off() -> Seq<char> {
    seq!['\x1b', '[', '0', 'm']
}

/// The text of one shown position: the character, between the two escape
/// sequences when it is ambiguous.
pub open spec fn cell_text(cell: RenderedChar) -> Seq<char> {
    if cell.ambiguous {
        highlight_on() + seq![cell.glyph] + highlight_off()
    } else {
        seq![cell.glyph]
    }
}

/// The texts of the shown positions, one after the other.
pub open spec fn cells_text(cells: Seq<RenderedChar>) -> Seq<char>
    decreases cells.len(),
{
    if cells.len() == 0 {
        Seq::empty()
    } else {
        cells_text(cells.drop_last()) + cell_text(cells.last())
    }
}

/// The line that shows the ciphertext as it is.
pub open spec fn ciphertext_line(v: QuipView) -> Seq<char> {
    v.ciphertext + seq!['\n']
}

/// The line that shows the ciphertext through the guesses.
pub open spec fn decoded_line(v: QuipView) -> Seq<char> {
    cells_text(rendering(v)) + seq!['\n']
}

/// Switches reverse video on.
pub fn inverse_text() -> (s: &'static str)
    ensures
        s@ == highlight_on(),
{
    proof {
        reveal_strlit("\x1b[7m");
    }
    let s = "\x1b[7m";
    s
}

/// Switches every attribute off.
pub fn normal_text() -> (s: &'static str)
    ensures
        s@ == highlight_off(),
{
    proof {
        reveal_strlit("\x1b[0m");
    }
    let s = "\x1b[0m";
    s
}

/// The text of the shown positions `cells`, without a line end.
pub fn format_cells(cells: &Vec<RenderedChar>) -> (s: String)
    ensures
        s@ == cells_text(cells@),
{
    let mut s = String::new();
    let mut i: usize = 0;
    while i < cells.len()
        invariant
            i <= cells.len(),
            s@ == cells_text(cells@.take(i as int)),
        decreases cells.len() - i,
    {
        let cell = cells[i];
        proof {
            let next = cells@.take(i + 1);
            assert(next.drop_last() =~= cells@.take(i as int));
        }
        if cell.ambiguous {
            s.append(inverse_text());
            s.push(cell.glyph);
            s.append(normal_text());
        } else {
            s.push(cell.glyph);
        }
        i = i + 1;
    }
    assert(cells@.take(cells.len() as int) =~= cells@);
    s
}

impl Cryptoquip {
    /// The line that shows the ciphertext as it is.
    pub fn show_orig(&self) -> (line: String)
        ensures
            line@ == ciphertext_line(self@),
    {
        let mut line = self.ciphertext().to_owned();
        line.push('\n');
        line
    }

    /// The line that shows the ciphertext through the guesses.
    pub fn show_decoded(&self) -> (line: String)
        requires
            self.wf(),
        ensures
            line@ == decoded_line(self@),
    {
        let cells = self.render();
        let mut line = format_cells(&cells);
        line.push('\n');
        line
    }

    /// The two lines: the ciphertext as it is, then through the guesses.
    pub fn print(&self) -> (lines: String)
        requires
            self.wf(),
        ensures
            lines@ == ciphertext_line(self@) + decoded_line(self@),
    {
        let mut lines = self.show_orig();
        let decoded = self.show_decoded();
        lines.append(decoded.as_str());
        lines
    }
}

} // verus!
