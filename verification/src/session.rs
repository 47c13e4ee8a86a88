//! The interactive session: what each command does to the model and what
//! it answers, and the ciphertext that a session starts with.

use crate::command::{
    command_of, replace_error, replace_error_text, replaced, Command, CommandView, ReplaceError,
};
use crate::display::{decoded_line, ciphertext_line};
use crate::model::{Cryptoquip, QuipView};
use crate::unicode::from_chars;
use vstd::prelude::*;
use vstd::string::StringExecFns;

verus! {

/// The help text, line by line.
pub const HELP: &'static str =
    "?            - this help\np            - print ciphertext / decoded text\nN ciphertext - new cryptoquip with ciphertext\nc            - clear mappings\nr abcd...    - replace a with b, c with d, etc\n               post-image can be \".\" to remove\n               the current guess for the pre-image\nq            - quit\n";

/// What opens the answer to a line that is no command.
pub const NOT_UNDERSTOOD: &'static str = "Not understood: ";

/// What closes the answer to a line that is no command.
pub const HELP_HINT: &'static str = "Enter \"?\" to get help.\n";

/// The ciphertext of a session that was given none.
pub const DEFAULT_CRYPTOGRAM: &'static str =
    "jwblqr bx snbswn utb otgrh aynqhxqjo inynqw aygrlj tqssgrnjj: \"wgxn gj q abuw bx itnnygbj.\"";

/// The answer to one line of input.
#[derive(Debug, PartialEq, Eq)]
pub struct Reply {
    /// The text to show, made of whole lines; empty where there is nothing
    /// to show.
    pub output: String,
    /// Whether the session ends here.
    pub quit: bool,
}

/// The model after the command `cmd`.
pub open spec fn state_after(v: QuipView, cmd: CommandView) -> QuipView {
    match cmd {
        CommandView::New(text) => QuipView { ciphertext: text, mapping: Map::empty() },
        CommandView::Clear => QuipView { ciphertext: v.ciphertext, mapping: Map::empty() },
        CommandView::Replace(args) => QuipView {
            ciphertext: v.ciphertext,
            mapping: replaced(v.mapping, args),
        },
        _ => v,
    }
}

/// The text that answers the command `cmd`, given to the model `v`.
pub open spec fn output_of(v: QuipView, cmd: CommandView) -> Seq<char> {
    let after = state_after(v, cmd);
    match cmd {
        CommandView::Blank => Seq::empty(),
        CommandView::Quit => Seq::empty(),
        CommandView::Help => HELP@,
        CommandView::Print => ciphertext_line(after) + decoded_line(after),
        CommandView::New(_) => ciphertext_line(after) + decoded_line(after),
        CommandView::Clear => ciphertext_line(after) + decoded_line(after),
        CommandView::Replace(args) => match replace_error(args) {
            None => decoded_line(after),
            Some(ReplaceError::OddLength) => replace_error_text(ReplaceError::OddLength) + seq![
                '\n',
            ],
            Some(ReplaceError::NotAlphabetic) => replace_error_text(ReplaceError::NotAlphabetic)
                + seq!['\n'] + decoded_line(after),
        },
        CommandView::Unknown(line) => NOT_UNDERSTOOD@ + line + seq!['\n'] + HELP_HINT@,
    }
}

impl Cryptoquip {
    /// Carries out one command and gives the answer to show.
    pub fn execute(&mut self, cmd: &Command) -> (reply: Reply)
        requires
            old(self).wf(),
        ensures
            final(self).wf(),
            final(self)@.ciphertext == state_after(old(self)@, cmd@).ciphertext,
            final(self)@.mapping == state_after(old(self)@, cmd@).mapping,
            reply.output@ == output_of(old(self)@, cmd@),
            reply.quit == (cmd@ is Quit),
    {
        match cmd {
            Command::Blank => Reply { output: String::new(), quit: false },
            Command::Quit => Reply { output: String::new(), quit: true },
            Command::Help => Reply { output: HELP.to_owned(), quit: false },
            Command::Print => Reply { output: self.print(), quit: false },
            Command::New(text) => {
                let text = from_chars(text);
                self.reset(text.as_str());
                Reply { output: self.print(), quit: false }
            },
            Command::Clear => {
                self.reset_map();
                Reply { output: self.print(), quit: false }
            },
            Command::Replace(args) => {
                let mut output = String::new();
                match self.replace(args) {
                    Ok(()) => {
                        output.append(self.show_decoded().as_str());
                    },
                    Err(ReplaceError::OddLength) => {
                        output.append(ReplaceError::OddLength.message());
                        output.push('\n');
                    },
                    Err(ReplaceError::NotAlphabetic) => {
                        output.append(ReplaceError::NotAlphabetic.message());
                        output.push('\n');
                        output.append(self.show_decoded().as_str());
                    },
                }
                Reply { output, quit: false }
            },
            Command::Unknown(line) => {
                let mut output = NOT_UNDERSTOOD.to_owned();
                output.append(from_chars(line).as_str());
                output.push('\n');
                output.append(HELP_HINT);
                Reply { output, quit: false }
            },
        }
    }

    /// Reads one line of input as a command, carries it out, and gives the
    /// answer to show.
    pub fn interpret(&mut self, line: &str) -> (reply: Reply)
        requires
            old(self).wf(),
        ensures
            final(self).wf(),
            final(self)@.ciphertext == state_after(old(self)@, command_of(line@)).ciphertext,
            final(self)@.mapping == state_after(old(self)@, command_of(line@)).mapping,
            reply.output@ == output_of(old(self)@, command_of(line@)),
            reply.quit == (command_of(line@) is Quit),
    {
        let cmd = Command::parse(line);
        self.execute(&cmd)
    }
}

/// The ciphertext that a session starts with: the words given, with one
/// space between each two, or [`DEFAULT_CRYPTOGRAM`] where none was given.
pub open spec fn initial_text(words: Seq<Seq<char>>) -> Seq<char>
    decreases words.len(),
{
    if words.len() == 0 {
        DEFAULT_CRYPTOGRAM@
    } else if words.len() == 1 {
        words[0]
    } else {
        initial_text(words.drop_last()) + seq![' '] + words.last()
    }
}

/// The views of the strings of `words`.
pub open spec fn word_views(words: Seq<String>) -> Seq<Seq<char>> {
    Seq::new(words.len(), |i: int| words[i]@)
}

/// Computes [`initial_text`].
pub fn initial_ciphertext(words: &Vec<String>) -> (text: String)
    ensures
        text@ == initial_text(word_views(words@)),
{
    if words.len() == 0 {
        return DEFAULT_CRYPTOGRAM.to_owned();
    }
    let mut text = words[0].clone();
    let mut i: usize = 1;
    while i < words.len()
        invariant
            1 <= i <= words.len(),
            text@ == initial_text(word_views(words@).take(i as int)),
        decreases words.len() - i,
    {
        proof {
            let next = word_views(words@).take(i + 1);
            assert(next.drop_last() =~= word_views(words@).take(i as int));
        }
        text.push(' ');
        text.append(words[i].as_str());
        i = i + 1;
    }
    assert(word_views(words@).take(words.len() as int) =~= word_views(words@));
    text
}

} // verus!
