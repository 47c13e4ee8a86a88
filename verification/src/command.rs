//! The commands of the line-oriented interface: how a line of input is
//! read as a command, and how the arguments of a replacement are checked
//! and applied.

use crate::model::{updated, Cryptoquip, ERASE};
use crate::unicode::{is_letter, is_space, to_chars};
use vstd::prelude::*;

verus! {

/// `s` without the white space at its start.
pub open spec fn trim_start(s: Seq<char>) -> Seq<char>
    decreases s.len(),
{
    if s.len() > 0 && is_space(s.first()) {
        trim_start(s.drop_first())
    } else {
        s
    }
}

/// `s` without the white space at its end.
pub open spec fn trim_end(s: Seq<char>) -> Seq<char>
    decreases s.len(),
{
    if s.len() > 0 && is_space(s.last()) {
        trim_end(s.drop_last())
    } else {
        s
    }
}

/// `s` without the white space at its start and at its end.
pub open spec fn trimmed(s: Seq<char>) -> Seq<char> {
    trim_end(trim_start(s))
}

/// Trimming at the start drops exactly the white space before the first
/// character that is none.
pub proof fn lemma_trim_start(s: Seq<char>, n: int)
    requires
        0 <= n <= s.len(),
        forall|k: int| 0 <= k < n ==> is_space(#[trigger] s[k]),
        n == s.len() || !is_space(s[n]),
    ensures
        trim_start(s) == s.skip(n),
    decreases n,
{
    if n > 0 {
        let rest = s.drop_first();
        assert forall|k: int| 0 <= k < n - 1 implies is_space(#[trigger] rest[k]) by {
            assert(rest[k] == s[k + 1]);
        }
        lemma_trim_start(rest, n - 1);
        assert(rest.skip(n - 1) =~= s.skip(n));
    }
}

/// Trimming at the end drops exactly the white space after the last
/// character that is none.
pub proof fn lemma_trim_end(s: Seq<char>, n: int)
    requires
        0 <= n <= s.len(),
        forall|k: int| n <= k < s.len() ==> is_space(#[trigger] s[k]),
        n == 0 || !is_space(s[n - 1]),
    ensures
        trim_end(s) == s.take(n),
    decreases s.len() - n,
{
    if n < s.len() {
        lemma_trim_end(s.drop_last(), n);
        assert(s.drop_last().take(n) =~= s.take(n));
    }
}

/// The characters of `v` from position `from` on, without the white space
/// at their start and at their end.
fn trim_from(v: &Vec<char>, from: usize) -> (t: Vec<char>)
    requires
        from <= v.len(),
    ensures
        t@ == trimmed(v@.skip(from as int)),
{
    let mut start: usize = from;
    while start < v.len() && v[start].is_whitespace()
        invariant
            from <= start <= v.len(),
            forall|k: int| from <= k < start ==> is_space(#[trigger] v@[k]),
        decreases v.len() - start,
    {
        start = start + 1;
    }
    let mut end: usize = v.len();
    while end > start && v[end - 1].is_whitespace()
        invariant
            start <= end <= v.len(),
            forall|k: int| end <= k < v.len() ==> is_space(#[trigger] v@[k]),
        decreases end,
    {
        end = end - 1;
    }
    let mut t: Vec<char> = Vec::new();
    let mut i: usize = start;
    while i < end
        invariant
            start <= i <= end <= v.len(),
            t@ == v@.subrange(start as int, i as int),
        decreases end - i,
    {
        t.push(v[i]);
        i = i + 1;
    }
    proof {
        let tail = v@.skip(from as int);
        lemma_trim_start(tail, start - from);
        let inner = tail.skip(start - from);
        lemma_trim_end(inner, end - start);
        assert(inner.take(end - start) =~= v@.subrange(start as int, end as int));
    }
    t
}

/// The characters of `v` without the white space at their start and at
/// their end.
pub fn trim(v: &Vec<char>) -> (t: Vec<char>)
    ensures
        t@ == trimmed(v@),
{
    assert(v@.skip(0) =~= v@);
    trim_from(v, 0)
}

/// A line of input read as a command.
#[derive(Debug, PartialEq, Eq)]
pub enum Command {
    /// Nothing but white space: no command.
    Blank,
    /// `?`: show the help text.
    Help,
    /// `p`: show the ciphertext as it is and through the guesses.
    Print,
    /// `q`: leave.
    Quit,
    /// `N`: start over with the ciphertext given.
    New(Vec<char>),
    /// `c`: drop every guess.
    Clear,
    /// `r`: change guesses; the arguments are pairs of a pre-image and its
    /// image.
    Replace(Vec<char>),
    /// Any other line, kept without its surrounding white space.
    Unknown(Vec<char>),
}

/// What a [`Command`] stands for.
pub enum CommandView {
    Blank,
    Help,
    Print,
    Quit,
    New(Seq<char>),
    Clear,
    Replace(Seq<char>),
    Unknown(Seq<char>),
}

impl View for Command {
    type V = CommandView;

    open spec fn view(&self) -> CommandView {
        match self {
            Command::Blank => CommandView::Blank,
            Command::Help => CommandView::Help,
            Command::Print => CommandView::Print,
            Command::Quit => CommandView::Quit,
            Command::New(text) => CommandView::New(text@),
            Command::Clear => CommandView::Clear,
            Command::Replace(args) => CommandView::Replace(args@),
            Command::Unknown(line) => CommandView::Unknown(line@),
        }
    }
}

/// The command that a trimmed line stands for, given the argument that
/// follows its first character. The first character selects the command;
/// only `N` and `r` look at the argument.
pub open spec fn selected(line: Seq<char>, arg: Seq<char>) -> CommandView {
    if line.len() == 0 {
        CommandView::Blank
    } else if line[0] == '?' {
        CommandView::Help
    } else if line[0] == 'p' {
        CommandView::Print
    } else if line[0] == 'q' {
        CommandView::Quit
    } else if line[0] == 'N' {
        CommandView::New(arg)
    } else if line[0] == 'c' {
        CommandView::Clear
    } else if line[0] == 'r' {
        CommandView::Replace(arg)
    } else {
        CommandView::Unknown(line)
    }
}

/// What follows the first character of a trimmed line, trimmed again.
pub open spec fn argument_of(line: Seq<char>) -> Seq<char> {
    if line.len() == 0 {
        Seq::empty()
    } else {
        trimmed(line.drop_first())
    }
}

/// The command that a line of input stands for: the line is trimmed, and
/// the command is selected from what is left.
pub open spec fn command_of(line: Seq<char>) -> CommandView {
    selected(trimmed(line), argument_of(trimmed(line)))
}

impl Command {
    /// Selects the command that the trimmed line `line` stands for, with
    /// `arg` as its argument.
    pub fn select(line: Vec<char>, arg: Vec<char>) -> (cmd: Command)
        ensures
            cmd@ == selected(line@, arg@),
    {
        if line.len() == 0 {
            return Command::Blank;
        }
        let head = line[0];
        if head == '?' {
            Command::Help
        } else if head == 'p' {
            Command::Print
        } else if head == 'q' {
            Command::Quit
        } else if head == 'N' {
            Command::New(arg)
        } else if head == 'c' {
            Command::Clear
        } else if head == 'r' {
            Command::Replace(arg)
        } else {
            Command::Unknown(line)
        }
    }

    /// Reads a line of input as a command.
    pub fn parse(line: &str) -> (cmd: Command)
        ensures
            cmd@ == command_of(line@),
    {
        let chars = to_chars(line);
        let line = trim(&chars);
        let arg = if line.len() == 0 {
            Vec::new()
        } else {
            assert(line@.skip(1) =~= line@.drop_first());
            trim_from(&line, 1)
        };
        Command::select(line, arg)
    }
}

/// Why a replacement was not applied, or not in full.
#[derive(Clone, Copy, Debug, PartialEq, Eq, Structural)]
pub enum ReplaceError {
    /// The arguments do not come in pairs. No guess was changed.
    OddLength,
    /// A pre-image is no letter, or an image is neither a letter nor the
    /// erase marker. The pairs before it were applied.
    NotAlphabetic,
}

/// Whether `pre` and `post` may be given to an update: a letter, and a
/// letter or the erase marker.
pub open spec fn pair_ok(pre: char, post: char) -> bool {
    is_letter(pre) && (post == ERASE || is_letter(post))
}

/// The number of pairs at the start of `args` that may be given to an
/// update, up to the first that may not.
pub open spec fn accepted_pairs(args: Seq<char>) -> nat
    decreases args.len(),
{
    if args.len() >= 2 && pair_ok(args[0], args[1]) {
        1 + accepted_pairs(args.skip(2))
    } else {
        0
    }
}

/// The mapping after the first `n` pairs of `args` were applied to `m`,
/// from left to right.
pub open spec fn apply_pairs(m: Map<char, char>, args: Seq<char>, n: nat) -> Map<char, char>
    decreases n,
{
    if n == 0 {
        m
    } else {
        updated(apply_pairs(m, args, (n - 1) as nat), args[2 * (n - 1)], args[2 * (n - 1) + 1])
    }
}

/// What is wrong with the arguments of a replacement, if anything.
pub open spec fn replace_error(args: Seq<char>) -> Option<ReplaceError> {
    if args.len() % 2 != 0 {
        Some(ReplaceError::OddLength)
    } else if 2 * accepted_pairs(args) < args.len() {
        Some(ReplaceError::NotAlphabetic)
    } else {
        None
    }
}

/// The mapping after a replacement with the arguments `args`: unchanged
/// where they do not come in pairs, else with every pair applied up to the
/// first that may not be given to an update.
pub open spec fn replaced(m: Map<char, char>, args: Seq<char>) -> Map<char, char> {
    if args.len() % 2 != 0 {
        m
    } else {
        apply_pairs(m, args, accepted_pairs(args))
    }
}

/// Where the first `n` pairs of `args` are in order and the next one is
/// not, or there is none, exactly `n` pairs are accepted.
pub proof fn lemma_accepted_pairs(args: Seq<char>, n: int)
    requires
        0 <= n,
        2 * n <= args.len(),
        forall|j: int| 0 <= j < n ==> pair_ok(#[trigger] args[2 * j], args[2 * j + 1]),
        2 * n + 2 > args.len() || !pair_ok(args[2 * n], args[2 * n + 1]),
    ensures
        accepted_pairs(args) == n,
    decreases n,
{
    if n > 0 {
        let rest = args.skip(2);
        assert(pair_ok(args[2 * 0int], args[2 * 0int + 1]));
        assert forall|j: int| 0 <= j < n - 1 implies pair_ok(
            #[trigger] rest[2 * j],
            rest[2 * j + 1],
        ) by {
            assert(pair_ok(args[2 * (j + 1)], args[2 * (j + 1) + 1]));
        }
        lemma_accepted_pairs(rest, n - 1);
    }
}

impl ReplaceError {
    /// The diagnostic for the user.
    pub fn message(&self) -> (s: &'static str)
        ensures
            s@ == replace_error_text(*self),
    {
        match self {
            ReplaceError::OddLength => "update should have pairs of preimage/image characters",
            ReplaceError::NotAlphabetic => "update should involve only alphabetic characters",
        }
    }
}

/// The diagnostic that belongs to `e`.
pub open spec fn replace_error_text(e: ReplaceError) -> Seq<char> {
    match e {
        ReplaceError::OddLength => "update should have pairs of preimage/image characters"@,
        ReplaceError::NotAlphabetic => "update should involve only alphabetic characters"@,
    }
}

/// Computes [`pair_ok`] from what is known of the two characters.
pub fn pair_accepted(pre_is_letter: bool, post: char, post_is_letter: bool) -> (ok: bool)
    ensures
        ok == (pre_is_letter && (post == ERASE || post_is_letter)),
{
    pre_is_letter && (post == ERASE || post_is_letter)
}

impl Cryptoquip {
    /// Applies the pairs of `args`, each a pre-image and its image, from
    /// left to right.
    ///
    /// Arguments that do not come in pairs are refused as a whole. Else
    /// each pair is checked and applied in turn, and the first pair that
    /// may not be given to an update ends the replacement: the pairs before
    /// it stay applied.
    pub fn replace(&mut self, args: &Vec<char>) -> (res: Result<(), ReplaceError>)
        requires
            old(self).wf(),
        ensures
            final(self).wf(),
            final(self)@.ciphertext == old(self)@.ciphertext,
            final(self)@.mapping == replaced(old(self)@.mapping, args@),
            res == match replace_error(args@) {
                Some(e) => Err::<(), ReplaceError>(e),
                None => Ok::<(), ReplaceError>(()),
            },
    {
        if args.len() % 2 != 0 {
            return Err(ReplaceError::OddLength);
        }
        let pairs: usize = args.len() / 2;
        let mut i: usize = 0;
        while i < pairs
            invariant
                self.wf(),
                args.len() == 2 * pairs,
                i <= pairs,
                self@.ciphertext == old(self)@.ciphertext,
                self@.mapping == apply_pairs(old(self)@.mapping, args@, i as nat),
                forall|j: int| 0 <= j < i ==> pair_ok(#[trigger] args@[2 * j], args@[2 * j + 1]),
            decreases pairs - i,
        {
            let pre = args[2 * i];
            let post = args[2 * i + 1];
            if !pair_accepted(pre.is_alphabetic(), post, post.is_alphabetic()) {
                proof {
                    lemma_accepted_pairs(args@, i as int);
                }
                return Err(ReplaceError::NotAlphabetic);
            }
            self.update(pre, post);
            i = i + 1;
        }
        proof {
            lemma_accepted_pairs(args@, i as int);
        }
        Ok(())
    }
}

} // verus!
