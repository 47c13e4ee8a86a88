use cryptoquip::command::{pair_accepted, trim};
use cryptoquip::unicode::{from_chars, to_chars};
use cryptoquip::{Command, Cryptoquip, ReplaceError};

fn chars(s: &str) -> Vec<char> {
    s.chars().collect()
}

#[test]
fn to_chars_and_back() {
    assert_eq!(to_chars("a\u{e9}\u{4eac} z"), vec!['a', '\u{e9}', '\u{4eac}', ' ', 'z']);
    assert_eq!(to_chars(""), Vec::<char>::new());
    assert_eq!(from_chars(&vec!['a', '\u{e9}', ' ', 'z']), "a\u{e9} z");
    assert_eq!(from_chars(&Vec::new()), "");
}

#[test]
fn trim_drops_surrounding_white_space() {
    assert_eq!(trim(&chars("  a b \t\n")), chars("a b"));
    assert_eq!(trim(&chars("a b")), chars("a b"));
    assert_eq!(trim(&chars(" \t\r\n")), chars(""));
    assert_eq!(trim(&chars("")), chars(""));
    assert_eq!(trim(&chars("\u{a0}x\u{2003}")), chars("x"));
}

#[test]
fn trim_agrees_with_the_standard_library() {
    for s in ["", " ", "a", " a", "a ", "  a  b  ", "\n\tq\r\n", "\u{3000}N x\u{85}", "x\u{200b}"] {
        assert_eq!(from_chars(&trim(&chars(s))), s.trim());
    }
}

#[test]
fn parse_selects_by_the_first_character() {
    assert_eq!(Command::parse("?"), Command::Help);
    assert_eq!(Command::parse("p"), Command::Print);
    assert_eq!(Command::parse("q"), Command::Quit);
    assert_eq!(Command::parse("c"), Command::Clear);
    assert_eq!(Command::parse("N abc def"), Command::New(chars("abc def")));
    assert_eq!(Command::parse("r abcd"), Command::Replace(chars("abcd")));
    assert_eq!(Command::parse("x"), Command::Unknown(chars("x")));
}

#[test]
fn parse_trims_the_line_and_the_argument() {
    assert_eq!(Command::parse("  p  \n"), Command::Print);
    assert_eq!(Command::parse("\tN   one two  \n"), Command::New(chars("one two")));
    assert_eq!(Command::parse(" r   ab \n"), Command::Replace(chars("ab")));
    assert_eq!(Command::parse("rab"), Command::Replace(chars("ab")));
    assert_eq!(Command::parse("  hello there \n"), Command::Unknown(chars("hello there")));
}

#[test]
fn parse_of_a_blank_line() {
    assert_eq!(Command::parse(""), Command::Blank);
    assert_eq!(Command::parse("\n"), Command::Blank);
    assert_eq!(Command::parse("  \t \r\n"), Command::Blank);
}

#[test]
fn parse_ignores_what_follows_a_command_without_arguments() {
    assert_eq!(Command::parse("print it"), Command::Print);
    assert_eq!(Command::parse("quit"), Command::Quit);
    assert_eq!(Command::parse("?help"), Command::Help);
    assert_eq!(Command::parse("clear"), Command::Clear);
}

#[test]
fn parse_is_case_sensitive() {
    assert_eq!(Command::parse("P"), Command::Unknown(chars("P")));
    assert_eq!(Command::parse("n abc"), Command::Unknown(chars("n abc")));
    assert_eq!(Command::parse("R ab"), Command::Unknown(chars("R ab")));
    assert_eq!(Command::parse("Q"), Command::Unknown(chars("Q")));
}

#[test]
fn parse_without_arguments() {
    assert_eq!(Command::parse("N"), Command::New(chars("")));
    assert_eq!(Command::parse("r"), Command::Replace(chars("")));
}

#[test]
fn select_takes_the_argument_as_given() {
    assert_eq!(Command::select(chars("N x"), chars("abc")), Command::New(chars("abc")));
    assert_eq!(Command::select(chars("r"), chars("ab")), Command::Replace(chars("ab")));
    assert_eq!(Command::select(chars("p"), chars("ab")), Command::Print);
    assert_eq!(Command::select(chars(""), chars("ab")), Command::Blank);
    assert_eq!(Command::select(chars("zz"), chars("z")), Command::Unknown(chars("zz")));
}

#[test]
fn pair_accepted_each_case() {
    assert!(pair_accepted(true, 'x', true));
    assert!(pair_accepted(true, '.', false));
    assert!(!pair_accepted(true, '1', false));
    assert!(!pair_accepted(false, 'x', true));
    assert!(!pair_accepted(false, '.', false));
}

#[test]
fn replace_applies_pairs_from_left_to_right() {
    let mut q = Cryptoquip::new("abc");
    assert_eq!(q.replace(&chars("axbyaz")), Ok(()));
    assert_eq!(q.image_of('a'), Some('z'));
    assert_eq!(q.image_of('b'), Some('y'));
    assert_eq!(q.image_of('c'), None);
    assert_eq!(q.image_use_count('x'), 0);
    assert_eq!(q.image_use_count('z'), 1);
}

#[test]
fn replace_with_no_pairs_changes_nothing() {
    let mut q = Cryptoquip::new("abc");
    q.update('a', 'x');
    assert_eq!(q.replace(&chars("")), Ok(()));
    assert_eq!(q.image_of('a'), Some('x'));
}

#[test]
fn replace_with_the_erase_marker_as_image() {
    let mut q = Cryptoquip::new("abc");
    assert_eq!(q.replace(&chars("axbxa.")), Ok(()));
    assert_eq!(q.image_of('a'), None);
    assert_eq!(q.image_of('b'), Some('x'));
    assert_eq!(q.image_use_count('x'), 1);
}

#[test]
fn replace_refuses_an_odd_number_of_characters() {
    let mut q = Cryptoquip::new("abc");
    q.update('c', 'z');
    assert_eq!(q.replace(&chars("aab")), Err(ReplaceError::OddLength));
    assert_eq!(q.replace(&chars("a")), Err(ReplaceError::OddLength));
    assert_eq!(q.image_of('a'), None);
    assert_eq!(q.image_of('c'), Some('z'));
    assert_eq!(q.image_use_count('a'), 0);
}

#[test]
fn replace_counts_characters_not_bytes() {
    let mut q = Cryptoquip::new("\u{e9}a");
    assert_eq!(q.replace(&chars("\u{e9}e")), Ok(()));
    assert_eq!(q.image_of('\u{e9}'), Some('e'));
    assert_eq!(q.replace(&chars("\u{e9}")), Err(ReplaceError::OddLength));
}

#[test]
fn replace_stops_at_a_pre_image_that_is_no_letter() {
    let mut q = Cryptoquip::new("abc");
    assert_eq!(q.replace(&chars("ax1ybz")), Err(ReplaceError::NotAlphabetic));
    assert_eq!(q.image_of('a'), Some('x'));
    assert_eq!(q.image_of('1'), None);
    assert_eq!(q.image_of('b'), None);
}

#[test]
fn replace_stops_at_an_image_that_is_no_letter() {
    let mut q = Cryptoquip::new("abc");
    assert_eq!(q.replace(&chars("axb7cz")), Err(ReplaceError::NotAlphabetic));
    assert_eq!(q.image_of('a'), Some('x'));
    assert_eq!(q.image_of('b'), None);
    assert_eq!(q.image_of('c'), None);
}

#[test]
fn replace_refuses_the_erase_marker_as_pre_image() {
    let mut q = Cryptoquip::new("abc");
    assert_eq!(q.replace(&chars("ab.c")), Err(ReplaceError::NotAlphabetic));
    assert_eq!(q.image_of('a'), Some('b'));
    assert_eq!(q.image_of('.'), None);
    assert_eq!(q.image_of('c'), None);
}

#[test]
fn replace_refuses_white_space_between_pairs() {
    let mut q = Cryptoquip::new("abc");
    assert_eq!(q.replace(&chars("ax by ")), Err(ReplaceError::NotAlphabetic));
    assert_eq!(q.image_of('a'), Some('x'));
    assert_eq!(q.image_of('b'), None);
}

#[test]
fn replace_error_messages() {
    assert_eq!(
        ReplaceError::OddLength.message(),
        "update should have pairs of preimage/image characters"
    );
    assert_eq!(
        ReplaceError::NotAlphabetic.message(),
        "update should involve only alphabetic characters"
    );
}
