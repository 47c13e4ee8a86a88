use cryptoquip::display::format_cells;
use cryptoquip::{inverse_text, normal_text, Cryptoquip, RenderedChar};

#[test]
fn escape_sequences() {
    assert_eq!(inverse_text(), "\x1b[7m");
    assert_eq!(normal_text(), "\x1b[0m");
}

#[test]
fn format_cells_wraps_ambiguous_letters() {
    let cells = vec![
        RenderedChar { glyph: 'x', ambiguous: true },
        RenderedChar { glyph: ' ', ambiguous: false },
        RenderedChar { glyph: 'y', ambiguous: false },
        RenderedChar { glyph: 'x', ambiguous: true },
    ];
    assert_eq!(format_cells(&cells), "\x1b[7mx\x1b[0m y\x1b[7mx\x1b[0m");
}

#[test]
fn format_cells_of_nothing_is_empty() {
    assert_eq!(format_cells(&Vec::new()), "");
}

#[test]
fn show_orig_is_the_ciphertext_line() {
    let q = Cryptoquip::new("ab, c");
    assert_eq!(q.show_orig(), "ab, c\n");
}

#[test]
fn show_decoded_is_the_rendered_line() {
    let mut q = Cryptoquip::new("ab, c");
    assert_eq!(q.show_decoded(), ".., .\n");
    q.update('a', 'x');
    assert_eq!(q.show_decoded(), "x., .\n");
    q.update('c', 'x');
    assert_eq!(q.show_decoded(), "\x1b[7mx\x1b[0m., \x1b[7mx\x1b[0m\n");
}

#[test]
fn print_is_both_lines() {
    let mut q = Cryptoquip::new("ab");
    q.update('b', 'y');
    assert_eq!(q.print(), "ab\n.y\n");
}

#[test]
fn print_of_an_empty_ciphertext() {
    let q = Cryptoquip::new("");
    assert_eq!(q.print(), "\n\n");
}
