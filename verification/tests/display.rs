use op4_core::ui::input::{sanitize, sanitize_for_display};

#[test]
fn strips_csi_sequences() {
    let input = "\x1b[31mred text\x1b[0m";
    assert_eq!(sanitize_for_display(input), "red text");
}

#[test]
fn strips_osc_sequences() {
    let input = "\x1b]0;window title\x07normal";
    assert_eq!(sanitize_for_display(input), "normal");
}

#[test]
fn preserves_normal_text() {
    let input = "hello world\nline two";
    assert_eq!(sanitize_for_display(input), "hello world\nline two");
}

#[test]
fn drops_control_chars() {
    // BEL (\x07) and BS (\x08) are both control chars that get dropped entirely.
    let input = "hello\x07world\x08!";
    assert_eq!(sanitize_for_display(input), "helloworld!");
}

#[test]
fn cleaned_text_holds_no_control_character() {
    let input = "a\x1bPpayload\x1b\\b\u{9b}31mc\td\re\x1b";
    let out = sanitize_for_display(input);
    assert!(out.chars().all(|c| !c.is_control() || c == '\n' || c == '\t'));
    assert_eq!(sanitize_for_display(&out), out);
}

#[test]
fn plain_text_drops_control_characters_but_line_feeds() {
    assert_eq!(sanitize("one\x1b[31m\x07two\x7f\n\tthree"), "one[31mtwo\nthree");
    assert_eq!(sanitize("été ✓"), "été ✓");
}
