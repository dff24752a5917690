use kese::global::{split_lines, ECode, Error, Span};

fn error(line: usize, column: usize, start_pos: usize, end_pos: usize, src: &str) -> Error {
    Error {
        code: ECode::UndefinedIdentifier,
        details: "cannot find `x` in scope".to_string(),
        span: Span { line, column, start_pos, end_pos },
        src: src.to_string(),
        path: "a.kl".to_string(),
        note: None,
        help: None,
    }
}

#[test]
fn a_diagnostic_on_a_single_line() {
    let mut e = error(0, 4, 4, 4, "y = x");
    e.help = Some("did you mean: `y`?".to_string());
    assert_eq!(
        e.format(),
        "error[E1003]: cannot find `x` in scope\n\
         \x20  \u{250c}\u{2500} a.kl:1:4\n\
         \x20  \u{2502}\n\
         \x201 \u{2502} y = x\n\
         \x20  \u{2502}     \u{af} cannot find `x` in scope\n\
         \x20  \u{2502}\n\
         \x20  > hint: did you mean: `y`?"
    );
    assert_eq!(e.to_string(), e.format());
}

#[test]
fn a_diagnostic_shows_two_lines_on_either_side() {
    let src = "l1\nl2\nl3\nl4\nl5\nl6\nl7\nl8\nl9\nline ten\nl11\nl12\nl13";
    let mut e = error(9, 5, 32, 34, src);
    e.code = ECode::MismatchedTypes;
    e.note = Some("a note".to_string());
    e.help = Some("a hint".to_string());
    assert_eq!(
        e.format(),
        "error[E1004]: cannot find `x` in scope\n\
         \x20   \u{250c}\u{2500} a.kl:10:5\n\
         \x20   \u{2502}\n\
         \x208  \u{2502} l8\n\
         \x209  \u{2502} l9\n\
         \x2010 \u{2502} line ten\n\
         \x20   \u{2502}      \u{af}\u{af}\u{af} cannot find `x` in scope\n\
         \x2011 \u{2502} l11\n\
         \x2012 \u{2502} l12\n\
         \x20   \u{2502}\n\
         \x20   = note: a note\n\
         \x20   > hint: a hint"
    );
}

#[test]
fn context_lines_that_the_source_lacks_are_left_out() {
    let e = error(1, 0, 2, 2, "a\nb\nc");
    assert_eq!(
        e.format_error_line(2),
        " 1 \u{2502} a\n 2 \u{2502} b\n   \u{2502} \u{af} cannot find `x` in scope\n 3 \u{2502} c"
    );
    assert_eq!(
        e.format_error_line(0),
        " 2 \u{2502} b\n   \u{2502} \u{af} cannot find `x` in scope"
    );
    let lines = vec!["a".to_string(), "b".to_string(), "c".to_string()];
    assert_eq!(e.format_context_lines(1, 2, false, &lines, 1), " 1 \u{2502} a\n");
    assert_eq!(e.format_context_lines(1, 2, true, &lines, 3), "\n 3   \u{2502} c");
    assert_eq!(e.format_context_lines(2, 1, true, &lines, 1), "");
    assert_eq!(e.format_context_lines(usize::MAX, 2, true, &lines, 1), "");
}

#[test]
fn a_span_outside_the_source_still_renders() {
    let e = error(7, 2, 9, 3, "only");
    assert_eq!(
        e.format(),
        "error[E1003]: cannot find `x` in scope\n\
         \x20  \u{250c}\u{2500} a.kl:8:2\n\
         \x20  \u{2502}\n\
         \x208 \u{2502} \n\
         \x20  \u{2502}    cannot find `x` in scope\n\
         \x20  \u{2502}"
    );
}

#[test]
fn the_location_line() {
    let e = error(98, 12, 0, 0, "");
    assert_eq!(e.format_location(2), "     \u{250c}\u{2500} a.kl:99:12\n");
    assert_eq!(e.format_location(0), "    \u{250c}\u{2500} a.kl:99:12\n");
}

#[test]
fn digits_of_line_numbers() {
    let e = error(0, 0, 0, 0, "");
    assert_eq!(e.calculate_max_digits(0), 1);
    assert_eq!(e.calculate_max_digits(9), 1);
    assert_eq!(e.calculate_max_digits(10), 2);
    assert_eq!(e.calculate_max_digits(12345), 5);
}

#[test]
fn lines_of_a_text() {
    assert_eq!(split_lines(""), vec![""]);
    assert_eq!(split_lines("a"), vec!["a"]);
    assert_eq!(split_lines("a\nb"), vec!["a", "b"]);
    assert_eq!(split_lines("a\n"), vec!["a", ""]);
    assert_eq!(split_lines("\n\n"), vec!["", "", ""]);
    for text in ["x\ny\n\nz", "\n", "no newline", "\r\n"] {
        assert_eq!(split_lines(text), text.split('\n').collect::<Vec<_>>());
    }
}
