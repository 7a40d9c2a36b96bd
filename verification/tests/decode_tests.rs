use egui_logger::{decode_line, Color};

#[test]
fn plain_text_single_run() {
    let runs = decode_line("hello world", Color::Default);
    assert_eq!(runs.len(), 1);
    assert_eq!(runs[0].text, "hello world");
    assert_eq!(runs[0].color, Color::Default);
}

#[test]
fn plain_text_keeps_base_color() {
    let runs = decode_line("warning line", Color::Yellow);
    assert_eq!(runs.len(), 1);
    assert_eq!(runs[0].text, "warning line");
    assert_eq!(runs[0].color, Color::Yellow);
}

#[test]
fn empty_input_no_runs() {
    let runs = decode_line("", Color::Default);
    assert_eq!(runs.len(), 0);
}

#[test]
fn color_transition() {
    let line = format!("A{}[33mB{}[0mC", '\u{1b}', '\u{1b}');
    let runs = decode_line(&line, Color::Default);
    assert_eq!(runs.len(), 3);
    assert_eq!(runs[0].text, "A");
    assert_eq!(runs[0].color, Color::Default);
    assert_eq!(runs[1].text, "B");
    assert_eq!(runs[1].color, Color::Yellow);
    assert_eq!(runs[2].text, "C");
    assert_eq!(runs[2].color, Color::Default);
}

#[test]
fn reset_returns_to_base_color() {
    let line = format!("{}[32ma{}[mb", '\u{1b}', '\u{1b}');
    let runs = decode_line(&line, Color::Red);
    assert_eq!(runs.len(), 2);
    assert_eq!(runs[0].text, "a");
    assert_eq!(runs[0].color, Color::Green);
    assert_eq!(runs[1].text, "b");
    assert_eq!(runs[1].color, Color::Red);
}

#[test]
fn multiple_parameters_apply_in_order() {
    let line = format!("{}[0;31mx", '\u{1b}');
    let runs = decode_line(&line, Color::Default);
    assert_eq!(runs.len(), 1);
    assert_eq!(runs[0].text, "x");
    assert_eq!(runs[0].color, Color::Red);
}

#[test]
fn all_foreground_colors() {
    let expected = [
        Color::Black,
        Color::Red,
        Color::Green,
        Color::Yellow,
        Color::Blue,
        Color::Magenta,
        Color::Cyan,
        Color::White,
    ];
    let mut code = 30;
    let mut i = 0;
    while i < expected.len() {
        let line = format!("{}[{}mx", '\u{1b}', code);
        let runs = decode_line(&line, Color::Default);
        assert_eq!(runs.len(), 1);
        assert_eq!(runs[0].color, expected[i]);
        code += 1;
        i += 1;
    }
}

#[test]
fn unterminated_escape_at_end() {
    let line = format!("abc{}[", '\u{1b}');
    let runs = decode_line(&line, Color::Default);
    assert_eq!(runs.len(), 1);
    assert_eq!(runs[0].text, "abc");
    assert_eq!(runs[0].color, Color::Default);
}

#[test]
fn lone_escape_at_end() {
    let line = format!("abc{}", '\u{1b}');
    let runs = decode_line(&line, Color::Default);
    assert_eq!(runs.len(), 1);
    assert_eq!(runs[0].text, "abc");
}

#[test]
fn unterminated_parameters_at_end() {
    let line = format!("abc{}[31;4", '\u{1b}');
    let runs = decode_line(&line, Color::Default);
    assert_eq!(runs.len(), 1);
    assert_eq!(runs[0].text, "abc");
    assert_eq!(runs[0].color, Color::Default);
}

#[test]
fn unknown_final_byte_dropped() {
    let line = format!("a{}[2Kb", '\u{1b}');
    let runs = decode_line(&line, Color::Default);
    assert_eq!(runs.len(), 1);
    assert_eq!(runs[0].text, "ab");
    assert_eq!(runs[0].color, Color::Default);
}

#[test]
fn unrecognized_code_ignored() {
    let line = format!("a{}[95mb", '\u{1b}');
    let runs = decode_line(&line, Color::Default);
    assert_eq!(runs.len(), 2);
    assert_eq!(runs[0].text, "a");
    assert_eq!(runs[0].color, Color::Default);
    assert_eq!(runs[1].text, "b");
    assert_eq!(runs[1].color, Color::Default);
}

#[test]
fn oversized_parameter_ignored_without_panic() {
    let line = format!("a{}[123456789012345678901mb", '\u{1b}');
    let runs = decode_line(&line, Color::Default);
    assert_eq!(runs.len(), 2);
    assert_eq!(runs[0].text, "a");
    assert_eq!(runs[1].text, "b");
    assert_eq!(runs[1].color, Color::Default);
}

#[test]
fn newline_flushes_run() {
    let runs = decode_line("ab\ncd", Color::Default);
    assert_eq!(runs.len(), 2);
    assert_eq!(runs[0].text, "ab");
    assert_eq!(runs[1].text, "cd");
}

#[test]
fn trailing_newline_no_empty_run() {
    let runs = decode_line("ab\n", Color::Default);
    assert_eq!(runs.len(), 1);
    assert_eq!(runs[0].text, "ab");
}

#[test]
fn empty_runs_never_emitted() {
    let line = format!("{}[31mx", '\u{1b}');
    let runs = decode_line(&line, Color::Default);
    assert_eq!(runs.len(), 1);
    assert_eq!(runs[0].text, "x");
    assert_eq!(runs[0].color, Color::Red);
}

#[test]
fn concatenated_texts_reproduce_stripped_line() {
    let line = format!("a{}[33mb{}[0mc", '\u{1b}', '\u{1b}');
    let runs = decode_line(&line, Color::Default);
    let mut joined = String::new();
    let mut i = 0;
    while i < runs.len() {
        joined.push_str(&runs[i].text);
        i += 1;
    }
    assert_eq!(joined, "abc");
}

#[test]
fn escape_restarts_inside_parameters() {
    let line = format!("a{}[31{}[32mb", '\u{1b}', '\u{1b}');
    let runs = decode_line(&line, Color::Default);
    assert_eq!(runs.len(), 2);
    assert_eq!(runs[0].text, "a");
    assert_eq!(runs[0].color, Color::Default);
    assert_eq!(runs[1].text, "b");
    assert_eq!(runs[1].color, Color::Green);
}
