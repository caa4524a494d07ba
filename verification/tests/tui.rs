use typeing::cursor::LinePos;
use typeing::decimal::to_decimal;
use typeing::escape::{fg, Color};
use typeing::tui::{
    can_anchor, can_center, can_locate, can_render, fits_row, fits_rows, HasLength, Step, Text,
    TypeingTui,
};
use typeing::TypeingError;

fn word_list(list: &[&str]) -> Vec<String> {
    list.iter().map(|w| w.to_string()).collect()
}

/// Renders the block as its owner would, with a terminal that reports the
/// cursor where a real one would put it.
fn render(tui: &mut TypeingTui, lines: &[Text], size: (u16, u16)) -> String {
    let mut out = String::new();
    let mut step = tui.begin_words(lines, size);
    loop {
        match step {
            Step::Locate { text, line } => {
                out.push_str(&text);
                let y = size.1 / 2 + line as u16 - lines.len() as u16 / 2;
                let x = size.0 / 2 - lines[line].width() as u16 / 2;
                assert!(can_locate(lines, line, (x, y)));
                step = tui.line_located(lines, size, line, (x, y));
            }
            Step::Done { text } => {
                out.push_str(&text);
                return out;
            }
        }
    }
}

#[test]
fn decimal_notation() {
    assert_eq!(to_decimal(0), "0");
    assert_eq!(to_decimal(7), "7");
    assert_eq!(to_decimal(10), "10");
    assert_eq!(to_decimal(65535), "65535");
    assert_eq!(to_decimal(1234567890), "1234567890");
    assert_eq!(to_decimal(u128::MAX), "340282366920938463463374607431768211455");
}

#[test]
fn error_report_names_the_type() {
    let e = TypeingError::from("boom".to_string());
    assert_eq!(e.msg, "boom");
    assert_eq!(e.to_report(), "TypeingError: boom");
}

#[test]
fn color_sequences() {
    let s = fg(Color::Ansi(14));
    assert!(s == "\x1b[38;5;14m" || s.is_empty());
    let s = fg(Color::Rgb(1, 2, 3));
    assert!(s == "\x1b[38;2;1;2;3m" || s.is_empty());
    assert_eq!(fg(Color::Reset), "\x1b[39m");
}

#[test]
fn new_surface_is_empty() {
    let tui = TypeingTui::new();
    assert!(!tui.is_recording());
    assert_eq!(tui.reserved_rows(), 0);
    assert_eq!(tui.current_line(), 0);
    assert!(!tui.cursor().is_tracking());
    let tui = TypeingTui::default();
    assert!(!tui.is_recording());
    assert_eq!(tui.reserved_rows(), 0);
}

#[test]
fn idle_screen() {
    let tui = TypeingTui::new();
    assert_eq!(tui.reset_screen((80, 24)), "\x1b[2J\x1b[12;40H\x1b[5 q");
    assert_eq!(tui.reset_screen((81, 25)), "\x1b[2J\x1b[12;40H\x1b[5 q");
    assert_eq!(tui.reset_screen((1, 2)), "\x1b[2J\x1b[1;0H\x1b[5 q");
}

#[test]
fn closing_shows_a_hidden_cursor() {
    let tui = TypeingTui::new();
    let hidden = tui.hide_cursor();
    let closed = tui.close();
    assert_ne!(hidden, tui.show_cursor());
    assert!(closed.contains(&tui.show_cursor()));
    assert!(!closed.contains(&hidden));
}

#[test]
fn closing_restores_the_terminal() {
    let tui = TypeingTui::new();
    assert_eq!(tui.close(), "\x1b[2J\x1b[2 q\x1b[?25h\x1b[1;1H");
}

#[test]
fn cursor_visibility() {
    let tui = TypeingTui::new();
    assert_eq!(tui.hide_cursor(), "\x1b[?25l");
    assert_eq!(tui.show_cursor(), "\x1b[?25h");
}

#[test]
fn raw_text_is_sent_as_it_is() {
    let tui = TypeingTui::new();
    let t = Text::new("ab".to_string()).with_underline();
    assert_eq!(tui.display_raw_text(&t), "\x1b[4mab\x1b[m");
}

#[test]
fn one_row_is_centred_by_its_width() {
    let tui = TypeingTui::new();
    let row = vec![Text::new("hello".to_string()).with_faint(), Text::new(" you".to_string())];
    assert_eq!(row.as_slice().length(), 9);
    assert_eq!(tui.display_a_line(&row), "\x1b[4D\x1b[2mhello\x1b[22m you\x1b[9D");
}

#[test]
fn empty_row() {
    let tui = TypeingTui::new();
    assert_eq!(tui.display_a_line(&[]), "\x1b[0D\x1b[0D");
}

#[test]
fn lines_are_centred_on_the_middle_row() {
    let tui = TypeingTui::new();
    let lines = vec![
        vec![Text::new("ab".to_string())],
        vec![Text::new("cdef".to_string())],
        vec![Text::new("g".to_string())],
    ];
    assert_eq!(
        tui.display_lines(&lines, (80, 24)),
        "\x1b[11;40H\x1b[1Dab\x1b[2D\x1b[12;40H\x1b[2Dcdef\x1b[4D\x1b[13;40H\x1b[0Dg\x1b[1D"
    );
    assert_eq!(tui.display_lines(&[], (80, 24)), "");
}

#[test]
fn bottom_lines_are_kept_count_of() {
    let mut tui = TypeingTui::new();
    let lines = vec![vec![Text::new("ab".to_string())], vec![Text::new("cdef".to_string())]];
    assert_eq!(
        tui.display_lines_bottom(&lines, (80, 24)),
        "\x1b[21;40H\x1b[1Dab\x1b[2D\x1b[22;40H\x1b[2Dcdef\x1b[4D"
    );
    assert_eq!(tui.reserved_rows(), 2);
    assert_eq!(tui.display_lines_bottom(&[], (80, 24)), "");
    assert_eq!(tui.reserved_rows(), 0);
}

#[test]
fn word_block_of_one_line() {
    let mut tui = TypeingTui::new();
    let lines = tui.display_words(&word_list(&["the", "quick", "brown", "fox"]), (80, 24)).unwrap();
    assert_eq!(lines.len(), 1);
    assert_eq!(lines[0].text(), "the quick brown fox");
    assert!(tui.is_recording());
    assert!(!tui.cursor().is_tracking());
    let out = render(&mut tui, &lines, (80, 24));
    assert_eq!(
        out,
        "\x1b[12;40H\x1b[9D\x1b[2mthe quick brown fox\x1b[22m\x1b[19D\x1b[12;31H"
    );
    assert!(!tui.is_recording());
    assert_eq!(tui.cursor().lines().as_slice(), &[LinePos { y: 12, x: 31, length: 19 }]);
    assert_eq!(tui.cursor().cur_pos(), (31, 12));
    assert_eq!(tui.cursor().cur_pos().0, tui.cursor().lines()[0].x);
    assert_eq!(tui.current_line(), 0);
}

#[test]
fn word_block_too_tall_for_the_terminal() {
    let mut tui = TypeingTui::new();
    let list = vec!["a".to_string(); 31];
    let err = tui.display_words(&list, (80, 3)).unwrap_err();
    assert_eq!(err.msg, "终端高度太短! Typeing 至少需要 6 行，得到 3 行");
    assert!(!tui.is_recording());
}

#[test]
fn word_block_leaves_the_bottom_rows_free() {
    let mut tui = TypeingTui::new();
    let status = vec![vec![Text::new("help".to_string())]; 3];
    tui.display_lines_bottom(&status, (80, 8));
    let list = vec!["a".to_string(); 31];
    let err = tui.display_words(&list, (80, 8)).unwrap_err();
    assert_eq!(err.msg, "终端高度太短! Typeing 至少需要 9 行，得到 8 行");
    assert_eq!(tui.reserved_rows(), 3);
}

#[test]
fn word_block_forgets_the_block_before() {
    let mut tui = TypeingTui::new();
    let lines = tui.display_words(&word_list(&["one", "two"]), (80, 24)).unwrap();
    render(&mut tui, &lines, (80, 24));
    assert_eq!(tui.cursor().lines().len(), 1);
    tui.move_to_next_char();
    let err = tui.display_words(&word_list(&["one"]), (20, 24)).unwrap_err();
    assert_eq!(err.msg, "终端宽度太低! Typeing 至少需要 50 列，得到 20 列");
    assert!(!tui.cursor().is_tracking());
    assert_eq!(tui.current_line(), 0);
}

#[test]
fn word_block_of_several_lines() {
    let mut tui = TypeingTui::new();
    let list = vec!["ab".to_string(); 12];
    let lines = tui.display_words(&list, (80, 24)).unwrap();
    assert_eq!(lines.len(), 2);
    let out = render(&mut tui, &lines, (80, 24));
    assert_eq!(
        out,
        "\x1b[11;40H\x1b[15D\x1b[2mab ab ab ab ab ab ab ab ab ab \x1b[22m\x1b[30D\
         \x1b[12;40H\x1b[2D\x1b[2mab ab\x1b[22m\x1b[5D\x1b[11;25H"
    );
    assert_eq!(
        tui.cursor().lines().as_slice(),
        &[LinePos { y: 11, x: 25, length: 30 }, LinePos { y: 12, x: 38, length: 5 }]
    );
}

#[test]
fn empty_word_block_records_nothing() {
    let mut tui = TypeingTui::new();
    let lines = tui.display_words(&[], (80, 24)).unwrap();
    assert_eq!(lines.len(), 1);
    let out = render(&mut tui, &lines, (80, 24));
    assert_eq!(out, "\x1b[12;40H\x1b[0D\x1b[2m\x1b[22m\x1b[0D");
    assert!(!tui.cursor().is_tracking());
    assert!(!tui.is_recording());
}

#[test]
fn rows_are_recorded_only_while_a_block_is_rendered() {
    let mut tui = TypeingTui::new();
    let row = vec![Text::new("abc".to_string())];
    tui.display_a_line(&row);
    tui.display_lines(&[row.clone()], (80, 24));
    tui.display_lines_bottom(&[row], (80, 24));
    assert!(!tui.cursor().is_tracking());
}

#[test]
fn word_block_is_rendered_step_by_step() {
    let mut tui = TypeingTui::new();
    let list = vec!["ab".to_string(); 12];
    let lines = tui.display_words(&list, (80, 24)).unwrap();
    assert!(can_render(&lines, (80, 24)));
    let step = tui.begin_words(&lines, (80, 24));
    let Step::Locate { text, line } = step else { panic!("the first line is to be located") };
    assert_eq!(text, "\x1b[11;40H\x1b[15D");
    assert_eq!(line, 0);
    assert!(tui.is_recording());
    assert!(!tui.cursor().is_tracking());
    let step = tui.line_located(&lines, (80, 24), 0, (25, 11));
    let Step::Locate { text, line } = step else { panic!("the second line is to be located") };
    assert_eq!(
        text,
        "\x1b[2mab ab ab ab ab ab ab ab ab ab \x1b[22m\x1b[30D\x1b[12;40H\x1b[2D"
    );
    assert_eq!(line, 1);
    assert!(tui.is_recording());
    assert_eq!(tui.cursor().lines().as_slice(), &[LinePos { y: 11, x: 25, length: 30 }]);
    // The terminal may report any place: it is recorded as reported.
    let step = tui.line_located(&lines, (80, 24), 1, (3, 7));
    let Step::Done { text } = step else { panic!("no line is left") };
    assert_eq!(text, "\x1b[2mab ab\x1b[22m\x1b[5D\x1b[11;25H");
    assert!(!tui.is_recording());
    assert_eq!(
        tui.cursor().lines().as_slice(),
        &[LinePos { y: 11, x: 25, length: 30 }, LinePos { y: 7, x: 3, length: 5 }]
    );
}

#[test]
fn render_of_no_line_is_done_at_once() {
    let mut tui = TypeingTui::new();
    tui.display_words(&word_list(&["ab"]), (80, 24)).unwrap();
    let step = tui.begin_words(&[], (80, 24));
    let Step::Done { text } = step else { panic!("there is no line to locate") };
    assert_eq!(text, "");
    assert!(!tui.is_recording());
}

#[test]
fn lines_that_can_be_located() {
    let lines = vec![Text::new("abc".to_string()), Text::new(String::new())];
    assert!(can_locate(&lines, 0, (1, 1)));
    assert!(can_locate(&lines, 0, (65533, 1)));
    assert!(!can_locate(&lines, 0, (65534, 1)));
    assert!(!can_locate(&lines, 0, (0, 0)));
    assert!(can_locate(&lines, 0, (0, 1)));
    assert!(can_locate(&lines, 1, (0, 0)));
    assert!(can_locate(&lines, 1, (65535, 65535)));
    assert!(!can_locate(&lines, 2, (1, 1)));
}

#[test]
fn word_blocks_that_can_be_rendered() {
    let lines = vec![Text::new("abc".to_string()); 3];
    assert!(can_render(&lines, (80, 24)));
    assert!(can_render(&lines, (80, 3)));
    assert!(!can_render(&lines, (1, 3)));
    assert!(!can_render(&lines, (80, 0)));
    assert!(can_render(&[], (0, 0)));
    let wide = vec![Text::new("a".repeat(65536))];
    assert!(!can_render(&wide, (80, 24)));
}

#[test]
fn caret_moves_through_the_block() {
    let mut tui = TypeingTui::new();
    let list = vec!["ab".to_string(); 12];
    let lines = tui.display_words(&list, (80, 24)).unwrap();
    render(&mut tui, &lines, (80, 24));
    assert_eq!(tui.move_to_cur_pos(), "\x1b[11;25H");
    assert_eq!(tui.move_to_next_char(), "\x1b[11;26H");
    assert_eq!(tui.move_to_prev_char(), "\x1b[11;25H");
    assert_eq!(tui.move_to_prev_char(), "\x1b[11;25H");
    for _ in 0..29 {
        tui.move_to_next_char();
    }
    assert_eq!(tui.current_line(), 0);
    assert_eq!(tui.move_to_next_char(), "\x1b[12;38H");
    assert_eq!(tui.current_line(), 1);
    for _ in 0..10 {
        tui.move_to_next_char();
    }
    assert_eq!(tui.move_to_cur_pos(), "\x1b[12;42H");
    assert_eq!(tui.current_line(), 1);
}

#[test]
fn replacing_leaves_the_caret_where_it_is() {
    let mut tui = TypeingTui::new();
    let lines = tui.display_words(&word_list(&["ab", "cd"]), (80, 24)).unwrap();
    render(&mut tui, &lines, (80, 24));
    tui.move_to_next_char();
    tui.move_to_next_char();
    assert_eq!(tui.cursor().cur_char_in_line(), 2);
    let typed = Text::new("b".to_string()).with_underline();
    assert_eq!(tui.replace_text(&typed), "\x1b[12;39H\x1b[4mb\x1b[m\x1b[12;40H");
    assert_eq!(tui.cursor().cur_char_in_line(), 2);
    assert_eq!(tui.current_line(), 0);
    assert_eq!(tui.move_to_cur_pos(), "\x1b[12;40H");
    assert_eq!(tui.cursor().lines().as_slice(), &[LinePos { y: 12, x: 38, length: 5 }]);
}

#[test]
fn replacing_on_the_first_character_writes_there() {
    let mut tui = TypeingTui::new();
    let lines = tui.display_words(&word_list(&["ab", "cd"]), (80, 24)).unwrap();
    render(&mut tui, &lines, (80, 24));
    let typed = Text::new("a".to_string());
    assert_eq!(tui.replace_text(&typed), "\x1b[12;38Ha\x1b[12;38H");
    assert_eq!(tui.cursor().cur_char_in_line(), 0);
    assert_eq!(tui.current_line(), 0);
}

#[test]
fn replacing_reaches_back_to_the_line_before() {
    let mut tui = TypeingTui::new();
    let list = vec!["ab".to_string(); 12];
    let lines = tui.display_words(&list, (80, 24)).unwrap();
    render(&mut tui, &lines, (80, 24));
    for _ in 0..30 {
        tui.move_to_next_char();
    }
    assert_eq!(tui.current_line(), 1);
    assert_eq!(tui.cursor().cur_char_in_line(), 0);
    let space = Text::new(" ".to_string()).with_faint();
    assert_eq!(tui.replace_text(&space), "\x1b[11;54H\x1b[2m \x1b[22m\x1b[12;38H");
    assert_eq!(tui.current_line(), 1);
    assert_eq!(tui.cursor().cur_char_in_line(), 0);
}

#[test]
fn refused_block_ends_a_render_that_was_going_on() {
    let mut tui = TypeingTui::new();
    let list = vec!["ab".to_string(); 12];
    let lines = tui.display_words(&list, (80, 24)).unwrap();
    tui.begin_words(&lines, (80, 24));
    tui.line_located(&lines, (80, 24), 0, (25, 11));
    assert!(tui.is_recording());
    assert!(tui.cursor().is_tracking());
    let err = tui.display_words(&list, (80, 3)).unwrap_err();
    assert_eq!(err.msg, "终端高度太短! Typeing 至少需要 4 行，得到 3 行");
    assert!(!tui.is_recording());
    assert!(!tui.cursor().is_tracking());
    let row = vec![Text::new("abc".to_string())];
    assert_eq!(tui.display_a_line(&row), "\x1b[1Dabc\x1b[3D");
}

#[test]
fn aborting_ends_a_render_and_keeps_its_lines() {
    let mut tui = TypeingTui::new();
    let list = vec!["ab".to_string(); 12];
    let lines = tui.display_words(&list, (80, 24)).unwrap();
    tui.begin_words(&lines, (80, 24));
    tui.line_located(&lines, (80, 24), 0, (25, 11));
    assert!(tui.is_recording());
    tui.abort_words();
    assert!(!tui.is_recording());
    assert_eq!(tui.cursor().lines().as_slice(), &[LinePos { y: 11, x: 25, length: 30 }]);
    assert_eq!(tui.reserved_rows(), 0);
    tui.abort_words();
    assert!(!tui.is_recording());
}

#[test]
fn reset_forgets_the_lines() {
    let mut tui = TypeingTui::new();
    let lines = tui.display_words(&word_list(&["ab", "cd"]), (80, 24)).unwrap();
    render(&mut tui, &lines, (80, 24));
    tui.move_to_next_char();
    tui.reset();
    assert!(!tui.cursor().is_tracking());
    assert_eq!(tui.current_line(), 0);
    assert_eq!(tui.cursor().cur_char_in_line(), 0);
}

#[test]
fn rows_that_can_be_sent() {
    let row = vec![Text::new("a".repeat(65535))];
    assert!(fits_row(&row));
    let row = vec![Text::new("a".repeat(65535)), Text::new("b".to_string())];
    assert!(!fits_row(&row));
    assert!(fits_row(&[]));
    let lines = vec![vec![Text::new("ab".to_string())], row];
    assert!(!fits_rows(&lines));
    assert!(fits_rows(&lines[..1]));
    assert!(fits_rows(&[]));
}

#[test]
fn blocks_that_can_be_centred() {
    assert!(can_center(0, (0, 0)));
    assert!(can_center(1, (80, 24)));
    assert!(can_center(22, (80, 24)));
    assert!(can_center(23, (80, 24)));
    // 24 lines start on row 0: the middle column is not 0, so the cell is one.
    assert!(can_center(24, (80, 24)));
    assert!(!can_center(24, (1, 24)));
    assert!(!can_center(26, (80, 24)));
    assert!(can_center(1, (1, 2)));
    assert!(!can_center(1, (1, 1)));
}

#[test]
fn blocks_that_can_be_anchored() {
    assert!(can_anchor(0, (0, 0)));
    assert!(can_anchor(2, (80, 24)));
    assert!(can_anchor(23, (80, 24)));
    assert!(!can_anchor(23, (1, 24)));
    assert!(!can_anchor(24, (80, 24)));
    assert!(!can_anchor(1, (80, 0)));
}

#[test]
fn every_indexed_color_is_written_in_decimal() {
    for value in 0..=255u8 {
        let s = fg(Color::Ansi(value));
        assert!(s == format!("\x1b[38;5;{}m", value) || s.is_empty());
    }
}

#[test]
fn color_parts_are_written_in_decimal() {
    for part in [0u8, 9, 10, 99, 100, 255] {
        let s = fg(Color::Rgb(part, 255 - part, part));
        assert!(s == format!("\x1b[38;2;{};{};{}m", part, 255 - part, part) || s.is_empty());
    }
}

#[test]
fn far_cells_are_addressed_in_decimal() {
    let mut tui = TypeingTui::new();
    let lines = tui.display_words(&word_list(&["ab"]), (80, 24)).unwrap();
    tui.begin_words(&lines, (80, 24));
    let step = tui.line_located(&lines, (80, 24), 0, (65534, 65535));
    let Step::Done { text } = step else { panic!("no line is left") };
    assert_eq!(text, "\x1b[2mab\x1b[22m\x1b[2D\x1b[65535;65534H");
    assert_eq!(tui.move_to_cur_pos(), "\x1b[65535;65534H");
    assert_eq!(tui.move_to_next_char(), "\x1b[65535;65535H");
    assert_eq!(tui.move_to_next_char(), "\x1b[65535;65535H");
}

#[test]
fn wide_rows_move_the_cursor_far() {
    let tui = TypeingTui::new();
    let row = vec![Text::new("a".repeat(65535))];
    let out = tui.display_a_line(&row);
    assert!(out.starts_with("\x1b[32767Da"));
    assert!(out.ends_with("a\x1b[65535D"));
    assert_eq!(out.len(), 8 + 65535 + 8);
}
