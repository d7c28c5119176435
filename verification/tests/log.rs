use lemma::log::{excerpt, gutter, lines, window, LogLevel};

#[test]
fn levels_are_named_in_any_case() {
    assert_eq!(LogLevel::from_str("debug"), Ok(LogLevel::Debug));
    assert_eq!(LogLevel::from_str("Info"), Ok(LogLevel::Info));
    assert_eq!(LogLevel::from_str("WARN"), Ok(LogLevel::Warn));
    assert_eq!(LogLevel::from_str("eRRoR"), Ok(LogLevel::Error));
    assert_eq!(
        LogLevel::from_str("loud"),
        Err("Invalid log level: loud".to_string())
    );
    assert_eq!(LogLevel::named("DEBUG"), Some(LogLevel::Debug));
    assert_eq!(LogLevel::named("debug"), None);
}

#[test]
fn levels_are_written_in_capitals() {
    assert_eq!(LogLevel::Debug.to_string(), "DEBUG");
    assert_eq!(LogLevel::Info.to_string(), "INFO");
    assert_eq!(LogLevel::Warn.to_string(), "WARN");
    assert_eq!(LogLevel::Error.to_string(), "ERROR");
}

#[test]
fn a_message_is_shown_from_its_threshold_on() {
    let levels = [
        LogLevel::Debug,
        LogLevel::Info,
        LogLevel::Warn,
        LogLevel::Error,
    ];
    for level in levels {
        for threshold in levels {
            assert_eq!(level.shows(&threshold), level >= threshold);
        }
    }
    assert!(LogLevel::Error.shows(&LogLevel::Debug));
    assert!(!LogLevel::Debug.shows(&LogLevel::Info));
}

#[test]
fn a_text_is_split_at_its_newlines() {
    assert_eq!(lines("a\nb\n\nc"), vec!["a", "b", "", "c"]);
    assert_eq!(lines("a\n"), vec!["a", ""]);
    assert_eq!(lines(""), vec![""]);
}

#[test]
fn three_lines_are_shown_on_either_side() {
    assert_eq!(window(10, 20), (7, 13));
    assert_eq!(window(1, 20), (1, 4));
    assert_eq!(window(3, 20), (1, 6));
    assert_eq!(window(4, 20), (1, 7));
    assert_eq!(window(19, 20), (16, 20));
    assert_eq!(window(30, 20), (27, 20));
    assert_eq!(window(usize::MAX, 20), (usize::MAX - 3, 20));
}

#[test]
fn line_numbers_stand_to_the_right() {
    assert_eq!(gutter(3), "    3| ");
    assert_eq!(gutter(42), "   42| ");
    assert_eq!(gutter(99999), "99999| ");
    assert_eq!(gutter(100000), "100000| ");
}

#[test]
fn the_line_of_the_error_is_underlined() {
    let source = "one\ntwo\nthree\nfour\nfive\nsix\nseven\neight\nnine";
    let rows = excerpt(5, source);
    let shown: Vec<(String, String)> = rows
        .iter()
        .map(|row| (row.gutter.clone(), row.text.clone()))
        .collect();
    assert_eq!(
        shown,
        vec![
            ("    2| ".to_string(), "two".to_string()),
            ("    3| ".to_string(), "three".to_string()),
            ("    4| ".to_string(), "four".to_string()),
            ("    5| ".to_string(), "five".to_string()),
            ("    6| ".to_string(), "six".to_string()),
            ("    7| ".to_string(), "seven".to_string()),
            ("    8| ".to_string(), "eight".to_string()),
        ]
    );
    for (i, row) in rows.iter().enumerate() {
        match &row.underline {
            Some(underline) => {
                assert_eq!(i, 3);
                assert_eq!(underline.padding, "       ");
                assert_eq!(underline.carets, "^^^^");
            }
            None => assert_ne!(i, 3),
        }
    }
}

#[test]
fn a_caret_stands_under_each_byte() {
    let rows = excerpt(1, "aé€😀");
    assert_eq!(rows.len(), 1);
    let underline = rows[0].underline.as_ref().unwrap();
    assert_eq!(underline.carets.len(), "aé€😀".len());
    assert_eq!(underline.carets, "^".repeat(10));
}

#[test]
fn an_error_without_a_line_shows_nothing() {
    assert_eq!(excerpt(0, "a\nb").len(), 0);
    assert_eq!(excerpt(9, "a\nb").len(), 0);
    assert_eq!(excerpt(4, "a\nb").len(), 2);
}
