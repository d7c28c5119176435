use lemma::scanner::Scanner;

#[test]
fn a_scanner_reads_character_by_character() {
    let mut scanner = Scanner::new("ab".to_string());
    assert_eq!(scanner.peek(), Some('a'));
    assert_eq!(scanner.peek_second(), Some('b'));
    assert_eq!(scanner.advance(), Some('a'));
    assert_eq!(scanner.peek(), Some('b'));
    assert_eq!(scanner.peek_second(), None);
    assert_eq!(scanner.advance(), Some('b'));
    assert_eq!(scanner.peek(), None);
    assert_eq!(scanner.advance(), None);
    assert_eq!(scanner.advance(), None);
    assert_eq!(scanner.take_lexeme(), "ab");
}

#[test]
fn a_scanner_counts_lines_from_one() {
    let mut scanner = Scanner::new("a\n\nb".to_string());
    assert_eq!(scanner.line(), 1);
    scanner.advance();
    assert_eq!(scanner.line(), 1);
    scanner.advance();
    assert_eq!(scanner.line(), 2);
    scanner.advance();
    assert_eq!(scanner.line(), 3);
    scanner.advance();
    assert_eq!(scanner.line(), 3);
    scanner.advance();
    assert_eq!(scanner.line(), 3);
}

#[test]
fn a_lexeme_runs_from_the_last_reset() {
    let mut scanner = Scanner::new("héllo wörld".to_string());
    for _ in 0..5 {
        scanner.advance();
    }
    assert_eq!(scanner.take_lexeme(), "héllo");
    assert_eq!(scanner.take_lexeme(), "héllo");
    scanner.advance();
    scanner.reset_start();
    assert_eq!(scanner.take_lexeme(), "");
    while scanner.advance().is_some() {}
    assert_eq!(scanner.take_lexeme(), "wörld");
}

#[test]
fn the_empty_text_is_exhausted_at_once() {
    let mut scanner = Scanner::new(String::new());
    assert_eq!(scanner.peek(), None);
    assert_eq!(scanner.advance(), None);
    assert_eq!(scanner.take_lexeme(), "");
    assert_eq!(scanner.line(), 1);
}
