use ofan::lexer::{LexError, Lexer, Span, Token};

#[test]
fn token_stream_ends_with_eof_at_source_length() {
    let src = "fn main() -> i32 { 42 }";
    let toks = Lexer::new(src).lex().unwrap();
    let (last, span) = toks.last().unwrap();
    assert_eq!(*last, Token::Eof);
    assert_eq!(*span, Span { start: src.len(), end: src.len() });
}

#[test]
fn eof_span_counts_bytes_not_chars() {
    let src = "\"é\"";
    let toks = Lexer::new(src).lex().unwrap();
    assert_eq!(toks.last().unwrap().1, Span { start: 4, end: 4 });
}

#[test]
fn lex_error_message_cites_byte() {
    let err = Lexer::new("  @").lex().unwrap_err();
    assert!(matches!(err, LexError::UnrecognizedCharacter { byte: 2, ch: '@' }));
    assert!(err.message().contains("at byte 2"), "{}", err.message());
}
