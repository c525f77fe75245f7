use ofan::lexer::{LexError, Lexer, Token};

fn lex(src: &str) -> Result<Vec<Token>, LexError> {
    Lexer::new(src).lex().map(|ts| ts.into_iter().map(|(t, _)| t).collect())
}

/// Whether `tok` is a float literal whose value is `x`.
fn float_is(tok: &Token, x: f64) -> bool {
    match tok {
        Token::Float(text) => text.replace('_', "").parse::<f64>().map(|v| v == x).unwrap_or(false),
        _ => false,
    }
}

// ─── from mod ───
#[test]
fn lex_empty() {
    assert_eq!(lex("").unwrap(), vec![Token::Eof]);
}

#[test]
fn lex_simple_tokens() {
    assert_eq!(
        lex("fn main() {}").unwrap(),
        vec![
            Token::Fn,
            Token::Ident("main".to_string()),
            Token::LParen,
            Token::RParen,
            Token::LBrace,
            Token::RBrace,
            Token::Eof,
        ]
    );
}

#[test]
fn lex_err_unrecognized_char() {
    assert!(matches!(
        Lexer::new("@").lex(),
        Err(LexError::UnrecognizedCharacter { byte: 0, ch: '@' })
    ));
}

// ─── from chars ───
#[test]
fn lex_char_literal() {
    assert_eq!(lex("'a'").unwrap(), vec![Token::Char('a'), Token::Eof]);
}

#[test]
fn lex_char_escape() {
    assert_eq!(lex(r"'\n'").unwrap(), vec![Token::Char('\n'), Token::Eof]);
    assert_eq!(lex(r"'\''").unwrap(), vec![Token::Char('\''), Token::Eof]);
    assert_eq!(lex(r"'\0'").unwrap(), vec![Token::Char('\0'), Token::Eof]);
}

#[test]
fn lex_char_empty_error() {
    assert!(matches!(lex("''"), Err(LexError::EmptyCharLiteral { .. })));
}

#[test]
fn lex_char_multi_error() {
    assert!(matches!(
        lex("'ab'"),
        Err(LexError::MultiCharLiteral { .. })
    ));
}

#[test]
fn lex_char_reject_double_quote_escape() {
    // \" is not a valid char escape; only \' is the delimiter escape in chars.
    assert!(matches!(
        lex(r#"'\"'"#),
        Err(LexError::InvalidEscape { ch: '"', .. })
    ));
}

// ─── from comments ───
#[test]
fn lex_line_comment_skipped() {
    assert_eq!(
        lex("# comment\n42").unwrap(),
        vec![Token::Integer(42), Token::Eof]
    );
}

#[test]
fn lex_block_comment_skipped() {
    assert_eq!(
        lex("## block\ncomment ##42").unwrap(),
        vec![Token::Integer(42), Token::Eof]
    );
}

#[test]
fn lex_doc_comment_preserved() {
    let tokens = lex("### doc text ###").unwrap();
    assert!(matches!(&tokens[0], Token::DocComment(s) if s.trim() == "doc text"));
    assert_eq!(tokens[1], Token::Eof);
}

#[test]
fn lex_err_unterminated_block_comment() {
    assert!(matches!(
        lex("## never closed"),
        Err(LexError::UnterminatedBlockComment { .. })
    ));
}

#[test]
fn lex_err_unterminated_doc_comment() {
    assert!(matches!(
        lex("### never closed"),
        Err(LexError::UnterminatedDocComment { .. })
    ));
}

// ─── from keywords ───
#[test]
fn lex_ident_vs_keyword() {
    assert_eq!(
        lex("fn fni").unwrap(),
        vec![Token::Fn, Token::Ident("fni".to_string()), Token::Eof]
    );
}

#[test]
fn lex_keywords_as_using_static() {
    assert_eq!(
        lex("as using static").unwrap(),
        vec![Token::As, Token::Using, Token::Static, Token::Eof]
    );
}

#[test]
fn lex_unsafe_keyword() {
    assert_eq!(lex("unsafe").unwrap(), vec![Token::Unsafe, Token::Eof]);
}

#[test]
fn lex_newly_reserved_keywords_decided_syntax() {
    // `loop` is a keyword.
    assert_eq!(lex("loop").unwrap(), vec![Token::Loop, Token::Eof]);
    // copy and move are modifiers, must not lex as Ident.
    assert_eq!(lex("copy").unwrap(), vec![Token::Copy, Token::Eof]);
    assert_eq!(lex("move").unwrap(), vec![Token::Move, Token::Eof]);
    // self and impl are keywords, must not lex as Ident.
    assert_eq!(lex("self").unwrap(), vec![Token::SelfKw, Token::Eof]);
    assert_eq!(lex("impl").unwrap(), vec![Token::Impl, Token::Eof]);
    // `match` is a keyword.
    assert_eq!(lex("match").unwrap(), vec![Token::Match, Token::Eof]);
}

#[test]
fn lex_newly_reserved_keywords_future_syntax() {
    // Reserved words: grammar undecided, reserved so they cannot be
    // used as identifiers before a syntax decision is made.
    assert_eq!(lex("trait").unwrap(), vec![Token::Trait, Token::Eof]);
    assert_eq!(lex("mod").unwrap(), vec![Token::Mod, Token::Eof]);
}

#[test]
fn lex_already_reserved_keywords_unchanged() {
    // Spot-check that previously-reserved words were not accidentally
    // removed or changed by this pass.
    assert_eq!(lex("while").unwrap(), vec![Token::While, Token::Eof]);
    assert_eq!(lex("for").unwrap(), vec![Token::For, Token::Eof]);
    assert_eq!(lex("in").unwrap(), vec![Token::In, Token::Eof]);
    assert_eq!(lex("enum").unwrap(), vec![Token::Enum, Token::Eof]);
    assert_eq!(lex("use").unwrap(), vec![Token::Use, Token::Eof]);
    assert_eq!(lex("if").unwrap(), vec![Token::If, Token::Eof]);
    assert_eq!(lex("else").unwrap(), vec![Token::Else, Token::Eof]);
    assert_eq!(lex("return").unwrap(), vec![Token::Return, Token::Eof]);
    assert_eq!(lex("true").unwrap(), vec![Token::True, Token::Eof]);
    assert_eq!(lex("false").unwrap(), vec![Token::False, Token::Eof]);
}

// ─── from numbers ───
#[test]
fn lex_integer() {
    assert_eq!(lex("42").unwrap(), vec![Token::Integer(42), Token::Eof]);
}

#[test]
fn lex_float() {
    let toks = lex("3.14").unwrap();
    assert_eq!(toks.len(), 2);
    assert!(float_is(&toks[0], 3.14));
    assert_eq!(toks[1], Token::Eof);
}

#[test]
fn lex_hex_literal() {
    assert_eq!(lex("0xFF").unwrap(), vec![Token::Integer(255), Token::Eof]);
    assert_eq!(
        lex("0x4002_0014").unwrap(),
        vec![Token::Integer(0x4002_0014), Token::Eof]
    );
}

#[test]
fn lex_binary_literal() {
    assert_eq!(lex("0b1010").unwrap(), vec![Token::Integer(10), Token::Eof]);
    assert_eq!(
        lex("0b1010_1100").unwrap(),
        vec![Token::Integer(0b1010_1100), Token::Eof]
    );
}

#[test]
fn lex_octal_literal() {
    assert_eq!(lex("0o17").unwrap(), vec![Token::Integer(15), Token::Eof]);
    assert_eq!(
        lex("0o755").unwrap(),
        vec![Token::Integer(0o755), Token::Eof]
    );
}

#[test]
fn lex_digit_separator() {
    assert_eq!(
        lex("1_000_000").unwrap(),
        vec![Token::Integer(1_000_000), Token::Eof]
    );
    let toks = lex("3.14").unwrap();
    assert_eq!(toks.len(), 2);
    assert!(float_is(&toks[0], 3.14));
    assert_eq!(toks[1], Token::Eof);
}

#[test]
fn lex_err_missing_digits_after_base() {
    assert!(matches!(
        lex("0x"),
        Err(LexError::MissingDigitsAfterBase { marker: 'x', .. })
    ));
    assert!(matches!(
        lex("0b"),
        Err(LexError::MissingDigitsAfterBase { marker: 'b', .. })
    ));
    assert!(matches!(
        lex("0o"),
        Err(LexError::MissingDigitsAfterBase { marker: 'o', .. })
    ));
}

#[test]
fn lex_err_misplaced_digit_separator_decimal() {
    // trailing
    assert!(matches!(
        lex("1000_"),
        Err(LexError::MisplacedDigitSeparator { .. })
    ));
    // doubled
    assert!(matches!(
        lex("1__000"),
        Err(LexError::MisplacedDigitSeparator { .. })
    ));
}

#[test]
fn lex_err_misplaced_digit_separator_hex() {
    // leading after prefix
    assert!(matches!(
        lex("0x_FF"),
        Err(LexError::MisplacedDigitSeparator { .. })
    ));
    // trailing
    assert!(matches!(
        lex("0xFF_"),
        Err(LexError::MisplacedDigitSeparator { .. })
    ));
    // doubled
    assert!(matches!(
        lex("0x1__2"),
        Err(LexError::MisplacedDigitSeparator { .. })
    ));
}

#[test]
fn lex_err_misplaced_digit_separator_float() {
    // trailing in frac
    assert!(matches!(
        lex("1.5_"),
        Err(LexError::MisplacedDigitSeparator { .. })
    ));
    // doubled in frac
    assert!(matches!(
        lex("1.5__3"),
        Err(LexError::MisplacedDigitSeparator { .. })
    ));
}

#[test]
fn lex_digit_separator_valid_positions() {
    // valid: between digits in decimal, hex, binary, octal, and float
    assert!(matches!(lex("1_000"), Ok(_)));
    assert!(matches!(lex("0xFF_00"), Ok(_)));
    assert!(matches!(lex("0b1010_0101"), Ok(_)));
    assert!(matches!(lex("0o17_77"), Ok(_)));
    assert!(matches!(lex("3.141_592"), Ok(_)));
}

// ── IdentAfterNumericLiteral ──────────────────────────────────────────────

#[test]
fn lex_err_ident_after_decimal_integer() {
    assert!(matches!(
        lex("1abc"),
        Err(LexError::IdentAfterNumericLiteral { start: 0, ref literal, ch: 'a' })
            if literal == "1"
    ));
    assert!(matches!(
        lex("42px"),
        Err(LexError::IdentAfterNumericLiteral { start: 0, ref literal, ch: 'p' })
            if literal == "42"
    ));
    assert!(matches!(
        lex("1_000abc"),
        Err(LexError::IdentAfterNumericLiteral { start: 0, ref literal, ch: 'a' })
            if literal == "1_000"
    ));
}

#[test]
fn lex_err_ident_after_float() {
    assert!(matches!(
        lex("1.5abc"),
        Err(LexError::IdentAfterNumericLiteral { start: 0, ref literal, ch: 'a' })
            if literal == "1.5"
    ));
}

#[test]
fn lex_err_ident_after_hex() {
    assert!(matches!(
        lex("0x1fg"),
        Err(LexError::IdentAfterNumericLiteral { start: 0, ref literal, ch: 'g' })
            if literal == "0x1f"
    ));
    assert!(matches!(
        lex("0xFEEDgabe"),
        Err(LexError::IdentAfterNumericLiteral { start: 0, ref literal, ch: 'g' })
            if literal == "0xFEED"
    ));
}

#[test]
fn lex_err_ident_after_binary() {
    assert!(matches!(
        lex("0b101z"),
        Err(LexError::IdentAfterNumericLiteral { start: 0, ref literal, ch: 'z' })
            if literal == "0b101"
    ));
}

#[test]
fn lex_err_ident_after_octal() {
    assert!(matches!(
        lex("0o71abc"),
        Err(LexError::IdentAfterNumericLiteral { start: 0, ref literal, ch: 'a' })
            if literal == "0o71"
    ));
}

#[test]
fn lex_misplaced_separator_takes_precedence_over_ident_after_literal() {
    // 1_abc: the scan loop consumes '_', checks next char ('a') as digit lookahead,
    // fails, and returns MisplacedDigitSeparator before reaching the success exit
    // where IdentAfterNumericLiteral would be checked. First-problem-encountered,
    // not a priority ranking.
    assert!(matches!(
        lex("1_abc"),
        Err(LexError::MisplacedDigitSeparator { byte: 1 })
    ));
}

#[test]
fn lex_numeric_followed_by_operator_or_whitespace_still_ok() {
    // Operator or whitespace after a literal must not trigger IdentAfterNumericLiteral.
    assert!(matches!(lex("42+1"), Ok(_)));
    assert!(matches!(lex("42 abc"), Ok(_)));
    assert!(matches!(lex("0xFF;"), Ok(_)));
    assert!(matches!(lex("1.5,"), Ok(_)));
}

// ─── from operators ───
#[test]
fn lex_operators() {
    assert_eq!(
        lex("== != <= >= && ||").unwrap(),
        vec![
            Token::EqEq,
            Token::BangEq,
            Token::LtEq,
            Token::GtEq,
            Token::AmpAmp,
            Token::PipePipe,
            Token::Eof,
        ]
    );
}

#[test]
fn lex_arrow() {
    assert_eq!(lex("->").unwrap(), vec![Token::Arrow, Token::Eof]);
}

#[test]
fn lex_fat_arrow() {
    // match arm separator
    assert_eq!(lex("=>").unwrap(), vec![Token::FatArrow, Token::Eof]);
}

#[test]
fn lex_fat_arrow_does_not_disturb_adjacent_tokens() {
    // `=` alone, `==`, and `>=` must be unaffected by the `=>` scanning path.
    assert_eq!(lex("=").unwrap(), vec![Token::Equals, Token::Eof]);
    assert_eq!(lex("==").unwrap(), vec![Token::EqEq, Token::Eof]);
    assert_eq!(lex(">=").unwrap(), vec![Token::GtEq, Token::Eof]);
    // sequence: `= >` (with space) must produce two separate tokens
    assert_eq!(
        lex("= >").unwrap(),
        vec![Token::Equals, Token::Gt, Token::Eof]
    );
}

#[test]
fn lex_compound_assignment() {
    assert_eq!(
        lex("+= -= *= /= %=").unwrap(),
        vec![
            Token::PlusEq,
            Token::MinusEq,
            Token::StarEq,
            Token::SlashEq,
            Token::PercentEq,
            Token::Eof,
        ]
    );
}

#[test]
fn lex_bitwise() {
    assert_eq!(
        lex("& | ^ ~ << >>").unwrap(),
        vec![
            Token::Amp,
            Token::Pipe,
            Token::Caret,
            Token::Tilde,
            Token::Shl,
            Token::Shr,
            Token::Eof,
        ]
    );
}

#[test]
fn lex_question() {
    assert_eq!(
        lex("? ?:").unwrap(),
        vec![Token::Question, Token::QuestionColon, Token::Eof]
    );
}

// ─── from punctuation ───
#[test]
fn lex_punctuation_table() {
    assert_eq!(
        lex("()[]{};:,.").unwrap(),
        vec![
            Token::LParen,
            Token::RParen,
            Token::LBracket,
            Token::RBracket,
            Token::LBrace,
            Token::RBrace,
            Token::Semicolon,
            Token::Colon,
            Token::Comma,
            Token::Dot,
            Token::Eof,
        ]
    );
}

// ─── from strings ───
#[test]
fn lex_string() {
    assert_eq!(
        lex(r#""hello""#).unwrap(),
        vec![Token::Str("hello".to_string()), Token::Eof]
    );
}

#[test]
fn lex_string_valid_escape_returns_raw_slice() {
    assert_eq!(
        lex(r#""a\nb""#).unwrap(),
        vec![Token::Str(r"a\nb".to_string()), Token::Eof]
    );
}

#[test]
fn lex_string_null_escape() {
    // \0 is a valid escape sequence (C-interop / FFI boundary use).
    assert!(lex("\"\\0\"").is_ok());
}

#[test]
fn lex_string_invalid_escape() {
    assert!(matches!(
        lex(r#""\q""#),
        Err(LexError::InvalidEscape { ch: 'q', .. })
    ));
}

#[test]
fn lex_string_reject_single_quote_escape() {
    // \' is not a valid string escape; only \" is the delimiter escape in strings.
    assert!(matches!(
        lex("\"\\'\""),
        Err(LexError::InvalidEscape { ch: '\'', .. })
    ));
}

#[test]
fn lex_err_unterminated_string() {
    assert!(matches!(
        Lexer::new(r#""abc"#).lex(),
        Err(LexError::UnterminatedString { start: 0 })
    ));
}
