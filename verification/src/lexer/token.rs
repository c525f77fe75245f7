use vstd::prelude::*;
use crate::text::{push_char, push_i64, push_str, int_text};

verus! {

/// Byte-offset range within the source string.
#[derive(Debug, Clone, Copy, PartialEq, Eq, Hash, Structural)]
pub struct Span {
    pub start: usize,
    pub end: usize,
}

/// One lexical token.
///
/// A float literal carries its normalized text (`<int digits>.<frac digits>`,
/// separators removed); its numeric value is computed where floats are used.
#[derive(Debug, Clone, PartialEq)]
pub enum Token {
    // Literals
    Integer(i64),
    Float(String),
    Str(String),
    Char(char),
    Ident(String),
    /// Doc comment text between the `###` delimiters.
    DocComment(String),
    Fn,
    Let,
    Mut,
    Const,
    If,
    Else,
    While,
    For,
    In,
    Return,
    Break,
    Continue,
    True,
    False,
    Struct,
    Enum,
    Pub,
    Use,
    As,
    Using,
    Static,
    Unsafe,
    Copy,
    Move,
    SelfKw,
    Impl,
    Loop,
    Match,
    Trait,
    Mod,
    Plus,
    Minus,
    Star,
    Slash,
    Percent,
    PlusEq,
    MinusEq,
    StarEq,
    SlashEq,
    PercentEq,
    Equals,
    EqEq,
    BangEq,
    Lt,
    Gt,
    LtEq,
    GtEq,
    AmpAmp,
    PipePipe,
    Bang,
    Amp,
    Pipe,
    Caret,
    Tilde,
    Shl,
    Shr,
    Arrow,
    Question,
    QuestionColon,
    FatArrow,
    LParen,
    RParen,
    LBrace,
    RBrace,
    LBracket,
    RBracket,
    Semicolon,
    Colon,
    Comma,
    Dot,
    /// End of input.
    Eof,
}

impl Token {
    /// A number that identifies the variant, ignoring any payload.
    pub open spec fn spec_kind(self) -> nat {
        match self {
            Token::Integer(_) => 0,
            Token::Float(_) => 1,
            Token::Str(_) => 2,
            Token::Char(_) => 3,
            Token::Ident(_) => 4,
            Token::DocComment(_) => 5,
            Token::Fn => 6,
            Token::Let => 7,
            Token::Mut => 8,
            Token::Const => 9,
            Token::If => 10,
            Token::Else => 11,
            Token::While => 12,
            Token::For => 13,
            Token::In => 14,
            Token::Return => 15,
            Token::Break => 16,
            Token::Continue => 17,
            Token::True => 18,
            Token::False => 19,
            Token::Struct => 20,
            Token::Enum => 21,
            Token::Pub => 22,
            Token::Use => 23,
            Token::As => 24,
            Token::Using => 25,
            Token::Static => 26,
            Token::Unsafe => 27,
            Token::Copy => 28,
            Token::Move => 29,
            Token::SelfKw => 30,
            Token::Impl => 31,
            Token::Loop => 32,
            Token::Match => 33,
            Token::Trait => 34,
            Token::Mod => 35,
            Token::Plus => 36,
            Token::Minus => 37,
            Token::Star => 38,
            Token::Slash => 39,
            Token::Percent => 40,
            Token::PlusEq => 41,
            Token::MinusEq => 42,
            Token::StarEq => 43,
            Token::SlashEq => 44,
            Token::PercentEq => 45,
            Token::Equals => 46,
            Token::EqEq => 47,
            Token::BangEq => 48,
            Token::Lt => 49,
            Token::Gt => 50,
            Token::LtEq => 51,
            Token::GtEq => 52,
            Token::AmpAmp => 53,
            Token::PipePipe => 54,
            Token::Bang => 55,
            Token::Amp => 56,
            Token::Pipe => 57,
            Token::Caret => 58,
            Token::Tilde => 59,
            Token::Shl => 60,
            Token::Shr => 61,
            Token::Arrow => 62,
            Token::Question => 63,
            Token::QuestionColon => 64,
            Token::FatArrow => 65,
            Token::LParen => 66,
            Token::RParen => 67,
            Token::LBrace => 68,
            Token::RBrace => 69,
            Token::LBracket => 70,
            Token::RBracket => 71,
            Token::Semicolon => 72,
            Token::Colon => 73,
            Token::Comma => 74,
            Token::Dot => 75,
            Token::Eof => 76,
        }
    }

    /// The variant number of this token (see `spec_kind`).
    pub fn kind(&self) -> (r: u8)
        ensures
            r as nat == self.spec_kind(),
    {
        match self {
            Token::Integer(_) => 0,
            Token::Float(_) => 1,
            Token::Str(_) => 2,
            Token::Char(_) => 3,
            Token::Ident(_) => 4,
            Token::DocComment(_) => 5,
            Token::Fn => 6,
            Token::Let => 7,
            Token::Mut => 8,
            Token::Const => 9,
            Token::If => 10,
            Token::Else => 11,
            Token::While => 12,
            Token::For => 13,
            Token::In => 14,
            Token::Return => 15,
            Token::Break => 16,
            Token::Continue => 17,
            Token::True => 18,
            Token::False => 19,
            Token::Struct => 20,
            Token::Enum => 21,
            Token::Pub => 22,
            Token::Use => 23,
            Token::As => 24,
            Token::Using => 25,
            Token::Static => 26,
            Token::Unsafe => 27,
            Token::Copy => 28,
            Token::Move => 29,
            Token::SelfKw => 30,
            Token::Impl => 31,
            Token::Loop => 32,
            Token::Match => 33,
            Token::Trait => 34,
            Token::Mod => 35,
            Token::Plus => 36,
            Token::Minus => 37,
            Token::Star => 38,
            Token::Slash => 39,
            Token::Percent => 40,
            Token::PlusEq => 41,
            Token::MinusEq => 42,
            Token::StarEq => 43,
            Token::SlashEq => 44,
            Token::PercentEq => 45,
            Token::Equals => 46,
            Token::EqEq => 47,
            Token::BangEq => 48,
            Token::Lt => 49,
            Token::Gt => 50,
            Token::LtEq => 51,
            Token::GtEq => 52,
            Token::AmpAmp => 53,
            Token::PipePipe => 54,
            Token::Bang => 55,
            Token::Amp => 56,
            Token::Pipe => 57,
            Token::Caret => 58,
            Token::Tilde => 59,
            Token::Shl => 60,
            Token::Shr => 61,
            Token::Arrow => 62,
            Token::Question => 63,
            Token::QuestionColon => 64,
            Token::FatArrow => 65,
            Token::LParen => 66,
            Token::RParen => 67,
            Token::LBrace => 68,
            Token::RBrace => 69,
            Token::LBracket => 70,
            Token::RBracket => 71,
            Token::Semicolon => 72,
            Token::Colon => 73,
            Token::Comma => 74,
            Token::Dot => 75,
            Token::Eof => 76,
        }
    }

    /// Whether two tokens are the same variant (payloads are not compared).
    pub fn same_kind(&self, other: &Token) -> (r: bool)
        ensures
            r == (self.spec_kind() == other.spec_kind()),
    {
        self.kind() == other.kind()
    }

    /// An identical copy of this token.
    pub fn duplicate(&self) -> (r: Token)
        ensures
            r == *self,
    {
        match self {
            Token::Integer(n) => Token::Integer(*n),
            Token::Float(s) => Token::Float(s.clone()),
            Token::Str(s) => Token::Str(s.clone()),
            Token::Char(c) => Token::Char(*c),
            Token::Ident(s) => Token::Ident(s.clone()),
            Token::DocComment(s) => Token::DocComment(s.clone()),
            Token::Fn => Token::Fn,
            Token::Let => Token::Let,
            Token::Mut => Token::Mut,
            Token::Const => Token::Const,
            Token::If => Token::If,
            Token::Else => Token::Else,
            Token::While => Token::While,
            Token::For => Token::For,
            Token::In => Token::In,
            Token::Return => Token::Return,
            Token::Break => Token::Break,
            Token::Continue => Token::Continue,
            Token::True => Token::True,
            Token::False => Token::False,
            Token::Struct => Token::Struct,
            Token::Enum => Token::Enum,
            Token::Pub => Token::Pub,
            Token::Use => Token::Use,
            Token::As => Token::As,
            Token::Using => Token::Using,
            Token::Static => Token::Static,
            Token::Unsafe => Token::Unsafe,
            Token::Copy => Token::Copy,
            Token::Move => Token::Move,
            Token::SelfKw => Token::SelfKw,
            Token::Impl => Token::Impl,
            Token::Loop => Token::Loop,
            Token::Match => Token::Match,
            Token::Trait => Token::Trait,
            Token::Mod => Token::Mod,
            Token::Plus => Token::Plus,
            Token::Minus => Token::Minus,
            Token::Star => Token::Star,
            Token::Slash => Token::Slash,
            Token::Percent => Token::Percent,
            Token::PlusEq => Token::PlusEq,
            Token::MinusEq => Token::MinusEq,
            Token::StarEq => Token::StarEq,
            Token::SlashEq => Token::SlashEq,
            Token::PercentEq => Token::PercentEq,
            Token::Equals => Token::Equals,
            Token::EqEq => Token::EqEq,
            Token::BangEq => Token::BangEq,
            Token::Lt => Token::Lt,
            Token::Gt => Token::Gt,
            Token::LtEq => Token::LtEq,
            Token::GtEq => Token::GtEq,
            Token::AmpAmp => Token::AmpAmp,
            Token::PipePipe => Token::PipePipe,
            Token::Bang => Token::Bang,
            Token::Amp => Token::Amp,
            Token::Pipe => Token::Pipe,
            Token::Caret => Token::Caret,
            Token::Tilde => Token::Tilde,
            Token::Shl => Token::Shl,
            Token::Shr => Token::Shr,
            Token::Arrow => Token::Arrow,
            Token::Question => Token::Question,
            Token::QuestionColon => Token::QuestionColon,
            Token::FatArrow => Token::FatArrow,
            Token::LParen => Token::LParen,
            Token::RParen => Token::RParen,
            Token::LBrace => Token::LBrace,
            Token::RBrace => Token::RBrace,
            Token::LBracket => Token::LBracket,
            Token::RBracket => Token::RBracket,
            Token::Semicolon => Token::Semicolon,
            Token::Colon => Token::Colon,
            Token::Comma => Token::Comma,
            Token::Dot => Token::Dot,
            Token::Eof => Token::Eof,
        }
    }

    /// How the token is shown in diagnostics.
    pub open spec fn spec_text(self) -> Seq<char> {
        match self {
            Token::Integer(n) => int_text(n as int),
            Token::Float(s) => s@,
            Token::Str(s) => seq!['"'] + s@ + seq!['"'],
            Token::Char(c) => seq!['\'', c, '\''],
            Token::Ident(s) => seq!['`'] + s@ + seq!['`'],
            Token::DocComment(_) => "`### ...`"@,
            Token::Fn => "`fn`"@,
            Token::Let => "`let`"@,
            Token::Mut => "`mut`"@,
            Token::Const => "`const`"@,
            Token::If => "`if`"@,
            Token::Else => "`else`"@,
            Token::While => "`while`"@,
            Token::For => "`for`"@,
            Token::In => "`in`"@,
            Token::Return => "`return`"@,
            Token::Break => "`break`"@,
            Token::Continue => "`continue`"@,
            Token::True => "`true`"@,
            Token::False => "`false`"@,
            Token::Struct => "`struct`"@,
            Token::Enum => "`enum`"@,
            Token::Pub => "`pub`"@,
            Token::Use => "`use`"@,
            Token::As => "`as`"@,
            Token::Using => "`using`"@,
            Token::Static => "`static`"@,
            Token::Unsafe => "`unsafe`"@,
            Token::Copy => "`copy`"@,
            Token::Move => "`move`"@,
            Token::SelfKw => "`self`"@,
            Token::Impl => "`impl`"@,
            Token::Loop => "`loop`"@,
            Token::Match => "`match`"@,
            Token::Trait => "`trait`"@,
            Token::Mod => "`mod`"@,
            Token::Plus => "`+`"@,
            Token::Minus => "`-`"@,
            Token::Star => "`*`"@,
            Token::Slash => "`/`"@,
            Token::Percent => "`%`"@,
            Token::PlusEq => "`+=`"@,
            Token::MinusEq => "`-=`"@,
            Token::StarEq => "`*=`"@,
            Token::SlashEq => "`/=`"@,
            Token::PercentEq => "`%=`"@,
            Token::Equals => "`=`"@,
            Token::EqEq => "`==`"@,
            Token::BangEq => "`!=`"@,
            Token::Lt => "`<`"@,
            Token::Gt => "`>`"@,
            Token::LtEq => "`<=`"@,
            Token::GtEq => "`>=`"@,
            Token::AmpAmp => "`&&`"@,
            Token::PipePipe => "`||`"@,
            Token::Bang => "`!`"@,
            Token::Amp => "`&`"@,
            Token::Pipe => "`|`"@,
            Token::Caret => "`^`"@,
            Token::Tilde => "`~`"@,
            Token::Shl => "`<<`"@,
            Token::Shr => "`>>`"@,
            Token::Arrow => "`->`"@,
            Token::Question => "`?`"@,
            Token::QuestionColon => "`?:`"@,
            Token::FatArrow => "`=>`"@,
            Token::LParen => "`(`"@,
            Token::RParen => "`)`"@,
            Token::LBrace => "`{`"@,
            Token::RBrace => "`}`"@,
            Token::LBracket => "`[`"@,
            Token::RBracket => "`]`"@,
            Token::Semicolon => "`;`"@,
            Token::Colon => "`:`"@,
            Token::Comma => "`,`"@,
            Token::Dot => "`.`"@,
            Token::Eof => "end of file"@,
        }
    }

    /// The diagnostic text of this token (see `spec_text`).
    pub fn text(&self) -> (r: String)
        ensures
            r@ == self.spec_text(),
    {
        let mut s = String::new();
        match self {
            Token::Integer(n) => { push_i64(&mut s, *n); }
            Token::Float(t) => { push_str(&mut s, t.as_str()); }
            Token::Str(t) => { push_char(&mut s, '"'); push_str(&mut s, t.as_str()); push_char(&mut s, '"'); }
            Token::Char(c) => { push_char(&mut s, '\''); push_char(&mut s, *c); push_char(&mut s, '\''); }
            Token::Ident(t) => { push_char(&mut s, '`'); push_str(&mut s, t.as_str()); push_char(&mut s, '`'); }
            Token::DocComment(_) => { push_str(&mut s, "`### ...`"); }
            Token::Fn => { push_str(&mut s, "`fn`"); }
            Token::Let => { push_str(&mut s, "`let`"); }
            Token::Mut => { push_str(&mut s, "`mut`"); }
            Token::Const => { push_str(&mut s, "`const`"); }
            Token::If => { push_str(&mut s, "`if`"); }
            Token::Else => { push_str(&mut s, "`else`"); }
            Token::While => { push_str(&mut s, "`while`"); }
            Token::For => { push_str(&mut s, "`for`"); }
            Token::In => { push_str(&mut s, "`in`"); }
            Token::Return => { push_str(&mut s, "`return`"); }
            Token::Break => { push_str(&mut s, "`break`"); }
            Token::Continue => { push_str(&mut s, "`continue`"); }
            Token::True => { push_str(&mut s, "`true`"); }
            Token::False => { push_str(&mut s, "`false`"); }
            Token::Struct => { push_str(&mut s, "`struct`"); }
            Token::Enum => { push_str(&mut s, "`enum`"); }
            Token::Pub => { push_str(&mut s, "`pub`"); }
            Token::Use => { push_str(&mut s, "`use`"); }
            Token::As => { push_str(&mut s, "`as`"); }
            Token::Using => { push_str(&mut s, "`using`"); }
            Token::Static => { push_str(&mut s, "`static`"); }
            Token::Unsafe => { push_str(&mut s, "`unsafe`"); }
            Token::Copy => { push_str(&mut s, "`copy`"); }
            Token::Move => { push_str(&mut s, "`move`"); }
            Token::SelfKw => { push_str(&mut s, "`self`"); }
            Token::Impl => { push_str(&mut s, "`impl`"); }
            Token::Loop => { push_str(&mut s, "`loop`"); }
            Token::Match => { push_str(&mut s, "`match`"); }
            Token::Trait => { push_str(&mut s, "`trait`"); }
            Token::Mod => { push_str(&mut s, "`mod`"); }
            Token::Plus => { push_str(&mut s, "`+`"); }
            Token::Minus => { push_str(&mut s, "`-`"); }
            Token::Star => { push_str(&mut s, "`*`"); }
            Token::Slash => { push_str(&mut s, "`/`"); }
            Token::Percent => { push_str(&mut s, "`%`"); }
            Token::PlusEq => { push_str(&mut s, "`+=`"); }
            Token::MinusEq => { push_str(&mut s, "`-=`"); }
            Token::StarEq => { push_str(&mut s, "`*=`"); }
            Token::SlashEq => { push_str(&mut s, "`/=`"); }
            Token::PercentEq => { push_str(&mut s, "`%=`"); }
            Token::Equals => { push_str(&mut s, "`=`"); }
            Token::EqEq => { push_str(&mut s, "`==`"); }
            Token::BangEq => { push_str(&mut s, "`!=`"); }
            Token::Lt => { push_str(&mut s, "`<`"); }
            Token::Gt => { push_str(&mut s, "`>`"); }
            Token::LtEq => { push_str(&mut s, "`<=`"); }
            Token::GtEq => { push_str(&mut s, "`>=`"); }
            Token::AmpAmp => { push_str(&mut s, "`&&`"); }
            Token::PipePipe => { push_str(&mut s, "`||`"); }
            Token::Bang => { push_str(&mut s, "`!`"); }
            Token::Amp => { push_str(&mut s, "`&`"); }
            Token::Pipe => { push_str(&mut s, "`|`"); }
            Token::Caret => { push_str(&mut s, "`^`"); }
            Token::Tilde => { push_str(&mut s, "`~`"); }
            Token::Shl => { push_str(&mut s, "`<<`"); }
            Token::Shr => { push_str(&mut s, "`>>`"); }
            Token::Arrow => { push_str(&mut s, "`->`"); }
            Token::Question => { push_str(&mut s, "`?`"); }
            Token::QuestionColon => { push_str(&mut s, "`?:`"); }
            Token::FatArrow => { push_str(&mut s, "`=>`"); }
            Token::LParen => { push_str(&mut s, "`(`"); }
            Token::RParen => { push_str(&mut s, "`)`"); }
            Token::LBrace => { push_str(&mut s, "`{`"); }
            Token::RBrace => { push_str(&mut s, "`}`"); }
            Token::LBracket => { push_str(&mut s, "`[`"); }
            Token::RBracket => { push_str(&mut s, "`]`"); }
            Token::Semicolon => { push_str(&mut s, "`;`"); }
            Token::Colon => { push_str(&mut s, "`:`"); }
            Token::Comma => { push_str(&mut s, "`,`"); }
            Token::Dot => { push_str(&mut s, "`.`"); }
            Token::Eof => { push_str(&mut s, "end of file"); }
        }
        assert(s@ =~= self.spec_text());
        s
    }

    /// Whether this is the end-of-input sentinel.
    pub fn is_eof(&self) -> (r: bool)
        ensures
            r == (*self is Eof),
    {
        matches!(self, Token::Eof)
    }
}

} // verus!
