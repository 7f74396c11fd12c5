//! Lexical tokens of the IDL and the character classes the tokenizer
//! scans by.
use vstd::prelude::*;

verus! {

/// The reserved words of the IDL, matched case-sensitively against an
/// identifier's spelling.
#[derive(Debug, PartialEq, Eq, Hash, Copy, Clone, Structural)]
pub enum Keyword {
    Struct,
    Service,
    Enum,
    Namespace,
    Required,
    Optional,
    Oneway,
    Typedef,
    Throws,
    Exception,
    Include,
    Const,
}

/// One lexical token. Tokens are immutable once produced; `Comment` carries
/// no payload and is never surfaced to the parse routines. `B` marks a
/// cursor whose first token has not been pulled yet, and `Eof` marks the
/// end of input. `BadNumber` stands for a decimal literal outside the
/// signed 16-bit range, surfaced as a recoverable value instead of a halt.
#[derive(Debug, Eq, Hash)]
pub enum Token {
    Eq,
    Colon,
    SingleQuote,
    Dot,
    Semi,
    At,
    Comma,
    LCurly,
    RCurly,
    LAngle,
    RAngle,
    Number(i16),
    BadNumber,
    QuotedString(String),
    Ident(String),
    Keyword(Keyword),
    Comment,
    Whitespace,
    Eof,
    B,
}

/// The mathematical value of a token: string payloads as character
/// sequences and the numeric payload as an unbounded integer.
pub ghost enum TokenModel {
    Eq,
    Colon,
    SingleQuote,
    Dot,
    Semi,
    At,
    Comma,
    LCurly,
    RCurly,
    LAngle,
    RAngle,
    Number(int),
    BadNumber,
    QuotedString(Seq<char>),
    Ident(Seq<char>),
    Keyword(Keyword),
    Comment,
    Whitespace,
    Eof,
    B,
}

impl View for Token {
    type V = TokenModel;

    open spec fn view(&self) -> TokenModel {
        match self {
            Token::Eq => TokenModel::Eq,
            Token::Colon => TokenModel::Colon,
            Token::SingleQuote => TokenModel::SingleQuote,
            Token::Dot => TokenModel::Dot,
            Token::Semi => TokenModel::Semi,
            Token::At => TokenModel::At,
            Token::Comma => TokenModel::Comma,
            Token::LCurly => TokenModel::LCurly,
            Token::RCurly => TokenModel::RCurly,
            Token::LAngle => TokenModel::LAngle,
            Token::RAngle => TokenModel::RAngle,
            Token::Number(n) => TokenModel::Number(*n as int),
            Token::BadNumber => TokenModel::BadNumber,
            Token::QuotedString(s) => TokenModel::QuotedString(s@),
            Token::Ident(s) => TokenModel::Ident(s@),
            Token::Keyword(k) => TokenModel::Keyword(*k),
            Token::Comment => TokenModel::Comment,
            Token::Whitespace => TokenModel::Whitespace,
            Token::Eof => TokenModel::Eof,
            Token::B => TokenModel::B,
        }
    }
}

impl Clone for Token {
    /// Cloning keeps the token's mathematical value.
    fn clone(&self) -> (r: Token)
        ensures
            r@ == self@,
    {
        match self {
            Token::Eq => Token::Eq,
            Token::Colon => Token::Colon,
            Token::SingleQuote => Token::SingleQuote,
            Token::Dot => Token::Dot,
            Token::Semi => Token::Semi,
            Token::At => Token::At,
            Token::Comma => Token::Comma,
            Token::LCurly => Token::LCurly,
            Token::RCurly => Token::RCurly,
            Token::LAngle => Token::LAngle,
            Token::RAngle => Token::RAngle,
            Token::Number(n) => Token::Number(*n),
            Token::BadNumber => Token::BadNumber,
            Token::QuotedString(s) => Token::QuotedString(s.clone()),
            Token::Ident(s) => Token::Ident(s.clone()),
            Token::Keyword(k) => Token::Keyword(*k),
            Token::Comment => Token::Comment,
            Token::Whitespace => Token::Whitespace,
            Token::Eof => Token::Eof,
            Token::B => Token::B,
        }
    }
}

impl PartialEq for Token {
    /// Tokens are equal exactly when their mathematical values are.
    #[verifier::rlimit(50)]
    fn eq(&self, other: &Token) -> (r: bool) {
        match (self, other) {
            (Token::Eq, Token::Eq) => true,
            (Token::Colon, Token::Colon) => true,
            (Token::SingleQuote, Token::SingleQuote) => true,
            (Token::Dot, Token::Dot) => true,
            (Token::Semi, Token::Semi) => true,
            (Token::At, Token::At) => true,
            (Token::Comma, Token::Comma) => true,
            (Token::LCurly, Token::LCurly) => true,
            (Token::RCurly, Token::RCurly) => true,
            (Token::LAngle, Token::LAngle) => true,
            (Token::RAngle, Token::RAngle) => true,
            (Token::Number(a), Token::Number(b)) => *a == *b,
            (Token::BadNumber, Token::BadNumber) => true,
            (Token::QuotedString(a), Token::QuotedString(b)) => *a == *b,
            (Token::Ident(a), Token::Ident(b)) => *a == *b,
            (Token::Keyword(a), Token::Keyword(b)) => *a == *b,
            (Token::Comment, Token::Comment) => true,
            (Token::Whitespace, Token::Whitespace) => true,
            (Token::Eof, Token::Eof) => true,
            (Token::B, Token::B) => true,
            _ => false,
        }
    }
}

impl vstd::std_specs::cmp::PartialEqSpecImpl for Token {
    open spec fn obeys_eq_spec() -> bool {
        true
    }

    open spec fn eq_spec(&self, other: &Token) -> bool {
        self@ == other@
    }
}

/// A Unicode whitespace character (the White_Space code points).
pub open spec fn is_ws_char(c: char) -> bool {
    let u = c as u32;
    u == 0x09 || u == 0x0a || u == 0x0b || u == 0x0c || u == 0x0d || u == 0x20 || u == 0x85
        || u == 0xa0 || u == 0x1680 || (0x2000 <= u && u <= 0x200a) || u == 0x2028 || u == 0x2029
        || u == 0x202f || u == 0x205f || u == 0x3000
}

/// An ASCII decimal digit.
pub open spec fn is_digit_char(c: char) -> bool {
    0x30 <= c as u32 && c as u32 <= 0x39
}

/// An ASCII letter or underscore: the characters that may begin an
/// identifier.
pub open spec fn is_ident_start_char(c: char) -> bool {
    let u = c as u32;
    (0x41 <= u && u <= 0x5a) || (0x61 <= u && u <= 0x7a) || u == 0x5f
}

/// A character that may continue an identifier: a letter, a digit or an
/// underscore.
pub open spec fn is_ident_char(c: char) -> bool {
    is_ident_start_char(c) || is_digit_char(c)
}

/// The numeric value of an ASCII digit.
pub open spec fn digit_val(c: char) -> int {
    c as u32 - 0x30
}

/// Executable test for `is_ws_char`.
pub fn ws_char(c: char) -> (r: bool)
    ensures
        r == is_ws_char(c),
{
    let u = c as u32;
    u == 0x09 || u == 0x0a || u == 0x0b || u == 0x0c || u == 0x0d || u == 0x20 || u == 0x85
        || u == 0xa0 || u == 0x1680 || (0x2000 <= u && u <= 0x200a) || u == 0x2028 || u == 0x2029
        || u == 0x202f || u == 0x205f || u == 0x3000
}

/// Executable test for `is_digit_char`.
pub fn digit_char(c: char) -> (r: bool)
    ensures
        r == is_digit_char(c),
{
    let u = c as u32;
    0x30 <= u && u <= 0x39
}

/// Executable test for `is_ident_start_char`.
pub fn ident_start_char(c: char) -> (r: bool)
    ensures
        r == is_ident_start_char(c),
{
    let u = c as u32;
    (0x41 <= u && u <= 0x5a) || (0x61 <= u && u <= 0x7a) || u == 0x5f
}

/// Executable test for `is_ident_char`.
pub fn ident_char(c: char) -> (r: bool)
    ensures
        r == is_ident_char(c),
{
    ident_start_char(c) || digit_char(c)
}

/// The keyword a spelling stands for, if any; exact, case-sensitive match.
pub open spec fn keyword_of(s: Seq<char>) -> Option<Keyword> {
    if s == "namespace"@ {
        Some(Keyword::Namespace)
    } else if s == "struct"@ {
        Some(Keyword::Struct)
    } else if s == "enum"@ {
        Some(Keyword::Enum)
    } else if s == "service"@ {
        Some(Keyword::Service)
    } else if s == "optional"@ {
        Some(Keyword::Optional)
    } else if s == "required"@ {
        Some(Keyword::Required)
    } else if s == "throws"@ {
        Some(Keyword::Throws)
    } else if s == "oneway"@ {
        Some(Keyword::Oneway)
    } else if s == "typedef"@ {
        Some(Keyword::Typedef)
    } else if s == "exception"@ {
        Some(Keyword::Exception)
    } else if s == "include"@ {
        Some(Keyword::Include)
    } else if s == "const"@ {
        Some(Keyword::Const)
    } else {
        None
    }
}

/// The spelling of each keyword, the inverse of `keyword_of`.
pub open spec fn keyword_spelling(k: Keyword) -> Seq<char> {
    match k {
        Keyword::Namespace => "namespace"@,
        Keyword::Struct => "struct"@,
        Keyword::Enum => "enum"@,
        Keyword::Service => "service"@,
        Keyword::Optional => "optional"@,
        Keyword::Required => "required"@,
        Keyword::Throws => "throws"@,
        Keyword::Oneway => "oneway"@,
        Keyword::Typedef => "typedef"@,
        Keyword::Exception => "exception"@,
        Keyword::Include => "include"@,
        Keyword::Const => "const"@,
    }
}

/// Classification of a whole identifier spelling, used by the tokenizer.
pub fn classify_word(s: String) -> (t: Token)
    ensures
        t@ == match keyword_of(s@) {
            Some(k) => TokenModel::Keyword(k),
            None => TokenModel::Ident(s@),
        },
{
    if s == String::from_str("namespace") {
        Token::Keyword(Keyword::Namespace)
    } else if s == String::from_str("struct") {
        Token::Keyword(Keyword::Struct)
    } else if s == String::from_str("enum") {
        Token::Keyword(Keyword::Enum)
    } else if s == String::from_str("service") {
        Token::Keyword(Keyword::Service)
    } else if s == String::from_str("optional") {
        Token::Keyword(Keyword::Optional)
    } else if s == String::from_str("required") {
        Token::Keyword(Keyword::Required)
    } else if s == String::from_str("throws") {
        Token::Keyword(Keyword::Throws)
    } else if s == String::from_str("oneway") {
        Token::Keyword(Keyword::Oneway)
    } else if s == String::from_str("typedef") {
        Token::Keyword(Keyword::Typedef)
    } else if s == String::from_str("exception") {
        Token::Keyword(Keyword::Exception)
    } else if s == String::from_str("include") {
        Token::Keyword(Keyword::Include)
    } else if s == String::from_str("const") {
        Token::Keyword(Keyword::Const)
    } else {
        Token::Ident(s)
    }
}

} // verus!
