use thrust_parser::parser::Parser;
use thrust_parser::token::{Keyword, Token};

#[test]
fn eof_token() {
    let mut parser = Parser::new("");
    assert_eq!(parser.eof(), true);
    assert_eq!(parser.next_token(), Token::Eof);
}

#[test]
fn colon_token() {
    let mut parser = Parser::new(":");
    assert_eq!(parser.next_token(), Token::Colon);
}

#[test]
fn dot_token() {
    let mut parser = Parser::new(".");
    assert_eq!(parser.next_token(), Token::Dot);
}

#[test]
fn equal_token() {
    let mut parser = Parser::new("=");
    assert_eq!(parser.next_token(), Token::Eq);
}

#[test]
fn comma_token() {
    let mut parser = Parser::new(",");
    assert_eq!(parser.next_token(), Token::Comma);
}

#[test]
fn curly_token() {
    let mut parser = Parser::new("{}");
    assert_eq!(parser.next_token(), Token::LCurly);
    assert_eq!(parser.next_token(), Token::RCurly);
}

#[test]
fn angle_token() {
    let mut parser = Parser::new("<>");
    assert_eq!(parser.next_token(), Token::LAngle);
    assert_eq!(parser.next_token(), Token::RAngle);
}

#[test]
fn semi_token() {
    let mut parser = Parser::new(";");
    assert_eq!(parser.next_token(), Token::Semi);
}

#[test]
#[should_panic]
fn whitespace_token() {
    let mut parser = Parser::new(" ");
    assert_eq!(parser.next_token(), Token::Whitespace);
}

#[test]
fn whitespace_grab_token() {
    let mut parser = Parser::new("     >");
    assert_eq!(parser.next_token(), Token::RAngle);
}

#[test]
fn comment_token() {
    let mut parser = Parser::new("<//foobar\n:");
    assert_eq!(parser.next_token(), Token::LAngle);
    assert_eq!(parser.next_token(), Token::Comment);
    assert_eq!(parser.next_token(), Token::Colon);
}

#[test]
fn multi_comment_token() {
    let mut parser = Parser::new(
        "</*\n
                                     fofoo*/>",
    );
    assert_eq!(parser.next_token(), Token::LAngle);
    assert_eq!(parser.next_token(), Token::Comment);
    assert_eq!(parser.next_token(), Token::RAngle);
}

#[test]
fn hash_comment_token() {
    let mut parser = Parser::new("<#foobar\n:");
    assert_eq!(parser.next_token(), Token::LAngle);
    assert_eq!(parser.next_token(), Token::Comment);
    assert_eq!(parser.next_token(), Token::Colon);
}

#[test]
fn ident_token() {
    assert_eq!(
        Parser::new("foobar").next_token(),
        Token::Ident("foobar".to_string())
    );
    assert_eq!(
        Parser::new("foobar123").next_token(),
        Token::Ident("foobar123".to_string())
    );
    assert_eq!(
        Parser::new("foobar_123").next_token(),
        Token::Ident("foobar_123".to_string())
    );
    assert_eq!(Parser::new("_FFF").next_token(), Token::Ident("_FFF".to_string()));
}

#[test]
fn quoted_string_token() {
    assert_eq!(
        Parser::new("\"hello world 12338383\"").next_token(),
        Token::QuotedString("hello world 12338383".to_string())
    );
}

#[test]
#[should_panic]
fn fail_ident_token() {
    assert_eq!(
        Parser::new("1foobar").next_token(),
        Token::Ident("1foobar".to_string())
    );
}

#[test]
fn keywords_token() {
    assert_eq!(Parser::new("oneway").next_token(), Token::Keyword(Keyword::Oneway));
    assert_eq!(Parser::new("exception").next_token(), Token::Keyword(Keyword::Exception));
    assert_eq!(Parser::new("struct").next_token(), Token::Keyword(Keyword::Struct));
    assert_eq!(Parser::new("enum").next_token(), Token::Keyword(Keyword::Enum));
    assert_eq!(Parser::new("namespace").next_token(), Token::Keyword(Keyword::Namespace));
    assert_eq!(Parser::new("service").next_token(), Token::Keyword(Keyword::Service));
    assert_eq!(Parser::new("throws").next_token(), Token::Keyword(Keyword::Throws));
    assert_eq!(Parser::new("typedef").next_token(), Token::Keyword(Keyword::Typedef));
    assert_eq!(Parser::new("optional").next_token(), Token::Keyword(Keyword::Optional));
    assert_eq!(Parser::new("required").next_token(), Token::Keyword(Keyword::Required));
    assert_eq!(Parser::new("const").next_token(), Token::Keyword(Keyword::Const));
}

#[test]
fn include_keyword_token() {
    assert_eq!(Parser::new("include").next_token(), Token::Keyword(Keyword::Include));
}

#[test]
fn number_token_in_range() {
    assert_eq!(Parser::new("0").next_token(), Token::Number(0));
    assert_eq!(Parser::new("123").next_token(), Token::Number(123));
    assert_eq!(Parser::new("32767").next_token(), Token::Number(32767));
}

#[test]
fn number_token_out_of_range() {
    assert_eq!(Parser::new("32768").next_token(), Token::BadNumber);
    assert_eq!(Parser::new("99999999999999999999").next_token(), Token::BadNumber);
}

#[test]
fn interior_whitespace_keeps_token_sequence() {
    let mut spaced = Parser::new("  { \t 12 ,\u{a0}abc  }  ");
    let mut tight = Parser::new("{ 12 ,abc}");
    for _ in 0..5 {
        assert_eq!(spaced.next_token(), tight.next_token());
    }
}

#[test]
fn nested_asterisk_block_comment() {
    let mut parser = Parser::new("</* a ** b *c **/>");
    assert_eq!(parser.next_token(), Token::LAngle);
    assert_eq!(parser.next_token(), Token::Comment);
    assert_eq!(parser.next_token(), Token::RAngle);
}

#[test]
fn comment_removal_keeps_token_sequence() {
    let mut commented = Parser::new("{ /* skip */ abc // tail\n }");
    let mut plain = Parser::new("{ abc }");
    // the lexer surfaces the comment marker itself; the parser's cursor
    // (bump) is what skips it, so drop Comment tokens here
    for _ in 0..3 {
        let mut t = commented.next_token();
        while t == Token::Comment {
            t = commented.next_token();
        }
        assert_eq!(t, plain.next_token());
    }
}
