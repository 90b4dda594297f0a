use exprlang::ast::{Operator, TokenType};
use exprlang::error::ErrorType;
use exprlang::lexer::Lexer;

#[test]
fn integer() {
    let tokens = Lexer::new("12831984").tokenize().expect("Failed to parse");
    assert_eq!(tokens[0].value, "12831984");
}

#[test]
fn integer_ws() {
    let tokens = Lexer::new("1283 1984").tokenize().expect("Failed to parse");
    assert_eq!(tokens[0].value, "1283");
    assert_eq!(tokens[1].value, "1984")
}

#[test]
fn integer_ws_single() {
    let tokens = Lexer::new("1 9").tokenize().expect("Failed to parse");
    assert_eq!(tokens[0].value, "1");
    assert_eq!(tokens[1].value, "9")
}

#[test]
fn integer_single() {
    let tokens = Lexer::new("8").tokenize().expect("Failed to parse");
    assert_eq!(tokens[0].value, "8");
}

#[test]
fn float() {
    let tokens = Lexer::new("8.10 1230E219 1023.123e39")
        .tokenize()
        .expect("Failed to parse");
    assert_eq!(tokens[0].tok_type, TokenType::Float);
    assert_eq!(tokens[1].tok_type, TokenType::Float);
    assert_eq!(tokens[2].tok_type, TokenType::Float);

    assert_eq!(tokens[0].value, "8.10");
    assert_eq!(tokens[1].value, "1230E219");
    assert_eq!(tokens[2].value, "1023.123e39");
}

#[test]
fn float_err1() {
    assert!(Lexer::new("8.  ").tokenize().is_err());
}

#[test]
fn float_err2() {
    assert!(Lexer::new("8e").tokenize().is_err());
}

#[test]
fn float_err3() {
    assert!(Lexer::new("8E").tokenize().is_err());
}

#[test]
fn float_err4() {
    assert!(Lexer::new("8.10e").tokenize().is_err());
}

#[test]
fn float_err5() {
    assert!(Lexer::new("8.12E").tokenize().is_err());
}

#[test]
fn indent() {
    let tokens = Lexer::new("pi * 8 as float ** 2")
        .tokenize()
        .expect("Failed to parse");
    assert_eq!(tokens[0].value, "pi");
    assert_eq!(tokens[0].tok_type, TokenType::Identifier);
    assert_eq!(tokens[1].tok_type, TokenType::Operator(Operator::Mul));

    assert_eq!(tokens[2].value, "8");

    assert_eq!(tokens[3].tok_type, TokenType::Operator(Operator::As));

    assert_eq!(tokens[4].value, "float");
    assert_eq!(tokens[4].tok_type, TokenType::Identifier);

    assert_eq!(tokens[5].tok_type, TokenType::Operator(Operator::Pow));

    assert_eq!(tokens[6].value, "2");
}

#[test]
fn integer_op() {
    let tokens = Lexer::new("// && & | || + - == != / > < >> << >= <= ! ~ ** ^ % ( )")
        .tokenize()
        .expect("Failed to parse");

    assert_eq!(tokens[0].tok_type, TokenType::Operator(Operator::IntDiv));
    assert_eq!(tokens[1].tok_type, TokenType::Operator(Operator::LAnd));
    assert_eq!(tokens[2].tok_type, TokenType::Operator(Operator::BAnd));
    assert_eq!(tokens[3].tok_type, TokenType::Operator(Operator::BOr));
    assert_eq!(tokens[4].tok_type, TokenType::Operator(Operator::LOr));
    assert_eq!(tokens[5].tok_type, TokenType::Operator(Operator::Add));
    assert_eq!(tokens[6].tok_type, TokenType::Operator(Operator::Sub));
    assert_eq!(tokens[7].tok_type, TokenType::Operator(Operator::Eql));
    assert_eq!(tokens[8].tok_type, TokenType::Operator(Operator::NEql));
    assert_eq!(tokens[9].tok_type, TokenType::Operator(Operator::Div));
    assert_eq!(tokens[10].tok_type, TokenType::Operator(Operator::GT));
    assert_eq!(tokens[11].tok_type, TokenType::Operator(Operator::LT));
    assert_eq!(tokens[12].tok_type, TokenType::Operator(Operator::BitShiftR));
    assert_eq!(tokens[13].tok_type, TokenType::Operator(Operator::BitShiftL));
    assert_eq!(tokens[14].tok_type, TokenType::Operator(Operator::GE));
    assert_eq!(tokens[15].tok_type, TokenType::Operator(Operator::LE));
    assert_eq!(tokens[16].tok_type, TokenType::Operator(Operator::LNot));
    assert_eq!(tokens[17].tok_type, TokenType::Operator(Operator::BNot));
    assert_eq!(tokens[18].tok_type, TokenType::Operator(Operator::Pow));
    assert_eq!(tokens[19].tok_type, TokenType::Operator(Operator::BXor));
    assert_eq!(tokens[20].tok_type, TokenType::Operator(Operator::Mod));
    assert_eq!(tokens[21].tok_type, TokenType::LP);
    assert_eq!(tokens[22].tok_type, TokenType::RP);
}

#[test]
fn empty_input_yields_eof_only() {
    let tokens = Lexer::new("").tokenize().expect("Failed to parse");
    assert_eq!(tokens.len(), 1);
    assert_eq!(tokens[0].tok_type, TokenType::EOF);
    assert_eq!(tokens[0].pos.start, 0);
    assert_eq!(tokens[0].pos.end, 0);
}

#[test]
fn eof_span_sits_at_input_end() {
    let tokens = Lexer::new("1 + 2").tokenize().expect("Failed to parse");
    let last = tokens.last().unwrap();
    assert_eq!(last.tok_type, TokenType::EOF);
    assert_eq!(last.pos.start, 5);
    assert_eq!(last.pos.end, 5);
}

#[test]
fn spans_cover_tokens() {
    let tokens = Lexer::new("12 >= abc").tokenize().expect("Failed to parse");
    assert_eq!((tokens[0].pos.start, tokens[0].pos.end), (0, 2));
    assert_eq!((tokens[1].pos.start, tokens[1].pos.end), (3, 5));
    assert_eq!((tokens[2].pos.start, tokens[2].pos.end), (6, 9));
}

#[test]
fn keywords_resolve_by_exact_text() {
    let tokens = Lexer::new("true false trueish as").tokenize().expect("Failed to parse");
    assert_eq!(tokens[0].tok_type, TokenType::TRUE);
    assert_eq!(tokens[1].tok_type, TokenType::FALSE);
    assert_eq!(tokens[2].tok_type, TokenType::Identifier);
    assert_eq!(tokens[2].value, "trueish");
    assert_eq!(tokens[3].tok_type, TokenType::Operator(Operator::As));
}

#[test]
fn bare_equals_is_an_error() {
    let err = Lexer::new("1 = 2").tokenize().unwrap_err();
    assert_eq!(err.error_type, ErrorType::LexError);
    assert_eq!(err.message, "unrecognized character =");
    assert_eq!((err.pos.start, err.pos.end), (2, 3));
}

#[test]
fn unrecognized_character_is_reported_with_its_span() {
    let err = Lexer::new("1 @ 2").tokenize().unwrap_err();
    assert_eq!(err.error_type, ErrorType::LexError);
    assert_eq!(err.message, "unrecognized character @");
    assert_eq!((err.pos.start, err.pos.end), (2, 3));
}

#[test]
fn float_error_marker_and_span() {
    let err = Lexer::new("8.x").tokenize().unwrap_err();
    assert_eq!(err.error_type, ErrorType::LexError);
    assert_eq!(err.message, "expected number after `.`");
    assert_eq!((err.pos.start, err.pos.end), (2, 3));

    let err = Lexer::new("12e ").tokenize().unwrap_err();
    assert_eq!(err.message, "expected number after `e`");

    let err = Lexer::new("1.5E+2").tokenize().unwrap_err();
    assert_eq!(err.message, "expected number after `E`");
}

#[test]
fn embedded_nul_is_an_error() {
    let err = Lexer::new("1\u{0000}2").tokenize().unwrap_err();
    assert_eq!(err.error_type, ErrorType::LexError);
    assert_eq!(err.message, "unrecognized character \u{0000}");
    assert_eq!((err.pos.start, err.pos.end), (1, 2));
}

#[test]
fn lone_nul_is_an_error() {
    assert!(Lexer::new("\u{0000}").tokenize().is_err());
}

#[test]
fn unicode_whitespace_is_skipped() {
    let tokens = Lexer::new("1\u{2028}2\u{0085}3").tokenize().expect("Failed to parse");
    assert_eq!(tokens[0].value, "1");
    assert_eq!(tokens[1].value, "2");
    assert_eq!(tokens[2].value, "3");
    assert_eq!(tokens[3].tok_type, TokenType::EOF);
}

#[test]
fn float_commits_never_falls_back_to_integer() {
    assert!(Lexer::new("8.").tokenize().is_err());
    assert!(Lexer::new("123e").tokenize().is_err());
}
