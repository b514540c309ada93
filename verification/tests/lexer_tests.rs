use minic::lexer::{Lexer, LexicalError};
use minic::token::{Token, TokenKind, TokenType};

fn lines(source: &str) -> Vec<String> {
    source.lines().map(String::from).collect()
}

fn tokens_of(source: &str) -> Vec<Token> {
    let mut lexer = Lexer::new("test");
    lexer.tokenise(&lines(source));
    lexer.get_tokens()
}

fn kinds_of(source: &str) -> Vec<TokenKind> {
    tokens_of(source).iter().map(|token| token.get_type().kind()).collect()
}

#[test]
fn file_1dotc() {
    let source = "i32 double(i32 v) {\n\treturn v * 2;\n}";
    let result = vec![
        Token::new(TokenType::I32, 0, 0),
        Token::new(TokenType::Id(String::from("double")), 0, 4),
        Token::new(TokenType::Lbra, 0, 10),
        Token::new(TokenType::I32, 0, 11),
        Token::new(TokenType::Id(String::from("v")), 0, 15),
        Token::new(TokenType::Rbra, 0, 16),
        Token::new(TokenType::Lcur, 0, 18),
        Token::new(TokenType::Return, 1, 1),
        Token::new(TokenType::Id(String::from("v")), 1, 8),
        Token::new(TokenType::Mul, 1, 10),
        Token::new(TokenType::Num(String::from("2")), 1, 12),
        Token::new(TokenType::Semi, 1, 13),
        Token::new(TokenType::Rcur, 2, 0),
    ];
    let mut lexer = Lexer::new("test_files/1.c");
    lexer.tokenise(&lines(source));
    let tokens = lexer.get_tokens();

    assert_eq!(tokens.len(), result.len() + 1);
    for i in 0..result.len() {
        assert_eq!(result[i], tokens[i]);
    }
    assert_eq!(tokens[result.len()], Token::new(TokenType::End, 0, 0));
    assert!(lexer.get_errors().is_empty());
}

#[test]
fn fixture_on_one_line() {
    let (tokens, errors) = Lexer::tokenise_line("i32 double(i32 v){ return v*2; }", 7);
    let expected = vec![
        Token::new(TokenType::I32, 7, 0),
        Token::new(TokenType::Id(String::from("double")), 7, 4),
        Token::new(TokenType::Lbra, 7, 10),
        Token::new(TokenType::I32, 7, 11),
        Token::new(TokenType::Id(String::from("v")), 7, 15),
        Token::new(TokenType::Rbra, 7, 16),
        Token::new(TokenType::Lcur, 7, 17),
        Token::new(TokenType::Return, 7, 19),
        Token::new(TokenType::Id(String::from("v")), 7, 26),
        Token::new(TokenType::Mul, 7, 27),
        Token::new(TokenType::Num(String::from("2")), 7, 28),
        Token::new(TokenType::Semi, 7, 29),
        Token::new(TokenType::Rcur, 7, 31),
    ];
    assert_eq!(tokens, expected);
    assert!(errors.is_empty());
}

#[test]
fn empty_source_is_one_end_marker() {
    let tokens = tokens_of("");
    assert_eq!(tokens, vec![Token::new(TokenType::End, 0, 0)]);
}

#[test]
fn end_marker_is_appended_once_per_run() {
    let mut lexer = Lexer::new("test");
    lexer.tokenise(&lines("a"));
    assert_eq!(lexer.get_tokens().len(), 2);
    lexer.tokenise(&lines("b\nc"));
    let kinds: Vec<TokenKind> =
        lexer.get_tokens().iter().map(|token| token.get_type().kind()).collect();
    assert_eq!(
        kinds,
        vec![TokenKind::Id, TokenKind::End, TokenKind::Id, TokenKind::Id, TokenKind::End]
    );
}

#[test]
fn single_character_tokens() {
    assert_eq!(
        kinds_of("+ - * / % = < > ( ) [ ] { } ; : ,"),
        vec![
            TokenKind::Plus,
            TokenKind::Min,
            TokenKind::Mul,
            TokenKind::Div,
            TokenKind::Mod,
            TokenKind::Eq,
            TokenKind::Lt,
            TokenKind::Gt,
            TokenKind::Lbra,
            TokenKind::Rbra,
            TokenKind::Lang,
            TokenKind::Rang,
            TokenKind::Lcur,
            TokenKind::Rcur,
            TokenKind::Semi,
            TokenKind::Colon,
            TokenKind::Comma,
            TokenKind::End,
        ]
    );
}

#[test]
fn two_character_tokens_win() {
    assert_eq!(
        kinds_of("-> == <= >="),
        vec![
            TokenKind::Arrow,
            TokenKind::Eqeq,
            TokenKind::Lteq,
            TokenKind::Gteq,
            TokenKind::End,
        ]
    );
    assert_eq!(
        kinds_of("->>===<=="),
        vec![
            TokenKind::Arrow,
            TokenKind::Gteq,
            TokenKind::Eqeq,
            TokenKind::Lteq,
            TokenKind::Eq,
            TokenKind::End,
        ]
    );
}

#[test]
fn lookahead_is_one_character() {
    let (tokens, errors) = Lexer::tokenise_line("a-b - >= =", 0);
    let expected = vec![
        Token::new(TokenType::Id(String::from("a")), 0, 0),
        Token::new(TokenType::Min, 0, 1),
        Token::new(TokenType::Id(String::from("b")), 0, 2),
        Token::new(TokenType::Min, 0, 4),
        Token::new(TokenType::Gteq, 0, 6),
        Token::new(TokenType::Eq, 0, 9),
    ];
    assert_eq!(tokens, expected);
    assert!(errors.is_empty());
}

#[test]
fn operator_at_end_of_line() {
    assert_eq!(kinds_of("-"), vec![TokenKind::Min, TokenKind::End]);
    assert_eq!(kinds_of("="), vec![TokenKind::Eq, TokenKind::End]);
    assert_eq!(kinds_of("<"), vec![TokenKind::Lt, TokenKind::End]);
    assert_eq!(kinds_of(">"), vec![TokenKind::Gt, TokenKind::End]);
    assert_eq!(kinds_of("/"), vec![TokenKind::Div, TokenKind::End]);
}

#[test]
fn keywords_are_case_sensitive() {
    assert_eq!(
        kinds_of("if else while for return let fn void i8 i16 i32 i64 u8 u16 u32 u64"),
        vec![
            TokenKind::If,
            TokenKind::Else,
            TokenKind::While,
            TokenKind::For,
            TokenKind::Return,
            TokenKind::Let,
            TokenKind::Fn,
            TokenKind::Void,
            TokenKind::I8,
            TokenKind::I16,
            TokenKind::I32,
            TokenKind::I64,
            TokenKind::U8,
            TokenKind::U16,
            TokenKind::U32,
            TokenKind::U64,
            TokenKind::End,
        ]
    );
    assert_eq!(
        tokens_of("If iff i128 _if"),
        vec![
            Token::new(TokenType::Id(String::from("If")), 0, 0),
            Token::new(TokenType::Id(String::from("iff")), 0, 3),
            Token::new(TokenType::Id(String::from("i128")), 0, 7),
            Token::new(TokenType::Id(String::from("_if")), 0, 12),
            Token::new(TokenType::End, 0, 0),
        ]
    );
}

#[test]
fn identifiers_and_numbers() {
    let (tokens, errors) = Lexer::tokenise_line("_x1 x_2y 007 12ab", 3);
    let expected = vec![
        Token::new(TokenType::Id(String::from("_x1")), 3, 0),
        Token::new(TokenType::Id(String::from("x_2y")), 3, 4),
        Token::new(TokenType::Num(String::from("007")), 3, 9),
        Token::new(TokenType::Num(String::from("12")), 3, 13),
        Token::new(TokenType::Id(String::from("ab")), 3, 15),
    ];
    assert_eq!(tokens, expected);
    assert!(errors.is_empty());
}

#[test]
fn long_number_is_kept_verbatim() {
    let digits = "123456789012345678901234567890123456789012345678901234567890";
    let (tokens, errors) = Lexer::tokenise_line(digits, 0);
    assert_eq!(tokens, vec![Token::new(TokenType::Num(String::from(digits)), 0, 0)]);
    assert!(errors.is_empty());
}

#[test]
fn unicode_letters_make_identifiers() {
    let (tokens, errors) = Lexer::tokenise_line("caf\u{e9} = \u{3b1}2;", 0);
    let expected = vec![
        Token::new(TokenType::Id(String::from("caf\u{e9}")), 0, 0),
        Token::new(TokenType::Eq, 0, 5),
        Token::new(TokenType::Id(String::from("\u{3b1}2")), 0, 7),
        Token::new(TokenType::Semi, 0, 9),
    ];
    assert_eq!(tokens, expected);
    assert!(errors.is_empty());
}

#[test]
fn columns_count_characters() {
    let (tokens, _) = Lexer::tokenise_line("\u{e9}\u{e9} + x", 0);
    assert_eq!(tokens[1], Token::new(TokenType::Plus, 0, 3));
    assert_eq!(tokens[2], Token::new(TokenType::Id(String::from("x")), 0, 5));
}

#[test]
fn comment_runs_to_end_of_line() {
    assert_eq!(
        tokens_of("a // b c $\n// nothing\nd / e //"),
        vec![
            Token::new(TokenType::Id(String::from("a")), 0, 0),
            Token::new(TokenType::Id(String::from("d")), 2, 0),
            Token::new(TokenType::Div, 2, 2),
            Token::new(TokenType::Id(String::from("e")), 2, 4),
            Token::new(TokenType::End, 0, 0),
        ]
    );
}

#[test]
fn whitespace_only_lines_have_no_tokens() {
    let (tokens, errors) = Lexer::tokenise_line(" \t \u{a0} ", 0);
    assert!(tokens.is_empty());
    assert!(errors.is_empty());
}

#[test]
fn unknown_character_is_reported_and_skipped() {
    let (tokens, errors) = Lexer::tokenise_line("a $ b # @c", 4);
    let expected = vec![
        Token::new(TokenType::Id(String::from("a")), 4, 0),
        Token::new(TokenType::Id(String::from("b")), 4, 4),
        Token::new(TokenType::Id(String::from("c")), 4, 9),
    ];
    assert_eq!(tokens, expected);
    assert_eq!(
        errors,
        vec![
            LexicalError { line: 4, column: 2, character: '$' },
            LexicalError { line: 4, column: 6, character: '#' },
            LexicalError { line: 4, column: 8, character: '@' },
        ]
    );
}

#[test]
fn non_decimal_digit_is_no_number() {
    let (tokens, errors) = Lexer::tokenise_line("1\u{b2}", 0);
    assert_eq!(tokens, vec![Token::new(TokenType::Num(String::from("1")), 0, 0)]);
    assert_eq!(errors, vec![LexicalError { line: 0, column: 1, character: '\u{b2}' }]);
}

#[test]
fn lexer_collects_errors_of_all_lines() {
    let mut lexer = Lexer::new("test");
    lexer.tokenise(&lines("a ?\n\n  !b"));
    assert_eq!(
        lexer.get_errors(),
        vec![
            LexicalError { line: 0, column: 2, character: '?' },
            LexicalError { line: 2, column: 2, character: '!' },
        ]
    );
    assert_eq!(lexer.get_tokens().len(), 3);
}

#[test]
fn new_lexer_is_empty() {
    let mut lexer = Lexer::new("./code");
    assert_eq!(lexer.get_path(), "./code");
    assert!(lexer.get_tokens().is_empty());
    assert!(lexer.get_errors().is_empty());
}

#[test]
fn token_getters() {
    let token = Token::new(TokenType::Id(String::from("x")), 3, 9);
    assert_eq!(*token.get_type(), TokenType::Id(String::from("x")));
    assert_eq!(token.get_line_nr(), 3);
    assert_eq!(token.get_line_index(), 9);
    assert_eq!(token.clone(), token);
}

#[test]
fn kind_names() {
    assert_eq!(TokenKind::Semi.name(), "SEMI");
    assert_eq!(TokenKind::Return.name(), "RET");
    assert_eq!(TokenKind::I16.name(), "i16");
    assert_eq!(TokenKind::Id.name(), "ID");
    assert_eq!(TokenType::Id(String::from("x")).debug_type(), "ID");
    assert_eq!(TokenType::Num(String::from("1")).kind(), TokenKind::Num);
    assert_eq!(TokenType::Lbra.debug_type(), "LBRA");
}

#[test]
fn token_type_text() {
    assert_eq!(TokenType::Id(String::from("double")).to_text(), "ID:double");
    assert_eq!(TokenType::Num(String::from("42")).to_text(), "NUM:42");
    assert_eq!(TokenType::Semi.to_text(), "SEMI");
    assert_eq!(TokenType::Rcur.to_text(), "RCUR");
    assert_eq!(TokenType::Lcur.to_text(), "LCUR");
    assert_eq!(TokenType::Lang.to_text(), "LANG");
    assert_eq!(TokenType::Rang.to_text(), "RANG");
    assert_eq!(TokenType::Lbra.to_text(), "LBRA");
    assert_eq!(TokenType::Rbra.to_text(), "RBRA");
    assert_eq!(TokenType::Lt.to_text(), "LT");
    assert_eq!(TokenType::Lteq.to_text(), "LTEQ");
    assert_eq!(TokenType::Gt.to_text(), "GT");
    assert_eq!(TokenType::Gteq.to_text(), "GTEQ");
    assert_eq!(TokenType::Eq.to_text(), "EQ");
    assert_eq!(TokenType::Eqeq.to_text(), "EQEQ");
    assert_eq!(TokenType::Plus.to_text(), "PLUS");
    assert_eq!(TokenType::Min.to_text(), "MIN");
    assert_eq!(TokenType::Mul.to_text(), "MUL");
    assert_eq!(TokenType::Div.to_text(), "DIV");
    assert_eq!(TokenType::Mod.to_text(), "MOD");
    assert_eq!(TokenType::If.to_text(), "IF");
    assert_eq!(TokenType::Else.to_text(), "ELSE");
    assert_eq!(TokenType::While.to_text(), "WHILE");
    assert_eq!(TokenType::For.to_text(), "FOR");
    assert_eq!(TokenType::Return.to_text(), "RET");
    assert_eq!(TokenType::Void.to_text(), "VOID");
    assert_eq!(TokenType::Invalid.to_text(), "INVALID");
    assert_eq!(TokenType::Fn.to_text(), "FN");
    assert_eq!(TokenType::Colon.to_text(), "COLON");
    assert_eq!(TokenType::Arrow.to_text(), "ARROW");
    assert_eq!(TokenType::End.to_text(), "END");
    assert_eq!(TokenType::Comma.to_text(), "COMMA");
    assert_eq!(TokenType::Let.to_text(), "LET");
    assert_eq!(TokenType::I8.to_text(), "i8");
    assert_eq!(TokenType::I16.to_text(), "i16");
    assert_eq!(TokenType::I32.to_text(), "i32");
    assert_eq!(TokenType::I64.to_text(), "i64");
    assert_eq!(TokenType::U8.to_text(), "u8");
    assert_eq!(TokenType::U16.to_text(), "u16");
    assert_eq!(TokenType::U32.to_text(), "u32");
    assert_eq!(TokenType::U64.to_text(), "u64");
}

#[test]
fn token_text() {
    assert_eq!(Token::new(TokenType::Id(String::from("v")), 0, 15).to_text(), "[ 0:15:ID:v ]");
    assert_eq!(Token::new(TokenType::Return, 12, 1).to_text(), "[ 12:1:RET ]");
    assert_eq!(Token::new(TokenType::End, 0, 0).to_text(), "[ 0:0:END ]");
    assert_eq!(
        Token::new(TokenType::Num(String::from("7")), 1234567890, 909).to_text(),
        "[ 1234567890:909:NUM:7 ]"
    );
}

#[test]
fn lexer_text() {
    let mut lexer = Lexer::new("test");
    assert_eq!(lexer.to_text(), "\n");
    lexer.tokenise(&lines("x = 10;\ny"));
    assert_eq!(
        lexer.to_text(),
        "[ 0:0:ID:x ][ 0:2:EQ ][ 0:4:NUM:10 ][ 0:6:SEMI ][ 1:0:ID:y ][ 0:0:END ]\n"
    );
}

#[test]
fn decimal_numerals() {
    assert_eq!(minic::text::decimal_text(0), "0");
    assert_eq!(minic::text::decimal_text(7), "7");
    assert_eq!(minic::text::decimal_text(10), "10");
    assert_eq!(minic::text::decimal_text(1905), "1905");
    assert_eq!(minic::text::decimal_text(usize::MAX), usize::MAX.to_string());
    let mut text = String::from("n=");
    minic::text::append_decimal(&mut text, 360);
    assert_eq!(text, "n=360");
}

#[test]
fn tokens_stand_in_column_order_on_their_line() {
    let line = "let caf\u{e9}: i32 = f(a, 12) -> $ b<=c; // d";
    let (tokens, errors) = Lexer::tokenise_line(line, 9);
    assert_eq!(tokens.len(), 16);
    for token in &tokens {
        assert_eq!(token.get_line_nr(), 9);
        assert!(token.get_line_index() < line.chars().count());
    }
    for pair in tokens.windows(2) {
        assert!(pair[0].get_line_index() < pair[1].get_line_index());
    }
    assert_eq!(errors, vec![LexicalError { line: 9, column: 28, character: '$' }]);
}
