use thrift_analyzer::base::{Error, Position, Range};
use thrift_analyzer::scanner::Scanner;
use thrift_analyzer::token::{Token, TokenKind};

fn at(line: u32, column: u32) -> Position {
    Position { line, column }
}

fn scan_all(source: &str) -> Vec<(Token, Option<Error>)> {
    let input: Vec<char> = source.chars().collect();
    let mut scanner = Scanner::new(&input);
    let mut out = Vec::new();
    loop {
        let (token, error) = scanner.scan();
        let done = token.is_eof();
        out.push((token, error));
        if done {
            break;
        }
    }
    out
}

fn kinds(source: &str) -> Vec<TokenKind> {
    scan_all(source).into_iter().map(|(t, _)| t.kind).collect()
}

fn ident(s: &str) -> TokenKind {
    TokenKind::Identifier(s.to_string())
}

#[test]
fn scanner_test_scan() {
    let source = "namespace go user\n\nstruct User {\n  1: required i64 id, // the id\n  2: optional string name = \"x\"\n}\n";
    let tokens = scan_all(source);
    for (token, error) in tokens.iter() {
        assert!(!token.is_invalid(), "invalid token: {:?}, err: {:?}", token, error);
        assert!(error.is_none());
    }
    assert!(tokens.last().unwrap().0.is_eof());
    assert_eq!(tokens.len(), 22);
}

#[test]
fn words_and_positions() {
    let tokens = scan_all("struct Point");
    assert_eq!(tokens[0].0, Token { kind: TokenKind::Struct, position: at(1, 1) });
    assert_eq!(tokens[1].0, Token { kind: ident("Point"), position: at(1, 8) });
    assert_eq!(tokens[2].0, Token { kind: TokenKind::Eof, position: at(1, 13) });
}

#[test]
fn empty_input_is_eof_at_the_first_point() {
    let tokens = scan_all("");
    assert_eq!(tokens.len(), 1);
    assert_eq!(tokens[0].0, Token { kind: TokenKind::Eof, position: at(1, 1) });
}

#[test]
fn eof_stands_behind_trailing_space() {
    let tokens = scan_all("a \n\t ");
    assert_eq!(tokens[1].0, Token { kind: TokenKind::Eof, position: at(2, 3) });
}

#[test]
fn line_comment_holds_its_text_without_lead_and_line_break() {
    let tokens = scan_all("// hi\nx");
    assert_eq!(tokens[0].0, Token { kind: TokenKind::Comment(" hi".to_string()), position: at(1, 1) });
    assert_eq!(tokens[0].0.range(), Range { start: at(1, 1), end: at(1, 6) });
    assert_eq!(tokens[1].0, Token { kind: ident("x"), position: at(2, 1) });
}

#[test]
fn line_comment_at_end_of_input() {
    let tokens = scan_all("//x");
    assert_eq!(tokens[0].0.kind, TokenKind::Comment("x".to_string()));
    assert_eq!(tokens[1].0, Token { kind: TokenKind::Eof, position: at(1, 4) });
}

#[test]
fn pound_comment_holds_its_text() {
    let tokens = scan_all("# note\r\nx");
    assert_eq!(
        tokens[0].0,
        Token { kind: TokenKind::PoundComment(" note".to_string()), position: at(1, 1) }
    );
    assert_eq!(tokens[1].0, Token { kind: ident("x"), position: at(2, 1) });
}

#[test]
fn block_comment_nests() {
    let tokens = scan_all("/* a /* b */ c */ x");
    assert_eq!(
        tokens[0].0,
        Token { kind: TokenKind::BlockComment(" a /* b */ c ".to_string()), position: at(1, 1) }
    );
    assert!(tokens[0].1.is_none());
    assert_eq!(tokens[1].0, Token { kind: ident("x"), position: at(1, 19) });
}

#[test]
fn empty_block_comment() {
    let tokens = scan_all("/**/x");
    assert_eq!(tokens[0].0.kind, TokenKind::BlockComment(String::new()));
    assert_eq!(tokens[1].0.position, at(1, 5));
}

#[test]
fn block_comment_over_lines() {
    let tokens = scan_all("/* a\n b */ x");
    assert_eq!(tokens[0].0.kind, TokenKind::BlockComment(" a\n b ".to_string()));
    assert_eq!(tokens[1].0, Token { kind: ident("x"), position: at(2, 7) });
}

#[test]
fn unclosed_block_comment() {
    let tokens = scan_all("/* abc");
    assert_eq!(tokens[0].0.kind, TokenKind::InvalidString("/* abc".to_string()));
    let error = tokens[0].1.as_ref().unwrap();
    assert_eq!(error.message, "Unclosed block comment: /* abc");
    assert_eq!(error.range, Range { start: at(1, 1), end: at(1, 7) });
    assert!(tokens[1].0.is_eof());
}

#[test]
fn unclosed_nested_block_comment() {
    let tokens = scan_all("/* a /* b */");
    assert_eq!(tokens[0].0.kind, TokenKind::InvalidString("/* a /* b */".to_string()));
    assert!(tokens[0].1.is_some());
}

#[test]
fn slash_alone() {
    let tokens = scan_all("/");
    assert_eq!(tokens[0].0.kind, TokenKind::Invalid('/'));
    assert!(tokens[0].1.is_none());
    let tokens = scan_all("/x");
    assert_eq!(tokens[0].0.kind, TokenKind::InvalidString("/".to_string()));
    assert_eq!(tokens[0].1.as_ref().unwrap().message, "Unclosed block comment: /");
    assert_eq!(tokens[1].0, Token { kind: ident("x"), position: at(1, 2) });
}

#[test]
fn literals_in_both_quotes() {
    let tokens = scan_all("\"abc\" 'def'");
    assert_eq!(tokens[0].0, Token { kind: TokenKind::Literal("abc".to_string()), position: at(1, 1) });
    assert_eq!(tokens[0].0.range(), Range { start: at(1, 1), end: at(1, 6) });
    assert_eq!(tokens[1].0, Token { kind: TokenKind::Literal("def".to_string()), position: at(1, 7) });
}

#[test]
fn escaped_delimiter_does_not_close() {
    let tokens = scan_all("'a\\'b' x");
    assert_eq!(tokens[0].0.kind, TokenKind::Literal("a\\'b".to_string()));
    assert_eq!(tokens[1].0, Token { kind: ident("x"), position: at(1, 8) });
}

#[test]
fn other_quote_inside_a_literal() {
    let tokens = scan_all("\"it's\"");
    assert_eq!(tokens[0].0.kind, TokenKind::Literal("it's".to_string()));
}

#[test]
fn literal_over_lines() {
    let tokens = scan_all("\"a\nb\" x");
    assert_eq!(tokens[0].0, Token { kind: TokenKind::Literal("a\nb".to_string()), position: at(1, 1) });
    assert_eq!(tokens[1].0, Token { kind: ident("x"), position: at(2, 4) });
}

#[test]
fn unterminated_string() {
    let tokens = scan_all("const string S = \"hello\n");
    assert_eq!(tokens[0].0.kind, TokenKind::Const);
    assert_eq!(tokens[1].0.kind, TokenKind::BaseType("string".to_string()));
    assert_eq!(tokens[2].0.kind, ident("S"));
    assert_eq!(tokens[3].0.kind, TokenKind::Assign);
    assert_eq!(
        tokens[4].0,
        Token { kind: TokenKind::InvalidString("hello".to_string()), position: at(1, 18) }
    );
    assert_eq!(tokens[4].1.as_ref().unwrap().message, "Unclosed string: hello");
    assert!(tokens[5].0.is_eof());
}

#[test]
fn unterminated_string_without_line_break() {
    let tokens = scan_all("\"hello");
    assert_eq!(tokens[0].0.kind, TokenKind::InvalidString("hello".to_string()));
    assert_eq!(tokens[0].1.as_ref().unwrap().message, "Unclosed string: hello");
    let tokens = scan_all("\"");
    assert_eq!(tokens[0].0.kind, TokenKind::InvalidString(String::new()));
    assert_eq!(tokens[0].1.as_ref().unwrap().message, "Unclosed string: ");
}

#[test]
fn integers() {
    assert_eq!(kinds("123")[0], TokenKind::IntConstant("123".to_string()));
    assert_eq!(kinds("+5")[0], TokenKind::IntConstant("+5".to_string()));
    assert_eq!(kinds("-42")[0], TokenKind::IntConstant("-42".to_string()));
    assert_eq!(kinds("0")[0], TokenKind::IntConstant("0".to_string()));
}

#[test]
fn bare_signs_are_invalid() {
    assert_eq!(kinds("+")[0], TokenKind::InvalidString("+".to_string()));
    assert_eq!(kinds("-")[0], TokenKind::InvalidString("-".to_string()));
    assert_eq!(kinds("- x"), vec![TokenKind::InvalidString("-".to_string()), ident("x"), TokenKind::Eof]);
}

#[test]
fn doubles() {
    assert_eq!(kinds(".5")[0], TokenKind::DoubleConstant(".5".to_string()));
    assert_eq!(kinds("5.")[0], TokenKind::DoubleConstant("5.".to_string()));
    assert_eq!(kinds("123e4")[0], TokenKind::DoubleConstant("123e4".to_string()));
    assert_eq!(kinds("1.5e-3")[0], TokenKind::DoubleConstant("1.5e-3".to_string()));
    assert_eq!(kinds("1E+2")[0], TokenKind::DoubleConstant("1E+2".to_string()));
    assert_eq!(kinds("+.5")[0], TokenKind::DoubleConstant("+.5".to_string()));
    assert_eq!(kinds("-1.25")[0], TokenKind::DoubleConstant("-1.25".to_string()));
    assert_eq!(kinds("1e")[0], TokenKind::DoubleConstant("1e".to_string()));
}

#[test]
fn a_dot_alone_is_invalid() {
    assert_eq!(kinds(".")[0], TokenKind::InvalidString(".".to_string()));
    assert_eq!(kinds(". x"), vec![TokenKind::InvalidString(".".to_string()), ident("x"), TokenKind::Eof]);
}

#[test]
fn e_alone_is_a_word() {
    assert_eq!(kinds("e")[0], ident("e"));
    assert_eq!(kinds("e5")[0], ident("e5"));
}

#[test]
fn a_number_ends_where_a_word_starts() {
    assert_eq!(
        kinds("12abc"),
        vec![TokenKind::IntConstant("12".to_string()), ident("abc"), TokenKind::Eof]
    );
    assert_eq!(
        kinds("1e+"),
        vec![
            TokenKind::DoubleConstant("1e".to_string()),
            TokenKind::InvalidString("+".to_string()),
            TokenKind::Eof
        ]
    );
}

#[test]
fn punctuation() {
    assert_eq!(
        kinds("= : < > ( ) { } [ ] , ; *"),
        vec![
            TokenKind::Assign,
            TokenKind::Colon,
            TokenKind::Less,
            TokenKind::Greater,
            TokenKind::Lparen,
            TokenKind::Rparen,
            TokenKind::Lbrace,
            TokenKind::Rbrace,
            TokenKind::Lbrack,
            TokenKind::Rbrack,
            TokenKind::ListSeparator(','),
            TokenKind::ListSeparator(';'),
            TokenKind::NamespaceScope("*".to_string()),
            TokenKind::Eof,
        ]
    );
}

#[test]
fn unknown_characters_are_invalid() {
    assert_eq!(kinds("@")[0], TokenKind::Invalid('@'));
    assert_eq!(kinds("\u{e9}")[0], TokenKind::Invalid('\u{e9}'));
    let tokens = scan_all("a @ b");
    assert_eq!(tokens[1].0, Token { kind: TokenKind::Invalid('@'), position: at(1, 3) });
    assert!(tokens[1].1.is_none());
    assert_eq!(tokens[2].0.position, at(1, 5));
}

#[test]
fn words_with_dots_digits_and_underscores() {
    assert_eq!(kinds("a.b_c.D9")[0], ident("a.b_c.D9"));
    assert_eq!(kinds("_x")[0], ident("_x"));
    assert_eq!(kinds("py.twisted")[0], TokenKind::NamespaceScope("py.twisted".to_string()));
    assert_eq!(kinds("map")[0], TokenKind::MapKeyword);
    assert_eq!(kinds("mapx")[0], ident("mapx"));
    assert_eq!(kinds("i64")[0], TokenKind::BaseType("i64".to_string()));
}

#[test]
fn line_breaks_of_every_form() {
    assert_eq!(scan_all("a\nb")[1].0.position, at(2, 1));
    assert_eq!(scan_all("a\rb")[1].0.position, at(2, 1));
    assert_eq!(scan_all("a\r\nb")[1].0.position, at(2, 1));
    assert_eq!(scan_all("a\n\r\n\rb")[1].0.position, at(4, 1));
    assert_eq!(scan_all("a\n\n  b")[1].0.position, at(3, 3));
    assert_eq!(scan_all("a\tb")[1].0.position, at(1, 3));
}

#[test]
fn skip_to_next_line_moves_behind_the_line_break() {
    let input: Vec<char> = "a b c\r\nd e\nf".chars().collect();
    let mut scanner = Scanner::new(&input);
    assert_eq!(scanner.scan().0.kind, ident("a"));
    scanner.skip_to_next_line();
    assert_eq!(scanner.scan().0, Token { kind: ident("d"), position: at(2, 1) });
    scanner.skip_to_next_line();
    assert_eq!(scanner.scan().0, Token { kind: ident("f"), position: at(3, 1) });
    scanner.skip_to_next_line();
    assert_eq!(scanner.scan().0, Token { kind: TokenKind::Eof, position: at(3, 2) });
    scanner.skip_to_next_line();
    assert!(scanner.scan().0.is_eof());
}

#[test]
fn saved_state_is_restored() {
    let input: Vec<char> = "a\n  b c".chars().collect();
    let mut scanner = Scanner::new(&input);
    assert_eq!(scanner.scan().0.kind, ident("a"));
    let state = scanner.save_state();
    let first = scanner.scan().0;
    assert_eq!(first, Token { kind: ident("b"), position: at(2, 3) });
    assert_eq!(scanner.scan().0.kind, ident("c"));
    scanner.restore_state(state);
    assert_eq!(scanner.scan().0, first);
    assert_eq!(scanner.position(), at(2, 4));
    assert_eq!(scanner.eof(), Token { kind: TokenKind::Eof, position: at(2, 4) });
}

#[test]
fn token_ranges_cover_what_is_no_space() {
    let source = "struct A { // c\n  1: list<i32> xs = [1, 2.5e3, 'q'] /* d */ # e\n}";
    let input: Vec<char> = source.chars().collect();
    let mut covered = vec![false; input.len()];
    let mut line_starts = vec![0usize];
    for (i, c) in input.iter().enumerate() {
        if *c == '\n' {
            line_starts.push(i + 1);
        }
    }
    for (token, _) in scan_all(source) {
        let range = token.range();
        assert_eq!(range.start.line, range.end.line);
        assert_eq!(range.start.column + token.kind.len() as u32, range.end.column);
        let base = line_starts[range.start.line as usize - 1];
        for column in range.start.column..range.end.column {
            covered[base + column as usize - 1] = true;
        }
    }
    for (i, c) in input.iter().enumerate() {
        if !c.is_whitespace() {
            assert!(covered[i], "character {} at offset {} is not covered", c, i);
        }
    }
}
