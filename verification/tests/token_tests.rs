use thrift_analyzer::base::{Position, Range};
use thrift_analyzer::token::{Token, TokenKind};

fn at(line: u32, column: u32) -> Position {
    Position { line, column }
}

#[test]
fn keyword_lengths_are_fixed() {
    assert_eq!(TokenKind::Include.len(), 7);
    assert_eq!(TokenKind::CppInclude.len(), 11);
    assert_eq!(TokenKind::Namespace.len(), 9);
    assert_eq!(TokenKind::Const.len(), 5);
    assert_eq!(TokenKind::Typedef.len(), 7);
    assert_eq!(TokenKind::Enum.len(), 4);
    assert_eq!(TokenKind::Struct.len(), 6);
    assert_eq!(TokenKind::Union.len(), 5);
    assert_eq!(TokenKind::Exception.len(), 9);
    assert_eq!(TokenKind::Service.len(), 7);
    assert_eq!(TokenKind::Required.len(), 8);
    assert_eq!(TokenKind::Optional.len(), 8);
    assert_eq!(TokenKind::Oneway.len(), 6);
    assert_eq!(TokenKind::Void.len(), 4);
    assert_eq!(TokenKind::Throws.len(), 6);
    assert_eq!(TokenKind::Extends.len(), 7);
    assert_eq!(TokenKind::MapKeyword.len(), 3);
    assert_eq!(TokenKind::SetKeyword.len(), 3);
    assert_eq!(TokenKind::List.len(), 4);
    assert_eq!(TokenKind::CppType.len(), 8);
    assert_eq!(TokenKind::Assign.len(), 1);
    assert_eq!(TokenKind::Eof.len(), 0);
}

#[test]
fn text_lengths_count_marks_and_quotes() {
    assert_eq!(TokenKind::Comment(" hi".to_string()).len(), 5);
    assert_eq!(TokenKind::BlockComment(" hi ".to_string()).len(), 8);
    assert_eq!(TokenKind::PoundComment(" hi".to_string()).len(), 4);
    assert_eq!(TokenKind::Literal("abc".to_string()).len(), 5);
    assert_eq!(TokenKind::Identifier("abc".to_string()).len(), 3);
    assert_eq!(TokenKind::IntConstant("-12".to_string()).len(), 3);
    assert_eq!(TokenKind::DoubleConstant("1.5".to_string()).len(), 3);
    assert_eq!(TokenKind::InvalidString("".to_string()).len(), 0);
    assert_eq!(TokenKind::ListSeparator(',').len(), 1);
    assert_eq!(TokenKind::Invalid('@').len(), 1);
}

#[test]
fn length_counts_characters_not_bytes() {
    assert_eq!(TokenKind::Literal("h\u{e9}llo".to_string()).len(), 7);
}

#[test]
fn words_of_the_language() {
    assert_eq!(TokenKind::from_string("include"), Some(TokenKind::Include));
    assert_eq!(TokenKind::from_string("cpp_include"), Some(TokenKind::CppInclude));
    assert_eq!(TokenKind::from_string("map"), Some(TokenKind::MapKeyword));
    assert_eq!(TokenKind::from_string("set"), Some(TokenKind::SetKeyword));
    assert_eq!(TokenKind::from_string("list"), Some(TokenKind::List));
    assert_eq!(TokenKind::from_string("cpp_type"), Some(TokenKind::CppType));
    assert_eq!(
        TokenKind::from_string("py.twisted"),
        Some(TokenKind::NamespaceScope("py.twisted".to_string()))
    );
    assert_eq!(TokenKind::from_string("go"), Some(TokenKind::NamespaceScope("go".to_string())));
    assert_eq!(TokenKind::from_string("rs"), Some(TokenKind::NamespaceScope("rs".to_string())));
    assert_eq!(TokenKind::from_string("i32"), Some(TokenKind::BaseType("i32".to_string())));
    assert_eq!(TokenKind::from_string("uuid"), Some(TokenKind::BaseType("uuid".to_string())));
    assert_eq!(TokenKind::from_string("binary"), Some(TokenKind::BaseType("binary".to_string())));
    assert_eq!(TokenKind::from_string("Include"), None);
    assert_eq!(TokenKind::from_string("foo"), None);
    assert_eq!(TokenKind::from_string(""), None);
    assert_eq!(TokenKind::from_string("i128"), None);
}

#[test]
fn characters_of_the_language() {
    assert_eq!(TokenKind::from_char('='), Some(TokenKind::Assign));
    assert_eq!(TokenKind::from_char(':'), Some(TokenKind::Colon));
    assert_eq!(TokenKind::from_char('<'), Some(TokenKind::Less));
    assert_eq!(TokenKind::from_char('>'), Some(TokenKind::Greater));
    assert_eq!(TokenKind::from_char('('), Some(TokenKind::Lparen));
    assert_eq!(TokenKind::from_char(')'), Some(TokenKind::Rparen));
    assert_eq!(TokenKind::from_char('{'), Some(TokenKind::Lbrace));
    assert_eq!(TokenKind::from_char('}'), Some(TokenKind::Rbrace));
    assert_eq!(TokenKind::from_char('['), Some(TokenKind::Lbrack));
    assert_eq!(TokenKind::from_char(']'), Some(TokenKind::Rbrack));
    assert_eq!(TokenKind::from_char(','), Some(TokenKind::ListSeparator(',')));
    assert_eq!(TokenKind::from_char(';'), Some(TokenKind::ListSeparator(';')));
    assert_eq!(TokenKind::from_char('*'), Some(TokenKind::NamespaceScope("*".to_string())));
    assert_eq!(TokenKind::from_char('@'), None);
    assert_eq!(TokenKind::from_char('a'), None);
}

#[test]
fn token_predicates() {
    let eof = Token { kind: TokenKind::Eof, position: at(1, 1) };
    assert!(eof.is_eof());
    assert!(!eof.is_invalid());
    assert!(!eof.is_comment());
    let invalid = Token { kind: TokenKind::Invalid('@'), position: at(1, 1) };
    assert!(invalid.is_invalid());
    let invalid = Token { kind: TokenKind::InvalidString("x".to_string()), position: at(1, 1) };
    assert!(invalid.is_invalid());
    for kind in [
        TokenKind::Comment("a".to_string()),
        TokenKind::BlockComment("a".to_string()),
        TokenKind::PoundComment("a".to_string()),
    ] {
        assert!(Token { kind, position: at(1, 1) }.is_comment());
    }
    assert!(Token { kind: TokenKind::ListSeparator(';'), position: at(1, 1) }.is_line_separator());
    assert!(!Token { kind: TokenKind::Colon, position: at(1, 1) }.is_line_separator());
}

#[test]
fn token_range_ends_its_width_further_on_the_line() {
    let token = Token { kind: TokenKind::Identifier("Point".to_string()), position: at(3, 8) };
    let range = token.range();
    assert_eq!(range, Range { start: at(3, 8), end: at(3, 13) });
    assert_eq!(range.start.column + token.kind.len() as u32, range.end.column);
    assert_eq!(range.start.line, range.end.line);
}

#[test]
fn token_text_names_the_token() {
    assert_eq!(TokenKind::Include.text(), "include");
    assert_eq!(TokenKind::Lbrace.text(), "{");
    assert_eq!(TokenKind::Comment(" a".to_string()).text(), "// a");
    assert_eq!(TokenKind::BlockComment(" a ".to_string()).text(), "/* a */");
    assert_eq!(TokenKind::PoundComment(" a".to_string()).text(), "# a");
    assert_eq!(TokenKind::Literal("lit".to_string()).text(), "lit");
    assert_eq!(TokenKind::ListSeparator(',').text(), ",");
    assert_eq!(TokenKind::Eof.text(), "<EOF>");
}

#[test]
fn same_kind_compares_kind_and_text() {
    assert!(TokenKind::Include.same_as(&TokenKind::Include));
    assert!(!TokenKind::Include.same_as(&TokenKind::CppInclude));
    assert!(TokenKind::Identifier("a".to_string()).same_as(&TokenKind::Identifier("a".to_string())));
    assert!(!TokenKind::Identifier("a".to_string()).same_as(&TokenKind::Identifier("b".to_string())));
    assert!(!TokenKind::Identifier("a".to_string()).same_as(&TokenKind::Literal("a".to_string())));
    assert!(TokenKind::ListSeparator(',').same_as(&TokenKind::ListSeparator(',')));
    assert!(!TokenKind::ListSeparator(',').same_as(&TokenKind::ListSeparator(';')));
}

#[test]
fn default_position_is_the_first_point() {
    assert_eq!(Position::default(), at(1, 1));
    assert_eq!(Token::default(), Token { kind: TokenKind::Eof, position: at(1, 1) });
}

#[test]
fn positions_are_ordered_by_line_then_column() {
    assert!(at(1, 9).at_or_before(&at(2, 1)));
    assert!(at(2, 1).at_or_before(&at(2, 1)));
    assert!(!at(2, 2).at_or_before(&at(2, 1)));
    assert_eq!(at(2, 2).later_of(at(2, 1)), at(2, 2));
    assert_eq!(at(1, 5).later_of(at(2, 1)), at(2, 1));
    let range = Range { start: at(2, 3), end: at(4, 1) };
    assert!(range.contains(at(2, 3)));
    assert!(range.contains(at(3, 100)));
    assert!(range.contains(at(4, 1)));
    assert!(!range.contains(at(2, 2)));
    assert!(!range.contains(at(4, 2)));
}
