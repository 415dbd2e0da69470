//! What the parser computes, stated as functions from the input and a state
//! to a result and the next state.
//!
//! A state holds the scanner's offset, the end of the token consumed last, and
//! the errors found so far. Where a function calls itself again, on a later
//! state, the call stands behind a test that the state has moved on. The test
//! makes the definition well founded; it never fails, as the module
//! `progress` proves of each of them.

use vstd::prelude::*;
use crate::ast::{
    BaseTypeNodeView, ConstNodeView, ConstValueNodeView, CppIncludeNodeView, DefinitionNodeView,
    DocumentNodeView, EnumNodeView, EnumValueNodeView, ExceptionNodeView, ExtNodeView,
    FieldIdNodeView, FieldNodeView, FieldTypeView, FunctionNodeView, HeaderNodeView,
    IdentifierNodeView, IncludeNodeView, ListTypeNodeView, MapTypeNodeView, NamespaceNodeView,
    ServiceNodeView, SetTypeNodeView, StructNodeView, TypedefNodeView, UnionNodeView,
};
use crate::base::{ErrorView, Position, Range};
use crate::scanner::{
    lemma_point_bounds, lemma_position_monotonic, lemma_spec_scan, lemma_token_placed, next_line,
    position_at, spec_scan,
};
use crate::number::int_value;
use crate::token::{word_kind, TokenKindView, TokenView};

verus! {

/// The state of a parse.
pub struct ParseState {
    /// The offset of the next character that the scanner reads.
    pub offset: int,
    /// The end of the range of the token consumed last; the first point of a
    /// document before any token is consumed.
    pub prev_end: Position,
    /// The errors found so far, in the order in which they were found.
    pub errors: Seq<ErrorView>,
}

/// The state at the start of a parse.
pub open spec fn initial_state() -> ParseState {
    ParseState { offset: 0, prev_end: Position { line: 1, column: 1 }, errors: Seq::empty() }
}

/// `to` lies behind `from`, within the input.
pub open spec fn moved(input: Seq<char>, from: ParseState, to: ParseState) -> bool {
    from.offset < to.offset <= input.len()
}

/// The offset behind the comments that start at or behind `offset`.
pub open spec fn skip_comments(input: Seq<char>, offset: int) -> int
    decreases input.len() - offset,
{
    let s = spec_scan(input, offset);
    if s.kind.is_comment() && offset < s.end <= input.len() {
        skip_comments(input, s.end)
    } else {
        offset
    }
}

/// Skipping comments stays within the input and ends before a token that is
/// no comment.
pub proof fn lemma_skip_comments(input: Seq<char>, offset: int)
    requires
        0 <= offset <= input.len(),
    ensures
        offset <= skip_comments(input, offset) <= input.len(),
        !spec_scan(input, skip_comments(input, offset)).kind.is_comment(),
        skip_comments(input, skip_comments(input, offset)) == skip_comments(input, offset),
    decreases input.len() - offset,
{
    lemma_spec_scan(input, offset);
    let s = spec_scan(input, offset);
    if s.kind.is_comment() {
        lemma_skip_comments(input, s.end);
    }
}

/// The state with one more error.
pub open spec fn add_error(st: ParseState, message: Seq<char>, range: Range) -> ParseState {
    ParseState { errors: st.errors.push(ErrorView { range, message }), ..st }
}

/// The next token that is no comment, and the state behind the comments
/// before it: the token itself is not consumed.
#[verifier::opaque]
pub open spec fn peek(input: Seq<char>, st: ParseState) -> (TokenView, ParseState) {
    let offset = skip_comments(input, st.offset);
    (spec_scan(input, offset).token(input), ParseState { offset, ..st })
}

/// The next token that is no comment, consumed: the state stands behind it,
/// remembers its end, and holds the error that the scanner gave with it.
#[verifier::opaque]
pub open spec fn next_token(input: Seq<char>, st: ParseState) -> (TokenView, ParseState) {
    let s = spec_scan(input, skip_comments(input, st.offset));
    let token = s.token(input);
    (
        token,
        ParseState {
            offset: s.end,
            prev_end: token.end(),
            errors: match s.error(input) {
                Some(e) => st.errors.push(e),
                None => st.errors,
            },
        },
    )
}

/// Peeking twice is peeking once: the state behind the comments is its own
/// peek.
pub proof fn lemma_peek_again(input: Seq<char>, st: ParseState)
    requires
        0 <= st.offset <= input.len(),
    ensures
        peek(input, peek(input, st).1) == peek(input, st),
        next_token(input, peek(input, st).1) == next_token(input, st),
{
    reveal(peek);
    reveal(next_token);
    lemma_skip_comments(input, st.offset);
}

/// A token that was peeked and is not the end of input is consumed by the
/// next step, which moves on.
pub proof fn lemma_peek_then_next(input: Seq<char>, st: ParseState)
    requires
        0 <= st.offset <= input.len(),
    ensures
        next_token(input, st).0 == peek(input, st).0,
        st.offset <= peek(input, st).1.offset <= next_token(input, st).1.offset <= input.len(),
        !(peek(input, st).0.kind is Eof) ==> st.offset < next_token(input, st).1.offset,
        !(peek(input, st).0.kind is Eof) ==> peek(input, st).1.offset < input.len(),
{
    reveal(peek);
    reveal(next_token);
    lemma_skip_comments(input, st.offset);
    lemma_spec_scan(input, skip_comments(input, st.offset));
}

/// Which token is next depends on the offset alone.
pub proof fn lemma_token_by_offset(input: Seq<char>, a: ParseState, b: ParseState)
    requires
        a.offset == b.offset,
    ensures
        peek(input, a).0 == peek(input, b).0,
        peek(input, a).1.offset == peek(input, b).1.offset,
        next_token(input, a).0 == next_token(input, b).0,
        next_token(input, a).1.offset == next_token(input, b).1.offset,
{
    reveal(peek);
    reveal(next_token);
}

/// The token consumed last ends at or before the position of the scanner.
pub open spec fn ordered(input: Seq<char>, st: ParseState) -> bool {
    st.prev_end.leq(position_at(input, st.offset))
}

/// In an ordered state the next token starts at or behind the end of the
/// token consumed last, and its range fits and is in order. Consuming it
/// leaves an ordered state that remembers its end; peeking at it leaves an
/// ordered state.
pub proof fn lemma_next_placed(input: Seq<char>, st: ParseState)
    requires
        0 <= st.offset <= input.len(),
        input.len() < u32::MAX,
        ordered(input, st),
    ensures
        st.prev_end.leq(peek(input, st).0.position),
        peek(input, st).0.position.line >= 1,
        peek(input, st).0.position.column >= 1,
        peek(input, st).0.fits(),
        peek(input, st).0.range().wf(),
        ordered(input, peek(input, st).1),
        peek(input, st).1.prev_end == st.prev_end,
        next_token(input, st).1.prev_end == peek(input, st).0.end(),
        ordered(input, next_token(input, st).1),
{
    reveal(peek);
    reveal(next_token);
    lemma_skip_comments(input, st.offset);
    let o = skip_comments(input, st.offset);
    lemma_token_placed(input, o);
    lemma_spec_scan(input, o);
    lemma_point_bounds(input, spec_scan(input, o).start);
    lemma_point_bounds(input, st.offset);
    lemma_point_bounds(input, o);
    lemma_position_monotonic(input, st.offset, o);
}

/// Moving the scanner on leaves an ordered state ordered.
pub proof fn lemma_ordered_later(input: Seq<char>, st: ParseState, offset: int)
    requires
        0 <= st.offset <= offset <= input.len(),
        input.len() < u32::MAX,
        ordered(input, st),
    ensures
        ordered(input, ParseState { offset, ..st }),
{
    lemma_point_bounds(input, st.offset);
    lemma_point_bounds(input, offset);
    lemma_position_monotonic(input, st.offset, offset);
}

/// The message for a token found where `expected` should stand.
pub open spec fn expected_message(expected: Seq<char>, found: TokenKindView) -> Seq<char> {
    "Expected "@ + expected + ", but got "@ + found.text()
}

/// The state after `token` was found where `expected` should stand.
pub open spec fn unexpected(st: ParseState, expected: Seq<char>, token: TokenView) -> ParseState {
    add_error(st, expected_message(expected, token.kind), token.range())
}

/// Consumes the next token, which should be of `kind`; an error names
/// `expected` where it is not.
#[verifier::opaque]
pub open spec fn expect(input: Seq<char>, st: ParseState, kind: TokenKindView, expected: Seq<char>) -> (
    bool,
    ParseState,
) {
    let (token, st1) = next_token(input, st);
    if token.kind == kind {
        (true, st1)
    } else {
        (false, unexpected(st1, expected, token))
    }
}

/// Consumes a list separator, if one is next.
#[verifier::opaque]
pub open spec fn opt_list_separator(input: Seq<char>, st: ParseState) -> ParseState {
    let (token, st1) = peek(input, st);
    if token.kind is ListSeparator {
        next_token(input, st1).1
    } else {
        st1
    }
}

/// Whether a bracketed list ends here: the closing token `close` is consumed;
/// the end of input ends the list too, with an error.
#[verifier::opaque]
pub open spec fn at_close(input: Seq<char>, st: ParseState, close: TokenKindView) -> (
    bool,
    ParseState,
) {
    let (token, st1) = peek(input, st);
    if token.kind == close {
        (true, next_token(input, st1).1)
    } else if token.kind is Eof {
        (true, add_error(st1, "Unexpected end of file"@, token.range()))
    } else {
        (false, st1)
    }
}

/// Recovery inside a body: the scanner moves behind the end of the line.
#[verifier::opaque]
pub open spec fn recover_to_next_line(input: Seq<char>, st: ParseState) -> ParseState {
    ParseState { offset: next_line(input, st.offset), ..st }
}

/// A definition starts with one of these keywords.
pub open spec fn starts_definition(kind: TokenKindView) -> bool {
    kind is Const || kind is Typedef || kind is Enum || kind is Struct || kind is Union
        || kind is Exception || kind is Service
}

/// Recovery between definitions: tokens are consumed up to the next keyword
/// that starts a definition, or the end of input.
#[verifier::opaque]
pub open spec fn recover_to_next_definition(input: Seq<char>, st: ParseState) -> ParseState
    decreases input.len() - st.offset,
{
    let (token, st1) = peek(input, st);
    if token.kind is Eof || starts_definition(token.kind) {
        st1
    } else {
        let st2 = next_token(input, st1).1;
        if moved(input, st, st2) {
            recover_to_next_definition(input, st2)
        } else {
            st2
        }
    }
}

/// The range from the position of the token that is next in `from` to the end
/// of the token consumed last in `to`.
pub open spec fn span(input: Seq<char>, from: ParseState, to: ParseState) -> Range {
    Range { start: peek(input, from).0.position, end: to.prev_end }
}

/// Identifier ::= ( Letter | '_' ) ( Letter | Digit | '.' | '_' )*
///
/// A word of the language is accepted as a name too.
pub open spec fn parse_identifier(input: Seq<char>, st: ParseState) -> (
    Option<IdentifierNodeView>,
    ParseState,
) {
    let (token, st1) = next_token(input, st);
    match token.kind {
        TokenKindView::Identifier(name) => (
            Some(IdentifierNodeView { range: token.range(), name }),
            st1,
        ),
        _ => {
            let name = token.kind.text();
            if word_kind(name) is Some {
                (Some(IdentifierNodeView { range: token.range(), name }), st1)
            } else {
                (None, add_error(st1, "Invalid identifier: "@ + name, token.range()))
            }
        },
    }
}

/// KeyValuePair ::= Identifier '=' Literal ListSeparator?
pub open spec fn parse_key_value_pair(input: Seq<char>, st: ParseState) -> (
    Option<(Seq<char>, Seq<char>)>,
    ParseState,
) {
    let (token, st1) = next_token(input, st);
    match token.kind {
        TokenKindView::Identifier(key) => {
            let (ok, st2) = expect(input, st1, TokenKindView::Assign, "'='"@);
            if !ok {
                (None, st2)
            } else {
                let (token, st3) = next_token(input, st2);
                match token.kind {
                    TokenKindView::Literal(value) => (
                        Some((key, value)),
                        opt_list_separator(input, st3),
                    ),
                    _ => (None, unexpected(st3, "literal"@, token)),
                }
            }
        },
        _ => (None, unexpected(st1, "identifier"@, token)),
    }
}

/// The pairs of an annotation list up to its closing `)`; `None` where a pair
/// fails to parse.
pub open spec fn ext_pairs(input: Seq<char>, st: ParseState, acc: Seq<(Seq<char>, Seq<char>)>) -> (
    Option<Seq<(Seq<char>, Seq<char>)>>,
    ParseState,
)
    decreases input.len() - st.offset,
{
    let (done, st1) = at_close(input, st, TokenKindView::Rparen);
    if done {
        (Some(acc), st1)
    } else {
        let (pair, st2) = parse_key_value_pair(input, st1);
        match pair {
            Some(p) => if moved(input, st, st2) {
                ext_pairs(input, st2, acc.push(p))
            } else {
                (None, st2)
            },
            None => (None, st2),
        }
    }
}

/// Ext ::= '(' KeyValuePair* ')'
///
/// Absent where no `(` is next.
pub open spec fn opt_parse_ext(input: Seq<char>, st: ParseState) -> (
    Option<ExtNodeView>,
    ParseState,
) {
    let (token, st1) = peek(input, st);
    if !(token.kind is Lparen) {
        (None, st1)
    } else {
        let (ok, st2) = expect(input, st1, TokenKindView::Lparen, "'('"@);
        if !ok {
            (None, st2)
        } else {
            let (pairs, st3) = ext_pairs(input, st2, Seq::empty());
            match pairs {
                Some(kv_pairs) => (Some(ExtNodeView { range: span(input, st, st3), kv_pairs }), st3),
                None => (None, st3),
            }
        }
    }
}

/// Include ::= 'include' Literal
pub open spec fn parse_include(input: Seq<char>, st: ParseState) -> (
    Option<IncludeNodeView>,
    ParseState,
) {
    let (ok, st1) = expect(input, st, TokenKindView::Include, "'include'"@);
    if !ok {
        (None, st1)
    } else {
        let (token, st2) = next_token(input, st1);
        match token.kind {
            TokenKindView::Literal(literal) => (
                Some(IncludeNodeView { range: span(input, st, st2), literal }),
                st2,
            ),
            _ => (None, unexpected(st2, "literal"@, token)),
        }
    }
}

/// CppInclude ::= 'cpp_include' Literal
pub open spec fn parse_cpp_include(input: Seq<char>, st: ParseState) -> (
    Option<CppIncludeNodeView>,
    ParseState,
) {
    let (ok, st1) = expect(input, st, TokenKindView::CppInclude, "'cpp_include'"@);
    if !ok {
        (None, st1)
    } else {
        let (token, st2) = next_token(input, st1);
        match token.kind {
            TokenKindView::Literal(literal) => (
                Some(CppIncludeNodeView { range: span(input, st, st2), literal }),
                st2,
            ),
            _ => (None, unexpected(st2, "literal"@, token)),
        }
    }
}

/// Namespace ::= 'namespace' NamespaceScope Identifier Ext?
pub open spec fn parse_namespace(input: Seq<char>, st: ParseState) -> (
    Option<NamespaceNodeView>,
    ParseState,
) {
    let (ok, st1) = expect(input, st, TokenKindView::Namespace, "'namespace'"@);
    if !ok {
        (None, st1)
    } else {
        let (token, st2) = next_token(input, st1);
        match token.kind {
            TokenKindView::NamespaceScope(scope) => {
                let (identifier, st3) = parse_identifier(input, st2);
                match identifier {
                    Some(identifier) => {
                        let (ext, st4) = opt_parse_ext(input, st3);
                        (
                            Some(
                                NamespaceNodeView {
                                    range: span(input, st, st4),
                                    scope,
                                    identifier,
                                    ext,
                                },
                            ),
                            st4,
                        )
                    },
                    None => (None, st3),
                }
            },
            _ => (None, unexpected(st2, "namespace scope"@, token)),
        }
    }
}

/// One header, where one of the three header keywords is next; a header that
/// fails to parse is passed over to the end of its line.
pub open spec fn parse_header(input: Seq<char>, st: ParseState) -> (
    Option<HeaderNodeView>,
    ParseState,
) {
    let kind = peek(input, st).0.kind;
    let (node, st1) = if kind is Include {
        let (n, st1) = parse_include(input, st);
        (
            match n {
                Some(n) => Some(HeaderNodeView::Include(n)),
                None => None,
            },
            st1,
        )
    } else if kind is CppInclude {
        let (n, st1) = parse_cpp_include(input, st);
        (
            match n {
                Some(n) => Some(HeaderNodeView::CppInclude(n)),
                None => None,
            },
            st1,
        )
    } else {
        let (n, st1) = parse_namespace(input, st);
        (
            match n {
                Some(n) => Some(HeaderNodeView::Namespace(n)),
                None => None,
            },
            st1,
        )
    };
    match node {
        Some(n) => (Some(n), st1),
        None => (None, recover_to_next_line(input, st1)),
    }
}

/// Headers ::= ( Include | CppInclude | Namespace )*
pub open spec fn parse_headers(input: Seq<char>, st: ParseState, acc: Seq<HeaderNodeView>) -> (
    Seq<HeaderNodeView>,
    ParseState,
)
    decreases input.len() - st.offset,
{
    let (token, st1) = peek(input, st);
    if token.kind is Include || token.kind is CppInclude || token.kind is Namespace {
        let (node, st2) = parse_header(input, st1);
        let acc2 = match node {
            Some(n) => acc.push(n),
            None => acc,
        };
        if moved(input, st, st2) {
            parse_headers(input, st2, acc2)
        } else {
            (acc2, st2)
        }
    } else {
        (acc, st1)
    }
}

/// CppType ::= 'cpp_type' Identifier
///
/// Absent where no `cpp_type` is next, and where no identifier follows it.
pub open spec fn opt_parse_cpp_type(input: Seq<char>, st: ParseState) -> (
    Option<Seq<char>>,
    ParseState,
) {
    let (token, st1) = peek(input, st);
    if !(token.kind is CppType) {
        (None, st1)
    } else {
        let (ok, st2) = expect(input, st1, TokenKindView::CppType, "'cpp_type'"@);
        if !ok {
            (None, st2)
        } else {
            let (token, st3) = next_token(input, st2);
            match token.kind {
                TokenKindView::Identifier(name) => (Some(name), st3),
                _ => (None, unexpected(st3, "identifier"@, token)),
            }
        }
    }
}

/// FieldType ::= Identifier | DefinitionType
pub open spec fn parse_field_type(input: Seq<char>, st: ParseState) -> (
    Option<FieldTypeView>,
    ParseState,
)
    decreases input.len() - st.offset, 3int,
{
    let (token, st1) = peek(input, st);
    match token.kind {
        TokenKindView::Identifier(name) => (
            Some(FieldTypeView::Identifier(IdentifierNodeView { range: token.range(), name })),
            next_token(input, st1).1,
        ),
        _ => if st.offset <= st1.offset <= input.len() {
            parse_definition_type(input, st1)
        } else {
            (None, st1)
        },
    }
}

/// DefinitionType ::= BaseType | ContainerType
pub open spec fn parse_definition_type(input: Seq<char>, st: ParseState) -> (
    Option<FieldTypeView>,
    ParseState,
)
    decreases input.len() - st.offset, 2int,
{
    let (token, st1) = peek(input, st);
    match token.kind {
        TokenKindView::BaseType(name) => (
            Some(FieldTypeView::BaseType(BaseTypeNodeView { range: token.range(), name })),
            next_token(input, st1).1,
        ),
        _ => if st.offset <= st1.offset <= input.len() {
            parse_container_type(input, st1)
        } else {
            (None, st1)
        },
    }
}

/// ContainerType ::= MapType | SetType | ListType
pub open spec fn parse_container_type(input: Seq<char>, st: ParseState) -> (
    Option<FieldTypeView>,
    ParseState,
)
    decreases input.len() - st.offset, 1int,
{
    let (token, st1) = peek(input, st);
    if !(st.offset <= st1.offset <= input.len()) {
        (None, st1)
    } else if token.kind is MapKeyword {
        let (n, st2) = parse_map_type(input, st1);
        (
            match n {
                Some(n) => Some(FieldTypeView::MapType(n)),
                None => None,
            },
            st2,
        )
    } else if token.kind is SetKeyword {
        let (n, st2) = parse_set_type(input, st1);
        (
            match n {
                Some(n) => Some(FieldTypeView::SetType(n)),
                None => None,
            },
            st2,
        )
    } else if token.kind is List {
        let (n, st2) = parse_list_type(input, st1);
        (
            match n {
                Some(n) => Some(FieldTypeView::ListType(n)),
                None => None,
            },
            st2,
        )
    } else {
        (
            None,
            add_error(
                st1,
                "Expected map, set, or list, but got "@ + token.kind.text(),
                token.range(),
            ),
        )
    }
}

/// What opens a container type: its keyword, an optional `cpp_type`, and `<`.
pub open spec fn open_container(
    input: Seq<char>,
    st: ParseState,
    keyword: TokenKindView,
    name: Seq<char>,
) -> (bool, Option<Seq<char>>, ParseState) {
    let (ok, st1) = expect(input, st, keyword, name);
    if !ok {
        (false, None, st1)
    } else {
        let (cpp_type, st2) = opt_parse_cpp_type(input, st1);
        let (ok, st3) = expect(input, st2, TokenKindView::Less, "'<'"@);
        (ok, cpp_type, st3)
    }
}

/// MapType ::= 'map' CppType? '<' FieldType ',' FieldType '>'
pub open spec fn parse_map_type(input: Seq<char>, st: ParseState) -> (
    Option<MapTypeNodeView>,
    ParseState,
)
    decreases input.len() - st.offset, 0int,
{
    let (ok, cpp_type, st1) = open_container(input, st, TokenKindView::MapKeyword, "'map'"@);
    if !ok || !moved(input, st, st1) {
        (None, st1)
    } else {
        let (key, st2) = parse_field_type(input, st1);
        match key {
            Some(key) => {
                let (ok, st3) = expect(input, st2, TokenKindView::ListSeparator(','), "','"@);
                if !ok || !moved(input, st, st3) {
                    (None, st3)
                } else {
                    let (value, st4) = parse_field_type(input, st3);
                    match value {
                        Some(value) => {
                            let (ok, st5) = expect(input, st4, TokenKindView::Greater, "'>'"@);
                            if !ok {
                                (None, st5)
                            } else {
                                (
                                    Some(
                                        MapTypeNodeView {
                                            range: span(input, st, st5),
                                            cpp_type,
                                            key_type: Box::new(key),
                                            value_type: Box::new(value),
                                        },
                                    ),
                                    st5,
                                )
                            }
                        },
                        None => (None, st4),
                    }
                }
            },
            None => (None, st2),
        }
    }
}

/// SetType ::= 'set' CppType? '<' FieldType '>'
pub open spec fn parse_set_type(input: Seq<char>, st: ParseState) -> (
    Option<SetTypeNodeView>,
    ParseState,
)
    decreases input.len() - st.offset, 0int,
{
    let (ok, cpp_type, st1) = open_container(input, st, TokenKindView::SetKeyword, "'set'"@);
    if !ok || !moved(input, st, st1) {
        (None, st1)
    } else {
        let (element, st2) = parse_field_type(input, st1);
        match element {
            Some(element) => {
                let (ok, st3) = expect(input, st2, TokenKindView::Greater, "'>'"@);
                if !ok {
                    (None, st3)
                } else {
                    (
                        Some(
                            SetTypeNodeView {
                                range: span(input, st, st3),
                                cpp_type,
                                type_node: Box::new(element),
                            },
                        ),
                        st3,
                    )
                }
            },
            None => (None, st2),
        }
    }
}

/// ListType ::= 'list' CppType? '<' FieldType '>'
pub open spec fn parse_list_type(input: Seq<char>, st: ParseState) -> (
    Option<ListTypeNodeView>,
    ParseState,
)
    decreases input.len() - st.offset, 0int,
{
    let (ok, cpp_type, st1) = open_container(input, st, TokenKindView::List, "'list'"@);
    if !ok || !moved(input, st, st1) {
        (None, st1)
    } else {
        let (element, st2) = parse_field_type(input, st1);
        match element {
            Some(element) => {
                let (ok, st3) = expect(input, st2, TokenKindView::Greater, "'>'"@);
                if !ok {
                    (None, st3)
                } else {
                    (
                        Some(
                            ListTypeNodeView {
                                range: span(input, st, st3),
                                cpp_type,
                                type_node: Box::new(element),
                            },
                        ),
                        st3,
                    )
                }
            },
            None => (None, st2),
        }
    }
}

/// FunctionType ::= FieldType | 'void'
pub open spec fn parse_function_type(input: Seq<char>, st: ParseState) -> (
    Option<FieldTypeView>,
    ParseState,
) {
    let (token, st1) = peek(input, st);
    if token.kind is Void {
        (
            Some(FieldTypeView::BaseType(BaseTypeNodeView { range: token.range(), name: "void"@ })),
            next_token(input, st1).1,
        )
    } else {
        parse_field_type(input, st1)
    }
}

/// The texts in `parts`, with `separator` between each two.
pub open spec fn join(parts: Seq<Seq<char>>, separator: Seq<char>) -> Seq<char>
    decreases parts.len(),
{
    if parts.len() == 0 {
        Seq::empty()
    } else if parts.len() == 1 {
        parts[0]
    } else {
        join(parts.drop_last(), separator) + separator + parts.last()
    }
}

/// ConstValue ::= IntConstant | DoubleConstant | Literal | Identifier | ConstList | ConstMap
pub open spec fn parse_const_value(input: Seq<char>, st: ParseState) -> (
    Option<ConstValueNodeView>,
    ParseState,
)
    decreases input.len() - st.offset, 3int,
{
    let (token, st1) = peek(input, st);
    if !(st.offset <= st1.offset <= input.len()) {
        (None, st1)
    } else {
        match token.kind {
            TokenKindView::IntConstant(value) => (
                Some(ConstValueNodeView { range: token.range(), value }),
                next_token(input, st1).1,
            ),
            TokenKindView::DoubleConstant(value) => (
                Some(ConstValueNodeView { range: token.range(), value }),
                next_token(input, st1).1,
            ),
            TokenKindView::Literal(value) => (
                Some(ConstValueNodeView { range: token.range(), value }),
                next_token(input, st1).1,
            ),
            TokenKindView::Identifier(value) => (
                Some(ConstValueNodeView { range: token.range(), value }),
                next_token(input, st1).1,
            ),
            TokenKindView::Lbrack => parse_const_list(input, st1),
            TokenKindView::Lbrace => parse_const_map(input, st1),
            _ => (
                None,
                add_error(
                    next_token(input, st1).1,
                    "Expected constant value, but got "@ + token.kind.text(),
                    token.range(),
                ),
            ),
        }
    }
}

/// The values of a constant list up to its closing `]`, as texts; `None`
/// where a value fails to parse.
pub open spec fn const_list_values(input: Seq<char>, st: ParseState, acc: Seq<Seq<char>>) -> (
    Option<Seq<Seq<char>>>,
    ParseState,
)
    decreases input.len() - st.offset, 5int,
{
    let (done, st1) = at_close(input, st, TokenKindView::Rbrack);
    if done {
        (Some(acc), st1)
    } else if !(st.offset <= st1.offset <= input.len()) {
        (None, st1)
    } else {
        let (value, st2) = parse_const_value(input, st1);
        match value {
            Some(v) => {
                let st3 = opt_list_separator(input, st2);
                if moved(input, st, st3) {
                    const_list_values(input, st3, acc.push(v.value))
                } else {
                    (None, st3)
                }
            },
            None => (None, st2),
        }
    }
}

/// ConstList ::= '[' (ConstValue ListSeparator?)* ']'
pub open spec fn parse_const_list(input: Seq<char>, st: ParseState) -> (
    Option<ConstValueNodeView>,
    ParseState,
)
    decreases input.len() - st.offset, 2int,
{
    let (ok, st1) = expect(input, st, TokenKindView::Lbrack, "'['"@);
    if !ok || !moved(input, st, st1) {
        (None, st1)
    } else {
        let (values, st2) = const_list_values(input, st1, Seq::empty());
        match values {
            Some(values) => (
                Some(
                    ConstValueNodeView {
                        range: span(input, st, st2),
                        value: "["@ + join(values, ", "@) + "]"@,
                    },
                ),
                st2,
            ),
            None => (None, st2),
        }
    }
}

/// ConstMapValue ::= ConstValue ':' ConstValue ListSeparator?
pub open spec fn parse_const_map_value(input: Seq<char>, st: ParseState) -> (
    Option<(Seq<char>, Seq<char>)>,
    ParseState,
)
    decreases input.len() - st.offset, 4int,
{
    let (key, st1) = parse_const_value(input, st);
    match key {
        Some(key) => {
            let (ok, st2) = expect(input, st1, TokenKindView::Colon, "':'"@);
            if !ok || !moved(input, st, st2) {
                (None, st2)
            } else {
                let (value, st3) = parse_const_value(input, st2);
                match value {
                    Some(value) => (Some((key.value, value.value)), opt_list_separator(input, st3)),
                    None => (None, st3),
                }
            }
        },
        None => (None, st1),
    }
}

/// The pairs of a constant map up to its closing `}`, each as `key: value`;
/// `None` where a pair fails to parse.
pub open spec fn const_map_pairs(input: Seq<char>, st: ParseState, acc: Seq<Seq<char>>) -> (
    Option<Seq<Seq<char>>>,
    ParseState,
)
    decreases input.len() - st.offset, 5int,
{
    let (done, st1) = at_close(input, st, TokenKindView::Rbrace);
    if done {
        (Some(acc), st1)
    } else if !(st.offset <= st1.offset <= input.len()) {
        (None, st1)
    } else {
        let (pair, st2) = parse_const_map_value(input, st1);
        match pair {
            Some(p) => if moved(input, st, st2) {
                const_map_pairs(input, st2, acc.push(p.0 + ": "@ + p.1))
            } else {
                (None, st2)
            },
            None => (None, st2),
        }
    }
}

/// ConstMap ::= '{' ConstMapValue* '}'
pub open spec fn parse_const_map(input: Seq<char>, st: ParseState) -> (
    Option<ConstValueNodeView>,
    ParseState,
)
    decreases input.len() - st.offset, 2int,
{
    let (ok, st1) = expect(input, st, TokenKindView::Lbrace, "'{'"@);
    if !ok || !moved(input, st, st1) {
        (None, st1)
    } else {
        let (pairs, st2) = const_map_pairs(input, st1, Seq::empty());
        match pairs {
            Some(pairs) => (
                Some(
                    ConstValueNodeView {
                        range: span(input, st, st2),
                        value: "{"@ + join(pairs, ", "@) + "}"@,
                    },
                ),
                st2,
            ),
            None => (None, st2),
        }
    }
}

/// What stands before the type of a field: `FieldID? FieldReq?`, where
/// FieldID ::= IntConstant ':' and FieldReq ::= 'required' | 'optional'.
/// It fails where no `:` follows the number, and where a requiredness is
/// given twice.
pub open spec fn parse_field_lead(input: Seq<char>, st: ParseState) -> (
    bool,
    Option<FieldIdNodeView>,
    Option<Seq<char>>,
    ParseState,
) {
    let (token, st1) = peek(input, st);
    let (ok, field_id, first_req, st2) = match token.kind {
        TokenKindView::IntConstant(id) => {
            let (ok, st2) = expect(
                input,
                next_token(input, st1).1,
                TokenKindView::Colon,
                "':'"@,
            );
            (
                ok,
                Some(FieldIdNodeView { range: token.range(), id: int_value(id) as i32 }),
                None::<Seq<char>>,
                st2,
            )
        },
        TokenKindView::Required => (true, None, Some("required"@), next_token(input, st1).1),
        TokenKindView::Optional => (true, None, Some("optional"@), next_token(input, st1).1),
        _ => (true, None, None, st1),
    };
    if !ok {
        (false, field_id, first_req, st2)
    } else {
        let (token, st3) = peek(input, st2);
        if token.kind is Required || token.kind is Optional {
            if first_req is Some {
                (
                    false,
                    field_id,
                    first_req,
                    add_error(
                        st3,
                        "Expected field type, but got "@ + token.kind.text(),
                        token.range(),
                    ),
                )
            } else {
                (
                    true,
                    field_id,
                    Some(
                        if token.kind is Required {
                            "required"@
                        } else {
                            "optional"@
                        },
                    ),
                    next_token(input, st3).1,
                )
            }
        } else {
            (true, field_id, first_req, st3)
        }
    }
}

/// The default value of a field: `('=' ConstValue)?`. It fails where the
/// value behind `=` does.
pub open spec fn parse_default_value(input: Seq<char>, st: ParseState) -> (
    bool,
    Option<ConstValueNodeView>,
    ParseState,
) {
    let (token, st1) = peek(input, st);
    if token.kind is Assign {
        let (value, st2) = parse_const_value(input, next_token(input, st1).1);
        (value is Some, value, st2)
    } else {
        (true, None, st1)
    }
}

/// Field ::= FieldID? FieldReq? FieldType Identifier ('=' ConstValue)? Ext? ListSeparator?
pub open spec fn parse_field(input: Seq<char>, st: ParseState) -> (
    Option<FieldNodeView>,
    ParseState,
) {
    let (ok, field_id, field_req, st1) = parse_field_lead(input, st);
    if !ok {
        (None, st1)
    } else {
        let (field_type, st2) = parse_field_type(input, st1);
        match field_type {
            Some(field_type) => {
                let (identifier, st3) = parse_identifier(input, st2);
                match identifier {
                    Some(identifier) => {
                        let (ok, default_value, st4) = parse_default_value(input, st3);
                        if !ok {
                            (None, st4)
                        } else {
                            let (ext, st5) = opt_parse_ext(input, st4);
                            let st6 = opt_list_separator(input, st5);
                            (
                                Some(
                                    FieldNodeView {
                                        range: span(input, st, st6),
                                        field_id,
                                        field_req,
                                        field_type,
                                        identifier,
                                        default_value,
                                        ext,
                                    },
                                ),
                                st6,
                            )
                        }
                    },
                    None => (None, st3),
                }
            },
            None => (None, st2),
        }
    }
}

/// The fields of a body up to its closing `}`; a field that fails to parse is
/// passed over to the end of its line.
pub open spec fn body_fields(input: Seq<char>, st: ParseState, acc: Seq<FieldNodeView>) -> (
    Seq<FieldNodeView>,
    ParseState,
)
    decreases input.len() - st.offset,
{
    let (done, st1) = at_close(input, st, TokenKindView::Rbrace);
    if done {
        (acc, st1)
    } else {
        let (field, st2) = parse_field(input, st1);
        let (acc2, st3) = match field {
            Some(f) => (acc.push(f), st2),
            None => (acc, recover_to_next_line(input, st2)),
        };
        if moved(input, st, st3) {
            body_fields(input, st3, acc2)
        } else {
            (acc2, st3)
        }
    }
}

/// The fields of a parameter list up to its closing `)`; `None` where a field
/// fails to parse.
pub open spec fn list_fields(input: Seq<char>, st: ParseState, acc: Seq<FieldNodeView>) -> (
    Option<Seq<FieldNodeView>>,
    ParseState,
)
    decreases input.len() - st.offset,
{
    let (done, st1) = at_close(input, st, TokenKindView::Rparen);
    if done {
        (Some(acc), st1)
    } else {
        let (field, st2) = parse_field(input, st1);
        match field {
            Some(f) => if moved(input, st, st2) {
                list_fields(input, st2, acc.push(f))
            } else {
                (None, st2)
            },
            None => (None, st2),
        }
    }
}

/// The value of an enum value: `('=' IntConstant)?`. It fails where no
/// integer follows `=`.
pub open spec fn parse_enum_number(input: Seq<char>, st: ParseState) -> (
    bool,
    Option<i32>,
    ParseState,
) {
    let (token, st1) = peek(input, st);
    if token.kind is Assign {
        let (token, st2) = next_token(input, next_token(input, st1).1);
        match token.kind {
            TokenKindView::IntConstant(v) => (true, Some(int_value(v) as i32), st2),
            _ => (false, None, unexpected(st2, "integer constant"@, token)),
        }
    } else {
        (true, None, st1)
    }
}

/// EnumValue ::= Identifier ('=' IntConstant)? Ext? ListSeparator?
pub open spec fn parse_enum_value(input: Seq<char>, st: ParseState) -> (
    Option<EnumValueNodeView>,
    ParseState,
) {
    let (token, st1) = next_token(input, st);
    match token.kind {
        TokenKindView::Identifier(name) => {
            let (ok, value, st2) = parse_enum_number(input, st1);
            if !ok {
                (None, st2)
            } else {
                let (ext, st3) = opt_parse_ext(input, st2);
                let st4 = opt_list_separator(input, st3);
                (Some(EnumValueNodeView { range: span(input, st, st4), name, value, ext }), st4)
            }
        },
        _ => (None, unexpected(st1, "identifier"@, token)),
    }
}

/// The values of an enum up to its closing `}`; a value that fails to parse
/// is passed over to the end of its line.
pub open spec fn enum_values(input: Seq<char>, st: ParseState, acc: Seq<EnumValueNodeView>) -> (
    Seq<EnumValueNodeView>,
    ParseState,
)
    decreases input.len() - st.offset,
{
    let (done, st1) = at_close(input, st, TokenKindView::Rbrace);
    if done {
        (acc, st1)
    } else {
        let (value, st2) = parse_enum_value(input, st1);
        let (acc2, st3) = match value {
            Some(v) => (acc.push(v), st2),
            None => (acc, recover_to_next_line(input, st2)),
        };
        if moved(input, st, st3) {
            enum_values(input, st3, acc2)
        } else {
            (acc2, st3)
        }
    }
}

/// What opens a definition with a body: its keyword, its name, and `{`.
pub open spec fn open_body(input: Seq<char>, st: ParseState, keyword: TokenKindView, name: Seq<char>) -> (
    Option<IdentifierNodeView>,
    ParseState,
) {
    let (ok, st1) = expect(input, st, keyword, name);
    if !ok {
        (None, st1)
    } else {
        let (identifier, st2) = parse_identifier(input, st1);
        match identifier {
            Some(identifier) => {
                let (ok, st3) = expect(input, st2, TokenKindView::Lbrace, "'{'"@);
                if ok {
                    (Some(identifier), st3)
                } else {
                    (None, st3)
                }
            },
            None => (None, st2),
        }
    }
}

/// Const ::= 'const' FieldType Identifier '=' ConstValue ListSeparator?
pub open spec fn parse_const(input: Seq<char>, st: ParseState) -> (
    Option<ConstNodeView>,
    ParseState,
) {
    let (ok, st1) = expect(input, st, TokenKindView::Const, "'const'"@);
    if !ok {
        (None, st1)
    } else {
        let (field_type, st2) = parse_field_type(input, st1);
        match field_type {
            Some(field_type) => {
                let (identifier, st3) = parse_identifier(input, st2);
                match identifier {
                    Some(identifier) => {
                        let (ok, st4) = expect(input, st3, TokenKindView::Assign, "'='"@);
                        if !ok {
                            (None, st4)
                        } else {
                            let (value, st5) = parse_const_value(input, st4);
                            match value {
                                Some(value) => {
                                    let st6 = opt_list_separator(input, st5);
                                    (
                                        Some(
                                            ConstNodeView {
                                                range: span(input, st, st6),
                                                field_type,
                                                identifier,
                                                value,
                                            },
                                        ),
                                        st6,
                                    )
                                },
                                None => (None, st5),
                            }
                        }
                    },
                    None => (None, st3),
                }
            },
            None => (None, st2),
        }
    }
}

/// Typedef ::= 'typedef' DefinitionType Identifier
pub open spec fn parse_typedef(input: Seq<char>, st: ParseState) -> (
    Option<TypedefNodeView>,
    ParseState,
) {
    let (ok, st1) = expect(input, st, TokenKindView::Typedef, "'typedef'"@);
    if !ok {
        (None, st1)
    } else {
        let (definition_type, st2) = parse_definition_type(input, st1);
        match definition_type {
            Some(definition_type) => {
                let (identifier, st3) = parse_identifier(input, st2);
                match identifier {
                    Some(identifier) => (
                        Some(
                            TypedefNodeView {
                                range: span(input, st, st3),
                                definition_type,
                                identifier,
                            },
                        ),
                        st3,
                    ),
                    None => (None, st3),
                }
            },
            None => (None, st2),
        }
    }
}

/// Enum ::= 'enum' Identifier '{' EnumValue* '}'
pub open spec fn parse_enum(input: Seq<char>, st: ParseState) -> (
    Option<EnumNodeView>,
    ParseState,
) {
    let (identifier, st1) = open_body(input, st, TokenKindView::Enum, "'enum'"@);
    match identifier {
        Some(identifier) => {
            let (values, st2) = enum_values(input, st1, Seq::empty());
            (Some(EnumNodeView { range: span(input, st, st2), identifier, values }), st2)
        },
        None => (None, st1),
    }
}

/// Struct ::= 'struct' Identifier '{' Field* '}' Ext?
pub open spec fn parse_struct(input: Seq<char>, st: ParseState) -> (
    Option<StructNodeView>,
    ParseState,
) {
    let (identifier, st1) = open_body(input, st, TokenKindView::Struct, "'struct'"@);
    match identifier {
        Some(identifier) => {
            let (fields, st2) = body_fields(input, st1, Seq::empty());
            let (ext, st3) = opt_parse_ext(input, st2);
            (Some(StructNodeView { range: span(input, st, st3), identifier, fields, ext }), st3)
        },
        None => (None, st1),
    }
}

/// Union ::= 'union' Identifier '{' Field* '}'
pub open spec fn parse_union(input: Seq<char>, st: ParseState) -> (
    Option<UnionNodeView>,
    ParseState,
) {
    let (identifier, st1) = open_body(input, st, TokenKindView::Union, "'union'"@);
    match identifier {
        Some(identifier) => {
            let (fields, st2) = body_fields(input, st1, Seq::empty());
            (Some(UnionNodeView { range: span(input, st, st2), identifier, fields }), st2)
        },
        None => (None, st1),
    }
}

/// Exception ::= 'exception' Identifier '{' Field* '}'
pub open spec fn parse_exception(input: Seq<char>, st: ParseState) -> (
    Option<ExceptionNodeView>,
    ParseState,
) {
    let (identifier, st1) = open_body(input, st, TokenKindView::Exception, "'exception'"@);
    match identifier {
        Some(identifier) => {
            let (fields, st2) = body_fields(input, st1, Seq::empty());
            (Some(ExceptionNodeView { range: span(input, st, st2), identifier, fields }), st2)
        },
        None => (None, st1),
    }
}

/// Throws ::= 'throws' '(' Field* ')'
pub open spec fn parse_throws(input: Seq<char>, st: ParseState) -> (
    Option<Seq<FieldNodeView>>,
    ParseState,
) {
    let (ok, st1) = expect(input, st, TokenKindView::Throws, "'throws'"@);
    if !ok {
        (None, st1)
    } else {
        let (ok, st2) = expect(input, st1, TokenKindView::Lparen, "'('"@);
        if !ok {
            (None, st2)
        } else {
            list_fields(input, st2, Seq::empty())
        }
    }
}

/// What opens a function: `'oneway'? FunctionType Identifier '('`.
pub open spec fn parse_function_head(input: Seq<char>, st: ParseState) -> (
    Option<(bool, FieldTypeView, IdentifierNodeView)>,
    ParseState,
) {
    let (token, st1) = peek(input, st);
    let is_oneway = token.kind is Oneway;
    let st2 = if is_oneway {
        next_token(input, st1).1
    } else {
        st1
    };
    let (function_type, st3) = parse_function_type(input, st2);
    match function_type {
        Some(function_type) => {
            let (identifier, st4) = parse_identifier(input, st3);
            match identifier {
                Some(identifier) => {
                    let (ok, st5) = expect(input, st4, TokenKindView::Lparen, "'('"@);
                    if ok {
                        (Some((is_oneway, function_type, identifier)), st5)
                    } else {
                        (None, st5)
                    }
                },
                None => (None, st4),
            }
        },
        None => (None, st3),
    }
}

/// The exceptions of a function: `Throws?`. It fails where the list behind
/// `throws` does.
pub open spec fn opt_parse_throws(input: Seq<char>, st: ParseState) -> (
    bool,
    Option<Seq<FieldNodeView>>,
    ParseState,
) {
    let (token, st1) = peek(input, st);
    if token.kind is Throws {
        let (throws, st2) = parse_throws(input, st1);
        (throws is Some, throws, st2)
    } else {
        (true, None, st1)
    }
}

/// Function ::= 'oneway'? FunctionType Identifier '(' Field* ')' Throws? Ext? ListSeparator?
pub open spec fn parse_function(input: Seq<char>, st: ParseState) -> (
    Option<FunctionNodeView>,
    ParseState,
) {
    let (head, st1) = parse_function_head(input, st);
    match head {
        Some((is_oneway, function_type, identifier)) => {
            let (fields, st2) = list_fields(input, st1, Seq::empty());
            match fields {
                Some(fields) => {
                    let (ok, throws, st3) = opt_parse_throws(input, st2);
                    if !ok {
                        (None, st3)
                    } else {
                        let (ext, st4) = opt_parse_ext(input, st3);
                        let st5 = opt_list_separator(input, st4);
                        (
                            Some(
                                FunctionNodeView {
                                    range: span(input, st, st5),
                                    is_oneway,
                                    function_type,
                                    identifier,
                                    fields,
                                    throws,
                                    ext,
                                },
                            ),
                            st5,
                        )
                    }
                },
                None => (None, st2),
            }
        },
        None => (None, st1),
    }
}

/// The functions of a service up to its closing `}`; a function that fails to
/// parse is passed over to the end of its line.
pub open spec fn service_functions(
    input: Seq<char>,
    st: ParseState,
    acc: Seq<FunctionNodeView>,
) -> (Seq<FunctionNodeView>, ParseState)
    decreases input.len() - st.offset,
{
    let (done, st1) = at_close(input, st, TokenKindView::Rbrace);
    if done {
        (acc, st1)
    } else {
        let (function, st2) = parse_function(input, st1);
        let (acc2, st3) = match function {
            Some(f) => (acc.push(f), st2),
            None => (acc, recover_to_next_line(input, st2)),
        };
        if moved(input, st, st3) {
            service_functions(input, st3, acc2)
        } else {
            (acc2, st3)
        }
    }
}

/// The service that a service extends: `('extends' Identifier)?`. It fails
/// where no identifier follows `extends`.
pub open spec fn parse_extends(input: Seq<char>, st: ParseState) -> (
    bool,
    Option<IdentifierNodeView>,
    ParseState,
) {
    let (token, st1) = peek(input, st);
    if token.kind is Extends {
        let (token, st2) = next_token(input, next_token(input, st1).1);
        match token.kind {
            TokenKindView::Identifier(name) => (
                true,
                Some(IdentifierNodeView { range: token.range(), name }),
                st2,
            ),
            _ => (false, None, unexpected(st2, "identifier"@, token)),
        }
    } else {
        (true, None, st1)
    }
}

/// Service ::= 'service' Identifier ( 'extends' Identifier )? '{' Function* '}'
pub open spec fn parse_service(input: Seq<char>, st: ParseState) -> (
    Option<ServiceNodeView>,
    ParseState,
) {
    let (ok, st1) = expect(input, st, TokenKindView::Service, "'service'"@);
    if !ok {
        (None, st1)
    } else {
        let (identifier, st2) = parse_identifier(input, st1);
        match identifier {
            Some(identifier) => {
                let (ok, extends, st3) = parse_extends(input, st2);
                if !ok {
                    (None, st3)
                } else {
                    let (ok, st4) = expect(input, st3, TokenKindView::Lbrace, "'{'"@);
                    if !ok {
                        (None, st4)
                    } else {
                        let (functions, st5) = service_functions(input, st4, Seq::empty());
                        (
                            Some(
                                ServiceNodeView {
                                    range: span(input, st, st5),
                                    identifier,
                                    extends,
                                    functions,
                                },
                            ),
                            st5,
                        )
                    }
                }
            },
            None => (None, st2),
        }
    }
}

/// One definition, where a keyword that starts one is next.
pub open spec fn parse_definition(input: Seq<char>, st: ParseState) -> (
    Option<DefinitionNodeView>,
    ParseState,
) {
    let kind = peek(input, st).0.kind;
    if kind is Const {
        let (n, st1) = parse_const(input, st);
        (
            match n {
                Some(n) => Some(DefinitionNodeView::Const(n)),
                None => None,
            },
            st1,
        )
    } else if kind is Typedef {
        let (n, st1) = parse_typedef(input, st);
        (
            match n {
                Some(n) => Some(DefinitionNodeView::Typedef(n)),
                None => None,
            },
            st1,
        )
    } else if kind is Enum {
        let (n, st1) = parse_enum(input, st);
        (
            match n {
                Some(n) => Some(DefinitionNodeView::Enum(n)),
                None => None,
            },
            st1,
        )
    } else if kind is Struct {
        let (n, st1) = parse_struct(input, st);
        (
            match n {
                Some(n) => Some(DefinitionNodeView::Struct(n)),
                None => None,
            },
            st1,
        )
    } else if kind is Union {
        let (n, st1) = parse_union(input, st);
        (
            match n {
                Some(n) => Some(DefinitionNodeView::Union(n)),
                None => None,
            },
            st1,
        )
    } else if kind is Exception {
        let (n, st1) = parse_exception(input, st);
        (
            match n {
                Some(n) => Some(DefinitionNodeView::Exception(n)),
                None => None,
            },
            st1,
        )
    } else {
        let (n, st1) = parse_service(input, st);
        (
            match n {
                Some(n) => Some(DefinitionNodeView::Service(n)),
                None => None,
            },
            st1,
        )
    }
}

/// One step between definitions, where a token other than the end of input
/// is next: a definition is parsed where a keyword starts one, and what fails
/// to parse, or starts none, is passed over up to the next such keyword.
pub open spec fn parse_definition_or_recover(input: Seq<char>, st: ParseState) -> (
    Option<DefinitionNodeView>,
    ParseState,
) {
    let token = peek(input, st).0;
    if starts_definition(token.kind) {
        let (node, st1) = parse_definition(input, st);
        match node {
            Some(n) => (Some(n), st1),
            None => (None, recover_to_next_definition(input, st1)),
        }
    } else {
        let st1 = add_error(st, "Unexpected token: "@ + token.kind.text(), token.range());
        (None, recover_to_next_definition(input, next_token(input, st1).1))
    }
}

/// Definitions ::= ( Const | Typedef | Enum | Struct | Union | Exception | Service )*
pub open spec fn parse_definitions(
    input: Seq<char>,
    st: ParseState,
    acc: Seq<DefinitionNodeView>,
) -> (Seq<DefinitionNodeView>, ParseState)
    decreases input.len() - st.offset,
{
    let (token, st1) = peek(input, st);
    if token.kind is Eof {
        (acc, st1)
    } else {
        let (node, st2) = parse_definition_or_recover(input, st1);
        let acc2 = match node {
            Some(n) => acc.push(n),
            None => acc,
        };
        if moved(input, st, st2) {
            parse_definitions(input, st2, acc2)
        } else {
            (acc2, st2)
        }
    }
}

/// Document ::= Header* Definition*
///
/// The document's range starts at its first token and ends with the token
/// consumed last; a document without tokens has an empty range at its end.
pub open spec fn parse_document(input: Seq<char>) -> (DocumentNodeView, Seq<ErrorView>) {
    let (token, st0) = peek(input, initial_state());
    let (headers, st1) = parse_headers(input, st0, Seq::empty());
    let (definitions, st2) = parse_definitions(input, st1, Seq::empty());
    (
        DocumentNodeView {
            range: Range { start: token.position, end: token.position.later(st2.prev_end) },
            headers,
            definitions,
        },
        st2.errors,
    )
}

} // verus!
