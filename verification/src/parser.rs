//! The parser: recursive descent over the scanner, with recovery.
//!
//! Every function here computes what the function of the same name in
//! `grammar` states. A node that it returns is well formed, starts where the
//! next token stood and ends where the token consumed last ends.

use vstd::prelude::*;
use vstd::string::*;
use std::rc::Rc;
use crate::ast::{
    BaseTypeNode, ConstNode, ConstValueNode, CppIncludeNode, DefinitionNode, DocumentNode,
    EnumNode, EnumValueNode, ExceptionNode, ExtNode, FieldIdNode, FieldNode, FieldTypeNode,
    FunctionNode, HeaderNode, IdentifierNode, IncludeNode, ListTypeNode, MapTypeNode,
    NamespaceNode, ServiceNode, SetTypeNode, StructNode, TypedefNode, UnionNode,
};
use crate::base::{Error, ErrorView, Position, Range};
use crate::grammar;
use crate::grammar::ParseState;
use crate::number::parse_int;
use crate::scanner::{lemma_spec_scan, Scanner};
use crate::text::{concat3, concat_str};
use crate::token::{lemma_eof_is_no_word, lemma_text_len, Token, TokenKind};

verus! {

/// A parser for one document.
pub struct Parser<'a> {
    scanner: Scanner<'a>,
    errors: Vec<Error>,
    prev_end: Position,
}

impl<'a> Parser<'a> {
    /// The characters that the parser reads.
    pub closed spec fn source(&self) -> Seq<char> {
        self.scanner.source()
    }

    /// The state of the parse.
    pub closed spec fn state(&self) -> ParseState {
        ParseState {
            offset: self.scanner.offset(),
            prev_end: self.prev_end,
            errors: self.errors.deep_view(),
        }
    }

    /// The parser stands at a place in its input, behind the end of the token
    /// that it consumed last.
    pub closed spec fn wf(&self) -> bool {
        &&& self.scanner.wf()
        &&& 0 <= self.scanner.offset() <= self.scanner.source().len()
        &&& grammar::ordered(self.source(), self.state())
    }

    /// `self` is a later state of the parse that `before` was in.
    pub closed spec fn follows(&self, before: &Parser) -> bool {
        &&& self.wf()
        &&& self.source() == before.source()
        &&& 0 <= before.state().offset <= self.state().offset <= self.source().len()
        &&& before.state().prev_end.leq(self.state().prev_end)
    }

    /// The position of the next token that is no comment.
    pub closed spec fn next_start(&self) -> Position {
        grammar::peek(self.source(), self.state()).0.position
    }

    /// `range` runs from the token that was next in `before` to the end of the
    /// token consumed last.
    pub closed spec fn spans(&self, before: &Parser, range: Range) -> bool {
        &&& range.start == before.next_start()
        &&& before.state().prev_end.leq(range.start)
        &&& range.end == self.state().prev_end
    }

    /// `range` lies between the end of the token consumed last in `before` and
    /// the end of the token consumed last now.
    pub closed spec fn holds(&self, before: &Parser, range: Range) -> bool {
        &&& before.state().prev_end.leq(range.start)
        &&& range.end.leq(self.state().prev_end)
    }

    /// Since `before` a token was consumed, or the same token is still next.
    pub closed spec fn anchored(&self, before: &Parser) -> bool {
        before.next_start().leq(self.state().prev_end) || self.next_start() == before.next_start()
    }

    /// A parser that is well formed follows itself, and its next token starts
    /// at or behind the end of the token consumed last.
    proof fn lemma_follows_self(&self)
        requires
            self.wf(),
        ensures
            self.follows(self),
            self.state().prev_end.leq(self.next_start()),
    {
        grammar::lemma_next_placed(self.source(), self.state());
    }

    /// A parser at the start of `input`.
    pub fn new(input: &'a [char]) -> (r: Parser<'a>)
        requires
            input@.len() < u32::MAX,
        ensures
            r.wf(),
            r.source() == input@,
            r.state() == grammar::initial_state(),
    {
        let errors: Vec<Error> = Vec::new();
        assert(errors.deep_view() =~= Seq::<ErrorView>::empty());
        let scanner = Scanner::new(input);
        proof {
            scanner.state().lemma_valid(scanner.source());
        }
        Parser { scanner, errors, prev_end: Position { line: 1, column: 1 } }
    }

    fn skip_comment_tokens(&mut self)
        requires
            old(self).wf(),
        ensures
            final(self).follows(old(self)),
            final(self).state() == (ParseState {
                offset: grammar::skip_comments(old(self).source(), old(self).state().offset),
                ..old(self).state()
            }),
    {
        let ghost src = self.scanner.source();
        let ghost start = self.scanner.offset();
        loop
            invariant_except_break
                self.scanner.wf(),
                self.scanner.source() == src,
                self.errors == old(self).errors,
                self.prev_end == old(self).prev_end,
                0 <= start <= self.scanner.offset() <= src.len(),
                grammar::skip_comments(src, self.scanner.offset()) == grammar::skip_comments(
                    src,
                    start,
                ),
            ensures
                self.scanner.wf(),
                self.scanner.source() == src,
                self.errors == old(self).errors,
                self.prev_end == old(self).prev_end,
                self.scanner.offset() == grammar::skip_comments(src, start),
                0 <= start <= self.scanner.offset() <= src.len(),
            decreases src.len() - self.scanner.offset(),
        {
            proof {
                lemma_spec_scan(src, self.scanner.offset());
            }
            let state = self.scanner.save_state();
            let (token, _) = self.scanner.scan();
            if !token.is_comment() {
                self.scanner.restore_state(state);
                break ;
            }
        }
        proof {
            grammar::lemma_ordered_later(src, old(self).state(), self.scanner.offset());
        }
    }

    fn next_token(&mut self) -> (r: Token)
        requires
            old(self).wf(),
        ensures
            final(self).follows(old(self)),
            (r.deep_view(), final(self).state()) == grammar::next_token(
                old(self).source(),
                old(self).state(),
            ),
            r.deep_view().fits(),
            r.deep_view().range().wf(),
            !(r.deep_view().kind is Eof) ==> old(self).state().offset < final(self).state().offset,
            r.position == old(self).next_start(),
            r.position.line >= 1,
            r.position.column >= 1,
            old(self).state().prev_end.leq(r.position),
            final(self).state().prev_end == r.deep_view().end(),
    {
        reveal(grammar::next_token);
        proof {
            grammar::lemma_next_placed(self.source(), self.state());
            grammar::lemma_peek_then_next(self.source(), self.state());
        }
        self.skip_comment_tokens();
        proof {
            lemma_spec_scan(self.scanner.source(), self.scanner.offset());
        }
        let ghost before = self.errors.deep_view();
        let (token, error) = self.scanner.scan();
        match error {
            Some(e) => {
                self.errors.push(e);
                assert(self.errors.deep_view() =~= before.push(e.deep_view()));
            },
            None => {},
        }
        self.prev_end = token.range().end;
        token
    }

    fn peek_next_token(&mut self) -> (r: Token)
        requires
            old(self).wf(),
        ensures
            final(self).follows(old(self)),
            (r.deep_view(), final(self).state()) == grammar::peek(
                old(self).source(),
                old(self).state(),
            ),
            r.deep_view().fits(),
            r.deep_view().range().wf(),
            !(r.deep_view().kind is Eof)
                ==> final(self).state().offset < final(self).source().len(),
            grammar::peek(final(self).source(), final(self).state()) == (
                r.deep_view(),
                final(self).state(),
            ),
            grammar::next_token(final(self).source(), final(self).state()).0 == r.deep_view(),
            r.position == old(self).next_start(),
            final(self).next_start() == old(self).next_start(),
            final(self).state().prev_end == old(self).state().prev_end,
            final(self).state().prev_end.leq(r.position),
            r.position.line >= 1,
            r.position.column >= 1,
    {
        reveal(grammar::peek);
        proof {
            grammar::lemma_next_placed(self.source(), self.state());
            grammar::lemma_peek_again(self.source(), self.state());
            grammar::lemma_peek_then_next(self.source(), self.state());
        }
        self.skip_comment_tokens();
        proof {
            lemma_spec_scan(self.scanner.source(), self.scanner.offset());
        }
        let state = self.scanner.save_state();
        let (token, _) = self.scanner.scan();
        self.scanner.restore_state(state);
        token
    }

    fn eat_next_token(&mut self)
        requires
            old(self).wf(),
        ensures
            final(self).follows(old(self)),
            final(self).state() == grammar::next_token(old(self).source(), old(self).state()).1,
            !(grammar::next_token(old(self).source(), old(self).state()).0.kind is Eof)
                ==> old(self).state().offset < final(self).state().offset,
            old(self).next_start().leq(final(self).state().prev_end),
            final(self).state().prev_end == grammar::next_token(
                old(self).source(),
                old(self).state(),
            ).0.end(),
    {
        let _ = self.next_token();
    }

    fn add_error(&mut self, message: String, range: Range)
        requires
            old(self).wf(),
        ensures
            final(self).follows(old(self)),
            final(self).state() == grammar::add_error(old(self).state(), message@, range),
            final(self).next_start() == old(self).next_start(),
    {
        let ghost before = self.errors.deep_view();
        let ghost st = self.state();
        let e = Error { range, message };
        self.errors.push(e);
        assert(self.errors.deep_view() =~= before.push(e.deep_view()));
        proof {
            grammar::lemma_token_by_offset(self.source(), st, self.state());
        }
    }

    /// Records that `token` was found where `expected` should stand.
    fn unexpected(&mut self, expected: &str, token: &Token)
        requires
            old(self).wf(),
            token.deep_view().fits(),
        ensures
            final(self).follows(old(self)),
            final(self).state() == grammar::unexpected(
                old(self).state(),
                expected@,
                token.deep_view(),
            ),
    {
        let mut message = String::from_str("Expected ");
        message.append(expected);
        message.append(", but got ");
        let text = token.kind.text();
        message.append(text.as_str());
        self.add_error(message, token.range());
    }

    /// Consumes the next token, which should be of `kind`.
    fn expect_token(&mut self, kind: &TokenKind, expected: &str) -> (r: bool)
        requires
            old(self).wf(),
        ensures
            final(self).follows(old(self)),
            (r, final(self).state()) == grammar::expect(
                old(self).source(),
                old(self).state(),
                kind.deep_view(),
                expected@,
            ),
            r && !(kind.deep_view() is Eof)
                ==> old(self).state().offset < final(self).state().offset,
            !(grammar::peek(old(self).source(), old(self).state()).0.kind is Eof)
                ==> old(self).state().offset < final(self).state().offset,
            old(self).next_start().leq(final(self).state().prev_end),
    {
        reveal(grammar::expect);
        proof {
            grammar::lemma_peek_then_next(self.source(), self.state());
        }
        let token = self.next_token();
        if token.kind.same_as(kind) {
            true
        } else {
            self.unexpected(expected, &token);
            false
        }
    }

    /// Consumes a list separator, if one is next.
    fn opt_list_separator(&mut self)
        requires
            old(self).wf(),
        ensures
            final(self).follows(old(self)),
            final(self).state() == grammar::opt_list_separator(
                old(self).source(),
                old(self).state(),
            ),
    {
        reveal(grammar::opt_list_separator);
        let token = self.peek_next_token();
        if token.is_line_separator() {
            self.eat_next_token();
        }
    }

    /// Whether a bracketed list ends here, at `close` or at the end of input.
    fn at_close(&mut self, close: &TokenKind) -> (r: bool)
        requires
            old(self).wf(),
        ensures
            final(self).follows(old(self)),
            (r, final(self).state()) == grammar::at_close(
                old(self).source(),
                old(self).state(),
                close.deep_view(),
            ),
            !r ==> final(self).state().offset < final(self).source().len(),
    {
        reveal(grammar::at_close);
        let token = self.peek_next_token();
        if token.kind.same_as(close) {
            self.eat_next_token();
            true
        } else if token.is_eof() {
            self.add_error(String::from_str("Unexpected end of file"), token.range());
            true
        } else {
            false
        }
    }

    fn recover_to_next_line(&mut self)
        requires
            old(self).wf(),
        ensures
            final(self).follows(old(self)),
            final(self).state() == grammar::recover_to_next_line(
                old(self).source(),
                old(self).state(),
            ),
            old(self).state().offset < old(self).source().len() ==> old(self).state().offset
                < final(self).state().offset,
    {
        reveal(grammar::recover_to_next_line);
        self.scanner.skip_to_next_line();
        proof {
            self.scanner.state().lemma_valid(self.scanner.source());
            grammar::lemma_ordered_later(
                self.scanner.source(),
                old(self).state(),
                self.scanner.offset(),
            );
        }
    }

    fn recover_to_next_definition(&mut self)
        requires
            old(self).wf(),
        ensures
            final(self).follows(old(self)),
            final(self).state() == grammar::recover_to_next_definition(
                old(self).source(),
                old(self).state(),
            ),
    {
        let ghost src = self.source();
        let ghost start = self.state();
        proof {
            self.lemma_follows_self();
        }
        loop
            invariant_except_break
                self.follows(old(self)),
                src == old(self).source(),
                start == old(self).state(),
                grammar::recover_to_next_definition(src, self.state())
                    == grammar::recover_to_next_definition(src, start),
            ensures
                self.follows(old(self)),
                self.state() == grammar::recover_to_next_definition(src, start),
            decreases src.len() - self.state().offset,
        {
            proof {
                reveal(grammar::recover_to_next_definition);
            }
            let token = self.peek_next_token();
            if token.is_eof() || starts_definition(&token.kind) {
                break ;
            }
            self.eat_next_token();
        }
    }

    /// The next token that is no comment; the parser stays where it is.
    fn look_ahead(&mut self) -> (r: Token)
        requires
            old(self).wf(),
        ensures
            final(self).follows(old(self)),
            final(self).state() == old(self).state(),
            r.deep_view() == grammar::peek(old(self).source(), old(self).state()).0,
            r.deep_view().fits(),
            r.position == old(self).next_start(),
            old(self).state().prev_end.leq(r.position),
    {
        reveal(grammar::peek);
        let state = self.scanner.save_state();
        let token = self.peek_next_token();
        self.scanner.restore_state(state);
        token
    }

    /// The position of the next token that is no comment; the parser stays
    /// where it is.
    fn start_position(&mut self) -> (r: Position)
        requires
            old(self).wf(),
        ensures
            final(self).follows(old(self)),
            final(self).state() == old(self).state(),
            r == old(self).next_start(),
            old(self).state().prev_end.leq(r),
    {
        self.look_ahead().position
    }

    /// The range from `start` to the end of the token consumed last.
    fn span_from(&self, start: Position) -> (r: Range)
        ensures
            r == (Range { start, end: self.state().prev_end }),
    {
        Range { start, end: self.prev_end }
    }

    fn parse_identifier(&mut self) -> (r: Option<IdentifierNode>)
        requires
            old(self).wf(),
        ensures
            final(self).follows(old(self)),
            (r.deep_view(), final(self).state()) == grammar::parse_identifier(
                old(self).source(),
                old(self).state(),
            ),
            r is Some ==> old(self).state().offset < final(self).state().offset,
            r matches Some(n) ==> n.deep_view().wf() && final(self).spans(old(self), n.range),
    {
        let token = self.next_token();
        let range = token.range();
        match token.kind {
            TokenKind::Identifier(name) => Some(IdentifierNode { range, name }),
            kind => {
                let name = kind.text();
                proof {
                    lemma_eof_is_no_word();
                    if !(kind.deep_view() is Eof) {
                        lemma_text_len(kind.deep_view());
                    }
                }
                if TokenKind::from_string(name.as_str()).is_some() {
                    Some(IdentifierNode { range, name })
                } else {
                    self.add_error(concat_str("Invalid identifier: ", name.as_str()), range);
                    None
                }
            },
        }
    }

    fn parse_key_value_pair(&mut self) -> (r: Option<(String, String)>)
        requires
            old(self).wf(),
        ensures
            final(self).follows(old(self)),
            (r.deep_view(), final(self).state()) == grammar::parse_key_value_pair(
                old(self).source(),
                old(self).state(),
            ),
            r is Some ==> old(self).state().offset < final(self).state().offset,
    {
        let token = self.next_token();
        match token.kind {
            TokenKind::Identifier(key) => {
                if !self.expect_token(&TokenKind::Assign, "'='") {
                    return None;
                }
                let token = self.next_token();
                match token.kind {
                    TokenKind::Literal(value) => {
                        self.opt_list_separator();
                        Some((key, value))
                    },
                    _ => {
                        self.unexpected("literal", &token);
                        None
                    },
                }
            },
            _ => {
                self.unexpected("identifier", &token);
                None
            },
        }
    }

    fn parse_ext_pairs(&mut self) -> (r: Option<Vec<(String, String)>>)
        requires
            old(self).wf(),
        ensures
            final(self).follows(old(self)),
            (r.deep_view(), final(self).state()) == grammar::ext_pairs(
                old(self).source(),
                old(self).state(),
                Seq::empty(),
            ),
    {
        let ghost src = self.source();
        let ghost start = self.state();
        let mut items: Vec<(String, String)> = Vec::new();
        assert(items.deep_view() =~= Seq::empty());
        proof {
            self.lemma_follows_self();
        }
        let mut failed = false;
        loop
            invariant_except_break
                self.follows(old(self)),
                src == old(self).source(),
                start == old(self).state(),
                !failed,
                grammar::ext_pairs(src, self.state(), items.deep_view()) == grammar::ext_pairs(
                    src,
                    start,
                    Seq::empty(),
                ),
            ensures
                self.follows(old(self)),
                src == old(self).source(),
                (if failed {
                    None
                } else {
                    Some(items.deep_view())
                }, self.state()) == grammar::ext_pairs(src, start, Seq::empty()),
            decreases src.len() - self.state().offset,
        {
            let ghost acc = items.deep_view();
            if self.at_close(&TokenKind::Rparen) {
                break ;
            }
            match self.parse_key_value_pair() {
                Some(item) => {
                    let ghost v = item.deep_view();
                    items.push(item);
                    assert(items.deep_view() =~= acc.push(v));
                },
                None => {
                    failed = true;
                    break ;
                },
            }
        }
        if failed {
            None
        } else {
            Some(items)
        }
    }

    fn opt_parse_ext(&mut self) -> (r: Option<ExtNode>)
        requires
            old(self).wf(),
        ensures
            final(self).follows(old(self)),
            (r.deep_view(), final(self).state()) == grammar::opt_parse_ext(
                old(self).source(),
                old(self).state(),
            ),
            r is Some ==> old(self).state().offset < final(self).state().offset,
            r matches Some(n) ==> n.deep_view().wf() && final(self).spans(old(self), n.range),
    {
        let start = self.start_position();
        let token = self.peek_next_token();
        match token.kind {
            TokenKind::Lparen => {},
            _ => {
                return None;
            },
        }
        if !self.expect_token(&TokenKind::Lparen, "'('") {
            return None;
        }
        match self.parse_ext_pairs() {
            Some(kv_pairs) => Some(ExtNode { range: self.span_from(start), kv_pairs }),
            None => None,
        }
    }

    fn parse_include(&mut self) -> (r: Option<IncludeNode>)
        requires
            old(self).wf(),
        ensures
            final(self).follows(old(self)),
            (r.deep_view(), final(self).state()) == grammar::parse_include(
                old(self).source(),
                old(self).state(),
            ),
            r is Some ==> old(self).state().offset < final(self).state().offset,
            !(grammar::peek(old(self).source(), old(self).state()).0.kind is Eof)
                ==> old(self).state().offset < final(self).state().offset,
            old(self).next_start().leq(final(self).state().prev_end),
            r matches Some(n) ==> n.deep_view().wf() && final(self).spans(old(self), n.range),
    {
        let start = self.start_position();
        if !self.expect_token(&TokenKind::Include, "'include'") {
            return None;
        }
        let token = self.next_token();
        match token.kind {
            TokenKind::Literal(literal) => Some(
                IncludeNode { range: self.span_from(start), literal },
            ),
            _ => {
                self.unexpected("literal", &token);
                None
            },
        }
    }

    fn parse_cpp_include(&mut self) -> (r: Option<CppIncludeNode>)
        requires
            old(self).wf(),
        ensures
            final(self).follows(old(self)),
            (r.deep_view(), final(self).state()) == grammar::parse_cpp_include(
                old(self).source(),
                old(self).state(),
            ),
            r is Some ==> old(self).state().offset < final(self).state().offset,
            !(grammar::peek(old(self).source(), old(self).state()).0.kind is Eof)
                ==> old(self).state().offset < final(self).state().offset,
            old(self).next_start().leq(final(self).state().prev_end),
            r matches Some(n) ==> n.deep_view().wf() && final(self).spans(old(self), n.range),
    {
        let start = self.start_position();
        if !self.expect_token(&TokenKind::CppInclude, "'cpp_include'") {
            return None;
        }
        let token = self.next_token();
        match token.kind {
            TokenKind::Literal(literal) => Some(
                CppIncludeNode { range: self.span_from(start), literal },
            ),
            _ => {
                self.unexpected("literal", &token);
                None
            },
        }
    }

    fn parse_namespace(&mut self) -> (r: Option<NamespaceNode>)
        requires
            old(self).wf(),
        ensures
            final(self).follows(old(self)),
            (r.deep_view(), final(self).state()) == grammar::parse_namespace(
                old(self).source(),
                old(self).state(),
            ),
            r is Some ==> old(self).state().offset < final(self).state().offset,
            !(grammar::peek(old(self).source(), old(self).state()).0.kind is Eof)
                ==> old(self).state().offset < final(self).state().offset,
            old(self).next_start().leq(final(self).state().prev_end),
            r matches Some(n) ==> n.deep_view().wf() && final(self).spans(old(self), n.range),
    {
        let start = self.start_position();
        if !self.expect_token(&TokenKind::Namespace, "'namespace'") {
            return None;
        }
        let token = self.next_token();
        match token.kind {
            TokenKind::NamespaceScope(scope) => {
                let identifier = match self.parse_identifier() {
                    Some(identifier) => identifier,
                    None => {
                        return None;
                    },
                };
                let ext = self.opt_parse_ext();
                Some(NamespaceNode { range: self.span_from(start), scope, identifier, ext })
            },
            _ => {
                self.unexpected("namespace scope", &token);
                None
            },
        }
    }

    /// One header, where a header keyword is next.
    fn parse_header(&mut self) -> (r: Option<HeaderNode>)
        requires
            old(self).wf(),
            ({
                let kind = grammar::peek(old(self).source(), old(self).state()).0.kind;
                kind is Include || kind is CppInclude || kind is Namespace
            }),
        ensures
            final(self).follows(old(self)),
            (r.deep_view(), final(self).state()) == grammar::parse_header(
                old(self).source(),
                old(self).state(),
            ),
            old(self).state().offset < final(self).state().offset,
            old(self).next_start().leq(final(self).state().prev_end),
            r matches Some(n) ==> n.deep_view().wf() && final(self).spans(
                old(self),
                n.deep_view().range(),
            ),
    {
        let token = self.look_ahead();
        let node = match token.kind {
            TokenKind::Include => match self.parse_include() {
                Some(n) => Some(HeaderNode::Include(n)),
                None => None,
            },
            TokenKind::CppInclude => match self.parse_cpp_include() {
                Some(n) => Some(HeaderNode::CppInclude(n)),
                None => None,
            },
            _ => match self.parse_namespace() {
                Some(n) => Some(HeaderNode::Namespace(n)),
                None => None,
            },
        };
        match node {
            Some(n) => Some(n),
            None => {
                self.recover_to_next_line();
                None
            },
        }
    }

    /// Headers ::= ( Include | CppInclude | Namespace )*
    fn parse_headers(&mut self) -> (r: Vec<Rc<HeaderNode>>)
        requires
            old(self).wf(),
        ensures
            final(self).follows(old(self)),
            (r.deep_view(), final(self).state()) == grammar::parse_headers(
                old(self).source(),
                old(self).state(),
                Seq::empty(),
            ),
            final(self).anchored(old(self)),
            forall|i: int|
                0 <= i < r@.len() ==> (#[trigger] r@[i]).deep_view().wf()
                    && old(self).next_start().leq(r@[i].deep_view().range().start)
                    && r@[i].deep_view().range().end.leq(final(self).state().prev_end),
    {
        let ghost src = self.source();
        let ghost start = self.state();
        let mut headers: Vec<Rc<HeaderNode>> = Vec::new();
        assert(headers.deep_view() =~= Seq::empty());
        proof {
            self.lemma_follows_self();
        }
        loop
            invariant_except_break
                self.follows(old(self)),
                src == old(self).source(),
                self.anchored(old(self)),
                grammar::parse_headers(src, self.state(), headers.deep_view())
                    == grammar::parse_headers(src, start, Seq::empty()),
                forall|i: int|
                    0 <= i < headers@.len() ==> (#[trigger] headers@[i]).deep_view().wf()
                        && old(self).next_start().leq(headers@[i].deep_view().range().start)
                        && headers@[i].deep_view().range().end.leq(self.state().prev_end),
            ensures
                self.follows(old(self)),
                self.anchored(old(self)),
                (headers.deep_view(), self.state()) == grammar::parse_headers(
                    src,
                    start,
                    Seq::empty(),
                ),
                forall|i: int|
                    0 <= i < headers@.len() ==> (#[trigger] headers@[i]).deep_view().wf()
                        && old(self).next_start().leq(headers@[i].deep_view().range().start)
                        && headers@[i].deep_view().range().end.leq(self.state().prev_end),
            decreases src.len() - self.state().offset,
        {
            let ghost acc = headers.deep_view();
            let token = self.peek_next_token();
            match token.kind {
                TokenKind::Include => {},
                TokenKind::CppInclude => {},
                TokenKind::Namespace => {},
                _ => {
                    break ;
                },
            }
            match self.parse_header() {
                Some(n) => {
                    let ghost v = n.deep_view();
                    headers.push(Rc::new(n));
                    assert(headers.deep_view() =~= acc.push(v));
                },
                None => {},
            }
        }
        headers
    }

    fn opt_parse_cpp_type(&mut self) -> (r: Option<String>)
        requires
            old(self).wf(),
        ensures
            final(self).follows(old(self)),
            (r.deep_view(), final(self).state()) == grammar::opt_parse_cpp_type(
                old(self).source(),
                old(self).state(),
            ),
    {
        let token = self.peek_next_token();
        match token.kind {
            TokenKind::CppType => {},
            _ => {
                return None;
            },
        }
        if !self.expect_token(&TokenKind::CppType, "'cpp_type'") {
            return None;
        }
        let token = self.next_token();
        match token.kind {
            TokenKind::Identifier(name) => Some(name),
            _ => {
                self.unexpected("identifier", &token);
                None
            },
        }
    }

    fn parse_field_type(&mut self) -> (r: Option<FieldTypeNode>)
        requires
            old(self).wf(),
        ensures
            final(self).follows(old(self)),
            (r.deep_view(), final(self).state()) == grammar::parse_field_type(
                old(self).source(),
                old(self).state(),
            ),
            r is Some ==> old(self).state().offset < final(self).state().offset,
            r matches Some(n) ==> n.deep_view().wf() && final(self).spans(
                old(self),
                n.deep_view().range(),
            ),
        decreases old(self).source().len() - old(self).state().offset, 3int,
    {
        let token = self.peek_next_token();
        let range = token.range();
        match token.kind {
            TokenKind::Identifier(name) => {
                self.eat_next_token();
                Some(FieldTypeNode::Identifier(IdentifierNode { range, name }))
            },
            _ => self.parse_definition_type(),
        }
    }

    fn parse_definition_type(&mut self) -> (r: Option<FieldTypeNode>)
        requires
            old(self).wf(),
        ensures
            final(self).follows(old(self)),
            (r.deep_view(), final(self).state()) == grammar::parse_definition_type(
                old(self).source(),
                old(self).state(),
            ),
            r is Some ==> old(self).state().offset < final(self).state().offset,
            r matches Some(n) ==> n.deep_view().wf() && final(self).spans(
                old(self),
                n.deep_view().range(),
            ),
        decreases old(self).source().len() - old(self).state().offset, 2int,
    {
        let token = self.peek_next_token();
        let range = token.range();
        match token.kind {
            TokenKind::BaseType(name) => {
                self.eat_next_token();
                Some(FieldTypeNode::BaseType(BaseTypeNode { range, name }))
            },
            _ => self.parse_container_type(),
        }
    }

    fn parse_container_type(&mut self) -> (r: Option<FieldTypeNode>)
        requires
            old(self).wf(),
        ensures
            final(self).follows(old(self)),
            (r.deep_view(), final(self).state()) == grammar::parse_container_type(
                old(self).source(),
                old(self).state(),
            ),
            r is Some ==> old(self).state().offset < final(self).state().offset,
            r matches Some(n) ==> n.deep_view().wf() && final(self).spans(
                old(self),
                n.deep_view().range(),
            ),
        decreases old(self).source().len() - old(self).state().offset, 1int,
    {
        let token = self.peek_next_token();
        match token.kind {
            TokenKind::MapKeyword => match self.parse_map_type() {
                Some(n) => Some(FieldTypeNode::MapType(n)),
                None => None,
            },
            TokenKind::SetKeyword => match self.parse_set_type() {
                Some(n) => Some(FieldTypeNode::SetType(n)),
                None => None,
            },
            TokenKind::List => match self.parse_list_type() {
                Some(n) => Some(FieldTypeNode::ListType(n)),
                None => None,
            },
            _ => {
                let text = token.kind.text();
                self.add_error(
                    concat_str("Expected map, set, or list, but got ", text.as_str()),
                    token.range(),
                );
                None
            },
        }
    }

    /// What opens a container type: its keyword, an optional `cpp_type`, `<`.
    fn open_container(&mut self, keyword: &TokenKind, name: &str) -> (r: (bool, Option<String>))
        requires
            old(self).wf(),
        ensures
            final(self).follows(old(self)),
            (r.0, r.1.deep_view(), final(self).state()) == grammar::open_container(
                old(self).source(),
                old(self).state(),
                keyword.deep_view(),
                name@,
            ),
            r.0 && !(keyword.deep_view() is Eof)
                ==> old(self).state().offset < final(self).state().offset,
            old(self).next_start().leq(final(self).state().prev_end),
    {
        if !self.expect_token(keyword, name) {
            return (false, None);
        }
        let cpp_type = self.opt_parse_cpp_type();
        let ok = self.expect_token(&TokenKind::Less, "'<'");
        (ok, cpp_type)
    }

    fn parse_map_type(&mut self) -> (r: Option<MapTypeNode>)
        requires
            old(self).wf(),
        ensures
            final(self).follows(old(self)),
            (r.deep_view(), final(self).state()) == grammar::parse_map_type(
                old(self).source(),
                old(self).state(),
            ),
            r is Some ==> old(self).state().offset < final(self).state().offset,
            r matches Some(n) ==> n.deep_view().wf() && final(self).spans(old(self), n.range),
        decreases old(self).source().len() - old(self).state().offset, 0int,
    {
        let start = self.start_position();
        let (ok, cpp_type) = self.open_container(&TokenKind::MapKeyword, "'map'");
        if !ok {
            return None;
        }
        let key = match self.parse_field_type() {
            Some(t) => t,
            None => {
                return None;
            },
        };
        if !self.expect_token(&TokenKind::ListSeparator(','), "','") {
            return None;
        }
        let value = match self.parse_field_type() {
            Some(t) => t,
            None => {
                return None;
            },
        };
        if !self.expect_token(&TokenKind::Greater, "'>'") {
            return None;
        }
        Some(
            MapTypeNode {
                range: self.span_from(start),
                cpp_type,
                key_type: Box::new(key),
                value_type: Box::new(value),
            },
        )
    }

    fn parse_set_type(&mut self) -> (r: Option<SetTypeNode>)
        requires
            old(self).wf(),
        ensures
            final(self).follows(old(self)),
            (r.deep_view(), final(self).state()) == grammar::parse_set_type(
                old(self).source(),
                old(self).state(),
            ),
            r is Some ==> old(self).state().offset < final(self).state().offset,
            r matches Some(n) ==> n.deep_view().wf() && final(self).spans(old(self), n.range),
        decreases old(self).source().len() - old(self).state().offset, 0int,
    {
        let start = self.start_position();
        let (ok, cpp_type) = self.open_container(&TokenKind::SetKeyword, "'set'");
        if !ok {
            return None;
        }
        let element = match self.parse_field_type() {
            Some(t) => t,
            None => {
                return None;
            },
        };
        if !self.expect_token(&TokenKind::Greater, "'>'") {
            return None;
        }
        Some(SetTypeNode { range: self.span_from(start), cpp_type, type_node: Box::new(element) })
    }

    fn parse_list_type(&mut self) -> (r: Option<ListTypeNode>)
        requires
            old(self).wf(),
        ensures
            final(self).follows(old(self)),
            (r.deep_view(), final(self).state()) == grammar::parse_list_type(
                old(self).source(),
                old(self).state(),
            ),
            r is Some ==> old(self).state().offset < final(self).state().offset,
            r matches Some(n) ==> n.deep_view().wf() && final(self).spans(old(self), n.range),
        decreases old(self).source().len() - old(self).state().offset, 0int,
    {
        let start = self.start_position();
        let (ok, cpp_type) = self.open_container(&TokenKind::List, "'list'");
        if !ok {
            return None;
        }
        let element = match self.parse_field_type() {
            Some(t) => t,
            None => {
                return None;
            },
        };
        if !self.expect_token(&TokenKind::Greater, "'>'") {
            return None;
        }
        Some(ListTypeNode { range: self.span_from(start), cpp_type, type_node: Box::new(element) })
    }

    fn parse_function_type(&mut self) -> (r: Option<FieldTypeNode>)
        requires
            old(self).wf(),
        ensures
            final(self).follows(old(self)),
            (r.deep_view(), final(self).state()) == grammar::parse_function_type(
                old(self).source(),
                old(self).state(),
            ),
            r is Some ==> old(self).state().offset < final(self).state().offset,
            r matches Some(n) ==> n.deep_view().wf() && final(self).spans(
                old(self),
                n.deep_view().range(),
            ),
    {
        let token = self.peek_next_token();
        match token.kind {
            TokenKind::Void => {
                self.eat_next_token();
                Some(
                    FieldTypeNode::BaseType(
                        BaseTypeNode { range: token.range(), name: String::from_str("void") },
                    ),
                )
            },
            _ => self.parse_field_type(),
        }
    }

    fn parse_const_value(&mut self) -> (r: Option<ConstValueNode>)
        requires
            old(self).wf(),
        ensures
            final(self).follows(old(self)),
            (r.deep_view(), final(self).state()) == grammar::parse_const_value(
                old(self).source(),
                old(self).state(),
            ),
            r is Some ==> old(self).state().offset < final(self).state().offset,
            r matches Some(n) ==> n.deep_view().wf() && final(self).spans(old(self), n.range),
        decreases old(self).source().len() - old(self).state().offset, 3int,
    {
        let token = self.peek_next_token();
        let range = token.range();
        match token.kind {
            TokenKind::IntConstant(value) => {
                self.eat_next_token();
                Some(ConstValueNode { range, value })
            },
            TokenKind::DoubleConstant(value) => {
                self.eat_next_token();
                Some(ConstValueNode { range, value })
            },
            TokenKind::Literal(value) => {
                self.eat_next_token();
                Some(ConstValueNode { range, value })
            },
            TokenKind::Identifier(value) => {
                self.eat_next_token();
                Some(ConstValueNode { range, value })
            },
            TokenKind::Lbrack => self.parse_const_list(),
            TokenKind::Lbrace => self.parse_const_map(),
            kind => {
                self.eat_next_token();
                let text = kind.text();
                self.add_error(
                    concat_str("Expected constant value, but got ", text.as_str()),
                    range,
                );
                None
            },
        }
    }

    fn parse_const_list_values(&mut self) -> (r: Option<Vec<String>>)
        requires
            old(self).wf(),
        ensures
            final(self).follows(old(self)),
            (r.deep_view(), final(self).state()) == grammar::const_list_values(
                old(self).source(),
                old(self).state(),
                Seq::empty(),
            ),
        decreases old(self).source().len() - old(self).state().offset, 5int,
    {
        let ghost src = self.source();
        let ghost start = self.state();
        let mut items: Vec<String> = Vec::new();
        assert(items.deep_view() =~= Seq::empty());
        proof {
            self.lemma_follows_self();
        }
        let mut failed = false;
        loop
            invariant_except_break
                self.follows(old(self)),
                src == old(self).source(),
                start == old(self).state(),
                !failed,
                grammar::const_list_values(src, self.state(), items.deep_view()) == grammar::const_list_values(
                    src,
                    start,
                    Seq::empty(),
                ),
            ensures
                self.follows(old(self)),
                src == old(self).source(),
                (if failed {
                    None
                } else {
                    Some(items.deep_view())
                }, self.state()) == grammar::const_list_values(src, start, Seq::empty()),
            decreases src.len() - self.state().offset,
        {
            let ghost acc = items.deep_view();
            if self.at_close(&TokenKind::Rbrack) {
                break ;
            }
            match self.parse_const_value() {
                Some(item) => {
                    self.opt_list_separator();
                    items.push(item.value);
                    assert(items.deep_view() =~= acc.push(item.value@));
                },
                None => {
                    failed = true;
                    break ;
                },
            }
        }
        if failed {
            None
        } else {
            Some(items)
        }
    }

    fn parse_const_list(&mut self) -> (r: Option<ConstValueNode>)
        requires
            old(self).wf(),
        ensures
            final(self).follows(old(self)),
            (r.deep_view(), final(self).state()) == grammar::parse_const_list(
                old(self).source(),
                old(self).state(),
            ),
            r is Some ==> old(self).state().offset < final(self).state().offset,
            r matches Some(n) ==> n.deep_view().wf() && final(self).spans(old(self), n.range),
        decreases old(self).source().len() - old(self).state().offset, 2int,
    {
        let start = self.start_position();
        if !self.expect_token(&TokenKind::Lbrack, "'['") {
            return None;
        }
        match self.parse_const_list_values() {
            Some(values) => {
                let value = concat3("[", join_strings(&values, ", ").as_str(), "]");
                Some(ConstValueNode { range: self.span_from(start), value })
            },
            None => None,
        }
    }

    fn parse_const_map_value(&mut self) -> (r: Option<(String, String)>)
        requires
            old(self).wf(),
        ensures
            final(self).follows(old(self)),
            (r.deep_view(), final(self).state()) == grammar::parse_const_map_value(
                old(self).source(),
                old(self).state(),
            ),
            r is Some ==> old(self).state().offset < final(self).state().offset,
        decreases old(self).source().len() - old(self).state().offset, 4int,
    {
        let key = match self.parse_const_value() {
            Some(k) => k,
            None => {
                return None;
            },
        };
        if !self.expect_token(&TokenKind::Colon, "':'") {
            return None;
        }
        let value = match self.parse_const_value() {
            Some(v) => v,
            None => {
                return None;
            },
        };
        self.opt_list_separator();
        Some((key.value, value.value))
    }

    fn parse_const_map_pairs(&mut self) -> (r: Option<Vec<String>>)
        requires
            old(self).wf(),
        ensures
            final(self).follows(old(self)),
            (r.deep_view(), final(self).state()) == grammar::const_map_pairs(
                old(self).source(),
                old(self).state(),
                Seq::empty(),
            ),
        decreases old(self).source().len() - old(self).state().offset, 5int,
    {
        let ghost src = self.source();
        let ghost start = self.state();
        let mut items: Vec<String> = Vec::new();
        assert(items.deep_view() =~= Seq::empty());
        proof {
            self.lemma_follows_self();
        }
        let mut failed = false;
        loop
            invariant_except_break
                self.follows(old(self)),
                src == old(self).source(),
                start == old(self).state(),
                !failed,
                grammar::const_map_pairs(src, self.state(), items.deep_view()) == grammar::const_map_pairs(
                    src,
                    start,
                    Seq::empty(),
                ),
            ensures
                self.follows(old(self)),
                src == old(self).source(),
                (if failed {
                    None
                } else {
                    Some(items.deep_view())
                }, self.state()) == grammar::const_map_pairs(src, start, Seq::empty()),
            decreases src.len() - self.state().offset,
        {
            let ghost acc = items.deep_view();
            if self.at_close(&TokenKind::Rbrace) {
                break ;
            }
            match self.parse_const_map_value() {
                Some(item) => {
                    let text = concat3(item.0.as_str(), ": ", item.1.as_str());
                    items.push(text);
                    assert(items.deep_view() =~= acc.push(item.0@ + ": "@ + item.1@));
                },
                None => {
                    failed = true;
                    break ;
                },
            }
        }
        if failed {
            None
        } else {
            Some(items)
        }
    }

    fn parse_const_map(&mut self) -> (r: Option<ConstValueNode>)
        requires
            old(self).wf(),
        ensures
            final(self).follows(old(self)),
            (r.deep_view(), final(self).state()) == grammar::parse_const_map(
                old(self).source(),
                old(self).state(),
            ),
            r is Some ==> old(self).state().offset < final(self).state().offset,
            r matches Some(n) ==> n.deep_view().wf() && final(self).spans(old(self), n.range),
        decreases old(self).source().len() - old(self).state().offset, 2int,
    {
        let start = self.start_position();
        if !self.expect_token(&TokenKind::Lbrace, "'{'") {
            return None;
        }
        match self.parse_const_map_pairs() {
            Some(pairs) => {
                let value = concat3("{", join_strings(&pairs, ", ").as_str(), "}");
                Some(ConstValueNode { range: self.span_from(start), value })
            },
            None => None,
        }
    }

    /// What stands before the type of a field: its number and whether it is
    /// required.
    fn parse_field_lead(&mut self) -> (r: (bool, Option<FieldIdNode>, Option<String>))
        requires
            old(self).wf(),
        ensures
            final(self).follows(old(self)),
            (r.0, r.1.deep_view(), r.2.deep_view(), final(self).state())
                == grammar::parse_field_lead(old(self).source(), old(self).state()),
            final(self).anchored(old(self)),
            r.1 matches Some(n) ==> n.deep_view().wf() && n.range.start == old(self).next_start()
                && n.range.end.leq(final(self).state().prev_end),
    {
        let mut field_id: Option<FieldIdNode> = None;
        let mut field_req: Option<String> = None;
        let token = self.peek_next_token();
        let range = token.range();
        match token.kind {
            TokenKind::IntConstant(id) => {
                field_id = Some(FieldIdNode { range, id: parse_int(id.as_str()) });
                self.eat_next_token();
                if !self.expect_token(&TokenKind::Colon, "':'") {
                    return (false, field_id, field_req);
                }
            },
            TokenKind::Required => {
                field_req = Some(String::from_str("required"));
                self.eat_next_token();
            },
            TokenKind::Optional => {
                field_req = Some(String::from_str("optional"));
                self.eat_next_token();
            },
            _ => {},
        }
        let token = self.peek_next_token();
        let is_required = match token.kind {
            TokenKind::Required => true,
            _ => false,
        };
        let is_optional = match token.kind {
            TokenKind::Optional => true,
            _ => false,
        };
        if is_required || is_optional {
            if field_req.is_some() {
                let text = token.kind.text();
                self.add_error(
                    concat_str("Expected field type, but got ", text.as_str()),
                    token.range(),
                );
                return (false, field_id, field_req);
            }
            field_req = Some(
                if is_required {
                    String::from_str("required")
                } else {
                    String::from_str("optional")
                },
            );
            self.eat_next_token();
        }
        (true, field_id, field_req)
    }

    fn parse_default_value(&mut self) -> (r: (bool, Option<ConstValueNode>))
        requires
            old(self).wf(),
        ensures
            final(self).follows(old(self)),
            (r.0, r.1.deep_view(), final(self).state()) == grammar::parse_default_value(
                old(self).source(),
                old(self).state(),
            ),
            r.1 matches Some(n) ==> n.deep_view().wf() && final(self).holds(old(self), n.range),
    {
        let token = self.peek_next_token();
        match token.kind {
            TokenKind::Assign => {
                self.eat_next_token();
                let value = self.parse_const_value();
                (value.is_some(), value)
            },
            _ => (true, None),
        }
    }

    fn parse_field(&mut self) -> (r: Option<FieldNode>)
        requires
            old(self).wf(),
        ensures
            final(self).follows(old(self)),
            (r.deep_view(), final(self).state()) == grammar::parse_field(
                old(self).source(),
                old(self).state(),
            ),
            r is Some ==> old(self).state().offset < final(self).state().offset,
            r matches Some(n) ==> n.deep_view().wf() && final(self).spans(old(self), n.range),
    {
        let start = self.start_position();
        let (ok, field_id, field_req) = self.parse_field_lead();
        if !ok {
            return None;
        }
        let field_type = match self.parse_field_type() {
            Some(t) => t,
            None => {
                return None;
            },
        };
        let identifier = match self.parse_identifier() {
            Some(identifier) => identifier,
            None => {
                return None;
            },
        };
        let (ok, default_value) = self.parse_default_value();
        if !ok {
            return None;
        }
        let ext = self.opt_parse_ext();
        self.opt_list_separator();
        Some(
            FieldNode {
                range: self.span_from(start),
                field_id,
                field_req,
                field_type,
                identifier,
                default_value,
                ext,
            },
        )
    }

    fn parse_body_fields(&mut self) -> (r: Vec<FieldNode>)
        requires
            old(self).wf(),
        ensures
            final(self).follows(old(self)),
            (r.deep_view(), final(self).state()) == grammar::body_fields(
                old(self).source(),
                old(self).state(),
                Seq::empty(),
            ),
            forall|i: int|
                0 <= i < r@.len() ==> (#[trigger] r@[i]).deep_view().wf() && final(self).holds(
                    old(self),
                    r@[i].range,
                ),
    {
        let ghost src = self.source();
        let ghost start = self.state();
        let mut items: Vec<FieldNode> = Vec::new();
        assert(items.deep_view() =~= Seq::empty());
        proof {
            self.lemma_follows_self();
        }
        let mut failed = false;
        loop
            invariant_except_break
                self.follows(old(self)),
                src == old(self).source(),
                start == old(self).state(),
                !failed,
                grammar::body_fields(src, self.state(), items.deep_view()) == grammar::body_fields(
                    src,
                    start,
                    Seq::empty(),
                ),
                forall|i: int|
                    0 <= i < items@.len() ==> (#[trigger] items@[i]).deep_view().wf() && self.holds(
                        old(self),
                        items@[i].range,
                    ),
            ensures
                self.follows(old(self)),
                src == old(self).source(),
                forall|i: int|
                    0 <= i < items@.len() ==> (#[trigger] items@[i]).deep_view().wf() && self.holds(
                        old(self),
                        items@[i].range,
                    ),
                (items.deep_view(), self.state()) == grammar::body_fields(src, start, Seq::empty()),
            decreases src.len() - self.state().offset,
        {
            let ghost acc = items.deep_view();
            if self.at_close(&TokenKind::Rbrace) {
                break ;
            }
            match self.parse_field() {
                Some(item) => {
                    let ghost v = item.deep_view();
                    items.push(item);
                    assert(items.deep_view() =~= acc.push(v));
                },
                None => {
                    self.recover_to_next_line();
                },
            }
        }
        items
    }

    fn parse_list_fields(&mut self) -> (r: Option<Vec<FieldNode>>)
        requires
            old(self).wf(),
        ensures
            final(self).follows(old(self)),
            (r.deep_view(), final(self).state()) == grammar::list_fields(
                old(self).source(),
                old(self).state(),
                Seq::empty(),
            ),
            r matches Some(v) ==> forall|i: int|
                0 <= i < v@.len() ==> (#[trigger] v@[i]).deep_view().wf() && final(self).holds(
                    old(self),
                    v@[i].range,
                ),
    {
        let ghost src = self.source();
        let ghost start = self.state();
        let mut items: Vec<FieldNode> = Vec::new();
        assert(items.deep_view() =~= Seq::empty());
        proof {
            self.lemma_follows_self();
        }
        let mut failed = false;
        loop
            invariant_except_break
                self.follows(old(self)),
                src == old(self).source(),
                start == old(self).state(),
                !failed,
                grammar::list_fields(src, self.state(), items.deep_view()) == grammar::list_fields(
                    src,
                    start,
                    Seq::empty(),
                ),
                forall|i: int|
                    0 <= i < items@.len() ==> (#[trigger] items@[i]).deep_view().wf() && self.holds(
                        old(self),
                        items@[i].range,
                    ),
            ensures
                self.follows(old(self)),
                src == old(self).source(),
                forall|i: int|
                    0 <= i < items@.len() ==> (#[trigger] items@[i]).deep_view().wf() && self.holds(
                        old(self),
                        items@[i].range,
                    ),
                (if failed {
                    None
                } else {
                    Some(items.deep_view())
                }, self.state()) == grammar::list_fields(src, start, Seq::empty()),
            decreases src.len() - self.state().offset,
        {
            let ghost acc = items.deep_view();
            if self.at_close(&TokenKind::Rparen) {
                break ;
            }
            match self.parse_field() {
                Some(item) => {
                    let ghost v = item.deep_view();
                    items.push(item);
                    assert(items.deep_view() =~= acc.push(v));
                },
                None => {
                    failed = true;
                    break ;
                },
            }
        }
        if failed {
            None
        } else {
            Some(items)
        }
    }

    fn parse_enum_number(&mut self) -> (r: (bool, Option<i32>))
        requires
            old(self).wf(),
        ensures
            final(self).follows(old(self)),
            (r.0, r.1.deep_view(), final(self).state()) == grammar::parse_enum_number(
                old(self).source(),
                old(self).state(),
            ),
    {
        let token = self.peek_next_token();
        match token.kind {
            TokenKind::Assign => {
                self.eat_next_token();
                let token = self.next_token();
                match token.kind {
                    TokenKind::IntConstant(v) => (true, Some(parse_int(v.as_str()))),
                    _ => {
                        self.unexpected("integer constant", &token);
                        (false, None)
                    },
                }
            },
            _ => (true, None),
        }
    }

    fn parse_enum_value(&mut self) -> (r: Option<EnumValueNode>)
        requires
            old(self).wf(),
        ensures
            final(self).follows(old(self)),
            (r.deep_view(), final(self).state()) == grammar::parse_enum_value(
                old(self).source(),
                old(self).state(),
            ),
            r is Some ==> old(self).state().offset < final(self).state().offset,
            r matches Some(n) ==> n.deep_view().wf() && final(self).spans(old(self), n.range),
    {
        let start = self.start_position();
        let token = self.next_token();
        match token.kind {
            TokenKind::Identifier(name) => {
                let (ok, value) = self.parse_enum_number();
                if !ok {
                    return None;
                }
                let ext = self.opt_parse_ext();
                self.opt_list_separator();
                Some(EnumValueNode { range: self.span_from(start), name, value, ext })
            },
            _ => {
                self.unexpected("identifier", &token);
                None
            },
        }
    }

    fn parse_enum_values(&mut self) -> (r: Vec<EnumValueNode>)
        requires
            old(self).wf(),
        ensures
            final(self).follows(old(self)),
            (r.deep_view(), final(self).state()) == grammar::enum_values(
                old(self).source(),
                old(self).state(),
                Seq::empty(),
            ),
            forall|i: int|
                0 <= i < r@.len() ==> (#[trigger] r@[i]).deep_view().wf() && final(self).holds(
                    old(self),
                    r@[i].range,
                ),
    {
        let ghost src = self.source();
        let ghost start = self.state();
        let mut items: Vec<EnumValueNode> = Vec::new();
        assert(items.deep_view() =~= Seq::empty());
        proof {
            self.lemma_follows_self();
        }
        let mut failed = false;
        loop
            invariant_except_break
                self.follows(old(self)),
                src == old(self).source(),
                start == old(self).state(),
                !failed,
                grammar::enum_values(src, self.state(), items.deep_view()) == grammar::enum_values(
                    src,
                    start,
                    Seq::empty(),
                ),
                forall|i: int|
                    0 <= i < items@.len() ==> (#[trigger] items@[i]).deep_view().wf() && self.holds(
                        old(self),
                        items@[i].range,
                    ),
            ensures
                self.follows(old(self)),
                src == old(self).source(),
                forall|i: int|
                    0 <= i < items@.len() ==> (#[trigger] items@[i]).deep_view().wf() && self.holds(
                        old(self),
                        items@[i].range,
                    ),
                (items.deep_view(), self.state()) == grammar::enum_values(src, start, Seq::empty()),
            decreases src.len() - self.state().offset,
        {
            let ghost acc = items.deep_view();
            if self.at_close(&TokenKind::Rbrace) {
                break ;
            }
            match self.parse_enum_value() {
                Some(item) => {
                    let ghost v = item.deep_view();
                    items.push(item);
                    assert(items.deep_view() =~= acc.push(v));
                },
                None => {
                    self.recover_to_next_line();
                },
            }
        }
        items
    }

    /// What opens a definition with a body: its keyword, its name, and `{`.
    fn open_body(&mut self, keyword: &TokenKind, name: &str) -> (r: Option<IdentifierNode>)
        requires
            old(self).wf(),
        ensures
            final(self).follows(old(self)),
            (r.deep_view(), final(self).state()) == grammar::open_body(
                old(self).source(),
                old(self).state(),
                keyword.deep_view(),
                name@,
            ),
            r is Some ==> old(self).state().offset < final(self).state().offset,
            !(grammar::peek(old(self).source(), old(self).state()).0.kind is Eof)
                ==> old(self).state().offset < final(self).state().offset,
            old(self).next_start().leq(final(self).state().prev_end),
            r matches Some(n) ==> n.deep_view().wf() && old(self).next_start().leq(n.range.start)
                && n.range.end.leq(final(self).state().prev_end),
    {
        if !self.expect_token(keyword, name) {
            return None;
        }
        let identifier = match self.parse_identifier() {
            Some(identifier) => identifier,
            None => {
                return None;
            },
        };
        if !self.expect_token(&TokenKind::Lbrace, "'{'") {
            return None;
        }
        Some(identifier)
    }

    fn parse_const(&mut self) -> (r: Option<ConstNode>)
        requires
            old(self).wf(),
        ensures
            final(self).follows(old(self)),
            (r.deep_view(), final(self).state()) == grammar::parse_const(
                old(self).source(),
                old(self).state(),
            ),
            r is Some ==> old(self).state().offset < final(self).state().offset,
            !(grammar::peek(old(self).source(), old(self).state()).0.kind is Eof)
                ==> old(self).state().offset < final(self).state().offset,
            old(self).next_start().leq(final(self).state().prev_end),
            r matches Some(n) ==> n.deep_view().wf() && final(self).spans(old(self), n.range),
    {
        let start = self.start_position();
        if !self.expect_token(&TokenKind::Const, "'const'") {
            return None;
        }
        let field_type = match self.parse_field_type() {
            Some(t) => t,
            None => {
                return None;
            },
        };
        let identifier = match self.parse_identifier() {
            Some(identifier) => identifier,
            None => {
                return None;
            },
        };
        if !self.expect_token(&TokenKind::Assign, "'='") {
            return None;
        }
        let value = match self.parse_const_value() {
            Some(v) => v,
            None => {
                return None;
            },
        };
        self.opt_list_separator();
        Some(ConstNode { range: self.span_from(start), field_type, identifier, value })
    }

    fn parse_typedef(&mut self) -> (r: Option<TypedefNode>)
        requires
            old(self).wf(),
        ensures
            final(self).follows(old(self)),
            (r.deep_view(), final(self).state()) == grammar::parse_typedef(
                old(self).source(),
                old(self).state(),
            ),
            r is Some ==> old(self).state().offset < final(self).state().offset,
            !(grammar::peek(old(self).source(), old(self).state()).0.kind is Eof)
                ==> old(self).state().offset < final(self).state().offset,
            old(self).next_start().leq(final(self).state().prev_end),
            r matches Some(n) ==> n.deep_view().wf() && final(self).spans(old(self), n.range),
    {
        let start = self.start_position();
        if !self.expect_token(&TokenKind::Typedef, "'typedef'") {
            return None;
        }
        let definition_type = match self.parse_definition_type() {
            Some(t) => t,
            None => {
                return None;
            },
        };
        let identifier = match self.parse_identifier() {
            Some(identifier) => identifier,
            None => {
                return None;
            },
        };
        Some(TypedefNode { range: self.span_from(start), definition_type, identifier })
    }

    fn parse_enum(&mut self) -> (r: Option<EnumNode>)
        requires
            old(self).wf(),
        ensures
            final(self).follows(old(self)),
            (r.deep_view(), final(self).state()) == grammar::parse_enum(
                old(self).source(),
                old(self).state(),
            ),
            r is Some ==> old(self).state().offset < final(self).state().offset,
            !(grammar::peek(old(self).source(), old(self).state()).0.kind is Eof)
                ==> old(self).state().offset < final(self).state().offset,
            old(self).next_start().leq(final(self).state().prev_end),
            r matches Some(n) ==> n.deep_view().wf() && final(self).spans(old(self), n.range),
    {
        let start = self.start_position();
        let identifier = match self.open_body(&TokenKind::Enum, "'enum'") {
            Some(identifier) => identifier,
            None => {
                return None;
            },
        };
        let values = self.parse_enum_values();
        Some(EnumNode { range: self.span_from(start), identifier, values })
    }

    fn parse_struct(&mut self) -> (r: Option<StructNode>)
        requires
            old(self).wf(),
        ensures
            final(self).follows(old(self)),
            (r.deep_view(), final(self).state()) == grammar::parse_struct(
                old(self).source(),
                old(self).state(),
            ),
            r is Some ==> old(self).state().offset < final(self).state().offset,
            !(grammar::peek(old(self).source(), old(self).state()).0.kind is Eof)
                ==> old(self).state().offset < final(self).state().offset,
            old(self).next_start().leq(final(self).state().prev_end),
            r matches Some(n) ==> n.deep_view().wf() && final(self).spans(old(self), n.range),
    {
        let start = self.start_position();
        let identifier = match self.open_body(&TokenKind::Struct, "'struct'") {
            Some(identifier) => identifier,
            None => {
                return None;
            },
        };
        let fields = self.parse_body_fields();
        let ext = self.opt_parse_ext();
        Some(StructNode { range: self.span_from(start), identifier, fields, ext })
    }

    fn parse_union(&mut self) -> (r: Option<UnionNode>)
        requires
            old(self).wf(),
        ensures
            final(self).follows(old(self)),
            (r.deep_view(), final(self).state()) == grammar::parse_union(
                old(self).source(),
                old(self).state(),
            ),
            r is Some ==> old(self).state().offset < final(self).state().offset,
            !(grammar::peek(old(self).source(), old(self).state()).0.kind is Eof)
                ==> old(self).state().offset < final(self).state().offset,
            old(self).next_start().leq(final(self).state().prev_end),
            r matches Some(n) ==> n.deep_view().wf() && final(self).spans(old(self), n.range),
    {
        let start = self.start_position();
        let identifier = match self.open_body(&TokenKind::Union, "'union'") {
            Some(identifier) => identifier,
            None => {
                return None;
            },
        };
        let fields = self.parse_body_fields();
        Some(UnionNode { range: self.span_from(start), identifier, fields })
    }

    fn parse_exception(&mut self) -> (r: Option<ExceptionNode>)
        requires
            old(self).wf(),
        ensures
            final(self).follows(old(self)),
            (r.deep_view(), final(self).state()) == grammar::parse_exception(
                old(self).source(),
                old(self).state(),
            ),
            r is Some ==> old(self).state().offset < final(self).state().offset,
            !(grammar::peek(old(self).source(), old(self).state()).0.kind is Eof)
                ==> old(self).state().offset < final(self).state().offset,
            old(self).next_start().leq(final(self).state().prev_end),
            r matches Some(n) ==> n.deep_view().wf() && final(self).spans(old(self), n.range),
    {
        let start = self.start_position();
        let identifier = match self.open_body(&TokenKind::Exception, "'exception'") {
            Some(identifier) => identifier,
            None => {
                return None;
            },
        };
        let fields = self.parse_body_fields();
        Some(ExceptionNode { range: self.span_from(start), identifier, fields })
    }

    fn parse_throws(&mut self) -> (r: Option<Vec<FieldNode>>)
        requires
            old(self).wf(),
        ensures
            final(self).follows(old(self)),
            (r.deep_view(), final(self).state()) == grammar::parse_throws(
                old(self).source(),
                old(self).state(),
            ),
            r matches Some(v) ==> forall|i: int|
                0 <= i < v@.len() ==> (#[trigger] v@[i]).deep_view().wf() && final(self).holds(
                    old(self),
                    v@[i].range,
                ),
    {
        if !self.expect_token(&TokenKind::Throws, "'throws'") {
            return None;
        }
        if !self.expect_token(&TokenKind::Lparen, "'('") {
            return None;
        }
        self.parse_list_fields()
    }

    /// What opens a function: `oneway`, its type, its name, and `(`.
    fn parse_function_head(&mut self) -> (r: Option<(bool, FieldTypeNode, IdentifierNode)>)
        requires
            old(self).wf(),
        ensures
            final(self).follows(old(self)),
            (match r {
                Some(h) => Some((h.0, h.1.deep_view(), h.2.deep_view())),
                None => None,
            }, final(self).state()) == grammar::parse_function_head(
                old(self).source(),
                old(self).state(),
            ),
            r is Some ==> old(self).state().offset < final(self).state().offset,
            r matches Some(h) ==> h.1.deep_view().wf() && h.2.deep_view().wf()
                && old(self).next_start().leq(h.1.deep_view().range().start)
                && h.1.deep_view().range().end.leq(final(self).state().prev_end)
                && old(self).next_start().leq(h.2.range.start)
                && h.2.range.end.leq(final(self).state().prev_end)
                && old(self).next_start().leq(final(self).state().prev_end),
    {
        let token = self.peek_next_token();
        let is_oneway = match token.kind {
            TokenKind::Oneway => true,
            _ => false,
        };
        if is_oneway {
            self.eat_next_token();
        }
        let function_type = match self.parse_function_type() {
            Some(t) => t,
            None => {
                return None;
            },
        };
        let identifier = match self.parse_identifier() {
            Some(identifier) => identifier,
            None => {
                return None;
            },
        };
        if !self.expect_token(&TokenKind::Lparen, "'('") {
            return None;
        }
        Some((is_oneway, function_type, identifier))
    }

    fn opt_parse_throws(&mut self) -> (r: (bool, Option<Vec<FieldNode>>))
        requires
            old(self).wf(),
        ensures
            final(self).follows(old(self)),
            (r.0, r.1.deep_view(), final(self).state()) == grammar::opt_parse_throws(
                old(self).source(),
                old(self).state(),
            ),
            r.1 matches Some(v) ==> forall|i: int|
                0 <= i < v@.len() ==> (#[trigger] v@[i]).deep_view().wf() && final(self).holds(
                    old(self),
                    v@[i].range,
                ),
    {
        let token = self.peek_next_token();
        match token.kind {
            TokenKind::Throws => {
                let throws = self.parse_throws();
                (throws.is_some(), throws)
            },
            _ => (true, None),
        }
    }

    fn parse_function(&mut self) -> (r: Option<FunctionNode>)
        requires
            old(self).wf(),
        ensures
            final(self).follows(old(self)),
            (r.deep_view(), final(self).state()) == grammar::parse_function(
                old(self).source(),
                old(self).state(),
            ),
            r is Some ==> old(self).state().offset < final(self).state().offset,
            r matches Some(n) ==> n.deep_view().wf() && final(self).spans(old(self), n.range),
    {
        let start = self.start_position();
        let (is_oneway, function_type, identifier) = match self.parse_function_head() {
            Some(h) => h,
            None => {
                return None;
            },
        };
        let fields = match self.parse_list_fields() {
            Some(fields) => fields,
            None => {
                return None;
            },
        };
        let (ok, throws) = self.opt_parse_throws();
        if !ok {
            return None;
        }
        let ext = self.opt_parse_ext();
        self.opt_list_separator();
        Some(
            FunctionNode {
                range: self.span_from(start),
                is_oneway,
                function_type,
                identifier,
                fields,
                throws,
                ext,
            },
        )
    }

    fn parse_service_functions(&mut self) -> (r: Vec<FunctionNode>)
        requires
            old(self).wf(),
        ensures
            final(self).follows(old(self)),
            (r.deep_view(), final(self).state()) == grammar::service_functions(
                old(self).source(),
                old(self).state(),
                Seq::empty(),
            ),
            forall|i: int|
                0 <= i < r@.len() ==> (#[trigger] r@[i]).deep_view().wf() && final(self).holds(
                    old(self),
                    r@[i].range,
                ),
    {
        let ghost src = self.source();
        let ghost start = self.state();
        let mut items: Vec<FunctionNode> = Vec::new();
        assert(items.deep_view() =~= Seq::empty());
        proof {
            self.lemma_follows_self();
        }
        let mut failed = false;
        loop
            invariant_except_break
                self.follows(old(self)),
                src == old(self).source(),
                start == old(self).state(),
                !failed,
                grammar::service_functions(src, self.state(), items.deep_view()) == grammar::service_functions(
                    src,
                    start,
                    Seq::empty(),
                ),
                forall|i: int|
                    0 <= i < items@.len() ==> (#[trigger] items@[i]).deep_view().wf() && self.holds(
                        old(self),
                        items@[i].range,
                    ),
            ensures
                self.follows(old(self)),
                src == old(self).source(),
                forall|i: int|
                    0 <= i < items@.len() ==> (#[trigger] items@[i]).deep_view().wf() && self.holds(
                        old(self),
                        items@[i].range,
                    ),
                (items.deep_view(), self.state()) == grammar::service_functions(src, start, Seq::empty()),
            decreases src.len() - self.state().offset,
        {
            let ghost acc = items.deep_view();
            if self.at_close(&TokenKind::Rbrace) {
                break ;
            }
            match self.parse_function() {
                Some(item) => {
                    let ghost v = item.deep_view();
                    items.push(item);
                    assert(items.deep_view() =~= acc.push(v));
                },
                None => {
                    self.recover_to_next_line();
                },
            }
        }
        items
    }

    fn parse_extends(&mut self) -> (r: (bool, Option<IdentifierNode>))
        requires
            old(self).wf(),
        ensures
            final(self).follows(old(self)),
            (r.0, r.1.deep_view(), final(self).state()) == grammar::parse_extends(
                old(self).source(),
                old(self).state(),
            ),
            r.1 matches Some(n) ==> n.deep_view().wf() && final(self).holds(old(self), n.range),
    {
        let token = self.peek_next_token();
        match token.kind {
            TokenKind::Extends => {
                self.eat_next_token();
                let token = self.next_token();
                let range = token.range();
                match token.kind {
                    TokenKind::Identifier(name) => (true, Some(IdentifierNode { range, name })),
                    _ => {
                        self.unexpected("identifier", &token);
                        (false, None)
                    },
                }
            },
            _ => (true, None),
        }
    }

    fn parse_service(&mut self) -> (r: Option<ServiceNode>)
        requires
            old(self).wf(),
        ensures
            final(self).follows(old(self)),
            (r.deep_view(), final(self).state()) == grammar::parse_service(
                old(self).source(),
                old(self).state(),
            ),
            r is Some ==> old(self).state().offset < final(self).state().offset,
            !(grammar::peek(old(self).source(), old(self).state()).0.kind is Eof)
                ==> old(self).state().offset < final(self).state().offset,
            old(self).next_start().leq(final(self).state().prev_end),
            r matches Some(n) ==> n.deep_view().wf() && final(self).spans(old(self), n.range),
    {
        let start = self.start_position();
        if !self.expect_token(&TokenKind::Service, "'service'") {
            return None;
        }
        let identifier = match self.parse_identifier() {
            Some(identifier) => identifier,
            None => {
                return None;
            },
        };
        let (ok, extends) = self.parse_extends();
        if !ok {
            return None;
        }
        if !self.expect_token(&TokenKind::Lbrace, "'{'") {
            return None;
        }
        let functions = self.parse_service_functions();
        Some(ServiceNode { range: self.span_from(start), identifier, extends, functions })
    }

    /// One definition, where a keyword that starts one is next.
    fn parse_definition(&mut self) -> (r: Option<DefinitionNode>)
        requires
            old(self).wf(),
            grammar::starts_definition(
                grammar::peek(old(self).source(), old(self).state()).0.kind,
            ),
        ensures
            final(self).follows(old(self)),
            (r.deep_view(), final(self).state()) == grammar::parse_definition(
                old(self).source(),
                old(self).state(),
            ),
            old(self).state().offset < final(self).state().offset,
            old(self).next_start().leq(final(self).state().prev_end),
            r matches Some(n) ==> n.deep_view().wf() && final(self).spans(
                old(self),
                n.deep_view().range(),
            ),
    {
        proof {
            self.lemma_follows_self();
            grammar::lemma_peek_then_next(self.source(), self.state());
        }
        let token = self.look_ahead();
        match token.kind {
            TokenKind::Const => match self.parse_const() {
                Some(n) => Some(DefinitionNode::Const(n)),
                None => None,
            },
            TokenKind::Typedef => match self.parse_typedef() {
                Some(n) => Some(DefinitionNode::Typedef(n)),
                None => None,
            },
            TokenKind::Enum => match self.parse_enum() {
                Some(n) => Some(DefinitionNode::Enum(n)),
                None => None,
            },
            TokenKind::Struct => match self.parse_struct() {
                Some(n) => Some(DefinitionNode::Struct(n)),
                None => None,
            },
            TokenKind::Union => match self.parse_union() {
                Some(n) => Some(DefinitionNode::Union(n)),
                None => None,
            },
            TokenKind::Exception => match self.parse_exception() {
                Some(n) => Some(DefinitionNode::Exception(n)),
                None => None,
            },
            _ => match self.parse_service() {
                Some(n) => Some(DefinitionNode::Service(n)),
                None => None,
            },
        }
    }

    /// One step between definitions, where `token` is next and is not the end
    /// of input.
    fn parse_definition_or_recover(&mut self, token: &Token) -> (r: Option<DefinitionNode>)
        requires
            old(self).wf(),
            token.deep_view() == grammar::peek(old(self).source(), old(self).state()).0,
            token.deep_view() == grammar::next_token(old(self).source(), old(self).state()).0,
            token.deep_view().fits(),
            !(token.deep_view().kind is Eof),
        ensures
            final(self).follows(old(self)),
            (r.deep_view(), final(self).state()) == grammar::parse_definition_or_recover(
                old(self).source(),
                old(self).state(),
            ),
            old(self).state().offset < final(self).state().offset,
            old(self).next_start().leq(final(self).state().prev_end),
            r matches Some(n) ==> n.deep_view().wf() && final(self).spans(
                old(self),
                n.deep_view().range(),
            ),
    {
        proof {
            self.lemma_follows_self();
            grammar::lemma_peek_then_next(self.source(), self.state());
        }
        if starts_definition(&token.kind) {
            match self.parse_definition() {
                Some(n) => Some(n),
                None => {
                    self.recover_to_next_definition();
                    None
                },
            }
        } else {
            let text = token.kind.text();
            let ghost before = self.state();
            self.add_error(concat_str("Unexpected token: ", text.as_str()), token.range());
            proof {
                grammar::lemma_token_by_offset(self.source(), before, self.state());
            }
            self.eat_next_token();
            self.recover_to_next_definition();
            None
        }
    }

    /// Definitions ::= ( Const | Typedef | Enum | Struct | Union | Exception | Service )*
    fn parse_definitions(&mut self) -> (r: Vec<Rc<DefinitionNode>>)
        requires
            old(self).wf(),
        ensures
            final(self).follows(old(self)),
            (r.deep_view(), final(self).state()) == grammar::parse_definitions(
                old(self).source(),
                old(self).state(),
                Seq::empty(),
            ),
            forall|i: int|
                0 <= i < r@.len() ==> (#[trigger] r@[i]).deep_view().wf()
                    && old(self).next_start().leq(r@[i].deep_view().range().start)
                    && r@[i].deep_view().range().end.leq(final(self).state().prev_end),
    {
        let ghost src = self.source();
        let ghost start = self.state();
        let mut definitions: Vec<Rc<DefinitionNode>> = Vec::new();
        assert(definitions.deep_view() =~= Seq::empty());
        proof {
            self.lemma_follows_self();
        }
        loop
            invariant_except_break
                self.follows(old(self)),
                src == old(self).source(),
                self.anchored(old(self)),
                grammar::parse_definitions(src, self.state(), definitions.deep_view())
                    == grammar::parse_definitions(src, start, Seq::empty()),
                forall|i: int|
                    0 <= i < definitions@.len() ==> (#[trigger] definitions@[i]).deep_view().wf()
                        && old(self).next_start().leq(definitions@[i].deep_view().range().start)
                        && definitions@[i].deep_view().range().end.leq(self.state().prev_end),
            ensures
                self.follows(old(self)),
                (definitions.deep_view(), self.state()) == grammar::parse_definitions(
                    src,
                    start,
                    Seq::empty(),
                ),
                forall|i: int|
                    0 <= i < definitions@.len() ==> (#[trigger] definitions@[i]).deep_view().wf()
                        && old(self).next_start().leq(definitions@[i].deep_view().range().start)
                        && definitions@[i].deep_view().range().end.leq(self.state().prev_end),
            decreases src.len() - self.state().offset,
        {
            let ghost acc = definitions.deep_view();
            let token = self.peek_next_token();
            if token.is_eof() {
                break ;
            }
            match self.parse_definition_or_recover(&token) {
                Some(n) => {
                    let ghost v = n.deep_view();
                    definitions.push(Rc::new(n));
                    assert(definitions.deep_view() =~= acc.push(v));
                },
                None => {},
            }
        }
        definitions
    }

    /// Parses the document: its headers, then its definitions, with every
    /// error found on the way. The document is well formed: every node lies
    /// within its parent.
    pub fn parse(self) -> (r: (DocumentNode, Vec<Error>))
        requires
            self.wf(),
            self.state() == grammar::initial_state(),
        ensures
            (r.0.deep_view(), r.1.deep_view()) == grammar::parse_document(self.source()),
            r.0.deep_view().wf(),
    {
        let mut parser = self;
        let token = parser.peek_next_token();
        let start = token.position;
        let ghost first = parser;
        let headers = parser.parse_headers();
        let ghost second = parser;
        proof {
            second.lemma_follows_self();
        }
        let definitions = parser.parse_definitions();
        let end = start.later_of(parser.prev_end);
        (DocumentNode { range: Range { start, end }, headers, definitions }, parser.errors)
    }
}

fn starts_definition(kind: &TokenKind) -> (r: bool)
    ensures
        r == grammar::starts_definition(kind.deep_view()),
{
    match kind {
        TokenKind::Const => true,
        TokenKind::Typedef => true,
        TokenKind::Enum => true,
        TokenKind::Struct => true,
        TokenKind::Union => true,
        TokenKind::Exception => true,
        TokenKind::Service => true,
        _ => false,
    }
}

/// The texts in `parts`, with `separator` between each two.
fn join_strings(parts: &Vec<String>, separator: &str) -> (r: String)
    ensures
        r@ == grammar::join(parts.deep_view(), separator@),
{
    let mut out = String::new();
    let mut i: usize = 0;
    assert(parts.deep_view().subrange(0, 0) =~= Seq::empty());
    while i < parts.len()
        invariant
            i <= parts.len(),
            out@ == grammar::join(parts.deep_view().subrange(0, i as int), separator@),
        decreases parts.len() - i,
    {
        let ghost before = parts.deep_view().subrange(0, i as int);
        if i > 0 {
            out.append(separator);
        }
        out.append(parts[i].as_str());
        i += 1;
        let ghost now = parts.deep_view().subrange(0, i as int);
        assert(now.drop_last() =~= before);
        assert(now.last() == parts[i - 1]@);
        assert(before.len() == 0 ==> out@ =~= parts[i - 1]@);
    }
    assert(parts.deep_view().subrange(0, i as int) =~= parts.deep_view());
    out
}

} // verus!
