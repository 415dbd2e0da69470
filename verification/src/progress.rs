//! The parse never moves back: every function of the grammar leaves the
//! scanner at or behind the place where it was, and a node that is parsed
//! takes at least one token. So the tests that make the definitions of the
//! grammar well founded never fail.

use vstd::prelude::*;
use crate::grammar::{
    add_error, at_close, body_fields, const_list_values, const_map_pairs, enum_values, expect,
    ext_pairs, lemma_peek_again, lemma_peek_then_next, list_fields, moved, next_token, open_body,
    open_container, opt_list_separator, opt_parse_cpp_type, opt_parse_ext, opt_parse_throws,
    parse_const, parse_const_list, parse_const_map, parse_const_map_value, parse_const_value,
    parse_container_type, parse_cpp_include, parse_default_value, parse_definition,
    parse_definition_or_recover, parse_definition_type, parse_definitions, parse_enum,
    parse_enum_number, parse_enum_value, parse_exception, parse_extends, parse_field,
    parse_field_lead, parse_field_type, parse_function, parse_function_head,
    parse_function_type, parse_header, parse_headers, parse_identifier, parse_include,
    parse_key_value_pair, parse_list_type, parse_map_type, parse_namespace, parse_service,
    parse_set_type, parse_struct, parse_throws, parse_typedef, parse_union, peek,
    recover_to_next_definition, recover_to_next_line, service_functions, skip_comments,
    starts_definition, ParseState,
};
use crate::scanner::{lemma_line_end, lemma_spec_scan, spec_scan};
use crate::token::{lemma_eof_is_no_word, TokenKindView};

verus! {

/// The state stands at a place in the input.
pub open spec fn valid(input: Seq<char>, st: ParseState) -> bool {
    0 <= st.offset <= input.len()
}

/// `to` stands at or behind `from`, within the input.
pub open spec fn later(input: Seq<char>, from: ParseState, to: ParseState) -> bool {
    0 <= from.offset <= to.offset <= input.len()
}

/// What holds of the steps on tokens, from every valid state: none moves
/// back; peeking twice is peeking once; the token that is consumed is the one
/// that was peeked, and consuming it moves on unless it is the end of input.
pub proof fn lemma_token_steps(input: Seq<char>)
    ensures
        forall|st: ParseState|
            valid(input, st) ==> later(input, st, (#[trigger] peek(input, st)).1) && peek(
                input,
                peek(input, st).1,
            ) == peek(input, st) && (!(peek(input, st).0.kind is Eof) ==> peek(input, st).1.offset
                < input.len()),
        forall|st: ParseState|
            valid(input, st) ==> later(input, st, (#[trigger] next_token(input, st)).1)
                && next_token(input, st).0 == peek(input, st).0 && next_token(
                input,
                peek(input, st).1,
            ) == next_token(input, st) && (!(next_token(input, st).0.kind is Eof) ==> st.offset
                < next_token(input, st).1.offset),
        forall|st: ParseState, kind: TokenKindView, name: Seq<char>|
            valid(input, st) ==> later(input, st, (#[trigger] expect(input, st, kind, name)).1) && (
            !(peek(input, st).0.kind is Eof) ==> st.offset < expect(input, st, kind, name).1.offset)
                && (expect(input, st, kind, name).0 ==> peek(input, st).0.kind == kind),
        forall|st: ParseState|
            valid(input, st) ==> later(input, st, #[trigger] opt_list_separator(input, st)),
        forall|st: ParseState, close: TokenKindView|
            valid(input, st) ==> later(input, st, (#[trigger] at_close(input, st, close)).1) && (
            !at_close(input, st, close).0 ==> at_close(input, st, close).1 == peek(input, st).1
                && !(peek(input, st).0.kind is Eof)),
        forall|st: ParseState|
            valid(input, st) ==> later(input, st, #[trigger] recover_to_next_line(input, st)) && (
            st.offset < input.len() ==> st.offset < recover_to_next_line(input, st).offset),
{
    reveal(expect);
    reveal(opt_list_separator);
    reveal(at_close);
    reveal(recover_to_next_line);
    assert forall|st: ParseState| valid(input, st) implies later(
        input,
        st,
        (#[trigger] peek(input, st)).1,
    ) && peek(input, peek(input, st).1) == peek(input, st) && (!(peek(input, st).0.kind is Eof)
        ==> peek(input, st).1.offset < input.len()) by {
        lemma_peek_again(input, st);
        lemma_peek_then_next(input, st);
    }
    assert forall|st: ParseState| valid(input, st) implies later(
        input,
        st,
        (#[trigger] next_token(input, st)).1,
    ) && next_token(input, st).0 == peek(input, st).0 && next_token(input, peek(input, st).1)
        == next_token(input, st) && (!(next_token(input, st).0.kind is Eof) ==> st.offset
        < next_token(input, st).1.offset) by {
        lemma_peek_again(input, st);
        lemma_peek_then_next(input, st);
    }
    assert forall|st: ParseState, kind: TokenKindView, name: Seq<char>|
        valid(input, st) implies later(input, st, (#[trigger] expect(input, st, kind, name)).1) && (
    !(peek(input, st).0.kind is Eof) ==> st.offset < expect(input, st, kind, name).1.offset) && (
    expect(input, st, kind, name).0 ==> peek(input, st).0.kind == kind) by {
        lemma_peek_then_next(input, st);
    }
    assert forall|st: ParseState| valid(input, st) implies later(
        input,
        st,
        #[trigger] opt_list_separator(input, st),
    ) by {
        lemma_peek_then_next(input, st);
        lemma_peek_then_next(input, peek(input, st).1);
    }
    assert forall|st: ParseState, close: TokenKindView| valid(input, st) implies later(
        input,
        st,
        (#[trigger] at_close(input, st, close)).1,
    ) && (!at_close(input, st, close).0 ==> at_close(input, st, close).1 == peek(input, st).1
        && !(peek(input, st).0.kind is Eof)) by {
        lemma_peek_then_next(input, st);
        lemma_peek_then_next(input, peek(input, st).1);
    }
    assert forall|st: ParseState| valid(input, st) implies later(
        input,
        st,
        #[trigger] recover_to_next_line(input, st),
    ) && (st.offset < input.len() ==> st.offset < recover_to_next_line(input, st).offset) by {
        lemma_line_end(input, st.offset);
    }
}

/// Comments are passed over one after the other: the test in the definition
/// never fails.
pub proof fn lemma_skip_comments_goes_on(input: Seq<char>, offset: int)
    requires
        0 <= offset <= input.len(),
    ensures
        spec_scan(input, offset).kind.is_comment() ==> offset < spec_scan(input, offset).end
            <= input.len(),
        skip_comments(input, offset) == if spec_scan(input, offset).kind.is_comment() {
            skip_comments(input, spec_scan(input, offset).end)
        } else {
            offset
        },
{
    lemma_spec_scan(input, offset);
}

/// Recovery between definitions never moves back, and goes on behind each
/// token that it passes: the test in the definition never fails.
pub proof fn lemma_recover_to_next_definition(input: Seq<char>, st: ParseState)
    requires
        valid(input, st),
    ensures
        later(input, st, recover_to_next_definition(input, st)),
        !(peek(input, st).0.kind is Eof) && !starts_definition(peek(input, st).0.kind) ==> moved(
            input,
            st,
            next_token(input, peek(input, st).1).1,
        ),
    decreases input.len() - st.offset,
{
    reveal(recover_to_next_definition);
    lemma_token_steps(input);
    let (token, st1) = peek(input, st);
    if !(token.kind is Eof || starts_definition(token.kind)) {
        lemma_recover_to_next_definition(input, next_token(input, st1).1);
    }
}

/// Recovery between definitions never moves back.
pub proof fn lemma_recovery(input: Seq<char>)
    ensures
        forall|st: ParseState|
            valid(input, st) ==> later(input, st, #[trigger] recover_to_next_definition(input, st)),
{
    assert forall|st: ParseState| valid(input, st) implies later(
        input,
        st,
        #[trigger] recover_to_next_definition(input, st),
    ) by {
        lemma_recover_to_next_definition(input, st);
    }
}

/// A name that is parsed takes a token.
pub proof fn lemma_parse_identifier(input: Seq<char>)
    ensures
        forall|st: ParseState|
            valid(input, st) ==> later(input, st, (#[trigger] parse_identifier(input, st)).1)
                && (parse_identifier(input, st).0 is Some ==> st.offset < parse_identifier(input, st).1.offset),
{
    lemma_token_steps(input);
    lemma_eof_is_no_word();
}

/// A pair of an annotation that is parsed takes a token.
pub proof fn lemma_parse_key_value_pair(input: Seq<char>)
    ensures
        forall|st: ParseState|
            valid(input, st) ==> later(input, st, (#[trigger] parse_key_value_pair(input, st)).1)
                && (parse_key_value_pair(input, st).0 is Some ==> st.offset < parse_key_value_pair(input, st).1.offset),
{
    lemma_token_steps(input);
}

/// The pairs of an annotation list never move back, and each pair moves on: the
/// test in the definition never fails.
pub proof fn lemma_ext_pairs(input: Seq<char>, st: ParseState, acc: Seq<(Seq<char>, Seq<char>)>)
    requires
        valid(input, st),
    ensures
        later(input, st, ext_pairs(input, st, acc).1),
        !at_close(input, st, TokenKindView::Rparen).0 && parse_key_value_pair(
            input,
            at_close(input, st, TokenKindView::Rparen).1,
        ).0 is Some ==> moved(
            input,
            st,
            parse_key_value_pair(input, at_close(input, st, TokenKindView::Rparen).1).1,
        ),
    decreases input.len() - st.offset,
{
    lemma_token_steps(input);
    lemma_parse_key_value_pair(input);
    let (done, st1) = at_close(input, st, TokenKindView::Rparen);
    if !done {
        let (item, st2) = parse_key_value_pair(input, st1);
        if item is Some {
            lemma_ext_pairs(input, st2, acc.push(item.unwrap()));
        }
    }
}

/// An annotation list that is parsed takes a token.
pub proof fn lemma_opt_parse_ext(input: Seq<char>)
    ensures
        forall|st: ParseState|
            valid(input, st) ==> later(input, st, (#[trigger] opt_parse_ext(input, st)).1) && (
            opt_parse_ext(input, st).0 is Some ==> st.offset < opt_parse_ext(input, st).1.offset),
{
    lemma_token_steps(input);
    assert forall|st: ParseState| valid(input, st) implies later(
        input,
        st,
        (#[trigger] opt_parse_ext(input, st)).1,
    ) && (opt_parse_ext(input, st).0 is Some ==> st.offset < opt_parse_ext(input, st).1.offset) by {
        let st1 = peek(input, st).1;
        let st2 = expect(input, st1, TokenKindView::Lparen, "'('"@).1;
        lemma_ext_pairs(input, st2, Seq::empty());
    }
}

/// An `include` header takes its keyword.
pub proof fn lemma_parse_include(input: Seq<char>)
    ensures
        forall|st: ParseState|
            valid(input, st) ==> later(input, st, (#[trigger] parse_include(input, st)).1)
                && (parse_include(input, st).0 is Some ==> st.offset < parse_include(input, st).1.offset)
                && (!(peek(input, st).0.kind is Eof) ==> st.offset < parse_include(input, st).1.offset),
{
    lemma_token_steps(input);
}

/// A `cpp_include` header takes its keyword.
pub proof fn lemma_parse_cpp_include(input: Seq<char>)
    ensures
        forall|st: ParseState|
            valid(input, st) ==> later(input, st, (#[trigger] parse_cpp_include(input, st)).1)
                && (parse_cpp_include(input, st).0 is Some ==> st.offset < parse_cpp_include(input, st).1.offset)
                && (!(peek(input, st).0.kind is Eof) ==> st.offset < parse_cpp_include(input, st).1.offset),
{
    lemma_token_steps(input);
}

/// A `namespace` header takes its keyword.
pub proof fn lemma_parse_namespace(input: Seq<char>)
    ensures
        forall|st: ParseState|
            valid(input, st) ==> later(input, st, (#[trigger] parse_namespace(input, st)).1)
                && (parse_namespace(input, st).0 is Some ==> st.offset < parse_namespace(input, st).1.offset)
                && (!(peek(input, st).0.kind is Eof) ==> st.offset < parse_namespace(input, st).1.offset),
{
    lemma_token_steps(input);
    lemma_parse_identifier(input);
    lemma_opt_parse_ext(input);
}

/// A header takes its keyword, also where it fails to parse.
pub proof fn lemma_parse_header(input: Seq<char>)
    ensures
        forall|st: ParseState|
            valid(input, st) ==> later(input, st, (#[trigger] parse_header(input, st)).1) && (!(peek(
                input,
                st,
            ).0.kind is Eof) ==> st.offset < parse_header(input, st).1.offset),
{
    lemma_token_steps(input);
    lemma_parse_include(input);
    lemma_parse_cpp_include(input);
    lemma_parse_namespace(input);
}

/// The headers never move back, and each header moves on: the test in the
/// definition never fails.
pub proof fn lemma_parse_headers(input: Seq<char>, st: ParseState, acc: Seq<crate::ast::HeaderNodeView>)
    requires
        valid(input, st),
    ensures
        later(input, st, parse_headers(input, st, acc).1),
        !(peek(input, st).0.kind is Eof) ==> moved(
            input,
            st,
            parse_header(input, peek(input, st).1).1,
        ),
    decreases input.len() - st.offset,
{
    lemma_token_steps(input);
    lemma_parse_header(input);
    let (token, st1) = peek(input, st);
    if token.kind is Include || token.kind is CppInclude || token.kind is Namespace {
        let (node, st2) = parse_header(input, st1);
        let acc2 = match node {
            Some(n) => acc.push(n),
            None => acc,
        };
        lemma_parse_headers(input, st2, acc2);
    }
}

/// A `cpp_type` never moves back.
pub proof fn lemma_opt_parse_cpp_type(input: Seq<char>)
    ensures
        forall|st: ParseState|
            valid(input, st) ==> later(input, st, (#[trigger] opt_parse_cpp_type(input, st)).1),
{
    lemma_token_steps(input);
}

/// What opens a container type never moves back, and takes the keyword where
/// it succeeds.
pub proof fn lemma_open_container(input: Seq<char>)
    ensures
        forall|st: ParseState, keyword: TokenKindView, name: Seq<char>|
            valid(input, st) ==> later(
                input,
                st,
                (#[trigger] open_container(input, st, keyword, name)).2,
            ) && (open_container(input, st, keyword, name).0 && !(keyword is Eof) ==> st.offset
                < open_container(input, st, keyword, name).2.offset),
{
    lemma_token_steps(input);
    lemma_opt_parse_cpp_type(input);
}

/// A type never moves back, and a type that is parsed takes a token; the
/// tests in the definitions of the types never fail.
pub proof fn lemma_parse_field_type(input: Seq<char>, st: ParseState)
    requires
        valid(input, st),
    ensures
        later(input, st, parse_field_type(input, st).1),
        parse_field_type(input, st).0 is Some ==> st.offset < parse_field_type(input, st).1.offset,
    decreases input.len() - st.offset, 3int,
{
    lemma_token_steps(input);
    let (token, st1) = peek(input, st);
    if !(token.kind is Identifier) {
        lemma_parse_definition_type(input, st1);
    }
}

/// A type that is no name never moves back, and takes a token where it is
/// parsed.
pub proof fn lemma_parse_definition_type(input: Seq<char>, st: ParseState)
    requires
        valid(input, st),
    ensures
        later(input, st, parse_definition_type(input, st).1),
        parse_definition_type(input, st).0 is Some ==> st.offset < parse_definition_type(
            input,
            st,
        ).1.offset,
    decreases input.len() - st.offset, 2int,
{
    lemma_token_steps(input);
    let (token, st1) = peek(input, st);
    if !(token.kind is BaseType) {
        lemma_parse_container_type(input, st1);
    }
}

/// A container type never moves back, and takes a token where it is parsed.
pub proof fn lemma_parse_container_type(input: Seq<char>, st: ParseState)
    requires
        valid(input, st),
    ensures
        later(input, st, parse_container_type(input, st).1),
        parse_container_type(input, st).0 is Some ==> st.offset < parse_container_type(
            input,
            st,
        ).1.offset,
    decreases input.len() - st.offset, 1int,
{
    lemma_token_steps(input);
    let (token, st1) = peek(input, st);
    if token.kind is MapKeyword {
        lemma_parse_map_type(input, st1);
    } else if token.kind is SetKeyword {
        lemma_parse_set_type(input, st1);
    } else if token.kind is List {
        lemma_parse_list_type(input, st1);
    }
}

/// A map type never moves back, and takes a token where it is parsed.
pub proof fn lemma_parse_map_type(input: Seq<char>, st: ParseState)
    requires
        valid(input, st),
    ensures
        later(input, st, parse_map_type(input, st).1),
        parse_map_type(input, st).0 is Some ==> st.offset < parse_map_type(input, st).1.offset,
        open_container(input, st, TokenKindView::MapKeyword, "'map'"@).0 ==> moved(
            input,
            st,
            open_container(input, st, TokenKindView::MapKeyword, "'map'"@).2,
        ),
        ({
            let st1 = open_container(input, st, TokenKindView::MapKeyword, "'map'"@).2;
            let (key, st2) = parse_field_type(input, st1);
            let (ok, st3) = expect(input, st2, TokenKindView::ListSeparator(','), "','"@);
            open_container(input, st, TokenKindView::MapKeyword, "'map'"@).0 && key is Some && ok
                ==> moved(input, st, st3)
        }),
    decreases input.len() - st.offset, 0int,
{
    lemma_token_steps(input);
    lemma_open_container(input);
    let (ok, cpp_type, st1) = open_container(input, st, TokenKindView::MapKeyword, "'map'"@);
    if ok {
        lemma_parse_field_type(input, st1);
        let (key, st2) = parse_field_type(input, st1);
        if key is Some {
            let (ok, st3) = expect(input, st2, TokenKindView::ListSeparator(','), "','"@);
            if ok {
                lemma_parse_field_type(input, st3);
            }
        }
    }
}

/// A set type never moves back, and takes a token where it is parsed.
pub proof fn lemma_parse_set_type(input: Seq<char>, st: ParseState)
    requires
        valid(input, st),
    ensures
        later(input, st, parse_set_type(input, st).1),
        parse_set_type(input, st).0 is Some ==> st.offset < parse_set_type(input, st).1.offset,
        open_container(input, st, TokenKindView::SetKeyword, "'set'"@).0 ==> moved(
            input,
            st,
            open_container(input, st, TokenKindView::SetKeyword, "'set'"@).2,
        ),
    decreases input.len() - st.offset, 0int,
{
    lemma_token_steps(input);
    lemma_open_container(input);
    let (ok, cpp_type, st1) = open_container(input, st, TokenKindView::SetKeyword, "'set'"@);
    if ok {
        lemma_parse_field_type(input, st1);
    }
}

/// A list type never moves back, and takes a token where it is parsed.
pub proof fn lemma_parse_list_type(input: Seq<char>, st: ParseState)
    requires
        valid(input, st),
    ensures
        later(input, st, parse_list_type(input, st).1),
        parse_list_type(input, st).0 is Some ==> st.offset < parse_list_type(input, st).1.offset,
        open_container(input, st, TokenKindView::List, "'list'"@).0 ==> moved(
            input,
            st,
            open_container(input, st, TokenKindView::List, "'list'"@).2,
        ),
    decreases input.len() - st.offset, 0int,
{
    lemma_token_steps(input);
    lemma_open_container(input);
    let (ok, cpp_type, st1) = open_container(input, st, TokenKindView::List, "'list'"@);
    if ok {
        lemma_parse_field_type(input, st1);
    }
}

/// A type never moves back, and a type that is parsed takes a token.
pub proof fn lemma_types(input: Seq<char>)
    ensures
        forall|st: ParseState|
            valid(input, st) ==> later(input, st, (#[trigger] parse_field_type(input, st)).1) && (
            parse_field_type(input, st).0 is Some ==> st.offset < parse_field_type(
                input,
                st,
            ).1.offset),
        forall|st: ParseState|
            valid(input, st) ==> later(input, st, (#[trigger] parse_definition_type(input, st)).1)
                && (parse_definition_type(input, st).0 is Some ==> st.offset
                < parse_definition_type(input, st).1.offset),
        forall|st: ParseState|
            valid(input, st) ==> later(input, st, (#[trigger] parse_function_type(input, st)).1)
                && (parse_function_type(input, st).0 is Some ==> st.offset < parse_function_type(
                input,
                st,
            ).1.offset),
{
    lemma_token_steps(input);
    assert forall|st: ParseState| valid(input, st) implies later(
        input,
        st,
        (#[trigger] parse_field_type(input, st)).1,
    ) && (parse_field_type(input, st).0 is Some ==> st.offset < parse_field_type(
        input,
        st,
    ).1.offset) by {
        lemma_parse_field_type(input, st);
    }
    assert forall|st: ParseState| valid(input, st) implies later(
        input,
        st,
        (#[trigger] parse_definition_type(input, st)).1,
    ) && (parse_definition_type(input, st).0 is Some ==> st.offset < parse_definition_type(
        input,
        st,
    ).1.offset) by {
        lemma_parse_definition_type(input, st);
    }
}

/// A constant value never moves back, and takes a token where it is parsed;
/// the tests in the definitions of the values never fail.
pub proof fn lemma_parse_const_value(input: Seq<char>, st: ParseState)
    requires
        valid(input, st),
    ensures
        later(input, st, parse_const_value(input, st).1),
        parse_const_value(input, st).0 is Some ==> st.offset < parse_const_value(
            input,
            st,
        ).1.offset,
    decreases input.len() - st.offset, 3int,
{
    lemma_token_steps(input);
    let (token, st1) = peek(input, st);
    if token.kind is Lbrack {
        lemma_parse_const_list(input, st1);
    } else if token.kind is Lbrace {
        lemma_parse_const_map(input, st1);
    }
}

/// The values of a constant list never move back, and each value moves on.
pub proof fn lemma_const_list_values(input: Seq<char>, st: ParseState, acc: Seq<Seq<char>>)
    requires
        valid(input, st),
    ensures
        later(input, st, const_list_values(input, st, acc).1),
        !at_close(input, st, TokenKindView::Rbrack).0 && parse_const_value(
            input,
            at_close(input, st, TokenKindView::Rbrack).1,
        ).0 is Some ==> moved(
            input,
            st,
            opt_list_separator(
                input,
                parse_const_value(input, at_close(input, st, TokenKindView::Rbrack).1).1,
            ),
        ),
    decreases input.len() - st.offset, 5int,
{
    lemma_token_steps(input);
    let (done, st1) = at_close(input, st, TokenKindView::Rbrack);
    if !done {
        lemma_parse_const_value(input, st1);
        let (value, st2) = parse_const_value(input, st1);
        if value is Some {
            let st3 = opt_list_separator(input, st2);
            lemma_const_list_values(input, st3, acc.push(value.unwrap().value));
        }
    }
}

/// A constant list never moves back, and takes a token where it is parsed.
pub proof fn lemma_parse_const_list(input: Seq<char>, st: ParseState)
    requires
        valid(input, st),
    ensures
        later(input, st, parse_const_list(input, st).1),
        parse_const_list(input, st).0 is Some ==> st.offset < parse_const_list(input, st).1.offset,
        expect(input, st, TokenKindView::Lbrack, "'['"@).0 ==> moved(
            input,
            st,
            expect(input, st, TokenKindView::Lbrack, "'['"@).1,
        ),
    decreases input.len() - st.offset, 2int,
{
    lemma_token_steps(input);
    let (ok, st1) = expect(input, st, TokenKindView::Lbrack, "'['"@);
    if ok {
        lemma_const_list_values(input, st1, Seq::empty());
    }
}

/// A pair of a constant map never moves back, and takes a token where it is
/// parsed.
pub proof fn lemma_parse_const_map_value(input: Seq<char>, st: ParseState)
    requires
        valid(input, st),
    ensures
        later(input, st, parse_const_map_value(input, st).1),
        parse_const_map_value(input, st).0 is Some ==> st.offset < parse_const_map_value(
            input,
            st,
        ).1.offset,
        ({
            let (key, st1) = parse_const_value(input, st);
            let (ok, st2) = expect(input, st1, TokenKindView::Colon, "':'"@);
            key is Some && ok ==> moved(input, st, st2)
        }),
    decreases input.len() - st.offset, 4int,
{
    lemma_token_steps(input);
    lemma_parse_const_value(input, st);
    let (key, st1) = parse_const_value(input, st);
    if key is Some {
        let (ok, st2) = expect(input, st1, TokenKindView::Colon, "':'"@);
        if ok {
            lemma_parse_const_value(input, st2);
        }
    }
}

/// The pairs of a constant map never move back, and each pair moves on.
pub proof fn lemma_const_map_pairs(input: Seq<char>, st: ParseState, acc: Seq<Seq<char>>)
    requires
        valid(input, st),
    ensures
        later(input, st, const_map_pairs(input, st, acc).1),
        !at_close(input, st, TokenKindView::Rbrace).0 && parse_const_map_value(
            input,
            at_close(input, st, TokenKindView::Rbrace).1,
        ).0 is Some ==> moved(
            input,
            st,
            parse_const_map_value(input, at_close(input, st, TokenKindView::Rbrace).1).1,
        ),
    decreases input.len() - st.offset, 5int,
{
    lemma_token_steps(input);
    let (done, st1) = at_close(input, st, TokenKindView::Rbrace);
    if !done {
        lemma_parse_const_map_value(input, st1);
        let (pair, st2) = parse_const_map_value(input, st1);
        if pair is Some {
            let p = pair.unwrap();
            lemma_const_map_pairs(input, st2, acc.push(p.0 + ": "@ + p.1));
        }
    }
}

/// A constant map never moves back, and takes a token where it is parsed.
pub proof fn lemma_parse_const_map(input: Seq<char>, st: ParseState)
    requires
        valid(input, st),
    ensures
        later(input, st, parse_const_map(input, st).1),
        parse_const_map(input, st).0 is Some ==> st.offset < parse_const_map(input, st).1.offset,
        expect(input, st, TokenKindView::Lbrace, "'{'"@).0 ==> moved(
            input,
            st,
            expect(input, st, TokenKindView::Lbrace, "'{'"@).1,
        ),
    decreases input.len() - st.offset, 2int,
{
    lemma_token_steps(input);
    let (ok, st1) = expect(input, st, TokenKindView::Lbrace, "'{'"@);
    if ok {
        lemma_const_map_pairs(input, st1, Seq::empty());
    }
}

/// A constant value never moves back, and takes a token where it is parsed.
pub proof fn lemma_values(input: Seq<char>)
    ensures
        forall|st: ParseState|
            valid(input, st) ==> later(input, st, (#[trigger] parse_const_value(input, st)).1) && (
            parse_const_value(input, st).0 is Some ==> st.offset < parse_const_value(
                input,
                st,
            ).1.offset),
{
    assert forall|st: ParseState| valid(input, st) implies later(
        input,
        st,
        (#[trigger] parse_const_value(input, st)).1,
    ) && (parse_const_value(input, st).0 is Some ==> st.offset < parse_const_value(
        input,
        st,
    ).1.offset) by {
        lemma_parse_const_value(input, st);
    }
}

/// What stands before the type of a field never moves back.
pub proof fn lemma_parse_field_lead(input: Seq<char>)
    ensures
        forall|st: ParseState|
            valid(input, st) ==> later(input, st, (#[trigger] parse_field_lead(input, st)).3),
{
    lemma_token_steps(input);
}

/// The default value of a field never moves back.
pub proof fn lemma_parse_default_value(input: Seq<char>)
    ensures
        forall|st: ParseState|
            valid(input, st) ==> later(input, st, (#[trigger] parse_default_value(input, st)).2),
{
    lemma_token_steps(input);
    lemma_values(input);
}

/// A field never moves back, and takes a token where it is parsed.
pub proof fn lemma_parse_field(input: Seq<char>)
    ensures
        forall|st: ParseState|
            valid(input, st) ==> later(input, st, (#[trigger] parse_field(input, st)).1)
                && (parse_field(input, st).0 is Some ==> st.offset < parse_field(input, st).1.offset),
{
    lemma_token_steps(input);
    lemma_parse_field_lead(input);
    lemma_types(input);
    lemma_parse_identifier(input);
    lemma_parse_default_value(input);
    lemma_opt_parse_ext(input);
}

/// The fields of a body never move back, and each field or recovery moves on:
/// the test in the definition never fails.
pub proof fn lemma_body_fields(input: Seq<char>, st: ParseState, acc: Seq<crate::ast::FieldNodeView>)
    requires
        valid(input, st),
    ensures
        later(input, st, body_fields(input, st, acc).1),
        !at_close(input, st, TokenKindView::Rbrace).0 ==> moved(
            input,
            st,
            match parse_field(input, at_close(input, st, TokenKindView::Rbrace).1).0 {
                Some(_) => parse_field(input, at_close(input, st, TokenKindView::Rbrace).1).1,
                None => recover_to_next_line(
                    input,
                    parse_field(input, at_close(input, st, TokenKindView::Rbrace).1).1,
                ),
            },
        ),
    decreases input.len() - st.offset,
{
    lemma_token_steps(input);
    lemma_parse_field(input);
    let (done, st1) = at_close(input, st, TokenKindView::Rbrace);
    if !done {
        let (item, st2) = parse_field(input, st1);
        let st3 = match item {
            Some(_) => st2,
            None => recover_to_next_line(input, st2),
        };
        let acc2 = match item {
            Some(v) => acc.push(v),
            None => acc,
        };
        lemma_body_fields(input, st3, acc2);
    }
}

/// The fields of a parameter list never move back, and each field moves on.
pub proof fn lemma_list_fields(input: Seq<char>, st: ParseState, acc: Seq<crate::ast::FieldNodeView>)
    requires
        valid(input, st),
    ensures
        later(input, st, list_fields(input, st, acc).1),
        !at_close(input, st, TokenKindView::Rparen).0 && parse_field(
            input,
            at_close(input, st, TokenKindView::Rparen).1,
        ).0 is Some ==> moved(
            input,
            st,
            parse_field(input, at_close(input, st, TokenKindView::Rparen).1).1,
        ),
    decreases input.len() - st.offset,
{
    lemma_token_steps(input);
    lemma_parse_field(input);
    let (done, st1) = at_close(input, st, TokenKindView::Rparen);
    if !done {
        let (item, st2) = parse_field(input, st1);
        if item is Some {
            lemma_list_fields(input, st2, acc.push(item.unwrap()));
        }
    }
}

/// The value of an enum value never moves back.
pub proof fn lemma_parse_enum_number(input: Seq<char>)
    ensures
        forall|st: ParseState|
            valid(input, st) ==> later(input, st, (#[trigger] parse_enum_number(input, st)).2),
{
    lemma_token_steps(input);
}

/// An enum value never moves back, and takes a token where it is parsed.
pub proof fn lemma_parse_enum_value(input: Seq<char>)
    ensures
        forall|st: ParseState|
            valid(input, st) ==> later(input, st, (#[trigger] parse_enum_value(input, st)).1)
                && (parse_enum_value(input, st).0 is Some ==> st.offset < parse_enum_value(input, st).1.offset),
{
    lemma_token_steps(input);
    lemma_parse_enum_number(input);
    lemma_opt_parse_ext(input);
}

/// The values of an enum never move back, and each value or recovery moves
/// on.
pub proof fn lemma_enum_values(input: Seq<char>, st: ParseState, acc: Seq<crate::ast::EnumValueNodeView>)
    requires
        valid(input, st),
    ensures
        later(input, st, enum_values(input, st, acc).1),
        !at_close(input, st, TokenKindView::Rbrace).0 ==> moved(
            input,
            st,
            match parse_enum_value(input, at_close(input, st, TokenKindView::Rbrace).1).0 {
                Some(_) => parse_enum_value(input, at_close(input, st, TokenKindView::Rbrace).1).1,
                None => recover_to_next_line(
                    input,
                    parse_enum_value(input, at_close(input, st, TokenKindView::Rbrace).1).1,
                ),
            },
        ),
    decreases input.len() - st.offset,
{
    lemma_token_steps(input);
    lemma_parse_enum_value(input);
    let (done, st1) = at_close(input, st, TokenKindView::Rbrace);
    if !done {
        let (item, st2) = parse_enum_value(input, st1);
        let st3 = match item {
            Some(_) => st2,
            None => recover_to_next_line(input, st2),
        };
        let acc2 = match item {
            Some(v) => acc.push(v),
            None => acc,
        };
        lemma_enum_values(input, st3, acc2);
    }
}

/// What opens a body takes its keyword, also where it fails.
pub proof fn lemma_open_body(input: Seq<char>)
    ensures
        forall|st: ParseState, keyword: TokenKindView, name: Seq<char>|
            valid(input, st) ==> later(input, st, (#[trigger] open_body(input, st, keyword, name)).1)
                && (!(peek(input, st).0.kind is Eof) ==> st.offset < open_body(
                input,
                st,
                keyword,
                name,
            ).1.offset),
{
    lemma_token_steps(input);
    lemma_parse_identifier(input);
}

/// The bodies of definitions never move back.
pub proof fn lemma_bodies(input: Seq<char>)
    ensures
        forall|st: ParseState, acc: Seq<crate::ast::FieldNodeView>|
            valid(input, st) ==> later(input, st, (#[trigger] body_fields(input, st, acc)).1),
        forall|st: ParseState, acc: Seq<crate::ast::FieldNodeView>|
            valid(input, st) ==> later(input, st, (#[trigger] list_fields(input, st, acc)).1),
        forall|st: ParseState, acc: Seq<crate::ast::EnumValueNodeView>|
            valid(input, st) ==> later(input, st, (#[trigger] enum_values(input, st, acc)).1),
{
    assert forall|st: ParseState, acc: Seq<crate::ast::FieldNodeView>|
        valid(input, st) implies later(input, st, (#[trigger] body_fields(input, st, acc)).1) by {
        lemma_body_fields(input, st, acc);
    }
    assert forall|st: ParseState, acc: Seq<crate::ast::FieldNodeView>|
        valid(input, st) implies later(input, st, (#[trigger] list_fields(input, st, acc)).1) by {
        lemma_list_fields(input, st, acc);
    }
    assert forall|st: ParseState, acc: Seq<crate::ast::EnumValueNodeView>|
        valid(input, st) implies later(input, st, (#[trigger] enum_values(input, st, acc)).1) by {
        lemma_enum_values(input, st, acc);
    }
}

/// A constant takes its keyword, also where it fails.
pub proof fn lemma_parse_const(input: Seq<char>)
    ensures
        forall|st: ParseState|
            valid(input, st) ==> later(input, st, (#[trigger] parse_const(input, st)).1)
                && (parse_const(input, st).0 is Some ==> st.offset < parse_const(input, st).1.offset)
                && (!(peek(input, st).0.kind is Eof) ==> st.offset < parse_const(input, st).1.offset),
{
    lemma_token_steps(input);
    lemma_types(input);
    lemma_parse_identifier(input);
    lemma_values(input);
}

/// A typedef takes its keyword, also where it fails.
pub proof fn lemma_parse_typedef(input: Seq<char>)
    ensures
        forall|st: ParseState|
            valid(input, st) ==> later(input, st, (#[trigger] parse_typedef(input, st)).1)
                && (parse_typedef(input, st).0 is Some ==> st.offset < parse_typedef(input, st).1.offset)
                && (!(peek(input, st).0.kind is Eof) ==> st.offset < parse_typedef(input, st).1.offset),
{
    lemma_token_steps(input);
    lemma_types(input);
    lemma_parse_identifier(input);
}

/// An enum takes its keyword, also where it fails.
pub proof fn lemma_parse_enum(input: Seq<char>)
    ensures
        forall|st: ParseState|
            valid(input, st) ==> later(input, st, (#[trigger] parse_enum(input, st)).1)
                && (parse_enum(input, st).0 is Some ==> st.offset < parse_enum(input, st).1.offset)
                && (!(peek(input, st).0.kind is Eof) ==> st.offset < parse_enum(input, st).1.offset),
{
    lemma_token_steps(input);
    lemma_open_body(input);
    lemma_bodies(input);
}

/// A struct takes its keyword, also where it fails.
pub proof fn lemma_parse_struct(input: Seq<char>)
    ensures
        forall|st: ParseState|
            valid(input, st) ==> later(input, st, (#[trigger] parse_struct(input, st)).1)
                && (parse_struct(input, st).0 is Some ==> st.offset < parse_struct(input, st).1.offset)
                && (!(peek(input, st).0.kind is Eof) ==> st.offset < parse_struct(input, st).1.offset),
{
    lemma_token_steps(input);
    lemma_open_body(input);
    lemma_bodies(input);
    lemma_opt_parse_ext(input);
}

/// A union takes its keyword, also where it fails.
pub proof fn lemma_parse_union(input: Seq<char>)
    ensures
        forall|st: ParseState|
            valid(input, st) ==> later(input, st, (#[trigger] parse_union(input, st)).1)
                && (parse_union(input, st).0 is Some ==> st.offset < parse_union(input, st).1.offset)
                && (!(peek(input, st).0.kind is Eof) ==> st.offset < parse_union(input, st).1.offset),
{
    lemma_token_steps(input);
    lemma_open_body(input);
    lemma_bodies(input);
}

/// An exception takes its keyword, also where it fails.
pub proof fn lemma_parse_exception(input: Seq<char>)
    ensures
        forall|st: ParseState|
            valid(input, st) ==> later(input, st, (#[trigger] parse_exception(input, st)).1)
                && (parse_exception(input, st).0 is Some ==> st.offset < parse_exception(input, st).1.offset)
                && (!(peek(input, st).0.kind is Eof) ==> st.offset < parse_exception(input, st).1.offset),
{
    lemma_token_steps(input);
    lemma_open_body(input);
    lemma_bodies(input);
}

/// The exceptions of a function never move back.
pub proof fn lemma_parse_throws(input: Seq<char>)
    ensures
        forall|st: ParseState|
            valid(input, st) ==> later(input, st, (#[trigger] parse_throws(input, st)).1),
{
    lemma_token_steps(input);
    lemma_bodies(input);
}

/// What opens a function never moves back, and takes a token where it
/// succeeds.
pub proof fn lemma_parse_function_head(input: Seq<char>)
    ensures
        forall|st: ParseState|
            valid(input, st) ==> later(input, st, (#[trigger] parse_function_head(input, st)).1)
                && (parse_function_head(input, st).0 is Some ==> st.offset < parse_function_head(input, st).1.offset),
{
    lemma_token_steps(input);
    lemma_types(input);
    lemma_parse_identifier(input);
}

/// The optional exceptions of a function never move back.
pub proof fn lemma_opt_parse_throws(input: Seq<char>)
    ensures
        forall|st: ParseState|
            valid(input, st) ==> later(input, st, (#[trigger] opt_parse_throws(input, st)).2),
{
    lemma_token_steps(input);
    lemma_parse_throws(input);
}

/// A function never moves back, and takes a token where it is parsed.
pub proof fn lemma_parse_function(input: Seq<char>)
    ensures
        forall|st: ParseState|
            valid(input, st) ==> later(input, st, (#[trigger] parse_function(input, st)).1)
                && (parse_function(input, st).0 is Some ==> st.offset < parse_function(input, st).1.offset),
{
    lemma_token_steps(input);
    lemma_parse_function_head(input);
    lemma_bodies(input);
    lemma_opt_parse_throws(input);
    lemma_opt_parse_ext(input);
}

/// The functions of a service never move back, and each function or recovery
/// moves on.
pub proof fn lemma_service_functions(input: Seq<char>, st: ParseState, acc: Seq<crate::ast::FunctionNodeView>)
    requires
        valid(input, st),
    ensures
        later(input, st, service_functions(input, st, acc).1),
        !at_close(input, st, TokenKindView::Rbrace).0 ==> moved(
            input,
            st,
            match parse_function(input, at_close(input, st, TokenKindView::Rbrace).1).0 {
                Some(_) => parse_function(input, at_close(input, st, TokenKindView::Rbrace).1).1,
                None => recover_to_next_line(
                    input,
                    parse_function(input, at_close(input, st, TokenKindView::Rbrace).1).1,
                ),
            },
        ),
    decreases input.len() - st.offset,
{
    lemma_token_steps(input);
    lemma_parse_function(input);
    let (done, st1) = at_close(input, st, TokenKindView::Rbrace);
    if !done {
        let (item, st2) = parse_function(input, st1);
        let st3 = match item {
            Some(_) => st2,
            None => recover_to_next_line(input, st2),
        };
        let acc2 = match item {
            Some(v) => acc.push(v),
            None => acc,
        };
        lemma_service_functions(input, st3, acc2);
    }
}

/// The service that a service extends never moves back.
pub proof fn lemma_parse_extends(input: Seq<char>)
    ensures
        forall|st: ParseState|
            valid(input, st) ==> later(input, st, (#[trigger] parse_extends(input, st)).2),
{
    lemma_token_steps(input);
}

/// A service takes its keyword, also where it fails.
pub proof fn lemma_parse_service(input: Seq<char>)
    ensures
        forall|st: ParseState|
            valid(input, st) ==> later(input, st, (#[trigger] parse_service(input, st)).1) && (
            parse_service(input, st).0 is Some ==> st.offset < parse_service(input, st).1.offset)
                && (!(peek(input, st).0.kind is Eof) ==> st.offset < parse_service(
                input,
                st,
            ).1.offset),
{
    lemma_token_steps(input);
    lemma_parse_identifier(input);
    lemma_parse_extends(input);
    assert forall|st: ParseState, acc: Seq<crate::ast::FunctionNodeView>|
        valid(input, st) implies later(input, st, (#[trigger] service_functions(input, st, acc)).1) by {
        lemma_service_functions(input, st, acc);
    }
}

/// A definition takes its keyword, also where it fails to parse.
pub proof fn lemma_parse_definition(input: Seq<char>)
    ensures
        forall|st: ParseState|
            valid(input, st) ==> later(input, st, (#[trigger] parse_definition(input, st)).1) && (
            !(peek(input, st).0.kind is Eof) ==> st.offset < parse_definition(input, st).1.offset),
        forall|st: ParseState|
            valid(input, st) ==> later(
                input,
                st,
                (#[trigger] parse_definition_or_recover(input, st)).1,
            ) && (!(peek(input, st).0.kind is Eof) ==> st.offset < parse_definition_or_recover(
                input,
                st,
            ).1.offset),
{
    lemma_token_steps(input);
    lemma_recovery(input);
    lemma_parse_const(input);
    lemma_parse_typedef(input);
    lemma_parse_enum(input);
    lemma_parse_struct(input);
    lemma_parse_union(input);
    lemma_parse_exception(input);
    lemma_parse_service(input);
    assert forall|st: ParseState| valid(input, st) implies later(
        input,
        st,
        (#[trigger] parse_definition_or_recover(input, st)).1,
    ) && (!(peek(input, st).0.kind is Eof) ==> st.offset < parse_definition_or_recover(
        input,
        st,
    ).1.offset) by {
        let token = peek(input, st).0;
        let st1 = add_error(st, "Unexpected token: "@ + token.kind.text(), token.range());
        crate::grammar::lemma_token_by_offset(input, st, st1);
    }
}

/// The definitions never move back, and each step between them moves on: the
/// test in the definition never fails.
pub proof fn lemma_parse_definitions(
    input: Seq<char>,
    st: ParseState,
    acc: Seq<crate::ast::DefinitionNodeView>,
)
    requires
        valid(input, st),
    ensures
        later(input, st, parse_definitions(input, st, acc).1),
        !(peek(input, st).0.kind is Eof) ==> moved(
            input,
            st,
            parse_definition_or_recover(input, peek(input, st).1).1,
        ),
    decreases input.len() - st.offset,
{
    lemma_token_steps(input);
    lemma_parse_definition(input);
    let (token, st1) = peek(input, st);
    if !(token.kind is Eof) {
        let (node, st2) = parse_definition_or_recover(input, st1);
        let acc2 = match node {
            Some(n) => acc.push(n),
            None => acc,
        };
        lemma_parse_definitions(input, st2, acc2);
    }
}

} // verus!
