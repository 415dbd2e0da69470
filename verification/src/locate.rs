//! Finding what stands at a position: the name in the tree, the offset in
//! the text, and the word before an offset.

use vstd::prelude::*;
use crate::ast::{
    DefinitionNode, DefinitionNodeView, DocumentNode, DocumentNodeView, FieldNode, FieldNodeView,
    FieldTypeNode, FieldTypeView, FunctionNode, FunctionNodeView, HeaderNode, HeaderNodeView,
    IdentifierNode, IdentifierNodeView, field_type_wf,
};
use crate::base::Position;
use crate::scanner::{column_at, line_at};
use crate::text::string_from_chars;

verus! {

/// The first of two finds.
pub open spec fn or_else(
    a: Option<IdentifierNodeView>,
    b: Option<IdentifierNodeView>,
) -> Option<IdentifierNodeView> {
    match a {
        Some(_) => a,
        None => b,
    }
}

/// The name itself, where its range holds `pos`.
pub open spec fn find_in_identifier(id: IdentifierNodeView, pos: Position) -> Option<
    IdentifierNodeView,
> {
    if id.range.spec_contains(pos) {
        Some(id)
    } else {
        None
    }
}

/// The first name in a type whose range holds `pos`, searched from the
/// outside in and from left to right; a node whose range does not hold `pos`
/// is not searched.
pub open spec fn find_in_type(t: FieldTypeView, pos: Position) -> Option<IdentifierNodeView>
    decreases t,
{
    if !t.range().spec_contains(pos) {
        None
    } else {
        match t {
            FieldTypeView::Identifier(id) => Some(id),
            FieldTypeView::BaseType(_) => None,
            FieldTypeView::MapType(m) => or_else(
                find_in_type(*m.key_type, pos),
                find_in_type(*m.value_type, pos),
            ),
            FieldTypeView::SetType(s) => find_in_type(*s.type_node, pos),
            FieldTypeView::ListType(l) => find_in_type(*l.type_node, pos),
        }
    }
}

/// The first name in a field whose range holds `pos`: in its type, then its
/// own name.
pub open spec fn find_in_field(f: FieldNodeView, pos: Position) -> Option<IdentifierNodeView> {
    if !f.range.spec_contains(pos) {
        None
    } else {
        or_else(find_in_type(f.field_type, pos), find_in_identifier(f.identifier, pos))
    }
}

/// The first find in the fields from `from` on.
pub open spec fn find_in_fields(fields: Seq<FieldNodeView>, pos: Position, from: int) -> Option<
    IdentifierNodeView,
>
    decreases fields.len() - from,
{
    if from < 0 || from >= fields.len() {
        None
    } else {
        or_else(find_in_field(fields[from], pos), find_in_fields(fields, pos, from + 1))
    }
}

/// The first name in a function whose range holds `pos`: in its type, its
/// own name, in its parameters, in what it throws.
pub open spec fn find_in_function(f: FunctionNodeView, pos: Position) -> Option<
    IdentifierNodeView,
> {
    if !f.range.spec_contains(pos) {
        None
    } else {
        or_else(
            find_in_type(f.function_type, pos),
            or_else(
                find_in_identifier(f.identifier, pos),
                or_else(
                    find_in_fields(f.fields, pos, 0),
                    match f.throws {
                        Some(t) => find_in_fields(t, pos, 0),
                        None => None,
                    },
                ),
            ),
        )
    }
}

/// The first find in the functions from `from` on.
pub open spec fn find_in_functions(
    functions: Seq<FunctionNodeView>,
    pos: Position,
    from: int,
) -> Option<IdentifierNodeView>
    decreases functions.len() - from,
{
    if from < 0 || from >= functions.len() {
        None
    } else {
        or_else(
            find_in_function(functions[from], pos),
            find_in_functions(functions, pos, from + 1),
        )
    }
}

/// The first name in a definition whose range holds `pos`, its children
/// searched from left to right.
pub open spec fn find_in_definition(d: DefinitionNodeView, pos: Position) -> Option<
    IdentifierNodeView,
> {
    if !d.range().spec_contains(pos) {
        None
    } else {
        match d {
            DefinitionNodeView::Const(c) => or_else(
                find_in_type(c.field_type, pos),
                find_in_identifier(c.identifier, pos),
            ),
            DefinitionNodeView::Typedef(t) => or_else(
                find_in_type(t.definition_type, pos),
                find_in_identifier(t.identifier, pos),
            ),
            DefinitionNodeView::Enum(e) => find_in_identifier(e.identifier, pos),
            DefinitionNodeView::Struct(s) => or_else(
                find_in_identifier(s.identifier, pos),
                find_in_fields(s.fields, pos, 0),
            ),
            DefinitionNodeView::Union(u) => or_else(
                find_in_identifier(u.identifier, pos),
                find_in_fields(u.fields, pos, 0),
            ),
            DefinitionNodeView::Exception(e) => or_else(
                find_in_identifier(e.identifier, pos),
                find_in_fields(e.fields, pos, 0),
            ),
            DefinitionNodeView::Service(s) => or_else(
                find_in_identifier(s.identifier, pos),
                or_else(
                    match s.extends {
                        Some(e) => find_in_identifier(e, pos),
                        None => None,
                    },
                    find_in_functions(s.functions, pos, 0),
                ),
            ),
        }
    }
}

/// The first find in the definitions from `from` on.
pub open spec fn find_in_definitions(
    defs: Seq<DefinitionNodeView>,
    pos: Position,
    from: int,
) -> Option<IdentifierNodeView>
    decreases defs.len() - from,
{
    if from < 0 || from >= defs.len() {
        None
    } else {
        or_else(find_in_definition(defs[from], pos), find_in_definitions(defs, pos, from + 1))
    }
}

/// The name of a namespace header, where `pos` is in it.
pub open spec fn find_in_header(h: HeaderNodeView, pos: Position) -> Option<IdentifierNodeView> {
    match h {
        HeaderNodeView::Namespace(n) => if n.range.spec_contains(pos) {
            find_in_identifier(n.identifier, pos)
        } else {
            None
        },
        _ => None,
    }
}

/// The first find in the headers from `from` on.
pub open spec fn find_in_headers(headers: Seq<HeaderNodeView>, pos: Position, from: int) -> Option<
    IdentifierNodeView,
>
    decreases headers.len() - from,
{
    if from < 0 || from >= headers.len() {
        None
    } else {
        or_else(find_in_header(headers[from], pos), find_in_headers(headers, pos, from + 1))
    }
}

/// The name at `pos` in a document: the first name whose range holds `pos`,
/// the tree searched from the root down and from left to right, and no node
/// searched whose range does not hold `pos`.
pub open spec fn find_identifier(document: DocumentNodeView, pos: Position) -> Option<
    IdentifierNodeView,
> {
    if !document.range.spec_contains(pos) {
        None
    } else {
        or_else(
            find_in_headers(document.headers, pos, 0),
            find_in_definitions(document.definitions, pos, 0),
        )
    }
}

/// A name found in a well-formed type is well formed.
pub proof fn lemma_found_in_type(t: FieldTypeView, pos: Position)
    requires
        field_type_wf(t),
    ensures
        find_in_type(t, pos) matches Some(id) ==> id.wf(),
    decreases t,
{
    match t {
        FieldTypeView::Identifier(_) => {},
        FieldTypeView::BaseType(_) => {},
        FieldTypeView::MapType(m) => {
            lemma_found_in_type(*m.key_type, pos);
            lemma_found_in_type(*m.value_type, pos);
        },
        FieldTypeView::SetType(s) => {
            lemma_found_in_type(*s.type_node, pos);
        },
        FieldTypeView::ListType(l) => {
            lemma_found_in_type(*l.type_node, pos);
        },
    }
}

/// A name found in well-formed fields is well formed.
pub proof fn lemma_found_in_fields(fields: Seq<FieldNodeView>, pos: Position, from: int)
    requires
        forall|i: int| 0 <= i < fields.len() ==> (#[trigger] fields[i]).wf(),
        0 <= from,
    ensures
        find_in_fields(fields, pos, from) matches Some(id) ==> id.wf(),
    decreases fields.len() - from,
{
    if from < fields.len() {
        assert(fields[from].wf());
        lemma_found_in_type(fields[from].field_type, pos);
        lemma_found_in_fields(fields, pos, from + 1);
    }
}

/// A name found in a well-formed function is well formed.
pub proof fn lemma_found_in_function(f: FunctionNodeView, pos: Position)
    requires
        f.wf(),
    ensures
        find_in_function(f, pos) matches Some(id) ==> id.wf(),
{
    lemma_found_in_type(f.function_type, pos);
    assert forall|i: int| 0 <= i < f.fields.len() implies (#[trigger] f.fields[i]).wf() by {}
    lemma_found_in_fields(f.fields, pos, 0);
    match f.throws {
        Some(t) => {
            assert forall|i: int| 0 <= i < t.len() implies (#[trigger] t[i]).wf() by {}
            lemma_found_in_fields(t, pos, 0);
        },
        None => {},
    }
}

/// A name found in well-formed functions is well formed.
pub proof fn lemma_found_in_functions(functions: Seq<FunctionNodeView>, pos: Position, from: int)
    requires
        forall|i: int| 0 <= i < functions.len() ==> (#[trigger] functions[i]).wf(),
        0 <= from,
    ensures
        find_in_functions(functions, pos, from) matches Some(id) ==> id.wf(),
    decreases functions.len() - from,
{
    if from < functions.len() {
        assert(functions[from].wf());
        lemma_found_in_function(functions[from], pos);
        lemma_found_in_functions(functions, pos, from + 1);
    }
}

/// A name found in a well-formed definition is well formed.
pub proof fn lemma_found_in_definition(d: DefinitionNodeView, pos: Position)
    requires
        d.wf(),
    ensures
        find_in_definition(d, pos) matches Some(id) ==> id.wf(),
{
    match d {
        DefinitionNodeView::Const(c) => {
            lemma_found_in_type(c.field_type, pos);
        },
        DefinitionNodeView::Typedef(t) => {
            lemma_found_in_type(t.definition_type, pos);
        },
        DefinitionNodeView::Enum(_) => {},
        DefinitionNodeView::Struct(s) => {
            assert forall|i: int| 0 <= i < s.fields.len() implies (#[trigger] s.fields[i]).wf() by {}
            lemma_found_in_fields(s.fields, pos, 0);
        },
        DefinitionNodeView::Union(u) => {
            assert forall|i: int| 0 <= i < u.fields.len() implies (#[trigger] u.fields[i]).wf() by {}
            lemma_found_in_fields(u.fields, pos, 0);
        },
        DefinitionNodeView::Exception(e) => {
            assert forall|i: int| 0 <= i < e.fields.len() implies (#[trigger] e.fields[i]).wf() by {}
            lemma_found_in_fields(e.fields, pos, 0);
        },
        DefinitionNodeView::Service(s) => {
            assert forall|i: int| 0 <= i < s.functions.len() implies (
            #[trigger] s.functions[i]).wf() by {}
            lemma_found_in_functions(s.functions, pos, 0);
        },
    }
}

/// A name found in well-formed definitions is well formed.
pub proof fn lemma_found_in_definitions(defs: Seq<DefinitionNodeView>, pos: Position, from: int)
    requires
        forall|i: int| 0 <= i < defs.len() ==> (#[trigger] defs[i]).wf(),
        0 <= from,
    ensures
        find_in_definitions(defs, pos, from) matches Some(id) ==> id.wf(),
    decreases defs.len() - from,
{
    if from < defs.len() {
        assert(defs[from].wf());
        lemma_found_in_definition(defs[from], pos);
        lemma_found_in_definitions(defs, pos, from + 1);
    }
}

/// A name found in well-formed headers is well formed.
pub proof fn lemma_found_in_headers(headers: Seq<HeaderNodeView>, pos: Position, from: int)
    requires
        forall|i: int| 0 <= i < headers.len() ==> (#[trigger] headers[i]).wf(),
        0 <= from,
    ensures
        find_in_headers(headers, pos, from) matches Some(id) ==> id.wf(),
    decreases headers.len() - from,
{
    if from < headers.len() {
        assert(headers[from].wf());
        lemma_found_in_headers(headers, pos, from + 1);
    }
}

/// The name found in a well-formed document is well formed.
pub proof fn lemma_found_identifier(document: DocumentNodeView, pos: Position)
    requires
        document.wf(),
    ensures
        find_identifier(document, pos) matches Some(id) ==> id.wf(),
{
    assert forall|i: int| 0 <= i < document.headers.len() implies (
    #[trigger] document.headers[i]).wf() by {}
    assert forall|i: int| 0 <= i < document.definitions.len() implies (
    #[trigger] document.definitions[i]).wf() by {}
    lemma_found_in_headers(document.headers, pos, 0);
    lemma_found_in_definitions(document.definitions, pos, 0);
}

fn identifier_at<'a>(id: &'a IdentifierNode, pos: Position) -> (r: Option<&'a IdentifierNode>)
    ensures
        r.deep_view() == find_in_identifier(id.deep_view(), pos),
{
    if id.range.contains(pos) {
        Some(id)
    } else {
        None
    }
}

fn type_at<'a>(t: &'a FieldTypeNode, pos: Position) -> (r: Option<&'a IdentifierNode>)
    ensures
        r.deep_view() == find_in_type(t.deep_view(), pos),
    decreases t,
{
    if !t.range().contains(pos) {
        return None;
    }
    match t {
        FieldTypeNode::Identifier(id) => Some(id),
        FieldTypeNode::BaseType(_) => None,
        FieldTypeNode::MapType(m) => {
            match type_at(&m.key_type, pos) {
                Some(id) => Some(id),
                None => type_at(&m.value_type, pos),
            }
        },
        FieldTypeNode::SetType(s) => type_at(&s.type_node, pos),
        FieldTypeNode::ListType(l) => type_at(&l.type_node, pos),
    }
}

fn field_at<'a>(f: &'a FieldNode, pos: Position) -> (r: Option<&'a IdentifierNode>)
    ensures
        r.deep_view() == find_in_field(f.deep_view(), pos),
{
    if !f.range.contains(pos) {
        return None;
    }
    match type_at(&f.field_type, pos) {
        Some(id) => Some(id),
        None => identifier_at(&f.identifier, pos),
    }
}

fn fields_at<'a>(fields: &'a Vec<FieldNode>, pos: Position) -> (r: Option<&'a IdentifierNode>)
    ensures
        r.deep_view() == find_in_fields(fields.deep_view(), pos, 0),
{
    let mut i: usize = 0;
    while i < fields.len()
        invariant
            i <= fields.len(),
            find_in_fields(fields.deep_view(), pos, i as int) == find_in_fields(
                fields.deep_view(),
                pos,
                0,
            ),
        decreases fields.len() - i,
    {
        match field_at(&fields[i], pos) {
            Some(id) => {
                return Some(id);
            },
            None => {},
        }
        i += 1;
    }
    None
}

fn function_at<'a>(f: &'a FunctionNode, pos: Position) -> (r: Option<&'a IdentifierNode>)
    ensures
        r.deep_view() == find_in_function(f.deep_view(), pos),
{
    if !f.range.contains(pos) {
        return None;
    }
    match type_at(&f.function_type, pos) {
        Some(id) => {
            return Some(id);
        },
        None => {},
    }
    match identifier_at(&f.identifier, pos) {
        Some(id) => {
            return Some(id);
        },
        None => {},
    }
    match fields_at(&f.fields, pos) {
        Some(id) => {
            return Some(id);
        },
        None => {},
    }
    match &f.throws {
        Some(t) => fields_at(t, pos),
        None => None,
    }
}

fn functions_at<'a>(functions: &'a Vec<FunctionNode>, pos: Position) -> (r: Option<
    &'a IdentifierNode,
>)
    ensures
        r.deep_view() == find_in_functions(functions.deep_view(), pos, 0),
{
    let mut i: usize = 0;
    while i < functions.len()
        invariant
            i <= functions.len(),
            find_in_functions(functions.deep_view(), pos, i as int) == find_in_functions(
                functions.deep_view(),
                pos,
                0,
            ),
        decreases functions.len() - i,
    {
        match function_at(&functions[i], pos) {
            Some(id) => {
                return Some(id);
            },
            None => {},
        }
        i += 1;
    }
    None
}

fn definition_at<'a>(d: &'a DefinitionNode, pos: Position) -> (r: Option<&'a IdentifierNode>)
    ensures
        r.deep_view() == find_in_definition(d.deep_view(), pos),
{
    if !d.range().contains(pos) {
        return None;
    }
    match d {
        DefinitionNode::Const(c) => match type_at(&c.field_type, pos) {
            Some(id) => Some(id),
            None => identifier_at(&c.identifier, pos),
        },
        DefinitionNode::Typedef(t) => match type_at(&t.definition_type, pos) {
            Some(id) => Some(id),
            None => identifier_at(&t.identifier, pos),
        },
        DefinitionNode::Enum(e) => identifier_at(&e.identifier, pos),
        DefinitionNode::Struct(s) => match identifier_at(&s.identifier, pos) {
            Some(id) => Some(id),
            None => fields_at(&s.fields, pos),
        },
        DefinitionNode::Union(u) => match identifier_at(&u.identifier, pos) {
            Some(id) => Some(id),
            None => fields_at(&u.fields, pos),
        },
        DefinitionNode::Exception(e) => match identifier_at(&e.identifier, pos) {
            Some(id) => Some(id),
            None => fields_at(&e.fields, pos),
        },
        DefinitionNode::Service(s) => {
            match identifier_at(&s.identifier, pos) {
                Some(id) => {
                    return Some(id);
                },
                None => {},
            }
            let extends = match &s.extends {
                Some(e) => identifier_at(e, pos),
                None => None,
            };
            match extends {
                Some(id) => Some(id),
                None => functions_at(&s.functions, pos),
            }
        },
    }
}

fn header_at<'a>(h: &'a HeaderNode, pos: Position) -> (r: Option<&'a IdentifierNode>)
    ensures
        r.deep_view() == find_in_header(h.deep_view(), pos),
{
    match h {
        HeaderNode::Namespace(n) => {
            if n.range.contains(pos) {
                identifier_at(&n.identifier, pos)
            } else {
                None
            }
        },
        _ => None,
    }
}

/// The name at `pos` in the document.
pub fn identifier_in_document<'a>(document: &'a DocumentNode, pos: Position) -> (r: Option<
    &'a IdentifierNode,
>)
    ensures
        r.deep_view() == find_identifier(document.deep_view(), pos),
{
    if !document.range.contains(pos) {
        return None;
    }
    let mut i: usize = 0;
    while i < document.headers.len()
        invariant
            i <= document.headers.len(),
            document.deep_view().range.spec_contains(pos),
            find_in_headers(document.deep_view().headers, pos, i as int) == find_in_headers(
                document.deep_view().headers,
                pos,
                0,
            ),
        decreases document.headers.len() - i,
    {
        match header_at(&document.headers[i], pos) {
            Some(id) => {
                return Some(id);
            },
            None => {},
        }
        i += 1;
    }
    let mut j: usize = 0;
    while j < document.definitions.len()
        invariant
            j <= document.definitions.len(),
            document.deep_view().range.spec_contains(pos),
            find_in_headers(document.deep_view().headers, pos, 0) is None,
            find_in_definitions(document.deep_view().definitions, pos, j as int)
                == find_in_definitions(document.deep_view().definitions, pos, 0),
        decreases document.definitions.len() - j,
    {
        match definition_at(&document.definitions[j], pos) {
            Some(id) => {
                return Some(id);
            },
            None => {},
        }
        j += 1;
    }
    None
}

/// The offset that a walk through the text reaches at `pos`. The walk is at
/// `offset`, which stands at `line` and `column`; a line feed, a carriage
/// return, and a carriage return with its line feed each end a line. It
/// stops at the first offset that stands at or behind `pos`, or at the end
/// of the text; the result is that offset where it stands at `pos`.
pub open spec fn walk_to(text: Seq<char>, pos: Position, offset: int, line: int, column: int) -> Option<
    int,
>
    decreases text.len() - offset,
{
    if offset < 0 || offset >= text.len() || pos.line < line || (pos.line == line && pos.column
        <= column) {
        if pos.line == line && pos.column == column {
            Some(offset)
        } else {
            None
        }
    } else if text[offset] == '\n' {
        walk_to(text, pos, offset + 1, line + 1, 1)
    } else if text[offset] == '\r' {
        if offset + 1 < text.len() && text[offset + 1] == '\n' {
            walk_to(text, pos, offset + 2, line + 1, 1)
        } else {
            walk_to(text, pos, offset + 1, line + 1, 1)
        }
    } else {
        walk_to(text, pos, offset + 1, line, column + 1)
    }
}

/// The offset in `text` of the character at `pos`.
pub open spec fn offset_of(text: Seq<char>, pos: Position) -> Option<int> {
    walk_to(text, pos, 0, 1, 1)
}

/// What `walk_to` finds lies within the text, at or behind where the walk is.
pub proof fn lemma_walk_to(text: Seq<char>, pos: Position, offset: int, line: int, column: int)
    requires
        0 <= offset <= text.len(),
    ensures
        walk_to(text, pos, offset, line, column) matches Some(o) ==> offset <= o <= text.len(),
    decreases text.len() - offset,
{
    if offset >= text.len() || pos.line < line || (pos.line == line && pos.column <= column) {
    } else if text[offset] == '\n' {
        lemma_walk_to(text, pos, offset + 1, line + 1, 1);
    } else if text[offset] == '\r' {
        if offset + 1 < text.len() && text[offset + 1] == '\n' {
            lemma_walk_to(text, pos, offset + 2, line + 1, 1);
        } else {
            lemma_walk_to(text, pos, offset + 1, line + 1, 1);
        }
    } else {
        lemma_walk_to(text, pos, offset + 1, line, column + 1);
    }
}

/// The offset that a walk finds stands at `pos`, as the scanner counts lines
/// and columns: where the walk is at an offset with its line and column, and
/// not between a carriage return and its line feed, what it finds has the
/// line and the column of `pos`.
pub proof fn lemma_walk_finds_position(
    text: Seq<char>,
    pos: Position,
    offset: int,
)
    requires
        0 <= offset <= text.len(),
        !(offset > 0 && offset < text.len() && text[offset - 1] == '\r' && text[offset] == '\n'),
    ensures
        walk_to(text, pos, offset, line_at(text, offset), column_at(text, offset)) matches Some(o)
            ==> line_at(text, o) == pos.line && column_at(text, o) == pos.column,
    decreases text.len() - offset,
{
    let line = line_at(text, offset);
    let column = column_at(text, offset);
    if offset >= text.len() || pos.line < line || (pos.line == line && pos.column <= column) {
    } else if text[offset] == '\n' {
        lemma_walk_finds_position(text, pos, offset + 1);
    } else if text[offset] == '\r' {
        if offset + 1 < text.len() && text[offset + 1] == '\n' {
            assert(line_at(text, offset + 1) == line + 1);
            assert(line_at(text, offset + 2) == line + 1);
            assert(column_at(text, offset + 2) == 1);
            lemma_walk_finds_position(text, pos, offset + 2);
        } else {
            lemma_walk_finds_position(text, pos, offset + 1);
        }
    } else {
        lemma_walk_finds_position(text, pos, offset + 1);
    }
}

/// The offset of a position stands at that position.
pub proof fn lemma_offset_of(text: Seq<char>, pos: Position)
    ensures
        offset_of(text, pos) matches Some(o) ==> 0 <= o <= text.len() && line_at(text, o)
            == pos.line && column_at(text, o) == pos.column,
{
    lemma_walk_to(text, pos, 0, 1, 1);
    lemma_walk_finds_position(text, pos, 0);
}

/// The offset in `text` of the character at `pos`.
pub fn offset_at_position(text: &[char], pos: Position) -> (r: Option<usize>)
    requires
        text@.len() < u32::MAX,
    ensures
        r.is_some() == offset_of(text@, pos).is_some(),
        r.is_some() ==> r.unwrap() == offset_of(text@, pos).unwrap() && r.unwrap() <= text@.len(),
{
    proof {
        lemma_walk_to(text@, pos, 0, 1, 1);
    }
    let mut offset: usize = 0;
    let mut line: u32 = 1;
    let mut column: u32 = 1;
    while offset < text.len() && !(pos.line < line || (pos.line == line && pos.column <= column))
        invariant
            offset <= text@.len(),
            text@.len() < u32::MAX,
            1 <= line <= offset + 1,
            1 <= column <= offset + 1,
            walk_to(text@, pos, offset as int, line as int, column as int) == offset_of(
                text@,
                pos,
            ),
        decreases text@.len() - offset,
    {
        let c = text[offset];
        if c == '\n' {
            offset += 1;
            line += 1;
            column = 1;
        } else if c == '\r' {
            offset += 1;
            line += 1;
            column = 1;
            if offset < text.len() && text[offset] == '\n' {
                offset += 1;
            }
        } else {
            offset += 1;
            column += 1;
        }
    }
    if pos.line == line && pos.column == column {
        Some(offset)
    } else {
        None
    }
}

/// A letter or digit of ASCII, or an underscore.
pub open spec fn is_name_char(c: char) -> bool {
    ('a' <= c && c <= 'z') || ('A' <= c && c <= 'Z') || ('0' <= c && c <= '9') || c == '_'
}

/// The offset at which the word that ends before `end` starts.
pub open spec fn word_start(text: Seq<char>, end: int) -> int
    decreases end,
{
    if 0 < end <= text.len() && is_name_char(text[end - 1]) {
        word_start(text, end - 1)
    } else {
        end
    }
}

/// The word that ends before `end`: the letters, digits and underscores
/// directly before it.
pub open spec fn word_before(text: Seq<char>, end: int) -> Seq<char> {
    text.subrange(word_start(text, end), end)
}

/// The word that ends before `end`.
pub fn word_ending_at(text: &[char], end: usize) -> (r: String)
    requires
        end <= text@.len(),
    ensures
        r@ == word_before(text@, end as int),
{
    let mut start: usize = end;
    while start > 0 && is_name(text[start - 1])
        invariant
            start <= end <= text@.len(),
            word_start(text@, start as int) == word_start(text@, end as int),
        decreases start,
    {
        start -= 1;
    }
    string_from_chars(text, start, end)
}

fn is_name(c: char) -> (r: bool)
    ensures
        r == is_name_char(c),
{
    ('a' <= c && c <= 'z') || ('A' <= c && c <= 'Z') || ('0' <= c && c <= '9') || c == '_'
}

} // verus!
