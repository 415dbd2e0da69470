//! Semantic tokens: the names of types and functions in a document, in the
//! order of their positions, as the stream of numbers that editors read.

use vstd::prelude::*;
use crate::ast::{
    DefinitionNode, DefinitionNodeView, DocumentNode, DocumentNodeView, FieldNode, FieldNodeView,
    FieldTypeNode, FieldTypeView, FunctionNode, FunctionNodeView, IdentifierNode,
    IdentifierNodeView,
};
use crate::base::Range;
use crate::text::chars_of;

verus! {

/// The index of the token type `type` in the legend.
pub const TYPE_TOKEN: u32 = 0;

/// The index of the token type `function` in the legend.
pub const FUNCTION_TOKEN: u32 = 1;

/// A name to colour: where it stands, how long it is, and what it names.
#[derive(Debug, Clone, Copy, PartialEq, Eq, Structural)]
pub struct Mark {
    /// The range of the name.
    pub range: Range,
    /// The length of the name in UTF-16 code units.
    pub length: u32,
    /// The index of its token type in the legend.
    pub kind: u32,
}

/// The number of UTF-16 code units that write `c`.
pub open spec fn units_of(c: char) -> int {
    if c as u32 >= 0x10000 {
        2
    } else {
        1
    }
}

/// The number of UTF-16 code units that write the first `n` characters.
pub open spec fn utf16_len(s: Seq<char>, n: int) -> int
    decreases n,
{
    if n <= 0 {
        0
    } else {
        utf16_len(s, n - 1) + units_of(s[n - 1])
    }
}

/// The length of a name on the wire: its UTF-16 code units, and no more than
/// 32 bits hold.
pub open spec fn wire_length(s: Seq<char>) -> u32 {
    let n = utf16_len(s, s.len() as int);
    if n > u32::MAX {
        u32::MAX
    } else {
        n as u32
    }
}

/// The mark of a name of the given kind.
pub open spec fn mark_of(id: IdentifierNodeView, kind: u32) -> Mark {
    Mark { range: id.range, length: wire_length(id.name), kind }
}

/// The names in a type, from left to right, as marks of types.
pub open spec fn type_marks(t: FieldTypeView) -> Seq<Mark>
    decreases t,
{
    match t {
        FieldTypeView::Identifier(id) => seq![mark_of(id, TYPE_TOKEN)],
        FieldTypeView::BaseType(_) => Seq::empty(),
        FieldTypeView::MapType(m) => type_marks(*m.key_type) + type_marks(*m.value_type),
        FieldTypeView::SetType(s) => type_marks(*s.type_node),
        FieldTypeView::ListType(l) => type_marks(*l.type_node),
    }
}

/// The names in the types of the first `n` fields.
pub open spec fn fields_marks(fields: Seq<FieldNodeView>, n: int) -> Seq<Mark>
    decreases n,
{
    if n <= 0 {
        Seq::empty()
    } else {
        fields_marks(fields, n - 1) + type_marks(fields[n - 1].field_type)
    }
}

/// The names in the types of a function: its own type, its parameters, and
/// what it throws.
pub open spec fn function_marks(f: FunctionNodeView) -> Seq<Mark> {
    type_marks(f.function_type) + fields_marks(f.fields, f.fields.len() as int) + match f.throws {
        Some(t) => fields_marks(t, t.len() as int),
        None => Seq::empty(),
    }
}

/// The names in the types of the first `n` functions.
pub open spec fn functions_marks(functions: Seq<FunctionNodeView>, n: int) -> Seq<Mark>
    decreases n,
{
    if n <= 0 {
        Seq::empty()
    } else {
        functions_marks(functions, n - 1) + function_marks(functions[n - 1])
    }
}

/// The names of types in a definition: the names in the type of a constant;
/// the names in the type of a typedef, then its own name; the names in the
/// types of the fields of a struct, union or exception; for a service the
/// service it extends, then the names in the types of its functions.
pub open spec fn definition_marks(d: DefinitionNodeView) -> Seq<Mark> {
    match d {
        DefinitionNodeView::Const(c) => type_marks(c.field_type),
        DefinitionNodeView::Typedef(t) => type_marks(t.definition_type).push(
            mark_of(t.identifier, TYPE_TOKEN),
        ),
        DefinitionNodeView::Enum(_) => Seq::empty(),
        DefinitionNodeView::Struct(s) => fields_marks(s.fields, s.fields.len() as int),
        DefinitionNodeView::Union(u) => fields_marks(u.fields, u.fields.len() as int),
        DefinitionNodeView::Exception(e) => fields_marks(e.fields, e.fields.len() as int),
        DefinitionNodeView::Service(s) => (match s.extends {
            Some(e) => seq![mark_of(e, TYPE_TOKEN)],
            None => Seq::empty(),
        }) + functions_marks(s.functions, s.functions.len() as int),
    }
}

/// The names of types in the first `n` definitions.
pub open spec fn definitions_marks(defs: Seq<DefinitionNodeView>, n: int) -> Seq<Mark>
    decreases n,
{
    if n <= 0 {
        Seq::empty()
    } else {
        definitions_marks(defs, n - 1) + definition_marks(defs[n - 1])
    }
}

/// The names of the first `n` functions, as marks of functions.
pub open spec fn function_names(functions: Seq<FunctionNodeView>, n: int) -> Seq<Mark>
    decreases n,
{
    if n <= 0 {
        Seq::empty()
    } else {
        function_names(functions, n - 1).push(mark_of(functions[n - 1].identifier, FUNCTION_TOKEN))
    }
}

/// The names of the functions of the services among the first `n`
/// definitions.
pub open spec fn definitions_function_names(defs: Seq<DefinitionNodeView>, n: int) -> Seq<Mark>
    decreases n,
{
    if n <= 0 {
        Seq::empty()
    } else {
        definitions_function_names(defs, n - 1) + match defs[n - 1] {
            DefinitionNodeView::Service(s) => function_names(s.functions, s.functions.len() as int),
            _ => Seq::empty(),
        }
    }
}

/// Every name to colour in a document: the names of types, then the names of
/// functions, each group in the order of the document.
pub open spec fn document_marks(document: DocumentNodeView) -> Seq<Mark> {
    definitions_marks(document.definitions, document.definitions.len() as int)
        + definitions_function_names(document.definitions, document.definitions.len() as int)
}

/// The order of ranges: by start, then by end.
pub open spec fn range_leq(a: Range, b: Range) -> bool {
    a.start.leq(b.start) && (a.start == b.start ==> a.end.leq(b.end))
}

/// `marks` with `m` behind the last mark that is not behind it.
pub open spec fn insert_mark(marks: Seq<Mark>, m: Mark) -> Seq<Mark>
    decreases marks.len(),
{
    if marks.len() == 0 {
        seq![m]
    } else if range_leq(marks.last().range, m.range) {
        marks.push(m)
    } else {
        insert_mark(marks.drop_last(), m).push(marks.last())
    }
}

/// The first `n` marks in the order of their ranges; marks with one range
/// keep the order in which they came.
pub open spec fn sorted_marks(marks: Seq<Mark>, n: int) -> Seq<Mark>
    decreases n,
{
    if n <= 0 {
        Seq::empty()
    } else {
        insert_mark(sorted_marks(marks, n - 1), marks[n - 1])
    }
}

/// Each mark is at or behind the one before it.
pub open spec fn in_order(marks: Seq<Mark>) -> bool {
    forall|i: int, j: int|
        0 <= i <= j < marks.len() ==> range_leq((#[trigger] marks[i]).range, (#[trigger] marks[j]).range)
}

/// Each mark starts at a one-based position.
pub open spec fn one_based(marks: Seq<Mark>) -> bool {
    forall|i: int|
        0 <= i < marks.len() ==> (#[trigger] marks[i]).range.start.line >= 1
            && marks[i].range.start.column >= 1
}

/// Inserting keeps the length up by one, the order, and one-based starts.
pub proof fn lemma_insert_mark(marks: Seq<Mark>, m: Mark)
    ensures
        insert_mark(marks, m).len() == marks.len() + 1,
        in_order(marks) ==> in_order(insert_mark(marks, m)),
        one_based(marks) && m.range.start.line >= 1 && m.range.start.column >= 1 ==> one_based(
            insert_mark(marks, m),
        ),
        forall|i: int|
            0 <= i < insert_mark(marks, m).len() ==> (#[trigger] insert_mark(marks, m)[i]) == m
                || exists|j: int| 0 <= j < marks.len() && marks[j] == insert_mark(marks, m)[i],
    decreases marks.len(),
{
    let r = insert_mark(marks, m);
    if marks.len() == 0 {
    } else if range_leq(marks.last().range, m.range) {
        if in_order(marks) {
            assert forall|i: int, j: int| 0 <= i <= j < r.len() implies range_leq(
                (#[trigger] r[i]).range,
                (#[trigger] r[j]).range,
            ) by {
                if j == marks.len() && i < marks.len() {
                    assert(range_leq(marks[i].range, marks.last().range));
                }
            }
        }
        assert forall|i: int| 0 <= i < r.len() implies (#[trigger] r[i]) == m || exists|j: int|
            0 <= j < marks.len() && marks[j] == r[i] by {
            if i < marks.len() {
                assert(marks[i] == r[i]);
            }
        }
    } else {
        let rest = marks.drop_last();
        let inner = insert_mark(rest, m);
        lemma_insert_mark(rest, m);
        if in_order(marks) {
            assert(in_order(rest)) by {
                assert forall|i: int, j: int| 0 <= i <= j < rest.len() implies range_leq(
                    (#[trigger] rest[i]).range,
                    (#[trigger] rest[j]).range,
                ) by {
                    assert(range_leq(marks[i].range, marks[j].range));
                }
            }
            assert forall|i: int, j: int| 0 <= i <= j < r.len() implies range_leq(
                (#[trigger] r[i]).range,
                (#[trigger] r[j]).range,
            ) by {
                if j == inner.len() && i < inner.len() {
                    if inner[i] == m {
                    } else {
                        let k = choose|k: int| 0 <= k < rest.len() && rest[k] == inner[i];
                        assert(range_leq(marks[k].range, marks.last().range));
                    }
                } else if j < inner.len() {
                    assert(range_leq(inner[i].range, inner[j].range));
                }
            }
        }
        if one_based(marks) && m.range.start.line >= 1 && m.range.start.column >= 1 {
            assert(one_based(rest)) by {
                assert forall|i: int| 0 <= i < rest.len() implies (
                #[trigger] rest[i]).range.start.line >= 1 && rest[i].range.start.column >= 1 by {
                    assert(marks[i].range.start.line >= 1);
                }
            }
            assert forall|i: int| 0 <= i < r.len() implies (#[trigger] r[i]).range.start.line >= 1
                && r[i].range.start.column >= 1 by {
                if i < inner.len() {
                    assert(inner[i].range.start.line >= 1);
                } else {
                    assert(marks[marks.len() - 1].range.start.line >= 1);
                }
            }
        }
        assert forall|i: int| 0 <= i < r.len() implies (#[trigger] r[i]) == m || exists|j: int|
            0 <= j < marks.len() && marks[j] == r[i] by {
            if i < inner.len() {
                if inner[i] != m {
                    let k = choose|k: int| 0 <= k < rest.len() && rest[k] == inner[i];
                    assert(marks[k] == r[i]);
                }
            } else {
                assert(marks[marks.len() - 1] == r[i]);
            }
        }
    }
}

/// Sorting keeps the number of marks, puts them in order, and keeps
/// one-based starts.
pub proof fn lemma_sorted_marks(marks: Seq<Mark>, n: int)
    requires
        0 <= n <= marks.len(),
    ensures
        sorted_marks(marks, n).len() == n,
        in_order(sorted_marks(marks, n)),
        one_based(marks) ==> one_based(sorted_marks(marks, n)),
    decreases n,
{
    if n > 0 {
        lemma_sorted_marks(marks, n - 1);
        lemma_insert_mark(sorted_marks(marks, n - 1), marks[n - 1]);
    }
}

/// The five numbers of one token: its line relative to the token before it,
/// its start relative to that token where both stand on one line and else
/// to the start of the line, its length, its type, and no modifiers. Lines
/// and columns count from zero on the wire.
pub open spec fn token_data(previous: Option<Mark>, m: Mark) -> Seq<u32> {
    let line = m.range.start.line - 1;
    let column = m.range.start.column - 1;
    let (previous_line, previous_column) = match previous {
        Some(p) => (p.range.start.line - 1, p.range.start.column - 1),
        None => (0, 0),
    };
    let delta_line = line - previous_line;
    let delta_start = if delta_line == 0 {
        column - previous_column
    } else {
        column
    };
    seq![delta_line as u32, delta_start as u32, m.length, m.kind, 0u32]
}

/// The mark before the one at `i`.
pub open spec fn mark_before(marks: Seq<Mark>, i: int) -> Option<Mark> {
    if i >= 1 {
        Some(marks[i - 1])
    } else {
        None
    }
}

/// The stream of the first `n` marks: five numbers each.
pub open spec fn encode(marks: Seq<Mark>, n: int) -> Seq<u32>
    decreases n,
{
    if n <= 0 {
        Seq::empty()
    } else {
        encode(marks, n - 1) + token_data(mark_before(marks, n - 1), marks[n - 1])
    }
}

/// The semantic tokens of a document: its names of types and functions in
/// the order of their ranges, as a stream.
pub open spec fn semantic_tokens_of(document: DocumentNodeView) -> Seq<u32> {
    let marks = document_marks(document);
    let sorted = sorted_marks(marks, marks.len() as int);
    encode(sorted, sorted.len() as int)
}

/// The zero-based line and column at which the token `k` of a stream stands,
/// as an editor reads them: each token adds to the line of the one before,
/// and to its column where it stays on the line.
pub open spec fn decoded(stream: Seq<u32>, k: int) -> (int, int)
    decreases k + 1,
{
    if k < 0 {
        (0, 0)
    } else {
        let before = decoded(stream, k - 1);
        let delta_line = stream[5 * k] as int;
        let delta_start = stream[5 * k + 1] as int;
        (
            before.0 + delta_line,
            if delta_line == 0 {
                before.1 + delta_start
            } else {
                delta_start
            },
        )
    }
}

/// Along any stream the tokens never go back: each stands on a later line
/// than the one before, or on the same line at or behind it.
pub proof fn lemma_stream_monotonic(stream: Seq<u32>, k: int)
    requires
        0 <= k,
    ensures
        decoded(stream, k - 1).0 < decoded(stream, k).0 || (decoded(stream, k - 1).0 == decoded(
            stream,
            k,
        ).0 && decoded(stream, k - 1).1 <= decoded(stream, k).1),
{
}

/// The stream of `n` marks holds five numbers for each, and those of a mark
/// stay where they are when more marks follow.
pub proof fn lemma_encode_index(marks: Seq<Mark>, n: int, k: int, j: int)
    requires
        0 <= k < n,
        0 <= j < 5,
    ensures
        encode(marks, n).len() == 5 * n,
        encode(marks, n)[5 * k + j] == token_data(mark_before(marks, k), marks[k])[j],
    decreases n,
{
    lemma_encode_len(marks, n - 1);
    if k < n - 1 {
        lemma_encode_index(marks, n - 1, k, j);
    }
}

/// The stream of `n` marks holds five numbers for each.
pub proof fn lemma_encode_len(marks: Seq<Mark>, n: int)
    requires
        0 <= n,
    ensures
        encode(marks, n).len() == 5 * n,
    decreases n,
{
    if n > 0 {
        lemma_encode_len(marks, n - 1);
    }
}

/// The stream of marks that are in order and start at one-based positions
/// is read back as their positions, counted from zero.
pub proof fn lemma_stream_faithful(marks: Seq<Mark>, n: int, k: int)
    requires
        0 <= k < n <= marks.len(),
        in_order(marks),
        one_based(marks),
    ensures
        decoded(encode(marks, n), k) == (
            marks[k].range.start.line - 1,
            marks[k].range.start.column - 1,
        ),
    decreases k,
{
    reveal_with_fuel(decoded, 2);
    lemma_encode_index(marks, n, k, 0);
    lemma_encode_index(marks, n, k, 1);
    let stream = encode(marks, n);
    let data = token_data(mark_before(marks, k), marks[k]);
    assert(stream[5 * k] == data[0]);
    assert(stream[5 * k + 1] == data[1]);
    assert(marks[k].range.start.line >= 1);
    let line = marks[k].range.start.line - 1;
    let column = marks[k].range.start.column - 1;
    if k > 0 {
        lemma_stream_faithful(marks, n, k - 1);
        assert(range_leq(marks[k - 1].range, marks[k].range));
        assert(marks[k - 1].range.start.line >= 1);
        let previous_line = marks[k - 1].range.start.line - 1;
        let previous_column = marks[k - 1].range.start.column - 1;
        let delta_line = line - previous_line;
        assert(0 <= delta_line <= u32::MAX);
        assert(data[0] == delta_line as u32);
        if delta_line == 0 {
            assert(0 <= column - previous_column <= u32::MAX);
            assert(data[1] == (column - previous_column) as u32);
        } else {
            assert(data[1] == column as u32);
        }
        assert(decoded(stream, k - 1) == (previous_line, previous_column));
        assert(decoded(stream, k) == (line, column));
    } else {
        assert(decoded(stream, k - 1) == (0int, 0int));
        assert(data[0] == line as u32);
        if line == 0 {
            assert(data[1] == column as u32);
        } else {
            assert(data[1] == column as u32);
        }
    }
}

/// The length of a name on the wire.
pub fn wire_length_of(name: &str) -> (r: u32)
    ensures
        r == wire_length(name@),
{
    let chars = chars_of(name);
    let mut total: u64 = 0;
    let mut i: usize = 0;
    while i < chars.len()
        invariant
            i <= chars.len(),
            chars@ == name@,
            total == if utf16_len(chars@, i as int) > u32::MAX {
                u32::MAX as int
            } else {
                utf16_len(chars@, i as int)
            },
            0 <= utf16_len(chars@, i as int),
        decreases chars.len() - i,
    {
        let units: u64 = if (chars[i] as u32) >= 0x10000 {
            2
        } else {
            1
        };
        total = total + units;
        if total > 0xffff_ffff {
            total = 0xffff_ffff;
        }
        i += 1;
    }
    total as u32
}

fn mark(identifier: &IdentifierNode, kind: u32) -> (r: Mark)
    ensures
        r == mark_of(identifier.deep_view(), kind),
{
    Mark { range: identifier.range, length: wire_length_of(identifier.name.as_str()), kind }
}

fn push_mark(out: &mut Vec<Mark>, identifier: &IdentifierNode, kind: u32)
    requires
        identifier.deep_view().wf(),
    ensures
        final(out)@ == old(out)@.push(mark_of(identifier.deep_view(), kind)),
        one_based(old(out)@) ==> one_based(final(out)@),
{
    out.push(mark(identifier, kind));
}

fn collect_type_marks(t: &FieldTypeNode, out: &mut Vec<Mark>)
    requires
        t.deep_view().wf(),
    ensures
        final(out)@ == old(out)@ + type_marks(t.deep_view()),
        one_based(old(out)@) ==> one_based(final(out)@),
    decreases t,
{
    let ghost before = out@;
    match t {
        FieldTypeNode::Identifier(identifier) => {
            push_mark(out, identifier, TYPE_TOKEN);
            assert(out@ =~= before + type_marks(t.deep_view()));
        },
        FieldTypeNode::BaseType(_) => {
            assert(out@ =~= before + type_marks(t.deep_view()));
        },
        FieldTypeNode::MapType(m) => {
            collect_type_marks(&m.key_type, out);
            collect_type_marks(&m.value_type, out);
            assert(out@ =~= before + type_marks(t.deep_view()));
        },
        FieldTypeNode::SetType(s) => {
            collect_type_marks(&s.type_node, out);
        },
        FieldTypeNode::ListType(l) => {
            collect_type_marks(&l.type_node, out);
        },
    }
}

fn collect_fields_marks(fields: &Vec<FieldNode>, out: &mut Vec<Mark>)
    requires
        forall|i: int| 0 <= i < fields@.len() ==> (#[trigger] fields@[i]).deep_view().wf(),
    ensures
        final(out)@ == old(out)@ + fields_marks(fields.deep_view(), fields@.len() as int),
        one_based(old(out)@) ==> one_based(final(out)@),
{
    let ghost before = out@;
    assert(out@ =~= before + Seq::<Mark>::empty());
    let mut i: usize = 0;
    while i < fields.len()
        invariant
            i <= fields.len(),
            forall|i: int| 0 <= i < fields@.len() ==> (#[trigger] fields@[i]).deep_view().wf(),
            out@ == before + fields_marks(fields.deep_view(), i as int),
            one_based(before) ==> one_based(out@),
        decreases fields.len() - i,
    {
        assert(fields@[i as int].deep_view().wf());
        collect_type_marks(&fields[i].field_type, out);
        i += 1;
        assert(out@ =~= before + fields_marks(fields.deep_view(), i as int));
    }
}

fn collect_function_marks(function: &FunctionNode, out: &mut Vec<Mark>)
    requires
        function.deep_view().wf(),
    ensures
        final(out)@ == old(out)@ + function_marks(function.deep_view()),
        one_based(old(out)@) ==> one_based(final(out)@),
{
    let ghost before = out@;
    collect_type_marks(&function.function_type, out);
    assert forall|i: int| 0 <= i < function.fields@.len() implies (
    #[trigger] function.fields@[i]).deep_view().wf() by {
        assert(function.deep_view().fields[i].wf());
    }
    collect_fields_marks(&function.fields, out);
    match &function.throws {
        Some(throws) => {
            assert forall|i: int| 0 <= i < throws@.len() implies (
            #[trigger] throws@[i]).deep_view().wf() by {
                assert(function.deep_view().throws.unwrap()[i].wf());
            }
            collect_fields_marks(throws, out);
        },
        None => {},
    }
    assert(out@ =~= before + function_marks(function.deep_view()));
}

fn collect_functions_marks(functions: &Vec<FunctionNode>, out: &mut Vec<Mark>)
    requires
        forall|i: int| 0 <= i < functions@.len() ==> (#[trigger] functions@[i]).deep_view().wf(),
    ensures
        final(out)@ == old(out)@ + functions_marks(functions.deep_view(), functions@.len() as int),
        one_based(old(out)@) ==> one_based(final(out)@),
{
    let ghost before = out@;
    assert(out@ =~= before + Seq::<Mark>::empty());
    let mut i: usize = 0;
    while i < functions.len()
        invariant
            i <= functions.len(),
            forall|i: int|
                0 <= i < functions@.len() ==> (#[trigger] functions@[i]).deep_view().wf(),
            out@ == before + functions_marks(functions.deep_view(), i as int),
            one_based(before) ==> one_based(out@),
        decreases functions.len() - i,
    {
        assert(functions@[i as int].deep_view().wf());
        collect_function_marks(&functions[i], out);
        i += 1;
        assert(out@ =~= before + functions_marks(functions.deep_view(), i as int));
    }
}

fn collect_function_names(functions: &Vec<FunctionNode>, out: &mut Vec<Mark>)
    requires
        forall|i: int| 0 <= i < functions@.len() ==> (#[trigger] functions@[i]).deep_view().wf(),
    ensures
        final(out)@ == old(out)@ + function_names(functions.deep_view(), functions@.len() as int),
        one_based(old(out)@) ==> one_based(final(out)@),
{
    let ghost before = out@;
    assert(out@ =~= before + Seq::<Mark>::empty());
    let mut i: usize = 0;
    while i < functions.len()
        invariant
            i <= functions.len(),
            forall|i: int|
                0 <= i < functions@.len() ==> (#[trigger] functions@[i]).deep_view().wf(),
            out@ == before + function_names(functions.deep_view(), i as int),
            one_based(before) ==> one_based(out@),
        decreases functions.len() - i,
    {
        assert(functions@[i as int].deep_view().wf());
        push_mark(out, &functions[i].identifier, FUNCTION_TOKEN);
        i += 1;
        assert(out@ =~= before + function_names(functions.deep_view(), i as int));
    }
}

proof fn lemma_fields_wf(fields: &Vec<FieldNode>, parent: Range)
    requires
        forall|i: int|
            0 <= i < fields.deep_view().len() ==> parent.encloses(
                (#[trigger] fields.deep_view()[i]).range,
            ) && fields.deep_view()[i].wf(),
    ensures
        forall|i: int| 0 <= i < fields@.len() ==> (#[trigger] fields@[i]).deep_view().wf(),
{
    assert forall|i: int| 0 <= i < fields@.len() implies (#[trigger] fields@[i]).deep_view().wf() by {
        assert(fields.deep_view()[i].wf());
    }
}

fn collect_definition_marks(definition: &DefinitionNode, out: &mut Vec<Mark>)
    requires
        definition.deep_view().wf(),
    ensures
        final(out)@ == old(out)@ + definition_marks(definition.deep_view()),
        one_based(old(out)@) ==> one_based(final(out)@),
{
    let ghost before = out@;
    match definition {
        DefinitionNode::Const(node) => {
            collect_type_marks(&node.field_type, out);
        },
        DefinitionNode::Typedef(node) => {
            collect_type_marks(&node.definition_type, out);
            push_mark(out, &node.identifier, TYPE_TOKEN);
            assert(out@ =~= before + definition_marks(definition.deep_view()));
        },
        DefinitionNode::Enum(_) => {
            assert(out@ =~= before + Seq::<Mark>::empty());
        },
        DefinitionNode::Struct(node) => {
            proof {
                lemma_fields_wf(&node.fields, node.range);
            }
            collect_fields_marks(&node.fields, out);
        },
        DefinitionNode::Union(node) => {
            proof {
                lemma_fields_wf(&node.fields, node.range);
            }
            collect_fields_marks(&node.fields, out);
        },
        DefinitionNode::Exception(node) => {
            proof {
                lemma_fields_wf(&node.fields, node.range);
            }
            collect_fields_marks(&node.fields, out);
        },
        DefinitionNode::Service(node) => {
            match &node.extends {
                Some(extends) => {
                    push_mark(out, extends, TYPE_TOKEN);
                },
                None => {},
            }
            let ghost middle = out@;
            assert forall|i: int| 0 <= i < node.functions@.len() implies (
            #[trigger] node.functions@[i]).deep_view().wf() by {
                assert(node.deep_view().functions[i].wf());
            }
            collect_functions_marks(&node.functions, out);
            assert(out@ =~= before + definition_marks(definition.deep_view()));
        },
    }
}

/// Every name to colour in a document, in the order in which they are found.
pub fn collect_marks(document: &DocumentNode) -> (r: Vec<Mark>)
    requires
        document.deep_view().wf(),
    ensures
        r@ == document_marks(document.deep_view()),
        one_based(r@),
{
    let mut out: Vec<Mark> = Vec::new();
    let ghost defs = document.deep_view().definitions;
    assert(out@ =~= definitions_marks(defs, 0));
    let mut i: usize = 0;
    while i < document.definitions.len()
        invariant
            i <= document.definitions.len(),
            document.deep_view().wf(),
            defs == document.deep_view().definitions,
            out@ == definitions_marks(defs, i as int),
            one_based(out@),
        decreases document.definitions.len() - i,
    {
        assert(defs[i as int].wf());
        collect_definition_marks(&document.definitions[i], &mut out);
        i += 1;
    }
    let ghost types = out@;
    assert(out@ =~= types + definitions_function_names(defs, 0));
    let mut j: usize = 0;
    while j < document.definitions.len()
        invariant
            j <= document.definitions.len(),
            document.deep_view().wf(),
            defs == document.deep_view().definitions,
            out@ == types + definitions_function_names(defs, j as int),
            one_based(out@),
        decreases document.definitions.len() - j,
    {
        assert(defs[j as int].wf());
        match &*document.definitions[j] {
            DefinitionNode::Service(node) => {
                assert forall|i: int| 0 <= i < node.functions@.len() implies (
                #[trigger] node.functions@[i]).deep_view().wf() by {
                    assert(node.deep_view().functions[i].wf());
                }
                collect_function_names(&node.functions, &mut out);
            },
            _ => {},
        }
        j += 1;
        assert(out@ =~= types + definitions_function_names(defs, j as int));
    }
    out
}

fn range_at_or_before(a: &Range, b: &Range) -> (r: bool)
    ensures
        r == range_leq(*a, *b),
{
    a.start.at_or_before(&b.start) && (!(a.start.line == b.start.line && a.start.column
        == b.start.column) || a.end.at_or_before(&b.end))
}

/// Where `m` stands behind `j` marks that are not behind it, and before the
/// rest, which are, inserting it puts it at `j`.
proof fn lemma_insert_at(marks: Seq<Mark>, m: Mark, j: int)
    requires
        0 <= j <= marks.len(),
        forall|k: int| j <= k < marks.len() ==> !range_leq((#[trigger] marks[k]).range, m.range),
        j > 0 ==> range_leq(marks[j - 1].range, m.range),
    ensures
        insert_mark(marks, m) == marks.insert(j, m),
    decreases marks.len(),
{
    if marks.len() == 0 {
        assert(marks.insert(j, m) =~= seq![m]);
    } else if j == marks.len() {
        assert(marks.insert(j, m) =~= marks.push(m));
    } else {
        assert(!range_leq(marks[marks.len() - 1].range, m.range));
        let rest = marks.drop_last();
        assert forall|k: int| j <= k < rest.len() implies !range_leq(
            (#[trigger] rest[k]).range,
            m.range,
        ) by {
            assert(!range_leq(marks[k].range, m.range));
        }
        lemma_insert_at(rest, m, j);
        assert(marks.insert(j, m) =~= rest.insert(j, m).push(marks.last()));
    }
}

/// The marks in the order of their ranges.
pub fn sort_marks(marks: &Vec<Mark>) -> (r: Vec<Mark>)
    ensures
        r@ == sorted_marks(marks@, marks@.len() as int),
{
    let mut out: Vec<Mark> = Vec::new();
    assert(out@ =~= sorted_marks(marks@, 0));
    let mut i: usize = 0;
    while i < marks.len()
        invariant
            i <= marks.len(),
            out@ == sorted_marks(marks@, i as int),
            out@.len() == i,
        decreases marks.len() - i,
    {
        let m = marks[i];
        let mut j: usize = out.len();
        while j > 0 && !range_at_or_before(&out[j - 1].range, &m.range)
            invariant
                j <= out@.len(),
                forall|k: int| j <= k < out@.len() ==> !range_leq((#[trigger] out@[k]).range, m.range),
            decreases j,
        {
            j -= 1;
        }
        proof {
            lemma_insert_at(out@, m, j as int);
        }
        out.insert(j, m);
        i += 1;
    }
    out
}

/// The stream of marks that are in order and start at one-based positions.
pub fn encode_marks(marks: &Vec<Mark>) -> (r: Vec<u32>)
    requires
        in_order(marks@),
        one_based(marks@),
    ensures
        r@ == encode(marks@, marks@.len() as int),
{
    let mut out: Vec<u32> = Vec::new();
    assert(out@ =~= encode(marks@, 0));
    let mut previous_line: u32 = 0;
    let mut previous_column: u32 = 0;
    let mut i: usize = 0;
    while i < marks.len()
        invariant
            i <= marks.len(),
            in_order(marks@),
            one_based(marks@),
            out@ == encode(marks@, i as int),
            i == 0 ==> previous_line == 0 && previous_column == 0,
            i > 0 ==> previous_line == marks@[i - 1].range.start.line - 1 && previous_column
                == marks@[i - 1].range.start.column - 1,
        decreases marks.len() - i,
    {
        let m = marks[i];
        assert(marks@[i as int].range.start.line >= 1);
        proof {
            if i > 0 {
                assert(range_leq(marks@[i - 1].range, marks@[i as int].range));
            }
        }
        let line = m.range.start.line - 1;
        let column = m.range.start.column - 1;
        let delta_line = line - previous_line;
        let delta_start = if delta_line == 0 {
            column - previous_column
        } else {
            column
        };
        let ghost before = out@;
        out.push(delta_line);
        out.push(delta_start);
        out.push(m.length);
        out.push(m.kind);
        out.push(0);
        assert(out@ =~= before + token_data(mark_before(marks@, i as int), m));
        previous_line = line;
        previous_column = column;
        i += 1;
    }
    out
}

/// The semantic tokens of a document.
pub fn semantic_tokens(document: &DocumentNode) -> (r: Vec<u32>)
    requires
        document.deep_view().wf(),
    ensures
        r@ == semantic_tokens_of(document.deep_view()),
{
    let marks = collect_marks(document);
    let sorted = sort_marks(&marks);
    proof {
        lemma_sorted_marks(marks@, marks@.len() as int);
    }
    encode_marks(&sorted)
}

} // verus!
