//! The static check of fields and functions: within one list no field number
//! and no name may stand twice.

use vstd::prelude::*;
use crate::ast::{
    DefinitionNode, DefinitionNodeView, DocumentNode, DocumentNodeView, FieldNode, FieldNodeView,
    FunctionNode, FunctionNodeView,
};
use crate::base::{Error, ErrorView};
use crate::number::{decimal_string, decimal_text};
use crate::text::{concat_str, str_equals};

verus! {

/// One of the first `n` fields has the number `id`.
pub open spec fn id_taken(fields: Seq<FieldNodeView>, id: i32, n: int) -> bool
    decreases n,
{
    n > 0 && (id_taken(fields, id, n - 1) || (fields[n - 1].field_id matches Some(f) && f.id == id))
}

/// One of the first `n` fields has the name `name`.
pub open spec fn name_taken(fields: Seq<FieldNodeView>, name: Seq<char>, n: int) -> bool
    decreases n,
{
    n > 0 && (name_taken(fields, name, n - 1) || fields[n - 1].identifier.name == name)
}

/// One of the first `n` functions has the name `name`.
pub open spec fn function_name_taken(
    functions: Seq<FunctionNodeView>,
    name: Seq<char>,
    n: int,
) -> bool
    decreases n,
{
    n > 0 && (function_name_taken(functions, name, n - 1) || functions[n - 1].identifier.name
        == name)
}

/// The errors of the field at `i`: one at its number where a field before it
/// has that number, then one at its name where a field before it has that
/// name.
pub open spec fn field_check_errors(fields: Seq<FieldNodeView>, i: int) -> Seq<ErrorView> {
    let f = fields[i];
    (match f.field_id {
        Some(id) => if id_taken(fields, id.id, i) {
            seq![
                ErrorView {
                    range: id.range,
                    message: "Duplicate field ID: "@ + decimal_text(id.id as int),
                },
            ]
        } else {
            Seq::empty()
        },
        None => Seq::empty(),
    }) + (if name_taken(fields, f.identifier.name, i) {
        seq![
            ErrorView {
                range: f.identifier.range,
                message: "Duplicate field identifier: "@ + f.identifier.name,
            },
        ]
    } else {
        Seq::empty()
    })
}

/// The errors of the first `n` fields of a list.
pub open spec fn fields_check_errors(fields: Seq<FieldNodeView>, n: int) -> Seq<ErrorView>
    decreases n,
{
    if n <= 0 {
        Seq::empty()
    } else {
        fields_check_errors(fields, n - 1) + field_check_errors(fields, n - 1)
    }
}

/// The errors of the function at `i`: those of its parameters, then one at
/// its name where a function before it has that name.
pub open spec fn function_check_errors(functions: Seq<FunctionNodeView>, i: int) -> Seq<
    ErrorView,
> {
    let f = functions[i];
    fields_check_errors(f.fields, f.fields.len() as int) + (if function_name_taken(
        functions,
        f.identifier.name,
        i,
    ) {
        seq![
            ErrorView {
                range: f.identifier.range,
                message: "Duplicate function identifier: "@ + f.identifier.name,
            },
        ]
    } else {
        Seq::empty()
    })
}

/// The errors of the first `n` functions of a service.
pub open spec fn functions_check_errors(functions: Seq<FunctionNodeView>, n: int) -> Seq<
    ErrorView,
>
    decreases n,
{
    if n <= 0 {
        Seq::empty()
    } else {
        functions_check_errors(functions, n - 1) + function_check_errors(functions, n - 1)
    }
}

/// The errors of a definition: of the fields of a struct, union or
/// exception, and of the functions of a service.
pub open spec fn definition_check_errors(d: DefinitionNodeView) -> Seq<ErrorView> {
    match d {
        DefinitionNodeView::Struct(s) => fields_check_errors(s.fields, s.fields.len() as int),
        DefinitionNodeView::Union(u) => fields_check_errors(u.fields, u.fields.len() as int),
        DefinitionNodeView::Exception(e) => fields_check_errors(e.fields, e.fields.len() as int),
        DefinitionNodeView::Service(s) => functions_check_errors(
            s.functions,
            s.functions.len() as int,
        ),
        _ => Seq::empty(),
    }
}

/// The errors of the first `n` definitions.
pub open spec fn definitions_check_errors(defs: Seq<DefinitionNodeView>, n: int) -> Seq<ErrorView>
    decreases n,
{
    if n <= 0 {
        Seq::empty()
    } else {
        definitions_check_errors(defs, n - 1) + definition_check_errors(defs[n - 1])
    }
}

/// The errors of the static check of a document, in the order of the
/// document.
pub open spec fn document_check_errors(document: DocumentNodeView) -> Seq<ErrorView> {
    definitions_check_errors(document.definitions, document.definitions.len() as int)
}

fn id_seen(fields: &Vec<FieldNode>, id: i32, n: usize) -> (r: bool)
    requires
        n <= fields@.len(),
    ensures
        r == id_taken(fields.deep_view(), id, n as int),
{
    let mut i: usize = 0;
    let mut seen = false;
    while i < n
        invariant
            i <= n <= fields@.len(),
            seen == id_taken(fields.deep_view(), id, i as int),
        decreases n - i,
    {
        match &fields[i].field_id {
            Some(f) => {
                if f.id == id {
                    seen = true;
                }
            },
            None => {},
        }
        i += 1;
    }
    seen
}

fn name_seen(fields: &Vec<FieldNode>, name: &str, n: usize) -> (r: bool)
    requires
        n <= fields@.len(),
    ensures
        r == name_taken(fields.deep_view(), name@, n as int),
{
    let mut i: usize = 0;
    let mut seen = false;
    while i < n
        invariant
            i <= n <= fields@.len(),
            seen == name_taken(fields.deep_view(), name@, i as int),
        decreases n - i,
    {
        if str_equals(fields[i].identifier.name.as_str(), name) {
            seen = true;
        }
        i += 1;
    }
    seen
}

fn function_name_seen(functions: &Vec<FunctionNode>, name: &str, n: usize) -> (r: bool)
    requires
        n <= functions@.len(),
    ensures
        r == function_name_taken(functions.deep_view(), name@, n as int),
{
    let mut i: usize = 0;
    let mut seen = false;
    while i < n
        invariant
            i <= n <= functions@.len(),
            seen == function_name_taken(functions.deep_view(), name@, i as int),
        decreases n - i,
    {
        if str_equals(functions[i].identifier.name.as_str(), name) {
            seen = true;
        }
        i += 1;
    }
    seen
}

/// Checks a list of fields: no number and no name twice.
pub fn fields_check(fields: &Vec<FieldNode>, out: &mut Vec<Error>)
    ensures
        final(out).deep_view() == old(out).deep_view() + fields_check_errors(
            fields.deep_view(),
            fields@.len() as int,
        ),
{
    let ghost before = out.deep_view();
    assert(out.deep_view() =~= before + Seq::<ErrorView>::empty());
    let mut i: usize = 0;
    while i < fields.len()
        invariant
            i <= fields.len(),
            out.deep_view() == before + fields_check_errors(fields.deep_view(), i as int),
        decreases fields.len() - i,
    {
        let ghost so_far = out.deep_view();
        let field = &fields[i];
        match &field.field_id {
            Some(id) => {
                if id_seen(fields, id.id, i) {
                    let e = Error {
                        range: id.range,
                        message: concat_str("Duplicate field ID: ", decimal_string(id.id).as_str()),
                    };
                    out.push(e);
                    assert(out.deep_view() =~= so_far.push(e.deep_view()));
                }
            },
            None => {},
        }
        let ghost middle = out.deep_view();
        if name_seen(fields, field.identifier.name.as_str(), i) {
            let e = Error {
                range: field.identifier.range,
                message: concat_str(
                    "Duplicate field identifier: ",
                    field.identifier.name.as_str(),
                ),
            };
            out.push(e);
            assert(out.deep_view() =~= middle.push(e.deep_view()));
        }
        assert(out.deep_view() =~= so_far + field_check_errors(fields.deep_view(), i as int));
        i += 1;
        assert(out.deep_view() =~= before + fields_check_errors(fields.deep_view(), i as int));
    }
}

/// Checks the functions of a service: the parameters of each, and no name
/// twice.
pub fn functions_check(functions: &Vec<FunctionNode>, out: &mut Vec<Error>)
    ensures
        final(out).deep_view() == old(out).deep_view() + functions_check_errors(
            functions.deep_view(),
            functions@.len() as int,
        ),
{
    let ghost before = out.deep_view();
    assert(out.deep_view() =~= before + Seq::<ErrorView>::empty());
    let mut i: usize = 0;
    while i < functions.len()
        invariant
            i <= functions.len(),
            out.deep_view() == before + functions_check_errors(functions.deep_view(), i as int),
        decreases functions.len() - i,
    {
        let ghost so_far = out.deep_view();
        let function = &functions[i];
        fields_check(&function.fields, out);
        let ghost middle = out.deep_view();
        if function_name_seen(functions, function.identifier.name.as_str(), i) {
            let e = Error {
                range: function.identifier.range,
                message: concat_str(
                    "Duplicate function identifier: ",
                    function.identifier.name.as_str(),
                ),
            };
            out.push(e);
            assert(out.deep_view() =~= middle.push(e.deep_view()));
        }
        assert(out.deep_view() =~= so_far + function_check_errors(
            functions.deep_view(),
            i as int,
        ));
        i += 1;
        assert(out.deep_view() =~= before + functions_check_errors(
            functions.deep_view(),
            i as int,
        ));
    }
}

/// The static check of a document.
pub fn document_check(document: &DocumentNode) -> (r: Vec<Error>)
    ensures
        r.deep_view() == document_check_errors(document.deep_view()),
{
    let mut out: Vec<Error> = Vec::new();
    let ghost defs = document.deep_view().definitions;
    assert(out.deep_view() =~= Seq::<ErrorView>::empty());
    let mut i: usize = 0;
    while i < document.definitions.len()
        invariant
            i <= document.definitions.len(),
            defs == document.deep_view().definitions,
            out.deep_view() == definitions_check_errors(defs, i as int),
        decreases document.definitions.len() - i,
    {
        let ghost so_far = out.deep_view();
        match &*document.definitions[i] {
            DefinitionNode::Struct(node) => {
                fields_check(&node.fields, &mut out);
            },
            DefinitionNode::Union(node) => {
                fields_check(&node.fields, &mut out);
            },
            DefinitionNode::Exception(node) => {
                fields_check(&node.fields, &mut out);
            },
            DefinitionNode::Service(node) => {
                functions_check(&node.functions, &mut out);
            },
            _ => {
                assert(out.deep_view() =~= so_far + Seq::<ErrorView>::empty());
            },
        }
        i += 1;
    }
    out
}

} // verus!
