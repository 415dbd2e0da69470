//! The symbol table of one document: its type definitions by name, and the
//! tables of the documents that it includes by namespace.

use vstd::prelude::*;
use vstd::string::*;
use std::rc::Rc;
use crate::ast::{
    DefinitionNode, DefinitionNodeView, DocumentNode, DocumentNodeView, FieldNode, FieldNodeView,
    FieldTypeNode, FieldTypeView, FunctionNode, FunctionNodeView, HeaderNode, HeaderNodeView,
    IdentifierNode, IdentifierNodeView, field_type_wf,
};
use crate::base::{Error, ErrorView};
use crate::dictionary::Dictionary;
use crate::path::{file_stem, stem_of};
use crate::text::{concat_str, str_equals};

verus! {

/// Symbol table for a single file.
pub struct SymbolTable {
    path: String,
    types: Dictionary<Rc<DefinitionNode>>,
    include_nodes: Dictionary<Rc<HeaderNode>>,
    includes: Vec<(String, Rc<SymbolTable>)>,
    namespace_to_path: Dictionary<String>,
    errors: Vec<Error>,
}

/// What a symbol table holds, as plain values.
pub struct SymbolTableView {
    /// The path of the document.
    pub path: Seq<char>,
    /// The type definitions of the document, by name.
    pub types: Map<Seq<char>, DefinitionNodeView>,
    /// The names of the types, in the order of their definitions.
    pub type_names: Seq<Seq<char>>,
    /// The `include` headers of the document, by namespace.
    pub include_nodes: Map<Seq<char>, HeaderNodeView>,
    /// The tables of the included documents with their namespaces, in the
    /// order in which the namespaces first came.
    pub includes: Seq<(Seq<char>, SymbolTableView)>,
    /// The paths of the included documents, by namespace.
    pub namespace_to_path: Map<Seq<char>, Seq<char>>,
    /// The errors found when the table was built.
    pub errors: Seq<ErrorView>,
}

/// The first offset from `from` on at which a table stands under `name`.
pub open spec fn find_table(
    includes: Seq<(Seq<char>, SymbolTableView)>,
    name: Seq<char>,
    from: int,
) -> Option<int>
    decreases includes.len() - from,
{
    if from < 0 || from >= includes.len() {
        None
    } else if includes[from].0 == name {
        Some(from)
    } else {
        find_table(includes, name, from + 1)
    }
}

/// The table included under the namespace `name`.
pub open spec fn lookup_table(includes: Seq<(Seq<char>, SymbolTableView)>, name: Seq<char>) -> Option<
    SymbolTableView,
> {
    match find_table(includes, name, 0) {
        Some(i) => Some(includes[i].1),
        None => None,
    }
}

/// The namespaces of a sequence of included tables, in order.
pub open spec fn namespaces(includes: Seq<(Seq<char>, SymbolTableView)>) -> Seq<Seq<char>> {
    Seq::new(includes.len(), |i: int| includes[i].0)
}

/// `includes` with `table` under `name`: in place of the table that stood
/// there, or else at the end.
pub open spec fn with_table(
    includes: Seq<(Seq<char>, SymbolTableView)>,
    name: Seq<char>,
    table: SymbolTableView,
) -> Seq<(Seq<char>, SymbolTableView)> {
    match find_table(includes, name, 0) {
        Some(i) => includes.update(i, (name, table)),
        None => includes.push((name, table)),
    }
}

/// The definition that `id` names in `table`, with the path of the document
/// that defines it. A name with a dot is looked up, without its first part,
/// in the table included under that part; the `include` header of that part
/// in `table` comes with the result. A name without a dot is looked up among
/// the types of `table`.
pub open spec fn find_definition(table: SymbolTableView, id: IdentifierNodeView) -> Option<
    (Seq<char>, DefinitionNodeView, Option<HeaderNodeView>),
>
    decreases id.name.len(),
{
    match id.split() {
        (Some(namespace), rest) => match lookup_table(table.includes, namespace.name) {
            Some(inner) => if rest.name.len() < id.name.len() {
                match find_definition(inner, rest) {
                    Some((path, definition, _)) => if table.include_nodes.contains_key(
                        namespace.name,
                    ) {
                        Some((path, definition, Some(table.include_nodes[namespace.name])))
                    } else {
                        None
                    },
                    None => None,
                }
            } else {
                None
            },
            None => None,
        },
        (None, _) => if table.types.contains_key(id.name) {
            Some((table.path, table.types[id.name], None))
        } else {
            None
        },
    }
}

/// What the definitions of a document give to its table.
pub struct Collected {
    /// The definitions that are types, by name: the first of each name.
    pub types: Map<Seq<char>, DefinitionNodeView>,
    /// Their names in the order of the definitions.
    pub names: Seq<Seq<char>>,
    /// One error for each definition whose name was taken.
    pub errors: Seq<ErrorView>,
}

/// The error for a definition whose name is taken: at the range of the
/// definition.
pub open spec fn duplicate_error(d: DefinitionNodeView) -> ErrorView {
    ErrorView { range: d.range(), message: "Duplicate definition: "@ + d.identifier().name }
}

/// What one more definition gives: a constant gives nothing, for its name is
/// no type; a definition whose name is taken gives an error; any other
/// definition is entered under its name.
pub open spec fn collect_step(c: Collected, d: DefinitionNodeView) -> Collected {
    if d is Const {
        c
    } else if c.types.contains_key(d.identifier().name) {
        Collected { errors: c.errors.push(duplicate_error(d)), ..c }
    } else {
        Collected {
            types: c.types.insert(d.identifier().name, d),
            names: c.names.push(d.identifier().name),
            errors: c.errors,
        }
    }
}

/// What the first `n` definitions give, taken one after the other.
pub open spec fn collected(defs: Seq<DefinitionNodeView>, n: int) -> Collected
    decreases n,
{
    if n <= 0 {
        Collected { types: Map::empty(), names: Seq::empty(), errors: Seq::empty() }
    } else {
        collect_step(collected(defs, n - 1), defs[n - 1])
    }
}

/// What the first `n` definitions give depends on those definitions alone.
pub proof fn lemma_collected_prefix(a: Seq<DefinitionNodeView>, b: Seq<DefinitionNodeView>, n: int)
    requires
        n <= a.len(),
        n <= b.len(),
        forall|i: int| 0 <= i < n ==> a[i] == b[i],
    ensures
        collected(a, n) == collected(b, n),
    decreases n,
{
    if n > 0 {
        lemma_collected_prefix(a, b, n - 1);
    }
}

/// A name is entered only for a definition that has it and is no constant.
pub proof fn lemma_collected_names(defs: Seq<DefinitionNodeView>, n: int, name: Seq<char>)
    requires
        0 <= n <= defs.len(),
        collected(defs, n).types.contains_key(name),
    ensures
        exists|j: int| 0 <= j < n && !(#[trigger] defs[j] is Const) && defs[j].identifier().name == name,
    decreases n,
{
    if n > 0 {
        let d = defs[n - 1];
        if collected(defs, n - 1).types.contains_key(name) {
            lemma_collected_names(defs, n - 1, name);
            let j = choose|j: int|
                0 <= j < n - 1 && !(#[trigger] defs[j] is Const) && defs[j].identifier().name == name;
            assert(0 <= j < n && !(defs[j] is Const) && defs[j].identifier().name == name);
        } else {
            assert(!(defs[n - 1] is Const) && defs[n - 1].identifier().name == name);
        }
    }
}

/// A second definition of a name changes no type and gives exactly one
/// error, `Duplicate definition:` with the name, at the second definition.
pub proof fn lemma_duplicate_definition(defs: Seq<DefinitionNodeView>, d: DefinitionNodeView)
    requires
        !(d is Const),
        collected(defs, defs.len() as int).types.contains_key(d.identifier().name),
    ensures
        collected(defs.push(d), defs.len() as int + 1).types == collected(defs, defs.len() as int).types,
        collected(defs.push(d), defs.len() as int + 1).names == collected(defs, defs.len() as int).names,
        collected(defs.push(d), defs.len() as int + 1).errors == collected(
            defs,
            defs.len() as int,
        ).errors.push(duplicate_error(d)),
{
    lemma_collected_prefix(defs.push(d), defs, defs.len() as int);
}

/// The first definition of a name is the one that the table keeps, whatever
/// follows it.
pub proof fn lemma_first_definition_kept(defs: Seq<DefinitionNodeView>, i: int, n: int)
    requires
        0 <= i < n <= defs.len(),
        !(defs[i] is Const),
        forall|j: int|
            0 <= j < i ==> (#[trigger] defs[j] is Const) || defs[j].identifier().name
                != defs[i].identifier().name,
    ensures
        collected(defs, n).types.contains_key(defs[i].identifier().name),
        collected(defs, n).types[defs[i].identifier().name] == defs[i],
    decreases n - i,
{
    let name = defs[i].identifier().name;
    if n == i + 1 {
        if collected(defs, i).types.contains_key(name) {
            lemma_collected_names(defs, i, name);
        }
    } else {
        lemma_first_definition_kept(defs, i, n - 1);
    }
}

/// The table of the document at `path` whose definitions gave `c`, before
/// any included table is added.
pub open spec fn table_with(path: Seq<char>, c: Collected) -> SymbolTableView {
    SymbolTableView {
        path,
        types: c.types,
        type_names: c.names,
        include_nodes: Map::empty(),
        includes: Seq::empty(),
        namespace_to_path: Map::empty(),
        errors: c.errors,
    }
}

/// The table of the document at `path`, before any included table is added.
pub open spec fn table_of(path: Seq<char>, document: DocumentNodeView) -> SymbolTableView {
    table_with(path, collected(document.definitions, document.definitions.len() as int))
}

/// `table` with the table `dependency` of the document at `path`, included
/// by `header`: the namespace is the stem of `path`.
pub open spec fn with_dependency(
    table: SymbolTableView,
    path: Seq<char>,
    header: HeaderNodeView,
    dependency: SymbolTableView,
) -> SymbolTableView {
    let namespace = file_stem(path);
    SymbolTableView {
        include_nodes: if header is Include {
            table.include_nodes.insert(namespace, header)
        } else {
            table.include_nodes
        },
        includes: with_table(table.includes, namespace, dependency),
        namespace_to_path: table.namespace_to_path.insert(namespace, path),
        ..table
    }
}

/// The error for a name that is no type: at the range of the name.
pub open spec fn undefined_error(id: IdentifierNodeView) -> ErrorView {
    ErrorView { range: id.range, message: "Undefined type: "@ + id.name }
}

/// The errors of a name at the place of a type: one where it names none.
pub open spec fn identifier_errors(table: SymbolTableView, id: IdentifierNodeView) -> Seq<
    ErrorView,
> {
    if find_definition(table, id) is None {
        seq![undefined_error(id)]
    } else {
        Seq::empty()
    }
}

/// The errors of a type: a built-in type has none, a name must be defined,
/// and a container has those of the types it is made of.
pub open spec fn type_errors(table: SymbolTableView, t: FieldTypeView) -> Seq<ErrorView>
    decreases t,
{
    match t {
        FieldTypeView::Identifier(id) => identifier_errors(table, id),
        FieldTypeView::BaseType(_) => Seq::empty(),
        FieldTypeView::MapType(m) => type_errors(table, *m.key_type) + type_errors(
            table,
            *m.value_type,
        ),
        FieldTypeView::SetType(s) => type_errors(table, *s.type_node),
        FieldTypeView::ListType(l) => type_errors(table, *l.type_node),
    }
}

/// The errors of the types of the first `n` fields.
pub open spec fn fields_errors(table: SymbolTableView, fields: Seq<FieldNodeView>, n: int) -> Seq<
    ErrorView,
>
    decreases n,
{
    if n <= 0 {
        Seq::empty()
    } else {
        fields_errors(table, fields, n - 1) + type_errors(table, fields[n - 1].field_type)
    }
}

/// The errors of a function: of its type, of its parameters, and of what it
/// throws.
pub open spec fn function_errors(table: SymbolTableView, f: FunctionNodeView) -> Seq<ErrorView> {
    type_errors(table, f.function_type) + fields_errors(table, f.fields, f.fields.len() as int)
        + match f.throws {
        Some(t) => fields_errors(table, t, t.len() as int),
        None => Seq::empty(),
    }
}

/// The errors of the first `n` functions.
pub open spec fn functions_errors(
    table: SymbolTableView,
    functions: Seq<FunctionNodeView>,
    n: int,
) -> Seq<ErrorView>
    decreases n,
{
    if n <= 0 {
        Seq::empty()
    } else {
        functions_errors(table, functions, n - 1) + function_errors(table, functions[n - 1])
    }
}

/// The errors of the types in a definition: the type of a constant, the
/// types of the fields of a struct, union or exception, and for a service the
/// service it extends and its functions. A typedef and an enum have none.
pub open spec fn definition_errors(table: SymbolTableView, d: DefinitionNodeView) -> Seq<
    ErrorView,
> {
    match d {
        DefinitionNodeView::Const(c) => type_errors(table, c.field_type),
        DefinitionNodeView::Struct(s) => fields_errors(table, s.fields, s.fields.len() as int),
        DefinitionNodeView::Union(u) => fields_errors(table, u.fields, u.fields.len() as int),
        DefinitionNodeView::Exception(e) => fields_errors(table, e.fields, e.fields.len() as int),
        DefinitionNodeView::Service(s) => (match s.extends {
            Some(e) => identifier_errors(table, e),
            None => Seq::empty(),
        }) + functions_errors(table, s.functions, s.functions.len() as int),
        _ => Seq::empty(),
    }
}

/// The errors of the types in the first `n` definitions.
pub open spec fn definitions_errors(
    table: SymbolTableView,
    defs: Seq<DefinitionNodeView>,
    n: int,
) -> Seq<ErrorView>
    decreases n,
{
    if n <= 0 {
        Seq::empty()
    } else {
        definitions_errors(table, defs, n - 1) + definition_errors(table, defs[n - 1])
    }
}

/// The errors of the types in a document, in the order of the document.
pub open spec fn document_type_errors(table: SymbolTableView, document: DocumentNodeView) -> Seq<
    ErrorView,
> {
    definitions_errors(table, document.definitions, document.definitions.len() as int)
}

/// The types of a dictionary of definitions, as plain values.
pub open spec fn definitions_view(m: Map<Seq<char>, Rc<DefinitionNode>>) -> Map<
    Seq<char>,
    DefinitionNodeView,
> {
    Map::new(|k: Seq<char>| m.contains_key(k), |k: Seq<char>| m[k].deep_view())
}

/// The headers of a dictionary of headers, as plain values.
pub open spec fn headers_view(m: Map<Seq<char>, Rc<HeaderNode>>) -> Map<Seq<char>, HeaderNodeView> {
    Map::new(|k: Seq<char>| m.contains_key(k), |k: Seq<char>| m[k].deep_view())
}

/// The texts of a dictionary of texts, as plain values.
pub open spec fn texts_view(m: Map<Seq<char>, String>) -> Map<Seq<char>, Seq<char>> {
    Map::new(|k: Seq<char>| m.contains_key(k), |k: Seq<char>| m[k]@)
}

/// The table as plain values, with every included table.
pub closed spec fn table_view(t: SymbolTable) -> SymbolTableView
    decreases t,
{
    SymbolTableView {
        path: t.path@,
        types: definitions_view(t.types@),
        type_names: t.types.keys_view(),
        include_nodes: headers_view(t.include_nodes@),
        includes: Seq::new(
            t.includes@.len(),
            |i: int|
                if 0 <= i < t.includes@.len() {
                    (t.includes@[i].0@, table_view(*t.includes@[i].1))
                } else {
                    arbitrary()
                },
        ),
        namespace_to_path: texts_view(t.namespace_to_path@),
        errors: t.errors.deep_view(),
    }
}

/// In the table, and in every table that it includes, no name stands twice.
pub closed spec fn table_wf(t: SymbolTable) -> bool
    decreases t,
{
    &&& t.types.wf()
    &&& t.include_nodes.wf()
    &&& t.namespace_to_path.wf()
    &&& forall|i: int| 0 <= i < t.includes@.len() ==> table_wf(*(#[trigger] t.includes@[i]).1)
}

impl DeepView for SymbolTable {
    type V = SymbolTableView;

    closed spec fn deep_view(&self) -> SymbolTableView {
        table_view(*self)
    }
}

impl SymbolTable {
    /// The table is well formed.
    pub closed spec fn wf(&self) -> bool {
        table_wf(*self)
    }

    /// Create a new empty symbol table.
    pub fn new() -> (r: SymbolTable)
        ensures
            r.wf(),
            r.deep_view() == table_with(Seq::empty(), collected(Seq::empty(), 0)),
    {
        let r = SymbolTable {
            path: String::new(),
            types: Dictionary::new(),
            include_nodes: Dictionary::new(),
            includes: Vec::new(),
            namespace_to_path: Dictionary::new(),
            errors: Vec::new(),
        };
        proof {
            let v = table_view(r);
            let e = table_with(Seq::empty(), collected(Seq::empty(), 0));
            assert(v.types =~= e.types);
            assert(v.include_nodes =~= e.include_nodes);
            assert(v.includes =~= e.includes);
            assert(v.namespace_to_path =~= e.namespace_to_path);
            assert(v.errors =~= e.errors);
        }
        r
    }

    /// Enters one definition of the document.
    fn process_definition(&mut self, definition: &Rc<DefinitionNode>)
        requires
            old(self).wf(),
            old(self).deep_view().include_nodes == Map::<Seq<char>, HeaderNodeView>::empty(),
            old(self).deep_view().includes == Seq::<(Seq<char>, SymbolTableView)>::empty(),
            old(self).deep_view().namespace_to_path == Map::<Seq<char>, Seq<char>>::empty(),
        ensures
            final(self).wf(),
            final(self).deep_view() == table_with(
                old(self).deep_view().path,
                collect_step(
                    Collected {
                        types: old(self).deep_view().types,
                        names: old(self).deep_view().type_names,
                        errors: old(self).deep_view().errors,
                    },
                    definition.deep_view(),
                ),
            ),
    {
        let ghost before = table_view(*self);
        let ghost d = definition.deep_view();
        let ghost c = Collected {
            types: before.types,
            names: before.type_names,
            errors: before.errors,
        };
        match &**definition {
            DefinitionNode::Const(_) => {
                assert(table_view(*self).includes =~= before.includes);
                return ;
            },
            _ => {},
        }
        let name = definition.name();
        if self.types.contains_key(name) {
            let ghost errors = self.errors.deep_view();
            let e = Error {
                range: definition.range(),
                message: concat_str("Duplicate definition: ", name),
            };
            self.errors.push(e);
            assert(self.errors.deep_view() =~= errors.push(duplicate_error(d)));
            assert(table_view(*self).includes =~= before.includes);
            return ;
        }
        self.types.insert(String::from_str(name), definition.clone());
        proof {
            let after = table_view(*self);
            let target = table_with(before.path, collect_step(c, d));
            assert(after.types =~= target.types);
            assert(after.includes =~= target.includes);
        }
    }

    /// Create a new symbol table from an AST: the types of the document by
    /// name, with an error for each definition whose name is taken.
    pub fn new_from_ast(path: &str, document: &DocumentNode) -> (r: SymbolTable)
        ensures
            r.wf(),
            r.deep_view() == table_of(path@, document.deep_view()),
    {
        let mut table = SymbolTable::new();
        table.path = String::from_str(path);
        let ghost defs = document.deep_view().definitions;
        proof {
            let v = table_view(table);
            let e = table_with(path@, collected(defs, 0));
            assert(v.types =~= e.types);
            assert(v.include_nodes =~= e.include_nodes);
            assert(v.includes =~= e.includes);
            assert(v.namespace_to_path =~= e.namespace_to_path);
            assert(v.errors =~= e.errors);
        }
        let mut i: usize = 0;
        while i < document.definitions.len()
            invariant
                i <= document.definitions.len(),
                defs == document.deep_view().definitions,
                table.wf(),
                table.deep_view() == table_with(path@, collected(defs, i as int)),
            decreases document.definitions.len() - i,
        {
            table.process_definition(&document.definitions[i]);
            i += 1;
        }
        table
    }

    /// The offset of the table included under `name`.
    fn find_include(&self, name: &str) -> (r: Option<usize>)
        ensures
            r.is_some() == find_table(self.deep_view().includes, name@, 0).is_some(),
            r.is_some() ==> r.unwrap() == find_table(self.deep_view().includes, name@, 0).unwrap()
                && r.unwrap() < self.includes@.len(),
    {
        let ghost includes = table_view(*self).includes;
        let mut i: usize = 0;
        while i < self.includes.len()
            invariant
                i <= self.includes@.len(),
                includes == table_view(*self).includes,
                includes.len() == self.includes@.len(),
                find_table(includes, name@, i as int) == find_table(includes, name@, 0),
            decreases self.includes@.len() - i,
        {
            if str_equals(self.includes[i].0.as_str(), name) {
                return Some(i);
            }
            i += 1;
        }
        None
    }

    /// Add a dependency to the symbol table: the table of the document at
    /// `path`, which `node` includes, under the stem of `path` as namespace.
    pub fn add_dependency(&mut self, path: &str, node: Rc<HeaderNode>, dependency: Rc<SymbolTable>)
        requires
            old(self).wf(),
            dependency.wf(),
        ensures
            final(self).wf(),
            final(self).deep_view() == with_dependency(
                old(self).deep_view(),
                path@,
                node.deep_view(),
                dependency.deep_view(),
            ),
    {
        let ghost before = table_view(*self);
        let ghost target = with_dependency(
            before,
            path@,
            node.deep_view(),
            dependency.deep_view(),
        );
        let namespace = stem_of(path);
        let is_include = match &*node {
            HeaderNode::Include(_) => true,
            _ => false,
        };
        if is_include {
            self.include_nodes.insert(namespace.clone(), node);
        }
        match self.find_include(namespace.as_str()) {
            Some(i) => {
                self.includes.set(i, (namespace.clone(), dependency));
            },
            None => {
                self.includes.push((namespace.clone(), dependency));
            },
        }
        self.namespace_to_path.insert(namespace, String::from_str(path));
        proof {
            let after = table_view(*self);
            assert(after.types =~= target.types);
            assert(after.include_nodes =~= target.include_nodes);
            assert(after.includes =~= target.includes);
            assert(after.namespace_to_path =~= target.namespace_to_path);
        }
    }

    /// Get the types in the symbol table.
    pub fn types(&self) -> (r: &Dictionary<Rc<DefinitionNode>>)
        requires
            self.wf(),
        ensures
            r.wf(),
            definitions_view(r@) == self.deep_view().types,
            r.keys_view() == self.deep_view().type_names,
    {
        &self.types
    }

    /// Get the includes in the symbol table: for each namespace the table of
    /// the included document.
    pub fn includes(&self) -> (r: &Vec<(String, Rc<SymbolTable>)>)
        requires
            self.wf(),
        ensures
            r@.len() == self.deep_view().includes.len(),
            forall|i: int|
                0 <= i < r@.len() ==> (#[trigger] r@[i]).0@ == self.deep_view().includes[i].0
                    && r@[i].1.deep_view() == self.deep_view().includes[i].1 && r@[i].1.wf(),
    {
        &self.includes
    }

    /// The table included under the namespace `name`.
    pub fn included(&self, name: &str) -> (r: Option<&Rc<SymbolTable>>)
        requires
            self.wf(),
        ensures
            r.deep_view() == lookup_table(self.deep_view().includes, name@),
            r matches Some(t) ==> t.wf(),
    {
        match self.find_include(name) {
            Some(i) => Some(&self.includes[i].1),
            None => None,
        }
    }

    /// The namespaces under which tables are included, in the order in which
    /// they first came.
    pub fn namespaces(&self) -> (r: Vec<String>)
        ensures
            r.deep_view() == namespaces(self.deep_view().includes),
    {
        let mut out: Vec<String> = Vec::new();
        let ghost all = namespaces(self.deep_view().includes);
        let mut i: usize = 0;
        while i < self.includes.len()
            invariant
                i <= self.includes@.len(),
                all == namespaces(self.deep_view().includes),
                all.len() == self.includes@.len(),
                out.deep_view() == all.subrange(0, i as int),
            decreases self.includes@.len() - i,
        {
            let ghost before = out.deep_view();
            let name = self.includes[i].0.clone();
            out.push(name);
            i += 1;
            assert(out.deep_view() =~= before.push(name@));
            assert(out.deep_view() =~= all.subrange(0, i as int));
        }
        assert(all.subrange(0, i as int) =~= all);
        out
    }

    /// Get the errors found when the table was built.
    pub fn errors(&self) -> (r: Vec<Error>)
        ensures
            r.deep_view() == self.deep_view().errors,
    {
        let mut out: Vec<Error> = Vec::new();
        let mut i: usize = 0;
        while i < self.errors.len()
            invariant
                i <= self.errors.len(),
                out.deep_view() == self.errors.deep_view().subrange(0, i as int),
            decreases self.errors.len() - i,
        {
            let ghost before = out.deep_view();
            let e = self.errors[i].clone();
            out.push(e);
            i += 1;
            assert(out.deep_view() =~= before.push(e.deep_view()));
            assert(out.deep_view() =~= self.errors.deep_view().subrange(0, i as int));
        }
        assert(self.errors.deep_view().subrange(0, i as int) =~= self.errors.deep_view());
        out
    }

    /// The path of the document.
    pub fn path(&self) -> (r: &str)
        ensures
            r@ == self.deep_view().path,
    {
        self.path.as_str()
    }

    /// Find a definition of an identifier type: the path of the document that
    /// defines it, the definition, and, for a name with a namespace, the
    /// header that includes the namespace.
    pub fn find_definition_of_identifier_type(&self, identifier: &IdentifierNode) -> (r: Option<
        (String, Rc<DefinitionNode>, Option<Rc<HeaderNode>>),
    >)
        requires
            self.wf(),
            identifier.deep_view().fits(),
        ensures
            r.deep_view() == find_definition(self.deep_view(), identifier.deep_view()),
        decreases identifier.deep_view().name.len(),
    {
        proof {
            identifier.deep_view().lemma_split_fits();
        }
        let (namespace, rest) = identifier.split_by_first_dot();
        match namespace {
            Some(namespace) => {
                let i = match self.find_include(namespace.name.as_str()) {
                    Some(i) => i,
                    None => {
                        return None;
                    },
                };
                let inner = &self.includes[i].1;
                let (path, definition) = match inner.find_definition_of_identifier_type(&rest) {
                    Some((path, definition, _)) => (path, definition),
                    None => {
                        return None;
                    },
                };
                match self.include_nodes.get(namespace.name.as_str()) {
                    Some(header) => Some((path, definition, Some(header.clone()))),
                    None => None,
                }
            },
            None => {
                match self.types.get(identifier.name.as_str()) {
                    Some(definition) => Some((self.path.clone(), definition.clone(), None)),
                    None => None,
                }
            },
        }
    }

    /// Checks a name at the place of a type: an error where it names none.
    fn check_identifier_type(&self, identifier: &IdentifierNode, out: &mut Vec<Error>)
        requires
            self.wf(),
            identifier.deep_view().fits(),
        ensures
            final(out).deep_view() == old(out).deep_view() + identifier_errors(
                self.deep_view(),
                identifier.deep_view(),
            ),
    {
        let ghost before = out.deep_view();
        if self.find_definition_of_identifier_type(identifier).is_none() {
            let e = Error {
                range: identifier.range,
                message: concat_str("Undefined type: ", identifier.name.as_str()),
            };
            out.push(e);
            assert(out.deep_view() =~= before + seq![undefined_error(identifier.deep_view())]);
        } else {
            assert(out.deep_view() =~= before + Seq::<ErrorView>::empty());
        }
    }

    /// Checks a type: every name in it must be defined.
    fn check_field_type(&self, field_type: &FieldTypeNode, out: &mut Vec<Error>)
        requires
            self.wf(),
            field_type_wf(field_type.deep_view()),
        ensures
            final(out).deep_view() == old(out).deep_view() + type_errors(
                self.deep_view(),
                field_type.deep_view(),
            ),
        decreases field_type,
    {
        let ghost before = out.deep_view();
        match field_type {
            FieldTypeNode::Identifier(identifier) => {
                self.check_identifier_type(identifier, out);
            },
            FieldTypeNode::BaseType(_) => {
                assert(out.deep_view() =~= before + Seq::<ErrorView>::empty());
            },
            FieldTypeNode::MapType(map_type) => {
                self.check_field_type(&map_type.key_type, out);
                self.check_field_type(&map_type.value_type, out);
                assert(out.deep_view() =~= before + type_errors(
                    self.deep_view(),
                    field_type.deep_view(),
                ));
            },
            FieldTypeNode::SetType(set_type) => {
                self.check_field_type(&set_type.type_node, out);
            },
            FieldTypeNode::ListType(list_type) => {
                self.check_field_type(&list_type.type_node, out);
            },
        }
    }

    /// Checks the types of fields.
    fn check_fields(&self, fields: &Vec<FieldNode>, out: &mut Vec<Error>)
        requires
            self.wf(),
            forall|i: int| 0 <= i < fields@.len() ==> (#[trigger] fields@[i]).deep_view().wf(),
        ensures
            final(out).deep_view() == old(out).deep_view() + fields_errors(
                self.deep_view(),
                fields.deep_view(),
                fields@.len() as int,
            ),
    {
        let ghost before = out.deep_view();
        let mut i: usize = 0;
        assert(out.deep_view() =~= before + Seq::<ErrorView>::empty());
        while i < fields.len()
            invariant
                i <= fields.len(),
                self.wf(),
                forall|i: int| 0 <= i < fields@.len() ==> (#[trigger] fields@[i]).deep_view().wf(),
                out.deep_view() == before + fields_errors(
                    self.deep_view(),
                    fields.deep_view(),
                    i as int,
                ),
            decreases fields.len() - i,
        {
            let ghost so_far = fields_errors(self.deep_view(), fields.deep_view(), i as int);
            assert(fields@[i as int].deep_view().wf());
            self.check_field_type(&fields[i].field_type, out);
            i += 1;
            assert(out.deep_view() =~= before + fields_errors(
                self.deep_view(),
                fields.deep_view(),
                i as int,
            ));
        }
    }

    /// Checks the types of a function: its own, its parameters', and those of
    /// what it throws.
    fn check_function(&self, function: &FunctionNode, out: &mut Vec<Error>)
        requires
            self.wf(),
            function.deep_view().wf(),
        ensures
            final(out).deep_view() == old(out).deep_view() + function_errors(
                self.deep_view(),
                function.deep_view(),
            ),
    {
        let ghost before = out.deep_view();
        self.check_field_type(&function.function_type, out);
        assert forall|i: int| 0 <= i < function.fields@.len() implies (
        #[trigger] function.fields@[i]).deep_view().wf() by {
            assert(function.deep_view().fields[i].wf());
        }
        self.check_fields(&function.fields, out);
        match &function.throws {
            Some(throws) => {
                assert forall|i: int| 0 <= i < throws@.len() implies (
                #[trigger] throws@[i]).deep_view().wf() by {
                    assert(function.deep_view().throws.unwrap()[i].wf());
                }
                self.check_fields(throws, out);
            },
            None => {},
        }
        assert(out.deep_view() =~= before + function_errors(
            self.deep_view(),
            function.deep_view(),
        ));
    }

    /// Checks the types of functions.
    fn check_functions(&self, functions: &Vec<FunctionNode>, out: &mut Vec<Error>)
        requires
            self.wf(),
            forall|i: int|
                0 <= i < functions@.len() ==> (#[trigger] functions@[i]).deep_view().wf(),
        ensures
            final(out).deep_view() == old(out).deep_view() + functions_errors(
                self.deep_view(),
                functions.deep_view(),
                functions@.len() as int,
            ),
    {
        let ghost before = out.deep_view();
        let mut i: usize = 0;
        assert(out.deep_view() =~= before + Seq::<ErrorView>::empty());
        while i < functions.len()
            invariant
                i <= functions.len(),
                self.wf(),
                forall|i: int|
                    0 <= i < functions@.len() ==> (#[trigger] functions@[i]).deep_view().wf(),
                out.deep_view() == before + functions_errors(
                    self.deep_view(),
                    functions.deep_view(),
                    i as int,
                ),
            decreases functions.len() - i,
        {
            assert(functions@[i as int].deep_view().wf());
            self.check_function(&functions[i], out);
            i += 1;
            assert(out.deep_view() =~= before + functions_errors(
                self.deep_view(),
                functions.deep_view(),
                i as int,
            ));
        }
    }

    /// Checks the types of one definition.
    fn check_definition(&self, definition: &DefinitionNode, out: &mut Vec<Error>)
        requires
            self.wf(),
            definition.deep_view().wf(),
        ensures
            final(out).deep_view() == old(out).deep_view() + definition_errors(
                self.deep_view(),
                definition.deep_view(),
            ),
    {
        let ghost before = out.deep_view();
        match definition {
            DefinitionNode::Const(node) => {
                self.check_field_type(&node.field_type, out);
            },
            DefinitionNode::Struct(node) => {
                assert forall|i: int| 0 <= i < node.fields@.len() implies (
                #[trigger] node.fields@[i]).deep_view().wf() by {
                    assert(node.deep_view().fields[i].wf());
                }
                self.check_fields(&node.fields, out);
            },
            DefinitionNode::Union(node) => {
                assert forall|i: int| 0 <= i < node.fields@.len() implies (
                #[trigger] node.fields@[i]).deep_view().wf() by {
                    assert(node.deep_view().fields[i].wf());
                }
                self.check_fields(&node.fields, out);
            },
            DefinitionNode::Exception(node) => {
                assert forall|i: int| 0 <= i < node.fields@.len() implies (
                #[trigger] node.fields@[i]).deep_view().wf() by {
                    assert(node.deep_view().fields[i].wf());
                }
                self.check_fields(&node.fields, out);
            },
            DefinitionNode::Service(node) => {
                match &node.extends {
                    Some(extends) => {
                        self.check_identifier_type(extends, out);
                    },
                    None => {
                        assert(out.deep_view() =~= before + Seq::<ErrorView>::empty());
                    },
                }
                assert forall|i: int| 0 <= i < node.functions@.len() implies (
                #[trigger] node.functions@[i]).deep_view().wf() by {
                    assert(node.deep_view().functions[i].wf());
                }
                self.check_functions(&node.functions, out);
                assert(out.deep_view() =~= before + definition_errors(
                    self.deep_view(),
                    definition.deep_view(),
                ));
            },
            _ => {
                assert(out.deep_view() =~= before + Seq::<ErrorView>::empty());
            },
        }
    }

    /// Check the types of the document: every name at the place of a type
    /// must be defined, in this table or in an included one. The errors come
    /// in the order of the document.
    pub fn check_document_types(&self, document: &DocumentNode) -> (r: Vec<Error>)
        requires
            self.wf(),
            document.deep_view().wf(),
        ensures
            r.deep_view() == document_type_errors(self.deep_view(), document.deep_view()),
    {
        let mut out: Vec<Error> = Vec::new();
        let mut i: usize = 0;
        assert(out.deep_view() =~= Seq::<ErrorView>::empty());
        while i < document.definitions.len()
            invariant
                i <= document.definitions.len(),
                self.wf(),
                document.deep_view().wf(),
                out.deep_view() == definitions_errors(
                    self.deep_view(),
                    document.deep_view().definitions,
                    i as int,
                ),
            decreases document.definitions.len() - i,
        {
            assert(document.deep_view().definitions[i as int].wf());
            self.check_definition(&document.definitions[i], &mut out);
            i += 1;
        }
        out
    }
}

} // verus!
