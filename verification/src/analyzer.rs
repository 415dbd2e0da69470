//! The analyzer: keeps the documents of a workspace, parses them with the
//! documents that they include, checks them, and answers questions about
//! them.
//!
//! Reading a file is not the analyzer's work. An analysis goes on step by
//! step; a step that needs a file from outside says so, and the next step
//! takes what the read gave.

use vstd::prelude::*;
use vstd::string::*;
use std::rc::Rc;
use crate::ast::{DocumentNode, DocumentNodeView, HeaderNode, HeaderNodeView};
use crate::base::{Error, ErrorView, Location, LocationView, Position};
use crate::check::{document_check, document_check_errors};
use crate::dictionary::Dictionary;
use crate::grammar::parse_document;
use crate::locate::{
    find_identifier, identifier_in_document, lemma_found_identifier, offset_at_position,
    offset_of, word_before, word_ending_at,
};
use crate::parser::Parser;
use crate::path::{include_path, join_path, path_parent};
use crate::semantic::{semantic_tokens, semantic_tokens_of};
use crate::symbol::{
    document_type_errors, find_definition, lookup_table, namespaces, table_of, with_dependency,
    SymbolTable, SymbolTableView,
};
use crate::text::{chars_of, concat_str, str_equals};

verus! {

/// What a step of an analysis asks of its caller.
#[derive(Debug, PartialEq, Eq)]
pub enum Action {
    /// The analysis is at its end.
    Done,
    /// The analysis goes on with the next step.
    Continue,
    /// The file at this path is to be read, and the next step is to be given
    /// what the read gave.
    Read(String),
}

/// An action as plain values.
pub enum ActionView {
    Done,
    Continue,
    Read(Seq<char>),
}

impl DeepView for Action {
    type V = ActionView;

    open spec fn deep_view(&self) -> ActionView {
        match self {
            Action::Done => ActionView::Done,
            Action::Continue => ActionView::Continue,
            Action::Read(p) => ActionView::Read(p@),
        }
    }
}

/// What a step of an analysis is given.
#[derive(Debug, PartialEq, Eq)]
pub enum Event {
    /// Nothing: the analysis is to go on.
    Resume,
    /// The text of the file that was to be read.
    Content(String),
    /// The reason for which the file could not be read.
    Failed(String),
}

/// An event as plain values.
pub enum EventView {
    Resume,
    Content(Seq<char>),
    Failed(Seq<char>),
}

impl DeepView for Event {
    type V = EventView;

    open spec fn deep_view(&self) -> EventView {
        match self {
            Event::Resume => EventView::Resume,
            Event::Content(s) => EventView::Content(s@),
            Event::Failed(s) => EventView::Failed(s@),
        }
    }
}

/// A document whose includes are being resolved, as plain values.
pub struct FrameView {
    /// The path of the document.
    pub path: Seq<char>,
    /// The document.
    pub document: DocumentNodeView,
    /// Its table, with the included tables that are resolved so far.
    pub table: SymbolTableView,
    /// The paths that it includes, each with the header that includes it.
    pub dependencies: Seq<(Seq<char>, HeaderNodeView)>,
    /// How many of them are resolved.
    pub next: int,
}

/// The state of the analyzer, as plain values.
pub struct AnalyzerView {
    /// The text of each open document.
    pub documents: Map<Seq<char>, Seq<char>>,
    /// The tree of each parsed document.
    pub nodes: Map<Seq<char>, DocumentNodeView>,
    /// The table of each parsed document.
    pub tables: Map<Seq<char>, SymbolTableView>,
    /// The errors of each document.
    pub errors: Map<Seq<char>, Seq<ErrorView>>,
    /// The semantic tokens of each analyzed document.
    pub tokens: Map<Seq<char>, Seq<u32>>,
    /// The documents whose includes are being resolved: each includes the
    /// one behind it.
    pub stack: Seq<FrameView>,
}

/// The dependencies that the first `n` headers of the document at `path`
/// name: for each `include` the included path, seen from the directory of
/// `path`, with the header. A document without a directory has none.
pub open spec fn dependencies_of(path: Seq<char>, headers: Seq<HeaderNodeView>, n: int) -> Seq<
    (Seq<char>, HeaderNodeView),
>
    decreases n,
{
    if n <= 0 {
        Seq::empty()
    } else {
        dependencies_of(path, headers, n - 1) + match headers[n - 1] {
            HeaderNodeView::Include(node) => match include_path(path, node.literal) {
                Some(p) => seq![(p, headers[n - 1])],
                None => Seq::empty(),
            },
            _ => Seq::empty(),
        }
    }
}

/// The errors of the documents, with `more` behind those of `path`.
pub open spec fn errors_with(
    errors: Map<Seq<char>, Seq<ErrorView>>,
    path: Seq<char>,
    more: Seq<ErrorView>,
) -> Map<Seq<char>, Seq<ErrorView>> {
    errors.insert(
        path,
        (if errors.contains_key(path) {
            errors[path]
        } else {
            Seq::empty()
        }) + more,
    )
}

/// One of the first `n` frames is the document at `path`.
pub open spec fn stack_has(stack: Seq<FrameView>, path: Seq<char>, n: int) -> bool
    decreases n,
{
    n > 0 && (stack_has(stack, path, n - 1) || stack[n - 1].path == path)
}

/// The error at an `include` of a document that includes the including one.
pub open spec fn circular_error(dependency: (Seq<char>, HeaderNodeView)) -> ErrorView {
    ErrorView {
        range: dependency.1.range(),
        message: "Circular dependency detected: "@ + dependency.0,
    }
}

/// The error at an `include` of a file that could not be read.
pub open spec fn read_error(dependency: (Seq<char>, HeaderNodeView), reason: Seq<char>) -> ErrorView {
    ErrorView {
        range: dependency.1.range(),
        message: "Failed to read file "@ + dependency.0 + ": "@ + reason,
    }
}

impl AnalyzerView {
    /// The document at `path` with the text `content` is entered: it is
    /// parsed, its errors are kept, and its includes are to be resolved.
    pub open spec fn entered(self, path: Seq<char>, content: Seq<char>) -> AnalyzerView {
        let (document, errors) = parse_document(content);
        AnalyzerView {
            errors: errors_with(self.errors, path, errors),
            stack: self.stack.push(
                FrameView {
                    path,
                    document,
                    table: table_of(path, document),
                    dependencies: dependencies_of(
                        path,
                        document.headers,
                        document.headers.len() as int,
                    ),
                    next: 0,
                },
            ),
            ..self
        }
    }

    /// The analysis of the document at `path` with the text `content` is
    /// started: the text is kept, what was known of the document is dropped,
    /// an unfinished analysis is given up, and the document is entered.
    pub open spec fn started(self, path: Seq<char>, content: Seq<char>) -> AnalyzerView {
        AnalyzerView {
            documents: self.documents.insert(path, content),
            nodes: self.nodes.remove(path),
            tables: self.tables.remove(path),
            errors: self.errors.remove(path),
            tokens: self.tokens.remove(path),
            stack: Seq::empty(),
        }.entered(path, content)
    }

    /// The document at `path` is removed with all that is known of it.
    pub open spec fn removed(self, path: Seq<char>) -> AnalyzerView {
        AnalyzerView {
            documents: self.documents.remove(path),
            nodes: self.nodes.remove(path),
            tables: self.tables.remove(path),
            errors: self.errors.remove(path),
            tokens: self.tokens.remove(path),
            stack: self.stack,
        }
    }

    /// One more dependency of the last frame is resolved.
    pub open spec fn advanced(self) -> AnalyzerView {
        let top = self.stack.last();
        AnalyzerView {
            stack: self.stack.update(
                self.stack.len() - 1,
                FrameView { next: top.next + 1, ..top },
            ),
            ..self
        }
    }

    /// The document at `path` has one more error.
    pub open spec fn with_error(self, path: Seq<char>, error: ErrorView) -> AnalyzerView {
        AnalyzerView { errors: errors_with(self.errors, path, seq![error]), ..self }
    }

    /// The table of the last frame includes the table of `dependency`, where
    /// that document has a table.
    pub open spec fn linked(self, dependency: (Seq<char>, HeaderNodeView)) -> AnalyzerView {
        if self.tables.contains_key(dependency.0) {
            let top = self.stack.last();
            AnalyzerView {
                stack: self.stack.update(
                    self.stack.len() - 1,
                    FrameView {
                        table: with_dependency(
                            top.table,
                            dependency.0,
                            dependency.1,
                            self.tables[dependency.0],
                        ),
                        ..top
                    },
                ),
                ..self
            }
        } else {
            self
        }
    }

    /// The last frame is done: its tree and its table are kept under its
    /// path.
    pub open spec fn stored(self) -> AnalyzerView {
        let top = self.stack.last();
        AnalyzerView {
            nodes: self.nodes.insert(top.path, top.document),
            tables: self.tables.insert(top.path, top.table),
            stack: self.stack.drop_last(),
            ..self
        }
    }

    /// The analysis of the document at `root` ends: the errors of its table,
    /// of its types and of its fields come behind its errors so far, and its
    /// semantic tokens are made.
    pub open spec fn finished(self, root: Seq<char>) -> AnalyzerView {
        if self.nodes.contains_key(root) && self.tables.contains_key(root) {
            let document = self.nodes[root];
            let table = self.tables[root];
            AnalyzerView {
                errors: errors_with(
                    self.errors,
                    root,
                    table.errors + document_type_errors(table, document) + document_check_errors(
                        document,
                    ),
                ),
                tokens: self.tokens.insert(root, semantic_tokens_of(document)),
                ..self
            }
        } else {
            self
        }
    }

    /// One step of the analysis. Without a frame there is nothing to do.
    /// A frame whose dependencies are all resolved is stored; behind it the
    /// frame that includes it goes on, or the analysis ends. Else the next
    /// dependency is resolved: a document that is being resolved gives an
    /// error at the `include`, for it would include itself; a document that
    /// is parsed is linked; an open document is entered; any other document
    /// is to be read, and is entered with the text that the read gave, or
    /// gives an error at the `include` where the read failed.
    pub open spec fn step(self, event: EventView) -> (AnalyzerView, ActionView) {
        if self.stack.len() == 0 {
            (self, ActionView::Done)
        } else {
            let top = self.stack.last();
            if top.next < 0 || top.next >= top.dependencies.len() {
                after_store(self)
            } else {
                let dependency = top.dependencies[top.next];
                if stack_has(self.stack, dependency.0, self.stack.len() as int) {
                    (
                        self.with_error(top.path, circular_error(dependency)).advanced(),
                        ActionView::Continue,
                    )
                } else if self.nodes.contains_key(dependency.0) {
                    (self.linked(dependency).advanced(), ActionView::Continue)
                } else if self.documents.contains_key(dependency.0) {
                    (
                        self.entered(dependency.0, self.documents[dependency.0]),
                        ActionView::Continue,
                    )
                } else {
                    match event {
                        EventView::Content(content) => (
                            self.entered(dependency.0, content),
                            ActionView::Continue,
                        ),
                        EventView::Failed(reason) => (
                            self.with_error(top.path, read_error(dependency, reason)).advanced(),
                            ActionView::Continue,
                        ),
                        EventView::Resume => (self, ActionView::Read(dependency.0)),
                    }
                }
            }
        }
    }

    /// No document is being resolved twice, none that is being resolved is
    /// parsed, each parsed document has its table, and each frame but the
    /// last waits for a dependency.
    pub open spec fn inv(self) -> bool {
        &&& forall|i: int, j: int|
            0 <= i < j < self.stack.len() ==> (#[trigger] self.stack[i]).path != (
            #[trigger] self.stack[j]).path
        &&& forall|i: int|
            0 <= i < self.stack.len() ==> !self.nodes.contains_key((#[trigger] self.stack[i]).path)
        &&& forall|p: Seq<char>| self.nodes.contains_key(p) <==> self.tables.contains_key(p)
    }
}

/// The definition of the name at `pos` in the document at `path`. The name
/// is the one that the tree has at `pos`, and it must name a definition in
/// the table of the document. Where `pos` stands on the namespace of the
/// name, the result is the `include` header of that namespace in the
/// document; else it is the name of the definition, in the document that
/// defines it.
pub open spec fn definition_at(a: AnalyzerView, path: Seq<char>, pos: Position) -> Option<
    LocationView,
> {
    if !a.nodes.contains_key(path) {
        None
    } else {
        match find_identifier(a.nodes[path], pos) {
            Some(id) => if !a.tables.contains_key(path) {
                None
            } else {
                match find_definition(a.tables[path], id) {
                    Some((defining, definition, header)) => if id.in_namespace(pos) {
                        match header {
                            Some(h) => Some(LocationView { path, range: h.range() }),
                            None => None,
                        }
                    } else {
                        Some(LocationView { path: defining, range: definition.identifier().range })
                    },
                    None => None,
                }
            },
            None => None,
        }
    }
}

/// The names of types to offer at `pos` in the document at `path`. Behind a
/// dot they are the types of the document included under the word before
/// the dot, or one empty name where no document is included under it; else
/// they are the types of the document itself. A document that is not open or
/// not analyzed, and a position that is not in the text, have none.
pub open spec fn completion_types(a: AnalyzerView, path: Seq<char>, pos: Position) -> Seq<
    Seq<char>,
> {
    if !a.documents.contains_key(path) {
        Seq::empty()
    } else {
        let text = a.documents[path];
        match offset_of(text, pos) {
            Some(offset) => if !a.tables.contains_key(path) {
                Seq::empty()
            } else if offset > 0 && text[offset - 1] == '.' {
                match lookup_table(a.tables[path].includes, word_before(text, offset - 1)) {
                    Some(t) => t.type_names,
                    None => seq![Seq::empty()],
                }
            } else {
                a.tables[path].type_names
            },
            None => Seq::empty(),
        }
    }
}

/// The namespaces to offer in the document at `path`: those under which it
/// includes documents.
pub open spec fn completion_includes(a: AnalyzerView, path: Seq<char>) -> Seq<Seq<char>> {
    if a.tables.contains_key(path) {
        namespaces(a.tables[path].includes)
    } else {
        Seq::empty()
    }
}

/// The keywords to offer.
pub open spec fn keywords() -> Seq<Seq<char>> {
    seq![
        "namespace"@,
        "include"@,
        "cpp_include"@,
        "const"@,
        "typedef"@,
        "extends"@,
        "required"@,
        "optional"@,
        "oneway"@,
        "void"@,
        "bool"@,
        "byte"@,
        "i8"@,
        "i16"@,
        "i32"@,
        "i64"@,
        "struct"@,
        "enum"@,
        "union"@,
        "exception"@,
        "service"@,
    ]
}

/// The open documents that an analysis may still enter: those that are
/// neither parsed nor being resolved.
pub open spec fn waiting(a: AnalyzerView) -> Set<Seq<char>> {
    a.documents.dom().filter(
        |p: Seq<char>| !a.nodes.contains_key(p) && !stack_has(a.stack, p, a.stack.len() as int),
    )
}

/// The work that the first `n` frames have left: one for each frame, and one
/// for each of its dependencies that is not resolved.
pub open spec fn work(stack: Seq<FrameView>, n: int) -> int
    decreases n,
{
    if n <= 0 {
        0
    } else {
        let frame = stack[n - 1];
        work(stack, n - 1) + 1 + if 0 <= frame.next < frame.dependencies.len() {
            frame.dependencies.len() - frame.next
        } else {
            0
        }
    }
}

/// The work of a stack is that of the frames before its last and that of its
/// last; frames that agree have the same work.
proof fn lemma_work(a: Seq<FrameView>, b: Seq<FrameView>, n: int)
    requires
        0 <= n <= a.len(),
        n <= b.len(),
        forall|i: int| 0 <= i < n ==> a[i] == b[i],
    ensures
        work(a, n) == work(b, n),
        work(a, n) >= 0,
    decreases n,
{
    if n > 0 {
        lemma_work(a, b, n - 1);
    }
}

/// Whether a path is on the stack is the same for stacks with the same
/// paths.
proof fn lemma_stack_has_paths(a: Seq<FrameView>, b: Seq<FrameView>, path: Seq<char>, n: int)
    requires
        0 <= n <= a.len(),
        n <= b.len(),
        forall|i: int| 0 <= i < n ==> (#[trigger] a[i]).path == b[i].path,
    ensures
        stack_has(a, path, n) == stack_has(b, path, n),
    decreases n,
{
    if n > 0 {
        lemma_stack_has_paths(a, b, path, n - 1);
    }
}

/// A path is on the stack where a frame has it.
proof fn lemma_on_stack(stack: Seq<FrameView>, i: int, n: int)
    requires
        0 <= i < n <= stack.len(),
    ensures
        stack_has(stack, stack[i].path, n),
    decreases n,
{
    if i < n - 1 {
        lemma_on_stack(stack, i, n - 1);
    }
}

/// A step that is to be followed by another leaves less to do: it enters an
/// open document that was waiting, or the documents that wait stay and the
/// work on the stack grows less. So an analysis that needs no file from
/// outside comes to its end.
pub proof fn lemma_step_decreases(a: AnalyzerView)
    requires
        a.inv(),
        a.documents.dom().finite(),
        a.step(EventView::Resume).1 is Continue,
    ensures
        a.step(EventView::Resume).0.documents == a.documents,
        waiting(a).finite(),
        waiting(a.step(EventView::Resume).0).len() < waiting(a).len() || (waiting(
            a.step(EventView::Resume).0,
        ) == waiting(a) && 0 <= work(
            a.step(EventView::Resume).0.stack,
            a.step(EventView::Resume).0.stack.len() as int,
        ) < work(a.stack, a.stack.len() as int)),
{
    let b = a.step(EventView::Resume).0;
    let n = a.stack.len() as int;
    let top = a.stack.last();
    let keep = |p: Seq<char>| !a.nodes.contains_key(p) && !stack_has(a.stack, p, n);
    a.documents.dom().lemma_len_filter(keep);
    lemma_work(a.stack, a.stack, n);
    lemma_work(b.stack, b.stack, b.stack.len() as int);
    if top.next < 0 || top.next >= top.dependencies.len() {
        let stored = a.stored();
        lemma_work(a.stack, stored.stack, n - 1);
        assert(waiting(stored) =~= waiting(a)) by {
            assert forall|p: Seq<char>| waiting(stored).contains(p) == waiting(a).contains(p) by {
                lemma_stack_has_prefix(a.stack, stored.stack, p, n - 1);
                lemma_on_stack(a.stack, n - 1, n);
            }
        }
        let parent = stored.stack.last();
        if 0 <= parent.next < parent.dependencies.len() {
            lemma_linked_advanced(stored, parent.dependencies[parent.next]);
            lemma_work(stored.stack, b.stack, n - 2);
            assert(waiting(b) =~= waiting(stored)) by {
                assert forall|p: Seq<char>| waiting(b).contains(p) == waiting(stored).contains(
                    p,
                ) by {
                    lemma_stack_has_paths(stored.stack, b.stack, p, n - 1);
                }
            }
        }
    } else {
        let dependency = top.dependencies[top.next];
        if stack_has(a.stack, dependency.0, n) || a.nodes.contains_key(dependency.0) {
            if !stack_has(a.stack, dependency.0, n) {
                lemma_linked_advanced(a, dependency);
            }
            lemma_work(a.stack, b.stack, n - 1);
            assert(waiting(b) =~= waiting(a)) by {
                assert forall|p: Seq<char>| waiting(b).contains(p) == waiting(a).contains(p) by {
                    lemma_stack_has_paths(a.stack, b.stack, p, n);
                }
            }
        } else {
            let p0 = dependency.0;
            assert(waiting(a).contains(p0));
            assert(waiting(b) =~= waiting(a).remove(p0)) by {
                assert forall|p: Seq<char>| waiting(b).contains(p) == waiting(a).remove(
                    p0,
                ).contains(p) by {
                    lemma_stack_has_prefix(b.stack, a.stack, p, n);
                }
            }
        }
    }
}

/// The state and the action with which an analysis stops that goes on, step
/// by step, for as long as it needs nothing from outside.
pub open spec fn ran(a: AnalyzerView) -> (AnalyzerView, ActionView)
    decreases waiting(a).len(), work(a.stack, a.stack.len() as int),
    when a.inv() && a.documents.dom().finite()
{
    let (b, action) = a.step(EventView::Resume);
    if action is Continue {
        proof {
            lemma_step_decreases(a);
            lemma_step_inv(a, EventView::Resume);
        }
        ran(b)
    } else {
        (b, action)
    }
}

/// Running keeps the invariant, and leaves every parsed document as it is:
/// its tree and its table.
pub proof fn lemma_ran_keeps_parsed(a: AnalyzerView, p: Seq<char>)
    requires
        a.inv(),
        a.documents.dom().finite(),
        a.nodes.contains_key(p),
    ensures
        ran(a).0.inv(),
        !(ran(a).1 is Continue),
        ran(a).0.nodes.contains_key(p),
        ran(a).0.nodes[p] == a.nodes[p],
        ran(a).0.tables.contains_key(p),
        ran(a).0.tables[p] == a.tables[p],
    decreases waiting(a).len(), work(a.stack, a.stack.len() as int),
{
    let (b, action) = a.step(EventView::Resume);
    lemma_step_inv(a, EventView::Resume);
    lemma_step_keeps_parsed(a, EventView::Resume, p);
    if action is Continue {
        lemma_step_decreases(a);
        lemma_ran_keeps_parsed(b, p);
    }
}

/// A step keeps the invariant: no document is being resolved twice, so none
/// stands in its own chain of includes.
pub proof fn lemma_step_inv(a: AnalyzerView, event: EventView)
    requires
        a.inv(),
    ensures
        a.step(event).0.inv(),
{
    if a.stack.len() > 0 {
        let top = a.stack.last();
        let n = a.stack.len() as int;
        if top.next < 0 || top.next >= top.dependencies.len() {
            let stored = a.stored();
            assert(stored.inv()) by {
                assert forall|i: int| 0 <= i < stored.stack.len() implies !stored.nodes.contains_key(
                    (#[trigger] stored.stack[i]).path,
                ) by {
                    assert(a.stack[i].path != a.stack[n - 1].path);
                }
            }
            if stored.stack.len() > 0 {
                let parent = stored.stack.last();
                if 0 <= parent.next < parent.dependencies.len() {
                    lemma_linked_advanced(stored, parent.dependencies[parent.next]);
                    let b = stored.linked(parent.dependencies[parent.next]).advanced();
                    lemma_same_paths(stored, b);
                }
            }
        } else {
            let dependency = top.dependencies[top.next];
            if stack_has(a.stack, dependency.0, n) {
                let e = a.with_error(top.path, circular_error(dependency));
                lemma_same_paths(a, e.advanced());
            } else if a.nodes.contains_key(dependency.0) {
                lemma_linked_advanced(a, dependency);
                lemma_same_paths(a, a.linked(dependency).advanced());
            } else {
                lemma_stack_has(a.stack, dependency.0, n);
                match event {
                    EventView::Failed(reason) => {
                        let e = a.with_error(top.path, read_error(dependency, reason));
                        lemma_same_paths(a, e.advanced());
                    },
                    _ => {},
                }
            }
        }
    }
}

/// Starting an analysis, and removing a document, keep the invariant.
pub proof fn lemma_started_inv(a: AnalyzerView, path: Seq<char>, content: Seq<char>)
    requires
        a.inv(),
    ensures
        a.started(path, content).inv(),
        a.removed(path).inv(),
{
}

/// A step leaves every parsed document as it is: its tree and its table.
pub proof fn lemma_step_keeps_parsed(a: AnalyzerView, event: EventView, p: Seq<char>)
    requires
        a.inv(),
        a.nodes.contains_key(p),
    ensures
        a.step(event).0.nodes.contains_key(p),
        a.step(event).0.nodes[p] == a.nodes[p],
        a.step(event).0.tables.contains_key(p),
        a.step(event).0.tables[p] == a.tables[p],
{
    if a.stack.len() > 0 {
        let top = a.stack.last();
        assert(!a.nodes.contains_key(a.stack[a.stack.len() - 1].path));
    }
}

/// Starting the analysis of one document leaves every other parsed document
/// as it is.
pub proof fn lemma_started_keeps_parsed(
    a: AnalyzerView,
    path: Seq<char>,
    content: Seq<char>,
    p: Seq<char>,
)
    requires
        a.inv(),
        a.nodes.contains_key(p),
        p != path,
    ensures
        a.started(path, content).nodes.contains_key(p),
        a.started(path, content).nodes[p] == a.nodes[p],
        a.started(path, content).tables.contains_key(p),
        a.started(path, content).tables[p] == a.tables[p],
{
}

/// Where a document is to be looked up is settled by its tree and its table:
/// two states that agree on them agree on every definition in it. So the
/// analysis of another document, which leaves both as they are, changes no
/// definition in it.
pub proof fn lemma_definition_stable(a: AnalyzerView, b: AnalyzerView, p: Seq<char>, pos: Position)
    requires
        a.nodes.contains_key(p) == b.nodes.contains_key(p),
        a.nodes.contains_key(p) ==> a.nodes[p] == b.nodes[p],
        a.tables.contains_key(p) == b.tables.contains_key(p),
        a.tables.contains_key(p) ==> a.tables[p] == b.tables[p],
    ensures
        definition_at(a, p, pos) == definition_at(b, p, pos),
{
}

/// A path that none of the first `n` frames has is the path of none of them.
proof fn lemma_stack_has(stack: Seq<FrameView>, path: Seq<char>, n: int)
    requires
        0 <= n <= stack.len(),
    ensures
        !stack_has(stack, path, n) ==> forall|i: int| 0 <= i < n ==> (#[trigger] stack[i]).path != path,
    decreases n,
{
    if n > 0 {
        lemma_stack_has(stack, path, n - 1);
    }
}

/// States with the same paths on the stack, and the same parsed documents,
/// keep the invariant together.
proof fn lemma_same_paths(a: AnalyzerView, b: AnalyzerView)
    requires
        a.inv(),
        a.stack.len() == b.stack.len(),
        forall|i: int| 0 <= i < a.stack.len() ==> (#[trigger] a.stack[i]).path == b.stack[i].path,
        a.nodes == b.nodes,
        a.tables == b.tables,
    ensures
        b.inv(),
{
    assert forall|i: int, j: int| 0 <= i < j < b.stack.len() implies (#[trigger] b.stack[i]).path != (
    #[trigger] b.stack[j]).path by {
        assert(a.stack[i].path != a.stack[j].path);
    }
    assert forall|i: int| 0 <= i < b.stack.len() implies !b.nodes.contains_key(
        (#[trigger] b.stack[i]).path,
    ) by {
        assert(!a.nodes.contains_key(a.stack[i].path));
    }
}

/// What follows a frame whose dependencies are all resolved: it is stored;
/// where it was the only one, the analysis ends; else the frame that
/// includes it links its table and goes on.
pub open spec fn after_store(a: AnalyzerView) -> (AnalyzerView, ActionView) {
    let top = a.stack.last();
    let stored = a.stored();
    if stored.stack.len() == 0 {
        (stored.finished(top.path), ActionView::Done)
    } else {
        let parent = stored.stack.last();
        if 0 <= parent.next < parent.dependencies.len() {
            (stored.linked(parent.dependencies[parent.next]).advanced(), ActionView::Continue)
        } else {
            (stored, ActionView::Continue)
        }
    }
}

/// Linking a dependency and counting it changes the last frame alone: its
/// table, where the dependency has one, and its count.
pub proof fn lemma_linked_advanced(a: AnalyzerView, dependency: (Seq<char>, HeaderNodeView))
    requires
        a.stack.len() > 0,
    ensures
        a.linked(dependency).advanced() == (AnalyzerView {
            stack: a.stack.drop_last().push(
                FrameView {
                    table: if a.tables.contains_key(dependency.0) {
                        with_dependency(
                            a.stack.last().table,
                            dependency.0,
                            dependency.1,
                            a.tables[dependency.0],
                        )
                    } else {
                        a.stack.last().table
                    },
                    next: a.stack.last().next + 1,
                    ..a.stack.last()
                },
            ),
            ..a
        }),
{
    let target = AnalyzerView {
        stack: a.stack.drop_last().push(
            FrameView {
                table: if a.tables.contains_key(dependency.0) {
                    with_dependency(
                        a.stack.last().table,
                        dependency.0,
                        dependency.1,
                        a.tables[dependency.0],
                    )
                } else {
                    a.stack.last().table
                },
                next: a.stack.last().next + 1,
                ..a.stack.last()
            },
        ),
        ..a
    };
    assert(a.linked(dependency).advanced().stack =~= target.stack);
}

/// A document whose includes are being resolved.
struct Frame {
    path: String,
    document: DocumentNode,
    table: SymbolTable,
    dependencies: Vec<(String, Rc<HeaderNode>)>,
    next: usize,
}

impl DeepView for Frame {
    type V = FrameView;

    closed spec fn deep_view(&self) -> FrameView {
        FrameView {
            path: self.path@,
            document: self.document.deep_view(),
            table: self.table.deep_view(),
            dependencies: self.dependencies.deep_view(),
            next: self.next as int,
        }
    }
}

impl Frame {
    /// The frame holds a well-formed tree and table.
    closed spec fn wf(&self) -> bool {
        &&& self.document.deep_view().wf()
        &&& self.table.wf()
    }
}

/// The texts of a dictionary of texts, as plain values.
pub open spec fn texts_of(m: Map<Seq<char>, Vec<char>>) -> Map<Seq<char>, Seq<char>> {
    Map::new(|k: Seq<char>| m.contains_key(k), |k: Seq<char>| m[k]@)
}

/// The trees of a dictionary of trees, as plain values.
pub open spec fn nodes_of(m: Map<Seq<char>, Rc<DocumentNode>>) -> Map<Seq<char>, DocumentNodeView> {
    Map::new(|k: Seq<char>| m.contains_key(k), |k: Seq<char>| m[k].deep_view())
}

/// The tables of a dictionary of tables, as plain values.
pub open spec fn tables_of(m: Map<Seq<char>, Rc<SymbolTable>>) -> Map<Seq<char>, SymbolTableView> {
    Map::new(|k: Seq<char>| m.contains_key(k), |k: Seq<char>| m[k].deep_view())
}

/// The errors of a dictionary of errors, as plain values.
pub open spec fn errors_of(m: Map<Seq<char>, Vec<Error>>) -> Map<Seq<char>, Seq<ErrorView>> {
    Map::new(|k: Seq<char>| m.contains_key(k), |k: Seq<char>| m[k].deep_view())
}

/// The streams of a dictionary of streams, as plain values.
pub open spec fn tokens_of(m: Map<Seq<char>, Vec<u32>>) -> Map<Seq<char>, Seq<u32>> {
    Map::new(|k: Seq<char>| m.contains_key(k), |k: Seq<char>| m[k]@)
}

/// Analyzer for Thrift files.
pub struct Analyzer {
    documents: Dictionary<Vec<char>>,
    document_nodes: Dictionary<Rc<DocumentNode>>,
    symbol_tables: Dictionary<Rc<SymbolTable>>,
    errors: Dictionary<Vec<Error>>,
    semantic_tokens: Dictionary<Vec<u32>>,
    stack: Vec<Frame>,
}

impl Analyzer {
    /// The state of the analyzer as plain values.
    pub closed spec fn view(&self) -> AnalyzerView {
        AnalyzerView {
            documents: texts_of(self.documents@),
            nodes: nodes_of(self.document_nodes@),
            tables: tables_of(self.symbol_tables@),
            errors: errors_of(self.errors@),
            tokens: tokens_of(self.semantic_tokens@),
            stack: self.stack.deep_view(),
        }
    }

    /// The analyzer holds texts whose positions fit 32 bits, and well-formed
    /// trees and tables.
    pub closed spec fn wf(&self) -> bool {
        &&& self.documents.wf()
        &&& self.document_nodes.wf()
        &&& self.symbol_tables.wf()
        &&& self.errors.wf()
        &&& self.semantic_tokens.wf()
        &&& forall|k: Seq<char>|
            self.documents@.contains_key(k) ==> (#[trigger] self.documents@[k])@.len() < u32::MAX
        &&& forall|k: Seq<char>|
            self.document_nodes@.contains_key(k) ==> (
            #[trigger] self.document_nodes@[k]).deep_view().wf()
        &&& forall|k: Seq<char>|
            self.symbol_tables@.contains_key(k) ==> (#[trigger] self.symbol_tables@[k]).wf()
        &&& forall|i: int| 0 <= i < self.stack@.len() ==> (#[trigger] self.stack@[i]).wf()
    }

    /// Create a new analyzer.
    pub fn new() -> (r: Analyzer)
        ensures
            r.wf(),
            r@.inv(),
            r@ == (AnalyzerView {
                documents: Map::empty(),
                nodes: Map::empty(),
                tables: Map::empty(),
                errors: Map::empty(),
                tokens: Map::empty(),
                stack: Seq::empty(),
            }),
    {
        let r = Analyzer {
            documents: Dictionary::new(),
            document_nodes: Dictionary::new(),
            symbol_tables: Dictionary::new(),
            errors: Dictionary::new(),
            semantic_tokens: Dictionary::new(),
            stack: Vec::new(),
        };
        proof {
            assert(r@.documents =~= Map::empty());
            assert(r@.nodes =~= Map::empty());
            assert(r@.tables =~= Map::empty());
            assert(r@.errors =~= Map::empty());
            assert(r@.tokens =~= Map::empty());
            assert(r@.stack =~= Seq::empty());
        }
        r
    }

    /// Puts `more` behind the errors of the document at `path`.
    fn add_errors(&mut self, path: &str, more: Vec<Error>)
        requires
            old(self).wf(),
        ensures
            final(self).wf(),
            final(self)@ == (AnalyzerView {
                errors: errors_with(old(self)@.errors, path@, more.deep_view()),
                ..old(self)@
            }),
            final(self).stack == old(self).stack,
            final(self).documents == old(self).documents,
            final(self).document_nodes == old(self).document_nodes,
            final(self).symbol_tables == old(self).symbol_tables,
            final(self).semantic_tokens == old(self).semantic_tokens,
    {
        let mut more = more;
        let ghost added = more.deep_view();
        let ghost target = errors_with(old(self)@.errors, path@, added);
        let mut all = match self.errors.remove(path) {
            Some(existing) => existing,
            None => Vec::new(),
        };
        let ghost before = all.deep_view();
        assert(!old(self).errors@.contains_key(path@) ==> before =~= Seq::<ErrorView>::empty());
        all.append(&mut more);
        assert(all.deep_view() =~= before + added);
        self.errors.insert(String::from_str(path), all);
        assert(self@.errors =~= target);
    }

    /// Whether the document at `path` is being resolved.
    fn on_stack(&self, path: &str) -> (r: bool)
        ensures
            r == stack_has(self@.stack, path@, self@.stack.len() as int),
    {
        let mut i: usize = 0;
        let mut found = false;
        while i < self.stack.len()
            invariant
                i <= self.stack@.len(),
                found == stack_has(self@.stack, path@, i as int),
            decreases self.stack@.len() - i,
        {
            if str_equals(self.stack[i].path.as_str(), path) {
                found = true;
            }
            i += 1;
        }
        found
    }

    /// Keeps a frame and the errors of its document.
    fn push_frame(&mut self, frame: Frame, errors: Vec<Error>)
        requires
            old(self).wf(),
            frame.wf(),
        ensures
            final(self).wf(),
            final(self)@ == (AnalyzerView {
                errors: errors_with(old(self)@.errors, frame.path@, errors.deep_view()),
                stack: old(self)@.stack.push(frame.deep_view()),
                ..old(self)@
            }),
    {
        let ghost view = frame.deep_view();
        let ghost before = self@.stack;
        self.add_errors(frame.path.as_str(), errors);
        self.stack.push(frame);
        assert(self@.stack =~= before.push(view));
    }

    /// Starts the analysis of the document at `path` with the text
    /// `content`: keeps the text, drops what was known of the document,
    /// gives up an unfinished analysis, and parses the document. The
    /// analysis goes on with `step`.
    pub fn sync_document(&mut self, path: &str, content: &str) -> (r: Action)
        requires
            old(self).wf(),
            content@.len() < u32::MAX,
        ensures
            final(self).wf(),
            final(self)@ == old(self)@.started(path@, content@),
            old(self)@.inv() ==> final(self)@.inv(),
            r == Action::Continue,
    {
        proof {
            if old(self)@.inv() {
                lemma_started_inv(old(self)@, path@, content@);
            }
        }
        let chars = chars_of(content);
        let (frame, errors) = make_frame(path, chars.as_slice());
        self.documents.insert(String::from_str(path), chars);
        let _ = self.document_nodes.remove(path);
        let _ = self.symbol_tables.remove(path);
        let _ = self.errors.remove(path);
        let _ = self.semantic_tokens.remove(path);
        self.stack = Vec::new();
        proof {
            let target = AnalyzerView {
                documents: old(self)@.documents.insert(path@, content@),
                nodes: old(self)@.nodes.remove(path@),
                tables: old(self)@.tables.remove(path@),
                errors: old(self)@.errors.remove(path@),
                tokens: old(self)@.tokens.remove(path@),
                stack: Seq::empty(),
            };
            assert(self@.documents =~= target.documents);
            assert(self@.nodes =~= target.nodes);
            assert(self@.tables =~= target.tables);
            assert(self@.errors =~= target.errors);
            assert(self@.tokens =~= target.tokens);
            assert(self@.stack =~= target.stack);
        }
        self.push_frame(frame, errors);
        Action::Continue
    }

    /// Ends the analysis of the document at `root`: checks its types and
    /// fields, and makes its semantic tokens.
    fn finish(&mut self, root: &str)
        requires
            old(self).wf(),
        ensures
            final(self).wf(),
            final(self)@ == old(self)@.finished(root@),
            final(self).stack == old(self).stack,
    {
        let document = match self.document_nodes.get(root) {
            Some(d) => d.clone(),
            None => {
                return ;
            },
        };
        let table = match self.symbol_tables.get(root) {
            Some(t) => t.clone(),
            None => {
                return ;
            },
        };
        let mut errors = table.errors();
        let ghost first = errors.deep_view();
        let mut type_errors = table.check_document_types(&document);
        let ghost second = type_errors.deep_view();
        errors.append(&mut type_errors);
        assert(errors.deep_view() =~= first + second);
        let mut field_errors = document_check(&document);
        let ghost third = field_errors.deep_view();
        errors.append(&mut field_errors);
        assert(errors.deep_view() =~= first + second + third);
        self.add_errors(root, errors);
        let tokens = semantic_tokens(&document);
        self.semantic_tokens.insert(String::from_str(root), tokens);
        proof {
            let target = old(self)@.finished(root@);
            assert(self@.tokens =~= target.tokens);
        }
    }

    /// Puts the table of `dependency` into the table of `frame`, where that
    /// document has a table, and counts the dependency as resolved.
    fn link(&self, frame: &mut Frame)
        requires
            self.wf(),
            old(frame).wf(),
            old(frame).next < old(frame).dependencies@.len(),
        ensures
            final(frame).wf(),
            final(frame).deep_view() == (FrameView {
                table: if self@.tables.contains_key(
                    old(frame).deep_view().dependencies[old(frame).next as int].0,
                ) {
                    with_dependency(
                        old(frame).deep_view().table,
                        old(frame).deep_view().dependencies[old(frame).next as int].0,
                        old(frame).deep_view().dependencies[old(frame).next as int].1,
                        self@.tables[old(frame).deep_view().dependencies[old(frame).next as int].0],
                    )
                } else {
                    old(frame).deep_view().table
                },
                next: old(frame).next + 1,
                ..old(frame).deep_view()
            }),
    {
        let n = frame.dependencies.len();
        let path = frame.dependencies[frame.next].0.clone();
        let header = frame.dependencies[frame.next].1.clone();
        match self.symbol_tables.get(path.as_str()) {
            Some(table) => {
                frame.table.add_dependency(path.as_str(), header, table.clone());
            },
            None => {},
        }
        frame.next = frame.next + 1;
    }

    /// Puts a frame back onto the stack.
    fn push_back(&mut self, frame: Frame)
        requires
            old(self).wf(),
            frame.wf(),
        ensures
            final(self).wf(),
            final(self)@ == (AnalyzerView {
                stack: old(self)@.stack.push(frame.deep_view()),
                ..old(self)@
            }),
    {
        let ghost view = frame.deep_view();
        let ghost before = self@.stack;
        self.stack.push(frame);
        assert(self@.stack =~= before.push(view));
    }

    /// Stores a frame whose dependencies are all resolved, and goes on with
    /// the frame that includes it, or ends the analysis.
    fn store(&mut self, top: Frame) -> (r: Action)
        requires
            old(self).wf(),
            top.wf(),
        ensures
            final(self).wf(),
            (final(self)@, r.deep_view()) == after_store(
                AnalyzerView { stack: old(self)@.stack.push(top.deep_view()), ..old(self)@ },
            ),
    {
        let ghost whole = AnalyzerView {
            stack: old(self)@.stack.push(top.deep_view()),
            ..old(self)@
        };
        let ghost stored = whole.stored();
        let Frame { path, document, table, dependencies: _, next: _ } = top;
        self.symbol_tables.insert(path.clone(), Rc::new(table));
        self.document_nodes.insert(path.clone(), Rc::new(document));
        proof {
            assert(whole.stack.drop_last() =~= old(self)@.stack);
            assert(self@.nodes =~= stored.nodes);
            assert(self@.tables =~= stored.tables);
            assert(self@.stack =~= stored.stack);
            assert(self@ == stored);
        }
        if self.stack.len() == 0 {
            self.finish(path.as_str());
            return Action::Done;
        }
        let ghost rest = self.stack.deep_view().drop_last();
        let ghost parent_view = self.stack.deep_view().last();
        let mut parent = match self.stack.pop() {
            Some(p) => p,
            None => {
                return Action::Continue;
            },
        };
        proof {
            assert(self.stack.deep_view() =~= rest);
            assert(parent.deep_view() == parent_view);
            assert(self@ == AnalyzerView { stack: rest, ..stored });
            assert(stored.stack =~= rest.push(parent_view));
        }
        if parent.next < parent.dependencies.len() {
            self.link(&mut parent);
            proof {
                lemma_linked_advanced(stored, parent_view.dependencies[parent_view.next]);
            }
        }
        self.push_back(parent);
        Action::Continue
    }

    /// Gives an error at the next dependency of `top`, and counts the
    /// dependency as resolved.
    fn fail(&mut self, top: Frame, error: Error)
        requires
            old(self).wf(),
            top.wf(),
            top.next < top.dependencies@.len(),
        ensures
            final(self).wf(),
            final(self)@ == (AnalyzerView {
                stack: old(self)@.stack.push(top.deep_view()),
                ..old(self)@
            }).with_error(top.deep_view().path, error.deep_view()).advanced(),
    {
        let ghost whole = AnalyzerView {
            stack: old(self)@.stack.push(top.deep_view()),
            ..old(self)@
        };
        let ghost e = error.deep_view();
        let ghost top_view = top.deep_view();
        let mut top = top;
        let n = top.dependencies.len();
        let mut more: Vec<Error> = Vec::new();
        more.push(error);
        assert(more.deep_view() =~= seq![e]);
        self.add_errors(top.path.as_str(), more);
        top.next = top.next + 1;
        self.push_back(top);
        proof {
            let target = whole.with_error(top_view.path, e).advanced();
            assert(whole.stack.last() == top_view);
            assert(self@.stack =~= target.stack);
        }
    }

    /// Enters the document at `path` as the next dependency of `top`.
    fn enter(&mut self, top: Frame, frame: Frame, errors: Vec<Error>)
        requires
            old(self).wf(),
            top.wf(),
            frame.wf(),
        ensures
            final(self).wf(),
            final(self)@ == (AnalyzerView {
                errors: errors_with(old(self)@.errors, frame.deep_view().path, errors.deep_view()),
                stack: old(self)@.stack.push(top.deep_view()).push(frame.deep_view()),
                ..old(self)@
            }),
    {
        self.push_back(top);
        self.push_frame(frame, errors);
    }

    /// Resolves the next dependency of a frame.
    fn resolve(&mut self, top: Frame, event: Event) -> (r: Action)
        requires
            old(self).wf(),
            top.wf(),
            top.next < top.dependencies@.len(),
            event matches Event::Content(s) ==> s@.len() < u32::MAX,
        ensures
            final(self).wf(),
            (final(self)@, r.deep_view()) == (AnalyzerView {
                stack: old(self)@.stack.push(top.deep_view()),
                ..old(self)@
            }).step(event.deep_view()),
    {
        let ghost whole = AnalyzerView {
            stack: old(self)@.stack.push(top.deep_view()),
            ..old(self)@
        };
        let ghost top_view = top.deep_view();
        let ghost dependency = top_view.dependencies[top.next as int];
        let mut top = top;
        let path = top.dependencies[top.next].0.clone();
        let header = top.dependencies[top.next].1.clone();
        assert(whole.stack.last() == top_view);
        assert(whole.stack.drop_last() =~= old(self)@.stack);
        let circular = self.on_stack(path.as_str()) || str_equals(
            top.path.as_str(),
            path.as_str(),
        );
        proof {
            lemma_stack_has_prefix(
                whole.stack,
                old(self)@.stack,
                path@,
                old(self)@.stack.len() as int,
            );
        }
        if circular {
            let e = Error {
                range: header.range(),
                message: concat_str("Circular dependency detected: ", path.as_str()),
            };
            self.fail(top, e);
            return Action::Continue;
        }
        if self.document_nodes.contains_key(path.as_str()) {
            self.link(&mut top);
            proof {
                lemma_linked_advanced(whole, dependency);
            }
            self.push_back(top);
            return Action::Continue;
        }
        let open = match self.documents.get(path.as_str()) {
            Some(content) => Some(make_frame(path.as_str(), content.as_slice())),
            None => None,
        };
        match open {
            Some((frame, errors)) => {
                self.enter(top, frame, errors);
                return Action::Continue;
            },
            None => {},
        }
        match event {
            Event::Content(content) => {
                let chars = chars_of(content.as_str());
                let (frame, errors) = make_frame(path.as_str(), chars.as_slice());
                self.enter(top, frame, errors);
                Action::Continue
            },
            Event::Failed(reason) => {
                let mut message = String::from_str("Failed to read file ");
                message.append(path.as_str());
                message.append(": ");
                message.append(reason.as_str());
                let e = Error { range: header.range(), message };
                self.fail(top, e);
                Action::Continue
            },
            Event::Resume => {
                self.push_back(top);
                Action::Read(path)
            },
        }
    }

    /// One step of the analysis: see `AnalyzerView::step`. A step that asks
    /// for a file is to be followed by a step with what the read gave.
    pub fn step(&mut self, event: Event) -> (r: Action)
        requires
            old(self).wf(),
            event matches Event::Content(s) ==> s@.len() < u32::MAX,
        ensures
            final(self).wf(),
            (final(self)@, r.deep_view()) == old(self)@.step(event.deep_view()),
            old(self)@.inv() ==> final(self)@.inv(),
    {
        proof {
            if old(self)@.inv() {
                lemma_step_inv(old(self)@, event.deep_view());
            }
        }
        let ghost whole = self@;
        let top = match self.stack.pop() {
            Some(top) => top,
            None => {
                return Action::Done;
            },
        };
        proof {
            assert(self@.stack =~= whole.stack.drop_last());
            assert(whole.stack =~= self@.stack.push(top.deep_view()));
        }
        if top.next >= top.dependencies.len() {
            self.store(top)
        } else {
            self.resolve(top, event)
        }
    }

    /// The analyzer has finitely many open documents.
    proof fn lemma_documents_finite(&self)
        ensures
            self@.documents.dom().finite(),
    {
        self.documents.lemma_finite();
        assert(self@.documents.dom() =~= self.documents@.dom());
    }

    /// Goes on with the analysis, step by step, for as long as it needs
    /// nothing from outside: up to its end, or up to a file that is to be
    /// read. The next step is then to be given what the read gave.
    pub fn run(&mut self) -> (r: Action)
        requires
            old(self).wf(),
            old(self)@.inv(),
        ensures
            final(self).wf(),
            final(self)@.inv(),
            (final(self)@, r.deep_view()) == ran(old(self)@),
            !(r is Continue),
    {
        proof {
            self.lemma_documents_finite();
        }
        loop
            invariant
                self.wf(),
                self@.inv(),
                self@.documents.dom().finite(),
                ran(self@) == ran(old(self)@),
            decreases waiting(self@).len(), work(self@.stack, self@.stack.len() as int),
        {
            let ghost before = self@;
            let action = self.step(Event::Resume);
            proof {
                if action.deep_view() is Continue {
                    lemma_step_decreases(before);
                }
            }
            match action {
                Action::Continue => {},
                other => {
                    return other;
                },
            }
        }
    }

    /// Get the errors for all files.
    pub fn errors(&self) -> (r: &Dictionary<Vec<Error>>)
        requires
            self.wf(),
        ensures
            r.wf(),
            errors_of(r@) == self@.errors,
    {
        &self.errors
    }

    /// Get semantic tokens for a specific file: five numbers for each name.
    pub fn semantic_tokens(&self, path: &str) -> (r: Option<&Vec<u32>>)
        ensures
            r.is_some() == self@.tokens.contains_key(path@),
            r.is_some() ==> r.unwrap()@ == self@.tokens[path@],
    {
        self.semantic_tokens.get(path)
    }

    /// Get the semantic token types: `type` and `function`.
    pub fn semantic_token_types(&self) -> (r: Vec<String>)
        ensures
            r.deep_view() == seq!["type"@, "function"@],
    {
        let mut out: Vec<String> = Vec::new();
        out.push(String::from_str("type"));
        out.push(String::from_str("function"));
        assert(out.deep_view() =~= seq!["type"@, "function"@]);
        out
    }

    /// Get the semantic token modifiers: there are none.
    pub fn semantic_token_modifiers(&self) -> (r: Vec<String>)
        ensures
            r.deep_view() == Seq::<Seq<char>>::empty(),
    {
        let out: Vec<String> = Vec::new();
        assert(out.deep_view() =~= Seq::<Seq<char>>::empty());
        out
    }

    /// Get the definition at a specific position.
    pub fn definition(&self, path: &str, pos: Position) -> (r: Option<Location>)
        requires
            self.wf(),
        ensures
            r.deep_view() == definition_at(self@, path@, pos),
    {
        let document = match self.document_nodes.get(path) {
            Some(d) => d,
            None => {
                return None;
            },
        };
        proof {
            lemma_found_identifier(document.deep_view(), pos);
        }
        let identifier = match identifier_in_document(document, pos) {
            Some(id) => id,
            None => {
                return None;
            },
        };
        let table = match self.symbol_tables.get(path) {
            Some(t) => t,
            None => {
                return None;
            },
        };
        let (defining, definition, header) = match table.find_definition_of_identifier_type(
            identifier,
        ) {
            Some(found) => found,
            None => {
                return None;
            },
        };
        if identifier.position_in_namespace(pos) {
            return match header {
                Some(h) => Some(Location { path: String::from_str(path), range: h.range() }),
                None => None,
            };
        }
        Some(Location { path: defining, range: definition.identifier().range })
    }

    /// Get the types for completion.
    pub fn types_for_completion(&self, path: &str, pos: Position) -> (r: Vec<String>)
        requires
            self.wf(),
        ensures
            r.deep_view() == completion_types(self@, path@, pos),
    {
        let text = match self.documents.get(path) {
            Some(t) => t,
            None => {
                return empty_list();
            },
        };
        let offset = match offset_at_position(text.as_slice(), pos) {
            Some(o) => o,
            None => {
                return empty_list();
            },
        };
        let table = match self.symbol_tables.get(path) {
            Some(t) => t,
            None => {
                return empty_list();
            },
        };
        if offset > 0 && text[offset - 1] == '.' {
            let word = word_ending_at(text.as_slice(), offset - 1);
            return match table.included(word.as_str()) {
                Some(t) => t.types().keys(),
                None => {
                    let mut out: Vec<String> = Vec::new();
                    out.push(String::new());
                    assert(out.deep_view() =~= seq![Seq::<char>::empty()]);
                    out
                },
            };
        }
        table.types().keys()
    }

    /// Get the includes for completion.
    pub fn includes_for_completion(&self, path: &str, _pos: Position) -> (r: Vec<String>)
        requires
            self.wf(),
        ensures
            r.deep_view() == completion_includes(self@, path@),
    {
        match self.symbol_tables.get(path) {
            Some(t) => t.namespaces(),
            None => empty_list(),
        }
    }

    /// Get the keywords for completion.
    pub fn keywords_for_completion(&self) -> (r: Vec<String>)
        ensures
            r.deep_view() == keywords(),
    {
        let mut out: Vec<String> = Vec::new();
        out.push(String::from_str("namespace"));
        out.push(String::from_str("include"));
        out.push(String::from_str("cpp_include"));
        out.push(String::from_str("const"));
        out.push(String::from_str("typedef"));
        out.push(String::from_str("extends"));
        out.push(String::from_str("required"));
        out.push(String::from_str("optional"));
        out.push(String::from_str("oneway"));
        out.push(String::from_str("void"));
        out.push(String::from_str("bool"));
        out.push(String::from_str("byte"));
        out.push(String::from_str("i8"));
        out.push(String::from_str("i16"));
        out.push(String::from_str("i32"));
        out.push(String::from_str("i64"));
        out.push(String::from_str("struct"));
        out.push(String::from_str("enum"));
        out.push(String::from_str("union"));
        out.push(String::from_str("exception"));
        out.push(String::from_str("service"));
        assert(out.deep_view() =~= keywords());
        out
    }

    /// Remove a document with all that is known of it.
    pub fn remove_document(&mut self, path: &str)
        requires
            old(self).wf(),
        ensures
            final(self).wf(),
            final(self)@ == old(self)@.removed(path@),
            old(self)@.inv() ==> final(self)@.inv(),
    {
        proof {
            if old(self)@.inv() {
                lemma_started_inv(old(self)@, path@, Seq::empty());
            }
        }
        let _ = self.documents.remove(path);
        let _ = self.document_nodes.remove(path);
        let _ = self.symbol_tables.remove(path);
        let _ = self.errors.remove(path);
        let _ = self.semantic_tokens.remove(path);
        proof {
            let target = old(self)@.removed(path@);
            assert(self@.documents =~= target.documents);
            assert(self@.nodes =~= target.nodes);
            assert(self@.tables =~= target.tables);
            assert(self@.errors =~= target.errors);
            assert(self@.tokens =~= target.tokens);
        }
    }
}

/// The dependencies that the headers of the document at `path` name.
fn dependencies(path: &str, headers: &Vec<Rc<HeaderNode>>) -> (r: Vec<(String, Rc<HeaderNode>)>)
    ensures
        r.deep_view() == dependencies_of(path@, headers.deep_view(), headers@.len() as int),
{
    let mut out: Vec<(String, Rc<HeaderNode>)> = Vec::new();
    assert(out.deep_view() =~= Seq::empty());
    let parent = path_parent(path);
    let mut i: usize = 0;
    while i < headers.len()
        invariant
            i <= headers.len(),
            parent.deep_view() == crate::path::parent_of(path@),
            out.deep_view() == dependencies_of(path@, headers.deep_view(), i as int),
        decreases headers.len() - i,
    {
        let ghost before = out.deep_view();
        match &*headers[i] {
            HeaderNode::Include(node) => {
                match &parent {
                    Some(directory) => {
                        let dependency = join_path(directory.as_str(), node.literal.as_str());
                        let header = headers[i].clone();
                        out.push((dependency, header));
                        assert(out.deep_view() =~= before.push(
                            (dependency@, headers.deep_view()[i as int]),
                        ));
                    },
                    None => {},
                }
            },
            _ => {},
        }
        i += 1;
        assert(out.deep_view() =~= dependencies_of(path@, headers.deep_view(), i as int));
    }
    out
}

/// Parses the document at `path`: the frame in which its includes are
/// resolved, and the errors of the parse.
fn make_frame(path: &str, content: &[char]) -> (r: (Frame, Vec<Error>))
    requires
        content@.len() < u32::MAX,
    ensures
        r.0.wf(),
        r.0.deep_view() == (FrameView {
            path: path@,
            document: parse_document(content@).0,
            table: table_of(path@, parse_document(content@).0),
            dependencies: dependencies_of(
                path@,
                parse_document(content@).0.headers,
                parse_document(content@).0.headers.len() as int,
            ),
            next: 0,
        }),
        r.1.deep_view() == parse_document(content@).1,
{
    let (document, errors) = Parser::new(content).parse();
    let table = SymbolTable::new_from_ast(path, &document);
    let dependencies = dependencies(path, &document.headers);
    (Frame { path: String::from_str(path), document, table, dependencies, next: 0 }, errors)
}

/// Whether a path is on a stack depends on the frames before the last and
/// on the last.
proof fn lemma_stack_has_prefix(whole: Seq<FrameView>, rest: Seq<FrameView>, path: Seq<char>, n: int)
    requires
        0 <= n <= rest.len(),
        rest.len() <= whole.len(),
        forall|i: int| 0 <= i < rest.len() ==> (#[trigger] whole[i]) == rest[i],
    ensures
        stack_has(whole, path, n) == stack_has(rest, path, n),
    decreases n,
{
    if n > 0 {
        lemma_stack_has_prefix(whole, rest, path, n - 1);
    }
}

fn empty_list() -> (r: Vec<String>)
    ensures
        r.deep_view() == Seq::<Seq<char>>::empty(),
{
    let out: Vec<String> = Vec::new();
    assert(out.deep_view() =~= Seq::<Seq<char>>::empty());
    out
}

} // verus!
