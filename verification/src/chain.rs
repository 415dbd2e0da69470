//! The chain of included tables: a document is never found in the tables
//! that its own table includes, as long as the tables of the workspace are
//! built one on the other.

use vstd::prelude::*;
use crate::analyzer::{
    circular_error, lemma_linked_advanced, read_error, stack_has, AnalyzerView, EventView,
};
use crate::ast::HeaderNodeView;
use crate::path::file_stem;
use crate::symbol::{find_table, with_dependency, SymbolTableView};

verus! {

/// The document at `path` is one of the first `n` that `table` includes, or
/// is in the chain of one of them.
pub open spec fn in_chain_of(table: SymbolTableView, path: Seq<char>, n: int) -> bool
    decreases table, n,
{
    n > 0 && n <= table.includes.len() && (in_chain_of(table, path, n - 1) || table.includes[n
        - 1].1.path == path || in_chain_of(
        table.includes[n - 1].1,
        path,
        table.includes[n - 1].1.includes.len() as int,
    ))
}

/// The document at `path` is in the chain of the tables that `table`
/// includes: `table` includes it, or includes a table in whose chain it is.
pub open spec fn in_chain(table: SymbolTableView, path: Seq<char>) -> bool {
    in_chain_of(table, path, table.includes.len() as int)
}

/// A path is in the chain where an included table has it or has it in its
/// chain, and only there.
pub proof fn lemma_in_chain(table: SymbolTableView, path: Seq<char>, n: int)
    requires
        0 <= n <= table.includes.len(),
    ensures
        in_chain_of(table, path, n) <==> exists|i: int|
            0 <= i < n && ((#[trigger] table.includes[i]).1.path == path || in_chain(
                table.includes[i].1,
                path,
            )),
    decreases n,
{
    if n > 0 {
        lemma_in_chain(table, path, n - 1);
        if in_chain_of(table, path, n) {
            if in_chain_of(table, path, n - 1) {
                let i = choose|i: int|
                    0 <= i < n - 1 && ((#[trigger] table.includes[i]).1.path == path || in_chain(
                        table.includes[i].1,
                        path,
                    ));
                assert(0 <= i < n && (table.includes[i].1.path == path || in_chain(
                    table.includes[i].1,
                    path,
                )));
            } else {
                assert(table.includes[n - 1].1.path == path || in_chain(
                    table.includes[n - 1].1,
                    path,
                ));
            }
        }
        if exists|i: int|
            0 <= i < n && ((#[trigger] table.includes[i]).1.path == path || in_chain(
                table.includes[i].1,
                path,
            )) {
            let i = choose|i: int|
                0 <= i < n && ((#[trigger] table.includes[i]).1.path == path || in_chain(
                    table.includes[i].1,
                    path,
                ));
            if i < n - 1 {
                assert(in_chain_of(table, path, n - 1));
            }
        }
    }
}

/// What is in the chain of a table with one more dependency was in its chain
/// before, or is the dependency, or is in the chain of the dependency.
pub proof fn lemma_chain_with_dependency(
    table: SymbolTableView,
    path: Seq<char>,
    header: HeaderNodeView,
    dependency: SymbolTableView,
    q: Seq<char>,
)
    requires
        in_chain(with_dependency(table, path, header, dependency), q),
    ensures
        in_chain(table, q) || dependency.path == q || in_chain(dependency, q),
{
    let after = with_dependency(table, path, header, dependency);
    let namespace = file_stem(path);
    lemma_in_chain(after, q, after.includes.len() as int);
    lemma_in_chain(table, q, table.includes.len() as int);
    let i = choose|i: int|
        0 <= i < after.includes.len() && ((#[trigger] after.includes[i]).1.path == q || in_chain(
            after.includes[i].1,
            q,
        ));
    lemma_find_table(table.includes, namespace, 0);
    match find_table(table.includes, namespace, 0) {
        Some(k) => {
            if i != k {
                assert(table.includes[i] == after.includes[i]);
            }
        },
        None => {
            if i < table.includes.len() {
                assert(table.includes[i] == after.includes[i]);
            }
        },
    }
}

/// What `find_table` finds lies within the sequence.
pub proof fn lemma_find_table(
    includes: Seq<(Seq<char>, SymbolTableView)>,
    name: Seq<char>,
    from: int,
)
    requires
        0 <= from,
    ensures
        find_table(includes, name, from) matches Some(i) ==> from <= i < includes.len(),
    decreases includes.len() - from,
{
    if from < includes.len() && includes[from].0 != name {
        lemma_find_table(includes, name, from + 1);
    }
}

/// The tables are built one on the other: each stored table, and the table of
/// each frame, has the path under which it stands, and every document in its
/// chain is parsed; and no stored table has its own document in its chain.
pub open spec fn closed(a: AnalyzerView) -> bool {
    &&& forall|p: Seq<char>| #[trigger]
        a.tables.contains_key(p) ==> a.tables[p].path == p && !in_chain(a.tables[p], p)
    &&& forall|p: Seq<char>, q: Seq<char>|
        a.tables.contains_key(p) && #[trigger] in_chain(a.tables[p], q) ==> a.nodes.contains_key(
            q,
        )
    &&& forall|i: int|
        0 <= i < a.stack.len() ==> (#[trigger] a.stack[i]).table.path == a.stack[i].path
    &&& forall|i: int, q: Seq<char>|
        0 <= i < a.stack.len() && #[trigger] in_chain(a.stack[i].table, q)
            ==> a.nodes.contains_key(q)
}

/// No document stands in its own chain of included tables.
pub proof fn lemma_no_path_in_its_chain(a: AnalyzerView, p: Seq<char>)
    requires
        closed(a),
        a.tables.contains_key(p),
    ensures
        !in_chain(a.tables[p], a.tables[p].path),
{
}

/// A table without included tables has an empty chain.
pub proof fn lemma_empty_chain(table: SymbolTableView, q: Seq<char>)
    requires
        table.includes.len() == 0,
    ensures
        !in_chain(table, q),
{
}

/// Linking a dependency and counting it keeps the tables closed.
proof fn lemma_linked_closed(a: AnalyzerView, dependency: (Seq<char>, HeaderNodeView))
    requires
        a.inv(),
        closed(a),
        a.stack.len() > 0,
    ensures
        closed(a.linked(dependency).advanced()),
{
    lemma_linked_advanced(a, dependency);
    let b = a.linked(dependency).advanced();
    let n = a.stack.len() as int;
    let top = a.stack.last();
    assert forall|i: int| 0 <= i < b.stack.len() implies (#[trigger] b.stack[i]).table.path
        == b.stack[i].path by {
        if i < n - 1 {
            assert(b.stack[i] == a.stack[i]);
        } else {
            assert(a.stack[n - 1].table.path == a.stack[n - 1].path);
        }
    }
    assert forall|i: int, q: Seq<char>|
        0 <= i < b.stack.len() && #[trigger] in_chain(b.stack[i].table, q) implies b.nodes.contains_key(
        q,
    ) by {
        if i < n - 1 {
            assert(b.stack[i] == a.stack[i]);
            assert(in_chain(a.stack[i].table, q));
        } else if a.tables.contains_key(dependency.0) {
            lemma_chain_with_dependency(
                top.table,
                dependency.0,
                dependency.1,
                a.tables[dependency.0],
                q,
            );
            if in_chain(top.table, q) {
                assert(in_chain(a.stack[n - 1].table, q));
            } else if in_chain(a.tables[dependency.0], q) {
            } else {
                assert(a.tables[dependency.0].path == dependency.0);
            }
        } else {
            assert(in_chain(a.stack[n - 1].table, q));
        }
    }
}

/// States that differ in the last frame's count, in errors and in tokens
/// alone are closed together.
proof fn lemma_same_tables(a: AnalyzerView, b: AnalyzerView)
    requires
        closed(a),
        a.nodes == b.nodes,
        a.tables == b.tables,
        a.stack.len() == b.stack.len(),
        forall|i: int|
            0 <= i < a.stack.len() ==> (#[trigger] a.stack[i]).table == b.stack[i].table
                && a.stack[i].path == b.stack[i].path,
    ensures
        closed(b),
{
    assert forall|i: int| 0 <= i < b.stack.len() implies (#[trigger] b.stack[i]).table.path
        == b.stack[i].path by {
        assert(a.stack[i].table.path == a.stack[i].path);
    }
    assert forall|i: int, q: Seq<char>|
        0 <= i < b.stack.len() && #[trigger] in_chain(b.stack[i].table, q) implies b.nodes.contains_key(
        q,
    ) by {
        assert(in_chain(a.stack[i].table, q));
    }
}

/// Entering a document keeps the tables closed.
proof fn lemma_entered_closed(a: AnalyzerView, path: Seq<char>, content: Seq<char>)
    requires
        closed(a),
    ensures
        closed(a.entered(path, content)),
{
    let b = a.entered(path, content);
    let n = a.stack.len() as int;
    assert forall|i: int| 0 <= i < b.stack.len() implies (#[trigger] b.stack[i]).table.path
        == b.stack[i].path by {
        if i < n {
            assert(b.stack[i] == a.stack[i]);
        }
    }
    assert forall|i: int, q: Seq<char>|
        0 <= i < b.stack.len() && #[trigger] in_chain(b.stack[i].table, q) implies b.nodes.contains_key(
        q,
    ) by {
        if i < n {
            assert(b.stack[i] == a.stack[i]);
            assert(in_chain(a.stack[i].table, q));
        } else {
            lemma_empty_chain(b.stack[i].table, q);
        }
    }
}

/// Storing the last frame keeps the tables closed.
proof fn lemma_stored_closed(a: AnalyzerView)
    requires
        a.inv(),
        closed(a),
        a.stack.len() > 0,
    ensures
        closed(a.stored()),
        a.stored().inv(),
{
    let b = a.stored();
    let n = a.stack.len() as int;
    let top = a.stack.last();
    assert(!a.nodes.contains_key(a.stack[n - 1].path));
    assert(a.stack[n - 1].table.path == a.stack[n - 1].path);
    assert forall|p: Seq<char>| #[trigger] b.tables.contains_key(p) implies b.tables[p].path == p
        && !in_chain(b.tables[p], p) by {
        if p == top.path {
            if in_chain(top.table, p) {
                assert(in_chain(a.stack[n - 1].table, p));
            }
        } else {
            assert(a.tables.contains_key(p));
        }
    }
    assert forall|p: Seq<char>, q: Seq<char>|
        b.tables.contains_key(p) && #[trigger] in_chain(b.tables[p], q) implies b.nodes.contains_key(
        q,
    ) by {
        if p == top.path {
            assert(in_chain(a.stack[n - 1].table, q));
        } else {
            assert(a.tables.contains_key(p));
            assert(in_chain(a.tables[p], q));
        }
    }
    assert forall|i: int| 0 <= i < b.stack.len() implies (#[trigger] b.stack[i]).table.path
        == b.stack[i].path by {
        assert(b.stack[i] == a.stack[i]);
    }
    assert forall|i: int, q: Seq<char>|
        0 <= i < b.stack.len() && #[trigger] in_chain(b.stack[i].table, q) implies b.nodes.contains_key(
        q,
    ) by {
        assert(b.stack[i] == a.stack[i]);
        assert(in_chain(a.stack[i].table, q));
    }
    assert forall|i: int| 0 <= i < b.stack.len() implies !b.nodes.contains_key(
        (#[trigger] b.stack[i]).path,
    ) by {
        assert(b.stack[i] == a.stack[i]);
        assert(a.stack[i].path != a.stack[n - 1].path);
    }
    assert forall|i: int, j: int| 0 <= i < j < b.stack.len() implies (#[trigger] b.stack[i]).path != (
    #[trigger] b.stack[j]).path by {
        assert(a.stack[i].path != a.stack[j].path);
    }
}

/// A step keeps the tables closed: so no document comes to stand in its own
/// chain of included tables.
pub proof fn lemma_step_closed(a: AnalyzerView, event: EventView)
    requires
        a.inv(),
        closed(a),
    ensures
        closed(a.step(event).0),
{
    if a.stack.len() > 0 {
        let top = a.stack.last();
        let n = a.stack.len() as int;
        if top.next < 0 || top.next >= top.dependencies.len() {
            lemma_stored_closed(a);
            let stored = a.stored();
            if stored.stack.len() == 0 {
                lemma_same_tables(stored, stored.finished(top.path));
            } else {
                let parent = stored.stack.last();
                if 0 <= parent.next < parent.dependencies.len() {
                    lemma_linked_closed(stored, parent.dependencies[parent.next]);
                }
            }
        } else {
            let dependency = top.dependencies[top.next];
            if stack_has(a.stack, dependency.0, n) {
                let e = a.with_error(top.path, circular_error(dependency));
                lemma_same_tables(a, e);
                lemma_same_tables(e, e.advanced());
            } else if a.nodes.contains_key(dependency.0) {
                lemma_linked_closed(a, dependency);
            } else if a.documents.contains_key(dependency.0) {
                lemma_entered_closed(a, dependency.0, a.documents[dependency.0]);
            } else {
                match event {
                    EventView::Content(content) => {
                        lemma_entered_closed(a, dependency.0, content);
                    },
                    EventView::Failed(reason) => {
                        let e = a.with_error(
                            top.path,
                            read_error(dependency, reason),
                        );
                        lemma_same_tables(a, e);
                        lemma_same_tables(e, e.advanced());
                    },
                    EventView::Resume => {},
                }
            }
        }
    }
}

/// Starting the analysis of a document that was not parsed keeps the tables
/// closed, and a workspace without documents is closed.
pub proof fn lemma_started_closed(a: AnalyzerView, path: Seq<char>, content: Seq<char>)
    requires
        a.inv(),
        closed(a),
        !a.nodes.contains_key(path),
    ensures
        closed(a.started(path, content)),
{
    let cleared = AnalyzerView {
        documents: a.documents.insert(path, content),
        nodes: a.nodes.remove(path),
        tables: a.tables.remove(path),
        errors: a.errors.remove(path),
        tokens: a.tokens.remove(path),
        stack: Seq::empty(),
    };
    assert(cleared.nodes =~= a.nodes);
    assert(cleared.tables =~= a.tables);
    assert(closed(cleared));
    lemma_entered_closed(cleared, path, content);
}

} // verus!
