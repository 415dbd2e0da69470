use std::rc::Rc;
use thrift_analyzer::analyzer::{Action, Analyzer, Event};
use thrift_analyzer::ast::{DefinitionNode, DocumentNode, HeaderNode};
use thrift_analyzer::base::{Error, Location, Position, Range};
use thrift_analyzer::parser::Parser;
use thrift_analyzer::semantic::{collect_marks, encode_marks, semantic_tokens, sort_marks, Mark};
use thrift_analyzer::symbol::SymbolTable;

fn at(line: u32, column: u32) -> Position {
    Position { line, column }
}

fn span(l1: u32, c1: u32, l2: u32, c2: u32) -> Range {
    Range { start: at(l1, c1), end: at(l2, c2) }
}

fn parse(source: &str) -> (DocumentNode, Vec<Error>) {
    let input: Vec<char> = source.chars().collect();
    Parser::new(&input).parse()
}

/// Runs an analysis to its end; `files` stands for what can be read.
fn sync(analyzer: &mut Analyzer, path: &str, content: &str, files: &[(&str, &str)]) -> Vec<String> {
    let mut reads = Vec::new();
    let mut action = analyzer.sync_document(path, content);
    loop {
        action = match action {
            Action::Done => break,
            Action::Continue => analyzer.run(),
            Action::Read(wanted) => {
                reads.push(wanted.clone());
                match files.iter().find(|(p, _)| *p == wanted) {
                    Some((_, text)) => analyzer.step(Event::Content(text.to_string())),
                    None => analyzer.step(Event::Failed("No such file".to_string())),
                }
            }
        };
    }
    reads
}

fn errors_of(analyzer: &Analyzer, path: &str) -> Vec<Error> {
    match analyzer.errors().get(path) {
        Some(errors) => errors.iter().map(|e| e.clone()).collect(),
        None => Vec::new(),
    }
}

fn messages(analyzer: &Analyzer, path: &str) -> Vec<String> {
    errors_of(analyzer, path).into_iter().map(|e| e.message).collect()
}

const POINT: &str = "struct Point { 1: i32 x, 2: i32 y }";

#[test]
fn a_minimal_struct_is_clean() {
    let mut analyzer = Analyzer::new();
    let reads = sync(&mut analyzer, "a.thrift", POINT, &[]);
    assert!(reads.is_empty());
    assert_eq!(errors_of(&analyzer, "a.thrift"), Vec::new());
    assert_eq!(analyzer.semantic_tokens("a.thrift"), Some(&Vec::new()));
}

#[test]
fn a_type_of_an_included_file() {
    let b = "include \"a.thrift\"\nstruct B { 1: a.Point p }";
    let mut analyzer = Analyzer::new();
    sync(&mut analyzer, "a.thrift", POINT, &[]);
    let reads = sync(&mut analyzer, "b.thrift", b, &[]);
    assert!(reads.is_empty());
    assert_eq!(errors_of(&analyzer, "a.thrift"), Vec::new());
    assert_eq!(errors_of(&analyzer, "b.thrift"), Vec::new());
    assert_eq!(
        analyzer.definition("b.thrift", at(2, 18)),
        Some(Location { path: "a.thrift".to_string(), range: span(1, 8, 1, 13) })
    );
    assert_eq!(
        analyzer.definition("b.thrift", at(2, 15)),
        Some(Location { path: "b.thrift".to_string(), range: span(1, 1, 1, 19) })
    );
    assert_eq!(analyzer.definition("b.thrift", at(2, 23)), None);
    assert_eq!(analyzer.definition("b.thrift", at(9, 9)), None);
    assert_eq!(analyzer.definition("c.thrift", at(1, 1)), None);
}

#[test]
fn an_included_file_is_read_when_it_is_not_open() {
    let b = "include \"a.thrift\"\nstruct B { 1: a.Point p }";
    let mut analyzer = Analyzer::new();
    let reads = sync(&mut analyzer, "dir/b.thrift", b, &[("dir/a.thrift", POINT)]);
    assert_eq!(reads, vec!["dir/a.thrift".to_string()]);
    assert_eq!(errors_of(&analyzer, "dir/b.thrift"), Vec::new());
    assert_eq!(errors_of(&analyzer, "dir/a.thrift"), Vec::new());
    assert_eq!(
        analyzer.definition("dir/b.thrift", at(2, 18)),
        Some(Location { path: "dir/a.thrift".to_string(), range: span(1, 8, 1, 13) })
    );
    let reads = sync(&mut analyzer, "dir/b.thrift", b, &[]);
    assert!(reads.is_empty(), "a parsed file is not read again");
    assert_eq!(errors_of(&analyzer, "dir/b.thrift"), Vec::new());
}

#[test]
fn a_circular_include() {
    let x = "include \"y.thrift\"\nstruct X {}";
    let y = "include \"x.thrift\"\nstruct Y {}";
    let mut analyzer = Analyzer::new();
    let reads = sync(&mut analyzer, "x.thrift", x, &[("y.thrift", y)]);
    assert_eq!(reads, vec!["y.thrift".to_string()]);
    assert_eq!(errors_of(&analyzer, "x.thrift"), Vec::new());
    let errors = errors_of(&analyzer, "y.thrift");
    assert_eq!(errors.len(), 1);
    assert!(errors[0].message.starts_with("Circular dependency detected:"));
    assert_eq!(errors[0].message, "Circular dependency detected: x.thrift");
    assert_eq!(errors[0].range, span(1, 1, 1, 19));
}

#[test]
fn a_file_that_includes_itself() {
    let mut analyzer = Analyzer::new();
    let source = "include \"x.thrift\"\ninclude \"x.thrift\"\nstruct X {}";
    sync(&mut analyzer, "x.thrift", source, &[]);
    assert_eq!(
        messages(&analyzer, "x.thrift"),
        vec![
            "Circular dependency detected: x.thrift".to_string(),
            "Circular dependency detected: x.thrift".to_string()
        ]
    );
}

#[test]
fn a_cycle_with_doubled_includes_ends() {
    let x = "include \"y.thrift\"\ninclude \"y.thrift\"\nstruct X {}";
    let y = "include \"x.thrift\"\ninclude \"x.thrift\"\nstruct Y {}";
    let mut analyzer = Analyzer::new();
    sync(&mut analyzer, "x.thrift", x, &[("y.thrift", y)]);
    assert_eq!(errors_of(&analyzer, "x.thrift"), Vec::new());
    assert_eq!(messages(&analyzer, "y.thrift").len(), 2);
}

#[test]
fn siblings_may_include_the_same_file() {
    let root = "include \"l.thrift\"\ninclude \"r.thrift\"\nstruct Root { 1: l.L a, 2: r.R b }";
    let l = "include \"base.thrift\"\nstruct L { 1: base.Base b }";
    let r = "include \"base.thrift\"\nstruct R { 1: base.Base b }";
    let base = "struct Base {}";
    let mut analyzer = Analyzer::new();
    let reads = sync(
        &mut analyzer,
        "root.thrift",
        root,
        &[("l.thrift", l), ("r.thrift", r), ("base.thrift", base)],
    );
    assert_eq!(reads, vec!["l.thrift".to_string(), "base.thrift".to_string(), "r.thrift".to_string()]);
    for path in ["root.thrift", "l.thrift", "r.thrift", "base.thrift"] {
        assert_eq!(errors_of(&analyzer, path), Vec::new(), "{}", path);
    }
}

#[test]
fn a_file_that_cannot_be_read() {
    let mut analyzer = Analyzer::new();
    let source = "include \"missing.thrift\"\nstruct A { 1: missing.T t }";
    let reads = sync(&mut analyzer, "a.thrift", source, &[]);
    assert_eq!(reads, vec!["missing.thrift".to_string()]);
    let errors = errors_of(&analyzer, "a.thrift");
    assert_eq!(
        errors,
        vec![
            Error {
                range: span(1, 1, 1, 25),
                message: "Failed to read file missing.thrift: No such file".to_string()
            },
            Error { range: span(2, 15, 2, 24), message: "Undefined type: missing.T".to_string() },
        ]
    );
    assert!(analyzer.semantic_tokens("a.thrift").is_some());
}

#[test]
fn a_duplicate_field_id() {
    let mut analyzer = Analyzer::new();
    sync(&mut analyzer, "s.thrift", "struct S { 1: i32 a, 1: i32 b }", &[]);
    assert_eq!(
        errors_of(&analyzer, "s.thrift"),
        vec![Error { range: span(1, 22, 1, 23), message: "Duplicate field ID: 1".to_string() }]
    );
}

#[test]
fn an_undefined_type() {
    let mut analyzer = Analyzer::new();
    sync(&mut analyzer, "s.thrift", "struct S { 1: Foo x }", &[]);
    assert_eq!(
        errors_of(&analyzer, "s.thrift"),
        vec![Error { range: span(1, 15, 1, 18), message: "Undefined type: Foo".to_string() }]
    );
}

#[test]
fn an_unterminated_string_is_reported() {
    let mut analyzer = Analyzer::new();
    sync(&mut analyzer, "s.thrift", "const string S = \"hello\n", &[]);
    let found = messages(&analyzer, "s.thrift");
    assert_eq!(found[0], "Unclosed string: hello");
    assert!(analyzer.semantic_tokens("s.thrift").is_some());
    sync(&mut analyzer, "t.thrift", "const string S = \"hello\nstruct A {}\nstruct B {}", &[]);
    assert!(messages(&analyzer, "t.thrift")[0].starts_with("Unclosed string: hello"));
}

#[test]
fn duplicate_names_of_every_kind() {
    let source = "struct A { 1: i32 a, 2: i32 a, -3: i32 b, -3: i32 c }\nstruct A {}\nconst i32 A = 1\nservice S {\n  void f(1: i32 x, 1: i32 x),\n  void f()\n}";
    let mut analyzer = Analyzer::new();
    sync(&mut analyzer, "d.thrift", source, &[]);
    assert_eq!(
        messages(&analyzer, "d.thrift"),
        vec![
            "Duplicate definition: A".to_string(),
            "Duplicate field identifier: a".to_string(),
            "Duplicate field ID: -3".to_string(),
            "Duplicate field ID: 1".to_string(),
            "Duplicate field identifier: x".to_string(),
            "Duplicate function identifier: f".to_string(),
        ]
    );
    let errors = errors_of(&analyzer, "d.thrift");
    assert_eq!(errors[0].range, span(2, 1, 2, 12));
    assert_eq!(errors[5].range, span(6, 8, 6, 9));
}

#[test]
fn the_first_of_two_definitions_is_kept() {
    let (document, _) = parse("struct N { 1: i32 first }\nenum N { second }\nunion N {}\nconst i32 M = 1");
    let table = SymbolTable::new_from_ast("n.thrift", &document);
    assert_eq!(
        table.errors(),
        vec![
            Error { range: span(2, 1, 2, 18), message: "Duplicate definition: N".to_string() },
            Error { range: span(3, 1, 3, 11), message: "Duplicate definition: N".to_string() },
        ]
    );
    assert_eq!(table.types().len(), 1);
    match table.types().get("N").unwrap().as_ref() {
        DefinitionNode::Struct(_) => {}
        other => panic!("unexpected definition {:?}", other),
    }
    assert!(table.types().get("M").is_none(), "a constant is no type");
    assert_eq!(table.path(), "n.thrift");
}

#[test]
fn types_are_checked_in_every_place() {
    let source = "const A a = 1\ntypedef list<B> T\nstruct S { 1: map<C, list<D>> m }\nunion U { 1: E e }\nexception X { 1: set<F> f }\nservice V extends G {\n  H f(1: I i) throws (1: J j)\n  void g()\n}";
    let mut analyzer = Analyzer::new();
    sync(&mut analyzer, "t.thrift", source, &[]);
    assert_eq!(
        messages(&analyzer, "t.thrift"),
        vec![
            "Undefined type: A".to_string(),
            "Undefined type: C".to_string(),
            "Undefined type: D".to_string(),
            "Undefined type: E".to_string(),
            "Undefined type: F".to_string(),
            "Undefined type: G".to_string(),
            "Undefined type: H".to_string(),
            "Undefined type: I".to_string(),
            "Undefined type: J".to_string(),
        ]
    );
}

#[test]
fn errors_come_in_the_order_of_the_phases() {
    let source = "struct A { 1: Foo x, 1: i32 y }\nstruct A {}\nstruct B { 1: = }";
    let mut analyzer = Analyzer::new();
    sync(&mut analyzer, "p.thrift", source, &[]);
    assert_eq!(
        messages(&analyzer, "p.thrift"),
        vec![
            "Expected map, set, or list, but got =".to_string(),
            "Unexpected end of file".to_string(),
            "Duplicate definition: A".to_string(),
            "Undefined type: Foo".to_string(),
            "Duplicate field ID: 1".to_string(),
        ]
    );
}

#[test]
fn semantic_tokens_of_types_and_functions() {
    let source = "typedef i32 MyInt\nstruct S { 1: MyInt a }\nservice Svc { MyInt get(1: S s) }";
    let mut analyzer = Analyzer::new();
    sync(&mut analyzer, "t.thrift", source, &[]);
    assert_eq!(errors_of(&analyzer, "t.thrift"), Vec::new());
    assert_eq!(
        analyzer.semantic_tokens("t.thrift"),
        Some(&vec![0, 12, 5, 0, 0, 1, 14, 5, 0, 0, 1, 14, 5, 0, 0, 0, 6, 3, 1, 0, 0, 7, 1, 0, 0])
    );
    assert_eq!(analyzer.semantic_tokens("u.thrift"), None);
    assert_eq!(analyzer.semantic_token_types(), vec!["type".to_string(), "function".to_string()]);
    assert_eq!(analyzer.semantic_token_modifiers(), Vec::<String>::new());
}

#[test]
fn semantic_tokens_never_go_back() {
    let source = "service B extends A.Base {\n  map<K, list<V>> f(1: X x, 2: Y y) throws (1: E e),\n  Z g()\n}\nconst C c = 1\ntypedef set<T> U\nunion W { 1: P p }";
    let (document, errors) = parse(source);
    assert!(errors.is_empty());
    let stream = semantic_tokens(&document);
    assert_eq!(stream.len() % 5, 0);
    assert_eq!(stream.len() / 5, 13);
    let mut line = 0u32;
    let mut column = 0u32;
    for token in stream.chunks(5) {
        let before = (line, column);
        line += token[0];
        column = if token[0] == 0 { column + token[1] } else { token[1] };
        assert!(before <= (line, column));
        assert!(token[3] <= 1);
        assert_eq!(token[4], 0);
    }
    let marks = collect_marks(&document);
    let sorted = sort_marks(&marks);
    assert_eq!(sorted.len(), marks.len());
    for pair in sorted.windows(2) {
        assert!(pair[0].range <= pair[1].range);
    }
    assert_eq!(encode_marks(&sorted), stream);
    let last = sorted.last().unwrap();
    assert_eq!((line + 1, column + 1), (last.range.start.line, last.range.start.column));
}

#[test]
fn marks_with_one_range_keep_their_order() {
    let a = Mark { range: span(1, 1, 1, 2), length: 1, kind: 0 };
    let b = Mark { range: span(1, 1, 1, 2), length: 1, kind: 1 };
    let c = Mark { range: span(1, 1, 1, 1), length: 0, kind: 0 };
    let d = Mark { range: span(2, 1, 2, 3), length: 2, kind: 0 };
    assert_eq!(sort_marks(&vec![d, a, b, c]), vec![c, a, b, d]);
    assert_eq!(sort_marks(&vec![b, a]), vec![b, a]);
    assert_eq!(sort_marks(&Vec::new()), Vec::new());
    assert_eq!(
        encode_marks(&vec![c, a, d]),
        vec![0, 0, 0, 0, 0, 0, 0, 1, 0, 0, 1, 0, 2, 0, 0]
    );
}

#[test]
fn the_length_of_a_token_counts_utf16_units() {
    assert_eq!(thrift_analyzer::semantic::wire_length_of("abc"), 3);
    assert_eq!(thrift_analyzer::semantic::wire_length_of("h\u{e9}"), 2);
    assert_eq!(thrift_analyzer::semantic::wire_length_of("a\u{1F600}"), 3);
    assert_eq!(thrift_analyzer::semantic::wire_length_of(""), 0);
}

#[test]
fn definition_of_a_local_type() {
    let source = "struct A {}\nstruct B {\n  1: list<A> as\n}\nservice S extends Base {\n  A f(1: B b)\n}\nservice Base {}";
    let mut analyzer = Analyzer::new();
    sync(&mut analyzer, "l.thrift", source, &[]);
    assert_eq!(errors_of(&analyzer, "l.thrift"), Vec::new());
    let a = Some(Location { path: "l.thrift".to_string(), range: span(1, 8, 1, 9) });
    assert_eq!(analyzer.definition("l.thrift", at(3, 11)), a);
    assert_eq!(analyzer.definition("l.thrift", at(6, 3)), a);
    assert_eq!(
        analyzer.definition("l.thrift", at(6, 10)),
        Some(Location { path: "l.thrift".to_string(), range: span(2, 8, 2, 9) })
    );
    assert_eq!(
        analyzer.definition("l.thrift", at(5, 20)),
        Some(Location { path: "l.thrift".to_string(), range: span(8, 9, 8, 13) })
    );
    assert_eq!(analyzer.definition("l.thrift", at(3, 4)), None);
    assert_eq!(
        analyzer.definition("l.thrift", at(1, 8)),
        Some(Location { path: "l.thrift".to_string(), range: span(1, 8, 1, 9) })
    );
    assert_eq!(analyzer.definition("l.thrift", at(6, 5)), None, "a function names no type");
}

#[test]
fn definition_through_a_chain_of_includes() {
    let c = "struct Deep {}";
    let b = "include \"c.thrift\"\nstruct Mid {}";
    let a = "include \"b.thrift\"\nstruct Top { 1: b.c.Deep d, 2: b.Mid m, 3: c.Deep no }";
    let mut analyzer = Analyzer::new();
    let reads = sync(&mut analyzer, "w/a.thrift", a, &[("w/b.thrift", b), ("w/c.thrift", c)]);
    assert_eq!(reads, vec!["w/b.thrift".to_string(), "w/c.thrift".to_string()]);
    assert_eq!(messages(&analyzer, "w/a.thrift"), vec!["Undefined type: c.Deep".to_string()]);
    assert_eq!(
        analyzer.definition("w/a.thrift", at(2, 22)),
        Some(Location { path: "w/c.thrift".to_string(), range: span(1, 8, 1, 12) })
    );
    assert_eq!(
        analyzer.definition("w/a.thrift", at(2, 34)),
        Some(Location { path: "w/b.thrift".to_string(), range: span(2, 8, 2, 11) })
    );
    assert_eq!(
        analyzer.definition("w/a.thrift", at(2, 17)),
        Some(Location { path: "w/a.thrift".to_string(), range: span(1, 1, 1, 19) })
    );
}

#[test]
fn an_edit_elsewhere_changes_no_definition() {
    let b = "include \"a.thrift\"\nstruct B { 1: a.Point p }";
    let mut analyzer = Analyzer::new();
    sync(&mut analyzer, "a.thrift", POINT, &[]);
    sync(&mut analyzer, "b.thrift", b, &[]);
    let before = analyzer.definition("b.thrift", at(2, 18));
    assert!(before.is_some());
    sync(&mut analyzer, "other.thrift", "struct Point {}\nstruct Other {}", &[]);
    assert_eq!(analyzer.definition("b.thrift", at(2, 18)), before);
    sync(&mut analyzer, "other.thrift", "include \"b.thrift\"\nstruct Other2 { 1: b.B b }", &[]);
    assert_eq!(errors_of(&analyzer, "other.thrift"), Vec::new());
    assert_eq!(analyzer.definition("b.thrift", at(2, 18)), before);
    analyzer.remove_document("other.thrift");
    assert_eq!(analyzer.definition("b.thrift", at(2, 18)), before);
    assert_eq!(analyzer.definition("other.thrift", at(2, 20)), None);
}

#[test]
fn removing_a_document_drops_all_of_it() {
    let mut analyzer = Analyzer::new();
    sync(&mut analyzer, "a.thrift", "struct A { 1: Foo x }", &[]);
    assert!(analyzer.errors().get("a.thrift").is_some());
    assert!(analyzer.semantic_tokens("a.thrift").is_some());
    analyzer.remove_document("a.thrift");
    assert!(analyzer.errors().get("a.thrift").is_none());
    assert!(analyzer.semantic_tokens("a.thrift").is_none());
    assert_eq!(analyzer.types_for_completion("a.thrift", at(1, 1)), Vec::<String>::new());
    assert_eq!(analyzer.includes_for_completion("a.thrift", at(1, 1)), Vec::<String>::new());
    analyzer.remove_document("a.thrift");
    assert_eq!(analyzer.errors().len(), 0);
}

#[test]
fn syncing_again_replaces_the_results() {
    let mut analyzer = Analyzer::new();
    sync(&mut analyzer, "a.thrift", "struct A { 1: Foo x }", &[]);
    assert_eq!(messages(&analyzer, "a.thrift"), vec!["Undefined type: Foo".to_string()]);
    sync(&mut analyzer, "a.thrift", "struct A { 1: Foo x }", &[]);
    assert_eq!(messages(&analyzer, "a.thrift"), vec!["Undefined type: Foo".to_string()]);
    sync(&mut analyzer, "a.thrift", "struct Foo {}\nstruct A { 1: Foo x }", &[]);
    assert_eq!(messages(&analyzer, "a.thrift"), Vec::<String>::new());
    assert_eq!(analyzer.semantic_tokens("a.thrift"), Some(&vec![1, 14, 3, 0, 0]));
}

#[test]
fn a_step_with_nothing_to_do_is_done() {
    let mut analyzer = Analyzer::new();
    assert_eq!(analyzer.step(Event::Resume), Action::Done);
    assert_eq!(analyzer.step(Event::Content("struct A {}".to_string())), Action::Done);
    assert_eq!(analyzer.errors().len(), 0);
}

#[test]
fn a_step_asks_for_a_file_until_it_is_given() {
    let mut analyzer = Analyzer::new();
    assert_eq!(analyzer.sync_document("a.thrift", "include \"b.thrift\""), Action::Continue);
    assert_eq!(analyzer.step(Event::Resume), Action::Read("b.thrift".to_string()));
    assert_eq!(analyzer.step(Event::Resume), Action::Read("b.thrift".to_string()));
    assert_eq!(analyzer.step(Event::Content("struct B {}".to_string())), Action::Continue);
    assert_eq!(analyzer.step(Event::Resume), Action::Continue);
    assert_eq!(analyzer.step(Event::Resume), Action::Done);
    assert_eq!(analyzer.step(Event::Resume), Action::Done);
    assert_eq!(analyzer.includes_for_completion("a.thrift", at(1, 1)), vec!["b".to_string()]);
}

#[test]
fn completion_of_types_and_includes() {
    let a = "struct Point {}\nenum Color {}\nconst i32 K = 1";
    let b = "include \"a.thrift\"\nstruct B {\n  1: a. x\n  2: zz. y\n}\ntypedef i32 T";
    let mut analyzer = Analyzer::new();
    sync(&mut analyzer, "a.thrift", a, &[]);
    sync(&mut analyzer, "b.thrift", b, &[]);
    assert_eq!(
        analyzer.types_for_completion("b.thrift", at(3, 8)),
        vec!["Point".to_string(), "Color".to_string()]
    );
    assert_eq!(analyzer.types_for_completion("b.thrift", at(4, 9)), vec!["".to_string()]);
    assert_eq!(
        analyzer.types_for_completion("b.thrift", at(3, 6)),
        vec!["B".to_string(), "T".to_string()]
    );
    assert_eq!(
        analyzer.types_for_completion("b.thrift", at(1, 1)),
        vec!["B".to_string(), "T".to_string()]
    );
    assert_eq!(analyzer.types_for_completion("b.thrift", at(3, 99)), Vec::<String>::new());
    assert_eq!(analyzer.types_for_completion("b.thrift", at(40, 1)), Vec::<String>::new());
    assert_eq!(analyzer.types_for_completion("none.thrift", at(1, 1)), Vec::<String>::new());
    assert_eq!(analyzer.includes_for_completion("b.thrift", at(1, 1)), vec!["a".to_string()]);
    assert_eq!(analyzer.includes_for_completion("a.thrift", at(1, 1)), Vec::<String>::new());
}

#[test]
fn keywords_for_completion_are_fixed() {
    let analyzer = Analyzer::new();
    assert_eq!(
        analyzer.keywords_for_completion(),
        vec![
            "namespace", "include", "cpp_include", "const", "typedef", "extends", "required",
            "optional", "oneway", "void", "bool", "byte", "i8", "i16", "i32", "i64", "struct",
            "enum", "union", "exception", "service",
        ]
    );
}

#[test]
fn a_table_finds_types_through_its_dependencies() {
    let (a, _) = parse(POINT);
    let (b, _) = parse("include \"sub/a.thrift\"\ncpp_include \"x.h\"\nstruct B { 1: a.Point p, 2: B b, 3: a.Nope n, 4: q.Point q }");
    let table_a = Rc::new(SymbolTable::new_from_ast("sub/a.thrift", &a));
    let mut table_b = SymbolTable::new_from_ast("b.thrift", &b);
    assert!(table_b.includes().is_empty());
    table_b.add_dependency("sub/a.thrift", b.headers[0].clone(), table_a.clone());
    assert_eq!(table_b.includes().len(), 1);
    assert_eq!(table_b.includes()[0].0, "a");
    assert_eq!(table_b.namespaces(), vec!["a".to_string()]);
    assert!(table_b.included("a").is_some());
    assert!(table_b.included("sub/a").is_none());
    assert_eq!(
        table_b.check_document_types(&b),
        vec![
            Error { range: span(3, 37, 3, 43), message: "Undefined type: a.Nope".to_string() },
            Error { range: span(3, 50, 3, 57), message: "Undefined type: q.Point".to_string() },
        ]
    );
    let fields = match b.definitions[0].as_ref() {
        DefinitionNode::Struct(s) => &s.fields,
        other => panic!("unexpected definition {:?}", other),
    };
    let names: Vec<_> = fields
        .iter()
        .map(|f| match &f.field_type {
            thrift_analyzer::ast::FieldTypeNode::Identifier(id) => id.clone(),
            other => panic!("unexpected type {:?}", other),
        })
        .collect();
    let (path, definition, header) = table_b.find_definition_of_identifier_type(&names[0]).unwrap();
    assert_eq!(path, "sub/a.thrift");
    assert_eq!(definition.name(), "Point");
    match header.unwrap().as_ref() {
        HeaderNode::Include(n) => assert_eq!(n.literal, "sub/a.thrift"),
        other => panic!("unexpected header {:?}", other),
    }
    let (path, definition, header) = table_b.find_definition_of_identifier_type(&names[1]).unwrap();
    assert_eq!(path, "b.thrift");
    assert_eq!(definition.name(), "B");
    assert!(header.is_none());
    assert!(table_b.find_definition_of_identifier_type(&names[2]).is_none());
    assert!(table_b.find_definition_of_identifier_type(&names[3]).is_none());
    // a dependency that is no include gives no header to point at
    table_b.add_dependency("q.thrift", b.headers[1].clone(), table_a.clone());
    assert_eq!(table_b.namespaces(), vec!["a".to_string(), "q".to_string()]);
    assert!(table_b.find_definition_of_identifier_type(&names[3]).is_none());
    // a second table under one namespace takes the place of the first
    let (other, _) = parse("struct Nope {}");
    let table_other = Rc::new(SymbolTable::new_from_ast("else/a.thrift", &other));
    table_b.add_dependency("else/a.thrift", b.headers[0].clone(), table_other);
    assert_eq!(table_b.namespaces(), vec!["a".to_string(), "q".to_string()]);
    assert!(table_b.find_definition_of_identifier_type(&names[0]).is_none());
    assert_eq!(table_b.find_definition_of_identifier_type(&names[2]).unwrap().0, "else/a.thrift");
    let empty = SymbolTable::new();
    assert_eq!(empty.path(), "");
    assert_eq!(empty.types().len(), 0);
    assert!(empty.errors().is_empty());
}

#[test]
fn running_stops_at_the_end_or_at_a_read() {
    let mut analyzer = Analyzer::new();
    assert_eq!(analyzer.run(), Action::Done);
    analyzer.sync_document("m.thrift", "struct M {}");
    analyzer.sync_document("a.thrift", "include \"m.thrift\"\ninclude \"d.thrift\"\nstruct A { 1: m.M m }");
    assert_eq!(analyzer.run(), Action::Read("d.thrift".to_string()));
    assert_eq!(analyzer.run(), Action::Read("d.thrift".to_string()));
    assert_eq!(analyzer.step(Event::Failed("gone".to_string())), Action::Continue);
    assert_eq!(analyzer.run(), Action::Done);
    assert_eq!(
        messages(&analyzer, "a.thrift"),
        vec!["Failed to read file d.thrift: gone".to_string()]
    );
    assert_eq!(messages(&analyzer, "m.thrift"), Vec::<String>::new());
    assert_eq!(
        analyzer.includes_for_completion("a.thrift", at(1, 1)),
        vec!["m".to_string()]
    );
}

#[test]
fn a_cycle_leaves_no_table_in_its_own_chain() {
    let x = "include \"y.thrift\"\nstruct X { 1: y.Y y }";
    let y = "include \"x.thrift\"\nstruct Y { 1: x.X x }";
    let mut analyzer = Analyzer::new();
    sync(&mut analyzer, "x.thrift", x, &[("y.thrift", y)]);
    assert_eq!(analyzer.includes_for_completion("x.thrift", at(1, 1)), vec!["y".to_string()]);
    assert_eq!(analyzer.includes_for_completion("y.thrift", at(1, 1)), Vec::<String>::new());
    assert_eq!(errors_of(&analyzer, "x.thrift"), Vec::new());
    assert_eq!(
        messages(&analyzer, "y.thrift"),
        vec!["Circular dependency detected: x.thrift".to_string()]
    );
}
