use thrift_analyzer::ast::{
    DefinitionNode, DocumentNode, FieldTypeNode, HeaderNode, Node, NodeRef,
};
use thrift_analyzer::base::{Error, Position, Range};
use thrift_analyzer::parser::Parser;

fn at(line: u32, column: u32) -> Position {
    Position { line, column }
}

fn span(l1: u32, c1: u32, l2: u32, c2: u32) -> Range {
    Range { start: at(l1, c1), end: at(l2, c2) }
}

fn parse(source: &str) -> (DocumentNode, Vec<Error>) {
    let input: Vec<char> = source.chars().collect();
    Parser::new(&input).parse()
}

fn messages(errors: &[Error]) -> Vec<String> {
    errors.iter().map(|e| e.message.clone()).collect()
}

const SAMPLE: &str = r#"
/*
 * A sample of everything.
 */
include "shared.thrift"
cpp_include "<vector>"
namespace go sample.api
namespace * sample (key = "value")

# constants
const i32 ANSWER = 42
const double RATE = -1.5e3;
const string NAME = 'thrift',
const list<string> NAMES = ["a", "b"]
const map<string, i32> AGES = {"a": 1, "b": 2}

typedef map<string, list<i64>> Index

enum Color {
  RED = 1,
  GREEN (deprecated = "yes")
  BLUE = 3;
}

struct Point {
  1: required double x = 0.0,
  2: optional double y;
  3: shared.Label label (tag = "l", other = "m")
  set cpp_type Fast <i32> marks
} (final = "true")

union Shape {
  1: Point point
  2: list<Point> path
}

exception Oops {
  1: string why
}

service Draw extends shared.Base {
  void clear(),
  oneway void ping()
  Shape merge(1: Shape a, 2: Shape b) throws (1: Oops oops) (idempotent = "true");
}
"#;

#[test]
fn parser_parse_success() {
    let (document, errors) = parse(SAMPLE);
    for error in errors.iter() {
        println!("  {:?}: {}", error.range, error.message);
    }
    assert!(errors.is_empty());
    assert_eq!(document.headers.len(), 4);
    assert_eq!(document.definitions.len(), 11);
}

#[test]
fn parser_parse_failed() {
    let source = "struct A {\n  1: i32\n}\nconst = 3\nenum { X }\nservice S { void f( }\n";
    let (document, errors) = parse(source);
    println!("Document: {:#?}", document);
    assert!(!errors.is_empty());
}

#[test]
fn minimal_struct_parses_cleanly() {
    let (document, errors) = parse("struct Point { 1: i32 x, 2: i32 y }");
    assert!(errors.is_empty());
    assert_eq!(document.headers.len(), 0);
    assert_eq!(document.definitions.len(), 1);
    assert_eq!(document.range, span(1, 1, 1, 36));
    match document.definitions[0].as_ref() {
        DefinitionNode::Struct(s) => {
            assert_eq!(s.identifier.name, "Point");
            assert_eq!(s.identifier.range, span(1, 8, 1, 13));
            assert_eq!(s.fields.len(), 2);
            assert_eq!(s.fields[0].field_id.as_ref().unwrap().id, 1);
            assert_eq!(s.fields[0].field_id.as_ref().unwrap().range, span(1, 16, 1, 17));
            assert_eq!(s.fields[1].field_id.as_ref().unwrap().id, 2);
            assert_eq!(s.fields[0].identifier.name, "x");
            assert_eq!(s.fields[1].identifier.name, "y");
            assert_eq!(s.fields[0].range, span(1, 16, 1, 25));
            assert_eq!(s.fields[1].range, span(1, 26, 1, 34));
            for field in s.fields.iter() {
                match &field.field_type {
                    FieldTypeNode::BaseType(b) => assert_eq!(b.name, "i32"),
                    other => panic!("unexpected type {:?}", other),
                }
                assert!(field.field_req.is_none());
                assert!(field.default_value.is_none());
                assert!(field.ext.is_none());
            }
            assert!(s.ext.is_none());
            assert_eq!(s.range, span(1, 1, 1, 36));
        }
        other => panic!("unexpected definition {:?}", other),
    }
}

#[test]
fn headers_are_read() {
    let (document, errors) = parse(SAMPLE);
    assert!(errors.is_empty());
    match document.headers[0].as_ref() {
        HeaderNode::Include(n) => {
            assert_eq!(n.literal, "shared.thrift");
            assert_eq!(n.range, span(5, 1, 5, 24));
        }
        other => panic!("unexpected header {:?}", other),
    }
    match document.headers[1].as_ref() {
        HeaderNode::CppInclude(n) => assert_eq!(n.literal, "<vector>"),
        other => panic!("unexpected header {:?}", other),
    }
    match document.headers[2].as_ref() {
        HeaderNode::Namespace(n) => {
            assert_eq!(n.scope, "go");
            assert_eq!(n.identifier.name, "sample.api");
            assert!(n.ext.is_none());
        }
        other => panic!("unexpected header {:?}", other),
    }
    match document.headers[3].as_ref() {
        HeaderNode::Namespace(n) => {
            assert_eq!(n.scope, "*");
            assert_eq!(n.identifier.name, "sample");
            assert_eq!(
                n.ext.as_ref().unwrap().kv_pairs,
                vec![("key".to_string(), "value".to_string())]
            );
        }
        other => panic!("unexpected header {:?}", other),
    }
}

#[test]
fn constants_are_read_as_text() {
    let (document, errors) = parse(SAMPLE);
    assert!(errors.is_empty());
    let values: Vec<(String, String)> = document
        .definitions
        .iter()
        .filter_map(|d| match d.as_ref() {
            DefinitionNode::Const(c) => Some((c.identifier.name.clone(), c.value.value.clone())),
            _ => None,
        })
        .collect();
    assert_eq!(
        values,
        vec![
            ("ANSWER".to_string(), "42".to_string()),
            ("RATE".to_string(), "-1.5e3".to_string()),
            ("NAME".to_string(), "thrift".to_string()),
            ("NAMES".to_string(), "[a, b]".to_string()),
            ("AGES".to_string(), "{a: 1, b: 2}".to_string()),
        ]
    );
}

#[test]
fn nested_constant_values() {
    let (document, errors) = parse("const list<list<i32>> L = [[1, 2], [], [3]]\nconst map<i32, map<i32, i32>> M = {1: {2: 3}, 4: {}}");
    assert!(errors.is_empty());
    match document.definitions[0].as_ref() {
        DefinitionNode::Const(c) => assert_eq!(c.value.value, "[[1, 2], [], [3]]"),
        other => panic!("unexpected definition {:?}", other),
    }
    match document.definitions[1].as_ref() {
        DefinitionNode::Const(c) => assert_eq!(c.value.value, "{1: {2: 3}, 4: {}}"),
        other => panic!("unexpected definition {:?}", other),
    }
}

#[test]
fn types_nest() {
    let (document, errors) = parse(SAMPLE);
    assert!(errors.is_empty());
    match document.definitions[5].as_ref() {
        DefinitionNode::Typedef(t) => {
            assert_eq!(t.identifier.name, "Index");
            match &t.definition_type {
                FieldTypeNode::MapType(m) => {
                    assert!(m.cpp_type.is_none());
                    match m.key_type.as_ref() {
                        FieldTypeNode::BaseType(b) => assert_eq!(b.name, "string"),
                        other => panic!("unexpected type {:?}", other),
                    }
                    match m.value_type.as_ref() {
                        FieldTypeNode::ListType(l) => match l.type_node.as_ref() {
                            FieldTypeNode::BaseType(b) => assert_eq!(b.name, "i64"),
                            other => panic!("unexpected type {:?}", other),
                        },
                        other => panic!("unexpected type {:?}", other),
                    }
                }
                other => panic!("unexpected type {:?}", other),
            }
        }
        other => panic!("unexpected definition {:?}", other),
    }
}

#[test]
fn enum_values_are_read() {
    let (document, errors) = parse(SAMPLE);
    assert!(errors.is_empty());
    match document.definitions[6].as_ref() {
        DefinitionNode::Enum(e) => {
            assert_eq!(e.identifier.name, "Color");
            let values: Vec<(String, Option<i32>, bool)> =
                e.values.iter().map(|v| (v.name.clone(), v.value, v.ext.is_some())).collect();
            assert_eq!(
                values,
                vec![
                    ("RED".to_string(), Some(1), false),
                    ("GREEN".to_string(), None, true),
                    ("BLUE".to_string(), Some(3), false),
                ]
            );
        }
        other => panic!("unexpected definition {:?}", other),
    }
}

#[test]
fn fields_are_read() {
    let (document, errors) = parse(SAMPLE);
    assert!(errors.is_empty());
    match document.definitions[7].as_ref() {
        DefinitionNode::Struct(s) => {
            assert_eq!(s.fields.len(), 4);
            assert_eq!(s.fields[0].field_req.as_deref(), Some("required"));
            assert_eq!(s.fields[0].default_value.as_ref().unwrap().value, "0.0");
            assert_eq!(s.fields[1].field_req.as_deref(), Some("optional"));
            assert!(s.fields[1].default_value.is_none());
            match &s.fields[2].field_type {
                FieldTypeNode::Identifier(id) => assert_eq!(id.name, "shared.Label"),
                other => panic!("unexpected type {:?}", other),
            }
            assert_eq!(
                s.fields[2].ext.as_ref().unwrap().kv_pairs,
                vec![("tag".to_string(), "l".to_string()), ("other".to_string(), "m".to_string())]
            );
            assert!(s.fields[3].field_id.is_none());
            match &s.fields[3].field_type {
                FieldTypeNode::SetType(set) => assert_eq!(set.cpp_type.as_deref(), Some("Fast")),
                other => panic!("unexpected type {:?}", other),
            }
            assert_eq!(
                s.ext.as_ref().unwrap().kv_pairs,
                vec![("final".to_string(), "true".to_string())]
            );
        }
        other => panic!("unexpected definition {:?}", other),
    }
}

#[test]
fn services_are_read() {
    let (document, errors) = parse(SAMPLE);
    assert!(errors.is_empty());
    match document.definitions[10].as_ref() {
        DefinitionNode::Service(s) => {
            assert_eq!(s.identifier.name, "Draw");
            assert_eq!(s.extends.as_ref().unwrap().name, "shared.Base");
            assert_eq!(s.functions.len(), 3);
            assert!(!s.functions[0].is_oneway);
            match &s.functions[0].function_type {
                FieldTypeNode::BaseType(b) => assert_eq!(b.name, "void"),
                other => panic!("unexpected type {:?}", other),
            }
            assert!(s.functions[1].is_oneway);
            assert_eq!(s.functions[1].identifier.name, "ping");
            let merge = &s.functions[2];
            assert_eq!(merge.identifier.name, "merge");
            assert_eq!(merge.fields.len(), 2);
            assert_eq!(merge.throws.as_ref().unwrap().len(), 1);
            assert_eq!(merge.throws.as_ref().unwrap()[0].identifier.name, "oops");
            assert_eq!(
                merge.ext.as_ref().unwrap().kv_pairs,
                vec![("idempotent".to_string(), "true".to_string())]
            );
        }
        other => panic!("unexpected definition {:?}", other),
    }
}

#[test]
fn a_word_of_the_language_may_be_a_name() {
    let (document, errors) = parse("struct list { 1: i32 string }");
    assert!(errors.is_empty());
    match document.definitions[0].as_ref() {
        DefinitionNode::Struct(s) => {
            assert_eq!(s.identifier.name, "list");
            assert_eq!(s.fields[0].identifier.name, "string");
        }
        other => panic!("unexpected definition {:?}", other),
    }
}

#[test]
fn an_invalid_name_is_an_error() {
    let (document, errors) = parse("struct 5 { }");
    assert_eq!(messages(&errors)[0], "Invalid identifier: 5");
    assert_eq!(errors[0].range, span(1, 8, 1, 9));
    assert_eq!(document.definitions.len(), 0);
}

#[test]
fn an_unexpected_token_is_passed_over() {
    let (document, errors) = parse("foo bar struct A {}");
    assert_eq!(messages(&errors), vec!["Unexpected token: foo".to_string()]);
    assert_eq!(errors[0].range, span(1, 1, 1, 4));
    assert_eq!(document.definitions.len(), 1);
    assert_eq!(document.definitions[0].name(), "A");
}

#[test]
fn expected_token_errors_name_what_was_found() {
    let (_, errors) = parse("include 5");
    assert_eq!(messages(&errors), vec!["Expected literal, but got 5".to_string()]);
    let (_, errors) = parse("struct A [");
    assert_eq!(messages(&errors)[0], "Expected '{', but got [");
    let (_, errors) = parse("namespace 3 x");
    assert_eq!(messages(&errors)[0], "Expected namespace scope, but got 3");
    let (_, errors) = parse("const i32 X 3");
    assert_eq!(messages(&errors)[0], "Expected '=', but got 3");
    let (_, errors) = parse("const i32 X = }");
    assert_eq!(messages(&errors)[0], "Expected constant value, but got }");
    let (_, errors) = parse("typedef Foo Bar");
    assert_eq!(messages(&errors)[0], "Expected map, set, or list, but got Foo");
    let (_, errors) = parse("const map<i32 i32> M = {}");
    assert_eq!(messages(&errors)[0], "Expected ',', but got i32");
}

#[test]
fn end_of_input_closes_a_body() {
    let (document, errors) = parse("struct A { 1: i32 a");
    assert_eq!(messages(&errors), vec!["Unexpected end of file".to_string()]);
    assert_eq!(errors[0].range, span(1, 20, 1, 20));
    match document.definitions[0].as_ref() {
        DefinitionNode::Struct(s) => assert_eq!(s.fields.len(), 1),
        other => panic!("unexpected definition {:?}", other),
    }
}

#[test]
fn a_bad_field_is_passed_over_to_the_end_of_its_line() {
    let (document, errors) = parse("struct A {\n  1: = x\n  2: i32 b\n}\nstruct B {}");
    assert_eq!(messages(&errors), vec!["Expected map, set, or list, but got =".to_string()]);
    assert_eq!(document.definitions.len(), 2);
    match document.definitions[0].as_ref() {
        DefinitionNode::Struct(s) => {
            assert_eq!(s.fields.len(), 1);
            assert_eq!(s.fields[0].identifier.name, "b");
        }
        other => panic!("unexpected definition {:?}", other),
    }
}

#[test]
fn a_bad_enum_value_is_passed_over() {
    let (document, errors) = parse("enum E {\n  A = 1\n  B = x\n  C\n}");
    assert_eq!(messages(&errors), vec!["Expected integer constant, but got x".to_string()]);
    match document.definitions[0].as_ref() {
        DefinitionNode::Enum(e) => {
            let names: Vec<&str> = e.values.iter().map(|v| v.name.as_str()).collect();
            assert_eq!(names, vec!["A", "C"]);
        }
        other => panic!("unexpected definition {:?}", other),
    }
}

#[test]
fn a_bad_parameter_ends_the_function() {
    let (document, errors) = parse("service S {\n  void f(1: = x)\n  void g()\n}");
    assert_eq!(messages(&errors), vec!["Expected map, set, or list, but got =".to_string()]);
    match document.definitions[0].as_ref() {
        DefinitionNode::Service(s) => {
            let names: Vec<&str> = s.functions.iter().map(|f| f.identifier.name.as_str()).collect();
            assert_eq!(names, vec!["g"]);
        }
        other => panic!("unexpected definition {:?}", other),
    }
}

#[test]
fn requiredness_twice_is_an_error() {
    let (_, errors) = parse("struct A {\n  required optional i32 a\n}");
    assert_eq!(messages(&errors), vec!["Expected field type, but got optional".to_string()]);
}

#[test]
fn numbers_out_of_range_read_as_zero() {
    let (document, errors) = parse("struct A { 99999999999: i32 a }\nenum E { X = -2147483648, Y = 2147483648 }");
    assert!(errors.is_empty());
    match document.definitions[0].as_ref() {
        DefinitionNode::Struct(s) => assert_eq!(s.fields[0].field_id.as_ref().unwrap().id, 0),
        other => panic!("unexpected definition {:?}", other),
    }
    match document.definitions[1].as_ref() {
        DefinitionNode::Enum(e) => {
            assert_eq!(e.values[0].value, Some(i32::MIN));
            assert_eq!(e.values[1].value, Some(0));
        }
        other => panic!("unexpected definition {:?}", other),
    }
}

#[test]
fn scanner_errors_come_with_the_parse() {
    let (document, errors) = parse("const string S = \"hello\nstruct A {}");
    assert_eq!(errors[0].message, "Unclosed string: hello\nstruct A {}");
    assert!(errors.len() >= 2);
    assert_eq!(document.definitions.len(), 0);
}

#[test]
fn an_unterminated_string_on_the_last_line() {
    let (document, errors) = parse("struct A {}\nconst string S = \"hello\n");
    assert_eq!(
        messages(&errors),
        vec![
            "Unclosed string: hello".to_string(),
            "Expected constant value, but got hello".to_string()
        ]
    );
    assert_eq!(document.definitions.len(), 1);
}

#[test]
fn comments_are_passed_over() {
    let (document, errors) = parse("// a\nstruct /* b */ A { # c\n 1: i32 /* d */ x // e\n}");
    assert!(errors.is_empty());
    assert_eq!(document.range, span(2, 1, 4, 2));
    assert_eq!(document.definitions[0].name(), "A");
}

#[test]
fn an_empty_document_has_an_empty_range() {
    let (document, errors) = parse("");
    assert!(errors.is_empty());
    assert_eq!(document.range, span(1, 1, 1, 1));
    let (document, errors) = parse("\n\n  // nothing\n");
    assert!(errors.is_empty());
    assert_eq!(document.range, span(4, 1, 4, 1));
    assert!(document.children().is_empty());
}

fn check_within(node: NodeRef<'_>, count: &mut usize) {
    let range = node.range();
    assert!(range.start <= range.end, "range out of order at {:?}", node);
    for child in node.children() {
        let inner = child.range();
        assert!(range.contains(inner.start), "{:?} starts outside {:?}", child, node);
        assert!(range.end >= inner.end, "{:?} ends outside {:?}", child, node);
        *count += 1;
        check_within(child, count);
    }
}

#[test]
fn children_lie_within_their_parents() {
    for source in [
        SAMPLE,
        "struct A {\n  1: = x\n  2: map<string, list<Foo.Bar>> b = {\"k\": [1]} (a = \"b\")\n}",
        "service S extends T {\n  oneway void f(1: i32 a) throws (1: E e) (x = \"y\"),\n}",
        "namespace go a.b (x = \"y\")\nconst i32 X = 1\nfoo\ntypedef i32 I",
        "",
    ] {
        let (document, _) = parse(source);
        let mut count = 0;
        check_within(NodeRef::Document(&document), &mut count);
        assert_eq!(count == 0, document.children().is_empty());
    }
}

#[test]
fn children_come_from_left_to_right() {
    let (document, errors) = parse("struct A { 1: Foo a = 1 (k = \"v\") } (x = \"y\")");
    assert!(errors.is_empty());
    let children = document.children();
    assert_eq!(children.len(), 1);
    let parts = children[0].children();
    let kinds: Vec<&str> = parts
        .iter()
        .map(|n| match n {
            NodeRef::Identifier(_) => "identifier",
            NodeRef::Field(_) => "field",
            NodeRef::Ext(_) => "ext",
            _ => "other",
        })
        .collect();
    assert_eq!(kinds, vec!["identifier", "field", "ext"]);
    let field = parts[1].children();
    let kinds: Vec<&str> = field
        .iter()
        .map(|n| match n {
            NodeRef::FieldId(_) => "id",
            NodeRef::Identifier(_) => "identifier",
            NodeRef::ConstValue(_) => "value",
            NodeRef::Ext(_) => "ext",
            _ => "other",
        })
        .collect();
    assert_eq!(kinds, vec!["id", "identifier", "identifier", "value", "ext"]);
}

#[test]
fn parsing_twice_gives_the_same() {
    for source in [SAMPLE, "struct A {\n  1: = x\n}\nfoo", "const string S = \"x"] {
        let (first, first_errors) = parse(source);
        let (second, second_errors) = parse(source);
        assert_eq!(format!("{:?}", first), format!("{:?}", second));
        assert_eq!(first_errors, second_errors);
    }
}

#[test]
fn names_split_at_their_first_dot() {
    let (document, _) = parse("struct A { 1: ns.inner.Type x }");
    let field_type = match document.definitions[0].as_ref() {
        DefinitionNode::Struct(s) => match &s.fields[0].field_type {
            FieldTypeNode::Identifier(id) => id.clone(),
            other => panic!("unexpected type {:?}", other),
        },
        other => panic!("unexpected definition {:?}", other),
    };
    assert_eq!(field_type.range, span(1, 15, 1, 28));
    let (namespace, rest) = field_type.split_by_first_dot();
    let namespace = namespace.unwrap();
    assert_eq!(namespace.name, "ns");
    assert_eq!(namespace.range, span(1, 15, 1, 17));
    assert_eq!(rest.name, "inner.Type");
    assert_eq!(rest.range, span(1, 17, 1, 28));
    assert!(field_type.position_in_namespace(at(1, 15)));
    assert!(field_type.position_in_namespace(at(1, 17)));
    assert!(!field_type.position_in_namespace(at(1, 18)));
    assert!(!field_type.position_in_namespace(at(2, 15)));
    let (none, whole) = namespace.split_by_first_dot();
    assert!(none.is_none());
    assert_eq!(whole.name, "ns");
    assert!(!whole.position_in_namespace(at(1, 15)));
}

#[test]
fn definitions_have_names() {
    let (document, _) = parse("const i32 C = 1 typedef i32 T enum E {} struct S {} union U {} exception X {} service V {}");
    let names: Vec<&str> = document.definitions.iter().map(|d| d.name()).collect();
    assert_eq!(names, vec!["C", "T", "E", "S", "U", "X", "V"]);
    assert_eq!(document.definitions[3].identifier().range, span(1, 48, 1, 49));
}
