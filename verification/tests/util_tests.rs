use thrift_analyzer::base::Position;
use thrift_analyzer::dictionary::Dictionary;
use thrift_analyzer::framing::{header_for, next_frame, Frame};
use thrift_analyzer::locate::{offset_at_position, word_ending_at};
use thrift_analyzer::number::{decimal_string, parse_int};
use thrift_analyzer::path::{join_path, path_parent, stem_of};
use thrift_analyzer::text::{chars_of, concat3, concat_str, str_equals, string_from_chars, string_of_char};

#[test]
fn integers_are_read() {
    assert_eq!(parse_int("0"), 0);
    assert_eq!(parse_int("42"), 42);
    assert_eq!(parse_int("+42"), 42);
    assert_eq!(parse_int("-42"), -42);
    assert_eq!(parse_int("007"), 7);
    assert_eq!(parse_int("2147483647"), i32::MAX);
    assert_eq!(parse_int("-2147483648"), i32::MIN);
    assert_eq!(parse_int("2147483648"), 0);
    assert_eq!(parse_int("-2147483649"), 0);
    assert_eq!(parse_int("99999999999999999999999999"), 0);
    assert_eq!(parse_int(""), 0);
    assert_eq!(parse_int("+"), 0);
    assert_eq!(parse_int("-"), 0);
    assert_eq!(parse_int("12a"), 0);
    assert_eq!(parse_int("1-2"), 0);
    assert_eq!(parse_int(" 1"), 0);
}

#[test]
fn integers_are_written() {
    assert_eq!(decimal_string(0), "0");
    assert_eq!(decimal_string(7), "7");
    assert_eq!(decimal_string(10), "10");
    assert_eq!(decimal_string(-3), "-3");
    assert_eq!(decimal_string(1234567890), "1234567890");
    assert_eq!(decimal_string(i32::MAX), "2147483647");
    assert_eq!(decimal_string(i32::MIN), "-2147483648");
}

#[test]
fn the_directory_of_a_file() {
    assert_eq!(path_parent("dir/a.thrift"), Some("dir".to_string()));
    assert_eq!(path_parent("/root/dir/a.thrift"), Some("/root/dir".to_string()));
    assert_eq!(path_parent("/a.thrift"), Some("/".to_string()));
    assert_eq!(path_parent("a.thrift"), Some(String::new()));
    assert_eq!(path_parent("C:\\work\\a.thrift"), Some("C:\\work".to_string()));
    assert_eq!(path_parent(""), None);
    assert_eq!(path_parent("/"), None);
}

#[test]
fn a_path_joined_to_a_directory() {
    assert_eq!(join_path("dir", "a.thrift"), "dir/a.thrift");
    assert_eq!(join_path("dir/", "a.thrift"), "dir/a.thrift");
    assert_eq!(join_path("", "a.thrift"), "a.thrift");
    assert_eq!(join_path("dir", "/abs/a.thrift"), "/abs/a.thrift");
    assert_eq!(join_path("dir", "../up/a.thrift"), "dir/../up/a.thrift");
    assert_eq!(join_path("/", "a.thrift"), "/a.thrift");
    assert_eq!(join_path("dir", ""), "dir/");
}

#[test]
fn the_stem_of_a_file() {
    assert_eq!(stem_of("a.thrift"), "a");
    assert_eq!(stem_of("dir/sub/shared.thrift"), "shared");
    assert_eq!(stem_of("C:\\work\\user.thrift"), "user");
    assert_eq!(stem_of("a.b.thrift"), "a.b");
    assert_eq!(stem_of("noext"), "noext");
    assert_eq!(stem_of(".hidden"), ".hidden");
    assert_eq!(stem_of("dir/"), "");
    assert_eq!(stem_of(""), "");
}

#[test]
fn texts_are_built_from_characters() {
    let chars = chars_of("h\u{e9}llo");
    assert_eq!(chars, vec!['h', '\u{e9}', 'l', 'l', 'o']);
    assert_eq!(string_from_chars(&chars, 1, 4), "\u{e9}ll");
    assert_eq!(string_from_chars(&chars, 2, 2), "");
    assert_eq!(string_of_char('x'), "x");
    assert_eq!(concat_str("ab", "cd"), "abcd");
    assert_eq!(concat3("[", "x", "]"), "[x]");
    assert!(str_equals("abc", "abc"));
    assert!(!str_equals("abc", "abd"));
    assert!(!str_equals("abc", "ab"));
    assert!(str_equals("", ""));
}

#[test]
fn a_dictionary_keeps_one_value_for_each_key() {
    let mut d: Dictionary<u32> = Dictionary::new();
    assert_eq!(d.len(), 0);
    assert!(d.get("a").is_none());
    d.insert("a".to_string(), 1);
    d.insert("b".to_string(), 2);
    d.insert("a".to_string(), 3);
    assert_eq!(d.len(), 2);
    assert_eq!(d.get("a"), Some(&3));
    assert_eq!(d.get("b"), Some(&2));
    assert!(d.contains_key("b"));
    assert!(!d.contains_key("c"));
    assert_eq!(d.keys(), vec!["a".to_string(), "b".to_string()]);
    assert_eq!(d.key_at(1), "b");
    assert_eq!(d.remove("a"), Some(3));
    assert_eq!(d.remove("a"), None);
    assert_eq!(d.keys(), vec!["b".to_string()]);
    d.insert("a".to_string(), 4);
    assert_eq!(d.keys(), vec!["b".to_string(), "a".to_string()]);
}

#[test]
fn the_offset_of_a_position() {
    let text: Vec<char> = "ab\ncd\r\nef\rg".chars().collect();
    let at = |line, column| Position { line, column };
    assert_eq!(offset_at_position(&text, at(1, 1)), Some(0));
    assert_eq!(offset_at_position(&text, at(1, 2)), Some(1));
    assert_eq!(offset_at_position(&text, at(1, 3)), Some(2));
    assert_eq!(offset_at_position(&text, at(1, 4)), None);
    assert_eq!(offset_at_position(&text, at(2, 1)), Some(3));
    assert_eq!(offset_at_position(&text, at(2, 3)), Some(5));
    assert_eq!(offset_at_position(&text, at(3, 1)), Some(7));
    assert_eq!(offset_at_position(&text, at(4, 1)), Some(10));
    assert_eq!(offset_at_position(&text, at(4, 2)), Some(11));
    assert_eq!(offset_at_position(&text, at(4, 3)), None);
    assert_eq!(offset_at_position(&text, at(5, 1)), None);
    assert_eq!(offset_at_position(&text, at(0, 0)), None);
    assert_eq!(offset_at_position(&[], at(1, 1)), Some(0));
}

#[test]
fn the_word_before_an_offset() {
    let text: Vec<char> = "x = ab_9.c".chars().collect();
    assert_eq!(word_ending_at(&text, 8), "ab_9");
    assert_eq!(word_ending_at(&text, 10), "c");
    assert_eq!(word_ending_at(&text, 9), "");
    assert_eq!(word_ending_at(&text, 1), "x");
    assert_eq!(word_ending_at(&text, 0), "");
}

#[test]
fn frames_on_the_wire() {
    assert_eq!(next_frame(b""), Frame::Incomplete);
    assert_eq!(next_frame(b"Content-Length: 2\r\n"), Frame::Incomplete);
    assert_eq!(next_frame(b"Content-Length: 2\r\n\r\n"), Frame::Incomplete);
    assert_eq!(next_frame(b"Content-Length: 2\r\n\r\n{"), Frame::Incomplete);
    assert_eq!(next_frame(b"Content-Length: 2\r\n\r\n{}"), Frame::Message { start: 21, end: 23 });
    assert_eq!(next_frame(b"Content-Length: 2\r\n\r\n{}more"), Frame::Message { start: 21, end: 23 });
    assert_eq!(next_frame(b"Content-Length: 0\r\n\r\n"), Frame::Message { start: 21, end: 21 });
    assert_eq!(
        next_frame(b"Content-Type: x\r\nContent-Length: +3\r\n\r\nabc"),
        Frame::Message { start: 39, end: 42 }
    );
    assert_eq!(next_frame(b"Content-Length: 1\nX: y\r\n\r\na"), Frame::Message { start: 26, end: 27 });
    assert_eq!(next_frame(b"\r\n\r\n"), Frame::Invalid);
    assert_eq!(next_frame(b"Content-Type: x\r\n\r\n{}"), Frame::Invalid);
    assert_eq!(next_frame(b"Content-Length: \r\n\r\n"), Frame::Invalid);
    assert_eq!(next_frame(b"Content-Length: 2 \r\n\r\n{}"), Frame::Invalid);
    assert_eq!(next_frame(b"Content-Length: -2\r\n\r\n{}"), Frame::Invalid);
    assert_eq!(next_frame(b"Content-Length: x\r\nContent-Length: 2\r\n\r\n{}"), Frame::Invalid);
    assert_eq!(next_frame(b"content-length: 2\r\n\r\n{}"), Frame::Invalid);
    assert_eq!(
        next_frame(b"Content-Length: 99999999999999999999999999999\r\n\r\n{}"),
        Frame::Invalid
    );
    assert_eq!(next_frame(b"Content-Length: 18446744073709551615\r\n\r\n{}"), Frame::Incomplete);
    assert_eq!(header_for(0), "Content-Length: 0\r\n\r\n");
    assert_eq!(header_for(1234), "Content-Length: 1234\r\n\r\n");
}

#[test]
fn positions_on_the_wire() {
    let position = Position { line: 3, column: 1 };
    assert_eq!(position.to_wire(), (2, 0));
    assert_eq!(Position::from_wire(2, 0), position);
    assert_eq!(Position::from_wire(0, 0), Position::default());
}
