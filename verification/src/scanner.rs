//! The scanner: turns a buffer of characters into tokens with positions.

use vstd::prelude::*;
use vstd::string::*;
use crate::base::{Error, ErrorView, Position};
use crate::text::{concat_str, string_from_chars};
use crate::token::{
    char_kind, lemma_word_kind_len, word_kind, Token, TokenKind, TokenKindView, TokenView,
};

verus! {

/// Space, tab, carriage return and line feed separate tokens.
pub open spec fn is_space(c: char) -> bool {
    c == ' ' || c == '\t' || c == '\n' || c == '\r'
}

/// A carriage return or a line feed.
pub open spec fn is_line_break(c: char) -> bool {
    c == '\n' || c == '\r'
}

/// A decimal digit.
pub open spec fn is_digit(c: char) -> bool {
    '0' <= c && c <= '9'
}

/// A plus or a minus.
pub open spec fn is_sign(c: char) -> bool {
    c == '+' || c == '-'
}

/// A letter of the ASCII alphabet or an underscore starts a word.
pub open spec fn is_word_start(c: char) -> bool {
    ('a' <= c && c <= 'z') || ('A' <= c && c <= 'Z') || c == '_'
}

/// A word goes on with letters, digits, underscores and dots.
pub open spec fn is_word_char(c: char) -> bool {
    is_word_start(c) || is_digit(c) || c == '.'
}

/// The line on which the character at offset `n` stands, the first line being
/// 1. A line feed directly after a carriage return ends no line of its own.
pub open spec fn line_at(input: Seq<char>, n: int) -> int
    decreases n,
{
    if n <= 0 {
        1
    } else if input[n - 1] == '\r' || (input[n - 1] == '\n' && !(n >= 2 && input[n - 2] == '\r')) {
        line_at(input, n - 1) + 1
    } else {
        line_at(input, n - 1)
    }
}

/// The column of the character at offset `n`: one more than the number of
/// characters between it and the last line break before it.
pub open spec fn column_at(input: Seq<char>, n: int) -> int
    decreases n,
{
    if n <= 0 {
        1
    } else if is_line_break(input[n - 1]) {
        1
    } else {
        column_at(input, n - 1) + 1
    }
}

/// Line and column of offset `n` lie between 1 and `n + 1`.
pub proof fn lemma_point_bounds(input: Seq<char>, n: int)
    requires
        0 <= n,
    ensures
        1 <= line_at(input, n) <= n + 1,
        1 <= column_at(input, n) <= n + 1,
    decreases n,
{
    if n > 0 {
        lemma_point_bounds(input, n - 1);
    }
}

/// The position of offset `n`, where line and column fit.
pub open spec fn position_at(input: Seq<char>, n: int) -> Position {
    Position { line: line_at(input, n) as u32, column: column_at(input, n) as u32 }
}

/// Positions grow with offsets.
pub proof fn lemma_position_monotonic(input: Seq<char>, i: int, j: int)
    requires
        0 <= i <= j <= input.len(),
    ensures
        line_at(input, i) <= line_at(input, j),
        line_at(input, i) == line_at(input, j) ==> column_at(input, i) <= column_at(input, j),
    decreases j - i,
{
    if i < j {
        lemma_position_monotonic(input, i, j - 1);
        lemma_point_bounds(input, j - 1);
        if input[j - 1] == '\n' && j >= 2 && input[j - 2] == '\r' && i <= j - 2 {
            lemma_position_monotonic(input, i, j - 2);
        }
    }
}

/// Where no line breaks, the line stays and the column counts the characters.
pub proof fn lemma_same_line(input: Seq<char>, i: int, j: int)
    requires
        0 <= i <= j <= input.len(),
        forall|k: int| i <= k < j ==> !is_line_break(#[trigger] input[k]),
    ensures
        line_at(input, j) == line_at(input, i),
        column_at(input, j) == column_at(input, i) + (j - i),
    decreases j - i,
{
    if i < j {
        lemma_same_line(input, i, j - 1);
    }
}

/// The first offset from `i` on that holds no space, or the end of input.
pub open spec fn skip_spaces(input: Seq<char>, i: int) -> int
    decreases input.len() - i,
{
    if 0 <= i < input.len() && is_space(input[i]) {
        skip_spaces(input, i + 1)
    } else {
        i
    }
}

/// The first offset from `i` on that holds no digit, or the end of input.
pub open spec fn digits_end(input: Seq<char>, i: int) -> int
    decreases input.len() - i,
{
    if 0 <= i < input.len() && is_digit(input[i]) {
        digits_end(input, i + 1)
    } else {
        i
    }
}

/// The first offset from `i` on that holds no character of a word, or the end
/// of input.
pub open spec fn word_end(input: Seq<char>, i: int) -> int
    decreases input.len() - i,
{
    if 0 <= i < input.len() && is_word_char(input[i]) {
        word_end(input, i + 1)
    } else {
        i
    }
}

/// The first offset from `i` on that holds a line break, or the end of input.
pub open spec fn line_end(input: Seq<char>, i: int) -> int
    decreases input.len() - i,
{
    if 0 <= i < input.len() && !is_line_break(input[i]) {
        line_end(input, i + 1)
    } else {
        i
    }
}

/// The offset behind the line break that stands at `e`, if one does: a line
/// feed, a carriage return, or a carriage return with the line feed after it.
pub open spec fn after_line_break(input: Seq<char>, e: int) -> int {
    if 0 <= e < input.len() && input[e] == '\r' {
        if e + 1 < input.len() && input[e + 1] == '\n' {
            e + 2
        } else {
            e + 1
        }
    } else if 0 <= e < input.len() && input[e] == '\n' {
        e + 1
    } else {
        e
    }
}

/// The offset behind the delimiter that closes a string literal whose text
/// starts at `j`. A backslash takes the character after it with it, so an
/// escaped delimiter does not close. `None` where the input ends first.
pub open spec fn literal_end(input: Seq<char>, j: int, delimiter: char) -> Option<int>
    decreases input.len() - j,
{
    if j < 0 || j >= input.len() {
        None
    } else if input[j] == '\\' {
        if j + 1 < input.len() {
            literal_end(input, j + 2, delimiter)
        } else {
            None
        }
    } else if input[j] == delimiter {
        Some(j + 1)
    } else {
        literal_end(input, j + 1, delimiter)
    }
}

/// The offset behind the `*/` that closes a block comment, read from `j`
/// with `depth` comments open: each `/*` opens one more, each `*/` closes
/// one. `None` where the input ends first.
pub open spec fn block_end(input: Seq<char>, j: int, depth: nat) -> Option<int>
    decreases input.len() - j,
{
    if j < 0 || j >= input.len() {
        None
    } else if j + 1 < input.len() && input[j] == '*' && input[j + 1] == '/' {
        if depth <= 1 {
            Some(j + 2)
        } else {
            block_end(input, j + 2, (depth - 1) as nat)
        }
    } else if j + 1 < input.len() && input[j] == '/' && input[j + 1] == '*' {
        block_end(input, j + 2, depth + 1)
    } else {
        block_end(input, j + 1, depth)
    }
}

/// The end of input without one line break at its very end, and not before
/// `from`.
pub open spec fn trimmed_end(input: Seq<char>, from: int) -> int {
    let n = input.len() as int;
    if n > from && input[n - 1] == '\n' {
        if n - 1 > from && input[n - 2] == '\r' {
            n - 2
        } else {
            n - 1
        }
    } else if n > from && input[n - 1] == '\r' {
        n - 1
    } else {
        n
    }
}

/// The offset at which the digits of an integer start: behind its sign, if it
/// has one.
pub open spec fn after_sign(input: Seq<char>, i: int) -> int {
    if 0 <= i < input.len() && is_sign(input[i]) {
        i + 1
    } else {
        i
    }
}

/// The end of an integer constant at `i`: an optional sign, then digits.
pub open spec fn int_end(input: Seq<char>, i: int) -> int {
    digits_end(input, after_sign(input, i))
}

/// An integer constant has at least one digit.
pub open spec fn int_ok(input: Seq<char>, i: int) -> bool {
    int_end(input, i) > after_sign(input, i)
}

/// The offset behind `c`, if `c` stands at `i`.
pub open spec fn after_char(input: Seq<char>, i: int, c: char) -> int {
    if 0 <= i < input.len() && input[i] == c {
        i + 1
    } else {
        i
    }
}

/// The end of the mantissa of a floating-point constant at `i`: an optional
/// sign, digits, an optional dot, digits.
pub open spec fn mantissa_end(input: Seq<char>, i: int) -> int {
    let b = digits_end(input, after_sign(input, i));
    digits_end(input, after_char(input, b, '.'))
}

/// The offset behind the `e` or `E` of an exponent at `d`, if one stands there.
pub open spec fn after_exponent_mark(input: Seq<char>, d: int) -> int {
    if 0 <= d < input.len() && (input[d] == 'e' || input[d] == 'E') {
        d + 1
    } else {
        d
    }
}

/// The end of a floating-point constant at `i`: the mantissa, then an optional
/// `e` or `E`, then an integer where one with a digit follows.
pub open spec fn double_end(input: Seq<char>, i: int) -> int {
    let e = after_exponent_mark(input, mantissa_end(input, i));
    if int_ok(input, e) {
        int_end(input, e)
    } else {
        e
    }
}

/// A floating-point constant has at least one digit: before the dot, behind
/// it, or in the exponent.
pub open spec fn double_ok(input: Seq<char>, i: int) -> bool {
    let a = after_sign(input, i);
    let b = digits_end(input, a);
    let c = after_char(input, b, '.');
    let d = digits_end(input, c);
    b > a || d > c || int_ok(input, after_exponent_mark(input, d))
}

/// What one scan finds.
pub struct Scanned {
    /// The kind of the token.
    pub kind: TokenKindView,
    /// The offset of the token's first character.
    pub start: int,
    /// The offset at which the next scan starts.
    pub end: int,
    /// The message of the error that comes with the token, if one does.
    pub message: Option<Seq<char>>,
}

impl Scanned {
    /// The token: its kind at the position of its first character.
    pub open spec fn token(self, input: Seq<char>) -> TokenView {
        TokenView { kind: self.kind, position: position_at(input, self.start) }
    }

    /// The error: the message over the token's range.
    pub open spec fn error(self, input: Seq<char>) -> Option<ErrorView> {
        match self.message {
            Some(m) => Some(ErrorView { range: self.token(input).range(), message: m }),
            None => None,
        }
    }
}

/// The token that starts with `/` at offset `i`: a line comment, a block
/// comment, or what is left of either.
pub open spec fn scan_slash(input: Seq<char>, i: int) -> Scanned {
    if i + 1 >= input.len() {
        Scanned { kind: TokenKindView::Invalid('/'), start: i, end: i + 1, message: None }
    } else if input[i + 1] == '/' {
        let e = line_end(input, i + 2);
        Scanned {
            kind: TokenKindView::Comment(input.subrange(i + 2, e)),
            start: i,
            end: after_line_break(input, e),
            message: None,
        }
    } else if input[i + 1] == '*' {
        match block_end(input, i + 2, 1) {
            Some(e) => Scanned {
                kind: TokenKindView::BlockComment(input.subrange(i + 2, e - 2)),
                start: i,
                end: e,
                message: None,
            },
            None => {
                let text = input.subrange(i, input.len() as int);
                Scanned {
                    kind: TokenKindView::InvalidString(text),
                    start: i,
                    end: input.len() as int,
                    message: Some("Unclosed block comment: "@ + text),
                }
            },
        }
    } else {
        let text = input.subrange(i, i + 1);
        Scanned {
            kind: TokenKindView::InvalidString(text),
            start: i,
            end: i + 1,
            message: Some("Unclosed block comment: "@ + text),
        }
    }
}

/// The string literal that starts with the delimiter at offset `i`. Where the
/// input ends before the literal closes, the token holds what follows the
/// delimiter, up to the end of input less one line break.
pub open spec fn scan_quoted(input: Seq<char>, i: int) -> Scanned {
    match literal_end(input, i + 1, input[i]) {
        Some(e) => Scanned {
            kind: TokenKindView::Literal(input.subrange(i + 1, e - 1)),
            start: i,
            end: e,
            message: None,
        },
        None => {
            let text = input.subrange(i + 1, trimmed_end(input, i + 1));
            Scanned {
                kind: TokenKindView::InvalidString(text),
                start: i,
                end: input.len() as int,
                message: Some("Unclosed string: "@ + text),
            }
        },
    }
}

/// The number that starts at offset `i` with a sign, a digit or a dot: an
/// integer, unless a dot or an exponent follows its digits; else a
/// floating-point constant where it has a digit; else an invalid string.
pub open spec fn scan_number(input: Seq<char>, i: int) -> Scanned {
    let n = int_end(input, i);
    if int_ok(input, i) && !(n < input.len() && (input[n] == '.' || input[n] == 'e' || input[n] == 'E')) {
        Scanned { kind: TokenKindView::IntConstant(input.subrange(i, n)), start: i, end: n, message: None }
    } else {
        let e = double_end(input, i);
        let text = input.subrange(i, e);
        if double_ok(input, i) {
            Scanned { kind: TokenKindView::DoubleConstant(text), start: i, end: e, message: None }
        } else {
            Scanned { kind: TokenKindView::InvalidString(text), start: i, end: e, message: None }
        }
    }
}

/// The word that starts at offset `i`: a word of the language, or else an
/// identifier.
pub open spec fn scan_word(input: Seq<char>, i: int) -> Scanned {
    let e = word_end(input, i + 1);
    let text = input.subrange(i, e);
    Scanned {
        kind: match word_kind(text) {
            Some(k) => k,
            None => TokenKindView::Identifier(text),
        },
        start: i,
        end: e,
        message: None,
    }
}

/// The token that starts at offset `i`, where a character other than a space
/// stands.
pub open spec fn scan_at(input: Seq<char>, i: int) -> Scanned {
    let c = input[i];
    if c == '/' {
        scan_slash(input, i)
    } else if c == '#' {
        let e = line_end(input, i + 1);
        Scanned {
            kind: TokenKindView::PoundComment(input.subrange(i + 1, e)),
            start: i,
            end: after_line_break(input, e),
            message: None,
        }
    } else if is_word_start(c) {
        scan_word(input, i)
    } else if c == '\'' || c == '"' {
        scan_quoted(input, i)
    } else if is_sign(c) || is_digit(c) || c == '.' {
        scan_number(input, i)
    } else {
        Scanned {
            kind: match char_kind(c) {
                Some(k) => k,
                None => TokenKindView::Invalid(c),
            },
            start: i,
            end: i + 1,
            message: None,
        }
    }
}

/// What a scan from offset `offset` finds: spaces are passed over, then a
/// token is read; at the end of input the token is `Eof`.
#[verifier::opaque]
pub open spec fn spec_scan(input: Seq<char>, offset: int) -> Scanned {
    let i = skip_spaces(input, offset);
    if i >= input.len() {
        Scanned { kind: TokenKindView::Eof, start: i, end: i, message: None }
    } else {
        scan_at(input, i)
    }
}

/// The offset behind the end of the line on which `offset` stands.
pub open spec fn next_line(input: Seq<char>, offset: int) -> int {
    after_line_break(input, line_end(input, offset))
}

/// `skip_spaces` stays within the input, passes over spaces only, and stops
/// at a character that is none.
pub proof fn lemma_skip_spaces(input: Seq<char>, i: int)
    requires
        0 <= i <= input.len(),
    ensures
        i <= skip_spaces(input, i) <= input.len(),
        forall|k: int| i <= k < skip_spaces(input, i) ==> is_space(#[trigger] input[k]),
        skip_spaces(input, i) < input.len() ==> !is_space(input[skip_spaces(input, i)]),
    decreases input.len() - i,
{
    if i < input.len() && is_space(input[i]) {
        lemma_skip_spaces(input, i + 1);
    }
}

/// `digits_end` stays within the input and passes over digits only.
pub proof fn lemma_digits_end(input: Seq<char>, i: int)
    requires
        0 <= i <= input.len(),
    ensures
        i <= digits_end(input, i) <= input.len(),
        forall|k: int| i <= k < digits_end(input, i) ==> is_digit(#[trigger] input[k]),
        digits_end(input, i) < input.len() ==> !is_digit(input[digits_end(input, i)]),
    decreases input.len() - i,
{
    if i < input.len() && is_digit(input[i]) {
        lemma_digits_end(input, i + 1);
    }
}

/// `word_end` stays within the input.
pub proof fn lemma_word_end(input: Seq<char>, i: int)
    requires
        0 <= i <= input.len(),
    ensures
        i <= word_end(input, i) <= input.len(),
    decreases input.len() - i,
{
    if i < input.len() && is_word_char(input[i]) {
        lemma_word_end(input, i + 1);
    }
}

/// `line_end` stays within the input, passes over no line break, and stops at
/// one or at the end of input.
pub proof fn lemma_line_end(input: Seq<char>, i: int)
    requires
        0 <= i <= input.len(),
    ensures
        i <= line_end(input, i) <= input.len(),
        forall|k: int| i <= k < line_end(input, i) ==> !is_line_break(#[trigger] input[k]),
        line_end(input, i) < input.len() ==> is_line_break(input[line_end(input, i)]),
    decreases input.len() - i,
{
    if i < input.len() && !is_line_break(input[i]) {
        lemma_line_end(input, i + 1);
    }
}

/// A literal that closes does so within the input, behind at least the
/// delimiter.
pub proof fn lemma_literal_end(input: Seq<char>, j: int, delimiter: char)
    requires
        0 <= j,
    ensures
        literal_end(input, j, delimiter) is Some ==> j < literal_end(input, j, delimiter)->0
            <= input.len(),
    decreases input.len() - j,
{
    if j < input.len() {
        if input[j] == '\\' {
            if j + 1 < input.len() {
                lemma_literal_end(input, j + 2, delimiter);
            }
        } else if input[j] != delimiter {
            lemma_literal_end(input, j + 1, delimiter);
        }
    }
}

/// A block comment that closes does so within the input, behind at least the
/// two characters of its closing mark.
pub proof fn lemma_block_end(input: Seq<char>, j: int, depth: nat)
    requires
        0 <= j,
    ensures
        block_end(input, j, depth) is Some ==> j + 2 <= block_end(input, j, depth)->0
            <= input.len(),
    decreases input.len() - j,
{
    if j < input.len() {
        if j + 1 < input.len() && input[j] == '*' && input[j + 1] == '/' {
            if depth > 1 {
                lemma_block_end(input, j + 2, (depth - 1) as nat);
            }
        } else if j + 1 < input.len() && input[j] == '/' && input[j + 1] == '*' {
            lemma_block_end(input, j + 2, depth + 1);
        } else {
            lemma_block_end(input, j + 1, depth);
        }
    }
}

/// The offsets that make up a number are in order and within the input.
pub proof fn lemma_number_bounds(input: Seq<char>, i: int)
    requires
        0 <= i <= input.len(),
    ensures
        i <= after_sign(input, i) <= int_end(input, i) <= mantissa_end(input, i)
            <= after_exponent_mark(input, mantissa_end(input, i)) <= double_end(input, i)
            <= input.len(),
        int_ok(input, i) ==> double_ok(input, i),
        i < input.len() && (is_sign(input[i]) || is_digit(input[i]) || input[i] == '.') ==> i
            < double_end(input, i),
        i < input.len() && is_digit(input[i]) ==> int_ok(input, i),
{
    let a = after_sign(input, i);
    lemma_digits_end(input, a);
    let b = digits_end(input, a);
    let c = after_char(input, b, '.');
    lemma_digits_end(input, c);
    let d = digits_end(input, c);
    let e = after_exponent_mark(input, d);
    let f = after_sign(input, e);
    lemma_digits_end(input, f);
}

/// A token read at `i` starts there, ends behind `i` and within the input, is
/// never `Eof`, and is no wider than what was read. Every character read is
/// within the token's range or is a space.
pub proof fn lemma_scan_at(input: Seq<char>, i: int)
    requires
        0 <= i < input.len(),
        !is_space(input[i]),
    ensures
        scan_at(input, i).start == i,
        i < scan_at(input, i).end <= input.len(),
        !(scan_at(input, i).kind is Eof),
        scan_at(input, i).kind.len() <= scan_at(input, i).end - i,
        forall|k: int|
            i <= k < scan_at(input, i).end ==> is_space(#[trigger] input[k]) || k <= i + scan_at(
                input,
                i,
            ).kind.len(),
{
    let c = input[i];
    let n = input.len() as int;
    if c == '/' {
        if i + 1 >= n {
        } else if input[i + 1] == '/' {
            lemma_line_end(input, i + 2);
        } else if input[i + 1] == '*' {
            lemma_block_end(input, i + 2, 1);
        } else {
        }
    } else if c == '#' {
        lemma_line_end(input, i + 1);
    } else if is_word_start(c) {
        lemma_word_end(input, i + 1);
        let text = input.subrange(i, word_end(input, i + 1));
        if word_kind(text) is Some {
            lemma_word_kind_len(text);
        }
    } else if c == '\'' || c == '"' {
        lemma_literal_end(input, i + 1, c);
    } else if is_sign(c) || is_digit(c) || c == '.' {
        lemma_number_bounds(input, i);
    } else {
    }
}

/// A scan ends within the input, at or behind where it started. It moves on
/// unless it finds the end of input, which it finds only there. Every
/// character that it passes is within the token's range or is a space.
pub proof fn lemma_spec_scan(input: Seq<char>, offset: int)
    requires
        0 <= offset <= input.len(),
    ensures
        offset <= spec_scan(input, offset).start <= spec_scan(input, offset).end <= input.len(),
        spec_scan(input, offset).kind is Eof <==> spec_scan(input, offset).start == input.len(),
        !(spec_scan(input, offset).kind is Eof) ==> offset < spec_scan(input, offset).end,
        spec_scan(input, offset).start + spec_scan(input, offset).kind.len() <= spec_scan(
            input,
            offset,
        ).end,
        forall|k: int|
            offset <= k < spec_scan(input, offset).end ==> is_space(#[trigger] input[k]) || (
            spec_scan(input, offset).start <= k <= spec_scan(input, offset).start + spec_scan(
                input,
                offset,
            ).kind.len()),
{
    reveal(spec_scan);
    lemma_skip_spaces(input, offset);
    let i = skip_spaces(input, offset);
    if i < input.len() {
        lemma_scan_at(input, i);
    }
}

/// A token starts at or behind the position from which it was scanned, its
/// range is in order and fits, and its range ends at or before the position
/// at which the next scan starts.
pub proof fn lemma_token_placed(input: Seq<char>, offset: int)
    requires
        0 <= offset <= input.len(),
        input.len() < u32::MAX,
    ensures
        position_at(input, offset).leq(spec_scan(input, offset).token(input).position),
        spec_scan(input, offset).token(input).fits(),
        spec_scan(input, offset).token(input).range().wf(),
        spec_scan(input, offset).token(input).end().leq(
            position_at(input, spec_scan(input, offset).end),
        ),
{
    lemma_spec_scan(input, offset);
    let s = spec_scan(input, offset);
    let i = s.start;
    let n = s.kind.len() as int;
    lemma_point_bounds(input, offset);
    lemma_point_bounds(input, i);
    lemma_point_bounds(input, s.end);
    lemma_position_monotonic(input, offset, i);
    lemma_position_monotonic(input, i, s.end);
    if n > 0 {
        lemma_line_end(input, i);
        let k = line_end(input, i);
        if k >= i + n {
            lemma_same_line(input, i, i + n);
            lemma_point_bounds(input, i + n);
            lemma_position_monotonic(input, i + n, s.end);
        } else {
            reveal(spec_scan);
            lemma_skip_spaces(input, offset);
            assert(!is_space(input[i]));
            assert(k > i);
            lemma_same_line(input, i, k);
            assert(line_at(input, k + 1) == line_at(input, k) + 1);
            lemma_position_monotonic(input, k + 1, s.end);
        }
    }
}

/// The range of a token that crosses no line break ends at the position
/// behind its last character: its column is the column of its start and its
/// width together, on the same line.
pub proof fn lemma_token_on_one_line(input: Seq<char>, offset: int)
    requires
        0 <= offset <= input.len(),
        input.len() < u32::MAX,
        forall|k: int|
            spec_scan(input, offset).start <= k < spec_scan(input, offset).start + spec_scan(
                input,
                offset,
            ).kind.len() ==> !is_line_break(#[trigger] input[k]),
    ensures
        spec_scan(input, offset).token(input).range().start == position_at(
            input,
            spec_scan(input, offset).start,
        ),
        spec_scan(input, offset).token(input).range().end == position_at(
            input,
            spec_scan(input, offset).start + spec_scan(input, offset).kind.len(),
        ),
        spec_scan(input, offset).token(input).range().start.column + spec_scan(
            input,
            offset,
        ).kind.len() == spec_scan(input, offset).token(input).range().end.column,
        spec_scan(input, offset).token(input).range().start.line == spec_scan(
            input,
            offset,
        ).token(input).range().end.line,
{
    lemma_spec_scan(input, offset);
    lemma_token_placed(input, offset);
    let s = spec_scan(input, offset);
    lemma_same_line(input, s.start, s.start + s.kind.len());
    lemma_point_bounds(input, s.start);
    lemma_point_bounds(input, s.start + s.kind.len());
}

/// The character at `k` lies within the range of a token that the scans
/// from `from` on find, one after the other.
pub open spec fn covered_by_scans(input: Seq<char>, from: int, k: int) -> bool
    decreases input.len() - from,
{
    let s = spec_scan(input, from);
    if k < s.end {
        s.start <= k <= s.start + s.kind.len()
    } else if from < s.end <= input.len() {
        covered_by_scans(input, s.end, k)
    } else {
        false
    }
}

/// Scanning from `from` to the end of input, the ranges of the tokens cover
/// every character that is no space.
pub proof fn lemma_scans_cover(input: Seq<char>, from: int, k: int)
    requires
        0 <= from <= k < input.len(),
        !is_space(input[k]),
    ensures
        covered_by_scans(input, from, k),
    decreases input.len() - from,
{
    lemma_spec_scan(input, from);
    let s = spec_scan(input, from);
    if k >= s.end {
        lemma_scans_cover(input, s.end, k);
    }
}

/// A place in the input: the offset of the next character with its line and
/// column.
#[derive(Clone, Copy, Debug)]
pub struct ScannerState {
    offset: usize,
    line: usize,
    column: usize,
}

impl ScannerState {
    /// The offset of the next character to read.
    pub closed spec fn offset(self) -> int {
        self.offset as int
    }

    /// The state is a place in `input`: the offset is within it, and line and
    /// column are those of the offset.
    pub closed spec fn valid_for(self, input: Seq<char>) -> bool {
        &&& self.offset <= input.len()
        &&& self.line == line_at(input, self.offset as int)
        &&& self.column == column_at(input, self.offset as int)
    }

    /// The position of the next character to read.
    pub closed spec fn position(self) -> Position {
        Position { line: self.line as u32, column: self.column as u32 }
    }

    /// A valid state is known by its offset.
    pub proof fn lemma_valid(self, input: Seq<char>)
        requires
            self.valid_for(input),
        ensures
            0 <= self.offset() <= input.len(),
            input.len() < u32::MAX ==> self.position() == position_at(input, self.offset()),
    {
        lemma_point_bounds(input, self.offset as int);
    }
}

/// A scanner over a buffer of characters.
pub struct Scanner<'a> {
    input: &'a [char],
    state: ScannerState,
}

impl<'a> Scanner<'a> {
    /// The characters that the scanner reads.
    pub closed spec fn source(&self) -> Seq<char> {
        self.input@
    }

    /// The place at which the scanner stands.
    pub closed spec fn state(&self) -> ScannerState {
        self.state
    }

    /// The offset of the next character to read.
    pub open spec fn offset(&self) -> int {
        self.state().offset()
    }

    /// The scanner stands at a place in its buffer, and every position in the
    /// buffer fits the 32 bits of a `Position`.
    pub open spec fn wf(&self) -> bool {
        &&& self.state().valid_for(self.source())
        &&& self.source().len() < u32::MAX
    }

    /// A scanner at the start of `input`.
    pub fn new(input: &'a [char]) -> (r: Scanner<'a>)
        requires
            input@.len() < u32::MAX,
        ensures
            r.wf(),
            r.source() == input@,
            r.offset() == 0,
    {
        Scanner { input, state: ScannerState { offset: 0, line: 1, column: 1 } }
    }

    /// The place at which the scanner stands.
    pub fn save_state(&self) -> (r: ScannerState)
        ensures
            r == self.state(),
    {
        self.state
    }

    /// Moves the scanner to a place saved earlier.
    pub fn restore_state(&mut self, state: ScannerState)
        requires
            state.valid_for(old(self).source()),
        ensures
            final(self).state() == state,
            final(self).source() == old(self).source(),
    {
        self.state = state;
    }

    /// The position of the next character to read.
    pub fn position(&self) -> (r: Position)
        requires
            self.wf(),
        ensures
            r == position_at(self.source(), self.offset()),
    {
        proof {
            lemma_point_bounds(self.input@, self.state.offset as int);
        }
        Position { line: self.state.line as u32, column: self.state.column as u32 }
    }

    /// Moves on to offset `to`, keeping line and column in step.
    fn advance(&mut self, to: usize)
        requires
            old(self).wf(),
            old(self).offset() <= to <= old(self).source().len(),
        ensures
            final(self).wf(),
            final(self).source() == old(self).source(),
            final(self).offset() == to,
    {
        let mut i: usize = self.state.offset;
        let mut line: usize = self.state.line;
        let mut column: usize = self.state.column;
        while i < to
            invariant
                i <= to <= self.input@.len(),
                self.input@.len() < u32::MAX,
                line == line_at(self.input@, i as int),
                column == column_at(self.input@, i as int),
            decreases to - i,
        {
            proof {
                lemma_point_bounds(self.input@, i as int);
            }
            let c = self.input[i];
            if c == '\r' {
                line += 1;
                column = 1;
            } else if c == '\n' {
                if !(i >= 1 && self.input[i - 1] == '\r') {
                    line += 1;
                }
                column = 1;
            } else {
                column += 1;
            }
            i += 1;
        }
        self.state = ScannerState { offset: to, line, column };
    }

    /// Skips to the next line: moves behind the next line break, or to the
    /// end of input where none follows.
    pub fn skip_to_next_line(&mut self)
        requires
            old(self).wf(),
        ensures
            final(self).wf(),
            final(self).source() == old(self).source(),
            final(self).offset() == next_line(old(self).source(), old(self).offset()),
            old(self).offset() <= final(self).offset(),
            old(self).offset() < old(self).source().len() ==> old(self).offset()
                < final(self).offset(),
    {
        proof {
            lemma_line_end(self.input@, self.state.offset as int);
        }
        let e = self.scan_line_end(self.state.offset);
        let to = self.after_break(e);
        self.advance(to);
    }

    /// Scans the next token: passes over spaces, reads one token, and returns
    /// it with the error that it gives rise to, if any. At the end of input
    /// the token is `Eof`.
    pub fn scan(&mut self) -> (r: (Token, Option<Error>))
        requires
            old(self).wf(),
        ensures
            final(self).wf(),
            final(self).source() == old(self).source(),
            r.0.deep_view() == spec_scan(old(self).source(), old(self).offset()).token(
                old(self).source(),
            ),
            r.1.deep_view() == spec_scan(old(self).source(), old(self).offset()).error(
                old(self).source(),
            ),
            final(self).offset() == spec_scan(old(self).source(), old(self).offset()).end,
            r.0.deep_view().fits(),
    {
        let ghost src = self.input@;
        let ghost from = self.state.offset as int;
        proof {
            reveal(spec_scan);
            lemma_skip_spaces(src, from);
            lemma_spec_scan(src, from);
        }
        let start = self.skip_spaces(self.state.offset);
        self.advance(start);
        let position = self.position();
        proof {
            lemma_point_bounds(src, start as int);
        }
        if start >= self.input.len() {
            return (Token { kind: TokenKind::Eof, position }, None);
        }
        let (kind, end, message) = self.scan_token(start);
        self.advance(end);
        let token = Token { kind, position };
        let error = match message {
            Some(m) => Some(Error { range: token.range(), message: m }),
            None => None,
        };
        (token, error)
    }

    /// The token that stands at the end of input.
    pub fn eof(&self) -> (r: Token)
        requires
            self.wf(),
        ensures
            r.deep_view() == (TokenView {
                kind: TokenKindView::Eof,
                position: position_at(self.source(), self.offset()),
            }),
    {
        Token { kind: TokenKind::Eof, position: self.position() }
    }

    fn skip_spaces(&self, from: usize) -> (r: usize)
        requires
            from <= self.input@.len(),
        ensures
            r == skip_spaces(self.input@, from as int),
    {
        let mut i: usize = from;
        while i < self.input.len() && is_space_char(self.input[i])
            invariant
                from <= i <= self.input@.len(),
                skip_spaces(self.input@, i as int) == skip_spaces(self.input@, from as int),
            decreases self.input@.len() - i,
        {
            i += 1;
        }
        i
    }

    fn scan_digits(&self, from: usize) -> (r: usize)
        requires
            from <= self.input@.len(),
        ensures
            r == digits_end(self.input@, from as int),
            from <= r <= self.input@.len(),
    {
        let mut i: usize = from;
        while i < self.input.len() && is_digit_char(self.input[i])
            invariant
                from <= i <= self.input@.len(),
                digits_end(self.input@, i as int) == digits_end(self.input@, from as int),
            decreases self.input@.len() - i,
        {
            i += 1;
        }
        i
    }

    fn scan_line_end(&self, from: usize) -> (r: usize)
        requires
            from <= self.input@.len(),
        ensures
            r == line_end(self.input@, from as int),
            from <= r <= self.input@.len(),
    {
        let mut i: usize = from;
        while i < self.input.len() && !is_line_break_char(self.input[i])
            invariant
                from <= i <= self.input@.len(),
                line_end(self.input@, i as int) == line_end(self.input@, from as int),
            decreases self.input@.len() - i,
        {
            i += 1;
        }
        i
    }

    fn after_break(&self, e: usize) -> (r: usize)
        requires
            e <= self.input@.len(),
        ensures
            r == after_line_break(self.input@, e as int),
            e <= r <= self.input@.len(),
            e < self.input@.len() && is_line_break(self.input@[e as int]) ==> e < r,
    {
        if e < self.input.len() && self.input[e] == '\r' {
            if e + 1 < self.input.len() && self.input[e + 1] == '\n' {
                e + 2
            } else {
                e + 1
            }
        } else if e < self.input.len() && self.input[e] == '\n' {
            e + 1
        } else {
            e
        }
    }

    /// The end of the word that starts at `from`.
    fn scan_identifier(&self, from: usize) -> (r: usize)
        requires
            from < self.input@.len(),
            self.input@.len() < u32::MAX,
        ensures
            r == word_end(self.input@, from + 1),
            from < r <= self.input@.len(),
    {
        let mut i: usize = from + 1;
        while i < self.input.len() && is_word_char_of(self.input[i])
            invariant
                from < i <= self.input@.len(),
                word_end(self.input@, i as int) == word_end(self.input@, from + 1),
            decreases self.input@.len() - i,
        {
            i += 1;
        }
        i
    }

    /// The offset behind the delimiter that closes the literal opened at
    /// `from`, if it closes.
    fn scan_literal(&self, from: usize, delimiter: char) -> (r: Option<usize>)
        requires
            from < self.input@.len(),
            self.input@.len() < u32::MAX,
        ensures
            r.is_some() == literal_end(self.input@, from + 1, delimiter).is_some(),
            r.is_some() ==> r.unwrap() == literal_end(self.input@, from + 1, delimiter).unwrap(),
    {
        let mut i: usize = from + 1;
        while i < self.input.len()
            invariant
                from < i,
                self.input@.len() < u32::MAX,
                literal_end(self.input@, i as int, delimiter) == literal_end(
                    self.input@,
                    from + 1,
                    delimiter,
                ),
            decreases self.input@.len() - i,
        {
            let c = self.input[i];
            if c == '\\' {
                if i + 1 < self.input.len() {
                    i += 2;
                } else {
                    return None;
                }
            } else if c == delimiter {
                return Some(i + 1);
            } else {
                i += 1;
            }
        }
        None
    }

    /// The end of the integer constant at `from`, and whether it has a digit.
    fn scan_int_constant(&self, from: usize) -> (r: (usize, bool))
        requires
            from <= self.input@.len(),
        ensures
            r.0 == int_end(self.input@, from as int),
            r.1 == int_ok(self.input@, from as int),
            from <= r.0 <= self.input@.len(),
    {
        let a = if from < self.input.len() && is_sign_char(self.input[from]) {
            from + 1
        } else {
            from
        };
        let e = self.scan_digits(a);
        (e, e > a)
    }

    /// The end of the floating-point constant at `from`, and whether it has a
    /// digit.
    fn scan_double_constant(&self, from: usize) -> (r: (usize, bool))
        requires
            from <= self.input@.len(),
        ensures
            r.0 == double_end(self.input@, from as int),
            r.1 == double_ok(self.input@, from as int),
            from <= r.0 <= self.input@.len(),
    {
        proof {
            lemma_number_bounds(self.input@, from as int);
        }
        let a = if from < self.input.len() && is_sign_char(self.input[from]) {
            from + 1
        } else {
            from
        };
        let b = self.scan_digits(a);
        let c = if b < self.input.len() && self.input[b] == '.' {
            b + 1
        } else {
            b
        };
        let d = self.scan_digits(c);
        let e = if d < self.input.len() && (self.input[d] == 'e' || self.input[d] == 'E') {
            d + 1
        } else {
            d
        };
        let (f, exponent) = self.scan_int_constant(e);
        if exponent {
            (f, true)
        } else {
            (e, b > a || d > c)
        }
    }

    /// The end of the text of the line comment whose text starts at `from`.
    fn scan_line_comment(&self, from: usize) -> (r: usize)
        requires
            from <= self.input@.len(),
        ensures
            r == line_end(self.input@, from as int),
            from <= r <= self.input@.len(),
    {
        self.scan_line_end(from)
    }

    /// The end of the text of the pound comment whose text starts at `from`.
    fn scan_pound_comment(&self, from: usize) -> (r: usize)
        requires
            from <= self.input@.len(),
        ensures
            r == line_end(self.input@, from as int),
            from <= r <= self.input@.len(),
    {
        self.scan_line_end(from)
    }

    /// The offset behind the `*/` that closes the block comment whose text
    /// starts at `from`, if it closes.
    fn scan_block_comment(&self, from: usize) -> (r: Option<usize>)
        requires
            from <= self.input@.len(),
            self.input@.len() < u32::MAX,
        ensures
            r.is_some() == block_end(self.input@, from as int, 1).is_some(),
            r.is_some() ==> r.unwrap() == block_end(self.input@, from as int, 1).unwrap(),
    {
        let mut i: usize = from;
        let mut depth: usize = 1;
        while i < self.input.len()
            invariant
                from <= i,
                1 <= depth <= i + 1,
                self.input@.len() < u32::MAX,
                block_end(self.input@, i as int, depth as nat) == block_end(
                    self.input@,
                    from as int,
                    1,
                ),
            decreases self.input@.len() - i,
        {
            let c = self.input[i];
            if i + 1 < self.input.len() && c == '*' && self.input[i + 1] == '/' {
                if depth <= 1 {
                    return Some(i + 2);
                }
                depth -= 1;
                i += 2;
            } else if i + 1 < self.input.len() && c == '/' && self.input[i + 1] == '*' {
                depth += 1;
                i += 2;
            } else {
                i += 1;
            }
        }
        None
    }

    /// The end of input without one line break at its very end.
    fn trimmed_end(&self, from: usize) -> (r: usize)
        requires
            from <= self.input@.len(),
        ensures
            r == trimmed_end(self.input@, from as int),
            from <= r <= self.input@.len(),
    {
        let n = self.input.len();
        if n > from && self.input[n - 1] == '\n' {
            if n - 1 > from && self.input[n - 2] == '\r' {
                n - 2
            } else {
                n - 1
            }
        } else if n > from && self.input[n - 1] == '\r' {
            n - 1
        } else {
            n
        }
    }

    /// Reads the token that starts at `start`: its kind, the offset at which
    /// the next scan starts, and the message of its error.
    fn scan_token(&self, start: usize) -> (r: (TokenKind, usize, Option<String>))
        requires
            start < self.input@.len(),
            self.input@.len() < u32::MAX,
            !is_space(self.input@[start as int]),
        ensures
            r.0.deep_view() == scan_at(self.input@, start as int).kind,
            r.1 == scan_at(self.input@, start as int).end,
            r.2.deep_view() == scan_at(self.input@, start as int).message,
    {
        let c = self.input[start];
        if c == '/' {
            self.scan_slash(start)
        } else if c == '#' {
            let e = self.scan_pound_comment(start + 1);
            let text = string_from_chars(self.input, start + 1, e);
            (TokenKind::PoundComment(text), self.after_break(e), None)
        } else if is_word_start_char(c) {
            let e = self.scan_identifier(start);
            let text = string_from_chars(self.input, start, e);
            match TokenKind::from_string(text.as_str()) {
                Some(kind) => (kind, e, None),
                None => (TokenKind::Identifier(text), e, None),
            }
        } else if c == '\'' || c == '"' {
            self.scan_quoted(start)
        } else if is_sign_char(c) || is_digit_char(c) || c == '.' {
            self.scan_number(start)
        } else {
            match TokenKind::from_char(c) {
                Some(kind) => (kind, start + 1, None),
                None => (TokenKind::Invalid(c), start + 1, None),
            }
        }
    }

    fn scan_slash(&self, start: usize) -> (r: (TokenKind, usize, Option<String>))
        requires
            start < self.input@.len(),
            self.input@.len() < u32::MAX,
        ensures
            r.0.deep_view() == scan_slash(self.input@, start as int).kind,
            r.1 == scan_slash(self.input@, start as int).end,
            r.2.deep_view() == scan_slash(self.input@, start as int).message,
    {
        if start + 1 >= self.input.len() {
            (TokenKind::Invalid('/'), start + 1, None)
        } else if self.input[start + 1] == '/' {
            let e = self.scan_line_comment(start + 2);
            let text = string_from_chars(self.input, start + 2, e);
            (TokenKind::Comment(text), self.after_break(e), None)
        } else if self.input[start + 1] == '*' {
            proof {
                lemma_block_end(self.input@, start + 2, 1);
            }
            match self.scan_block_comment(start + 2) {
                Some(e) => {
                    let text = string_from_chars(self.input, start + 2, e - 2);
                    (TokenKind::BlockComment(text), e, None)
                },
                None => {
                    let text = string_from_chars(self.input, start, self.input.len());
                    let message = concat_str("Unclosed block comment: ", text.as_str());
                    (TokenKind::InvalidString(text), self.input.len(), Some(message))
                },
            }
        } else {
            let text = string_from_chars(self.input, start, start + 1);
            let message = concat_str("Unclosed block comment: ", text.as_str());
            (TokenKind::InvalidString(text), start + 1, Some(message))
        }
    }

    fn scan_quoted(&self, start: usize) -> (r: (TokenKind, usize, Option<String>))
        requires
            start < self.input@.len(),
            self.input@.len() < u32::MAX,
        ensures
            r.0.deep_view() == scan_quoted(self.input@, start as int).kind,
            r.1 == scan_quoted(self.input@, start as int).end,
            r.2.deep_view() == scan_quoted(self.input@, start as int).message,
    {
        proof {
            lemma_literal_end(self.input@, start + 1, self.input@[start as int]);
        }
        match self.scan_literal(start, self.input[start]) {
            Some(e) => {
                let text = string_from_chars(self.input, start + 1, e - 1);
                (TokenKind::Literal(text), e, None)
            },
            None => {
                let t = self.trimmed_end(start + 1);
                let text = string_from_chars(self.input, start + 1, t);
                let message = concat_str("Unclosed string: ", text.as_str());
                (TokenKind::InvalidString(text), self.input.len(), Some(message))
            },
        }
    }

    fn scan_number(&self, start: usize) -> (r: (TokenKind, usize, Option<String>))
        requires
            start < self.input@.len(),
        ensures
            r.0.deep_view() == scan_number(self.input@, start as int).kind,
            r.1 == scan_number(self.input@, start as int).end,
            r.2.deep_view() == scan_number(self.input@, start as int).message,
    {
        let (n, int_ok) = self.scan_int_constant(start);
        let followed = n < self.input.len() && (self.input[n] == '.' || self.input[n] == 'e'
            || self.input[n] == 'E');
        if int_ok && !followed {
            (TokenKind::IntConstant(string_from_chars(self.input, start, n)), n, None)
        } else {
            let (e, double_ok) = self.scan_double_constant(start);
            let text = string_from_chars(self.input, start, e);
            if double_ok {
                (TokenKind::DoubleConstant(text), e, None)
            } else {
                (TokenKind::InvalidString(text), e, None)
            }
        }
    }
}

fn is_space_char(c: char) -> (r: bool)
    ensures
        r == is_space(c),
{
    c == ' ' || c == '\t' || c == '\n' || c == '\r'
}

fn is_line_break_char(c: char) -> (r: bool)
    ensures
        r == is_line_break(c),
{
    c == '\n' || c == '\r'
}

fn is_digit_char(c: char) -> (r: bool)
    ensures
        r == is_digit(c),
{
    '0' <= c && c <= '9'
}

fn is_sign_char(c: char) -> (r: bool)
    ensures
        r == is_sign(c),
{
    c == '+' || c == '-'
}

fn is_word_start_char(c: char) -> (r: bool)
    ensures
        r == is_word_start(c),
{
    ('a' <= c && c <= 'z') || ('A' <= c && c <= 'Z') || c == '_'
}

fn is_word_char_of(c: char) -> (r: bool)
    ensures
        r == is_word_char(c),
{
    is_word_start_char(c) || is_digit_char(c) || c == '.'
}

} // verus!
