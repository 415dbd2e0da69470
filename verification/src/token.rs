//! Tokens of the Thrift language.

use vstd::prelude::*;
use vstd::string::*;
use crate::base::{Position, Range};
use crate::text::{concat3, concat_str, str_equals, string_of_char};

verus! {

/// The kind of a token, with the text it carries.
#[derive(Debug, PartialEq, Eq)]
pub enum TokenKind {
    // keywords
    Include,
    CppInclude,
    Namespace,
    Const,
    Typedef,
    Enum,
    Struct,
    Union,
    Exception,
    Service,
    Required,
    Optional,
    Oneway,
    Void,
    Throws,
    Extends,
    // container and annotation keywords
    MapKeyword,
    SetKeyword,
    List,
    CppType,
    // punctuation
    Assign,
    Colon,
    Less,
    Greater,
    Lparen,
    Rparen,
    Lbrace,
    Rbrace,
    Lbrack,
    Rbrack,
    // comments, without their lead and without the line break
    Comment(String),
    BlockComment(String),
    PoundComment(String),
    // constants
    IntConstant(String),
    DoubleConstant(String),
    // names and literals
    NamespaceScope(String),
    BaseType(String),
    Literal(String),
    Identifier(String),
    /// `,` or `;`
    ListSeparator(char),
    // what could not be read
    Invalid(char),
    InvalidString(String),
    // end of input
    Eof,
}

/// A token kind as plain values: each text as a sequence of characters.
pub enum TokenKindView {
    Include,
    CppInclude,
    Namespace,
    Const,
    Typedef,
    Enum,
    Struct,
    Union,
    Exception,
    Service,
    Required,
    Optional,
    Oneway,
    Void,
    Throws,
    Extends,
    MapKeyword,
    SetKeyword,
    List,
    CppType,
    Assign,
    Colon,
    Less,
    Greater,
    Lparen,
    Rparen,
    Lbrace,
    Rbrace,
    Lbrack,
    Rbrack,
    Comment(Seq<char>),
    BlockComment(Seq<char>),
    PoundComment(Seq<char>),
    IntConstant(Seq<char>),
    DoubleConstant(Seq<char>),
    NamespaceScope(Seq<char>),
    BaseType(Seq<char>),
    Literal(Seq<char>),
    Identifier(Seq<char>),
    ListSeparator(char),
    Invalid(char),
    InvalidString(Seq<char>),
    Eof,
}

impl DeepView for TokenKind {
    type V = TokenKindView;

    open spec fn deep_view(&self) -> TokenKindView {
        match self {
            TokenKind::Include => TokenKindView::Include,
            TokenKind::CppInclude => TokenKindView::CppInclude,
            TokenKind::Namespace => TokenKindView::Namespace,
            TokenKind::Const => TokenKindView::Const,
            TokenKind::Typedef => TokenKindView::Typedef,
            TokenKind::Enum => TokenKindView::Enum,
            TokenKind::Struct => TokenKindView::Struct,
            TokenKind::Union => TokenKindView::Union,
            TokenKind::Exception => TokenKindView::Exception,
            TokenKind::Service => TokenKindView::Service,
            TokenKind::Required => TokenKindView::Required,
            TokenKind::Optional => TokenKindView::Optional,
            TokenKind::Oneway => TokenKindView::Oneway,
            TokenKind::Void => TokenKindView::Void,
            TokenKind::Throws => TokenKindView::Throws,
            TokenKind::Extends => TokenKindView::Extends,
            TokenKind::MapKeyword => TokenKindView::MapKeyword,
            TokenKind::SetKeyword => TokenKindView::SetKeyword,
            TokenKind::List => TokenKindView::List,
            TokenKind::CppType => TokenKindView::CppType,
            TokenKind::Assign => TokenKindView::Assign,
            TokenKind::Colon => TokenKindView::Colon,
            TokenKind::Less => TokenKindView::Less,
            TokenKind::Greater => TokenKindView::Greater,
            TokenKind::Lparen => TokenKindView::Lparen,
            TokenKind::Rparen => TokenKindView::Rparen,
            TokenKind::Lbrace => TokenKindView::Lbrace,
            TokenKind::Rbrace => TokenKindView::Rbrace,
            TokenKind::Lbrack => TokenKindView::Lbrack,
            TokenKind::Rbrack => TokenKindView::Rbrack,
            TokenKind::Comment(s) => TokenKindView::Comment(s@),
            TokenKind::BlockComment(s) => TokenKindView::BlockComment(s@),
            TokenKind::PoundComment(s) => TokenKindView::PoundComment(s@),
            TokenKind::IntConstant(s) => TokenKindView::IntConstant(s@),
            TokenKind::DoubleConstant(s) => TokenKindView::DoubleConstant(s@),
            TokenKind::NamespaceScope(s) => TokenKindView::NamespaceScope(s@),
            TokenKind::BaseType(s) => TokenKindView::BaseType(s@),
            TokenKind::Literal(s) => TokenKindView::Literal(s@),
            TokenKind::Identifier(s) => TokenKindView::Identifier(s@),
            TokenKind::ListSeparator(c) => TokenKindView::ListSeparator(*c),
            TokenKind::Invalid(c) => TokenKindView::Invalid(*c),
            TokenKind::InvalidString(s) => TokenKindView::InvalidString(s@),
            TokenKind::Eof => TokenKindView::Eof,
        }
    }
}

impl TokenKindView {
    /// The printable width of the token: keywords and punctuation have their
    /// fixed length, a literal counts its two quotes, a comment its lead (and
    /// a block comment its closing mark), and the end of input has none.
    pub open spec fn len(self) -> nat {
        match self {
            TokenKindView::Include => 7,
            TokenKindView::CppInclude => 11,
            TokenKindView::Namespace => 9,
            TokenKindView::Const => 5,
            TokenKindView::Typedef => 7,
            TokenKindView::Enum => 4,
            TokenKindView::Struct => 6,
            TokenKindView::Union => 5,
            TokenKindView::Exception => 9,
            TokenKindView::Service => 7,
            TokenKindView::Required => 8,
            TokenKindView::Optional => 8,
            TokenKindView::Oneway => 6,
            TokenKindView::Void => 4,
            TokenKindView::Throws => 6,
            TokenKindView::Extends => 7,
            TokenKindView::MapKeyword => 3,
            TokenKindView::SetKeyword => 3,
            TokenKindView::List => 4,
            TokenKindView::CppType => 8,
            TokenKindView::Assign => 1,
            TokenKindView::Colon => 1,
            TokenKindView::Less => 1,
            TokenKindView::Greater => 1,
            TokenKindView::Lparen => 1,
            TokenKindView::Rparen => 1,
            TokenKindView::Lbrace => 1,
            TokenKindView::Rbrace => 1,
            TokenKindView::Lbrack => 1,
            TokenKindView::Rbrack => 1,
            TokenKindView::Comment(s) => s.len() + 2,
            TokenKindView::BlockComment(s) => s.len() + 4,
            TokenKindView::PoundComment(s) => s.len() + 1,
            TokenKindView::IntConstant(s) => s.len(),
            TokenKindView::DoubleConstant(s) => s.len(),
            TokenKindView::NamespaceScope(s) => s.len(),
            TokenKindView::BaseType(s) => s.len(),
            TokenKindView::Literal(s) => s.len() + 2,
            TokenKindView::Identifier(s) => s.len(),
            TokenKindView::ListSeparator(_) => 1,
            TokenKindView::Invalid(_) => 1,
            TokenKindView::InvalidString(s) => s.len(),
            TokenKindView::Eof => 0,
        }
    }

    /// The text by which messages name the token: a keyword or a mark as it is
    /// written, a comment with its lead, a literal without its quotes.
    pub open spec fn text(self) -> Seq<char> {
        match self {
            TokenKindView::Include => "include"@,
            TokenKindView::CppInclude => "cpp_include"@,
            TokenKindView::Namespace => "namespace"@,
            TokenKindView::Const => "const"@,
            TokenKindView::Typedef => "typedef"@,
            TokenKindView::Enum => "enum"@,
            TokenKindView::Struct => "struct"@,
            TokenKindView::Union => "union"@,
            TokenKindView::Exception => "exception"@,
            TokenKindView::Service => "service"@,
            TokenKindView::Required => "required"@,
            TokenKindView::Optional => "optional"@,
            TokenKindView::Oneway => "oneway"@,
            TokenKindView::Void => "void"@,
            TokenKindView::Throws => "throws"@,
            TokenKindView::Extends => "extends"@,
            TokenKindView::MapKeyword => "map"@,
            TokenKindView::SetKeyword => "set"@,
            TokenKindView::List => "list"@,
            TokenKindView::CppType => "cpp_type"@,
            TokenKindView::Assign => "="@,
            TokenKindView::Colon => ":"@,
            TokenKindView::Less => "<"@,
            TokenKindView::Greater => ">"@,
            TokenKindView::Lparen => "("@,
            TokenKindView::Rparen => ")"@,
            TokenKindView::Lbrace => "{"@,
            TokenKindView::Rbrace => "}"@,
            TokenKindView::Lbrack => "["@,
            TokenKindView::Rbrack => "]"@,
            TokenKindView::Comment(s) => "//"@ + s,
            TokenKindView::BlockComment(s) => "/*"@ + s + "*/"@,
            TokenKindView::PoundComment(s) => "#"@ + s,
            TokenKindView::IntConstant(s) => s,
            TokenKindView::DoubleConstant(s) => s,
            TokenKindView::NamespaceScope(s) => s,
            TokenKindView::BaseType(s) => s,
            TokenKindView::Literal(s) => s,
            TokenKindView::Identifier(s) => s,
            TokenKindView::ListSeparator(c) => seq![c],
            TokenKindView::Invalid(c) => seq![c],
            TokenKindView::InvalidString(s) => s,
            TokenKindView::Eof => "<EOF>"@,
        }
    }

    /// A comment of any of the three forms.
    pub open spec fn is_comment(self) -> bool {
        self is Comment || self is BlockComment || self is PoundComment
    }

    /// Something that could not be read.
    pub open spec fn is_invalid(self) -> bool {
        self is Invalid || self is InvalidString
    }
}

impl Default for TokenKind {
    fn default() -> (r: TokenKind)
        ensures
            r.deep_view() == TokenKindView::Eof,
    {
        TokenKind::Eof
    }
}

impl Clone for TokenKind {
    fn clone(&self) -> (r: TokenKind)
        ensures
            r.deep_view() == self.deep_view(),
    {
        match self {
            TokenKind::Include => TokenKind::Include,
            TokenKind::CppInclude => TokenKind::CppInclude,
            TokenKind::Namespace => TokenKind::Namespace,
            TokenKind::Const => TokenKind::Const,
            TokenKind::Typedef => TokenKind::Typedef,
            TokenKind::Enum => TokenKind::Enum,
            TokenKind::Struct => TokenKind::Struct,
            TokenKind::Union => TokenKind::Union,
            TokenKind::Exception => TokenKind::Exception,
            TokenKind::Service => TokenKind::Service,
            TokenKind::Required => TokenKind::Required,
            TokenKind::Optional => TokenKind::Optional,
            TokenKind::Oneway => TokenKind::Oneway,
            TokenKind::Void => TokenKind::Void,
            TokenKind::Throws => TokenKind::Throws,
            TokenKind::Extends => TokenKind::Extends,
            TokenKind::MapKeyword => TokenKind::MapKeyword,
            TokenKind::SetKeyword => TokenKind::SetKeyword,
            TokenKind::List => TokenKind::List,
            TokenKind::CppType => TokenKind::CppType,
            TokenKind::Assign => TokenKind::Assign,
            TokenKind::Colon => TokenKind::Colon,
            TokenKind::Less => TokenKind::Less,
            TokenKind::Greater => TokenKind::Greater,
            TokenKind::Lparen => TokenKind::Lparen,
            TokenKind::Rparen => TokenKind::Rparen,
            TokenKind::Lbrace => TokenKind::Lbrace,
            TokenKind::Rbrace => TokenKind::Rbrace,
            TokenKind::Lbrack => TokenKind::Lbrack,
            TokenKind::Rbrack => TokenKind::Rbrack,
            TokenKind::Comment(s) => TokenKind::Comment(s.clone()),
            TokenKind::BlockComment(s) => TokenKind::BlockComment(s.clone()),
            TokenKind::PoundComment(s) => TokenKind::PoundComment(s.clone()),
            TokenKind::IntConstant(s) => TokenKind::IntConstant(s.clone()),
            TokenKind::DoubleConstant(s) => TokenKind::DoubleConstant(s.clone()),
            TokenKind::NamespaceScope(s) => TokenKind::NamespaceScope(s.clone()),
            TokenKind::BaseType(s) => TokenKind::BaseType(s.clone()),
            TokenKind::Literal(s) => TokenKind::Literal(s.clone()),
            TokenKind::Identifier(s) => TokenKind::Identifier(s.clone()),
            TokenKind::ListSeparator(c) => TokenKind::ListSeparator(*c),
            TokenKind::Invalid(c) => TokenKind::Invalid(*c),
            TokenKind::InvalidString(s) => TokenKind::InvalidString(s.clone()),
            TokenKind::Eof => TokenKind::Eof,
        }
    }
}

impl TokenKind {
    /// The printable width of the token.
    pub fn len(&self) -> (n: usize)
        requires
            self.deep_view().len() <= usize::MAX,
        ensures
            n == self.deep_view().len(),
    {
        match self {
            TokenKind::Include => 7,
            TokenKind::CppInclude => 11,
            TokenKind::Namespace => 9,
            TokenKind::Const => 5,
            TokenKind::Typedef => 7,
            TokenKind::Enum => 4,
            TokenKind::Struct => 6,
            TokenKind::Union => 5,
            TokenKind::Exception => 9,
            TokenKind::Service => 7,
            TokenKind::Required => 8,
            TokenKind::Optional => 8,
            TokenKind::Oneway => 6,
            TokenKind::Void => 4,
            TokenKind::Throws => 6,
            TokenKind::Extends => 7,
            TokenKind::MapKeyword => 3,
            TokenKind::SetKeyword => 3,
            TokenKind::List => 4,
            TokenKind::CppType => 8,
            TokenKind::Assign => 1,
            TokenKind::Colon => 1,
            TokenKind::Less => 1,
            TokenKind::Greater => 1,
            TokenKind::Lparen => 1,
            TokenKind::Rparen => 1,
            TokenKind::Lbrace => 1,
            TokenKind::Rbrace => 1,
            TokenKind::Lbrack => 1,
            TokenKind::Rbrack => 1,
            TokenKind::Comment(s) => s.as_str().unicode_len() + 2,
            TokenKind::BlockComment(s) => s.as_str().unicode_len() + 4,
            TokenKind::PoundComment(s) => s.as_str().unicode_len() + 1,
            TokenKind::IntConstant(s) => s.as_str().unicode_len(),
            TokenKind::DoubleConstant(s) => s.as_str().unicode_len(),
            TokenKind::NamespaceScope(s) => s.as_str().unicode_len(),
            TokenKind::BaseType(s) => s.as_str().unicode_len(),
            TokenKind::Literal(s) => s.as_str().unicode_len() + 2,
            TokenKind::Identifier(s) => s.as_str().unicode_len(),
            TokenKind::ListSeparator(_) => 1,
            TokenKind::Invalid(_) => 1,
            TokenKind::InvalidString(s) => s.as_str().unicode_len(),
            TokenKind::Eof => 0,
        }
    }

    /// The text by which messages name the token.
    pub fn text(&self) -> (r: String)
        ensures
            r@ == self.deep_view().text(),
    {
        match self {
            TokenKind::Include => String::from_str("include"),
            TokenKind::CppInclude => String::from_str("cpp_include"),
            TokenKind::Namespace => String::from_str("namespace"),
            TokenKind::Const => String::from_str("const"),
            TokenKind::Typedef => String::from_str("typedef"),
            TokenKind::Enum => String::from_str("enum"),
            TokenKind::Struct => String::from_str("struct"),
            TokenKind::Union => String::from_str("union"),
            TokenKind::Exception => String::from_str("exception"),
            TokenKind::Service => String::from_str("service"),
            TokenKind::Required => String::from_str("required"),
            TokenKind::Optional => String::from_str("optional"),
            TokenKind::Oneway => String::from_str("oneway"),
            TokenKind::Void => String::from_str("void"),
            TokenKind::Throws => String::from_str("throws"),
            TokenKind::Extends => String::from_str("extends"),
            TokenKind::MapKeyword => String::from_str("map"),
            TokenKind::SetKeyword => String::from_str("set"),
            TokenKind::List => String::from_str("list"),
            TokenKind::CppType => String::from_str("cpp_type"),
            TokenKind::Assign => String::from_str("="),
            TokenKind::Colon => String::from_str(":"),
            TokenKind::Less => String::from_str("<"),
            TokenKind::Greater => String::from_str(">"),
            TokenKind::Lparen => String::from_str("("),
            TokenKind::Rparen => String::from_str(")"),
            TokenKind::Lbrace => String::from_str("{"),
            TokenKind::Rbrace => String::from_str("}"),
            TokenKind::Lbrack => String::from_str("["),
            TokenKind::Rbrack => String::from_str("]"),
            TokenKind::Comment(s) => concat_str("//", s.as_str()),
            TokenKind::BlockComment(s) => concat3("/*", s.as_str(), "*/"),
            TokenKind::PoundComment(s) => concat_str("#", s.as_str()),
            TokenKind::IntConstant(s) => s.clone(),
            TokenKind::DoubleConstant(s) => s.clone(),
            TokenKind::NamespaceScope(s) => s.clone(),
            TokenKind::BaseType(s) => s.clone(),
            TokenKind::Literal(s) => s.clone(),
            TokenKind::Identifier(s) => s.clone(),
            TokenKind::ListSeparator(c) => string_of_char(*c),
            TokenKind::Invalid(c) => string_of_char(*c),
            TokenKind::InvalidString(s) => s.clone(),
            TokenKind::Eof => String::from_str("<EOF>"),
        }
    }
}

/// The kind that a word of the language stands for: a keyword, a namespace
/// scope or a base type; `None` for every other text.
pub open spec fn word_kind(s: Seq<char>) -> Option<TokenKindView> {
    if s == "include"@ {
        Some(TokenKindView::Include)
    } else if s == "cpp_include"@ {
        Some(TokenKindView::CppInclude)
    } else if s == "namespace"@ {
        Some(TokenKindView::Namespace)
    } else if s == "const"@ {
        Some(TokenKindView::Const)
    } else if s == "typedef"@ {
        Some(TokenKindView::Typedef)
    } else if s == "enum"@ {
        Some(TokenKindView::Enum)
    } else if s == "struct"@ {
        Some(TokenKindView::Struct)
    } else if s == "union"@ {
        Some(TokenKindView::Union)
    } else if s == "exception"@ {
        Some(TokenKindView::Exception)
    } else if s == "service"@ {
        Some(TokenKindView::Service)
    } else if s == "required"@ {
        Some(TokenKindView::Required)
    } else if s == "optional"@ {
        Some(TokenKindView::Optional)
    } else if s == "oneway"@ {
        Some(TokenKindView::Oneway)
    } else if s == "void"@ {
        Some(TokenKindView::Void)
    } else if s == "throws"@ {
        Some(TokenKindView::Throws)
    } else if s == "extends"@ {
        Some(TokenKindView::Extends)
    } else if s == "map"@ {
        Some(TokenKindView::MapKeyword)
    } else if s == "set"@ {
        Some(TokenKindView::SetKeyword)
    } else if s == "list"@ {
        Some(TokenKindView::List)
    } else if s == "cpp_type"@ {
        Some(TokenKindView::CppType)
    } else if is_namespace_scope(s) {
        Some(TokenKindView::NamespaceScope(s))
    } else if is_base_type(s) {
        Some(TokenKindView::BaseType(s))
    } else {
        None
    }
}

/// The scopes that a `namespace` header may name.
pub open spec fn is_namespace_scope(s: Seq<char>) -> bool {
    s == "c_glib"@
    || s == "cpp"@
    || s == "delphi"@
    || s == "haxe"@
    || s == "go"@
    || s == "java"@
    || s == "js"@
    || s == "lua"@
    || s == "netstd"@
    || s == "perl"@
    || s == "php"@
    || s == "py"@
    || s == "py.twisted"@
    || s == "rb"@
    || s == "st"@
    || s == "xsd"@
    || s == "rs"@
}

/// The built-in types.
pub open spec fn is_base_type(s: Seq<char>) -> bool {
    s == "bool"@
    || s == "byte"@
    || s == "i8"@
    || s == "i16"@
    || s == "i32"@
    || s == "i64"@
    || s == "double"@
    || s == "string"@
    || s == "binary"@
    || s == "uuid"@
}

/// The kind that a single character stands for: punctuation, a list
/// separator, or `*` as the scope of every language; `None` otherwise.
pub open spec fn char_kind(c: char) -> Option<TokenKindView> {
    if c == '=' {
        Some(TokenKindView::Assign)
    } else if c == ':' {
        Some(TokenKindView::Colon)
    } else if c == '<' {
        Some(TokenKindView::Less)
    } else if c == '>' {
        Some(TokenKindView::Greater)
    } else if c == '(' {
        Some(TokenKindView::Lparen)
    } else if c == ')' {
        Some(TokenKindView::Rparen)
    } else if c == '{' {
        Some(TokenKindView::Lbrace)
    } else if c == '}' {
        Some(TokenKindView::Rbrace)
    } else if c == '[' {
        Some(TokenKindView::Lbrack)
    } else if c == ']' {
        Some(TokenKindView::Rbrack)
    } else if c == ',' || c == ';' {
        Some(TokenKindView::ListSeparator(c))
    } else if c == '*' {
        Some(TokenKindView::NamespaceScope(seq!['*']))
    } else {
        None
    }
}

impl TokenKind {
    /// The kind of a word of the language, if `s` is one.
    pub fn from_string(s: &str) -> (r: Option<TokenKind>)
        ensures
            r.deep_view() == word_kind(s@),
    {
        if str_equals(s, "include") {
            Some(TokenKind::Include)
        } else if str_equals(s, "cpp_include") {
            Some(TokenKind::CppInclude)
        } else if str_equals(s, "namespace") {
            Some(TokenKind::Namespace)
        } else if str_equals(s, "const") {
            Some(TokenKind::Const)
        } else if str_equals(s, "typedef") {
            Some(TokenKind::Typedef)
        } else if str_equals(s, "enum") {
            Some(TokenKind::Enum)
        } else if str_equals(s, "struct") {
            Some(TokenKind::Struct)
        } else if str_equals(s, "union") {
            Some(TokenKind::Union)
        } else if str_equals(s, "exception") {
            Some(TokenKind::Exception)
        } else if str_equals(s, "service") {
            Some(TokenKind::Service)
        } else if str_equals(s, "required") {
            Some(TokenKind::Required)
        } else if str_equals(s, "optional") {
            Some(TokenKind::Optional)
        } else if str_equals(s, "oneway") {
            Some(TokenKind::Oneway)
        } else if str_equals(s, "void") {
            Some(TokenKind::Void)
        } else if str_equals(s, "throws") {
            Some(TokenKind::Throws)
        } else if str_equals(s, "extends") {
            Some(TokenKind::Extends)
        } else if str_equals(s, "map") {
            Some(TokenKind::MapKeyword)
        } else if str_equals(s, "set") {
            Some(TokenKind::SetKeyword)
        } else if str_equals(s, "list") {
            Some(TokenKind::List)
        } else if str_equals(s, "cpp_type") {
            Some(TokenKind::CppType)
        } else if is_scope_word(s) {
            Some(TokenKind::NamespaceScope(String::from_str(s)))
        } else if is_base_word(s) {
            Some(TokenKind::BaseType(String::from_str(s)))
        } else {
            None
        }
    }

    /// The kind of a single character, if it has one.
    pub fn from_char(c: char) -> (r: Option<TokenKind>)
        ensures
            r.deep_view() == char_kind(c),
    {
        if c == '=' {
            Some(TokenKind::Assign)
        } else if c == ':' {
            Some(TokenKind::Colon)
        } else if c == '<' {
            Some(TokenKind::Less)
        } else if c == '>' {
            Some(TokenKind::Greater)
        } else if c == '(' {
            Some(TokenKind::Lparen)
        } else if c == ')' {
            Some(TokenKind::Rparen)
        } else if c == '{' {
            Some(TokenKind::Lbrace)
        } else if c == '}' {
            Some(TokenKind::Rbrace)
        } else if c == '[' {
            Some(TokenKind::Lbrack)
        } else if c == ']' {
            Some(TokenKind::Rbrack)
        } else if c == ',' || c == ';' {
            Some(TokenKind::ListSeparator(c))
        } else if c == '*' {
            Some(TokenKind::NamespaceScope(string_of_char('*')))
        } else {
            None
        }
    }
}

fn is_scope_word(s: &str) -> (r: bool)
    ensures
        r == is_namespace_scope(s@),
{
    str_equals(s, "c_glib")
    || str_equals(s, "cpp")
    || str_equals(s, "delphi")
    || str_equals(s, "haxe")
    || str_equals(s, "go")
    || str_equals(s, "java")
    || str_equals(s, "js")
    || str_equals(s, "lua")
    || str_equals(s, "netstd")
    || str_equals(s, "perl")
    || str_equals(s, "php")
    || str_equals(s, "py")
    || str_equals(s, "py.twisted")
    || str_equals(s, "rb")
    || str_equals(s, "st")
    || str_equals(s, "xsd")
    || str_equals(s, "rs")
}

fn is_base_word(s: &str) -> (r: bool)
    ensures
        r == is_base_type(s@),
{
    str_equals(s, "bool")
    || str_equals(s, "byte")
    || str_equals(s, "i8")
    || str_equals(s, "i16")
    || str_equals(s, "i32")
    || str_equals(s, "i64")
    || str_equals(s, "double")
    || str_equals(s, "string")
    || str_equals(s, "binary")
    || str_equals(s, "uuid")
}

/// A word of the language is as wide as its text.
pub proof fn lemma_word_kind_len(s: Seq<char>)
    requires
        word_kind(s) is Some,
    ensures
        word_kind(s)->0.len() == s.len(),
        word_kind(s)->0.text() == s,
        !word_kind(s)->0.is_comment(),
        !(word_kind(s)->0 is Eof),
{
    reveal_strlit("include");
    reveal_strlit("cpp_include");
    reveal_strlit("namespace");
    reveal_strlit("const");
    reveal_strlit("typedef");
    reveal_strlit("enum");
    reveal_strlit("struct");
    reveal_strlit("union");
    reveal_strlit("exception");
    reveal_strlit("service");
    reveal_strlit("required");
    reveal_strlit("optional");
    reveal_strlit("oneway");
    reveal_strlit("void");
    reveal_strlit("throws");
    reveal_strlit("extends");
    reveal_strlit("map");
    reveal_strlit("set");
    reveal_strlit("list");
    reveal_strlit("cpp_type");
}

impl TokenKind {
    /// Whether two kinds are the same kind with the same text.
    pub fn same_as(&self, other: &TokenKind) -> (r: bool)
        ensures
            r == (self.deep_view() == other.deep_view()),
    {
        match self {
            TokenKind::Include => match other {
                TokenKind::Include => true,
                _ => false,
            },
            TokenKind::CppInclude => match other {
                TokenKind::CppInclude => true,
                _ => false,
            },
            TokenKind::Namespace => match other {
                TokenKind::Namespace => true,
                _ => false,
            },
            TokenKind::Const => match other {
                TokenKind::Const => true,
                _ => false,
            },
            TokenKind::Typedef => match other {
                TokenKind::Typedef => true,
                _ => false,
            },
            TokenKind::Enum => match other {
                TokenKind::Enum => true,
                _ => false,
            },
            TokenKind::Struct => match other {
                TokenKind::Struct => true,
                _ => false,
            },
            TokenKind::Union => match other {
                TokenKind::Union => true,
                _ => false,
            },
            TokenKind::Exception => match other {
                TokenKind::Exception => true,
                _ => false,
            },
            TokenKind::Service => match other {
                TokenKind::Service => true,
                _ => false,
            },
            TokenKind::Required => match other {
                TokenKind::Required => true,
                _ => false,
            },
            TokenKind::Optional => match other {
                TokenKind::Optional => true,
                _ => false,
            },
            TokenKind::Oneway => match other {
                TokenKind::Oneway => true,
                _ => false,
            },
            TokenKind::Void => match other {
                TokenKind::Void => true,
                _ => false,
            },
            TokenKind::Throws => match other {
                TokenKind::Throws => true,
                _ => false,
            },
            TokenKind::Extends => match other {
                TokenKind::Extends => true,
                _ => false,
            },
            TokenKind::MapKeyword => match other {
                TokenKind::MapKeyword => true,
                _ => false,
            },
            TokenKind::SetKeyword => match other {
                TokenKind::SetKeyword => true,
                _ => false,
            },
            TokenKind::List => match other {
                TokenKind::List => true,
                _ => false,
            },
            TokenKind::CppType => match other {
                TokenKind::CppType => true,
                _ => false,
            },
            TokenKind::Assign => match other {
                TokenKind::Assign => true,
                _ => false,
            },
            TokenKind::Colon => match other {
                TokenKind::Colon => true,
                _ => false,
            },
            TokenKind::Less => match other {
                TokenKind::Less => true,
                _ => false,
            },
            TokenKind::Greater => match other {
                TokenKind::Greater => true,
                _ => false,
            },
            TokenKind::Lparen => match other {
                TokenKind::Lparen => true,
                _ => false,
            },
            TokenKind::Rparen => match other {
                TokenKind::Rparen => true,
                _ => false,
            },
            TokenKind::Lbrace => match other {
                TokenKind::Lbrace => true,
                _ => false,
            },
            TokenKind::Rbrace => match other {
                TokenKind::Rbrace => true,
                _ => false,
            },
            TokenKind::Lbrack => match other {
                TokenKind::Lbrack => true,
                _ => false,
            },
            TokenKind::Rbrack => match other {
                TokenKind::Rbrack => true,
                _ => false,
            },
            TokenKind::Eof => match other {
                TokenKind::Eof => true,
                _ => false,
            },
            TokenKind::Comment(a) => match other {
                TokenKind::Comment(b) => str_equals(a.as_str(), b.as_str()),
                _ => false,
            },
            TokenKind::BlockComment(a) => match other {
                TokenKind::BlockComment(b) => str_equals(a.as_str(), b.as_str()),
                _ => false,
            },
            TokenKind::PoundComment(a) => match other {
                TokenKind::PoundComment(b) => str_equals(a.as_str(), b.as_str()),
                _ => false,
            },
            TokenKind::IntConstant(a) => match other {
                TokenKind::IntConstant(b) => str_equals(a.as_str(), b.as_str()),
                _ => false,
            },
            TokenKind::DoubleConstant(a) => match other {
                TokenKind::DoubleConstant(b) => str_equals(a.as_str(), b.as_str()),
                _ => false,
            },
            TokenKind::NamespaceScope(a) => match other {
                TokenKind::NamespaceScope(b) => str_equals(a.as_str(), b.as_str()),
                _ => false,
            },
            TokenKind::BaseType(a) => match other {
                TokenKind::BaseType(b) => str_equals(a.as_str(), b.as_str()),
                _ => false,
            },
            TokenKind::Literal(a) => match other {
                TokenKind::Literal(b) => str_equals(a.as_str(), b.as_str()),
                _ => false,
            },
            TokenKind::Identifier(a) => match other {
                TokenKind::Identifier(b) => str_equals(a.as_str(), b.as_str()),
                _ => false,
            },
            TokenKind::InvalidString(a) => match other {
                TokenKind::InvalidString(b) => str_equals(a.as_str(), b.as_str()),
                _ => false,
            },
            TokenKind::ListSeparator(a) => match other {
                TokenKind::ListSeparator(b) => *a == *b,
                _ => false,
            },
            TokenKind::Invalid(a) => match other {
                TokenKind::Invalid(b) => *a == *b,
                _ => false,
            },
        }
    }
}

/// The text that names a token is no longer than the token is wide, but for
/// the end of input.
pub proof fn lemma_text_len(kind: TokenKindView)
    requires
        !(kind is Eof),
    ensures
        kind.text().len() <= kind.len(),
{
    reveal_strlit("include");
    reveal_strlit("cpp_include");
    reveal_strlit("namespace");
    reveal_strlit("const");
    reveal_strlit("typedef");
    reveal_strlit("enum");
    reveal_strlit("struct");
    reveal_strlit("union");
    reveal_strlit("exception");
    reveal_strlit("service");
    reveal_strlit("required");
    reveal_strlit("optional");
    reveal_strlit("oneway");
    reveal_strlit("void");
    reveal_strlit("throws");
    reveal_strlit("extends");
    reveal_strlit("map");
    reveal_strlit("set");
    reveal_strlit("list");
    reveal_strlit("cpp_type");
    reveal_strlit("=");
    reveal_strlit(":");
    reveal_strlit("<");
    reveal_strlit(">");
    reveal_strlit("(");
    reveal_strlit(")");
    reveal_strlit("{");
    reveal_strlit("}");
    reveal_strlit("[");
    reveal_strlit("]");
    reveal_strlit("//");
    reveal_strlit("/*");
    reveal_strlit("*/");
    reveal_strlit("#");
}

/// Every word of the language starts with a small letter.
pub proof fn lemma_word_first_char(s: Seq<char>)
    requires
        word_kind(s) is Some,
    ensures
        s.len() > 0,
        'a' <= s[0] <= 'z',
{
    reveal_strlit("include");
    reveal_strlit("cpp_include");
    reveal_strlit("namespace");
    reveal_strlit("const");
    reveal_strlit("typedef");
    reveal_strlit("enum");
    reveal_strlit("struct");
    reveal_strlit("union");
    reveal_strlit("exception");
    reveal_strlit("service");
    reveal_strlit("required");
    reveal_strlit("optional");
    reveal_strlit("oneway");
    reveal_strlit("void");
    reveal_strlit("throws");
    reveal_strlit("extends");
    reveal_strlit("map");
    reveal_strlit("set");
    reveal_strlit("list");
    reveal_strlit("cpp_type");
    reveal_strlit("c_glib");
    reveal_strlit("cpp");
    reveal_strlit("delphi");
    reveal_strlit("haxe");
    reveal_strlit("go");
    reveal_strlit("java");
    reveal_strlit("js");
    reveal_strlit("lua");
    reveal_strlit("netstd");
    reveal_strlit("perl");
    reveal_strlit("php");
    reveal_strlit("py");
    reveal_strlit("py.twisted");
    reveal_strlit("rb");
    reveal_strlit("st");
    reveal_strlit("xsd");
    reveal_strlit("rs");
    reveal_strlit("bool");
    reveal_strlit("byte");
    reveal_strlit("i8");
    reveal_strlit("i16");
    reveal_strlit("i32");
    reveal_strlit("i64");
    reveal_strlit("double");
    reveal_strlit("string");
    reveal_strlit("binary");
    reveal_strlit("uuid");
}

/// No word of the language is the text that names the end of input.
pub proof fn lemma_eof_is_no_word()
    ensures
        word_kind("<EOF>"@) is None,
{
    reveal_strlit("<EOF>");
    if word_kind("<EOF>"@) is Some {
        lemma_word_first_char("<EOF>"@);
    }
}

/// A token: its kind and the position of its first character.
#[derive(Debug, PartialEq, Eq)]
pub struct Token {
    pub kind: TokenKind,
    pub position: Position,
}

/// A token as plain values.
pub struct TokenView {
    pub kind: TokenKindView,
    pub position: Position,
}

impl DeepView for Token {
    type V = TokenView;

    open spec fn deep_view(&self) -> TokenView {
        TokenView { kind: self.kind.deep_view(), position: self.position }
    }
}

impl TokenView {
    /// The end of the token's range: its width further on the starting line.
    pub open spec fn end(self) -> Position {
        Position { line: self.position.line, column: (self.position.column + self.kind.len()) as u32 }
    }

    /// From the token's position to its width further on the starting line.
    pub open spec fn range(self) -> Range {
        Range { start: self.position, end: self.end() }
    }

    /// The token's width added to its column stays within a `u32`.
    pub open spec fn fits(self) -> bool {
        self.position.column + self.kind.len() <= u32::MAX
    }
}

impl Default for Token {
    /// The end of input at the first point of a document.
    fn default() -> (r: Token)
        ensures
            r.deep_view() == (TokenView { kind: TokenKindView::Eof, position: Position { line: 1, column: 1 } }),
    {
        Token { kind: TokenKind::Eof, position: Position { line: 1, column: 1 } }
    }
}

impl Clone for Token {
    fn clone(&self) -> (r: Token)
        ensures
            r.deep_view() == self.deep_view(),
    {
        Token { kind: self.kind.clone(), position: self.position }
    }
}

impl Token {
    /// Whether the token is the end of input.
    pub fn is_eof(&self) -> (r: bool)
        ensures
            r == (self.deep_view().kind is Eof),
    {
        match self.kind {
            TokenKind::Eof => true,
            _ => false,
        }
    }

    /// Whether the token is something that could not be read.
    pub fn is_invalid(&self) -> (r: bool)
        ensures
            r == self.deep_view().kind.is_invalid(),
    {
        match self.kind {
            TokenKind::Invalid(_) => true,
            TokenKind::InvalidString(_) => true,
            _ => false,
        }
    }

    /// Whether the token is a comment of any of the three forms.
    pub fn is_comment(&self) -> (r: bool)
        ensures
            r == self.deep_view().kind.is_comment(),
    {
        match self.kind {
            TokenKind::Comment(_) => true,
            TokenKind::BlockComment(_) => true,
            TokenKind::PoundComment(_) => true,
            _ => false,
        }
    }

    /// Whether the token is a list separator.
    pub fn is_line_separator(&self) -> (r: bool)
        ensures
            r == (self.deep_view().kind is ListSeparator),
    {
        match self.kind {
            TokenKind::ListSeparator(_) => true,
            _ => false,
        }
    }

    /// The range of the token: it starts at the token's position and ends on
    /// the same line, the token's width further.
    pub fn range(&self) -> (r: Range)
        requires
            self.deep_view().fits(),
        ensures
            r == self.deep_view().range(),
            r.start == self.position,
            r.end.line == self.position.line,
            r.end.column == self.position.column + self.deep_view().kind.len(),
            r.wf(),
    {
        let n = self.kind.len();
        Range {
            start: self.position,
            end: Position { line: self.position.line, column: self.position.column + (n as u32) },
        }
    }
}

} // verus!
