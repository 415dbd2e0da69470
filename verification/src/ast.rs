//! The syntax tree: every node carries the range of the tokens it was read
//! from, and hands out its children from left to right.

use vstd::prelude::*;
use std::rc::Rc;
use crate::base::{Position, Range};
use crate::text::{chars_of, string_from_chars};

verus! {

/// An `include` header: the path of the included file.
#[derive(Debug)]
pub struct IncludeNode {
    pub range: Range,
    pub literal: String,
}

/// A `cpp_include` header.
#[derive(Debug)]
pub struct CppIncludeNode {
    pub range: Range,
    pub literal: String,
}

/// A `namespace` header: the scope and the name it declares.
#[derive(Debug)]
pub struct NamespaceNode {
    pub range: Range,
    pub scope: String,
    pub identifier: IdentifierNode,
    pub ext: Option<ExtNode>,
}

/// A name, which may hold dots.
#[derive(Debug)]
pub struct IdentifierNode {
    pub range: Range,
    pub name: String,
}

/// A constant: its type, its name and its value.
#[derive(Debug)]
pub struct ConstNode {
    pub range: Range,
    pub field_type: FieldTypeNode,
    pub identifier: IdentifierNode,
    pub value: ConstValueNode,
}

/// A built-in type, or `void` as the type of a function.
#[derive(Debug)]
pub struct BaseTypeNode {
    pub range: Range,
    pub name: String,
}

/// A map type with the types of its keys and values.
#[derive(Debug)]
pub struct MapTypeNode {
    pub range: Range,
    pub cpp_type: Option<String>,
    pub key_type: Box<FieldTypeNode>,
    pub value_type: Box<FieldTypeNode>,
}

/// A set type with the type of its elements.
#[derive(Debug)]
pub struct SetTypeNode {
    pub range: Range,
    pub cpp_type: Option<String>,
    pub type_node: Box<FieldTypeNode>,
}

/// A list type with the type of its elements.
#[derive(Debug)]
pub struct ListTypeNode {
    pub range: Range,
    pub cpp_type: Option<String>,
    pub type_node: Box<FieldTypeNode>,
}

/// A constant value as text; a list reads `[v1, v2]`, a map `{k: v}`.
#[derive(Debug)]
pub struct ConstValueNode {
    pub range: Range,
    pub value: String,
}

/// A type definition: the type and its new name.
#[derive(Debug)]
pub struct TypedefNode {
    pub range: Range,
    pub definition_type: FieldTypeNode,
    pub identifier: IdentifierNode,
}

/// An enumeration with its values.
#[derive(Debug)]
pub struct EnumNode {
    pub range: Range,
    pub identifier: IdentifierNode,
    pub values: Vec<EnumValueNode>,
}

/// One value of an enumeration.
#[derive(Debug)]
pub struct EnumValueNode {
    pub range: Range,
    pub name: String,
    pub value: Option<i32>,
    pub ext: Option<ExtNode>,
}

/// A struct with its fields.
#[derive(Debug)]
pub struct StructNode {
    pub range: Range,
    pub identifier: IdentifierNode,
    pub fields: Vec<FieldNode>,
    pub ext: Option<ExtNode>,
}

/// A field of a struct, union or exception, or a parameter of a function.
#[derive(Debug)]
pub struct FieldNode {
    pub range: Range,
    pub field_id: Option<FieldIdNode>,
    pub field_req: Option<String>,
    pub field_type: FieldTypeNode,
    pub identifier: IdentifierNode,
    pub default_value: Option<ConstValueNode>,
    pub ext: Option<ExtNode>,
}

/// The number of a field.
#[derive(Debug)]
pub struct FieldIdNode {
    pub range: Range,
    pub id: i32,
}

/// A union with its fields.
#[derive(Debug)]
pub struct UnionNode {
    pub range: Range,
    pub identifier: IdentifierNode,
    pub fields: Vec<FieldNode>,
}

/// An exception with its fields.
#[derive(Debug)]
pub struct ExceptionNode {
    pub range: Range,
    pub identifier: IdentifierNode,
    pub fields: Vec<FieldNode>,
}

/// A service: its name, the service it extends, and its functions.
#[derive(Debug)]
pub struct ServiceNode {
    pub range: Range,
    pub identifier: IdentifierNode,
    pub extends: Option<IdentifierNode>,
    pub functions: Vec<FunctionNode>,
}

/// A function of a service.
#[derive(Debug)]
pub struct FunctionNode {
    pub range: Range,
    pub is_oneway: bool,
    pub function_type: FieldTypeNode,
    pub identifier: IdentifierNode,
    pub fields: Vec<FieldNode>,
    pub throws: Option<Vec<FieldNode>>,
    pub ext: Option<ExtNode>,
}

/// The annotations `(key = "value", ...)` behind a declaration.
#[derive(Debug)]
pub struct ExtNode {
    pub range: Range,
    pub kv_pairs: Vec<(String, String)>,
}

/// A whole document: its headers, then its definitions.
#[derive(Debug)]
pub struct DocumentNode {
    pub range: Range,
    pub headers: Vec<Rc<HeaderNode>>,
    pub definitions: Vec<Rc<DefinitionNode>>,
}

/// A header of a document.
#[derive(Debug)]
pub enum HeaderNode {
    Include(IncludeNode),
    CppInclude(CppIncludeNode),
    Namespace(NamespaceNode),
}

/// A definition of a document.
#[derive(Debug)]
pub enum DefinitionNode {
    Const(ConstNode),
    Typedef(TypedefNode),
    Enum(EnumNode),
    Struct(StructNode),
    Union(UnionNode),
    Exception(ExceptionNode),
    Service(ServiceNode),
}

/// A type at the place of a field's type.
#[derive(Debug)]
pub enum FieldTypeNode {
    Identifier(IdentifierNode),
    BaseType(BaseTypeNode),
    MapType(MapTypeNode),
    SetType(SetTypeNode),
    ListType(ListTypeNode),
}

/// What a `IncludeNode` holds, as plain values.
pub struct IncludeNodeView {
    pub range: Range,
    pub literal: Seq<char>,
}

/// What a `CppIncludeNode` holds, as plain values.
pub struct CppIncludeNodeView {
    pub range: Range,
    pub literal: Seq<char>,
}

/// What a `NamespaceNode` holds, as plain values.
pub struct NamespaceNodeView {
    pub range: Range,
    pub scope: Seq<char>,
    pub identifier: IdentifierNodeView,
    pub ext: Option<ExtNodeView>,
}

/// What a `IdentifierNode` holds, as plain values.
pub struct IdentifierNodeView {
    pub range: Range,
    pub name: Seq<char>,
}

/// What a `ConstNode` holds, as plain values.
pub struct ConstNodeView {
    pub range: Range,
    pub field_type: FieldTypeView,
    pub identifier: IdentifierNodeView,
    pub value: ConstValueNodeView,
}

/// What a `BaseTypeNode` holds, as plain values.
pub struct BaseTypeNodeView {
    pub range: Range,
    pub name: Seq<char>,
}

/// What a `MapTypeNode` holds, as plain values.
pub struct MapTypeNodeView {
    pub range: Range,
    pub cpp_type: Option<Seq<char>>,
    pub key_type: Box<FieldTypeView>,
    pub value_type: Box<FieldTypeView>,
}

/// What a `SetTypeNode` holds, as plain values.
pub struct SetTypeNodeView {
    pub range: Range,
    pub cpp_type: Option<Seq<char>>,
    pub type_node: Box<FieldTypeView>,
}

/// What a `ListTypeNode` holds, as plain values.
pub struct ListTypeNodeView {
    pub range: Range,
    pub cpp_type: Option<Seq<char>>,
    pub type_node: Box<FieldTypeView>,
}

/// What a `ConstValueNode` holds, as plain values.
pub struct ConstValueNodeView {
    pub range: Range,
    pub value: Seq<char>,
}

/// What a `TypedefNode` holds, as plain values.
pub struct TypedefNodeView {
    pub range: Range,
    pub definition_type: FieldTypeView,
    pub identifier: IdentifierNodeView,
}

/// What a `EnumNode` holds, as plain values.
pub struct EnumNodeView {
    pub range: Range,
    pub identifier: IdentifierNodeView,
    pub values: Seq<EnumValueNodeView>,
}

/// What a `EnumValueNode` holds, as plain values.
pub struct EnumValueNodeView {
    pub range: Range,
    pub name: Seq<char>,
    pub value: Option<i32>,
    pub ext: Option<ExtNodeView>,
}

/// What a `StructNode` holds, as plain values.
pub struct StructNodeView {
    pub range: Range,
    pub identifier: IdentifierNodeView,
    pub fields: Seq<FieldNodeView>,
    pub ext: Option<ExtNodeView>,
}

/// What a `FieldNode` holds, as plain values.
pub struct FieldNodeView {
    pub range: Range,
    pub field_id: Option<FieldIdNodeView>,
    pub field_req: Option<Seq<char>>,
    pub field_type: FieldTypeView,
    pub identifier: IdentifierNodeView,
    pub default_value: Option<ConstValueNodeView>,
    pub ext: Option<ExtNodeView>,
}

/// What a `FieldIdNode` holds, as plain values.
pub struct FieldIdNodeView {
    pub range: Range,
    pub id: i32,
}

/// What a `UnionNode` holds, as plain values.
pub struct UnionNodeView {
    pub range: Range,
    pub identifier: IdentifierNodeView,
    pub fields: Seq<FieldNodeView>,
}

/// What a `ExceptionNode` holds, as plain values.
pub struct ExceptionNodeView {
    pub range: Range,
    pub identifier: IdentifierNodeView,
    pub fields: Seq<FieldNodeView>,
}

/// What a `ServiceNode` holds, as plain values.
pub struct ServiceNodeView {
    pub range: Range,
    pub identifier: IdentifierNodeView,
    pub extends: Option<IdentifierNodeView>,
    pub functions: Seq<FunctionNodeView>,
}

/// What a `FunctionNode` holds, as plain values.
pub struct FunctionNodeView {
    pub range: Range,
    pub is_oneway: bool,
    pub function_type: FieldTypeView,
    pub identifier: IdentifierNodeView,
    pub fields: Seq<FieldNodeView>,
    pub throws: Option<Seq<FieldNodeView>>,
    pub ext: Option<ExtNodeView>,
}

/// What a `ExtNode` holds, as plain values.
pub struct ExtNodeView {
    pub range: Range,
    pub kv_pairs: Seq<(Seq<char>, Seq<char>)>,
}

/// What a `DocumentNode` holds, as plain values.
pub struct DocumentNodeView {
    pub range: Range,
    pub headers: Seq<HeaderNodeView>,
    pub definitions: Seq<DefinitionNodeView>,
}

/// What a `HeaderNode` holds, as plain values.
pub enum HeaderNodeView {
    Include(IncludeNodeView),
    CppInclude(CppIncludeNodeView),
    Namespace(NamespaceNodeView),
}

/// What a `DefinitionNode` holds, as plain values.
pub enum DefinitionNodeView {
    Const(ConstNodeView),
    Typedef(TypedefNodeView),
    Enum(EnumNodeView),
    Struct(StructNodeView),
    Union(UnionNodeView),
    Exception(ExceptionNodeView),
    Service(ServiceNodeView),
}

/// What a `FieldTypeNode` holds, as plain values.
pub enum FieldTypeView {
    Identifier(IdentifierNodeView),
    BaseType(BaseTypeNodeView),
    MapType(MapTypeNodeView),
    SetType(SetTypeNodeView),
    ListType(ListTypeNodeView),
}

/// The plain value of a type node, taken through its nested types.
pub open spec fn field_type_view(t: FieldTypeNode) -> FieldTypeView
    decreases t,
{
    match t {
        FieldTypeNode::Identifier(n) => FieldTypeView::Identifier(n.deep_view()),
        FieldTypeNode::BaseType(n) => FieldTypeView::BaseType(n.deep_view()),
        FieldTypeNode::MapType(n) => FieldTypeView::MapType(
            MapTypeNodeView {
                range: n.range,
                cpp_type: n.cpp_type.deep_view(),
                key_type: Box::new(field_type_view(*n.key_type)),
                value_type: Box::new(field_type_view(*n.value_type)),
            },
        ),
        FieldTypeNode::SetType(n) => FieldTypeView::SetType(
            SetTypeNodeView {
                range: n.range,
                cpp_type: n.cpp_type.deep_view(),
                type_node: Box::new(field_type_view(*n.type_node)),
            },
        ),
        FieldTypeNode::ListType(n) => FieldTypeView::ListType(
            ListTypeNodeView {
                range: n.range,
                cpp_type: n.cpp_type.deep_view(),
                type_node: Box::new(field_type_view(*n.type_node)),
            },
        ),
    }
}

impl DeepView for FieldTypeNode {
    type V = FieldTypeView;

    open spec fn deep_view(&self) -> FieldTypeView {
        field_type_view(*self)
    }
}

impl DeepView for IncludeNode {
    type V = IncludeNodeView;

    open spec fn deep_view(&self) -> IncludeNodeView {
        IncludeNodeView {
            range: self.range,
            literal: self.literal@,
        }
    }
}

impl DeepView for CppIncludeNode {
    type V = CppIncludeNodeView;

    open spec fn deep_view(&self) -> CppIncludeNodeView {
        CppIncludeNodeView {
            range: self.range,
            literal: self.literal@,
        }
    }
}

impl DeepView for NamespaceNode {
    type V = NamespaceNodeView;

    open spec fn deep_view(&self) -> NamespaceNodeView {
        NamespaceNodeView {
            range: self.range,
            scope: self.scope@,
            identifier: self.identifier.deep_view(),
            ext: self.ext.deep_view(),
        }
    }
}

impl DeepView for IdentifierNode {
    type V = IdentifierNodeView;

    open spec fn deep_view(&self) -> IdentifierNodeView {
        IdentifierNodeView {
            range: self.range,
            name: self.name@,
        }
    }
}

impl DeepView for ConstNode {
    type V = ConstNodeView;

    open spec fn deep_view(&self) -> ConstNodeView {
        ConstNodeView {
            range: self.range,
            field_type: self.field_type.deep_view(),
            identifier: self.identifier.deep_view(),
            value: self.value.deep_view(),
        }
    }
}

impl DeepView for BaseTypeNode {
    type V = BaseTypeNodeView;

    open spec fn deep_view(&self) -> BaseTypeNodeView {
        BaseTypeNodeView {
            range: self.range,
            name: self.name@,
        }
    }
}

impl DeepView for MapTypeNode {
    type V = MapTypeNodeView;

    open spec fn deep_view(&self) -> MapTypeNodeView {
        MapTypeNodeView {
            range: self.range,
            cpp_type: self.cpp_type.deep_view(),
            key_type: Box::new(field_type_view(*self.key_type)),
            value_type: Box::new(field_type_view(*self.value_type)),
        }
    }
}

impl DeepView for SetTypeNode {
    type V = SetTypeNodeView;

    open spec fn deep_view(&self) -> SetTypeNodeView {
        SetTypeNodeView {
            range: self.range,
            cpp_type: self.cpp_type.deep_view(),
            type_node: Box::new(field_type_view(*self.type_node)),
        }
    }
}

impl DeepView for ListTypeNode {
    type V = ListTypeNodeView;

    open spec fn deep_view(&self) -> ListTypeNodeView {
        ListTypeNodeView {
            range: self.range,
            cpp_type: self.cpp_type.deep_view(),
            type_node: Box::new(field_type_view(*self.type_node)),
        }
    }
}

impl DeepView for ConstValueNode {
    type V = ConstValueNodeView;

    open spec fn deep_view(&self) -> ConstValueNodeView {
        ConstValueNodeView {
            range: self.range,
            value: self.value@,
        }
    }
}

impl DeepView for TypedefNode {
    type V = TypedefNodeView;

    open spec fn deep_view(&self) -> TypedefNodeView {
        TypedefNodeView {
            range: self.range,
            definition_type: self.definition_type.deep_view(),
            identifier: self.identifier.deep_view(),
        }
    }
}

impl DeepView for EnumNode {
    type V = EnumNodeView;

    open spec fn deep_view(&self) -> EnumNodeView {
        EnumNodeView {
            range: self.range,
            identifier: self.identifier.deep_view(),
            values: self.values.deep_view(),
        }
    }
}

impl DeepView for EnumValueNode {
    type V = EnumValueNodeView;

    open spec fn deep_view(&self) -> EnumValueNodeView {
        EnumValueNodeView {
            range: self.range,
            name: self.name@,
            value: self.value,
            ext: self.ext.deep_view(),
        }
    }
}

impl DeepView for StructNode {
    type V = StructNodeView;

    open spec fn deep_view(&self) -> StructNodeView {
        StructNodeView {
            range: self.range,
            identifier: self.identifier.deep_view(),
            fields: self.fields.deep_view(),
            ext: self.ext.deep_view(),
        }
    }
}

impl DeepView for FieldNode {
    type V = FieldNodeView;

    open spec fn deep_view(&self) -> FieldNodeView {
        FieldNodeView {
            range: self.range,
            field_id: self.field_id.deep_view(),
            field_req: self.field_req.deep_view(),
            field_type: self.field_type.deep_view(),
            identifier: self.identifier.deep_view(),
            default_value: self.default_value.deep_view(),
            ext: self.ext.deep_view(),
        }
    }
}

impl DeepView for FieldIdNode {
    type V = FieldIdNodeView;

    open spec fn deep_view(&self) -> FieldIdNodeView {
        FieldIdNodeView {
            range: self.range,
            id: self.id,
        }
    }
}

impl DeepView for UnionNode {
    type V = UnionNodeView;

    open spec fn deep_view(&self) -> UnionNodeView {
        UnionNodeView {
            range: self.range,
            identifier: self.identifier.deep_view(),
            fields: self.fields.deep_view(),
        }
    }
}

impl DeepView for ExceptionNode {
    type V = ExceptionNodeView;

    open spec fn deep_view(&self) -> ExceptionNodeView {
        ExceptionNodeView {
            range: self.range,
            identifier: self.identifier.deep_view(),
            fields: self.fields.deep_view(),
        }
    }
}

impl DeepView for ServiceNode {
    type V = ServiceNodeView;

    open spec fn deep_view(&self) -> ServiceNodeView {
        ServiceNodeView {
            range: self.range,
            identifier: self.identifier.deep_view(),
            extends: self.extends.deep_view(),
            functions: self.functions.deep_view(),
        }
    }
}

impl DeepView for FunctionNode {
    type V = FunctionNodeView;

    open spec fn deep_view(&self) -> FunctionNodeView {
        FunctionNodeView {
            range: self.range,
            is_oneway: self.is_oneway,
            function_type: self.function_type.deep_view(),
            identifier: self.identifier.deep_view(),
            fields: self.fields.deep_view(),
            throws: self.throws.deep_view(),
            ext: self.ext.deep_view(),
        }
    }
}

impl DeepView for ExtNode {
    type V = ExtNodeView;

    open spec fn deep_view(&self) -> ExtNodeView {
        ExtNodeView {
            range: self.range,
            kv_pairs: self.kv_pairs.deep_view(),
        }
    }
}

impl DeepView for DocumentNode {
    type V = DocumentNodeView;

    open spec fn deep_view(&self) -> DocumentNodeView {
        DocumentNodeView {
            range: self.range,
            headers: self.headers.deep_view(),
            definitions: self.definitions.deep_view(),
        }
    }
}

impl DeepView for HeaderNode {
    type V = HeaderNodeView;

    open spec fn deep_view(&self) -> HeaderNodeView {
        match self {
            HeaderNode::Include(n) => HeaderNodeView::Include(n.deep_view()),
            HeaderNode::CppInclude(n) => HeaderNodeView::CppInclude(n.deep_view()),
            HeaderNode::Namespace(n) => HeaderNodeView::Namespace(n.deep_view()),
        }
    }
}

impl DeepView for DefinitionNode {
    type V = DefinitionNodeView;

    open spec fn deep_view(&self) -> DefinitionNodeView {
        match self {
            DefinitionNode::Const(n) => DefinitionNodeView::Const(n.deep_view()),
            DefinitionNode::Typedef(n) => DefinitionNodeView::Typedef(n.deep_view()),
            DefinitionNode::Enum(n) => DefinitionNodeView::Enum(n.deep_view()),
            DefinitionNode::Struct(n) => DefinitionNodeView::Struct(n.deep_view()),
            DefinitionNode::Union(n) => DefinitionNodeView::Union(n.deep_view()),
            DefinitionNode::Exception(n) => DefinitionNodeView::Exception(n.deep_view()),
            DefinitionNode::Service(n) => DefinitionNodeView::Service(n.deep_view()),
        }
    }
}

/// A reference to a node of any kind.
#[derive(Debug, Clone, Copy)]
pub enum NodeRef<'a> {
    Include(&'a IncludeNode),
    CppInclude(&'a CppIncludeNode),
    Namespace(&'a NamespaceNode),
    Identifier(&'a IdentifierNode),
    Const(&'a ConstNode),
    BaseType(&'a BaseTypeNode),
    MapType(&'a MapTypeNode),
    SetType(&'a SetTypeNode),
    ListType(&'a ListTypeNode),
    ConstValue(&'a ConstValueNode),
    Typedef(&'a TypedefNode),
    Enum(&'a EnumNode),
    EnumValue(&'a EnumValueNode),
    Struct(&'a StructNode),
    Field(&'a FieldNode),
    FieldId(&'a FieldIdNode),
    Union(&'a UnionNode),
    Exception(&'a ExceptionNode),
    Service(&'a ServiceNode),
    Function(&'a FunctionNode),
    Ext(&'a ExtNode),
    Document(&'a DocumentNode),
}

/// A node of any kind, as plain values.
pub enum NodeView {
    Include(IncludeNodeView),
    CppInclude(CppIncludeNodeView),
    Namespace(NamespaceNodeView),
    Identifier(IdentifierNodeView),
    Const(ConstNodeView),
    BaseType(BaseTypeNodeView),
    MapType(MapTypeNodeView),
    SetType(SetTypeNodeView),
    ListType(ListTypeNodeView),
    ConstValue(ConstValueNodeView),
    Typedef(TypedefNodeView),
    Enum(EnumNodeView),
    EnumValue(EnumValueNodeView),
    Struct(StructNodeView),
    Field(FieldNodeView),
    FieldId(FieldIdNodeView),
    Union(UnionNodeView),
    Exception(ExceptionNodeView),
    Service(ServiceNodeView),
    Function(FunctionNodeView),
    Ext(ExtNodeView),
    Document(DocumentNodeView),
}

impl<'a> DeepView for NodeRef<'a> {
    type V = NodeView;

    open spec fn deep_view(&self) -> NodeView {
        match self {
            NodeRef::Include(n) => NodeView::Include(n.deep_view()),
            NodeRef::CppInclude(n) => NodeView::CppInclude(n.deep_view()),
            NodeRef::Namespace(n) => NodeView::Namespace(n.deep_view()),
            NodeRef::Identifier(n) => NodeView::Identifier(n.deep_view()),
            NodeRef::Const(n) => NodeView::Const(n.deep_view()),
            NodeRef::BaseType(n) => NodeView::BaseType(n.deep_view()),
            NodeRef::MapType(n) => NodeView::MapType(n.deep_view()),
            NodeRef::SetType(n) => NodeView::SetType(n.deep_view()),
            NodeRef::ListType(n) => NodeView::ListType(n.deep_view()),
            NodeRef::ConstValue(n) => NodeView::ConstValue(n.deep_view()),
            NodeRef::Typedef(n) => NodeView::Typedef(n.deep_view()),
            NodeRef::Enum(n) => NodeView::Enum(n.deep_view()),
            NodeRef::EnumValue(n) => NodeView::EnumValue(n.deep_view()),
            NodeRef::Struct(n) => NodeView::Struct(n.deep_view()),
            NodeRef::Field(n) => NodeView::Field(n.deep_view()),
            NodeRef::FieldId(n) => NodeView::FieldId(n.deep_view()),
            NodeRef::Union(n) => NodeView::Union(n.deep_view()),
            NodeRef::Exception(n) => NodeView::Exception(n.deep_view()),
            NodeRef::Service(n) => NodeView::Service(n.deep_view()),
            NodeRef::Function(n) => NodeView::Function(n.deep_view()),
            NodeRef::Ext(n) => NodeView::Ext(n.deep_view()),
            NodeRef::Document(n) => NodeView::Document(n.deep_view()),
        }
    }
}

impl HeaderNodeView {
    /// The range of the node.
    pub open spec fn range(self) -> Range {
        match self {
            HeaderNodeView::Include(n) => n.range,
            HeaderNodeView::CppInclude(n) => n.range,
            HeaderNodeView::Namespace(n) => n.range,
        }
    }

    /// The node itself, among the nodes of every kind.
    pub open spec fn as_node(self) -> NodeView {
        match self {
            HeaderNodeView::Include(n) => NodeView::Include(n),
            HeaderNodeView::CppInclude(n) => NodeView::CppInclude(n),
            HeaderNodeView::Namespace(n) => NodeView::Namespace(n),
        }
    }

    /// The node is well formed.
    pub open spec fn wf(self) -> bool {
        match self {
            HeaderNodeView::Include(n) => n.wf(),
            HeaderNodeView::CppInclude(n) => n.wf(),
            HeaderNodeView::Namespace(n) => n.wf(),
        }
    }

}

impl DefinitionNodeView {
    /// The range of the node.
    pub open spec fn range(self) -> Range {
        match self {
            DefinitionNodeView::Const(n) => n.range,
            DefinitionNodeView::Typedef(n) => n.range,
            DefinitionNodeView::Enum(n) => n.range,
            DefinitionNodeView::Struct(n) => n.range,
            DefinitionNodeView::Union(n) => n.range,
            DefinitionNodeView::Exception(n) => n.range,
            DefinitionNodeView::Service(n) => n.range,
        }
    }

    /// The node itself, among the nodes of every kind.
    pub open spec fn as_node(self) -> NodeView {
        match self {
            DefinitionNodeView::Const(n) => NodeView::Const(n),
            DefinitionNodeView::Typedef(n) => NodeView::Typedef(n),
            DefinitionNodeView::Enum(n) => NodeView::Enum(n),
            DefinitionNodeView::Struct(n) => NodeView::Struct(n),
            DefinitionNodeView::Union(n) => NodeView::Union(n),
            DefinitionNodeView::Exception(n) => NodeView::Exception(n),
            DefinitionNodeView::Service(n) => NodeView::Service(n),
        }
    }

    /// The node is well formed.
    pub open spec fn wf(self) -> bool {
        match self {
            DefinitionNodeView::Const(n) => n.wf(),
            DefinitionNodeView::Typedef(n) => n.wf(),
            DefinitionNodeView::Enum(n) => n.wf(),
            DefinitionNodeView::Struct(n) => n.wf(),
            DefinitionNodeView::Union(n) => n.wf(),
            DefinitionNodeView::Exception(n) => n.wf(),
            DefinitionNodeView::Service(n) => n.wf(),
        }
    }

    /// The name that the definition declares.
    pub open spec fn identifier(self) -> IdentifierNodeView {
        match self {
            DefinitionNodeView::Const(n) => n.identifier,
            DefinitionNodeView::Typedef(n) => n.identifier,
            DefinitionNodeView::Enum(n) => n.identifier,
            DefinitionNodeView::Struct(n) => n.identifier,
            DefinitionNodeView::Union(n) => n.identifier,
            DefinitionNodeView::Exception(n) => n.identifier,
            DefinitionNodeView::Service(n) => n.identifier,
        }
    }

}

impl FieldTypeView {
    /// The range of the node.
    pub open spec fn range(self) -> Range {
        match self {
            FieldTypeView::Identifier(n) => n.range,
            FieldTypeView::BaseType(n) => n.range,
            FieldTypeView::MapType(n) => n.range,
            FieldTypeView::SetType(n) => n.range,
            FieldTypeView::ListType(n) => n.range,
        }
    }

    /// The node itself, among the nodes of every kind.
    pub open spec fn as_node(self) -> NodeView {
        match self {
            FieldTypeView::Identifier(n) => NodeView::Identifier(n),
            FieldTypeView::BaseType(n) => NodeView::BaseType(n),
            FieldTypeView::MapType(n) => NodeView::MapType(n),
            FieldTypeView::SetType(n) => NodeView::SetType(n),
            FieldTypeView::ListType(n) => NodeView::ListType(n),
        }
    }

    /// The node is well formed.
    pub open spec fn wf(self) -> bool {
        field_type_wf(self)
    }

}

/// A type node is well formed: its range is in order, and each nested type
/// is well formed and lies within it.
pub open spec fn field_type_wf(t: FieldTypeView) -> bool
    decreases t,
{
    match t {
        FieldTypeView::Identifier(n) => n.wf(),
        FieldTypeView::BaseType(n) => n.range.wf(),
        FieldTypeView::MapType(n) => {
            &&& n.range.wf()
            &&& n.range.encloses(n.key_type.range())
            &&& field_type_wf(*n.key_type)
            &&& n.range.encloses(n.value_type.range())
            &&& field_type_wf(*n.value_type)
        },
        FieldTypeView::SetType(n) => {
            &&& n.range.wf()
            &&& n.range.encloses(n.type_node.range())
            &&& field_type_wf(*n.type_node)
        },
        FieldTypeView::ListType(n) => {
            &&& n.range.wf()
            &&& n.range.encloses(n.type_node.range())
            &&& field_type_wf(*n.type_node)
        },
    }
}

/// The node of an optional child: none where it is absent.
pub open spec fn optional_node(o: Option<NodeView>) -> Seq<NodeView> {
    match o {
        Some(n) => seq![n],
        None => Seq::empty(),
    }
}

/// The nodes of a sequence of children, in their order.
pub open spec fn field_nodes(s: Seq<FieldNodeView>) -> Seq<NodeView> {
    Seq::new(s.len(), |i: int| NodeView::Field(s[i]))
}

/// The nodes of a sequence of children, in their order.
pub open spec fn enum_value_nodes(s: Seq<EnumValueNodeView>) -> Seq<NodeView> {
    Seq::new(s.len(), |i: int| NodeView::EnumValue(s[i]))
}

/// The nodes of a sequence of children, in their order.
pub open spec fn function_nodes(s: Seq<FunctionNodeView>) -> Seq<NodeView> {
    Seq::new(s.len(), |i: int| NodeView::Function(s[i]))
}

/// The nodes of a sequence of children, in their order.
pub open spec fn header_nodes(s: Seq<HeaderNodeView>) -> Seq<NodeView> {
    Seq::new(s.len(), |i: int| s[i].as_node())
}

/// The nodes of a sequence of children, in their order.
pub open spec fn definition_nodes(s: Seq<DefinitionNodeView>) -> Seq<NodeView> {
    Seq::new(s.len(), |i: int| s[i].as_node())
}

impl IncludeNodeView {
    /// The children of the node, from left to right, without those that
    /// are absent.
    pub open spec fn children(self) -> Seq<NodeView> {
        Seq::empty()
    }

    /// The node is well formed: its range is in order, and each child is
    /// well formed and lies within it.
    pub open spec fn wf(self) -> bool {
        &&& self.range.wf()
    }
}

impl CppIncludeNodeView {
    /// The children of the node, from left to right, without those that
    /// are absent.
    pub open spec fn children(self) -> Seq<NodeView> {
        Seq::empty()
    }

    /// The node is well formed: its range is in order, and each child is
    /// well formed and lies within it.
    pub open spec fn wf(self) -> bool {
        &&& self.range.wf()
    }
}

impl NamespaceNodeView {
    /// The children of the node, from left to right, without those that
    /// are absent.
    pub open spec fn children(self) -> Seq<NodeView> {
        seq![NodeView::Identifier(self.identifier)]
        + optional_node(
            match self.ext {
                Some(n) => Some(NodeView::Ext(n)),
                None => None,
            },
        )
    }

    /// The node is well formed: its range is in order, and each child is
    /// well formed and lies within it.
    pub open spec fn wf(self) -> bool {
        &&& self.range.wf()
        &&& self.range.encloses(self.identifier.range)
        &&& self.identifier.wf()
        &&& self.ext matches Some(n) ==> self.range.encloses(n.range) && n.wf()
    }
}

impl IdentifierNodeView {
    /// The children of the node, from left to right, without those that
    /// are absent.
    pub open spec fn children(self) -> Seq<NodeView> {
        Seq::empty()
    }

    /// The name, counted from the start of the range, stays within the
    /// columns that a position can hold.
    pub open spec fn fits(self) -> bool {
        self.range.start.column + self.name.len() <= u32::MAX
    }

    /// The node is well formed: its range is in order and starts at a
    /// one-based position, and the name fits.
    pub open spec fn wf(self) -> bool {
        &&& self.range.wf()
        &&& self.range.start.line >= 1
        &&& self.range.start.column >= 1
        &&& self.fits()
    }
}

impl ConstNodeView {
    /// The children of the node, from left to right, without those that
    /// are absent.
    pub open spec fn children(self) -> Seq<NodeView> {
        seq![self.field_type.as_node()]
        + seq![NodeView::Identifier(self.identifier)]
        + seq![NodeView::ConstValue(self.value)]
    }

    /// The node is well formed: its range is in order, and each child is
    /// well formed and lies within it.
    pub open spec fn wf(self) -> bool {
        &&& self.range.wf()
        &&& self.range.encloses(self.field_type.range())
        &&& field_type_wf(self.field_type)
        &&& self.range.encloses(self.identifier.range)
        &&& self.identifier.wf()
        &&& self.range.encloses(self.value.range)
        &&& self.value.wf()
    }
}

impl BaseTypeNodeView {
    /// The children of the node, from left to right, without those that
    /// are absent.
    pub open spec fn children(self) -> Seq<NodeView> {
        Seq::empty()
    }

    /// The node is well formed: its range is in order, and each child is
    /// well formed and lies within it.
    pub open spec fn wf(self) -> bool {
        &&& self.range.wf()
    }
}

impl MapTypeNodeView {
    /// The children of the node, from left to right, without those that
    /// are absent.
    pub open spec fn children(self) -> Seq<NodeView> {
        seq![self.key_type.as_node()]
        + seq![self.value_type.as_node()]
    }

    /// The node is well formed.
    pub open spec fn wf(self) -> bool {
        field_type_wf(FieldTypeView::MapType(self))
    }
}

impl SetTypeNodeView {
    /// The children of the node, from left to right, without those that
    /// are absent.
    pub open spec fn children(self) -> Seq<NodeView> {
        seq![self.type_node.as_node()]
    }

    /// The node is well formed.
    pub open spec fn wf(self) -> bool {
        field_type_wf(FieldTypeView::SetType(self))
    }
}

impl ListTypeNodeView {
    /// The children of the node, from left to right, without those that
    /// are absent.
    pub open spec fn children(self) -> Seq<NodeView> {
        seq![self.type_node.as_node()]
    }

    /// The node is well formed.
    pub open spec fn wf(self) -> bool {
        field_type_wf(FieldTypeView::ListType(self))
    }
}

impl ConstValueNodeView {
    /// The children of the node, from left to right, without those that
    /// are absent.
    pub open spec fn children(self) -> Seq<NodeView> {
        Seq::empty()
    }

    /// The node is well formed: its range is in order, and each child is
    /// well formed and lies within it.
    pub open spec fn wf(self) -> bool {
        &&& self.range.wf()
    }
}

impl TypedefNodeView {
    /// The children of the node, from left to right, without those that
    /// are absent.
    pub open spec fn children(self) -> Seq<NodeView> {
        seq![self.definition_type.as_node()]
        + seq![NodeView::Identifier(self.identifier)]
    }

    /// The node is well formed: its range is in order, and each child is
    /// well formed and lies within it.
    pub open spec fn wf(self) -> bool {
        &&& self.range.wf()
        &&& self.range.encloses(self.definition_type.range())
        &&& field_type_wf(self.definition_type)
        &&& self.range.encloses(self.identifier.range)
        &&& self.identifier.wf()
    }
}

impl EnumNodeView {
    /// The children of the node, from left to right, without those that
    /// are absent.
    pub open spec fn children(self) -> Seq<NodeView> {
        seq![NodeView::Identifier(self.identifier)]
        + enum_value_nodes(self.values)
    }

    /// The node is well formed: its range is in order, and each child is
    /// well formed and lies within it.
    pub open spec fn wf(self) -> bool {
        &&& self.range.wf()
        &&& self.range.encloses(self.identifier.range)
        &&& self.identifier.wf()
        &&& forall|i: int|
            0 <= i < self.values.len() ==> self.range.encloses((#[trigger] self.values[i]).range) && self.values[i].wf()
    }
}

impl EnumValueNodeView {
    /// The children of the node, from left to right, without those that
    /// are absent.
    pub open spec fn children(self) -> Seq<NodeView> {
        optional_node(
            match self.ext {
                Some(n) => Some(NodeView::Ext(n)),
                None => None,
            },
        )
    }

    /// The node is well formed: its range is in order, and each child is
    /// well formed and lies within it.
    pub open spec fn wf(self) -> bool {
        &&& self.range.wf()
        &&& self.ext matches Some(n) ==> self.range.encloses(n.range) && n.wf()
    }
}

impl StructNodeView {
    /// The children of the node, from left to right, without those that
    /// are absent.
    pub open spec fn children(self) -> Seq<NodeView> {
        seq![NodeView::Identifier(self.identifier)]
        + field_nodes(self.fields)
        + optional_node(
            match self.ext {
                Some(n) => Some(NodeView::Ext(n)),
                None => None,
            },
        )
    }

    /// The node is well formed: its range is in order, and each child is
    /// well formed and lies within it.
    pub open spec fn wf(self) -> bool {
        &&& self.range.wf()
        &&& self.range.encloses(self.identifier.range)
        &&& self.identifier.wf()
        &&& forall|i: int|
            0 <= i < self.fields.len() ==> self.range.encloses((#[trigger] self.fields[i]).range) && self.fields[i].wf()
        &&& self.ext matches Some(n) ==> self.range.encloses(n.range) && n.wf()
    }
}

impl FieldNodeView {
    /// The children of the node, from left to right, without those that
    /// are absent.
    pub open spec fn children(self) -> Seq<NodeView> {
        optional_node(
            match self.field_id {
                Some(n) => Some(NodeView::FieldId(n)),
                None => None,
            },
        )
        + seq![self.field_type.as_node()]
        + seq![NodeView::Identifier(self.identifier)]
        + optional_node(
            match self.default_value {
                Some(n) => Some(NodeView::ConstValue(n)),
                None => None,
            },
        )
        + optional_node(
            match self.ext {
                Some(n) => Some(NodeView::Ext(n)),
                None => None,
            },
        )
    }

    /// The node is well formed: its range is in order, and each child is
    /// well formed and lies within it.
    pub open spec fn wf(self) -> bool {
        &&& self.range.wf()
        &&& self.field_id matches Some(n) ==> self.range.encloses(n.range) && n.wf()
        &&& self.range.encloses(self.field_type.range())
        &&& field_type_wf(self.field_type)
        &&& self.range.encloses(self.identifier.range)
        &&& self.identifier.wf()
        &&& self.default_value matches Some(n) ==> self.range.encloses(n.range) && n.wf()
        &&& self.ext matches Some(n) ==> self.range.encloses(n.range) && n.wf()
    }
}

impl FieldIdNodeView {
    /// The children of the node, from left to right, without those that
    /// are absent.
    pub open spec fn children(self) -> Seq<NodeView> {
        Seq::empty()
    }

    /// The node is well formed: its range is in order, and each child is
    /// well formed and lies within it.
    pub open spec fn wf(self) -> bool {
        &&& self.range.wf()
    }
}

impl UnionNodeView {
    /// The children of the node, from left to right, without those that
    /// are absent.
    pub open spec fn children(self) -> Seq<NodeView> {
        seq![NodeView::Identifier(self.identifier)]
        + field_nodes(self.fields)
    }

    /// The node is well formed: its range is in order, and each child is
    /// well formed and lies within it.
    pub open spec fn wf(self) -> bool {
        &&& self.range.wf()
        &&& self.range.encloses(self.identifier.range)
        &&& self.identifier.wf()
        &&& forall|i: int|
            0 <= i < self.fields.len() ==> self.range.encloses((#[trigger] self.fields[i]).range) && self.fields[i].wf()
    }
}

impl ExceptionNodeView {
    /// The children of the node, from left to right, without those that
    /// are absent.
    pub open spec fn children(self) -> Seq<NodeView> {
        seq![NodeView::Identifier(self.identifier)]
        + field_nodes(self.fields)
    }

    /// The node is well formed: its range is in order, and each child is
    /// well formed and lies within it.
    pub open spec fn wf(self) -> bool {
        &&& self.range.wf()
        &&& self.range.encloses(self.identifier.range)
        &&& self.identifier.wf()
        &&& forall|i: int|
            0 <= i < self.fields.len() ==> self.range.encloses((#[trigger] self.fields[i]).range) && self.fields[i].wf()
    }
}

impl ServiceNodeView {
    /// The children of the node, from left to right, without those that
    /// are absent.
    pub open spec fn children(self) -> Seq<NodeView> {
        seq![NodeView::Identifier(self.identifier)]
        + optional_node(
            match self.extends {
                Some(n) => Some(NodeView::Identifier(n)),
                None => None,
            },
        )
        + function_nodes(self.functions)
    }

    /// The node is well formed: its range is in order, and each child is
    /// well formed and lies within it.
    pub open spec fn wf(self) -> bool {
        &&& self.range.wf()
        &&& self.range.encloses(self.identifier.range)
        &&& self.identifier.wf()
        &&& self.extends matches Some(n) ==> self.range.encloses(n.range) && n.wf()
        &&& forall|i: int|
            0 <= i < self.functions.len() ==> self.range.encloses((#[trigger] self.functions[i]).range) && self.functions[i].wf()
    }
}

impl FunctionNodeView {
    /// The children of the node, from left to right, without those that
    /// are absent.
    pub open spec fn children(self) -> Seq<NodeView> {
        seq![self.function_type.as_node()]
        + seq![NodeView::Identifier(self.identifier)]
        + field_nodes(self.fields)
        + (match self.throws {
            Some(s) => field_nodes(s),
            None => Seq::empty(),
        })
        + optional_node(
            match self.ext {
                Some(n) => Some(NodeView::Ext(n)),
                None => None,
            },
        )
    }

    /// The node is well formed: its range is in order, and each child is
    /// well formed and lies within it.
    pub open spec fn wf(self) -> bool {
        &&& self.range.wf()
        &&& self.range.encloses(self.function_type.range())
        &&& field_type_wf(self.function_type)
        &&& self.range.encloses(self.identifier.range)
        &&& self.identifier.wf()
        &&& forall|i: int|
            0 <= i < self.fields.len() ==> self.range.encloses((#[trigger] self.fields[i]).range) && self.fields[i].wf()
        &&& self.throws matches Some(s) ==> forall|i: int|
            0 <= i < s.len() ==> self.range.encloses((#[trigger] s[i]).range) && s[i].wf()
        &&& self.ext matches Some(n) ==> self.range.encloses(n.range) && n.wf()
    }
}

impl ExtNodeView {
    /// The children of the node, from left to right, without those that
    /// are absent.
    pub open spec fn children(self) -> Seq<NodeView> {
        Seq::empty()
    }

    /// The node is well formed: its range is in order, and each child is
    /// well formed and lies within it.
    pub open spec fn wf(self) -> bool {
        &&& self.range.wf()
    }
}

impl DocumentNodeView {
    /// The children of the node, from left to right, without those that
    /// are absent.
    pub open spec fn children(self) -> Seq<NodeView> {
        header_nodes(self.headers)
        + definition_nodes(self.definitions)
    }

    /// The node is well formed: its range is in order, and each child is
    /// well formed and lies within it.
    pub open spec fn wf(self) -> bool {
        &&& self.range.wf()
        &&& forall|i: int|
            0 <= i < self.headers.len() ==> self.range.encloses((#[trigger] self.headers[i]).range()) && self.headers[i].wf()
        &&& forall|i: int|
            0 <= i < self.definitions.len() ==> self.range.encloses((#[trigger] self.definitions[i]).range()) && self.definitions[i].wf()
    }
}

impl NodeView {
    /// The range of the node.
    pub open spec fn range(self) -> Range {
        match self {
            NodeView::Include(n) => n.range,
            NodeView::CppInclude(n) => n.range,
            NodeView::Namespace(n) => n.range,
            NodeView::Identifier(n) => n.range,
            NodeView::Const(n) => n.range,
            NodeView::BaseType(n) => n.range,
            NodeView::MapType(n) => n.range,
            NodeView::SetType(n) => n.range,
            NodeView::ListType(n) => n.range,
            NodeView::ConstValue(n) => n.range,
            NodeView::Typedef(n) => n.range,
            NodeView::Enum(n) => n.range,
            NodeView::EnumValue(n) => n.range,
            NodeView::Struct(n) => n.range,
            NodeView::Field(n) => n.range,
            NodeView::FieldId(n) => n.range,
            NodeView::Union(n) => n.range,
            NodeView::Exception(n) => n.range,
            NodeView::Service(n) => n.range,
            NodeView::Function(n) => n.range,
            NodeView::Ext(n) => n.range,
            NodeView::Document(n) => n.range,
        }
    }

    /// The children of the node, from left to right.
    pub open spec fn children(self) -> Seq<NodeView> {
        match self {
            NodeView::Include(n) => n.children(),
            NodeView::CppInclude(n) => n.children(),
            NodeView::Namespace(n) => n.children(),
            NodeView::Identifier(n) => n.children(),
            NodeView::Const(n) => n.children(),
            NodeView::BaseType(n) => n.children(),
            NodeView::MapType(n) => n.children(),
            NodeView::SetType(n) => n.children(),
            NodeView::ListType(n) => n.children(),
            NodeView::ConstValue(n) => n.children(),
            NodeView::Typedef(n) => n.children(),
            NodeView::Enum(n) => n.children(),
            NodeView::EnumValue(n) => n.children(),
            NodeView::Struct(n) => n.children(),
            NodeView::Field(n) => n.children(),
            NodeView::FieldId(n) => n.children(),
            NodeView::Union(n) => n.children(),
            NodeView::Exception(n) => n.children(),
            NodeView::Service(n) => n.children(),
            NodeView::Function(n) => n.children(),
            NodeView::Ext(n) => n.children(),
            NodeView::Document(n) => n.children(),
        }
    }

    /// The node is well formed.
    pub open spec fn wf(self) -> bool {
        match self {
            NodeView::Include(n) => n.wf(),
            NodeView::CppInclude(n) => n.wf(),
            NodeView::Namespace(n) => n.wf(),
            NodeView::Identifier(n) => n.wf(),
            NodeView::Const(n) => n.wf(),
            NodeView::BaseType(n) => n.wf(),
            NodeView::MapType(n) => n.wf(),
            NodeView::SetType(n) => n.wf(),
            NodeView::ListType(n) => n.wf(),
            NodeView::ConstValue(n) => n.wf(),
            NodeView::Typedef(n) => n.wf(),
            NodeView::Enum(n) => n.wf(),
            NodeView::EnumValue(n) => n.wf(),
            NodeView::Struct(n) => n.wf(),
            NodeView::Field(n) => n.wf(),
            NodeView::FieldId(n) => n.wf(),
            NodeView::Union(n) => n.wf(),
            NodeView::Exception(n) => n.wf(),
            NodeView::Service(n) => n.wf(),
            NodeView::Function(n) => n.wf(),
            NodeView::Ext(n) => n.wf(),
            NodeView::Document(n) => n.wf(),
        }
    }
}

/// What every node of the tree offers: its range and its children.
pub trait Node {
    /// The node as a plain value.
    spec fn node_view(&self) -> NodeView;

    /// The range of the node.
    fn range(&self) -> (r: Range)
        ensures
            r == self.node_view().range(),
    ;

    /// The children of the node, from left to right, without those that are
    /// absent.
    fn children(&self) -> (r: Vec<NodeRef<'_>>)
        ensures
            r.deep_view() == self.node_view().children(),
    ;
}

impl HeaderNode {
    /// The range of the node.
    pub fn range(&self) -> (r: Range)
        ensures
            r == self.deep_view().range(),
    {
        match self {
            HeaderNode::Include(n) => n.range,
            HeaderNode::CppInclude(n) => n.range,
            HeaderNode::Namespace(n) => n.range,
        }
    }

    /// The node itself, among the nodes of every kind.
    pub fn as_node(&self) -> (r: NodeRef<'_>)
        ensures
            r.deep_view() == self.deep_view().as_node(),
    {
        match self {
            HeaderNode::Include(n) => NodeRef::Include(n),
            HeaderNode::CppInclude(n) => NodeRef::CppInclude(n),
            HeaderNode::Namespace(n) => NodeRef::Namespace(n),
        }
    }
}

impl DefinitionNode {
    /// The range of the node.
    pub fn range(&self) -> (r: Range)
        ensures
            r == self.deep_view().range(),
    {
        match self {
            DefinitionNode::Const(n) => n.range,
            DefinitionNode::Typedef(n) => n.range,
            DefinitionNode::Enum(n) => n.range,
            DefinitionNode::Struct(n) => n.range,
            DefinitionNode::Union(n) => n.range,
            DefinitionNode::Exception(n) => n.range,
            DefinitionNode::Service(n) => n.range,
        }
    }

    /// The node itself, among the nodes of every kind.
    pub fn as_node(&self) -> (r: NodeRef<'_>)
        ensures
            r.deep_view() == self.deep_view().as_node(),
    {
        match self {
            DefinitionNode::Const(n) => NodeRef::Const(n),
            DefinitionNode::Typedef(n) => NodeRef::Typedef(n),
            DefinitionNode::Enum(n) => NodeRef::Enum(n),
            DefinitionNode::Struct(n) => NodeRef::Struct(n),
            DefinitionNode::Union(n) => NodeRef::Union(n),
            DefinitionNode::Exception(n) => NodeRef::Exception(n),
            DefinitionNode::Service(n) => NodeRef::Service(n),
        }
    }
}

impl FieldTypeNode {
    /// The range of the node.
    pub fn range(&self) -> (r: Range)
        ensures
            r == self.deep_view().range(),
    {
        match self {
            FieldTypeNode::Identifier(n) => n.range,
            FieldTypeNode::BaseType(n) => n.range,
            FieldTypeNode::MapType(n) => n.range,
            FieldTypeNode::SetType(n) => n.range,
            FieldTypeNode::ListType(n) => n.range,
        }
    }

    /// The node itself, among the nodes of every kind.
    pub fn as_node(&self) -> (r: NodeRef<'_>)
        ensures
            r.deep_view() == self.deep_view().as_node(),
    {
        match self {
            FieldTypeNode::Identifier(n) => NodeRef::Identifier(n),
            FieldTypeNode::BaseType(n) => NodeRef::BaseType(n),
            FieldTypeNode::MapType(n) => NodeRef::MapType(n),
            FieldTypeNode::SetType(n) => NodeRef::SetType(n),
            FieldTypeNode::ListType(n) => NodeRef::ListType(n),
        }
    }
}

fn push_field_nodes<'a>(out: &mut Vec<NodeRef<'a>>, items: &'a Vec<FieldNode>)
    ensures
        final(out).deep_view() == old(out).deep_view() + field_nodes(items.deep_view()),
{
    let ghost base = out.deep_view();
    let mut i: usize = 0;
    while i < items.len()
        invariant
            i <= items.len(),
            out.deep_view() == base + field_nodes(items.deep_view()).subrange(0, i as int),
        decreases items.len() - i,
    {
        let ghost before = out.deep_view();
        let node = NodeRef::Field(&items[i]);
        out.push(node);
        i += 1;
        assert(out.deep_view() =~= before.push(node.deep_view()));
        assert(out.deep_view() =~= base + field_nodes(items.deep_view()).subrange(0, i as int));
    }
    assert(field_nodes(items.deep_view()).subrange(0, i as int) =~= field_nodes(items.deep_view()));
}

fn push_enum_value_nodes<'a>(out: &mut Vec<NodeRef<'a>>, items: &'a Vec<EnumValueNode>)
    ensures
        final(out).deep_view() == old(out).deep_view() + enum_value_nodes(items.deep_view()),
{
    let ghost base = out.deep_view();
    let mut i: usize = 0;
    while i < items.len()
        invariant
            i <= items.len(),
            out.deep_view() == base + enum_value_nodes(items.deep_view()).subrange(0, i as int),
        decreases items.len() - i,
    {
        let ghost before = out.deep_view();
        let node = NodeRef::EnumValue(&items[i]);
        out.push(node);
        i += 1;
        assert(out.deep_view() =~= before.push(node.deep_view()));
        assert(out.deep_view() =~= base + enum_value_nodes(items.deep_view()).subrange(0, i as int));
    }
    assert(enum_value_nodes(items.deep_view()).subrange(0, i as int) =~= enum_value_nodes(items.deep_view()));
}

fn push_function_nodes<'a>(out: &mut Vec<NodeRef<'a>>, items: &'a Vec<FunctionNode>)
    ensures
        final(out).deep_view() == old(out).deep_view() + function_nodes(items.deep_view()),
{
    let ghost base = out.deep_view();
    let mut i: usize = 0;
    while i < items.len()
        invariant
            i <= items.len(),
            out.deep_view() == base + function_nodes(items.deep_view()).subrange(0, i as int),
        decreases items.len() - i,
    {
        let ghost before = out.deep_view();
        let node = NodeRef::Function(&items[i]);
        out.push(node);
        i += 1;
        assert(out.deep_view() =~= before.push(node.deep_view()));
        assert(out.deep_view() =~= base + function_nodes(items.deep_view()).subrange(0, i as int));
    }
    assert(function_nodes(items.deep_view()).subrange(0, i as int) =~= function_nodes(items.deep_view()));
}

fn push_header_nodes<'a>(out: &mut Vec<NodeRef<'a>>, items: &'a Vec<Rc<HeaderNode>>)
    ensures
        final(out).deep_view() == old(out).deep_view() + header_nodes(items.deep_view()),
{
    let ghost base = out.deep_view();
    let mut i: usize = 0;
    while i < items.len()
        invariant
            i <= items.len(),
            out.deep_view() == base + header_nodes(items.deep_view()).subrange(0, i as int),
        decreases items.len() - i,
    {
        let ghost before = out.deep_view();
        let node = items[i].as_node();
        out.push(node);
        i += 1;
        assert(out.deep_view() =~= before.push(node.deep_view()));
        assert(out.deep_view() =~= base + header_nodes(items.deep_view()).subrange(0, i as int));
    }
    assert(header_nodes(items.deep_view()).subrange(0, i as int) =~= header_nodes(items.deep_view()));
}

fn push_definition_nodes<'a>(out: &mut Vec<NodeRef<'a>>, items: &'a Vec<Rc<DefinitionNode>>)
    ensures
        final(out).deep_view() == old(out).deep_view() + definition_nodes(items.deep_view()),
{
    let ghost base = out.deep_view();
    let mut i: usize = 0;
    while i < items.len()
        invariant
            i <= items.len(),
            out.deep_view() == base + definition_nodes(items.deep_view()).subrange(0, i as int),
        decreases items.len() - i,
    {
        let ghost before = out.deep_view();
        let node = items[i].as_node();
        out.push(node);
        i += 1;
        assert(out.deep_view() =~= before.push(node.deep_view()));
        assert(out.deep_view() =~= base + definition_nodes(items.deep_view()).subrange(0, i as int));
    }
    assert(definition_nodes(items.deep_view()).subrange(0, i as int) =~= definition_nodes(items.deep_view()));
}

fn push_node<'a>(out: &mut Vec<NodeRef<'a>>, node: NodeRef<'a>)
    ensures
        final(out).deep_view() == old(out).deep_view() + seq![node.deep_view()],
{
    let ghost before = out.deep_view();
    out.push(node);
    assert(out.deep_view() =~= before + seq![node.deep_view()]);
}

impl Node for IncludeNode {
    open spec fn node_view(&self) -> NodeView {
        NodeView::Include(self.deep_view())
    }

    fn range(&self) -> (r: Range) {
        self.range
    }

    fn children(&self) -> (r: Vec<NodeRef<'_>>) {
        let out: Vec<NodeRef<'_>> = Vec::new();
        assert(out.deep_view() =~= Seq::<NodeView>::empty());
        out
    }
}

impl Node for CppIncludeNode {
    open spec fn node_view(&self) -> NodeView {
        NodeView::CppInclude(self.deep_view())
    }

    fn range(&self) -> (r: Range) {
        self.range
    }

    fn children(&self) -> (r: Vec<NodeRef<'_>>) {
        let out: Vec<NodeRef<'_>> = Vec::new();
        assert(out.deep_view() =~= Seq::<NodeView>::empty());
        out
    }
}

impl Node for NamespaceNode {
    open spec fn node_view(&self) -> NodeView {
        NodeView::Namespace(self.deep_view())
    }

    fn range(&self) -> (r: Range) {
        self.range
    }

    fn children(&self) -> (r: Vec<NodeRef<'_>>) {
        let mut out: Vec<NodeRef<'_>> = Vec::new();
        assert(out.deep_view() =~= Seq::<NodeView>::empty());
        push_node(&mut out, NodeRef::Identifier(&self.identifier));
        match &self.ext {
            Some(n) => {
                push_node(&mut out, NodeRef::Ext(n));
            },
            None => {},
        }
        assert(out.deep_view() =~= self.deep_view().children());
        out
    }
}

impl Node for IdentifierNode {
    open spec fn node_view(&self) -> NodeView {
        NodeView::Identifier(self.deep_view())
    }

    fn range(&self) -> (r: Range) {
        self.range
    }

    fn children(&self) -> (r: Vec<NodeRef<'_>>) {
        let out: Vec<NodeRef<'_>> = Vec::new();
        assert(out.deep_view() =~= Seq::<NodeView>::empty());
        out
    }
}

impl Node for ConstNode {
    open spec fn node_view(&self) -> NodeView {
        NodeView::Const(self.deep_view())
    }

    fn range(&self) -> (r: Range) {
        self.range
    }

    fn children(&self) -> (r: Vec<NodeRef<'_>>) {
        let mut out: Vec<NodeRef<'_>> = Vec::new();
        assert(out.deep_view() =~= Seq::<NodeView>::empty());
        push_node(&mut out, self.field_type.as_node());
        push_node(&mut out, NodeRef::Identifier(&self.identifier));
        push_node(&mut out, NodeRef::ConstValue(&self.value));
        assert(out.deep_view() =~= self.deep_view().children());
        out
    }
}

impl Node for BaseTypeNode {
    open spec fn node_view(&self) -> NodeView {
        NodeView::BaseType(self.deep_view())
    }

    fn range(&self) -> (r: Range) {
        self.range
    }

    fn children(&self) -> (r: Vec<NodeRef<'_>>) {
        let out: Vec<NodeRef<'_>> = Vec::new();
        assert(out.deep_view() =~= Seq::<NodeView>::empty());
        out
    }
}

impl Node for MapTypeNode {
    open spec fn node_view(&self) -> NodeView {
        NodeView::MapType(self.deep_view())
    }

    fn range(&self) -> (r: Range) {
        self.range
    }

    fn children(&self) -> (r: Vec<NodeRef<'_>>) {
        let mut out: Vec<NodeRef<'_>> = Vec::new();
        assert(out.deep_view() =~= Seq::<NodeView>::empty());
        push_node(&mut out, self.key_type.as_node());
        push_node(&mut out, self.value_type.as_node());
        assert(out.deep_view() =~= self.deep_view().children());
        out
    }
}

impl Node for SetTypeNode {
    open spec fn node_view(&self) -> NodeView {
        NodeView::SetType(self.deep_view())
    }

    fn range(&self) -> (r: Range) {
        self.range
    }

    fn children(&self) -> (r: Vec<NodeRef<'_>>) {
        let mut out: Vec<NodeRef<'_>> = Vec::new();
        assert(out.deep_view() =~= Seq::<NodeView>::empty());
        push_node(&mut out, self.type_node.as_node());
        assert(out.deep_view() =~= self.deep_view().children());
        out
    }
}

impl Node for ListTypeNode {
    open spec fn node_view(&self) -> NodeView {
        NodeView::ListType(self.deep_view())
    }

    fn range(&self) -> (r: Range) {
        self.range
    }

    fn children(&self) -> (r: Vec<NodeRef<'_>>) {
        let mut out: Vec<NodeRef<'_>> = Vec::new();
        assert(out.deep_view() =~= Seq::<NodeView>::empty());
        push_node(&mut out, self.type_node.as_node());
        assert(out.deep_view() =~= self.deep_view().children());
        out
    }
}

impl Node for ConstValueNode {
    open spec fn node_view(&self) -> NodeView {
        NodeView::ConstValue(self.deep_view())
    }

    fn range(&self) -> (r: Range) {
        self.range
    }

    fn children(&self) -> (r: Vec<NodeRef<'_>>) {
        let out: Vec<NodeRef<'_>> = Vec::new();
        assert(out.deep_view() =~= Seq::<NodeView>::empty());
        out
    }
}

impl Node for TypedefNode {
    open spec fn node_view(&self) -> NodeView {
        NodeView::Typedef(self.deep_view())
    }

    fn range(&self) -> (r: Range) {
        self.range
    }

    fn children(&self) -> (r: Vec<NodeRef<'_>>) {
        let mut out: Vec<NodeRef<'_>> = Vec::new();
        assert(out.deep_view() =~= Seq::<NodeView>::empty());
        push_node(&mut out, self.definition_type.as_node());
        push_node(&mut out, NodeRef::Identifier(&self.identifier));
        assert(out.deep_view() =~= self.deep_view().children());
        out
    }
}

impl Node for EnumNode {
    open spec fn node_view(&self) -> NodeView {
        NodeView::Enum(self.deep_view())
    }

    fn range(&self) -> (r: Range) {
        self.range
    }

    fn children(&self) -> (r: Vec<NodeRef<'_>>) {
        let mut out: Vec<NodeRef<'_>> = Vec::new();
        assert(out.deep_view() =~= Seq::<NodeView>::empty());
        push_node(&mut out, NodeRef::Identifier(&self.identifier));
        push_enum_value_nodes(&mut out, &self.values);
        assert(out.deep_view() =~= self.deep_view().children());
        out
    }
}

impl Node for EnumValueNode {
    open spec fn node_view(&self) -> NodeView {
        NodeView::EnumValue(self.deep_view())
    }

    fn range(&self) -> (r: Range) {
        self.range
    }

    fn children(&self) -> (r: Vec<NodeRef<'_>>) {
        let mut out: Vec<NodeRef<'_>> = Vec::new();
        assert(out.deep_view() =~= Seq::<NodeView>::empty());
        match &self.ext {
            Some(n) => {
                push_node(&mut out, NodeRef::Ext(n));
            },
            None => {},
        }
        assert(out.deep_view() =~= self.deep_view().children());
        out
    }
}

impl Node for StructNode {
    open spec fn node_view(&self) -> NodeView {
        NodeView::Struct(self.deep_view())
    }

    fn range(&self) -> (r: Range) {
        self.range
    }

    fn children(&self) -> (r: Vec<NodeRef<'_>>) {
        let mut out: Vec<NodeRef<'_>> = Vec::new();
        assert(out.deep_view() =~= Seq::<NodeView>::empty());
        push_node(&mut out, NodeRef::Identifier(&self.identifier));
        push_field_nodes(&mut out, &self.fields);
        match &self.ext {
            Some(n) => {
                push_node(&mut out, NodeRef::Ext(n));
            },
            None => {},
        }
        assert(out.deep_view() =~= self.deep_view().children());
        out
    }
}

impl Node for FieldNode {
    open spec fn node_view(&self) -> NodeView {
        NodeView::Field(self.deep_view())
    }

    fn range(&self) -> (r: Range) {
        self.range
    }

    fn children(&self) -> (r: Vec<NodeRef<'_>>) {
        let mut out: Vec<NodeRef<'_>> = Vec::new();
        assert(out.deep_view() =~= Seq::<NodeView>::empty());
        match &self.field_id {
            Some(n) => {
                push_node(&mut out, NodeRef::FieldId(n));
            },
            None => {},
        }
        push_node(&mut out, self.field_type.as_node());
        push_node(&mut out, NodeRef::Identifier(&self.identifier));
        match &self.default_value {
            Some(n) => {
                push_node(&mut out, NodeRef::ConstValue(n));
            },
            None => {},
        }
        match &self.ext {
            Some(n) => {
                push_node(&mut out, NodeRef::Ext(n));
            },
            None => {},
        }
        assert(out.deep_view() =~= self.deep_view().children());
        out
    }
}

impl Node for FieldIdNode {
    open spec fn node_view(&self) -> NodeView {
        NodeView::FieldId(self.deep_view())
    }

    fn range(&self) -> (r: Range) {
        self.range
    }

    fn children(&self) -> (r: Vec<NodeRef<'_>>) {
        let out: Vec<NodeRef<'_>> = Vec::new();
        assert(out.deep_view() =~= Seq::<NodeView>::empty());
        out
    }
}

impl Node for UnionNode {
    open spec fn node_view(&self) -> NodeView {
        NodeView::Union(self.deep_view())
    }

    fn range(&self) -> (r: Range) {
        self.range
    }

    fn children(&self) -> (r: Vec<NodeRef<'_>>) {
        let mut out: Vec<NodeRef<'_>> = Vec::new();
        assert(out.deep_view() =~= Seq::<NodeView>::empty());
        push_node(&mut out, NodeRef::Identifier(&self.identifier));
        push_field_nodes(&mut out, &self.fields);
        assert(out.deep_view() =~= self.deep_view().children());
        out
    }
}

impl Node for ExceptionNode {
    open spec fn node_view(&self) -> NodeView {
        NodeView::Exception(self.deep_view())
    }

    fn range(&self) -> (r: Range) {
        self.range
    }

    fn children(&self) -> (r: Vec<NodeRef<'_>>) {
        let mut out: Vec<NodeRef<'_>> = Vec::new();
        assert(out.deep_view() =~= Seq::<NodeView>::empty());
        push_node(&mut out, NodeRef::Identifier(&self.identifier));
        push_field_nodes(&mut out, &self.fields);
        assert(out.deep_view() =~= self.deep_view().children());
        out
    }
}

impl Node for ServiceNode {
    open spec fn node_view(&self) -> NodeView {
        NodeView::Service(self.deep_view())
    }

    fn range(&self) -> (r: Range) {
        self.range
    }

    fn children(&self) -> (r: Vec<NodeRef<'_>>) {
        let mut out: Vec<NodeRef<'_>> = Vec::new();
        assert(out.deep_view() =~= Seq::<NodeView>::empty());
        push_node(&mut out, NodeRef::Identifier(&self.identifier));
        match &self.extends {
            Some(n) => {
                push_node(&mut out, NodeRef::Identifier(n));
            },
            None => {},
        }
        push_function_nodes(&mut out, &self.functions);
        assert(out.deep_view() =~= self.deep_view().children());
        out
    }
}

impl Node for FunctionNode {
    open spec fn node_view(&self) -> NodeView {
        NodeView::Function(self.deep_view())
    }

    fn range(&self) -> (r: Range) {
        self.range
    }

    fn children(&self) -> (r: Vec<NodeRef<'_>>) {
        let mut out: Vec<NodeRef<'_>> = Vec::new();
        assert(out.deep_view() =~= Seq::<NodeView>::empty());
        push_node(&mut out, self.function_type.as_node());
        push_node(&mut out, NodeRef::Identifier(&self.identifier));
        push_field_nodes(&mut out, &self.fields);
        match &self.throws {
            Some(items) => {
                push_field_nodes(&mut out, items);
            },
            None => {},
        }
        match &self.ext {
            Some(n) => {
                push_node(&mut out, NodeRef::Ext(n));
            },
            None => {},
        }
        assert(out.deep_view() =~= self.deep_view().children());
        out
    }
}

impl Node for ExtNode {
    open spec fn node_view(&self) -> NodeView {
        NodeView::Ext(self.deep_view())
    }

    fn range(&self) -> (r: Range) {
        self.range
    }

    fn children(&self) -> (r: Vec<NodeRef<'_>>) {
        let out: Vec<NodeRef<'_>> = Vec::new();
        assert(out.deep_view() =~= Seq::<NodeView>::empty());
        out
    }
}

impl Node for DocumentNode {
    open spec fn node_view(&self) -> NodeView {
        NodeView::Document(self.deep_view())
    }

    fn range(&self) -> (r: Range) {
        self.range
    }

    fn children(&self) -> (r: Vec<NodeRef<'_>>) {
        let mut out: Vec<NodeRef<'_>> = Vec::new();
        assert(out.deep_view() =~= Seq::<NodeView>::empty());
        push_header_nodes(&mut out, &self.headers);
        push_definition_nodes(&mut out, &self.definitions);
        assert(out.deep_view() =~= self.deep_view().children());
        out
    }
}

impl<'a> NodeRef<'a> {
    /// The range of the node.
    pub fn range(&self) -> (r: Range)
        ensures
            r == self.deep_view().range(),
    {
        match self {
            NodeRef::Include(n) => n.range,
            NodeRef::CppInclude(n) => n.range,
            NodeRef::Namespace(n) => n.range,
            NodeRef::Identifier(n) => n.range,
            NodeRef::Const(n) => n.range,
            NodeRef::BaseType(n) => n.range,
            NodeRef::MapType(n) => n.range,
            NodeRef::SetType(n) => n.range,
            NodeRef::ListType(n) => n.range,
            NodeRef::ConstValue(n) => n.range,
            NodeRef::Typedef(n) => n.range,
            NodeRef::Enum(n) => n.range,
            NodeRef::EnumValue(n) => n.range,
            NodeRef::Struct(n) => n.range,
            NodeRef::Field(n) => n.range,
            NodeRef::FieldId(n) => n.range,
            NodeRef::Union(n) => n.range,
            NodeRef::Exception(n) => n.range,
            NodeRef::Service(n) => n.range,
            NodeRef::Function(n) => n.range,
            NodeRef::Ext(n) => n.range,
            NodeRef::Document(n) => n.range,
        }
    }

    /// The children of the node, from left to right.
    pub fn children(&self) -> (r: Vec<NodeRef<'a>>)
        ensures
            r.deep_view() == self.deep_view().children(),
    {
        match self {
            NodeRef::Include(n) => n.children(),
            NodeRef::CppInclude(n) => n.children(),
            NodeRef::Namespace(n) => n.children(),
            NodeRef::Identifier(n) => n.children(),
            NodeRef::Const(n) => n.children(),
            NodeRef::BaseType(n) => n.children(),
            NodeRef::MapType(n) => n.children(),
            NodeRef::SetType(n) => n.children(),
            NodeRef::ListType(n) => n.children(),
            NodeRef::ConstValue(n) => n.children(),
            NodeRef::Typedef(n) => n.children(),
            NodeRef::Enum(n) => n.children(),
            NodeRef::EnumValue(n) => n.children(),
            NodeRef::Struct(n) => n.children(),
            NodeRef::Field(n) => n.children(),
            NodeRef::FieldId(n) => n.children(),
            NodeRef::Union(n) => n.children(),
            NodeRef::Exception(n) => n.children(),
            NodeRef::Service(n) => n.children(),
            NodeRef::Function(n) => n.children(),
            NodeRef::Ext(n) => n.children(),
            NodeRef::Document(n) => n.children(),
        }
    }
}

/// A well-formed type node has its range in order, and is well formed as a
/// node of its own kind.
pub proof fn lemma_field_type_range(t: FieldTypeView)
    requires
        field_type_wf(t),
    ensures
        t.range().wf(),
        t.as_node().wf(),
        t.as_node().range() == t.range(),
{
    match t {
        FieldTypeView::Identifier(n) => {},
        FieldTypeView::BaseType(n) => {},
        FieldTypeView::MapType(n) => {},
        FieldTypeView::SetType(n) => {},
        FieldTypeView::ListType(n) => {},
    }
}

proof fn lemma_child_namespace(n: NamespaceNodeView, i: int)
    requires
        n.wf(),
        0 <= i < n.children().len(),
    ensures
        n.range.encloses(n.children()[i].range()),
        n.children()[i].wf(),
        n.children()[i].range().wf(),
{
    let s0 = seq![NodeView::Identifier(n.identifier)];
    let s1 = optional_node(
        match n.ext {
            Some(n) => Some(NodeView::Ext(n)),
            None => None,
        },
    );
    assert(n.children() == s0 + s1);
    if i < s0.len() {
        assert(n.children()[i] == s0[i]);
    } else {
        assert(n.children()[i] == s1[i - (s0.len())]);
    }
}

proof fn lemma_child_const(n: ConstNodeView, i: int)
    requires
        n.wf(),
        0 <= i < n.children().len(),
    ensures
        n.range.encloses(n.children()[i].range()),
        n.children()[i].wf(),
        n.children()[i].range().wf(),
{
    let s0 = seq![n.field_type.as_node()];
    lemma_field_type_range(n.field_type);
    let s1 = seq![NodeView::Identifier(n.identifier)];
    let s2 = seq![NodeView::ConstValue(n.value)];
    assert(n.children() == s0 + s1 + s2);
    if i < s0.len() {
        assert(n.children()[i] == s0[i]);
    } else if i < s0.len() + s1.len() {
        assert(n.children()[i] == s1[i - (s0.len())]);
    } else {
        assert(n.children()[i] == s2[i - (s0.len() + s1.len())]);
    }
}

proof fn lemma_child_maptype(n: MapTypeNodeView, i: int)
    requires
        n.wf(),
        0 <= i < n.children().len(),
    ensures
        n.range.encloses(n.children()[i].range()),
        n.children()[i].wf(),
        n.children()[i].range().wf(),
{
    lemma_field_type_range(*n.key_type);
    lemma_field_type_range(*n.value_type);
    let s0 = seq![n.key_type.as_node()];
    let s1 = seq![n.value_type.as_node()];
    assert(n.children() == s0 + s1);
    if i < s0.len() {
        assert(n.children()[i] == s0[i]);
    } else {
        assert(n.children()[i] == s1[i - (s0.len())]);
    }
}

proof fn lemma_child_settype(n: SetTypeNodeView, i: int)
    requires
        n.wf(),
        0 <= i < n.children().len(),
    ensures
        n.range.encloses(n.children()[i].range()),
        n.children()[i].wf(),
        n.children()[i].range().wf(),
{
    lemma_field_type_range(*n.type_node);
    let s0 = seq![n.type_node.as_node()];
    assert(n.children() == s0);
    {
        assert(n.children()[i] == s0[i]);
    }
}

proof fn lemma_child_listtype(n: ListTypeNodeView, i: int)
    requires
        n.wf(),
        0 <= i < n.children().len(),
    ensures
        n.range.encloses(n.children()[i].range()),
        n.children()[i].wf(),
        n.children()[i].range().wf(),
{
    lemma_field_type_range(*n.type_node);
    let s0 = seq![n.type_node.as_node()];
    assert(n.children() == s0);
    {
        assert(n.children()[i] == s0[i]);
    }
}

proof fn lemma_child_typedef(n: TypedefNodeView, i: int)
    requires
        n.wf(),
        0 <= i < n.children().len(),
    ensures
        n.range.encloses(n.children()[i].range()),
        n.children()[i].wf(),
        n.children()[i].range().wf(),
{
    let s0 = seq![n.definition_type.as_node()];
    lemma_field_type_range(n.definition_type);
    let s1 = seq![NodeView::Identifier(n.identifier)];
    assert(n.children() == s0 + s1);
    if i < s0.len() {
        assert(n.children()[i] == s0[i]);
    } else {
        assert(n.children()[i] == s1[i - (s0.len())]);
    }
}

proof fn lemma_child_enum(n: EnumNodeView, i: int)
    requires
        n.wf(),
        0 <= i < n.children().len(),
    ensures
        n.range.encloses(n.children()[i].range()),
        n.children()[i].wf(),
        n.children()[i].range().wf(),
{
    let s0 = seq![NodeView::Identifier(n.identifier)];
    let s1 = enum_value_nodes(n.values);
    assert(n.children() == s0 + s1);
    if i < s0.len() {
        assert(n.children()[i] == s0[i]);
    } else {
        assert(n.children()[i] == s1[i - (s0.len())]);
    }
}

proof fn lemma_child_enumvalue(n: EnumValueNodeView, i: int)
    requires
        n.wf(),
        0 <= i < n.children().len(),
    ensures
        n.range.encloses(n.children()[i].range()),
        n.children()[i].wf(),
        n.children()[i].range().wf(),
{
    let s0 = optional_node(
        match n.ext {
            Some(n) => Some(NodeView::Ext(n)),
            None => None,
        },
    );
    assert(n.children() == s0);
    {
        assert(n.children()[i] == s0[i]);
    }
}

proof fn lemma_child_struct(n: StructNodeView, i: int)
    requires
        n.wf(),
        0 <= i < n.children().len(),
    ensures
        n.range.encloses(n.children()[i].range()),
        n.children()[i].wf(),
        n.children()[i].range().wf(),
{
    let s0 = seq![NodeView::Identifier(n.identifier)];
    let s1 = field_nodes(n.fields);
    let s2 = optional_node(
        match n.ext {
            Some(n) => Some(NodeView::Ext(n)),
            None => None,
        },
    );
    assert(n.children() == s0 + s1 + s2);
    if i < s0.len() {
        assert(n.children()[i] == s0[i]);
    } else if i < s0.len() + s1.len() {
        assert(n.children()[i] == s1[i - (s0.len())]);
    } else {
        assert(n.children()[i] == s2[i - (s0.len() + s1.len())]);
    }
}

proof fn lemma_child_field(n: FieldNodeView, i: int)
    requires
        n.wf(),
        0 <= i < n.children().len(),
    ensures
        n.range.encloses(n.children()[i].range()),
        n.children()[i].wf(),
        n.children()[i].range().wf(),
{
    let s0 = optional_node(
        match n.field_id {
            Some(n) => Some(NodeView::FieldId(n)),
            None => None,
        },
    );
    let s1 = seq![n.field_type.as_node()];
    lemma_field_type_range(n.field_type);
    let s2 = seq![NodeView::Identifier(n.identifier)];
    let s3 = optional_node(
        match n.default_value {
            Some(n) => Some(NodeView::ConstValue(n)),
            None => None,
        },
    );
    let s4 = optional_node(
        match n.ext {
            Some(n) => Some(NodeView::Ext(n)),
            None => None,
        },
    );
    assert(n.children() == s0 + s1 + s2 + s3 + s4);
    if i < s0.len() {
        assert(n.children()[i] == s0[i]);
    } else if i < s0.len() + s1.len() {
        assert(n.children()[i] == s1[i - (s0.len())]);
    } else if i < s0.len() + s1.len() + s2.len() {
        assert(n.children()[i] == s2[i - (s0.len() + s1.len())]);
    } else if i < s0.len() + s1.len() + s2.len() + s3.len() {
        assert(n.children()[i] == s3[i - (s0.len() + s1.len() + s2.len())]);
    } else {
        assert(n.children()[i] == s4[i - (s0.len() + s1.len() + s2.len() + s3.len())]);
    }
}

proof fn lemma_child_union(n: UnionNodeView, i: int)
    requires
        n.wf(),
        0 <= i < n.children().len(),
    ensures
        n.range.encloses(n.children()[i].range()),
        n.children()[i].wf(),
        n.children()[i].range().wf(),
{
    let s0 = seq![NodeView::Identifier(n.identifier)];
    let s1 = field_nodes(n.fields);
    assert(n.children() == s0 + s1);
    if i < s0.len() {
        assert(n.children()[i] == s0[i]);
    } else {
        assert(n.children()[i] == s1[i - (s0.len())]);
    }
}

proof fn lemma_child_exception(n: ExceptionNodeView, i: int)
    requires
        n.wf(),
        0 <= i < n.children().len(),
    ensures
        n.range.encloses(n.children()[i].range()),
        n.children()[i].wf(),
        n.children()[i].range().wf(),
{
    let s0 = seq![NodeView::Identifier(n.identifier)];
    let s1 = field_nodes(n.fields);
    assert(n.children() == s0 + s1);
    if i < s0.len() {
        assert(n.children()[i] == s0[i]);
    } else {
        assert(n.children()[i] == s1[i - (s0.len())]);
    }
}

proof fn lemma_child_service(n: ServiceNodeView, i: int)
    requires
        n.wf(),
        0 <= i < n.children().len(),
    ensures
        n.range.encloses(n.children()[i].range()),
        n.children()[i].wf(),
        n.children()[i].range().wf(),
{
    let s0 = seq![NodeView::Identifier(n.identifier)];
    let s1 = optional_node(
        match n.extends {
            Some(n) => Some(NodeView::Identifier(n)),
            None => None,
        },
    );
    let s2 = function_nodes(n.functions);
    assert(n.children() == s0 + s1 + s2);
    if i < s0.len() {
        assert(n.children()[i] == s0[i]);
    } else if i < s0.len() + s1.len() {
        assert(n.children()[i] == s1[i - (s0.len())]);
    } else {
        assert(n.children()[i] == s2[i - (s0.len() + s1.len())]);
    }
}

proof fn lemma_child_function(n: FunctionNodeView, i: int)
    requires
        n.wf(),
        0 <= i < n.children().len(),
    ensures
        n.range.encloses(n.children()[i].range()),
        n.children()[i].wf(),
        n.children()[i].range().wf(),
{
    let s0 = seq![n.function_type.as_node()];
    lemma_field_type_range(n.function_type);
    let s1 = seq![NodeView::Identifier(n.identifier)];
    let s2 = field_nodes(n.fields);
    let s3 = (match n.throws {
        Some(s) => field_nodes(s),
        None => Seq::empty(),
    });
    let s4 = optional_node(
        match n.ext {
            Some(n) => Some(NodeView::Ext(n)),
            None => None,
        },
    );
    assert(n.children() == s0 + s1 + s2 + s3 + s4);
    if i < s0.len() {
        assert(n.children()[i] == s0[i]);
    } else if i < s0.len() + s1.len() {
        assert(n.children()[i] == s1[i - (s0.len())]);
    } else if i < s0.len() + s1.len() + s2.len() {
        assert(n.children()[i] == s2[i - (s0.len() + s1.len())]);
    } else if i < s0.len() + s1.len() + s2.len() + s3.len() {
        assert(n.children()[i] == s3[i - (s0.len() + s1.len() + s2.len())]);
    } else {
        assert(n.children()[i] == s4[i - (s0.len() + s1.len() + s2.len() + s3.len())]);
    }
}

proof fn lemma_child_document(n: DocumentNodeView, i: int)
    requires
        n.wf(),
        0 <= i < n.children().len(),
    ensures
        n.range.encloses(n.children()[i].range()),
        n.children()[i].wf(),
        n.children()[i].range().wf(),
{
    let s0 = header_nodes(n.headers);
    let s1 = definition_nodes(n.definitions);
    assert(n.children() == s0 + s1);
    if i < s0.len() {
        assert(n.children()[i] == s0[i]);
    } else {
        assert(n.children()[i] == s1[i - (s0.len())]);
    }
}

proof fn lemma_child(n: NodeView, i: int)
    requires
        n.wf(),
        0 <= i < n.children().len(),
    ensures
        n.range().encloses(n.children()[i].range()),
        n.children()[i].wf(),
        n.children()[i].range().wf(),
{
    match n {
        NodeView::Include(v) => {},
        NodeView::CppInclude(v) => {},
        NodeView::Namespace(v) => lemma_child_namespace(v, i),
        NodeView::Identifier(v) => {},
        NodeView::Const(v) => lemma_child_const(v, i),
        NodeView::BaseType(v) => {},
        NodeView::MapType(v) => lemma_child_maptype(v, i),
        NodeView::SetType(v) => lemma_child_settype(v, i),
        NodeView::ListType(v) => lemma_child_listtype(v, i),
        NodeView::ConstValue(v) => {},
        NodeView::Typedef(v) => lemma_child_typedef(v, i),
        NodeView::Enum(v) => lemma_child_enum(v, i),
        NodeView::EnumValue(v) => lemma_child_enumvalue(v, i),
        NodeView::Struct(v) => lemma_child_struct(v, i),
        NodeView::Field(v) => lemma_child_field(v, i),
        NodeView::FieldId(v) => {},
        NodeView::Union(v) => lemma_child_union(v, i),
        NodeView::Exception(v) => lemma_child_exception(v, i),
        NodeView::Service(v) => lemma_child_service(v, i),
        NodeView::Function(v) => lemma_child_function(v, i),
        NodeView::Ext(v) => {},
        NodeView::Document(v) => lemma_child_document(v, i),
    }
}

/// Every child of a well-formed node is well formed and lies within the node:
/// the node's range holds the child's start, and ends at or behind its end.
pub proof fn lemma_children_within(n: NodeView, i: int)
    requires
        n.wf(),
        0 <= i < n.children().len(),
    ensures
        n.range().spec_contains(n.children()[i].range().start),
        n.children()[i].range().end.leq(n.range().end),
        n.children()[i].wf(),
{
    let c = n.children()[i];
    assert(n.range().encloses(c.range()) && c.wf() && c.range().wf()) by {
        lemma_child(n, i);
    }
}

/// The first offset from `from` on at which `c` stands in `s`.
pub open spec fn find_char(s: Seq<char>, c: char, from: int) -> Option<int>
    decreases s.len() - from,
{
    if from < 0 || from >= s.len() {
        None
    } else if s[from] == c {
        Some(from)
    } else {
        find_char(s, c, from + 1)
    }
}

/// Where `find_char` finds `c`, it stands there and nowhere between `from`
/// and there; where it finds none, `c` stands nowhere from `from` on.
pub proof fn lemma_find_char(s: Seq<char>, c: char, from: int)
    requires
        0 <= from,
    ensures
        match find_char(s, c, from) {
            Some(i) => from <= i < s.len() && s[i] == c && forall|k: int|
                from <= k < i ==> s[k] != c,
            None => forall|k: int| from <= k < s.len() ==> s[k] != c,
        },
    decreases s.len() - from,
{
    if from < s.len() && s[from] != c {
        lemma_find_char(s, c, from + 1);
    }
}

impl IdentifierNodeView {
    /// The offset of the first dot in the name.
    pub open spec fn dot(self) -> Option<int> {
        find_char(self.name, '.', 0)
    }

    /// `pos` lies on the part of the name that names a namespace: the name
    /// holds a dot, the range holds `pos`, and the column of `pos` is between
    /// the start of the name and its first dot.
    pub open spec fn in_namespace(self, pos: Position) -> bool {
        match self.dot() {
            Some(d) => self.range.spec_contains(pos) && self.range.start.column <= pos.column
                <= self.range.start.column + d,
            None => false,
        }
    }

    /// The position of the first dot, on the line on which the name starts.
    pub open spec fn dot_position(self) -> Position {
        Position {
            line: self.range.start.line,
            column: (self.range.start.column + self.dot().unwrap()) as u32,
        }
    }

    /// The name cut at its first dot: the namespace before the dot, from the
    /// start of the range to the dot, and the rest behind the dot, from the
    /// dot to the end of the range. A name without a dot is all rest.
    pub open spec fn split(self) -> (Option<IdentifierNodeView>, IdentifierNodeView) {
        match self.dot() {
            Some(d) => (
                Some(
                    IdentifierNodeView {
                        range: Range { start: self.range.start, end: self.dot_position() },
                        name: self.name.subrange(0, d),
                    },
                ),
                IdentifierNodeView {
                    range: Range { start: self.dot_position(), end: self.range.end },
                    name: self.name.subrange(d + 1, self.name.len() as int),
                },
            ),
            None => (None, self),
        }
    }

    /// Both parts of a name that fits fit, and the rest is shorter than the
    /// name where there is a dot.
    pub proof fn lemma_split_fits(self)
        requires
            self.fits(),
        ensures
            self.split().1.fits(),
            self.split().0 matches Some(n) ==> n.fits() && self.split().1.name.len()
                < self.name.len(),
    {
        lemma_find_char(self.name, '.', 0);
    }
}

impl Clone for IdentifierNode {
    fn clone(&self) -> (r: IdentifierNode)
        ensures
            r.deep_view() == self.deep_view(),
    {
        IdentifierNode { range: self.range, name: self.name.clone() }
    }
}

fn find_dot(chars: &Vec<char>) -> (r: Option<usize>)
    ensures
        r.is_some() == find_char(chars@, '.', 0).is_some(),
        r.is_some() ==> r.unwrap() == find_char(chars@, '.', 0).unwrap(),
{
    let mut i: usize = 0;
    while i < chars.len()
        invariant
            i <= chars.len(),
            find_char(chars@, '.', i as int) == find_char(chars@, '.', 0),
        decreases chars.len() - i,
    {
        if chars[i] == '.' {
            return Some(i);
        }
        i += 1;
    }
    None
}

impl IdentifierNode {
    /// Whether `pos` lies on the namespace part of the name.
    pub fn position_in_namespace(&self, pos: Position) -> (r: bool)
        ensures
            r == self.deep_view().in_namespace(pos),
    {
        let chars = chars_of(self.name.as_str());
        match find_dot(&chars) {
            Some(d) => {
                self.range.contains(pos) && pos.column >= self.range.start.column && ((pos.column
                    - self.range.start.column) as usize) <= d
            },
            None => false,
        }
    }

    /// Splits the name at its first dot into namespace and rest.
    pub fn split_by_first_dot(&self) -> (r: (Option<IdentifierNode>, IdentifierNode))
        requires
            self.deep_view().fits(),
        ensures
            r.0.deep_view() == self.deep_view().split().0,
            r.1.deep_view() == self.deep_view().split().1,
    {
        let chars = chars_of(self.name.as_str());
        proof {
            lemma_find_char(chars@, '.', 0);
        }
        match find_dot(&chars) {
            Some(d) => {
                let mid = Position {
                    line: self.range.start.line,
                    column: self.range.start.column + (d as u32),
                };
                let namespace = IdentifierNode {
                    range: Range { start: self.range.start, end: mid },
                    name: string_from_chars(chars.as_slice(), 0, d),
                };
                let rest = IdentifierNode {
                    range: Range { start: mid, end: self.range.end },
                    name: string_from_chars(chars.as_slice(), d + 1, chars.len()),
                };
                (Some(namespace), rest)
            },
            None => (None, self.clone()),
        }
    }
}

impl DefinitionNode {
    /// The name that the definition declares, as text.
    pub fn name(&self) -> (r: &str)
        ensures
            r@ == self.deep_view().identifier().name,
    {
        self.identifier().name.as_str()
    }

    /// The name that the definition declares.
    pub fn identifier(&self) -> (r: &IdentifierNode)
        ensures
            r.deep_view() == self.deep_view().identifier(),
    {
        match self {
            DefinitionNode::Const(node) => &node.identifier,
            DefinitionNode::Typedef(node) => &node.identifier,
            DefinitionNode::Enum(node) => &node.identifier,
            DefinitionNode::Struct(node) => &node.identifier,
            DefinitionNode::Union(node) => &node.identifier,
            DefinitionNode::Exception(node) => &node.identifier,
            DefinitionNode::Service(node) => &node.identifier,
        }
    }
}

} // verus!
