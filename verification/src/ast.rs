//! The syntax tree of a Qi source file, as the language features read it.
//! The parser fills it; the features only walk it.

use vstd::prelude::*;

verus! {

/// Byte offsets `[start, end)` of a construct in its source text.
#[derive(Debug, Clone, Copy, PartialEq, Eq, Structural)]
pub struct Span {
    /// First byte.
    pub start: usize,
    /// One past the last byte.
    pub end: usize,
}

/// Built-in types.
#[derive(Debug, Clone, Copy, PartialEq, Eq, Structural)]
pub enum BasicType {
    Integer,
    LongInteger,
    ShortInteger,
    Byte,
    Float,
    Boolean,
    Character,
    Text,
    Void,
    Array,
    Dictionary,
    List,
    SetCollection,
    Pointer,
    Reference,
    MutableReference,
}

/// The kind of a literal value.
#[derive(Debug, Clone, Copy, PartialEq, Eq, Structural)]
pub enum LiteralKind {
    /// An integer literal.
    Integer,
    /// A floating-point literal.
    Float,
    /// A string literal.
    Text,
    /// A character literal.
    Character,
    /// `真` or `假`.
    Boolean,
}

/// A type as written in the source.
#[derive(Debug)]
pub enum TypeNode {
    /// A built-in type.
    Basic(BasicType),
    /// A type named by the user.
    Custom(String),
    /// An array of the element type.
    Array(Box<TypeNode>),
    /// A function type, with its debug rendering.
    Function { parameters: Vec<TypeNode>, return_type: Box<TypeNode>, debug: String },
    /// Any other type, with its debug rendering.
    Other(String),
}

/// A type annotation: the type, and the debug rendering of the whole type.
#[derive(Debug)]
pub struct TypeAnnotation {
    /// The type.
    pub node: TypeNode,
    /// Debug rendering of the type.
    pub debug: String,
}

/// An import statement.
#[derive(Debug, Clone)]
pub struct ImportStatement {
    /// Path segments of the imported module.
    pub module_segments: Vec<String>,
    /// Items imported by name, if listed.
    pub items: Option<Vec<String>>,
    /// Where the statement stands.
    pub span: Span,
}

/// A function or method parameter.
#[derive(Debug)]
pub struct Parameter {
    /// Parameter name.
    pub name: String,
    /// Declared type, if any.
    pub type_annotation: Option<TypeAnnotation>,
    /// Where the parameter stands.
    pub span: Span,
}

/// A function declaration (plain or asynchronous).
#[derive(Debug)]
pub struct FunctionDeclaration {
    /// Function name.
    pub name: String,
    /// Parameters in order.
    pub parameters: Vec<Parameter>,
    /// Declared return type, if any.
    pub return_type: Option<TypeAnnotation>,
    /// Body statements.
    pub body: Vec<AstNode>,
    /// Where the declaration stands.
    pub span: Span,
}

/// A variable declaration.
#[derive(Debug)]
pub struct VariableDeclaration {
    /// Variable name.
    pub name: String,
    /// Declared type, if any.
    pub type_annotation: Option<TypeAnnotation>,
    /// Initial value, if any.
    pub initializer: Option<Box<AstNode>>,
    /// Whether the variable is mutable.
    pub is_mutable: bool,
    /// Where the declaration stands.
    pub span: Span,
}

/// A struct field.
#[derive(Debug)]
pub struct StructField {
    /// Field name.
    pub name: String,
    /// Field type.
    pub type_annotation: TypeAnnotation,
    /// Where the field stands.
    pub span: Span,
}

/// A method declaration.
#[derive(Debug)]
pub struct MethodDeclaration {
    /// Name of the receiver type.
    pub receiver_type: String,
    /// Method name.
    pub method_name: String,
    /// Parameters in order.
    pub parameters: Vec<Parameter>,
    /// Declared return type, if any.
    pub return_type: Option<TypeAnnotation>,
    /// Body statements.
    pub body: Vec<AstNode>,
    /// Where the declaration stands.
    pub span: Span,
}

/// A struct declaration.
#[derive(Debug)]
pub struct StructDeclaration {
    /// Struct name.
    pub name: String,
    /// Fields in order.
    pub fields: Vec<StructField>,
    /// Methods declared with the struct.
    pub methods: Vec<MethodDeclaration>,
    /// Where the declaration stands.
    pub span: Span,
}

/// An enum variant.
#[derive(Debug, Clone)]
pub struct EnumVariant {
    /// Variant name.
    pub name: String,
    /// Where the variant stands.
    pub span: Span,
}

/// An enum declaration.
#[derive(Debug, Clone)]
pub struct EnumDeclaration {
    /// Enum name.
    pub name: String,
    /// Variants in order.
    pub variants: Vec<EnumVariant>,
    /// Where the declaration stands.
    pub span: Span,
}

/// A whole source file.
#[derive(Debug)]
pub struct Program {
    /// Declared package, if any.
    pub package_name: Option<String>,
    /// Import statements in order.
    pub imports: Vec<ImportStatement>,
    /// Top-level statements in order.
    pub statements: Vec<AstNode>,
}

/// A statement or expression.
#[derive(Debug)]
pub enum AstNode {
    /// A whole program.
    Program(Program),
    /// A function declaration.
    FunctionDecl(FunctionDeclaration),
    /// An asynchronous function declaration.
    AsyncFunctionDecl(FunctionDeclaration),
    /// A variable declaration.
    VariableDecl(VariableDeclaration),
    /// A struct declaration.
    StructDecl(StructDeclaration),
    /// An enum declaration.
    EnumDecl(EnumDeclaration),
    /// A method declaration.
    MethodDecl(MethodDeclaration),
    /// A block of statements.
    Block { statements: Vec<AstNode> },
    /// A conditional.
    If { condition: Box<AstNode>, then_branch: Vec<AstNode>, else_branch: Option<Box<AstNode>> },
    /// A while loop.
    While { condition: Box<AstNode>, body: Vec<AstNode> },
    /// A for loop over a range.
    For { variable: String, range: Box<AstNode>, body: Vec<AstNode>, span: Span },
    /// An endless loop.
    Loop { body: Vec<AstNode> },
    /// A return statement.
    Return { value: Option<Box<AstNode>> },
    /// An expression used as a statement.
    ExpressionStmt { expression: Box<AstNode> },
    /// A name.
    Identifier { name: String, span: Span },
    /// A call of a named function.
    FunctionCall { callee: String, arguments: Vec<AstNode>, span: Span },
    /// A method call.
    MethodCall { object: Box<AstNode>, method_name: String, arguments: Vec<AstNode>, span: Span },
    /// A field access.
    FieldAccess { object: Box<AstNode>, field: String, span: Span },
    /// An assignment.
    Assignment { target: Box<AstNode>, value: Box<AstNode> },
    /// A binary operation.
    Binary { left: Box<AstNode>, right: Box<AstNode> },
    /// An array index.
    ArrayAccess { array: Box<AstNode>, index: Box<AstNode> },
    /// An await.
    Await { expression: Box<AstNode> },
    /// A string concatenation.
    StringConcat { left: Box<AstNode>, right: Box<AstNode> },
    /// A struct literal, by its field values.
    StructLiteral { field_values: Vec<AstNode> },
    /// An array literal.
    ArrayLiteral { elements: Vec<AstNode> },
    /// Taking an address.
    AddressOf { expression: Box<AstNode> },
    /// Dereferencing a pointer.
    Dereference { expression: Box<AstNode> },
    /// A literal value.
    Literal { kind: LiteralKind, span: Span },
    /// Anything the language features do not look into.
    Other,
}

/// A parse error, with 1-based line and column where it has them.
#[derive(Debug, Clone)]
pub enum ParseError {
    /// A token that does not fit; the token's debug rendering.
    UnexpectedToken { token: String, line: usize, column: usize },
    /// Another token was expected; debug renderings of both.
    ExpectedToken { expected: String, found: String, line: usize, column: usize },
    /// Invalid syntax with a message.
    InvalidSyntax { message: String, line: usize, column: usize },
    /// An expression that does not end.
    UnterminatedExpression { line: usize, column: usize },
    /// A malformed function declaration.
    InvalidFunctionDeclaration { line: usize, column: usize },
    /// A malformed variable declaration.
    InvalidVariableDeclaration { line: usize, column: usize },
    /// The file ended too early.
    UnexpectedEof,
    /// Any other error with a message.
    General(String),
    /// Parsing failed without detail.
    ParseFailed,
}

/// A function, struct, enum, variable or method named `name`, as a
/// statement declares it directly.
pub open spec fn declares_directly(n: AstNode, name: Seq<char>) -> bool {
    ||| n matches AstNode::FunctionDecl(f) && f.name@ == name
    ||| n matches AstNode::StructDecl(sd) && sd.name@ == name
    ||| n matches AstNode::EnumDecl(e) && e.name@ == name
    ||| n matches AstNode::VariableDecl(v) && v.name@ == name
    ||| n matches AstNode::MethodDecl(m) && m.method_name@ == name
}

/// The span of the declaration a statement makes, for a function, struct,
/// enum, variable or method.
pub open spec fn decl_span(n: AstNode) -> Span {
    match n {
        AstNode::FunctionDecl(f) => f.span,
        AstNode::StructDecl(sd) => sd.span,
        AstNode::EnumDecl(e) => e.span,
        AstNode::VariableDecl(v) => v.span,
        AstNode::MethodDecl(m) => m.span,
        _ => Span { start: 0, end: 0 },
    }
}

} // verus!
