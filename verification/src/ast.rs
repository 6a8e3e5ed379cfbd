//! The syntax tree that the renderer walks: the parts of an ECMAScript/TypeScript
//! module with JSX that rendering reads. A parser front end builds it; each node
//! that expression evaluation does not support carries the debug text of the
//! source node, for the error message.
use vstd::prelude::*;
use crate::codegen::TsInterface;

verus! {

/// A literal.
pub enum Literal {
    Str(String),
    /// A numeric literal, as the bits of its `f64` value.
    Num(u64),
    Bool(bool),
    Null,
    /// Regular expressions, big integers and the like.
    Other,
}

/// A binary operator; `Other` carries the operator's debug text.
pub enum BinOp {
    LogicalAnd,
    LogicalOr,
    EqEqEq,
    EqEq,
    NotEqEq,
    NotEq,
    Gt,
    GtEq,
    Lt,
    LtEq,
    Add,
    Other(String),
}

/// A unary operator; `Other` carries the operator's debug text.
pub enum UnaryOperator {
    Bang,
    Minus,
    Plus,
    Other(String),
}

/// The property of a member expression.
pub enum MemberProperty {
    Ident(String),
    Computed(Box<Expression>),
    PrivateName,
}

/// A binding pattern.
pub enum Pattern {
    Ident(String),
    Other,
}

/// The callee of a call.
pub enum CallTarget {
    Expression(Box<Expression>),
    /// `super` or `import`
    Other,
}

/// The key of an object literal property.
pub enum PropertyKey {
    Ident(String),
    Str(String),
    Other,
}

/// A property of an object literal.
pub enum ObjProp {
    KeyValue(PropertyKey, Box<Expression>),
    /// Shorthand, getter, method, spread and the like.
    Other,
}

/// The body of an arrow function.
pub enum ArrowBody {
    Expression(Box<Expression>),
    Block(Vec<Statement>),
}

/// A statement.
pub enum Statement {
    Return(Option<Box<Expression>>),
    Other,
}

/// A function; `None` is a declaration without a body.
pub struct FunctionDef {
    pub body: Option<Vec<Statement>>,
}

/// An expression.
pub enum Expression {
    Literal(Literal),
    Ident(String),
    Member(Box<Expression>, MemberProperty),
    Bin(BinOp, Box<Expression>, Box<Expression>),
    Cond(Box<Expression>, Box<Expression>, Box<Expression>),
    Unary(UnaryOperator, Box<Expression>),
    /// A template literal: its raw quasis and its embedded expressions.
    Tpl(Vec<String>, Vec<Expression>),
    Paren(Box<Expression>),
    JsxElement { element: Box<JsxElement>, debug: String },
    JsxFragment { children: Vec<JsxChild>, debug: String },
    Call { callee: CallTarget, args: Vec<Expression>, debug: String },
    Arrow { params: Vec<Pattern>, body: ArrowBody, debug: String },
    Fn { function: FunctionDef, debug: String },
    Object { props: Vec<ObjProp>, debug: String },
    Other { debug: String },
}

/// The object of a JSX member name (`a.b` in `<a.b.c>`).
pub enum JsxObject {
    Ident(String),
    Member(Box<JsxObject>, String),
}

/// The name of a JSX element.
pub enum JsxElementName {
    Ident(String),
    Member(JsxObject, String),
    Namespaced(String, String),
}

/// The name of a JSX attribute.
pub enum JsxAttrName {
    Ident(String),
    Namespaced(String, String),
}

/// The expression of a JSX expression container.
pub enum JsxExpr {
    Expression(Box<Expression>),
    Empty,
}

/// The value of a JSX attribute.
pub enum JsxAttrValue {
    Str(String),
    ExprContainer(JsxExpr),
    /// An element or fragment as the value.
    Other,
}

/// A JSX attribute.
pub struct JsxAttr {
    pub name: JsxAttrName,
    pub value: Option<JsxAttrValue>,
}

/// An attribute or a spread of attributes.
pub enum JsxAttrOrSpread {
    Attr(JsxAttr),
    Spread,
}

/// A child of a JSX element or fragment.
pub enum JsxChild {
    Text(String),
    Element(Box<JsxElement>),
    Fragment(Vec<JsxChild>),
    ExprContainer(JsxExpr),
    Spread,
}

/// A JSX element.
pub struct JsxElement {
    pub name: JsxElementName,
    pub attrs: Vec<JsxAttrOrSpread>,
    pub children: Vec<JsxChild>,
}

/// A variable declarator `name = init`.
pub struct Binding {
    pub name: Pattern,
    pub init: Option<Box<Expression>>,
}

/// A default export declaration.
pub enum DefaultExport {
    Fn(FunctionDef),
    /// A class or an interface.
    Other,
}

/// A specifier of an import: the local name of a default import, or a named or
/// namespace import.
pub enum ImportSpec {
    Default(String),
    Other,
}

/// A top-level item of a module.
pub enum Item {
    /// `import a, { b } from "src"`: the source and the specifiers.
    Import { src: String, specifiers: Vec<ImportSpec> },
    ExportDefaultDecl(DefaultExport),
    ExportDefaultExpr(Box<Expression>),
    /// A `var`/`let`/`const` declaration.
    VarDecl(Vec<Binding>),
    FnDecl { ident: String, function: FunctionDef },
    /// A TypeScript interface declaration.
    TsInterface(TsInterface),
    Other,
}

/// A parsed module.
pub struct Module {
    pub body: Vec<Item>,
}

} // verus!
