//! The parser front end: a source parsed with swc (`swc_ecma_parser`), and swc's
//! syntax tree turned, node type by node type, into the library's tree of `ast`.
//!
//! Everything here is trusted. The conversions below carry no contract of their
//! own: each matches one swc node type and builds the library node of the same
//! shape, variant for variant, moving the fields across; a node kind that the
//! renderer does not read becomes the `Other` variant of its type. What is claimed
//! is stated once, on `swc_parse_module`.
use vstd::prelude::*;
use swc_common::{sync::Lrc, FileName, SourceMap};
use swc_ecma_parser::{lexer::Lexer, EsSyntax, Parser, StringInput, Syntax, TsSyntax};
use swc_ecma_ast as s;
use crate::ast as m;
use crate::codegen::{TsInterface, TsKeyword, TsMember, TsTypeModel};
use crate::error::{JsxrsError, ErrorView};
use crate::parser::SourceSyntax;
use crate::renderer::module_res_view;

verus! {

#[verifier::external_type_specification]
#[verifier::external_body]
pub struct ExSwcModuleItem(swc_ecma_ast::ModuleItem);

#[verifier::external_type_specification]
#[verifier::external_body]
pub struct ExSwcDecl(swc_ecma_ast::Decl);

#[verifier::external_type_specification]
#[verifier::external_body]
pub struct ExSwcDefaultDecl(swc_ecma_ast::DefaultDecl);

#[verifier::external_type_specification]
#[verifier::external_body]
pub struct ExSwcImportSpecifier(swc_ecma_ast::ImportSpecifier);

#[verifier::external_type_specification]
#[verifier::external_body]
pub struct ExSwcVarDeclarator(swc_ecma_ast::VarDeclarator);

#[verifier::external_type_specification]
#[verifier::external_body]
pub struct ExSwcFunction(swc_ecma_ast::Function);

#[verifier::external_type_specification]
#[verifier::external_body]
pub struct ExSwcFunctionBody(swc_ecma_ast::FunctionBody);

#[verifier::external_type_specification]
#[verifier::external_body]
pub struct ExSwcStmt(swc_ecma_ast::Stmt);

#[verifier::external_type_specification]
#[verifier::external_body]
pub struct ExSwcPat(swc_ecma_ast::Pat);

#[verifier::external_type_specification]
#[verifier::external_body]
pub struct ExSwcLit(swc_ecma_ast::Lit);

#[verifier::external_type_specification]
#[verifier::external_body]
pub struct ExSwcBinaryOp(swc_ecma_ast::BinaryOp);

#[verifier::external_type_specification]
#[verifier::external_body]
pub struct ExSwcUnaryOp(swc_ecma_ast::UnaryOp);

#[verifier::external_type_specification]
#[verifier::external_body]
pub struct ExSwcPropName(swc_ecma_ast::PropName);

#[verifier::external_type_specification]
#[verifier::external_body]
pub struct ExSwcPropOrSpread(swc_ecma_ast::PropOrSpread);

#[verifier::external_type_specification]
#[verifier::external_body]
pub struct ExSwcExpr(swc_ecma_ast::Expr);

#[verifier::external_type_specification]
#[verifier::external_body]
pub struct ExSwcMemberProp(swc_ecma_ast::MemberProp);

#[verifier::external_type_specification]
#[verifier::external_body]
pub struct ExSwcCallee(swc_ecma_ast::Callee);

#[verifier::external_type_specification]
#[verifier::external_body]
pub struct ExSwcExprOrSpread(swc_ecma_ast::ExprOrSpread);

#[verifier::external_type_specification]
#[verifier::external_body]
pub struct ExSwcArrowFunctionBody(swc_ecma_ast::ArrowFunctionBody);

#[verifier::external_type_specification]
#[verifier::external_body]
pub struct ExSwcTplElement(swc_ecma_ast::TplElement);

#[verifier::external_type_specification]
#[verifier::external_body]
pub struct ExSwcJsxElement(swc_ecma_ast::JSXElement);

#[verifier::external_type_specification]
#[verifier::external_body]
pub struct ExSwcJsxElementChild(swc_ecma_ast::JSXElementChild);

#[verifier::external_type_specification]
#[verifier::external_body]
pub struct ExSwcJsxAttrOrSpread(swc_ecma_ast::JSXAttrOrSpread);

#[verifier::external_type_specification]
#[verifier::external_body]
pub struct ExSwcJsxAttrName(swc_ecma_ast::JSXAttrName);

#[verifier::external_type_specification]
#[verifier::external_body]
pub struct ExSwcJsxAttrValue(swc_ecma_ast::JSXAttrValue);

#[verifier::external_type_specification]
#[verifier::external_body]
pub struct ExSwcJsxExpr(swc_ecma_ast::JSXExpr);

#[verifier::external_type_specification]
#[verifier::external_body]
pub struct ExSwcJsxObject(swc_ecma_ast::JSXObject);

#[verifier::external_type_specification]
#[verifier::external_body]
pub struct ExSwcJsxElementName(swc_ecma_ast::JSXElementName);

#[verifier::external_type_specification]
#[verifier::external_body]
pub struct ExSwcTsInterfaceDecl(swc_ecma_ast::TsInterfaceDecl);

#[verifier::external_type_specification]
#[verifier::external_body]
pub struct ExSwcTsTypeElement(swc_ecma_ast::TsTypeElement);

#[verifier::external_type_specification]
#[verifier::external_body]
pub struct ExSwcTsTypeAnn(swc_ecma_ast::TsTypeAnn);

#[verifier::external_type_specification]
#[verifier::external_body]
pub struct ExSwcTsType(swc_ecma_ast::TsType);

#[verifier::external_type_specification]
#[verifier::external_body]
pub struct ExSwcTsKeywordTypeKind(swc_ecma_ast::TsKeywordTypeKind);

#[verifier::external_type_specification]
#[verifier::external_body]
pub struct ExSwcSyntax(swc_ecma_parser::Syntax);

/// What swc's parser, with the conversions of this file, gives for a source under a
/// file name and a syntax.
pub uninterp spec fn swc_module(source: Seq<char>, file_name: Seq<char>, syntax: SourceSyntax) -> Result<m::Module, ErrorView>;

/// swc's syntax configuration for a source syntax: TypeScript with TSX, or
/// ECMAScript with JSX, each with swc's defaults otherwise.
#[verifier::external_body]
fn swc_syntax(syntax: SourceSyntax) -> Syntax {
    match syntax {
        SourceSyntax::TypeScript => Syntax::Typescript(TsSyntax { tsx: true, ..Default::default() }),
        SourceSyntax::EcmaScript => Syntax::Es(EsSyntax { jsx: true, ..Default::default() }),
    }
}

/// Parses `source` as a module with swc (`Parser::parse_module` of
/// `swc_ecma_parser`, on a fresh source map that holds the source under
/// `file_name`), and turns swc's tree into the library's with the conversions of
/// this file; a source that does not parse gives `Parse` with the debug text of
/// swc's error. Claimed: the result depends on the source, the file name and the
/// syntax alone (a fresh source map numbers positions the same way on every call),
/// and is named `swc_module`. Not stated: what swc's grammar accepts and what tree
/// it builds.
#[verifier::external_body]
pub(crate) fn swc_parse_module(source: &str, file_name: &str, syntax: SourceSyntax) -> (r: Result<m::Module, JsxrsError>)
    ensures
        module_res_view(r) == swc_module(source@, file_name@, syntax),
{
    let cm: Lrc<SourceMap> = Default::default();
    let src: bytes_str::BytesStr = source.to_owned().into();
    let fm = cm.new_source_file(FileName::Custom(file_name.into()).into(), src);
    let lexer = Lexer::new(swc_syntax(syntax), Default::default(), StringInput::from(&*fm), None);
    match Parser::new_from(lexer).parse_module() {
        Ok(md) => Ok(m::Module { body: md.body.iter().map(module_item).collect() }),
        Err(e) => Err(JsxrsError::Parse(format!("{e:?}"))),
    }
}

/// A module item: imports, default exports, declarations; any other item is `Other`.
#[verifier::external_body]
fn module_item(it: &s::ModuleItem) -> m::Item {
    match it {
        s::ModuleItem::ModuleDecl(s::ModuleDecl::Import(i)) => m::Item::Import {
            src: i.src.value.to_string_lossy().into_owned(),
            specifiers: i.specifiers.iter().map(import_spec).collect(),
        },
        s::ModuleItem::ModuleDecl(s::ModuleDecl::ExportDefaultDecl(e)) => m::Item::ExportDefaultDecl(default_decl(&e.decl)),
        s::ModuleItem::ModuleDecl(s::ModuleDecl::ExportDefaultExpr(e)) => m::Item::ExportDefaultExpr(boxed_expr(&e.expr)),
        s::ModuleItem::Stmt(s::Stmt::Decl(d)) => decl_item(d),
        _ => m::Item::Other,
    }
}

/// An import specifier: a default import's local name, or `Other`.
#[verifier::external_body]
fn import_spec(sp: &s::ImportSpecifier) -> m::ImportSpec {
    match sp {
        s::ImportSpecifier::Default(d) => m::ImportSpec::Default(d.local.sym.to_string()),
        _ => m::ImportSpec::Other,
    }
}

/// A declaration at the top of a module.
#[verifier::external_body]
fn decl_item(d: &s::Decl) -> m::Item {
    match d {
        s::Decl::Var(v) => m::Item::VarDecl(v.decls.iter().map(var_declarator).collect()),
        s::Decl::Fn(f) => m::Item::FnDecl { ident: f.ident.sym.to_string(), function: function(&f.function) },
        s::Decl::TsInterface(i) => m::Item::TsInterface(ts_interface(i)),
        _ => m::Item::Other,
    }
}

/// A default export declaration: a function, or `Other`.
#[verifier::external_body]
fn default_decl(d: &s::DefaultDecl) -> m::DefaultExport {
    match d {
        s::DefaultDecl::Fn(f) => m::DefaultExport::Fn(function(&f.function)),
        _ => m::DefaultExport::Other,
    }
}

/// A variable declarator.
#[verifier::external_body]
fn var_declarator(d: &s::VarDeclarator) -> m::Binding {
    m::Binding { name: pat(&d.name), init: d.init.as_deref().map(boxed_expr) }
}

/// A function, with its body where it has one.
#[verifier::external_body]
fn function(f: &s::Function) -> m::FunctionDef {
    m::FunctionDef { body: f.body.as_ref().map(function_body) }
}

/// The statements of a function body.
#[verifier::external_body]
fn function_body(b: &s::FunctionBody) -> Vec<m::Statement> {
    b.stmts.iter().map(stmt).collect()
}

/// A statement: a return, or `Other`.
#[verifier::external_body]
fn stmt(st: &s::Stmt) -> m::Statement {
    match st {
        s::Stmt::Return(r) => m::Statement::Return(r.arg.as_deref().map(boxed_expr)),
        _ => m::Statement::Other,
    }
}

/// A binding pattern: an identifier, or `Other`.
#[verifier::external_body]
fn pat(p: &s::Pat) -> m::Pattern {
    match p {
        s::Pat::Ident(b) => m::Pattern::Ident(b.id.sym.to_string()),
        _ => m::Pattern::Other,
    }
}

/// A literal; a number is kept as the bits of its value.
#[verifier::external_body]
fn lit(l: &s::Lit) -> m::Literal {
    match l {
        s::Lit::Str(st) => m::Literal::Str(st.value.to_string_lossy().into_owned()),
        s::Lit::Num(n) => m::Literal::Num(n.value.to_bits()),
        s::Lit::Bool(b) => m::Literal::Bool(b.value),
        s::Lit::Null(_) => m::Literal::Null,
        _ => m::Literal::Other,
    }
}

/// A binary operator: the logical and comparison operators and `+`.
#[verifier::external_body]
fn bin_op(op: &s::BinaryOp) -> m::BinOp {
    match op {
        s::BinaryOp::LogicalAnd => m::BinOp::LogicalAnd,
        s::BinaryOp::LogicalOr => m::BinOp::LogicalOr,
        s::BinaryOp::EqEqEq => m::BinOp::EqEqEq,
        s::BinaryOp::EqEq => m::BinOp::EqEq,
        s::BinaryOp::NotEqEq => m::BinOp::NotEqEq,
        s::BinaryOp::NotEq => m::BinOp::NotEq,
        _ => bin_op_rest(op),
    }
}

/// The other binary operators; one the renderer does not evaluate keeps its debug text.
#[verifier::external_body]
fn bin_op_rest(op: &s::BinaryOp) -> m::BinOp {
    match op {
        s::BinaryOp::Gt => m::BinOp::Gt,
        s::BinaryOp::GtEq => m::BinOp::GtEq,
        s::BinaryOp::Lt => m::BinOp::Lt,
        s::BinaryOp::LtEq => m::BinOp::LtEq,
        s::BinaryOp::Add => m::BinOp::Add,
        other => m::BinOp::Other(format!("{other:?}")),
    }
}

/// A unary operator; one the renderer does not evaluate keeps its debug text.
#[verifier::external_body]
fn unary_op(op: &s::UnaryOp) -> m::UnaryOperator {
    match op {
        s::UnaryOp::Bang => m::UnaryOperator::Bang,
        s::UnaryOp::Minus => m::UnaryOperator::Minus,
        s::UnaryOp::Plus => m::UnaryOperator::Plus,
        other => m::UnaryOperator::Other(format!("{other:?}")),
    }
}

/// The key of an object literal property.
#[verifier::external_body]
fn prop_name(k: &s::PropName) -> m::PropertyKey {
    match k {
        s::PropName::Ident(id) => m::PropertyKey::Ident(id.sym.to_string()),
        s::PropName::Str(st) => m::PropertyKey::Str(st.value.to_string_lossy().into_owned()),
        _ => m::PropertyKey::Other,
    }
}

/// A property of an object literal: a key-value pair, or `Other`.
#[verifier::external_body]
fn obj_prop(p: &s::PropOrSpread) -> m::ObjProp {
    match p {
        s::PropOrSpread::Prop(p) => match p.as_ref() {
            s::Prop::KeyValue(kv) => m::ObjProp::KeyValue(prop_name(&kv.key), boxed_expr(&kv.value)),
            _ => m::ObjProp::Other,
        },
        s::PropOrSpread::Spread(_) => m::ObjProp::Other,
    }
}

/// An expression, boxed.
#[verifier::external_body]
fn boxed_expr(e: &s::Expr) -> Box<m::Expression> {
    Box::new(expr(e))
}

/// A list of expressions.
#[verifier::external_body]
fn exprs(v: &[Box<s::Expr>]) -> Vec<m::Expression> {
    v.iter().map(Box::as_ref).map(expr).collect()
}

/// An expression: literals, names, members and binary operators here, the rest below.
#[verifier::external_body]
fn expr(e: &s::Expr) -> m::Expression {
    match e {
        s::Expr::Lit(l) => m::Expression::Literal(lit(l)),
        s::Expr::Ident(id) => m::Expression::Ident(id.sym.to_string()),
        s::Expr::Member(x) => m::Expression::Member(boxed_expr(&x.obj), member_prop(&x.prop)),
        s::Expr::Bin(b) => m::Expression::Bin(bin_op(&b.op), boxed_expr(&b.left), boxed_expr(&b.right)),
        _ => expr_compound(e),
    }
}

/// Unary operators, conditionals, templates and parentheses.
#[verifier::external_body]
fn expr_compound(e: &s::Expr) -> m::Expression {
    match e {
        s::Expr::Unary(u) => m::Expression::Unary(unary_op(&u.op), boxed_expr(&u.arg)),
        s::Expr::Cond(c) => m::Expression::Cond(boxed_expr(&c.test), boxed_expr(&c.cons), boxed_expr(&c.alt)),
        s::Expr::Tpl(t) => m::Expression::Tpl(t.quasis.iter().map(quasi).collect(), exprs(&t.exprs)),
        s::Expr::Paren(p) => m::Expression::Paren(boxed_expr(&p.expr)),
        _ => expr_jsx(e),
    }
}

/// JSX elements and fragments, with their debug text for the error message.
#[verifier::external_body]
fn expr_jsx(e: &s::Expr) -> m::Expression {
    match e {
        s::Expr::JSXElement(el) => m::Expression::JsxElement { element: Box::new(jsx_element(el)), debug: format!("{e:?}") },
        s::Expr::JSXFragment(f) => m::Expression::JsxFragment { children: jsx_children(&f.children), debug: format!("{e:?}") },
        _ => expr_callable(e),
    }
}

/// Calls and arrow functions, with their debug text for the error message.
#[verifier::external_body]
fn expr_callable(e: &s::Expr) -> m::Expression {
    match e {
        s::Expr::Call(c) => m::Expression::Call { callee: callee(&c.callee), args: c.args.iter().map(arg).collect(), debug: format!("{e:?}") },
        s::Expr::Arrow(a) => m::Expression::Arrow { params: a.params.iter().map(pat).collect(), body: arrow_body(&a.body), debug: format!("{e:?}") },
        _ => expr_other(e),
    }
}

/// Function expressions and object literals; any other expression is `Other`. Each
/// keeps its debug text for the error message.
#[verifier::external_body]
fn expr_other(e: &s::Expr) -> m::Expression {
    let debug = format!("{e:?}");
    match e {
        s::Expr::Fn(f) => m::Expression::Fn { function: function(&f.function), debug },
        s::Expr::Object(o) => m::Expression::Object { props: o.props.iter().map(obj_prop).collect(), debug },
        _ => m::Expression::Other { debug },
    }
}

/// The raw text of a template's quasi.
#[verifier::external_body]
fn quasi(q: &s::TplElement) -> String {
    q.raw.to_string()
}

/// The property of a member expression.
#[verifier::external_body]
fn member_prop(p: &s::MemberProp) -> m::MemberProperty {
    match p {
        s::MemberProp::Ident(id) => m::MemberProperty::Ident(id.sym.to_string()),
        s::MemberProp::Computed(c) => m::MemberProperty::Computed(boxed_expr(&c.expr)),
        s::MemberProp::PrivateName(_) => m::MemberProperty::PrivateName,
    }
}

/// The callee of a call: an expression, or `Other` for `super` and `import`.
#[verifier::external_body]
fn callee(c: &s::Callee) -> m::CallTarget {
    match c {
        s::Callee::Expr(x) => m::CallTarget::Expression(boxed_expr(x)),
        _ => m::CallTarget::Other,
    }
}

/// An argument of a call.
#[verifier::external_body]
fn arg(a: &s::ExprOrSpread) -> m::Expression {
    expr(&a.expr)
}

/// The body of an arrow function.
#[verifier::external_body]
fn arrow_body(b: &s::ArrowFunctionBody) -> m::ArrowBody {
    match b {
        s::ArrowFunctionBody::Expr(x) => m::ArrowBody::Expression(boxed_expr(x)),
        s::ArrowFunctionBody::FunctionBody(fb) => m::ArrowBody::Block(function_body(fb)),
    }
}

/// A JSX element: its name, attributes and children.
#[verifier::external_body]
fn jsx_element(el: &s::JSXElement) -> m::JsxElement {
    m::JsxElement {
        name: jsx_element_name(&el.opening.name),
        attrs: el.opening.attrs.iter().map(jsx_attr).collect(),
        children: jsx_children(&el.children),
    }
}

/// The children of a JSX element or fragment.
#[verifier::external_body]
fn jsx_children(cs: &[s::JSXElementChild]) -> Vec<m::JsxChild> {
    cs.iter().map(jsx_child).collect()
}

/// A child of a JSX element or fragment.
#[verifier::external_body]
fn jsx_child(c: &s::JSXElementChild) -> m::JsxChild {
    match c {
        s::JSXElementChild::JSXText(t) => m::JsxChild::Text(t.value.to_string_lossy().into_owned()),
        s::JSXElementChild::JSXExprContainer(x) => m::JsxChild::ExprContainer(jsx_expr(&x.expr)),
        s::JSXElementChild::JSXSpreadChild(_) => m::JsxChild::Spread,
        s::JSXElementChild::JSXElement(el) => m::JsxChild::Element(Box::new(jsx_element(el))),
        s::JSXElementChild::JSXFragment(f) => m::JsxChild::Fragment(jsx_children(&f.children)),
    }
}

/// An attribute of a JSX element, or a spread of attributes.
#[verifier::external_body]
fn jsx_attr(a: &s::JSXAttrOrSpread) -> m::JsxAttrOrSpread {
    match a {
        s::JSXAttrOrSpread::JSXAttr(a) => m::JsxAttrOrSpread::Attr(m::JsxAttr {
            name: jsx_attr_name(&a.name),
            value: a.value.as_ref().map(jsx_attr_value),
        }),
        s::JSXAttrOrSpread::SpreadElement(_) => m::JsxAttrOrSpread::Spread,
    }
}

/// The name of a JSX attribute.
#[verifier::external_body]
fn jsx_attr_name(n: &s::JSXAttrName) -> m::JsxAttrName {
    match n {
        s::JSXAttrName::Ident(id) => m::JsxAttrName::Ident(id.sym.to_string()),
        s::JSXAttrName::JSXNamespacedName(ns) => m::JsxAttrName::Namespaced(ns.ns.sym.to_string(), ns.name.sym.to_string()),
    }
}

/// The value of a JSX attribute: a string, an expression container, or `Other`.
#[verifier::external_body]
fn jsx_attr_value(v: &s::JSXAttrValue) -> m::JsxAttrValue {
    match v {
        s::JSXAttrValue::Str(st) => m::JsxAttrValue::Str(st.value.to_string_lossy().into_owned()),
        s::JSXAttrValue::JSXExprContainer(c) => m::JsxAttrValue::ExprContainer(jsx_expr(&c.expr)),
        _ => m::JsxAttrValue::Other,
    }
}

/// The expression of a JSX expression container.
#[verifier::external_body]
fn jsx_expr(x: &s::JSXExpr) -> m::JsxExpr {
    match x {
        s::JSXExpr::Expr(e) => m::JsxExpr::Expression(boxed_expr(e)),
        s::JSXExpr::JSXEmptyExpr(_) => m::JsxExpr::Empty,
    }
}

/// The object of a JSX member name.
#[verifier::external_body]
fn jsx_object(o: &s::JSXObject) -> m::JsxObject {
    match o {
        s::JSXObject::Ident(id) => m::JsxObject::Ident(id.sym.to_string()),
        s::JSXObject::JSXMemberExpr(me) => m::JsxObject::Member(Box::new(jsx_object(&me.obj)), me.prop.sym.to_string()),
    }
}

/// The name of a JSX element.
#[verifier::external_body]
fn jsx_element_name(n: &s::JSXElementName) -> m::JsxElementName {
    match n {
        s::JSXElementName::Ident(id) => m::JsxElementName::Ident(id.sym.to_string()),
        s::JSXElementName::JSXMemberExpr(me) => m::JsxElementName::Member(jsx_object(&me.obj), me.prop.sym.to_string()),
        s::JSXElementName::JSXNamespacedName(ns) => m::JsxElementName::Namespaced(ns.ns.sym.to_string(), ns.name.sym.to_string()),
    }
}

/// An interface declaration: its name and members.
#[verifier::external_body]
fn ts_interface(i: &s::TsInterfaceDecl) -> TsInterface {
    TsInterface { name: i.id.sym.to_string(), members: i.body.body.iter().map(ts_member).collect() }
}

/// A member of an interface body: a property signature, or `Other`.
#[verifier::external_body]
fn ts_member(mb: &s::TsTypeElement) -> TsMember {
    match mb {
        s::TsTypeElement::TsPropertySignature(p) => TsMember::Property {
            key: property_key(&p.key),
            type_ann: p.type_ann.as_deref().map(ts_type_ann),
            optional: p.optional,
        },
        _ => TsMember::Other,
    }
}

/// The key of a property signature, where it is an identifier.
#[verifier::external_body]
fn property_key(k: &s::Expr) -> Option<String> {
    match k {
        s::Expr::Ident(id) => Some(id.sym.to_string()),
        _ => None,
    }
}

/// A type annotation.
#[verifier::external_body]
fn ts_type_ann(a: &s::TsTypeAnn) -> TsTypeModel {
    ts_type(&a.type_ann)
}

/// A type: a keyword type, an array type, or `Other`.
#[verifier::external_body]
fn ts_type(t: &s::TsType) -> TsTypeModel {
    match t {
        s::TsType::TsKeywordType(kw) => TsTypeModel::Keyword(ts_keyword(&kw.kind)),
        s::TsType::TsArrayType(arr) => TsTypeModel::Array(Box::new(ts_type(&arr.elem_type))),
        _ => TsTypeModel::Other,
    }
}

/// A keyword type.
#[verifier::external_body]
fn ts_keyword(k: &s::TsKeywordTypeKind) -> TsKeyword {
    match k {
        s::TsKeywordTypeKind::TsStringKeyword => TsKeyword::String,
        s::TsKeywordTypeKind::TsNumberKeyword => TsKeyword::Number,
        s::TsKeywordTypeKind::TsBooleanKeyword => TsKeyword::Boolean,
        s::TsKeywordTypeKind::TsAnyKeyword => TsKeyword::Any,
        s::TsKeywordTypeKind::TsNullKeyword => TsKeyword::Null,
        s::TsKeywordTypeKind::TsUndefinedKeyword => TsKeyword::Undefined,
        _ => TsKeyword::Other,
    }
}

} // verus!
