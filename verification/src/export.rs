//! The imports of a module and the JSX that its default export returns.
use vstd::prelude::*;
use crate::ast::{Expression, Statement, FunctionDef, ArrowBody, Pattern, Binding, DefaultExport, Item, ImportSpec};
use crate::error::{JsxrsError, ErrorView, unsupported};
use crate::text::{copy_string, str_eq};

verus! {

broadcast use vstd::string::group_string_axioms;

/// The (local name, source) pairs of the default specifiers among `specs`, in order.
pub open spec fn default_pairs(specs: Seq<ImportSpec>, src: Seq<char>) -> Seq<(Seq<char>, Seq<char>)>
    decreases specs.len(),
{
    if specs.len() == 0 {
        Seq::empty()
    } else {
        default_pairs(specs.drop_last(), src) + match specs.last() {
            ImportSpec::Default(l) => seq![(l@, src)],
            ImportSpec::Other => Seq::empty(),
        }
    }
}

/// The (local name, source) pairs of the default imports of `items`, in order.
pub open spec fn imports_of(items: Seq<Item>) -> Seq<(Seq<char>, Seq<char>)>
    decreases items.len(),
{
    if items.len() == 0 {
        Seq::empty()
    } else {
        imports_of(items.drop_last()) + match items.last() {
            Item::Import { src, specifiers } => default_pairs(specifiers@, src@),
            _ => Seq::empty(),
        }
    }
}

/// The source imported under `name`: the last import of that name wins.
pub open spec fn import_source(imports: Seq<(Seq<char>, Seq<char>)>, name: Seq<char>) -> Option<Seq<char>>
    decreases imports.len(),
{
    if imports.len() == 0 {
        None
    } else if imports.last().0 == name {
        Some(imports.last().1)
    } else {
        import_source(imports.drop_last(), name)
    }
}

pub open spec fn pairs_view(v: Seq<(String, String)>) -> Seq<(Seq<char>, Seq<char>)> {
    v.map_values(|p: (String, String)| (p.0@, p.1@))
}

/// The default imports of a module, as (local name, source) pairs.
pub fn collect_imports(items: &Vec<Item>) -> (r: Vec<(String, String)>)
    ensures
        pairs_view(r@) == imports_of(items@),
{
    let mut out: Vec<(String, String)> = Vec::new();
    let mut i: usize = 0;
    while i < items.len()
        invariant
            i <= items.len(),
            pairs_view(out@) == imports_of(items@.take(i as int)),
        decreases items.len() - i,
    {
        assert(items@.take(i + 1).drop_last() =~= items@.take(i as int));
        let ghost before = pairs_view(out@);
        if let Item::Import { src, specifiers } = &items[i] {
            let mut j: usize = 0;
            while j < specifiers.len()
                invariant
                    j <= specifiers.len(),
                    pairs_view(out@) == before + default_pairs(specifiers@.take(j as int), src@),
                decreases specifiers.len() - j,
            {
                let ghost prev = out@;
                assert(specifiers@.take(j + 1).drop_last() =~= specifiers@.take(j as int));
                if let ImportSpec::Default(l) = &specifiers[j] {
                    out.push((copy_string(l), copy_string(src)));
                    assert(pairs_view(out@) =~= pairs_view(prev).push((l@, src@)));
                } else {
                    assert(pairs_view(out@) =~= pairs_view(prev) + Seq::<(Seq<char>, Seq<char>)>::empty());
                }
                j = j + 1;
            }
            assert(specifiers@.take(j as int) =~= specifiers@);
        } else {
            assert(pairs_view(out@) =~= before + Seq::<(Seq<char>, Seq<char>)>::empty());
        }
        i = i + 1;
    }
    assert(items@.take(items.len() as int) =~= items@);
    out
}

/// The source imported under `name`.
pub fn import_path_of<'a>(imports: &'a Vec<(String, String)>, name: &str) -> (r: Option<&'a String>)
    ensures
        match r {
            Some(s) => import_source(pairs_view(imports@), name@) == Some(s@),
            None => import_source(pairs_view(imports@), name@) is None,
        },
{
    let mut i = imports.len();
    assert(pairs_view(imports@).take(i as int) =~= pairs_view(imports@));
    while i > 0
        invariant
            i <= imports.len(),
            import_source(pairs_view(imports@), name@) == import_source(pairs_view(imports@).take(i as int), name@),
        decreases i,
    {
        assert(pairs_view(imports@).take(i as int).drop_last() =~= pairs_view(imports@).take(i - 1));
        if str_eq(imports[i - 1].0.as_str(), name) {
            return Some(&imports[i - 1].1);
        }
        i = i - 1;
    }
    None
}

/// The argument of the first `return` with an argument.
pub open spec fn find_return(stmts: Seq<Statement>) -> Result<Expression, ErrorView>
    decreases stmts.len(),
{
    if stmts.len() == 0 {
        Err(ErrorView::NoDefaultExport)
    } else {
        match stmts[0] {
            Statement::Return(Some(arg)) => Ok(*arg),
            _ => find_return(stmts.drop_first()),
        }
    }
}

/// What a function returns.
pub open spec fn extract_return(f: FunctionDef) -> Result<Expression, ErrorView> {
    match f.body {
        None => Err(ErrorView::NoDefaultExport),
        Some(stmts) => find_return(stmts@),
    }
}

/// What an arrow function or a function expression returns.
pub open spec fn arrow_or_fn_return(e: Expression) -> Result<Expression, ErrorView> {
    match e {
        Expression::Arrow { body, .. } => match body {
            ArrowBody::Expression(b) => Ok(*b),
            ArrowBody::Block(stmts) => find_return(stmts@),
        },
        Expression::Fn { function, .. } => extract_return(function),
        _ => Err(ErrorView::NoDefaultExport),
    }
}

/// The initializer of the first declarator of `decls` that binds `name` and has one.
pub open spec fn first_var_init(decls: Seq<Binding>, name: Seq<char>) -> Option<Expression>
    decreases decls.len(),
{
    if decls.len() == 0 {
        None
    } else {
        match (decls[0].name, decls[0].init) {
            (Pattern::Ident(n), Some(init)) if n@ == name => Some(*init),
            _ => first_var_init(decls.drop_first(), name),
        }
    }
}

/// The initializer of the first variable of the module named `name` that has one.
pub open spec fn module_var_init(items: Seq<Item>, name: Seq<char>) -> Option<Expression>
    decreases items.len(),
{
    if items.len() == 0 {
        None
    } else {
        match items[0] {
            Item::VarDecl(decls) => match first_var_init(decls@, name) {
                Some(e) => Some(e),
                None => module_var_init(items.drop_first(), name),
            },
            _ => module_var_init(items.drop_first(), name),
        }
    }
}

/// The first function declaration of the module named `name`.
pub open spec fn module_fn(items: Seq<Item>, name: Seq<char>) -> Option<FunctionDef>
    decreases items.len(),
{
    if items.len() == 0 {
        None
    } else {
        match items[0] {
            Item::FnDecl { ident, function } if ident@ == name => Some(function),
            _ => module_fn(items.drop_first(), name),
        }
    }
}

/// What the expression of `export default <expr>` renders: an arrow or function
/// returns its JSX, a name refers to a variable or function of the module.
pub open spec fn resolve_default_expr(e: Expression, items: Seq<Item>) -> Result<Expression, ErrorView> {
    match e {
        Expression::Arrow { .. } => arrow_or_fn_return(e),
        Expression::Fn { .. } => arrow_or_fn_return(e),
        Expression::Ident(name) => match module_var_init(items, name@) {
            Some(init) => arrow_or_fn_return(init),
            None => match module_fn(items, name@) {
                Some(f) => extract_return(f),
                None => Err(ErrorView::NoDefaultExport),
            },
        },
        _ => Err(ErrorView::NoDefaultExport),
    }
}

/// The position of the first default export.
pub open spec fn first_default(items: Seq<Item>, from: int) -> Option<int>
    decreases items.len() - from,
{
    if from < 0 || from >= items.len() {
        None
    } else if items[from] is ExportDefaultDecl || items[from] is ExportDefaultExpr {
        Some(from)
    } else {
        first_default(items, from + 1)
    }
}

/// The JSX expression that the module's default export returns.
pub open spec fn default_export_jsx(items: Seq<Item>) -> Result<Expression, ErrorView> {
    match first_default(items, 0) {
        None => Err(ErrorView::NoDefaultExport),
        Some(i) => match items[i] {
            Item::ExportDefaultDecl(DefaultExport::Fn(f)) => extract_return(f),
            Item::ExportDefaultDecl(DefaultExport::Other) => Err(
                ErrorView::Unsupported("non-function default export"@),
            ),
            Item::ExportDefaultExpr(e) => resolve_default_expr(*e, items),
            _ => Err(ErrorView::NoDefaultExport),
        },
    }
}

pub open spec fn expr_res_view(r: Result<&Expression, JsxrsError>) -> Result<Expression, ErrorView> {
    match r {
        Ok(e) => Ok(*e),
        Err(e) => Err(e@),
    }
}

fn find_return_expr(stmts: &Vec<Statement>) -> (r: Result<&Expression, JsxrsError>)
    ensures
        expr_res_view(r) == find_return(stmts@),
{
    let mut i: usize = 0;
    assert(stmts@.skip(0) =~= stmts@);
    while i < stmts.len()
        invariant
            i <= stmts.len(),
            find_return(stmts@) == find_return(stmts@.skip(i as int)),
        decreases stmts.len() - i,
    {
        assert(stmts@.skip(i as int).drop_first() =~= stmts@.skip(i + 1));
        if let Statement::Return(Some(arg)) = &stmts[i] {
            return Ok(&**arg);
        }
        i = i + 1;
    }
    Err(JsxrsError::NoDefaultExport)
}

fn extract_return_from_function(f: &FunctionDef) -> (r: Result<&Expression, JsxrsError>)
    ensures
        expr_res_view(r) == extract_return(*f),
{
    match &f.body {
        None => Err(JsxrsError::NoDefaultExport),
        Some(stmts) => find_return_expr(stmts),
    }
}

fn resolve_arrow_or_fn(e: &Expression) -> (r: Result<&Expression, JsxrsError>)
    ensures
        expr_res_view(r) == arrow_or_fn_return(*e),
{
    match e {
        Expression::Arrow { body, .. } => match body {
            ArrowBody::Expression(b) => Ok(&**b),
            ArrowBody::Block(stmts) => find_return_expr(stmts),
        },
        Expression::Fn { function, .. } => extract_return_from_function(function),
        _ => Err(JsxrsError::NoDefaultExport),
    }
}

fn var_init_in<'a>(decls: &'a Vec<Binding>, name: &str) -> (r: Option<&'a Expression>)
    ensures
        match r {
            Some(e) => first_var_init(decls@, name@) == Some(*e),
            None => first_var_init(decls@, name@) is None,
        },
{
    let mut i: usize = 0;
    assert(decls@.skip(0) =~= decls@);
    while i < decls.len()
        invariant
            i <= decls.len(),
            first_var_init(decls@, name@) == first_var_init(decls@.skip(i as int), name@),
        decreases decls.len() - i,
    {
        assert(decls@.skip(i as int).drop_first() =~= decls@.skip(i + 1));
        if let Pattern::Ident(n) = &decls[i].name {
            if let Some(init) = &decls[i].init {
                if str_eq(n.as_str(), name) {
                    return Some(&**init);
                }
            }
        }
        i = i + 1;
    }
    None
}

fn module_var_init_in<'a>(items: &'a Vec<Item>, name: &str) -> (r: Option<&'a Expression>)
    ensures
        match r {
            Some(e) => module_var_init(items@, name@) == Some(*e),
            None => module_var_init(items@, name@) is None,
        },
{
    let mut i: usize = 0;
    assert(items@.skip(0) =~= items@);
    while i < items.len()
        invariant
            i <= items.len(),
            module_var_init(items@, name@) == module_var_init(items@.skip(i as int), name@),
        decreases items.len() - i,
    {
        assert(items@.skip(i as int).drop_first() =~= items@.skip(i + 1));
        if let Item::VarDecl(decls) = &items[i] {
            if let Some(e) = var_init_in(decls, name) {
                return Some(e);
            }
        }
        i = i + 1;
    }
    None
}

fn module_fn_in<'a>(items: &'a Vec<Item>, name: &str) -> (r: Option<&'a FunctionDef>)
    ensures
        match r {
            Some(f) => module_fn(items@, name@) == Some(*f),
            None => module_fn(items@, name@) is None,
        },
{
    let mut i: usize = 0;
    assert(items@.skip(0) =~= items@);
    while i < items.len()
        invariant
            i <= items.len(),
            module_fn(items@, name@) == module_fn(items@.skip(i as int), name@),
        decreases items.len() - i,
    {
        assert(items@.skip(i as int).drop_first() =~= items@.skip(i + 1));
        if let Item::FnDecl { ident, function } = &items[i] {
            if str_eq(ident.as_str(), name) {
                return Some(function);
            }
        }
        i = i + 1;
    }
    None
}

fn resolve_default<'a>(e: &'a Expression, items: &'a Vec<Item>) -> (r: Result<&'a Expression, JsxrsError>)
    ensures
        expr_res_view(r) == resolve_default_expr(*e, items@),
{
    match e {
        Expression::Arrow { .. } => resolve_arrow_or_fn(e),
        Expression::Fn { .. } => resolve_arrow_or_fn(e),
        Expression::Ident(name) => {
            if let Some(init) = module_var_init_in(items, name.as_str()) {
                return resolve_arrow_or_fn(init);
            }
            match module_fn_in(items, name.as_str()) {
                Some(f) => extract_return_from_function(f),
                None => Err(JsxrsError::NoDefaultExport),
            }
        },
        _ => Err(JsxrsError::NoDefaultExport),
    }
}

/// The JSX expression that the module's default export returns.
pub fn find_default_export_jsx(items: &Vec<Item>) -> (r: Result<&Expression, JsxrsError>)
    ensures
        expr_res_view(r) == default_export_jsx(items@),
{
    let mut i: usize = 0;
    while i < items.len()
        invariant
            i <= items.len(),
            first_default(items@, 0) == first_default(items@, i as int),
        decreases items.len() - i,
    {
        match &items[i] {
            Item::ExportDefaultDecl(d) => {
                return match d {
                    DefaultExport::Fn(f) => extract_return_from_function(f),
                    DefaultExport::Other => Err(unsupported("non-function default export")),
                };
            },
            Item::ExportDefaultExpr(e) => {
                return resolve_default(e, items);
            },
            _ => {},
        }
        i = i + 1;
    }
    Err(JsxrsError::NoDefaultExport)
}

} // verus!
