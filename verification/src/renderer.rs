//! Rendering of a module's default export to body HTML, with the head content
//! and class names collected along the way.
use vstd::prelude::*;
use crate::ast::{
    Expression, BinOp, CallTarget, MemberProperty, ArrowBody, Pattern, JsxElement, JsxElementName, JsxObject, JsxChild,
    JsxExpr, JsxAttrOrSpread, JsxAttrName, JsxAttrValue, Module, Item,
};
use crate::attributes::{spec_attr, render_jsx_attr};
use crate::error::{JsxrsError, ErrorView};
use crate::escape::{escape_html_spec, escape_attr_spec};
use crate::eval::{EvalContext, EvalContextView, spec_eval};
use crate::export::{imports_of, import_source, default_export_jsx};
use crate::head::{HeadContent, HeadTagView, classify, strings_view};
use crate::num::{Oracle, FloatQuery, FloatAnswer, is_float_oracle, answers};
use crate::text::{is_ascii_upper, trim, trim_start, trim_end, str_eq, split_newlines, split_lines, lines_view, lemma_split_nonempty};
use crate::value::{Value, ValueView, truthy, to_text, raw_html, entries_view, insert_entry, insert_field, clone_value};

verus! {

broadcast use vstd::string::group_string_axioms;

/// What rendering a node produces: its HTML, the head elements it collects, and the
/// class names it uses.
pub struct Out {
    pub html: Seq<char>,
    pub head: Seq<Seq<char>>,
    pub classes: Seq<Seq<char>>,
}

pub open spec fn text_out(s: Seq<char>) -> Out {
    Out { html: s, head: Seq::empty(), classes: Seq::empty() }
}

pub open spec fn cat(a: Out, b: Out) -> Out {
    Out { html: a.html + b.html, head: a.head + b.head, classes: a.classes + b.classes }
}

/// `a` followed by `r` where `r` succeeds.
pub open spec fn then_cat(a: Out, r: Result<Out, ErrorView>) -> Result<Out, ErrorView> {
    match r {
        Ok(b) => Ok(cat(a, b)),
        Err(e) => Err(e),
    }
}

/// The component modules that imports resolve to, by import path, each parsed or
/// with the error that loading it gave.
pub type ComponentsView = Seq<(Seq<char>, Result<Module, ErrorView>)>;

/// What the rendering of a tree depends on besides the tree and its scope.
pub struct Env {
    /// A base directory is configured.
    pub has_base_dir: bool,
    pub components: ComponentsView,
    pub fa: Oracle,
}

/// The entry of the first component loaded for `path`.
pub open spec fn component_lookup(c: ComponentsView, path: Seq<char>) -> Option<Result<Module, ErrorView>>
    decreases c.len(),
{
    if c.len() == 0 {
        None
    } else if c[0].0 == path {
        Some(c[0].1)
    } else {
        component_lookup(c.drop_first(), path)
    }
}

/// The elements that HTML writes without a closing tag.
pub open spec fn is_void(tag: Seq<char>) -> bool {
    ||| tag == "area"@ ||| tag == "base"@ ||| tag == "br"@ ||| tag == "col"@ ||| tag == "embed"@
    ||| tag == "hr"@ ||| tag == "img"@ ||| tag == "input"@ ||| tag == "link"@ ||| tag == "meta"@
    ||| tag == "param"@ ||| tag == "source"@ ||| tag == "track"@ ||| tag == "wbr"@
}

pub open spec fn jsx_object_name(o: JsxObject) -> Seq<char>
    decreases o,
{
    match o {
        JsxObject::Ident(id) => id@,
        JsxObject::Member(obj, prop) => jsx_object_name(*obj) + "."@ + prop@,
    }
}

/// The tag name of an element: `name`, `a.b.c` or `ns:name`.
pub open spec fn element_name(n: JsxElementName) -> Seq<char> {
    match n {
        JsxElementName::Ident(id) => id@,
        JsxElementName::Member(obj, prop) => jsx_object_name(obj) + "."@ + prop@,
        JsxElementName::Namespaced(ns, name) => ns@ + ":"@ + name@,
    }
}

/// The trimmed line `i` of `n` lines: the first trimmed at its end, the last at its
/// start, the others at both.
pub open spec fn trim_line(l: Seq<char>, i: int, n: int) -> Seq<char> {
    if i == 0 {
        trim_end(l)
    } else if i == n - 1 {
        trim_start(l)
    } else {
        trim(l)
    }
}

/// The concatenation of the trimmed lines `0..k` of `lines`.
pub open spec fn joined_trimmed(lines: Seq<Seq<char>>, k: int) -> Seq<char>
    decreases k,
{
    if k <= 0 {
        Seq::empty()
    } else {
        joined_trimmed(lines, k - 1) + trim_line(lines[k - 1], k - 1, lines.len() as int)
    }
}

/// JSX text as React renders it: one line is kept as it is; lines around line breaks
/// lose the whitespace next to the breaks and are joined.
pub open spec fn normalize_text(raw: Seq<char>) -> Seq<char> {
    let lines = split_newlines(raw);
    if lines.len() == 1 {
        raw
    } else {
        joined_trimmed(lines, lines.len() as int)
    }
}

/// `s` holds no line feed.
pub open spec fn has_no_newline(s: Seq<char>) -> bool {
    forall|i: int| 0 <= i < s.len() ==> s[i] != '\n'
}

proof fn lemma_trim_start_keeps(s: Seq<char>)
    requires
        has_no_newline(s),
    ensures
        has_no_newline(trim_start(s)),
    decreases s.len(),
{
    if s.len() > 0 && crate::text::is_ws(s[0]) {
        assert forall|i: int| 0 <= i < s.drop_first().len() implies s.drop_first()[i] != '\n' by {
            assert(s.drop_first()[i] == s[i + 1]);
        }
        lemma_trim_start_keeps(s.drop_first());
    }
}

proof fn lemma_trim_end_keeps(s: Seq<char>)
    requires
        has_no_newline(s),
    ensures
        has_no_newline(trim_end(s)),
    decreases s.len(),
{
    if s.len() > 0 && crate::text::is_ws(s.last()) {
        assert forall|i: int| 0 <= i < s.drop_last().len() implies s.drop_last()[i] != '\n' by {
            assert(s.drop_last()[i] == s[i]);
        }
        lemma_trim_end_keeps(s.drop_last());
    }
}

proof fn lemma_split_pieces_have_no_newline(s: Seq<char>)
    ensures
        forall|j: int| 0 <= j < split_newlines(s).len() ==> has_no_newline(#[trigger] split_newlines(s)[j]),
    decreases s.len(),
{
    lemma_split_nonempty(s);
    if s.len() > 0 {
        let p = split_newlines(s.drop_last());
        lemma_split_pieces_have_no_newline(s.drop_last());
        lemma_split_nonempty(s.drop_last());
        if s.last() != '\n' {
            let l = p.last().push(s.last());
            assert(has_no_newline(p[p.len() - 1]));
            assert forall|i: int| 0 <= i < l.len() implies l[i] != '\n' by {
                if i < l.len() - 1 {
                    assert(l[i] == p[p.len() - 1][i]);
                }
            }
            assert forall|j: int| 0 <= j < split_newlines(s).len() implies has_no_newline(#[trigger] split_newlines(s)[j]) by {
                if j < p.len() - 1 {
                    assert(split_newlines(s)[j] == p[j]);
                }
            }
        } else {
            assert forall|j: int| 0 <= j < split_newlines(s).len() implies has_no_newline(#[trigger] split_newlines(s)[j]) by {
                if j < p.len() {
                    assert(split_newlines(s)[j] == p[j]);
                }
            }
        }
    }
}

proof fn lemma_newline_splits(s: Seq<char>, i: int)
    requires
        0 <= i < s.len(),
        s[i] == '\n',
    ensures
        split_newlines(s).len() >= 2,
    decreases s.len(),
{
    lemma_split_nonempty(s.drop_last());
    if s.last() != '\n' {
        assert(s.drop_last()[i] == s[i]);
        lemma_newline_splits(s.drop_last(), i);
    }
}

proof fn lemma_joined_has_no_newline(lines: Seq<Seq<char>>, k: int)
    requires
        0 <= k <= lines.len(),
        forall|j: int| 0 <= j < lines.len() ==> has_no_newline(#[trigger] lines[j]),
    ensures
        has_no_newline(joined_trimmed(lines, k)),
    decreases k,
{
    if k > 0 {
        lemma_joined_has_no_newline(lines, k - 1);
        let l = lines[k - 1];
        lemma_trim_start_keeps(l);
        lemma_trim_end_keeps(l);
        lemma_trim_end_keeps(trim_start(l));
        let a = joined_trimmed(lines, k - 1);
        let b = trim_line(l, k - 1, lines.len() as int);
        assert forall|i: int| 0 <= i < (a + b).len() implies (a + b)[i] != '\n' by {
            if i >= a.len() {
                assert((a + b)[i] == b[i - a.len()]);
            }
        }
    }
}

/// JSX text never keeps a line break: text on one line has none, and text over several
/// lines is joined without them.
pub proof fn normalized_text_has_no_line_breaks(raw: Seq<char>)
    ensures
        has_no_newline(normalize_text(raw)),
{
    let lines = split_newlines(raw);
    if lines.len() == 1 {
        assert forall|i: int| 0 <= i < raw.len() implies raw[i] != '\n' by {
            if raw[i] == '\n' {
                lemma_newline_splits(raw, i);
            }
        }
    } else {
        lemma_split_pieces_have_no_newline(raw);
        lemma_joined_has_no_newline(lines, lines.len() as int);
    }
}

/// The props that the attributes `attrs[..n]` give a component: a bare attribute is
/// `true`, a string is itself, an expression its value, an empty expression `null`;
/// spreads, namespaced names and element values are skipped.
pub open spec fn component_props(attrs: Seq<JsxAttrOrSpread>, n: int, ctx: EvalContextView, fa: Oracle) -> Result<Seq<(Seq<char>, ValueView)>, ErrorView>
    decreases n,
{
    if n <= 0 {
        Ok(Seq::empty())
    } else {
        match component_props(attrs, n - 1, ctx, fa) {
            Err(e) => Err(e),
            Ok(es) => match attrs[n - 1] {
                JsxAttrOrSpread::Attr(a) => match a.name {
                    JsxAttrName::Ident(name) => match a.value {
                        None => Ok(insert_entry(es, name@, ValueView::Bool(true))),
                        Some(JsxAttrValue::Str(s)) => Ok(insert_entry(es, name@, ValueView::Str(s@))),
                        Some(JsxAttrValue::ExprContainer(JsxExpr::Expression(e))) => match spec_eval(*e, ctx, fa) {
                            Err(err) => Err(err),
                            Ok(v) => Ok(insert_entry(es, name@, v)),
                        },
                        Some(JsxAttrValue::ExprContainer(JsxExpr::Empty)) => Ok(insert_entry(es, name@, ValueView::Null)),
                        Some(JsxAttrValue::Other) => Ok(es),
                    },
                    JsxAttrName::Namespaced(..) => Ok(es),
                },
                JsxAttrOrSpread::Spread => Ok(es),
            },
        }
    }
}

/// The HTML of one rendered attribute: ` name` or ` name="value"` with the value escaped.
pub open spec fn attr_text(a: (Seq<char>, Option<Seq<char>>)) -> Seq<char> {
    match a.1 {
        None => " "@ + a.0,
        Some(v) => " "@ + a.0 + "=\""@ + escape_attr_spec(v) + "\""@,
    }
}

/// The class name that a rendered attribute contributes.
pub open spec fn attr_classes(a: (Seq<char>, Option<Seq<char>>)) -> Seq<Seq<char>> {
    match a.1 {
        Some(v) if a.0 == "class"@ => seq![v],
        _ => Seq::empty(),
    }
}

/// The HTML of the attributes `attrs[..n]` and the class names among them.
pub open spec fn attrs_out(attrs: Seq<JsxAttrOrSpread>, n: int, ctx: EvalContextView, fa: Oracle) -> Result<Out, ErrorView>
    decreases n,
{
    if n <= 0 {
        Ok(text_out(Seq::empty()))
    } else {
        match attrs_out(attrs, n - 1, ctx, fa) {
            Err(e) => Err(e),
            Ok(o) => match spec_attr(attrs[n - 1], ctx, fa) {
                Err(e) => Err(e),
                Ok(None) => Ok(o),
                Ok(Some(a)) => Ok(Out { html: o.html + attr_text(a), head: o.head, classes: o.classes + attr_classes(a) }),
            },
        }
    }
}

/// The parameter name and the body of a `map` callback: an arrow function (in any
/// number of parentheses) with a simple first parameter and an expression body.
pub open spec fn map_callback(e: Expression) -> Result<(Seq<char>, Expression), ErrorView>
    decreases e,
{
    match e {
        Expression::Arrow { params, body, .. } => {
            if params.len() == 0 || !(params@[0] is Ident) {
                Err(ErrorView::Unsupported("only simple parameter names in map callbacks"@))
            } else {
                match body {
                    ArrowBody::Expression(b) => Ok((params@[0]->Ident_0@, *b)),
                    ArrowBody::Block(_) => Err(ErrorView::Unsupported("only expression bodies in map callbacks"@)),
                }
            }
        },
        Expression::Paren(p) => map_callback(*p),
        _ => Err(ErrorView::Unsupported("only arrow function callbacks in map()"@)),
    }
}

pub proof fn lemma_map_callback_smaller(e: Expression)
    ensures
        map_callback(e) matches Ok((_, b)) ==> decreases_to!(e => b),
    decreases e,
{
    match e {
        Expression::Paren(p) => {
            lemma_map_callback_smaller(*p);
        },
        _ => {},
    }
}

/// A call `obj.map(callback)`: `Ok(None)` where the call is not a `map` call, otherwise
/// the value of `obj` with the callback's parameter and body.
pub open spec fn map_call(callee: CallTarget, args: Seq<Expression>, ctx: EvalContextView, fa: Oracle) -> Result<Option<(ValueView, Seq<char>, Expression)>, ErrorView> {
    match callee {
        CallTarget::Expression(c) => match *c {
            Expression::Member(obj, MemberProperty::Ident(m)) if m@ == "map"@ => match spec_eval(*obj, ctx, fa) {
                Err(e) => Err(e),
                Ok(arr) => if args.len() == 0 {
                    Err(ErrorView::Unsupported("map() requires a callback argument"@))
                } else {
                    match map_callback(args[0]) {
                        Err(e) => Err(e),
                        Ok((p, b)) => Ok(Some((arr, p, b))),
                    }
                },
            },
            _ => Ok(None),
        },
        CallTarget::Other => Ok(None),
    }
}

/// The text of a value as a child: raw HTML for `{ "__html": ... }`, escaped text otherwise.
pub open spec fn value_html(fa: Oracle, v: ValueView) -> Seq<char> {
    match raw_html(v) {
        Some(r) => r,
        None => escape_html_spec(to_text(fa, v)),
    }
}

/// What props and expressions put into the body cannot inject markup: the text of a
/// value, and of a JSX text child, renders without `<` or `>`; only an explicit
/// `{ "__html": ... }` object is written raw.
pub proof fn child_text_cannot_inject_markup(fa: Oracle, v: ValueView, t: Seq<char>)
    ensures
        raw_html(v) is None ==> forall|i: int|
            0 <= i < value_html(fa, v).len() ==> #[trigger] value_html(fa, v)[i] != '<' && value_html(fa, v)[i] != '>',
        forall|i: int|
            0 <= i < escape_html_spec(normalize_text(t)).len() ==> #[trigger] escape_html_spec(normalize_text(t))[i] != '<'
                && escape_html_spec(normalize_text(t))[i] != '>',
{
    crate::escape::escaped_html_has_no_markup(to_text(fa, v));
    crate::escape::escaped_html_has_no_markup(normalize_text(t));
}

pub open spec fn scope(props: ValueView) -> EvalContextView {
    EvalContextView { props, locals: Seq::empty() }
}

pub open spec fn with_local(ctx: EvalContextView, name: Seq<char>, v: ValueView) -> EvalContextView {
    EvalContextView { props: ctx.props, locals: ctx.locals.push((name, v)) }
}

/// The body HTML of a module rendered with `props`.
pub open spec fn s_module(items: Seq<Item>, props: ValueView, env: Env, fuel: nat) -> Result<Out, ErrorView>
    decreases fuel, 1nat, items, 0nat,
{
    match default_export_jsx(items) {
        Err(e) => Err(e),
        Ok(jsx) => s_expr(jsx, scope(props), imports_of(items), env, fuel),
    }
}

/// `render_expr`: an element, a fragment, a parenthesised expression, or the value of an expression.
pub open spec fn s_expr(e: Expression, ctx: EvalContextView, imports: Seq<(Seq<char>, Seq<char>)>, env: Env, fuel: nat) -> Result<Out, ErrorView>
    decreases fuel, 0nat, e, 0nat,
{
    match e {
        Expression::JsxElement { element, .. } => s_element(*element, ctx, imports, env, fuel),
        Expression::JsxFragment { children, .. } => s_children(children@, ctx, imports, env, fuel),
        Expression::Paren(p) => s_expr(*p, ctx, imports, env, fuel),
        _ => match spec_eval(e, ctx, env.fa) {
            Err(err) => Err(err),
            Ok(v) => Ok(text_out(value_html(env.fa, v))),
        },
    }
}

/// `render_element`: `<Head>`, a component (a capitalised name), or an HTML tag.
pub open spec fn s_element(el: JsxElement, ctx: EvalContextView, imports: Seq<(Seq<char>, Seq<char>)>, env: Env, fuel: nat) -> Result<Out, ErrorView>
    decreases fuel, 0nat, el, 0nat,
{
    let tag = element_name(el.name);
    if tag == "Head"@ {
        s_head_children(el.children@, ctx, imports, env, fuel)
    } else if tag.len() > 0 && is_ascii_upper(tag[0]) {
        match import_source(imports, tag) {
            None => Err(ErrorView::ImportNotFound(tag)),
            Some(path) => if !env.has_base_dir {
                Err(ErrorView::BaseDirRequired)
            } else {
                match component_lookup(env.components, path) {
                    None => Err(ErrorView::ImportNotFound(path)),
                    Some(Err(e)) => Err(e),
                    Some(Ok(module)) => match component_props(el.attrs@, el.attrs@.len() as int, ctx, env.fa) {
                        Err(e) => Err(e),
                        Ok(props) => if fuel == 0 {
                            Err(ErrorView::Unsupported("component nesting too deep"@))
                        } else {
                            s_module(module.body@, ValueView::Object(props), env, (fuel - 1) as nat)
                        },
                    },
                }
            },
        }
    } else {
        match attrs_out(el.attrs@, el.attrs@.len() as int, ctx, env.fa) {
            Err(e) => Err(e),
            Ok(a) => {
                let open = "<"@ + tag + a.html + ">"@;
                if is_void(tag) {
                    Ok(Out { html: open, head: Seq::empty(), classes: a.classes })
                } else {
                    match s_children(el.children@, ctx, imports, env, fuel) {
                        Err(e) => Err(e),
                        Ok(c) => Ok(Out {
                            html: open + c.html + "</"@ + tag + ">"@,
                            head: c.head,
                            classes: a.classes + c.classes,
                        }),
                    }
                }
            },
        }
    }
}

/// The children of an element or fragment, in order.
pub open spec fn s_children(cs: Seq<JsxChild>, ctx: EvalContextView, imports: Seq<(Seq<char>, Seq<char>)>, env: Env, fuel: nat) -> Result<Out, ErrorView>
    decreases fuel, 0nat, cs, 0nat,
{
    if cs.len() == 0 {
        Ok(text_out(Seq::empty()))
    } else {
        match s_child(cs[0], ctx, imports, env, fuel) {
            Err(e) => Err(e),
            Ok(a) => then_cat(a, s_children(cs.drop_first(), ctx, imports, env, fuel)),
        }
    }
}

/// The children of `<Head>`: each non-empty child HTML becomes a head element; `<Head>`
/// itself renders nothing.
pub open spec fn s_head_children(cs: Seq<JsxChild>, ctx: EvalContextView, imports: Seq<(Seq<char>, Seq<char>)>, env: Env, fuel: nat) -> Result<Out, ErrorView>
    decreases fuel, 0nat, cs, 0nat,
{
    if cs.len() == 0 {
        Ok(text_out(Seq::empty()))
    } else {
        match s_child(cs[0], ctx, imports, env, fuel) {
            Err(e) => Err(e),
            Ok(a) => then_cat(
                Out {
                    html: Seq::empty(),
                    head: if a.html.len() > 0 { a.head.push(a.html) } else { a.head },
                    classes: a.classes,
                },
                s_head_children(cs.drop_first(), ctx, imports, env, fuel),
            ),
        }
    }
}

/// One child: escaped normalised text, an element, a fragment, or an expression.
pub open spec fn s_child(c: JsxChild, ctx: EvalContextView, imports: Seq<(Seq<char>, Seq<char>)>, env: Env, fuel: nat) -> Result<Out, ErrorView>
    decreases fuel, 0nat, c, 0nat,
{
    match c {
        JsxChild::Text(t) => Ok(text_out(escape_html_spec(normalize_text(t@)))),
        JsxChild::Element(el) => s_element(*el, ctx, imports, env, fuel),
        JsxChild::Fragment(cs) => s_children(cs@, ctx, imports, env, fuel),
        JsxChild::ExprContainer(JsxExpr::Expression(e)) => s_jsx(*e, ctx, imports, env, fuel),
        JsxChild::ExprContainer(JsxExpr::Empty) => Ok(text_out(Seq::empty())),
        JsxChild::Spread => Ok(text_out(Seq::empty())),
    }
}

/// An expression in a child position: conditionals and `&&`/`||` choose what to render,
/// `array.map(callback)` renders the callback's body for each item, anything else is
/// the escaped text of its value, or the raw HTML of a `{ "__html": ... }` object.
pub open spec fn s_jsx(e: Expression, ctx: EvalContextView, imports: Seq<(Seq<char>, Seq<char>)>, env: Env, fuel: nat) -> Result<Out, ErrorView>
    decreases fuel, 0nat, e, 0nat,
{
    match e {
        Expression::JsxElement { element, .. } => s_element(*element, ctx, imports, env, fuel),
        Expression::JsxFragment { children, .. } => s_children(children@, ctx, imports, env, fuel),
        Expression::Cond(t, c, a) => match spec_eval(*t, ctx, env.fa) {
            Err(err) => Err(err),
            Ok(tv) => if truthy(env.fa, tv) {
                s_jsx(*c, ctx, imports, env, fuel)
            } else {
                s_jsx(*a, ctx, imports, env, fuel)
            },
        },
        Expression::Bin(BinOp::LogicalAnd, l, r) => match spec_eval(*l, ctx, env.fa) {
            Err(err) => Err(err),
            Ok(lv) => if !truthy(env.fa, lv) {
                Ok(text_out(Seq::empty()))
            } else {
                s_jsx(*r, ctx, imports, env, fuel)
            },
        },
        Expression::Bin(BinOp::LogicalOr, l, r) => match spec_eval(*l, ctx, env.fa) {
            Err(err) => Err(err),
            Ok(lv) => if truthy(env.fa, lv) {
                Ok(text_out(escape_html_spec(to_text(env.fa, lv))))
            } else {
                s_jsx(*r, ctx, imports, env, fuel)
            },
        },
        Expression::Call { callee, args, .. } => match map_call(callee, args@, ctx, env.fa) {
            Err(err) => Err(err),
            Ok(Some((arr, param, _))) => match arr {
                ValueView::Array(items) => s_map(args@, items, 0, param, ctx, imports, env, fuel),
                _ => Err(ErrorView::Unsupported("map() on non-array"@)),
            },
            Ok(None) => match spec_eval(e, ctx, env.fa) {
                Err(err) => Err(err),
                Ok(v) => Ok(text_out(value_html(env.fa, v))),
            },
        },
        _ => match spec_eval(e, ctx, env.fa) {
            Err(err) => Err(err),
            Ok(v) => Ok(text_out(value_html(env.fa, v))),
        },
    }
}

/// The `map` callback's body rendered for `items[i..]`, each with the parameter bound to the item.
pub open spec fn s_map(
    args: Seq<Expression>,
    items: Seq<ValueView>,
    i: int,
    param: Seq<char>,
    ctx: EvalContextView,
    imports: Seq<(Seq<char>, Seq<char>)>,
    env: Env,
    fuel: nat,
) -> Result<Out, ErrorView>
    decreases fuel, 0nat, args, items.len() - i,
{
    if i < 0 || i >= items.len() || args.len() == 0 {
        Ok(text_out(Seq::empty()))
    } else {
        match map_callback(args[0]) {
            Err(e) => Err(e),
            Ok((_, body)) => {
                proof { lemma_map_callback_smaller(args[0]); }
                match s_expr(body, with_local(ctx, param, items[i]), imports, env, fuel) {
                    Err(e) => Err(e),
                    Ok(a) => then_cat(a, s_map(args, items, i + 1, param, ctx, imports, env, fuel)),
                }
            },
        }
    }
}

proof fn lemma_head_children_leave_no_html(cs: Seq<JsxChild>, ctx: EvalContextView, imports: Seq<(Seq<char>, Seq<char>)>, env: Env, fuel: nat)
    ensures
        s_head_children(cs, ctx, imports, env, fuel) matches Ok(o) ==> o.html.len() == 0,
    decreases cs.len(),
{
    if cs.len() > 0 {
        lemma_head_children_leave_no_html(cs.drop_first(), ctx, imports, env, fuel);
    }
}

/// `<Head>` renders nothing where it stands: what its children render goes to the
/// head, each non-empty piece as one head element.
pub proof fn head_renders_nothing_in_place(el: JsxElement, ctx: EvalContextView, imports: Seq<(Seq<char>, Seq<char>)>, env: Env, fuel: nat)
    requires
        element_name(el.name) == "Head"@,
    ensures
        s_element(el, ctx, imports, env, fuel) matches Ok(o) ==> o.html.len() == 0,
{
    lemma_head_children_leave_no_html(el.children@, ctx, imports, env, fuel);
}

/// In a child position `c ? x : y` renders the branch that the truth of `c` picks;
/// `a && x` renders nothing where `a` is falsy (`0`, `null`, `""`, `false`) and `x`
/// otherwise; `a || x` renders the escaped text of `a` where it is truthy and `x`
/// otherwise; an error in the condition is the result.
pub proof fn conditional_children_choose_a_branch(
    t: Expression,
    x: Expression,
    y: Expression,
    ctx: EvalContextView,
    imports: Seq<(Seq<char>, Seq<char>)>,
    env: Env,
    fuel: nat,
)
    ensures
        s_jsx(Expression::Cond(Box::new(t), Box::new(x), Box::new(y)), ctx, imports, env, fuel) == match spec_eval(t, ctx, env.fa) {
            Err(e) => Err(e),
            Ok(tv) => if truthy(env.fa, tv) { s_jsx(x, ctx, imports, env, fuel) } else { s_jsx(y, ctx, imports, env, fuel) },
        },
        s_jsx(Expression::Bin(BinOp::LogicalAnd, Box::new(t), Box::new(x)), ctx, imports, env, fuel) == match spec_eval(t, ctx, env.fa) {
            Err(e) => Err(e),
            Ok(tv) => if truthy(env.fa, tv) { s_jsx(x, ctx, imports, env, fuel) } else { Ok(text_out(Seq::empty())) },
        },
        s_jsx(Expression::Bin(BinOp::LogicalOr, Box::new(t), Box::new(x)), ctx, imports, env, fuel) == match spec_eval(t, ctx, env.fa) {
            Err(e) => Err(e),
            Ok(tv) => if truthy(env.fa, tv) {
                Ok(text_out(escape_html_spec(to_text(env.fa, tv))))
            } else {
                s_jsx(x, ctx, imports, env, fuel)
            },
        },
{
}

/// `arr.map(p => body)` in a child position renders `body` once for each item of the
/// array, in order, with `p` bound to the item, and nothing for an empty array; a
/// value that is not an array is unsupported.
pub proof fn map_renders_each_item(
    e: Expression,
    ctx: EvalContextView,
    imports: Seq<(Seq<char>, Seq<char>)>,
    env: Env,
    fuel: nat,
)
    requires
        e matches Expression::Call { callee, args, .. } && map_call(callee, args@, ctx, env.fa) is Ok
            && map_call(callee, args@, ctx, env.fa)->Ok_0 is Some,
    ensures
        ({
            let (callee, args) = match e {
                Expression::Call { callee, args, .. } => (callee, args@),
                _ => (CallTarget::Other, Seq::empty()),
            };
            let (arr, param, body) = map_call(callee, args, ctx, env.fa)->Ok_0->Some_0;
            &&& map_callback(args[0]) == Ok::<(Seq<char>, Expression), ErrorView>((param, body))
            &&& !(arr is Array) ==> s_jsx(e, ctx, imports, env, fuel) == Err::<Out, ErrorView>(
                ErrorView::Unsupported("map() on non-array"@),
            )
            &&& arr matches ValueView::Array(items) ==> {
                &&& s_jsx(e, ctx, imports, env, fuel) == s_map(args, items, 0, param, ctx, imports, env, fuel)
                &&& items.len() == 0 ==> s_jsx(e, ctx, imports, env, fuel) == Ok::<Out, ErrorView>(text_out(Seq::empty()))
                &&& forall|i: int| 0 <= i < items.len() ==> #[trigger] s_map(args, items, i, param, ctx, imports, env, fuel) == match s_expr(
                    body,
                    with_local(ctx, param, items[i]),
                    imports,
                    env,
                    fuel,
                ) {
                    Err(err) => Err(err),
                    Ok(a) => then_cat(a, s_map(args, items, i + 1, param, ctx, imports, env, fuel)),
                }
            }
        }),
{
}

} // verus!

verus! {

/// The state that rendering accumulates: the head content collected from `<Head>`
/// components and the class names used.
pub struct RenderState {
    pub head: HeadContent,
    pub class_names: Vec<String>,
}

impl View for RenderState {
    type V = (Seq<(Seq<char>, HeadTagView)>, Seq<Seq<char>>);

    open spec fn view(&self) -> (Seq<(Seq<char>, HeadTagView)>, Seq<Seq<char>>) {
        (self.head@, strings_view(self.class_names@))
    }
}

/// Head elements with their tags.
pub open spec fn tagged(h: Seq<Seq<char>>) -> Seq<(Seq<char>, HeadTagView)> {
    h.map_values(|x: Seq<char>| (x, classify(x)))
}

/// The state after rendering that produced `o`.
pub open spec fn after(st: (Seq<(Seq<char>, HeadTagView)>, Seq<Seq<char>>), o: Out) -> (Seq<(Seq<char>, HeadTagView)>, Seq<Seq<char>>) {
    (st.0 + tagged(o.head), st.1 + o.classes)
}

/// `r` and the state change are what `spec` describes; where `spec` is an error the
/// state is left unspecified.
pub open spec fn rendered(
    r: Result<String, JsxrsError>,
    before: (Seq<(Seq<char>, HeadTagView)>, Seq<Seq<char>>),
    now: (Seq<(Seq<char>, HeadTagView)>, Seq<Seq<char>>),
    spec: Result<Out, ErrorView>,
) -> bool {
    match spec {
        Ok(o) => r is Ok && r->Ok_0@ == o.html && now == after(before, o),
        Err(e) => r is Err && r->Err_0@ == e,
    }
}

impl RenderState {
    /// An empty state.
    pub fn new() -> (r: RenderState)
        ensures
            r@.0 == Seq::<(Seq<char>, HeadTagView)>::empty(),
            r@.1 == Seq::<Seq<char>>::empty(),
    {
        let r = RenderState { head: HeadContent::new(), class_names: Vec::new() };
        assert(strings_view(r.class_names@) =~= Seq::<Seq<char>>::empty());
        r
    }
}

/// The loaded component modules, by import path.
pub struct ComponentTable {
    pub entries: Vec<(String, Result<Module, JsxrsError>)>,
}

pub open spec fn module_res_view(r: Result<Module, JsxrsError>) -> Result<Module, ErrorView> {
    match r {
        Ok(m) => Ok(m),
        Err(e) => Err(e@),
    }
}

impl View for ComponentTable {
    type V = ComponentsView;

    open spec fn view(&self) -> ComponentsView {
        self.entries@.map_values(|e: (String, Result<Module, JsxrsError>)| (e.0@, module_res_view(e.1)))
    }
}

/// What rendering reads besides the tree: whether a base directory is configured, the
/// loaded components, and the float oracle.
pub struct RenderCx<'a, F> {
    pub has_base_dir: bool,
    pub components: &'a ComponentTable,
    pub num: &'a F,
}

impl<'a, F: Fn(FloatQuery) -> FloatAnswer> RenderCx<'a, F> {
    pub open spec fn env(&self) -> Env {
        Env { has_base_dir: self.has_base_dir, components: self.components@, fa: answers(*self.num) }
    }

    pub open spec fn wf(&self) -> bool {
        is_float_oracle(*self.num)
    }
}

pub open spec fn imports_view(v: Seq<(String, String)>) -> Seq<(Seq<char>, Seq<char>)> {
    crate::export::pairs_view(v)
}

proof fn lemma_strings_view_push(v: Seq<String>, x: String)
    ensures
        strings_view(v.push(x)) == strings_view(v).push(x@),
{
    assert(strings_view(v.push(x)) =~= strings_view(v).push(x@));
}

proof fn lemma_tagged_push(h: Seq<Seq<char>>, x: Seq<char>)
    ensures
        tagged(h.push(x)) == tagged(h).push((x, classify(x))),
{
    assert(tagged(h.push(x)) =~= tagged(h).push((x, classify(x))));
}

proof fn lemma_tagged_add(a: Seq<Seq<char>>, b: Seq<Seq<char>>)
    ensures
        tagged(a + b) == tagged(a) + tagged(b),
{
    assert(tagged(a + b) =~= tagged(a) + tagged(b));
}

proof fn lemma_after_cat(st: (Seq<(Seq<char>, HeadTagView)>, Seq<Seq<char>>), a: Out, b: Out)
    ensures
        after(after(st, a), b) == after(st, cat(a, b)),
{
    lemma_tagged_add(a.head, b.head);
    assert(st.0 + tagged(a.head) + tagged(b.head) =~= st.0 + (tagged(a.head) + tagged(b.head)));
    assert(st.1 + a.classes + b.classes =~= st.1 + (a.classes + b.classes));
}

fn jsx_obj_str(o: &JsxObject) -> (r: String)
    ensures
        r@ == jsx_object_name(*o),
    decreases o,
{
    match o {
        JsxObject::Ident(id) => crate::text::copy_string(id),
        JsxObject::Member(obj, prop) => {
            let mut s = jsx_obj_str(obj);
            crate::text::push_str(&mut s, ".");
            crate::text::push_str(&mut s, prop.as_str());
            s
        },
    }
}

/// The tag name of an element.
pub fn element_name_str(n: &JsxElementName) -> (r: String)
    ensures
        r@ == element_name(*n),
{
    match n {
        JsxElementName::Ident(id) => crate::text::copy_string(id),
        JsxElementName::Member(obj, prop) => {
            let mut s = jsx_obj_str(obj);
            crate::text::push_str(&mut s, ".");
            crate::text::push_str(&mut s, prop.as_str());
            s
        },
        JsxElementName::Namespaced(ns, name) => {
            let mut s = crate::text::copy_string(ns);
            crate::text::push_str(&mut s, ":");
            crate::text::push_str(&mut s, name.as_str());
            s
        },
    }
}

/// Whether `tag` is a void element.
pub fn is_void_tag(tag: &str) -> (r: bool)
    ensures
        r == is_void(tag@),
{
    str_eq(tag, "area") || str_eq(tag, "base") || str_eq(tag, "br") || str_eq(tag, "col") || str_eq(tag, "embed")
        || str_eq(tag, "hr") || str_eq(tag, "img") || str_eq(tag, "input") || str_eq(tag, "link") || str_eq(tag, "meta")
        || str_eq(tag, "param") || str_eq(tag, "source") || str_eq(tag, "track") || str_eq(tag, "wbr")
}

/// JSX text as React renders it.
pub fn normalize_jsx_text(raw: &str) -> (r: String)
    ensures
        r@ == normalize_text(raw@),
{
    let v = crate::text::chars_of(raw);
    let lines = split_lines(&v);
    proof { lemma_split_nonempty(v@); }
    if lines.len() == 1 {
        return crate::text::string_from(raw);
    }
    let n = lines.len();
    let ghost lv = lines_view(lines@);
    let mut out = String::new();
    let mut k: usize = 0;
    while k < n
        invariant
            n == lines.len(),
            lv == lines_view(lines@),
            lv == split_newlines(raw@),
            k <= n,
            out@ == joined_trimmed(lv, k as int),
        decreases n - k,
    {
        let l = &lines[k];
        assert(lv[k as int] == l@);
        if k == 0 {
            let hi = crate::text::skip_ws_end(l, 0);
            assert(l@.subrange(0, l.len() as int) =~= l@);
            crate::text::push_chars(&mut out, l, 0, hi);
        } else if k == n - 1 {
            let lo = crate::text::skip_ws_start(l);
            assert(l@.skip(lo as int) =~= l@.subrange(lo as int, l.len() as int));
            crate::text::push_chars(&mut out, l, lo, l.len());
        } else {
            let (lo, hi) = crate::text::trim_bounds(l);
            crate::text::push_chars(&mut out, l, lo, hi);
        }
        k = k + 1;
    }
    out
}

/// The entry of the first component loaded for `path`.
fn find_component<'a>(c: &'a ComponentTable, path: &str) -> (r: Option<&'a Result<Module, JsxrsError>>)
    ensures
        match r {
            Some(m) => component_lookup(c@, path@) == Some(module_res_view(*m)),
            None => component_lookup(c@, path@) is None,
        },
{
    let mut i: usize = 0;
    assert(c@.skip(0) =~= c@);
    while i < c.entries.len()
        invariant
            i <= c.entries.len(),
            component_lookup(c@, path@) == component_lookup(c@.skip(i as int), path@),
        decreases c.entries.len() - i,
    {
        assert(c@.skip(i as int).drop_first() =~= c@.skip(i + 1));
        if crate::text::str_eq(c.entries[i].0.as_str(), path) {
            return Some(&c.entries[i].1);
        }
        i = i + 1;
    }
    None
}

proof fn lemma_props_error_stays(attrs: Seq<JsxAttrOrSpread>, i: int, n: int, ctx: EvalContextView, fa: Oracle)
    requires
        0 <= i <= n,
        component_props(attrs, i, ctx, fa) is Err,
    ensures
        component_props(attrs, n, ctx, fa) == component_props(attrs, i, ctx, fa),
    decreases n - i,
{
    if n > i {
        lemma_props_error_stays(attrs, i, n - 1, ctx, fa);
    }
}

/// The props that a component's attributes give it.
#[verifier::loop_isolation(false)]
pub fn build_component_props<F: Fn(FloatQuery) -> FloatAnswer>(attrs: &Vec<JsxAttrOrSpread>, ctx: &EvalContext, f: &F) -> (r: Result<Vec<(String, crate::value::Value)>, JsxrsError>)
    requires
        is_float_oracle(*f),
    ensures
        match component_props(attrs@, attrs@.len() as int, ctx@, answers(*f)) {
            Ok(es) => r is Ok && entries_view(r->Ok_0@) == es,
            Err(e) => r is Err && r->Err_0@ == e,
        },
{
    let ghost fa = answers(*f);
    let mut map: Vec<(String, Value)> = Vec::new();
    let mut i: usize = 0;
    assert(entries_view(map@) =~= Seq::<(Seq<char>, ValueView)>::empty());
    while i < attrs.len()
        invariant
            i <= attrs.len(),
            component_props(attrs@, i as int, ctx@, fa) == Ok::<_, ErrorView>(entries_view(map@)),
        decreases attrs.len() - i,
    {
        if let JsxAttrOrSpread::Attr(a) = &attrs[i] {
            if let JsxAttrName::Ident(id) = &a.name {
                let name = crate::text::copy_string(id);
                match &a.value {
                    None => insert_field(&mut map, name, Value::Bool(true)),
                    Some(JsxAttrValue::Str(s)) => insert_field(&mut map, name, Value::Str(crate::text::copy_string(s))),
                    Some(JsxAttrValue::ExprContainer(JsxExpr::Expression(e))) => {
                        let v = match crate::eval::eval_expr(e, ctx, f) {
                            Ok(v) => v,
                            Err(err) => {
                                proof { lemma_props_error_stays(attrs@, i + 1, attrs@.len() as int, ctx@, fa); }
                                return Err(err);
                            },
                        };
                        insert_field(&mut map, name, v);
                    },
                    Some(JsxAttrValue::ExprContainer(JsxExpr::Empty)) => insert_field(&mut map, name, Value::Null),
                    Some(JsxAttrValue::Other) => {},
                }
            }
        }
        i = i + 1;
    }
    Ok(map)
}

} // verus!

verus! {

proof fn lemma_after_text(st: (Seq<(Seq<char>, HeadTagView)>, Seq<Seq<char>>), s: Seq<char>)
    ensures
        after(st, text_out(s)) == st,
{
    assert(tagged(Seq::<Seq<char>>::empty()) =~= Seq::<(Seq<char>, HeadTagView)>::empty());
    assert(st.0 + Seq::<(Seq<char>, HeadTagView)>::empty() =~= st.0);
    assert(st.1 + Seq::<Seq<char>>::empty() =~= st.1);
}

proof fn lemma_cat_assoc(a: Out, b: Out, c: Out)
    ensures
        cat(cat(a, b), c) == cat(a, cat(b, c)),
{
    assert(a.html + b.html + c.html =~= a.html + (b.html + c.html));
    assert(a.head + b.head + c.head =~= a.head + (b.head + c.head));
    assert(a.classes + b.classes + c.classes =~= a.classes + (b.classes + c.classes));
}

proof fn lemma_cat_empty(a: Out)
    ensures
        cat(a, text_out(Seq::empty())) == a,
        cat(text_out(Seq::empty()), a) == a,
{
    assert(a.html + Seq::<char>::empty() =~= a.html);
    assert(a.head + Seq::<Seq<char>>::empty() =~= a.head);
    assert(a.classes + Seq::<Seq<char>>::empty() =~= a.classes);
    assert(Seq::<char>::empty() + a.html =~= a.html);
    assert(Seq::<Seq<char>>::empty() + a.head =~= a.head);
    assert(Seq::<Seq<char>>::empty() + a.classes =~= a.classes);
}

proof fn lemma_then_cat_assoc(a: Out, b: Out, r: Result<Out, ErrorView>)
    ensures
        then_cat(a, then_cat(b, r)) == then_cat(cat(a, b), r),
{
    if let Ok(c) = r {
        lemma_cat_assoc(a, b, c);
    }
}

/// The parameter and body of a `map` callback.
pub fn extract_arrow_callback(e: &Expression) -> (r: Result<(String, &Expression), JsxrsError>)
    ensures
        match map_callback(*e) {
            Ok((p, b)) => r is Ok && r->Ok_0.0@ == p && *r->Ok_0.1 == b,
            Err(err) => r is Err && r->Err_0@ == err,
        },
    decreases e,
{
    match e {
        Expression::Arrow { params, body, .. } => {
            let name = if params.len() == 0 {
                None
            } else {
                match &params[0] {
                    Pattern::Ident(n) => Some(crate::text::copy_string(n)),
                    Pattern::Other => None,
                }
            };
            let name = match name {
                Some(n) => n,
                None => {
                    return Err(crate::error::unsupported("only simple parameter names in map callbacks"));
                },
            };
            match body {
                ArrowBody::Expression(b) => Ok((name, &**b)),
                ArrowBody::Block(_) => Err(crate::error::unsupported("only expression bodies in map callbacks")),
            }
        },
        Expression::Paren(p) => extract_arrow_callback(p),
        _ => Err(crate::error::unsupported("only arrow function callbacks in map()")),
    }
}

/// A `map` call: the array value and the callback's parameter, or `None` where the call is not one.
pub fn eval_array_map<F: Fn(FloatQuery) -> FloatAnswer>(callee: &CallTarget, args: &Vec<Expression>, ctx: &EvalContext, f: &F) -> (r: Result<Option<(Value, String)>, JsxrsError>)
    requires
        is_float_oracle(*f),
    ensures
        match map_call(*callee, args@, ctx@, answers(*f)) {
            Err(e) => r is Err && r->Err_0@ == e,
            Ok(None) => r is Ok && r->Ok_0 is None,
            Ok(Some((arr, p, _))) => r is Ok && r->Ok_0 is Some && r->Ok_0->Some_0.0@ == arr && r->Ok_0->Some_0.1@ == p,
        },
{
    let c = match callee {
        CallTarget::Expression(c) => c,
        CallTarget::Other => { return Ok(None); },
    };
    let (obj, m) = match &**c {
        Expression::Member(obj, MemberProperty::Ident(m)) => (obj, m),
        _ => { return Ok(None); },
    };
    if !str_eq(m.as_str(), "map") {
        return Ok(None);
    }
    let arr = crate::eval::eval_expr(obj, ctx, f)?;
    if args.len() == 0 {
        return Err(crate::error::unsupported("map() requires a callback argument"));
    }
    let (param, _) = extract_arrow_callback(&args[0])?;
    Ok(Some((arr, param)))
}

proof fn lemma_attrs_error_stays(attrs: Seq<JsxAttrOrSpread>, i: int, n: int, ctx: EvalContextView, fa: Oracle)
    requires
        0 <= i <= n,
        attrs_out(attrs, i, ctx, fa) is Err,
    ensures
        attrs_out(attrs, n, ctx, fa) == attrs_out(attrs, i, ctx, fa),
    decreases n - i,
{
    if n > i {
        lemma_attrs_error_stays(attrs, i, n - 1, ctx, fa);
    }
}

/// Renders an expression in a position where it is rendered as a whole.
pub fn render_expr<F: Fn(FloatQuery) -> FloatAnswer>(
    e: &Expression,
    ctx: &EvalContext,
    imports: &Vec<(String, String)>,
    cx: &RenderCx<F>,
    state: &mut RenderState,
    fuel: usize,
) -> (r: Result<String, JsxrsError>)
    requires
        cx.wf(),
    ensures
        rendered(r, old(state)@, final(state)@, s_expr(*e, ctx@, imports_view(imports@), cx.env(), fuel as nat)),
    decreases fuel, 0nat, e, 0nat,
{
    match e {
        Expression::JsxElement { element, .. } => render_element(element, ctx, imports, cx, state, fuel),
        Expression::JsxFragment { children, .. } => render_children(children, ctx, imports, cx, state, fuel),
        Expression::Paren(p) => render_expr(p, ctx, imports, cx, state, fuel),
        _ => {
            let v = crate::eval::eval_expr(e, ctx, cx.num)?;
            proof { lemma_after_text(old(state)@, value_html(answers(*cx.num), v@)); }
            Ok(value_html_of(&v, cx.num))
        },
    }
}

/// Renders an element: `<Head>`, a component, or an HTML tag.
pub fn render_element<F: Fn(FloatQuery) -> FloatAnswer>(
    el: &JsxElement,
    ctx: &EvalContext,
    imports: &Vec<(String, String)>,
    cx: &RenderCx<F>,
    state: &mut RenderState,
    fuel: usize,
) -> (r: Result<String, JsxrsError>)
    requires
        cx.wf(),
    ensures
        rendered(r, old(state)@, final(state)@, s_element(*el, ctx@, imports_view(imports@), cx.env(), fuel as nat)),
    decreases fuel, 0nat, el, 1nat,
{
    let tag = element_name_str(&el.name);
    if str_eq(tag.as_str(), "Head") {
        return render_head(&el.children, ctx, imports, cx, state, fuel);
    }
    let tv = crate::text::chars_of(tag.as_str());
    if tv.len() > 0 && 'A' <= tv[0] && tv[0] <= 'Z' {
        render_component(el, &tag, ctx, imports, cx, state, fuel)
    } else {
        render_html_tag(el, &tag, ctx, imports, cx, state, fuel)
    }
}

/// Renders a component element: its module, loaded for the import that names it,
/// rendered with the props that its attributes give. The state changes only once the
/// component has rendered: on any error it is left as it was.
fn render_component<F: Fn(FloatQuery) -> FloatAnswer>(
    el: &JsxElement,
    tag: &String,
    ctx: &EvalContext,
    imports: &Vec<(String, String)>,
    cx: &RenderCx<F>,
    state: &mut RenderState,
    fuel: usize,
) -> (r: Result<String, JsxrsError>)
    requires
        cx.wf(),
        tag@ == element_name(el.name),
        tag@ != "Head"@,
        tag@.len() > 0 && is_ascii_upper(tag@[0]),
    ensures
        rendered(r, old(state)@, final(state)@, s_element(*el, ctx@, imports_view(imports@), cx.env(), fuel as nat)),
        r is Err ==> final(state)@ == old(state)@,
    decreases fuel, 0nat, el, 0nat,
{
    let ghost env = cx.env();
    let path = match crate::export::import_path_of(imports, tag.as_str()) {
        Some(p) => p,
        None => { return Err(JsxrsError::ImportNotFound { path: crate::text::copy_string(tag) }); },
    };
    if !cx.has_base_dir {
        return Err(JsxrsError::BaseDirRequired);
    }
    let entry = match find_component(cx.components, path.as_str()) {
        Some(m) => m,
        None => { return Err(JsxrsError::ImportNotFound { path: crate::text::copy_string(path) }); },
    };
    let module = match entry {
        Ok(m) => m,
        Err(e) => { return Err(crate::error::copy_error(e)); },
    };
    let props = build_component_props(&el.attrs, ctx, cx.num)?;
    if fuel == 0 {
        return Err(crate::error::unsupported("component nesting too deep"));
    }
    let pv = Value::Object(props);
    proof { crate::value::lemma_value_view_object(props); }
    let (html, inner) = render_module(&module.body, pv, cx, fuel - 1)?;
    let ghost o = s_module(module.body@, pv@, env, (fuel - 1) as nat)->Ok_0;
    let RenderState { head, class_names } = inner;
    let mut class_names = class_names;
    let ghost st0 = state@;
    let ghost cn = class_names@;
    state.head.extend(head);
    state.class_names.append(&mut class_names);
    proof {
        assert(strings_view(state.class_names@) =~= st0.1 + strings_view(cn));
        assert(Seq::<(Seq<char>, HeadTagView)>::empty() + tagged(o.head) =~= tagged(o.head));
        assert(Seq::<Seq<char>>::empty() + o.classes =~= o.classes);
    }
    Ok(html)
}

/// The opening tag of an HTML element with its rendered attributes; the class names
/// among them are recorded.
#[verifier::loop_isolation(false)]
fn render_open_tag<F: Fn(FloatQuery) -> FloatAnswer>(
    el: &JsxElement,
    tag: &String,
    ctx: &EvalContext,
    cx: &RenderCx<F>,
    state: &mut RenderState,
) -> (r: Result<String, JsxrsError>)
    requires
        cx.wf(),
    ensures
        match attrs_out(el.attrs@, el.attrs@.len() as int, ctx@, cx.env().fa) {
            Ok(a) => r is Ok && r->Ok_0@ == "<"@ + tag@ + a.html + ">"@ && a.head == Seq::<Seq<char>>::empty()
                && final(state)@ == after(old(state)@, a),
            Err(e) => r is Err && r->Err_0@ == e,
        },
{
    let ghost env = cx.env();
    let ghost st0 = state@;
    let ghost prefix = "<"@ + tag@;
    let mut out = crate::text::string_from("<");
    crate::text::push_str(&mut out, tag.as_str());
    let ghost mut acc: Out = text_out(Seq::empty());
    let mut i: usize = 0;
    proof { lemma_after_text(st0, Seq::empty()); assert(out@ =~= prefix + acc.html); }
    while i < el.attrs.len()
        invariant
            i <= el.attrs.len(),
            attrs_out(el.attrs@, i as int, ctx@, env.fa) == Ok::<_, ErrorView>(acc),
            out@ == prefix + acc.html,
            acc.head == Seq::<Seq<char>>::empty(),
            state@ == after(st0, acc),
        decreases el.attrs.len() - i,
    {
        let ra = match render_jsx_attr(&el.attrs[i], ctx, cx.num) {
            Ok(ra) => ra,
            Err(err) => {
                proof { lemma_attrs_error_stays(el.attrs@, i + 1, el.attrs@.len() as int, ctx@, env.fa); }
                return Err(err);
            },
        };
        if let Some(ra) = ra {
            let ghost a = ra@;
            if let Some(v) = &ra.value {
                if str_eq(ra.name.as_str(), "class") {
                    let ghost before = state.class_names@;
                    state.class_names.push(crate::text::copy_string(v));
                    proof { lemma_strings_view_push(before, state.class_names@.last()); assert(before.push(state.class_names@.last()) == state.class_names@); }
                }
            }
            crate::text::push_str(&mut out, " ");
            crate::text::push_str(&mut out, ra.name.as_str());
            if let Some(v) = &ra.value {
                crate::text::push_str(&mut out, "=\"");
                let ev = crate::escape::escape_attr(v.as_str());
                crate::text::push_str(&mut out, ev.as_str());
                crate::text::push_str(&mut out, "\"");
            }
            proof {
                let next = Out { html: acc.html + attr_text(a), head: acc.head, classes: acc.classes + attr_classes(a) };
                assert(out@ =~= prefix + next.html);
                assert(tagged(next.head) =~= tagged(acc.head));
                assert(state@.1 =~= after(st0, next).1);
                acc = next;
            }
        }
        i = i + 1;
    }
    crate::text::push_str(&mut out, ">");
    proof { assert(out@ =~= "<"@ + tag@ + acc.html + ">"@); }
    Ok(out)
}

/// Renders an HTML element: its tag with the rendered attributes, then, unless the
/// element is void, its children and the closing tag.
fn render_html_tag<F: Fn(FloatQuery) -> FloatAnswer>(
    el: &JsxElement,
    tag: &String,
    ctx: &EvalContext,
    imports: &Vec<(String, String)>,
    cx: &RenderCx<F>,
    state: &mut RenderState,
    fuel: usize,
) -> (r: Result<String, JsxrsError>)
    requires
        cx.wf(),
        tag@ == element_name(el.name),
        tag@ != "Head"@,
        !(tag@.len() > 0 && is_ascii_upper(tag@[0])),
    ensures
        rendered(r, old(state)@, final(state)@, s_element(*el, ctx@, imports_view(imports@), cx.env(), fuel as nat)),
    decreases fuel, 0nat, el, 0nat,
{
    let ghost env = cx.env();
    let ghost iv = imports_view(imports@);
    let ghost st0 = state@;
    let mut out = render_open_tag(el, tag, ctx, cx, state)?;
    let ghost a = attrs_out(el.attrs@, el.attrs@.len() as int, ctx@, env.fa)->Ok_0;
    if is_void_tag(tag.as_str()) {
        return Ok(out);
    }
    let c = render_children(&el.children, ctx, imports, cx, state, fuel)?;
    crate::text::push_str(&mut out, c.as_str());
    crate::text::push_str(&mut out, "</");
    crate::text::push_str(&mut out, tag.as_str());
    crate::text::push_str(&mut out, ">");
    proof {
        let co = s_children(el.children@, ctx@, iv, env, fuel as nat)->Ok_0;
        assert(out@ =~= "<"@ + tag@ + a.html + ">"@ + co.html + "</"@ + tag@ + ">"@);
        lemma_after_cat(st0, a, co);
        assert(a.head + co.head =~= co.head);
    }
    Ok(out)
}

/// Renders children in order.
#[verifier::loop_isolation(false)]
pub fn render_children<F: Fn(FloatQuery) -> FloatAnswer>(
    cs: &Vec<JsxChild>,
    ctx: &EvalContext,
    imports: &Vec<(String, String)>,
    cx: &RenderCx<F>,
    state: &mut RenderState,
    fuel: usize,
) -> (r: Result<String, JsxrsError>)
    requires
        cx.wf(),
    ensures
        rendered(r, old(state)@, final(state)@, s_children(cs@, ctx@, imports_view(imports@), cx.env(), fuel as nat)),
    decreases fuel, 0nat, cs@, 0nat,
{
    let ghost env = cx.env();
    let ghost iv = imports_view(imports@);
    let ghost st0 = state@;
    let ghost mut acc: Out = text_out(Seq::empty());
    let mut out = String::new();
    let mut i: usize = 0;
    proof {
        lemma_after_text(st0, Seq::empty());
        assert(cs@.skip(0) =~= cs@);
        lemma_cat_empty(text_out(Seq::empty()));
        match s_children(cs@, ctx@, iv, env, fuel as nat) {
            Ok(o) => lemma_cat_empty(o),
            Err(_) => {},
        }
    }
    while i < cs.len()
        invariant
            i <= cs.len(),
            s_children(cs@, ctx@, iv, env, fuel as nat) == then_cat(acc, s_children(cs@.skip(i as int), ctx@, iv, env, fuel as nat)),
            out@ == acc.html,
            state@ == after(st0, acc),
        decreases cs.len() - i,
    {
        assert(cs@.skip(i as int)[0] == cs@[i as int]);
        assert(cs@.skip(i as int).drop_first() =~= cs@.skip(i + 1));
        let ghost sb = state@;
        let a = render_child(&cs[i], ctx, imports, cx, state, fuel)?;
        crate::text::push_str(&mut out, a.as_str());
        proof {
            let ao = s_child(cs@[i as int], ctx@, iv, env, fuel as nat)->Ok_0;
            lemma_then_cat_assoc(acc, ao, s_children(cs@.skip(i + 1), ctx@, iv, env, fuel as nat));
            lemma_after_cat(st0, acc, ao);
            acc = cat(acc, ao);
        }
        i = i + 1;
    }
    proof {
        assert(cs@.skip(i as int).len() == 0);
        lemma_cat_empty(acc);
    }
    Ok(out)
}

/// Renders the children of `<Head>` into the head content.
#[verifier::loop_isolation(false)]
pub fn render_head<F: Fn(FloatQuery) -> FloatAnswer>(
    cs: &Vec<JsxChild>,
    ctx: &EvalContext,
    imports: &Vec<(String, String)>,
    cx: &RenderCx<F>,
    state: &mut RenderState,
    fuel: usize,
) -> (r: Result<String, JsxrsError>)
    requires
        cx.wf(),
    ensures
        rendered(r, old(state)@, final(state)@, s_head_children(cs@, ctx@, imports_view(imports@), cx.env(), fuel as nat)),
    decreases fuel, 0nat, cs@, 0nat,
{
    let ghost env = cx.env();
    let ghost iv = imports_view(imports@);
    let ghost st0 = state@;
    let ghost mut acc: Out = text_out(Seq::empty());
    let mut i: usize = 0;
    proof {
        lemma_after_text(st0, Seq::empty());
        assert(cs@.skip(0) =~= cs@);
        match s_head_children(cs@, ctx@, iv, env, fuel as nat) {
            Ok(o) => lemma_cat_empty(o),
            Err(_) => {},
        }
    }
    while i < cs.len()
        invariant
            i <= cs.len(),
            s_head_children(cs@, ctx@, iv, env, fuel as nat) == then_cat(acc, s_head_children(cs@.skip(i as int), ctx@, iv, env, fuel as nat)),
            acc.html == Seq::<char>::empty(),
            state@ == after(st0, acc),
        decreases cs.len() - i,
    {
        assert(cs@.skip(i as int)[0] == cs@[i as int]);
        assert(cs@.skip(i as int).drop_first() =~= cs@.skip(i + 1));
        let html = render_child(&cs[i], ctx, imports, cx, state, fuel)?;
        let ghost ao = s_child(cs@[i as int], ctx@, iv, env, fuel as nat)->Ok_0;
        let ghost step = Out {
            html: Seq::empty(),
            head: if ao.html.len() > 0 { ao.head.push(ao.html) } else { ao.head },
            classes: ao.classes,
        };
        let ghost s1 = state@;
        if html.as_str().unicode_len() > 0 {
            state.head.push(html);
            proof { lemma_tagged_push(ao.head, ao.html); }
        }
        proof {
            assert(state@ == after(after(st0, acc), step)) by {
                lemma_tagged_push(ao.head, ao.html);
                assert(s1.0 == st0.0 + tagged(acc.head) + tagged(ao.head));
                if ao.html.len() > 0 {
                    assert(state@.0 =~= st0.0 + tagged(acc.head) + tagged(step.head));
                } else {
                    assert(state@.0 =~= st0.0 + tagged(acc.head) + tagged(step.head));
                }
            }
            lemma_after_cat(st0, acc, step);
            lemma_then_cat_assoc(acc, step, s_head_children(cs@.skip(i + 1), ctx@, iv, env, fuel as nat));
            assert(acc.html + step.html =~= Seq::<char>::empty());
            acc = cat(acc, step);
        }
        i = i + 1;
    }
    proof {
        assert(cs@.skip(i as int).len() == 0);
        lemma_cat_empty(acc);
    }
    Ok(String::new())
}

/// Renders one child.
pub fn render_child<F: Fn(FloatQuery) -> FloatAnswer>(
    c: &JsxChild,
    ctx: &EvalContext,
    imports: &Vec<(String, String)>,
    cx: &RenderCx<F>,
    state: &mut RenderState,
    fuel: usize,
) -> (r: Result<String, JsxrsError>)
    requires
        cx.wf(),
    ensures
        rendered(r, old(state)@, final(state)@, s_child(*c, ctx@, imports_view(imports@), cx.env(), fuel as nat)),
    decreases fuel, 0nat, c, 0nat,
{
    match c {
        JsxChild::Text(t) => {
            let n = normalize_jsx_text(t.as_str());
            proof { lemma_after_text(old(state)@, escape_html_spec(n@)); }
            Ok(crate::escape::escape_html(n.as_str()))
        },
        JsxChild::Element(el) => render_element(el, ctx, imports, cx, state, fuel),
        JsxChild::Fragment(cs) => render_children(cs, ctx, imports, cx, state, fuel),
        JsxChild::ExprContainer(JsxExpr::Expression(e)) => render_jsx_expression(e, ctx, imports, cx, state, fuel),
        JsxChild::ExprContainer(JsxExpr::Empty) => {
            proof { lemma_after_text(old(state)@, Seq::empty()); }
            Ok(String::new())
        },
        JsxChild::Spread => {
            proof { lemma_after_text(old(state)@, Seq::empty()); }
            Ok(String::new())
        },
    }
}

fn value_text_html<F: Fn(FloatQuery) -> FloatAnswer>(v: &Value, f: &F) -> (r: String)
    requires
        is_float_oracle(*f),
    ensures
        r@ == escape_html_spec(to_text(answers(*f), v@)),
{
    let t = crate::value::value_to_string(v, f);
    crate::escape::escape_html(t.as_str())
}

/// The HTML of a value: the raw HTML of a `{ "__html": ... }` object, else its escaped text.
fn value_html_of<F: Fn(FloatQuery) -> FloatAnswer>(v: &Value, f: &F) -> (r: String)
    requires
        is_float_oracle(*f),
    ensures
        r@ == value_html(answers(*f), v@),
{
    match crate::value::extract_raw_html(v) {
        Some(raw) => crate::text::copy_string(raw),
        None => value_text_html(v, f),
    }
}

/// Renders an expression in a child position.
pub fn render_jsx_expression<F: Fn(FloatQuery) -> FloatAnswer>(
    e: &Expression,
    ctx: &EvalContext,
    imports: &Vec<(String, String)>,
    cx: &RenderCx<F>,
    state: &mut RenderState,
    fuel: usize,
) -> (r: Result<String, JsxrsError>)
    requires
        cx.wf(),
    ensures
        rendered(r, old(state)@, final(state)@, s_jsx(*e, ctx@, imports_view(imports@), cx.env(), fuel as nat)),
    decreases fuel, 0nat, e, 0nat,
{
    let ghost fa = answers(*cx.num);
    match e {
        Expression::JsxElement { element, .. } => render_element(element, ctx, imports, cx, state, fuel),
        Expression::JsxFragment { children, .. } => render_children(children, ctx, imports, cx, state, fuel),
        Expression::Cond(t, c, a) => {
            let tv = crate::eval::eval_expr(t, ctx, cx.num)?;
            if crate::value::is_truthy(&tv, cx.num) {
                render_jsx_expression(c, ctx, imports, cx, state, fuel)
            } else {
                render_jsx_expression(a, ctx, imports, cx, state, fuel)
            }
        },
        Expression::Bin(BinOp::LogicalAnd, l, r) => {
            let lv = crate::eval::eval_expr(l, ctx, cx.num)?;
            if !crate::value::is_truthy(&lv, cx.num) {
                proof { lemma_after_text(old(state)@, Seq::empty()); }
                return Ok(String::new());
            }
            render_jsx_expression(r, ctx, imports, cx, state, fuel)
        },
        Expression::Bin(BinOp::LogicalOr, l, r) => {
            let lv = crate::eval::eval_expr(l, ctx, cx.num)?;
            if crate::value::is_truthy(&lv, cx.num) {
                proof { lemma_after_text(old(state)@, escape_html_spec(to_text(fa, lv@))); }
                return Ok(value_text_html(&lv, cx.num));
            }
            render_jsx_expression(r, ctx, imports, cx, state, fuel)
        },
        Expression::Call { callee, args, .. } => {
            match eval_array_map(callee, args, ctx, cx.num)? {
                Some((arr, param)) => match arr {
                    Value::Array(items) => {
                        proof { crate::value::lemma_value_view_array(items); }
                        render_map(args, &items, &param, ctx, imports, cx, state, fuel)
                    },
                    _ => Err(crate::error::unsupported("map() on non-array")),
                },
                None => {
                    let v = crate::eval::eval_expr(e, ctx, cx.num)?;
                    proof { lemma_after_text(old(state)@, value_html(fa, v@)); }
                    Ok(value_html_of(&v, cx.num))
                },
            }
        },
        _ => {
            let v = crate::eval::eval_expr(e, ctx, cx.num)?;
            proof { lemma_after_text(old(state)@, value_html(fa, v@)); }
            Ok(value_html_of(&v, cx.num))
        },
    }
}

/// Renders a `map` callback's body for each item of the array.
#[verifier::loop_isolation(false)]
pub fn render_map<F: Fn(FloatQuery) -> FloatAnswer>(
    args: &Vec<Expression>,
    items: &Vec<Value>,
    param: &String,
    ctx: &EvalContext,
    imports: &Vec<(String, String)>,
    cx: &RenderCx<F>,
    state: &mut RenderState,
    fuel: usize,
) -> (r: Result<String, JsxrsError>)
    requires
        cx.wf(),
        args@.len() > 0,
        map_callback(args@[0]) is Ok,
    ensures
        rendered(r, old(state)@, final(state)@, s_map(args@, crate::value::values_view(items@), 0, param@, ctx@, imports_view(imports@), cx.env(), fuel as nat)),
    decreases fuel, 0nat, args@, items@.len(),
{
    let ghost env = cx.env();
    let ghost iv = imports_view(imports@);
    let ghost vs = crate::value::values_view(items@);
    let ghost st0 = state@;
    let (_, body) = match extract_arrow_callback(&args[0]) {
        Ok(pb) => pb,
        Err(_) => { return Err(crate::error::unsupported("only arrow function callbacks in map()")); },
    };
    proof { lemma_map_callback_smaller(args@[0]); }
    let ghost mut acc: Out = text_out(Seq::empty());
    let mut out = String::new();
    let mut i: usize = 0;
    proof {
        lemma_after_text(st0, Seq::empty());
        match s_map(args@, vs, 0, param@, ctx@, iv, env, fuel as nat) {
            Ok(o) => lemma_cat_empty(o),
            Err(_) => {},
        }
    }
    while i < items.len()
        invariant
            i <= items.len(),
            s_map(args@, vs, 0, param@, ctx@, iv, env, fuel as nat) == then_cat(acc, s_map(args@, vs, i as int, param@, ctx@, iv, env, fuel as nat)),
            out@ == acc.html,
            state@ == after(st0, acc),
        decreases items.len() - i,
    {
        let local = ctx.with_local(crate::text::copy_string(param), crate::value::clone_value(&items[i]));
        assert(vs[i as int] == items@[i as int]@);
        let a = render_expr(body, &local, imports, cx, state, fuel)?;
        crate::text::push_str(&mut out, a.as_str());
        proof {
            let ao = s_expr(*body, with_local(ctx@, param@, vs[i as int]), iv, env, fuel as nat)->Ok_0;
            lemma_then_cat_assoc(acc, ao, s_map(args@, vs, i + 1, param@, ctx@, iv, env, fuel as nat));
            lemma_after_cat(st0, acc, ao);
            acc = cat(acc, ao);
        }
        i = i + 1;
    }
    proof { lemma_cat_empty(acc); }
    Ok(out)
}

/// Renders a module's default export with `props` to body HTML, collecting head
/// content and class names.
pub fn render_module<F: Fn(FloatQuery) -> FloatAnswer>(
    items: &Vec<Item>,
    props: Value,
    cx: &RenderCx<F>,
    fuel: usize,
) -> (r: Result<(String, RenderState), JsxrsError>)
    requires
        cx.wf(),
    ensures
        match s_module(items@, props@, cx.env(), fuel as nat) {
            Ok(o) => r is Ok && r->Ok_0.0@ == o.html && r->Ok_0.1@ == after(
                (Seq::empty(), Seq::empty()),
                o,
            ),
            Err(e) => r is Err && r->Err_0@ == e,
        },
    decreases fuel, 1nat, items@, 0nat,
{
    let imports = crate::export::collect_imports(items);
    let ctx = EvalContext::new(props);
    let mut state = RenderState::new();
    let jsx = crate::export::find_default_export_jsx(items)?;
    let html = render_expr(jsx, &ctx, &imports, cx, &mut state, fuel)?;
    proof { assert(ctx@ == scope(ctx@.props)); }
    Ok((html, state))
}

/// A component attribute written without a value (`<C flag />`) gives the component
/// the prop `flag` = `true`: the props of attributes ending in such an attribute hold
/// `true` under its name, whatever came before, unless an earlier attribute failed to
/// evaluate.
pub proof fn bare_attribute_gives_true(attrs: Seq<JsxAttrOrSpread>, n: int, ctx: EvalContextView, fa: Oracle, name: Seq<char>)
    requires
        0 < n <= attrs.len(),
        attrs[n - 1] is Attr,
        attrs[n - 1]->Attr_0.value is None,
        attrs[n - 1]->Attr_0.name is Ident,
        attrs[n - 1]->Attr_0.name->Ident_0@ == name,
        component_props(attrs, n - 1, ctx, fa) is Ok,
    ensures
        component_props(attrs, n, ctx, fa) matches Ok(es) && crate::value::lookup(es, name) == Some(ValueView::Bool(true)),
{
    let es = component_props(attrs, n - 1, ctx, fa)->Ok_0;
    crate::value::lemma_insert_entry_lookup(es, name, ValueView::Bool(true));
}

/// A component attribute with a string value (`<C k="text" />`) gives the component
/// the prop `k` = that text, unless an earlier attribute failed to evaluate.
pub proof fn string_attribute_gives_its_text(attrs: Seq<JsxAttrOrSpread>, n: int, ctx: EvalContextView, fa: Oracle, name: Seq<char>, text: Seq<char>)
    requires
        0 < n <= attrs.len(),
        attrs[n - 1] is Attr,
        attrs[n - 1]->Attr_0.value matches Some(JsxAttrValue::Str(t)) && t@ == text,
        attrs[n - 1]->Attr_0.name is Ident,
        attrs[n - 1]->Attr_0.name->Ident_0@ == name,
        component_props(attrs, n - 1, ctx, fa) is Ok,
    ensures
        component_props(attrs, n, ctx, fa) matches Ok(es) && crate::value::lookup(es, name) == Some(ValueView::Str(text)),
{
    let es = component_props(attrs, n - 1, ctx, fa)->Ok_0;
    crate::value::lemma_insert_entry_lookup(es, name, ValueView::Str(text));
}

} // verus!
