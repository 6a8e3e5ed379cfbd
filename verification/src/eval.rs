//! Evaluation of the expression subset that JSX attributes and children use.
use vstd::prelude::*;
use crate::ast::{Expression, Literal, BinOp, UnaryOperator, MemberProperty};
use crate::error::{JsxrsError, ErrorView, unsupported};
use crate::num::{
    Num, FloatQuery, FloatAnswer, Oracle, is_float_oracle, answers, num_to_f64, is_finite, is_nan,
    negate, float_lt, float_le, float_eq, SIGN_BIT, add_f64, parse_f64, NAN_BITS, ONE_BITS, num_as_f64, bits_is_finite,
    bits_is_nan, bits_negate, bits_lt, bits_le, f64_add, f64_parse,
};
use crate::value::{
    Value, ValueView, lookup, truthy, to_text, value_eq, entries_view, values_view, clone_value,
    get_field, is_truthy, value_to_string, values_equal,
};
use crate::text::{trim, chars_of, trim_bounds, string_of, copy_string, string_from, push_str, str_eq};

verus! {

broadcast use vstd::string::group_string_axioms;

/// The scope of an evaluation: the props and the local variables (map callback parameters).
pub struct EvalContext {
    pub props: Value,
    pub locals: Vec<(String, Value)>,
}

pub struct EvalContextView {
    pub props: ValueView,
    pub locals: Seq<(Seq<char>, ValueView)>,
}

impl View for EvalContext {
    type V = EvalContextView;

    open spec fn view(&self) -> EvalContextView {
        EvalContextView { props: self.props@, locals: entries_view(self.locals@) }
    }
}

/// The value of the innermost (last) binding of `k`.
pub open spec fn lookup_last(entries: Seq<(Seq<char>, ValueView)>, k: Seq<char>) -> Option<ValueView>
    decreases entries.len(),
{
    if entries.len() == 0 {
        None
    } else if entries.last().0 == k {
        Some(entries.last().1)
    } else {
        lookup_last(entries.drop_last(), k)
    }
}

proof fn lemma_entries_view_push(s: Seq<(String, Value)>, e: (String, Value))
    ensures
        entries_view(s.push(e)) == entries_view(s).push((e.0@, e.1@)),
{
    assert(entries_view(s.push(e)) =~= entries_view(s).push((e.0@, e.1@)));
}

impl EvalContext {
    /// A scope with the given props and no locals.
    pub fn new(props: Value) -> (r: EvalContext)
        ensures
            r@.props == props@,
            r@.locals == Seq::<(Seq<char>, ValueView)>::empty(),
    {
        let r = EvalContext { props, locals: Vec::new() };
        assert(entries_view(r.locals@) =~= Seq::<(Seq<char>, ValueView)>::empty());
        r
    }

    /// A copy of this scope with one more local binding.
    pub fn with_local(&self, name: String, value: Value) -> (r: EvalContext)
        ensures
            r@.props == self@.props,
            r@.locals == self@.locals.push((name@, value@)),
    {
        let mut locals: Vec<(String, Value)> = Vec::new();
        let mut i: usize = 0;
        while i < self.locals.len()
            invariant
                i <= self.locals.len(),
                entries_view(locals@) == entries_view(self.locals@).take(i as int),
            decreases self.locals.len() - i,
        {
            let ghost before = locals@;
            let entry = (copy_string(&self.locals[i].0), clone_value(&self.locals[i].1));
            assert(entry.0@ == self.locals@[i as int].0@ && entry.1@ == self.locals@[i as int].1@);
            locals.push(entry);
            proof { lemma_entries_view_push(before, entry); }
            i = i + 1;
            assert(entries_view(locals@) =~= entries_view(self.locals@).take(i as int));
        }
        let ghost nv = name@;
        let ghost vv = value@;
        let ghost before = locals@;
        let entry = (name, value);
        locals.push(entry);
        proof { lemma_entries_view_push(before, entry); }
        assert(entries_view(locals@) =~= entries_view(self.locals@).push((nv, vv)));
        EvalContext { props: clone_value(&self.props), locals }
    }

    fn lookup_local(&self, name: &str) -> (r: Option<&Value>)
        ensures
            match r {
                Some(v) => lookup_last(self@.locals, name@) == Some(v@),
                None => lookup_last(self@.locals, name@) is None,
            },
    {
        let mut i = self.locals.len();
        assert(entries_view(self.locals@).take(i as int) =~= entries_view(self.locals@));
        while i > 0
            invariant
                i <= self.locals.len(),
                lookup_last(self@.locals, name@) == lookup_last(entries_view(self.locals@).take(i as int), name@),
            decreases i,
        {
            assert(entries_view(self.locals@).take(i as int).drop_last() =~= entries_view(self.locals@).take(i - 1));
            if str_eq(self.locals[i - 1].0.as_str(), name) {
                return Some(&self.locals[i - 1].1);
            }
            i = i - 1;
        }
        None
    }
}

/// The value of the decimal digits `d`.
pub open spec fn digits_value(d: Seq<char>) -> nat
    decreases d.len(),
{
    if d.len() == 0 {
        0
    } else {
        digits_value(d.drop_last()) * 10 + ((d.last() as u32) - ('0' as u32)) as nat
    }
}

pub open spec fn all_digits(d: Seq<char>) -> bool {
    forall|i: int| 0 <= i < d.len() ==> '0' <= #[trigger] d[i] && d[i] <= '9'
}

/// `usize::from_str`: an optional `+`, then one or more decimal digits, with a value that fits.
pub open spec fn parse_usize(s: Seq<char>) -> Option<usize> {
    let d = if s.len() > 0 && s[0] == '+' { s.drop_first() } else { s };
    if d.len() > 0 && all_digits(d) && digits_value(d) <= usize::MAX {
        Some(digits_value(d) as usize)
    } else {
        None
    }
}

/// `usize::from_str`.
pub fn str_to_usize(s: &str) -> (r: Option<usize>)
    ensures
        r == parse_usize(s@),
{
    let v = chars_of(s);
    let start: usize = if v.len() > 0 && v[0] == '+' { 1 } else { 0 };
    let ghost d = if s@.len() > 0 && s@[0] == '+' { s@.drop_first() } else { s@ };
    assert(d =~= v@.skip(start as int));
    if start >= v.len() {
        return None;
    }
    let mut acc: usize = 0;
    let mut i = start;
    while i < v.len()
        invariant
            v@ == s@,
            start <= i <= v.len(),
            d == v@.skip(start as int),
            d == (if s@.len() > 0 && s@[0] == '+' { s@.drop_first() } else { s@ }),
            all_digits(v@.subrange(start as int, i as int)),
            acc == digits_value(v@.subrange(start as int, i as int)),
        decreases v.len() - i,
    {
        let c = v[i];
        assert(v@.subrange(start as int, i + 1).drop_last() =~= v@.subrange(start as int, i as int));
        if c < '0' || c > '9' {
            assert(d[i - start] == c);
            assert(!all_digits(d));
            return None;
        }
        let digit: usize = (c as u32 - '0' as u32) as usize;
        if acc > (usize::MAX - digit) / 10 {
            proof {
                assert(d.take(i + 1 - start) =~= v@.subrange(start as int, i + 1));
                lemma_digits_grow(v@.subrange(start as int, i + 1), d);
            }
            return None;
        }
        acc = acc * 10 + digit;
        i = i + 1;
    }
    assert(v@.subrange(start as int, v.len() as int) =~= d);
    Some(acc)
}

proof fn lemma_digits_prefix_le(p: Seq<char>, d: Seq<char>)
    requires
        p.len() <= d.len(),
        p == d.take(p.len() as int),
        all_digits(d),
    ensures
        digits_value(p) <= digits_value(d),
    decreases d.len(),
{
    if p.len() < d.len() {
        assert(d.drop_last().take(p.len() as int) =~= p);
        lemma_digits_prefix_le(p, d.drop_last());
        assert('0' <= d.last() && d.last() <= '9') by { assert(d[d.len() - 1] == d.last()); }
    } else {
        assert(p =~= d);
    }
}

proof fn lemma_digits_grow(p: Seq<char>, d: Seq<char>)
    requires
        p.len() <= d.len(),
        p == d.take(p.len() as int),
        digits_value(p) > usize::MAX,
    ensures
        !(all_digits(d) && digits_value(d) <= usize::MAX),
{
    if all_digits(d) {
        lemma_digits_prefix_le(p, d);
    }
}

/// `eval_lit`.
pub open spec fn spec_lit(l: Literal) -> Result<ValueView, ErrorView> {
    match l {
        Literal::Str(s) => Ok(ValueView::Str(s@)),
        Literal::Num(b) => Ok(if is_finite(b) { ValueView::Number(Num::Float(b)) } else { ValueView::Null }),
        Literal::Bool(b) => Ok(ValueView::Bool(b)),
        Literal::Null => Ok(ValueView::Null),
        Literal::Other => Err(ErrorView::Unsupported("literal type"@)),
    }
}

/// JavaScript `ToNumber` as the bits of a double.
pub open spec fn to_numeric(fa: Oracle, v: ValueView) -> u64 {
    match v {
        ValueView::Number(n) => num_to_f64(fa, n),
        ValueView::Bool(b) => if b { ONE_BITS } else { 0 },
        ValueView::Null => 0,
        ValueView::Str(s) => if trim(s).len() == 0 { 0 } else { parse_f64(fa, trim(s)) },
        _ => NAN_BITS,
    }
}

/// `serde_json::Number::from_f64(x).map_or(Value::Null, Value::Number)`.
pub open spec fn number_or_null(b: u64) -> ValueView {
    if is_finite(b) { ValueView::Number(Num::Float(b)) } else { ValueView::Null }
}

/// Member access `obj[key]`.
pub open spec fn access(obj: ValueView, key: Seq<char>) -> Result<ValueView, ErrorView> {
    match obj {
        ValueView::Object(o) => match lookup(o, key) {
            Some(v) => Ok(v),
            None => Err(ErrorView::UndefinedProp(key)),
        },
        ValueView::Array(a) => match parse_usize(key) {
            Some(idx) => if idx < a.len() { Ok(a[idx as int]) } else { Err(ErrorView::UndefinedProp(key)) },
            None => Err(ErrorView::UndefinedProp(key)),
        },
        _ => Err(ErrorView::UndefinedProp(key)),
    }
}

/// A numeric comparison of two evaluated operands; false where either is NaN.
pub open spec fn compare(fa: Oracle, op: BinOp, l: ValueView, r: ValueView) -> bool {
    let ln = to_numeric(fa, l);
    let rn = to_numeric(fa, r);
    if is_nan(ln) || is_nan(rn) {
        false
    } else {
        match op {
            BinOp::Gt => float_lt(rn, ln),
            BinOp::GtEq => float_le(rn, ln),
            BinOp::Lt => float_lt(ln, rn),
            _ => float_le(ln, rn),
        }
    }
}

/// `+`: concatenation where either side is a string, numeric addition otherwise.
pub open spec fn plus(fa: Oracle, l: ValueView, r: ValueView) -> ValueView {
    if l is Str || r is Str {
        ValueView::Str(to_text(fa, l) + to_text(fa, r))
    } else {
        number_or_null(add_f64(fa, to_numeric(fa, l), to_numeric(fa, r)))
    }
}

pub open spec fn prepend_text(acc: Seq<char>, r: Result<Seq<char>, ErrorView>) -> Result<Seq<char>, ErrorView> {
    match r {
        Ok(s) => Ok(acc + s),
        Err(e) => Err(e),
    }
}

/// The value of an expression in a scope.
pub open spec fn spec_eval(e: Expression, ctx: EvalContextView, fa: Oracle) -> Result<ValueView, ErrorView>
    decreases e, 0nat,
{
    match e {
        Expression::Literal(l) => spec_lit(l),
        Expression::Ident(name) => match lookup_last(ctx.locals, name@) {
            Some(v) => Ok(v),
            None => if name@ == "props"@ { Ok(ctx.props) } else { Err(ErrorView::UndefinedProp(name@)) },
        },
        Expression::Member(obj, prop) => match spec_eval(*obj, ctx, fa) {
            Err(err) => Err(err),
            Ok(o) => match prop {
                MemberProperty::Ident(id) => access(o, id@),
                MemberProperty::Computed(c) => match spec_eval(*c, ctx, fa) {
                    Err(err) => Err(err),
                    Ok(k) => access(o, to_text(fa, k)),
                },
                MemberProperty::PrivateName => Err(ErrorView::Unsupported("member property type"@)),
            },
        },
        Expression::Bin(op, l, r) => match op {
            BinOp::Other(d) => Err(ErrorView::Unsupported("binary operator: "@ + d@)),
            _ => match spec_eval(*l, ctx, fa) {
                Err(err) => Err(err),
                Ok(lv) => match op {
                    BinOp::LogicalAnd => if !truthy(fa, lv) { Ok(lv) } else { spec_eval(*r, ctx, fa) },
                    BinOp::LogicalOr => if truthy(fa, lv) { Ok(lv) } else { spec_eval(*r, ctx, fa) },
                    _ => match spec_eval(*r, ctx, fa) {
                        Err(err) => Err(err),
                        Ok(rv) => match op {
                            BinOp::EqEqEq | BinOp::EqEq => Ok(ValueView::Bool(value_eq(lv, rv))),
                            BinOp::NotEqEq | BinOp::NotEq => Ok(ValueView::Bool(!value_eq(lv, rv))),
                            BinOp::Add => Ok(plus(fa, lv, rv)),
                            _ => Ok(ValueView::Bool(compare(fa, op, lv, rv))),
                        },
                    },
                },
            },
        },
        Expression::Cond(t, c, a) => match spec_eval(*t, ctx, fa) {
            Err(err) => Err(err),
            Ok(tv) => if truthy(fa, tv) { spec_eval(*c, ctx, fa) } else { spec_eval(*a, ctx, fa) },
        },
        Expression::Unary(op, a) => match op {
            UnaryOperator::Other(d) => Err(ErrorView::Unsupported("unary operator: "@ + d@)),
            _ => match spec_eval(*a, ctx, fa) {
                Err(err) => Err(err),
                Ok(v) => match op {
                    UnaryOperator::Bang => Ok(ValueView::Bool(!truthy(fa, v))),
                    UnaryOperator::Minus => Ok(number_or_null(negate(to_numeric(fa, v)))),
                    _ => Ok(number_or_null(to_numeric(fa, v))),
                },
            },
        },
        Expression::Tpl(quasis, exprs) => match spec_template(quasis@, exprs@, 0, ctx, fa) {
            Ok(s) => Ok(ValueView::Str(s)),
            Err(err) => Err(err),
        },
        Expression::Paren(p) => spec_eval(*p, ctx, fa),
        Expression::JsxElement { debug, .. } => Err(ErrorView::Unsupported("expression type: "@ + debug@)),
        Expression::JsxFragment { debug, .. } => Err(ErrorView::Unsupported("expression type: "@ + debug@)),
        Expression::Call { debug, .. } => Err(ErrorView::Unsupported("expression type: "@ + debug@)),
        Expression::Arrow { debug, .. } => Err(ErrorView::Unsupported("expression type: "@ + debug@)),
        Expression::Fn { debug, .. } => Err(ErrorView::Unsupported("expression type: "@ + debug@)),
        Expression::Object { debug, .. } => Err(ErrorView::Unsupported("expression type: "@ + debug@)),
        Expression::Other { debug } => Err(ErrorView::Unsupported("expression type: "@ + debug@)),
    }
}

/// A name bound by a `map` callback hides the props and any outer binding of the
/// same name; `props` names the props wherever no binding hides it.
pub proof fn innermost_binding_wins(ctx: EvalContextView, name: String, v: ValueView, fa: Oracle)
    ensures
        spec_eval(Expression::Ident(name), EvalContextView { props: ctx.props, locals: ctx.locals.push((name@, v)) }, fa)
            == Ok::<ValueView, ErrorView>(v),
        lookup_last(ctx.locals, "props"@) is None && name@ == "props"@ ==> spec_eval(Expression::Ident(name), ctx, fa)
            == Ok::<ValueView, ErrorView>(ctx.props),
{
    assert(ctx.locals.push((name@, v)).last() == (name@, v));
}

/// The text of a template literal from quasi `i` on: each raw quasi, followed by
/// the text of the expression at the same position where there is one.
pub open spec fn spec_template(
    quasis: Seq<String>,
    exprs: Seq<Expression>,
    i: int,
    ctx: EvalContextView,
    fa: Oracle,
) -> Result<Seq<char>, ErrorView>
    decreases exprs, quasis.len() - i,
{
    if i < 0 || i >= quasis.len() {
        Ok(Seq::empty())
    } else if i < exprs.len() {
        match spec_eval(exprs[i], ctx, fa) {
            Err(err) => Err(err),
            Ok(v) => prepend_text(quasis[i]@ + to_text(fa, v), spec_template(quasis, exprs, i + 1, ctx, fa)),
        }
    } else {
        prepend_text(quasis[i]@, spec_template(quasis, exprs, i + 1, ctx, fa))
    }
}

} // verus!

verus! {

/// The model of an evaluation result.
pub open spec fn res_view(r: Result<Value, JsxrsError>) -> Result<ValueView, ErrorView> {
    match r {
        Ok(v) => Ok(v@),
        Err(e) => Err(e@),
    }
}

fn unsupported_with(prefix: &str, detail: &String) -> (e: JsxrsError)
    ensures
        e@ == ErrorView::Unsupported(prefix@ + detail@),
{
    let mut s = string_from(prefix);
    push_str(&mut s, detail.as_str());
    JsxrsError::Unsupported(s)
}

fn eval_lit(l: &Literal) -> (r: Result<Value, JsxrsError>)
    ensures
        res_view(r) == spec_lit(*l),
{
    match l {
        Literal::Str(s) => Ok(Value::Str(copy_string(s))),
        Literal::Num(b) => Ok(number_or_null_value(*b)),
        Literal::Bool(b) => Ok(Value::Bool(*b)),
        Literal::Null => Ok(Value::Null),
        Literal::Other => Err(unsupported("literal type")),
    }
}

fn number_or_null_value(b: u64) -> (r: Value)
    ensures
        r@ == number_or_null(b),
{
    if bits_is_finite(b) { Value::Number(Num::Float(b)) } else { Value::Null }
}

/// `obj[key]`.
pub fn access_value(obj: &Value, key: &str) -> (r: Result<Value, JsxrsError>)
    ensures
        res_view(r) == access(obj@, key@),
{
    match obj {
        Value::Object(o) => {
            assert(obj@ == ValueView::Object(entries_view(o@))) by {
                let t = obj@->Object_0;
                assert(t =~= entries_view(o@));
            }
            match get_field(o, key) {
                Some(v) => Ok(clone_value(v)),
                None => Err(JsxrsError::UndefinedProp(string_from(key))),
            }
        },
        Value::Array(a) => {
            assert(obj@ == ValueView::Array(values_view(a@))) by {
                let t = obj@->Array_0;
                assert(t =~= values_view(a@));
            }
            match str_to_usize(key) {
                Some(idx) => if idx < a.len() {
                    Ok(clone_value(&a[idx]))
                } else {
                    Err(JsxrsError::UndefinedProp(string_from(key)))
                },
                None => Err(JsxrsError::UndefinedProp(string_from(key))),
            }
        },
        _ => Err(JsxrsError::UndefinedProp(string_from(key))),
    }
}

/// JavaScript `ToNumber`.
pub fn to_numeric_value<F: Fn(FloatQuery) -> FloatAnswer>(v: &Value, f: &F) -> (r: u64)
    requires
        is_float_oracle(*f),
    ensures
        r == to_numeric(answers(*f), v@),
{
    match v {
        Value::Number(n) => num_as_f64(f, *n),
        Value::Bool(b) => if *b { ONE_BITS } else { 0 },
        Value::Null => 0,
        Value::Str(s) => {
            let cv = chars_of(s.as_str());
            let (lo, hi) = trim_bounds(&cv);
            if lo == hi {
                0
            } else {
                f64_parse(f, string_of(&cv, lo, hi))
            }
        },
        _ => NAN_BITS,
    }
}

fn compare_values<F: Fn(FloatQuery) -> FloatAnswer>(op: &BinOp, l: &Value, r: &Value, f: &F) -> (res: bool)
    requires
        is_float_oracle(*f),
    ensures
        res == compare(answers(*f), *op, l@, r@),
{
    let ln = to_numeric_value(l, f);
    let rn = to_numeric_value(r, f);
    if bits_is_nan(ln) || bits_is_nan(rn) {
        false
    } else {
        match op {
            BinOp::Gt => bits_lt(rn, ln),
            BinOp::GtEq => bits_le(rn, ln),
            BinOp::Lt => bits_lt(ln, rn),
            _ => bits_le(ln, rn),
        }
    }
}

fn plus_values<F: Fn(FloatQuery) -> FloatAnswer>(l: &Value, r: &Value, f: &F) -> (res: Value)
    requires
        is_float_oracle(*f),
    ensures
        res@ == plus(answers(*f), l@, r@),
{
    let l_str = match l { Value::Str(_) => true, _ => false };
    let r_str = match r { Value::Str(_) => true, _ => false };
    if l_str || r_str {
        let mut s = value_to_string(l, f);
        let t = value_to_string(r, f);
        push_str(&mut s, t.as_str());
        Value::Str(s)
    } else {
        let sum = f64_add(f, to_numeric_value(l, f), to_numeric_value(r, f));
        number_or_null_value(sum)
    }
}

/// Evaluates an expression in a scope.
#[verifier::loop_isolation(false)]
pub fn eval_expr<F: Fn(FloatQuery) -> FloatAnswer>(e: &Expression, ctx: &EvalContext, f: &F) -> (r: Result<Value, JsxrsError>)
    requires
        is_float_oracle(*f),
    ensures
        res_view(r) == spec_eval(*e, ctx@, answers(*f)),
    decreases e, 0nat,
{
    match e {
        Expression::Literal(l) => eval_lit(l),
        Expression::Ident(name) => {
            match ctx.lookup_local(name.as_str()) {
                Some(v) => Ok(clone_value(v)),
                None => {
                    if str_eq(name.as_str(), "props") {
                        Ok(clone_value(&ctx.props))
                    } else {
                        Err(JsxrsError::UndefinedProp(copy_string(name)))
                    }
                },
            }
        },
        Expression::Member(obj, prop) => {
            let o = eval_expr(obj, ctx, f)?;
            match prop {
                MemberProperty::Ident(id) => access_value(&o, id.as_str()),
                MemberProperty::Computed(c) => {
                    let k = eval_expr(c, ctx, f)?;
                    let key = value_to_string(&k, f);
                    access_value(&o, key.as_str())
                },
                MemberProperty::PrivateName => Err(unsupported("member property type")),
            }
        },
        Expression::Bin(op, l, r) => {
            if let BinOp::Other(d) = op {
                return Err(unsupported_with("binary operator: ", d));
            }
            let lv = eval_expr(l, ctx, f)?;
            match op {
                BinOp::LogicalAnd => {
                    if !is_truthy(&lv, f) {
                        Ok(lv)
                    } else {
                        eval_expr(r, ctx, f)
                    }
                },
                BinOp::LogicalOr => {
                    if is_truthy(&lv, f) {
                        Ok(lv)
                    } else {
                        eval_expr(r, ctx, f)
                    }
                },
                _ => {
                    let rv = eval_expr(r, ctx, f)?;
                    match op {
                        BinOp::EqEqEq | BinOp::EqEq => Ok(Value::Bool(values_equal(&lv, &rv))),
                        BinOp::NotEqEq | BinOp::NotEq => Ok(Value::Bool(!values_equal(&lv, &rv))),
                        BinOp::Add => Ok(plus_values(&lv, &rv, f)),
                        _ => Ok(Value::Bool(compare_values(op, &lv, &rv, f))),
                    }
                },
            }
        },
        Expression::Cond(t, c, a) => {
            let tv = eval_expr(t, ctx, f)?;
            if is_truthy(&tv, f) {
                eval_expr(c, ctx, f)
            } else {
                eval_expr(a, ctx, f)
            }
        },
        Expression::Unary(op, a) => {
            if let UnaryOperator::Other(d) = op {
                return Err(unsupported_with("unary operator: ", d));
            }
            let v = eval_expr(a, ctx, f)?;
            match op {
                UnaryOperator::Bang => Ok(Value::Bool(!is_truthy(&v, f))),
                UnaryOperator::Minus => Ok(number_or_null_value(bits_negate(to_numeric_value(&v, f)))),
                _ => Ok(number_or_null_value(to_numeric_value(&v, f))),
            }
        },
        Expression::Tpl(quasis, exprs) => {
            let ghost fa = answers(*f);
            let mut out = String::new();
            let mut i: usize = 0;
            assert(out@ + Seq::<char>::empty() =~= Seq::<char>::empty());
            while i < quasis.len()
                invariant
                    i <= quasis.len(),
                    spec_template(quasis@, exprs@, 0, ctx@, fa) == prepend_text(
                        out@,
                        spec_template(quasis@, exprs@, i as int, ctx@, fa),
                    ),
                decreases quasis.len() - i,
            {
                push_str(&mut out, quasis[i].as_str());
                if i < exprs.len() {
                    let v = eval_expr(&exprs[i], ctx, f)?;
                    let t = value_to_string(&v, f);
                    push_str(&mut out, t.as_str());
                }
                i = i + 1;
                assert(forall|x: Seq<char>, y: Seq<char>, z: Seq<char>| (x + y) + z =~= x + (y + z));
            }
            assert(out@ + Seq::<char>::empty() =~= out@);
            Ok(Value::Str(out))
        },
        Expression::Paren(p) => eval_expr(p, ctx, f),
        Expression::JsxElement { debug, .. } => Err(unsupported_with("expression type: ", debug)),
        Expression::JsxFragment { debug, .. } => Err(unsupported_with("expression type: ", debug)),
        Expression::Call { debug, .. } => Err(unsupported_with("expression type: ", debug)),
        Expression::Arrow { debug, .. } => Err(unsupported_with("expression type: ", debug)),
        Expression::Fn { debug, .. } => Err(unsupported_with("expression type: ", debug)),
        Expression::Object { debug, .. } => Err(unsupported_with("expression type: ", debug)),
        Expression::Other { debug } => Err(unsupported_with("expression type: ", debug)),
    }
}

/// The four numeric comparisons are one order seen four ways. Where neither operand
/// is NaN, `a >= b` holds exactly when `a > b` or `a == b`, and `a <= b` exactly when
/// `a < b` or `a == b`; `a > b` is `b < a` and `a >= b` is `b <= a`; and every number
/// that is not NaN is `>=` and `<=` itself, and neither `>` nor `<` it.
pub proof fn comparisons_are_one_order(fa: Oracle, l: ValueView, r: ValueView)
    ensures
        compare(fa, BinOp::Gt, l, r) == compare(fa, BinOp::Lt, r, l),
        compare(fa, BinOp::GtEq, l, r) == compare(fa, BinOp::LtEq, r, l),
        !is_nan(to_numeric(fa, l)) && !is_nan(to_numeric(fa, r)) ==> {
            &&& compare(fa, BinOp::GtEq, l, r) == (compare(fa, BinOp::Gt, l, r) || float_eq(to_numeric(fa, l), to_numeric(fa, r)))
            &&& compare(fa, BinOp::LtEq, l, r) == (compare(fa, BinOp::Lt, l, r) || float_eq(to_numeric(fa, l), to_numeric(fa, r)))
        },
        !is_nan(to_numeric(fa, l)) ==> {
            &&& compare(fa, BinOp::GtEq, l, l)
            &&& compare(fa, BinOp::LtEq, l, l)
            &&& !compare(fa, BinOp::Gt, l, l)
            &&& !compare(fa, BinOp::Lt, l, l)
        },
{
    let ln = to_numeric(fa, l);
    let rn = to_numeric(fa, r);
    if !is_nan(ln) && !is_nan(rn) {
        crate::num::float_lt_is_strict_order(ln, rn, ln);
        crate::num::float_eq_is_symmetric(ln, rn);
    }
    if !is_nan(ln) {
        crate::num::float_lt_is_strict_order(ln, ln, ln);
    }
}

/// On doubles that are not negative (sign bit clear) and not NaN, the comparisons
/// order values as their bit patterns are ordered: a larger pattern is a larger number.
pub proof fn comparisons_follow_the_order_of_non_negative_doubles(fa: Oracle, a: u64, b: u64)
    requires
        a < SIGN_BIT,
        b < SIGN_BIT,
        !is_nan(a),
        !is_nan(b),
    ensures
        compare(fa, BinOp::Gt, ValueView::Number(Num::Float(a)), ValueView::Number(Num::Float(b))) == (a > b),
        compare(fa, BinOp::GtEq, ValueView::Number(Num::Float(a)), ValueView::Number(Num::Float(b))) == (a >= b),
        compare(fa, BinOp::Lt, ValueView::Number(Num::Float(a)), ValueView::Number(Num::Float(b))) == (a < b),
        compare(fa, BinOp::LtEq, ValueView::Number(Num::Float(a)), ValueView::Number(Num::Float(b))) == (a <= b),
{
    assert(a % SIGN_BIT == a);
    assert(b % SIGN_BIT == b);
}

} // verus!
