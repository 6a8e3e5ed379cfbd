//! The JSON values that props and expressions evaluate to.
use vstd::prelude::*;
use crate::num::{
    Num, FloatQuery, FloatAnswer, Oracle, is_float_oracle, answers, num_to_f64, display_f64,
    float_eq, is_zero, num_as_f64, f64_display, bits_eq, bits_is_zero,
};
use crate::text::{copy_string, str_eq, string_from};

verus! {

broadcast use vstd::string::group_string_axioms;

/// A JSON value. Objects keep their entries in a list; a key is looked up at its first entry.
pub enum Value {
    Null,
    Bool(bool),
    Number(Num),
    Str(String),
    Array(Vec<Value>),
    Object(Vec<(String, Value)>),
}

/// The mathematical model of a [`Value`].
pub enum ValueView {
    Null,
    Bool(bool),
    Number(Num),
    Str(Seq<char>),
    Array(Seq<ValueView>),
    Object(Seq<(Seq<char>, ValueView)>),
}

pub open spec fn value_view(v: Value) -> ValueView
    decreases v,
{
    match v {
        Value::Null => ValueView::Null,
        Value::Bool(b) => ValueView::Bool(b),
        Value::Number(n) => ValueView::Number(n),
        Value::Str(s) => ValueView::Str(s@),
        Value::Array(a) => ValueView::Array(
            Seq::new(a.len() as nat, |i: int| if 0 <= i < a.len() { value_view(a@[i]) } else { ValueView::Null }),
        ),
        Value::Object(o) => ValueView::Object(
            Seq::new(
                o.len() as nat,
                |i: int| if 0 <= i < o.len() { (o@[i].0@, value_view(o@[i].1)) } else { (Seq::empty(), ValueView::Null) },
            ),
        ),
    }
}

impl View for Value {
    type V = ValueView;

    open spec fn view(&self) -> ValueView {
        value_view(*self)
    }
}

/// The models of a list of values.
pub open spec fn values_view(v: Seq<Value>) -> Seq<ValueView> {
    v.map_values(|x: Value| x@)
}

/// The models of a list of object entries.
pub open spec fn entries_view(v: Seq<(String, Value)>) -> Seq<(Seq<char>, ValueView)> {
    v.map_values(|e: (String, Value)| (e.0@, e.1@))
}

/// `serde_json::Map::get`: the value of the first entry with key `k`.
pub open spec fn lookup(entries: Seq<(Seq<char>, ValueView)>, k: Seq<char>) -> Option<ValueView>
    decreases entries.len(),
{
    if entries.len() == 0 {
        None
    } else if entries[0].0 == k {
        Some(entries[0].1)
    } else {
        lookup(entries.drop_first(), k)
    }
}

/// JavaScript truthiness: `null`, `false`, `0` (an integer zero, or a double zero of
/// either sign) and `""` are falsy.
pub open spec fn truthy(fa: Oracle, v: ValueView) -> bool {
    match v {
        ValueView::Null => false,
        ValueView::Bool(b) => b,
        ValueView::Number(Num::PosInt(u)) => u != 0,
        ValueView::Number(Num::NegInt(i)) => i != 0,
        ValueView::Number(Num::Float(b)) => !is_zero(b),
        ValueView::Str(s) => s.len() > 0,
        ValueView::Array(_) => true,
        ValueView::Object(_) => true,
    }
}

/// The text of a value: strings as they are, numbers as `f64` displays them,
/// booleans as `true`/`false`, and nothing for null, arrays and objects.
pub open spec fn to_text(fa: Oracle, v: ValueView) -> Seq<char> {
    match v {
        ValueView::Str(s) => s,
        ValueView::Number(n) => display_f64(fa, num_to_f64(fa, n)),
        ValueView::Bool(b) => if b { "true"@ } else { "false"@ },
        _ => Seq::empty(),
    }
}

/// The raw HTML of a `{ "__html": "..." }` object.
pub open spec fn raw_html(v: ValueView) -> Option<Seq<char>> {
    match v {
        ValueView::Object(o) => match lookup(o, "__html"@) {
            Some(ValueView::Str(s)) => Some(s),
            _ => None,
        },
        _ => None,
    }
}

/// `serde_json::Number` equality: same kind and same value (IEEE equality for doubles).
pub open spec fn num_eq(a: Num, b: Num) -> bool {
    match (a, b) {
        (Num::PosInt(x), Num::PosInt(y)) => x == y,
        (Num::NegInt(x), Num::NegInt(y)) => x == y,
        (Num::Float(x), Num::Float(y)) => float_eq(x, y),
        _ => false,
    }
}

/// `serde_json::Value` equality: arrays element by element, objects as maps.
pub open spec fn value_eq(a: ValueView, b: ValueView) -> bool
    decreases a,
{
    match (a, b) {
        (ValueView::Null, ValueView::Null) => true,
        (ValueView::Bool(x), ValueView::Bool(y)) => x == y,
        (ValueView::Number(x), ValueView::Number(y)) => num_eq(x, y),
        (ValueView::Str(x), ValueView::Str(y)) => x == y,
        (ValueView::Array(x), ValueView::Array(y)) => x.len() == y.len() && forall|i: int|
            0 <= i < x.len() ==> value_eq(x[i], #[trigger] y[i]),
        (ValueView::Object(x), ValueView::Object(y)) => x.len() == y.len() && forall|i: int|
            0 <= i < x.len() ==> match #[trigger] lookup(y, x[i].0) {
                Some(w) => value_eq(x[i].1, w),
                None => false,
            },
        _ => false,
    }
}

pub proof fn lemma_value_view_array(a: Vec<Value>)
    ensures
        value_view(Value::Array(a)) == ValueView::Array(values_view(a@)),
{
    let t = value_view(Value::Array(a))->Array_0;
    assert(value_view(Value::Array(a)) is Array);
    assert(t =~= values_view(a@));
}

pub proof fn lemma_value_view_object(o: Vec<(String, Value)>)
    ensures
        value_view(Value::Object(o)) == ValueView::Object(entries_view(o@)),
{
    let t = value_view(Value::Object(o))->Object_0;
    assert(value_view(Value::Object(o)) is Object);
    assert(t =~= entries_view(o@));
}

/// A copy of a value.
#[verifier::loop_isolation(false)]
pub fn clone_value(v: &Value) -> (r: Value)
    ensures
        r@ == v@,
    decreases v,
{
    match v {
        Value::Null => Value::Null,
        Value::Bool(b) => Value::Bool(*b),
        Value::Number(n) => Value::Number(*n),
        Value::Str(s) => Value::Str(copy_string(s)),
        Value::Array(a) => {
            let mut out: Vec<Value> = Vec::new();
            let mut i: usize = 0;
            while i < a.len()
                invariant
                    i <= a.len(),
                    out.len() == i,
                    forall|k: int| 0 <= k < i ==> out@[k]@ == a@[k]@,
                decreases a.len() - i,
            {
                out.push(clone_value(&a[i]));
                i = i + 1;
            }
            proof {
                lemma_value_view_array(out);
                lemma_value_view_array(*a);
                assert(values_view(out@) =~= values_view(a@));
            }
            Value::Array(out)
        },
        Value::Object(o) => {
            let mut out: Vec<(String, Value)> = Vec::new();
            let mut i: usize = 0;
            while i < o.len()
                invariant
                    i <= o.len(),
                    out.len() == i,
                    forall|k: int| 0 <= k < i ==> out@[k].0@ == o@[k].0@ && out@[k].1@ == o@[k].1@,
                decreases o.len() - i,
            {
                out.push((copy_string(&o[i].0), clone_value(&o[i].1)));
                i = i + 1;
            }
            proof {
                lemma_value_view_object(out);
                lemma_value_view_object(*o);
                assert(entries_view(out@) =~= entries_view(o@));
            }
            Value::Object(out)
        },
    }
}

/// The index of the first entry with key `k`.
pub fn find_entry(o: &Vec<(String, Value)>, k: &str) -> (r: Option<usize>)
    ensures
        match r {
            Some(i) => i < o.len() && lookup(entries_view(o@), k@) == Some(o@[i as int].1@) && o@[i as int].0@
                == k@ && forall|m: int| 0 <= m < i ==> o@[m].0@ != k@,
            None => lookup(entries_view(o@), k@) is None,
        },
{
    let mut i: usize = 0;
    assert(entries_view(o@).skip(0) =~= entries_view(o@));
    while i < o.len()
        invariant
            i <= o.len(),
            lookup(entries_view(o@), k@) == lookup(entries_view(o@).skip(i as int), k@),
            forall|m: int| 0 <= m < i ==> o@[m].0@ != k@,
        decreases o.len() - i,
    {
        assert(entries_view(o@).skip(i as int).drop_first() =~= entries_view(o@).skip(i + 1));
        if str_eq(o[i].0.as_str(), k) {
            return Some(i);
        }
        i = i + 1;
    }
    None
}

/// `serde_json::Map::get`.
pub fn get_field<'a>(o: &'a Vec<(String, Value)>, k: &str) -> (r: Option<&'a Value>)
    ensures
        match r {
            Some(v) => lookup(entries_view(o@), k@) == Some(v@),
            None => lookup(entries_view(o@), k@) is None,
        },
{
    match find_entry(o, k) {
        Some(i) => Some(&o[i].1),
        None => None,
    }
}

/// The position of the first entry with key `k`.
pub open spec fn index_of_key(e: Seq<(Seq<char>, ValueView)>, k: Seq<char>) -> Option<int>
    decreases e.len(),
{
    if e.len() == 0 {
        None
    } else if e[0].0 == k {
        Some(0)
    } else {
        match index_of_key(e.drop_first(), k) {
            Some(i) => Some(i + 1),
            None => None,
        }
    }
}

/// `serde_json::Map::insert` on object entries: the value of the first entry with key `k`
/// replaced, or an entry appended.
pub open spec fn insert_entry(e: Seq<(Seq<char>, ValueView)>, k: Seq<char>, v: ValueView) -> Seq<(Seq<char>, ValueView)> {
    match index_of_key(e, k) {
        Some(i) => e.update(i, (k, v)),
        None => e.push((k, v)),
    }
}

proof fn lemma_index_of_key(e: Seq<(Seq<char>, ValueView)>, k: Seq<char>, i: int)
    requires
        0 <= i < e.len(),
        e[i].0 == k,
        forall|m: int| 0 <= m < i ==> e[m].0 != k,
    ensures
        index_of_key(e, k) == Some(i),
    decreases e.len(),
{
    if i > 0 {
        lemma_index_of_key(e.drop_first(), k, i - 1);
    }
}

proof fn lemma_index_of_key_none(e: Seq<(Seq<char>, ValueView)>, k: Seq<char>)
    requires
        lookup(e, k) is None,
    ensures
        index_of_key(e, k) is None,
    decreases e.len(),
{
    if e.len() > 0 {
        lemma_index_of_key_none(e.drop_first(), k);
    }
}

/// `serde_json::Map::insert`: replaces the value of the first entry with key `k`, or appends an entry.
pub fn insert_field(o: &mut Vec<(String, Value)>, k: String, v: Value)
    ensures
        entries_view(final(o)@) == insert_entry(entries_view(old(o)@), k@, v@),
        lookup(entries_view(final(o)@), k@) == Some(v@),
        forall|j: Seq<char>| j != k@ ==> lookup(entries_view(final(o)@), j) == lookup(entries_view(old(o)@), j),
{
    match find_entry(o, k.as_str()) {
        Some(i) => {
            let ghost before = entries_view(o@);
            let ghost kv = k@;
            let ghost vv = v@;
            o.set(i, (k, v));
            proof {
                assert(entries_view(o@) =~= before.update(i as int, (kv, vv)));
                lemma_index_of_key(before, kv, i as int);
                lemma_lookup_update_same(before, i as int, kv, vv);
                assert forall|j: Seq<char>| j != kv implies lookup(entries_view(o@), j) == lookup(before, j) by {
                    lemma_lookup_update_other(before, i as int, kv, vv, j);
                }
            }
        },
        None => {
            let ghost before = entries_view(o@);
            let ghost kv = k@;
            let ghost vv = v@;
            o.push((k, v));
            proof {
                assert(entries_view(o@) =~= before.push((kv, vv)));
                lemma_index_of_key_none(before, kv);
                lemma_lookup_push_same(before, kv, vv);
                assert forall|j: Seq<char>| j != kv implies lookup(entries_view(o@), j) == lookup(before, j) by {
                    lemma_lookup_push_other(before, kv, vv, j);
                }
            }
        },
    }
}

proof fn lemma_lookup_update_other(e: Seq<(Seq<char>, ValueView)>, i: int, k: Seq<char>, v: ValueView, j: Seq<char>)
    requires
        0 <= i < e.len(),
        e[i].0 == k,
        j != k,
    ensures
        lookup(e.update(i, (k, v)), j) == lookup(e, j),
    decreases e.len(),
{
    if e[0].0 == j {
        assert(i != 0);
        assert(e.update(i, (k, v))[0] == e[0]);
    } else if i == 0 {
        assert(e.update(i, (k, v)).drop_first() =~= e.drop_first());
    } else {
        lemma_lookup_update_other(e.drop_first(), i - 1, k, v, j);
        assert(e.update(i, (k, v)).drop_first() =~= e.drop_first().update(i - 1, (k, v)));
    }
}

proof fn lemma_lookup_update_same(e: Seq<(Seq<char>, ValueView)>, i: int, k: Seq<char>, v: ValueView)
    requires
        0 <= i < e.len(),
        e[i].0 == k,
        forall|m: int| 0 <= m < i ==> e[m].0 != k,
    ensures
        lookup(e.update(i, (k, v)), k) == Some(v),
    decreases e.len(),
{
    if i != 0 {
        assert(e[0].0 != k);
        lemma_lookup_update_same(e.drop_first(), i - 1, k, v);
        assert(e.update(i, (k, v)).drop_first() =~= e.drop_first().update(i - 1, (k, v)));
    }
}

proof fn lemma_lookup_push_other(e: Seq<(Seq<char>, ValueView)>, k: Seq<char>, v: ValueView, j: Seq<char>)
    requires
        j != k,
    ensures
        lookup(e.push((k, v)), j) == lookup(e, j),
    decreases e.len(),
{
    if e.len() == 0 {
        assert(e.push((k, v))[0].0 == k);
        assert(e.push((k, v)).drop_first() =~= Seq::<(Seq<char>, ValueView)>::empty());
        assert(lookup(Seq::<(Seq<char>, ValueView)>::empty(), j) is None);
    } else if e[0].0 == j {
        assert(e.push((k, v))[0] == e[0]);
    } else {
        lemma_lookup_push_other(e.drop_first(), k, v, j);
        assert(e.push((k, v)).drop_first() =~= e.drop_first().push((k, v)));
    }
}

proof fn lemma_lookup_push_same(e: Seq<(Seq<char>, ValueView)>, k: Seq<char>, v: ValueView)
    requires
        lookup(e, k) is None,
    ensures
        lookup(e.push((k, v)), k) == Some(v),
    decreases e.len(),
{
    if e.len() == 0 {
        assert(e.push((k, v))[0].0 == k);
    } else {
        lemma_lookup_push_same(e.drop_first(), k, v);
        assert(e.push((k, v)).drop_first() =~= e.drop_first().push((k, v)));
    }
}

/// JavaScript truthiness.
pub fn is_truthy<F: Fn(FloatQuery) -> FloatAnswer>(v: &Value, f: &F) -> (r: bool)
    requires
        is_float_oracle(*f),
    ensures
        r == truthy(answers(*f), v@),
{
    match v {
        Value::Null => false,
        Value::Bool(b) => *b,
        Value::Number(Num::PosInt(u)) => *u != 0,
        Value::Number(Num::NegInt(i)) => *i != 0,
        Value::Number(Num::Float(b)) => !bits_is_zero(*b),
        Value::Str(s) => s.as_str().unicode_len() > 0,
        Value::Array(_) => true,
        Value::Object(_) => true,
    }
}

/// The text of a value.
pub fn value_to_string<F: Fn(FloatQuery) -> FloatAnswer>(v: &Value, f: &F) -> (r: String)
    requires
        is_float_oracle(*f),
    ensures
        r@ == to_text(answers(*f), v@),
{
    match v {
        Value::Str(s) => copy_string(s),
        Value::Number(n) => f64_display(f, num_as_f64(f, *n)),
        Value::Bool(b) => if *b { string_from("true") } else { string_from("false") },
        _ => String::new(),
    }
}

/// The raw HTML string of a `{ "__html": "..." }` object.
pub fn extract_raw_html(v: &Value) -> (r: Option<&String>)
    ensures
        match r {
            Some(s) => raw_html(v@) == Some(s@),
            None => raw_html(v@) is None,
        },
{
    match v {
        Value::Object(o) => {
            proof { lemma_value_view_object(*o); }
            match get_field(o, "__html") {
                Some(Value::Str(s)) => Some(s),
                _ => None,
            }
        },
        _ => None,
    }
}

fn num_equal(a: Num, b: Num) -> (r: bool)
    ensures
        r == num_eq(a, b),
{
    match (a, b) {
        (Num::PosInt(x), Num::PosInt(y)) => x == y,
        (Num::NegInt(x), Num::NegInt(y)) => x == y,
        (Num::Float(x), Num::Float(y)) => bits_eq(x, y),
        _ => false,
    }
}

/// `serde_json::Value` equality.
#[verifier::loop_isolation(false)]
pub fn values_equal(a: &Value, b: &Value) -> (r: bool)
    ensures
        r == value_eq(a@, b@),
    decreases a,
{
    match (a, b) {
        (Value::Null, Value::Null) => true,
        (Value::Bool(x), Value::Bool(y)) => *x == *y,
        (Value::Number(x), Value::Number(y)) => num_equal(*x, *y),
        (Value::Str(x), Value::Str(y)) => str_eq(x.as_str(), y.as_str()),
        (Value::Array(x), Value::Array(y)) => {
            proof {
                lemma_value_view_array(*x);
                lemma_value_view_array(*y);
            }
            if x.len() != y.len() {
                return false;
            }
            let mut i: usize = 0;
            while i < x.len()
                invariant
                    i <= x.len() == y.len(),
                    forall|k: int| 0 <= k < i ==> value_eq(x@[k]@, y@[k]@),
                decreases x.len() - i,
            {
                if !values_equal(&x[i], &y[i]) {
                    assert(values_view(y@)[i as int] == y@[i as int]@);
                    return false;
                }
                i = i + 1;
            }
            assert forall|k: int| 0 <= k < values_view(x@).len() implies value_eq(
                values_view(x@)[k],
                #[trigger] values_view(y@)[k],
            ) by {
                assert(values_view(x@)[k] == x@[k]@);
            }
            true
        },
        (Value::Object(x), Value::Object(y)) => {
            proof {
                lemma_value_view_object(*x);
                lemma_value_view_object(*y);
            }
            if x.len() != y.len() {
                return false;
            }
            let mut i: usize = 0;
            while i < x.len()
                invariant
                    i <= x.len() == y.len(),
                    forall|k: int|
                        0 <= k < i ==> match #[trigger] lookup(entries_view(y@), entries_view(x@)[k].0) {
                            Some(w) => value_eq(entries_view(x@)[k].1, w),
                            None => false,
                        },
                decreases x.len() - i,
            {
                assert(entries_view(x@)[i as int] == (x@[i as int].0@, x@[i as int].1@));
                match get_field(y, x[i].0.as_str()) {
                    Some(w) => {
                        assert(lookup(entries_view(y@), entries_view(x@)[i as int].0) == Some(w@));
                        if !values_equal(&x[i].1, w) {
                            return false;
                        }
                    },
                    None => {
                        assert(lookup(entries_view(y@), entries_view(x@)[i as int].0) is None);
                        return false;
                    },
                }
                i = i + 1;
            }
            true
        },
        _ => false,
    }
}

/// Every object in `v`, at any depth, has distinct keys (as every `serde_json` map has).
pub open spec fn keys_distinct(v: ValueView) -> bool
    decreases v,
{
    match v {
        ValueView::Array(a) => forall|i: int| 0 <= i < a.len() ==> keys_distinct(#[trigger] a[i]),
        ValueView::Object(o) => {
            &&& forall|i: int, j: int| 0 <= i < j < o.len() ==> o[i].0 != o[j].0
            &&& forall|i: int| 0 <= i < o.len() ==> keys_distinct(#[trigger] o[i].1)
        },
        _ => true,
    }
}

proof fn lemma_index_of_key_some(e: Seq<(Seq<char>, ValueView)>, k: Seq<char>)
    ensures
        (lookup(e, k) is Some) == (index_of_key(e, k) is Some),
        index_of_key(e, k) matches Some(i) ==> 0 <= i < e.len() && e[i].0 == k && lookup(e, k) == Some(e[i].1),
    decreases e.len(),
{
    if e.len() > 0 && e[0].0 != k {
        lemma_index_of_key_some(e.drop_first(), k);
    }
}

proof fn lemma_lookup_distinct(e: Seq<(Seq<char>, ValueView)>, j: int)
    requires
        0 <= j < e.len(),
        forall|a: int, b: int| 0 <= a < b < e.len() ==> e[a].0 != e[b].0,
    ensures
        lookup(e, e[j].0) == Some(e[j].1),
{
    lemma_index_of_key(e, e[j].0, j);
    lemma_index_of_key_some(e, e[j].0);
}

/// Some index of `0..n` is mapped to `k`.
spec fn reached(n: int, f: spec_fn(int) -> int, k: int) -> bool {
    exists|i: int| 0 <= i < n && #[trigger] f(i) == k
}

/// An injective map of `0..n` into `0..n` reaches every index.
proof fn lemma_injection_is_onto(n: int, f: spec_fn(int) -> int)
    requires
        n >= 0,
        forall|i: int| 0 <= i < n ==> 0 <= #[trigger] f(i) < n,
        forall|i: int, j: int| 0 <= i < n && 0 <= j < n && i != j ==> #[trigger] f(i) != #[trigger] f(j),
    ensures
        forall|k: int| 0 <= k < n ==> #[trigger] reached(n, f, k),
{
    let x = vstd::set_lib::set_int_range(0, n);
    vstd::set_lib::lemma_int_range(0, n);
    let y = x.map(f);
    assert(vstd::relations::injective_on(f, x));
    vstd::set_lib::lemma_map_size(x, y, f);
    assert(y.subset_of(x)) by {
        assert forall|k: int| y.contains(k) implies x.contains(k) by {
            let i = choose|i: int| x.contains(i) && f(i) == k;
        }
    }
    vstd::set_lib::lemma_subset_equality(y, x);
    assert forall|k: int| 0 <= k < n implies #[trigger] reached(n, f, k) by {
        assert(x.contains(k));
        assert(y.contains(k));
    }
}

/// Equality of values is symmetric on values whose objects have distinct keys: two
/// objects are equal when each key of one has an equal value in the other.
pub proof fn value_equality_is_symmetric(a: ValueView, b: ValueView)
    requires
        keys_distinct(a),
        keys_distinct(b),
    ensures
        value_eq(a, b) == value_eq(b, a),
{
    lemma_value_eq_flips(a, b);
    lemma_value_eq_flips(b, a);
}

proof fn lemma_value_eq_flips(a: ValueView, b: ValueView)
    requires
        keys_distinct(a),
        keys_distinct(b),
    ensures
        value_eq(a, b) ==> value_eq(b, a),
    decreases a,
{
    if value_eq(a, b) {
        match (a, b) {
            (ValueView::Number(x), ValueView::Number(y)) => {
                if let (Num::Float(p), Num::Float(q)) = (x, y) {
                    crate::num::float_eq_is_symmetric(p, q);
                }
            },
            (ValueView::Array(x), ValueView::Array(y)) => {
                assert forall|i: int| 0 <= i < y.len() implies value_eq(y[i], #[trigger] x[i]) by {
                    assert(value_eq(x[i], y[i]));
                    lemma_value_eq_flips(x[i], y[i]);
                }
            },
            (ValueView::Object(x), ValueView::Object(y)) => {
                let n = x.len() as int;
                let f = |i: int| index_of_key(y, x[i].0)->Some_0;
                assert forall|i: int| 0 <= i < n implies 0 <= #[trigger] f(i) < n && y[f(i)].0 == x[i].0
                    && lookup(y, x[i].0) == Some(y[f(i)].1) by {
                    lemma_index_of_key_some(y, x[i].0);
                    assert(lookup(y, x[i].0) is Some);
                }
                assert forall|i: int, j: int| 0 <= i < n && 0 <= j < n && i != j implies #[trigger] f(i) != #[trigger] f(j) by {
                    assert(y[f(i)].0 == x[i].0 && y[f(j)].0 == x[j].0);
                    if i < j {
                        assert(x[i].0 != x[j].0);
                    } else {
                        assert(x[j].0 != x[i].0);
                    }
                }
                lemma_injection_is_onto(n, f);
                assert forall|j: int| 0 <= j < y.len() implies match #[trigger] lookup(x, y[j].0) {
                    Some(w) => value_eq(y[j].1, w),
                    None => false,
                } by {
                    assert(reached(n, f, j));
                    let i = choose|i: int| 0 <= i < n && #[trigger] f(i) == j;
                    assert(y[f(i)].0 == x[i].0);
                    lemma_lookup_distinct(x, i);
                    lemma_lookup_distinct(y, j);
                    assert(lookup(y, x[i].0) == Some(y[j].1));
                    assert(value_eq(x[i].1, y[j].1));
                    lemma_value_eq_flips(x[i].1, y[j].1);
                }
            },
            _ => {},
        }
    }
}

proof fn lemma_index_of_key_found(e: Seq<(Seq<char>, ValueView)>, k: Seq<char>)
    ensures
        match index_of_key(e, k) {
            Some(i) => 0 <= i < e.len() && e[i].0 == k && forall|m: int| 0 <= m < i ==> e[m].0 != k,
            None => lookup(e, k) is None,
        },
    decreases e.len(),
{
    if e.len() > 0 && e[0].0 != k {
        lemma_index_of_key_found(e.drop_first(), k);
        if let Some(i) = index_of_key(e.drop_first(), k) {
            assert forall|m: int| 0 <= m < i + 1 implies e[m].0 != k by {
                if m > 0 {
                    assert(e[m] == e.drop_first()[m - 1]);
                }
            }
        }
    }
}

/// After inserting `k` with `v`, looking `k` up gives `v`.
pub proof fn lemma_insert_entry_lookup(e: Seq<(Seq<char>, ValueView)>, k: Seq<char>, v: ValueView)
    ensures
        lookup(insert_entry(e, k, v), k) == Some(v),
{
    lemma_index_of_key_found(e, k);
    match index_of_key(e, k) {
        Some(i) => lemma_lookup_update_same(e, i, k, v),
        None => lemma_lookup_push_same(e, k, v),
    }
}

} // verus!
