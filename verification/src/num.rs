//! Numbers as the JSON model holds them, and the IEEE-754 double operations
//! the evaluator performs on them.
//!
//! A double is carried as its bit pattern. Comparison, negation and the
//! finiteness and zero tests are computed here from the bits. Conversion of
//! integers to doubles, decimal parsing, addition and decimal display are
//! asked of a *float oracle*: a deterministic function supplied by the caller
//! (`FloatQuery -> FloatAnswer`). Every contract that involves them is stated
//! over [`answers`], the function that the oracle computes.
use vstd::prelude::*;

verus! {

/// A JSON number: a non-negative integer, a negative integer, or a double
/// (held as its IEEE-754 bit pattern).
#[derive(Clone, Copy)]
pub enum Num {
    PosInt(u64),
    NegInt(i64),
    Float(u64),
}

/// The bit pattern of the quiet NaN that `f64::NAN` has.
pub const NAN_BITS: u64 = 0x7ff8_0000_0000_0000;

/// The bit pattern of `1.0`.
pub const ONE_BITS: u64 = 0x3ff0_0000_0000_0000;

pub const SIGN_BIT: u64 = 0x8000_0000_0000_0000;

pub const MANTISSA_SPAN: u64 = 0x10_0000_0000_0000;

pub open spec fn exponent(b: u64) -> u64 {
    ((b % SIGN_BIT) / MANTISSA_SPAN) as u64
}

pub open spec fn mantissa(b: u64) -> u64 {
    (b % MANTISSA_SPAN) as u64
}

/// The magnitude bits (everything but the sign).
pub open spec fn magnitude(b: u64) -> u64 {
    (b % SIGN_BIT) as u64
}

pub open spec fn is_negative(b: u64) -> bool {
    b >= SIGN_BIT
}

pub open spec fn is_nan(b: u64) -> bool {
    exponent(b) == 0x7ff && mantissa(b) != 0
}

/// Neither infinite nor NaN: `serde_json::Number::from_f64` accepts it.
pub open spec fn is_finite(b: u64) -> bool {
    exponent(b) != 0x7ff
}

/// `+0.0` or `-0.0`.
pub open spec fn is_zero(b: u64) -> bool {
    magnitude(b) == 0
}

/// `-x` on the bits: the sign flipped.
pub open spec fn negate(b: u64) -> u64 {
    if is_negative(b) { (b - SIGN_BIT) as u64 } else { (b + SIGN_BIT) as u64 }
}

/// IEEE `a == b` for doubles that are not NaN.
pub open spec fn float_eq(a: u64, b: u64) -> bool {
    !is_nan(a) && !is_nan(b) && (a == b || (is_zero(a) && is_zero(b)))
}

/// IEEE `a < b` for doubles that are not NaN: on equal signs the magnitude bits
/// order the values, and both zeros are equal.
pub open spec fn float_lt(a: u64, b: u64) -> bool {
    if is_nan(a) || is_nan(b) || (is_zero(a) && is_zero(b)) {
        false
    } else if !is_negative(a) && !is_negative(b) {
        magnitude(a) < magnitude(b)
    } else if is_negative(a) && is_negative(b) {
        magnitude(a) > magnitude(b)
    } else {
        is_negative(a)
    }
}

pub open spec fn float_le(a: u64, b: u64) -> bool {
    float_lt(a, b) || float_eq(a, b)
}

pub fn bits_is_nan(b: u64) -> (r: bool)
    ensures
        r == is_nan(b),
{
    (b % SIGN_BIT) / MANTISSA_SPAN == 0x7ff && b % MANTISSA_SPAN != 0
}

pub fn bits_is_finite(b: u64) -> (r: bool)
    ensures
        r == is_finite(b),
{
    (b % SIGN_BIT) / MANTISSA_SPAN != 0x7ff
}

pub fn bits_is_zero(b: u64) -> (r: bool)
    ensures
        r == is_zero(b),
{
    b % SIGN_BIT == 0
}

pub fn bits_negate(b: u64) -> (r: u64)
    ensures
        r == negate(b),
{
    if b >= SIGN_BIT { b - SIGN_BIT } else { b + SIGN_BIT }
}

pub fn bits_eq(a: u64, b: u64) -> (r: bool)
    ensures
        r == float_eq(a, b),
{
    !bits_is_nan(a) && !bits_is_nan(b) && (a == b || (bits_is_zero(a) && bits_is_zero(b)))
}

pub fn bits_lt(a: u64, b: u64) -> (r: bool)
    ensures
        r == float_lt(a, b),
{
    if bits_is_nan(a) || bits_is_nan(b) || (bits_is_zero(a) && bits_is_zero(b)) {
        false
    } else if a < SIGN_BIT && b < SIGN_BIT {
        a % SIGN_BIT < b % SIGN_BIT
    } else if a >= SIGN_BIT && b >= SIGN_BIT {
        a % SIGN_BIT > b % SIGN_BIT
    } else {
        a >= SIGN_BIT
    }
}

pub fn bits_le(a: u64, b: u64) -> (r: bool)
    ensures
        r == float_le(a, b),
{
    bits_lt(a, b) || bits_eq(a, b)
}

/// A question to the float oracle.
pub enum FloatQuery {
    /// `u as f64`
    OfU64(u64),
    /// `i as f64`
    OfI64(i64),
    /// `s.parse::<f64>()`, or NaN where it fails
    Parse(String),
    /// `a + b`
    Add(u64, u64),
    /// `f.to_string()`
    Display(u64),
}

/// An answer of the float oracle: the bits of a double, or a text.
pub enum FloatAnswer {
    Bits(u64),
    Text(String),
}

pub enum FloatQueryView {
    OfU64(u64),
    OfI64(i64),
    Parse(Seq<char>),
    Add(u64, u64),
    Display(u64),
}

pub enum FloatAnswerView {
    Bits(u64),
    Text(Seq<char>),
}

impl View for FloatQuery {
    type V = FloatQueryView;

    open spec fn view(&self) -> FloatQueryView {
        match self {
            FloatQuery::OfU64(u) => FloatQueryView::OfU64(*u),
            FloatQuery::OfI64(i) => FloatQueryView::OfI64(*i),
            FloatQuery::Parse(s) => FloatQueryView::Parse(s@),
            FloatQuery::Add(a, b) => FloatQueryView::Add(*a, *b),
            FloatQuery::Display(b) => FloatQueryView::Display(*b),
        }
    }
}

impl View for FloatAnswer {
    type V = FloatAnswerView;

    open spec fn view(&self) -> FloatAnswerView {
        match self {
            FloatAnswer::Bits(b) => FloatAnswerView::Bits(*b),
            FloatAnswer::Text(s) => FloatAnswerView::Text(s@),
        }
    }
}

/// `f` has answered a question whose model is `q` with an answer whose model is `r`.
pub open spec fn answered<F: Fn(FloatQuery) -> FloatAnswer>(f: F, q: FloatQueryView, r: FloatAnswerView) -> bool {
    exists|qe: FloatQuery, re: FloatAnswer| #[trigger] call_ensures(f, (qe,), re) && qe@ == q && re@ == r
}

/// The function that the oracle `f` computes, on the models of its questions and answers.
pub open spec fn answers<F: Fn(FloatQuery) -> FloatAnswer>(f: F) -> spec_fn(FloatQueryView) -> FloatAnswerView {
    |q: FloatQueryView| choose|r: FloatAnswerView| #[trigger] answered(f, q, r)
}

/// `f` can be asked anything, and it answers equal questions equally.
pub open spec fn is_float_oracle<F: Fn(FloatQuery) -> FloatAnswer>(f: F) -> bool {
    &&& forall|q: FloatQuery| call_requires(f, (q,))
    &&& forall|q1: FloatQuery, q2: FloatQuery, r1: FloatAnswer, r2: FloatAnswer|
        #![trigger call_ensures(f, (q1,), r1), call_ensures(f, (q2,), r2)]
        call_ensures(f, (q1,), r1) && call_ensures(f, (q2,), r2) && q1@ == q2@ ==> r1@ == r2@
}

/// Asks the oracle.
pub fn ask<F: Fn(FloatQuery) -> FloatAnswer>(f: &F, q: FloatQuery) -> (r: FloatAnswer)
    requires
        is_float_oracle(*f),
    ensures
        r@ == answers(*f)(q@),
{
    let ghost qv = q@;
    let r = f(q);
    proof {
        assert(call_ensures(*f, (q,), r));
        let r2 = answers(*f)(qv);
        assert(answered(*f, qv, r@));
        assert(answered(*f, qv, r2));
        let (qe, re) = choose|qe: FloatQuery, re: FloatAnswer| #[trigger] call_ensures(*f, (qe,), re) && qe@ == qv && re@ == r2;
        assert(call_ensures(*f, (qe,), re) && call_ensures(*f, (q,), r));
    }
    r
}

/// The double of an answer (NaN where the oracle gave a text).
pub open spec fn answer_bits(a: FloatAnswerView) -> u64 {
    match a {
        FloatAnswerView::Bits(b) => b,
        FloatAnswerView::Text(_) => NAN_BITS,
    }
}

/// The text of an answer (empty where the oracle gave a double).
pub open spec fn answer_text(a: FloatAnswerView) -> Seq<char> {
    match a {
        FloatAnswerView::Bits(_) => Seq::empty(),
        FloatAnswerView::Text(t) => t,
    }
}

pub type Oracle = spec_fn(FloatQueryView) -> FloatAnswerView;

/// `serde_json::Number::as_f64`.
pub open spec fn num_to_f64(fa: Oracle, n: Num) -> u64 {
    match n {
        Num::PosInt(u) => answer_bits(fa(FloatQueryView::OfU64(u))),
        Num::NegInt(i) => answer_bits(fa(FloatQueryView::OfI64(i))),
        Num::Float(b) => b,
    }
}

/// `f.to_string()`.
pub open spec fn display_f64(fa: Oracle, b: u64) -> Seq<char> {
    answer_text(fa(FloatQueryView::Display(b)))
}

/// `a + b`.
pub open spec fn add_f64(fa: Oracle, a: u64, b: u64) -> u64 {
    answer_bits(fa(FloatQueryView::Add(a, b)))
}

/// `s.parse::<f64>()`, NaN where it fails.
pub open spec fn parse_f64(fa: Oracle, s: Seq<char>) -> u64 {
    answer_bits(fa(FloatQueryView::Parse(s)))
}

fn take_bits(a: FloatAnswer) -> (r: u64)
    ensures
        r == answer_bits(a@),
{
    match a {
        FloatAnswer::Bits(b) => b,
        FloatAnswer::Text(_) => NAN_BITS,
    }
}

fn take_text(a: FloatAnswer) -> (r: String)
    ensures
        r@ == answer_text(a@),
{
    match a {
        FloatAnswer::Bits(_) => String::new(),
        FloatAnswer::Text(t) => t,
    }
}

pub fn num_as_f64<F: Fn(FloatQuery) -> FloatAnswer>(f: &F, n: Num) -> (r: u64)
    requires
        is_float_oracle(*f),
    ensures
        r == num_to_f64(answers(*f), n),
{
    match n {
        Num::PosInt(u) => take_bits(ask(f, FloatQuery::OfU64(u))),
        Num::NegInt(i) => take_bits(ask(f, FloatQuery::OfI64(i))),
        Num::Float(b) => b,
    }
}

pub fn f64_display<F: Fn(FloatQuery) -> FloatAnswer>(f: &F, b: u64) -> (r: String)
    requires
        is_float_oracle(*f),
    ensures
        r@ == display_f64(answers(*f), b),
{
    take_text(ask(f, FloatQuery::Display(b)))
}

pub fn f64_add<F: Fn(FloatQuery) -> FloatAnswer>(f: &F, a: u64, b: u64) -> (r: u64)
    requires
        is_float_oracle(*f),
    ensures
        r == add_f64(answers(*f), a, b),
{
    take_bits(ask(f, FloatQuery::Add(a, b)))
}

pub fn f64_parse<F: Fn(FloatQuery) -> FloatAnswer>(f: &F, s: String) -> (r: u64)
    requires
        is_float_oracle(*f),
    ensures
        r == parse_f64(answers(*f), s@),
{
    take_bits(ask(f, FloatQuery::Parse(s)))
}

proof fn lemma_negate(b: u64)
    ensures
        magnitude(negate(b)) == magnitude(b),
        is_negative(negate(b)) == !is_negative(b),
        is_nan(negate(b)) == is_nan(b),
        is_zero(negate(b)) == is_zero(b),
        negate(negate(b)) == b,
{
    if is_negative(b) {
        assert(b % SIGN_BIT == b - SIGN_BIT);
        assert(negate(b) % SIGN_BIT == b - SIGN_BIT);
    } else {
        assert(b % SIGN_BIT == b);
        assert((b + SIGN_BIT) % (SIGN_BIT as int) == b);
    }
    assert(mantissa(negate(b)) == mantissa(b)) by {
        vstd::arithmetic::div_mod::lemma_mod_mod(b as int, MANTISSA_SPAN as int, 0x800);
        vstd::arithmetic::div_mod::lemma_mod_mod(negate(b) as int, MANTISSA_SPAN as int, 0x800);
    }
}

/// Negation reverses the order of non-NaN doubles.
pub proof fn negate_reverses_order(a: u64, b: u64)
    requires
        !is_nan(a),
        !is_nan(b),
    ensures
        float_lt(a, b) == float_lt(negate(b), negate(a)),
        negate(negate(a)) == a,
{
    lemma_negate(a);
    lemma_negate(b);
}

/// `<` on doubles is irreflexive and transitive, and of two distinct non-NaN values one is smaller.
pub proof fn float_lt_is_strict_order(a: u64, b: u64, c: u64)
    requires
        !is_nan(a),
        !is_nan(b),
        !is_nan(c),
    ensures
        !float_lt(a, a),
        float_lt(a, b) && float_lt(b, c) ==> float_lt(a, c),
        float_lt(a, b) || float_lt(b, a) || float_eq(a, b),
{
}

/// Double equality is symmetric.
pub proof fn float_eq_is_symmetric(a: u64, b: u64)
    ensures
        float_eq(a, b) == float_eq(b, a),
{
}

} // verus!
