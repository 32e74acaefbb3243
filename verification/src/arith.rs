//! Arithmetic on values.
//!
//! Integers, truth values and single-precision numbers combine under `+ - * /`; strings
//! are joined by `+` and repeated by `*`. An operation on integers and truth values
//! alone is carried out here. One that involves a single-precision number, and every
//! division, is handed back as a [`FloatRequest`] for the embedding program to compute.

use vstd::prelude::*;
use vstd::string::*;
use crate::error::VmError;
use crate::single::{from_int, nearest};
use crate::value::{Value, ValueView};

verus! {

/// The four arithmetic operators.
#[derive(Clone, Copy, Debug, PartialEq, Eq, Structural)]
pub enum ArithOp {
    Add,
    Sub,
    Mul,
    Div,
}

/// An operation on two single-precision numbers, given by their bit patterns, that is
/// left to the embedding program.
#[derive(Clone, Copy, Debug, PartialEq, Eq, Structural)]
pub struct FloatRequest {
    /// The operator.
    pub op: ArithOp,
    /// The bit pattern of the left operand.
    pub lhs: u32,
    /// The bit pattern of the right operand.
    pub rhs: u32,
}

/// What an arithmetic operation comes to.
#[derive(Debug)]
pub enum Outcome {
    /// The result.
    Ready(Value),
    /// The operation that yields the result's bit pattern.
    Deferred(FloatRequest),
}

/// The mathematical content of an [`Outcome`].
pub ghost enum OutcomeView {
    Ready(ValueView),
    Deferred(FloatRequest),
}

impl View for Outcome {
    type V = OutcomeView;

    open spec fn view(&self) -> OutcomeView {
        match self {
            Outcome::Ready(value) => OutcomeView::Ready(value@),
            Outcome::Deferred(request) => OutcomeView::Deferred(*request),
        }
    }
}

/// The content of a result that may hold an outcome.
pub open spec fn outcome_view(r: Result<Outcome, VmError>) -> Result<OutcomeView, VmError> {
    match r {
        Ok(outcome) => Ok(outcome@),
        Err(e) => Err(e),
    }
}

/// `copies` copies of `s`, one after the other.
pub open spec fn repeated(s: Seq<char>, copies: nat) -> Seq<char>
    decreases copies,
{
    if copies == 0 {
        Seq::empty()
    } else {
        repeated(s, (copies - 1) as nat) + s
    }
}

/// The number of copies that repeating a string `count` times gives: `count`, but
/// never fewer than one.
pub open spec fn copies_for(count: i32) -> nat {
    if count <= 1 {
        1
    } else {
        count as nat
    }
}

/// The 32-bit signed integer that differs from `x` by a multiple of two to the power
/// thirty-two: `x` itself where it is one.
pub open spec fn wrapped(x: int) -> i32 {
    let rest = x % 0x1_0000_0000;
    if rest > i32::MAX {
        (rest - 0x1_0000_0000) as i32
    } else {
        rest as i32
    }
}

/// The result of an operator on two integers: the sum, difference or product, wrapped
/// around at 32 bits.
pub open spec fn int_result(op: ArithOp, a: i32, b: i32) -> i32
    recommends
        op != ArithOp::Div,
{
    match op {
        ArithOp::Add => wrapped(a + b),
        ArithOp::Sub => wrapped(a - b),
        _ => wrapped(a * b),
    }
}

impl ValueView {
    /// Whether the value is an integer, a truth value or a single-precision number.
    pub open spec fn is_number(self) -> bool {
        self is Int || self is Bool || self is Float
    }

    /// The integer that an integer or a truth value stands for: truth values widen to
    /// 0 and 1.
    pub open spec fn int_value(self) -> i32
        recommends
            self is Int || self is Bool,
    {
        match self {
            ValueView::Int(i) => i,
            ValueView::Bool(b) => if b {
                1
            } else {
                0
            },
            _ => 0,
        }
    }

    /// The bit pattern that a number stands for in single precision: integers and
    /// truth values go to the nearest pattern.
    pub open spec fn single_value(self) -> u32
        recommends
            self.is_number(),
    {
        match self {
            ValueView::Float(bits) => bits,
            _ => nearest(self.int_value() as int) as u32,
        }
    }
}

/// What `a op b` comes to on two numbers.
///
/// Integers and truth values add, subtract and multiply to an integer, a truth value
/// counting as 0 or 1. Every division, and every operation with a single-precision
/// operand, is a request on the two operands in single precision, `a` on the left.
pub open spec fn number_result(op: ArithOp, a: ValueView, b: ValueView) -> OutcomeView
    recommends
        a.is_number(),
        b.is_number(),
{
    if op == ArithOp::Div || a is Float || b is Float {
        OutcomeView::Deferred(FloatRequest { op, lhs: a.single_value(), rhs: b.single_value() })
    } else {
        OutcomeView::Ready(ValueView::Int(int_result(op, a.int_value(), b.int_value())))
    }
}

/// What a string repeated `count` times comes to: a negative count is refused.
pub open spec fn repeat_result(s: Seq<char>, count: i32) -> Result<OutcomeView, VmError> {
    if count < 0 {
        Err(VmError::TypeMismatch)
    } else {
        Ok(OutcomeView::Ready(ValueView::Str(repeated(s, copies_for(count)))))
    }
}

/// What `a op b` comes to.
///
/// Two numbers combine as [`number_result`] says. Two strings are joined by `+`. A
/// string and an integer, either way round, give the string repeated by `*`. Every
/// other pair is a type mismatch.
pub open spec fn arith_result(op: ArithOp, a: ValueView, b: ValueView) -> Result<
    OutcomeView,
    VmError,
> {
    if a.is_number() && b.is_number() {
        Ok(number_result(op, a, b))
    } else {
        match (op, a, b) {
            (ArithOp::Add, ValueView::Str(x), ValueView::Str(y)) => Ok(
                OutcomeView::Ready(ValueView::Str(x + y)),
            ),
            (ArithOp::Mul, ValueView::Str(x), ValueView::Int(n)) => repeat_result(x, n),
            (ArithOp::Mul, ValueView::Int(n), ValueView::Str(x)) => repeat_result(x, n),
            _ => Err(VmError::TypeMismatch),
        }
    }
}

/// The request that `a op b` comes to, if it comes to one.
pub open spec fn deferred_request(op: ArithOp, a: ValueView, b: ValueView) -> Option<FloatRequest> {
    match arith_result(op, a, b) {
        Ok(OutcomeView::Deferred(request)) => Some(request),
        _ => None,
    }
}

/// The sum, difference or product of two integers, wrapped around at 32 bits.
fn combine(op: ArithOp, a: i32, b: i32) -> (r: i32)
    requires
        op != ArithOp::Div,
    ensures
        r == int_result(op, a, b),
{
    match op {
        ArithOp::Add => {
            assert(a.wrapping_add(b) == wrapped(a + b)) by {
                let sum = a + b;
                if sum > i32::MAX {
                    assert(sum % 0x1_0000_0000 == sum);
                } else if sum < i32::MIN {
                    assert(sum % 0x1_0000_0000 == sum + 0x1_0000_0000);
                } else if sum < 0 {
                    assert(sum % 0x1_0000_0000 == sum + 0x1_0000_0000);
                } else {
                    assert(sum % 0x1_0000_0000 == sum);
                }
            }
            a.wrapping_add(b)
        },
        ArithOp::Sub => {
            assert(a.wrapping_sub(b) == wrapped(a - b)) by {
                let difference = a - b;
                if difference > i32::MAX {
                    assert(difference % 0x1_0000_0000 == difference);
                } else if difference < i32::MIN {
                    assert(difference % 0x1_0000_0000 == difference + 0x1_0000_0000);
                } else if difference < 0 {
                    assert(difference % 0x1_0000_0000 == difference + 0x1_0000_0000);
                } else {
                    assert(difference % 0x1_0000_0000 == difference);
                }
            }
            a.wrapping_sub(b)
        },
        _ => a.wrapping_mul(b),
    }
}

/// `s` repeated `count` times, and at least once.
fn repeat(s: &String, count: i32) -> (r: String)
    requires
        count >= 0,
    ensures
        r@ == repeated(s@, copies_for(count)),
{
    let mut r = s.clone();
    let mut made: i32 = 1;
    assert(repeated(s@, 1) =~= s@) by {
        assert(repeated(s@, 0) =~= Seq::<char>::empty());
    }
    while made < count
        invariant
            made >= 1,
            made <= count || made == 1,
            r@ == repeated(s@, made as nat),
        decreases count - made,
    {
        r.append(s.as_str());
        made += 1;
    }
    r
}

impl Value {
    /// Whether the value is an integer, a truth value or a single-precision number.
    pub fn is_number(&self) -> (r: bool)
        ensures
            r == self@.is_number(),
    {
        match self {
            Value::Int(_) => true,
            Value::Bool(_) => true,
            Value::Float(_) => true,
            _ => false,
        }
    }

    /// The integer that an integer or a truth value stands for.
    pub(crate) fn int_value(&self) -> (r: i32)
        ensures
            r == self@.int_value(),
    {
        match self {
            Value::Int(i) => *i,
            Value::Bool(b) => if *b {
                1
            } else {
                0
            },
            _ => 0,
        }
    }

    /// The bit pattern that a number stands for in single precision.
    pub(crate) fn single_value(&self) -> (r: u32)
        requires
            self@.is_number(),
        ensures
            r == self@.single_value(),
    {
        match self {
            Value::Float(bits) => *bits,
            _ => from_int(self.int_value()),
        }
    }

    /// The request that applying `op` to `self` and `rhs` comes to, if it comes to
    /// one: the operation itself is not carried out.
    pub fn deferred(&self, op: ArithOp, rhs: &Value) -> (r: Option<FloatRequest>)
        ensures
            r == deferred_request(op, self@, rhs@),
    {
        if !(self.is_number() && rhs.is_number()) {
            return None;
        }
        let floating = match (self, rhs) {
            (Value::Float(_), _) => true,
            (_, Value::Float(_)) => true,
            _ => false,
        };
        if floating || matches!(op, ArithOp::Div) {
            Some(FloatRequest { op, lhs: self.single_value(), rhs: rhs.single_value() })
        } else {
            None
        }
    }

    /// Applies `op` to `self` and `rhs`.
    pub fn arith(&self, op: ArithOp, rhs: &Value) -> (r: Result<Outcome, VmError>)
        ensures
            outcome_view(r) == arith_result(op, self@, rhs@),
    {
        if let Some(request) = self.deferred(op, rhs) {
            return Ok(Outcome::Deferred(request));
        }
        if self.is_number() && rhs.is_number() {
            return Ok(Outcome::Ready(Value::Int(combine(op, self.int_value(), rhs.int_value()))));
        }
        match (op, self, rhs) {
            (ArithOp::Add, Value::Str(x), Value::Str(y)) => {
                let mut joined = x.clone();
                joined.append(y.as_str());
                Ok(Outcome::Ready(Value::Str(joined)))
            },
            (ArithOp::Mul, Value::Str(x), Value::Int(n)) => {
                if *n < 0 {
                    Err(VmError::TypeMismatch)
                } else {
                    Ok(Outcome::Ready(Value::Str(repeat(x, *n))))
                }
            },
            (ArithOp::Mul, Value::Int(n), Value::Str(x)) => {
                if *n < 0 {
                    Err(VmError::TypeMismatch)
                } else {
                    Ok(Outcome::Ready(Value::Str(repeat(x, *n))))
                }
            },
            _ => Err(VmError::TypeMismatch),
        }
    }

    /// `self + rhs`.
    pub fn add(&self, rhs: &Value) -> (r: Result<Outcome, VmError>)
        ensures
            outcome_view(r) == arith_result(ArithOp::Add, self@, rhs@),
    {
        self.arith(ArithOp::Add, rhs)
    }

    /// `self - rhs`.
    pub fn sub(&self, rhs: &Value) -> (r: Result<Outcome, VmError>)
        ensures
            outcome_view(r) == arith_result(ArithOp::Sub, self@, rhs@),
    {
        self.arith(ArithOp::Sub, rhs)
    }

    /// `self * rhs`.
    pub fn mul(&self, rhs: &Value) -> (r: Result<Outcome, VmError>)
        ensures
            outcome_view(r) == arith_result(ArithOp::Mul, self@, rhs@),
    {
        self.arith(ArithOp::Mul, rhs)
    }

    /// `self / rhs`.
    pub fn div(&self, rhs: &Value) -> (r: Result<Outcome, VmError>)
        ensures
            outcome_view(r) == arith_result(ArithOp::Div, self@, rhs@),
    {
        self.arith(ArithOp::Div, rhs)
    }
}

} // verus!
