//! Numbers: integers, floats and the errors of arithmetic.

use crate::float;
use crate::stack_error::{StackError, StackErrorView};
use crate::text::{chars, decimal, push_int, Glyph};
use std::cmp::Ordering;
use vstd::prelude::*;

verus! {

/// A number. A float is held as the bits of its IEEE-754 double encoding.
#[derive(Debug, PartialEq)]
pub enum Numeric {
    Integer(i128),
    Float(u64),
    NumError(StackError),
}

/// The mathematical value of a `Numeric`.
pub enum NumericView {
    Integer(int),
    Float(u64),
    NumError(StackErrorView),
}

impl View for Numeric {
    type V = NumericView;

    open spec fn view(&self) -> NumericView {
        match self {
            Numeric::Integer(v) => NumericView::Integer(*v as int),
            Numeric::Float(b) => NumericView::Float(*b),
            Numeric::NumError(e) => NumericView::NumError(e@),
        }
    }
}

impl Clone for Numeric {
    fn clone(&self) -> (r: Self)
        ensures
            r@ == self@,
    {
        match self {
            Numeric::Integer(v) => Numeric::Integer(*v),
            Numeric::Float(b) => Numeric::Float(*b),
            Numeric::NumError(e) => Numeric::NumError(e.clone()),
        }
    }
}

/// An operation of float arithmetic.
#[derive(Clone, Copy, PartialEq, Eq, Structural, Debug)]
pub enum FloatOp {
    Add,
    Sub,
    Mul,
    Div,
}

/// Float arithmetic that is still to be done: the operation and its two
/// operands, as bits. Its result is the float that IEEE-754 gives.
#[derive(Clone, Copy, PartialEq, Eq, Structural, Debug)]
pub struct FloatTask {
    pub op: FloatOp,
    pub left: u64,
    pub right: u64,
}

/// How arithmetic on two numbers ends: with a number, or with float
/// arithmetic left to do.
#[derive(Debug, PartialEq)]
pub enum Reckoned {
    Done(Numeric),
    Ask(FloatTask),
}

/// The mathematical value of a `Reckoned`.
pub enum ReckonedView {
    Done(NumericView),
    Ask(FloatTask),
}

impl View for Reckoned {
    type V = ReckonedView;

    open spec fn view(&self) -> ReckonedView {
        match self {
            Reckoned::Done(n) => ReckonedView::Done(n@),
            Reckoned::Ask(t) => ReckonedView::Ask(*t),
        }
    }
}

/// An integer where it fits in 128 bits, an overflow where it does not.
pub open spec fn checked(v: int) -> NumericView {
    if i128::MIN <= v <= i128::MAX {
        NumericView::Integer(v)
    } else {
        NumericView::NumError(StackErrorView::Overflow)
    }
}

/// The quotient of two integers, rounded towards zero. The divisor is not 0.
pub open spec fn quotient(a: int, b: int) -> int {
    if a >= 0 && b > 0 {
        a / b
    } else if a < 0 && b < 0 {
        (-a) / (-b)
    } else if a < 0 {
        -((-a) / b)
    } else {
        -(a / (-b))
    }
}

/// Exact arithmetic on two integers.
pub open spec fn integer_result(op: FloatOp, a: int, b: int) -> NumericView {
    match op {
        FloatOp::Add => checked(a + b),
        FloatOp::Sub => checked(a - b),
        FloatOp::Mul => checked(a * b),
        FloatOp::Div => if b == 0 {
            NumericView::NumError(StackErrorView::ZeroDiv)
        } else {
            checked(quotient(a, b))
        },
    }
}

impl NumericView {
    /// The number as a float: an integer becomes the nearest double.
    pub open spec fn as_float(self) -> NumericView {
        match self {
            NumericView::Integer(v) => NumericView::Float(float::of_int(v)),
            other => other,
        }
    }

    /// The number as an integer: a float loses its fraction.
    pub open spec fn as_integer(self) -> NumericView {
        match self {
            NumericView::Float(b) => NumericView::Integer(float::to_int(b)),
            other => other,
        }
    }

    /// The bits of the number as a float; 0 for an error.
    pub open spec fn bits(self) -> u64 {
        match self {
            NumericView::Integer(v) => float::of_int(v),
            NumericView::Float(b) => b,
            NumericView::NumError(_) => 0,
        }
    }

    /// The number with the other sign. The lowest integer has none.
    pub open spec fn neg(self) -> NumericView {
        match self {
            NumericView::Integer(v) => checked(-v),
            NumericView::Float(b) => NumericView::Float(float::negated(b)),
            other => other,
        }
    }

    /// A number counts as true unless it is zero or an error.
    pub open spec fn is_true(self) -> bool {
        match self {
            NumericView::Integer(v) => v != 0,
            NumericView::Float(b) => !float::equal(b, 0),
            NumericView::NumError(_) => false,
        }
    }

    /// Equality of numbers: integers by value, floats as IEEE-754 has it, an
    /// integer beside a float as the nearest double, errors by kind.
    pub open spec fn equals(self, other: NumericView) -> bool {
        match (self, other) {
            (NumericView::NumError(a), NumericView::NumError(b)) => a == b,
            (NumericView::Integer(a), NumericView::Integer(b)) => a == b,
            (NumericView::NumError(_), _) | (_, NumericView::NumError(_)) => false,
            _ => float::equal(self.bits(), other.bits()),
        }
    }

    /// Two numbers can be compared: neither is an error, nor a float that is
    /// no number.
    pub open spec fn comparable(self, other: NumericView) -> bool {
        !(self is NumError) && !(other is NumError) && !float::is_nan(self.bits())
            && !float::is_nan(other.bits())
    }

    /// The order of numbers, which is that of their doubles. An error is
    /// below nothing and nothing is below it.
    pub open spec fn less(self, other: NumericView) -> bool {
        !(self is NumError) && !(other is NumError) && float::less(self.bits(), other.bits())
    }

    /// What is written for the number.
    pub open spec fn text(self) -> Seq<Glyph> {
        match self {
            NumericView::Integer(v) => chars(decimal(v)),
            NumericView::Float(b) => seq![Glyph::Float(b)],
            NumericView::NumError(e) => e.message(),
        }
    }
}

/// What `op` gives on two numbers. An error on either side is handed on, the
/// left one first. Two integers are reckoned exactly. Otherwise both become
/// floats: a division by zero is an error, and the rest is float arithmetic
/// that is left to do.
pub open spec fn reckon(l: NumericView, r: NumericView, op: FloatOp) -> ReckonedView {
    match (l, r) {
        (NumericView::NumError(e), _) => ReckonedView::Done(NumericView::NumError(e)),
        (_, NumericView::NumError(e)) => ReckonedView::Done(NumericView::NumError(e)),
        (NumericView::Integer(a), NumericView::Integer(b)) => ReckonedView::Done(
            integer_result(op, a, b),
        ),
        _ => if op == FloatOp::Div && float::is_zero(r.bits()) {
            ReckonedView::Done(NumericView::NumError(StackErrorView::ZeroDiv))
        } else {
            ReckonedView::Ask(FloatTask { op, left: l.bits(), right: r.bits() })
        },
    }
}

fn settle(v: Option<i128>) -> (r: Numeric)
    ensures
        r@ == match v {
            Some(x) => NumericView::Integer(x as int),
            None => NumericView::NumError(StackErrorView::Overflow),
        },
{
    match v {
        Some(x) => Numeric::Integer(x),
        None => Numeric::NumError(StackError::Overflow),
    }
}

/// Exact arithmetic on two integers: the result, `Overflow` where it leaves
/// the 128-bit range, `ZeroDiv` for a division by zero.
pub fn integer_arithmetic(op: FloatOp, a: i128, b: i128) -> (r: Numeric)
    ensures
        r@ == integer_result(op, a as int, b as int),
{
    match op {
        FloatOp::Add => settle(a.checked_add(b)),
        FloatOp::Sub => settle(a.checked_sub(b)),
        FloatOp::Mul => settle(a.checked_mul(b)),
        FloatOp::Div => {
            if b == 0 {
                Numeric::NumError(StackError::ZeroDiv)
            } else {
                settle(a.checked_div(b))
            }
        },
    }
}

/// Arithmetic on two numbers.
pub fn binary_numerical(lhs: &Numeric, rhs: &Numeric, op: FloatOp) -> (r: Reckoned)
    ensures
        r@ == reckon(lhs@, rhs@, op),
{
    match (lhs, rhs) {
        (Numeric::NumError(e), _) => Reckoned::Done(Numeric::NumError(e.clone())),
        (_, Numeric::NumError(e)) => Reckoned::Done(Numeric::NumError(e.clone())),
        (Numeric::Integer(a), Numeric::Integer(b)) => Reckoned::Done(
            integer_arithmetic(op, *a, *b),
        ),
        _ => {
            let left = lhs.bits();
            let right = rhs.bits();
            if op == FloatOp::Div && float::zero(right) {
                Reckoned::Done(Numeric::NumError(StackError::ZeroDiv))
            } else {
                Reckoned::Ask(FloatTask { op, left, right })
            }
        },
    }
}

impl Numeric {
    /// The bits of the number as a float; 0 for an error.
    pub fn bits(&self) -> (r: u64)
        ensures
            r == self@.bits(),
    {
        match self {
            Numeric::Integer(v) => float::from_int(*v),
            Numeric::Float(b) => *b,
            Numeric::NumError(_) => 0,
        }
    }

    /// The number with the other sign; `Overflow` for the lowest integer.
    pub fn neg(&self) -> (r: Numeric)
        ensures
            r@ == self@.neg(),
    {
        match self {
            Numeric::Integer(v) => settle(0i128.checked_sub(*v)),
            Numeric::Float(b) => Numeric::Float(float::neg(*b)),
            Numeric::NumError(e) => Numeric::NumError(e.clone()),
        }
    }

    /// Whether the number counts as true: it is neither zero nor an error.
    pub fn is_true(&self) -> (r: bool)
        ensures
            r == self@.is_true(),
    {
        match self {
            Numeric::Integer(v) => *v != 0,
            Numeric::Float(b) => !float::eq(*b, 0),
            Numeric::NumError(_) => false,
        }
    }

    /// The number as an integer: a float loses its fraction.
    pub fn as_integer(&self) -> (r: Numeric)
        ensures
            r@ == self@.as_integer(),
    {
        match self {
            Numeric::Float(b) => Numeric::Integer(float::truncate(*b)),
            other => other.clone(),
        }
    }

    /// The number as a float: an integer becomes the nearest double.
    pub fn as_float(&self) -> (r: Numeric)
        ensures
            r@ == self@.as_float(),
    {
        match self {
            Numeric::Integer(v) => Numeric::Float(float::from_int(*v)),
            other => other.clone(),
        }
    }

    /// Whether two numbers are equal.
    pub fn equals(&self, other: &Numeric) -> (r: bool)
        ensures
            r == self@.equals(other@),
    {
        match (self, other) {
            (Numeric::NumError(a), Numeric::NumError(b)) => a.same(b),
            (Numeric::Integer(a), Numeric::Integer(b)) => *a == *b,
            (Numeric::NumError(_), _) => false,
            (_, Numeric::NumError(_)) => false,
            _ => float::eq(self.bits(), other.bits()),
        }
    }

    /// How this number stands to the other, where the two can be compared:
    /// below it, equal to it as a double, or above it.
    pub fn partial_cmp(&self, other: &Numeric) -> (r: Option<Ordering>)
        ensures
            r is Some <==> self@.comparable(other@),
            r == Some(Ordering::Less) <==> self@.less(other@),
            r == Some(Ordering::Greater) <==> other@.less(self@),
    {
        match (self, other) {
            (Numeric::NumError(_), _) => None,
            (_, Numeric::NumError(_)) => None,
            _ => {
                let a = self.bits();
                let b = other.bits();
                if float::nan(a) || float::nan(b) {
                    None
                } else if float::lt(a, b) {
                    Some(Ordering::Less)
                } else if float::lt(b, a) {
                    Some(Ordering::Greater)
                } else {
                    Some(Ordering::Equal)
                }
            },
        }
    }

    /// Whether this number is below the other.
    pub fn lt(&self, other: &Numeric) -> (r: bool)
        ensures
            r == self@.less(other@),
    {
        match (self, other) {
            (Numeric::NumError(_), _) => false,
            (_, Numeric::NumError(_)) => false,
            _ => float::lt(self.bits(), other.bits()),
        }
    }

    /// Whether this number is above the other.
    pub fn gt(&self, other: &Numeric) -> (r: bool)
        ensures
            r == other@.less(self@),
    {
        other.lt(self)
    }

    /// Whether this number is below the other or equal to it.
    pub fn le(&self, other: &Numeric) -> (r: bool)
        ensures
            r == (self@.less(other@) || (!(self@ is NumError) && !(other@ is NumError)
                && float::equal(self@.bits(), other@.bits()))),
    {
        match (self, other) {
            (Numeric::NumError(_), _) => false,
            (_, Numeric::NumError(_)) => false,
            _ => {
                let a = self.bits();
                let b = other.bits();
                float::lt(a, b) || float::eq(a, b)
            },
        }
    }

    /// Whether this number is above the other or equal to it.
    pub fn ge(&self, other: &Numeric) -> (r: bool)
        ensures
            r == (other@.less(self@) || (!(self@ is NumError) && !(other@ is NumError)
                && float::equal(other@.bits(), self@.bits()))),
    {
        other.le(self)
    }

    /// The sum of two numbers.
    pub fn add(&self, rhs: &Numeric) -> (r: Reckoned)
        ensures
            r@ == reckon(self@, rhs@, FloatOp::Add),
    {
        binary_numerical(self, rhs, FloatOp::Add)
    }

    /// The difference of two numbers.
    pub fn sub(&self, rhs: &Numeric) -> (r: Reckoned)
        ensures
            r@ == reckon(self@, rhs@, FloatOp::Sub),
    {
        binary_numerical(self, rhs, FloatOp::Sub)
    }

    /// The product of two numbers.
    pub fn mul(&self, rhs: &Numeric) -> (r: Reckoned)
        ensures
            r@ == reckon(self@, rhs@, FloatOp::Mul),
    {
        binary_numerical(self, rhs, FloatOp::Mul)
    }

    /// The quotient of two numbers.
    pub fn div(&self, rhs: &Numeric) -> (r: Reckoned)
        ensures
            r@ == reckon(self@, rhs@, FloatOp::Div),
    {
        binary_numerical(self, rhs, FloatOp::Div)
    }

    /// Appends what is written for the number.
    pub fn write(&self, out: &mut Vec<Glyph>)
        ensures
            final(out)@ == old(out)@ + self@.text(),
    {
        match self {
            Numeric::Integer(v) => push_int(out, *v),
            Numeric::Float(b) => {
                out.push(Glyph::Float(*b));
                proof {
                    assert(old(out)@.push(Glyph::Float(*b)) =~= old(out)@ + seq![Glyph::Float(*b)]);
                }
            },
            Numeric::NumError(e) => e.write(out),
        }
    }
}

} // verus!
