//! The values of the language.

use crate::float;
use crate::numeric::{
    binary_numerical,
    reckon,
    FloatOp,
    FloatTask,
    Numeric,
    NumericView,
    Reckoned,
    ReckonedView,
};
use crate::op::Op;
use crate::stack_error::{StackError, StackErrorView};
use crate::text::{chars, is_plain, plain_chars, plain_string, push_str, Glyph};
use crate::types::Type;
use std::cmp::Ordering;
use vstd::prelude::*;
use vstd::string::StringExecFns;
use vstd::utf8::encode_utf8;

verus! {

/// A value: what the parser reads, the stack holds and the operators take
/// and give.
#[derive(Debug, PartialEq)]
pub enum Parsed {
    /// No value: what an operator gives that leaves nothing on the stack.
    Void,
    Num(Numeric),
    String(String),
    Bool(bool),
    /// A piece of program, run when it is asked for.
    Quotation(Vec<Parsed>),
    /// A name.
    Symbol(String),
    List(Vec<Parsed>),
    Error(StackError),
    Function(Op),
}

/// The mathematical value of a `Parsed`.
pub enum Value {
    Void,
    Num(NumericView),
    String(Seq<char>),
    Bool(bool),
    Quotation(Seq<Value>),
    Symbol(Seq<char>),
    List(Seq<Value>),
    Error(StackErrorView),
    Function(Op),
}

/// The value of an item.
pub open spec fn value_of(p: Parsed) -> Value
    decreases p, 0nat,
{
    match p {
        Parsed::Void => Value::Void,
        Parsed::Num(n) => Value::Num(n@),
        Parsed::String(s) => Value::String(s@),
        Parsed::Bool(b) => Value::Bool(b),
        Parsed::Quotation(q) => Value::Quotation(values_upto(q@, q@.len())),
        Parsed::Symbol(s) => Value::Symbol(s@),
        Parsed::List(l) => Value::List(values_upto(l@, l@.len())),
        Parsed::Error(e) => Value::Error(e@),
        Parsed::Function(op) => Value::Function(op),
    }
}

/// The values of the first `n` items of a sequence.
pub open spec fn values_upto(items: Seq<Parsed>, n: nat) -> Seq<Value>
    decreases items, n,
{
    if n == 0 || n > items.len() {
        Seq::empty()
    } else {
        values_upto(items, (n - 1) as nat).push(value_of(items[n - 1]))
    }
}

impl View for Parsed {
    type V = Value;

    open spec fn view(&self) -> Value {
        value_of(*self)
    }
}

/// The values of a sequence of items.
pub open spec fn views(s: Seq<Parsed>) -> Seq<Value> {
    Seq::new(s.len(), |i: int| s[i]@)
}

proof fn lemma_values_upto(items: Seq<Parsed>, n: nat)
    requires
        n <= items.len(),
    ensures
        values_upto(items, n) == views(items).subrange(0, n as int),
    decreases n,
{
    if n > 0 {
        lemma_values_upto(items, (n - 1) as nat);
    }
    assert(values_upto(items, n) =~= views(items).subrange(0, n as int));
}

/// The value of a list is the list of its items' values.
pub proof fn lemma_list_view(l: Vec<Parsed>)
    ensures
        Parsed::List(l)@ == Value::List(views(l@)),
{
    lemma_values_upto(l@, l@.len());
    assert(views(l@).subrange(0, l@.len() as int) =~= views(l@));
}

/// The value of a quotation is the sequence of its items' values.
pub proof fn lemma_quotation_view(q: Vec<Parsed>)
    ensures
        Parsed::Quotation(q)@ == Value::Quotation(views(q@)),
{
    lemma_values_upto(q@, q@.len());
    assert(views(q@).subrange(0, q@.len() as int) =~= views(q@));
}

/// The values of a sequence with one more item.
pub proof fn lemma_views_push(s: Seq<Parsed>, p: Parsed)
    ensures
        views(s.push(p)) == views(s).push(p@),
{
    assert(views(s.push(p)) =~= views(s).push(p@));
}

/// The values of a part of a sequence.
pub proof fn lemma_views_subrange(s: Seq<Parsed>, i: int, j: int)
    requires
        0 <= i <= j <= s.len(),
    ensures
        views(s.subrange(i, j)) == views(s).subrange(i, j),
{
    assert(views(s.subrange(i, j)) =~= views(s).subrange(i, j));
}

/// The values of two sequences, one after the other.
pub proof fn lemma_views_add(a: Seq<Parsed>, b: Seq<Parsed>)
    ensures
        views(a + b) == views(a) + views(b),
{
    assert(views(a + b) =~= views(a) + views(b));
}

/// A copy of a sequence of items.
pub fn clone_items(items: &Vec<Parsed>) -> (r: Vec<Parsed>)
    ensures
        views(r@) == views(items@),
    decreases items,
{
    let mut out: Vec<Parsed> = Vec::new();
    let mut i: usize = 0;
    while i < items.len()
        invariant
            i <= items.len(),
            views(out@) == views(items@.subrange(0, i as int)),
        decreases items.len() - i,
    {
        proof {
            assert(decreases_to!(*items => items[i as int]));
        }
        let item = items[i].clone();
        proof {
            lemma_views_push(out@, item);
            lemma_views_push(items@.subrange(0, i as int), items@[i as int]);
            assert(items@.subrange(0, i + 1) == items@.subrange(0, i as int).push(items@[i as int]));
        }
        out.push(item);
        i = i + 1;
    }
    proof {
        assert(items@.subrange(0, items.len() as int) == items@);
    }
    out
}

impl Clone for Parsed {
    fn clone(&self) -> (r: Self)
        ensures
            r@ == self@,
        decreases self,
    {
        match self {
            Parsed::Void => Parsed::Void,
            Parsed::Num(n) => Parsed::Num(n.clone()),
            Parsed::String(s) => Parsed::String(s.clone()),
            Parsed::Bool(b) => Parsed::Bool(*b),
            Parsed::Quotation(q) => {
                let items = clone_items(q);
                proof {
                    lemma_quotation_view(items);
                    lemma_quotation_view(*q);
                }
                Parsed::Quotation(items)
            },
            Parsed::Symbol(s) => Parsed::Symbol(s.clone()),
            Parsed::List(l) => {
                let items = clone_items(l);
                proof {
                    lemma_list_view(items);
                    lemma_list_view(*l);
                }
                Parsed::List(items)
            },
            Parsed::Error(e) => Parsed::Error(e.clone()),
            Parsed::Function(op) => Parsed::Function(*op),
        }
    }
}

/// What the interpreter asks of whoever drives it: the work that it cannot
/// do itself.
#[derive(Debug, PartialEq)]
pub enum Request {
    /// Do this float arithmetic; the answer is the float that results.
    Float(FloatTask),
    /// Read this text as a float; the answer is the float, or an `Overflow`
    /// error where the text is none.
    ParseFloat(String),
    /// Write this text out; the answer is `Void`.
    Print(Vec<Glyph>),
    /// Read a line; the answer is the line as a string.
    Read,
}

/// The mathematical value of a `Request`.
pub enum RequestView {
    Float(FloatTask),
    ParseFloat(Seq<char>),
    Print(Seq<Glyph>),
    Read,
}

impl View for Request {
    type V = RequestView;

    open spec fn view(&self) -> RequestView {
        match self {
            Request::Float(t) => RequestView::Float(*t),
            Request::ParseFloat(s) => RequestView::ParseFloat(s@),
            Request::Print(t) => RequestView::Print(t@),
            Request::Read => RequestView::Read,
        }
    }
}

/// What an operation gives: a value, or a request whose answer is the value.
#[derive(Debug, PartialEq)]
pub enum Outcome {
    Value(Parsed),
    Ask(Request),
}

/// The mathematical value of an `Outcome`.
pub enum OutcomeView {
    Value(Value),
    Ask(RequestView),
}

impl View for Outcome {
    type V = OutcomeView;

    open spec fn view(&self) -> OutcomeView {
        match self {
            Outcome::Value(p) => OutcomeView::Value(p@),
            Outcome::Ask(r) => OutcomeView::Ask(r@),
        }
    }
}

/// The outcome of arithmetic on numbers, as an outcome on values.
pub open spec fn lift(r: ReckonedView) -> OutcomeView {
    match r {
        ReckonedView::Done(n) => OutcomeView::Value(Value::Num(n)),
        ReckonedView::Ask(t) => OutcomeView::Ask(RequestView::Float(t)),
    }
}

/// The error of an operation on operands that it has no meaning for.
pub open spec fn no_coercion() -> Value {
    Value::Error(StackErrorView::InvalidCoercion)
}

/// Whether each item of `a` equals the item of `b` at its place.
pub open spec fn items_equal(a: Seq<Value>, b: Seq<Value>, n: nat) -> bool
    decreases a, n,
{
    if n == 0 || n > a.len() || n > b.len() {
        true
    } else {
        items_equal(a, b, (n - 1) as nat) && a[n - 1].equals(b[n - 1])
    }
}

/// The texts of the first `n` items, with `sep` between them.
pub open spec fn join_upto(items: Seq<Value>, n: nat, sep: Seq<char>, source: bool) -> Seq<Glyph>
    decreases items, n,
{
    if n == 0 || n > items.len() {
        Seq::empty()
    } else if n == 1 {
        items[0].text(source)
    } else {
        join_upto(items, (n - 1) as nat, sep, source) + chars(sep) + items[n - 1].text(source)
    }
}

/// The texts of all items, with `sep` between them.
pub open spec fn join(items: Seq<Value>, sep: Seq<char>, source: bool) -> Seq<Glyph> {
    join_upto(items, items.len(), sep, source)
}

impl Value {
    /// The exact type of a value.
    pub open spec fn type_of(self) -> Type {
        match self {
            Value::Void => Type::Void,
            Value::Num(NumericView::Integer(_)) => Type::Integer,
            Value::Num(NumericView::Float(_)) => Type::Float,
            Value::Num(NumericView::NumError(_)) => Type::Error,
            Value::String(_) => Type::String,
            Value::Bool(_) => Type::Bool,
            Value::Quotation(_) => Type::Quotation,
            Value::Symbol(_) => Type::Symbol,
            Value::List(_) => Type::List,
            Value::Error(_) => Type::Error,
            Value::Function(op) => Type::Function(op.signature()),
        }
    }

    /// Whether a value counts as true: a number that does not equal 0, the
    /// boolean `True`, a string or a list that is not empty.
    pub open spec fn is_true(self) -> bool {
        match self {
            Value::Num(n) => !n.equals(NumericView::Integer(0)),
            Value::Bool(b) => b,
            Value::String(s) => s.len() > 0,
            Value::List(l) => l.len() > 0,
            _ => false,
        }
    }

    /// The size of a value: the bytes of a string's UTF-8 form, the items of a
    /// list or a quotation. Other values have none.
    pub open spec fn size(self) -> Value {
        match self {
            Value::String(s) => Value::Num(NumericView::Integer(encode_utf8(s).len() as int)),
            Value::Quotation(q) => Value::Num(NumericView::Integer(q.len() as int)),
            Value::List(l) => Value::Num(NumericView::Integer(l.len() as int)),
            _ => no_coercion(),
        }
    }

    /// The items of a list or a quotation.
    pub open spec fn contents(self) -> Option<Seq<Value>> {
        match self {
            Value::List(l) => Some(l),
            Value::Quotation(q) => Some(q),
            _ => None,
        }
    }

    /// A number with the other sign, a boolean turned round.
    pub open spec fn neg(self) -> Value {
        match self {
            Value::Num(n) => Value::Num(n.neg()),
            Value::Bool(b) => Value::Bool(!b),
            _ => no_coercion(),
        }
    }

    /// A number as a boolean: whether it does not equal 0. A boolean as itself.
    pub open spec fn to_bool(self) -> Option<Value> {
        match self {
            Value::Num(n) => Some(Value::Bool(!n.equals(NumericView::Integer(0)))),
            Value::Bool(_) => Some(self),
            _ => None,
        }
    }

    /// A number or a boolean as a float: `True` is 1 and `False` is 0.
    pub open spec fn to_float(self) -> Option<Value> {
        match self {
            Value::Bool(b) => Some(
                Value::Num(NumericView::Float(float::of_int(if b { 1 } else { 0 }))),
            ),
            Value::Num(n) => Some(Value::Num(n.as_float())),
            _ => None,
        }
    }

    /// A number or a boolean as an integer: `True` is 1 and `False` is 0.
    pub open spec fn to_integer(self) -> Option<Value> {
        match self {
            Value::Bool(b) => Some(Value::Num(NumericView::Integer(if b { 1 } else { 0 }))),
            Value::Num(n) => Some(Value::Num(n.as_integer())),
            _ => None,
        }
    }

    /// A value as a quotation: a quotation as itself, any other value but an
    /// error as the quotation that holds it.
    pub open spec fn to_quotation(self) -> Option<Value> {
        match self {
            Value::Quotation(_) => Some(self),
            Value::Error(_) => None,
            _ => Some(Value::Quotation(seq![self])),
        }
    }

    /// A symbol as itself; no other value is one.
    pub open spec fn to_symbol(self) -> Option<Value> {
        match self {
            Value::Symbol(_) => Some(self),
            _ => None,
        }
    }

    /// An operator as itself; no other value is one.
    pub open spec fn to_function(self) -> Option<Value> {
        match self {
            Value::Function(_) => Some(self),
            _ => None,
        }
    }

    /// The text of a value as a string. An error has none, and neither has a
    /// value whose text holds a float.
    pub open spec fn to_string(self) -> Option<Value> {
        match self {
            Value::Error(_) => None,
            _ => if is_plain(self.text(false)) {
                Some(Value::String(plain_chars(self.text(false))))
            } else {
                None
            },
        }
    }

    /// A value as a list: a list as itself, any other value but an error as the
    /// list that holds it.
    pub open spec fn to_list(self) -> Option<Value> {
        match self {
            Value::Error(_) => None,
            Value::List(_) => Some(self),
            _ => Some(Value::List(seq![self])),
        }
    }

    /// The value turned into type `t`, or an `InvalidCoercion` error where it
    /// cannot be.
    pub open spec fn coerce(self, t: Type) -> Value {
        let turned = match t {
            Type::Void => None,
            Type::String => self.to_string(),
            Type::List => self.to_list(),
            Type::Integer => self.to_integer(),
            Type::Float => self.to_float(),
            Type::Bool => self.to_bool(),
            Type::Quotation => self.to_quotation(),
            Type::Error => self.to_string(),
            Type::Symbol => self.to_symbol(),
            Type::Function(_) => self.to_function(),
        };
        match turned {
            Some(v) => v,
            None => no_coercion(),
        }
    }

    /// Arithmetic on two values: that of numbers, and an error for all else.
    pub open spec fn arith(self, rhs: Value, op: FloatOp) -> OutcomeView {
        match (self, rhs) {
            (Value::Num(a), Value::Num(b)) => lift(reckon(a, b, op)),
            _ => OutcomeView::Value(no_coercion()),
        }
    }

    /// The sum of two values: of two numbers, their sum; of two strings or of
    /// two lists, the one followed by the other; of a value and a list, the
    /// list with the value put in front.
    pub open spec fn add(self, rhs: Value) -> OutcomeView {
        match (self, rhs) {
            (Value::Num(a), Value::Num(b)) => lift(reckon(a, b, FloatOp::Add)),
            (Value::String(a), Value::String(b)) => OutcomeView::Value(Value::String(a + b)),
            (Value::List(a), Value::List(b)) => OutcomeView::Value(Value::List(a + b)),
            (elem, Value::List(b)) => OutcomeView::Value(Value::List(seq![elem] + b)),
            _ => OutcomeView::Value(no_coercion()),
        }
    }

    /// The equality of the language: numbers as numbers are equal, strings,
    /// booleans and errors where they are the same, lists and quotations item
    /// by item. Values of other kinds, or of two kinds, are never equal.
    pub open spec fn equals(self, other: Value) -> bool
        decreases self, 0nat,
    {
        match (self, other) {
            (Value::Num(a), Value::Num(b)) => a.equals(b),
            (Value::String(a), Value::String(b)) => a == b,
            (Value::List(a), Value::List(b)) => a.len() == b.len() && items_equal(a, b, a.len()),
            (Value::Bool(a), Value::Bool(b)) => a == b,
            (Value::Error(a), Value::Error(b)) => a == b,
            (Value::Quotation(a), Value::Quotation(b)) => a.len() == b.len() && items_equal(
                a,
                b,
                a.len(),
            ),
            _ => false,
        }
    }

    /// The number that a value stands for in a comparison.
    pub open spec fn number(self) -> Option<NumericView> {
        match self {
            Value::Num(n) => Some(n),
            Value::Bool(b) => Some(NumericView::Integer(if b { 1 } else { 0 })),
            _ => None,
        }
    }

    /// The order of the language: that of numbers, a boolean beside a number
    /// counting as 0 or 1. Two booleans have no order, nor has any other pair.
    pub open spec fn less(self, other: Value) -> bool {
        match (self.number(), other.number()) {
            (Some(a), Some(b)) => !(self is Bool && other is Bool) && a.less(b),
            _ => false,
        }
    }

    /// What is written for a value. With `source` it is written as a program
    /// would hold it, each token apart; without, as a result is shown.
    pub open spec fn text(self, source: bool) -> Seq<Glyph>
        decreases self, 0nat,
    {
        match self {
            Value::Void => chars("()"@),
            Value::Num(n) => n.text(),
            Value::String(s) => if source {
                chars("\" "@) + chars(s) + chars(" \""@)
            } else {
                chars("\""@) + chars(s) + chars("\""@)
            },
            Value::Bool(b) => if b {
                chars("True"@)
            } else {
                chars("False"@)
            },
            Value::Quotation(q) => chars("{ "@) + join_upto(q, q.len(), " "@, source) + chars(
                " }"@,
            ),
            Value::Symbol(s) => chars(s),
            Value::List(l) => if source {
                chars("[ "@) + join_upto(l, l.len(), " "@, source) + chars(" ]"@)
            } else {
                chars("["@) + join_upto(l, l.len(), ","@, source) + chars("]"@)
            },
            Value::Error(e) => e.message(),
            Value::Function(op) => chars(op.name()),
        }
    }
}

/// Appends copies of `items` to `out`.
pub fn append_items(out: &mut Vec<Parsed>, items: &Vec<Parsed>)
    ensures
        views(final(out)@) == views(old(out)@) + views(items@),
{
    let copies = clone_items(items);
    let mut rest = copies;
    proof {
        lemma_views_add(old(out)@, rest@);
    }
    out.append(&mut rest);
}

/// A sequence that holds a copy of one item.
pub fn single(item: &Parsed) -> (r: Vec<Parsed>)
    ensures
        views(r@) == seq![item@],
{
    let mut out: Vec<Parsed> = Vec::new();
    out.push(item.clone());
    proof {
        assert(views(out@) =~= seq![item@]);
    }
    out
}

fn settle(v: Option<Parsed>) -> (r: Parsed)
    ensures
        r@ == match v {
            Some(p) => p@,
            None => no_coercion(),
        },
{
    match v {
        Some(p) => p,
        None => Parsed::Error(StackError::InvalidCoercion),
    }
}

fn lifted(r: Reckoned) -> (o: Outcome)
    ensures
        o@ == lift(r@),
{
    match r {
        Reckoned::Done(n) => Outcome::Value(Parsed::Num(n)),
        Reckoned::Ask(t) => Outcome::Ask(Request::Float(t)),
    }
}

impl Parsed {
    /// The exact type of the value.
    pub fn get_type(&self) -> (r: Type)
        ensures
            r == self@.type_of(),
    {
        match self {
            Parsed::Void => Type::Void,
            Parsed::Num(numerical) => match numerical {
                Numeric::Integer(_) => Type::Integer,
                Numeric::Float(_) => Type::Float,
                Numeric::NumError(_) => Type::Error,
            },
            Parsed::String(_) => Type::String,
            Parsed::Bool(_) => Type::Bool,
            Parsed::Quotation(_) => Type::Quotation,
            Parsed::Symbol(_) => Type::Symbol,
            Parsed::List(_) => Type::List,
            Parsed::Error(_) => Type::Error,
            Parsed::Function(op) => Type::Function(op.get_signature()),
        }
    }

    /// Whether the value counts as true.
    pub fn is_true(&self) -> (r: bool)
        ensures
            r == self@.is_true(),
    {
        match self {
            Parsed::Num(val) => !val.equals(&Numeric::Integer(0)),
            Parsed::Bool(val) => *val,
            Parsed::String(s) => !s.as_str().is_empty(),
            Parsed::List(l) => {
                proof {
                    lemma_list_view(*l);
                }
                l.len() > 0
            },
            _ => false,
        }
    }

    /// The size of a string, a list or a quotation.
    pub fn size(&self) -> (r: Parsed)
        ensures
            r@ == self@.size(),
    {
        match self {
            Parsed::String(s) => {
                let n = s.as_str().as_bytes().len();
                Parsed::Num(Numeric::Integer(n as i128))
            },
            Parsed::Quotation(b) => {
                proof {
                    lemma_quotation_view(*b);
                }
                Parsed::Num(Numeric::Integer(b.len() as i128))
            },
            Parsed::List(l) => {
                proof {
                    lemma_list_view(*l);
                }
                Parsed::Num(Numeric::Integer(l.len() as i128))
            },
            _ => Parsed::Error(StackError::InvalidCoercion),
        }
    }

    /// A copy of the items of a list or a quotation.
    pub fn get_contents(&self) -> (r: Option<Vec<Parsed>>)
        ensures
            match self@.contents() {
                Some(c) => r is Some && views(r->0@) == c,
                None => r is None,
            },
    {
        match self {
            Parsed::List(l) => {
                proof {
                    lemma_list_view(*l);
                }
                Some(clone_items(l))
            },
            Parsed::Quotation(q) => {
                proof {
                    lemma_quotation_view(*q);
                }
                Some(clone_items(q))
            },
            _ => None,
        }
    }

    /// A number with the other sign, a boolean turned round.
    pub fn neg(&self) -> (r: Parsed)
        ensures
            r@ == self@.neg(),
    {
        match self {
            Parsed::Num(num) => Parsed::Num(num.neg()),
            Parsed::Bool(b) => Parsed::Bool(!*b),
            _ => Parsed::Error(StackError::InvalidCoercion),
        }
    }

    /// The value as a boolean, if it has one.
    pub fn to_bool(&self) -> (r: Option<Parsed>)
        ensures
            r is Some <==> self@.to_bool() is Some,
            r is Some ==> r->0@ == self@.to_bool()->0,
    {
        match self {
            Parsed::Num(n) => Some(Parsed::Bool(!n.equals(&Numeric::Integer(0)))),
            Parsed::Bool(_) => Some(self.clone()),
            _ => None,
        }
    }

    /// The value as a float, if it has one.
    pub fn to_float(&self) -> (r: Option<Parsed>)
        ensures
            r is Some <==> self@.to_float() is Some,
            r is Some ==> r->0@ == self@.to_float()->0,
    {
        match self {
            Parsed::Bool(b) => {
                let bits = if *b {
                    float::from_int(1)
                } else {
                    float::from_int(0)
                };
                Some(Parsed::Num(Numeric::Float(bits)))
            },
            Parsed::Num(n) => Some(Parsed::Num(n.as_float())),
            _ => None,
        }
    }

    /// The value as an integer, if it has one.
    pub fn to_integer(&self) -> (r: Option<Parsed>)
        ensures
            r is Some <==> self@.to_integer() is Some,
            r is Some ==> r->0@ == self@.to_integer()->0,
    {
        match self {
            Parsed::Bool(b) => Some(
                Parsed::Num(
                    Numeric::Integer(
                        if *b {
                            1
                        } else {
                            0
                        },
                    ),
                ),
            ),
            Parsed::Num(n) => Some(Parsed::Num(n.as_integer())),
            _ => None,
        }
    }

    /// The value as a quotation, if it has one.
    pub fn to_quotation(&self) -> (r: Option<Parsed>)
        ensures
            r is Some <==> self@.to_quotation() is Some,
            r is Some ==> r->0@ == self@.to_quotation()->0,
    {
        match self {
            Parsed::Quotation(_) => Some(self.clone()),
            Parsed::Error(_) => None,
            _ => {
                let items = single(self);
                proof {
                    lemma_quotation_view(items);
                }
                Some(Parsed::Quotation(items))
            },
        }
    }

    /// The value, if it is a symbol.
    pub fn to_symbol(&self) -> (r: Option<Parsed>)
        ensures
            r is Some <==> self@.to_symbol() is Some,
            r is Some ==> r->0@ == self@.to_symbol()->0,
    {
        match self {
            Parsed::Symbol(_) => Some(self.clone()),
            _ => None,
        }
    }

    /// The value, if it is an operator.
    pub fn to_function(&self) -> (r: Option<Parsed>)
        ensures
            r is Some <==> self@.to_function() is Some,
            r is Some ==> r->0@ == self@.to_function()->0,
    {
        match self {
            Parsed::Function(_) => Some(self.clone()),
            _ => None,
        }
    }

    /// The text of the value as a string, if it has one.
    pub fn to_string(&self) -> (r: Option<Parsed>)
        ensures
            r is Some <==> self@.to_string() is Some,
            r is Some ==> r->0@ == self@.to_string()->0,
    {
        match self {
            Parsed::Error(_) => None,
            _ => {
                let text = self.render();
                match plain_string(&text) {
                    Some(s) => Some(Parsed::String(s)),
                    None => None,
                }
            },
        }
    }

    /// The value as a list, if it has one.
    pub fn to_list(&self) -> (r: Option<Parsed>)
        ensures
            r is Some <==> self@.to_list() is Some,
            r is Some ==> r->0@ == self@.to_list()->0,
    {
        match self {
            Parsed::Error(_) => None,
            Parsed::List(_) => Some(self.clone()),
            _ => {
                let items = single(self);
                proof {
                    lemma_list_view(items);
                }
                Some(Parsed::List(items))
            },
        }
    }

    /// The value turned into type `t`, or an `InvalidCoercion` error.
    pub fn coerce(&self, t: &Type) -> (r: Parsed)
        ensures
            r@ == self@.coerce(*t),
    {
        let res = match t {
            Type::Void => None,
            Type::String => self.to_string(),
            Type::List => self.to_list(),
            Type::Integer => self.to_integer(),
            Type::Float => self.to_float(),
            Type::Bool => self.to_bool(),
            Type::Quotation => self.to_quotation(),
            Type::Error => self.to_string(),
            Type::Symbol => self.to_symbol(),
            Type::Function(_) => self.to_function(),
        };
        settle(res)
    }

    /// Arithmetic on two values.
    pub fn arith(&self, rhs: &Parsed, op: FloatOp) -> (r: Outcome)
        ensures
            r@ == self@.arith(rhs@, op),
    {
        match (self, rhs) {
            (Parsed::Num(v1), Parsed::Num(v2)) => lifted(binary_numerical(v1, v2, op)),
            _ => Outcome::Value(Parsed::Error(StackError::InvalidCoercion)),
        }
    }

    /// The sum of two values.
    pub fn add(&self, rhs: &Parsed) -> (r: Outcome)
        ensures
            r@ == self@.add(rhs@),
    {
        match (self, rhs) {
            (Parsed::Num(v1), Parsed::Num(v2)) => lifted(binary_numerical(v1, v2, FloatOp::Add)),
            (Parsed::String(s), Parsed::String(s2)) => {
                let joined = s.clone().concat(s2.as_str());
                Outcome::Value(Parsed::String(joined))
            },
            (Parsed::List(l1), Parsed::List(l2)) => {
                let mut items = clone_items(l1);
                append_items(&mut items, l2);
                proof {
                    lemma_list_view(*l1);
                    lemma_list_view(*l2);
                    lemma_list_view(items);
                }
                Outcome::Value(Parsed::List(items))
            },
            (elem, Parsed::List(old_list)) => {
                let mut items = single(elem);
                append_items(&mut items, old_list);
                proof {
                    lemma_list_view(*old_list);
                    lemma_list_view(items);
                }
                Outcome::Value(Parsed::List(items))
            },
            _ => Outcome::Value(Parsed::Error(StackError::InvalidCoercion)),
        }
    }

    /// The difference of two values.
    pub fn sub(&self, rhs: &Parsed) -> (r: Outcome)
        ensures
            r@ == self@.arith(rhs@, FloatOp::Sub),
    {
        self.arith(rhs, FloatOp::Sub)
    }

    /// The product of two values.
    pub fn mul(&self, rhs: &Parsed) -> (r: Outcome)
        ensures
            r@ == self@.arith(rhs@, FloatOp::Mul),
    {
        self.arith(rhs, FloatOp::Mul)
    }

    /// The quotient of two values.
    pub fn div(&self, rhs: &Parsed) -> (r: Outcome)
        ensures
            r@ == self@.arith(rhs@, FloatOp::Div),
    {
        self.arith(rhs, FloatOp::Div)
    }

    /// The logical and of two values.
    pub fn bitand(&self, rhs: &Parsed) -> (r: Parsed)
        ensures
            r@ == Value::Bool(self@.is_true() && rhs@.is_true()),
    {
        Parsed::Bool(self.is_true() && rhs.is_true())
    }

    /// The logical or of two values.
    pub fn bitor(&self, rhs: &Parsed) -> (r: Parsed)
        ensures
            r@ == Value::Bool(self@.is_true() || rhs@.is_true()),
    {
        Parsed::Bool(self.is_true() || rhs.is_true())
    }

    /// How this value stands to the other, where the two have an order:
    /// below it, equal to it as a double, or above it.
    pub fn partial_cmp(&self, other: &Parsed) -> (r: Option<Ordering>)
        ensures
            r is Some <==> self@.number() is Some && other@.number() is Some && !(self@ is Bool
                && other@ is Bool) && self@.number()->0.comparable(other@.number()->0),
            r == Some(Ordering::Less) <==> self@.less(other@),
            r == Some(Ordering::Greater) <==> other@.less(self@),
    {
        let a = match self {
            Parsed::Num(n) => n.clone(),
            Parsed::Bool(b) => Numeric::Integer(
                if *b {
                    1
                } else {
                    0
                },
            ),
            _ => {
                return None;
            },
        };
        let b = match other {
            Parsed::Num(n) => n.clone(),
            Parsed::Bool(b) => {
                if let Parsed::Bool(_) = self {
                    return None;
                }
                Numeric::Integer(
                    if *b {
                        1
                    } else {
                        0
                    },
                )
            },
            _ => {
                return None;
            },
        };
        a.partial_cmp(&b)
    }

    /// Whether this value is below the other.
    pub fn lt(&self, other: &Parsed) -> (r: bool)
        ensures
            r == self@.less(other@),
    {
        let a = match self {
            Parsed::Num(n) => n.clone(),
            Parsed::Bool(b) => Numeric::Integer(
                if *b {
                    1
                } else {
                    0
                },
            ),
            _ => {
                return false;
            },
        };
        let b = match other {
            Parsed::Num(n) => n.clone(),
            Parsed::Bool(b) => {
                if let Parsed::Bool(_) = self {
                    return false;
                }
                Numeric::Integer(
                    if *b {
                        1
                    } else {
                        0
                    },
                )
            },
            _ => {
                return false;
            },
        };
        a.lt(&b)
    }

    /// Whether this value is above the other.
    pub fn gt(&self, other: &Parsed) -> (r: bool)
        ensures
            r == other@.less(self@),
    {
        other.lt(self)
    }

    /// The text of the value as a result is shown.
    pub fn render(&self) -> (r: Vec<Glyph>)
        ensures
            r@ == self@.text(false),
    {
        let mut out: Vec<Glyph> = Vec::new();
        self.write(&mut out, false);
        out
    }

    /// The text of the value as a program holds it.
    pub fn source(&self) -> (r: Vec<Glyph>)
        ensures
            r@ == self@.text(true),
    {
        let mut out: Vec<Glyph> = Vec::new();
        self.write(&mut out, true);
        out
    }

    /// Appends the text of the value.
    pub fn write(&self, out: &mut Vec<Glyph>, source: bool)
        ensures
            final(out)@ == old(out)@ + self@.text(source),
        decreases self,
    {
        match self {
            Parsed::Void => push_str(out, "()"),
            Parsed::Num(n) => n.write(out),
            Parsed::String(s) => {
                if source {
                    push_str(out, "\" ");
                    push_str(out, s.as_str());
                    push_str(out, " \"");
                } else {
                    push_str(out, "\"");
                    push_str(out, s.as_str());
                    push_str(out, "\"");
                }
                proof {
                    assert(out@ =~= old(out)@ + self@.text(source));
                }
            },
            Parsed::Bool(b) => {
                if *b {
                    push_str(out, "True")
                } else {
                    push_str(out, "False")
                }
            },
            Parsed::Quotation(q) => {
                push_str(out, "{ ");
                write_items(q, out, " ", source);
                push_str(out, " }");
                proof {
                    lemma_quotation_view(*q);
                    assert(out@ =~= old(out)@ + self@.text(source));
                }
            },
            Parsed::Symbol(s) => push_str(out, s.as_str()),
            Parsed::List(l) => {
                if source {
                    push_str(out, "[ ");
                    write_items(l, out, " ", source);
                    push_str(out, " ]");
                } else {
                    push_str(out, "[");
                    write_items(l, out, ",", source);
                    push_str(out, "]");
                }
                proof {
                    lemma_list_view(*l);
                    assert(out@ =~= old(out)@ + self@.text(source));
                }
            },
            Parsed::Error(e) => e.write(out),
            Parsed::Function(op) => {
                let name = op.to_string();
                push_str(out, name.as_str());
            },
        }
    }

    /// Whether two values are equal as the language has it.
    pub fn equals(&self, other: &Parsed) -> (r: bool)
        ensures
            r == self@.equals(other@),
        decreases self,
    {
        match (self, other) {
            (Parsed::Num(v1), Parsed::Num(v2)) => v1.equals(v2),
            (Parsed::String(s1), Parsed::String(s2)) => *s1 == *s2,
            (Parsed::List(l1), Parsed::List(l2)) => {
                proof {
                    lemma_list_view(*l1);
                    lemma_list_view(*l2);
                }
                eq_items(l1, l2)
            },
            (Parsed::Bool(b1), Parsed::Bool(b2)) => *b1 == *b2,
            (Parsed::Error(err1), Parsed::Error(err2)) => err1.same(err2),
            (Parsed::Quotation(q), Parsed::Quotation(q2)) => {
                proof {
                    lemma_quotation_view(*q);
                    lemma_quotation_view(*q2);
                }
                eq_items(q, q2)
            },
            _ => false,
        }
    }
}

/// Whether two sequences have the same length and equal items at each place.
pub fn eq_items(a: &Vec<Parsed>, b: &Vec<Parsed>) -> (r: bool)
    ensures
        r == (a@.len() == b@.len() && items_equal(views(a@), views(b@), a@.len() as nat)),
    decreases a,
{
    if a.len() != b.len() {
        return false;
    }
    let mut i: usize = 0;
    while i < a.len()
        invariant
            a.len() == b.len(),
            i <= a.len(),
            items_equal(views(a@), views(b@), i as nat),
        decreases a.len() - i,
    {
        proof {
            assert(decreases_to!(*a => a[i as int]));
        }
        if !a[i].equals(&b[i]) {
            proof {
                lemma_items_unequal(views(a@), views(b@), i as int, a@.len() as nat);
            }
            return false;
        }
        i = i + 1;
    }
    true
}

/// Where one pair of items is unequal, the sequences are.
pub proof fn lemma_items_unequal(a: Seq<Value>, b: Seq<Value>, i: int, n: nat)
    requires
        0 <= i < n <= a.len(),
        n <= b.len(),
        !a[i].equals(b[i]),
    ensures
        !items_equal(a, b, n),
    decreases n,
{
    if i < n - 1 {
        lemma_items_unequal(a, b, i, (n - 1) as nat);
    }
}

/// Appends the texts of the items, with `sep` between them.
pub fn write_items(items: &Vec<Parsed>, out: &mut Vec<Glyph>, sep: &str, source: bool)
    ensures
        final(out)@ == old(out)@ + join(views(items@), sep@, source),
    decreases items,
{
    let mut i: usize = 0;
    while i < items.len()
        invariant
            i <= items.len(),
            out@ == old(out)@ + join_upto(views(items@), i as nat, sep@, source),
        decreases items.len() - i,
    {
        proof {
            assert(decreases_to!(*items => items[i as int]));
        }
        if i > 0 {
            push_str(out, sep);
        }
        items[i].write(out, source);
        proof {
            let all = views(items@);
            if i == 0 {
                assert(join_upto(all, 0, sep@, source) =~= Seq::<Glyph>::empty());
                assert(out@ =~= old(out)@ + join_upto(all, 1, sep@, source));
            } else {
                assert(out@ =~= old(out)@ + join_upto(all, (i + 1) as nat, sep@, source));
            }
        }
        i = i + 1;
    }
}

} // verus!
