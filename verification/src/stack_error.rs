//! The errors a running program can meet.

use crate::interpreter::{Args, ArgsView};
use crate::op::Op;
use crate::parsed::{Parsed, Value};
use crate::text::{chars, copy_text, push_str, same_text, Glyph};
use crate::types::{Params, Signature};
use vstd::prelude::*;

verus! {

/// An error of the interpreter. Errors are values: they are put on the stack
/// like any other.
#[derive(Debug, PartialEq)]
pub enum StackError {
    /// A number left the range of the integers.
    Overflow,
    /// A division by zero.
    ZeroDiv,
    /// A value cannot be turned into the type that was asked for.
    InvalidCoercion,
    /// The operator has no meaning.
    Undefined,
    /// An operand or a modifier does not meet the operator's signature; the
    /// payload is the diagnostic.
    TypeMismatch(Vec<Glyph>),
    /// `head` of an empty list.
    HeadEmpty,
    /// `tail` of an empty list.
    TailEmpty,
    /// An operator found too few values on the stack.
    PopEmpty,
    /// An operator found too few tokens left in the input.
    PrematureEnd,
    /// An error raised by the program itself.
    UserDefined(String),
}

/// The mathematical value of a `StackError`.
pub enum StackErrorView {
    Overflow,
    ZeroDiv,
    InvalidCoercion,
    Undefined,
    TypeMismatch(Seq<Glyph>),
    HeadEmpty,
    TailEmpty,
    PopEmpty,
    PrematureEnd,
    UserDefined(Seq<char>),
}

impl View for StackError {
    type V = StackErrorView;

    open spec fn view(&self) -> StackErrorView {
        match self {
            StackError::Overflow => StackErrorView::Overflow,
            StackError::ZeroDiv => StackErrorView::ZeroDiv,
            StackError::InvalidCoercion => StackErrorView::InvalidCoercion,
            StackError::Undefined => StackErrorView::Undefined,
            StackError::TypeMismatch(t) => StackErrorView::TypeMismatch(t@),
            StackError::HeadEmpty => StackErrorView::HeadEmpty,
            StackError::TailEmpty => StackErrorView::TailEmpty,
            StackError::PopEmpty => StackErrorView::PopEmpty,
            StackError::PrematureEnd => StackErrorView::PrematureEnd,
            StackError::UserDefined(s) => StackErrorView::UserDefined(s@),
        }
    }
}

impl StackErrorView {
    /// The line shown for the error.
    pub open spec fn message(self) -> Seq<Glyph> {
        match self {
            StackErrorView::Overflow => chars("err: numeric overflow"@),
            StackErrorView::ZeroDiv => chars("err: zero division"@),
            StackErrorView::InvalidCoercion => chars(
                "err: cannot coerce operands to target type"@,
            ),
            StackErrorView::Undefined => chars("err: operation is not defined"@),
            StackErrorView::TypeMismatch(t) => t,
            StackErrorView::HeadEmpty => chars("err: head of an empty list"@),
            StackErrorView::TailEmpty => chars("err: tail of an empty list"@),
            StackErrorView::PopEmpty => chars("err: attempted to pop empty stack!"@),
            StackErrorView::PrematureEnd => chars(
                "expected more program input, but none was found."@,
            ),
            StackErrorView::UserDefined(s) => chars(s),
        }
    }
}

impl Clone for StackError {
    fn clone(&self) -> (r: Self)
        ensures
            r@ == self@,
    {
        match self {
            StackError::Overflow => StackError::Overflow,
            StackError::ZeroDiv => StackError::ZeroDiv,
            StackError::InvalidCoercion => StackError::InvalidCoercion,
            StackError::Undefined => StackError::Undefined,
            StackError::TypeMismatch(t) => StackError::TypeMismatch(copy_text(t)),
            StackError::HeadEmpty => StackError::HeadEmpty,
            StackError::TailEmpty => StackError::TailEmpty,
            StackError::PopEmpty => StackError::PopEmpty,
            StackError::PrematureEnd => StackError::PrematureEnd,
            StackError::UserDefined(s) => StackError::UserDefined(s.clone()),
        }
    }
}

impl StackError {
    /// Whether two errors are the same error.
    pub fn same(&self, other: &StackError) -> (r: bool)
        ensures
            r == (self@ == other@),
    {
        match (self, other) {
            (StackError::Overflow, StackError::Overflow) => true,
            (StackError::ZeroDiv, StackError::ZeroDiv) => true,
            (StackError::InvalidCoercion, StackError::InvalidCoercion) => true,
            (StackError::Undefined, StackError::Undefined) => true,
            (StackError::TypeMismatch(a), StackError::TypeMismatch(b)) => same_text(a, b),
            (StackError::HeadEmpty, StackError::HeadEmpty) => true,
            (StackError::TailEmpty, StackError::TailEmpty) => true,
            (StackError::PopEmpty, StackError::PopEmpty) => true,
            (StackError::PrematureEnd, StackError::PrematureEnd) => true,
            (StackError::UserDefined(a), StackError::UserDefined(b)) => *a == *b,
            _ => false,
        }
    }

    /// Appends the line shown for the error.
    pub fn write(&self, out: &mut Vec<Glyph>)
        ensures
            final(out)@ == old(out)@ + self@.message(),
    {
        match self {
            StackError::Overflow => push_str(out, "err: numeric overflow"),
            StackError::ZeroDiv => push_str(out, "err: zero division"),
            StackError::InvalidCoercion => push_str(
                out,
                "err: cannot coerce operands to target type",
            ),
            StackError::Undefined => push_str(out, "err: operation is not defined"),
            StackError::TypeMismatch(t) => crate::text::push_text(out, t),
            StackError::HeadEmpty => push_str(out, "err: head of an empty list"),
            StackError::TailEmpty => push_str(out, "err: tail of an empty list"),
            StackError::PopEmpty => push_str(out, "err: attempted to pop empty stack!"),
            StackError::PrematureEnd => push_str(
                out,
                "expected more program input, but none was found.",
            ),
            StackError::UserDefined(s) => push_str(out, s.as_str()),
        }
    }

    /// The line shown for the error.
    pub fn message(&self) -> (r: Vec<Glyph>)
        ensures
            r@ == self@.message(),
    {
        let mut out: Vec<Glyph> = Vec::new();
        self.write(&mut out);
        out
    }
}

/// A signature as a diagnostic shows it: the operands, the modifiers and the
/// result.
pub open spec fn signature_text(sig: Signature) -> Seq<char> {
    "<("@ + sig.stack_args.text() + ")::("@ + sig.modifiers.text() + ") -> "@ + sig.ret.name()
        + ">"@
}

/// A value as a diagnostic names it: its type, then the value itself.
pub open spec fn describe(v: Value) -> Seq<Glyph> {
    chars("type "@) + chars(v.type_of().name()) + chars(" with value "@) + v.text(false)
}

/// The part of a diagnostic that names one value, where it fails its
/// constraint.
pub open spec fn named(fails: bool, place: Seq<char>, v: Value) -> Seq<Glyph> {
    if fails {
        chars(place) + describe(v) + chars(" "@)
    } else {
        Seq::empty()
    }
}

/// The word between the two values of a diagnostic, where both fail.
pub open spec fn link(both: bool) -> Seq<Glyph> {
    if both {
        chars("and "@)
    } else {
        Seq::empty()
    }
}

/// The verb of a diagnostic.
pub open spec fn verb(both: bool) -> Seq<Glyph> {
    if both {
        chars("do"@)
    } else {
        chars("does"@)
    }
}

/// The diagnostic for one value that does not meet an operator's signature.
pub open spec fn unary_mismatch_text(op: Op, actual: Value) -> Seq<Glyph> {
    chars("err: argument of "@) + describe(actual) + chars(
        " does not satisfy constraint in the function "@,
    ) + chars(op.name()) + chars(", with signature "@) + chars(signature_text(op.signature()))
        + chars("."@)
}

/// The diagnostic for two values of which `lhs` says whether the first fails
/// its constraint and `rhs` whether the second does.
pub open spec fn binary_mismatch_text(op: Op, a1: Value, a2: Value, lhs: bool, rhs: bool) -> Seq<
    Glyph,
> {
    chars("err: "@) + named(lhs, "first argument of "@, a1) + link(lhs && rhs) + named(
        rhs,
        "second argument of "@,
        a2,
    ) + verb(lhs && rhs) + chars(" not match constraints in the function "@) + chars(op.name())
        + chars(", with signature "@) + chars(signature_text(op.signature()))
}

/// The diagnostic for values that do not meet an operator's signature: it
/// names each value that fails its constraint, the operator and the signature.
/// `stack_arg` says whether the values are operands or modifiers.
pub open spec fn mismatch_text(op: Op, got: ArgsView, stack_arg: bool) -> Seq<Glyph> {
    let sig = op.signature();
    let exp = if stack_arg {
        sig.stack_args
    } else {
        sig.modifiers
    };
    match (exp, got) {
        (Params::Unary(_), ArgsView::Unary(actual)) => unary_mismatch_text(op, actual),
        (Params::Binary(c1, c2), ArgsView::Binary(a1, a2)) => binary_mismatch_text(
            op,
            a1,
            a2,
            !c1.satisfied_by(a1.type_of()),
            !c2.satisfied_by(a2.type_of()),
        ),
        _ => Seq::empty(),
    }
}

fn write_signature(out: &mut Vec<Glyph>, sig: &Signature)
    ensures
        final(out)@ == old(out)@ + chars(signature_text(*sig)),
{
    let mut text = String::new();
    let stack_args = sig.stack_args.to_string();
    let modifiers = sig.modifiers.to_string();
    let ret = sig.ret.to_string();
    vstd::string::StringExecFns::append(&mut text, "<(");
    vstd::string::StringExecFns::append(&mut text, stack_args.as_str());
    vstd::string::StringExecFns::append(&mut text, ")::(");
    vstd::string::StringExecFns::append(&mut text, modifiers.as_str());
    vstd::string::StringExecFns::append(&mut text, ") -> ");
    vstd::string::StringExecFns::append(&mut text, ret.as_str());
    vstd::string::StringExecFns::append(&mut text, ">");
    proof {
        assert(text@ =~= signature_text(*sig));
    }
    push_str(out, text.as_str());
}

fn write_described(out: &mut Vec<Glyph>, v: &Parsed)
    ensures
        final(out)@ == old(out)@ + describe(v@),
{
    push_str(out, "type ");
    let name = v.get_type().to_string();
    push_str(out, name.as_str());
    push_str(out, " with value ");
    v.write(out, false);
    proof {
        assert(out@ =~= old(out)@ + describe(v@));
    }
}

fn write_named(out: &mut Vec<Glyph>, fails: bool, place: &str, v: &Parsed)
    ensures
        final(out)@ == old(out)@ + named(fails, place@, v@),
{
    if fails {
        push_str(out, place);
        write_described(out, v);
        push_str(out, " ");
    }
    proof {
        assert(out@ =~= old(out)@ + named(fails, place@, v@));
    }
}

fn write_link(out: &mut Vec<Glyph>, both: bool)
    ensures
        final(out)@ == old(out)@ + link(both),
{
    if both {
        push_str(out, "and ");
    }
    proof {
        assert(out@ =~= old(out)@ + link(both));
    }
}

fn write_verb(out: &mut Vec<Glyph>, both: bool)
    ensures
        final(out)@ == old(out)@ + verb(both),
{
    if both {
        push_str(out, "do");
    } else {
        push_str(out, "does");
    }
}

fn start(text: &str) -> (out: Vec<Glyph>)
    ensures
        out@ == chars(text@),
{
    let mut out: Vec<Glyph> = Vec::new();
    push_str(&mut out, text);
    proof {
        assert(out@ =~= chars(text@));
    }
    out
}

/// The diagnostic for a result that does not meet an operator's signature.
pub open spec fn result_mismatch_text(op: Op, actual: Value) -> Seq<Glyph> {
    chars("err: result of "@) + describe(actual) + chars(
        " does not satisfy constraint in the function "@,
    ) + chars(op.name()) + chars(", with signature "@) + chars(signature_text(op.signature()))
        + chars("."@)
}

/// The error for a result that does not meet an operator's signature.
pub fn result_mismatch(op: &Op, actual: &Parsed) -> (r: StackError)
    ensures
        r@ == StackErrorView::TypeMismatch(result_mismatch_text(*op, actual@)),
{
    let sig = op.get_signature();
    let name = op.to_string();
    let mut out = start("err: result of ");
    write_described(&mut out, actual);
    push_str(&mut out, " does not satisfy constraint in the function ");
    push_str(&mut out, name.as_str());
    push_str(&mut out, ", with signature ");
    write_signature(&mut out, &sig);
    push_str(&mut out, ".");
    StackError::TypeMismatch(out)
}

fn unary_mismatch(op: &Op, actual: &Parsed) -> (out: Vec<Glyph>)
    ensures
        out@ == unary_mismatch_text(*op, actual@),
{
    let sig = op.get_signature();
    let name = op.to_string();
    let mut out = start("err: argument of ");
    write_described(&mut out, actual);
    push_str(&mut out, " does not satisfy constraint in the function ");
    push_str(&mut out, name.as_str());
    push_str(&mut out, ", with signature ");
    write_signature(&mut out, &sig);
    push_str(&mut out, ".");
    out
}

fn binary_mismatch(op: &Op, act1: &Parsed, act2: &Parsed, lhs: bool, rhs: bool) -> (out: Vec<Glyph>)
    ensures
        out@ == binary_mismatch_text(*op, act1@, act2@, lhs, rhs),
{
    let sig = op.get_signature();
    let name = op.to_string();
    let mut out = start("err: ");
    write_named(&mut out, lhs, "first argument of ", act1);
    write_link(&mut out, lhs && rhs);
    write_named(&mut out, rhs, "second argument of ", act2);
    write_verb(&mut out, lhs && rhs);
    push_str(&mut out, " not match constraints in the function ");
    push_str(&mut out, name.as_str());
    push_str(&mut out, ", with signature ");
    write_signature(&mut out, &sig);
    out
}

/// The error for values that do not meet an operator's signature.
pub fn arg_mismatch(op: &Op, got: &Args, stack_arg: bool) -> (r: StackError)
    ensures
        r@ == StackErrorView::TypeMismatch(mismatch_text(*op, got@, stack_arg)),
{
    let sig = op.get_signature();
    let exp = if stack_arg {
        sig.stack_args
    } else {
        sig.modifiers
    };
    let text = match (exp, got) {
        (Params::Unary(_), Args::Unary(actual)) => unary_mismatch(op, actual),
        (Params::Binary(c1, c2), Args::Binary(act1, act2)) => {
            let lhs = !c1.is_satisfied_by(&act1.get_type());
            let rhs = !c2.is_satisfied_by(&act2.get_type());
            binary_mismatch(op, act1, act2, lhs, rhs)
        },
        _ => Vec::new(),
    };
    StackError::TypeMismatch(text)
}

} // verus!
