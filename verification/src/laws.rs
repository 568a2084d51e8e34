//! What holds of the interpreter on every input.

use crate::float;
use crate::interpreter::{
    apply,
    as_modifiers,
    dispatch,
    dispose,
    fitting,
    gather,
    operands,
    run_steps,
    step,
    surfaced,
    ArgsView,
    BindingView,
    State,
    StatusView,
};
use crate::numeric::{reckon, FloatOp, FloatTask, NumericView, ReckonedView};
use crate::op::{op_named, ModifiersView, Op};
use crate::parsed::{items_equal, OutcomeView, RequestView, Value};
use crate::stack_error::StackErrorView;
use crate::types::{Constraint, Type};
use vstd::prelude::*;

verus! {

/// Equality of numbers does not depend on the side a number stands on.
pub proof fn law_numeric_equality_symmetric(a: NumericView, b: NumericView)
    ensures
        a.equals(b) == b.equals(a),
{
}

/// The sum of two numbers does not depend on their order: two integers have
/// the same sum either way, and where float arithmetic is left to do, it is
/// the same addition with its operands changed round.
pub proof fn law_addition_commutes(a: NumericView, b: NumericView)
    requires
        !(a is NumError),
        !(b is NumError),
    ensures
        match reckon(a, b, FloatOp::Add) {
            ReckonedView::Done(n) => reckon(b, a, FloatOp::Add) == ReckonedView::Done(n),
            ReckonedView::Ask(t) => reckon(b, a, FloatOp::Add) == ReckonedView::Ask(
                FloatTask { op: FloatOp::Add, left: t.right, right: t.left },
            ),
        },
{
}

/// A value is an integer, a float or a boolean.
pub open spec fn is_number(v: Value) -> bool {
    v.type_of() == Type::Integer || v.type_of() == Type::Float || v.type_of() == Type::Bool
}

/// What `+` gives on two numbers does not depend on their order: the same
/// value either way, or the same float addition with its operands changed
/// round.
#[verifier::rlimit(60)]
pub proof fn law_sum_commutes(a: Value, b: Value)
    requires
        is_number(a),
        is_number(b),
    ensures
        match Op::sum(a, b) {
            OutcomeView::Value(v) => Op::sum(b, a) == OutcomeView::Value(v),
            OutcomeView::Ask(RequestView::Float(t)) => Op::sum(b, a) == OutcomeView::Ask(
                RequestView::Float(FloatTask { op: FloatOp::Add, left: t.right, right: t.left }),
            ),
            OutcomeView::Ask(_) => false,
        },
{
}

/// Item by item, equality does not depend on the side.
proof fn lemma_items_equal_symmetric(a: Seq<Value>, b: Seq<Value>, n: nat)
    ensures
        items_equal(a, b, n) == items_equal(b, a, n),
    decreases a, n,
{
    if n == 0 || n > a.len() || n > b.len() {
    } else {
        lemma_items_equal_symmetric(a, b, (n - 1) as nat);
        law_equality_symmetric(a[n - 1], b[n - 1]);
    }
}

/// The equality of the language does not depend on the side a value stands
/// on.
pub proof fn law_equality_symmetric(a: Value, b: Value)
    ensures
        a.equals(b) == b.equals(a),
    decreases a, 0nat,
{
    match (a, b) {
        (Value::Num(x), Value::Num(y)) => {
            law_numeric_equality_symmetric(x, y);
        },
        (Value::List(x), Value::List(y)) => {
            if x.len() == y.len() {
                lemma_items_equal_symmetric(x, y, x.len());
            }
        },
        (Value::Quotation(x), Value::Quotation(y)) => {
            if x.len() == y.len() {
                lemma_items_equal_symmetric(x, y, x.len());
            }
        },
        _ => {},
    }
}

/// What an operator leaves on the stack by its signature: one value, or none
/// where its result is `Void`.
pub open spec fn declared_result(op: Op) -> int {
    if op.signature().ret == Constraint::Void {
        0
    } else {
        1
    }
}

/// A value is none, or a list that holds none.
pub open spec fn hollow(v: Value) -> bool {
    match v {
        Value::Void => true,
        Value::List(l) => exists|i: int| 0 <= i < l.len() && l[i] is Void,
        _ => false,
    }
}

/// No operand is hollow.
pub open spec fn solid(args: ArgsView) -> bool {
    match args {
        ArgsView::Nullary => true,
        ArgsView::Unary(a) => !hollow(a),
        ArgsView::Binary(a, b) => !hollow(a) && !hollow(b),
    }
}

/// A result is as the signature of `op` has it: an error, a quotation,
/// nothing where the signature's result is `Void`, or a value that meets the
/// result constraint.
pub open spec fn well_typed(op: Op, o: OutcomeView) -> bool {
    match o {
        OutcomeView::Value(v) => {
            let w = surfaced(v);
            ||| w is Error
            ||| w is Quotation
            ||| w is Void && op.signature().ret == Constraint::Void
            ||| !(w is Void) && op.signature().ret.satisfied_by(w.type_of())
        },
        OutcomeView::Ask(_) => true,
    }
}

#[verifier::rlimit(60)]
proof fn lemma_unary_well_typed(op: Op, arg: Value, mods: ModifiersView)
    requires
        fitting(op.signature().stack_args, ArgsView::Unary(arg)),
        !hollow(arg),
    ensures
        well_typed(op, op.unary(arg, mods)),
{
}

#[verifier::rlimit(60)]
proof fn lemma_binary_well_typed(op: Op, lhs: Value, rhs: Value, mods: ModifiersView)
    requires
        fitting(op.signature().stack_args, ArgsView::Binary(lhs, rhs)),
        !hollow(lhs),
        !hollow(rhs),
    ensures
        well_typed(op, op.binary(lhs, rhs, mods)),
{
}

/// Every operator is total over its signature: on operands that meet their
/// constraints, and of which none is hollow, it gives an error, a quotation,
/// nothing where its result is `Void`, or a value that meets its result
/// constraint; or it asks its host.
pub proof fn law_results_are_well_typed(op: Op, args: ArgsView, mods: ModifiersView)
    requires
        fitting(op.signature().stack_args, args),
        solid(args),
    ensures
        well_typed(op, apply(op, args, mods)),
{
    match args {
        ArgsView::Nullary => {},
        ArgsView::Unary(arg) => lemma_unary_well_typed(op, arg, mods),
        ArgsView::Binary(lhs, rhs) => lemma_binary_well_typed(op, lhs, rhs, mods),
    }
}

/// Stack discipline: where an operator finds its modifiers and its operands,
/// and gives a value that is neither an error nor a quotation, the stack ends
/// as deep as the signature says: the operands are gone, and the result is
/// there unless the signature's result is `Void`. The input has lost the
/// modifiers and nothing else.
#[verifier::rlimit(60)]
pub proof fn law_stack_discipline(op: Op, s: State)
    requires
        plain_operator(op, s),
    ensures
        dispatch(op, s).1 == StatusView::Running,
        dispatch(op, s).0.stack.len() == s.stack.len() - op.signature().stack_args.arity()
            + declared_result(op),
        dispatch(op, s).0.input == s.input.skip(op.signature().modifiers.arity() as int),
{
}

/// The next token is an operator that finds its modifiers and its operands,
/// none of them hollow, and gives a value that is neither an error nor a
/// quotation.
pub open spec fn plain_operator(op: Op, s: State) -> bool {
    &&& gather(op, s.input, s.bindings).args is Ok
    &&& s.stack.len() >= op.signature().stack_args.arity()
    &&& solid(operands(op, s.stack))
    &&& match apply(
        op,
        operands(op, s.stack),
        as_modifiers(gather(op, s.input, s.bindings).args->Ok_0),
    ) {
        OutcomeView::Value(v) => !(v is Error) && !(v is Quotation) && !(v matches Value::Num(
            NumericView::NumError(_),
        )),
        OutcomeView::Ask(_) => false,
    }
}

/// The next step is plain: it puts a value that is no error on the stack, or
/// runs an operator as `plain_operator` has it. A symbol bound to a function
/// is not plain, nor is an operator that gives a quotation: what these leave
/// on the stack is for the program that they stand for to say.
pub open spec fn plain_step(s: State) -> bool {
    &&& !(s.stack.len() > 0 && s.stack.last() is Error)
    &&& s.input.len() > 0
    &&& match s.input[0] {
        Value::Error(_) => false,
        Value::Symbol(name) => !(s.bindings.dom().contains(name) && s.bindings[name].function
            && s.bindings[name].value.contents() is Some),
        Value::Function(op) => plain_operator(op, State { input: s.input.skip(1), ..s }),
        _ => true,
    }
}

/// The stack effect that the next token declares: an operator takes its
/// operands and leaves its result; any other token leaves one value.
pub open spec fn declared_effect(s: State) -> int {
    match s.input[0] {
        Value::Function(op) => declared_result(op) - op.signature().stack_args.arity(),
        _ => 1,
    }
}

/// The next `n` steps are plain.
pub open spec fn plain_run(s: State, n: nat) -> bool
    decreases n,
{
    n == 0 || (plain_step(s) && plain_run(step(s).0, (n - 1) as nat))
}

/// The stack effects that the next `n` steps declare, added up.
pub open spec fn net_effect(s: State, n: nat) -> int
    decreases n,
{
    if n == 0 {
        0
    } else {
        declared_effect(s) + net_effect(step(s).0, (n - 1) as nat)
    }
}

/// A plain step changes the depth of the stack by what its token declares.
pub proof fn law_plain_step(s: State)
    requires
        plain_step(s),
    ensures
        step(s).1 == StatusView::Running,
        step(s).0.stack.len() == s.stack.len() + declared_effect(s),
{
    match s.input[0] {
        Value::Function(op) => {
            law_stack_discipline(op, State { input: s.input.skip(1), ..s });
        },
        _ => {},
    }
}

/// Stack discipline of programs: after a run of plain steps the stack is as
/// deep as it was, plus the net stack effect that the tokens of those steps
/// declare.
pub proof fn law_stack_discipline_of_programs(s: State, n: nat)
    requires
        plain_run(s, n),
    ensures
        run_steps(s, n).1 == StatusView::Running,
        run_steps(s, n).0.stack.len() == s.stack.len() + net_effect(s, n),
    decreases n,
{
    if n > 0 {
        law_plain_step(s);
        law_stack_discipline_of_programs(step(s).0, (n - 1) as nat);
    }
}

/// Modifier consumption: an operator takes from the input exactly as many
/// tokens as its signature names modifiers, where the input holds that many,
/// whether or not they meet their constraints; and gathering them touches
/// nothing but the input.
pub proof fn law_modifier_consumption(op: Op, input: Seq<Value>, bindings: Map<Seq<char>, BindingView>)
    ensures
        input.len() >= op.signature().modifiers.arity() ==> gather(op, input, bindings).input
            == input.skip(op.signature().modifiers.arity() as int) && !(gather(
            op,
            input,
            bindings,
        ).args matches Err(StackErrorView::PrematureEnd)),
        input.len() < op.signature().modifiers.arity() ==> gather(op, input, bindings).args == Err::<
            ArgsView,
            StackErrorView,
        >(StackErrorView::PrematureEnd),
{
}

/// Where the modifiers cannot be gathered, the stack is as it was but for the
/// error put on it: no operand has been popped.
pub proof fn law_modifiers_come_first(op: Op, s: State)
    requires
        gather(op, s.input, s.bindings).args is Err,
    ensures
        dispatch(op, s).0.stack == s.stack.push(
            Value::Error(gather(op, s.input, s.bindings).args->Err_0),
        ),
        dispatch(op, s).0.bindings == s.bindings,
{
}

/// Quotation splicing: a quotation given by an operator leaves the stack and
/// the bindings as they are, and the evaluator goes on as it would with the
/// quotation's items written in front of the input.
pub proof fn law_quotation_splice(op: Op, q: Seq<Value>, s: State, fuel: nat)
    ensures
        dispose(op, Value::Quotation(q), s) == (State { input: q + s.input, ..s }),
        run_steps(dispose(op, Value::Quotation(q), s), fuel) == run_steps(
            State { input: q + s.input, ..s },
            fuel,
        ),
{
}

/// Symbol literal: `'` before a name leaves that one symbol on the stack,
/// whatever the name is bound to.
pub proof fn law_symbol_literal(name: Seq<char>, s: State)
    requires
        !(s.stack.len() > 0 && s.stack.last() is Error),
        s.input.len() >= 2,
        s.input[0] == Value::Function(Op::AsSymbol),
        s.input[1] == Value::Symbol(name),
    ensures
        step(s) == (
            State { stack: s.stack.push(Value::Symbol(name)), input: s.input.skip(2), ..s },
            StatusView::Running,
        ),
{
    assert(s.input.skip(1).skip(1) =~= s.input.skip(2));
    assert(s.stack.take(s.stack.len() - 0) =~= s.stack);
}

/// Error short-circuit: with an error on top of the stack the evaluator
/// evaluates nothing, however many steps it is given.
pub proof fn law_error_short_circuit(s: State, fuel: nat)
    requires
        s.stack.len() > 0,
        s.stack.last() is Error,
    ensures
        step(s) == (s, StatusView::Failed),
        fuel > 0 ==> run_steps(s, fuel) == (s, StatusView::Failed),
{
}

/// An error that a step puts on the stack ends the run at the next step: the
/// input that is left is not evaluated.
pub proof fn law_error_ends_run(s: State, fuel: nat)
    requires
        step(s).1 is Running,
        step(s).0.stack.len() > 0,
        step(s).0.stack.last() is Error,
        fuel >= 2,
    ensures
        run_steps(s, fuel) == (step(s).0, StatusView::Failed),
{
    law_error_short_circuit(step(s).0, (fuel - 1) as nat);
}

/// A run can be made in portions: running for `m` steps and, where that ends
/// with more to do, for `n` more, is running for `m + n` steps.
pub proof fn law_run_in_portions(s: State, m: nat, n: nat)
    ensures
        run_steps(s, m + n) == if run_steps(s, m).1 is Running {
            run_steps(run_steps(s, m).0, n)
        } else {
            run_steps(s, m)
        },
    decreases m,
{
    if m > 0 {
        let next = step(s);
        if next.1 is Running {
            law_run_in_portions(next.0, (m - 1) as nat, n);
            assert(run_steps(s, m + n) == run_steps(next.0, (m + n - 1) as nat));
        }
    }
}

/// What the operators' names are: the length of each, and each of its
/// characters.
proof fn lemma_names_spelled()
    ensures
        "print"@.len() == 5,
        "print"@[0] == 'p',
        "print"@[1] == 'r',
        "print"@[2] == 'i',
        "print"@[3] == 'n',
        "print"@[4] == 't',
        "read"@.len() == 4,
        "read"@[0] == 'r',
        "read"@[1] == 'e',
        "read"@[2] == 'a',
        "read"@[3] == 'd',
        "parseInteger"@.len() == 12,
        "parseInteger"@[0] == 'p',
        "parseInteger"@[1] == 'a',
        "parseInteger"@[2] == 'r',
        "parseInteger"@[3] == 's',
        "parseInteger"@[4] == 'e',
        "parseInteger"@[5] == 'I',
        "parseInteger"@[6] == 'n',
        "parseInteger"@[7] == 't',
        "parseInteger"@[8] == 'e',
        "parseInteger"@[9] == 'g',
        "parseInteger"@[10] == 'e',
        "parseInteger"@[11] == 'r',
        "parseFloat"@.len() == 10,
        "parseFloat"@[0] == 'p',
        "parseFloat"@[1] == 'a',
        "parseFloat"@[2] == 'r',
        "parseFloat"@[3] == 's',
        "parseFloat"@[4] == 'e',
        "parseFloat"@[5] == 'F',
        "parseFloat"@[6] == 'l',
        "parseFloat"@[7] == 'o',
        "parseFloat"@[8] == 'a',
        "parseFloat"@[9] == 't',
        "words"@.len() == 5,
        "words"@[0] == 'w',
        "words"@[1] == 'o',
        "words"@[2] == 'r',
        "words"@[3] == 'd',
        "words"@[4] == 's',
        "+"@.len() == 1,
        "+"@[0] == '+',
        "-"@.len() == 1,
        "-"@[0] == '-',
        "*"@.len() == 1,
        "*"@[0] == '*',
        "/"@.len() == 1,
        "/"@[0] == '/',
        "div"@.len() == 3,
        "div"@[0] == 'd',
        "div"@[1] == 'i',
        "div"@[2] == 'v',
        "<"@.len() == 1,
        "<"@[0] == '<',
        ">"@.len() == 1,
        ">"@[0] == '>',
        "=="@.len() == 2,
        "=="@[0] == '=',
        "=="@[1] == '=',
        "&&"@.len() == 2,
        "&&"@[0] == '&',
        "&&"@[1] == '&',
        "||"@.len() == 2,
        "||"@[0] == '|',
        "||"@[1] == '|',
        "not"@.len() == 3,
        "not"@[0] == 'n',
        "not"@[1] == 'o',
        "not"@[2] == 't',
        "head"@.len() == 4,
        "head"@[0] == 'h',
        "head"@[1] == 'e',
        "head"@[2] == 'a',
        "head"@[3] == 'd',
        "tail"@.len() == 4,
        "tail"@[0] == 't',
        "tail"@[1] == 'a',
        "tail"@[2] == 'i',
        "tail"@[3] == 'l',
        "empty"@.len() == 5,
        "empty"@[0] == 'e',
        "empty"@[1] == 'm',
        "empty"@[2] == 'p',
        "empty"@[3] == 't',
        "empty"@[4] == 'y',
        "length"@.len() == 6,
        "length"@[0] == 'l',
        "length"@[1] == 'e',
        "length"@[2] == 'n',
        "length"@[3] == 'g',
        "length"@[4] == 't',
        "length"@[5] == 'h',
        "cons"@.len() == 4,
        "cons"@[0] == 'c',
        "cons"@[1] == 'o',
        "cons"@[2] == 'n',
        "cons"@[3] == 's',
        "append"@.len() == 6,
        "append"@[0] == 'a',
        "append"@[1] == 'p',
        "append"@[2] == 'p',
        "append"@[3] == 'e',
        "append"@[4] == 'n',
        "append"@[5] == 'd',
        "each"@.len() == 4,
        "each"@[0] == 'e',
        "each"@[1] == 'a',
        "each"@[2] == 'c',
        "each"@[3] == 'h',
        "map"@.len() == 3,
        "map"@[0] == 'm',
        "map"@[1] == 'a',
        "map"@[2] == 'p',
        "foldl"@.len() == 5,
        "foldl"@[0] == 'f',
        "foldl"@[1] == 'o',
        "foldl"@[2] == 'l',
        "foldl"@[3] == 'd',
        "foldl"@[4] == 'l',
        "if"@.len() == 2,
        "if"@[0] == 'i',
        "if"@[1] == 'f',
        "loop"@.len() == 4,
        "loop"@[0] == 'l',
        "loop"@[1] == 'o',
        "loop"@[2] == 'o',
        "loop"@[3] == 'p',
        "times"@.len() == 5,
        "times"@[0] == 't',
        "times"@[1] == 'i',
        "times"@[2] == 'm',
        "times"@[3] == 'e',
        "times"@[4] == 's',
        "exec"@.len() == 4,
        "exec"@[0] == 'e',
        "exec"@[1] == 'x',
        "exec"@[2] == 'e',
        "exec"@[3] == 'c',
        ":="@.len() == 2,
        ":="@[0] == ':',
        ":="@[1] == '=',
        "fun"@.len() == 3,
        "fun"@[0] == 'f',
        "fun"@[1] == 'u',
        "fun"@[2] == 'n',
        "'"@.len() == 1,
        "'"@[0] == '\'',
        "eval"@.len() == 4,
        "eval"@[0] == 'e',
        "eval"@[1] == 'v',
        "eval"@[2] == 'a',
        "eval"@[3] == 'l',
        "pop"@.len() == 3,
        "pop"@[0] == 'p',
        "pop"@[1] == 'o',
        "pop"@[2] == 'p',
        "swap"@.len() == 4,
        "swap"@[0] == 's',
        "swap"@[1] == 'w',
        "swap"@[2] == 'a',
        "swap"@[3] == 'p',
        "dup"@.len() == 3,
        "dup"@[0] == 'd',
        "dup"@[1] == 'u',
        "dup"@[2] == 'p',
{
    reveal_strlit("print");
    reveal_strlit("read");
    reveal_strlit("parseInteger");
    reveal_strlit("parseFloat");
    reveal_strlit("words");
    reveal_strlit("+");
    reveal_strlit("-");
    reveal_strlit("*");
    reveal_strlit("/");
    reveal_strlit("div");
    reveal_strlit("<");
    reveal_strlit(">");
    reveal_strlit("==");
    reveal_strlit("&&");
    reveal_strlit("||");
    reveal_strlit("not");
    reveal_strlit("head");
    reveal_strlit("tail");
    reveal_strlit("empty");
    reveal_strlit("length");
    reveal_strlit("cons");
    reveal_strlit("append");
    reveal_strlit("each");
    reveal_strlit("map");
    reveal_strlit("foldl");
    reveal_strlit("if");
    reveal_strlit("loop");
    reveal_strlit("times");
    reveal_strlit("exec");
    reveal_strlit(":=");
    reveal_strlit("fun");
    reveal_strlit("'");
    reveal_strlit("eval");
    reveal_strlit("pop");
    reveal_strlit("swap");
    reveal_strlit("dup");
}

/// The operators' names are one to one: the name of an operator names that
/// operator, but for `Op::Void`, which no word names.
#[verifier::rlimit(60)]
pub proof fn law_operator_names(op: Op)
    requires
        op != Op::Void,
    ensures
        op_named(op.name()) == Some(op),
{
    lemma_names_spelled();
}

} // verus!
