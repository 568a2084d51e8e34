//! What holds of every state that the evaluator reaches: no value on the
//! stack, in the input or in a binding is `Void`, nor holds `Void` inside it.

use crate::interpreter::{
    apply,
    as_modifiers,
    dispatch,
    dispose,
    fitting,
    front,
    gather,
    operands,
    rebind,
    resolve_all,
    step,
    surfaced,
    ArgsView,
    BindingView,
    State,
};
use crate::op::{each_program, map_program, string_values, times_program, ModifiersView, Op};
use crate::parsed::{OutcomeView, Value};
use crate::types::Type;
use vstd::prelude::*;

verus! {

/// A value is not `Void`, and no item inside it is.
pub open spec fn sound(v: Value) -> bool
    decreases v, 0nat,
{
    match v {
        Value::Void => false,
        Value::List(l) => all_sound(l, l.len()),
        Value::Quotation(q) => all_sound(q, q.len()),
        _ => true,
    }
}

/// The first `n` items are sound.
pub open spec fn all_sound(items: Seq<Value>, n: nat) -> bool
    decreases items, n,
{
    if n == 0 || n > items.len() {
        true
    } else {
        all_sound(items, (n - 1) as nat) && sound(items[n - 1])
    }
}

/// Every value of a sequence is sound.
pub open spec fn every_sound(s: Seq<Value>) -> bool {
    forall|i: int| 0 <= i < s.len() ==> sound(#[trigger] s[i])
}

/// Every value that a name is bound to is sound.
pub open spec fn bindings_sound(b: Map<Seq<char>, BindingView>) -> bool {
    forall|k: Seq<char>| b.dom().contains(k) ==> sound((#[trigger] b[k]).value)
}

/// The stack, the input and the bindings hold sound values alone.
pub open spec fn sound_state(s: State) -> bool {
    every_sound(s.stack) && every_sound(s.input) && bindings_sound(s.bindings)
}

/// The operands or modifiers are sound.
pub open spec fn sound_args(a: ArgsView) -> bool {
    match a {
        ArgsView::Nullary => true,
        ArgsView::Unary(v) => sound(v),
        ArgsView::Binary(v, w) => sound(v) && sound(w),
    }
}

/// The modifiers are sound.
pub open spec fn sound_modifiers(m: ModifiersView) -> bool {
    match m {
        ModifiersView::Nullary => true,
        ModifiersView::Unary(v) => sound(v),
        ModifiersView::Binary(v, w) => sound(v) && sound(w),
    }
}

/// The first `n` items are sound where each of them is.
pub proof fn lemma_all_sound(items: Seq<Value>, n: nat)
    requires
        n <= items.len(),
    ensures
        all_sound(items, n) == (forall|i: int| 0 <= i < n ==> sound(#[trigger] items[i])),
    decreases n,
{
    if n > 0 {
        lemma_all_sound(items, (n - 1) as nat);
    }
}

/// A list or a quotation is sound where its items are.
pub proof fn lemma_sound_items(items: Seq<Value>)
    ensures
        sound(Value::List(items)) == every_sound(items),
        sound(Value::Quotation(items)) == every_sound(items),
{
    lemma_all_sound(items, items.len());
}

/// A sound value turned into another type is sound.
pub proof fn lemma_coerce_sound(v: Value, t: Type)
    requires
        sound(v),
    ensures
        sound(v.coerce(t)),
{
    lemma_sound_items(seq![v]);
}

proof fn lemma_each_program_sound(items: Seq<Value>, q: Value, n: nat)
    requires
        n <= items.len(),
        every_sound(items),
        sound(q),
    ensures
        every_sound(each_program(items, q, n)),
    decreases n,
{
    if n > 0 {
        lemma_each_program_sound(items, q, (n - 1) as nat);
    }
}

proof fn lemma_map_program_sound(items: Seq<Value>, q: Value, n: nat)
    requires
        n <= items.len(),
        every_sound(items),
        sound(q),
    ensures
        every_sound(map_program(items, q, n)),
    decreases n,
{
    if n > 0 {
        lemma_map_program_sound(items, q, (n - 1) as nat);
    }
    lemma_sound_items(Seq::<Value>::empty());
}

proof fn lemma_times_program_sound(q: Value, n: nat)
    requires
        sound(q),
    ensures
        every_sound(times_program(q, n)),
    decreases n,
{
    if n > 0 {
        lemma_times_program_sound(q, (n - 1) as nat);
    }
}

/// The items of a sound list or quotation are sound.
proof fn lemma_contents_sound(v: Value)
    requires
        sound(v),
    ensures
        match v.contents() {
            Some(items) => every_sound(items),
            None => true,
        },
{
    match v {
        Value::List(l) => lemma_sound_items(l),
        Value::Quotation(q) => lemma_sound_items(q),
        _ => {},
    }
}

/// The sum of two sound values is `Void` or sound.
proof fn lemma_add_sound(a: Value, b: Value)
    requires
        sound(a),
        sound(b),
    ensures
        match a.add(b) {
            OutcomeView::Value(v) => sound(v),
            OutcomeView::Ask(_) => true,
        },
{
    match (a, b) {
        (Value::List(x), Value::List(y)) => {
            lemma_sound_items(x);
            lemma_sound_items(y);
            lemma_sound_items(x + y);
        },
        (elem, Value::List(y)) => {
            lemma_sound_items(y);
            lemma_sound_items(seq![elem] + y);
        },
        _ => {},
    }
}

/// What an operator with one operand gives on sound values is `Void` or
/// sound.
proof fn lemma_unary_sound(op: Op, arg: Value, mods: ModifiersView)
    requires
        sound(arg),
        sound_modifiers(mods),
    ensures
        match op.unary(arg, mods) {
            OutcomeView::Value(v) => v is Void || sound(v),
            OutcomeView::Ask(_) => true,
        },
{
    lemma_contents_sound(arg);
    let items = match arg.contents() {
        Some(items) => items,
        None => Seq::empty(),
    };
    match op {
        Op::ParseWords => {
            if let Value::String(s) = arg {
                lemma_sound_items(string_values(crate::utility::words(s)));
            }
        },
        Op::Head => {},
        Op::Tail => {
            if let Value::List(l) = arg {
                if l.len() > 0 {
                    lemma_sound_items(l.subrange(1, l.len() as int));
                }
            }
        },
        Op::Dup => {
            lemma_sound_items(seq![arg, arg]);
        },
        Op::Exec => {
            lemma_coerce_sound(arg, Type::Quotation);
        },
        Op::If => {
            if let ModifiersView::Binary(a, b) = mods {
                lemma_coerce_sound(a, Type::Quotation);
                lemma_coerce_sound(b, Type::Quotation);
            }
        },
        Op::Times => {
            if let ModifiersView::Unary(q) = mods {
                lemma_coerce_sound(q, Type::Quotation);
                if let Value::Num(crate::numeric::NumericView::Integer(n)) = arg {
                    let count = if n > 0 {
                        n as nat
                    } else {
                        0
                    };
                    lemma_times_program_sound(q.coerce(Type::Quotation), count);
                    lemma_sound_items(times_program(q.coerce(Type::Quotation), count));
                }
            }
        },
        Op::MapList => {
            if let ModifiersView::Unary(q) = mods {
                lemma_coerce_sound(q, Type::Quotation);
                lemma_map_program_sound(items, q.coerce(Type::Quotation), items.len());
                lemma_sound_items(Seq::<Value>::empty());
                lemma_sound_items(
                    seq![Value::List(Seq::empty())] + map_program(
                        items,
                        q.coerce(Type::Quotation),
                        items.len(),
                    ),
                );
            }
        },
        Op::Each => {
            if let ModifiersView::Unary(q) = mods {
                lemma_coerce_sound(q, Type::Quotation);
                lemma_each_program_sound(items, q.coerce(Type::Quotation), items.len());
                lemma_sound_items(each_program(items, q.coerce(Type::Quotation), items.len()));
            }
        },
        Op::EvalSymbol => {
            lemma_sound_items(seq![arg]);
        },
        _ => {},
    }
}

/// What an operator with two operands gives on sound values is `Void` or
/// sound.
proof fn lemma_binary_sound(op: Op, lhs: Value, rhs: Value, mods: ModifiersView)
    requires
        sound(lhs),
        sound(rhs),
        sound_modifiers(mods),
    ensures
        match op.binary(lhs, rhs, mods) {
            OutcomeView::Value(v) => v is Void || sound(v),
            OutcomeView::Ask(_) => true,
        },
{
    match op {
        Op::Add => {
            lemma_coerce_sound(lhs, Type::Integer);
            lemma_coerce_sound(rhs, Type::Integer);
            lemma_coerce_sound(lhs, Type::Float);
            lemma_coerce_sound(rhs, Type::Float);
            let p = crate::op::promoted(lhs, rhs);
            lemma_add_sound(p.0, p.1);
        },
        Op::Append => {
            lemma_add_sound(lhs, rhs);
        },
        Op::Cons => {
            lemma_sound_items(seq![lhs]);
            lemma_add_sound(Value::List(seq![lhs]), rhs);
        },
        Op::Swap => {
            lemma_sound_items(seq![rhs, lhs]);
        },
        Op::Foldl => {
            lemma_contents_sound(lhs);
            if let ModifiersView::Unary(q) = mods {
                let items = match lhs.contents() {
                    Some(items) => items,
                    None => Seq::empty(),
                };
                lemma_coerce_sound(q, Type::Quotation);
                lemma_each_program_sound(items, q.coerce(Type::Quotation), items.len());
                lemma_sound_items(
                    seq![rhs] + each_program(items, q.coerce(Type::Quotation), items.len()),
                );
            }
        },
        _ => {},
    }
}

/// What an operator gives on sound operands and modifiers is `Void` or
/// sound.
pub proof fn lemma_apply_sound(op: Op, args: ArgsView, mods: ModifiersView)
    requires
        sound_args(args),
        sound_modifiers(mods),
    ensures
        match apply(op, args, mods) {
            OutcomeView::Value(v) => v is Void || sound(v),
            OutcomeView::Ask(_) => true,
        },
{
    if fitting(op.signature().stack_args, args) {
        match args {
            ArgsView::Nullary => {
                if let ModifiersView::Unary(m) = mods {
                    lemma_coerce_sound(m, Type::Symbol);
                }
            },
            ArgsView::Unary(arg) => lemma_unary_sound(op, arg, mods),
            ArgsView::Binary(lhs, rhs) => lemma_binary_sound(op, lhs, rhs, mods),
        }
    }
}

/// Disposing of a value that is `Void` or sound keeps a sound state sound.
pub proof fn law_dispose_keeps_sound(op: Op, v: Value, s: State)
    requires
        sound_state(s),
        v is Void || sound(v),
    ensures
        sound_state(dispose(op, v, s)),
{
    match surfaced(v) {
        Value::Quotation(q) => {
            lemma_sound_items(q);
        },
        _ => {},
    }
}

/// Dispatching an operator keeps a sound state sound.
pub proof fn law_dispatch_keeps_sound(op: Op, s: State)
    requires
        sound_state(s),
    ensures
        sound_state(dispatch(op, s).0),
{
    let g = gather(op, s.input, s.bindings);
    let s1 = State { input: g.input, ..s };
    match g.args {
        Err(_) => {},
        Ok(mods) => {
            let n = op.signature().stack_args.arity();
            if s1.stack.len() >= n {
                let args = operands(op, s1.stack);
                let s2 = State {
                    stack: s1.stack.take(s1.stack.len() - n),
                    bindings: rebind(op, args, s1.bindings),
                    ..s1
                };
                assert(mods == front(op, s.input, s.bindings));
                assert(sound_modifiers(as_modifiers(mods)));
                assert(sound_args(args));
                lemma_apply_sound(op, args, as_modifiers(mods));
                assert(sound_state(s2));
                match apply(op, args, as_modifiers(mods)) {
                    OutcomeView::Value(v) => law_dispose_keeps_sound(op, v, s2),
                    OutcomeView::Ask(_) => {},
                }
            }
        },
    }
}

/// The stack never holds `Void`: a step of the evaluator keeps a sound state
/// sound, so that from a sound program and sound bindings no `Void` ever
/// reaches the stack, the input or a binding.
pub proof fn law_step_keeps_sound(s: State)
    requires
        sound_state(s),
    ensures
        sound_state(step(s).0),
{
    if !(s.stack.len() > 0 && s.stack.last() is Error) && s.input.len() > 0 {
        let p = s.input[0];
        let rest = State { input: s.input.skip(1), ..s };
        assert(sound(p));
        assert(sound_state(rest));
        match p {
            Value::Symbol(name) => {
                if s.bindings.dom().contains(name) {
                    lemma_contents_sound(s.bindings[name].value);
                }
            },
            Value::List(xs) => {
                lemma_sound_items(xs);
                lemma_sound_items(resolve_all(xs, s.bindings));
            },
            Value::Function(op) => {
                law_dispatch_keeps_sound(op, rest);
            },
            _ => {},
        }
    }
}

} // verus!
