//! The evaluator: bindings, the dispatch of operators and the run of a program.

use crate::numeric::{Numeric, NumericView};
use crate::op::{Modifiers, ModifiersView, Op};
use crate::parsed::{
    lemma_list_view,
    lemma_quotation_view,
    lemma_views_add,
    lemma_views_push,
    lemma_views_subrange,
    views,
    Outcome,
    OutcomeView,
    Parsed,
    Request,
    RequestView,
    Value,
};
use crate::stack::Stack;
use crate::stack_error::{
    arg_mismatch,
    mismatch_text,
    result_mismatch,
    result_mismatch_text,
    StackError,
    StackErrorView,
};
use crate::text::{chars, push_str, Glyph};
use crate::types::Params;
use std::collections::VecDeque;
use vstd::prelude::*;

verus! {

/// What a name is bound to.
#[derive(Debug, PartialEq)]
pub struct Binding {
    /// The value is a program that runs when the name is met.
    pub function: bool,
    /// The binding is meant to stay as it is. No operator sets or reads this.
    pub constant: bool,
    pub value: Parsed,
}

/// The mathematical value of a `Binding`.
pub struct BindingView {
    pub function: bool,
    pub constant: bool,
    pub value: Value,
}

impl View for Binding {
    type V = BindingView;

    open spec fn view(&self) -> BindingView {
        BindingView { function: self.function, constant: self.constant, value: self.value@ }
    }
}

impl Clone for Binding {
    fn clone(&self) -> (r: Self)
        ensures
            r@ == self@,
    {
        Binding { function: self.function, constant: self.constant, value: self.value.clone() }
    }
}

/// The values handed to an operator from one source: its operands, or its
/// modifiers.
#[derive(Debug, PartialEq)]
pub enum Args {
    Nullary,
    Unary(Parsed),
    Binary(Parsed, Parsed),
}

/// The mathematical value of `Args`.
pub enum ArgsView {
    Nullary,
    Unary(Value),
    Binary(Value, Value),
}

impl View for Args {
    type V = ArgsView;

    open spec fn view(&self) -> ArgsView {
        match self {
            Args::Nullary => ArgsView::Nullary,
            Args::Unary(a) => ArgsView::Unary(a@),
            Args::Binary(a, b) => ArgsView::Binary(a@, b@),
        }
    }
}

/// The table of bindings: each name is bound at most once.
#[derive(Debug)]
pub struct Bindings {
    names: Vec<String>,
    entries: Vec<Binding>,
}

impl Bindings {
    /// Where `key` stands among the names.
    pub closed spec fn index_of(&self, key: Seq<char>) -> int {
        choose|i: int| 0 <= i < self.names@.len() && self.names@[i]@ == key
    }

    /// `key` is bound.
    pub closed spec fn has(&self, key: Seq<char>) -> bool {
        exists|i: int| 0 <= i < self.names@.len() && self.names@[i]@ == key
    }

    /// Every name has its entry, and no name stands twice.
    pub closed spec fn wf(&self) -> bool {
        &&& self.names@.len() == self.entries@.len()
        &&& forall|i: int, j: int|
            0 <= i < self.names@.len() && 0 <= j < self.names@.len() && i != j
                ==> self.names@[i]@ != self.names@[j]@
    }

    /// A table without bindings.
    pub fn new() -> (r: Self)
        ensures
            r.wf(),
            r@ == Map::<Seq<char>, BindingView>::empty(),
    {
        let r = Bindings { names: Vec::new(), entries: Vec::new() };
        proof {
            assert(r@ =~= Map::<Seq<char>, BindingView>::empty());
        }
        r
    }

    fn find(&self, key: &String) -> (r: Option<usize>)
        requires
            self.wf(),
        ensures
            match r {
                Some(i) => self.has(key@) && i < self.names@.len() && self.names@[i as int]@
                    == key@ && self.index_of(key@) == i,
                None => !self.has(key@),
            },
    {
        let mut i: usize = 0;
        while i < self.names.len()
            invariant
                self.wf(),
                i <= self.names@.len(),
                forall|j: int| 0 <= j < i ==> self.names@[j]@ != key@,
            decreases self.names.len() - i,
        {
            if self.names[i] == *key {
                proof {
                    assert(self.names@[i as int]@ == key@);
                    assert(self.has(key@));
                }
                return Some(i);
            }
            i = i + 1;
        }
        None
    }

    /// The binding of a name, if it has one.
    pub fn get(&self, key: &String) -> (r: Option<&Binding>)
        requires
            self.wf(),
        ensures
            self@.dom().contains(key@) ==> r is Some && r->0@ == self@[key@],
            !self@.dom().contains(key@) ==> r is None,
    {
        match self.find(key) {
            Some(i) => Some(&self.entries[i]),
            None => None,
        }
    }

    /// Binds a name, in place of what it was bound to.
    pub fn insert(&mut self, key: String, binding: Binding)
        requires
            old(self).wf(),
        ensures
            final(self).wf(),
            final(self)@ == old(self)@.insert(key@, binding@),
    {
        match self.find(&key) {
            Some(i) => {
                self.entries.set(i, binding);
                proof {
                    assert forall|k: Seq<char>| self.has(k) implies self.index_of(k) == old(
                        self,
                    ).index_of(k) by {
                        assert(old(self).has(k));
                    }
                    assert(self@ =~= old(self)@.insert(key@, binding@));
                }
            },
            None => {
                self.names.push(key);
                self.entries.push(binding);
                proof {
                    let n = old(self).names@.len() as int;
                    assert(self.names@[n]@ == key@);
                    assert forall|k: Seq<char>| old(self).has(k) implies self.has(k)
                        && self.index_of(k) == old(self).index_of(k) by {
                        let i = old(self).index_of(k);
                        assert(self.names@[i]@ == k);
                    }
                    assert forall|k: Seq<char>| self.has(k) && k != key@ implies old(self).has(
                        k,
                    ) by {
                        let i = self.index_of(k);
                        assert(old(self).names@[i]@ == k);
                    }
                    assert(self.has(key@));
                    assert(self.index_of(key@) == n);
                    assert(self@ =~= old(self)@.insert(key@, binding@));
                }
            },
        }
    }
}

impl View for Bindings {
    type V = Map<Seq<char>, BindingView>;

    closed spec fn view(&self) -> Map<Seq<char>, BindingView> {
        Map::new(|k: Seq<char>| self.has(k), |k: Seq<char>| self.entries@[self.index_of(k)]@)
    }
}

/// What the evaluator works on: the stack, with its top last; the pending
/// input, with the next token first; and the bindings.
pub struct State {
    pub stack: Seq<Value>,
    pub input: Seq<Value>,
    pub bindings: Map<Seq<char>, BindingView>,
}

/// How the evaluator stands after a step or a run.
#[derive(Debug, PartialEq)]
pub enum Status {
    /// There is more to do.
    Running,
    /// The input is used up.
    Done,
    /// The top of the stack is an error: nothing more is evaluated.
    Failed,
    /// The evaluator waits for the answer to a request, which `deliver`
    /// takes.
    Ask(Op, Request),
}

/// The mathematical value of a `Status`.
pub enum StatusView {
    Running,
    Done,
    Failed,
    Ask(Op, RequestView),
}

impl View for Status {
    type V = StatusView;

    open spec fn view(&self) -> StatusView {
        match self {
            Status::Running => StatusView::Running,
            Status::Done => StatusView::Done,
            Status::Failed => StatusView::Failed,
            Status::Ask(op, r) => StatusView::Ask(*op, r@),
        }
    }
}

/// What gathering modifiers gives: the modifiers or an error, and the input
/// that is left.
pub struct Gathered {
    pub args: Result<ArgsView, StackErrorView>,
    pub input: Seq<Value>,
}

/// The state of the evaluator that a stack, a queue and a table hold.
pub open spec fn state_of(
    stack: Stack<Parsed>,
    input: VecDeque<Parsed>,
    bindings: Bindings,
) -> State {
    State { stack: views(stack@), input: views(input@), bindings: bindings@ }
}

/// A symbol that is bound stands for its value; any other value for itself.
pub open spec fn resolve(sym: Value, bindings: Map<Seq<char>, BindingView>) -> Value {
    match sym {
        Value::Symbol(s) => if bindings.dom().contains(s) {
            bindings[s].value
        } else {
            sym
        },
        _ => sym,
    }
}

/// Each item resolved.
pub open spec fn resolve_all(items: Seq<Value>, bindings: Map<Seq<char>, BindingView>) -> Seq<
    Value,
> {
    Seq::new(items.len(), |i: int| resolve(items[i], bindings))
}

/// A modifier as the operator takes it: resolved, but for `'`, which takes
/// the token as it stands.
pub open spec fn taken(op: Op, m: Value, bindings: Map<Seq<char>, BindingView>) -> Value {
    if op != Op::AsSymbol {
        resolve(m, bindings)
    } else {
        m
    }
}

/// Each value meets the constraint at its place.
pub open spec fn fitting(p: Params, a: ArgsView) -> bool {
    match (p, a) {
        (Params::Nullary, ArgsView::Nullary) => true,
        (Params::Unary(c), ArgsView::Unary(v)) => c.satisfied_by(v.type_of()),
        (Params::Binary(c1, c2), ArgsView::Binary(v1, v2)) => c1.satisfied_by(v1.type_of())
            && c2.satisfied_by(v2.type_of()),
        _ => false,
    }
}

/// The first tokens of the input as modifiers of `op`, as many as its
/// signature names.
pub open spec fn front(op: Op, input: Seq<Value>, bindings: Map<Seq<char>, BindingView>) -> ArgsView {
    match op.signature().modifiers {
        Params::Nullary => ArgsView::Nullary,
        Params::Unary(_) => ArgsView::Unary(taken(op, input[0], bindings)),
        Params::Binary(_, _) => ArgsView::Binary(
            taken(op, input[0], bindings),
            taken(op, input[1], bindings),
        ),
    }
}

/// Gathering the modifiers of `op` from the front of the input: as many
/// tokens as the signature names are taken, each is resolved, and each must
/// meet its constraint. Where tokens are missing, those that are there are
/// taken and the error is `PrematureEnd`.
pub open spec fn gather(op: Op, input: Seq<Value>, bindings: Map<Seq<char>, BindingView>) -> Gathered {
    let expected = op.signature().modifiers;
    if input.len() < expected.arity() {
        Gathered { args: Err(StackErrorView::PrematureEnd), input: Seq::empty() }
    } else {
        let mods = front(op, input, bindings);
        Gathered {
            args: if fitting(expected, mods) {
                Ok(mods)
            } else {
                Err(StackErrorView::TypeMismatch(mismatch_text(op, mods, false)))
            },
            input: input.skip(expected.arity() as int),
        }
    }
}

/// The gathered values as the operators take them.
pub open spec fn as_modifiers(a: ArgsView) -> ModifiersView {
    match a {
        ArgsView::Nullary => ModifiersView::Nullary,
        ArgsView::Unary(m) => ModifiersView::Unary(m),
        ArgsView::Binary(m1, m2) => ModifiersView::Binary(m1, m2),
    }
}

/// A value as it goes on the stack: an error inside a number is the error.
pub open spec fn surfaced(v: Value) -> Value {
    match v {
        Value::Num(NumericView::NumError(e)) => Value::Error(e),
        _ => v,
    }
}

/// What becomes of the value that `op` gave. `Void` leaves the state as it
/// is. The items of a quotation go in front of the input, to be evaluated
/// next. An error goes on the stack. Any other value goes on the stack where
/// its type meets the result constraint of `op`, and a type mismatch goes
/// there where it does not.
pub open spec fn dispose(op: Op, v: Value, s: State) -> State {
    match surfaced(v) {
        Value::Void => s,
        Value::Quotation(q) => State { input: q + s.input, ..s },
        Value::Error(e) => State { stack: s.stack.push(Value::Error(e)), ..s },
        other => if op.signature().ret.satisfied_by(other.type_of()) {
            State { stack: s.stack.push(other), ..s }
        } else {
            State {
                stack: s.stack.push(
                    Value::Error(StackErrorView::TypeMismatch(result_mismatch_text(op, other))),
                ),
                ..s
            }
        },
    }
}

/// What becomes of an outcome: a value is disposed of, a request is handed
/// out.
pub open spec fn settle(op: Op, o: OutcomeView, s: State) -> (State, StatusView) {
    match o {
        OutcomeView::Value(v) => (dispose(op, v, s), StatusView::Running),
        OutcomeView::Ask(r) => (s, StatusView::Ask(op, r)),
    }
}

/// The state with an error on a stack emptied by the operator that found too
/// few values on it.
pub open spec fn starved(s: State) -> State {
    State { stack: seq![Value::Error(StackErrorView::PopEmpty)], ..s }
}

/// The operands of `op` on a stack that holds enough of them: the top of the
/// stack is the right one.
pub open spec fn operands(op: Op, stack: Seq<Value>) -> ArgsView {
    match op.signature().stack_args {
        Params::Nullary => ArgsView::Nullary,
        Params::Unary(_) => ArgsView::Unary(stack.last()),
        Params::Binary(_, _) => ArgsView::Binary(stack.drop_last().last(), stack.last()),
    }
}

/// What `op` gives on its operands and modifiers: a type mismatch where an
/// operand fails its constraint, and what the operator computes where none
/// does.
pub open spec fn apply(op: Op, args: ArgsView, mods: ModifiersView) -> OutcomeView {
    if !fitting(op.signature().stack_args, args) {
        OutcomeView::Value(
            Value::Error(StackErrorView::TypeMismatch(mismatch_text(op, args, true))),
        )
    } else {
        match args {
            ArgsView::Nullary => op.nullary(mods),
            ArgsView::Unary(arg) => op.unary(arg, mods),
            ArgsView::Binary(lhs, rhs) => op.binary(lhs, rhs, mods),
        }
    }
}

/// The bindings after `op` ran on its operands.
pub open spec fn rebind(op: Op, args: ArgsView, bindings: Map<Seq<char>, BindingView>) -> Map<
    Seq<char>,
    BindingView,
> {
    match args {
        ArgsView::Binary(lhs, rhs) => if fitting(op.signature().stack_args, args) {
            op.rebound(lhs, rhs, bindings)
        } else {
            bindings
        },
        _ => bindings,
    }
}

/// Dispatching `op`, whose token has left the input: the modifiers are
/// gathered from the input first; then the operands are popped, the right one
/// first; then each operand is held against its constraint; then the operator
/// runs, and its result is disposed of.
pub open spec fn dispatch(op: Op, s: State) -> (State, StatusView) {
    let g = gather(op, s.input, s.bindings);
    let s1 = State { input: g.input, ..s };
    match g.args {
        Err(e) => (State { stack: s1.stack.push(Value::Error(e)), ..s1 }, StatusView::Running),
        Ok(mods) => {
            let n = op.signature().stack_args.arity();
            if s1.stack.len() < n {
                (starved(s1), StatusView::Running)
            } else {
                let args = operands(op, s1.stack);
                settle(
                    op,
                    apply(op, args, as_modifiers(mods)),
                    State {
                        stack: s1.stack.take(s1.stack.len() - n),
                        bindings: rebind(op, args, s1.bindings),
                        ..s1
                    },
                )
            }
        },
    }
}

/// One step of the evaluator.
///
/// With an error on top of the stack nothing is evaluated. With no input left
/// the run is done. Otherwise the next token leaves the input: an error goes
/// on the stack; a symbol bound to a function is replaced by the function's
/// items, a symbol bound to a value by the value, and an unbound symbol goes
/// on the stack as it is; a list goes on the stack with its symbols resolved;
/// an operator is dispatched; any other value goes on the stack.
pub open spec fn step(s: State) -> (State, StatusView) {
    if s.stack.len() > 0 && s.stack.last() is Error {
        (s, StatusView::Failed)
    } else if s.input.len() == 0 {
        (s, StatusView::Done)
    } else {
        let p = s.input[0];
        let rest = State { input: s.input.skip(1), ..s };
        match p {
            Value::Symbol(name) => if s.bindings.dom().contains(name) {
                let b = s.bindings[name];
                if b.function && b.value.contents() is Some {
                    (State { input: b.value.contents()->0 + rest.input, ..rest }, StatusView::Running)
                } else {
                    (State { stack: rest.stack.push(b.value), ..rest }, StatusView::Running)
                }
            } else {
                (State { stack: rest.stack.push(p), ..rest }, StatusView::Running)
            },
            Value::List(xs) => (
                State { stack: rest.stack.push(Value::List(resolve_all(xs, s.bindings))), ..rest },
                StatusView::Running,
            ),
            Value::Function(op) => dispatch(op, rest),
            _ => (State { stack: rest.stack.push(p), ..rest }, StatusView::Running),
        }
    }
}

/// At most `fuel` steps of the evaluator: it stops before that where a step
/// ends in another status than `Running`.
pub open spec fn run_steps(s: State, fuel: nat) -> (State, StatusView)
    decreases fuel,
{
    if fuel == 0 {
        (s, StatusView::Running)
    } else {
        let next = step(s);
        if next.1 is Running {
            run_steps(next.0, (fuel - 1) as nat)
        } else {
            next
        }
    }
}

/// The values of a stack with one more value on it.
proof fn lemma_stack_push(stack: Seq<Parsed>, p: Parsed)
    ensures
        views(stack.push(p)) == views(stack).push(p@),
{
    lemma_views_push(stack, p);
}

/// The values of a stack without its top.
proof fn lemma_stack_pop(stack: Seq<Parsed>)
    requires
        stack.len() > 0,
    ensures
        views(stack.drop_last()) == views(stack).drop_last(),
        views(stack).last() == stack.last()@,
{
    lemma_views_subrange(stack, 0, stack.len() - 1);
}

/// The values of a queue without its first item.
proof fn lemma_queue_pop(queue: Seq<Parsed>)
    requires
        queue.len() > 0,
    ensures
        views(queue.subrange(1, queue.len() as int)) == views(queue).skip(1),
        views(queue)[0] == queue[0]@,
{
    lemma_views_subrange(queue, 1, queue.len() as int);
}

/// What a symbol stands for.
pub fn resolve_symbol(sym: Parsed, bindings: &Bindings) -> (r: Parsed)
    requires
        bindings.wf(),
    ensures
        r@ == resolve(sym@, bindings@),
{
    match &sym {
        Parsed::Symbol(s) => {
            if let Some(binding) = bindings.get(s) {
                binding.value.clone()
            } else {
                sym
            }
        },
        _ => sym,
    }
}

fn take_modifier(op: &Op, m: Parsed, bindings: &Bindings) -> (r: Parsed)
    requires
        bindings.wf(),
    ensures
        r@ == taken(*op, m@, bindings@),
{
    if *op != Op::AsSymbol {
        resolve_symbol(m, bindings)
    } else {
        m
    }
}

/// Puts the items of `q` in front of `input`.
pub fn splice(input: &mut VecDeque<Parsed>, q: Vec<Parsed>)
    ensures
        views(final(input)@) == views(q@) + views(old(input)@),
{
    let mut q = q;
    let ghost all = q@;
    proof {
        assert(all.subrange(q@.len() as int, all.len() as int) + old(input)@ =~= old(input)@);
    }
    while q.len() > 0
        invariant
            q@.len() <= all.len(),
            q@ == all.subrange(0, q@.len() as int),
            input@ == all.subrange(q@.len() as int, all.len() as int) + old(input)@,
        decreases q@.len(),
    {
        let ghost n = q@.len() as int;
        let x = q.pop().unwrap();
        input.push_front(x);
        proof {
            assert(q@ =~= all.subrange(0, n - 1));
            assert(input@ =~= all.subrange(n - 1, all.len() as int) + old(input)@);
        }
    }
    proof {
        assert(all.subrange(0, all.len() as int) =~= all);
        lemma_views_add(all, old(input)@);
    }
}

/// Gathers the modifiers of `op` from the front of the input.
pub fn get_modifiers(op: &Op, input: &mut VecDeque<Parsed>, bindings: &Bindings) -> (r: Result<
    Args,
    StackError,
>)
    requires
        bindings.wf(),
    ensures
        ({
            let g = gather(*op, views(old(input)@), bindings@);
            &&& views(final(input)@) == g.input
            &&& match r {
                Ok(args) => g.args == Ok::<ArgsView, StackErrorView>(args@),
                Err(e) => g.args == Err::<ArgsView, StackErrorView>(e@),
            }
        }),
{
    let expected = op.get_signature().modifiers;
    match expected {
        Params::Nullary => Ok(Args::Nullary),
        Params::Unary(constraint) => {
            let ghost before = input@;
            let mod1 = match input.pop_front() {
                Some(m) => take_modifier(op, m, bindings),
                None => {
                    return Err(StackError::PrematureEnd);
                },
            };
            proof {
                lemma_queue_pop(before);
            }
            if constraint.is_satisfied_by(&mod1.get_type()) {
                Ok(Args::Unary(mod1))
            } else {
                Err(arg_mismatch(op, &Args::Unary(mod1), false))
            }
        },
        Params::Binary(c1, c2) => {
            let ghost before = input@;
            let mod1 = match input.pop_front() {
                Some(m) => take_modifier(op, m, bindings),
                None => {
                    proof {
                        assert(views(input@) =~= Seq::<Value>::empty());
                    }
                    return Err(StackError::PrematureEnd);
                },
            };
            let ghost middle = input@;
            let mod2 = match input.pop_front() {
                Some(m) => take_modifier(op, m, bindings),
                None => {
                    proof {
                        assert(views(input@) =~= Seq::<Value>::empty());
                    }
                    return Err(StackError::PrematureEnd);
                },
            };
            proof {
                lemma_queue_pop(before);
                lemma_queue_pop(middle);
                assert(views(before).skip(1).skip(1) =~= views(before).skip(2));
                assert(views(before).skip(1)[0] == views(before)[1]);
            }
            if c1.is_satisfied_by(&mod1.get_type()) && c2.is_satisfied_by(&mod2.get_type()) {
                Ok(Args::Binary(mod1, mod2))
            } else {
                Err(arg_mismatch(op, &Args::Binary(mod1, mod2), false))
            }
        },
    }
}

fn modifiers_of(args: Args) -> (r: Modifiers)
    ensures
        r@ == as_modifiers(args@),
{
    match args {
        Args::Nullary => Modifiers::Nullary,
        Args::Unary(m) => Modifiers::Unary(m),
        Args::Binary(m1, m2) => Modifiers::Binary(m1, m2),
    }
}

fn surface(v: Parsed) -> (r: Parsed)
    ensures
        r@ == surfaced(v@),
{
    match v {
        Parsed::Num(Numeric::NumError(e)) => Parsed::Error(e),
        other => other,
    }
}

/// The state of the evaluator without its bindings, for what does not touch
/// them.
pub open spec fn unbound_state(stack: Stack<Parsed>, input: VecDeque<Parsed>) -> State {
    State { stack: views(stack@), input: views(input@), bindings: Map::empty() }
}

/// Disposes of the value that `op` gave, or that was given in answer to a
/// request of `op`.
pub fn deliver(op: &Op, value: Parsed, stack: &mut Stack<Parsed>, input: &mut VecDeque<Parsed>)
    requires
        old(stack).wf(),
        old(stack)@.len() < usize::MAX,
    ensures
        final(stack).wf(),
        final(stack)@.len() <= old(stack)@.len() + 1,
        unbound_state(*final(stack), *final(input)) == dispose(
            *op,
            value@,
            unbound_state(*old(stack), *old(input)),
        ),
{
    let v = surface(value);
    match v {
        Parsed::Void => {},
        Parsed::Quotation(q) => {
            proof {
                lemma_quotation_view(q);
            }
            splice(input, q);
        },
        Parsed::Error(e) => {
            let p = Parsed::Error(e);
            proof {
                lemma_stack_push(stack@, p);
            }
            stack.push(p);
        },
        other => {
            let p = if op.get_signature().ret.is_satisfied_by(&other.get_type()) {
                other
            } else {
                Parsed::Error(result_mismatch(op, &other))
            };
            proof {
                lemma_stack_push(stack@, p);
            }
            stack.push(p);
        },
    }
}

fn finish(
    op: &Op,
    outcome: Outcome,
    stack: &mut Stack<Parsed>,
    input: &mut VecDeque<Parsed>,
    bindings: &Bindings,
) -> (r: Status)
    requires
        old(stack).wf(),
        old(stack)@.len() < usize::MAX,
    ensures
        final(stack).wf(),
        final(stack)@.len() <= old(stack)@.len() + 1,
        (state_of(*final(stack), *final(input), *bindings), r@) == settle(
            *op,
            outcome@,
            state_of(*old(stack), *old(input), *bindings),
        ),
{
    match outcome {
        Outcome::Value(v) => {
            deliver(op, v, stack, input);
            Status::Running
        },
        Outcome::Ask(request) => Status::Ask(*op, request),
    }
}

fn push_value(stack: &mut Stack<Parsed>, p: Parsed)
    requires
        old(stack).wf(),
        old(stack)@.len() < usize::MAX,
    ensures
        final(stack).wf(),
        final(stack)@.len() == old(stack)@.len() + 1,
        views(final(stack)@) == views(old(stack)@).push(p@),
{
    proof {
        lemma_stack_push(stack@, p);
    }
    stack.push(p);
}

fn pop_value(stack: &mut Stack<Parsed>) -> (r: Parsed)
    requires
        old(stack).wf(),
        old(stack)@.len() > 0,
    ensures
        final(stack).wf(),
        final(stack)@.len() == old(stack)@.len() - 1,
        views(final(stack)@) == views(old(stack)@).drop_last(),
        r@ == views(old(stack)@).last(),
{
    proof {
        lemma_stack_pop(stack@);
    }
    stack.pop().unwrap()
}

fn starve(stack: &mut Stack<Parsed>)
    ensures
        final(stack).wf(),
        final(stack)@.len() == 1,
        views(final(stack)@) == seq![Value::Error(StackErrorView::PopEmpty)],
{
    stack.clear();
    let p = Parsed::Error(StackError::PopEmpty);
    proof {
        lemma_stack_push(stack@, p);
        assert(views(stack@).push(p@) =~= seq![Value::Error(StackErrorView::PopEmpty)]);
    }
    stack.push(p);
}

/// Dispatches `op`, whose token has left the input.
pub fn exec_op(
    op: &Op,
    stack: &mut Stack<Parsed>,
    input: &mut VecDeque<Parsed>,
    bindings: &mut Bindings,
) -> (r: Status)
    requires
        old(stack).wf(),
        old(stack)@.len() < usize::MAX,
        old(bindings).wf(),
    ensures
        final(stack).wf(),
        final(bindings).wf(),
        final(stack)@.len() <= old(stack)@.len() + 1,
        (state_of(*final(stack), *final(input), *final(bindings)), r@) == dispatch(
            *op,
            state_of(*old(stack), *old(input), *old(bindings)),
        ),
{
    let signature = op.get_signature();
    let args = match get_modifiers(op, input, bindings) {
        Ok(args) => args,
        Err(e) => {
            push_value(stack, Parsed::Error(e));
            return Status::Running;
        },
    };
    let mods = modifiers_of(args);
    let ghost before = views(stack@);
    proof {
        assert(before.take(before.len() - 0) =~= before);
        if before.len() >= 1 {
            assert(before.take(before.len() - 1) =~= before.drop_last());
        }
        if before.len() >= 2 {
            assert(before.take(before.len() - 2) =~= before.drop_last().drop_last());
        }
    }
    match signature.stack_args {
        Params::Nullary => {
            let outcome = op.exec_nullary(mods);
            finish(op, outcome, stack, input, bindings)
        },
        Params::Unary(c) => {
            if stack.is_empty() {
                starve(stack);
                return Status::Running;
            }
            let arg = pop_value(stack);
            let outcome = if !c.is_satisfied_by(&arg.get_type()) {
                Outcome::Value(Parsed::Error(arg_mismatch(op, &Args::Unary(arg), true)))
            } else {
                op.exec_unary(arg, mods)
            };
            finish(op, outcome, stack, input, bindings)
        },
        Params::Binary(c1, c2) => {
            if stack.size() < 2 {
                starve(stack);
                return Status::Running;
            }
            let arg = pop_value(stack);
            let arg2 = pop_value(stack);
            let outcome = if !c1.is_satisfied_by(&arg2.get_type()) || !c2.is_satisfied_by(
                &arg.get_type(),
            ) {
                Outcome::Value(Parsed::Error(arg_mismatch(op, &Args::Binary(arg2, arg), true)))
            } else {
                op.exec_binary(&arg2, &arg, mods, bindings)
            };
            finish(op, outcome, stack, input, bindings)
        },
    }
}

fn resolve_items(items: &Vec<Parsed>, bindings: &Bindings) -> (r: Vec<Parsed>)
    requires
        bindings.wf(),
    ensures
        views(r@) == resolve_all(views(items@), bindings@),
{
    let mut out: Vec<Parsed> = Vec::new();
    let mut i: usize = 0;
    while i < items.len()
        invariant
            bindings.wf(),
            i <= items.len(),
            views(out@) == resolve_all(views(items@), bindings@).subrange(0, i as int),
        decreases items.len() - i,
    {
        let item = resolve_symbol(items[i].clone(), bindings);
        proof {
            lemma_views_push(out@, item);
            assert(views(out@).push(item@) =~= resolve_all(views(items@), bindings@).subrange(
                0,
                i + 1,
            ));
        }
        out.push(item);
        i = i + 1;
    }
    proof {
        assert(resolve_all(views(items@), bindings@).subrange(0, items.len() as int)
            =~= resolve_all(views(items@), bindings@));
    }
    out
}

/// One step of the evaluator.
pub fn advance(stack: &mut Stack<Parsed>, input: &mut VecDeque<Parsed>, bindings: &mut Bindings) -> (r:
    Status)
    requires
        old(stack).wf(),
        old(stack)@.len() < usize::MAX,
        old(bindings).wf(),
    ensures
        final(stack).wf(),
        final(bindings).wf(),
        final(stack)@.len() <= old(stack)@.len() + 1,
        (state_of(*final(stack), *final(input), *final(bindings)), r@) == step(
            state_of(*old(stack), *old(input), *old(bindings)),
        ),
{
    let failed = match stack.top() {
        Some(Parsed::Error(_)) => true,
        _ => false,
    };
    proof {
        if stack@.len() > 0 {
            lemma_stack_pop(stack@);
        }
    }
    if failed {
        return Status::Failed;
    }
    let ghost before = input@;
    let p = match input.pop_front() {
        Some(p) => p,
        None => {
            return Status::Done;
        },
    };
    proof {
        lemma_queue_pop(before);
    }
    match p {
        Parsed::Symbol(name) => {
            let found = match bindings.get(&name) {
                Some(binding) => Some(binding.clone()),
                None => None,
            };
            match found {
                Some(binding) => {
                    let contents = if binding.function {
                        binding.value.get_contents()
                    } else {
                        None
                    };
                    match contents {
                        Some(items) => splice(input, items),
                        None => push_value(stack, binding.value),
                    }
                },
                None => push_value(stack, Parsed::Symbol(name)),
            }
            Status::Running
        },
        Parsed::List(xs) => {
            let items = resolve_items(&xs, bindings);
            proof {
                lemma_list_view(xs);
                lemma_list_view(items);
            }
            push_value(stack, Parsed::List(items));
            Status::Running
        },
        Parsed::Function(op) => exec_op(&op, stack, input, bindings),
        other => {
            push_value(stack, other);
            Status::Running
        },
    }
}

/// Runs the evaluator for at most `fuel` steps. The status says how it
/// stands then: `Running` where the steps were used up.
pub fn run(
    stack: &mut Stack<Parsed>,
    input: &mut VecDeque<Parsed>,
    bindings: &mut Bindings,
    fuel: usize,
) -> (r: Status)
    requires
        old(stack).wf(),
        old(bindings).wf(),
        old(stack)@.len() + fuel < usize::MAX,
    ensures
        final(stack).wf(),
        final(bindings).wf(),
        (state_of(*final(stack), *final(input), *final(bindings)), r@) == run_steps(
            state_of(*old(stack), *old(input), *old(bindings)),
            fuel as nat,
        ),
{
    let mut left = fuel;
    while left > 0
        invariant
            stack.wf(),
            bindings.wf(),
            stack@.len() + left < usize::MAX,
            run_steps(state_of(*old(stack), *old(input), *old(bindings)), fuel as nat)
                == run_steps(state_of(*stack, *input, *bindings), left as nat),
        decreases left,
    {
        let status = advance(stack, input, bindings);
        match status {
            Status::Running => {},
            other => {
                return other;
            },
        }
        left = left - 1;
    }
    Status::Running
}

/// The line that shows a stack: the text of each value from the top down,
/// each followed by a space.
pub open spec fn stack_line(s: Seq<Value>) -> Seq<Glyph>
    decreases s.len(),
{
    if s.len() == 0 {
        Seq::empty()
    } else {
        s.last().text(false) + chars(" "@) + stack_line(s.drop_last())
    }
}

/// The line that shows a stack.
pub fn contents_text(stack: &Stack<Parsed>) -> (r: Vec<Glyph>)
    ensures
        r@ == stack_line(views(stack@)),
{
    let mut out: Vec<Glyph> = Vec::new();
    let mut walk = stack.iter();
    proof {
        assert(out@ + stack_line(views(walk@)) =~= stack_line(views(stack@)));
    }
    loop
        invariant
            out@ + stack_line(views(walk@)) == stack_line(views(stack@)),
        decreases walk@.len(),
    {
        let ghost left = walk@;
        let ghost before = out@;
        match walk.next() {
            Some(p) => {
                p.write(&mut out, false);
                push_str(&mut out, " ");
                proof {
                    lemma_stack_pop(left);
                    assert(out@ + stack_line(views(walk@)) =~= before + stack_line(views(left)));
                }
            },
            None => {
                proof {
                    assert(out@ + stack_line(views(walk@)) =~= out@);
                }
                return out;
            },
        }
    }
}

} // verus!
