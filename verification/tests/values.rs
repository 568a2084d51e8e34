use std::cmp::Ordering;
use bprog::interpreter::{Binding, Bindings};
use bprog::numeric::Numeric;
use bprog::op::{Modifiers, Op};
use bprog::parsed::{Outcome, Parsed, Request};
use bprog::stack::Stack;
use bprog::stack_error::{arg_mismatch, StackError};
use bprog::interpreter::Args;
use bprog::text::{plain_string, Glyph};
use bprog::types::{
    heterogeneous_binary, homogenous_binary, nullary, numeric_coercion, unary, Constraint, Params,
    Signature, Type, TypeClass,
};

fn n(v: i128) -> Parsed {
    Parsed::Num(Numeric::Integer(v))
}

fn s(text: &str) -> Parsed {
    Parsed::String(text.to_string())
}

fn shown(p: &Parsed) -> String {
    plain_string(&p.render()).expect("no float in it")
}

fn source_of(p: &Parsed) -> String {
    plain_string(&p.source()).expect("no float in it")
}

#[test]
fn stack_is_last_in_first_out() {
    let mut stack = Stack::new();
    assert_eq!(Stack::Empty, stack);
    assert!(stack.is_empty());
    assert_eq!(stack.size(), 0);
    assert_eq!(stack.top(), None);
    assert_eq!(stack.pop(), None);
    stack.push(5);
    assert_eq!(5, *stack.top().unwrap());
    assert_eq!(1, stack.size());
    stack.push(6);
    stack.push(7);
    assert_eq!(3, stack.size());
    let mut seen = Vec::new();
    let mut walk = stack.iter();
    while let Some(v) = walk.next() {
        seen.push(*v);
    }
    assert_eq!(seen, vec![7, 6, 5]);
    assert_eq!(stack.pop(), Some(7));
    assert_eq!(stack.pop(), Some(6));
    assert_eq!(stack.size(), 1);
    assert_eq!(stack.pop(), Some(5));
    assert!(stack.is_empty());
    assert_eq!(Stack::Empty, stack);
    stack.push(1);
    stack.clear();
    assert_eq!(stack, Stack::default());
}

#[test]
fn bindings_hold_one_value_for_a_name() {
    let mut table = Bindings::new();
    assert_eq!(table.get(&"x".to_string()), None);
    table.insert("x".to_string(), Binding { function: false, constant: false, value: n(1) });
    table.insert("y".to_string(), Binding { function: true, constant: false, value: n(2) });
    assert_eq!(table.get(&"x".to_string()).unwrap().value, n(1));
    assert_eq!(table.get(&"y".to_string()).unwrap().function, true);
    table.insert("x".to_string(), Binding { function: false, constant: false, value: n(3) });
    assert_eq!(table.get(&"x".to_string()).unwrap().value, n(3));
    assert_eq!(table.get(&"y".to_string()).unwrap().value, n(2));
    assert_eq!(table.get(&"z".to_string()), None);
}

#[test]
fn constraints_follow_the_table() {
    let classes = [
        TypeClass::Any, TypeClass::Ord, TypeClass::Eq, TypeClass::Num, TypeClass::Functor,
        TypeClass::Boolean, TypeClass::Enum, TypeClass::Display, TypeClass::Executable,
        TypeClass::Sized,
    ];
    let table: [(Type, [bool; 10]); 10] = [
        (Type::Integer, [true, true, true, true, false, true, false, true, false, false]),
        (Type::Float, [true, true, true, true, false, true, false, true, false, false]),
        (Type::Bool, [true, true, true, true, false, true, true, true, false, false]),
        (Type::String, [true, false, true, false, false, true, false, true, false, true]),
        (Type::List, [true, false, true, false, true, true, false, true, false, true]),
        (Type::Quotation, [true, false, false, false, false, true, false, true, true, true]),
        (Type::Symbol, [true, false, false, false, false, false, false, true, false, false]),
        (Type::Function(nullary(Constraint::Void)), [true, false, false, false, false, false, false, false, true, false]),
        (Type::Error, [true, false, false, false, false, true, false, true, false, false]),
        (Type::Void, [true, false, true, false, false, false, false, true, false, false]),
    ];
    for (t, row) in table {
        for (class, expected) in classes.iter().zip(row) {
            assert_eq!(t.implements(class), expected, "{:?} {:?}", t, class);
        }
    }
    assert!(Constraint::Integer.is_satisfied_by(&Type::Integer));
    assert!(!Constraint::Integer.is_satisfied_by(&Type::Float));
    assert!(Constraint::Function.is_satisfied_by(&Type::Function(unary(Constraint::Any, Constraint::Any))));
    assert!(Constraint::Executable.is_satisfied_by(&Type::Quotation));
    assert!(!Constraint::Executable.is_satisfied_by(&Type::List));
    assert!(Constraint::Sized.is_satisfied_by(&Type::String));
    assert!(!Constraint::Void.is_satisfied_by(&Type::Integer));
    assert_eq!(Type::List.as_constraint(), Constraint::List);
}

#[test]
fn promotion_of_types() {
    assert_eq!(numeric_coercion(&Type::Integer, &Type::Float), Some(Type::Float));
    assert_eq!(numeric_coercion(&Type::Float, &Type::Integer), Some(Type::Float));
    assert_eq!(numeric_coercion(&Type::Bool, &Type::Integer), Some(Type::Integer));
    assert_eq!(numeric_coercion(&Type::Integer, &Type::Bool), Some(Type::Integer));
    assert_eq!(numeric_coercion(&Type::Bool, &Type::Float), Some(Type::Float));
    assert_eq!(numeric_coercion(&Type::Float, &Type::Bool), Some(Type::Float));
    assert_eq!(numeric_coercion(&Type::String, &Type::String), Some(Type::String));
    assert_eq!(numeric_coercion(&Type::String, &Type::Integer), None);
}

#[test]
fn signatures() {
    assert_eq!(
        nullary(Constraint::String),
        Signature { stack_args: Params::Nullary, modifiers: Params::Nullary, ret: Constraint::String }
    );
    assert_eq!(unary(Constraint::List, Constraint::Any).stack_args, Params::Unary(Constraint::List));
    assert_eq!(
        homogenous_binary(Constraint::Num, Constraint::Num).stack_args,
        Params::Binary(Constraint::Num, Constraint::Num)
    );
    assert_eq!(
        heterogeneous_binary(Constraint::Symbol, Constraint::Any, Constraint::Void).stack_args,
        Params::Binary(Constraint::Symbol, Constraint::Any)
    );
    assert_eq!(Op::Add.get_signature(), homogenous_binary(Constraint::Num, Constraint::Num));
    assert_eq!(Op::IntDiv.get_signature(), homogenous_binary(Constraint::Integer, Constraint::Integer));
    assert_eq!(Op::If.get_signature().modifiers, Params::Binary(Constraint::Any, Constraint::Any));
    assert_eq!(Op::If.get_signature(), Op::get_if_sig());
    assert_eq!(Op::MapList.get_signature().modifiers, Params::Unary(Constraint::Executable));
    assert_eq!(Op::MapList.get_signature().ret, Constraint::Quotation);
    assert_eq!(Op::AsSymbol.get_signature().modifiers, Params::Unary(Constraint::Any));
    assert_eq!(Op::AsSymbol.get_signature().stack_args, Params::Nullary);
    assert_eq!(Op::Foldl.get_signature(), Op::get_foldl_sig());
    assert_eq!(Op::Pop.get_signature(), unary(Constraint::Any, Constraint::Void));
    assert_eq!(Op::Swap.get_signature(), Op::get_swap_sig());
    assert_eq!(Op::Dup.get_signature(), Op::get_dup_sig());
    assert_eq!(Op::Loop.get_signature(), Op::get_loop_sig());
    assert_eq!(Op::Times.get_signature(), Op::get_times_sig());
    assert_eq!(Op::Exec.get_signature(), Op::get_exec_sig());
    assert_eq!(Op::Assign.get_signature(), Op::get_assign_sig());
    assert_eq!(Op::AssignFunc.get_signature(), Op::get_assign_func_sig());
    assert_eq!(Op::AsSymbol.get_signature(), Op::get_as_symbol_sig());
    assert_eq!(Op::EvalSymbol.get_signature(), Op::get_eval_symbol_sig());
    assert_eq!(Op::Add.get_signature().to_string(), "(Num, Num -> Num)");
    assert_eq!(Type::Function(Op::Not.get_signature()).to_string(), "Func (Num -> Num)");
    assert_eq!(Params::Nullary.to_string(), "Void");
    assert_eq!(Type::Quotation.to_string(), "Quotation");
}

#[test]
fn types_of_values() {
    assert_eq!(n(1).get_type(), Type::Integer);
    assert_eq!(Parsed::Num(Numeric::Float(0)).get_type(), Type::Float);
    assert_eq!(Parsed::Num(Numeric::NumError(StackError::ZeroDiv)).get_type(), Type::Error);
    assert_eq!(s("a").get_type(), Type::String);
    assert_eq!(Parsed::Bool(true).get_type(), Type::Bool);
    assert_eq!(Parsed::Quotation(vec![]).get_type(), Type::Quotation);
    assert_eq!(Parsed::Symbol("a".to_string()).get_type(), Type::Symbol);
    assert_eq!(Parsed::List(vec![]).get_type(), Type::List);
    assert_eq!(Parsed::Error(StackError::PopEmpty).get_type(), Type::Error);
    assert_eq!(Parsed::Void.get_type(), Type::Void);
    assert_eq!(Parsed::Function(Op::Add).get_type(), Type::Function(Op::Add.get_signature()));
}

#[test]
fn coercions() {
    let invalid = Parsed::Error(StackError::InvalidCoercion);
    assert_eq!(n(3).coerce(&Type::Float), Parsed::Num(Numeric::Float(3.0f64.to_bits())));
    assert_eq!(Parsed::Bool(true).coerce(&Type::Float), Parsed::Num(Numeric::Float(1.0f64.to_bits())));
    assert_eq!(Parsed::Bool(false).coerce(&Type::Float), Parsed::Num(Numeric::Float(0)));
    assert_eq!(Parsed::Num(Numeric::Float(2.9f64.to_bits())).coerce(&Type::Integer), n(2));
    assert_eq!(Parsed::Bool(true).coerce(&Type::Integer), n(1));
    assert_eq!(n(0).coerce(&Type::Bool), Parsed::Bool(false));
    assert_eq!(n(2).coerce(&Type::Bool), Parsed::Bool(true));
    assert_eq!(s("a").coerce(&Type::Bool), invalid);
    assert_eq!(n(2).coerce(&Type::Quotation), Parsed::Quotation(vec![n(2)]));
    assert_eq!(Parsed::Quotation(vec![n(2)]).coerce(&Type::Quotation), Parsed::Quotation(vec![n(2)]));
    assert_eq!(Parsed::Error(StackError::PopEmpty).coerce(&Type::Quotation), invalid);
    assert_eq!(n(2).coerce(&Type::List), Parsed::List(vec![n(2)]));
    assert_eq!(Parsed::List(vec![]).coerce(&Type::List), Parsed::List(vec![]));
    assert_eq!(n(2).coerce(&Type::Symbol), invalid);
    assert_eq!(Parsed::Symbol("a".to_string()).coerce(&Type::Symbol), Parsed::Symbol("a".to_string()));
    assert_eq!(Parsed::Function(Op::Add).coerce(&Type::Function(Op::Sub.get_signature())), Parsed::Function(Op::Add));
    assert_eq!(n(2).coerce(&Type::Function(Op::Sub.get_signature())), invalid);
    assert_eq!(n(2).coerce(&Type::Void), invalid);
    assert_eq!(Parsed::List(vec![n(1), s("a")]).coerce(&Type::String), s("[1,\"a\"]"));
    assert_eq!(n(-12).coerce(&Type::Error), s("-12"));
    assert_eq!(Parsed::Num(Numeric::Float(0)).coerce(&Type::String), invalid);
    assert_eq!(Parsed::Error(StackError::PopEmpty).coerce(&Type::String), invalid);
}

#[test]
fn sizes_and_contents() {
    assert_eq!(s("héllo").size(), n(6));
    assert_eq!(Parsed::List(vec![n(1), n(2)]).size(), n(2));
    assert_eq!(Parsed::Quotation(vec![n(1)]).size(), n(1));
    assert_eq!(n(1).size(), Parsed::Error(StackError::InvalidCoercion));
    assert_eq!(Parsed::List(vec![n(1)]).get_contents(), Some(vec![n(1)]));
    assert_eq!(Parsed::Quotation(vec![n(1)]).get_contents(), Some(vec![n(1)]));
    assert_eq!(n(1).get_contents(), None);
}

#[test]
fn sums_of_values() {
    assert_eq!(n(1).add(&n(2)), Outcome::Value(n(3)));
    assert_eq!(s("ab").add(&s("cd")), Outcome::Value(s("abcd")));
    assert_eq!(
        Parsed::List(vec![n(1)]).add(&Parsed::List(vec![n(2)])),
        Outcome::Value(Parsed::List(vec![n(1), n(2)]))
    );
    assert_eq!(s("a").add(&Parsed::List(vec![n(2)])), Outcome::Value(Parsed::List(vec![s("a"), n(2)])));
    assert_eq!(s("a").add(&n(1)), Outcome::Value(Parsed::Error(StackError::InvalidCoercion)));
    assert_eq!(n(1).sub(&s("a")), Outcome::Value(Parsed::Error(StackError::InvalidCoercion)));
    assert_eq!(n(6).mul(&n(7)), Outcome::Value(n(42)));
    assert_eq!(n(6).div(&n(4)), Outcome::Value(n(1)));
    assert_eq!(n(6).neg(), n(-6));
    assert_eq!(s("a").neg(), Parsed::Error(StackError::InvalidCoercion));
    assert_eq!(n(1).bitand(&s("")), Parsed::Bool(false));
    assert_eq!(n(0).bitor(&s("x")), Parsed::Bool(true));
}

#[test]
fn equality_of_values() {
    assert!(n(1).equals(&n(1)));
    assert!(!n(1).equals(&s("1")));
    assert!(s("a").equals(&s("a")));
    assert!(Parsed::Bool(true).equals(&Parsed::Bool(true)));
    assert!(Parsed::Error(StackError::PopEmpty).equals(&Parsed::Error(StackError::PopEmpty)));
    assert!(!Parsed::Error(StackError::PopEmpty).equals(&Parsed::Error(StackError::ZeroDiv)));
    assert!(Parsed::Quotation(vec![n(1)]).equals(&Parsed::Quotation(vec![n(1)])));
    assert!(!Parsed::Quotation(vec![n(1)]).equals(&Parsed::List(vec![n(1)])));
    // symbols, functions and the void value are equal to nothing
    assert!(!Parsed::Symbol("a".to_string()).equals(&Parsed::Symbol("a".to_string())));
    assert!(!Parsed::Function(Op::Add).equals(&Parsed::Function(Op::Add)));
    assert!(!Parsed::Void.equals(&Parsed::Void));
    let pairs = [
        (n(5), Parsed::Num(Numeric::Float(5.0f64.to_bits()))),
        (Parsed::List(vec![n(1), s("a")]), Parsed::List(vec![Parsed::Num(Numeric::Float(1.0f64.to_bits())), s("a")])),
        (n(1), n(2)),
        (s("a"), Parsed::Symbol("a".to_string())),
    ];
    for (a, b) in pairs {
        assert_eq!(a.equals(&b), b.equals(&a));
    }
}

#[test]
fn forms_of_values() {
    let v = Parsed::List(vec![n(1), s("a b"), Parsed::Bool(false), Parsed::Quotation(vec![n(2), Parsed::Function(Op::Add)])]);
    assert_eq!(shown(&v), "[1,\"a b\",False,{ 2 + }]");
    assert_eq!(source_of(&v), "[ 1 \" a b \" False { 2 + } ]");
    assert_eq!(shown(&Parsed::Quotation(vec![])), "{  }");
    assert_eq!(source_of(&Parsed::List(vec![])), "[  ]");
    assert_eq!(shown(&Parsed::Void), "()");
    assert_eq!(shown(&Parsed::Symbol("abc".to_string())), "abc");
    assert_eq!(shown(&Parsed::Error(StackError::ZeroDiv)), "err: zero division");
    assert_eq!(
        Parsed::Num(Numeric::Float(7)).render(),
        vec![Glyph::Float(7)]
    );
}

#[test]
fn operators_on_values() {
    assert_eq!(Op::exec_dup(n(1)), Parsed::Quotation(vec![n(1), n(1)]));
    assert_eq!(Op::exec_swap(&n(1), &n(2)), Parsed::Quotation(vec![n(2), n(1)]));
    assert_eq!(Op::exec_pop(n(1)), Parsed::Void);
    assert_eq!(Op::exec_void(), Parsed::Void);
    assert_eq!(Op::exec_ioread(), Outcome::Ask(Request::Read));
    assert_eq!(
        Op::exec_print(s("x")),
        Outcome::Ask(Request::Print(vec![Glyph::Char('"'), Glyph::Char('x'), Glyph::Char('"')]))
    );
    assert_eq!(Op::exec_parse_float(s("1.5")), Outcome::Ask(Request::ParseFloat("1.5".to_string())));
    assert_eq!(Op::exec_parse_int(n(1)), Parsed::Error(StackError::InvalidCoercion));
    assert_eq!(Op::exec_words(s(" a  b ")), Parsed::List(vec![s("a"), s("b")]));
    assert_eq!(Op::exec_exec(n(1)), Parsed::Quotation(vec![n(1)]));
    assert_eq!(Op::exec_exec(Parsed::Error(StackError::PopEmpty)), Parsed::Error(StackError::Undefined));
    assert_eq!(
        Op::exec_times(n(2), Modifiers::Unary(n(7))),
        Parsed::Quotation(vec![
            Parsed::Quotation(vec![n(7)]),
            Parsed::Function(Op::Exec),
            Parsed::Quotation(vec![n(7)]),
            Parsed::Function(Op::Exec)
        ])
    );
    assert_eq!(Op::exec_times(s("x"), Modifiers::Unary(n(7))), Parsed::Error(StackError::Undefined));
    assert_eq!(Op::exec_times(n(2), Modifiers::Nullary), Parsed::Error(StackError::Undefined));
    assert_eq!(
        Op::exec_each(Parsed::List(vec![n(1)]), Modifiers::Unary(Parsed::Function(Op::Not))),
        Parsed::Quotation(vec![n(1), Parsed::Quotation(vec![Parsed::Function(Op::Not)]), Parsed::Function(Op::Exec)])
    );
    assert_eq!(
        Op::exec_map(Parsed::List(vec![n(1)]), Modifiers::Unary(Parsed::Quotation(vec![]))),
        Parsed::Quotation(vec![
            Parsed::List(vec![]),
            n(1),
            Parsed::Quotation(vec![]),
            Parsed::Function(Op::Exec),
            Parsed::List(vec![]),
            Parsed::Function(Op::Cons),
            Parsed::Function(Op::Append)
        ])
    );
    assert_eq!(
        Op::exec_foldl(&Parsed::List(vec![n(1)]), &n(0), Modifiers::Unary(Parsed::Quotation(vec![]))),
        Parsed::Quotation(vec![n(0), n(1), Parsed::Quotation(vec![]), Parsed::Function(Op::Exec)])
    );
    assert_eq!(
        Op::exec_if(Parsed::Bool(true), Modifiers::Binary(n(1), n(2))),
        Parsed::Quotation(vec![n(1)])
    );
    assert_eq!(Op::exec_if(Parsed::Bool(true), Modifiers::Nullary), Parsed::Error(StackError::Undefined));
    assert_eq!(Op::exec_eval_symbol(n(1)), Parsed::Error(StackError::InvalidCoercion));
    assert_eq!(Op::exec_cons(&n(1), &Parsed::List(vec![n(2)])), Outcome::Value(Parsed::List(vec![n(1), n(2)])));
    assert_eq!(Op::exec_append(&n(1), &n(2)), Outcome::Value(n(3)));
    assert_eq!(Op::exec_intdiv(&n(7), &n(2)), n(3));
    assert_eq!(Op::exec_empty(s("")), Parsed::Bool(true));
    assert_eq!(Op::exec_length(s("abc")), n(3));
    assert_eq!(Op::exec_gt(&n(2), &n(1)), Parsed::Bool(true));
    assert_eq!(Op::exec_and(&n(2), &n(1)), Parsed::Bool(true));
    assert_eq!(Op::exec_or(&n(0), &n(0)), Parsed::Bool(false));
    assert_eq!(Op::exec_not(Parsed::Bool(true)), Parsed::Bool(false));
    assert_eq!(Op::IORead.exec_nullary(Modifiers::Nullary), Outcome::Ask(Request::Read));
    assert_eq!(Op::Loop.exec_nullary(Modifiers::Nullary), Outcome::Value(Parsed::Error(StackError::Undefined)));
    assert_eq!(Op::Head.exec_unary(Parsed::List(vec![n(1)]), Modifiers::Nullary), Outcome::Value(n(1)));
    let mut table = Bindings::new();
    assert_eq!(
        Op::Assign.exec_binary(&Parsed::Symbol("x".to_string()), &n(1), Modifiers::Nullary, &mut table),
        Outcome::Value(Parsed::Void)
    );
    assert_eq!(table.get(&"x".to_string()), Some(&Binding { function: false, constant: false, value: n(1) }));
    assert_eq!(
        Op::AssignFunc.exec_binary(&n(3), &n(1), Modifiers::Nullary, &mut table),
        Outcome::Value(Parsed::Error(StackError::InvalidCoercion))
    );
}

#[test]
fn mismatch_of_other_shapes_has_no_text() {
    assert_eq!(arg_mismatch(&Op::Add, &Args::Unary(n(1)), true), StackError::TypeMismatch(vec![]));
    assert_eq!(arg_mismatch(&Op::Add, &Args::Nullary, false), StackError::TypeMismatch(vec![]));
}

#[test]
fn stack_is_shown_from_the_top_down() {
    let mut stack = Stack::new();
    assert_eq!(plain_string(&bprog::interpreter::contents_text(&stack)), Some("".to_string()));
    stack.push(n(1));
    stack.push(s("a"));
    stack.push(Parsed::List(vec![n(2), n(3)]));
    assert_eq!(
        plain_string(&bprog::interpreter::contents_text(&stack)),
        Some("[2,3] \"a\" 1 ".to_string())
    );
}

#[test]
fn stack_is_cloned_value_by_value() {
    let mut stack = Stack::new();
    stack.push(1);
    stack.push(2);
    let copy = stack.clone();
    assert_eq!(copy, stack);
    assert_eq!(copy.size(), 2);
    assert_eq!(Stack::<u8>::new().clone(), Stack::Empty);
}

#[test]
fn stack_from_values() {
    let mut stack = Stack::from_vec(vec![1, 2, 3]);
    assert_eq!(stack.size(), 3);
    assert_eq!(stack.pop(), Some(3));
    assert_eq!(stack.pop(), Some(2));
    assert_eq!(stack.pop(), Some(1));
    assert_eq!(Stack::from_vec(Vec::<u8>::new()), Stack::Empty);
}

#[test]
fn order_of_values() {
    assert_eq!(n(1).partial_cmp(&n(2)), Some(Ordering::Less));
    assert_eq!(n(2).partial_cmp(&n(2)), Some(Ordering::Equal));
    assert_eq!(Parsed::Bool(true).partial_cmp(&n(0)), Some(Ordering::Greater));
    assert_eq!(Parsed::Bool(true).partial_cmp(&Parsed::Bool(false)), None);
    assert_eq!(s("a").partial_cmp(&n(0)), None);
    assert_eq!(n(0).partial_cmp(&s("a")), None);
    assert!(n(1).lt(&n(2)));
    assert!(n(2).gt(&n(1)));
    assert!(!s("a").lt(&s("b")));
}
