use bprog::interpreter::{deliver, get_modifiers, run, Args, Binding, Bindings, Status};
use bprog::numeric::{FloatOp, FloatTask, Numeric};
use bprog::op::Op;
use bprog::parsed::{Parsed, Request};
use bprog::parsing::{parse, Lexeme, ParseError};
use bprog::stack::Stack;
use bprog::stack_error::StackError;
use bprog::text::Glyph;
use bprog::utility::to_tokens;
use std::collections::VecDeque;

fn lex(src: &str) -> VecDeque<Lexeme> {
    let mut out = VecDeque::new();
    for word in to_tokens(src) {
        let reading = match word.parse::<f64>() {
            Ok(f) => Some(f.to_bits()),
            Err(_) => None,
        };
        out.push_back(Lexeme { text: word, float: reading });
    }
    out
}

fn show(glyphs: &[Glyph]) -> String {
    let mut out = String::new();
    for g in glyphs {
        match g {
            Glyph::Char(c) => out.push(*c),
            Glyph::Float(bits) => {
                let v = f64::from_bits(*bits);
                if v.fract() == 0.0 {
                    out.push_str(&format!("{}.0", v));
                } else {
                    out.push_str(&format!("{}", v));
                }
            }
        }
    }
    out
}

fn fl(v: f64) -> Parsed {
    Parsed::Num(Numeric::Float(v.to_bits()))
}

fn whole(v: i128) -> Parsed {
    Parsed::Num(Numeric::Integer(v))
}

fn sym(s: &str) -> Parsed {
    Parsed::Symbol(s.to_string())
}

fn serve(request: &Request, lines: &mut VecDeque<String>, printed: &mut Vec<String>) -> Parsed {
    match request {
        Request::Float(FloatTask { op, left, right }) => {
            let a = f64::from_bits(*left);
            let b = f64::from_bits(*right);
            fl(match op {
                FloatOp::Add => a + b,
                FloatOp::Sub => a - b,
                FloatOp::Mul => a * b,
                FloatOp::Div => a / b,
            })
        }
        Request::ParseFloat(s) => match s.parse::<f64>() {
            Ok(f) => fl(f),
            Err(_) => Parsed::Error(StackError::Overflow),
        },
        Request::Print(text) => {
            printed.push(show(text));
            Parsed::Void
        }
        Request::Read => match lines.pop_front() {
            Some(line) => Parsed::String(line),
            None => Parsed::Error(StackError::PrematureEnd),
        },
    }
}

struct World {
    stack: Stack<Parsed>,
    bindings: Bindings,
    lines: VecDeque<String>,
    printed: Vec<String>,
}

fn world() -> World {
    World { stack: Stack::new(), bindings: Bindings::new(), lines: VecDeque::new(), printed: Vec::new() }
}

fn feed(w: &mut World, src: &str) -> Status {
    let mut tokens = lex(src);
    let program = parse(&mut tokens).expect("the program parses");
    let mut input = VecDeque::from(program);
    loop {
        match run(&mut w.stack, &mut input, &mut w.bindings, 100_000) {
            Status::Ask(op, request) => {
                let answer = serve(&request, &mut w.lines, &mut w.printed);
                deliver(&op, answer, &mut w.stack, &mut input);
            }
            other => return other,
        }
    }
}

fn items(stack: &Stack<Parsed>) -> Vec<Parsed> {
    let mut out = Vec::new();
    let mut it = stack.iter();
    while let Some(p) = it.next() {
        out.push(p.clone());
    }
    out
}

fn eval(src: &str) -> Vec<Parsed> {
    let mut w = world();
    feed(&mut w, src);
    items(&w.stack)
}

fn t(src: &str) -> String {
    let mut w = world();
    feed(&mut w, src);
    show(&w.stack.top().expect("a value is left").render())
}

#[test]
fn one_plus_two() {
    assert_eq!(eval("1 2 +"), vec![whole(3)]);
    assert_eq!(t("1 2 +"), "3");
}

#[test]
fn division_gives_a_float() {
    assert_eq!(eval("10 2 /"), vec![fl(5.0)]);
    assert_eq!(t("10 2 /"), "5.0");
    assert_eq!(t("7 2 /"), "3.5");
}

#[test]
fn length_of_a_list() {
    assert_eq!(eval("[ 1 2 3 ] length"), vec![whole(3)]);
}

#[test]
fn words_of_a_string() {
    assert_eq!(eval("\" hello world \" words length"), vec![whole(2)]);
    assert_eq!(
        eval("\" hello world \" words"),
        vec![Parsed::List(vec![
            Parsed::String("hello".to_string()),
            Parsed::String("world".to_string())
        ])]
    );
}

#[test]
fn times_doubles_five_times() {
    assert_eq!(eval("5 5 times { 2 * }"), vec![whole(160)]);
    assert_eq!(eval("5 0 times { 2 * }"), vec![whole(5)]);
    assert_eq!(eval("5 -3 times { 2 * }"), vec![whole(5)]);
}

#[test]
fn times_with_the_quotation_before_it_is_a_type_mismatch() {
    // `times` takes its modifier from the input: here that is `exec`, and the
    // operand on top of the stack is the quotation, which is no integer.
    let stack = eval("5 { 2 * } times exec");
    assert_eq!(stack.len(), 2);
    assert!(matches!(stack[0], Parsed::Error(StackError::TypeMismatch(_))));
    assert_eq!(stack[1], whole(5));
}

#[test]
fn assignment_binds_a_symbol() {
    assert_eq!(eval("' x 42 := x"), vec![whole(42)]);
    assert_eq!(eval("x 42 := x x +"), vec![whole(84)]);
}

#[test]
fn map_adds_one_to_each() {
    assert_eq!(eval("[ 1 2 3 ] map { 1 + }"), vec![Parsed::List(vec![whole(2), whole(3), whole(4)])]);
    assert_eq!(t("[ 1 2 3 ] map { 1 + }"), "[2,3,4]");
    assert_eq!(eval("[ ] map { 1 + }"), vec![Parsed::List(vec![])]);
}

#[test]
fn map_with_the_quotation_before_it_is_a_type_mismatch() {
    let stack = eval("[ 1 2 3 ] { 1 + } map exec");
    assert!(matches!(stack[0], Parsed::Error(StackError::TypeMismatch(_))));
}

#[test]
fn if_takes_the_branch() {
    assert_eq!(eval("True if { 1 } { 2 }"), vec![whole(1)]);
    assert_eq!(eval("False if { 1 } { 2 }"), vec![whole(2)]);
    assert_eq!(eval("True if 1 2"), vec![whole(1)]);
    // only `True` itself takes the first branch
    assert_eq!(eval("1 if { 1 } { 2 }"), vec![whole(2)]);
}

#[test]
fn if_with_the_branches_before_it_finds_no_modifier() {
    let stack = eval("True { 1 } { 2 } if");
    assert_eq!(stack[0], Parsed::Error(StackError::PrematureEnd));
}

#[test]
fn division_by_zero() {
    let stack = eval("1 0 /");
    assert_eq!(stack, vec![Parsed::Error(StackError::ZeroDiv)]);
    assert_eq!(eval("1 0 div"), vec![Parsed::Error(StackError::ZeroDiv)]);
    assert_eq!(eval("1.5 0.0 /"), vec![Parsed::Error(StackError::ZeroDiv)]);
    assert_eq!(t("1 0 /"), "err: zero division");
}

#[test]
fn unbound_symbol_is_pushed() {
    assert_eq!(eval("foo"), vec![sym("foo")]);
}

#[test]
fn symbol_literal_whether_bound_or_not() {
    assert_eq!(eval("' name"), vec![sym("name")]);
    assert_eq!(eval("name 1 := ' name"), vec![sym("name")]);
    assert_eq!(eval("' f { 1 2 + } fun ' f"), vec![sym("f")]);
    // what follows `'` must be a symbol
    assert_eq!(eval("' 5"), vec![Parsed::Error(StackError::InvalidCoercion)]);
}

#[test]
fn error_stops_the_run() {
    let mut w = world();
    let status = feed(&mut w, "1 0 / 2 3 +");
    assert_eq!(status, Status::Failed);
    assert_eq!(items(&w.stack), vec![Parsed::Error(StackError::ZeroDiv)]);
    // nothing is evaluated until the stack is reset
    let status = feed(&mut w, "4 5 +");
    assert_eq!(status, Status::Failed);
    assert_eq!(items(&w.stack), vec![Parsed::Error(StackError::ZeroDiv)]);
    w.stack.clear();
    let status = feed(&mut w, "4 5 +");
    assert_eq!(status, Status::Done);
    assert_eq!(items(&w.stack), vec![whole(9)]);
}

#[test]
fn an_error_token_is_pushed_and_stops_the_run() {
    let mut stack = Stack::new();
    let mut bindings = Bindings::new();
    let mut input = VecDeque::from(vec![whole(1), Parsed::Error(StackError::Undefined), whole(2)]);
    let status = run(&mut stack, &mut input, &mut bindings, 10);
    assert_eq!(status, Status::Failed);
    assert_eq!(items(&stack), vec![Parsed::Error(StackError::Undefined), whole(1)]);
    assert_eq!(input, VecDeque::from(vec![whole(2)]));
}

#[test]
fn modifiers_leave_the_input_before_the_stack_is_touched() {
    let bindings = Bindings::new();
    let mut input = VecDeque::from(vec![whole(1), whole(2), whole(3)]);
    let got = get_modifiers(&Op::If, &mut input, &bindings);
    assert_eq!(got, Ok(Args::Binary(whole(1), whole(2))));
    assert_eq!(input, VecDeque::from(vec![whole(3)]));

    let mut input = VecDeque::from(vec![whole(1), whole(2)]);
    assert_eq!(get_modifiers(&Op::Add, &mut input, &bindings), Ok(Args::Nullary));
    assert_eq!(input.len(), 2);

    let mut input = VecDeque::from(vec![whole(1)]);
    assert_eq!(get_modifiers(&Op::If, &mut input, &bindings), Err(StackError::PrematureEnd));
    assert_eq!(input.len(), 0);

    // with too few operands the modifier is gone all the same
    let mut stack = Stack::new();
    let mut bindings = Bindings::new();
    let mut input =
        VecDeque::from(vec![Parsed::Function(Op::Times), Parsed::Quotation(vec![]), whole(7)]);
    run(&mut stack, &mut input, &mut bindings, 1);
    assert_eq!(items(&stack), vec![Parsed::Error(StackError::PopEmpty)]);
    assert_eq!(input, VecDeque::from(vec![whole(7)]));
}

#[test]
fn modifiers_are_resolved_but_not_for_the_quote() {
    let mut bindings = Bindings::new();
    bindings.insert("q".to_string(), Binding { function: false, constant: false, value: whole(9) });
    let mut input = VecDeque::from(vec![sym("q")]);
    assert_eq!(get_modifiers(&Op::Each, &mut input, &bindings).is_err(), true);
    let mut input = VecDeque::from(vec![sym("q")]);
    assert_eq!(get_modifiers(&Op::AsSymbol, &mut input, &bindings), Ok(Args::Unary(sym("q"))));
}

#[test]
fn a_returned_quotation_runs_as_if_written_in_place() {
    // `dup` gives back a quotation of two items: they are evaluated next
    assert_eq!(eval("3 dup +"), eval("3 3 +"));
    assert_eq!(eval("1 2 swap -"), eval("2 1 -"));
    assert_eq!(eval("{ 1 2 + } exec 10 *"), eval("1 2 + 10 *"));
    let mut stack = Stack::new();
    let mut input = VecDeque::from(vec![whole(7)]);
    deliver(&Op::Exec, Parsed::Quotation(vec![whole(1), whole(2)]), &mut stack, &mut input);
    assert_eq!(input, VecDeque::from(vec![whole(1), whole(2), whole(7)]));
    assert!(stack.is_empty());
}

#[test]
fn stack_depth_follows_the_signature() {
    // literals add one; `+` takes two and gives one; `pop` takes one
    assert_eq!(eval("1 2 3").len(), 3);
    assert_eq!(eval("1 2 3 +").len(), 2);
    assert_eq!(eval("1 2 3 pop").len(), 2);
    assert_eq!(eval("1 2 3 pop pop pop").len(), 0);
    assert_eq!(eval("1 2 3 == not").len(), 2);
}

#[test]
fn functions_run_when_named() {
    assert_eq!(eval("' inc { 1 + } fun 41 inc"), vec![whole(42)]);
    assert_eq!(eval("inc { 1 + } fun 1 inc inc inc"), vec![whole(4)]);
    // a plain binding of a quotation is pushed, not run
    assert_eq!(eval("q { 1 + } := 1 q").len(), 2);
    assert_eq!(eval("q { 1 + } := 1 q exec"), vec![whole(2)]);
}

#[test]
fn eval_looks_a_symbol_up() {
    assert_eq!(eval("' x eval"), vec![sym("x")]);
    assert_eq!(eval("x 5 := ' x eval"), vec![whole(5)]);
    assert_eq!(eval("f { 2 3 * } fun ' f eval"), vec![whole(6)]);
}

#[test]
fn lists_resolve_their_symbols_one_level() {
    assert_eq!(eval("x 5 := [ x y [ x ] ]"), vec![Parsed::List(vec![
        whole(5),
        sym("y"),
        Parsed::List(vec![sym("x")])
    ])]);
}

#[test]
fn arithmetic() {
    assert_eq!(eval("7 5 -"), vec![whole(2)]);
    assert_eq!(eval("7 5 *"), vec![whole(35)]);
    assert_eq!(eval("7 2 div"), vec![whole(3)]);
    assert_eq!(eval("-7 2 div"), vec![whole(-3)]);
    assert_eq!(eval("7 -2 div"), vec![whole(-3)]);
    assert_eq!(eval("1.5 2 +"), vec![fl(3.5)]);
    assert_eq!(eval("2 1.5 -"), vec![fl(0.5)]);
    assert_eq!(eval("1.5 2.0 *"), vec![fl(3.0)]);
    assert_eq!(eval("True 1 +"), vec![whole(2)]);
    assert_eq!(eval("False 1.5 +"), vec![fl(1.5)]);
    assert_eq!(t("1.5 2 +"), "3.5");
    assert_eq!(eval("5 not"), vec![whole(-5)]);
    assert_eq!(eval("1.5 not"), vec![fl(-1.5)]);
    assert_eq!(eval("True not"), vec![Parsed::Bool(false)]);
}

#[test]
fn integer_arithmetic_is_exact() {
    assert_eq!(eval("9007199254740993 1 +"), vec![whole(9007199254740994)]);
    assert_eq!(
        eval("170141183460469231731687303715884105727 0 +"),
        vec![whole(i128::MAX)]
    );
    assert_eq!(
        eval("170141183460469231731687303715884105727 1 +"),
        vec![Parsed::Error(StackError::Overflow)]
    );
    assert_eq!(
        eval("-170141183460469231731687303715884105728 -1 div"),
        vec![Parsed::Error(StackError::Overflow)]
    );
    assert_eq!(
        eval("-170141183460469231731687303715884105728 not"),
        vec![Parsed::Error(StackError::Overflow)]
    );
}

#[test]
fn comparisons() {
    assert_eq!(eval("1 2 <"), vec![Parsed::Bool(true)]);
    assert_eq!(eval("2 1 <"), vec![Parsed::Bool(false)]);
    assert_eq!(eval("2 1 >"), vec![Parsed::Bool(true)]);
    assert_eq!(eval("1 1.5 <"), vec![Parsed::Bool(true)]);
    assert_eq!(eval("-0.0 0.0 <"), vec![Parsed::Bool(false)]);
    assert_eq!(eval("False 1 <"), vec![Parsed::Bool(true)]);
    assert_eq!(eval("False True <"), vec![Parsed::Bool(false)]);
    assert_eq!(eval("5 5.0 =="), vec![Parsed::Bool(true)]);
    assert_eq!(eval("5.0 5 =="), vec![Parsed::Bool(true)]);
    assert_eq!(eval("5 6 =="), vec![Parsed::Bool(false)]);
    assert_eq!(eval("[ 1 2.0 ] [ 1.0 2 ] =="), vec![Parsed::Bool(true)]);
    assert_eq!(eval("[ 1 2 ] [ 1 2 3 ] =="), vec![Parsed::Bool(false)]);
    assert_eq!(eval("\" a b \" \" a b \" =="), vec![Parsed::Bool(true)]);
    assert_eq!(eval("True 1 &&"), vec![Parsed::Bool(true)]);
    assert_eq!(eval("False 0 ||"), vec![Parsed::Bool(false)]);
    assert_eq!(eval("False 0.5 ||"), vec![Parsed::Bool(true)]);
    assert_eq!(eval("True 0 &&"), vec![Parsed::Bool(false)]);
    assert_eq!(eval("\" \" [ 1 ] ||"), vec![Parsed::Bool(true)]);
}

#[test]
fn lists() {
    assert_eq!(eval("[ 1 2 3 ] head"), vec![whole(1)]);
    assert_eq!(eval("[ 1 2 3 ] tail"), vec![Parsed::List(vec![whole(2), whole(3)])]);
    assert_eq!(eval("[ ] head"), vec![Parsed::Error(StackError::HeadEmpty)]);
    assert_eq!(eval("[ ] tail"), vec![Parsed::Error(StackError::TailEmpty)]);
    assert_eq!(eval("[ ] empty"), vec![Parsed::Bool(true)]);
    assert_eq!(eval("[ 1 ] empty"), vec![Parsed::Bool(false)]);
    assert_eq!(eval("1 [ 2 3 ] cons"), vec![Parsed::List(vec![whole(1), whole(2), whole(3)])]);
    assert_eq!(eval("[ 1 ] [ 2 3 ] append"), vec![Parsed::List(vec![whole(1), whole(2), whole(3)])]);
    assert_eq!(eval("\" héllo \" length"), vec![whole(6)]);
    assert_eq!(eval("{ 1 2 } length"), vec![whole(2)]);
}

#[test]
fn each_and_foldl() {
    assert_eq!(eval("[ 1 2 3 ] each { 10 * }"), vec![whole(30), whole(20), whole(10)]);
    assert_eq!(eval("[ 1 2 3 ] 0 foldl { + }"), vec![whole(6)]);
    assert_eq!(eval("[ 1 2 3 ] 0 foldl +"), vec![whole(6)]);
    assert_eq!(eval("[ 1 2 3 ] each not"), vec![whole(-3), whole(-2), whole(-1)]);
}

#[test]
fn parse_integer_and_float() {
    assert_eq!(eval("\" 12 \" parseInteger"), vec![whole(12)]);
    assert_eq!(eval("\" -12 \" parseInteger"), vec![whole(-12)]);
    assert_eq!(eval("\" abc \" parseInteger"), vec![Parsed::Error(StackError::Overflow)]);
    assert_eq!(eval("\" 1.5 \" parseFloat"), vec![fl(1.5)]);
    assert_eq!(eval("\" abc \" parseFloat"), vec![Parsed::Error(StackError::Overflow)]);
}

#[test]
fn print_and_read() {
    let mut w = world();
    w.lines.push_back("a line".to_string());
    feed(&mut w, "read [ 1 2.5 ] print 3 print");
    assert_eq!(w.printed, vec!["[1,2.5]".to_string(), "3".to_string()]);
    assert_eq!(items(&w.stack), vec![Parsed::String("a line".to_string())]);
}

#[test]
fn a_wrong_answer_to_a_request_is_a_type_mismatch() {
    let mut stack = Stack::new();
    let mut input = VecDeque::new();
    deliver(&Op::IORead, whole(3), &mut stack, &mut input);
    assert!(matches!(stack.top(), Some(Parsed::Error(StackError::TypeMismatch(_)))));
    let mut stack = Stack::new();
    deliver(&Op::IORead, Parsed::String("ok".to_string()), &mut stack, &mut input);
    assert_eq!(stack.top(), Some(&Parsed::String("ok".to_string())));
    let mut stack = Stack::new();
    deliver(&Op::IOPrint, Parsed::Void, &mut stack, &mut input);
    assert!(stack.is_empty());
}

#[test]
fn errors_of_each_kind() {
    assert_eq!(eval("+"), vec![Parsed::Error(StackError::PopEmpty)]);
    assert_eq!(eval("1 +"), vec![Parsed::Error(StackError::PopEmpty)]);
    assert_eq!(eval("1 times"), vec![Parsed::Error(StackError::PrematureEnd), whole(1)]);
    assert_eq!(eval("loop"), vec![Parsed::Error(StackError::Undefined)]);
    assert_eq!(eval("True True +"), vec![Parsed::Error(StackError::InvalidCoercion)]);
    let stack = eval("1 \" a \" +");
    assert_eq!(stack.len(), 1);
    match &stack[0] {
        Parsed::Error(StackError::TypeMismatch(text)) => {
            assert_eq!(
                show(text),
                "err: second argument of type String with value \"a\" does not match \
                 constraints in the function +, with signature <(Num, Num)::(Void) -> Num>"
            );
        }
        other => panic!("unexpected {:?}", other),
    }
    let stack = eval("[ 1 ] each 5.5");
    match &stack[0] {
        Parsed::Error(StackError::TypeMismatch(text)) => {
            assert_eq!(
                show(text),
                "err: argument of type Float with value 5.5 does not satisfy constraint in \
                 the function each, with signature <(List)::(Executable) -> Any>."
            );
        }
        other => panic!("unexpected {:?}", other),
    }
    let stack = eval("\" a \" \" b \" <");
    match &stack[0] {
        Parsed::Error(StackError::TypeMismatch(text)) => {
            assert_eq!(
                show(text),
                "err: first argument of type String with value \"a\" and second argument of \
                 type String with value \"b\" do not match constraints in the function <, \
                 with signature <(Ord, Ord)::(Void) -> Bool>"
            );
        }
        other => panic!("unexpected {:?}", other),
    }
    assert_eq!(
        show(&StackError::UserDefined("mine".to_string()).message()),
        "mine"
    );
    assert_eq!(show(&StackError::Overflow.message()), "err: numeric overflow");
    assert_eq!(show(&StackError::PopEmpty.message()), "err: attempted to pop empty stack!");
}

#[test]
fn fuel_bounds_a_run() {
    let mut w = world();
    feed(&mut w, "' forever { forever } fun");
    let mut input = VecDeque::from(vec![sym("forever")]);
    let status = run(&mut w.stack, &mut input, &mut w.bindings, 1000);
    assert_eq!(status, Status::Running);
    assert_eq!(input, VecDeque::from(vec![sym("forever")]));
    let mut input = VecDeque::from(vec![whole(1), whole(2), whole(3)]);
    let status = run(&mut w.stack, &mut input, &mut w.bindings, 2);
    assert_eq!(status, Status::Running);
    assert_eq!(input, VecDeque::from(vec![whole(3)]));
    let status = run(&mut w.stack, &mut input, &mut w.bindings, 2);
    assert_eq!(status, Status::Done);
}

#[test]
fn unterminated_string_fails_to_parse() {
    let mut tokens = lex("1 \" never closed");
    assert_eq!(parse(&mut tokens), Err(ParseError::UnterminatedString));
}

#[test]
fn display_forms() {
    assert_eq!(t("\" hello world \""), "\"hello world\"");
    assert_eq!(t("[ 1 [ 2 3 ] \" a \" True ]"), "[1,[2,3],\"a\",True]");
    assert_eq!(t("x { 1 + } := x"), "{ 1 + }");
    assert_eq!(t("[ ]"), "[]");
    assert_eq!(t("-7"), "-7");
    assert_eq!(t("0.1"), "0.1");
}

fn written(p: &Parsed) -> String {
    show(&p.source())
}

fn read_back(p: &Parsed) -> Vec<Parsed> {
    let mut tokens = lex(&written(p));
    let got = parse(&mut tokens).expect("the written form parses");
    assert!(tokens.is_empty());
    got
}

#[test]
fn written_values_read_back() {
    let values = vec![
        whole(0),
        whole(-17),
        whole(i128::MAX),
        whole(i128::MIN),
        fl(5.0),
        fl(-0.5),
        fl(1e300),
        fl(0.1),
        fl(f64::INFINITY),
        Parsed::Bool(true),
        Parsed::Bool(false),
        Parsed::String("".to_string()),
        Parsed::String("hello".to_string()),
        Parsed::String("hello big world".to_string()),
        Parsed::String("1 + { [".to_string()),
        sym("foo"),
        sym("x1"),
        Parsed::List(vec![]),
        Parsed::Quotation(vec![]),
        Parsed::List(vec![whole(1), fl(2.5), Parsed::String("a b".to_string()), sym("y")]),
        Parsed::Quotation(vec![
            Parsed::List(vec![Parsed::List(vec![]), Parsed::Quotation(vec![sym("z")])]),
            Parsed::Bool(true),
        ]),
    ];
    for v in values {
        assert_eq!(read_back(&v), vec![v.clone()], "{}", written(&v));
    }
    assert_eq!(written(&Parsed::List(vec![whole(1), fl(2.0)])), "[ 1 2.0 ]");
    assert_eq!(written(&Parsed::String("a b".to_string())), "\" a b \"");
}

#[test]
fn what_cannot_be_written_does_not_read_back() {
    // a string with two spaces between its words loses one of them
    let doubled = Parsed::String("a  b".to_string());
    assert_eq!(read_back(&doubled), vec![Parsed::String("a b".to_string())]);
    // a symbol that is the name of an operator reads back as the operator
    assert_eq!(read_back(&sym("dup")), vec![Parsed::Function(Op::Dup)]);
    // a symbol that spells a number reads back as the number
    assert_eq!(read_back(&sym("12")), vec![whole(12)]);
}

#[test]
fn sum_of_numbers_either_way_round() {
    for (a, b) in [(1, 2), (-5, 5), (i128::MAX, 1), (i128::MIN, -1), (0, 0)] {
        assert_eq!(
            Op::exec_add(&whole(a), &whole(b)),
            Op::exec_add(&whole(b), &whole(a))
        );
    }
    let mut w = world();
    feed(&mut w, "1.5 2 + 2 1.5 + ==");
    assert_eq!(items(&w.stack), vec![Parsed::Bool(true)]);
}
