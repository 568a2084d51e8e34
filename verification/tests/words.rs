use bprog::op::Op;
use bprog::parsed::Parsed;
use bprog::parsing::{get_section, parse, parse_integer, parse_operations, parse_primitives, parse_to_quotation, plain_lexemes, Lexeme};
use bprog::numeric::Numeric;
use bprog::text::{plain_string, push_int, push_str, Glyph};
use bprog::utility::{is_whitespace, split_words, string_vec, string_vec_deque, to_tokens};
use std::collections::VecDeque;

fn word(text: &str) -> Lexeme {
    Lexeme { text: text.to_string(), float: None }
}

fn words_of(src: &str) -> VecDeque<Lexeme> {
    plain_lexemes(to_tokens(src))
}

#[test]
fn white_space_is_that_of_unicode() {
    let mut c = 0u32;
    while c <= 0x10FFFF {
        if let Some(ch) = char::from_u32(c) {
            assert_eq!(is_whitespace(ch), ch.is_whitespace(), "U+{:04X}", c);
        }
        c += 1;
    }
}

#[test]
fn tokens_are_the_words() {
    assert_eq!(to_tokens("one two three"), string_vec_deque(&["one", "two", "three"]));
    assert_eq!(to_tokens("  one \t two\n\nthree  "), string_vec_deque(&["one", "two", "three"]));
    assert_eq!(to_tokens(""), VecDeque::<String>::new());
    assert_eq!(to_tokens(" \u{3000} "), VecDeque::<String>::new());
    assert_eq!(to_tokens("a\u{a0}b"), string_vec_deque(&["a", "b"]));
    assert_eq!(split_words("héllo wörld"), string_vec(&["héllo", "wörld"]));
    for text in ["a b", " a  b ", "x", "", "\t", "1 2 +", "[ 1 2 ] { x }  \" s \""] {
        let expected: Vec<String> = text.split_whitespace().map(|s| s.to_string()).collect();
        assert_eq!(split_words(text), expected);
    }
}

#[test]
fn string_vec_owns_its_words() {
    assert_eq!(string_vec(&["a", "bc"]), vec!["a".to_string(), "bc".to_string()]);
    assert_eq!(string_vec(&[]), Vec::<String>::new());
}

#[test]
fn integers_are_read_as_the_language_of_the_host_reads_them() {
    for text in [
        "0", "1", "-1", "+1", "007", "-0", "+", "-", "", "12a", "a12", "1.5", "--1", "+-1", "1 ",
        "170141183460469231731687303715884105727",
        "170141183460469231731687303715884105728",
        "-170141183460469231731687303715884105728",
        "-170141183460469231731687303715884105729",
        "+170141183460469231731687303715884105727",
        "999999999999999999999999999999999999999999999999",
        "٣", "１２",
    ] {
        assert_eq!(parse_integer(text), text.parse::<i128>().ok(), "{:?}", text);
    }
}

#[test]
fn integers_are_written_in_decimal() {
    for v in [0i128, 7, -7, 10, 99, 100, -100, i128::MAX, i128::MIN, 1234567890] {
        let mut out: Vec<Glyph> = Vec::new();
        push_int(&mut out, v);
        assert_eq!(plain_string(&out), Some(format!("{}", v)));
    }
}

#[test]
fn text_with_a_float_is_no_string() {
    let mut out: Vec<Glyph> = Vec::new();
    push_str(&mut out, "ab");
    assert_eq!(plain_string(&out), Some("ab".to_string()));
    out.push(Glyph::Float(0));
    assert_eq!(plain_string(&out), None);
}

#[test]
fn primitives() {
    assert_eq!(parse_primitives(&word("1.013ui")), None);
    assert_eq!(parse_primitives(&word("True")), Some(Parsed::Bool(true)));
    assert_eq!(parse_primitives(&word("False")), Some(Parsed::Bool(false)));
    assert_eq!(parse_primitives(&word("true")), None);
    assert_eq!(parse_primitives(&word("12")), Some(Parsed::Num(Numeric::Integer(12))));
    // an integer stays an integer though it reads as a float too
    let three = Lexeme { text: "3".to_string(), float: Some(3.0f64.to_bits()) };
    assert_eq!(parse_primitives(&three), Some(Parsed::Num(Numeric::Integer(3))));
    let half = Lexeme { text: "0.5".to_string(), float: Some(0.5f64.to_bits()) };
    assert_eq!(parse_primitives(&half), Some(Parsed::Num(Numeric::Float(0.5f64.to_bits()))));
}

#[test]
fn operations() {
    assert_eq!(parse_operations("+"), Some(Parsed::Function(Op::Add)));
    assert_eq!(parse_operations("plus"), None);
    assert_eq!(parse_operations("()"), None);
}

#[test]
fn operator_names() {
    let all = [
        (Op::IOPrint, "print"), (Op::IORead, "read"), (Op::ParseInt, "parseInteger"),
        (Op::ParseFloat, "parseFloat"), (Op::ParseWords, "words"), (Op::Add, "+"),
        (Op::Sub, "-"), (Op::Mul, "*"), (Op::Div, "/"), (Op::IntDiv, "div"), (Op::LT, "<"),
        (Op::GT, ">"), (Op::EQ, "=="), (Op::And, "&&"), (Op::Or, "||"), (Op::Not, "not"),
        (Op::Head, "head"), (Op::Tail, "tail"), (Op::Empty, "empty"), (Op::Length, "length"),
        (Op::Cons, "cons"), (Op::Append, "append"), (Op::Each, "each"), (Op::MapList, "map"),
        (Op::Foldl, "foldl"), (Op::If, "if"), (Op::Loop, "loop"), (Op::Times, "times"),
        (Op::Exec, "exec"), (Op::Assign, ":="), (Op::AssignFunc, "fun"), (Op::AsSymbol, "'"),
        (Op::EvalSymbol, "eval"), (Op::Pop, "pop"), (Op::Swap, "swap"), (Op::Dup, "dup"),
    ];
    for (op, name) in all {
        assert_eq!(Op::from_str(name), Ok(op));
        assert_eq!(op.to_string(), name);
    }
    assert_eq!(Op::Void.to_string(), "()");
    assert_eq!(Op::from_str("nope"), Err("unknown operation: nope".to_string()));
}

#[test]
fn sections() {
    let mut tokens = string_vec_deque(&["this", "\"", "remainder"]);
    assert_eq!(get_section(&mut tokens, "\""), Some(vec!["this".to_string()]));
    assert_eq!(tokens, string_vec_deque(&["remainder"]));
    let mut tokens = string_vec_deque(&["this", "remainder"]);
    assert_eq!(get_section(&mut tokens, "\""), None);
    assert_eq!(tokens.len(), 0);
    let mut tokens = string_vec_deque(&["|", "a"]);
    assert_eq!(get_section(&mut tokens, "|"), Some(vec![]));
    assert_eq!(tokens, string_vec_deque(&["a"]));
}

#[test]
fn parsing() {
    let mut tokens = words_of("{ 1 + }");
    let expected = Parsed::Quotation(vec![Parsed::Num(Numeric::Integer(1)), Parsed::Function(Op::Add)]);
    assert_eq!(parse(&mut tokens), Ok(vec![expected]));

    let mut tokens = words_of("True");
    assert_eq!(parse_to_quotation(&mut tokens), Ok(Parsed::Quotation(vec![Parsed::Bool(true)])));

    let mut tokens = words_of("[ 1 [ x ] ] \" a  b \" \" \" y");
    assert_eq!(
        parse(&mut tokens),
        Ok(vec![
            Parsed::List(vec![
                Parsed::Num(Numeric::Integer(1)),
                Parsed::List(vec![Parsed::Symbol("x".to_string())])
            ]),
            Parsed::String("a b".to_string()),
            Parsed::String("".to_string()),
            Parsed::Symbol("y".to_string()),
        ])
    );
    // a closing bracket ends the parse and stays out of the result
    let mut tokens = words_of("1 ] 2");
    assert_eq!(parse(&mut tokens), Ok(vec![Parsed::Num(Numeric::Integer(1))]));
    assert_eq!(tokens, words_of("2"));
    // a bracket left open is closed by the end
    let mut tokens = words_of("{ 1 [ 2");
    assert_eq!(
        parse(&mut tokens),
        Ok(vec![Parsed::Quotation(vec![
            Parsed::Num(Numeric::Integer(1)),
            Parsed::List(vec![Parsed::Num(Numeric::Integer(2))])
        ])])
    );
    // inside a string nothing is read
    let mut tokens = words_of("\" 1 + { \"");
    assert_eq!(parse(&mut tokens), Ok(vec![Parsed::String("1 + {".to_string())]));
    // without a reading as a float, a float is a symbol
    let mut tokens = words_of("1.5");
    assert_eq!(parse(&mut tokens), Ok(vec![Parsed::Symbol("1.5".to_string())]));
}

#[test]
fn numbers_from_lexemes() {
    assert_eq!(Numeric::from_str(&word("12")), Ok(Numeric::Integer(12)));
    let half = Lexeme { text: ".5".to_string(), float: Some(0.5f64.to_bits()) };
    assert_eq!(Numeric::from_str(&half), Ok(Numeric::Float(0.5f64.to_bits())));
    assert_eq!(Numeric::from_str(&word("x")), Err("not parsable as Numeric".to_string()));
}
