//! The built-in operators: their names, their signatures and what they do.

use crate::interpreter::{Binding, BindingView, Bindings};
use crate::numeric::{FloatOp, Numeric, NumericView};
use crate::parsed::{
    lemma_list_view,
    lemma_quotation_view,
    lemma_views_push,
    no_coercion,
    single,
    views,
    Outcome,
    OutcomeView,
    Parsed,
    Request,
    RequestView,
    Value,
};
use crate::parsing::{integer_value, parse_integer};
use crate::stack_error::{StackError, StackErrorView};
use crate::types::{
    coercion_target,
    heterogeneous_binary,
    homogenous_binary,
    nullary,
    numeric_coercion,
    unary,
    Constraint,
    Params,
    Signature,
    Type,
};
use crate::utility::{split_words, texts, words};
use vstd::prelude::*;
use vstd::string::StringExecFns;

verus! {

/// A built-in operator.
#[derive(Clone, Copy, PartialEq, Eq, Structural, Debug)]
pub enum Op {
    Void,
    IOPrint,
    IORead,
    ParseInt,
    ParseFloat,
    ParseWords,
    Add,
    Sub,
    Mul,
    Div,
    IntDiv,
    LT,
    GT,
    EQ,
    And,
    Or,
    Not,
    Head,
    Tail,
    Empty,
    Length,
    Cons,
    Append,
    Each,
    MapList,
    Foldl,
    If,
    Loop,
    Times,
    Exec,
    Assign,
    AssignFunc,
    AsSymbol,
    EvalSymbol,
    Dup,
    Swap,
    Pop,
}

/// The operator that a word names, if it names one. `Op::Void` has no name in
/// a program.
pub open spec fn op_named(s: Seq<char>) -> Option<Op> {
    if s == "print"@ {
        Some(Op::IOPrint)
    } else if s == "read"@ {
        Some(Op::IORead)
    } else if s == "parseInteger"@ {
        Some(Op::ParseInt)
    } else if s == "parseFloat"@ {
        Some(Op::ParseFloat)
    } else if s == "words"@ {
        Some(Op::ParseWords)
    } else if s == "+"@ {
        Some(Op::Add)
    } else if s == "-"@ {
        Some(Op::Sub)
    } else if s == "*"@ {
        Some(Op::Mul)
    } else if s == "/"@ {
        Some(Op::Div)
    } else if s == "div"@ {
        Some(Op::IntDiv)
    } else if s == "<"@ {
        Some(Op::LT)
    } else if s == ">"@ {
        Some(Op::GT)
    } else if s == "=="@ {
        Some(Op::EQ)
    } else if s == "&&"@ {
        Some(Op::And)
    } else if s == "||"@ {
        Some(Op::Or)
    } else if s == "not"@ {
        Some(Op::Not)
    } else if s == "head"@ {
        Some(Op::Head)
    } else if s == "tail"@ {
        Some(Op::Tail)
    } else if s == "empty"@ {
        Some(Op::Empty)
    } else if s == "length"@ {
        Some(Op::Length)
    } else if s == "cons"@ {
        Some(Op::Cons)
    } else if s == "append"@ {
        Some(Op::Append)
    } else if s == "each"@ {
        Some(Op::Each)
    } else if s == "map"@ {
        Some(Op::MapList)
    } else if s == "foldl"@ {
        Some(Op::Foldl)
    } else if s == "if"@ {
        Some(Op::If)
    } else if s == "loop"@ {
        Some(Op::Loop)
    } else if s == "times"@ {
        Some(Op::Times)
    } else if s == "exec"@ {
        Some(Op::Exec)
    } else if s == ":="@ {
        Some(Op::Assign)
    } else if s == "fun"@ {
        Some(Op::AssignFunc)
    } else if s == "'"@ {
        Some(Op::AsSymbol)
    } else if s == "eval"@ {
        Some(Op::EvalSymbol)
    } else if s == "dup"@ {
        Some(Op::Dup)
    } else if s == "swap"@ {
        Some(Op::Swap)
    } else if s == "pop"@ {
        Some(Op::Pop)
    } else {
        None
    }
}

impl Op {
    /// The operator's name.
    pub open spec fn name(self) -> Seq<char> {
        match self {
            Op::Void => "()"@,
            Op::IOPrint => "print"@,
            Op::IORead => "read"@,
            Op::ParseInt => "parseInteger"@,
            Op::ParseFloat => "parseFloat"@,
            Op::ParseWords => "words"@,
            Op::Add => "+"@,
            Op::Sub => "-"@,
            Op::Mul => "*"@,
            Op::Div => "/"@,
            Op::IntDiv => "div"@,
            Op::LT => "<"@,
            Op::GT => ">"@,
            Op::EQ => "=="@,
            Op::And => "&&"@,
            Op::Or => "||"@,
            Op::Not => "not"@,
            Op::Head => "head"@,
            Op::Tail => "tail"@,
            Op::Empty => "empty"@,
            Op::Length => "length"@,
            Op::Cons => "cons"@,
            Op::Append => "append"@,
            Op::Each => "each"@,
            Op::MapList => "map"@,
            Op::Foldl => "foldl"@,
            Op::If => "if"@,
            Op::Loop => "loop"@,
            Op::Times => "times"@,
            Op::Exec => "exec"@,
            Op::Assign => ":="@,
            Op::AssignFunc => "fun"@,
            Op::AsSymbol => "'"@,
            Op::EvalSymbol => "eval"@,
            Op::Dup => "dup"@,
            Op::Swap => "swap"@,
            Op::Pop => "pop"@,
        }
    }

    /// The operator's name.
    pub fn to_string(&self) -> (r: String)
        ensures
            r@ == self.name(),
    {
        match self {
            Op::Void => String::from_str("()"),
            Op::IOPrint => String::from_str("print"),
            Op::IORead => String::from_str("read"),
            Op::ParseInt => String::from_str("parseInteger"),
            Op::ParseFloat => String::from_str("parseFloat"),
            Op::ParseWords => String::from_str("words"),
            Op::Add => String::from_str("+"),
            Op::Sub => String::from_str("-"),
            Op::Mul => String::from_str("*"),
            Op::Div => String::from_str("/"),
            Op::IntDiv => String::from_str("div"),
            Op::LT => String::from_str("<"),
            Op::GT => String::from_str(">"),
            Op::EQ => String::from_str("=="),
            Op::And => String::from_str("&&"),
            Op::Or => String::from_str("||"),
            Op::Not => String::from_str("not"),
            Op::Head => String::from_str("head"),
            Op::Tail => String::from_str("tail"),
            Op::Empty => String::from_str("empty"),
            Op::Length => String::from_str("length"),
            Op::Cons => String::from_str("cons"),
            Op::Append => String::from_str("append"),
            Op::Each => String::from_str("each"),
            Op::MapList => String::from_str("map"),
            Op::Foldl => String::from_str("foldl"),
            Op::If => String::from_str("if"),
            Op::Loop => String::from_str("loop"),
            Op::Times => String::from_str("times"),
            Op::Exec => String::from_str("exec"),
            Op::Assign => String::from_str(":="),
            Op::AssignFunc => String::from_str("fun"),
            Op::AsSymbol => String::from_str("'"),
            Op::EvalSymbol => String::from_str("eval"),
            Op::Dup => String::from_str("dup"),
            Op::Swap => String::from_str("swap"),
            Op::Pop => String::from_str("pop"),
        }
    }

    /// The operator that `s` names. A word that names none is refused, with a
    /// message that holds the word.
    pub fn from_str(s: &str) -> (r: Result<Op, String>)
        ensures
            match op_named(s@) {
                Some(op) => r == Ok::<Op, String>(op),
                None => r is Err && r->Err_0@ == "unknown operation: "@ + s@,
            },
    {
        let word = String::from_str(s);
        if word == String::from_str("print") {
            Ok(Op::IOPrint)
        } else if word == String::from_str("read") {
            Ok(Op::IORead)
        } else if word == String::from_str("parseInteger") {
            Ok(Op::ParseInt)
        } else if word == String::from_str("parseFloat") {
            Ok(Op::ParseFloat)
        } else if word == String::from_str("words") {
            Ok(Op::ParseWords)
        } else if word == String::from_str("+") {
            Ok(Op::Add)
        } else if word == String::from_str("-") {
            Ok(Op::Sub)
        } else if word == String::from_str("*") {
            Ok(Op::Mul)
        } else if word == String::from_str("/") {
            Ok(Op::Div)
        } else if word == String::from_str("div") {
            Ok(Op::IntDiv)
        } else if word == String::from_str("<") {
            Ok(Op::LT)
        } else if word == String::from_str(">") {
            Ok(Op::GT)
        } else if word == String::from_str("==") {
            Ok(Op::EQ)
        } else if word == String::from_str("&&") {
            Ok(Op::And)
        } else if word == String::from_str("||") {
            Ok(Op::Or)
        } else if word == String::from_str("not") {
            Ok(Op::Not)
        } else if word == String::from_str("head") {
            Ok(Op::Head)
        } else if word == String::from_str("tail") {
            Ok(Op::Tail)
        } else if word == String::from_str("empty") {
            Ok(Op::Empty)
        } else if word == String::from_str("length") {
            Ok(Op::Length)
        } else if word == String::from_str("cons") {
            Ok(Op::Cons)
        } else if word == String::from_str("append") {
            Ok(Op::Append)
        } else if word == String::from_str("each") {
            Ok(Op::Each)
        } else if word == String::from_str("map") {
            Ok(Op::MapList)
        } else if word == String::from_str("foldl") {
            Ok(Op::Foldl)
        } else if word == String::from_str("if") {
            Ok(Op::If)
        } else if word == String::from_str("loop") {
            Ok(Op::Loop)
        } else if word == String::from_str("times") {
            Ok(Op::Times)
        } else if word == String::from_str("exec") {
            Ok(Op::Exec)
        } else if word == String::from_str(":=") {
            Ok(Op::Assign)
        } else if word == String::from_str("fun") {
            Ok(Op::AssignFunc)
        } else if word == String::from_str("'") {
            Ok(Op::AsSymbol)
        } else if word == String::from_str("eval") {
            Ok(Op::EvalSymbol)
        } else if word == String::from_str("dup") {
            Ok(Op::Dup)
        } else if word == String::from_str("swap") {
            Ok(Op::Swap)
        } else if word == String::from_str("pop") {
            Ok(Op::Pop)
        } else {
            let mut message = String::from_str("unknown operation: ");
            message.append(s);
            Err(message)
        }
    }

    /// The signature of each operator.
    pub open spec fn signature(self) -> Signature {
        match self {
            Op::Void => sig(Params::Nullary, Params::Nullary, Constraint::Void),
            Op::IOPrint => sig(
                Params::Unary(Constraint::Display),
                Params::Nullary,
                Constraint::Void,
            ),
            Op::IORead => sig(Params::Nullary, Params::Nullary, Constraint::String),
            Op::ParseInt => sig(
                Params::Unary(Constraint::String),
                Params::Nullary,
                Constraint::Integer,
            ),
            Op::ParseFloat => sig(
                Params::Unary(Constraint::String),
                Params::Nullary,
                Constraint::Float,
            ),
            Op::ParseWords => sig(
                Params::Unary(Constraint::String),
                Params::Nullary,
                Constraint::List,
            ),
            Op::Add | Op::Sub | Op::Mul | Op::Div => sig(
                Params::Binary(Constraint::Num, Constraint::Num),
                Params::Nullary,
                Constraint::Num,
            ),
            Op::IntDiv => sig(
                Params::Binary(Constraint::Integer, Constraint::Integer),
                Params::Nullary,
                Constraint::Integer,
            ),
            Op::LT | Op::GT => sig(
                Params::Binary(Constraint::Ord, Constraint::Ord),
                Params::Nullary,
                Constraint::Bool,
            ),
            Op::EQ => sig(
                Params::Binary(Constraint::Eq, Constraint::Eq),
                Params::Nullary,
                Constraint::Bool,
            ),
            Op::And | Op::Or => sig(
                Params::Binary(Constraint::Boolean, Constraint::Boolean),
                Params::Nullary,
                Constraint::Bool,
            ),
            Op::Not => sig(Params::Unary(Constraint::Num), Params::Nullary, Constraint::Num),
            Op::Head => sig(Params::Unary(Constraint::List), Params::Nullary, Constraint::Any),
            Op::Tail => sig(Params::Unary(Constraint::List), Params::Nullary, Constraint::List),
            Op::Empty => sig(Params::Unary(Constraint::List), Params::Nullary, Constraint::Bool),
            Op::Length => sig(
                Params::Unary(Constraint::Sized),
                Params::Nullary,
                Constraint::Integer,
            ),
            Op::Cons => sig(
                Params::Binary(Constraint::Any, Constraint::List),
                Params::Nullary,
                Constraint::List,
            ),
            Op::Append => sig(
                Params::Binary(Constraint::List, Constraint::List),
                Params::Nullary,
                Constraint::List,
            ),
            Op::Each => sig(
                Params::Unary(Constraint::List),
                Params::Unary(Constraint::Executable),
                Constraint::Any,
            ),
            Op::MapList => sig(
                Params::Unary(Constraint::List),
                Params::Unary(Constraint::Executable),
                Constraint::Quotation,
            ),
            Op::Foldl => sig(
                Params::Binary(Constraint::List, Constraint::Any),
                Params::Unary(Constraint::Executable),
                Constraint::Executable,
            ),
            Op::If => sig(
                Params::Unary(Constraint::Boolean),
                Params::Binary(Constraint::Any, Constraint::Any),
                Constraint::Any,
            ),
            Op::Loop => sig(Params::Nullary, Params::Nullary, Constraint::Void),
            Op::Times => sig(
                Params::Unary(Constraint::Integer),
                Params::Unary(Constraint::Executable),
                Constraint::Any,
            ),
            Op::Exec => sig(
                Params::Unary(Constraint::Executable),
                Params::Nullary,
                Constraint::Executable,
            ),
            Op::Assign => sig(
                Params::Binary(Constraint::Symbol, Constraint::Any),
                Params::Nullary,
                Constraint::Void,
            ),
            Op::AssignFunc => sig(
                Params::Binary(Constraint::Symbol, Constraint::Quotation),
                Params::Nullary,
                Constraint::Void,
            ),
            Op::AsSymbol => sig(
                Params::Nullary,
                Params::Unary(Constraint::Any),
                Constraint::Symbol,
            ),
            Op::EvalSymbol => sig(
                Params::Unary(Constraint::Symbol),
                Params::Nullary,
                Constraint::Any,
            ),
            Op::Dup => sig(Params::Unary(Constraint::Any), Params::Nullary, Constraint::Any),
            Op::Swap => sig(
                Params::Binary(Constraint::Any, Constraint::Any),
                Params::Nullary,
                Constraint::Any,
            ),
            Op::Pop => sig(Params::Unary(Constraint::Any), Params::Nullary, Constraint::Void),
        }
    }

    /// The operator's signature.
    pub fn get_signature(&self) -> (r: Signature)
        ensures
            r == self.signature(),
    {
        match self {
            Op::Void => Self::get_void_sig(),
            Op::IOPrint => Self::get_print_sig(),
            Op::IORead => Self::get_read_sig(),
            Op::ParseInt => Self::get_parse_int_sig(),
            Op::ParseFloat => Self::get_parse_float_sig(),
            Op::ParseWords => Self::get_words_sig(),
            Op::Add | Op::Sub | Op::Mul | Op::Div => Self::get_arithmetic_sig(),
            Op::IntDiv => Self::get_intdiv_sig(),
            Op::LT | Op::GT => Self::get_ord_sig(),
            Op::EQ => Self::get_eq_sig(),
            Op::And | Op::Or => Self::get_and_or_sig(),
            Op::Not => Self::get_not_sig(),
            Op::Head => Self::get_head_sig(),
            Op::Tail => Self::get_tail_sig(),
            Op::Empty => Self::get_empty_sig(),
            Op::Length => Self::get_length_sig(),
            Op::Cons => Self::get_cons_sig(),
            Op::Append => Self::get_append_sig(),
            Op::Each => Self::get_each_sig(),
            Op::MapList => Self::get_map_sig(),
            Op::Foldl => Self::get_foldl_sig(),
            Op::If => Self::get_if_sig(),
            Op::Loop => Self::get_loop_sig(),
            Op::Times => Self::get_times_sig(),
            Op::Exec => Self::get_exec_sig(),
            Op::Assign => Self::get_assign_sig(),
            Op::AssignFunc => Self::get_assign_func_sig(),
            Op::AsSymbol => Self::get_as_symbol_sig(),
            Op::EvalSymbol => Self::get_eval_symbol_sig(),
            Op::Dup => Self::get_dup_sig(),
            Op::Swap => Self::get_swap_sig(),
            Op::Pop => Self::get_pop_sig(),
        }
    }

    /// The signature of the unnamed operator.
    pub fn get_void_sig() -> (r: Signature)
        ensures
            r == Op::Void.signature(),
    {
        nullary(Constraint::Void)
    }

    /// The signature of `print`.
    pub fn get_print_sig() -> (r: Signature)
        ensures
            r == Op::IOPrint.signature(),
    {
        unary(Constraint::Display, Constraint::Void)
    }

    /// The signature of `read`.
    pub fn get_read_sig() -> (r: Signature)
        ensures
            r == Op::IORead.signature(),
    {
        nullary(Constraint::String)
    }

    /// The signature of `parseInteger`.
    pub fn get_parse_int_sig() -> (r: Signature)
        ensures
            r == Op::ParseInt.signature(),
    {
        unary(Constraint::String, Constraint::Integer)
    }

    /// The signature of `parseFloat`.
    pub fn get_parse_float_sig() -> (r: Signature)
        ensures
            r == Op::ParseFloat.signature(),
    {
        unary(Constraint::String, Constraint::Float)
    }

    /// The signature of `words`.
    pub fn get_words_sig() -> (r: Signature)
        ensures
            r == Op::ParseWords.signature(),
    {
        unary(Constraint::String, Constraint::List)
    }

    /// The signature of `+`, `-`, `*` and `/`.
    pub fn get_arithmetic_sig() -> (r: Signature)
        ensures
            r == Op::Add.signature(),
    {
        homogenous_binary(Constraint::Num, Constraint::Num)
    }

    /// The signature of `div`.
    pub fn get_intdiv_sig() -> (r: Signature)
        ensures
            r == Op::IntDiv.signature(),
    {
        homogenous_binary(Constraint::Integer, Constraint::Integer)
    }

    /// The signature of `<` and `>`.
    pub fn get_ord_sig() -> (r: Signature)
        ensures
            r == Op::LT.signature(),
    {
        homogenous_binary(Constraint::Ord, Constraint::Bool)
    }

    /// The signature of `==`.
    pub fn get_eq_sig() -> (r: Signature)
        ensures
            r == Op::EQ.signature(),
    {
        homogenous_binary(Constraint::Eq, Constraint::Bool)
    }

    /// The signature of `&&` and `||`.
    pub fn get_and_or_sig() -> (r: Signature)
        ensures
            r == Op::And.signature(),
    {
        homogenous_binary(Constraint::Boolean, Constraint::Bool)
    }

    /// The signature of `not`.
    pub fn get_not_sig() -> (r: Signature)
        ensures
            r == Op::Not.signature(),
    {
        unary(Constraint::Num, Constraint::Num)
    }

    /// The signature of `head`.
    pub fn get_head_sig() -> (r: Signature)
        ensures
            r == Op::Head.signature(),
    {
        unary(Constraint::List, Constraint::Any)
    }

    /// The signature of `tail`.
    pub fn get_tail_sig() -> (r: Signature)
        ensures
            r == Op::Tail.signature(),
    {
        unary(Constraint::List, Constraint::List)
    }

    /// The signature of `empty`.
    pub fn get_empty_sig() -> (r: Signature)
        ensures
            r == Op::Empty.signature(),
    {
        unary(Constraint::List, Constraint::Bool)
    }

    /// The signature of `length`.
    pub fn get_length_sig() -> (r: Signature)
        ensures
            r == Op::Length.signature(),
    {
        unary(Constraint::Sized, Constraint::Integer)
    }

    /// The signature of `cons`.
    pub fn get_cons_sig() -> (r: Signature)
        ensures
            r == Op::Cons.signature(),
    {
        heterogeneous_binary(Constraint::Any, Constraint::List, Constraint::List)
    }

    /// The signature of `append`.
    pub fn get_append_sig() -> (r: Signature)
        ensures
            r == Op::Append.signature(),
    {
        homogenous_binary(Constraint::List, Constraint::List)
    }

    /// The signature of `each`.
    pub fn get_each_sig() -> (r: Signature)
        ensures
            r == Op::Each.signature(),
    {
        let mut sig = unary(Constraint::List, Constraint::Any);
        sig.modifiers = Params::Unary(Constraint::Executable);
        sig
    }

    /// The signature of `map`.
    pub fn get_map_sig() -> (r: Signature)
        ensures
            r == Op::MapList.signature(),
    {
        let mut sig = unary(Constraint::List, Constraint::Quotation);
        sig.modifiers = Params::Unary(Constraint::Executable);
        sig
    }

    /// The signature of `foldl`.
    pub fn get_foldl_sig() -> (r: Signature)
        ensures
            r == Op::Foldl.signature(),
    {
        let mut sig = heterogeneous_binary(
            Constraint::List,
            Constraint::Any,
            Constraint::Executable,
        );
        sig.modifiers = Params::Unary(Constraint::Executable);
        sig
    }

    /// The signature of `if`.
    pub fn get_if_sig() -> (r: Signature)
        ensures
            r == Op::If.signature(),
    {
        let mut sig = unary(Constraint::Boolean, Constraint::Any);
        sig.modifiers = Params::Binary(Constraint::Any, Constraint::Any);
        sig
    }

    /// The signature of `loop`.
    pub fn get_loop_sig() -> (r: Signature)
        ensures
            r == Op::Loop.signature(),
    {
        nullary(Constraint::Void)
    }

    /// The signature of `times`.
    pub fn get_times_sig() -> (r: Signature)
        ensures
            r == Op::Times.signature(),
    {
        let mut sig = unary(Constraint::Integer, Constraint::Any);
        sig.modifiers = Params::Unary(Constraint::Executable);
        sig
    }

    /// The signature of `exec`.
    pub fn get_exec_sig() -> (r: Signature)
        ensures
            r == Op::Exec.signature(),
    {
        unary(Constraint::Executable, Constraint::Executable)
    }

    /// The signature of `:=`.
    pub fn get_assign_sig() -> (r: Signature)
        ensures
            r == Op::Assign.signature(),
    {
        heterogeneous_binary(Constraint::Symbol, Constraint::Any, Constraint::Void)
    }

    /// The signature of `fun`.
    pub fn get_assign_func_sig() -> (r: Signature)
        ensures
            r == Op::AssignFunc.signature(),
    {
        heterogeneous_binary(Constraint::Symbol, Constraint::Quotation, Constraint::Void)
    }

    /// The signature of `'`.
    pub fn get_as_symbol_sig() -> (r: Signature)
        ensures
            r == Op::AsSymbol.signature(),
    {
        let mut sig = nullary(Constraint::Symbol);
        sig.modifiers = Params::Unary(Constraint::Any);
        sig
    }

    /// The signature of `eval`.
    pub fn get_eval_symbol_sig() -> (r: Signature)
        ensures
            r == Op::EvalSymbol.signature(),
    {
        unary(Constraint::Symbol, Constraint::Any)
    }

    /// The signature of `dup`.
    pub fn get_dup_sig() -> (r: Signature)
        ensures
            r == Op::Dup.signature(),
    {
        unary(Constraint::Any, Constraint::Any)
    }

    /// The signature of `swap`.
    pub fn get_swap_sig() -> (r: Signature)
        ensures
            r == Op::Swap.signature(),
    {
        heterogeneous_binary(Constraint::Any, Constraint::Any, Constraint::Any)
    }

    /// The signature of `pop`.
    pub fn get_pop_sig() -> (r: Signature)
        ensures
            r == Op::Pop.signature(),
    {
        unary(Constraint::Any, Constraint::Void)
    }
}

/// A signature from its three parts.
pub open spec fn sig(stack_args: Params, modifiers: Params, ret: Constraint) -> Signature {
    Signature { stack_args, modifiers, ret }
}

/// The modifiers handed to an operator: the values it takes from the pending
/// input.
#[derive(Debug, PartialEq)]
pub enum Modifiers {
    Nullary,
    Unary(Parsed),
    Binary(Parsed, Parsed),
}

/// The mathematical value of `Modifiers`.
pub enum ModifiersView {
    Nullary,
    Unary(Value),
    Binary(Value, Value),
}

impl View for Modifiers {
    type V = ModifiersView;

    open spec fn view(&self) -> ModifiersView {
        match self {
            Modifiers::Nullary => ModifiersView::Nullary,
            Modifiers::Unary(a) => ModifiersView::Unary(a@),
            Modifiers::Binary(a, b) => ModifiersView::Binary(a@, b@),
        }
    }
}

/// The value that tells an operator has no meaning.
pub open spec fn undefined() -> Value {
    Value::Error(StackErrorView::Undefined)
}

/// A string as a value.
pub open spec fn string_value(s: Seq<char>) -> Value {
    Value::String(s)
}

/// Strings as values.
pub open spec fn string_values(ws: Seq<Seq<char>>) -> Seq<Value> {
    Seq::new(ws.len(), |i: int| string_value(ws[i]))
}

/// The two operands of arithmetic after promotion: where their common type
/// is a number type, both are turned into it; otherwise they stay.
pub open spec fn promoted(l: Value, r: Value) -> (Value, Value) {
    match coercion_target(l.type_of(), r.type_of()) {
        Some(Type::Integer) => (l.coerce(Type::Integer), r.coerce(Type::Integer)),
        Some(Type::Float) => (l.coerce(Type::Float), r.coerce(Type::Float)),
        _ => (l, r),
    }
}

/// The program of `each` over the first `n` items: each item, then the
/// modifier, then `exec`.
pub open spec fn each_program(items: Seq<Value>, q: Value, n: nat) -> Seq<Value>
    decreases n,
{
    if n == 0 || n > items.len() {
        Seq::empty()
    } else {
        each_program(items, q, (n - 1) as nat) + seq![items[n - 1], q, Value::Function(Op::Exec)]
    }
}

/// The program of `map` over the first `n` items: each item, the modifier and
/// `exec`, then what puts the result at the end of the list built so far.
pub open spec fn map_program(items: Seq<Value>, q: Value, n: nat) -> Seq<Value>
    decreases n,
{
    if n == 0 || n > items.len() {
        Seq::empty()
    } else {
        map_program(items, q, (n - 1) as nat) + seq![
            items[n - 1],
            q,
            Value::Function(Op::Exec),
            Value::List(Seq::empty()),
            Value::Function(Op::Cons),
            Value::Function(Op::Append),
        ]
    }
}

/// The program of `times`: the modifier and `exec`, `n` times over.
pub open spec fn times_program(q: Value, n: nat) -> Seq<Value>
    decreases n,
{
    if n == 0 {
        Seq::empty()
    } else {
        times_program(q, (n - 1) as nat) + seq![q, Value::Function(Op::Exec)]
    }
}

/// What each operator gives. These are the operators' meanings: the `exec_`
/// functions below compute them.
impl Op {
    /// `print`: the text of the value is to be written out.
    pub open spec fn print(arg: Value) -> OutcomeView {
        OutcomeView::Ask(RequestView::Print(arg.text(false)))
    }

    /// `parseInteger`: the integer that a string spells, or `Overflow`.
    pub open spec fn parse_int(arg: Value) -> Value {
        match arg {
            Value::String(s) => match integer_value(s) {
                Some(v) => Value::Num(NumericView::Integer(v)),
                None => Value::Error(StackErrorView::Overflow),
            },
            _ => no_coercion(),
        }
    }

    /// `parseFloat`: the string is to be read as a float.
    pub open spec fn parse_float(arg: Value) -> OutcomeView {
        match arg {
            Value::String(s) => OutcomeView::Ask(RequestView::ParseFloat(s)),
            _ => OutcomeView::Value(no_coercion()),
        }
    }

    /// `words`: the words of a string, as a list of strings.
    pub open spec fn split(arg: Value) -> Value {
        match arg {
            Value::String(s) => Value::List(string_values(words(s))),
            _ => no_coercion(),
        }
    }

    /// `+`: the sum of the operands after promotion.
    pub open spec fn sum(lhs: Value, rhs: Value) -> OutcomeView {
        promoted(lhs, rhs).0.add(promoted(lhs, rhs).1)
    }

    /// `-`: the difference of the operands after promotion.
    pub open spec fn difference(lhs: Value, rhs: Value) -> OutcomeView {
        promoted(lhs, rhs).0.arith(promoted(lhs, rhs).1, FloatOp::Sub)
    }

    /// `*`: the product of the operands after promotion.
    pub open spec fn product(lhs: Value, rhs: Value) -> OutcomeView {
        promoted(lhs, rhs).0.arith(promoted(lhs, rhs).1, FloatOp::Mul)
    }

    /// `/`: the quotient of the operands as floats.
    pub open spec fn ratio(lhs: Value, rhs: Value) -> OutcomeView {
        lhs.coerce(Type::Float).arith(rhs.coerce(Type::Float), FloatOp::Div)
    }

    /// `div`: the quotient of the operands as integers, towards zero.
    pub open spec fn int_ratio(lhs: Value, rhs: Value) -> Value {
        match lhs.coerce(Type::Integer).arith(rhs.coerce(Type::Integer), FloatOp::Div) {
            OutcomeView::Value(v) => v.coerce(Type::Integer),
            OutcomeView::Ask(_) => no_coercion(),
        }
    }

    /// `empty`: whether the size of the operand equals 0.
    pub open spec fn is_empty(arg: Value) -> Value {
        Value::Bool(arg.size().equals(Value::Num(NumericView::Integer(0))))
    }

    /// `head`: the first item of a list, or `HeadEmpty`.
    pub open spec fn head(arg: Value) -> Value {
        match arg {
            Value::List(l) => if l.len() > 0 {
                l[0]
            } else {
                Value::Error(StackErrorView::HeadEmpty)
            },
            _ => no_coercion(),
        }
    }

    /// `tail`: a list without its first item, or `TailEmpty`.
    pub open spec fn tail(arg: Value) -> Value {
        match arg {
            Value::List(l) => if l.len() > 0 {
                Value::List(l.subrange(1, l.len() as int))
            } else {
                Value::Error(StackErrorView::TailEmpty)
            },
            _ => no_coercion(),
        }
    }

    /// `cons`: the list with the value put in front.
    pub open spec fn cons(lhs: Value, rhs: Value) -> OutcomeView {
        Value::List(seq![lhs]).add(rhs)
    }

    /// `dup`: a quotation that puts the value back twice.
    pub open spec fn dup(arg: Value) -> Value {
        Value::Quotation(seq![arg, arg])
    }

    /// `swap`: a quotation that puts the two values back the other way round.
    pub open spec fn swap(lhs: Value, rhs: Value) -> Value {
        Value::Quotation(seq![rhs, lhs])
    }

    /// `exec`: the value as a quotation, to be run.
    pub open spec fn force(arg: Value) -> Value {
        match arg.coerce(Type::Quotation) {
            Value::Quotation(q) => Value::Quotation(q),
            _ => undefined(),
        }
    }

    /// `if`: the first modifier where the operand is `True`, the second where
    /// it is anything else, as a quotation.
    pub open spec fn choose_branch(arg: Value, c: ModifiersView) -> Value {
        match c {
            ModifiersView::Binary(then_branch, else_branch) => if arg.equals(Value::Bool(true)) {
                then_branch.coerce(Type::Quotation)
            } else {
                else_branch.coerce(Type::Quotation)
            },
            _ => undefined(),
        }
    }

    /// `times`: a quotation that runs the modifier as often as the operand
    /// says; not at all for a count below 1.
    pub open spec fn times(arg: Value, c: ModifiersView) -> Value {
        match (c, arg) {
            (ModifiersView::Unary(q), Value::Num(NumericView::Integer(n))) => Value::Quotation(
                times_program(
                    q.coerce(Type::Quotation),
                    if n > 0 {
                        n as nat
                    } else {
                        0
                    },
                ),
            ),
            _ => undefined(),
        }
    }

    /// `map`: a quotation that starts from the empty list and puts at its end
    /// what the modifier makes of each item.
    pub open spec fn map_each(arg: Value, c: ModifiersView) -> Value {
        match c {
            ModifiersView::Unary(q) => {
                let items = match arg.contents() {
                    Some(items) => items,
                    None => Seq::empty(),
                };
                Value::Quotation(
                    seq![Value::List(Seq::empty())] + map_program(
                        items,
                        q.coerce(Type::Quotation),
                        items.len(),
                    ),
                )
            },
            _ => undefined(),
        }
    }

    /// `each`: a quotation that runs the modifier on each item.
    pub open spec fn each(arg: Value, c: ModifiersView) -> Value {
        match c {
            ModifiersView::Unary(q) => {
                let items = match arg.contents() {
                    Some(items) => items,
                    None => Seq::empty(),
                };
                Value::Quotation(each_program(items, q.coerce(Type::Quotation), items.len()))
            },
            _ => undefined(),
        }
    }

    /// `foldl`: a quotation that starts from the seed and runs the modifier on
    /// each item.
    pub open spec fn foldl(lhs: Value, rhs: Value, c: ModifiersView) -> Value {
        match c {
            ModifiersView::Unary(q) => {
                let items = match lhs.contents() {
                    Some(items) => items,
                    None => Seq::empty(),
                };
                Value::Quotation(
                    seq![rhs] + each_program(items, q.coerce(Type::Quotation), items.len()),
                )
            },
            _ => undefined(),
        }
    }

    /// `'`: the modifier, which must be a symbol.
    pub open spec fn as_symbol(c: ModifiersView) -> Value {
        match c {
            ModifiersView::Unary(m) => m.coerce(Type::Symbol),
            _ => undefined(),
        }
    }

    /// `eval`: a quotation that holds the symbol, so that it is looked up when
    /// the quotation runs.
    pub open spec fn eval_symbol(arg: Value) -> Value {
        match arg {
            Value::Symbol(_) => Value::Quotation(seq![arg]),
            _ => no_coercion(),
        }
    }

    /// The bindings after `name := value` or `name value fun`.
    pub open spec fn bound(
        lhs: Value,
        rhs: Value,
        function: bool,
        bindings: Map<Seq<char>, BindingView>,
    ) -> Map<Seq<char>, BindingView> {
        match lhs {
            Value::Symbol(name) => bindings.insert(
                name,
                BindingView { function, constant: false, value: rhs },
            ),
            _ => bindings,
        }
    }

    /// What `name := value` and `name value fun` give.
    pub open spec fn bind_result(lhs: Value) -> Value {
        match lhs {
            Value::Symbol(_) => Value::Void,
            _ => no_coercion(),
        }
    }

    /// What an operator without operands gives.
    pub open spec fn nullary(self, c: ModifiersView) -> OutcomeView {
        match self {
            Op::IORead => OutcomeView::Ask(RequestView::Read),
            Op::Void => OutcomeView::Value(Value::Void),
            Op::AsSymbol => OutcomeView::Value(Op::as_symbol(c)),
            _ => OutcomeView::Value(undefined()),
        }
    }

    /// What an operator with one operand gives.
    pub open spec fn unary(self, arg: Value, c: ModifiersView) -> OutcomeView {
        match self {
            Op::IOPrint => Op::print(arg),
            Op::ParseInt => OutcomeView::Value(Op::parse_int(arg)),
            Op::ParseFloat => Op::parse_float(arg),
            Op::ParseWords => OutcomeView::Value(Op::split(arg)),
            Op::Empty => OutcomeView::Value(Op::is_empty(arg)),
            Op::Length => OutcomeView::Value(arg.size()),
            Op::Head => OutcomeView::Value(Op::head(arg)),
            Op::Tail => OutcomeView::Value(Op::tail(arg)),
            Op::Not => OutcomeView::Value(arg.neg()),
            Op::Pop => OutcomeView::Value(Value::Void),
            Op::Dup => OutcomeView::Value(Op::dup(arg)),
            Op::Exec => OutcomeView::Value(Op::force(arg)),
            Op::If => OutcomeView::Value(Op::choose_branch(arg, c)),
            Op::Times => OutcomeView::Value(Op::times(arg, c)),
            Op::MapList => OutcomeView::Value(Op::map_each(arg, c)),
            Op::Each => OutcomeView::Value(Op::each(arg, c)),
            Op::EvalSymbol => OutcomeView::Value(Op::eval_symbol(arg)),
            _ => OutcomeView::Value(undefined()),
        }
    }

    /// What an operator with two operands gives.
    pub open spec fn binary(self, lhs: Value, rhs: Value, c: ModifiersView) -> OutcomeView {
        match self {
            Op::Add => Op::sum(lhs, rhs),
            Op::Sub => Op::difference(lhs, rhs),
            Op::Mul => Op::product(lhs, rhs),
            Op::Div => Op::ratio(lhs, rhs),
            Op::IntDiv => OutcomeView::Value(Op::int_ratio(lhs, rhs)),
            Op::GT => OutcomeView::Value(Value::Bool(rhs.less(lhs))),
            Op::LT => OutcomeView::Value(Value::Bool(lhs.less(rhs))),
            Op::EQ => OutcomeView::Value(Value::Bool(lhs.equals(rhs))),
            Op::And => OutcomeView::Value(Value::Bool(lhs.is_true() && rhs.is_true())),
            Op::Or => OutcomeView::Value(Value::Bool(lhs.is_true() || rhs.is_true())),
            Op::Append => lhs.add(rhs),
            Op::Cons => Op::cons(lhs, rhs),
            Op::Swap => OutcomeView::Value(Op::swap(lhs, rhs)),
            Op::Foldl => OutcomeView::Value(Op::foldl(lhs, rhs, c)),
            Op::Assign | Op::AssignFunc => OutcomeView::Value(Op::bind_result(lhs)),
            _ => OutcomeView::Value(undefined()),
        }
    }

    /// The bindings after an operator with two operands.
    pub open spec fn rebound(
        self,
        lhs: Value,
        rhs: Value,
        bindings: Map<Seq<char>, BindingView>,
    ) -> Map<Seq<char>, BindingView> {
        match self {
            Op::Assign => Op::bound(lhs, rhs, false, bindings),
            Op::AssignFunc => Op::bound(lhs, rhs, true, bindings),
            _ => bindings,
        }
    }
}

fn invalid() -> (r: Parsed)
    ensures
        r@ == no_coercion(),
{
    Parsed::Error(StackError::InvalidCoercion)
}

fn undefined_error() -> (r: Parsed)
    ensures
        r@ == undefined(),
{
    Parsed::Error(StackError::Undefined)
}

fn promote(lhs: &Parsed, rhs: &Parsed) -> (r: (Parsed, Parsed))
    ensures
        (r.0@, r.1@) == promoted(lhs@, rhs@),
{
    match numeric_coercion(&lhs.get_type(), &rhs.get_type()) {
        Some(Type::Integer) => (lhs.coerce(&Type::Integer), rhs.coerce(&Type::Integer)),
        Some(Type::Float) => (lhs.coerce(&Type::Float), rhs.coerce(&Type::Float)),
        _ => (lhs.clone(), rhs.clone()),
    }
}

/// Appends to `out` the program of `each` over `items`.
fn push_each(out: &mut Vec<Parsed>, items: &Vec<Parsed>, q: &Parsed)
    ensures
        views(final(out)@) == views(old(out)@) + each_program(
            views(items@),
            q@,
            items@.len() as nat,
        ),
{
    let mut i: usize = 0;
    proof {
        assert(views(out@) =~= views(old(out)@) + each_program(views(items@), q@, 0));
    }
    while i < items.len()
        invariant
            i <= items.len(),
            views(out@) == views(old(out)@) + each_program(views(items@), q@, i as nat),
        decreases items.len() - i,
    {
        let ghost before = views(out@);
        let a = items[i].clone();
        let b = q.clone();
        let c = Parsed::Function(Op::Exec);
        proof {
            lemma_views_push(out@, a);
            lemma_views_push(out@.push(a), b);
            lemma_views_push(out@.push(a).push(b), c);
            assert(before.push(a@).push(b@).push(c@) =~= views(old(out)@) + each_program(
                views(items@),
                q@,
                (i + 1) as nat,
            ));
        }
        out.push(a);
        out.push(b);
        out.push(c);
        i = i + 1;
    }
}

fn empty_list() -> (r: Parsed)
    ensures
        r@ == Value::List(Seq::empty()),
{
    let items: Vec<Parsed> = Vec::new();
    proof {
        lemma_list_view(items);
        assert(views(items@) =~= Seq::<Value>::empty());
    }
    Parsed::List(items)
}

/// Appends to `out` the program of `map` over `items`.
fn push_map(out: &mut Vec<Parsed>, items: &Vec<Parsed>, q: &Parsed)
    ensures
        views(final(out)@) == views(old(out)@) + map_program(
            views(items@),
            q@,
            items@.len() as nat,
        ),
{
    let mut i: usize = 0;
    proof {
        assert(views(out@) =~= views(old(out)@) + map_program(views(items@), q@, 0));
    }
    while i < items.len()
        invariant
            i <= items.len(),
            views(out@) == views(old(out)@) + map_program(views(items@), q@, i as nat),
        decreases items.len() - i,
    {
        let ghost before = views(out@);
        let a = items[i].clone();
        let b = q.clone();
        let c = Parsed::Function(Op::Exec);
        let d = empty_list();
        let e = Parsed::Function(Op::Cons);
        let f = Parsed::Function(Op::Append);
        proof {
            lemma_views_push(out@, a);
            lemma_views_push(out@.push(a), b);
            lemma_views_push(out@.push(a).push(b), c);
            lemma_views_push(out@.push(a).push(b).push(c), d);
            lemma_views_push(out@.push(a).push(b).push(c).push(d), e);
            lemma_views_push(out@.push(a).push(b).push(c).push(d).push(e), f);
            assert(before.push(a@).push(b@).push(c@).push(d@).push(e@).push(f@) =~= views(
                old(out)@,
            ) + map_program(views(items@), q@, (i + 1) as nat));
        }
        out.push(a);
        out.push(b);
        out.push(c);
        out.push(d);
        out.push(e);
        out.push(f);
        i = i + 1;
    }
}

fn items_of(arg: &Parsed) -> (r: Vec<Parsed>)
    ensures
        views(r@) == match arg@.contents() {
            Some(items) => items,
            None => Seq::empty(),
        },
{
    match arg.get_contents() {
        Some(items) => items,
        None => {
            let items: Vec<Parsed> = Vec::new();
            proof {
                assert(views(items@) =~= Seq::<Value>::empty());
            }
            items
        },
    }
}

fn quotation_of(items: Vec<Parsed>) -> (r: Parsed)
    ensures
        r@ == Value::Quotation(views(items@)),
{
    proof {
        lemma_quotation_view(items);
    }
    Parsed::Quotation(items)
}

impl Op {
    /// Runs an operator that takes no operand.
    pub fn exec_nullary(&self, c: Modifiers) -> (r: Outcome)
        requires
            self.signature().stack_args.arity() == 0,
        ensures
            r@ == self.nullary(c@),
    {
        match self {
            Op::IORead => Self::exec_ioread(),
            Op::Void => Outcome::Value(Self::exec_void()),
            Op::AsSymbol => Outcome::Value(Self::exec_as_symbol(c)),
            _ => Outcome::Value(undefined_error()),
        }
    }

    /// Runs an operator that takes one operand.
    pub fn exec_unary(&self, arg: Parsed, c: Modifiers) -> (r: Outcome)
        requires
            self.signature().stack_args.arity() == 1,
        ensures
            r@ == self.unary(arg@, c@),
    {
        match self {
            Op::IOPrint => Self::exec_print(arg),
            Op::ParseInt => Outcome::Value(Self::exec_parse_int(arg)),
            Op::ParseFloat => Self::exec_parse_float(arg),
            Op::ParseWords => Outcome::Value(Self::exec_words(arg)),
            Op::Empty => Outcome::Value(Self::exec_empty(arg)),
            Op::Length => Outcome::Value(Self::exec_length(arg)),
            Op::Head => Outcome::Value(Self::exec_head(arg)),
            Op::Tail => Outcome::Value(Self::exec_tail(arg)),
            Op::Not => Outcome::Value(Self::exec_not(arg)),
            Op::Pop => Outcome::Value(Self::exec_pop(arg)),
            Op::Dup => Outcome::Value(Self::exec_dup(arg)),
            Op::Exec => Outcome::Value(Self::exec_exec(arg)),
            Op::If => Outcome::Value(Self::exec_if(arg, c)),
            Op::Times => Outcome::Value(Self::exec_times(arg, c)),
            Op::MapList => Outcome::Value(Self::exec_map(arg, c)),
            Op::Each => Outcome::Value(Self::exec_each(arg, c)),
            Op::EvalSymbol => Outcome::Value(Self::exec_eval_symbol(arg)),
            _ => Outcome::Value(undefined_error()),
        }
    }

    /// Runs an operator that takes two operands.
    pub fn exec_binary(&self, lhs: &Parsed, rhs: &Parsed, c: Modifiers, bindings: &mut Bindings) -> (r:
        Outcome)
        requires
            self.signature().stack_args.arity() == 2,
            old(bindings).wf(),
        ensures
            r@ == self.binary(lhs@, rhs@, c@),
            final(bindings).wf(),
            final(bindings)@ == self.rebound(lhs@, rhs@, old(bindings)@),
    {
        match self {
            Op::Add => Self::exec_add(lhs, rhs),
            Op::Sub => Self::exec_sub(lhs, rhs),
            Op::Mul => Self::exec_mul(lhs, rhs),
            Op::Div => Self::exec_div(lhs, rhs),
            Op::IntDiv => Outcome::Value(Self::exec_intdiv(lhs, rhs)),
            Op::GT => Outcome::Value(Self::exec_gt(lhs, rhs)),
            Op::LT => Outcome::Value(Self::exec_lt(lhs, rhs)),
            Op::EQ => Outcome::Value(Self::exec_eq(lhs, rhs)),
            Op::And => Outcome::Value(Self::exec_and(lhs, rhs)),
            Op::Or => Outcome::Value(Self::exec_or(lhs, rhs)),
            Op::Append => Self::exec_append(lhs, rhs),
            Op::Cons => Self::exec_cons(lhs, rhs),
            Op::Swap => Outcome::Value(Self::exec_swap(lhs, rhs)),
            Op::Foldl => Outcome::Value(Self::exec_foldl(lhs, rhs, c)),
            Op::Assign => Outcome::Value(Self::exec_assign(lhs, rhs, false, bindings)),
            Op::AssignFunc => Outcome::Value(Self::exec_assign(lhs, rhs, true, bindings)),
            _ => Outcome::Value(undefined_error()),
        }
    }

    /// The operator without a name: it gives nothing.
    pub fn exec_void() -> (r: Parsed)
        ensures
            r@ == Value::Void,
    {
        Parsed::Void
    }

    /// `read`: asks for a line.
    pub fn exec_ioread() -> (r: Outcome)
        ensures
            r@ == OutcomeView::Ask(RequestView::Read),
    {
        Outcome::Ask(Request::Read)
    }

    /// `print`: asks that the text of the value be written out.
    pub fn exec_print(arg: Parsed) -> (r: Outcome)
        ensures
            r@ == Op::print(arg@),
    {
        Outcome::Ask(Request::Print(arg.render()))
    }

    /// `parseInteger`: the integer that a string spells, or `Overflow`.
    pub fn exec_parse_int(arg: Parsed) -> (r: Parsed)
        ensures
            r@ == Op::parse_int(arg@),
    {
        match arg {
            Parsed::String(s) => match parse_integer(s.as_str()) {
                Some(i) => Parsed::Num(Numeric::Integer(i)),
                None => Parsed::Error(StackError::Overflow),
            },
            _ => invalid(),
        }
    }

    /// `parseFloat`: asks that a string be read as a float.
    pub fn exec_parse_float(arg: Parsed) -> (r: Outcome)
        ensures
            r@ == Op::parse_float(arg@),
    {
        match arg {
            Parsed::String(s) => Outcome::Ask(Request::ParseFloat(s)),
            _ => Outcome::Value(invalid()),
        }
    }

    /// `words`: the words of a string, as a list of strings.
    pub fn exec_words(arg: Parsed) -> (r: Parsed)
        ensures
            r@ == Op::split(arg@),
    {
        match arg {
            Parsed::String(s) => {
                let list = split_words(s.as_str());
                let mut items: Vec<Parsed> = Vec::new();
                let mut i: usize = 0;
                while i < list.len()
                    invariant
                        i <= list.len(),
                        views(items@) == string_values(texts(list@)).subrange(0, i as int),
                    decreases list.len() - i,
                {
                    let item = Parsed::String(list[i].clone());
                    proof {
                        lemma_views_push(items@, item);
                        assert(views(items@).push(item@) =~= string_values(
                            texts(list@),
                        ).subrange(0, i + 1));
                    }
                    items.push(item);
                    i = i + 1;
                }
                proof {
                    lemma_list_view(items);
                    assert(string_values(texts(list@)).subrange(0, list.len() as int)
                        =~= string_values(texts(list@)));
                }
                Parsed::List(items)
            },
            _ => invalid(),
        }
    }

    /// `+`: the sum of the operands after promotion.
    pub fn exec_add(lhs: &Parsed, rhs: &Parsed) -> (r: Outcome)
        ensures
            r@ == Op::sum(lhs@, rhs@),
    {
        let (l, r) = promote(lhs, rhs);
        l.add(&r)
    }

    /// `-`: the difference of the operands after promotion.
    pub fn exec_sub(lhs: &Parsed, rhs: &Parsed) -> (r: Outcome)
        ensures
            r@ == Op::difference(lhs@, rhs@),
    {
        let (l, r) = promote(lhs, rhs);
        l.sub(&r)
    }

    /// `*`: the product of the operands after promotion.
    pub fn exec_mul(lhs: &Parsed, rhs: &Parsed) -> (r: Outcome)
        ensures
            r@ == Op::product(lhs@, rhs@),
    {
        let (l, r) = promote(lhs, rhs);
        l.mul(&r)
    }

    /// `/`: the quotient of the operands as floats.
    pub fn exec_div(lhs: &Parsed, rhs: &Parsed) -> (r: Outcome)
        ensures
            r@ == Op::ratio(lhs@, rhs@),
    {
        lhs.coerce(&Type::Float).div(&rhs.coerce(&Type::Float))
    }

    /// `div`: the quotient of the operands as integers, towards zero.
    pub fn exec_intdiv(lhs: &Parsed, rhs: &Parsed) -> (r: Parsed)
        ensures
            r@ == Op::int_ratio(lhs@, rhs@),
    {
        match lhs.coerce(&Type::Integer).div(&rhs.coerce(&Type::Integer)) {
            Outcome::Value(v) => v.coerce(&Type::Integer),
            Outcome::Ask(_) => invalid(),
        }
    }

    /// `>`: whether the left operand is above the right.
    pub fn exec_gt(lhs: &Parsed, rhs: &Parsed) -> (r: Parsed)
        ensures
            r@ == Value::Bool(rhs@.less(lhs@)),
    {
        Parsed::Bool(lhs.gt(rhs))
    }

    /// `<`: whether the left operand is below the right.
    pub fn exec_lt(lhs: &Parsed, rhs: &Parsed) -> (r: Parsed)
        ensures
            r@ == Value::Bool(lhs@.less(rhs@)),
    {
        Parsed::Bool(lhs.lt(rhs))
    }

    /// `==`: whether the operands are equal.
    pub fn exec_eq(lhs: &Parsed, rhs: &Parsed) -> (r: Parsed)
        ensures
            r@ == Value::Bool(lhs@.equals(rhs@)),
    {
        Parsed::Bool(lhs.equals(rhs))
    }

    /// `&&`: whether both operands count as true.
    pub fn exec_and(lhs: &Parsed, rhs: &Parsed) -> (r: Parsed)
        ensures
            r@ == Value::Bool(lhs@.is_true() && rhs@.is_true()),
    {
        lhs.bitand(rhs)
    }

    /// `||`: whether one of the operands counts as true.
    pub fn exec_or(lhs: &Parsed, rhs: &Parsed) -> (r: Parsed)
        ensures
            r@ == Value::Bool(lhs@.is_true() || rhs@.is_true()),
    {
        lhs.bitor(rhs)
    }

    /// `not`: a number with the other sign, a boolean turned round.
    pub fn exec_not(arg: Parsed) -> (r: Parsed)
        ensures
            r@ == arg@.neg(),
    {
        arg.neg()
    }

    /// `empty`: whether the size of the operand equals 0.
    pub fn exec_empty(arg: Parsed) -> (r: Parsed)
        ensures
            r@ == Op::is_empty(arg@),
    {
        Parsed::Bool(arg.size().equals(&Parsed::Num(Numeric::Integer(0))))
    }

    /// `length`: the size of the operand.
    pub fn exec_length(arg: Parsed) -> (r: Parsed)
        ensures
            r@ == arg@.size(),
    {
        arg.size()
    }

    /// `head`: the first item of a list, or `HeadEmpty`.
    pub fn exec_head(arg: Parsed) -> (r: Parsed)
        ensures
            r@ == Op::head(arg@),
    {
        match arg {
            Parsed::List(v) => {
                proof {
                    lemma_list_view(v);
                }
                if v.len() > 0 {
                    v[0].clone()
                } else {
                    Parsed::Error(StackError::HeadEmpty)
                }
            },
            _ => invalid(),
        }
    }

    /// `tail`: a list without its first item, or `TailEmpty`.
    pub fn exec_tail(arg: Parsed) -> (r: Parsed)
        ensures
            r@ == Op::tail(arg@),
    {
        match arg {
            Parsed::List(v) => {
                proof {
                    lemma_list_view(v);
                }
                if v.len() > 0 {
                    let mut items: Vec<Parsed> = Vec::new();
                    let mut i: usize = 1;
                    while i < v.len()
                        invariant
                            1 <= i <= v.len(),
                            views(items@) == views(v@).subrange(1, i as int),
                        decreases v.len() - i,
                    {
                        let item = v[i].clone();
                        proof {
                            lemma_views_push(items@, item);
                            assert(views(items@).push(item@) =~= views(v@).subrange(1, i + 1));
                        }
                        items.push(item);
                        i = i + 1;
                    }
                    proof {
                        lemma_list_view(items);
                    }
                    Parsed::List(items)
                } else {
                    Parsed::Error(StackError::TailEmpty)
                }
            },
            _ => invalid(),
        }
    }

    /// `append`: the one list followed by the other.
    pub fn exec_append(lhs: &Parsed, rhs: &Parsed) -> (r: Outcome)
        ensures
            r@ == lhs@.add(rhs@),
    {
        lhs.add(rhs)
    }

    /// `cons`: the list with the value put in front.
    pub fn exec_cons(lhs: &Parsed, rhs: &Parsed) -> (r: Outcome)
        ensures
            r@ == Op::cons(lhs@, rhs@),
    {
        let items = single(lhs);
        proof {
            lemma_list_view(items);
        }
        Parsed::List(items).add(rhs)
    }

    /// `pop`: takes a value and gives nothing.
    pub fn exec_pop(_arg: Parsed) -> (r: Parsed)
        ensures
            r@ == Value::Void,
    {
        Parsed::Void
    }

    /// `dup`: a quotation that puts the value back twice.
    pub fn exec_dup(arg: Parsed) -> (r: Parsed)
        ensures
            r@ == Op::dup(arg@),
    {
        let mut items = single(&arg);
        proof {
            lemma_views_push(items@, arg);
            assert(views(items@).push(arg@) =~= seq![arg@, arg@]);
        }
        items.push(arg);
        quotation_of(items)
    }

    /// `swap`: a quotation that puts the two values back the other way round.
    pub fn exec_swap(lhs: &Parsed, rhs: &Parsed) -> (r: Parsed)
        ensures
            r@ == Op::swap(lhs@, rhs@),
    {
        let mut items = single(rhs);
        let second = lhs.clone();
        proof {
            lemma_views_push(items@, second);
            assert(views(items@).push(second@) =~= seq![rhs@, lhs@]);
        }
        items.push(second);
        quotation_of(items)
    }

    /// `exec`: the value as a quotation, to be run.
    pub fn exec_exec(arg: Parsed) -> (r: Parsed)
        ensures
            r@ == Op::force(arg@),
    {
        match arg.coerce(&Type::Quotation) {
            Parsed::Quotation(q) => {
                proof {
                    lemma_quotation_view(q);
                }
                Parsed::Quotation(q)
            },
            _ => undefined_error(),
        }
    }

    /// `if`: the first modifier where the operand is `True`, the second where
    /// it is anything else, as a quotation.
    pub fn exec_if(arg: Parsed, c: Modifiers) -> (r: Parsed)
        ensures
            r@ == Op::choose_branch(arg@, c@),
    {
        match c {
            Modifiers::Binary(then_quotation, else_quotation) => {
                if arg.equals(&Parsed::Bool(true)) {
                    then_quotation.coerce(&Type::Quotation)
                } else {
                    else_quotation.coerce(&Type::Quotation)
                }
            },
            _ => undefined_error(),
        }
    }

    /// `times`: a quotation that runs the modifier as often as the operand
    /// says.
    pub fn exec_times(arg: Parsed, c: Modifiers) -> (r: Parsed)
        ensures
            r@ == Op::times(arg@, c@),
    {
        match c {
            Modifiers::Unary(quotation) => match arg {
                Parsed::Num(Numeric::Integer(n)) => {
                    let q = quotation.coerce(&Type::Quotation);
                    let mut items: Vec<Parsed> = Vec::new();
                    let mut k: i128 = 0;
                    proof {
                        assert(views(items@) =~= times_program(q@, 0));
                    }
                    while k < n
                        invariant
                            0 <= k,
                            n >= 0 ==> k <= n,
                            n < 0 ==> k == 0,
                            views(items@) == times_program(q@, k as nat),
                        decreases n - k,
                    {
                        let a = q.clone();
                        let b = Parsed::Function(Op::Exec);
                        proof {
                            lemma_views_push(items@, a);
                            lemma_views_push(items@.push(a), b);
                            assert(views(items@).push(a@).push(b@) =~= times_program(
                                q@,
                                (k + 1) as nat,
                            ));
                        }
                        items.push(a);
                        items.push(b);
                        k = k + 1;
                    }
                    quotation_of(items)
                },
                _ => undefined_error(),
            },
            _ => undefined_error(),
        }
    }

    /// `map`: a quotation that builds the list of what the modifier makes of
    /// each item.
    pub fn exec_map(arg: Parsed, c: Modifiers) -> (r: Parsed)
        ensures
            r@ == Op::map_each(arg@, c@),
    {
        match c {
            Modifiers::Unary(quotation) => {
                let q = quotation.coerce(&Type::Quotation);
                let list = items_of(&arg);
                let first = empty_list();
                let mut items: Vec<Parsed> = Vec::new();
                proof {
                    lemma_views_push(items@, first);
                    assert(views(items@).push(first@) =~= seq![Value::List(Seq::empty())]);
                }
                items.push(first);
                push_map(&mut items, &list, &q);
                quotation_of(items)
            },
            _ => undefined_error(),
        }
    }

    /// `each`: a quotation that runs the modifier on each item.
    pub fn exec_each(arg: Parsed, c: Modifiers) -> (r: Parsed)
        ensures
            r@ == Op::each(arg@, c@),
    {
        match c {
            Modifiers::Unary(quotation) => {
                let q = quotation.coerce(&Type::Quotation);
                let list = items_of(&arg);
                let mut items: Vec<Parsed> = Vec::new();
                proof {
                    assert(views(items@) =~= Seq::<Value>::empty());
                }
                push_each(&mut items, &list, &q);
                proof {
                    assert(Seq::<Value>::empty() + each_program(
                        views(list@),
                        q@,
                        list@.len() as nat,
                    ) =~= each_program(views(list@), q@, list@.len() as nat));
                }
                quotation_of(items)
            },
            _ => undefined_error(),
        }
    }

    /// `foldl`: a quotation that starts from the seed and runs the modifier on
    /// each item.
    pub fn exec_foldl(lhs: &Parsed, rhs: &Parsed, c: Modifiers) -> (r: Parsed)
        ensures
            r@ == Op::foldl(lhs@, rhs@, c@),
    {
        match c {
            Modifiers::Unary(quotation) => {
                let q = quotation.coerce(&Type::Quotation);
                let list = items_of(lhs);
                let mut items = single(rhs);
                push_each(&mut items, &list, &q);
                quotation_of(items)
            },
            _ => undefined_error(),
        }
    }

    /// `'`: the modifier as a symbol.
    pub fn exec_as_symbol(c: Modifiers) -> (r: Parsed)
        ensures
            r@ == Op::as_symbol(c@),
    {
        match c {
            Modifiers::Unary(m) => m.coerce(&Type::Symbol),
            _ => undefined_error(),
        }
    }

    /// `eval`: a quotation that holds the symbol, so that it is looked up when
    /// the quotation runs.
    pub fn exec_eval_symbol(arg: Parsed) -> (r: Parsed)
        ensures
            r@ == Op::eval_symbol(arg@),
    {
        match &arg {
            Parsed::Symbol(_) => quotation_of(single(&arg)),
            _ => invalid(),
        }
    }

    /// `:=` and `fun`: binds the symbol on the left to the value on the right.
    pub fn exec_assign(lhs: &Parsed, rhs: &Parsed, function: bool, bindings: &mut Bindings) -> (r:
        Parsed)
        requires
            old(bindings).wf(),
        ensures
            r@ == Op::bind_result(lhs@),
            final(bindings).wf(),
            final(bindings)@ == Op::bound(lhs@, rhs@, function, old(bindings)@),
    {
        match lhs {
            Parsed::Symbol(name) => {
                bindings.insert(
                    name.clone(),
                    Binding { function, constant: false, value: rhs.clone() },
                );
                Parsed::Void
            },
            _ => invalid(),
        }
    }
}

} // verus!
