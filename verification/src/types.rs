//! Exact types, typeclass-style constraints and operator signatures.

use vstd::prelude::*;
use vstd::string::StringExecFns;

verus! {

/// What a parameter or a result of an operator must be: an exact type tag
/// (`Void` to `Function`) or a typeclass (`Any` to `Sized`).
#[derive(Clone, Copy, PartialEq, Eq, Structural, Debug)]
pub enum Constraint {
    Void,
    String,
    List,
    Integer,
    Float,
    Bool,
    Quotation,
    Error,
    Symbol,
    Function,
    Any,
    Ord,
    Eq,
    Num,
    Functor,
    Boolean,
    Enum,
    Display,
    Executable,
    Sized,
}

/// The parameters an operator takes from one source (the stack, or the
/// pending input).
#[derive(Clone, Copy, PartialEq, Eq, Structural, Debug)]
pub enum Params {
    Nullary,
    Unary(Constraint),
    Binary(Constraint, Constraint),
}

/// The declared shape of an operator: what it pops, what it takes from the
/// pending input, and what it hands back.
#[derive(Clone, Copy, PartialEq, Eq, Structural, Debug)]
pub struct Signature {
    pub stack_args: Params,
    pub modifiers: Params,
    pub ret: Constraint,
}

/// The exact type of a value.
#[derive(Clone, Copy, PartialEq, Eq, Structural, Debug)]
pub enum Type {
    Void,
    String,
    List,
    Integer,
    Float,
    Bool,
    Quotation,
    Error,
    Symbol,
    Function(Signature),
}

/// The typeclasses a type may implement.
#[derive(Clone, Copy, PartialEq, Eq, Structural, Debug)]
pub enum TypeClass {
    Any,
    Ord,
    Eq,
    Num,
    Functor,
    Boolean,
    Enum,
    Display,
    Executable,
    Sized,
}

impl Params {
    /// How many values these parameters stand for.
    pub open spec fn arity(self) -> nat {
        match self {
            Params::Nullary => 0,
            Params::Unary(_) => 1,
            Params::Binary(_, _) => 2,
        }
    }

    /// The parameters as they are written in a signature.
    pub open spec fn text(self) -> Seq<char> {
        match self {
            Params::Nullary => "Void"@,
            Params::Unary(c) => c.name(),
            Params::Binary(c1, c2) => c1.name() + ", "@ + c2.name(),
        }
    }

    /// The parameters as they are written in a signature.
    pub fn to_string(&self) -> (r: String)
        ensures
            r@ == self.text(),
    {
        match self {
            Params::Nullary => String::from_str("Void"),
            Params::Unary(c) => c.to_string(),
            Params::Binary(c1, c2) => {
                let mut out = c1.to_string();
                out.append(", ");
                let second = c2.to_string();
                out.append(second.as_str());
                out
            },
        }
    }
}

impl Signature {
    /// The signature as it is written in a type's name.
    pub open spec fn text(self) -> Seq<char> {
        "("@ + self.stack_args.text() + " -> "@ + self.ret.name() + ")"@
    }

    /// The signature as it is written in a type's name.
    pub fn to_string(&self) -> (r: String)
        ensures
            r@ == self.text(),
    {
        let mut out = String::from_str("(");
        let args = self.stack_args.to_string();
        out.append(args.as_str());
        out.append(" -> ");
        let ret = self.ret.to_string();
        out.append(ret.as_str());
        out.append(")");
        out
    }
}

/// A signature that takes nothing.
pub fn nullary(ret_type: Constraint) -> (r: Signature)
    ensures
        r == (Signature { stack_args: Params::Nullary, modifiers: Params::Nullary, ret: ret_type }),
{
    Signature { stack_args: Params::Nullary, modifiers: Params::Nullary, ret: ret_type }
}

/// A signature that pops two values under the same constraint.
pub fn homogenous_binary(arg_type: Constraint, ret_type: Constraint) -> (r: Signature)
    ensures
        r == (Signature {
            stack_args: Params::Binary(arg_type, arg_type),
            modifiers: Params::Nullary,
            ret: ret_type,
        }),
{
    Signature {
        stack_args: Params::Binary(arg_type, arg_type),
        modifiers: Params::Nullary,
        ret: ret_type,
    }
}

/// A signature that pops two values, each under its own constraint.
pub fn heterogeneous_binary(lh_arg: Constraint, rh_arg: Constraint, ret_type: Constraint) -> (r:
    Signature)
    ensures
        r == (Signature {
            stack_args: Params::Binary(lh_arg, rh_arg),
            modifiers: Params::Nullary,
            ret: ret_type,
        }),
{
    Signature { stack_args: Params::Binary(lh_arg, rh_arg), modifiers: Params::Nullary, ret: ret_type }
}

/// A signature that pops one value.
pub fn unary(arg_type: Constraint, ret_type: Constraint) -> (r: Signature)
    ensures
        r == (Signature {
            stack_args: Params::Unary(arg_type),
            modifiers: Params::Nullary,
            ret: ret_type,
        }),
{
    Signature { stack_args: Params::Unary(arg_type), modifiers: Params::Nullary, ret: ret_type }
}

impl Constraint {
    /// The constraint's name.
    pub open spec fn name(self) -> Seq<char> {
        match self {
            Constraint::Void => "Void"@,
            Constraint::String => "String"@,
            Constraint::List => "List"@,
            Constraint::Integer => "Integer"@,
            Constraint::Float => "Float"@,
            Constraint::Bool => "Bool"@,
            Constraint::Quotation => "Quotation"@,
            Constraint::Error => "Error"@,
            Constraint::Symbol => "Symbol"@,
            Constraint::Function => "Function"@,
            Constraint::Any => "Any"@,
            Constraint::Ord => "Ord"@,
            Constraint::Eq => "Eq"@,
            Constraint::Num => "Num"@,
            Constraint::Functor => "Functor"@,
            Constraint::Boolean => "Boolean"@,
            Constraint::Enum => "Enum"@,
            Constraint::Display => "Display"@,
            Constraint::Executable => "Executable"@,
            Constraint::Sized => "Sized"@,
        }
    }

    /// The constraint's name.
    pub fn to_string(&self) -> (r: String)
        ensures
            r@ == self.name(),
    {
        match self {
            Constraint::Void => String::from_str("Void"),
            Constraint::String => String::from_str("String"),
            Constraint::List => String::from_str("List"),
            Constraint::Integer => String::from_str("Integer"),
            Constraint::Float => String::from_str("Float"),
            Constraint::Bool => String::from_str("Bool"),
            Constraint::Quotation => String::from_str("Quotation"),
            Constraint::Error => String::from_str("Error"),
            Constraint::Symbol => String::from_str("Symbol"),
            Constraint::Function => String::from_str("Function"),
            Constraint::Any => String::from_str("Any"),
            Constraint::Ord => String::from_str("Ord"),
            Constraint::Eq => String::from_str("Eq"),
            Constraint::Num => String::from_str("Num"),
            Constraint::Functor => String::from_str("Functor"),
            Constraint::Boolean => String::from_str("Boolean"),
            Constraint::Enum => String::from_str("Enum"),
            Constraint::Display => String::from_str("Display"),
            Constraint::Executable => String::from_str("Executable"),
            Constraint::Sized => String::from_str("Sized"),
        }
    }

    /// The typeclass this constraint names, if it names one.
    pub open spec fn class(self) -> Option<TypeClass> {
        match self {
            Constraint::Any => Some(TypeClass::Any),
            Constraint::Ord => Some(TypeClass::Ord),
            Constraint::Eq => Some(TypeClass::Eq),
            Constraint::Num => Some(TypeClass::Num),
            Constraint::Functor => Some(TypeClass::Functor),
            Constraint::Boolean => Some(TypeClass::Boolean),
            Constraint::Enum => Some(TypeClass::Enum),
            Constraint::Display => Some(TypeClass::Display),
            Constraint::Executable => Some(TypeClass::Executable),
            Constraint::Sized => Some(TypeClass::Sized),
            _ => None,
        }
    }

    /// A value of type `t` meets this constraint: the constraint is `t`'s own
    /// tag, or a typeclass that `t` implements.
    pub open spec fn satisfied_by(self, t: Type) -> bool {
        self == t.tag() || match self.class() {
            Some(class) => t.has_class(class),
            None => false,
        }
    }

    /// Whether a value of type `t` meets this constraint.
    pub fn is_satisfied_by(&self, t: &Type) -> (r: bool)
        ensures
            r == self.satisfied_by(*t),
    {
        if *self == t.as_constraint() {
            return true;
        }
        match self {
            Constraint::Any => t.implements(&TypeClass::Any),
            Constraint::Ord => t.implements(&TypeClass::Ord),
            Constraint::Eq => t.implements(&TypeClass::Eq),
            Constraint::Num => t.implements(&TypeClass::Num),
            Constraint::Functor => t.implements(&TypeClass::Functor),
            Constraint::Boolean => t.implements(&TypeClass::Boolean),
            Constraint::Enum => t.implements(&TypeClass::Enum),
            Constraint::Display => t.implements(&TypeClass::Display),
            Constraint::Executable => t.implements(&TypeClass::Executable),
            Constraint::Sized => t.implements(&TypeClass::Sized),
            _ => false,
        }
    }
}

impl Type {
    /// The exact type tag, as a constraint.
    pub open spec fn tag(self) -> Constraint {
        match self {
            Type::Void => Constraint::Void,
            Type::String => Constraint::String,
            Type::List => Constraint::List,
            Type::Integer => Constraint::Integer,
            Type::Float => Constraint::Float,
            Type::Bool => Constraint::Bool,
            Type::Quotation => Constraint::Quotation,
            Type::Error => Constraint::Error,
            Type::Symbol => Constraint::Symbol,
            Type::Function(_) => Constraint::Function,
        }
    }

    /// The exact type tag, as a constraint.
    pub fn as_constraint(&self) -> (r: Constraint)
        ensures
            r == self.tag(),
    {
        match self {
            Type::Void => Constraint::Void,
            Type::String => Constraint::String,
            Type::List => Constraint::List,
            Type::Integer => Constraint::Integer,
            Type::Float => Constraint::Float,
            Type::Bool => Constraint::Bool,
            Type::Quotation => Constraint::Quotation,
            Type::Error => Constraint::Error,
            Type::Symbol => Constraint::Symbol,
            Type::Function(_) => Constraint::Function,
        }
    }

    /// The membership table of the typeclasses.
    pub open spec fn has_class(self, class: TypeClass) -> bool {
        match self {
            Type::Integer | Type::Float => {
                class == TypeClass::Any || class == TypeClass::Ord || class == TypeClass::Eq
                    || class == TypeClass::Num || class == TypeClass::Boolean || class
                    == TypeClass::Display
            },
            Type::Bool => {
                class == TypeClass::Any || class == TypeClass::Ord || class == TypeClass::Eq
                    || class == TypeClass::Num || class == TypeClass::Boolean || class
                    == TypeClass::Enum || class == TypeClass::Display
            },
            Type::String => {
                class == TypeClass::Any || class == TypeClass::Eq || class == TypeClass::Boolean
                    || class == TypeClass::Display || class == TypeClass::Sized
            },
            Type::List => {
                class == TypeClass::Any || class == TypeClass::Eq || class == TypeClass::Functor
                    || class == TypeClass::Boolean || class == TypeClass::Display || class
                    == TypeClass::Sized
            },
            Type::Quotation => {
                class == TypeClass::Any || class == TypeClass::Boolean || class
                    == TypeClass::Display || class == TypeClass::Executable || class
                    == TypeClass::Sized
            },
            Type::Symbol => class == TypeClass::Any || class == TypeClass::Display,
            Type::Function(_) => class == TypeClass::Any || class == TypeClass::Executable,
            Type::Error => {
                class == TypeClass::Any || class == TypeClass::Boolean || class
                    == TypeClass::Display
            },
            Type::Void => {
                class == TypeClass::Any || class == TypeClass::Eq || class == TypeClass::Display
            },
        }
    }

    /// Whether the type implements a typeclass.
    pub fn implements(&self, class: &TypeClass) -> (r: bool)
        ensures
            r == self.has_class(*class),
    {
        match self {
            Type::Void => void_implements(class),
            Type::String => string_implements(class),
            Type::List => list_implements(class),
            Type::Integer => integer_implements(class),
            Type::Float => float_implements(class),
            Type::Bool => bool_implements(class),
            Type::Quotation => quotation_implements(class),
            Type::Error => error_implements(class),
            Type::Symbol => symbol_implements(class),
            Type::Function(_) => function_implements(class),
        }
    }

    /// The type's name.
    pub open spec fn name(self) -> Seq<char> {
        match self {
            Type::Function(sig) => "Func "@ + sig.text(),
            other => other.tag().name(),
        }
    }

    /// The type's name.
    pub fn to_string(&self) -> (r: String)
        ensures
            r@ == self.name(),
    {
        match self {
            Type::Function(sig) => {
                let mut out = String::from_str("Func ");
                let inner = sig.to_string();
                out.append(inner.as_str());
                out
            },
            other => other.as_constraint().to_string(),
        }
    }
}

/// The typeclasses of `Void`: `Any`, `Eq`, `Display`.
pub fn void_implements(class: &TypeClass) -> (r: bool)
    ensures
        r == Type::Void.has_class(*class),
{
    match class {
        TypeClass::Eq | TypeClass::Any | TypeClass::Display => true,
        _ => false,
    }
}

/// The typeclasses of `String`: `Any`, `Eq`, `Boolean`, `Display`, `Sized`.
pub fn string_implements(class: &TypeClass) -> (r: bool)
    ensures
        r == Type::String.has_class(*class),
{
    match class {
        TypeClass::Any | TypeClass::Boolean | TypeClass::Display | TypeClass::Eq
        | TypeClass::Sized => true,
        _ => false,
    }
}

/// The typeclasses of `List`: `Any`, `Eq`, `Functor`, `Boolean`, `Display`,
/// `Sized`.
pub fn list_implements(class: &TypeClass) -> (r: bool)
    ensures
        r == Type::List.has_class(*class),
{
    match class {
        TypeClass::Any | TypeClass::Eq | TypeClass::Functor | TypeClass::Boolean
        | TypeClass::Display | TypeClass::Sized => true,
        _ => false,
    }
}

/// The typeclasses of `Integer`: `Any`, `Ord`, `Eq`, `Num`, `Boolean`,
/// `Display`.
pub fn integer_implements(class: &TypeClass) -> (r: bool)
    ensures
        r == Type::Integer.has_class(*class),
{
    match class {
        TypeClass::Any | TypeClass::Ord | TypeClass::Eq | TypeClass::Num | TypeClass::Boolean
        | TypeClass::Display => true,
        _ => false,
    }
}

/// The typeclasses of `Float`: `Any`, `Ord`, `Eq`, `Num`, `Boolean`, `Display`.
pub fn float_implements(class: &TypeClass) -> (r: bool)
    ensures
        r == Type::Float.has_class(*class),
{
    match class {
        TypeClass::Any | TypeClass::Ord | TypeClass::Eq | TypeClass::Num | TypeClass::Boolean
        | TypeClass::Display => true,
        _ => false,
    }
}

/// The typeclasses of `Bool`: `Any`, `Ord`, `Eq`, `Num`, `Boolean`, `Enum`,
/// `Display`.
pub fn bool_implements(class: &TypeClass) -> (r: bool)
    ensures
        r == Type::Bool.has_class(*class),
{
    match class {
        TypeClass::Any | TypeClass::Ord | TypeClass::Eq | TypeClass::Num | TypeClass::Boolean
        | TypeClass::Enum | TypeClass::Display => true,
        _ => false,
    }
}

/// The typeclasses of `Quotation`: `Any`, `Boolean`, `Display`, `Executable`,
/// `Sized`.
pub fn quotation_implements(class: &TypeClass) -> (r: bool)
    ensures
        r == Type::Quotation.has_class(*class),
{
    match class {
        TypeClass::Any | TypeClass::Boolean | TypeClass::Display | TypeClass::Executable
        | TypeClass::Sized => true,
        _ => false,
    }
}

/// The typeclasses of `Error`: `Any`, `Boolean`, `Display`.
pub fn error_implements(class: &TypeClass) -> (r: bool)
    ensures
        r == Type::Error.has_class(*class),
{
    match class {
        TypeClass::Any | TypeClass::Boolean | TypeClass::Display => true,
        _ => false,
    }
}

/// The typeclasses of `Symbol`: `Any`, `Display`.
pub fn symbol_implements(class: &TypeClass) -> (r: bool)
    ensures
        r == Type::Symbol.has_class(*class),
{
    match class {
        TypeClass::Any | TypeClass::Display => true,
        _ => false,
    }
}

/// The typeclasses of `Function`: `Any`, `Executable`.
pub fn function_implements(class: &TypeClass) -> (r: bool)
    ensures
        r == (*class == TypeClass::Any || *class == TypeClass::Executable),
{
    match class {
        TypeClass::Any | TypeClass::Executable => true,
        _ => false,
    }
}

/// The type to which two operands of a binary operation are promoted.
pub open spec fn coercion_target(t1: Type, t2: Type) -> Option<Type> {
    if t1 == t2 {
        Some(t1)
    } else {
        match (t1, t2) {
            (Type::Integer, Type::Float) | (Type::Float, Type::Integer) => Some(Type::Float),
            (Type::Bool, Type::Integer) | (Type::Integer, Type::Bool) => Some(Type::Integer),
            (Type::Bool, Type::Float) | (Type::Float, Type::Bool) => Some(Type::Float),
            _ => None,
        }
    }
}

/// The promotion rule of binary operations: equal types stay, an integer
/// beside a float becomes a float, a boolean beside a number becomes that
/// kind of number, and no other pair has a common type.
pub fn numeric_coercion(t1: &Type, t2: &Type) -> (r: Option<Type>)
    ensures
        r == coercion_target(*t1, *t2),
{
    if *t1 == *t2 {
        return Some(*t1);
    }
    match (t1, t2) {
        (Type::Integer, Type::Float) | (Type::Float, Type::Integer) => Some(Type::Float),
        (Type::Bool, Type::Integer) | (Type::Integer, Type::Bool) => Some(Type::Integer),
        (Type::Bool, Type::Float) | (Type::Float, Type::Bool) => Some(Type::Float),
        _ => None,
    }
}

} // verus!
