//! Runtime values, their coercions, and the operators on them.
use crate::ast::node::AstBinaryOp;
use crate::common::text::{number_text, number_to_string, repeat_string, repeat_text};
use crate::lexer::token::{LiteralModel, TokenLiteral};
use vstd::prelude::*;
use vstd::std_specs::cmp::PartialEqSpecImpl;
use vstd::string::*;

verus! {

/// Conversion to a truth value.
pub trait AsBool {
    spec fn spec_as_bool(&self) -> bool;

    fn as_bool(&self) -> (b: bool)
        ensures
            b == self.spec_as_bool(),
    ;
}

/// Conversion to a number.
pub trait AsNumber {
    spec fn spec_as_num(&self) -> i64;

    fn as_num(&self) -> (n: i64)
        ensures
            n == self.spec_as_num(),
    ;
}

/// Conversion to text.
pub trait AsString {
    spec fn spec_as_string(&self) -> Seq<char>;

    fn as_string(&self) -> (s: &'static str)
        ensures
            s@ == self.spec_as_string(),
    ;
}

/// A handle to a value cell of a scope tree. Names that hold the same handle
/// share one value.
#[derive(Debug, Clone, Copy, PartialEq, Eq, Structural)]
pub struct RuntimeVariable(pub usize);

/// A value that a program computes.
#[derive(Debug)]
pub enum RuntimeValue {
    Nil,
    Bool(bool),
    Number(i64),
    String(String),
}

/// What a [`RuntimeValue`] stands for.
pub enum ValueModel {
    Nil,
    Bool(bool),
    Number(i64),
    String(Seq<char>),
}

/// The one error that can end a run.
#[derive(Debug, Clone, Copy, PartialEq, Eq, Structural)]
pub enum RuntimeError {
    DivisionByZero,
}

impl View for RuntimeValue {
    type V = ValueModel;

    open spec fn view(&self) -> ValueModel {
        match self {
            RuntimeValue::Nil => ValueModel::Nil,
            RuntimeValue::Bool(b) => ValueModel::Bool(*b),
            RuntimeValue::Number(n) => ValueModel::Number(*n),
            RuntimeValue::String(s) => ValueModel::String(s@),
        }
    }
}

impl Default for RuntimeValue {
    fn default() -> (r: Self)
        ensures
            r@ == ValueModel::Nil,
    {
        RuntimeValue::Nil
    }
}

impl Clone for RuntimeValue {
    fn clone(&self) -> (r: Self)
        ensures
            r@ == self@,
    {
        match self {
            RuntimeValue::Nil => RuntimeValue::Nil,
            RuntimeValue::Bool(b) => RuntimeValue::Bool(*b),
            RuntimeValue::Number(n) => RuntimeValue::Number(*n),
            RuntimeValue::String(s) => RuntimeValue::String(s.clone()),
        }
    }
}

impl PartialEq for RuntimeValue {
    fn eq(&self, other: &RuntimeValue) -> (r: bool) {
        match (self, other) {
            (RuntimeValue::Nil, RuntimeValue::Nil) => true,
            (RuntimeValue::Bool(a), RuntimeValue::Bool(b)) => *a == *b,
            (RuntimeValue::Number(a), RuntimeValue::Number(b)) => *a == *b,
            (RuntimeValue::String(a), RuntimeValue::String(b)) => *a == *b,
            _ => false,
        }
    }
}

impl PartialEqSpecImpl for RuntimeValue {
    open spec fn obeys_eq_spec() -> bool {
        true
    }

    open spec fn eq_spec(&self, other: &RuntimeValue) -> bool {
        self@ == other@
    }
}

/// The number that a truth value counts as.
pub open spec fn bool_number(b: bool) -> i64 {
    if b {
        1
    } else {
        0
    }
}

/// The text that a truth value is written as.
pub open spec fn bool_text(b: bool) -> Seq<char> {
    if b {
        "True"@
    } else {
        "False"@
    }
}

impl ValueModel {
    /// Truthiness: `nil` is false, a number is true unless it is zero, a
    /// string is true unless it is empty.
    pub open spec fn truthy(self) -> bool {
        match self {
            ValueModel::Nil => false,
            ValueModel::Bool(b) => b,
            ValueModel::Number(n) => n != 0,
            ValueModel::String(s) => s.len() != 0,
        }
    }

    /// Whether the value is a number or counts as one.
    pub open spec fn is_numeric(self) -> bool {
        self is Bool || self is Number
    }

    /// The number that a numeric value counts as.
    pub open spec fn number(self) -> int
        recommends
            self.is_numeric(),
    {
        match self {
            ValueModel::Bool(b) => bool_number(b) as int,
            ValueModel::Number(n) => n as int,
            _ => 0,
        }
    }

    /// The text that the value is written as when it is joined to a string.
    pub open spec fn text(self) -> Seq<char> {
        match self {
            ValueModel::Nil => "nil"@,
            ValueModel::Bool(b) => bool_text(b),
            ValueModel::Number(n) => number_text(n as int),
            ValueModel::String(s) => s,
        }
    }
}

/// The value of a literal.
pub open spec fn literal_value(literal: LiteralModel) -> ValueModel {
    match literal {
        LiteralModel::Nil => ValueModel::Nil,
        LiteralModel::Bool(b) => ValueModel::Bool(b),
        LiteralModel::Number(n) => ValueModel::Number(n),
        LiteralModel::String(s) => ValueModel::String(s),
    }
}

/// The 64-bit signed number that is congruent to `x` modulo 2^64.
pub open spec fn wrap(x: int) -> i64 {
    let low = x % 0x1_0000_0000_0000_0000;
    if low > i64::MAX {
        (low - 0x1_0000_0000_0000_0000) as i64
    } else {
        low as i64
    }
}

/// The quotient of `a` by `b`, rounded toward zero.
pub open spec fn quotient(a: int, b: int) -> int
    recommends
        b != 0,
{
    let magnitude = (if a < 0 {
        -a
    } else {
        a
    }) / (if b < 0 {
        -b
    } else {
        b
    });
    if (a < 0) != (b < 0) {
        -magnitude
    } else {
        magnitude
    }
}

/// Arithmetic on two numbers. Results wrap around at 64 bits; division rounds
/// toward zero, and division by zero is an error.
pub open spec fn arithmetic(op: AstBinaryOp, a: int, b: int) -> Result<ValueModel, RuntimeError> {
    match op {
        AstBinaryOp::Add => Ok(ValueModel::Number(wrap(a + b))),
        AstBinaryOp::Sub => Ok(ValueModel::Number(wrap(a - b))),
        AstBinaryOp::Mul => Ok(ValueModel::Number(wrap(a * b))),
        AstBinaryOp::Div => if b == 0 {
            Err(RuntimeError::DivisionByZero)
        } else {
            Ok(ValueModel::Number(wrap(quotient(a, b))))
        },
    }
}

/// How often a string is repeated when it is multiplied by `n`.
pub open spec fn repetitions(n: int) -> nat {
    if n > 0 {
        n as nat
    } else {
        0
    }
}

/// The value of `left op right`.
///
/// Two numeric operands, truth values counting as 0 and 1, give a number.
/// `+` with a string on either side joins the texts of the two operands.
/// `*` of a string and a numeric operand repeats the string. Every other
/// combination gives `nil`.
pub open spec fn binary_op(op: AstBinaryOp, left: ValueModel, right: ValueModel) -> Result<
    ValueModel,
    RuntimeError,
> {
    if left.is_numeric() && right.is_numeric() {
        arithmetic(op, left.number(), right.number())
    } else if op == AstBinaryOp::Add && (left is String || right is String) {
        Ok(ValueModel::String(left.text() + right.text()))
    } else if op == AstBinaryOp::Mul && left is String && right.is_numeric() {
        Ok(ValueModel::String(repeat_text(left->String_0, repetitions(right.number()))))
    } else if op == AstBinaryOp::Mul && right is String && left.is_numeric() {
        Ok(ValueModel::String(repeat_text(right->String_0, repetitions(left.number()))))
    } else {
        Ok(ValueModel::Nil)
    }
}

impl AsBool for RuntimeValue {
    open spec fn spec_as_bool(&self) -> bool {
        self@.truthy()
    }

    fn as_bool(&self) -> (b: bool) {
        match self {
            RuntimeValue::Nil => false,
            RuntimeValue::Bool(b) => *b,
            RuntimeValue::Number(n) => *n != 0,
            RuntimeValue::String(s) => !s.as_str().is_empty(),
        }
    }
}

impl AsNumber for bool {
    open spec fn spec_as_num(&self) -> i64 {
        bool_number(*self)
    }

    fn as_num(&self) -> (n: i64) {
        match self {
            true => 1,
            false => 0,
        }
    }
}

impl AsString for bool {
    open spec fn spec_as_string(&self) -> Seq<char> {
        bool_text(*self)
    }

    fn as_string(&self) -> (s: &'static str) {
        match self {
            true => "True",
            false => "False",
        }
    }
}

impl RuntimeValue {
    /// The value of a literal.
    pub fn from_literal(literal: &TokenLiteral) -> (r: RuntimeValue)
        ensures
            r@ == literal_value(literal@),
    {
        match literal {
            TokenLiteral::Nil => RuntimeValue::Nil,
            TokenLiteral::Bool(b) => RuntimeValue::Bool(*b),
            TokenLiteral::Number(n) => RuntimeValue::Number(*n),
            TokenLiteral::String(s) => RuntimeValue::String(s.clone()),
        }
    }

    /// The text that the value is written as when it is joined to a string.
    pub fn to_text(&self) -> (r: String)
        ensures
            r@ == self@.text(),
    {
        match self {
            RuntimeValue::Nil => String::from_str("nil"),
            RuntimeValue::Bool(b) => String::from_str(b.as_string()),
            RuntimeValue::Number(n) => number_to_string(*n),
            RuntimeValue::String(s) => s.clone(),
        }
    }

    /// The number that the value counts as, if it is numeric.
    pub fn to_number(&self) -> (r: Option<i64>)
        ensures
            r == if self@.is_numeric() {
                Some(self@.number() as i64)
            } else {
                None
            },
    {
        match self {
            RuntimeValue::Bool(b) => Some(b.as_num()),
            RuntimeValue::Number(n) => Some(*n),
            _ => None,
        }
    }

    /// Applies a binary operator to two values.
    pub fn binary_op(op: AstBinaryOp, left: &RuntimeValue, right: &RuntimeValue) -> (r: Result<
        RuntimeValue,
        RuntimeError,
    >)
        ensures
            match binary_op(op, left@, right@) {
                Ok(value) => r matches Ok(found) && found@ == value,
                Err(e) => r matches Err(error) && error == e,
            },
    {
        match (left.to_number(), right.to_number()) {
            (Some(a), Some(b)) => Self::arithmetic(op, a, b),
            (None, Some(count)) => match (op, left) {
                (AstBinaryOp::Add, RuntimeValue::String(s)) => Ok(
                    RuntimeValue::String(s.clone().concat(right.to_text().as_str())),
                ),
                (AstBinaryOp::Mul, RuntimeValue::String(s)) => Ok(
                    RuntimeValue::String(Self::repeat(s, count)),
                ),
                _ => Ok(RuntimeValue::Nil),
            },
            (Some(count), None) => match (op, right) {
                (AstBinaryOp::Add, RuntimeValue::String(s)) => Ok(
                    RuntimeValue::String(left.to_text().concat(s.as_str())),
                ),
                (AstBinaryOp::Mul, RuntimeValue::String(s)) => Ok(
                    RuntimeValue::String(Self::repeat(s, count)),
                ),
                _ => Ok(RuntimeValue::Nil),
            },
            (None, None) => match (op, left, right) {
                (AstBinaryOp::Add, RuntimeValue::String(_), _)
                | (AstBinaryOp::Add, _, RuntimeValue::String(_)) => Ok(
                    RuntimeValue::String(left.to_text().concat(right.to_text().as_str())),
                ),
                _ => Ok(RuntimeValue::Nil),
            },
        }
    }

    /// `s` repeated `count` times, or not at all where `count` is not
    /// positive.
    fn repeat(s: &String, count: i64) -> (r: String)
        ensures
            r@ == repeat_text(s@, repetitions(count as int)),
    {
        if count > 0 {
            repeat_string(s.as_str(), count as u64)
        } else {
            String::new()
        }
    }

    /// Arithmetic on two numbers.
    fn arithmetic(op: AstBinaryOp, a: i64, b: i64) -> (r: Result<RuntimeValue, RuntimeError>)
        ensures
            match arithmetic(op, a as int, b as int) {
                Ok(value) => r matches Ok(found) && found@ == value,
                Err(e) => r matches Err(error) && error == e,
            },
    {
        match op {
            AstBinaryOp::Add => Ok(RuntimeValue::Number(a.wrapping_add(b))),
            AstBinaryOp::Sub => Ok(RuntimeValue::Number(a.wrapping_sub(b))),
            AstBinaryOp::Mul => Ok(RuntimeValue::Number(a.wrapping_mul(b))),
            AstBinaryOp::Div => {
                if b == 0 {
                    return Err(RuntimeError::DivisionByZero);
                }
                match a.checked_div(b) {
                    Some(q) => Ok(RuntimeValue::Number(q)),
                    // Only the least number divided by -1 has no quotient
                    // in range; it wraps around to itself.
                    None => Ok(RuntimeValue::Number(a)),
                }
            },
        }
    }
}

} // verus!
