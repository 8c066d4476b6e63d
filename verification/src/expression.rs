//! Expressions: the operators, the tree, and its mathematical model.
use vstd::prelude::*;
use crate::error::{plain_result, value_result, ErrorKind, SwResult};
use crate::semantics::{apply, as_bool, as_int, eval, eval_bool, eval_int, wrapping_sum};
use crate::state::State;
use crate::value::{Value, ValueView};

verus! {

/// A binary operator.
#[derive(Debug, PartialEq, Eq, Clone, Copy)]
pub enum Operator {
    /// `+`: the sum of two integers.
    Add,
    /// `==`: whether two values of one kind are equal.
    Equality,
    /// `and`: the conjunction of two booleans.
    And,
    /// `or`: the disjunction of two booleans.
    Or,
}

impl View for Operator {
    type V = Operator;

    open spec fn view(&self) -> Operator {
        *self
    }
}

/// The mathematical model of an expression.
pub enum ExpressionView {
    Value(ValueView),
    Variable(Seq<char>),
    ListIndex(Seq<char>, Box<ExpressionView>),
    ListLength(Seq<char>),
    Not(Box<ExpressionView>),
    OperatorExpression(Box<ExpressionView>, Operator, Box<ExpressionView>),
}

/// An expression, as the parser produces it.
#[derive(Debug, PartialEq, Eq)]
pub enum Expression {
    /// A literal value.
    Value(Value),
    /// The value bound to a name.
    Variable(String),
    /// The item of a named list, or the character of a named string, at an index.
    ListIndex(String, Box<Expression>),
    /// The number of items of a named list or of characters of a named string.
    ListLength(String),
    /// The negation of a boolean.
    Not(Box<Expression>),
    /// A binary operator applied to two operands.
    OperatorExpression(Box<Expression>, Operator, Box<Expression>),
}

impl View for Expression {
    type V = ExpressionView;

    open spec fn view(&self) -> ExpressionView
        decreases self,
    {
        match self {
            Expression::Value(v) => ExpressionView::Value(v@),
            Expression::Variable(name) => ExpressionView::Variable(name@),
            Expression::ListIndex(name, index) => ExpressionView::ListIndex(
                name@,
                Box::new((**index).view()),
            ),
            Expression::ListLength(name) => ExpressionView::ListLength(name@),
            Expression::Not(inner) => ExpressionView::Not(Box::new((**inner).view())),
            Expression::OperatorExpression(left, op, right) => ExpressionView::OperatorExpression(
                Box::new((**left).view()),
                *op,
                Box::new((**right).view()),
            ),
        }
    }
}

fn wrapping_add(a: i32, b: i32) -> (r: i32)
    ensures
        r == wrapping_sum(a, b),
{
    let sum: i64 = a as i64 + b as i64;
    if sum > i32::MAX as i64 {
        (sum - 0x1_0000_0000) as i32
    } else if sum < i32::MIN as i64 {
        (sum + 0x1_0000_0000) as i32
    } else {
        sum as i32
    }
}

/// A value as an integer, or the error that it is none.
pub fn int_of(v: Value) -> (r: SwResult<i32>)
    ensures
        plain_result(r) == as_int(v@),
{
    match v {
        Value::Int(i) => Ok(i),
        other => Err(ErrorKind::UnexpectedType("int".to_owned(), other)),
    }
}

/// A value as a boolean, or the error that it is none.
pub fn bool_of(v: Value) -> (r: SwResult<bool>)
    ensures
        plain_result(r) == as_bool(v@),
{
    match v {
        Value::Bool(b) => Ok(b),
        other => Err(ErrorKind::UnexpectedType("bool".to_owned(), other)),
    }
}

impl Operator {
    /// Applies the operator to two values.
    pub fn apply(&self, left: Value, right: Value) -> (r: SwResult<Value>)
        ensures
            value_result(r) == apply(*self, left@, right@),
    {
        match self {
            Operator::Add => {
                let a = match int_of(left) {
                    Ok(a) => a,
                    Err(e) => return Err(e),
                };
                let b = match int_of(right) {
                    Ok(b) => b,
                    Err(e) => return Err(e),
                };
                Ok(Value::Int(wrapping_add(a, b)))
            },
            Operator::Equality => {
                let alike = match (&left, &right) {
                    (Value::Int(_), Value::Int(_)) => true,
                    (Value::Str(_), Value::Str(_)) => true,
                    (Value::Bool(_), Value::Bool(_)) => true,
                    (Value::List(_), Value::List(_)) => true,
                    _ => false,
                };
                if alike {
                    Ok(Value::Bool(left.equals(&right)))
                } else {
                    Err(ErrorKind::UnexpectedType(left.kind().to_owned(), right))
                }
            },
            Operator::And => {
                let a = match bool_of(left) {
                    Ok(a) => a,
                    Err(e) => return Err(e),
                };
                let b = match bool_of(right) {
                    Ok(b) => b,
                    Err(e) => return Err(e),
                };
                Ok(Value::Bool(a && b))
            },
            Operator::Or => {
                let a = match bool_of(left) {
                    Ok(a) => a,
                    Err(e) => return Err(e),
                };
                let b = match bool_of(right) {
                    Ok(b) => b,
                    Err(e) => return Err(e),
                };
                Ok(Value::Bool(a || b))
            },
        }
    }
}

impl Expression {
    /// The value of this expression in the given state.
    pub fn evaluate(&self, state: &State) -> (r: SwResult<Value>)
        ensures
            value_result(r) == eval(self@, state@.symbols),
        decreases self, 0nat,
    {
        match self {
            Expression::Value(v) => Ok(v.clone()),
            Expression::Variable(name) => state.get(name.as_str()),
            Expression::ListIndex(name, index) => state.list_index(name.as_str(), &**index),
            Expression::ListLength(name) => state.list_length(name.as_str()),
            Expression::Not(inner) => {
                match (**inner).try_bool(state) {
                    Ok(b) => Ok(Value::Bool(!b)),
                    Err(e) => Err(e),
                }
            },
            Expression::OperatorExpression(left, op, right) => {
                let l = match (**left).evaluate(state) {
                    Ok(l) => l,
                    Err(e) => return Err(e),
                };
                let r = match (**right).evaluate(state) {
                    Ok(r) => r,
                    Err(e) => return Err(e),
                };
                op.apply(l, r)
            },
        }
    }

    /// The value of this expression, which must be an integer.
    pub fn try_int(&self, state: &State) -> (r: SwResult<i32>)
        ensures
            plain_result(r) == eval_int(self@, state@.symbols),
        decreases self, 1nat,
    {
        match self.evaluate(state) {
            Ok(v) => int_of(v),
            Err(e) => Err(e),
        }
    }

    /// The value of this expression, which must be a boolean.
    pub fn try_bool(&self, state: &State) -> (r: SwResult<bool>)
        ensures
            plain_result(r) == eval_bool(self@, state@.symbols),
        decreases self, 1nat,
    {
        match self.evaluate(state) {
            Ok(v) => bool_of(v),
            Err(e) => Err(e),
        }
    }
}

impl Clone for Expression {
    fn clone(&self) -> (r: Expression)
        ensures
            r@ == self@,
        decreases self,
    {
        match self {
            Expression::Value(v) => Expression::Value(v.clone()),
            Expression::Variable(name) => Expression::Variable(name.clone()),
            Expression::ListIndex(name, index) => {
                let inner: Expression = (**index).clone();
                Expression::ListIndex(name.clone(), Box::new(inner))
            },
            Expression::ListLength(name) => Expression::ListLength(name.clone()),
            Expression::Not(inner) => {
                let copy: Expression = (**inner).clone();
                Expression::Not(Box::new(copy))
            },
            Expression::OperatorExpression(left, op, right) => {
                let l: Expression = (**left).clone();
                let r: Expression = (**right).clone();
                Expression::OperatorExpression(Box::new(l), *op, Box::new(r))
            },
        }
    }
}

} // verus!
