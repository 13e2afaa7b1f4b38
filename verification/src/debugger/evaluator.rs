//! Evaluation of conditions and of the expressions in log messages,
//! against a snapshot of the values of the debuggee's variables.
use crate::compiler::ast::{BinaryOp, Expression, ExpressionModel};
use crate::compiler::lexer::{token_stream, Lexer};
use crate::compiler::parser::{at_end, expression, Parser};
use crate::seqs::{first_index, lemma_first_index_is};
use crate::text::{push_signed_decimal, signed_decimal_text, string_from_chars};
use vstd::prelude::*;

verus! {

/// Why an expression has no value.
#[derive(Debug, Clone, Copy, PartialEq, Eq, Structural)]
pub enum EvalError {
    /// The text is not one expression.
    Syntax,
    /// A name has no value in the snapshot.
    UnknownName,
    /// The expression is of a form that has no integer value.
    Unsupported,
    /// The result does not fit, or a division is by zero.
    Arithmetic,
}

/// Whether a binding is for `name`.
pub open spec fn bound_to(name: Seq<char>) -> spec_fn((String, i64)) -> bool {
    |b: (String, i64)| b.0@ == name
}

/// The value of `name`: that of its first binding.
pub open spec fn lookup(variables: Seq<(String, i64)>, name: Seq<char>) -> Option<i64> {
    let i = first_index(variables, bound_to(name));
    if i < variables.len() {
        Some(variables[i].1)
    } else {
        None
    }
}

/// 1 for true, 0 for false.
pub open spec fn truth(b: bool) -> i64 {
    if b {
        1
    } else {
        0
    }
}

/// The result of an operator on two values.  Arithmetic fails where the
/// result does not fit or the divisor is zero; division rounds towards
/// zero; a comparison gives 1 or 0.
pub open spec fn applied(op: BinaryOp, a: i64, b: i64) -> Result<i64, EvalError> {
    match op {
        BinaryOp::Add => arithmetic(a.checked_add(b)),
        BinaryOp::Subtract => arithmetic(a.checked_sub(b)),
        BinaryOp::Multiply => arithmetic(a.checked_mul(b)),
        BinaryOp::Divide => arithmetic(a.checked_div(b)),
        BinaryOp::Equal => Ok(truth(a == b)),
        BinaryOp::NotEqual => Ok(truth(a != b)),
        BinaryOp::Greater => Ok(truth(a > b)),
        BinaryOp::Less => Ok(truth(a < b)),
        BinaryOp::GreaterEqual => Ok(truth(a >= b)),
        BinaryOp::LessEqual => Ok(truth(a <= b)),
    }
}

/// A checked result as the result of an evaluation.
pub open spec fn arithmetic(r: Option<i64>) -> Result<i64, EvalError> {
    match r {
        Some(v) => Ok(v),
        None => Err(EvalError::Arithmetic),
    }
}

/// The value of an expression.  An integer is its value, a truth value is
/// 1 or 0, a name has the value bound to it.  Of a binary expression the
/// left operand is evaluated first, and the first failure is the failure
/// of the whole.  Any other form has no value.
pub open spec fn value_of(e: ExpressionModel, variables: Seq<(String, i64)>) -> Result<
    i64,
    EvalError,
>
    decreases e,
{
    match e {
        ExpressionModel::Integer(i) => Ok(i),
        ExpressionModel::Boolean(b) => Ok(truth(b)),
        ExpressionModel::Identifier(name) => match lookup(variables, name) {
            Some(v) => Ok(v),
            None => Err(EvalError::UnknownName),
        },
        ExpressionModel::Binary { left, operator, right } => match value_of(*left, variables) {
            Ok(a) => match value_of(*right, variables) {
                Ok(b) => applied(operator, a, b),
                Err(e) => Err(e),
            },
            Err(e) => Err(e),
        },
        _ => Err(EvalError::Unsupported),
    }
}

/// The one expression that a text holds: the expression that its tokens
/// make, where they make one and nothing follows it.
pub open spec fn parsed(text: Seq<char>) -> Option<ExpressionModel> {
    let ts = token_stream(text, 0);
    match expression(ts, 0) {
        Some((e, end)) => if at_end(ts, end) {
            Some(e)
        } else {
            None
        },
        None => None,
    }
}

/// The value of the text of an expression: a text that holds no
/// expression is an error of syntax.
pub open spec fn text_value(text: Seq<char>, variables: Seq<(String, i64)>) -> Result<i64, EvalError> {
    match parsed(text) {
        Some(e) => value_of(e, variables),
        None => Err(EvalError::Syntax),
    }
}

/// The value bound to `name`.
pub fn find_value(variables: &Vec<(String, i64)>, name: &String) -> (r: Option<i64>)
    ensures
        r == lookup(variables@, name@),
{
    let mut i: usize = 0;
    while i < variables.len() && !(variables[i].0 == *name)
        invariant
            i <= variables@.len(),
            forall|j: int| 0 <= j < i ==> !bound_to(name@)(#[trigger] variables@[j]),
        decreases variables@.len() - i,
    {
        i += 1;
    }
    proof {
        lemma_first_index_is(variables@, bound_to(name@), i as int);
    }
    if i < variables.len() {
        Some(variables[i].1)
    } else {
        None
    }
}

/// Applies an operator to two values.
pub fn apply_operator(op: BinaryOp, a: i64, b: i64) -> (r: Result<i64, EvalError>)
    ensures
        r == applied(op, a, b),
{
    let checked = match op {
        BinaryOp::Add => a.checked_add(b),
        BinaryOp::Subtract => a.checked_sub(b),
        BinaryOp::Multiply => a.checked_mul(b),
        BinaryOp::Divide => a.checked_div(b),
        BinaryOp::Equal => Some(if a == b { 1 } else { 0 }),
        BinaryOp::NotEqual => Some(if a != b { 1 } else { 0 }),
        BinaryOp::Greater => Some(if a > b { 1 } else { 0 }),
        BinaryOp::Less => Some(if a < b { 1 } else { 0 }),
        BinaryOp::GreaterEqual => Some(if a >= b { 1 } else { 0 }),
        BinaryOp::LessEqual => Some(if a <= b { 1 } else { 0 }),
    };
    match checked {
        Some(v) => Ok(v),
        None => Err(EvalError::Arithmetic),
    }
}

/// Evaluates an expression against the values of the variables.
pub fn evaluate_expression(e: &Expression, variables: &Vec<(String, i64)>) -> (r: Result<
    i64,
    EvalError,
>)
    ensures
        r == value_of(e@, variables@),
    decreases e,
{
    match e {
        Expression::Integer(i) => Ok(*i),
        Expression::Boolean(b) => Ok(if *b { 1 } else { 0 }),
        Expression::Identifier(name) => match find_value(variables, name) {
            Some(v) => Ok(v),
            None => Err(EvalError::UnknownName),
        },
        Expression::Binary { left, operator, right } => {
            let a = match evaluate_expression(left, variables) {
                Ok(a) => a,
                Err(e) => {
                    return Err(e);
                },
            };
            let b = match evaluate_expression(right, variables) {
                Ok(b) => b,
                Err(e) => {
                    return Err(e);
                },
            };
            apply_operator(*operator, a, b)
        },
        _ => Err(EvalError::Unsupported),
    }
}

/// The one expression that a text holds.
pub fn parse_text(text: &str) -> (r: Result<Expression, EvalError>)
    ensures
        match parsed(text@) {
            Some(e) => r is Ok && r->Ok_0@ == e,
            None => r == Err::<Expression, EvalError>(EvalError::Syntax),
        },
{
    let mut lexer = Lexer::new(text);
    let tokens = lexer.tokenize();
    let mut parser = Parser::new(tokens);
    match parser.parse_expression() {
        Ok(e) => {
            if parser.is_at_end() {
                Ok(e)
            } else {
                Err(EvalError::Syntax)
            }
        },
        Err(_) => Err(EvalError::Syntax),
    }
}

/// Evaluates the text of an expression.
pub fn evaluate_text(text: &str, variables: &Vec<(String, i64)>) -> (r: Result<i64, EvalError>)
    ensures
        r == text_value(text@, variables@),
{
    match parse_text(text) {
        Ok(e) => evaluate_expression(&e, variables),
        Err(e) => Err(e),
    }
}

/// The text that stands for an expression in a log line: its value in
/// decimal, or the expression as it was written where it has no value.
pub open spec fn shown(expression: Seq<char>, evaluation: Result<i64, EvalError>) -> Seq<char> {
    match evaluation {
        Ok(v) => signed_decimal_text(v as int),
        Err(_) => expression,
    }
}

/// The text that stands for an expression in a log line.
pub fn show_value(expression: &String, evaluation: Result<i64, EvalError>) -> (text: String)
    ensures
        text@ == shown(expression@, evaluation),
{
    match evaluation {
        Ok(v) => {
            let mut out: Vec<char> = Vec::new();
            push_signed_decimal(&mut out, v);
            string_from_chars(&out)
        },
        Err(_) => expression.clone(),
    }
}

} // verus!
