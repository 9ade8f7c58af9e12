//! The operations of the stack machine, and what those of them do that
//! touch nothing but the stack.

use vstd::prelude::*;
use crate::errors::{EvalFailure, EvaluatorError, TypeFailure};
use crate::text::same_text;
use crate::types::{lemma_values_view, values_view, Value, ValueView};
use crate::values::{equal_shapes, equal_values, is_truthy, same_shape, truthy, values_equal};

verus! {

/// The operations of the machine: a closed set, dispatched by tag.
#[derive(Debug, Clone, Copy, PartialEq, Eq, Structural)]
pub enum Operation {
    Dup,
    Drop,
    Swap,
    Rot,
    Over,
    Tuck,
    Nip,
    Pick,
    Roll,
    Depth,
    Clear,
    Add,
    Sub,
    Mul,
    Div,
    Mod,
    Equal,
    NotEqual,
    SameShape,
    Less,
    Greater,
    LessEqual,
    GreaterEqual,
    And,
    Or,
    Not,
    IsResource,
    CreateResource,
    ConsumeResource,
    Borrow,
    ResourceType,
    WithBorrowed,
    TypeOf,
    TypeEquals,
    TypeToString,
    TypeQuote,
    TypeUnquote,
    TypeQuasiquote,
    Print,
    ShowStack,
    ShowResources,
    Apply,
    Dip,
    Keep,
    Bi,
    Tri,
    BiStar,
    BiAt,
    Cleave,
    MapEach,
    Filter,
    Fold,
}

/// The operation that a name stands for.
pub open spec fn operation_named(name: Seq<char>) -> Option<Operation> {
    if name == "dup"@ {
        Some(Operation::Dup)
    } else if name == "drop"@ {
        Some(Operation::Drop)
    } else if name == "swap"@ {
        Some(Operation::Swap)
    } else if name == "rot"@ {
        Some(Operation::Rot)
    } else if name == "over"@ {
        Some(Operation::Over)
    } else if name == "tuck"@ {
        Some(Operation::Tuck)
    } else if name == "nip"@ {
        Some(Operation::Nip)
    } else if name == "pick"@ {
        Some(Operation::Pick)
    } else if name == "roll"@ {
        Some(Operation::Roll)
    } else if name == "depth"@ {
        Some(Operation::Depth)
    } else if name == "clear"@ {
        Some(Operation::Clear)
    } else if name == "add"@ || name == "+"@ {
        Some(Operation::Add)
    } else if name == "sub"@ || name == "-"@ {
        Some(Operation::Sub)
    } else if name == "mul"@ || name == "*"@ {
        Some(Operation::Mul)
    } else if name == "div"@ || name == "/"@ {
        Some(Operation::Div)
    } else if name == "mod"@ || name == "%"@ {
        Some(Operation::Mod)
    } else if name == "=="@ || name == "eq"@ || name == "veq"@ {
        Some(Operation::Equal)
    } else if name == "!="@ {
        Some(Operation::NotEqual)
    } else if name == "==="@ {
        Some(Operation::SameShape)
    } else if name == "<"@ {
        Some(Operation::Less)
    } else if name == ">"@ {
        Some(Operation::Greater)
    } else if name == "<="@ {
        Some(Operation::LessEqual)
    } else if name == ">="@ {
        Some(Operation::GreaterEqual)
    } else if name == "and"@ {
        Some(Operation::And)
    } else if name == "or"@ {
        Some(Operation::Or)
    } else if name == "not"@ {
        Some(Operation::Not)
    } else if name == "is_resource"@ {
        Some(Operation::IsResource)
    } else if name == "create_resource"@ {
        Some(Operation::CreateResource)
    } else if name == "consume_resource"@ {
        Some(Operation::ConsumeResource)
    } else if name == "borrow"@ {
        Some(Operation::Borrow)
    } else if name == "resource_type"@ {
        Some(Operation::ResourceType)
    } else if name == "with_borrowed"@ {
        Some(Operation::WithBorrowed)
    } else if name == "type"@ {
        Some(Operation::TypeOf)
    } else if name == "type_equals"@ {
        Some(Operation::TypeEquals)
    } else if name == "type_to_string"@ {
        Some(Operation::TypeToString)
    } else if name == "type_quote"@ {
        Some(Operation::TypeQuote)
    } else if name == "type_unquote"@ {
        Some(Operation::TypeUnquote)
    } else if name == "type_quasiquote"@ {
        Some(Operation::TypeQuasiquote)
    } else if name == "print"@ {
        Some(Operation::Print)
    } else if name == ".s"@ {
        Some(Operation::ShowStack)
    } else if name == ".resources"@ {
        Some(Operation::ShowResources)
    } else if name == "apply"@ {
        Some(Operation::Apply)
    } else if name == "dip"@ {
        Some(Operation::Dip)
    } else if name == "keep"@ {
        Some(Operation::Keep)
    } else if name == "bi"@ {
        Some(Operation::Bi)
    } else if name == "tri"@ {
        Some(Operation::Tri)
    } else if name == "bi*"@ {
        Some(Operation::BiStar)
    } else if name == "bi@"@ {
        Some(Operation::BiAt)
    } else if name == "cleave"@ {
        Some(Operation::Cleave)
    } else if name == "map"@ {
        Some(Operation::MapEach)
    } else if name == "filter"@ {
        Some(Operation::Filter)
    } else if name == "fold"@ {
        Some(Operation::Fold)
    } else {
        None
    }
}

impl Operation {
    /// The operation that `name` stands for.
    pub fn from_name(name: &str) -> (r: Option<Operation>)
        ensures
            r == operation_named(name@),
    {
        if same_text(name, "dup") {
            Some(Operation::Dup)
        } else if same_text(name, "drop") {
            Some(Operation::Drop)
        } else if same_text(name, "swap") {
            Some(Operation::Swap)
        } else if same_text(name, "rot") {
            Some(Operation::Rot)
        } else if same_text(name, "over") {
            Some(Operation::Over)
        } else if same_text(name, "tuck") {
            Some(Operation::Tuck)
        } else if same_text(name, "nip") {
            Some(Operation::Nip)
        } else if same_text(name, "pick") {
            Some(Operation::Pick)
        } else if same_text(name, "roll") {
            Some(Operation::Roll)
        } else if same_text(name, "depth") {
            Some(Operation::Depth)
        } else if same_text(name, "clear") {
            Some(Operation::Clear)
        } else if same_text(name, "add") || same_text(name, "+") {
            Some(Operation::Add)
        } else if same_text(name, "sub") || same_text(name, "-") {
            Some(Operation::Sub)
        } else if same_text(name, "mul") || same_text(name, "*") {
            Some(Operation::Mul)
        } else if same_text(name, "div") || same_text(name, "/") {
            Some(Operation::Div)
        } else if same_text(name, "mod") || same_text(name, "%") {
            Some(Operation::Mod)
        } else if same_text(name, "==") || same_text(name, "eq") || same_text(name, "veq") {
            Some(Operation::Equal)
        } else if same_text(name, "!=") {
            Some(Operation::NotEqual)
        } else if same_text(name, "===") {
            Some(Operation::SameShape)
        } else if same_text(name, "<") {
            Some(Operation::Less)
        } else if same_text(name, ">") {
            Some(Operation::Greater)
        } else if same_text(name, "<=") {
            Some(Operation::LessEqual)
        } else if same_text(name, ">=") {
            Some(Operation::GreaterEqual)
        } else if same_text(name, "and") {
            Some(Operation::And)
        } else if same_text(name, "or") {
            Some(Operation::Or)
        } else if same_text(name, "not") {
            Some(Operation::Not)
        } else if same_text(name, "is_resource") {
            Some(Operation::IsResource)
        } else if same_text(name, "create_resource") {
            Some(Operation::CreateResource)
        } else if same_text(name, "consume_resource") {
            Some(Operation::ConsumeResource)
        } else if same_text(name, "borrow") {
            Some(Operation::Borrow)
        } else if same_text(name, "resource_type") {
            Some(Operation::ResourceType)
        } else if same_text(name, "with_borrowed") {
            Some(Operation::WithBorrowed)
        } else if same_text(name, "type") {
            Some(Operation::TypeOf)
        } else if same_text(name, "type_equals") {
            Some(Operation::TypeEquals)
        } else if same_text(name, "type_to_string") {
            Some(Operation::TypeToString)
        } else if same_text(name, "type_quote") {
            Some(Operation::TypeQuote)
        } else if same_text(name, "type_unquote") {
            Some(Operation::TypeUnquote)
        } else if same_text(name, "type_quasiquote") {
            Some(Operation::TypeQuasiquote)
        } else if same_text(name, "print") {
            Some(Operation::Print)
        } else if same_text(name, ".s") {
            Some(Operation::ShowStack)
        } else if same_text(name, ".resources") {
            Some(Operation::ShowResources)
        } else if same_text(name, "apply") {
            Some(Operation::Apply)
        } else if same_text(name, "dip") {
            Some(Operation::Dip)
        } else if same_text(name, "keep") {
            Some(Operation::Keep)
        } else if same_text(name, "bi") {
            Some(Operation::Bi)
        } else if same_text(name, "tri") {
            Some(Operation::Tri)
        } else if same_text(name, "bi*") {
            Some(Operation::BiStar)
        } else if same_text(name, "bi@") {
            Some(Operation::BiAt)
        } else if same_text(name, "cleave") {
            Some(Operation::Cleave)
        } else if same_text(name, "map") {
            Some(Operation::MapEach)
        } else if same_text(name, "filter") {
            Some(Operation::Filter)
        } else if same_text(name, "fold") {
            Some(Operation::Fold)
        } else {
            None
        }
    }
}

/// The error of an operation that finds too few values on the stack.
pub open spec fn underflow() -> EvaluatorError {
    EvaluatorError::EvalError(EvalFailure::StackUnderflow)
}

/// The error of an operation that finds a value of the wrong kind.
pub open spec fn mismatch() -> EvaluatorError {
    EvaluatorError::TypeError(TypeFailure::OperandMismatch)
}

/// A truth value as a number: 1 or 0.
pub open spec fn flag(b: bool) -> ValueView {
    ValueView::Number(
        if b {
            1
        } else {
            0
        },
    )
}

/// The size of a number.
pub open spec fn magnitude(x: int) -> int {
    if x < 0 {
        -x
    } else {
        x
    }
}

/// The quotient, rounded towards zero.
pub open spec fn quotient(x: int, y: int) -> int {
    if (x < 0) != (y < 0) {
        -(magnitude(x) / magnitude(y))
    } else {
        magnitude(x) / magnitude(y)
    }
}

/// The remainder that is never negative.
pub open spec fn remainder(x: int, y: int) -> int {
    x % magnitude(y)
}

/// A result of arithmetic as a number of the language, which has 32 bits.
pub open spec fn number(n: int) -> Result<ValueView, EvaluatorError> {
    if i32::MIN <= n <= i32::MAX {
        Ok(ValueView::Number(n))
    } else {
        Err(EvaluatorError::EvalError(EvalFailure::ArithmeticOverflow))
    }
}

/// What an operation on two values yields, if it is one that takes two
/// values and yields one.
pub open spec fn binary_result(op: Operation, a: ValueView, b: ValueView) -> Option<
    Result<ValueView, EvaluatorError>,
> {
    match op {
        Operation::Add | Operation::Sub | Operation::Mul | Operation::Div | Operation::Mod
        | Operation::Less | Operation::Greater | Operation::LessEqual | Operation::GreaterEqual => {
            if a is Number && b is Number {
                let x = a->Number_0;
                let y = b->Number_0;
                Some(
                    match op {
                        Operation::Add => number(x + y),
                        Operation::Sub => number(x - y),
                        Operation::Mul => number(x * y),
                        Operation::Div => if y == 0 {
                            Err(EvaluatorError::EvalError(EvalFailure::DivisionByZero))
                        } else {
                            number(quotient(x, y))
                        },
                        Operation::Mod => if y == 0 {
                            Err(EvaluatorError::EvalError(EvalFailure::DivisionByZero))
                        } else {
                            number(remainder(x, y))
                        },
                        Operation::Less => Ok(flag(x < y)),
                        Operation::Greater => Ok(flag(x > y)),
                        Operation::LessEqual => Ok(flag(x <= y)),
                        _ => Ok(flag(x >= y)),
                    },
                )
            } else {
                Some(Err(mismatch()))
            }
        },
        Operation::Equal => Some(Ok(flag(values_equal(a, b)))),
        Operation::NotEqual => Some(Ok(flag(!values_equal(a, b)))),
        Operation::SameShape => Some(Ok(flag(same_shape(a, b)))),
        Operation::And => Some(Ok(flag(truthy(a) && truthy(b)))),
        Operation::Or => Some(Ok(flag(truthy(a) || truthy(b)))),
        _ => None,
    }
}

/// The stack without its top `n` values.
pub open spec fn below(s: Seq<ValueView>, n: int) -> Seq<ValueView> {
    s.subrange(0, s.len() - n)
}

/// The value `depth` places below the top.
pub open spec fn at_depth(s: Seq<ValueView>, depth: int) -> ValueView {
    s[s.len() - 1 - depth]
}

/// What `pick` and `roll` do: the top is the depth, which must name a
/// value below it; `pick` copies that value to the top, `roll` moves it there.
pub open spec fn access(s: Seq<ValueView>, moving: bool) -> Result<Seq<ValueView>, EvaluatorError> {
    if s.len() < 2 {
        Err(underflow())
    } else if !(s.last() is Number) {
        Err(mismatch())
    } else {
        let n = s.last()->Number_0;
        let rest = s.drop_last();
        if n < 0 || n >= rest.len() {
            Err(EvaluatorError::EvalError(EvalFailure::InvalidDepth))
        } else if moving {
            Ok(rest.remove(rest.len() - 1 - n).push(at_depth(rest, n)))
        } else {
            Ok(rest.push(at_depth(rest, n)))
        }
    }
}

/// What an operation does to the stack, if it is one that touches nothing else.
pub open spec fn stack_op(op: Operation, s: Seq<ValueView>) -> Option<
    Result<Seq<ValueView>, EvaluatorError>,
> {
    match op {
        Operation::Dup => Some(
            if s.len() < 1 {
                Err(underflow())
            } else {
                Ok(s.push(s.last()))
            },
        ),
        Operation::Drop => Some(
            if s.len() < 1 {
                Err(underflow())
            } else {
                Ok(s.drop_last())
            },
        ),
        Operation::Swap => Some(
            if s.len() < 2 {
                Err(underflow())
            } else {
                Ok(below(s, 2).push(at_depth(s, 0)).push(at_depth(s, 1)))
            },
        ),
        Operation::Rot => Some(
            if s.len() < 3 {
                Err(underflow())
            } else {
                Ok(below(s, 3).push(at_depth(s, 1)).push(at_depth(s, 0)).push(at_depth(s, 2)))
            },
        ),
        Operation::Over => Some(
            if s.len() < 2 {
                Err(underflow())
            } else {
                Ok(s.push(at_depth(s, 1)))
            },
        ),
        Operation::Tuck => Some(
            if s.len() < 2 {
                Err(underflow())
            } else {
                Ok(
                    below(s, 2).push(at_depth(s, 0)).push(at_depth(s, 1)).push(at_depth(s, 0)),
                )
            },
        ),
        Operation::Nip => Some(
            if s.len() < 2 {
                Err(underflow())
            } else {
                Ok(below(s, 2).push(at_depth(s, 0)))
            },
        ),
        Operation::Pick => Some(access(s, false)),
        Operation::Roll => Some(access(s, true)),
        Operation::Depth => Some(
            match number(s.len() as int) {
                Ok(n) => Ok(s.push(n)),
                Err(e) => Err(e),
            },
        ),
        Operation::Clear => Some(Ok(Seq::empty())),
        Operation::Not => Some(
            if s.len() < 1 {
                Err(underflow())
            } else {
                Ok(s.drop_last().push(flag(!truthy(s.last()))))
            },
        ),
        Operation::IsResource => Some(
            if s.len() < 1 {
                Err(underflow())
            } else {
                Ok(s.drop_last().push(flag(s.last() is Resource)))
            },
        ),
        _ => match binary_result(op, ValueView::Nil, ValueView::Nil) {
            None => None,
            Some(_) => Some(
                if s.len() < 2 {
                    Err(underflow())
                } else {
                    match binary_result(op, at_depth(s, 1), at_depth(s, 0))->Some_0 {
                        Ok(v) => Ok(below(s, 2).push(v)),
                        Err(e) => Err(e),
                    }
                },
            ),
        },
    }
}

/// Puts `v` on top of the stack.
pub fn push_value(stack: &mut Vec<Value>, v: Value)
    ensures
        values_view(final(stack)@) == values_view(old(stack)@).push(v@),
{
    proof {
        lemma_values_view(stack@);
    }
    let ghost before = values_view(stack@);
    stack.push(v);
    proof {
        lemma_values_view(stack@);
        assert(values_view(stack@) =~= before.push(v@));
    }
}

/// Takes the top of the stack, if there is one.
pub fn pop_value(stack: &mut Vec<Value>) -> (r: Option<Value>)
    ensures
        match r {
            Some(v) => values_view(old(stack)@).len() > 0 && v@ == values_view(old(stack)@).last()
                && values_view(final(stack)@) == values_view(old(stack)@).drop_last(),
            None => values_view(old(stack)@).len() == 0 && final(stack)@ == old(stack)@,
        },
{
    proof {
        lemma_values_view(stack@);
    }
    let ghost before = values_view(stack@);
    let r = stack.pop();
    proof {
        lemma_values_view(stack@);
        if r is Some {
            assert(values_view(stack@) =~= before.drop_last());
        }
    }
    r
}

/// A copy of the value `depth` places below the top.
pub fn peek_value(stack: &Vec<Value>, depth: usize) -> (r: Value)
    requires
        depth < stack@.len(),
    ensures
        r@ == at_depth(values_view(stack@), depth as int),
{
    proof {
        lemma_values_view(stack@);
    }
    stack[stack.len() - 1 - depth].clone()
}

/// Takes the value `depth` places below the top out of the stack.
pub fn take_value(stack: &mut Vec<Value>, depth: usize) -> (r: Value)
    requires
        depth < old(stack)@.len(),
    ensures
        r@ == at_depth(values_view(old(stack)@), depth as int),
        values_view(final(stack)@) == values_view(old(stack)@).remove(
            old(stack)@.len() - 1 - depth,
        ),
{
    proof {
        lemma_values_view(stack@);
    }
    let ghost before = values_view(stack@);
    let index = stack.len() - 1 - depth;
    let r = stack.remove(index);
    proof {
        lemma_values_view(stack@);
        assert(values_view(stack@) =~= before.remove(index as int));
    }
    r
}

/// A truth value as a number.
pub fn flag_value(b: bool) -> (r: Value)
    ensures
        r@ == flag(b),
{
    Value::Number(
        if b {
            1
        } else {
            0
        },
    )
}

/// A result of arithmetic as a number of the language.
fn number_value(n: i64) -> (r: Result<Value, EvaluatorError>)
    ensures
        match number(n as int) {
            Ok(v) => r is Ok && r->Ok_0@ == v,
            Err(e) => r == Err::<Value, EvaluatorError>(e),
        },
{
    if n < -0x8000_0000 || n > 0x7fff_ffff {
        Err(EvaluatorError::EvalError(EvalFailure::ArithmeticOverflow))
    } else {
        Ok(Value::Number(n as i32))
    }
}

/// The size of a 32-bit number.
fn magnitude_of(x: i32) -> (r: u64)
    ensures
        r == magnitude(x as int),
{
    if x < 0 {
        (-(x as i64)) as u64
    } else {
        x as u64
    }
}

/// The remainder of a negative number by a positive one.
proof fn lemma_remainder_of_negative(a: int, m: int)
    requires
        a > 0,
        m > 0,
    ensures
        (-a) % m == if a % m == 0 {
            0
        } else {
            m - a % m
        },
{
    vstd::arithmetic::div_mod::lemma_fundamental_div_mod(a, m);
    let q = a / m;
    let r = a % m;
    if r == 0 {
        assert(-a == m * (-q) + 0) by (nonlinear_arith)
            requires
                a == m * q + r,
                r == 0,
        ;
        vstd::arithmetic::div_mod::lemma_fundamental_div_mod_converse(-a, m, -q, 0);
    } else {
        assert(-a == (-q - 1) * m + (m - r)) by (nonlinear_arith)
            requires
                a == m * q + r,
        ;
        vstd::arithmetic::div_mod::lemma_fundamental_div_mod_converse(-a, m, -q - 1, m - r);
    }
}

/// What an operation on two values yields.
#[verifier::rlimit(40)]
pub(crate) fn binary_value(op: Operation, a: &Value, b: &Value) -> (r: Result<Value, EvaluatorError>)
    requires
        binary_result(op, a@, b@) is Some,
    ensures
        match binary_result(op, a@, b@)->Some_0 {
            Ok(v) => r is Ok && r->Ok_0@ == v,
            Err(e) => r == Err::<Value, EvaluatorError>(e),
        },
{
    match op {
        Operation::Equal => Ok(flag_value(equal_values(a, b))),
        Operation::NotEqual => Ok(flag_value(!equal_values(a, b))),
        Operation::SameShape => Ok(flag_value(equal_shapes(a, b))),
        Operation::And => Ok(flag_value(is_truthy(a) && is_truthy(b))),
        Operation::Or => Ok(flag_value(is_truthy(a) || is_truthy(b))),
        _ => match (a, b) {
            (Value::Number(x), Value::Number(y)) => {
                let x64 = *x as i64;
                let y64 = *y as i64;
                match op {
                    Operation::Add => number_value(x64 + y64),
                    Operation::Sub => number_value(x64 - y64),
                    Operation::Mul => {
                        assert(-0x8000_0000 * 0x8000_0000 <= x64 * y64 <= 0x8000_0000
                            * 0x8000_0000) by (nonlinear_arith)
                            requires
                                -0x8000_0000 <= x64 <= 0x7fff_ffff,
                                -0x8000_0000 <= y64 <= 0x7fff_ffff,
                        ;
                        number_value(x64 * y64)
                    },
                    Operation::Div => {
                        if *y == 0 {
                            Err(EvaluatorError::EvalError(EvalFailure::DivisionByZero))
                        } else {
                            let q = (magnitude_of(*x) / magnitude_of(*y)) as i64;
                            if (*x < 0) != (*y < 0) {
                                number_value(-q)
                            } else {
                                number_value(q)
                            }
                        }
                    },
                    Operation::Mod => {
                        if *y == 0 {
                            Err(EvaluatorError::EvalError(EvalFailure::DivisionByZero))
                        } else {
                            let m = magnitude_of(*y);
                            let r = magnitude_of(*x) % m;
                            proof {
                                if *x < 0 {
                                    lemma_remainder_of_negative(-(*x as int), m as int);
                                }
                            }
                            if *x >= 0 || r == 0 {
                                number_value(r as i64)
                            } else {
                                number_value((m - r) as i64)
                            }
                        }
                    },
                    Operation::Less => Ok(flag_value(*x < *y)),
                    Operation::Greater => Ok(flag_value(*x > *y)),
                    Operation::LessEqual => Ok(flag_value(*x <= *y)),
                    _ => Ok(flag_value(*x >= *y)),
                }
            },
            _ => Err(EvaluatorError::TypeError(TypeFailure::OperandMismatch)),
        },
    }
}

/// Whether an operation touches nothing but the stack.
pub fn is_stack_operation(op: Operation) -> (r: bool)
    ensures
        forall|s: Seq<ValueView>| r == (#[trigger] stack_op(op, s) is Some),
{
    match op {
        Operation::Dup | Operation::Drop | Operation::Swap | Operation::Rot | Operation::Over
        | Operation::Tuck | Operation::Nip | Operation::Pick | Operation::Roll | Operation::Depth
        | Operation::Clear | Operation::Not | Operation::IsResource | Operation::Add
        | Operation::Sub | Operation::Mul | Operation::Div | Operation::Mod | Operation::Less
        | Operation::Greater | Operation::LessEqual | Operation::GreaterEqual | Operation::Equal
        | Operation::NotEqual | Operation::SameShape | Operation::And | Operation::Or => true,
        _ => false,
    }
}

/// `pick` and `roll`.
fn run_access(stack: &mut Vec<Value>, moving: bool) -> (r: Result<(), EvaluatorError>)
    ensures
        match access(values_view(old(stack)@), moving) {
            Ok(s) => r is Ok && values_view(final(stack)@) == s,
            Err(e) => r == Err::<(), EvaluatorError>(e),
        },
{
    proof {
        lemma_values_view(stack@);
    }
    if stack.len() < 2 {
        return Err(EvaluatorError::EvalError(EvalFailure::StackUnderflow));
    }
    let ghost before = values_view(stack@);
    match pop_value(stack) {
        Some(Value::Number(n)) => {
            proof {
                lemma_values_view(stack@);
            }
            if n < 0 || n as usize >= stack.len() {
                return Err(EvaluatorError::EvalError(EvalFailure::InvalidDepth));
            }
            let item = if moving {
                take_value(stack, n as usize)
            } else {
                peek_value(stack, n as usize)
            };
            push_value(stack, item);
            Ok(())
        },
        _ => Err(EvaluatorError::TypeError(TypeFailure::OperandMismatch)),
    }
}

/// Runs an operation that touches nothing but the stack.
#[verifier::rlimit(40)]
pub(crate) fn run_stack_op(op: Operation, stack: &mut Vec<Value>) -> (r: Result<(), EvaluatorError>)
    requires
        stack_op(op, values_view(old(stack)@)) is Some,
    ensures
        match stack_op(op, values_view(old(stack)@))->Some_0 {
            Ok(s) => r is Ok && values_view(final(stack)@) == s,
            Err(e) => r == Err::<(), EvaluatorError>(e),
        },
{
    proof {
        lemma_values_view(stack@);
    }
    let ghost s = values_view(stack@);
    let n = stack.len();
    match op {
        Operation::Dup => {
            if n < 1 {
                return Err(EvaluatorError::EvalError(EvalFailure::StackUnderflow));
            }
            let top = peek_value(stack, 0);
            push_value(stack, top);
            Ok(())
        },
        Operation::Drop => {
            match pop_value(stack) {
                Some(_) => Ok(()),
                None => Err(EvaluatorError::EvalError(EvalFailure::StackUnderflow)),
            }
        },
        Operation::Swap => {
            if n < 2 {
                return Err(EvaluatorError::EvalError(EvalFailure::StackUnderflow));
            }
            let second = take_value(stack, 1);
            push_value(stack, second);
            assert(values_view(stack@) =~= below(s, 2).push(at_depth(s, 0)).push(at_depth(s, 1)));
            Ok(())
        },
        Operation::Rot => {
            if n < 3 {
                return Err(EvaluatorError::EvalError(EvalFailure::StackUnderflow));
            }
            let third = take_value(stack, 2);
            push_value(stack, third);
            assert(values_view(stack@) =~= below(s, 3).push(at_depth(s, 1)).push(
                at_depth(s, 0),
            ).push(at_depth(s, 2)));
            Ok(())
        },
        Operation::Over => {
            if n < 2 {
                return Err(EvaluatorError::EvalError(EvalFailure::StackUnderflow));
            }
            let second = peek_value(stack, 1);
            push_value(stack, second);
            Ok(())
        },
        Operation::Tuck => {
            if n < 2 {
                return Err(EvaluatorError::EvalError(EvalFailure::StackUnderflow));
            }
            let top = peek_value(stack, 0);
            let second = take_value(stack, 1);
            push_value(stack, second);
            push_value(stack, top);
            assert(values_view(stack@) =~= below(s, 2).push(at_depth(s, 0)).push(
                at_depth(s, 1),
            ).push(at_depth(s, 0)));
            Ok(())
        },
        Operation::Nip => {
            if n < 2 {
                return Err(EvaluatorError::EvalError(EvalFailure::StackUnderflow));
            }
            let _ = take_value(stack, 1);
            assert(values_view(stack@) =~= below(s, 2).push(at_depth(s, 0)));
            Ok(())
        },
        Operation::Pick => run_access(stack, false),
        Operation::Roll => run_access(stack, true),
        Operation::Depth => {
            if n > 0x7fff_ffff {
                return Err(EvaluatorError::EvalError(EvalFailure::ArithmeticOverflow));
            }
            push_value(stack, Value::Number(n as i32));
            Ok(())
        },
        Operation::Clear => {
            stack.clear();
            proof {
                lemma_values_view(stack@);
                assert(values_view(stack@) =~= Seq::empty());
            }
            Ok(())
        },
        Operation::Not => {
            match pop_value(stack) {
                Some(v) => {
                    push_value(stack, flag_value(!is_truthy(&v)));
                    Ok(())
                },
                None => Err(EvaluatorError::EvalError(EvalFailure::StackUnderflow)),
            }
        },
        Operation::IsResource => {
            match pop_value(stack) {
                Some(v) => {
                    let is_resource = match v {
                        Value::Resource(_, _) => true,
                        _ => false,
                    };
                    push_value(stack, flag_value(is_resource));
                    Ok(())
                },
                None => Err(EvaluatorError::EvalError(EvalFailure::StackUnderflow)),
            }
        },
        _ => {
            if n < 2 {
                return Err(EvaluatorError::EvalError(EvalFailure::StackUnderflow));
            }
            let b = pop_value(stack).unwrap();
            let a = pop_value(stack).unwrap();
            assert(values_view(stack@) =~= below(s, 2));
            match binary_value(op, &a, &b) {
                Ok(v) => {
                    push_value(stack, v);
                    Ok(())
                },
                Err(e) => Err(e),
            }
        },
    }
}

} // verus!
