//! The stack machine: what evaluating an expression and running an
//! operation do to the stack, the environment, the resources and the
//! output, and the evaluator that does it.

use vstd::prelude::*;
use crate::copying::{clone_exprs, clone_params, clone_texts, clone_values};
use crate::effects::{
    borrow_resource, consume_resource, resource_id_of, tag_as_resource, unwrapped, use_resource,
    ResourceManager, TrackerView,
};
use crate::env::option_view;
use crate::errors::{EvalFailure, EvaluatorError, ResourceFailure, TypeFailure};
use crate::machine::{
    at_depth, below, binary_result, binary_value, flag, flag_value, is_stack_operation, mismatch,
    operation_named, peek_value, pop_value, push_value, run_stack_op, stack_op, underflow,
    Operation,
};
use crate::parser::{program_at, tokens_of, Parser};
use crate::render::{type_text, type_to_string, value_text};
use crate::stack_effects::{param_names, translate_quotation, translation};
use crate::text::{decimal_digits, render_nat, strings_view};
use crate::typecheck::{
    check_type, compatible, expand, get_value_type, infer_type, inferred, is_numeric_type,
    numeric, process_type_quasiquote, type_check, types_compatible, value_type,
};
use crate::types::{
    env_lookup, expr_view, exprs_view, lemma_bindings_view, lemma_exprs_view, lemma_values_view,
    match_cases_view, params_view, pattern_view, values_view, Env, EnvView,
    Expr, ExprView, Param, ParamView, Pattern, PatternView, Type, Value, ValueView,
};
use crate::values::{equal_values, is_truthy, truthy, values_equal};

verus! {

/// The view of an [`Evaluator`]: the environment, the stack with its top
/// last, the resources, and the lines printed so far.
pub ghost struct MachineView {
    pub env: EnvView,
    pub stack: Seq<ValueView>,
    pub resources: TrackerView,
    pub output: Seq<Seq<char>>,
}

impl MachineView {
    /// The machine with `v` on top of the stack.
    pub open spec fn push(self, v: ValueView) -> MachineView {
        MachineView { stack: self.stack.push(v), ..self }
    }

    /// The machine with `v` on top of the stack, if there is a `v`.
    pub open spec fn push_yield(self, v: Option<ValueView>) -> MachineView {
        match v {
            Some(x) => self.push(x),
            None => self,
        }
    }

    /// The machine without the top `n` values of the stack.
    pub open spec fn drop(self, n: int) -> MachineView {
        MachineView { stack: below(self.stack, n), ..self }
    }

    /// The machine with the line `line` printed.
    pub open spec fn print(self, line: Seq<char>) -> MachineView {
        MachineView { output: self.output.push(line), ..self }
    }
}

/// An error of evaluation.
pub open spec fn eval_error(f: EvalFailure) -> EvaluatorError {
    EvaluatorError::EvalError(f)
}

/// An error of the resource tracker.
pub open spec fn resource_error(f: ResourceFailure) -> EvaluatorError {
    EvaluatorError::ResourceError(f)
}

/// The lines that show a stack: how many values there are, and each value
/// behind its index, the bottom first.
pub open spec fn stack_lines(s: Seq<ValueView>) -> Seq<Seq<char>> {
    seq!["Stack: "@ + decimal_digits(s.len()) + " items"@] + Seq::new(
        s.len(),
        |i: int| decimal_digits(i as nat) + ": "@ + value_text(s[i]),
    )
}

/// What an operation does to the machine, if it is one that runs no quotation.
pub open spec fn simple_op(m: MachineView, op: Operation) -> Option<
    Result<MachineView, EvaluatorError>,
> {
    match stack_op(op, m.stack) {
        Some(r) => Some(
            match r {
                Ok(s) => Ok(MachineView { stack: s, ..m }),
                Err(e) => Err(e),
            },
        ),
        None => {
            let s = m.stack;
            match op {
                Operation::CreateResource => Some(
                    if s.len() < 2 {
                        Err(underflow())
                    } else if !(s.last() is String) {
                        Err(mismatch())
                    } else {
                        Ok(
                            MachineView {
                                stack: below(s, 2).push(
                                    ValueView::Resource(
                                        m.resources.resources.len(),
                                        Box::new(unwrapped(at_depth(s, 1))),
                                    ),
                                ),
                                resources: m.resources.create(s.last()->String_0),
                                ..m
                            },
                        )
                    },
                ),
                Operation::ConsumeResource => Some(
                    if s.len() < 1 {
                        Err(underflow())
                    } else {
                        match resource_id_of(s.last()) {
                            None => Err(resource_error(ResourceFailure::NotAResource)),
                            Some(id) => match m.resources.consume(id) {
                                Err(f) => Err(resource_error(f)),
                                Ok(t) => Ok(
                                    MachineView {
                                        stack: s.drop_last().push(unwrapped(s.last())),
                                        resources: t,
                                        ..m
                                    },
                                ),
                            },
                        }
                    },
                ),
                Operation::Borrow => Some(
                    if s.len() < 1 {
                        Err(underflow())
                    } else {
                        match resource_id_of(s.last()) {
                            None => Err(resource_error(ResourceFailure::NotAResource)),
                            Some(id) => match m.resources.borrow(id) {
                                Err(f) => Err(resource_error(f)),
                                Ok(t) => Ok(
                                    MachineView {
                                        stack: s.drop_last().push(
                                            ValueView::BorrowedResource(
                                                id as nat,
                                                Box::new(unwrapped(s.last())),
                                            ),
                                        ),
                                        resources: t,
                                        ..m
                                    },
                                ),
                            },
                        }
                    },
                ),
                Operation::ResourceType => Some(
                    if s.len() < 1 {
                        Err(underflow())
                    } else {
                        match resource_id_of(s.last()) {
                            None => Err(resource_error(ResourceFailure::NotAResource)),
                            Some(id) => if !m.resources.has(id) {
                                Err(resource_error(ResourceFailure::UnknownId))
                            } else {
                                Ok(
                                    m.drop(1).push(
                                        ValueView::String(m.resources.resources[id as int].type_tag),
                                    ),
                                )
                            },
                        }
                    },
                ),
                Operation::TypeOf => Some(
                    if s.len() < 1 {
                        Err(underflow())
                    } else {
                        Ok(m.drop(1).push(ValueView::Type(value_type(s.last()))))
                    },
                ),
                Operation::TypeEquals => Some(
                    if s.len() < 2 {
                        Err(underflow())
                    } else if !(at_depth(s, 0) is Type && at_depth(s, 1) is Type) {
                        Err(EvaluatorError::TypeError(TypeFailure::NotAType))
                    } else {
                        let a = at_depth(s, 1)->Type_0;
                        let b = at_depth(s, 0)->Type_0;
                        Ok(m.drop(2).push(flag(compatible(a, b) && compatible(b, a))))
                    },
                ),
                Operation::TypeToString => Some(
                    if s.len() < 1 {
                        Err(underflow())
                    } else if !(s.last() is Type) {
                        Err(EvaluatorError::TypeError(TypeFailure::NotAType))
                    } else {
                        Ok(m.drop(1).push(ValueView::String(type_text(s.last()->Type_0))))
                    },
                ),
                Operation::TypeQuote => Some(
                    if s.len() < 1 {
                        Err(underflow())
                    } else if !(s.last() is Type) {
                        Err(EvaluatorError::TypeError(TypeFailure::NotAType))
                    } else {
                        Ok(m.drop(1).push(ValueView::QuotedType(s.last()->Type_0)))
                    },
                ),
                Operation::TypeUnquote => Some(
                    if s.len() < 1 {
                        Err(underflow())
                    } else if !(s.last() is QuotedType) {
                        Err(EvaluatorError::TypeError(TypeFailure::NotQuoted))
                    } else {
                        Ok(m.drop(1).push(ValueView::Type(s.last()->QuotedType_0)))
                    },
                ),
                Operation::Print => Some(
                    if s.len() < 1 {
                        Err(underflow())
                    } else {
                        Ok(m.drop(1).print(value_text(s.last())))
                    },
                ),
                Operation::ShowStack => Some(
                    Ok(MachineView { output: m.output + stack_lines(s), ..m }),
                ),
                Operation::ShowResources => Some(Ok(m.print(m.resources.stats()))),
                _ => None,
            }
        },
    }
}

/// The code that a closure runs: its body, translated to code without
/// parameters where it has parameters.
pub open spec fn code_of(params: Seq<ParamView>, body: Seq<ExprView>) -> Result<
    Seq<ExprView>,
    EvaluatorError,
> {
    if params.len() == 0 {
        Ok(body)
    } else {
        match translation(param_names(params), body) {
            Ok(code) => Ok(code),
            Err(f) => Err(EvaluatorError::StackEffectError(f)),
        }
    }
}

/// The machine in the environment that a closure captured, if it captured one.
pub open spec fn in_scope(m: MachineView, env: Option<Box<EnvView>>) -> MachineView {
    match env {
        Some(e) => MachineView { env: *e, ..m },
        None => m,
    }
}

/// Whether every expression is an import.
pub open spec fn all_imports(imports: Seq<ExprView>) -> bool {
    forall|i: int| 0 <= i < imports.len() ==> (#[trigger] imports[i]) is Import
}

/// What applying the value `c` does. A closure runs its code in the
/// environment that it captured, and what it binds there is forgotten
/// afterwards; a symbol runs the operation of its name; any other value is
/// put on the stack. `fuel` bounds how deep applications nest.
pub open spec fn apply_callable(m: MachineView, c: ValueView, fuel: nat) -> Result<
    MachineView,
    EvaluatorError,
>
    decreases fuel, 1nat, m, 0nat,
{
    match c {
        ValueView::Quotation(params, body, env) => apply_closure(m, params, body, env, fuel),
        ValueView::TypedQuotation(params, body, _, env) => apply_closure(
            m,
            params,
            body,
            env,
            fuel,
        ),
        ValueView::Symbol(name) => if fuel == 0 {
            Err(eval_error(EvalFailure::DepthExceeded))
        } else {
            run_named(m, name, (fuel - 1) as nat)
        },
        _ => Ok(m.push(c)),
    }
}

/// What applying a closure does.
pub open spec fn apply_closure(
    m: MachineView,
    params: Seq<ParamView>,
    body: Seq<ExprView>,
    env: Option<Box<EnvView>>,
    fuel: nat,
) -> Result<MachineView, EvaluatorError>
    decreases fuel, 0nat, m, 0nat,
{
    if fuel == 0 {
        Err(eval_error(EvalFailure::DepthExceeded))
    } else {
        match code_of(params, body) {
            Err(e) => Err(e),
            Ok(code) => match run_body(
                in_scope(m, env),
                code,
                code.len() as int,
                (fuel - 1) as nat,
            ) {
                Err(e) => Err(e),
                Ok(after) => Ok(MachineView { env: m.env, ..after }),
            },
        }
    }
}

/// What applying `c` does after `v` was put on the stack.
pub open spec fn apply_to(m: MachineView, v: ValueView, c: ValueView, fuel: nat) -> Result<
    MachineView,
    EvaluatorError,
>
    decreases fuel, 2nat, m, 0nat,
{
    apply_callable(m.push(v), c, fuel)
}

/// What `cleave` does from the callable `k` on: each callable is applied
/// to a copy of `x`.
pub open spec fn cleave_from(m: MachineView, x: ValueView, cs: Seq<ValueView>, k: int, fuel: nat)
    -> Result<MachineView, EvaluatorError>
    decreases fuel, 3nat, cs, cs.len() - k,
{
    if k < 0 || k >= cs.len() {
        Ok(m)
    } else {
        match apply_to(m, x, cs[k], fuel) {
            Err(e) => Err(e),
            Ok(after) => cleave_from(after, x, cs, k + 1, fuel),
        }
    }
}

/// What `map` does from the item `k` on: the callable is applied to each
/// item, and what it leaves on top is collected in `done`.
pub open spec fn map_from(
    m: MachineView,
    items: Seq<ValueView>,
    c: ValueView,
    k: int,
    done: Seq<ValueView>,
    fuel: nat,
) -> Result<MachineView, EvaluatorError>
    decreases fuel, 3nat, items, items.len() - k,
{
    if k < 0 || k >= items.len() {
        Ok(m.push(ValueView::List(done)))
    } else {
        match apply_to(m, items[k], c, fuel) {
            Err(e) => Err(e),
            Ok(after) => if after.stack.len() < 1 {
                Err(underflow())
            } else {
                map_from(after.drop(1), items, c, k + 1, done.push(after.stack.last()), fuel)
            },
        }
    }
}

/// What `filter` does from the item `k` on: the callable is applied to
/// each item, and the items for which it leaves a true value are
/// collected in `done`.
pub open spec fn filter_from(
    m: MachineView,
    items: Seq<ValueView>,
    c: ValueView,
    k: int,
    done: Seq<ValueView>,
    fuel: nat,
) -> Result<MachineView, EvaluatorError>
    decreases fuel, 3nat, items, items.len() - k,
{
    if k < 0 || k >= items.len() {
        Ok(m.push(ValueView::List(done)))
    } else {
        match apply_to(m, items[k], c, fuel) {
            Err(e) => Err(e),
            Ok(after) => if after.stack.len() < 1 {
                Err(underflow())
            } else {
                filter_from(
                    after.drop(1),
                    items,
                    c,
                    k + 1,
                    if truthy(after.stack.last()) {
                        done.push(items[k])
                    } else {
                        done
                    },
                    fuel,
                )
            },
        }
    }
}

/// What `fold` does from the item `k` on: the callable is applied to what
/// is on the stack and each item in turn.
pub open spec fn fold_from(m: MachineView, items: Seq<ValueView>, c: ValueView, k: int, fuel: nat)
    -> Result<MachineView, EvaluatorError>
    decreases fuel, 3nat, items, items.len() - k,
{
    if k < 0 || k >= items.len() {
        Ok(m)
    } else {
        match apply_to(m, items[k], c, fuel) {
            Err(e) => Err(e),
            Ok(after) => fold_from(after, items, c, k + 1, fuel),
        }
    }
}

/// What an operation does to the machine. An operation that runs no
/// quotation does what [`simple_op`] says. `apply` applies the value on
/// top. The combinators take their quotations from the top and apply them
/// to the values below: `x q dip` and `x q keep` apply `q` to `x`, and
/// `keep` keeps a copy of `x` below; `x p q bi` and `x p q r tri` apply each
/// quotation to a copy of `x`, and so does `cleave` with a list of them;
/// `x y p q bi*` applies `p` to `x` and `q` to `y`, `x y p bi@` applies `p`
/// to both; `map`, `filter` and `fold` apply the quotation to each item of
/// a list. `with_borrowed` applies the quotation to a borrowed handle of a
/// resource, in a region of its own. `type_quasiquote` expands a quoted
/// type template.
pub open spec fn run_op(m: MachineView, op: Operation, fuel: nat) -> Result<
    MachineView,
    EvaluatorError,
>
    decreases fuel, 4nat, m, 0nat,
{
    let s = m.stack;
    match simple_op(m, op) {
        Some(r) => r,
        None => match op {
            Operation::Apply => if s.len() < 1 {
                Err(underflow())
            } else {
                apply_callable(m.drop(1), s.last(), fuel)
            },
            Operation::Dip => if s.len() < 2 {
                Err(underflow())
            } else {
                apply_to(m.drop(2), at_depth(s, 1), at_depth(s, 0), fuel)
            },
            Operation::Keep => if s.len() < 2 {
                Err(underflow())
            } else {
                apply_to(m.drop(1), at_depth(s, 1), at_depth(s, 0), fuel)
            },
            Operation::Bi => if s.len() < 3 {
                Err(underflow())
            } else {
                match apply_to(m.drop(3), at_depth(s, 2), at_depth(s, 1), fuel) {
                    Err(e) => Err(e),
                    Ok(after) => apply_to(after, at_depth(s, 2), at_depth(s, 0), fuel),
                }
            },
            Operation::Tri => if s.len() < 4 {
                Err(underflow())
            } else {
                match apply_to(m.drop(4), at_depth(s, 3), at_depth(s, 2), fuel) {
                    Err(e) => Err(e),
                    Ok(first) => match apply_to(first, at_depth(s, 3), at_depth(s, 1), fuel) {
                        Err(e) => Err(e),
                        Ok(second) => apply_to(second, at_depth(s, 3), at_depth(s, 0), fuel),
                    },
                }
            },
            Operation::BiStar => if s.len() < 4 {
                Err(underflow())
            } else {
                match apply_to(m.drop(4), at_depth(s, 3), at_depth(s, 1), fuel) {
                    Err(e) => Err(e),
                    Ok(after) => apply_to(after, at_depth(s, 2), at_depth(s, 0), fuel),
                }
            },
            Operation::BiAt => if s.len() < 3 {
                Err(underflow())
            } else {
                match apply_to(m.drop(3), at_depth(s, 2), at_depth(s, 0), fuel) {
                    Err(e) => Err(e),
                    Ok(after) => apply_to(after, at_depth(s, 1), at_depth(s, 0), fuel),
                }
            },
            Operation::Cleave => if s.len() < 2 {
                Err(underflow())
            } else if !(at_depth(s, 0) is List) {
                Err(mismatch())
            } else {
                cleave_from(m.drop(2), at_depth(s, 1), at_depth(s, 0)->List_0, 0, fuel)
            },
            Operation::MapEach => if s.len() < 2 {
                Err(underflow())
            } else if !(at_depth(s, 1) is List) {
                Err(mismatch())
            } else {
                map_from(m.drop(2), at_depth(s, 1)->List_0, at_depth(s, 0), 0, Seq::empty(), fuel)
            },
            Operation::Filter => if s.len() < 2 {
                Err(underflow())
            } else if !(at_depth(s, 1) is List) {
                Err(mismatch())
            } else {
                filter_from(
                    m.drop(2),
                    at_depth(s, 1)->List_0,
                    at_depth(s, 0),
                    0,
                    Seq::empty(),
                    fuel,
                )
            },
            Operation::Fold => if s.len() < 3 {
                Err(underflow())
            } else if !(at_depth(s, 2) is List) {
                Err(mismatch())
            } else {
                fold_from(
                    m.drop(3).push(at_depth(s, 1)),
                    at_depth(s, 2)->List_0,
                    at_depth(s, 0),
                    0,
                    fuel,
                )
            },
            Operation::TypeQuasiquote => if s.len() < 1 {
                Err(underflow())
            } else if !(s.last() is QuotedType) {
                Err(EvaluatorError::TypeError(TypeFailure::NotQuoted))
            } else {
                match expand(m.env, s.last()->QuotedType_0, fuel) {
                    Err(e) => Err(e),
                    Ok(t) => Ok(m.drop(1).push(ValueView::Type(t))),
                }
            },
            Operation::WithBorrowed => if s.len() < 2 {
                Err(underflow())
            } else if !(at_depth(s, 0) is Quotation) {
                Err(mismatch())
            } else if at_depth(s, 0)->Quotation_0.len() != 1 {
                Err(eval_error(EvalFailure::ArityMismatch))
            } else {
                match resource_id_of(at_depth(s, 1)) {
                    None => Err(resource_error(ResourceFailure::NotAResource)),
                    Some(id) => match m.resources.start_region().borrow(id) {
                        Err(f) => Err(resource_error(f)),
                        Ok(t) => match apply_to(
                            MachineView { resources: t, ..m.drop(2) },
                            ValueView::BorrowedResource(
                                id as nat,
                                Box::new(unwrapped(at_depth(s, 1))),
                            ),
                            at_depth(s, 0),
                            fuel,
                        ) {
                            Err(e) => Err(e),
                            Ok(after) => match after.resources.end_region() {
                                Err(f) => Err(resource_error(f)),
                                Ok(closed) => Ok(MachineView { resources: closed, ..after }),
                            },
                        },
                    },
                }
            },
            _ => Err(eval_error(EvalFailure::Unsupported)),
        },
    }
}

/// What the operation of the given name does to the machine.
pub open spec fn run_named(m: MachineView, name: Seq<char>, fuel: nat) -> Result<
    MachineView,
    EvaluatorError,
>
    decreases fuel, 5nat, m, 0nat,
{
    match operation_named(name) {
        None => Err(eval_error(EvalFailure::UnknownOperation)),
        Some(op) => run_op(m, op, fuel),
    }
}

/// What a binary expression yields for the values of its two sides.
pub open spec fn binary_named(op: Seq<char>, a: ValueView, b: ValueView) -> Result<
    ValueView,
    EvaluatorError,
> {
    match operation_named(op) {
        None => Err(eval_error(EvalFailure::UnknownOperation)),
        Some(o) => match binary_result(o, a, b) {
            None => Err(eval_error(EvalFailure::UnknownOperation)),
            Some(r) => r,
        },
    }
}

/// The result of an evaluation: the machine afterwards and the value that
/// the expression yields, if it yields one.
pub type Evaluated = Result<(MachineView, Option<ValueView>), EvaluatorError>;

/// An expression that had to yield a value yielded none.
pub open spec fn no_value() -> EvaluatorError {
    eval_error(EvalFailure::NoValue)
}

/// What evaluating an expression does to the machine, and what the
/// expression yields. A literal yields its value. A symbol yields what it
/// is bound to; one that is not bound names an operation, which is run. A
/// quotation yields a closure over the environment as it is. A pipeline
/// puts what its left side yields on the stack and goes on with its right
/// side. An assignment binds the name in the current scope.
pub open spec fn eval_expr(m: MachineView, e: ExprView, fuel: nat) -> Evaluated
    decreases fuel, 6nat, e, 0nat,
{
    match e {
        ExprView::Number(n) => Ok((m, Some(ValueView::Number(n)))),
        ExprView::String(s) => Ok((m, Some(ValueView::String(s)))),
        ExprView::Boolean(b) => Ok((m, Some(flag(b)))),
        ExprView::Nil => Ok((m, Some(ValueView::Nil))),
        ExprView::Symbol(s) => match env_lookup(m.env, s) {
            Some(v) => Ok((m, Some(v))),
            None => match run_named(m, s, fuel) {
                Err(e) => Err(e),
                Ok(after) => Ok((after, None)),
            },
        },
        ExprView::Quotation(params, body) => Ok(
            (m, Some(ValueView::Quotation(params, body, Some(Box::new(m.env))))),
        ),
        ExprView::TypedQuotation(params, body, t) => Ok(
            (m, Some(ValueView::TypedQuotation(params, body, t, Some(Box::new(m.env))))),
        ),
        ExprView::Pipeline(left, right) => match eval_expr(m, *left, fuel) {
            Err(e) => Err(e),
            Ok((mid, v)) => eval_expr(mid.push_yield(v), *right, fuel),
        },
        ExprView::Binary(op, left, right) => match eval_expr(m, *left, fuel) {
            Err(e) => Err(e),
            Ok((_, None)) => Err(no_value()),
            Ok((mid, Some(a))) => match eval_expr(mid, *right, fuel) {
                Err(e) => Err(e),
                Ok((_, None)) => Err(no_value()),
                Ok((after, Some(b))) => match binary_named(op, a, b) {
                    Err(e) => Err(e),
                    Ok(v) => Ok((after, Some(v))),
                },
            },
        },
        ExprView::Assignment(value, name) => match eval_expr(m, *value, fuel) {
            Err(e) => Err(e),
            Ok((_, None)) => Err(no_value()),
            Ok((after, Some(v))) => Ok(
                (MachineView { env: after.env.bind(name, v), ..after }, Some(v)),
            ),
        },
        ExprView::Match(scrutinee, cases) => match eval_expr(m, *scrutinee, fuel) {
            Err(e) => Err(e),
            Ok((_, None)) => Err(no_value()),
            Ok((after, Some(v))) => match_from(after, v, cases, 0, fuel),
        },
        ExprView::Quote(inner) => match eval_expr(m, *inner, fuel) {
            Err(e) => Err(e),
            Ok((after, None)) => Ok((after, Some(ValueView::Quoted(Box::new(ValueView::Nil))))),
            Ok((after, Some(v))) => Ok((after, Some(ValueView::Quoted(Box::new(v))))),
        },
        ExprView::Quasiquote(inner) => match eval_expr(m, *inner, fuel) {
            Err(e) => Err(e),
            Ok((after, None)) => Ok(
                (after, Some(ValueView::Quasiquoted(Box::new(ValueView::Nil)))),
            ),
            Ok((after, Some(v))) => Ok((after, Some(ValueView::Quasiquoted(Box::new(v))))),
        },
        ExprView::Unquote(inner) => match eval_expr(m, *inner, fuel) {
            Err(e) => Err(e),
            Ok((_, None)) => Err(no_value()),
            Ok((after, Some(v))) => if v is Quoted {
                Ok((after, Some(*v->Quoted_0)))
            } else {
                Err(EvaluatorError::TypeError(TypeFailure::NotQuoted))
            },
        },
        ExprView::TypeQuote(t) => Ok((m, Some(ValueView::QuotedType(t)))),
        ExprView::TypeUnquote(inner) => match eval_expr(m, *inner, fuel) {
            Err(e) => Err(e),
            Ok((_, None)) => Err(no_value()),
            Ok((after, Some(v))) => if v is QuotedType {
                Ok((after, Some(ValueView::Type(v->QuotedType_0))))
            } else {
                Err(EvaluatorError::TypeError(TypeFailure::NotQuoted))
            },
        },
        ExprView::Module(name, imports, definitions) => if !all_imports(imports) {
            Err(eval_error(EvalFailure::Unsupported))
        } else {
            let module = ValueView::Module(name, Seq::empty());
            match define_all(
                MachineView { env: m.env.bind(name, module), ..m },
                definitions,
                definitions.len() as int,
                fuel,
            ) {
                Err(e) => Err(e),
                Ok(after) => Ok((after, Some(module))),
            }
        },
        ExprView::Sequence(items) => match run_body(m, items, items.len() as int, fuel) {
            Err(e) => Err(e),
            Ok(after) => Ok((after, None)),
        },
        _ => Err(eval_error(EvalFailure::Unsupported)),
    }
}

/// What running the first `n` expressions of `body` does: each is
/// evaluated, and what it yields is put on the stack.
pub open spec fn run_body(m: MachineView, body: Seq<ExprView>, n: int, fuel: nat) -> Result<
    MachineView,
    EvaluatorError,
>
    decreases fuel, 6nat, body, n,
{
    if n <= 0 || n > body.len() {
        Ok(m)
    } else {
        match run_body(m, body, n - 1, fuel) {
            Err(e) => Err(e),
            Ok(mid) => match eval_expr(mid, body[n - 1], fuel) {
                Err(e) => Err(e),
                Ok((after, v)) => Ok(after.push_yield(v)),
            },
        }
    }
}

/// What evaluating the first `n` definitions of a module does: what they
/// yield is dropped.
pub open spec fn define_all(m: MachineView, definitions: Seq<ExprView>, n: int, fuel: nat)
    -> Result<MachineView, EvaluatorError>
    decreases fuel, 6nat, definitions, n,
{
    if n <= 0 || n > definitions.len() {
        Ok(m)
    } else {
        match define_all(m, definitions, n - 1, fuel) {
            Err(e) => Err(e),
            Ok(mid) => match eval_expr(mid, definitions[n - 1], fuel) {
                Err(e) => Err(e),
                Ok((after, _)) => Ok(after),
            },
        }
    }
}

/// What a match does from the case `k` on, for the value `v`. `_` fits
/// every value; a literal fits a value equal to what it yields; a name
/// fits every value and is bound to it in a scope of its own, which is
/// left again after the case; no other pattern fits. The first case that
/// fits is evaluated.
pub open spec fn match_from(
    m: MachineView,
    v: ValueView,
    cases: Seq<(PatternView, ExprView)>,
    k: int,
    fuel: nat,
) -> Evaluated
    decreases fuel, 6nat, cases, cases.len() - k,
{
    if k < 0 || k >= cases.len() {
        Err(eval_error(EvalFailure::NoMatch))
    } else {
        match cases[k].0 {
            PatternView::Wildcard => eval_expr(m, cases[k].1, fuel),
            PatternView::Literal(lit) => match eval_expr(m, lit, fuel) {
                Err(e) => Err(e),
                Ok((mid, lv)) => if lv is Some && values_equal(lv->Some_0, v) {
                    eval_expr(mid, cases[k].1, fuel)
                } else {
                    match_from(mid, v, cases, k + 1, fuel)
                },
            },
            PatternView::Variable(name) => match eval_expr(
                MachineView {
                    env: EnvView { bindings: seq![(name, v)], parent: Some(Box::new(m.env)) },
                    ..m
                },
                cases[k].1,
                fuel,
            ) {
                Err(e) => Err(e),
                Ok((after, r)) => Ok((MachineView { env: m.env, ..after }, r)),
            },
            _ => match_from(m, v, cases, k + 1, fuel),
        }
    }
}

/// Whether an operation runs no quotation.
pub fn is_simple_operation(op: Operation) -> (r: bool)
    ensures
        forall|m: MachineView| r == (#[trigger] simple_op(m, op) is Some),
{
    if is_stack_operation(op) {
        return true;
    }
    match op {
        Operation::CreateResource | Operation::ConsumeResource | Operation::Borrow
        | Operation::ResourceType | Operation::TypeOf | Operation::TypeEquals
        | Operation::TypeToString | Operation::TypeQuote | Operation::TypeUnquote
        | Operation::Print | Operation::ShowStack | Operation::ShowResources => true,
        _ => false,
    }
}

/// The stack machine.
#[derive(Debug)]
pub struct Evaluator {
    /// The current scope.
    pub env: Env,
    /// The stack, its top last.
    pub stack: Vec<Value>,
    /// Where the prelude is looked for.
    pub prelude_path: String,
    /// The resources of this machine.
    pub resource_manager: ResourceManager,
    /// The lines printed and not yet taken.
    pub output: Vec<String>,
    /// How deep applications may nest.
    pub max_depth: usize,
}

impl View for Evaluator {
    type V = MachineView;

    open spec fn view(&self) -> MachineView {
        MachineView {
            env: self.env@,
            stack: values_view(self.stack@),
            resources: self.resource_manager@,
            output: strings_view(self.output@),
        }
    }
}

/// Whether a step that was to end as `expected` did: on success the machine
/// is as expected, on failure the error is. The settings never change.
pub open spec fn ended(
    before: &Evaluator,
    after: &Evaluator,
    r: Result<(), EvaluatorError>,
    expected: Result<MachineView, EvaluatorError>,
) -> bool {
    &&& after.max_depth == before.max_depth
    &&& after.prelude_path@ == before.prelude_path@
    &&& match expected {
        Ok(m) => r is Ok && after@ == m,
        Err(e) => r == Err::<(), EvaluatorError>(e),
    }
}

/// Whether an evaluation that was to end as `expected` did.
pub open spec fn evaluated(
    before: &Evaluator,
    after: &Evaluator,
    r: Result<Option<Value>, EvaluatorError>,
    expected: Evaluated,
) -> bool {
    &&& after.max_depth == before.max_depth
    &&& after.prelude_path@ == before.prelude_path@
    &&& match expected {
        Ok((m, v)) => r is Ok && after@ == m && option_view(r->Ok_0) == v,
        Err(e) => r == Err::<Option<Value>, EvaluatorError>(e),
    }
}

/// How deep applications may nest unless told otherwise.
pub const DEFAULT_MAX_DEPTH: usize = 256;

impl Clone for Evaluator {
    fn clone(&self) -> (r: Self)
        ensures
            r@ == self@,
            r.max_depth == self.max_depth,
            r.prelude_path@ == self.prelude_path@,
    {
        Evaluator {
            env: self.env.clone(),
            stack: clone_values(&self.stack),
            prelude_path: self.prelude_path.clone(),
            resource_manager: self.resource_manager.clone(),
            output: clone_texts(&self.output),
            max_depth: self.max_depth,
        }
    }
}

impl Evaluator {
    /// A machine with nothing bound, nothing on the stack and no resources.
    pub fn new() -> (r: Evaluator)
        ensures
            r@ == (MachineView {
                env: EnvView { bindings: Seq::empty(), parent: None },
                stack: Seq::empty(),
                resources: TrackerView::empty(),
                output: Seq::empty(),
            }),
            r.prelude_path@ == "src/prelude"@,
            r.max_depth == DEFAULT_MAX_DEPTH,
    {
        Evaluator::with_prelude_path("src/prelude")
    }

    /// A machine that looks for its prelude at `prelude_path`.
    pub fn with_prelude_path(prelude_path: &str) -> (r: Evaluator)
        ensures
            r@ == (MachineView {
                env: EnvView { bindings: Seq::empty(), parent: None },
                stack: Seq::empty(),
                resources: TrackerView::empty(),
                output: Seq::empty(),
            }),
            r.prelude_path@ == prelude_path@,
            r.max_depth == DEFAULT_MAX_DEPTH,
    {
        let r = Evaluator {
            env: Env::new(),
            stack: Vec::new(),
            prelude_path: prelude_path.to_owned(),
            resource_manager: ResourceManager::new(),
            output: Vec::new(),
            max_depth: DEFAULT_MAX_DEPTH,
        };
        proof {
            lemma_values_view(r.stack@);
            assert(r@.stack =~= Seq::empty());
            assert(r@.output =~= Seq::empty());
        }
        r
    }

    /// Puts `v` on top of the stack.
    pub fn push(&mut self, v: Value)
        ensures
            final(self)@ == old(self)@.push(v@),
            final(self).max_depth == old(self).max_depth,
            final(self).prelude_path@ == old(self).prelude_path@,
    {
        push_value(&mut self.stack, v);
    }

    /// Puts what an expression yielded on top of the stack.
    fn push_yield(&mut self, v: Option<Value>)
        ensures
            final(self)@ == old(self)@.push_yield(option_view(v)),
            final(self).max_depth == old(self).max_depth,
            final(self).prelude_path@ == old(self).prelude_path@,
    {
        match v {
            Some(x) => self.push(x),
            None => {},
        }
    }

    /// Takes the top of the stack.
    pub fn pop(&mut self) -> (r: Option<Value>)
        ensures
            final(self).max_depth == old(self).max_depth,
            final(self).prelude_path@ == old(self).prelude_path@,
            match r {
                Some(v) => old(self)@.stack.len() > 0 && v@ == old(self)@.stack.last()
                    && final(self)@ == old(self)@.drop(1),
                None => old(self)@.stack.len() == 0 && final(self)@ == old(self)@,
            },
    {
        let r = pop_value(&mut self.stack);
        proof {
            if r is Some {
                assert(old(self)@.stack.drop_last() =~= below(old(self)@.stack, 1));
            }
        }
        r
    }

    /// Prints a line.
    fn print_line(&mut self, line: String)
        ensures
            final(self)@ == old(self)@.print(line@),
            final(self).max_depth == old(self).max_depth,
            final(self).prelude_path@ == old(self).prelude_path@,
    {
        let ghost before = self@.output;
        self.output.push(line);
        assert(self@.output =~= before.push(line@));
    }

    /// Takes the lines printed so far.
    pub fn take_output(&mut self) -> (r: Vec<String>)
        ensures
            strings_view(r@) == old(self)@.output,
            final(self)@ == (MachineView { output: Seq::empty(), ..old(self)@ }),
            final(self).max_depth == old(self).max_depth,
            final(self).prelude_path@ == old(self).prelude_path@,
    {
        let mut taken: Vec<String> = Vec::new();
        let mut i: usize = 0;
        while i < self.output.len()
            invariant
                i <= self.output.len(),
                taken.len() == i,
                forall|j: int| 0 <= j < i ==> taken@[j]@ == self.output@[j]@,
            decreases self.output.len() - i,
        {
            taken.push(self.output[i].clone());
            i += 1;
        }
        assert(strings_view(taken@) =~= self@.output);
        self.output = Vec::new();
        assert(self@.output =~= Seq::empty());
        taken
    }

    /// Prints the stack.
    #[verifier::rlimit(40)]
    fn show_stack(&mut self)
        ensures
            final(self)@ == (MachineView {
                output: old(self)@.output + stack_lines(old(self)@.stack),
                ..old(self)@
            }),
            final(self).max_depth == old(self).max_depth,
            final(self).prelude_path@ == old(self).prelude_path@,
    {
        let ghost before = self@;
        proof {
            lemma_values_view(self.stack@);
        }
        let mut head = "Stack: ".to_owned();
        head.append(render_nat(self.stack.len() as u64).as_str());
        head.append(" items");
        self.print_line(head);
        assert(self@.output =~= before.output + stack_lines(before.stack).subrange(0, 1));
        let mut i: usize = 0;
        while i < self.stack.len()
            invariant
                i <= self.stack.len(),
                self.max_depth == old(self).max_depth,
                self.prelude_path@ == old(self).prelude_path@,
                before == old(self)@,
                self@ == (MachineView {
                    output: before.output + stack_lines(before.stack).subrange(0, i + 1),
                    ..before
                }),
            decreases self.stack.len() - i,
        {
            proof {
                lemma_values_view(self.stack@);
            }
            let mut line = render_nat(i as u64);
            line.append(": ");
            line.append(self.stack[i].to_text().as_str());
            self.print_line(line);
            assert(self@.output =~= before.output + stack_lines(before.stack).subrange(0, i + 2));
            i += 1;
        }
        proof {
            lemma_values_view(self.stack@);
            assert(stack_lines(before.stack).subrange(0, self.stack.len() + 1) =~= stack_lines(
                before.stack,
            ));
        }
    }

    /// Runs an operation that runs no quotation.
    #[verifier::rlimit(40)]
    pub(crate) fn run_simple_op(&mut self, op: Operation) -> (r: Result<(), EvaluatorError>)
        requires
            simple_op(old(self)@, op) is Some,
        ensures
            ended(old(self), final(self), r, simple_op(old(self)@, op)->Some_0),
    {
        let ghost m = self@;
        let ghost s = m.stack;
        proof {
            lemma_values_view(self.stack@);
        }
        if is_stack_operation(op) {
            return run_stack_op(op, &mut self.stack);
        }
        let n = self.stack.len();
        match op {
            Operation::CreateResource => {
                if n < 2 {
                    return Err(EvaluatorError::EvalError(EvalFailure::StackUnderflow));
                }
                match self.pop() {
                    Some(Value::String(tag)) => {
                        let value = self.pop().unwrap();
                        let resource = tag_as_resource(
                            value,
                            tag.as_str(),
                            &mut self.resource_manager,
                        );
                        self.push(resource);
                        assert(self@.stack =~= below(s, 2).push(
                            ValueView::Resource(
                                m.resources.resources.len(),
                                Box::new(unwrapped(at_depth(s, 1))),
                            ),
                        ));
                        Ok(())
                    },
                    _ => Err(EvaluatorError::TypeError(TypeFailure::OperandMismatch)),
                }
            },
            Operation::ConsumeResource => {
                match self.pop() {
                    None => Err(EvaluatorError::EvalError(EvalFailure::StackUnderflow)),
                    Some(value) => match consume_resource(&value, &mut self.resource_manager) {
                        Err(e) => Err(e),
                        Ok(inner) => {
                            self.push(inner);
                            assert(self@.stack =~= s.drop_last().push(unwrapped(s.last())));
                            Ok(())
                        },
                    },
                }
            },
            Operation::Borrow => {
                match self.pop() {
                    None => Err(EvaluatorError::EvalError(EvalFailure::StackUnderflow)),
                    Some(value) => match borrow_resource(&value, &mut self.resource_manager) {
                        Err(e) => Err(e),
                        Ok(borrowed) => {
                            self.push(borrowed);
                            assert(self@.stack =~= s.drop_last().push(
                                ValueView::BorrowedResource(
                                    resource_id_of(s.last())->Some_0 as nat,
                                    Box::new(unwrapped(s.last())),
                                ),
                            ));
                            Ok(())
                        },
                    },
                }
            },
            Operation::ResourceType => {
                match self.pop() {
                    None => Err(EvaluatorError::EvalError(EvalFailure::StackUnderflow)),
                    Some(Value::Resource(id, _)) => {
                        match self.resource_manager.resource_type(id) {
                            Err(e) => Err(e),
                            Ok(tag) => {
                                self.push(Value::String(tag));
                                Ok(())
                            },
                        }
                    },
                    Some(_) => Err(EvaluatorError::ResourceError(ResourceFailure::NotAResource)),
                }
            },
            Operation::TypeOf => {
                match self.pop() {
                    None => Err(EvaluatorError::EvalError(EvalFailure::StackUnderflow)),
                    Some(value) => {
                        self.push(Value::Type(get_value_type(&value)));
                        Ok(())
                    },
                }
            },
            Operation::TypeEquals => {
                if n < 2 {
                    return Err(EvaluatorError::EvalError(EvalFailure::StackUnderflow));
                }
                let b = self.pop().unwrap();
                let a = self.pop().unwrap();
                assert(self@.stack =~= below(s, 2));
                match (a, b) {
                    (Value::Type(t1), Value::Type(t2)) => {
                        let same = types_compatible(&t1, &t2) && types_compatible(&t2, &t1);
                        self.push(flag_value(same));
                        Ok(())
                    },
                    _ => Err(EvaluatorError::TypeError(TypeFailure::NotAType)),
                }
            },
            Operation::TypeToString => {
                match self.pop() {
                    None => Err(EvaluatorError::EvalError(EvalFailure::StackUnderflow)),
                    Some(Value::Type(t)) => {
                        self.push(Value::String(type_to_string(&t)));
                        Ok(())
                    },
                    Some(_) => Err(EvaluatorError::TypeError(TypeFailure::NotAType)),
                }
            },
            Operation::TypeQuote => {
                match self.pop() {
                    None => Err(EvaluatorError::EvalError(EvalFailure::StackUnderflow)),
                    Some(Value::Type(t)) => {
                        self.push(Value::QuotedType(t));
                        Ok(())
                    },
                    Some(_) => Err(EvaluatorError::TypeError(TypeFailure::NotAType)),
                }
            },
            Operation::TypeUnquote => {
                match self.pop() {
                    None => Err(EvaluatorError::EvalError(EvalFailure::StackUnderflow)),
                    Some(Value::QuotedType(t)) => {
                        self.push(Value::Type(t));
                        Ok(())
                    },
                    Some(_) => Err(EvaluatorError::TypeError(TypeFailure::NotQuoted)),
                }
            },
            Operation::Print => {
                match self.pop() {
                    None => Err(EvaluatorError::EvalError(EvalFailure::StackUnderflow)),
                    Some(value) => {
                        self.print_line(value.to_text());
                        Ok(())
                    },
                }
            },
            Operation::ShowStack => {
                self.show_stack();
                Ok(())
            },
            _ => {
                let text = self.resource_manager.stats();
                self.print_line(text);
                Ok(())
            },
        }
    }
}

/// Whether every expression is an import.
fn only_imports(imports: &Vec<Expr>) -> (r: bool)
    ensures
        r == all_imports(exprs_view(imports@)),
{
    proof {
        lemma_exprs_view(imports@);
    }
    let mut i: usize = 0;
    while i < imports.len()
        invariant
            i <= imports.len(),
            exprs_view(imports@).len() == imports.len(),
            forall|j: int|
                0 <= j < imports.len() ==> #[trigger] exprs_view(imports@)[j] == expr_view(
                    imports@[j],
                ),
            forall|j: int| 0 <= j < i ==> (#[trigger] exprs_view(imports@)[j]) is Import,
        decreases imports.len() - i,
    {
        match &imports[i] {
            Expr::Import(_) => {},
            _ => {
                assert(!(exprs_view(imports@)[i as int] is Import));
                return false;
            },
        }
        i += 1;
    }
    true
}

/// What a binary expression yields for the values of its two sides.
fn binary_by_name(op: &str, a: &Value, b: &Value) -> (r: Result<Value, EvaluatorError>)
    ensures
        match binary_named(op@, a@, b@) {
            Ok(v) => r is Ok && r->Ok_0@ == v,
            Err(e) => r == Err::<Value, EvaluatorError>(e),
        },
{
    match Operation::from_name(op) {
        None => Err(EvaluatorError::EvalError(EvalFailure::UnknownOperation)),
        Some(o) => match o {
            Operation::Add | Operation::Sub | Operation::Mul | Operation::Div | Operation::Mod
            | Operation::Less | Operation::Greater | Operation::LessEqual
            | Operation::GreaterEqual | Operation::Equal | Operation::NotEqual
            | Operation::SameShape | Operation::And | Operation::Or => binary_value(o, a, b),
            _ => Err(EvaluatorError::EvalError(EvalFailure::UnknownOperation)),
        },
    }
}

impl Evaluator {
    /// Applies a closure with the parameters `params`, the body `body` and
    /// the captured environment `env`.
    #[verifier::rlimit(40)]
    fn apply_closure(
        &mut self,
        params: &Vec<Param>,
        body: &Vec<Expr>,
        env: &Option<Box<Env>>,
        fuel: usize,
    ) -> (r: Result<(), EvaluatorError>)
        ensures
            ended(
                old(self),
                final(self),
                r,
                apply_closure(
                    old(self)@,
                    params_view(params@),
                    exprs_view(body@),
                    match env {
                        Some(e) => Some(Box::new(e@)),
                        None => None,
                    },
                    fuel as nat,
                ),
            ),
        decreases fuel, 0nat, body, 0nat,
    {
        if fuel == 0 {
            return Err(EvaluatorError::EvalError(EvalFailure::DepthExceeded));
        }
        let code = if params.len() == 0 {
            clone_exprs(body)
        } else {
            match translate_quotation(params.as_slice(), body.as_slice()) {
                Ok(code) => code,
                Err(e) => {
                    return Err(e);
                },
            }
        };
        let saved = self.env.clone();
        match env {
            Some(e) => {
                self.env = (**e).clone();
            },
            None => {},
        }
        match self.run_sequence(&code, fuel - 1) {
            Err(e) => Err(e),
            Ok(_) => {
                self.env = saved;
                Ok(())
            },
        }
    }

    /// Applies the value `c`.
    pub(crate) fn apply_callable(&mut self, c: Value, fuel: usize) -> (r: Result<
        (),
        EvaluatorError,
    >)
        ensures
            ended(old(self), final(self), r, apply_callable(old(self)@, c@, fuel as nat)),
        decreases fuel, 1nat, c, 0nat,
    {
        match c {
            Value::Quotation(params, body, env) => self.apply_closure(&params, &body, &env, fuel),
            Value::TypedQuotation(params, body, _, env) => self.apply_closure(
                &params,
                &body,
                &env,
                fuel,
            ),
            Value::Symbol(name) => {
                if fuel == 0 {
                    return Err(EvaluatorError::EvalError(EvalFailure::DepthExceeded));
                }
                match Operation::from_name(name.as_str()) {
                    None => Err(EvaluatorError::EvalError(EvalFailure::UnknownOperation)),
                    Some(op) => self.run_op(op, fuel - 1),
                }
            },
            other => {
                self.push(other);
                Ok(())
            },
        }
    }

    /// Puts `v` on the stack and applies `c`.
    fn apply_to(&mut self, v: Value, c: Value, fuel: usize) -> (r: Result<(), EvaluatorError>)
        ensures
            ended(old(self), final(self), r, apply_to(old(self)@, v@, c@, fuel as nat)),
        decreases fuel, 2nat, c, 0nat,
    {
        self.push(v);
        self.apply_callable(c, fuel)
    }

    /// Takes the top `n` values of the stack, the deepest one first.
    fn take_top(&mut self, n: usize) -> (r: Vec<Value>)
        requires
            n <= old(self)@.stack.len(),
        ensures
            final(self)@ == old(self)@.drop(n as int),
            final(self).max_depth == old(self).max_depth,
            final(self).prelude_path@ == old(self).prelude_path@,
            r.len() == n,
            forall|j: int| 0 <= j < n ==> (#[trigger] r@[j])@ == at_depth(old(self)@.stack, n - 1 - j),
    {
        let ghost s = self@.stack;
        proof {
            lemma_values_view(self.stack@);
        }
        let at = self.stack.len() - n;
        let r = self.stack.split_off(at);
        proof {
            lemma_values_view(self.stack@);
            lemma_values_view(r@);
            assert(self@.stack =~= below(s, n as int));
        }
        r
    }

    /// Runs an operation.
    #[verifier::rlimit(40)]
    #[verifier::loop_isolation(false)]
    pub(crate) fn run_op(&mut self, op: Operation, fuel: usize) -> (r: Result<
        (),
        EvaluatorError,
    >)
        ensures
            ended(old(self), final(self), r, run_op(old(self)@, op, fuel as nat)),
        decreases fuel, 4nat, op, 0nat,
    {
        if is_simple_operation(op) {
            return self.run_simple_op(op);
        }
        let ghost m = self@;
        let ghost s = m.stack;
        let ghost f = fuel as nat;
        proof {
            lemma_values_view(self.stack@);
        }
        let n = self.stack.len();
        match op {
            Operation::Apply => {
                match self.pop() {
                    None => Err(EvaluatorError::EvalError(EvalFailure::StackUnderflow)),
                    Some(c) => self.apply_callable(c, fuel),
                }
            },
            Operation::Dip => {
                if n < 2 {
                    return Err(EvaluatorError::EvalError(EvalFailure::StackUnderflow));
                }
                let top = self.take_top(2);
                self.apply_to(top[0].clone(), top[1].clone(), fuel)
            },
            Operation::Keep => {
                if n < 2 {
                    return Err(EvaluatorError::EvalError(EvalFailure::StackUnderflow));
                }
                let c = self.pop().unwrap();
                let x = peek_value(&self.stack, 0);
                self.apply_to(x, c, fuel)
            },
            Operation::Bi => {
                if n < 3 {
                    return Err(EvaluatorError::EvalError(EvalFailure::StackUnderflow));
                }
                let top = self.take_top(3);
                match self.apply_to(top[0].clone(), top[1].clone(), fuel) {
                    Err(e) => Err(e),
                    Ok(_) => self.apply_to(top[0].clone(), top[2].clone(), fuel),
                }
            },
            Operation::Tri => {
                if n < 4 {
                    return Err(EvaluatorError::EvalError(EvalFailure::StackUnderflow));
                }
                let top = self.take_top(4);
                match self.apply_to(top[0].clone(), top[1].clone(), fuel) {
                    Err(e) => Err(e),
                    Ok(_) => match self.apply_to(top[0].clone(), top[2].clone(), fuel) {
                        Err(e) => Err(e),
                        Ok(_) => self.apply_to(top[0].clone(), top[3].clone(), fuel),
                    },
                }
            },
            Operation::BiStar => {
                if n < 4 {
                    return Err(EvaluatorError::EvalError(EvalFailure::StackUnderflow));
                }
                let top = self.take_top(4);
                match self.apply_to(top[0].clone(), top[2].clone(), fuel) {
                    Err(e) => Err(e),
                    Ok(_) => self.apply_to(top[1].clone(), top[3].clone(), fuel),
                }
            },
            Operation::BiAt => {
                if n < 3 {
                    return Err(EvaluatorError::EvalError(EvalFailure::StackUnderflow));
                }
                let top = self.take_top(3);
                match self.apply_to(top[0].clone(), top[2].clone(), fuel) {
                    Err(e) => Err(e),
                    Ok(_) => self.apply_to(top[1].clone(), top[2].clone(), fuel),
                }
            },
            Operation::Cleave => {
                if n < 2 {
                    return Err(EvaluatorError::EvalError(EvalFailure::StackUnderflow));
                }
                let top = self.take_top(2);
                match &top[1] {
                    Value::List(callables) => {
                        let ghost cs = values_view(callables@);
                        let ghost x = top@[0]@;
                        let ghost total = cleave_from(m.drop(2), x, cs, 0, f);
                        proof {
                            lemma_values_view(callables@);
                        }
                        let mut k: usize = 0;
                        while k < callables.len()
                            invariant
                                k <= callables.len(),
                                self.max_depth == old(self).max_depth,
                                self.prelude_path@ == old(self).prelude_path@,
                                cleave_from(self@, x, cs, k as int, f) == total,
                            decreases callables.len() - k,
                        {
                            match self.apply_to(top[0].clone(), callables[k].clone(), fuel) {
                                Err(e) => {
                                    return Err(e);
                                },
                                Ok(_) => {},
                            }
                            k += 1;
                        }
                        Ok(())
                    },
                    _ => Err(EvaluatorError::TypeError(TypeFailure::OperandMismatch)),
                }
            },
            Operation::MapEach | Operation::Filter => {
                if n < 2 {
                    return Err(EvaluatorError::EvalError(EvalFailure::StackUnderflow));
                }
                let top = self.take_top(2);
                let keep = match op {
                    Operation::Filter => true,
                    _ => false,
                };
                match &top[0] {
                    Value::List(items) => {
                        let ghost views = values_view(items@);
                        let ghost c = top@[1]@;
                        let ghost total = if keep {
                            filter_from(m.drop(2), views, c, 0, Seq::empty(), f)
                        } else {
                            map_from(m.drop(2), views, c, 0, Seq::empty(), f)
                        };
                        proof {
                            lemma_values_view(items@);
                        }
                        let mut done: Vec<Value> = Vec::new();
                        proof {
                            lemma_values_view(done@);
                            assert(values_view(done@) =~= Seq::empty());
                        }
                        let mut k: usize = 0;
                        while k < items.len()
                            invariant
                                k <= items.len(),
                                self.max_depth == old(self).max_depth,
                                self.prelude_path@ == old(self).prelude_path@,
                                total == if keep {
                                    filter_from(self@, views, c, k as int, values_view(done@), f)
                                } else {
                                    map_from(self@, views, c, k as int, values_view(done@), f)
                                },
                            decreases items.len() - k,
                        {
                            match self.apply_to(items[k].clone(), top[1].clone(), fuel) {
                                Err(e) => {
                                    return Err(e);
                                },
                                Ok(_) => {},
                            }
                            match self.pop() {
                                None => {
                                    return Err(
                                        EvaluatorError::EvalError(EvalFailure::StackUnderflow),
                                    );
                                },
                                Some(result) => {
                                    if !keep {
                                        push_value(&mut done, result);
                                    } else if is_truthy(&result) {
                                        push_value(&mut done, items[k].clone());
                                    }
                                },
                            }
                            k += 1;
                        }
                        self.push(Value::List(done));
                        Ok(())
                    },
                    _ => Err(EvaluatorError::TypeError(TypeFailure::OperandMismatch)),
                }
            },
            Operation::Fold => {
                if n < 3 {
                    return Err(EvaluatorError::EvalError(EvalFailure::StackUnderflow));
                }
                let top = self.take_top(3);
                match &top[0] {
                    Value::List(items) => {
                        let ghost views = values_view(items@);
                        let ghost c = top@[2]@;
                        let ghost total = fold_from(m.drop(3).push(top@[1]@), views, c, 0, f);
                        proof {
                            lemma_values_view(items@);
                        }
                        self.push(top[1].clone());
                        let mut k: usize = 0;
                        while k < items.len()
                            invariant
                                k <= items.len(),
                                self.max_depth == old(self).max_depth,
                                self.prelude_path@ == old(self).prelude_path@,
                                fold_from(self@, views, c, k as int, f) == total,
                            decreases items.len() - k,
                        {
                            match self.apply_to(items[k].clone(), top[2].clone(), fuel) {
                                Err(e) => {
                                    return Err(e);
                                },
                                Ok(_) => {},
                            }
                            k += 1;
                        }
                        Ok(())
                    },
                    _ => Err(EvaluatorError::TypeError(TypeFailure::OperandMismatch)),
                }
            },
            Operation::TypeQuasiquote => {
                match self.pop() {
                    None => Err(EvaluatorError::EvalError(EvalFailure::StackUnderflow)),
                    Some(Value::QuotedType(template)) => {
                        match process_type_quasiquote(&self.env, &template, fuel) {
                            Err(e) => Err(e),
                            Ok(t) => {
                                self.push(Value::Type(t));
                                Ok(())
                            },
                        }
                    },
                    Some(_) => Err(EvaluatorError::TypeError(TypeFailure::NotQuoted)),
                }
            },
            Operation::WithBorrowed => {
                if n < 2 {
                    return Err(EvaluatorError::EvalError(EvalFailure::StackUnderflow));
                }
                let top = self.take_top(2);
                match &top[1] {
                    Value::Quotation(params, _, _) => {
                        assert(top@[1]@->Quotation_0.len() == params.len());
                        if params.len() != 1 {
                            return Err(EvaluatorError::EvalError(EvalFailure::ArityMismatch));
                        }
                        self.resource_manager.start_region();
                        match borrow_resource(&top[0], &mut self.resource_manager) {
                            Err(e) => Err(e),
                            Ok(borrowed) => {
                                match self.apply_to(borrowed, top[1].clone(), fuel) {
                                    Err(e) => Err(e),
                                    Ok(_) => self.resource_manager.end_region(),
                                }
                            },
                        }
                    },
                    _ => Err(EvaluatorError::TypeError(TypeFailure::OperandMismatch)),
                }
            },
            _ => Err(EvaluatorError::EvalError(EvalFailure::Unsupported)),
        }
    }

    /// Runs the expressions of `body` one after the other: each is
    /// evaluated, and what it yields is put on the stack.
    #[verifier::loop_isolation(false)]
    pub(crate) fn run_sequence(&mut self, body: &Vec<Expr>, fuel: usize) -> (r: Result<
        (),
        EvaluatorError,
    >)
        ensures
            ended(
                old(self),
                final(self),
                r,
                run_body(old(self)@, exprs_view(body@), body@.len() as int, fuel as nat),
            ),
        decreases fuel, 6nat, body, 0nat,
    {
        let ghost m = self@;
        let ghost views = exprs_view(body@);
        proof {
            lemma_exprs_view(body@);
        }
        let mut i: usize = 0;
        while i < body.len()
            invariant
                i <= body.len(),
                self.max_depth == old(self).max_depth,
                self.prelude_path@ == old(self).prelude_path@,
                run_body(m, views, i as int, fuel as nat) == Ok::<MachineView, EvaluatorError>(
                    self@,
                ),
            decreases body.len() - i,
        {
            proof {
                vstd::std_specs::vec::axiom_vec_index_decreases(*body, i as int);
            }
            match self.eval_with(&body[i], fuel) {
                Err(e) => {
                    proof {
                        lemma_run_body_fails(m, views, i + 1, views.len() as int, fuel as nat);
                    }
                    return Err(e);
                },
                Ok(v) => {
                    self.push_yield(v);
                },
            }
            i += 1;
        }
        Ok(())
    }

    /// Evaluates the definitions of a module; what they yield is dropped.
    #[verifier::loop_isolation(false)]
    fn define_all(&mut self, definitions: &Vec<Expr>, fuel: usize) -> (r: Result<
        (),
        EvaluatorError,
    >)
        ensures
            ended(
                old(self),
                final(self),
                r,
                define_all(
                    old(self)@,
                    exprs_view(definitions@),
                    definitions@.len() as int,
                    fuel as nat,
                ),
            ),
        decreases fuel, 6nat, definitions, 0nat,
    {
        let ghost m = self@;
        let ghost views = exprs_view(definitions@);
        proof {
            lemma_exprs_view(definitions@);
        }
        let mut i: usize = 0;
        while i < definitions.len()
            invariant
                i <= definitions.len(),
                self.max_depth == old(self).max_depth,
                self.prelude_path@ == old(self).prelude_path@,
                define_all(m, views, i as int, fuel as nat) == Ok::<MachineView, EvaluatorError>(
                    self@,
                ),
            decreases definitions.len() - i,
        {
            proof {
                vstd::std_specs::vec::axiom_vec_index_decreases(*definitions, i as int);
            }
            match self.eval_with(&definitions[i], fuel) {
                Err(e) => {
                    proof {
                        lemma_define_all_fails(m, views, i + 1, views.len() as int, fuel as nat);
                    }
                    return Err(e);
                },
                Ok(_) => {},
            }
            i += 1;
        }
        Ok(())
    }

    /// Evaluates a symbol.
    fn eval_symbol(&mut self, expr: &Expr, fuel: usize) -> (r: Result<
        Option<Value>,
        EvaluatorError,
    >)
        requires
            expr is Symbol,
        ensures
            evaluated(old(self), final(self), r, eval_expr(old(self)@, expr@, fuel as nat)),
        decreases fuel, 6nat, expr, 0nat,
    {
        match expr {
            Expr::Symbol(s) => {
                proof {
                    assert(run_named(self@, s@, fuel as nat) == match operation_named(s@) {
                        None => Err::<MachineView, EvaluatorError>(
                            eval_error(EvalFailure::UnknownOperation),
                        ),
                        Some(op) => run_op(self@, op, fuel as nat),
                    });
                }
                match self.env.get(s.as_str()) {
                    Some(v) => Ok(Some(v)),
                    None => match Operation::from_name(s.as_str()) {
                        None => Err(EvaluatorError::EvalError(EvalFailure::UnknownOperation)),
                        Some(op) => match self.run_op(op, fuel) {
                            Err(e) => Err(e),
                            Ok(_) => Ok(None),
                        },
                    },
                }
            },
            _ => Ok(None),
        }
    }

    /// Evaluates a pipeline.
    fn eval_pipeline(&mut self, expr: &Expr, fuel: usize) -> (r: Result<
        Option<Value>,
        EvaluatorError,
    >)
        requires
            expr is Pipeline,
        ensures
            evaluated(old(self), final(self), r, eval_expr(old(self)@, expr@, fuel as nat)),
        decreases fuel, 6nat, expr, 0nat,
    {
        match expr {
            Expr::Pipeline(left, right) => {
                match self.eval_with(left, fuel) {
                    Err(e) => Err(e),
                    Ok(v) => {
                        self.push_yield(v);
                        self.eval_with(right, fuel)
                    },
                }
            },
            _ => Ok(None),
        }
    }

    /// Evaluates a binary expression.
    fn eval_binary(&mut self, expr: &Expr, fuel: usize) -> (r: Result<
        Option<Value>,
        EvaluatorError,
    >)
        requires
            expr is Binary,
        ensures
            evaluated(old(self), final(self), r, eval_expr(old(self)@, expr@, fuel as nat)),
        decreases fuel, 6nat, expr, 0nat,
    {
        match expr {
            Expr::Binary(op, left, right) => {
                match self.eval_with(left, fuel) {
                    Err(e) => Err(e),
                    Ok(None) => Err(EvaluatorError::EvalError(EvalFailure::NoValue)),
                    Ok(Some(a)) => match self.eval_with(right, fuel) {
                        Err(e) => Err(e),
                        Ok(None) => Err(EvaluatorError::EvalError(EvalFailure::NoValue)),
                        Ok(Some(b)) => match binary_by_name(op.as_str(), &a, &b) {
                            Err(e) => Err(e),
                            Ok(v) => Ok(Some(v)),
                        },
                    },
                }
            },
            _ => Ok(None),
        }
    }

    /// Evaluates an assignment.
    fn eval_assignment(&mut self, expr: &Expr, fuel: usize) -> (r: Result<
        Option<Value>,
        EvaluatorError,
    >)
        requires
            expr is Assignment,
        ensures
            evaluated(old(self), final(self), r, eval_expr(old(self)@, expr@, fuel as nat)),
        decreases fuel, 6nat, expr, 0nat,
    {
        match expr {
            Expr::Assignment(value, name) => {
                match self.eval_with(value, fuel) {
                    Err(e) => Err(e),
                    Ok(None) => Err(EvaluatorError::EvalError(EvalFailure::NoValue)),
                    Ok(Some(v)) => {
                        self.env.set(name.as_str(), v.clone());
                        Ok(Some(v))
                    },
                }
            },
            _ => Ok(None),
        }
    }

    /// Evaluates the case `k` of a match for the value `v`: what the case
    /// yields if its pattern fits, and nothing if it does not.
    #[verifier::rlimit(40)]
    fn eval_case(&mut self, v: &Value, cases: &Vec<(Pattern, Expr)>, k: usize, fuel: usize) -> (r:
        Result<Option<Option<Value>>, EvaluatorError>)
        requires
            k < cases.len(),
        ensures
            final(self).max_depth == old(self).max_depth,
            final(self).prelude_path@ == old(self).prelude_path@,
            match r {
                Ok(Some(y)) => match_from(
                    old(self)@,
                    v@,
                    match_cases_view(cases@),
                    k as int,
                    fuel as nat,
                ) == Ok::<(MachineView, Option<ValueView>), EvaluatorError>(
                    (final(self)@, option_view(y)),
                ),
                Ok(None) => match_from(
                    old(self)@,
                    v@,
                    match_cases_view(cases@),
                    k as int,
                    fuel as nat,
                ) == match_from(
                    final(self)@,
                    v@,
                    match_cases_view(cases@),
                    k + 1,
                    fuel as nat,
                ),
                Err(e) => match_from(
                    old(self)@,
                    v@,
                    match_cases_view(cases@),
                    k as int,
                    fuel as nat,
                ) == Err::<(MachineView, Option<ValueView>), EvaluatorError>(e),
            },
        decreases fuel, 6nat, cases, 0nat,
    {
        let ghost views = match_cases_view(cases@);
        proof {
            vstd::std_specs::vec::axiom_vec_index_decreases(*cases, k as int);
            assert(views[k as int] == (
                pattern_view(cases@[k as int].0),
                expr_view(cases@[k as int].1),
            ));
        }
        match &cases[k].0 {
            Pattern::Wildcard => {
                match self.eval_with(&cases[k].1, fuel) {
                    Err(e) => Err(e),
                    Ok(y) => Ok(Some(y)),
                }
            },
            Pattern::Literal(lit) => {
                match self.eval_with(lit, fuel) {
                    Err(e) => Err(e),
                    Ok(lv) => {
                        let fits = match &lv {
                            Some(x) => equal_values(x, v),
                            None => false,
                        };
                        if fits {
                            match self.eval_with(&cases[k].1, fuel) {
                                Err(e) => Err(e),
                                Ok(y) => Ok(Some(y)),
                            }
                        } else {
                            Ok(None)
                        }
                    },
                }
            },
            Pattern::Variable(name) => {
                let saved = self.env.clone();
                let mut scope = Env::with_parent(&self.env);
                scope.set(name.as_str(), v.clone());
                proof {
                    assert(scope@.bindings =~= seq![(name@, v@)]);
                }
                self.env = scope;
                match self.eval_with(&cases[k].1, fuel) {
                    Err(e) => Err(e),
                    Ok(y) => {
                        self.env = saved;
                        Ok(Some(y))
                    },
                }
            },
            _ => Ok(None),
        }
    }

    /// Evaluates a match.
    #[verifier::rlimit(40)]
    #[verifier::loop_isolation(false)]
    fn eval_match(&mut self, expr: &Expr, fuel: usize) -> (r: Result<
        Option<Value>,
        EvaluatorError,
    >)
        requires
            expr is Match,
        ensures
            evaluated(old(self), final(self), r, eval_expr(old(self)@, expr@, fuel as nat)),
        decreases fuel, 6nat, expr, 0nat,
    {
        match expr {
            Expr::Match(scrutinee, cases) => {
                match self.eval_with(scrutinee, fuel) {
                    Err(e) => Err(e),
                    Ok(None) => Err(EvaluatorError::EvalError(EvalFailure::NoValue)),
                    Ok(Some(v)) => {
                        let ghost views = match_cases_view(cases@);
                        let ghost total = match_from(self@, v@, views, 0, fuel as nat);
                        let mut k: usize = 0;
                        while k < cases.len()
                            invariant
                                k <= cases.len(),
                                *expr == Expr::Match(*scrutinee, *cases),
                                views == match_cases_view(cases@),
                                self.max_depth == old(self).max_depth,
                                self.prelude_path@ == old(self).prelude_path@,
                                match_from(self@, v@, views, k as int, fuel as nat) == total,
                            decreases cases.len() - k,
                        {
                            proof {
                                assert(decreases_to!(*expr => expr->Match_1));
                            }
                            match self.eval_case(&v, cases, k, fuel) {
                                Err(e) => {
                                    return Err(e);
                                },
                                Ok(Some(y)) => {
                                    return Ok(y);
                                },
                                Ok(None) => {},
                            }
                            k += 1;
                        }
                        Err(EvaluatorError::EvalError(EvalFailure::NoMatch))
                    },
                }
            },
            _ => Ok(None),
        }
    }

    /// Evaluates a quote or a quasiquote.
    fn eval_quote(&mut self, expr: &Expr, fuel: usize) -> (r: Result<
        Option<Value>,
        EvaluatorError,
    >)
        requires
            expr is Quote || expr is Quasiquote,
        ensures
            evaluated(old(self), final(self), r, eval_expr(old(self)@, expr@, fuel as nat)),
        decreases fuel, 6nat, expr, 0nat,
    {
        match expr {
            Expr::Quote(inner) => {
                match self.eval_with(inner, fuel) {
                    Err(e) => Err(e),
                    Ok(None) => {
                        let nil = Value::Nil;
                        assert(nil@ == ValueView::Nil);
                        Ok(Some(Value::Quoted(Box::new(nil))))
                    },
                    Ok(Some(v)) => Ok(Some(Value::Quoted(Box::new(v)))),
                }
            },
            Expr::Quasiquote(inner) => {
                match self.eval_with(inner, fuel) {
                    Err(e) => Err(e),
                    Ok(None) => {
                        let nil = Value::Nil;
                        assert(nil@ == ValueView::Nil);
                        Ok(Some(Value::Quasiquoted(Box::new(nil))))
                    },
                    Ok(Some(v)) => Ok(Some(Value::Quasiquoted(Box::new(v)))),
                }
            },
            _ => Ok(None),
        }
    }

    /// Evaluates an unquote or a type unquote.
    fn eval_unquote(&mut self, expr: &Expr, fuel: usize) -> (r: Result<
        Option<Value>,
        EvaluatorError,
    >)
        requires
            expr is Unquote || expr is TypeUnquote,
        ensures
            evaluated(old(self), final(self), r, eval_expr(old(self)@, expr@, fuel as nat)),
        decreases fuel, 6nat, expr, 0nat,
    {
        match expr {
            Expr::Unquote(inner) => {
                match self.eval_with(inner, fuel) {
                    Err(e) => Err(e),
                    Ok(None) => Err(EvaluatorError::EvalError(EvalFailure::NoValue)),
                    Ok(Some(v)) => match v {
                        Value::Quoted(q) => Ok(Some(*q)),
                        _ => Err(EvaluatorError::TypeError(TypeFailure::NotQuoted)),
                    },
                }
            },
            Expr::TypeUnquote(inner) => {
                match self.eval_with(inner, fuel) {
                    Err(e) => Err(e),
                    Ok(None) => Err(EvaluatorError::EvalError(EvalFailure::NoValue)),
                    Ok(Some(v)) => match v {
                        Value::QuotedType(t) => Ok(Some(Value::Type(t))),
                        _ => Err(EvaluatorError::TypeError(TypeFailure::NotQuoted)),
                    },
                }
            },
            _ => Ok(None),
        }
    }

    /// Evaluates a module.
    #[verifier::rlimit(40)]
    fn eval_module(&mut self, expr: &Expr, fuel: usize) -> (r: Result<
        Option<Value>,
        EvaluatorError,
    >)
        requires
            expr is Module,
        ensures
            evaluated(old(self), final(self), r, eval_expr(old(self)@, expr@, fuel as nat)),
        decreases fuel, 6nat, expr, 0nat,
    {
        match expr {
            Expr::Module(name, imports, definitions) => {
                if !only_imports(imports) {
                    return Err(EvaluatorError::EvalError(EvalFailure::Unsupported));
                }
                let exports: Vec<(String, Value)> = Vec::new();
                proof {
                    lemma_bindings_view(exports@);
                }
                let module = Value::Module(name.clone(), exports);
                assert(module@ == ValueView::Module(name@, Seq::empty())) by {
                    assert(module@->Module_1 =~= Seq::empty());
                }
                self.env.set(name.as_str(), module.clone());
                proof {
                    assert(decreases_to!(*expr => expr->Module_2));
                }
                match self.define_all(definitions, fuel) {
                    Err(e) => Err(e),
                    Ok(_) => Ok(Some(module)),
                }
            },
            _ => Ok(None),
        }
    }

    /// Evaluates `expr` with applications nested at most `fuel` deep.
    #[verifier::rlimit(40)]
    pub(crate) fn eval_with(&mut self, expr: &Expr, fuel: usize) -> (r: Result<
        Option<Value>,
        EvaluatorError,
    >)
        ensures
            evaluated(old(self), final(self), r, eval_expr(old(self)@, expr@, fuel as nat)),
        decreases fuel, 6nat, expr, 1nat,
    {
        match expr {
            Expr::Number(n) => Ok(Some(Value::Number(*n))),
            Expr::String(s) => Ok(Some(Value::String(s.clone()))),
            Expr::Boolean(b) => Ok(Some(flag_value(*b))),
            Expr::Nil => Ok(Some(Value::Nil)),
            Expr::Symbol(_) => self.eval_symbol(expr, fuel),
            Expr::Quotation(params, body) => Ok(
                Some(
                    Value::Quotation(
                        clone_params(params),
                        clone_exprs(body),
                        Some(Box::new(self.env.clone())),
                    ),
                ),
            ),
            Expr::TypedQuotation(params, body, t) => Ok(
                Some(
                    Value::TypedQuotation(
                        clone_params(params),
                        clone_exprs(body),
                        (**t).clone(),
                        Some(Box::new(self.env.clone())),
                    ),
                ),
            ),
            Expr::Pipeline(_, _) => self.eval_pipeline(expr, fuel),
            Expr::Binary(_, _, _) => self.eval_binary(expr, fuel),
            Expr::Assignment(_, _) => self.eval_assignment(expr, fuel),
            Expr::Match(_, _) => self.eval_match(expr, fuel),
            Expr::Quote(_) | Expr::Quasiquote(_) => self.eval_quote(expr, fuel),
            Expr::Unquote(_) | Expr::TypeUnquote(_) => self.eval_unquote(expr, fuel),
            Expr::TypeQuote(t) => Ok(Some(Value::QuotedType((**t).clone()))),
            Expr::Module(_, _, _) => self.eval_module(expr, fuel),
            Expr::Sequence(items) => {
                proof {
                    assert(decreases_to!(*expr => expr->Sequence_0));
                }
                match self.run_sequence(items, fuel) {
                    Err(e) => Err(e),
                    Ok(_) => Ok(None),
                }
            },
            _ => Err(EvaluatorError::EvalError(EvalFailure::Unsupported)),
        }
    }
}

/// Once running a body has failed, it has failed.
pub proof fn lemma_run_body_fails(m: MachineView, body: Seq<ExprView>, n: int, k: int, fuel: nat)
    requires
        0 <= n <= k <= body.len(),
        run_body(m, body, n, fuel) is Err,
    ensures
        run_body(m, body, k, fuel) == run_body(m, body, n, fuel),
    decreases k - n,
{
    if n < k {
        lemma_run_body_fails(m, body, n, k - 1, fuel);
    }
}

/// Once evaluating definitions has failed, it has failed.
pub proof fn lemma_define_all_fails(m: MachineView, body: Seq<ExprView>, n: int, k: int, fuel: nat)
    requires
        0 <= n <= k <= body.len(),
        define_all(m, body, n, fuel) is Err,
    ensures
        define_all(m, body, k, fuel) == define_all(m, body, n, fuel),
    decreases k - n,
{
    if n < k {
        lemma_define_all_fails(m, body, n, k - 1, fuel);
    }
}

/// The names that a machine binds when it is set up, each to the symbol
/// of the same name.
pub open spec fn builtin_names() -> Seq<Seq<char>> {
    seq![
        "print"@,
        "add"@,
        "sub"@,
        "mul"@,
        "dup"@,
        "drop"@,
        "swap"@,
        "rot"@,
        "over"@,
        "tuck"@,
        "pick"@,
        "list"@,
        "map"@,
        "if"@,
        "eq"@,
        "eval"@,
        "quote"@,
        "unquote"@,
        "quasiquote"@,
        "create_resource"@,
        "consume_resource"@,
        "borrow"@,
        "is_resource"@,
        "resource_type"@,
        "with_borrowed"@,
        ".s"@,
        "depth"@,
        ".resources"@,
    ]
}

/// The environment after the first `n` of `names` were bound in it, each
/// to the symbol of the same name.
pub open spec fn bind_symbols(env: EnvView, names: Seq<Seq<char>>, n: int) -> EnvView
    decreases n,
{
    if n <= 0 || n > names.len() {
        env
    } else {
        bind_symbols(env, names, n - 1).bind(names[n - 1], ValueView::Symbol(names[n - 1]))
    }
}

impl Evaluator {
    /// Binds the names of the built-in words, each to the symbol of the
    /// same name.
    pub fn initialize(&mut self) -> (r: Result<(), EvaluatorError>)
        ensures
            r is Ok,
            final(self)@ == (MachineView {
                env: bind_symbols(old(self)@.env, builtin_names(), builtin_names().len() as int),
                ..old(self)@
            }),
            final(self).max_depth == old(self).max_depth,
            final(self).prelude_path@ == old(self).prelude_path@,
    {
        let names = [
            "print",
            "add",
            "sub",
            "mul",
            "dup",
            "drop",
            "swap",
            "rot",
            "over",
            "tuck",
            "pick",
            "list",
            "map",
            "if",
            "eq",
            "eval",
            "quote",
            "unquote",
            "quasiquote",
            "create_resource",
            "consume_resource",
            "borrow",
            "is_resource",
            "resource_type",
            "with_borrowed",
            ".s",
            "depth",
            ".resources",
        ];
        let ghost before = self@;
        assert(names@.len() == builtin_names().len());
        assert(forall|j: int| 0 <= j < names@.len() ==> (#[trigger] names@[j])@ == builtin_names()[j]);
        let mut i: usize = 0;
        while i < names.len()
            invariant
                i <= names.len(),
                names@.len() == builtin_names().len(),
                forall|j: int|
                    0 <= j < names@.len() ==> (#[trigger] names@[j])@ == builtin_names()[j],
                self.max_depth == old(self).max_depth,
                self.prelude_path@ == old(self).prelude_path@,
                before == old(self)@,
                self@ == (MachineView {
                    env: bind_symbols(before.env, builtin_names(), i as int),
                    ..before
                }),
            decreases names.len() - i,
        {
            let name: &str = names[i];
            self.env.set(name, Value::Symbol(name.to_owned()));
            i += 1;
        }
        Ok(())
    }

    /// Evaluates `expr`. Applications nest as deep as the machine allows.
    /// An evaluation that fails leaves the machine as it was before: what
    /// it had done until then is undone.
    pub fn eval_expr(&mut self, expr: &Expr) -> (r: Result<Option<Value>, EvaluatorError>)
        ensures
            evaluated(
                old(self),
                final(self),
                r,
                eval_expr(old(self)@, expr@, old(self).max_depth as nat),
            ),
            r is Err ==> final(self)@ == old(self)@,
    {
        let fuel = self.max_depth;
        let before = self.clone();
        match self.eval_with(expr, fuel) {
            Ok(v) => Ok(v),
            Err(e) => {
                *self = before;
                Err(e)
            },
        }
    }

    /// Runs the operation of the given name. An operation that fails
    /// leaves the machine as it was before.
    pub fn execute_operation(&mut self, operation: &str) -> (r: Result<(), EvaluatorError>)
        ensures
            ended(
                old(self),
                final(self),
                r,
                run_named(old(self)@, operation@, old(self).max_depth as nat),
            ),
            r is Err ==> final(self)@ == old(self)@,
    {
        let fuel = self.max_depth;
        match Operation::from_name(operation) {
            None => Err(EvaluatorError::EvalError(EvalFailure::UnknownOperation)),
            Some(op) => {
                let before = self.clone();
                match self.run_op(op, fuel) {
                    Ok(()) => Ok(()),
                    Err(e) => {
                        *self = before;
                        Err(e)
                    },
                }
            },
        }
    }

    /// Makes `value` a resource of the given type.
    pub fn create_resource(&mut self, resource_type: &str, value: Value) -> (r: Value)
        ensures
            final(self)@ == (MachineView {
                resources: old(self)@.resources.create(resource_type@),
                ..old(self)@
            }),
            r@ == ValueView::Resource(
                old(self)@.resources.resources.len(),
                Box::new(unwrapped(value@)),
            ),
            final(self).max_depth == old(self).max_depth,
            final(self).prelude_path@ == old(self).prelude_path@,
    {
        tag_as_resource(value, resource_type, &mut self.resource_manager)
    }

    /// Whether `value` is a resource that may be used.
    pub fn use_resource(&self, value: &Value) -> (r: Result<(), EvaluatorError>)
        ensures
            match resource_id_of(value@) {
                None => r == Err::<(), EvaluatorError>(
                    EvaluatorError::ResourceError(ResourceFailure::NotAResource),
                ),
                Some(id) => match self@.resources.check(id) {
                    Ok(_) => r is Ok,
                    Err(e) => r == Err::<(), EvaluatorError>(EvaluatorError::ResourceError(e)),
                },
            },
    {
        use_resource(value, &self.resource_manager)
    }

    /// Consumes the resource `value` and hands out what it wraps.
    pub fn consume_resource(&mut self, value: &Value) -> (r: Result<Value, EvaluatorError>)
        ensures
            final(self).max_depth == old(self).max_depth,
            final(self).prelude_path@ == old(self).prelude_path@,
            match resource_id_of(value@) {
                None => r == Err::<Value, EvaluatorError>(
                    EvaluatorError::ResourceError(ResourceFailure::NotAResource),
                ) && final(self)@ == old(self)@,
                Some(id) => match old(self)@.resources.consume(id) {
                    Ok(t) => r is Ok && r->Ok_0@ == unwrapped(value@) && final(self)@ == (
                    MachineView { resources: t, ..old(self)@ }),
                    Err(e) => r == Err::<Value, EvaluatorError>(EvaluatorError::ResourceError(e))
                        && final(self)@ == old(self)@,
                },
            },
    {
        consume_resource(value, &mut self.resource_manager)
    }

    /// Opens a region in which resources can be borrowed.
    pub fn start_borrowing_region(&mut self)
        ensures
            final(self)@ == (MachineView {
                resources: old(self)@.resources.start_region(),
                ..old(self)@
            }),
            final(self).max_depth == old(self).max_depth,
            final(self).prelude_path@ == old(self).prelude_path@,
    {
        self.resource_manager.start_region();
    }

    /// Closes the innermost region.
    pub fn end_borrowing_region(&mut self) -> (r: Result<(), EvaluatorError>)
        ensures
            final(self).max_depth == old(self).max_depth,
            final(self).prelude_path@ == old(self).prelude_path@,
            match old(self)@.resources.end_region() {
                Ok(t) => r is Ok && final(self)@ == (MachineView { resources: t, ..old(self)@ }),
                Err(e) => r == Err::<(), EvaluatorError>(EvaluatorError::ResourceError(e))
                    && final(self)@ == old(self)@,
            },
    {
        self.resource_manager.end_region()
    }

    /// Borrows the resource `value` in the innermost region.
    pub fn borrow_resource(&mut self, value: &Value) -> (r: Result<Value, EvaluatorError>)
        ensures
            final(self).max_depth == old(self).max_depth,
            final(self).prelude_path@ == old(self).prelude_path@,
            match resource_id_of(value@) {
                None => r == Err::<Value, EvaluatorError>(
                    EvaluatorError::ResourceError(ResourceFailure::NotAResource),
                ) && final(self)@ == old(self)@,
                Some(id) => match old(self)@.resources.borrow(id) {
                    Ok(t) => r is Ok && r->Ok_0@ == ValueView::BorrowedResource(
                        id as nat,
                        Box::new(unwrapped(value@)),
                    ) && final(self)@ == (MachineView { resources: t, ..old(self)@ }),
                    Err(e) => r == Err::<Value, EvaluatorError>(EvaluatorError::ResourceError(e))
                        && final(self)@ == old(self)@,
                },
            },
    {
        borrow_resource(value, &mut self.resource_manager)
    }

    /// Fails if a resource was left unconsumed.
    pub fn check_for_resource_leaks(&self) -> (r: Result<(), EvaluatorError>)
        ensures
            r is Ok <==> !self@.resources.has_live_resource(),
            r is Err ==> r == Err::<(), EvaluatorError>(
                EvaluatorError::ResourceError(ResourceFailure::Leak),
            ),
    {
        let leaks = self.resource_manager.check_for_leaks();
        proof {
            crate::effects::lemma_leaks_iff_live(self@.resources);
            assert(crate::effects::leaks_view(leaks@).len() == leaks.len());
        }
        if leaks.len() > 0 {
            Err(EvaluatorError::ResourceError(ResourceFailure::Leak))
        } else {
            Ok(())
        }
    }

    /// A value as text; a resource that the machine knows is shown with
    /// its id and its type.
    pub fn value_to_string(&self, value: &Value) -> (r: String)
        ensures
            r@ == machine_text(value@, self@.resources),
    {
        match value {
            Value::Resource(id, _) => {
                match self.resource_manager.resource_type(*id) {
                    Ok(tag) => {
                        let mut s = "resource(".to_owned();
                        s.append(render_nat(*id as u64).as_str());
                        s.append(", ");
                        s.append(tag.as_str());
                        s.append(")");
                        s
                    },
                    Err(_) => value.to_text(),
                }
            },
            _ => value.to_text(),
        }
    }
}

/// A value as text, as a machine shows it: a resource that the machine
/// knows with its id and its type, anything else as it is.
pub open spec fn machine_text(v: ValueView, resources: TrackerView) -> Seq<char> {
    match v {
        ValueView::Resource(id, _) => if id < resources.resources.len() && id <= usize::MAX {
            "resource("@ + decimal_digits(id) + ", "@ + resources.resources[id as int].type_tag
                + ")"@
        } else {
            value_text(v)
        },
        _ => value_text(v),
    }
}

/// What evaluating a source text does and yields: the text is read as
/// one expression, which is evaluated; an expression that yields nothing
/// stands for `Nil`.
pub open spec fn eval_source(m: MachineView, source: Seq<char>, fuel: nat) -> Result<
    (MachineView, ValueView),
    EvaluatorError,
> {
    match program_at(tokens_of(source), 0) {
        Err(f) => Err(EvaluatorError::ParseError(f)),
        Ok(e) => match eval_expr(m, e, fuel) {
            Err(e) => Err(e),
            Ok((after, Some(v))) => Ok((after, v)),
            Ok((after, None)) => Ok((after, ValueView::Nil)),
        },
    }
}

impl Evaluator {
    /// Reads `input` and evaluates it. Where the text cannot be read, or
    /// its evaluation fails, the machine is left as it was before.
    pub fn eval(&mut self, input: &str) -> (r: Result<Value, EvaluatorError>)
        ensures
            final(self).max_depth == old(self).max_depth,
            final(self).prelude_path@ == old(self).prelude_path@,
            match eval_source(old(self)@, input@, old(self).max_depth as nat) {
                Ok((m, v)) => r is Ok && final(self)@ == m && r->Ok_0@ == v,
                Err(e) => r == Err::<Value, EvaluatorError>(e) && final(self)@ == old(self)@,
            },
    {
        let mut parser = Parser::new(input);
        match parser.parse() {
            Err(e) => Err(e),
            Ok(expr) => match self.eval_expr(&expr) {
                Err(e) => Err(e),
                Ok(Some(v)) => Ok(v),
                Ok(None) => {
                    let nil = Value::Nil;
                    assert(nil@ == ValueView::Nil);
                    Ok(nil)
                },
            },
        }
    }
}

impl Evaluator {
    /// The type that `expr` has before it is evaluated.
    pub fn infer_type(&self, expr: &Expr) -> (r: Result<Type, EvaluatorError>)
        ensures
            match inferred(self@.env, expr@) {
                Ok(t) => r is Ok && r->Ok_0@ == t,
                Err(f) => r == Err::<Type, EvaluatorError>(EvaluatorError::TypeError(f)),
            },
    {
        infer_type(&self.env, expr)
    }

    /// Whether `value` may stand where `expected` is asked for.
    pub fn check_type(&self, value: &Value, expected: &Type) -> (r: Result<(), EvaluatorError>)
        ensures
            match type_check(value@, expected@) {
                Ok(_) => r is Ok,
                Err(f) => r == Err::<(), EvaluatorError>(EvaluatorError::TypeError(f)),
            },
    {
        check_type(value, expected)
    }

    /// The type of a value.
    pub fn get_value_type(&self, value: &Value) -> (r: Result<Type, EvaluatorError>)
        ensures
            r is Ok,
            r->Ok_0@ == value_type(value@),
    {
        Ok(get_value_type(value))
    }

    /// Whether a value of type `actual` fits where `expected` is asked for.
    pub fn types_compatible(&self, actual: &Type, expected: &Type) -> (r: bool)
        ensures
            r == compatible(actual@, expected@),
    {
        types_compatible(actual, expected)
    }

    /// A type as text.
    pub fn type_to_string(&self, typ: &Type) -> (r: Result<String, EvaluatorError>)
        ensures
            r is Ok,
            r->Ok_0@ == type_text(typ@),
    {
        Ok(type_to_string(typ))
    }

    /// Whether a type is one of numbers.
    pub fn is_numeric_type(&self, typ: &Type) -> (r: bool)
        ensures
            r == numeric(typ@),
    {
        is_numeric_type(typ)
    }

    /// The type that the template `template` stands for.
    pub fn process_type_quasiquote(&self, template: &Type) -> (r: Result<Type, EvaluatorError>)
        ensures
            match expand(self@.env, template@, self.max_depth as nat) {
                Ok(t) => r is Ok && r->Ok_0@ == t,
                Err(e) => r == Err::<Type, EvaluatorError>(e),
            },
    {
        process_type_quasiquote(&self.env, template, self.max_depth)
    }
}

} // verus!
