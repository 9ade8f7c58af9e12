//! The types of values, and which type fits which.

use vstd::prelude::*;
use crate::env::{is_last_binding, lemma_assoc_map_absent, lemma_assoc_map_last};
use crate::errors::{EvalFailure, EvaluatorError, TypeFailure};
use crate::render::{type_text, type_to_string};
use crate::text::{chars_of, ends_with, has_suffix, same_text};
use crate::types::{
    assoc_map, cases_view, env_lookup, fields_view, lemma_types_view, lemma_values_view,
    params_view, type_view, types_view, value_view, values_view, Env, EnvView, Expr,
    ExprView, Param, ParamView, Type, TypeView, Value, ValueView,
};
use crate::values::types_equal;

verus! {

/// The type of a value without fields.
pub open spec fn simple(name: Seq<char>) -> TypeView {
    TypeView::Simple(name)
}

/// The type that every value has.
pub open spec fn any_type() -> TypeView {
    simple("Any"@)
}

/// The declared types of a parameter list; a parameter without one has any type.
pub open spec fn param_types(ps: Seq<ParamView>) -> Seq<TypeView> {
    Seq::new(
        ps.len(),
        |i: int|
            match ps[i].type_annotation {
                Some(t) => t,
                None => any_type(),
            },
    )
}

/// The type of a value. A list has the type of its items if they all have
/// one type; a resource has the linear type of what it wraps.
pub open spec fn value_type(v: ValueView) -> TypeView
    decreases v, 1nat, 0nat,
{
    match v {
        ValueView::Number(_) => simple("Num"@),
        ValueView::String(_) => simple("String"@),
        ValueView::Symbol(_) => simple("Symbol"@),
        ValueView::Quotation(ps, _, _) => TypeView::Function(
            param_types(ps),
            Box::new(any_type()),
        ),
        ValueView::TypedQuotation(ps, _, t, _) => TypeView::Function(param_types(ps), Box::new(t)),
        ValueView::List(items) => TypeView::Generic(
            "List"@,
            seq![
                if items.len() > 0 && all_of_type(items, value_type(items[0]), items.len() as int) {
                    value_type(items[0])
                } else {
                    any_type()
                },
            ],
        ),
        ValueView::Record(_) => TypeView::Generic("Map"@, seq![simple("String"@), any_type()]),
        ValueView::Type(_) => simple("Type"@),
        ValueView::QuotedType(_) => simple("QuotedType"@),
        ValueView::Resource(_, inner) => TypeView::Linear(Box::new(value_type(*inner))),
        ValueView::Nothing => simple("Nothing"@),
        ValueView::Nil => simple("Nil"@),
        _ => any_type(),
    }
}

/// Whether the first `n` of `items` have the type `t`.
pub open spec fn all_of_type(items: Seq<ValueView>, t: TypeView, n: int) -> bool
    decreases items, 0nat, n,
{
    if n <= 0 || n > items.len() {
        true
    } else {
        all_of_type(items, t, n - 1) && value_type(items[n - 1]) == t
    }
}

/// A type without fields.
fn simple_type(name: &str) -> (r: Type)
    ensures
        r@ == simple(name@),
{
    Type::Simple(name.to_owned())
}

/// The declared types of a parameter list.
fn declared_types(params: &Vec<Param>) -> (r: Vec<Type>)
    ensures
        types_view(r@) == param_types(params_view(params@)),
{
    let mut out: Vec<Type> = Vec::new();
    let mut i: usize = 0;
    while i < params.len()
        invariant
            i <= params.len(),
            out.len() == i,
            forall|j: int|
                0 <= j < i ==> type_view(out@[j]) == #[trigger] param_types(
                    params_view(params@),
                )[j],
        decreases params.len() - i,
    {
        let t = match &params[i].type_annotation {
            Some(t) => t.clone(),
            None => simple_type("Any"),
        };
        out.push(t);
        i += 1;
    }
    proof {
        lemma_types_view(out@);
        assert(types_view(out@) =~= param_types(params_view(params@)));
    }
    out
}

/// A generic type of one argument.
fn generic1(name: &str, a: Type) -> (r: Type)
    ensures
        r@ == TypeView::Generic(name@, seq![a@]),
{
    let mut args: Vec<Type> = Vec::new();
    args.push(a);
    proof {
        lemma_types_view(args@);
        assert(types_view(args@) =~= seq![a@]);
    }
    Type::Generic(name.to_owned(), args)
}

/// A generic type of two arguments.
fn generic2(name: &str, a: Type, b: Type) -> (r: Type)
    ensures
        r@ == TypeView::Generic(name@, seq![a@, b@]),
{
    let mut args: Vec<Type> = Vec::new();
    args.push(a);
    args.push(b);
    proof {
        lemma_types_view(args@);
        assert(types_view(args@) =~= seq![a@, b@]);
    }
    Type::Generic(name.to_owned(), args)
}

/// The type of a value.
#[verifier::rlimit(40)]
pub fn get_value_type(value: &Value) -> (r: Type)
    ensures
        r@ == value_type(value@),
    decreases value, 1nat, 0nat,
{
    match value {
        Value::Number(_) => simple_type("Num"),
        Value::String(_) => simple_type("String"),
        Value::Symbol(_) => simple_type("Symbol"),
        Value::Quotation(params, _, _) => Type::Function(
            declared_types(params),
            Box::new(simple_type("Any")),
        ),
        Value::TypedQuotation(params, _, result, _) => Type::Function(
            declared_types(params),
            Box::new(result.clone()),
        ),
        Value::List(items) => {
            let ghost views = values_view(items@);
            proof {
                lemma_values_view(items@);
            }
            if items.len() == 0 {
                return generic1("List", simple_type("Any"));
            }
            proof {
                assert(decreases_to!(*value => value->List_0));
                vstd::std_specs::vec::axiom_vec_index_decreases(*items, 0);
            }
            let common = get_value_type(&items[0]);
            let mut i: usize = 0;
            while i < items.len()
                invariant
                    i <= items.len(),
                    items.len() > 0,
                    *value == Value::List(*items),
                    views == values_view(items@),
                    views.len() == items.len(),
                    forall|j: int|
                        0 <= j < items.len() ==> #[trigger] views[j] == value_view(items@[j]),
                    common@ == value_type(views[0]),
                    all_of_type(views, common@, i as int),
                decreases items.len() - i,
            {
                proof {
                    assert(decreases_to!(*value => value->List_0));
                    vstd::std_specs::vec::axiom_vec_index_decreases(*items, i as int);
                }
                let t = get_value_type(&items[i]);
                if !types_equal(&t, &common) {
                    proof {
                        lemma_all_of_type_fails(views, common@, i + 1, views.len() as int);
                    }
                    return generic1("List", simple_type("Any"));
                }
                i += 1;
            }
            generic1("List", common)
        },
        Value::Record(_) => generic2("Map", simple_type("String"), simple_type("Any")),
        Value::Type(_) => simple_type("Type"),
        Value::QuotedType(_) => simple_type("QuotedType"),
        Value::Resource(_, inner) => Type::Linear(Box::new(get_value_type(inner))),
        Value::Nothing => simple_type("Nothing"),
        Value::Nil => simple_type("Nil"),
        _ => simple_type("Any"),
    }
}

/// If the first items do not all have a type, no more of them do.
pub proof fn lemma_all_of_type_fails(items: Seq<ValueView>, t: TypeView, n: int, m: int)
    requires
        0 <= n <= m <= items.len(),
        !all_of_type(items, t, n),
    ensures
        !all_of_type(items, t, m),
    decreases m - n,
{
    if n < m {
        lemma_all_of_type_fails(items, t, n, m - 1);
    }
}

/// Whether a type is one of numbers.
pub open spec fn numeric(t: TypeView) -> bool {
    t == simple("Num"@) || t == simple("Int"@) || t == simple("Float"@)
}

/// Whether a type is one of numbers.
pub fn is_numeric_type(t: &Type) -> (r: bool)
    ensures
        r == numeric(t@),
{
    match t {
        Type::Simple(name) => same_text(name.as_str(), "Num") || same_text(name.as_str(), "Int")
            || same_text(name.as_str(), "Float"),
        _ => false,
    }
}

/// Whether a value of type `actual` fits where `expected` is asked for: a
/// type fits itself, and everything fits `Any`; otherwise the two types
/// have the same form and their parts fit, a record has at least the
/// fields asked for, and a union is fitted by what fits one of its members.
pub open spec fn compatible(actual: TypeView, expected: TypeView) -> bool
    decreases expected, 1nat, 0nat,
{
    if actual == expected || expected == any_type() {
        true
    } else {
        match expected {
            TypeView::Linear(e) => actual is Linear && compatible(*actual->Linear_0, *e),
            TypeView::Optional(e) => actual is Optional && compatible(*actual->Optional_0, *e),
            TypeView::Function(ep, er) => actual is Function && actual->Function_0.len()
                == ep.len() && all_compatible(actual->Function_0, ep, ep.len() as int)
                && compatible(*actual->Function_1, *er),
            TypeView::Generic(en, ep) => actual is Generic && actual->Generic_0 == en
                && actual->Generic_1.len() == ep.len() && all_compatible(
                actual->Generic_1,
                ep,
                ep.len() as int,
            ),
            TypeView::Record(ef) => actual is Record && fields_compatible(
                actual->Record_0,
                ef,
                ef.len() as int,
            ),
            TypeView::Union(es) => any_compatible(actual, es, es.len() as int),
            _ => false,
        }
    }
}

/// Whether each of the first `n` types fits the one at its place.
pub open spec fn all_compatible(actual: Seq<TypeView>, expected: Seq<TypeView>, n: int) -> bool
    decreases expected, 0nat, n,
{
    if n <= 0 || n > expected.len() || n > actual.len() {
        true
    } else {
        all_compatible(actual, expected, n - 1) && compatible(actual[n - 1], expected[n - 1])
    }
}

/// Whether the record has each of the first `n` fields asked for, with a
/// type that fits.
pub open spec fn fields_compatible(
    actual: Seq<(Seq<char>, TypeView)>,
    expected: Seq<(Seq<char>, TypeView)>,
    n: int,
) -> bool
    decreases expected, 0nat, n,
{
    if n <= 0 || n > expected.len() {
        true
    } else {
        fields_compatible(actual, expected, n - 1) && assoc_map(actual).dom().contains(
            expected[n - 1].0,
        ) && compatible(assoc_map(actual)[expected[n - 1].0], expected[n - 1].1)
    }
}

/// Whether the type fits one of the first `n` members.
pub open spec fn any_compatible(actual: TypeView, members: Seq<TypeView>, n: int) -> bool
    decreases members, 0nat, n,
{
    if n <= 0 || n > members.len() {
        false
    } else {
        any_compatible(actual, members, n - 1) || compatible(actual, members[n - 1])
    }
}

/// If the first types do not all fit, no more of them do.
pub proof fn lemma_all_compatible_fails(a: Seq<TypeView>, e: Seq<TypeView>, n: int, m: int)
    requires
        0 <= n <= m <= e.len(),
        m <= a.len(),
        !all_compatible(a, e, n),
    ensures
        !all_compatible(a, e, m),
    decreases m - n,
{
    if n < m {
        lemma_all_compatible_fails(a, e, n, m - 1);
    }
}

/// If the first fields are not all there, no more of them are.
pub proof fn lemma_fields_compatible_fails(
    a: Seq<(Seq<char>, TypeView)>,
    e: Seq<(Seq<char>, TypeView)>,
    n: int,
    m: int,
)
    requires
        0 <= n <= m <= e.len(),
        !fields_compatible(a, e, n),
    ensures
        !fields_compatible(a, e, m),
    decreases m - n,
{
    if n < m {
        lemma_fields_compatible_fails(a, e, n, m - 1);
    }
}

/// If the type fits one of the first members, it fits one of more.
pub proof fn lemma_any_compatible_stays(a: TypeView, es: Seq<TypeView>, n: int, m: int)
    requires
        0 <= n <= m <= es.len(),
        any_compatible(a, es, n),
    ensures
        any_compatible(a, es, m),
    decreases m - n,
{
    if n < m {
        lemma_any_compatible_stays(a, es, n, m - 1);
    }
}

/// The index of the field of `fields` in force for `name`.
fn find_field(fields: &Vec<(String, Type)>, name: &str) -> (r: Option<usize>)
    ensures
        match r {
            Some(i) => is_last_binding(fields_view(fields@), name@, i as int),
            None => !assoc_map(fields_view(fields@)).dom().contains(name@),
        },
{
    let mut i: usize = fields.len();
    while i > 0
        invariant
            i <= fields.len(),
            forall|j: int| i <= j < fields.len() ==> fields_view(fields@)[j].0 != name@,
        decreases i,
    {
        i -= 1;
        if same_text(fields[i].0.as_str(), name) {
            return Some(i);
        }
    }
    proof {
        lemma_assoc_map_absent(fields_view(fields@), name@);
    }
    None
}

/// Whether each type fits the one at its place.
fn lists_compatible(actual: &Vec<Type>, expected: &Vec<Type>) -> (r: bool)
    requires
        actual.len() == expected.len(),
    ensures
        r == all_compatible(types_view(actual@), types_view(expected@), expected.len() as int),
    decreases expected, 0nat, expected.len(),
{
    let ghost a = types_view(actual@);
    let ghost e = types_view(expected@);
    proof {
        lemma_types_view(actual@);
        lemma_types_view(expected@);
    }
    let mut i: usize = 0;
    while i < expected.len()
        invariant
            i <= expected.len(),
            actual.len() == expected.len(),
            a == types_view(actual@),
            e == types_view(expected@),
            a.len() == actual.len(),
            e.len() == expected.len(),
            forall|j: int| 0 <= j < actual.len() ==> #[trigger] a[j] == type_view(actual@[j]),
            forall|j: int| 0 <= j < expected.len() ==> #[trigger] e[j] == type_view(expected@[j]),
            all_compatible(a, e, i as int),
        decreases expected.len() - i,
    {
        proof {
            vstd::std_specs::vec::axiom_vec_index_decreases(*expected, i as int);
        }
        if !types_compatible(&actual[i], &expected[i]) {
            proof {
                lemma_all_compatible_fails(a, e, i + 1, e.len() as int);
            }
            return false;
        }
        i += 1;
    }
    true
}

/// Whether a value of type `actual` fits where `expected` is asked for.
#[verifier::rlimit(40)]
#[verifier::loop_isolation(false)]
pub fn types_compatible(actual: &Type, expected: &Type) -> (r: bool)
    ensures
        r == compatible(actual@, expected@),
    decreases expected, 1nat, 0nat,
{
    if types_equal(actual, expected) {
        return true;
    }
    match expected {
        Type::Simple(name) => same_text(name.as_str(), "Any"),
        Type::Linear(e) => match actual {
            Type::Linear(a) => types_compatible(a, e),
            _ => false,
        },
        Type::Optional(e) => match actual {
            Type::Optional(a) => types_compatible(a, e),
            _ => false,
        },
        Type::Function(ep, er) => match actual {
            Type::Function(ap, ar) => {
                proof {
                    lemma_types_view(ap@);
                    lemma_types_view(ep@);
                }
                ap.len() == ep.len() && lists_compatible(ap, ep) && types_compatible(ar, er)
            },
            _ => false,
        },
        Type::Generic(en, ep) => match actual {
            Type::Generic(an, ap) => {
                proof {
                    lemma_types_view(ap@);
                    lemma_types_view(ep@);
                }
                *an == *en && ap.len() == ep.len() && lists_compatible(ap, ep)
            },
            _ => false,
        },
        Type::Record(ef) => match actual {
            Type::Record(af) => {
                let ghost a = fields_view(af@);
                let ghost e = fields_view(ef@);
                let mut i: usize = 0;
                while i < ef.len()
                    invariant
                        i <= ef.len(),
                        *expected == Type::Record(*ef),
                        a == fields_view(af@),
                        e == fields_view(ef@),
                        fields_compatible(a, e, i as int),
                    decreases ef.len() - i,
                {
                    proof {
                        assert(decreases_to!(*expected => expected->Record_0));
                        vstd::std_specs::vec::axiom_vec_index_decreases(*ef, i as int);
                    }
                    assert(e[i as int] == (ef@[i as int].0@, type_view(ef@[i as int].1)));
                    let found = match find_field(af, ef[i].0.as_str()) {
                        Some(k) => {
                            proof {
                                lemma_assoc_map_last(a, e[i as int].0, k as int);
                                assert(a[k as int] == (af@[k as int].0@, type_view(af@[k as int].1)));
                            }
                            types_compatible(&af[k].1, &ef[i].1)
                        },
                        None => false,
                    };
                    if !found {
                        proof {
                            lemma_fields_compatible_fails(a, e, i + 1, e.len() as int);
                        }
                        return false;
                    }
                    i += 1;
                }
                true
            },
            _ => false,
        },
        Type::Union(es) => {
            let ghost members = types_view(es@);
            proof {
                lemma_types_view(es@);
            }
            let mut i: usize = 0;
            while i < es.len()
                invariant
                    i <= es.len(),
                    *expected == Type::Union(*es),
                    members == types_view(es@),
                    members.len() == es.len(),
                    forall|j: int| 0 <= j < es.len() ==> #[trigger] members[j] == type_view(es@[j]),
                    !any_compatible(actual@, members, i as int),
                decreases es.len() - i,
            {
                proof {
                    assert(decreases_to!(*expected => expected->Union_0));
                    vstd::std_specs::vec::axiom_vec_index_decreases(*es, i as int);
                }
                if types_compatible(actual, &es[i]) {
                    proof {
                        lemma_any_compatible_stays(actual@, members, i + 1, members.len() as int);
                    }
                    return true;
                }
                i += 1;
            }
            false
        },
        _ => false,
    }
}

/// Whether a value may stand where `expected` is asked for: its type
/// must fit, and where a linear type is asked for the value must be a
/// resource that wraps what fits the type inside.
pub open spec fn type_check(v: ValueView, expected: TypeView) -> Result<(), TypeFailure>
    decreases expected,
{
    if !compatible(value_type(v), expected) {
        Err(TypeFailure::Incompatible)
    } else {
        match expected {
            TypeView::Linear(inner) => if v is Resource {
                type_check(*v->Resource_1, *inner)
            } else {
                Err(TypeFailure::LinearViolation)
            },
            _ => Ok(()),
        }
    }
}

/// Whether `value` may stand where `expected` is asked for.
pub fn check_type(value: &Value, expected: &Type) -> (r: Result<(), EvaluatorError>)
    ensures
        match type_check(value@, expected@) {
            Ok(_) => r is Ok,
            Err(f) => r == Err::<(), EvaluatorError>(EvaluatorError::TypeError(f)),
        },
    decreases expected,
{
    let actual = get_value_type(value);
    if !types_compatible(&actual, expected) {
        return Err(EvaluatorError::TypeError(TypeFailure::Incompatible));
    }
    match expected {
        Type::Linear(inner) => match value {
            Value::Resource(_, wrapped) => check_type(wrapped, inner),
            _ => Err(EvaluatorError::TypeError(TypeFailure::LinearViolation)),
        },
        _ => Ok(()),
    }
}

/// Whether an operator is one of arithmetic.
pub open spec fn is_arithmetic(op: Seq<char>) -> bool {
    op == "+"@ || op == "-"@ || op == "*"@ || op == "/"@
}

/// Whether an operator is a comparison.
pub open spec fn is_comparison(op: Seq<char>) -> bool {
    op == "=="@ || op == "!="@ || op == "<"@ || op == ">"@ || op == "<="@ || op == ">="@
}

/// The type that an expression has before it is evaluated. A symbol has
/// the type of what it is bound to; arithmetic on numbers gives a number, a
/// comparison gives a `Bool`; a quotation is a function of its declared
/// parameter types.
pub open spec fn inferred(env: EnvView, e: ExprView) -> Result<TypeView, TypeFailure>
    decreases e,
{
    match e {
        ExprView::Number(_) => Ok(simple("Num"@)),
        ExprView::String(_) => Ok(simple("String"@)),
        ExprView::Symbol(name) => match env_lookup(env, name) {
            Some(v) => Ok(value_type(v)),
            None => Err(TypeFailure::UnboundName),
        },
        ExprView::Quotation(ps, _) => Ok(
            TypeView::Function(param_types(ps), Box::new(any_type())),
        ),
        ExprView::TypedQuotation(ps, _, t) => Ok(TypeView::Function(param_types(ps), Box::new(t))),
        ExprView::Pipeline(_, right) => inferred(env, *right),
        ExprView::Binary(op, left, right) => if is_arithmetic(op) {
            match inferred(env, *left) {
                Err(f) => Err(f),
                Ok(lt) => match inferred(env, *right) {
                    Err(f) => Err(f),
                    Ok(rt) => if numeric(lt) && numeric(rt) {
                        Ok(simple("Num"@))
                    } else {
                        Err(TypeFailure::OperandMismatch)
                    },
                },
            }
        } else if is_comparison(op) {
            Ok(simple("Bool"@))
        } else {
            Ok(any_type())
        },
        ExprView::TypeDef(_, _, _) => Ok(simple("Type"@)),
        ExprView::Quote(inner) => match inferred(env, *inner) {
            Err(f) => Err(f),
            Ok(t) => Ok(simple("Quote["@ + type_text(t) + "]"@)),
        },
        ExprView::TypeQuote(_) => Ok(simple("QuotedType"@)),
        _ => Ok(any_type()),
    }
}

/// The type that `expr` has in `env` before it is evaluated.
pub fn infer_type(env: &Env, expr: &Expr) -> (r: Result<Type, EvaluatorError>)
    ensures
        match inferred(env@, expr@) {
            Ok(t) => r is Ok && r->Ok_0@ == t,
            Err(f) => r == Err::<Type, EvaluatorError>(EvaluatorError::TypeError(f)),
        },
    decreases expr,
{
    match expr {
        Expr::Number(_) => Ok(simple_type("Num")),
        Expr::String(_) => Ok(simple_type("String")),
        Expr::Symbol(name) => match env.get(name.as_str()) {
            Some(v) => Ok(get_value_type(&v)),
            None => Err(EvaluatorError::TypeError(TypeFailure::UnboundName)),
        },
        Expr::Quotation(params, _) => Ok(
            Type::Function(declared_types(params), Box::new(simple_type("Any"))),
        ),
        Expr::TypedQuotation(params, _, t) => Ok(
            Type::Function(declared_types(params), Box::new((**t).clone())),
        ),
        Expr::Pipeline(_, right) => infer_type(env, right),
        Expr::Binary(op, left, right) => {
            let o = op.as_str();
            if same_text(o, "+") || same_text(o, "-") || same_text(o, "*") || same_text(o, "/") {
                match infer_type(env, left) {
                    Err(e) => Err(e),
                    Ok(lt) => match infer_type(env, right) {
                        Err(e) => Err(e),
                        Ok(rt) => if is_numeric_type(&lt) && is_numeric_type(&rt) {
                            Ok(simple_type("Num"))
                        } else {
                            Err(EvaluatorError::TypeError(TypeFailure::OperandMismatch))
                        },
                    },
                }
            } else if same_text(o, "==") || same_text(o, "!=") || same_text(o, "<") || same_text(
                o,
                ">",
            ) || same_text(o, "<=") || same_text(o, ">=") {
                Ok(simple_type("Bool"))
            } else {
                Ok(simple_type("Any"))
            }
        },
        Expr::TypeDef(_, _, _) => Ok(simple_type("Type")),
        Expr::Quote(inner) => match infer_type(env, inner) {
            Err(e) => Err(e),
            Ok(t) => {
                let mut name = "Quote[".to_owned();
                name.append(type_to_string(&t).as_str());
                name.append("]");
                Ok(Type::Simple(name))
            },
        },
        Expr::TypeQuote(_) => Ok(simple_type("QuotedType")),
        _ => Ok(simple_type("Any")),
    }
}

/// The name behind a `$`, if the text begins with one.
pub open spec fn unquoted_name(name: Seq<char>) -> Option<Seq<char>> {
    if name.len() > 0 && name[0] == '$' {
        Some(name.subrange(1, name.len() as int))
    } else {
        None
    }
}

/// The name before `...`, if the text ends with that.
pub open spec fn spread_name(name: Seq<char>) -> Option<Seq<char>> {
    if has_suffix(name, "..."@) {
        Some(name.subrange(0, name.len() - 3))
    } else {
        None
    }
}

/// The error of a template that refers to a name that is not bound.
pub open spec fn unbound() -> EvaluatorError {
    EvaluatorError::TypeError(TypeFailure::UnboundName)
}

/// The text that `var` is bound to.
pub open spec fn text_bound(env: EnvView, var: Seq<char>) -> Result<Seq<char>, EvaluatorError> {
    match env_lookup(env, var) {
        Some(v) => if v is String {
            Ok(v->String_0)
        } else {
            Err(EvaluatorError::TypeError(TypeFailure::OperandMismatch))
        },
        None => Err(unbound()),
    }
}

/// A name of a template: the text that the name behind a `$` is bound to,
/// or the name itself.
pub open spec fn label_of(env: EnvView, name: Seq<char>) -> Result<Seq<char>, EvaluatorError> {
    match unquoted_name(name) {
        Some(var) => text_bound(env, var),
        None => Ok(name),
    }
}

/// The type that a template stands for. `$name` stands for the type that
/// `name` is bound to, and as the name of a generic type, of a field or of
/// a case for the text that it is bound to; a field `name...` of a record
/// stands for the fields of the record type that `name` is bound to, each
/// expanded in turn, as deep as `fuel` allows.
pub open spec fn expand(env: EnvView, t: TypeView, fuel: nat) -> Result<TypeView, EvaluatorError>
    decreases fuel, t, 0nat,
{
    match t {
        TypeView::Simple(name) => match unquoted_name(name) {
            None => Ok(t),
            Some(var) => match env_lookup(env, var) {
                Some(v) => if v is Type {
                    Ok(v->Type_0)
                } else if v is QuotedType {
                    Ok(v->QuotedType_0)
                } else {
                    Err(EvaluatorError::TypeError(TypeFailure::NotAType))
                },
                None => Err(unbound()),
            },
        },
        TypeView::Linear(inner) => match expand(env, *inner, fuel) {
            Err(e) => Err(e),
            Ok(x) => Ok(TypeView::Linear(Box::new(x))),
        },
        TypeView::Optional(inner) => match expand(env, *inner, fuel) {
            Err(e) => Err(e),
            Ok(x) => Ok(TypeView::Optional(Box::new(x))),
        },
        TypeView::Generic(name, args) => match label_of(env, name) {
            Err(e) => Err(e),
            Ok(label) => match expand_all(env, args, args.len() as int, fuel) {
                Err(e) => Err(e),
                Ok(xs) => Ok(TypeView::Generic(label, xs)),
            },
        },
        TypeView::Union(members) => match expand_all(env, members, members.len() as int, fuel) {
            Err(e) => Err(e),
            Ok(xs) => Ok(TypeView::Union(xs)),
        },
        TypeView::Record(fields) => match expand_fields(env, fields, fields.len() as int, fuel) {
            Err(e) => Err(e),
            Ok(xs) => Ok(TypeView::Record(xs)),
        },
        TypeView::Variant(cases) => match expand_cases(env, cases, cases.len() as int, fuel) {
            Err(e) => Err(e),
            Ok(xs) => Ok(TypeView::Variant(xs)),
        },
        TypeView::Function(params, result) => match expand_all(
            env,
            params,
            params.len() as int,
            fuel,
        ) {
            Err(e) => Err(e),
            Ok(xs) => match expand(env, *result, fuel) {
                Err(e) => Err(e),
                Ok(x) => Ok(TypeView::Function(xs, Box::new(x))),
            },
        },
    }
}

/// The first `n` types, expanded.
pub open spec fn expand_all(env: EnvView, ts: Seq<TypeView>, n: int, fuel: nat) -> Result<
    Seq<TypeView>,
    EvaluatorError,
>
    decreases fuel, ts, n,
{
    if n <= 0 || n > ts.len() {
        Ok(Seq::empty())
    } else {
        match expand_all(env, ts, n - 1, fuel) {
            Err(e) => Err(e),
            Ok(before) => match expand(env, ts[n - 1], fuel) {
                Err(e) => Err(e),
                Ok(x) => Ok(before.push(x)),
            },
        }
    }
}

/// The first `n` fields with their types expanded and their names as they are.
pub open spec fn expand_plain(env: EnvView, fs: Seq<(Seq<char>, TypeView)>, n: int, fuel: nat)
    -> Result<Seq<(Seq<char>, TypeView)>, EvaluatorError>
    decreases fuel, fs, n,
{
    if n <= 0 || n > fs.len() {
        Ok(Seq::empty())
    } else {
        match expand_plain(env, fs, n - 1, fuel) {
            Err(e) => Err(e),
            Ok(before) => match expand(env, fs[n - 1].1, fuel) {
                Err(e) => Err(e),
                Ok(x) => Ok(before.push((fs[n - 1].0, x))),
            },
        }
    }
}

/// The first `n` fields of a record template, expanded.
pub open spec fn expand_fields(env: EnvView, fs: Seq<(Seq<char>, TypeView)>, n: int, fuel: nat)
    -> Result<Seq<(Seq<char>, TypeView)>, EvaluatorError>
    decreases fuel, fs, n,
{
    if n <= 0 || n > fs.len() {
        Ok(Seq::empty())
    } else {
        match expand_fields(env, fs, n - 1, fuel) {
            Err(e) => Err(e),
            Ok(before) => {
                let name = fs[n - 1].0;
                if unquoted_name(name) is None && spread_name(name) is Some {
                    match env_lookup(env, spread_name(name)->Some_0) {
                        None => Err(unbound()),
                        Some(v) => if v is Type && v->Type_0 is Record {
                            if fuel == 0 {
                                Err(EvaluatorError::EvalError(EvalFailure::DepthExceeded))
                            } else {
                                let spread = v->Type_0->Record_0;
                                match expand_plain(
                                    env,
                                    spread,
                                    spread.len() as int,
                                    (fuel - 1) as nat,
                                ) {
                                    Err(e) => Err(e),
                                    Ok(more) => Ok(before + more),
                                }
                            }
                        } else {
                            Err(EvaluatorError::TypeError(TypeFailure::NotAType))
                        },
                    }
                } else {
                    match label_of(env, name) {
                        Err(e) => Err(e),
                        Ok(label) => match expand(env, fs[n - 1].1, fuel) {
                            Err(e) => Err(e),
                            Ok(x) => Ok(before.push((label, x))),
                        },
                    }
                }
            },
        }
    }
}

/// The first `n` cases of a variant template, expanded.
pub open spec fn expand_cases(
    env: EnvView,
    cs: Seq<(Seq<char>, Seq<TypeView>)>,
    n: int,
    fuel: nat,
) -> Result<Seq<(Seq<char>, Seq<TypeView>)>, EvaluatorError>
    decreases fuel, cs, n,
{
    if n <= 0 || n > cs.len() {
        Ok(Seq::empty())
    } else {
        match expand_cases(env, cs, n - 1, fuel) {
            Err(e) => Err(e),
            Ok(before) => match label_of(env, cs[n - 1].0) {
                Err(e) => Err(e),
                Ok(label) => match expand_all(env, cs[n - 1].1, cs[n - 1].1.len() as int, fuel) {
                    Err(e) => Err(e),
                    Ok(xs) => Ok(before.push((label, xs))),
                },
            },
        }
    }
}

/// The name behind a `$`, if `name` begins with one.
fn unquote_var(name: &str) -> (r: Option<String>)
    ensures
        match r {
            Some(var) => unquoted_name(name@) == Some(var@),
            None => unquoted_name(name@) is None,
        },
{
    let chars = chars_of(name);
    if chars.len() > 0 && chars[0] == '$' {
        Some(name.substring_char(1, chars.len()).to_owned())
    } else {
        None
    }
}

/// The name before `...`, if `name` ends with that.
fn spread_var(name: &str) -> (r: Option<String>)
    ensures
        match r {
            Some(var) => spread_name(name@) == Some(var@),
            None => spread_name(name@) is None,
        },
{
    proof {
        reveal_strlit("...");
    }
    let chars = chars_of(name);
    if ends_with(&chars, "...") {
        Some(name.substring_char(0, chars.len() - 3).to_owned())
    } else {
        None
    }
}

/// A name of a template, resolved.
fn resolve_label(env: &Env, name: &str) -> (r: Result<String, EvaluatorError>)
    ensures
        match label_of(env@, name@) {
            Ok(label) => r is Ok && r->Ok_0@ == label,
            Err(e) => r == Err::<String, EvaluatorError>(e),
        },
{
    match unquote_var(name) {
        None => Ok(name.to_owned()),
        Some(var) => match env.get(var.as_str()) {
            Some(Value::String(s)) => Ok(s),
            Some(_) => Err(EvaluatorError::TypeError(TypeFailure::OperandMismatch)),
            None => Err(EvaluatorError::TypeError(TypeFailure::UnboundName)),
        },
    }
}

/// The types of a template, expanded.
#[verifier::loop_isolation(false)]
fn expand_list(env: &Env, ts: &Vec<Type>, fuel: usize) -> (r: Result<Vec<Type>, EvaluatorError>)
    ensures
        match expand_all(env@, types_view(ts@), ts@.len() as int, fuel as nat) {
            Ok(xs) => r is Ok && types_view(r->Ok_0@) == xs,
            Err(e) => r == Err::<Vec<Type>, EvaluatorError>(e),
        },
    decreases fuel, ts, 0nat,
{
    let ghost views = types_view(ts@);
    proof {
        lemma_types_view(ts@);
    }
    let mut out: Vec<Type> = Vec::new();
    proof {
        lemma_types_view(out@);
        assert(types_view(out@) =~= Seq::empty());
    }
    let mut i: usize = 0;
    while i < ts.len()
        invariant
            i <= ts.len(),
            expand_all(env@, views, i as int, fuel as nat) == Ok::<Seq<TypeView>, EvaluatorError>(
                types_view(out@),
            ),
        decreases ts.len() - i,
    {
        let ghost before = types_view(out@);
        proof {
            vstd::std_specs::vec::axiom_vec_index_decreases(*ts, i as int);
        }
        match process_type_quasiquote(env, &ts[i], fuel) {
            Err(e) => {
                proof {
                    lemma_expand_all_fails(env@, views, i + 1, views.len() as int, fuel as nat);
                }
                return Err(e);
            },
            Ok(x) => {
                out.push(x);
                proof {
                    lemma_types_view(out@);
                    assert(types_view(out@) =~= before.push(x@));
                }
            },
        }
        i += 1;
    }
    Ok(out)
}

/// Once expanding a list has failed, it has failed.
pub proof fn lemma_expand_all_fails(env: EnvView, ts: Seq<TypeView>, n: int, m: int, fuel: nat)
    requires
        0 <= n <= m <= ts.len(),
        expand_all(env, ts, n, fuel) is Err,
    ensures
        expand_all(env, ts, m, fuel) == expand_all(env, ts, n, fuel),
    decreases m - n,
{
    if n < m {
        lemma_expand_all_fails(env, ts, n, m - 1, fuel);
    }
}

/// Once expanding fields has failed, it has failed.
pub proof fn lemma_expand_plain_fails(
    env: EnvView,
    fs: Seq<(Seq<char>, TypeView)>,
    n: int,
    m: int,
    fuel: nat,
)
    requires
        0 <= n <= m <= fs.len(),
        expand_plain(env, fs, n, fuel) is Err,
    ensures
        expand_plain(env, fs, m, fuel) == expand_plain(env, fs, n, fuel),
    decreases m - n,
{
    if n < m {
        lemma_expand_plain_fails(env, fs, n, m - 1, fuel);
    }
}

/// Once expanding the fields of a record has failed, it has failed.
pub proof fn lemma_expand_fields_fails(
    env: EnvView,
    fs: Seq<(Seq<char>, TypeView)>,
    n: int,
    m: int,
    fuel: nat,
)
    requires
        0 <= n <= m <= fs.len(),
        expand_fields(env, fs, n, fuel) is Err,
    ensures
        expand_fields(env, fs, m, fuel) == expand_fields(env, fs, n, fuel),
    decreases m - n,
{
    if n < m {
        lemma_expand_fields_fails(env, fs, n, m - 1, fuel);
    }
}

/// Once expanding the cases of a variant has failed, it has failed.
pub proof fn lemma_expand_cases_fails(
    env: EnvView,
    cs: Seq<(Seq<char>, Seq<TypeView>)>,
    n: int,
    m: int,
    fuel: nat,
)
    requires
        0 <= n <= m <= cs.len(),
        expand_cases(env, cs, n, fuel) is Err,
    ensures
        expand_cases(env, cs, m, fuel) == expand_cases(env, cs, n, fuel),
    decreases m - n,
{
    if n < m {
        lemma_expand_cases_fails(env, cs, n, m - 1, fuel);
    }
}

/// Fields with their types expanded and their names as they are.
#[verifier::loop_isolation(false)]
fn expand_plain_fields(env: &Env, fields: &Vec<(String, Type)>, fuel: usize) -> (r: Result<
    Vec<(String, Type)>,
    EvaluatorError,
>)
    ensures
        match expand_plain(env@, fields_view(fields@), fields@.len() as int, fuel as nat) {
            Ok(xs) => r is Ok && fields_view(r->Ok_0@) == xs,
            Err(e) => r == Err::<Vec<(String, Type)>, EvaluatorError>(e),
        },
    decreases fuel, fields, 0nat,
{
    let ghost views = fields_view(fields@);
    let mut out: Vec<(String, Type)> = Vec::new();
    assert(fields_view(out@) =~= Seq::empty());
    let mut i: usize = 0;
    while i < fields.len()
        invariant
            i <= fields.len(),
            expand_plain(env@, views, i as int, fuel as nat) == Ok::<
                Seq<(Seq<char>, TypeView)>,
                EvaluatorError,
            >(fields_view(out@)),
        decreases fields.len() - i,
    {
        let ghost before = fields_view(out@);
        proof {
            vstd::std_specs::vec::axiom_vec_index_decreases(*fields, i as int);
            assert(views[i as int] == (fields@[i as int].0@, type_view(fields@[i as int].1)));
        }
        match process_type_quasiquote(env, &fields[i].1, fuel) {
            Err(e) => {
                proof {
                    lemma_expand_plain_fails(env@, views, i + 1, views.len() as int, fuel as nat);
                }
                return Err(e);
            },
            Ok(x) => {
                out.push((fields[i].0.clone(), x));
                assert(fields_view(out@) =~= before.push((views[i as int].0, x@)));
            },
        }
        i += 1;
    }
    Ok(out)
}

/// The fields of a record template, expanded.
#[verifier::rlimit(40)]
#[verifier::loop_isolation(false)]
fn expand_record_fields(env: &Env, fields: &Vec<(String, Type)>, fuel: usize) -> (r: Result<
    Vec<(String, Type)>,
    EvaluatorError,
>)
    ensures
        match expand_fields(env@, fields_view(fields@), fields@.len() as int, fuel as nat) {
            Ok(xs) => r is Ok && fields_view(r->Ok_0@) == xs,
            Err(e) => r == Err::<Vec<(String, Type)>, EvaluatorError>(e),
        },
    decreases fuel, fields, 0nat,
{
    let ghost views = fields_view(fields@);
    let mut out: Vec<(String, Type)> = Vec::new();
    assert(fields_view(out@) =~= Seq::empty());
    let mut i: usize = 0;
    while i < fields.len()
        invariant
            i <= fields.len(),
            expand_fields(env@, views, i as int, fuel as nat) == Ok::<
                Seq<(Seq<char>, TypeView)>,
                EvaluatorError,
            >(fields_view(out@)),
        decreases fields.len() - i,
    {
        let ghost before = fields_view(out@);
        proof {
            vstd::std_specs::vec::axiom_vec_index_decreases(*fields, i as int);
            assert(views[i as int] == (fields@[i as int].0@, type_view(fields@[i as int].1)));
        }
        let name = fields[i].0.as_str();
        let spread = match unquote_var(name) {
            Some(_) => None,
            None => spread_var(name),
        };
        match spread {
            Some(var) => {
                let more = match env.get(var.as_str()) {
                    None => Err(EvaluatorError::TypeError(TypeFailure::UnboundName)),
                    Some(Value::Type(Type::Record(spread_fields))) => {
                        if fuel == 0 {
                            Err(EvaluatorError::EvalError(EvalFailure::DepthExceeded))
                        } else {
                            expand_plain_fields(env, &spread_fields, fuel - 1)
                        }
                    },
                    Some(_) => Err(EvaluatorError::TypeError(TypeFailure::NotAType)),
                };
                match more {
                    Err(e) => {
                        proof {
                            lemma_expand_fields_fails(
                                env@,
                                views,
                                i + 1,
                                views.len() as int,
                                fuel as nat,
                            );
                        }
                        return Err(e);
                    },
                    Ok(mut extra) => {
                        let ghost added = fields_view(extra@);
                        out.append(&mut extra);
                        assert(fields_view(out@) =~= before + added);
                    },
                }
            },
            None => {
                let label = match resolve_label(env, name) {
                    Err(e) => {
                        proof {
                            lemma_expand_fields_fails(
                                env@,
                                views,
                                i + 1,
                                views.len() as int,
                                fuel as nat,
                            );
                        }
                        return Err(e);
                    },
                    Ok(label) => label,
                };
                match process_type_quasiquote(env, &fields[i].1, fuel) {
                    Err(e) => {
                        proof {
                            lemma_expand_fields_fails(
                                env@,
                                views,
                                i + 1,
                                views.len() as int,
                                fuel as nat,
                            );
                        }
                        return Err(e);
                    },
                    Ok(x) => {
                        out.push((label, x));
                        assert(fields_view(out@) =~= before.push((label@, x@)));
                    },
                }
            },
        }
        i += 1;
    }
    Ok(out)
}

/// The cases of a variant template, expanded.
#[verifier::loop_isolation(false)]
fn expand_variant_cases(env: &Env, cases: &Vec<(String, Vec<Type>)>, fuel: usize) -> (r: Result<
    Vec<(String, Vec<Type>)>,
    EvaluatorError,
>)
    ensures
        match expand_cases(env@, cases_view(cases@), cases@.len() as int, fuel as nat) {
            Ok(xs) => r is Ok && cases_view(r->Ok_0@) == xs,
            Err(e) => r == Err::<Vec<(String, Vec<Type>)>, EvaluatorError>(e),
        },
    decreases fuel, cases, 0nat,
{
    let ghost views = cases_view(cases@);
    let mut out: Vec<(String, Vec<Type>)> = Vec::new();
    assert(cases_view(out@) =~= Seq::empty());
    let mut i: usize = 0;
    while i < cases.len()
        invariant
            i <= cases.len(),
            expand_cases(env@, views, i as int, fuel as nat) == Ok::<
                Seq<(Seq<char>, Seq<TypeView>)>,
                EvaluatorError,
            >(cases_view(out@)),
        decreases cases.len() - i,
    {
        let ghost before = cases_view(out@);
        proof {
            vstd::std_specs::vec::axiom_vec_index_decreases(*cases, i as int);
            assert(views[i as int] == (cases@[i as int].0@, types_view(cases@[i as int].1@)));
            lemma_types_view(cases@[i as int].1@);
        }
        let label = match resolve_label(env, cases[i].0.as_str()) {
            Err(e) => {
                proof {
                    lemma_expand_cases_fails(env@, views, i + 1, views.len() as int, fuel as nat);
                }
                return Err(e);
            },
            Ok(label) => label,
        };
        match expand_list(env, &cases[i].1, fuel) {
            Err(e) => {
                proof {
                    lemma_expand_cases_fails(env@, views, i + 1, views.len() as int, fuel as nat);
                }
                return Err(e);
            },
            Ok(xs) => {
                out.push((label, xs));
                assert(cases_view(out@) =~= before.push((label@, types_view(xs@))));
            },
        }
        i += 1;
    }
    Ok(out)
}

/// The type that the template `template` stands for in `env`.
#[verifier::rlimit(40)]
pub fn process_type_quasiquote(env: &Env, template: &Type, fuel: usize) -> (r: Result<
    Type,
    EvaluatorError,
>)
    ensures
        match expand(env@, template@, fuel as nat) {
            Ok(t) => r is Ok && r->Ok_0@ == t,
            Err(e) => r == Err::<Type, EvaluatorError>(e),
        },
    decreases fuel, template, 0nat,
{
    match template {
        Type::Simple(name) => match unquote_var(name.as_str()) {
            None => Ok(Type::Simple(name.clone())),
            Some(var) => match env.get(var.as_str()) {
                Some(Value::Type(t)) => Ok(t),
                Some(Value::QuotedType(t)) => Ok(t),
                Some(_) => Err(EvaluatorError::TypeError(TypeFailure::NotAType)),
                None => Err(EvaluatorError::TypeError(TypeFailure::UnboundName)),
            },
        },
        Type::Linear(inner) => match process_type_quasiquote(env, inner, fuel) {
            Err(e) => Err(e),
            Ok(x) => Ok(Type::Linear(Box::new(x))),
        },
        Type::Optional(inner) => match process_type_quasiquote(env, inner, fuel) {
            Err(e) => Err(e),
            Ok(x) => Ok(Type::Optional(Box::new(x))),
        },
        Type::Generic(name, args) => {
            proof {
                lemma_types_view(args@);
            }
            match resolve_label(env, name.as_str()) {
                Err(e) => Err(e),
                Ok(label) => match expand_list(env, args, fuel) {
                    Err(e) => Err(e),
                    Ok(xs) => Ok(Type::Generic(label, xs)),
                },
            }
        },
        Type::Union(members) => {
            proof {
                lemma_types_view(members@);
            }
            match expand_list(env, members, fuel) {
                Err(e) => Err(e),
                Ok(xs) => Ok(Type::Union(xs)),
            }
        },
        Type::Record(fields) => match expand_record_fields(env, fields, fuel) {
            Err(e) => Err(e),
            Ok(xs) => Ok(Type::Record(xs)),
        },
        Type::Variant(cases) => match expand_variant_cases(env, cases, fuel) {
            Err(e) => Err(e),
            Ok(xs) => Ok(Type::Variant(xs)),
        },
        Type::Function(params, result) => {
            proof {
                lemma_types_view(params@);
            }
            match expand_list(env, params, fuel) {
                Err(e) => Err(e),
                Ok(xs) => match process_type_quasiquote(env, result, fuel) {
                    Err(e) => Err(e),
                    Ok(x) => Ok(Type::Function(xs, Box::new(x))),
                },
            }
        },
    }
}

} // verus!
