//! The data model: types, patterns, expressions, runtime values and lexical
//! environments, each with the mathematical view that the contracts of the
//! crate speak of.
//!
//! A `String` is viewed as its sequence of characters, a `Vec` as the sequence
//! of the views of its items, and a list of bindings as the sequence of its
//! `(name, value)` pairs. Where such a list stands for a map, the later pair
//! of a name is the binding in force (see [`assoc_map`]).

use vstd::prelude::*;
use crate::stack_effects::{StackEffect, StackEffectView};

verus! {

/// A type expression.
#[derive(Debug, PartialEq)]
pub enum Type {
    /// A named type such as `Num`.
    Simple(String),
    /// A linear type, `!T`.
    Linear(Box<Type>),
    /// An optional type, `?T`.
    Optional(Box<Type>),
    /// A generic type applied to arguments, `List[T]`.
    Generic(String, Vec<Type>),
    /// A union of alternatives, `A | B`.
    Union(Vec<Type>),
    /// A record type: field names with their types.
    Record(Vec<(String, Type)>),
    /// A variant type: tags with the types of their fields.
    Variant(Vec<(String, Vec<Type>)>),
    /// A function type: parameter types and the result type.
    Function(Vec<Type>, Box<Type>),
}

/// The view of a [`Type`].
pub ghost enum TypeView {
    Simple(Seq<char>),
    Linear(Box<TypeView>),
    Optional(Box<TypeView>),
    Generic(Seq<char>, Seq<TypeView>),
    Union(Seq<TypeView>),
    Record(Seq<(Seq<char>, TypeView)>),
    Variant(Seq<(Seq<char>, Seq<TypeView>)>),
    Function(Seq<TypeView>, Box<TypeView>),
}

/// The view of a type.
pub open spec fn type_view(t: Type) -> TypeView
    decreases t,
{
    match t {
        Type::Simple(name) => TypeView::Simple(name@),
        Type::Linear(inner) => TypeView::Linear(Box::new(type_view(*inner))),
        Type::Optional(inner) => TypeView::Optional(Box::new(type_view(*inner))),
        Type::Generic(name, args) => TypeView::Generic(name@, types_view(args@)),
        Type::Union(members) => TypeView::Union(types_view(members@)),
        Type::Record(fields) => TypeView::Record(fields_view(fields@)),
        Type::Variant(cases) => TypeView::Variant(cases_view(cases@)),
        Type::Function(params, result) => TypeView::Function(
            types_view(params@),
            Box::new(type_view(*result)),
        ),
    }
}

/// The views of a list of types.
pub open spec fn types_view(ts: Seq<Type>) -> Seq<TypeView>
    decreases ts,
{
    Seq::new(
        ts.len(),
        |i: int|
            if 0 <= i < ts.len() {
                type_view(ts[i])
            } else {
                arbitrary()
            },
    )
}

/// The views of the fields of a record type.
pub open spec fn fields_view(fs: Seq<(String, Type)>) -> Seq<(Seq<char>, TypeView)>
    decreases fs,
{
    Seq::new(
        fs.len(),
        |i: int|
            if 0 <= i < fs.len() {
                (fs[i].0@, type_view(fs[i].1))
            } else {
                arbitrary()
            },
    )
}

/// The views of the cases of a variant type.
pub open spec fn cases_view(cs: Seq<(String, Vec<Type>)>) -> Seq<(Seq<char>, Seq<TypeView>)>
    decreases cs,
{
    Seq::new(
        cs.len(),
        |i: int|
            if 0 <= i < cs.len() {
                (cs[i].0@, types_view(cs[i].1@))
            } else {
                arbitrary()
            },
    )
}

impl View for Type {
    type V = TypeView;

    open spec fn view(&self) -> TypeView {
        type_view(*self)
    }
}

/// A type parameter of a generic type definition.
#[derive(Debug, PartialEq)]
pub struct TypeParam {
    pub name: String,
    pub is_linear: bool,
}

/// The view of a [`TypeParam`].
pub ghost struct TypeParamView {
    pub name: Seq<char>,
    pub is_linear: bool,
}

impl View for TypeParam {
    type V = TypeParamView;

    open spec fn view(&self) -> TypeParamView {
        TypeParamView { name: self.name@, is_linear: self.is_linear }
    }
}

/// The views of a list of type parameters.
pub open spec fn type_params_view(ps: Seq<TypeParam>) -> Seq<TypeParamView> {
    Seq::new(ps.len(), |i: int| ps[i]@)
}

/// A named parameter of a quotation, with its optional declared type.
#[derive(Debug, PartialEq)]
pub struct Param {
    pub name: String,
    pub type_annotation: Option<Type>,
}

/// The view of a [`Param`].
pub ghost struct ParamView {
    pub name: Seq<char>,
    pub type_annotation: Option<TypeView>,
}

/// The view of a parameter.
pub open spec fn param_view(p: Param) -> ParamView {
    ParamView {
        name: p.name@,
        type_annotation: match p.type_annotation {
            Some(t) => Some(type_view(t)),
            None => None,
        },
    }
}

/// The views of a parameter list.
pub open spec fn params_view(ps: Seq<Param>) -> Seq<ParamView> {
    Seq::new(ps.len(), |i: int| param_view(ps[i]))
}

impl View for Param {
    type V = ParamView;

    open spec fn view(&self) -> ParamView {
        param_view(*self)
    }
}

/// A pattern of a match expression.
#[derive(Debug, PartialEq)]
pub enum Pattern {
    /// `_`, which matches anything.
    Wildcard,
    /// A literal to compare with.
    Literal(Expr),
    /// A record pattern: field names with their patterns.
    Record(Vec<(String, Pattern)>),
    /// A name to bind the value to.
    Variable(String),
    /// A quoted pattern.
    Quote(Box<Pattern>),
    /// A type to test the value against.
    TypePattern(Type),
    /// A variant pattern: a tag with the patterns of its fields.
    Variant(String, Vec<Pattern>),
    /// A linear pattern.
    Linear(Box<Pattern>),
}

/// The view of a [`Pattern`].
pub ghost enum PatternView {
    Wildcard,
    Literal(ExprView),
    Record(Seq<(Seq<char>, PatternView)>),
    Variable(Seq<char>),
    Quote(Box<PatternView>),
    TypePattern(TypeView),
    Variant(Seq<char>, Seq<PatternView>),
    Linear(Box<PatternView>),
}

/// An expression of the language, as the parser hands it over.
#[derive(Debug, PartialEq)]
pub enum Expr {
    Number(i32),
    String(String),
    Boolean(bool),
    Nil,
    Symbol(String),
    /// A quotation: its named parameters and its body.
    Quotation(Vec<Param>, Vec<Expr>),
    /// A quotation with a declared result type.
    TypedQuotation(Vec<Param>, Vec<Expr>, Box<Type>),
    /// `left |> right`.
    Pipeline(Box<Expr>, Box<Expr>),
    /// A match: the scrutinee and the cases in order.
    Match(Box<Expr>, Vec<(Pattern, Expr)>),
    /// A binary operation: the operator and both operands.
    Binary(String, Box<Expr>, Box<Expr>),
    /// `expr -> name`.
    Assignment(Box<Expr>, String),
    /// A module: its name, its imports and its definitions.
    Module(String, Vec<Expr>, Vec<Expr>),
    /// An import of the named module.
    Import(String),
    /// A type definition.
    TypeDef(String, Vec<TypeParam>, Box<Type>),
    /// `'expr`.
    Quote(Box<Expr>),
    /// `$expr`.
    Unquote(Box<Expr>),
    /// A quasiquoted template.
    Quasiquote(Box<Expr>),
    /// `#Type`.
    TypeQuote(Box<Type>),
    /// `$T` in a type position.
    TypeUnquote(Box<Expr>),
    /// A function type used as an expression.
    FunctionType(Vec<Type>, Box<Type>),
    /// Expressions evaluated one after the other.
    Sequence(Vec<Expr>),
    /// A record literal: field names with their expressions.
    Record(Vec<(String, Expr)>),
    /// A tuple literal.
    Tuple(Vec<Expr>),
    /// A condition, what to do if it holds, and what to do if it does not.
    If(Box<Expr>, Box<Expr>, Box<Expr>),
    /// A declaration of a stack effect.
    StackEffect(StackEffect),
    /// `n [code] times`: a count and the code to repeat.
    Times(Box<Expr>, Box<Expr>),
    /// `[code] loop`.
    Loop(Box<Expr>),
    /// `[condition] [body] while`.
    While(Box<Expr>, Box<Expr>),
    /// `[range] [body] for`: the range, the body and the step.
    For(Box<Expr>, Box<Expr>, Box<Expr>),
    /// `[q] dip`.
    Dip(Box<Expr>),
    /// `sequence [q] map`.
    MapEach(Box<Expr>, Box<Expr>),
    /// `sequence [p] filter`.
    Filter(Box<Expr>, Box<Expr>),
    /// `sequence initial [f] fold`.
    Fold(Box<Expr>, Box<Expr>, Box<Expr>),
    /// `x [p] [q] .. cleave`: the value and the quotations.
    Cleave(Box<Expr>, Vec<Expr>),
    /// `x [p] [q] bi`.
    Bi(Box<Expr>, Box<Expr>, Box<Expr>),
    /// `x [p] [q] [r] tri`.
    Tri(Box<Expr>, Box<Expr>, Box<Expr>, Box<Expr>),
    /// `n nip`.
    Nip(Box<Expr>),
    /// `n tuck`.
    Tuck(Box<Expr>),
    /// `n pick`.
    Pick(Box<Expr>),
    /// `n roll`.
    Roll(Box<Expr>),
    /// `[q] keep`.
    Keep(Box<Expr>),
    /// `[q] dip2`.
    Dip2(Box<Expr>),
    /// `x y [p] [q] bi*`: the values and the two quotations.
    BiStar(Box<Expr>, Box<Expr>, Box<Expr>),
    /// `x y [p] bi@`: the values and the quotation.
    BiAt(Box<Expr>, Box<Expr>),
}

/// The view of an [`Expr`].
pub ghost enum ExprView {
    Number(int),
    String(Seq<char>),
    Boolean(bool),
    Nil,
    Symbol(Seq<char>),
    Quotation(Seq<ParamView>, Seq<ExprView>),
    TypedQuotation(Seq<ParamView>, Seq<ExprView>, TypeView),
    Pipeline(Box<ExprView>, Box<ExprView>),
    Match(Box<ExprView>, Seq<(PatternView, ExprView)>),
    Binary(Seq<char>, Box<ExprView>, Box<ExprView>),
    Assignment(Box<ExprView>, Seq<char>),
    Module(Seq<char>, Seq<ExprView>, Seq<ExprView>),
    Import(Seq<char>),
    TypeDef(Seq<char>, Seq<TypeParamView>, TypeView),
    Quote(Box<ExprView>),
    Unquote(Box<ExprView>),
    Quasiquote(Box<ExprView>),
    TypeQuote(TypeView),
    TypeUnquote(Box<ExprView>),
    FunctionType(Seq<TypeView>, TypeView),
    Sequence(Seq<ExprView>),
    Record(Seq<(Seq<char>, ExprView)>),
    Tuple(Seq<ExprView>),
    If(Box<ExprView>, Box<ExprView>, Box<ExprView>),
    StackEffect(StackEffectView),
    Times(Box<ExprView>, Box<ExprView>),
    Loop(Box<ExprView>),
    While(Box<ExprView>, Box<ExprView>),
    For(Box<ExprView>, Box<ExprView>, Box<ExprView>),
    Dip(Box<ExprView>),
    MapEach(Box<ExprView>, Box<ExprView>),
    Filter(Box<ExprView>, Box<ExprView>),
    Fold(Box<ExprView>, Box<ExprView>, Box<ExprView>),
    Cleave(Box<ExprView>, Seq<ExprView>),
    Bi(Box<ExprView>, Box<ExprView>, Box<ExprView>),
    Tri(Box<ExprView>, Box<ExprView>, Box<ExprView>, Box<ExprView>),
    Nip(Box<ExprView>),
    Tuck(Box<ExprView>),
    Pick(Box<ExprView>),
    Roll(Box<ExprView>),
    Keep(Box<ExprView>),
    Dip2(Box<ExprView>),
    BiStar(Box<ExprView>, Box<ExprView>, Box<ExprView>),
    BiAt(Box<ExprView>, Box<ExprView>),
}

/// The view of a pattern.
pub open spec fn pattern_view(p: Pattern) -> PatternView
    decreases p,
{
    match p {
        Pattern::Wildcard => PatternView::Wildcard,
        Pattern::Literal(e) => PatternView::Literal(expr_view(e)),
        Pattern::Record(fields) => PatternView::Record(field_patterns_view(fields@)),
        Pattern::Variable(name) => PatternView::Variable(name@),
        Pattern::Quote(inner) => PatternView::Quote(Box::new(pattern_view(*inner))),
        Pattern::TypePattern(t) => PatternView::TypePattern(type_view(t)),
        Pattern::Variant(tag, fields) => PatternView::Variant(tag@, patterns_view(fields@)),
        Pattern::Linear(inner) => PatternView::Linear(Box::new(pattern_view(*inner))),
    }
}

/// The views of a list of patterns.
pub open spec fn patterns_view(ps: Seq<Pattern>) -> Seq<PatternView>
    decreases ps,
{
    Seq::new(
        ps.len(),
        |i: int|
            if 0 <= i < ps.len() {
                pattern_view(ps[i])
            } else {
                arbitrary()
            },
    )
}

/// The views of the fields of a record pattern.
pub open spec fn field_patterns_view(fs: Seq<(String, Pattern)>) -> Seq<(Seq<char>, PatternView)>
    decreases fs,
{
    Seq::new(
        fs.len(),
        |i: int|
            if 0 <= i < fs.len() {
                (fs[i].0@, pattern_view(fs[i].1))
            } else {
                arbitrary()
            },
    )
}

/// The view of an expression.
pub open spec fn expr_view(e: Expr) -> ExprView
    decreases e,
{
    match e {
        Expr::Number(n) => ExprView::Number(n as int),
        Expr::String(s) => ExprView::String(s@),
        Expr::Boolean(b) => ExprView::Boolean(b),
        Expr::Nil => ExprView::Nil,
        Expr::Symbol(s) => ExprView::Symbol(s@),
        Expr::Quotation(params, body) => ExprView::Quotation(params_view(params@), exprs_view(body@)),
        Expr::TypedQuotation(params, body, result) => ExprView::TypedQuotation(
            params_view(params@),
            exprs_view(body@),
            type_view(*result),
        ),
        Expr::Pipeline(left, right) => ExprView::Pipeline(
            Box::new(expr_view(*left)),
            Box::new(expr_view(*right)),
        ),
        Expr::Match(scrutinee, cases) => ExprView::Match(
            Box::new(expr_view(*scrutinee)),
            match_cases_view(cases@),
        ),
        Expr::Binary(op, left, right) => ExprView::Binary(
            op@,
            Box::new(expr_view(*left)),
            Box::new(expr_view(*right)),
        ),
        Expr::Assignment(value, name) => ExprView::Assignment(Box::new(expr_view(*value)), name@),
        Expr::Module(name, imports, definitions) => ExprView::Module(
            name@,
            exprs_view(imports@),
            exprs_view(definitions@),
        ),
        Expr::Import(name) => ExprView::Import(name@),
        Expr::TypeDef(name, params, body) => ExprView::TypeDef(
            name@,
            type_params_view(params@),
            type_view(*body),
        ),
        Expr::Quote(inner) => ExprView::Quote(Box::new(expr_view(*inner))),
        Expr::Unquote(inner) => ExprView::Unquote(Box::new(expr_view(*inner))),
        Expr::Quasiquote(inner) => ExprView::Quasiquote(Box::new(expr_view(*inner))),
        Expr::TypeQuote(t) => ExprView::TypeQuote(type_view(*t)),
        Expr::TypeUnquote(inner) => ExprView::TypeUnquote(Box::new(expr_view(*inner))),
        Expr::FunctionType(params, result) => ExprView::FunctionType(
            types_view(params@),
            type_view(*result),
        ),
        Expr::Sequence(items) => ExprView::Sequence(exprs_view(items@)),
        Expr::Record(fields) => ExprView::Record(field_exprs_view(fields@)),
        Expr::Tuple(items) => ExprView::Tuple(exprs_view(items@)),
        Expr::StackEffect(effect) => ExprView::StackEffect(effect@),
        Expr::Cleave(value, quotations) => ExprView::Cleave(
            Box::new(expr_view(*value)),
            exprs_view(quotations@),
        ),
        Expr::If(a, b, c) => ExprView::If(
            Box::new(expr_view(*a)),
            Box::new(expr_view(*b)),
            Box::new(expr_view(*c)),
        ),
        Expr::Times(a, b) => ExprView::Times(
            Box::new(expr_view(*a)),
            Box::new(expr_view(*b)),
        ),
        Expr::Loop(a) => ExprView::Loop(Box::new(expr_view(*a))),
        Expr::While(a, b) => ExprView::While(
            Box::new(expr_view(*a)),
            Box::new(expr_view(*b)),
        ),
        Expr::For(a, b, c) => ExprView::For(
            Box::new(expr_view(*a)),
            Box::new(expr_view(*b)),
            Box::new(expr_view(*c)),
        ),
        Expr::Dip(a) => ExprView::Dip(Box::new(expr_view(*a))),
        Expr::MapEach(a, b) => ExprView::MapEach(
            Box::new(expr_view(*a)),
            Box::new(expr_view(*b)),
        ),
        Expr::Filter(a, b) => ExprView::Filter(
            Box::new(expr_view(*a)),
            Box::new(expr_view(*b)),
        ),
        Expr::Fold(a, b, c) => ExprView::Fold(
            Box::new(expr_view(*a)),
            Box::new(expr_view(*b)),
            Box::new(expr_view(*c)),
        ),
        Expr::Bi(a, b, c) => ExprView::Bi(
            Box::new(expr_view(*a)),
            Box::new(expr_view(*b)),
            Box::new(expr_view(*c)),
        ),
        Expr::Tri(a, b, c, d) => ExprView::Tri(
            Box::new(expr_view(*a)),
            Box::new(expr_view(*b)),
            Box::new(expr_view(*c)),
            Box::new(expr_view(*d)),
        ),
        Expr::Nip(a) => ExprView::Nip(Box::new(expr_view(*a))),
        Expr::Tuck(a) => ExprView::Tuck(Box::new(expr_view(*a))),
        Expr::Pick(a) => ExprView::Pick(Box::new(expr_view(*a))),
        Expr::Roll(a) => ExprView::Roll(Box::new(expr_view(*a))),
        Expr::Keep(a) => ExprView::Keep(Box::new(expr_view(*a))),
        Expr::Dip2(a) => ExprView::Dip2(Box::new(expr_view(*a))),
        Expr::BiStar(a, b, c) => ExprView::BiStar(
            Box::new(expr_view(*a)),
            Box::new(expr_view(*b)),
            Box::new(expr_view(*c)),
        ),
        Expr::BiAt(a, b) => ExprView::BiAt(
            Box::new(expr_view(*a)),
            Box::new(expr_view(*b)),
        ),
    }
}

/// The views of a list of expressions.
pub open spec fn exprs_view(es: Seq<Expr>) -> Seq<ExprView>
    decreases es,
{
    Seq::new(
        es.len(),
        |i: int|
            if 0 <= i < es.len() {
                expr_view(es[i])
            } else {
                arbitrary()
            },
    )
}

/// The views of the fields of a record literal.
pub open spec fn field_exprs_view(fs: Seq<(String, Expr)>) -> Seq<(Seq<char>, ExprView)>
    decreases fs,
{
    Seq::new(
        fs.len(),
        |i: int|
            if 0 <= i < fs.len() {
                (fs[i].0@, expr_view(fs[i].1))
            } else {
                arbitrary()
            },
    )
}

/// The views of the cases of a match.
pub open spec fn match_cases_view(cs: Seq<(Pattern, Expr)>) -> Seq<(PatternView, ExprView)>
    decreases cs,
{
    Seq::new(
        cs.len(),
        |i: int|
            if 0 <= i < cs.len() {
                (pattern_view(cs[i].0), expr_view(cs[i].1))
            } else {
                arbitrary()
            },
    )
}

impl View for Pattern {
    type V = PatternView;

    open spec fn view(&self) -> PatternView {
        pattern_view(*self)
    }
}

impl View for Expr {
    type V = ExprView;

    open spec fn view(&self) -> ExprView {
        expr_view(*self)
    }
}

/// A runtime value.
#[derive(Debug, PartialEq)]
pub enum Value {
    Number(i32),
    String(String),
    Symbol(String),
    /// A closure: parameters, body and the environment captured when it was made.
    Quotation(Vec<Param>, Vec<Expr>, Option<Box<Env>>),
    /// A closure with a declared result type.
    TypedQuotation(Vec<Param>, Vec<Expr>, Type, Option<Box<Env>>),
    List(Vec<Value>),
    /// A record, which maps names to values; of two pairs with one name the later is in force.
    Record(Vec<(String, Value)>),
    Quoted(Box<Value>),
    Quasiquoted(Box<Value>),
    Type(Type),
    QuotedType(Type),
    /// A module: its name and what it exports.
    Module(String, Vec<(String, Value)>),
    /// A resource: its id in the tracker and the value it wraps.
    Resource(usize, Box<Value>),
    /// A borrowed resource, which cannot be consumed.
    BorrowedResource(usize, Box<Value>),
    Optional(Option<Box<Value>>),
    /// A tagged value with its fields.
    Variant(String, Vec<Value>),
    Nothing,
    Nil,
}

/// A lexical scope: its own bindings and the scope around it.
#[derive(Debug, PartialEq)]
pub struct Env {
    pub bindings: Vec<(String, Value)>,
    pub parent: Option<Box<Env>>,
}

/// The view of a [`Value`].
pub ghost enum ValueView {
    Number(int),
    String(Seq<char>),
    Symbol(Seq<char>),
    Quotation(Seq<ParamView>, Seq<ExprView>, Option<Box<EnvView>>),
    TypedQuotation(Seq<ParamView>, Seq<ExprView>, TypeView, Option<Box<EnvView>>),
    List(Seq<ValueView>),
    Record(Seq<(Seq<char>, ValueView)>),
    Quoted(Box<ValueView>),
    Quasiquoted(Box<ValueView>),
    Type(TypeView),
    QuotedType(TypeView),
    Module(Seq<char>, Seq<(Seq<char>, ValueView)>),
    Resource(nat, Box<ValueView>),
    BorrowedResource(nat, Box<ValueView>),
    Optional(Option<Box<ValueView>>),
    Variant(Seq<char>, Seq<ValueView>),
    Nothing,
    Nil,
}

/// The view of an [`Env`].
pub ghost struct EnvView {
    pub bindings: Seq<(Seq<char>, ValueView)>,
    pub parent: Option<Box<EnvView>>,
}

/// The view of a value.
pub open spec fn value_view(v: Value) -> ValueView
    decreases v,
{
    match v {
        Value::Number(n) => ValueView::Number(n as int),
        Value::String(s) => ValueView::String(s@),
        Value::Symbol(s) => ValueView::Symbol(s@),
        Value::Quotation(params, body, env) => ValueView::Quotation(
            params_view(params@),
            exprs_view(body@),
            match env {
                Some(e) => Some(Box::new(env_view(*e))),
                None => None,
            },
        ),
        Value::TypedQuotation(params, body, result, env) => ValueView::TypedQuotation(
            params_view(params@),
            exprs_view(body@),
            type_view(result),
            match env {
                Some(e) => Some(Box::new(env_view(*e))),
                None => None,
            },
        ),
        Value::List(items) => ValueView::List(values_view(items@)),
        Value::Record(entries) => ValueView::Record(bindings_view(entries@)),
        Value::Quoted(inner) => ValueView::Quoted(Box::new(value_view(*inner))),
        Value::Quasiquoted(inner) => ValueView::Quasiquoted(Box::new(value_view(*inner))),
        Value::Type(t) => ValueView::Type(type_view(t)),
        Value::QuotedType(t) => ValueView::QuotedType(type_view(t)),
        Value::Module(name, exports) => ValueView::Module(name@, bindings_view(exports@)),
        Value::Resource(id, inner) => ValueView::Resource(id as nat, Box::new(value_view(*inner))),
        Value::BorrowedResource(id, inner) => ValueView::BorrowedResource(
            id as nat,
            Box::new(value_view(*inner)),
        ),
        Value::Optional(inner) => ValueView::Optional(
            match inner {
                Some(x) => Some(Box::new(value_view(*x))),
                None => None,
            },
        ),
        Value::Variant(tag, fields) => ValueView::Variant(tag@, values_view(fields@)),
        Value::Nothing => ValueView::Nothing,
        Value::Nil => ValueView::Nil,
    }
}

/// The views of a list of values.
pub open spec fn values_view(vs: Seq<Value>) -> Seq<ValueView>
    decreases vs,
{
    Seq::new(
        vs.len(),
        |i: int|
            if 0 <= i < vs.len() {
                value_view(vs[i])
            } else {
                arbitrary()
            },
    )
}

/// The views of a list of bindings.
pub open spec fn bindings_view(bs: Seq<(String, Value)>) -> Seq<(Seq<char>, ValueView)>
    decreases bs,
{
    Seq::new(
        bs.len(),
        |i: int|
            if 0 <= i < bs.len() {
                (bs[i].0@, value_view(bs[i].1))
            } else {
                arbitrary()
            },
    )
}

/// The view of an environment.
pub open spec fn env_view(e: Env) -> EnvView
    decreases e,
{
    EnvView {
        bindings: bindings_view(e.bindings@),
        parent: match e.parent {
            Some(p) => Some(Box::new(env_view(*p))),
            None => None,
        },
    }
}

impl View for Value {
    type V = ValueView;

    open spec fn view(&self) -> ValueView {
        value_view(*self)
    }
}

impl View for Env {
    type V = EnvView;

    open spec fn view(&self) -> EnvView {
        env_view(*self)
    }
}

/// The map that a list of bindings stands for: every name that occurs, with
/// the value of its last pair.
pub open spec fn assoc_map<V>(pairs: Seq<(Seq<char>, V)>) -> Map<Seq<char>, V>
    decreases pairs.len(),
{
    if pairs.len() == 0 {
        Map::empty()
    } else {
        assoc_map(pairs.drop_last()).insert(pairs.last().0, pairs.last().1)
    }
}

/// What `name` is bound to in `env`: the binding of the nearest scope that has one.
pub open spec fn env_lookup(env: EnvView, name: Seq<char>) -> Option<ValueView>
    decreases env,
{
    if assoc_map(env.bindings).dom().contains(name) {
        Some(assoc_map(env.bindings)[name])
    } else {
        match env.parent {
            Some(p) => env_lookup(*p, name),
            None => None,
        }
    }
}

/// The view of a list of values, item by item.
pub proof fn lemma_values_view(vs: Seq<Value>)
    ensures
        values_view(vs).len() == vs.len(),
        forall|i: int| 0 <= i < vs.len() ==> #[trigger] values_view(vs)[i] == value_view(vs[i]),
{
}

/// The view of a list of bindings, pair by pair.
pub proof fn lemma_bindings_view(bs: Seq<(String, Value)>)
    ensures
        bindings_view(bs).len() == bs.len(),
        forall|i: int|
            0 <= i < bs.len() ==> #[trigger] bindings_view(bs)[i] == (bs[i].0@, value_view(bs[i].1)),
{
}

/// The view of a list of expressions, item by item.
pub proof fn lemma_exprs_view(es: Seq<Expr>)
    ensures
        exprs_view(es).len() == es.len(),
        forall|i: int| 0 <= i < es.len() ==> #[trigger] exprs_view(es)[i] == expr_view(es[i]),
{
}

/// The view of a list of types, item by item.
pub proof fn lemma_types_view(ts: Seq<Type>)
    ensures
        types_view(ts).len() == ts.len(),
        forall|i: int| 0 <= i < ts.len() ==> #[trigger] types_view(ts)[i] == type_view(ts[i]),
{
}

} // verus!
