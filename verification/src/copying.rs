//! `Clone` for the data model. Every copy has the view of what it was copied from.

use vstd::prelude::*;
use crate::stack_effects::StackEffect;
use crate::text::strings_view;
use crate::types::{
    bindings_view, cases_view, expr_view, exprs_view, field_exprs_view, field_patterns_view,
    fields_view,
    match_cases_view, param_view, params_view, pattern_view, patterns_view, type_params_view,
    type_view, types_view, value_view, values_view, Env, Expr, Param, Pattern, Type, TypeParam,
    Value,
};

verus! {

impl Clone for Type {
    fn clone(&self) -> (r: Self)
        ensures
            r@ == self@,
        decreases self,
    {
        match self {
            Type::Simple(name) => Type::Simple(name.clone()),
            Type::Linear(inner) => Type::Linear(Box::new((**inner).clone())),
            Type::Optional(inner) => Type::Optional(Box::new((**inner).clone())),
            Type::Generic(name, args) => Type::Generic(name.clone(), clone_types(args)),
            Type::Union(members) => Type::Union(clone_types(members)),
            Type::Record(fields) => Type::Record(clone_fields(fields)),
            Type::Variant(cases) => Type::Variant(clone_cases(cases)),
            Type::Function(params, result) => Type::Function(
                clone_types(params),
                Box::new((**result).clone()),
            ),
        }
    }
}

impl Clone for TypeParam {
    fn clone(&self) -> (r: Self)
        ensures
            r@ == self@,
    {
        TypeParam { name: self.name.clone(), is_linear: self.is_linear }
    }
}

impl Clone for Param {
    fn clone(&self) -> (r: Self)
        ensures
            r@ == self@,
    {
        let type_annotation = match &self.type_annotation {
            Some(t) => Some(t.clone()),
            None => None,
        };
        Param { name: self.name.clone(), type_annotation }
    }
}

impl Clone for Pattern {
    fn clone(&self) -> (r: Self)
        ensures
            r@ == self@,
        decreases self,
    {
        match self {
            Pattern::Wildcard => Pattern::Wildcard,
            Pattern::Literal(e) => Pattern::Literal(e.clone()),
            Pattern::Record(fields) => Pattern::Record(clone_field_patterns(fields)),
            Pattern::Variable(name) => Pattern::Variable(name.clone()),
            Pattern::Quote(inner) => Pattern::Quote(Box::new((**inner).clone())),
            Pattern::TypePattern(t) => Pattern::TypePattern(t.clone()),
            Pattern::Variant(tag, fields) => Pattern::Variant(tag.clone(), clone_patterns(fields)),
            Pattern::Linear(inner) => Pattern::Linear(Box::new((**inner).clone())),
        }
    }
}

impl Clone for Expr {
    fn clone(&self) -> (r: Self)
        ensures
            r@ == self@,
        decreases self,
    {
        match self {
            Expr::Number(n) => Expr::Number(*n),
            Expr::String(s) => Expr::String(s.clone()),
            Expr::Boolean(b) => Expr::Boolean(*b),
            Expr::Nil => Expr::Nil,
            Expr::Symbol(s) => Expr::Symbol(s.clone()),
            Expr::Quotation(params, body) => Expr::Quotation(
                clone_params(params),
                clone_exprs(body),
            ),
            Expr::TypedQuotation(params, body, result) => Expr::TypedQuotation(
                clone_params(params),
                clone_exprs(body),
                Box::new((**result).clone()),
            ),
            Expr::Pipeline(left, right) => Expr::Pipeline(
                Box::new((**left).clone()),
                Box::new((**right).clone()),
            ),
            Expr::Match(scrutinee, cases) => Expr::Match(
                Box::new((**scrutinee).clone()),
                clone_match_cases(cases),
            ),
            Expr::Binary(op, left, right) => Expr::Binary(
                op.clone(),
                Box::new((**left).clone()),
                Box::new((**right).clone()),
            ),
            Expr::Assignment(value, name) => Expr::Assignment(
                Box::new((**value).clone()),
                name.clone(),
            ),
            Expr::Module(name, imports, definitions) => Expr::Module(
                name.clone(),
                clone_exprs(imports),
                clone_exprs(definitions),
            ),
            Expr::Import(name) => Expr::Import(name.clone()),
            Expr::TypeDef(name, params, body) => Expr::TypeDef(
                name.clone(),
                clone_type_params(params),
                Box::new((**body).clone()),
            ),
            Expr::Quote(inner) => Expr::Quote(Box::new((**inner).clone())),
            Expr::Unquote(inner) => Expr::Unquote(Box::new((**inner).clone())),
            Expr::Quasiquote(inner) => Expr::Quasiquote(Box::new((**inner).clone())),
            Expr::TypeQuote(t) => Expr::TypeQuote(Box::new((**t).clone())),
            Expr::TypeUnquote(inner) => Expr::TypeUnquote(Box::new((**inner).clone())),
            Expr::FunctionType(params, result) => Expr::FunctionType(
                clone_types(params),
                Box::new((**result).clone()),
            ),
            Expr::Sequence(items) => Expr::Sequence(clone_exprs(items)),
            Expr::Record(fields) => Expr::Record(clone_field_exprs(fields)),
            Expr::Tuple(items) => Expr::Tuple(clone_exprs(items)),
            Expr::StackEffect(effect) => Expr::StackEffect(effect.clone()),
            Expr::Cleave(value, quotations) => Expr::Cleave(
                Box::new((**value).clone()),
                clone_exprs(quotations),
            ),
            Expr::If(a, b, c) => Expr::If(
                Box::new((**a).clone()),
                Box::new((**b).clone()),
                Box::new((**c).clone()),
            ),
            Expr::Times(a, b) => Expr::Times(
                Box::new((**a).clone()),
                Box::new((**b).clone()),
            ),
            Expr::Loop(a) => Expr::Loop(Box::new((**a).clone())),
            Expr::While(a, b) => Expr::While(
                Box::new((**a).clone()),
                Box::new((**b).clone()),
            ),
            Expr::For(a, b, c) => Expr::For(
                Box::new((**a).clone()),
                Box::new((**b).clone()),
                Box::new((**c).clone()),
            ),
            Expr::Dip(a) => Expr::Dip(Box::new((**a).clone())),
            Expr::MapEach(a, b) => Expr::MapEach(
                Box::new((**a).clone()),
                Box::new((**b).clone()),
            ),
            Expr::Filter(a, b) => Expr::Filter(
                Box::new((**a).clone()),
                Box::new((**b).clone()),
            ),
            Expr::Fold(a, b, c) => Expr::Fold(
                Box::new((**a).clone()),
                Box::new((**b).clone()),
                Box::new((**c).clone()),
            ),
            Expr::Bi(a, b, c) => Expr::Bi(
                Box::new((**a).clone()),
                Box::new((**b).clone()),
                Box::new((**c).clone()),
            ),
            Expr::Tri(a, b, c, d) => Expr::Tri(
                Box::new((**a).clone()),
                Box::new((**b).clone()),
                Box::new((**c).clone()),
                Box::new((**d).clone()),
            ),
            Expr::Nip(a) => Expr::Nip(Box::new((**a).clone())),
            Expr::Tuck(a) => Expr::Tuck(Box::new((**a).clone())),
            Expr::Pick(a) => Expr::Pick(Box::new((**a).clone())),
            Expr::Roll(a) => Expr::Roll(Box::new((**a).clone())),
            Expr::Keep(a) => Expr::Keep(Box::new((**a).clone())),
            Expr::Dip2(a) => Expr::Dip2(Box::new((**a).clone())),
            Expr::BiStar(a, b, c) => Expr::BiStar(
                Box::new((**a).clone()),
                Box::new((**b).clone()),
                Box::new((**c).clone()),
            ),
            Expr::BiAt(a, b) => Expr::BiAt(
                Box::new((**a).clone()),
                Box::new((**b).clone()),
            ),
        }
    }
}

impl Clone for Value {
    fn clone(&self) -> (r: Self)
        ensures
            r@ == self@,
        decreases self,
    {
        match self {
            Value::Number(n) => Value::Number(*n),
            Value::String(s) => Value::String(s.clone()),
            Value::Symbol(s) => Value::Symbol(s.clone()),
            Value::Quotation(params, body, env) => Value::Quotation(
                clone_params(params),
                clone_exprs(body),
                match env {
                    Some(e) => Some(Box::new((**e).clone())),
                    None => None,
                },
            ),
            Value::TypedQuotation(params, body, result, env) => Value::TypedQuotation(
                clone_params(params),
                clone_exprs(body),
                result.clone(),
                match env {
                    Some(e) => Some(Box::new((**e).clone())),
                    None => None,
                },
            ),
            Value::List(items) => Value::List(clone_values(items)),
            Value::Record(entries) => Value::Record(clone_bindings(entries)),
            Value::Quoted(inner) => Value::Quoted(Box::new((**inner).clone())),
            Value::Quasiquoted(inner) => Value::Quasiquoted(Box::new((**inner).clone())),
            Value::Type(t) => Value::Type(t.clone()),
            Value::QuotedType(t) => Value::QuotedType(t.clone()),
            Value::Module(name, exports) => Value::Module(name.clone(), clone_bindings(exports)),
            Value::Resource(id, inner) => Value::Resource(*id, Box::new((**inner).clone())),
            Value::BorrowedResource(id, inner) => Value::BorrowedResource(
                *id,
                Box::new((**inner).clone()),
            ),
            Value::Optional(inner) => Value::Optional(
                match inner {
                    Some(x) => Some(Box::new((**x).clone())),
                    None => None,
                },
            ),
            Value::Variant(tag, fields) => Value::Variant(tag.clone(), clone_values(fields)),
            Value::Nothing => Value::Nothing,
            Value::Nil => Value::Nil,
        }
    }
}

impl Clone for Env {
    fn clone(&self) -> (r: Self)
        ensures
            r@ == self@,
        decreases self,
    {
        let bindings = clone_bindings(&self.bindings);
        let parent = match &self.parent {
            Some(p) => Some(Box::new((**p).clone())),
            None => None,
        };
        Env { bindings, parent }
    }
}

/// A copy of a list of types.
pub fn clone_types(v: &Vec<Type>) -> (r: Vec<Type>)
    ensures
        types_view(r@) == types_view(v@),
    decreases v,
{
    let mut out: Vec<Type> = Vec::new();
    let mut i: usize = 0;
    while i < v.len()
        invariant
            i <= v.len(),
            out@.len() == i,
            forall|j: int| 0 <= j < i ==> type_view(out@[j]) == type_view(v@[j]),
        decreases v.len() - i,
    {
        proof {
            vstd::std_specs::vec::axiom_vec_index_decreases(*v, i as int);
        }
        out.push(v[i].clone());
        i += 1;
    }
    assert(types_view(out@) =~= types_view(v@));
    out
}

/// A copy of the fields of a record type.
pub fn clone_fields(v: &Vec<(String, Type)>) -> (r: Vec<(String, Type)>)
    ensures
        fields_view(r@) == fields_view(v@),
    decreases v,
{
    let mut out: Vec<(String, Type)> = Vec::new();
    let mut i: usize = 0;
    while i < v.len()
        invariant
            i <= v.len(),
            out@.len() == i,
            forall|j: int| 0 <= j < i ==> out@[j].0@ == v@[j].0@ && type_view(out@[j].1) == type_view(v@[j].1),
        decreases v.len() - i,
    {
        proof {
            vstd::std_specs::vec::axiom_vec_index_decreases(*v, i as int);
        }
        let name = v[i].0.clone();
        let t = v[i].1.clone();
        out.push((name, t));
        i += 1;
    }
    assert(fields_view(out@) =~= fields_view(v@));
    out
}

/// A copy of the cases of a variant type.
pub fn clone_cases(v: &Vec<(String, Vec<Type>)>) -> (r: Vec<(String, Vec<Type>)>)
    ensures
        cases_view(r@) == cases_view(v@),
    decreases v,
{
    let mut out: Vec<(String, Vec<Type>)> = Vec::new();
    let mut i: usize = 0;
    while i < v.len()
        invariant
            i <= v.len(),
            out@.len() == i,
            forall|j: int| 0 <= j < i ==> out@[j].0@ == v@[j].0@ && types_view(out@[j].1@) == types_view(v@[j].1@),
        decreases v.len() - i,
    {
        proof {
            vstd::std_specs::vec::axiom_vec_index_decreases(*v, i as int);
        }
        let name = v[i].0.clone();
        let ts = clone_types(&v[i].1);
        out.push((name, ts));
        i += 1;
    }
    assert(cases_view(out@) =~= cases_view(v@));
    out
}

/// A copy of a list of type parameters.
pub fn clone_type_params(v: &Vec<TypeParam>) -> (r: Vec<TypeParam>)
    ensures
        type_params_view(r@) == type_params_view(v@),
    decreases v,
{
    let mut out: Vec<TypeParam> = Vec::new();
    let mut i: usize = 0;
    while i < v.len()
        invariant
            i <= v.len(),
            out@.len() == i,
            forall|j: int| 0 <= j < i ==> out@[j]@ == v@[j]@,
        decreases v.len() - i,
    {
        proof {
            vstd::std_specs::vec::axiom_vec_index_decreases(*v, i as int);
        }
        out.push(v[i].clone());
        i += 1;
    }
    assert(type_params_view(out@) =~= type_params_view(v@));
    out
}

/// A copy of a parameter list.
pub fn clone_params(v: &Vec<Param>) -> (r: Vec<Param>)
    ensures
        params_view(r@) == params_view(v@),
    decreases v,
{
    let mut out: Vec<Param> = Vec::new();
    let mut i: usize = 0;
    while i < v.len()
        invariant
            i <= v.len(),
            out@.len() == i,
            forall|j: int| 0 <= j < i ==> param_view(out@[j]) == param_view(v@[j]),
        decreases v.len() - i,
    {
        proof {
            vstd::std_specs::vec::axiom_vec_index_decreases(*v, i as int);
        }
        out.push(v[i].clone());
        i += 1;
    }
    assert(params_view(out@) =~= params_view(v@));
    out
}

/// A copy of a list of patterns.
pub fn clone_patterns(v: &Vec<Pattern>) -> (r: Vec<Pattern>)
    ensures
        patterns_view(r@) == patterns_view(v@),
    decreases v,
{
    let mut out: Vec<Pattern> = Vec::new();
    let mut i: usize = 0;
    while i < v.len()
        invariant
            i <= v.len(),
            out@.len() == i,
            forall|j: int| 0 <= j < i ==> pattern_view(out@[j]) == pattern_view(v@[j]),
        decreases v.len() - i,
    {
        proof {
            vstd::std_specs::vec::axiom_vec_index_decreases(*v, i as int);
        }
        out.push(v[i].clone());
        i += 1;
    }
    assert(patterns_view(out@) =~= patterns_view(v@));
    out
}

/// A copy of the fields of a record pattern.
pub fn clone_field_patterns(v: &Vec<(String, Pattern)>) -> (r: Vec<(String, Pattern)>)
    ensures
        field_patterns_view(r@) == field_patterns_view(v@),
    decreases v,
{
    let mut out: Vec<(String, Pattern)> = Vec::new();
    let mut i: usize = 0;
    while i < v.len()
        invariant
            i <= v.len(),
            out@.len() == i,
            forall|j: int| 0 <= j < i ==> out@[j].0@ == v@[j].0@ && pattern_view(out@[j].1) == pattern_view(v@[j].1),
        decreases v.len() - i,
    {
        proof {
            vstd::std_specs::vec::axiom_vec_index_decreases(*v, i as int);
        }
        let name = v[i].0.clone();
        let p = v[i].1.clone();
        out.push((name, p));
        i += 1;
    }
    assert(field_patterns_view(out@) =~= field_patterns_view(v@));
    out
}

/// A copy of a list of expressions.
pub fn clone_exprs(v: &Vec<Expr>) -> (r: Vec<Expr>)
    ensures
        exprs_view(r@) == exprs_view(v@),
    decreases v,
{
    let mut out: Vec<Expr> = Vec::new();
    let mut i: usize = 0;
    while i < v.len()
        invariant
            i <= v.len(),
            out@.len() == i,
            forall|j: int| 0 <= j < i ==> expr_view(out@[j]) == expr_view(v@[j]),
        decreases v.len() - i,
    {
        proof {
            vstd::std_specs::vec::axiom_vec_index_decreases(*v, i as int);
        }
        out.push(v[i].clone());
        i += 1;
    }
    assert(exprs_view(out@) =~= exprs_view(v@));
    out
}

/// A copy of the fields of a record literal.
pub fn clone_field_exprs(v: &Vec<(String, Expr)>) -> (r: Vec<(String, Expr)>)
    ensures
        field_exprs_view(r@) == field_exprs_view(v@),
    decreases v,
{
    let mut out: Vec<(String, Expr)> = Vec::new();
    let mut i: usize = 0;
    while i < v.len()
        invariant
            i <= v.len(),
            out@.len() == i,
            forall|j: int| 0 <= j < i ==> out@[j].0@ == v@[j].0@ && expr_view(out@[j].1) == expr_view(v@[j].1),
        decreases v.len() - i,
    {
        proof {
            vstd::std_specs::vec::axiom_vec_index_decreases(*v, i as int);
        }
        let name = v[i].0.clone();
        let e = v[i].1.clone();
        out.push((name, e));
        i += 1;
    }
    assert(field_exprs_view(out@) =~= field_exprs_view(v@));
    out
}

/// A copy of a list of texts.
pub fn clone_texts(v: &Vec<String>) -> (r: Vec<String>)
    ensures
        strings_view(r@) == strings_view(v@),
{
    let mut out: Vec<String> = Vec::new();
    let mut i: usize = 0;
    while i < v.len()
        invariant
            i <= v.len(),
            out@.len() == i,
            forall|j: int| 0 <= j < i ==> out@[j]@ == v@[j]@,
        decreases v.len() - i,
    {
        out.push(v[i].clone());
        i += 1;
    }
    assert(strings_view(out@) =~= strings_view(v@));
    out
}

impl Clone for StackEffect {
    fn clone(&self) -> (r: Self)
        ensures
            r@ == self@,
    {
        StackEffect { inputs: clone_texts(&self.inputs), outputs: clone_texts(&self.outputs) }
    }
}

/// A copy of the cases of a match.
pub fn clone_match_cases(v: &Vec<(Pattern, Expr)>) -> (r: Vec<(Pattern, Expr)>)
    ensures
        match_cases_view(r@) == match_cases_view(v@),
    decreases v,
{
    let mut out: Vec<(Pattern, Expr)> = Vec::new();
    let mut i: usize = 0;
    while i < v.len()
        invariant
            i <= v.len(),
            out@.len() == i,
            forall|j: int| 0 <= j < i ==> pattern_view(out@[j].0) == pattern_view(v@[j].0) && expr_view(out@[j].1) == expr_view(v@[j].1),
        decreases v.len() - i,
    {
        proof {
            vstd::std_specs::vec::axiom_vec_index_decreases(*v, i as int);
        }
        let p = v[i].0.clone();
        let e = v[i].1.clone();
        out.push((p, e));
        i += 1;
    }
    assert(match_cases_view(out@) =~= match_cases_view(v@));
    out
}

/// A copy of a list of values.
pub fn clone_values(v: &Vec<Value>) -> (r: Vec<Value>)
    ensures
        values_view(r@) == values_view(v@),
    decreases v,
{
    let mut out: Vec<Value> = Vec::new();
    let mut i: usize = 0;
    while i < v.len()
        invariant
            i <= v.len(),
            out@.len() == i,
            forall|j: int| 0 <= j < i ==> value_view(out@[j]) == value_view(v@[j]),
        decreases v.len() - i,
    {
        proof {
            vstd::std_specs::vec::axiom_vec_index_decreases(*v, i as int);
        }
        out.push(v[i].clone());
        i += 1;
    }
    assert(values_view(out@) =~= values_view(v@));
    out
}

/// A copy of a list of bindings.
pub fn clone_bindings(v: &Vec<(String, Value)>) -> (r: Vec<(String, Value)>)
    ensures
        bindings_view(r@) == bindings_view(v@),
    decreases v,
{
    let mut out: Vec<(String, Value)> = Vec::new();
    let mut i: usize = 0;
    while i < v.len()
        invariant
            i <= v.len(),
            out@.len() == i,
            forall|j: int| 0 <= j < i ==> out@[j].0@ == v@[j].0@ && value_view(out@[j].1) == value_view(v@[j].1),
        decreases v.len() - i,
    {
        proof {
            vstd::std_specs::vec::axiom_vec_index_decreases(*v, i as int);
        }
        let name = v[i].0.clone();
        let x = v[i].1.clone();
        out.push((name, x));
        i += 1;
    }
    assert(bindings_view(out@) =~= bindings_view(v@));
    out
}

} // verus!
