//! What values are: which ones count as true, which ones are equal, and
//! which ones have the same shape.

use vstd::prelude::*;
use crate::env::{is_last_binding, lemma_assoc_map_last};
use crate::env::find_binding;
use crate::types::{
    assoc_map, bindings_view, cases_view, fields_view, lemma_bindings_view, lemma_types_view,
    lemma_values_view, type_view, types_view, value_view, values_view, Type, Value,
    ValueView,
};

verus! {

/// Whether a value counts as true: any number but 0, any text but the empty
/// one, any symbol but `false`, and everything else but `Nothing` and `Nil`.
pub open spec fn truthy(v: ValueView) -> bool {
    match v {
        ValueView::Number(n) => n != 0,
        ValueView::String(s) => s.len() > 0,
        ValueView::Symbol(s) => s != "false"@,
        ValueView::Nothing => false,
        ValueView::Nil => false,
        _ => true,
    }
}

/// Whether `v` counts as true.
pub fn is_truthy(v: &Value) -> (r: bool)
    ensures
        r == truthy(v@),
{
    match v {
        Value::Number(n) => *n != 0,
        Value::String(s) => s.as_str().unicode_len() > 0,
        Value::Symbol(s) => !crate::text::same_text(s.as_str(), "false"),
        Value::Nothing => false,
        Value::Nil => false,
        _ => true,
    }
}

/// Whether two lists of types have the same view.
fn type_lists_equal(a: &Vec<Type>, b: &Vec<Type>) -> (r: bool)
    ensures
        r == (types_view(a@) == types_view(b@)),
    decreases a,
{
    proof {
        lemma_types_view(a@);
        lemma_types_view(b@);
    }
    if a.len() != b.len() {
        return false;
    }
    let mut i: usize = 0;
    while i < a.len()
        invariant
            i <= a.len(),
            a.len() == b.len(),
            types_view(a@).len() == a.len(),
            types_view(b@).len() == b.len(),
            forall|j: int| 0 <= j < a.len() ==> #[trigger] types_view(a@)[j] == type_view(a@[j]),
            forall|j: int| 0 <= j < b.len() ==> #[trigger] types_view(b@)[j] == type_view(b@[j]),
            forall|j: int| 0 <= j < i ==> types_view(a@)[j] == types_view(b@)[j],
        decreases a.len() - i,
    {
        proof {
            vstd::std_specs::vec::axiom_vec_index_decreases(*a, i as int);
        }
        if !types_equal(&a[i], &b[i]) {
            assert(types_view(a@)[i as int] != types_view(b@)[i as int]);
            return false;
        }
        i += 1;
    }
    assert(types_view(a@) =~= types_view(b@));
    true
}

/// Whether two lists of fields have the same view.
fn fields_equal(a: &Vec<(String, Type)>, b: &Vec<(String, Type)>) -> (r: bool)
    ensures
        r == (fields_view(a@) == fields_view(b@)),
    decreases a,
{
    if a.len() != b.len() {
        assert(fields_view(a@).len() != fields_view(b@).len());
        return false;
    }
    let mut i: usize = 0;
    while i < a.len()
        invariant
            i <= a.len(),
            a.len() == b.len(),
            forall|j: int| 0 <= j < i ==> fields_view(a@)[j] == fields_view(b@)[j],
        decreases a.len() - i,
    {
        proof {
            vstd::std_specs::vec::axiom_vec_index_decreases(*a, i as int);
        }
        if !(a[i].0 == b[i].0) || !types_equal(&a[i].1, &b[i].1) {
            assert(fields_view(a@)[i as int] != fields_view(b@)[i as int]);
            return false;
        }
        i += 1;
    }
    assert(fields_view(a@) =~= fields_view(b@));
    true
}

/// Whether two lists of cases have the same view.
fn cases_equal(a: &Vec<(String, Vec<Type>)>, b: &Vec<(String, Vec<Type>)>) -> (r: bool)
    ensures
        r == (cases_view(a@) == cases_view(b@)),
    decreases a,
{
    if a.len() != b.len() {
        assert(cases_view(a@).len() != cases_view(b@).len());
        return false;
    }
    let mut i: usize = 0;
    while i < a.len()
        invariant
            i <= a.len(),
            a.len() == b.len(),
            forall|j: int| 0 <= j < i ==> cases_view(a@)[j] == cases_view(b@)[j],
        decreases a.len() - i,
    {
        proof {
            vstd::std_specs::vec::axiom_vec_index_decreases(*a, i as int);
        }
        if !(a[i].0 == b[i].0) || !type_lists_equal(&a[i].1, &b[i].1) {
            assert(cases_view(a@)[i as int] != cases_view(b@)[i as int]);
            return false;
        }
        i += 1;
    }
    assert(cases_view(a@) =~= cases_view(b@));
    true
}

/// Whether two types are the same type.
pub fn types_equal(a: &Type, b: &Type) -> (r: bool)
    ensures
        r == (a@ == b@),
    decreases a,
{
    match (a, b) {
        (Type::Simple(x), Type::Simple(y)) => *x == *y,
        (Type::Linear(x), Type::Linear(y)) => types_equal(x, y),
        (Type::Optional(x), Type::Optional(y)) => types_equal(x, y),
        (Type::Generic(n, x), Type::Generic(m, y)) => *n == *m && type_lists_equal(x, y),
        (Type::Union(x), Type::Union(y)) => type_lists_equal(x, y),
        (Type::Record(x), Type::Record(y)) => fields_equal(x, y),
        (Type::Variant(x), Type::Variant(y)) => cases_equal(x, y),
        (Type::Function(p, x), Type::Function(q, y)) => type_lists_equal(p, q) && types_equal(x, y),
        _ => false,
    }
}

/// Whether two values are equal. Data is compared part by part, a record
/// by what it binds, whatever the order of its pairs; two closures are
/// equal if they take as many parameters and, where a result type is
/// declared, the same one.
pub open spec fn values_equal(a: ValueView, b: ValueView) -> bool
    decreases a, 2nat,
{
    match a {
        ValueView::Quotation(ps, _, _) => b is Quotation && b->Quotation_0.len() == ps.len(),
        ValueView::TypedQuotation(ps, _, t, _) => b is TypedQuotation && b->TypedQuotation_0.len()
            == ps.len() && b->TypedQuotation_2 == t,
        ValueView::List(xs) => b is List && value_lists_equal(xs, b->List_0),
        ValueView::Record(xs) => b is Record && records_equal(xs, b->Record_0),
        ValueView::Quoted(x) => b is Quoted && values_equal(*x, *b->Quoted_0),
        ValueView::Quasiquoted(x) => b is Quasiquoted && values_equal(*x, *b->Quasiquoted_0),
        ValueView::Module(name, xs) => b is Module && b->Module_0 == name && records_equal(
            xs,
            b->Module_1,
        ),
        ValueView::Resource(id, x) => b is Resource && b->Resource_0 == id && values_equal(
            *x,
            *b->Resource_1,
        ),
        ValueView::BorrowedResource(id, x) => b is BorrowedResource && b->BorrowedResource_0 == id
            && values_equal(*x, *b->BorrowedResource_1),
        ValueView::Optional(x) => b is Optional && match x {
            Some(inner) => b->Optional_0 is Some && values_equal(*inner, *b->Optional_0->Some_0),
            None => b->Optional_0 is None,
        },
        ValueView::Variant(tag, xs) => b is Variant && b->Variant_0 == tag && value_lists_equal(
            xs,
            b->Variant_1,
        ),
        _ => a == b,
    }
}

/// Whether two lists hold equal values, one by one.
pub open spec fn value_lists_equal(xs: Seq<ValueView>, ys: Seq<ValueView>) -> bool
    decreases xs, 1nat,
{
    xs.len() == ys.len() && forall|i: int|
        0 <= i < xs.len() ==> values_equal(#[trigger] xs[i], ys[i])
}

/// Whether two lists of bindings bind the same names to equal values.
pub open spec fn records_equal(xs: Seq<(Seq<char>, ValueView)>, ys: Seq<(Seq<char>, ValueView)>)
    -> bool
    decreases xs, 1nat,
{
    &&& forall|i: int|
        0 <= i < xs.len() && is_last_binding(xs, (#[trigger] xs[i]).0, i) ==> exists|j: int|
            is_last_binding(ys, xs[i].0, j) && values_equal(xs[i].1, (#[trigger] ys[j]).1)
    &&& forall|j: int| 0 <= j < ys.len() ==> assoc_map(xs).dom().contains((#[trigger] ys[j]).0)
}

/// Whether two lists hold equal values, one by one.
fn lists_equal(a: &Vec<Value>, b: &Vec<Value>) -> (r: bool)
    ensures
        r == value_lists_equal(values_view(a@), values_view(b@)),
    decreases a, 1nat,
{
    let ghost xs = values_view(a@);
    let ghost ys = values_view(b@);
    proof {
        lemma_values_view(a@);
        lemma_values_view(b@);
    }
    if a.len() != b.len() {
        return false;
    }
    let mut i: usize = 0;
    while i < a.len()
        invariant
            i <= a.len(),
            a.len() == b.len(),
            xs == values_view(a@),
            ys == values_view(b@),
            xs.len() == a.len(),
            ys.len() == b.len(),
            forall|j: int| 0 <= j < a.len() ==> #[trigger] xs[j] == value_view(a@[j]),
            forall|j: int| 0 <= j < b.len() ==> #[trigger] ys[j] == value_view(b@[j]),
            forall|j: int| 0 <= j < i ==> values_equal(#[trigger] xs[j], ys[j]),
        decreases a.len() - i,
    {
        proof {
            vstd::std_specs::vec::axiom_vec_index_decreases(*a, i as int);
        }
        if !equal_values(&a[i], &b[i]) {
            assert(!values_equal(xs[i as int], ys[i as int]));
            return false;
        }
        i += 1;
    }
    true
}

/// Whether two lists of bindings bind the same names to equal values.
#[verifier::rlimit(40)]
fn bindings_equal(a: &Vec<(String, Value)>, b: &Vec<(String, Value)>) -> (r: bool)
    ensures
        r == records_equal(bindings_view(a@), bindings_view(b@)),
    decreases a, 1nat,
{
    let ghost xs = bindings_view(a@);
    let ghost ys = bindings_view(b@);
    proof {
        lemma_bindings_view(a@);
        lemma_bindings_view(b@);
    }
    let mut i: usize = 0;
    while i < a.len()
        invariant
            i <= a.len(),
            xs == bindings_view(a@),
            ys == bindings_view(b@),
            xs.len() == a.len(),
            ys.len() == b.len(),
            forall|j: int|
                0 <= j < a.len() ==> #[trigger] xs[j] == (a@[j].0@, value_view(a@[j].1)),
            forall|j: int|
                0 <= j < b.len() ==> #[trigger] ys[j] == (b@[j].0@, value_view(b@[j].1)),
            forall|k: int|
                0 <= k < i && is_last_binding(xs, (#[trigger] xs[k]).0, k) ==> exists|j: int|
                    is_last_binding(ys, xs[k].0, j) && values_equal(xs[k].1, (#[trigger] ys[j]).1),
        decreases a.len() - i,
    {
        proof {
            vstd::std_specs::vec::axiom_vec_index_decreases(*a, i as int);
        }
        let ghost name = xs[i as int].0;
        match find_binding(a, a[i].0.as_str()) {
            Some(k) => {
                if k == i {
                    match find_binding(b, a[i].0.as_str()) {
                        Some(j) => {
                            if !equal_values(&a[i].1, &b[j].1) {
                                proof {
                                    assert(!values_equal(xs[i as int].1, ys[j as int].1));
                                    assert forall|m: int| is_last_binding(ys, name, m) implies m
                                        == j by {
                                        assert(ys[m].0 == name);
                                        assert(ys[j as int].0 == name);
                                    }
                                }
                                return false;
                            }
                            assert(is_last_binding(ys, name, j as int) && values_equal(
                                xs[i as int].1,
                                ys[j as int].1,
                            ));
                        },
                        None => {
                            proof {
                                assert forall|m: int| !is_last_binding(ys, name, m) by {
                                    if is_last_binding(ys, name, m) {
                                        lemma_assoc_map_last(ys, name, m);
                                    }
                                }
                            }
                            return false;
                        },
                    }
                } else {
                    assert(xs[k as int].0 == name);
                    assert(!is_last_binding(xs, name, i as int));
                }
            },
            None => {
                proof {
                    if is_last_binding(xs, name, i as int) {
                        lemma_assoc_map_last(xs, name, i as int);
                    }
                }
            },
        }
        i += 1;
    }
    let mut j: usize = 0;
    while j < b.len()
        invariant
            j <= b.len(),
            xs == bindings_view(a@),
            ys == bindings_view(b@),
            ys.len() == b.len(),
            forall|k: int|
                0 <= k < b.len() ==> #[trigger] ys[k] == (b@[k].0@, value_view(b@[k].1)),
            forall|k: int|
                0 <= k < xs.len() && is_last_binding(xs, (#[trigger] xs[k]).0, k) ==> exists|j: int|
                    is_last_binding(ys, xs[k].0, j) && values_equal(xs[k].1, (#[trigger] ys[j]).1),
            forall|k: int| 0 <= k < j ==> assoc_map(xs).dom().contains((#[trigger] ys[k]).0),
        decreases b.len() - j,
    {
        match find_binding(a, b[j].0.as_str()) {
            Some(k) => {
                proof {
                    lemma_assoc_map_last(xs, ys[j as int].0, k as int);
                }
            },
            None => {
                assert(!assoc_map(xs).dom().contains(ys[j as int].0));
                return false;
            },
        }
        j += 1;
    }
    true
}

/// Whether two values are equal.
#[verifier::rlimit(40)]
pub fn equal_values(a: &Value, b: &Value) -> (r: bool)
    ensures
        r == values_equal(a@, b@),
    decreases a, 2nat,
{
    match (a, b) {
        (Value::Number(x), Value::Number(y)) => *x == *y,
        (Value::String(x), Value::String(y)) => *x == *y,
        (Value::Symbol(x), Value::Symbol(y)) => *x == *y,
        (Value::Quotation(p, _, _), Value::Quotation(q, _, _)) => {
            assert(a@->Quotation_0.len() == p.len());
            assert(b@->Quotation_0.len() == q.len());
            p.len() == q.len()
        },
        (Value::TypedQuotation(p, _, t, _), Value::TypedQuotation(q, _, u, _)) => {
            assert(a@->TypedQuotation_0.len() == p.len());
            assert(b@->TypedQuotation_0.len() == q.len());
            p.len() == q.len() && types_equal(u, t)
        },
        (Value::List(x), Value::List(y)) => lists_equal(x, y),
        (Value::Record(x), Value::Record(y)) => bindings_equal(x, y),
        (Value::Quoted(x), Value::Quoted(y)) => equal_values(x, y),
        (Value::Quasiquoted(x), Value::Quasiquoted(y)) => equal_values(x, y),
        (Value::Type(x), Value::Type(y)) => types_equal(x, y),
        (Value::QuotedType(x), Value::QuotedType(y)) => types_equal(x, y),
        (Value::Module(n, x), Value::Module(m, y)) => *m == *n && bindings_equal(x, y),
        (Value::Resource(i, x), Value::Resource(j, y)) => *j == *i && equal_values(x, y),
        (Value::BorrowedResource(i, x), Value::BorrowedResource(j, y)) => *j == *i
            && equal_values(x, y),
        (Value::Optional(x), Value::Optional(y)) => match (x, y) {
            (Some(p), Some(q)) => equal_values(p, q),
            (None, None) => true,
            _ => false,
        },
        (Value::Variant(s, x), Value::Variant(t, y)) => *t == *s && lists_equal(x, y),
        (Value::Nothing, Value::Nothing) => true,
        (Value::Nil, Value::Nil) => true,
        _ => false,
    }
}

/// Whether two values have the same shape: two types that are the same
/// type; two numbers, two texts or two symbols, whatever they hold; two
/// closures with the same signature; two lists or two records that are
/// equal. Values of different kinds never have.
pub open spec fn same_shape(a: ValueView, b: ValueView) -> bool {
    match a {
        ValueView::Type(_) => b is Type && a == b,
        ValueView::QuotedType(_) => b is QuotedType && a == b,
        ValueView::Number(_) => b is Number,
        ValueView::String(_) => b is String,
        ValueView::Symbol(_) => b is Symbol,
        ValueView::Quotation(_, _, _) => values_equal(a, b),
        ValueView::TypedQuotation(_, _, _, _) => values_equal(a, b),
        ValueView::List(_) => values_equal(a, b),
        ValueView::Record(_) => values_equal(a, b),
        _ => false,
    }
}

/// Whether two values have the same shape.
pub fn equal_shapes(a: &Value, b: &Value) -> (r: bool)
    ensures
        r == same_shape(a@, b@),
{
    match (a, b) {
        (Value::Type(_), Value::Type(_)) => equal_values(a, b),
        (Value::QuotedType(_), Value::QuotedType(_)) => equal_values(a, b),
        (Value::Number(_), Value::Number(_)) => true,
        (Value::String(_), Value::String(_)) => true,
        (Value::Symbol(_), Value::Symbol(_)) => true,
        (Value::Quotation(_, _, _), _) => equal_values(a, b),
        (Value::TypedQuotation(_, _, _, _), _) => equal_values(a, b),
        (Value::List(_), _) => equal_values(a, b),
        (Value::Record(_), _) => equal_values(a, b),
        _ => false,
    }
}

impl Value {
    /// Whether the value is empty: a text, a list or a record that holds
    /// nothing, and `Nil` and `Nothing`.
    pub fn is_empty(&self) -> (r: bool)
        ensures
            r == match self@ {
                ValueView::String(s) => s.len() == 0,
                ValueView::List(l) => l.len() == 0,
                ValueView::Record(m) => m.len() == 0,
                ValueView::Nil => true,
                ValueView::Nothing => true,
                _ => false,
            },
    {
        match self {
            Value::String(s) => s.as_str().unicode_len() == 0,
            Value::List(l) => {
                proof {
                    lemma_values_view(l@);
                }
                l.len() == 0
            },
            Value::Record(m) => {
                proof {
                    lemma_bindings_view(m@);
                }
                m.len() == 0
            },
            Value::Nil => true,
            Value::Nothing => true,
            _ => false,
        }
    }
}

} // verus!
