//! Values and types as text.

use vstd::prelude::*;
use crate::text::{
    chars_of, decimal, decimal_digits, render_int, render_nat, strings_view, trim_bounds,
    trimmed,
};
use crate::types::{
    cases_view, fields_view, lemma_types_view, lemma_values_view, type_view, types_view,
    value_view, values_view, Type, TypeView, Value, ValueView,
};

verus! {

/// The texts `parts` with `sep` between each two of them.
pub open spec fn joined(parts: Seq<Seq<char>>, sep: Seq<char>) -> Seq<char>
    decreases parts.len(),
{
    if parts.len() == 0 {
        Seq::empty()
    } else if parts.len() == 1 {
        parts[0]
    } else {
        joined(parts.drop_last(), sep) + sep + parts.last()
    }
}

/// A type as text: `Num`, `!T`, `?T`, `List[T, U]`, `A | B`,
/// `{ x: T, y: U }`, `{ a: T, U | b: V }` and `(T, U) => V`.
pub open spec fn type_text(t: TypeView) -> Seq<char>
    decreases t, 1nat,
{
    match t {
        TypeView::Simple(name) => name,
        TypeView::Linear(inner) => "!"@ + type_text(*inner),
        TypeView::Optional(inner) => "?"@ + type_text(*inner),
        TypeView::Generic(name, args) => name + "["@ + joined(type_texts(args), ", "@) + "]"@,
        TypeView::Union(members) => joined(type_texts(members), " | "@),
        TypeView::Record(fields) => "{ "@ + joined(field_texts(fields), ", "@) + " }"@,
        TypeView::Variant(cases) => "{ "@ + joined(case_texts(cases), " | "@) + " }"@,
        TypeView::Function(params, result) => "("@ + joined(type_texts(params), ", "@) + ") => "@
            + type_text(*result),
    }
}

/// The texts of a list of types.
pub open spec fn type_texts(ts: Seq<TypeView>) -> Seq<Seq<char>>
    decreases ts, 0nat,
{
    Seq::new(
        ts.len(),
        |i: int|
            if 0 <= i < ts.len() {
                type_text(ts[i])
            } else {
                Seq::empty()
            },
    )
}

/// The texts of the fields of a record type, each as `name: type`.
pub open spec fn field_texts(fs: Seq<(Seq<char>, TypeView)>) -> Seq<Seq<char>>
    decreases fs, 0nat,
{
    Seq::new(
        fs.len(),
        |i: int|
            if 0 <= i < fs.len() {
                fs[i].0 + ": "@ + type_text(fs[i].1)
            } else {
                Seq::empty()
            },
    )
}

/// The texts of the cases of a variant type, each as `tag: type, type`.
pub open spec fn case_texts(cs: Seq<(Seq<char>, Seq<TypeView>)>) -> Seq<Seq<char>>
    decreases cs, 0nat,
{
    Seq::new(
        cs.len(),
        |i: int|
            if 0 <= i < cs.len() {
                cs[i].0 + ": "@ + joined(type_texts(cs[i].1), ", "@)
            } else {
                Seq::empty()
            },
    )
}

/// The texts `parts` with `sep` between each two of them.
pub fn join(parts: &Vec<String>, sep: &str) -> (r: String)
    ensures
        r@ == joined(strings_view(parts@), sep@),
{
    let ghost texts = strings_view(parts@);
    let mut out = String::new();
    let mut i: usize = 0;
    assert(texts.take(0) =~= Seq::empty());
    while i < parts.len()
        invariant
            i <= parts.len(),
            texts == strings_view(parts@),
            out@ == joined(texts.take(i as int), sep@),
        decreases parts.len() - i,
    {
        let ghost before = texts.take(i as int);
        let ghost now = texts.take(i + 1);
        assert(now.drop_last() =~= before);
        assert(now.last() == parts@[i as int]@);
        if i > 0 {
            out.append(sep);
        }
        out.append(parts[i].as_str());
        assert(out@ =~= joined(now, sep@));
        i += 1;
    }
    assert(texts.take(parts.len() as int) =~= texts);
    out
}

/// The texts of a list of types.
fn types_to_strings(ts: &Vec<Type>) -> (r: Vec<String>)
    ensures
        strings_view(r@) == type_texts(types_view(ts@)),
    decreases ts, 0nat,
{
    proof {
        lemma_types_view(ts@);
    }
    let mut out: Vec<String> = Vec::new();
    let mut i: usize = 0;
    while i < ts.len()
        invariant
            i <= ts.len(),
            out.len() == i,
            types_view(ts@).len() == ts.len(),
            forall|j: int| 0 <= j < ts.len() ==> #[trigger] types_view(ts@)[j] == type_view(ts@[j]),
            forall|j: int| 0 <= j < i ==> out@[j]@ == type_text(#[trigger] types_view(ts@)[j]),
        decreases ts.len() - i,
    {
        proof {
            vstd::std_specs::vec::axiom_vec_index_decreases(*ts, i as int);
        }
        out.push(type_to_string(&ts[i]));
        i += 1;
    }
    assert(strings_view(out@) =~= type_texts(types_view(ts@)));
    out
}

/// A type as text.
#[verifier::rlimit(40)]
pub fn type_to_string(t: &Type) -> (r: String)
    ensures
        r@ == type_text(t@),
    decreases t, 1nat,
{
    match t {
        Type::Simple(name) => name.clone(),
        Type::Linear(inner) => {
            let mut s = "!".to_owned();
            s.append(type_to_string(inner).as_str());
            s
        },
        Type::Optional(inner) => {
            let mut s = "?".to_owned();
            s.append(type_to_string(inner).as_str());
            s
        },
        Type::Generic(name, args) => {
            let mut s = name.clone();
            s.append("[");
            s.append(join(&types_to_strings(args), ", ").as_str());
            s.append("]");
            s
        },
        Type::Union(members) => join(&types_to_strings(members), " | "),
        Type::Record(fields) => {
            let mut texts: Vec<String> = Vec::new();
            let mut i: usize = 0;
            while i < fields.len()
                invariant
                    i <= fields.len(),
                    texts.len() == i,
                    *t == Type::Record(*fields),
                    forall|j: int|
                        0 <= j < i ==> texts@[j]@ == (#[trigger] fields_view(fields@)[j]).0 + ": "@
                            + type_text(fields_view(fields@)[j].1),
                decreases fields.len() - i,
            {
                proof {
                    assert(decreases_to!(*t => t->Record_0));
                    vstd::std_specs::vec::axiom_vec_index_decreases(*fields, i as int);
                }
                let mut line = fields[i].0.clone();
                line.append(": ");
                line.append(type_to_string(&fields[i].1).as_str());
                texts.push(line);
                i += 1;
            }
            assert(strings_view(texts@) =~= field_texts(fields_view(fields@)));
            let mut s = "{ ".to_owned();
            s.append(join(&texts, ", ").as_str());
            s.append(" }");
            s
        },
        Type::Variant(cases) => {
            let mut texts: Vec<String> = Vec::new();
            let mut i: usize = 0;
            while i < cases.len()
                invariant
                    i <= cases.len(),
                    texts.len() == i,
                    *t == Type::Variant(*cases),
                    forall|j: int|
                        0 <= j < i ==> texts@[j]@ == (#[trigger] cases_view(cases@)[j]).0 + ": "@
                            + joined(type_texts(cases_view(cases@)[j].1), ", "@),
                decreases cases.len() - i,
            {
                proof {
                    assert(decreases_to!(*t => t->Variant_0));
                    vstd::std_specs::vec::axiom_vec_index_decreases(*cases, i as int);
                }
                let mut line = cases[i].0.clone();
                line.append(": ");
                line.append(join(&types_to_strings(&cases[i].1), ", ").as_str());
                texts.push(line);
                i += 1;
            }
            assert(strings_view(texts@) =~= case_texts(cases_view(cases@)));
            let mut s = "{ ".to_owned();
            s.append(join(&texts, " | ").as_str());
            s.append(" }");
            s
        },
        Type::Function(params, result) => {
            let mut s = "(".to_owned();
            s.append(join(&types_to_strings(params), ", ").as_str());
            s.append(") => ");
            s.append(type_to_string(result).as_str());
            s
        },
    }
}

/// A value as text: a number in decimal, a text between double quotes, a
/// list as `[a, b]`, a closure and a record as an opaque marker, a resource
/// with its id and what it wraps.
pub open spec fn value_text(v: ValueView) -> Seq<char>
    decreases v, 1nat,
{
    match v {
        ValueView::Number(n) => decimal(n),
        ValueView::String(s) => "\""@ + s + "\""@,
        ValueView::Symbol(s) => s,
        ValueView::Quotation(_, _, _) => "[...]"@,
        ValueView::TypedQuotation(_, _, _, _) => "[...] : Type"@,
        ValueView::List(items) => "["@ + joined(value_texts(items), ", "@) + "]"@,
        ValueView::Record(_) => "{...}"@,
        ValueView::Quoted(inner) => "'"@ + value_text(*inner),
        ValueView::Quasiquoted(inner) => "`"@ + value_text(*inner),
        ValueView::Type(t) => type_text(t),
        ValueView::QuotedType(t) => "#"@ + type_text(t),
        ValueView::Module(name, _) => "module "@ + name,
        ValueView::Resource(id, inner) => "resource("@ + decimal_digits(id) + ", "@ + value_text(
            *inner,
        ) + ")"@,
        ValueView::BorrowedResource(id, inner) => "borrowed("@ + decimal_digits(id) + ", "@
            + value_text(*inner) + ")"@,
        ValueView::Optional(inner) => match inner {
            Some(x) => "?"@ + value_text(*x),
            None => "Nothing"@,
        },
        ValueView::Variant(tag, fields) => if fields.len() == 0 {
            tag
        } else {
            tag + "("@ + joined(value_texts(fields), ", "@) + ")"@
        },
        ValueView::Nothing => "Nothing"@,
        ValueView::Nil => "nil"@,
    }
}

/// The texts of a list of values.
pub open spec fn value_texts(vs: Seq<ValueView>) -> Seq<Seq<char>>
    decreases vs, 0nat,
{
    Seq::new(
        vs.len(),
        |i: int|
            if 0 <= i < vs.len() {
                value_text(vs[i])
            } else {
                Seq::empty()
            },
    )
}

/// The texts of a list of values.
pub fn values_to_strings(vs: &Vec<Value>) -> (r: Vec<String>)
    ensures
        strings_view(r@) == value_texts(values_view(vs@)),
    decreases vs, 0nat,
{
    proof {
        lemma_values_view(vs@);
    }
    let mut out: Vec<String> = Vec::new();
    let mut i: usize = 0;
    while i < vs.len()
        invariant
            i <= vs.len(),
            out.len() == i,
            values_view(vs@).len() == vs.len(),
            forall|j: int|
                0 <= j < vs.len() ==> #[trigger] values_view(vs@)[j] == value_view(vs@[j]),
            forall|j: int| 0 <= j < i ==> out@[j]@ == value_text(#[trigger] values_view(vs@)[j]),
        decreases vs.len() - i,
    {
        proof {
            vstd::std_specs::vec::axiom_vec_index_decreases(*vs, i as int);
        }
        out.push(vs[i].to_text());
        i += 1;
    }
    assert(strings_view(out@) =~= value_texts(values_view(vs@)));
    out
}

/// `head`, then `inner`, then `tail`.
fn wrapped(head: &str, inner: &str, tail: &str) -> (r: String)
    ensures
        r@ == head@ + inner@ + tail@,
{
    let mut s = head.to_owned();
    s.append(inner);
    s.append(tail);
    s
}

/// `head`, then `inner`.
fn prefixed(head: &str, inner: &str) -> (r: String)
    ensures
        r@ == head@ + inner@,
{
    let mut s = head.to_owned();
    s.append(inner);
    s
}

impl Value {
    /// The value as text.
    #[verifier::rlimit(40)]
    pub fn to_text(&self) -> (r: String)
        ensures
            r@ == value_text(self@),
        decreases self, 1nat,
    {
        match self {
            Value::Number(n) => render_int(*n as i64),
            Value::String(s) => wrapped("\"", s.as_str(), "\""),
            Value::Symbol(s) => s.clone(),
            Value::Quotation(_, _, _) => "[...]".to_owned(),
            Value::TypedQuotation(_, _, _, _) => "[...] : Type".to_owned(),
            Value::List(items) => wrapped("[", join(&values_to_strings(items), ", ").as_str(), "]"),
            Value::Record(_) => "{...}".to_owned(),
            Value::Quoted(inner) => prefixed("'", inner.to_text().as_str()),
            Value::Quasiquoted(inner) => prefixed("`", inner.to_text().as_str()),
            Value::Type(t) => type_to_string(t),
            Value::QuotedType(t) => prefixed("#", type_to_string(t).as_str()),
            Value::Module(name, _) => prefixed("module ", name.as_str()),
            Value::Resource(id, inner) => {
                let mut s = wrapped("resource(", render_nat(*id as u64).as_str(), ", ");
                s.append(inner.to_text().as_str());
                s.append(")");
                s
            },
            Value::BorrowedResource(id, inner) => {
                let mut s = wrapped("borrowed(", render_nat(*id as u64).as_str(), ", ");
                s.append(inner.to_text().as_str());
                s.append(")");
                s
            },
            Value::Optional(inner) => match inner {
                Some(x) => prefixed("?", x.to_text().as_str()),
                None => "Nothing".to_owned(),
            },
            Value::Variant(tag, fields) => {
                proof {
                    lemma_values_view(fields@);
                }
                if fields.len() == 0 {
                    tag.clone()
                } else {
                    let mut s = prefixed(tag.as_str(), "(");
                    s.append(join(&values_to_strings(fields), ", ").as_str());
                    s.append(")");
                    s
                }
            },
            Value::Nothing => "Nothing".to_owned(),
            Value::Nil => "nil".to_owned(),
        }
    }

    /// The value as text, for display.
    pub fn green(&self) -> (r: String)
        ensures
            r@ == value_text(self@),
    {
        self.to_text()
    }
}

impl Value {
    /// The value as text, without white space around it.
    pub fn trim(&self) -> (r: String)
        ensures
            r@ == trimmed(value_text(self@)),
    {
        let text = self.to_text();
        let chars = chars_of(text.as_str());
        let (from, to) = trim_bounds(&chars);
        text.as_str().substring_char(from, to).to_owned()
    }
}

} // verus!
