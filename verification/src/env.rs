//! Lexical environments: lookup walks outward, assignment stays in the current scope.

use vstd::prelude::*;
use crate::text::same_text;
use crate::types::{
    assoc_map, bindings_view, env_lookup, lemma_bindings_view, Env, EnvView, Value, ValueView,
};

verus! {

/// The view of an optional value.
pub open spec fn option_view(v: Option<Value>) -> Option<ValueView> {
    match v {
        Some(x) => Some(x@),
        None => None,
    }
}

/// The pair at `i` is the last one of `pairs` with the name `name`.
pub open spec fn is_last_binding<V>(pairs: Seq<(Seq<char>, V)>, name: Seq<char>, i: int) -> bool {
    &&& 0 <= i < pairs.len()
    &&& pairs[i].0 == name
    &&& forall|j: int| i < j < pairs.len() ==> pairs[j].0 != name
}

/// The index of the last pair of `pairs` named `name`, where there is one.
pub open spec fn last_binding<V>(pairs: Seq<(Seq<char>, V)>, name: Seq<char>) -> int {
    choose|i: int| is_last_binding(pairs, name, i)
}

/// A name has one last pair at most.
pub proof fn lemma_last_binding_unique<V>(pairs: Seq<(Seq<char>, V)>, name: Seq<char>, i: int, j: int)
    requires
        is_last_binding(pairs, name, i),
    ensures
        is_last_binding(pairs, name, last_binding(pairs, name)),
        is_last_binding(pairs, name, j) ==> i == j,
{
}

/// A name that is bound has a last pair.
pub proof fn lemma_bound_has_binding<V>(pairs: Seq<(Seq<char>, V)>, name: Seq<char>)
    requires
        assoc_map(pairs).dom().contains(name),
    ensures
        is_last_binding(pairs, name, last_binding(pairs, name)),
    decreases pairs.len(),
{
    if pairs.len() > 0 {
        if pairs.last().0 == name {
            assert(is_last_binding(pairs, name, pairs.len() - 1));
        } else {
            let front = pairs.drop_last();
            lemma_bound_has_binding(front, name);
            let i = last_binding(front, name);
            assert(is_last_binding(front, name, i));
            assert(forall|j: int| 0 <= j < front.len() ==> front[j] == pairs[j]);
            assert(pairs[i].0 == name);
            assert forall|j: int| i < j < pairs.len() implies pairs[j].0 != name by {
                if j < front.len() {
                    assert(front[j].0 != name);
                }
            }
            assert(is_last_binding(pairs, name, i));
        }
    }
}

/// The last pair of a name is its binding.
pub proof fn lemma_assoc_map_last<V>(pairs: Seq<(Seq<char>, V)>, name: Seq<char>, i: int)
    requires
        is_last_binding(pairs, name, i),
    ensures
        assoc_map(pairs).dom().contains(name),
        assoc_map(pairs)[name] == pairs[i].1,
    decreases pairs.len(),
{
    if i < pairs.len() - 1 {
        lemma_assoc_map_last(pairs.drop_last(), name, i);
    }
}

/// A name that no pair has is not bound.
pub proof fn lemma_assoc_map_absent<V>(pairs: Seq<(Seq<char>, V)>, name: Seq<char>)
    requires
        forall|j: int| 0 <= j < pairs.len() ==> pairs[j].0 != name,
    ensures
        !assoc_map(pairs).dom().contains(name),
    decreases pairs.len(),
{
    if pairs.len() > 0 {
        lemma_assoc_map_absent(pairs.drop_last(), name);
    }
}

/// Replacing the last pair of a name is binding the name anew.
pub proof fn lemma_assoc_map_update<V>(pairs: Seq<(Seq<char>, V)>, name: Seq<char>, i: int, v: V)
    requires
        is_last_binding(pairs, name, i),
    ensures
        assoc_map(pairs.update(i, (name, v))) == assoc_map(pairs).insert(name, v),
    decreases pairs.len(),
{
    let updated = pairs.update(i, (name, v));
    if i == pairs.len() - 1 {
        assert(updated.drop_last() =~= pairs.drop_last());
        assert(assoc_map(updated) =~= assoc_map(pairs).insert(name, v));
    } else {
        lemma_assoc_map_update(pairs.drop_last(), name, i, v);
        assert(updated.drop_last() =~= pairs.drop_last().update(i, (name, v)));
        assert(assoc_map(updated) =~= assoc_map(pairs).insert(name, v));
    }
}

/// The index of the last pair of `bindings` named `name`, if there is one.
pub fn find_binding(bindings: &Vec<(String, Value)>, name: &str) -> (r: Option<usize>)
    ensures
        match r {
            Some(i) => is_last_binding(bindings_view(bindings@), name@, i as int),
            None => !assoc_map(bindings_view(bindings@)).dom().contains(name@),
        },
{
    proof {
        lemma_bindings_view(bindings@);
    }
    let mut i: usize = bindings.len();
    while i > 0
        invariant
            i <= bindings.len(),
            forall|j: int| i <= j < bindings.len() ==> bindings@[j].0@ != name@,
        decreases i,
    {
        i -= 1;
        if same_text(bindings[i].0.as_str(), name) {
            return Some(i);
        }
    }
    proof {
        lemma_assoc_map_absent(bindings_view(bindings@), name@);
    }
    None
}

impl EnvView {
    /// The scope after `name` was bound to `value` in it: the pair in force
    /// for the name is replaced, or a pair is added.
    pub open spec fn bind(self, name: Seq<char>, value: ValueView) -> EnvView {
        if assoc_map(self.bindings).dom().contains(name) {
            EnvView {
                bindings: self.bindings.update(last_binding(self.bindings, name), (name, value)),
                ..self
            }
        } else {
            EnvView { bindings: self.bindings.push((name, value)), ..self }
        }
    }
}

impl Env {
    /// An empty scope with nothing around it.
    pub fn new() -> (r: Env)
        ensures
            r@ == (EnvView { bindings: Seq::empty(), parent: None }),
    {
        let r = Env { bindings: Vec::new(), parent: None };
        proof {
            lemma_bindings_view(r.bindings@);
            assert(r@.bindings =~= Seq::empty());
        }
        r
    }

    /// An empty scope inside a snapshot of `parent`.
    pub fn with_parent(parent: &Env) -> (r: Env)
        ensures
            r@ == (EnvView { bindings: Seq::empty(), parent: Some(Box::new(parent@)) }),
    {
        let r = Env { bindings: Vec::new(), parent: Some(Box::new(parent.clone())) };
        proof {
            lemma_bindings_view(r.bindings@);
            assert(r@.bindings =~= Seq::empty());
        }
        r
    }

    /// The value that the nearest scope binds `name` to.
    pub fn get(&self, name: &str) -> (r: Option<Value>)
        ensures
            option_view(r) == env_lookup(self@, name@),
        decreases self,
    {
        match find_binding(&self.bindings, name) {
            Some(i) => {
                proof {
                    lemma_bindings_view(self.bindings@);
                    lemma_assoc_map_last(self@.bindings, name@, i as int);
                }
                Some(self.bindings[i].1.clone())
            },
            None => match &self.parent {
                Some(p) => p.get(name),
                None => None,
            },
        }
    }

    /// Binds `name` to `value` in this scope; the scopes around it stay as they are.
    pub fn set(&mut self, name: &str, value: Value)
        ensures
            final(self)@ == old(self)@.bind(name@, value@),
    {
        let ghost before = self@.bindings;
        proof {
            lemma_bindings_view(self.bindings@);
        }
        match find_binding(&self.bindings, name) {
            Some(i) => {
                self.bindings[i] = (name.to_owned(), value);
                proof {
                    lemma_bindings_view(self.bindings@);
                    lemma_assoc_map_last(before, name@, i as int);
                    lemma_last_binding_unique(before, name@, i as int, last_binding(before, name@));
                    assert(self@.bindings =~= before.update(i as int, (name@, value@)));
                }
            },
            None => {
                self.bindings.push((name.to_owned(), value));
                proof {
                    lemma_bindings_view(self.bindings@);
                    assert(self@.bindings =~= before.push((name@, value@)));
                }
            },
        }
    }
}

/// An assignment binds the name in the scope's own map and nowhere else.
pub proof fn lemma_bind_is_insert(env: EnvView, name: Seq<char>, value: ValueView)
    ensures
        env.bind(name, value).parent == env.parent,
        assoc_map(env.bind(name, value).bindings) == assoc_map(env.bindings).insert(name, value),
{
    if assoc_map(env.bindings).dom().contains(name) {
        lemma_bound_has_binding(env.bindings, name);
        lemma_assoc_map_update(env.bindings, name, last_binding(env.bindings, name), value);
    } else {
        assert(env.bindings.push((name, value)).drop_last() =~= env.bindings);
    }
}

/// After an assignment the name yields the new value, and every other name
/// what it yielded before.
pub proof fn lemma_lookup_after_set(env: EnvView, name: Seq<char>, value: ValueView, other: Seq<char>)
    ensures
        env_lookup(env.bind(name, value), other) == if other == name {
            Some(value)
        } else {
            env_lookup(env, other)
        },
{
    lemma_bind_is_insert(env, name, value);
}

} // verus!
