//! Stack effects, and the translation of quotations with named parameters
//! into code that only shuffles the stack.

use vstd::prelude::*;
use crate::errors::{EvaluatorError, ParseFailure, TranslationFailure};
use crate::text::{
    chars_of, parse_number, read_number, same_text, strings_view, trim_bounds, trimmed, words,
    words_between,
};
use crate::types::{
    expr_view, exprs_view, lemma_exprs_view, params_view, Expr, ExprView, Param, ParamView,
};

verus! {

/// What a word takes from the stack and what it leaves there, by name.
#[derive(Debug, PartialEq)]
pub struct StackEffect {
    pub inputs: Vec<String>,
    pub outputs: Vec<String>,
}

/// The view of a [`StackEffect`].
pub ghost struct StackEffectView {
    pub inputs: Seq<Seq<char>>,
    pub outputs: Seq<Seq<char>>,
}

impl View for StackEffect {
    type V = StackEffectView;

    open spec fn view(&self) -> StackEffectView {
        StackEffectView { inputs: strings_view(self.inputs@), outputs: strings_view(self.outputs@) }
    }
}

impl StackEffectView {
    /// By how much the word makes the stack grow.
    pub open spec fn depth_change(self) -> int {
        self.outputs.len() - self.inputs.len()
    }
}

impl StackEffect {
    /// The effect that takes `inputs` and leaves `outputs`.
    pub fn new(inputs: Vec<String>, outputs: Vec<String>) -> (r: StackEffect)
        ensures
            r.inputs == inputs,
            r.outputs == outputs,
    {
        StackEffect { inputs, outputs }
    }

    /// By how much the word makes the stack grow.
    pub fn stack_depth_change(&self) -> (r: isize)
        requires
            self.inputs.len() <= isize::MAX,
            self.outputs.len() <= isize::MAX,
        ensures
            r == self@.depth_change(),
    {
        self.outputs.len() as isize - self.inputs.len() as isize
    }
}

/// No names.
fn names0() -> (r: Vec<String>)
    ensures
        strings_view(r@) == Seq::<Seq<char>>::empty(),
{
    let r: Vec<String> = Vec::new();
    assert(strings_view(r@) =~= Seq::<Seq<char>>::empty());
    r
}

/// One name.
fn names1(a: &str) -> (r: Vec<String>)
    ensures
        strings_view(r@) == seq![a@],
{
    let mut r: Vec<String> = Vec::new();
    r.push(a.to_owned());
    assert(strings_view(r@) =~= seq![a@]);
    r
}

/// Two names.
fn names2(a: &str, b: &str) -> (r: Vec<String>)
    ensures
        strings_view(r@) == seq![a@, b@],
{
    let mut r: Vec<String> = Vec::new();
    r.push(a.to_owned());
    r.push(b.to_owned());
    assert(strings_view(r@) =~= seq![a@, b@]);
    r
}

/// Three names.
fn names3(a: &str, b: &str, c: &str) -> (r: Vec<String>)
    ensures
        strings_view(r@) == seq![a@, b@, c@],
{
    let mut r: Vec<String> = Vec::new();
    r.push(a.to_owned());
    r.push(b.to_owned());
    r.push(c.to_owned());
    assert(strings_view(r@) =~= seq![a@, b@, c@]);
    r
}

/// Four names.
fn names4(a: &str, b: &str, c: &str, d: &str) -> (r: Vec<String>)
    ensures
        strings_view(r@) == seq![a@, b@, c@, d@],
{
    let mut r: Vec<String> = Vec::new();
    r.push(a.to_owned());
    r.push(b.to_owned());
    r.push(c.to_owned());
    r.push(d.to_owned());
    assert(strings_view(r@) =~= seq![a@, b@, c@, d@]);
    r
}

/// Whether `w` is written between double quotes.
pub open spec fn is_quoted_text(w: Seq<char>) -> bool {
    w.len() > 0 && w[0] == '"' && w.last() == '"'
}

/// The declared stack effect of a built-in word. A number or a quoted text
/// pushes itself; `pick` and `roll` have no fixed effect.
pub open spec fn word_effect(w: Seq<char>) -> Option<StackEffectView> {
    if w == "pick"@ || w == "roll"@ {
        None
    } else if w == "dup"@ {
        Some(StackEffectView { inputs: seq!["a"@], outputs: seq!["a"@, "a"@] })
    } else if w == "drop"@ {
        Some(StackEffectView { inputs: seq!["a"@], outputs: Seq::empty() })
    } else if w == "swap"@ {
        Some(StackEffectView { inputs: seq!["a"@, "b"@], outputs: seq!["b"@, "a"@] })
    } else if w == "rot"@ {
        Some(StackEffectView { inputs: seq!["a"@, "b"@, "c"@], outputs: seq!["b"@, "c"@, "a"@] })
    } else if w == "over"@ {
        Some(StackEffectView { inputs: seq!["a"@, "b"@], outputs: seq!["a"@, "b"@, "a"@] })
    } else if w == "tuck"@ {
        Some(StackEffectView { inputs: seq!["a"@, "b"@], outputs: seq!["b"@, "a"@, "b"@] })
    } else if w == "nip"@ {
        Some(StackEffectView { inputs: seq!["a"@, "b"@], outputs: seq!["b"@] })
    } else if w == "+"@ || w == "add"@ {
        Some(StackEffectView { inputs: seq!["a"@, "b"@], outputs: seq!["sum"@] })
    } else if w == "-"@ || w == "sub"@ {
        Some(StackEffectView { inputs: seq!["a"@, "b"@], outputs: seq!["diff"@] })
    } else if w == "*"@ || w == "mul"@ {
        Some(StackEffectView { inputs: seq!["a"@, "b"@], outputs: seq!["product"@] })
    } else if w == "/"@ || w == "div"@ {
        Some(StackEffectView { inputs: seq!["a"@, "b"@], outputs: seq!["quotient"@] })
    } else if w == "mod"@ {
        Some(StackEffectView { inputs: seq!["a"@, "b"@], outputs: seq!["remainder"@] })
    } else if w == "sqrt"@ {
        Some(StackEffectView { inputs: seq!["a"@], outputs: seq!["sqrt"@] })
    } else if w == "and"@ {
        Some(StackEffectView { inputs: seq!["a"@, "b"@], outputs: seq!["result"@] })
    } else if w == "or"@ {
        Some(StackEffectView { inputs: seq!["a"@, "b"@], outputs: seq!["result"@] })
    } else if w == "not"@ {
        Some(StackEffectView { inputs: seq!["a"@], outputs: seq!["result"@] })
    } else if w == "=="@ || w == "eq"@ {
        Some(StackEffectView { inputs: seq!["a"@, "b"@], outputs: seq!["result"@] })
    } else if w == "!="@ {
        Some(StackEffectView { inputs: seq!["a"@, "b"@], outputs: seq!["result"@] })
    } else if w == "<"@ {
        Some(StackEffectView { inputs: seq!["a"@, "b"@], outputs: seq!["result"@] })
    } else if w == ">"@ {
        Some(StackEffectView { inputs: seq!["a"@, "b"@], outputs: seq!["result"@] })
    } else if w == "<="@ {
        Some(StackEffectView { inputs: seq!["a"@, "b"@], outputs: seq!["result"@] })
    } else if w == ">="@ {
        Some(StackEffectView { inputs: seq!["a"@, "b"@], outputs: seq!["result"@] })
    } else if w == "dip"@ {
        Some(StackEffectView { inputs: seq!["x"@, "quot"@], outputs: seq!["quot(x)"@] })
    } else if w == "bi"@ {
        Some(StackEffectView { inputs: seq!["x"@, "p"@, "q"@], outputs: seq!["p(x)"@, "q(x)"@] })
    } else if w == "tri"@ {
        Some(StackEffectView { inputs: seq!["x"@, "p"@, "q"@, "r"@], outputs: seq!["p(x)"@, "q(x)"@, "r(x)"@] })
    } else if w == "keep"@ {
        Some(StackEffectView { inputs: seq!["x"@, "quot"@], outputs: seq!["x"@, "quot(x)"@] })
    } else if w == "bi*"@ {
        Some(StackEffectView { inputs: seq!["x"@, "y"@, "p"@, "q"@], outputs: seq!["p(x)"@, "q(y)"@] })
    } else if w == "bi@"@ {
        Some(StackEffectView { inputs: seq!["x"@, "y"@, "p"@], outputs: seq!["p(x)"@, "p(y)"@] })
    } else if parse_number(w) is Some {
        Some(StackEffectView { inputs: Seq::empty(), outputs: seq!["n"@] })
    } else if is_quoted_text(w) {
        Some(StackEffectView { inputs: Seq::empty(), outputs: seq!["str"@] })
    } else {
        None
    }
}

/// The declared stack effect of a built-in word.
pub fn get_word_effect(word: &str) -> (r: Option<StackEffect>)
    ensures
        match r {
            Some(e) => word_effect(word@) == Some(e@),
            None => word_effect(word@) is None,
        },
{
    if same_text(word, "pick") || same_text(word, "roll") {
        None
    } else if same_text(word, "dup") {
        Some(StackEffect::new(names1("a"), names2("a", "a")))
    } else if same_text(word, "drop") {
        Some(StackEffect::new(names1("a"), names0()))
    } else if same_text(word, "swap") {
        Some(StackEffect::new(names2("a", "b"), names2("b", "a")))
    } else if same_text(word, "rot") {
        Some(StackEffect::new(names3("a", "b", "c"), names3("b", "c", "a")))
    } else if same_text(word, "over") {
        Some(StackEffect::new(names2("a", "b"), names3("a", "b", "a")))
    } else if same_text(word, "tuck") {
        Some(StackEffect::new(names2("a", "b"), names3("b", "a", "b")))
    } else if same_text(word, "nip") {
        Some(StackEffect::new(names2("a", "b"), names1("b")))
    } else if same_text(word, "+") || same_text(word, "add") {
        Some(StackEffect::new(names2("a", "b"), names1("sum")))
    } else if same_text(word, "-") || same_text(word, "sub") {
        Some(StackEffect::new(names2("a", "b"), names1("diff")))
    } else if same_text(word, "*") || same_text(word, "mul") {
        Some(StackEffect::new(names2("a", "b"), names1("product")))
    } else if same_text(word, "/") || same_text(word, "div") {
        Some(StackEffect::new(names2("a", "b"), names1("quotient")))
    } else if same_text(word, "mod") {
        Some(StackEffect::new(names2("a", "b"), names1("remainder")))
    } else if same_text(word, "sqrt") {
        Some(StackEffect::new(names1("a"), names1("sqrt")))
    } else if same_text(word, "and") {
        Some(StackEffect::new(names2("a", "b"), names1("result")))
    } else if same_text(word, "or") {
        Some(StackEffect::new(names2("a", "b"), names1("result")))
    } else if same_text(word, "not") {
        Some(StackEffect::new(names1("a"), names1("result")))
    } else if same_text(word, "==") || same_text(word, "eq") {
        Some(StackEffect::new(names2("a", "b"), names1("result")))
    } else if same_text(word, "!=") {
        Some(StackEffect::new(names2("a", "b"), names1("result")))
    } else if same_text(word, "<") {
        Some(StackEffect::new(names2("a", "b"), names1("result")))
    } else if same_text(word, ">") {
        Some(StackEffect::new(names2("a", "b"), names1("result")))
    } else if same_text(word, "<=") {
        Some(StackEffect::new(names2("a", "b"), names1("result")))
    } else if same_text(word, ">=") {
        Some(StackEffect::new(names2("a", "b"), names1("result")))
    } else if same_text(word, "dip") {
        Some(StackEffect::new(names2("x", "quot"), names1("quot(x)")))
    } else if same_text(word, "bi") {
        Some(StackEffect::new(names3("x", "p", "q"), names2("p(x)", "q(x)")))
    } else if same_text(word, "tri") {
        Some(StackEffect::new(names4("x", "p", "q", "r"), names3("p(x)", "q(x)", "r(x)")))
    } else if same_text(word, "keep") {
        Some(StackEffect::new(names2("x", "quot"), names2("x", "quot(x)")))
    } else if same_text(word, "bi*") {
        Some(StackEffect::new(names4("x", "y", "p", "q"), names2("p(x)", "q(y)")))
    } else if same_text(word, "bi@") {
        Some(StackEffect::new(names3("x", "y", "p"), names2("p(x)", "p(y)")))
    } else if read_number(word).is_some() {
        Some(StackEffect::new(names0(), names1("n")))
    } else {
        let s = chars_of(word);
        if s.len() > 0 && s[0] == '"' && s[s.len() - 1] == '"' {
            Some(StackEffect::new(names0(), names1("str")))
        } else {
            None
        }
    }
}

/// A declared effect names at most four inputs and at most three outputs.
pub proof fn lemma_word_effect_small(w: Seq<char>)
    ensures
        word_effect(w) is Some ==> word_effect(w)->Some_0.inputs.len() <= 4 && word_effect(
            w,
        )->Some_0.outputs.len() <= 3,
{
}

/// What the translator knows of one parameter name.
#[derive(Debug)]
pub struct TrackedParam {
    pub name: String,
    /// How deep the value lies below the values that were on the stack at entry.
    pub depth: i64,
    /// How often the body refers to the name.
    pub uses: usize,
    /// The index of the last expression of the body that refers to the name.
    pub last_use: Option<usize>,
    /// Whether the last use has been translated.
    pub consumed: bool,
}

/// The view of a [`TrackedParam`].
pub ghost struct TrackedParamView {
    pub name: Seq<char>,
    pub depth: int,
    pub uses: nat,
    pub last_use: Option<nat>,
    pub consumed: bool,
}

impl View for TrackedParam {
    type V = TrackedParamView;

    open spec fn view(&self) -> TrackedParamView {
        TrackedParamView {
            name: self.name@,
            depth: self.depth as int,
            uses: self.uses as nat,
            last_use: match self.last_use {
                Some(i) => Some(i as nat),
                None => None,
            },
            consumed: self.consumed,
        }
    }
}

/// The view of the parameter table.
pub open spec fn tracked_view(v: Seq<TrackedParam>) -> Seq<TrackedParamView> {
    Seq::new(v.len(), |i: int| v[i]@)
}

/// The names of a parameter list.
pub open spec fn param_names(ps: Seq<ParamView>) -> Seq<Seq<char>> {
    Seq::new(ps.len(), |i: int| ps[i].name)
}

/// The entry at `i` is the first one of `table` for `name`.
pub open spec fn is_entry_of(table: Seq<TrackedParamView>, name: Seq<char>, i: int) -> bool {
    &&& 0 <= i < table.len()
    &&& table[i].name == name
    &&& forall|j: int| 0 <= j < i ==> table[j].name != name
}

/// No entry of `table` is for `name`.
pub open spec fn has_no_entry(table: Seq<TrackedParamView>, name: Seq<char>) -> bool {
    forall|j: int| 0 <= j < table.len() ==> table[j].name != name
}

/// The index of the entry for `name`, if the name is a parameter.
pub open spec fn entry_of(table: Seq<TrackedParamView>, name: Seq<char>) -> Option<int>
    decreases table.len(),
{
    if table.len() == 0 {
        None
    } else if entry_of(table.drop_last(), name) is Some {
        entry_of(table.drop_last(), name)
    } else if table.last().name == name {
        Some(table.len() - 1)
    } else {
        None
    }
}

/// `entry_of` finds the first entry of a name, and only that.
pub proof fn lemma_entry_of(table: Seq<TrackedParamView>, name: Seq<char>)
    ensures
        match entry_of(table, name) {
            Some(i) => is_entry_of(table, name, i),
            None => has_no_entry(table, name),
        },
    decreases table.len(),
{
    if table.len() > 0 {
        let front = table.drop_last();
        lemma_entry_of(front, name);
        assert(forall|j: int| 0 <= j < front.len() ==> front[j] == table[j]);
        match entry_of(front, name) {
            Some(i) => {
                assert(is_entry_of(table, name, i));
            },
            None => {
                if table.last().name == name {
                    assert(is_entry_of(table, name, table.len() - 1));
                } else {
                    assert(has_no_entry(table, name));
                }
            },
        }
    }
}

/// The first entry of a name is the one that `entry_of` finds.
pub proof fn lemma_entry_found(table: Seq<TrackedParamView>, name: Seq<char>, i: int)
    requires
        is_entry_of(table, name, i),
    ensures
        entry_of(table, name) == Some(i),
{
    lemma_entry_of(table, name);
}

/// The deepest depth that the language can name: depths are 32-bit numbers.
pub open spec fn max_depth() -> int {
    0x7fff_ffff
}

/// The table for the first `k` of `names`. The last parameter lies on top of
/// the stack, at depth 0, and each one before it one deeper; of a name that
/// occurs twice the first occurrence counts.
pub open spec fn seed_upto(names: Seq<Seq<char>>, k: int) -> Seq<TrackedParamView>
    decreases k,
{
    if k <= 0 {
        Seq::empty()
    } else {
        let before = seed_upto(names, k - 1);
        if entry_of(before, names[k - 1]) is Some {
            before
        } else {
            before.push(
                TrackedParamView {
                    name: names[k - 1],
                    depth: names.len() - k,
                    uses: 0,
                    last_use: None,
                    consumed: false,
                },
            )
        }
    }
}

/// The table before the body is looked at.
pub open spec fn seed(names: Seq<Seq<char>>) -> Seq<TrackedParamView> {
    seed_upto(names, names.len() as int)
}

/// One more use, as far as a machine word counts.
pub open spec fn one_more(uses: nat) -> nat {
    if uses < usize::MAX {
        uses + 1
    } else {
        uses
    }
}

/// The table after a reference to `name` at `index` was seen.
pub open spec fn note_use(table: Seq<TrackedParamView>, name: Seq<char>, index: nat) -> Seq<
    TrackedParamView,
> {
    match entry_of(table, name) {
        Some(i) => table.update(
            i,
            TrackedParamView { uses: one_more(table[i].uses), last_use: Some(index), ..table[i] },
        ),
        None => table,
    }
}

/// The table after the uses in `e` were seen: those of a symbol and of the
/// two sides of a pipeline, which count as the expressions 0 and 1. What a
/// nested quotation refers to is not looked at.
pub open spec fn note_expr(table: Seq<TrackedParamView>, e: ExprView, index: nat) -> Seq<
    TrackedParamView,
>
    decreases e,
{
    match e {
        ExprView::Symbol(s) => note_use(table, s, index),
        ExprView::Pipeline(left, right) => note_expr(note_expr(table, *left, 0), *right, 1),
        _ => table,
    }
}

/// The table after the first `n` expressions of `body` were seen.
pub open spec fn note_body(table: Seq<TrackedParamView>, body: Seq<ExprView>, n: int) -> Seq<
    TrackedParamView,
>
    decreases n,
{
    if n <= 0 {
        table
    } else {
        note_expr(note_body(table, body, n - 1), body[n - 1], (n - 1) as nat)
    }
}

/// The state of a translation: the parameter table, by how much the code
/// emitted so far makes the stack grow, and that code.
pub ghost struct ScanState {
    pub table: Seq<TrackedParamView>,
    pub delta: int,
    pub output: Seq<ExprView>,
}

/// The code that brings the value at `depth` to the top and removes it
/// from where it was.
pub open spec fn consuming_access(depth: int) -> Seq<ExprView> {
    if depth == 0 {
        Seq::empty()
    } else if depth == 1 {
        seq![ExprView::Symbol("swap"@)]
    } else if depth == 2 {
        seq![ExprView::Symbol("rot"@)]
    } else {
        seq![ExprView::Number(depth), ExprView::Symbol("roll"@)]
    }
}

/// The code that copies the value at `depth` to the top.
pub open spec fn copying_access(depth: int) -> Seq<ExprView> {
    seq![ExprView::Number(depth), ExprView::Symbol("pick"@)]
}

/// The table after the value of entry `i` was taken from depth `actual`:
/// the entry is consumed, and what was recorded deeper than `actual` is one
/// less deep.
pub open spec fn after_consuming(table: Seq<TrackedParamView>, i: int, actual: int) -> Seq<
    TrackedParamView,
> {
    Seq::new(
        table.len(),
        |j: int|
            TrackedParamView {
                depth: if table[j].depth > actual {
                    table[j].depth - 1
                } else {
                    table[j].depth
                },
                consumed: table[j].consumed || j == i,
                ..table[j]
            },
    )
}

/// A change of depth that keeps within what the language can name.
pub open spec fn in_range(delta: int) -> bool {
    -max_depth() <= delta <= max_depth()
}

/// The state after a symbol was translated. A parameter is copied by
/// `pick`, but at its last use it is moved; any other word must have a
/// declared effect and is kept.
pub open spec fn emit_symbol(st: ScanState, s: Seq<char>, index: nat) -> Result<
    ScanState,
    TranslationFailure,
> {
    match entry_of(st.table, s) {
        Some(i) => {
            let actual = st.table[i].depth + st.delta;
            if st.table[i].consumed {
                Err(TranslationFailure::ParamAlreadyConsumed)
            } else if actual < 0 {
                Err(TranslationFailure::NegativeDepth)
            } else if actual > max_depth() {
                Err(TranslationFailure::DepthOutOfRange)
            } else if st.table[i].last_use == Some(index) {
                Ok(
                    ScanState {
                        table: after_consuming(st.table, i, actual),
                        delta: st.delta,
                        output: st.output + consuming_access(actual),
                    },
                )
            } else if !in_range(st.delta + 1) {
                Err(TranslationFailure::DepthOutOfRange)
            } else {
                Ok(
                    ScanState {
                        table: st.table,
                        delta: st.delta + 1,
                        output: st.output + copying_access(actual),
                    },
                )
            }
        },
        None => match word_effect(s) {
            None => Err(TranslationFailure::UnknownWordEffect),
            Some(effect) => if !in_range(st.delta + effect.depth_change()) {
                Err(TranslationFailure::DepthOutOfRange)
            } else {
                Ok(
                    ScanState {
                        table: st.table,
                        delta: st.delta + effect.depth_change(),
                        output: st.output.push(ExprView::Symbol(s)),
                    },
                )
            },
        },
    }
}

/// The state after something that pushes one value was emitted.
pub open spec fn emit_push(st: ScanState, e: ExprView) -> Result<ScanState, TranslationFailure> {
    if !in_range(st.delta + 1) {
        Err(TranslationFailure::DepthOutOfRange)
    } else {
        Ok(ScanState { table: st.table, delta: st.delta + 1, output: st.output.push(e) })
    }
}

/// The state after the expression `e`, which is the one at `index` of the
/// body, was translated. A literal is kept. A pipeline is its left side and
/// then its right side. A nested quotation is translated by itself, knows
/// nothing of the parameters around it, and is kept as a quotation without
/// parameters. Nothing else can be translated.
pub open spec fn emit_expr(st: ScanState, e: ExprView, index: nat) -> Result<
    ScanState,
    TranslationFailure,
>
    decreases e, 0nat,
{
    match e {
        ExprView::Number(_) => emit_push(st, e),
        ExprView::String(_) => emit_push(st, e),
        ExprView::Boolean(_) => emit_push(st, e),
        ExprView::Symbol(s) => emit_symbol(st, s, index),
        ExprView::Pipeline(left, right) => match emit_expr(st, *left, index) {
            Err(f) => Err(f),
            Ok(mid) => emit_expr(mid, *right, index),
        },
        ExprView::Quotation(params, body) => match translation(param_names(params), body) {
            Err(f) => Err(f),
            Ok(code) => emit_push(st, ExprView::Quotation(Seq::empty(), code)),
        },
        _ => Err(TranslationFailure::UnsupportedExpression),
    }
}

/// The state after the first `n` expressions of `body` were translated.
pub open spec fn emit_body(st: ScanState, body: Seq<ExprView>, n: int) -> Result<
    ScanState,
    TranslationFailure,
>
    decreases body, n,
{
    if n <= 0 || n > body.len() {
        Ok(st)
    } else {
        match emit_body(st, body, n - 1) {
            Err(f) => Err(f),
            Ok(mid) => emit_expr(mid, body[n - 1], (n - 1) as nat),
        }
    }
}

/// The state in which the translation of `body` begins.
pub open spec fn initial_state(names: Seq<Seq<char>>, body: Seq<ExprView>) -> ScanState {
    ScanState {
        table: note_body(seed(names), body, body.len() as int),
        delta: 0,
        output: Seq::empty(),
    }
}

/// The code for a quotation with the parameters `names` and the body
/// `body`: code without parameters that expects the values of the
/// parameters on the stack, the last one on top.
pub open spec fn translation(names: Seq<Seq<char>>, body: Seq<ExprView>) -> Result<
    Seq<ExprView>,
    TranslationFailure,
>
    decreases body, body.len() + 1,
{
    if names.len() > max_depth() {
        Err(TranslationFailure::DepthOutOfRange)
    } else {
        match emit_body(initial_state(names, body), body, body.len() as int) {
            Err(f) => Err(f),
            Ok(st) => Ok(peephole(st.output)),
        }
    }
}

/// Whether `e` is the number `n`.
pub open spec fn is_number(e: ExprView, n: int) -> bool {
    e == ExprView::Number(n)
}

/// Whether `e` is the word `w`.
pub open spec fn is_word(e: ExprView, w: Seq<char>) -> bool {
    e == ExprView::Symbol(w)
}

/// Whether `e` is a word that takes two values and leaves one.
pub open spec fn is_binary(e: ExprView) -> bool {
    e is Symbol && {
        let s = e->Symbol_0;
        s == "+"@ || s == "-"@ || s == "*"@ || s == "/"@ || s == "mod"@ || s == "=="@ || s == "!="@
            || s == "<"@ || s == ">"@ || s == "<="@ || s == ">="@ || s == "and"@ || s == "or"@
    }
}

/// Whether `e` is a word that takes one value and leaves one.
pub open spec fn is_unary(e: ExprView) -> bool {
    e is Symbol && {
        let s = e->Symbol_0;
        s == "not"@ || s == "sqrt"@ || s == "sin"@ || s == "cos"@ || s == "tan"@ || s == "abs"@
            || s == "neg"@
    }
}

/// Whether `s` holds `n pick` at `i`.
pub open spec fn pick_at(s: Seq<ExprView>, i: int, n: int) -> bool {
    0 <= i && i + 2 <= s.len() && is_number(s[i], n) && is_word(s[i + 1], "pick"@)
}

/// What the window that begins at `i` is rewritten to, and how long the
/// window is; `None` where no rule applies.
pub open spec fn rewrite_at(s: Seq<ExprView>, i: int) -> Option<(Seq<ExprView>, int)> {
    if pick_at(s, i, 1) && pick_at(s, i + 2, 1) && i + 4 < s.len() && is_binary(s[i + 4]) {
        Some((seq![s[i + 4]], 5))
    } else if pick_at(s, i, 0) && pick_at(s, i + 2, 1) && i + 4 < s.len() && is_binary(s[i + 4]) {
        Some((seq![ExprView::Symbol("swap"@), s[i + 4]], 5))
    } else if pick_at(s, i, 0) && i + 2 < s.len() && is_unary(s[i + 2]) {
        Some((seq![s[i + 2]], 3))
    } else if pick_at(s, i, 1) && i + 2 < s.len() && is_word(s[i + 2], "drop"@) {
        Some((seq![ExprView::Symbol("nip"@)], 3))
    } else if pick_at(s, i, 0) && i + 2 < s.len() && is_word(s[i + 2], "drop"@) {
        Some((seq![ExprView::Symbol("drop"@)], 3))
    } else if pick_at(s, i, 1) && i + 2 == s.len() {
        Some((seq![ExprView::Symbol("swap"@), ExprView::Symbol("drop"@)], 2))
    } else if pick_at(s, i, 0) && i + 2 == s.len() {
        Some((Seq::empty(), 2))
    } else {
        None
    }
}

/// The code from `i` on after one sweep from left to right: a window that a
/// rule applies to is rewritten and skipped, anything else is kept.
pub open spec fn peephole_from(s: Seq<ExprView>, i: int) -> Seq<ExprView>
    decreases s.len() - i,
{
    if i < 0 || i >= s.len() {
        Seq::empty()
    } else {
        match rewrite_at(s, i) {
            Some((code, width)) => code + peephole_from(s, i + width),
            None => seq![s[i]] + peephole_from(s, i + 1),
        }
    }
}

/// The code after one sweep of the peephole rules.
pub open spec fn peephole(s: Seq<ExprView>) -> Seq<ExprView> {
    peephole_from(s, 0)
}

impl ScanState {
    /// Every recorded depth is one that the language can name, and so is the
    /// change of depth.
    pub open spec fn well_formed(self) -> bool {
        &&& in_range(self.delta)
        &&& forall|j: int|
            0 <= j < self.table.len() ==> 0 <= (#[trigger] self.table[j]).depth <= max_depth()
    }
}

/// Once a translation has failed, it has failed.
pub proof fn lemma_failure_stays(st: ScanState, body: Seq<ExprView>, n: int, m: int)
    requires
        0 <= n <= m <= body.len(),
        emit_body(st, body, n) is Err,
    ensures
        emit_body(st, body, m) == emit_body(st, body, n),
    decreases m - n,
{
    if n < m {
        lemma_failure_stays(st, body, n, m - 1);
    }
}

/// Whether `expr` is the number `value`.
pub fn is_expr_number(expr: &Expr, value: i32) -> (r: bool)
    ensures
        r == is_number(expr@, value as int),
{
    match expr {
        Expr::Number(n) => *n == value,
        _ => false,
    }
}

/// Whether `expr` is the word `name`.
pub fn is_expr_symbol(expr: &Expr, name: &str) -> (r: bool)
    ensures
        r == is_word(expr@, name@),
{
    match expr {
        Expr::Symbol(s) => same_text(s.as_str(), name),
        _ => false,
    }
}

/// Whether `expr` is a word that takes two values and leaves one.
pub fn is_binary_op(expr: &Expr) -> (r: bool)
    ensures
        r == is_binary(expr@),
{
    match expr {
        Expr::Symbol(s) => {
            let w = s.as_str();
            same_text(w, "+") || same_text(w, "-") || same_text(w, "*") || same_text(w, "/")
                || same_text(w, "mod") || same_text(w, "==") || same_text(w, "!=") || same_text(
                w,
                "<",
            ) || same_text(w, ">") || same_text(w, "<=") || same_text(w, ">=") || same_text(
                w,
                "and",
            ) || same_text(w, "or")
        },
        _ => false,
    }
}

/// Whether `expr` is a word that takes one value and leaves one.
pub fn is_unary_op(expr: &Expr) -> (r: bool)
    ensures
        r == is_unary(expr@),
{
    match expr {
        Expr::Symbol(s) => {
            let w = s.as_str();
            same_text(w, "not") || same_text(w, "sqrt") || same_text(w, "sin") || same_text(
                w,
                "cos",
            ) || same_text(w, "tan") || same_text(w, "abs") || same_text(w, "neg")
        },
        _ => false,
    }
}

/// Whether `code` holds `n pick` at `i`.
fn has_pick_at(code: &[Expr], i: usize, n: i32) -> (r: bool)
    ensures
        r == pick_at(exprs_view(code@), i as int, n as int),
{
    proof {
        lemma_exprs_view(code@);
    }
    i < code.len() && code.len() - i >= 2 && is_expr_number(&code[i], n) && is_expr_symbol(
        &code[i + 1],
        "pick",
    )
}

/// A word as an expression.
fn word(name: &str) -> (r: Expr)
    ensures
        r@ == ExprView::Symbol(name@),
{
    Expr::Symbol(name.to_owned())
}

/// One sweep of the peephole rules over `code`.
#[verifier::rlimit(40)]
pub fn peephole_optimize(code: &[Expr]) -> (r: Vec<Expr>)
    ensures
        exprs_view(r@) == peephole(exprs_view(code@)),
{
    let ghost s = exprs_view(code@);
    proof {
        lemma_exprs_view(code@);
    }
    let mut optimized: Vec<Expr> = Vec::new();
    let mut i: usize = 0;
    proof {
        lemma_exprs_view(optimized@);
        assert(exprs_view(optimized@) + peephole_from(s, 0) =~= peephole(s));
    }
    while i < code.len()
        invariant
            i <= code.len(),
            s == exprs_view(code@),
            s.len() == code.len(),
            forall|j: int| 0 <= j < code.len() ==> #[trigger] s[j] == expr_view(code@[j]),
            exprs_view(optimized@) + peephole_from(s, i as int) == peephole(s),
        decreases code.len() - i,
    {
        let ghost before = exprs_view(optimized@);
        proof {
            lemma_exprs_view(optimized@);
        }
        let n = code.len();
        if has_pick_at(code, i, 1) && n - i > 4 && has_pick_at(code, i + 2, 1) && is_binary_op(
            &code[i + 4],
        ) {
            optimized.push(code[i + 4].clone());
            proof {
                lemma_exprs_view(optimized@);
                assert(exprs_view(optimized@) =~= before + seq![s[i + 4]]);
                assert(before + (seq![s[i + 4]] + peephole_from(s, i + 5)) =~= (before
                    + seq![s[i + 4]]) + peephole_from(s, i + 5));
            }
            i += 5;
        } else if has_pick_at(code, i, 0) && n - i > 4 && has_pick_at(code, i + 2, 1)
            && is_binary_op(&code[i + 4]) {
            optimized.push(word("swap"));
            optimized.push(code[i + 4].clone());
            proof {
                lemma_exprs_view(optimized@);
                let code_out = seq![ExprView::Symbol("swap"@), s[i + 4]];
                assert(exprs_view(optimized@) =~= before + code_out);
                assert(before + (code_out + peephole_from(s, i + 5)) =~= (before + code_out)
                    + peephole_from(s, i + 5));
            }
            i += 5;
        } else if has_pick_at(code, i, 0) && n - i > 2 && is_unary_op(&code[i + 2]) {
            optimized.push(code[i + 2].clone());
            proof {
                lemma_exprs_view(optimized@);
                assert(exprs_view(optimized@) =~= before + seq![s[i + 2]]);
                assert(before + (seq![s[i + 2]] + peephole_from(s, i + 3)) =~= (before
                    + seq![s[i + 2]]) + peephole_from(s, i + 3));
            }
            i += 3;
        } else if has_pick_at(code, i, 1) && n - i > 2 && is_expr_symbol(&code[i + 2], "drop") {
            optimized.push(word("nip"));
            proof {
                lemma_exprs_view(optimized@);
                let code_out = seq![ExprView::Symbol("nip"@)];
                assert(exprs_view(optimized@) =~= before + code_out);
                assert(before + (code_out + peephole_from(s, i + 3)) =~= (before + code_out)
                    + peephole_from(s, i + 3));
            }
            i += 3;
        } else if has_pick_at(code, i, 0) && n - i > 2 && is_expr_symbol(&code[i + 2], "drop") {
            optimized.push(word("drop"));
            proof {
                lemma_exprs_view(optimized@);
                let code_out = seq![ExprView::Symbol("drop"@)];
                assert(exprs_view(optimized@) =~= before + code_out);
                assert(before + (code_out + peephole_from(s, i + 3)) =~= (before + code_out)
                    + peephole_from(s, i + 3));
            }
            i += 3;
        } else if has_pick_at(code, i, 1) && n - i == 2 {
            optimized.push(word("swap"));
            optimized.push(word("drop"));
            proof {
                lemma_exprs_view(optimized@);
                let code_out = seq![ExprView::Symbol("swap"@), ExprView::Symbol("drop"@)];
                assert(exprs_view(optimized@) =~= before + code_out);
                assert(before + (code_out + peephole_from(s, i + 2)) =~= (before + code_out)
                    + peephole_from(s, i + 2));
            }
            i += 2;
        } else if has_pick_at(code, i, 0) && n - i == 2 {
            proof {
                assert(before + (Seq::<ExprView>::empty() + peephole_from(s, i + 2)) =~= before
                    + peephole_from(s, i + 2));
            }
            i += 2;
        } else {
            optimized.push(code[i].clone());
            proof {
                lemma_exprs_view(optimized@);
                assert(exprs_view(optimized@) =~= before + seq![s[i as int]]);
                assert(before + (seq![s[i as int]] + peephole_from(s, i + 1)) =~= (before
                    + seq![s[i as int]]) + peephole_from(s, i + 1));
            }
            i += 1;
        }
    }
    assert(exprs_view(optimized@) + Seq::<ExprView>::empty() =~= exprs_view(optimized@));
    optimized
}

/// The index of the entry of `table` for `name`, if the name is a parameter.
pub fn find_entry(table: &Vec<TrackedParam>, name: &str) -> (r: Option<usize>)
    ensures
        match r {
            Some(i) => entry_of(tracked_view(table@), name@) == Some(i as int) && i < table.len(),
            None => entry_of(tracked_view(table@), name@) is None,
        },
{
    let mut i: usize = 0;
    while i < table.len()
        invariant
            i <= table.len(),
            forall|j: int| 0 <= j < i ==> tracked_view(table@)[j].name != name@,
        decreases table.len() - i,
    {
        if same_text(table[i].name.as_str(), name) {
            proof {
                lemma_entry_found(tracked_view(table@), name@, i as int);
            }
            return Some(i);
        }
        i += 1;
    }
    proof {
        lemma_entry_of(tracked_view(table@), name@);
    }
    None
}

/// The table before the body is looked at.
fn seed_table(params: &[Param]) -> (table: Vec<TrackedParam>)
    requires
        params.len() <= max_depth(),
    ensures
        tracked_view(table@) == seed(param_names(params_view(params@))),
{
    let ghost names = param_names(params_view(params@));
    let n = params.len();
    let mut table: Vec<TrackedParam> = Vec::new();
    let mut k: usize = 0;
    assert(tracked_view(table@) =~= seed_upto(names, 0));
    while k < n
        invariant
            k <= n,
            n == params.len(),
            n <= max_depth(),
            names == param_names(params_view(params@)),
            tracked_view(table@) == seed_upto(names, k as int),
        decreases n - k,
    {
        let ghost before = tracked_view(table@);
        assert(names[k as int] == params@[k as int].name@);
        if find_entry(&table, params[k].name.as_str()).is_none() {
            table.push(
                TrackedParam {
                    name: params[k].name.clone(),
                    depth: (n - 1 - k) as i64,
                    uses: 0,
                    last_use: None,
                    consumed: false,
                },
            );
            assert(tracked_view(table@) =~= before.push(
                TrackedParamView {
                    name: names[k as int],
                    depth: names.len() - (k + 1),
                    uses: 0,
                    last_use: None,
                    consumed: false,
                },
            ));
        }
        k += 1;
    }
    table
}

/// Translates quotations with named parameters into code that shuffles the stack.
#[derive(Debug)]
pub struct StackerTranslator {
    /// What is known of each parameter.
    pub table: Vec<TrackedParam>,
    /// By how much the code emitted so far makes the stack grow.
    pub depth_increase: i64,
    /// The code emitted so far.
    pub output: Vec<Expr>,
}

impl View for StackerTranslator {
    type V = ScanState;

    open spec fn view(&self) -> ScanState {
        ScanState {
            table: tracked_view(self.table@),
            delta: self.depth_increase as int,
            output: exprs_view(self.output@),
        }
    }
}

/// What a step of the translation returns: nothing, or the failure `f`.
pub open spec fn failed(r: Result<(), EvaluatorError>, f: TranslationFailure) -> bool {
    r == Err::<(), EvaluatorError>(EvaluatorError::StackEffectError(f))
}

impl StackerTranslator {
    /// A translator that has seen nothing.
    pub fn new() -> (r: StackerTranslator)
        ensures
            r@ == (ScanState { table: Seq::empty(), delta: 0, output: Seq::empty() }),
    {
        let r = StackerTranslator { table: Vec::new(), depth_increase: 0, output: Vec::new() };
        proof {
            lemma_exprs_view(r.output@);
            assert(r@.table =~= Seq::empty());
            assert(r@.output =~= Seq::empty());
        }
        r
    }

    /// Records a reference to `name` by the expression at `index`.
    fn note_use(&mut self, name: &str, index: usize)
        ensures
            final(self)@ == (ScanState {
                table: note_use(old(self)@.table, name@, index as nat),
                ..old(self)@
            }),
    {
        match find_entry(&self.table, name) {
            Some(i) => {
                let ghost before = self@.table;
                let uses = if self.table[i].uses < usize::MAX {
                    self.table[i].uses + 1
                } else {
                    self.table[i].uses
                };
                let entry = TrackedParam {
                    name: self.table[i].name.clone(),
                    depth: self.table[i].depth,
                    uses,
                    last_use: Some(index),
                    consumed: self.table[i].consumed,
                };
                self.table[i] = entry;
                assert(self@.table =~= note_use(before, name@, index as nat));
            },
            None => {},
        }
    }

    /// Records the references to parameters in `expr`.
    fn note_expr(&mut self, expr: &Expr, index: usize)
        ensures
            final(self)@ == (ScanState {
                table: note_expr(old(self)@.table, expr@, index as nat),
                ..old(self)@
            }),
        decreases expr,
    {
        match expr {
            Expr::Symbol(s) => {
                self.note_use(s.as_str(), index);
            },
            Expr::Pipeline(left, right) => {
                self.note_expr(left, 0);
                self.note_expr(right, 1);
            },
            _ => {},
        }
    }

    /// Counts the uses of each parameter in `body` and finds the last one.
    pub fn analyze_parameter_usage(&mut self, body: &[Expr])
        ensures
            final(self)@ == (ScanState {
                table: note_body(old(self)@.table, exprs_view(body@), body@.len() as int),
                ..old(self)@
            }),
    {
        let ghost start = self@;
        let ghost views = exprs_view(body@);
        proof {
            lemma_exprs_view(body@);
        }
        let mut i: usize = 0;
        while i < body.len()
            invariant
                i <= body.len(),
                views == exprs_view(body@),
                views.len() == body@.len(),
                forall|j: int| 0 <= j < body@.len() ==> #[trigger] views[j] == expr_view(body@[j]),
                self@ == (ScanState { table: note_body(start.table, views, i as int), ..start }),
            decreases body.len() - i,
        {
            self.note_expr(&body[i], i);
            i += 1;
        }
    }

    /// Emits something that pushes one value.
    fn emit_push(&mut self, expr: Expr) -> (r: Result<(), EvaluatorError>)
        requires
            old(self)@.well_formed(),
        ensures
            match emit_push(old(self)@, expr@) {
                Ok(st) => r is Ok && final(self)@ == st && st.well_formed(),
                Err(f) => failed(r, f),
            },
    {
        if self.depth_increase + 1 > 0x7fff_ffff {
            return Err(EvaluatorError::StackEffectError(TranslationFailure::DepthOutOfRange));
        }
        let ghost before = self@;
        proof {
            lemma_exprs_view(self.output@);
        }
        self.depth_increase = self.depth_increase + 1;
        self.output.push(expr);
        proof {
            lemma_exprs_view(self.output@);
            assert(self@.output =~= before.output.push(expr@));
        }
        Ok(())
    }

    /// Emits the code that moves the value at `depth` to the top.
    fn emit_consuming_access(&mut self, depth: i64)
        requires
            0 <= depth <= max_depth(),
        ensures
            final(self)@ == (ScanState {
                output: old(self)@.output + consuming_access(depth as int),
                ..old(self)@
            }),
    {
        let ghost before = self@;
        proof {
            lemma_exprs_view(self.output@);
        }
        if depth == 0 {
        } else if depth == 1 {
            self.output.push(word("swap"));
        } else if depth == 2 {
            self.output.push(word("rot"));
        } else {
            self.output.push(Expr::Number(depth as i32));
            self.output.push(word("roll"));
        }
        proof {
            lemma_exprs_view(self.output@);
            assert(self@.output =~= before.output + consuming_access(depth as int));
        }
    }

    /// Marks the entry `i` as consumed and lowers what lay deeper than `actual`.
    #[verifier::rlimit(40)]
    fn consume_entry(&mut self, i: usize, actual: i64)
        requires
            i < old(self).table.len(),
            0 <= actual,
            old(self)@.well_formed(),
        ensures
            final(self)@ == (ScanState {
                table: after_consuming(old(self)@.table, i as int, actual as int),
                ..old(self)@
            }),
            final(self)@.well_formed(),
    {
        let ghost before = self@;
        let mut j: usize = 0;
        while j < self.table.len()
            invariant
                j <= self.table.len(),
                i < self.table.len(),
                0 <= actual,
                before.well_formed(),
                self.table.len() == before.table.len(),
                self@.delta == before.delta,
                self@.output == before.output,
                forall|k: int|
                    0 <= k < j ==> #[trigger] self@.table[k] == after_consuming(
                        before.table,
                        i as int,
                        actual as int,
                    )[k],
                forall|k: int| j <= k < self.table.len() ==> #[trigger] self@.table[k] == before.table[k],
            decreases self.table.len() - j,
        {
            let ghost prev = self@.table;
            assert(prev[j as int] == before.table[j as int]);
            let depth = if self.table[j].depth > actual {
                self.table[j].depth - 1
            } else {
                self.table[j].depth
            };
            let entry = TrackedParam {
                name: self.table[j].name.clone(),
                depth,
                uses: self.table[j].uses,
                last_use: self.table[j].last_use,
                consumed: self.table[j].consumed || j == i,
            };
            self.table[j] = entry;
            assert(self@.table =~= prev.update(j as int, entry@));
            assert(entry@ == after_consuming(before.table, i as int, actual as int)[j as int]);
            j += 1;
        }
        assert(self@.table =~= after_consuming(before.table, i as int, actual as int));
    }

    /// Translates a symbol: a reference to a parameter, or a word.
    #[verifier::rlimit(40)]
    fn emit_symbol(&mut self, s: &str, index: usize) -> (r: Result<(), EvaluatorError>)
        requires
            old(self)@.well_formed(),
        ensures
            match emit_symbol(old(self)@, s@, index as nat) {
                Ok(st) => r is Ok && final(self)@ == st && st.well_formed(),
                Err(f) => failed(r, f),
            },
    {
        let ghost before = self@;
        proof {
            lemma_exprs_view(self.output@);
        }
        match find_entry(&self.table, s) {
            Some(i) => {
                assert(before.table[i as int] == self.table@[i as int]@);
                let actual = self.table[i].depth + self.depth_increase;
                if self.table[i].consumed {
                    return Err(
                        EvaluatorError::StackEffectError(TranslationFailure::ParamAlreadyConsumed),
                    );
                }
                if actual < 0 {
                    return Err(EvaluatorError::StackEffectError(TranslationFailure::NegativeDepth));
                }
                if actual > 0x7fff_ffff {
                    return Err(
                        EvaluatorError::StackEffectError(TranslationFailure::DepthOutOfRange),
                    );
                }
                let is_last_use = match self.table[i].last_use {
                    Some(last) => last == index,
                    None => false,
                };
                if is_last_use {
                    self.emit_consuming_access(actual);
                    self.consume_entry(i, actual);
                    Ok(())
                } else {
                    if self.depth_increase + 1 > 0x7fff_ffff {
                        return Err(
                            EvaluatorError::StackEffectError(TranslationFailure::DepthOutOfRange),
                        );
                    }
                    self.output.push(Expr::Number(actual as i32));
                    self.output.push(word("pick"));
                    self.depth_increase = self.depth_increase + 1;
                    proof {
                        lemma_exprs_view(self.output@);
                        assert(self@.output =~= before.output + copying_access(actual as int));
                    }
                    Ok(())
                }
            },
            None => {
                match get_word_effect(s) {
                    None => Err(
                        EvaluatorError::StackEffectError(TranslationFailure::UnknownWordEffect),
                    ),
                    Some(effect) => {
                        proof {
                            lemma_word_effect_small(s@);
                        }
                        let change = effect.outputs.len() as i64 - effect.inputs.len() as i64;
                        let delta = self.depth_increase + change;
                        if delta > 0x7fff_ffff || delta < -0x7fff_ffff {
                            return Err(
                                EvaluatorError::StackEffectError(
                                    TranslationFailure::DepthOutOfRange,
                                ),
                            );
                        }
                        self.depth_increase = delta;
                        self.output.push(word(s));
                        proof {
                            lemma_exprs_view(self.output@);
                            assert(self@.output =~= before.output.push(ExprView::Symbol(s@)));
                        }
                        Ok(())
                    },
                }
            },
        }
    }

    /// Translates the expression `expr`, which is the one at `index` of the body.
    pub fn translate_expr_enhanced(&mut self, expr: &Expr, index: usize) -> (r: Result<
        (),
        EvaluatorError,
    >)
        requires
            old(self)@.well_formed(),
        ensures
            match emit_expr(old(self)@, expr@, index as nat) {
                Ok(st) => r is Ok && final(self)@ == st && st.well_formed(),
                Err(f) => failed(r, f),
            },
        decreases expr, 0nat,
    {
        match expr {
            Expr::Number(_) => self.emit_push(expr.clone()),
            Expr::String(_) => self.emit_push(expr.clone()),
            Expr::Boolean(_) => self.emit_push(expr.clone()),
            Expr::Symbol(s) => self.emit_symbol(s.as_str(), index),
            Expr::Pipeline(left, right) => {
                match self.translate_expr_enhanced(left, index) {
                    Err(e) => Err(e),
                    Ok(_) => self.translate_expr_enhanced(right, index),
                }
            },
            Expr::Quotation(inner_params, inner_body) => {
                let mut inner = StackerTranslator::new();
                proof {
                    assert(decreases_to!(*expr => expr->Quotation_1));
                    vstd::std_specs::vec::axiom_vec_decreases_to_view(*inner_body);
                }
                match inner.translate(inner_params.as_slice(), inner_body.as_slice()) {
                    Err(e) => Err(e),
                    Ok(code) => {
                        let quotation = Expr::Quotation(Vec::new(), code);
                        proof {
                            assert(params_view(Seq::<Param>::empty()) =~= Seq::empty());
                            assert(quotation@ == ExprView::Quotation(
                                Seq::empty(),
                                exprs_view(code@),
                            ));
                        }
                        self.emit_push(quotation)
                    },
                }
            },
            _ => Err(EvaluatorError::StackEffectError(TranslationFailure::UnsupportedExpression)),
        }
    }

    /// One sweep of the peephole rules over the code emitted so far.
    pub fn apply_peephole_optimizations(&self) -> (r: Vec<Expr>)
        ensures
            exprs_view(r@) == peephole(self@.output),
    {
        peephole_optimize(self.output.as_slice())
    }

    /// Translates the quotation with the parameters `params` and the body
    /// `body`. What the translator held before is forgotten.
    #[verifier::rlimit(40)]
    #[verifier::loop_isolation(false)]
    pub fn translate(&mut self, params: &[Param], body: &[Expr]) -> (r: Result<
        Vec<Expr>,
        EvaluatorError,
    >)
        ensures
            match translation(param_names(params_view(params@)), exprs_view(body@)) {
                Ok(code) => r is Ok && exprs_view(r->Ok_0@) == code,
                Err(f) => r == Err::<Vec<Expr>, EvaluatorError>(
                    EvaluatorError::StackEffectError(f),
                ),
            },
        decreases body@, body@.len() + 1,
    {
        let ghost names = param_names(params_view(params@));
        let ghost views = exprs_view(body@);
        if params.len() > 0x7fff_ffff {
            return Err(EvaluatorError::StackEffectError(TranslationFailure::DepthOutOfRange));
        }
        self.table = seed_table(params);
        self.depth_increase = 0;
        self.output = Vec::new();
        proof {
            lemma_exprs_view(self.output@);
            assert(self@.output =~= Seq::empty());
            lemma_seed_depths(names, names.len() as int);
        }
        self.analyze_parameter_usage(body);
        proof {
            lemma_exprs_view(body@);
            lemma_note_body_depths(seed(names), views, views.len() as int);
            assert(self@ == initial_state(names, views));
        }
        let ghost start = self@;
        let mut i: usize = 0;
        while i < body.len()
            invariant
                i <= body.len(),
                emit_body(start, views, i as int) == Ok::<ScanState, TranslationFailure>(self@),
                self@.well_formed(),
            decreases body.len() - i,
        {
            proof {
                vstd::seq::axiom_seq_index_decreases(body@, i as int);
            }
            match self.translate_expr_enhanced(&body[i], i) {
                Err(e) => {
                    proof {
                        lemma_failure_stays(start, views, i + 1, views.len() as int);
                    }
                    return Err(e);
                },
                Ok(_) => {},
            }
            i += 1;
        }
        Ok(self.apply_peephole_optimizations())
    }
}

/// Every depth of a seeded table is one that the language can name.
pub proof fn lemma_seed_depths(names: Seq<Seq<char>>, k: int)
    requires
        0 <= k <= names.len() <= max_depth(),
    ensures
        forall|j: int|
            0 <= j < seed_upto(names, k).len() ==> 0 <= (#[trigger] seed_upto(names, k)[j]).depth
                <= max_depth(),
    decreases k,
{
    if k > 0 {
        lemma_seed_depths(names, k - 1);
    }
}

/// Recording uses changes no depth.
pub proof fn lemma_note_expr_depths(table: Seq<TrackedParamView>, e: ExprView, index: nat)
    ensures
        note_expr(table, e, index).len() == table.len(),
        forall|j: int|
            0 <= j < table.len() ==> (#[trigger] note_expr(table, e, index)[j]).depth
                == table[j].depth,
    decreases e,
{
    match e {
        ExprView::Symbol(s) => {
            lemma_entry_of(table, s);
        },
        ExprView::Pipeline(left, right) => {
            lemma_note_expr_depths(table, *left, 0);
            lemma_note_expr_depths(note_expr(table, *left, 0), *right, 1);
        },
        _ => {},
    }
}

/// Recording the uses of a body changes no depth.
pub proof fn lemma_note_body_depths(table: Seq<TrackedParamView>, body: Seq<ExprView>, n: int)
    ensures
        note_body(table, body, n).len() == table.len(),
        forall|j: int|
            0 <= j < table.len() ==> (#[trigger] note_body(table, body, n)[j]).depth
                == table[j].depth,
    decreases n,
{
    if n > 0 {
        lemma_note_body_depths(table, body, n - 1);
        lemma_note_expr_depths(note_body(table, body, n - 1), body[n - 1], (n - 1) as nat);
    }
}

/// Translates the quotation with the parameters `params` and the body
/// `body` into code without parameters.
pub fn translate_quotation(params: &[Param], body: &[Expr]) -> (r: Result<
    Vec<Expr>,
    EvaluatorError,
>)
    ensures
        match translation(param_names(params_view(params@)), exprs_view(body@)) {
            Ok(code) => r is Ok && exprs_view(r->Ok_0@) == code,
            Err(f) => r == Err::<Vec<Expr>, EvaluatorError>(EvaluatorError::StackEffectError(f)),
        },
{
    let mut translator = StackerTranslator::new();
    translator.translate(params, body)
}

/// No peephole rule applies anywhere in `s`.
pub open spec fn window_free(s: Seq<ExprView>) -> bool {
    forall|i: int| 0 <= i < s.len() ==> (#[trigger] rewrite_at(s, i)) is None
}

/// No peephole rule applies in `s` from `from` up to `to`.
pub open spec fn window_free_between(s: Seq<ExprView>, from: int, to: int) -> bool {
    forall|i: int| from <= i < to ==> (#[trigger] rewrite_at(s, i)) is None
}

/// Where no rule applies, the sweep keeps the code as it is.
pub proof fn lemma_sweep_keeps(s: Seq<ExprView>, from: int, to: int)
    requires
        0 <= from <= to <= s.len(),
        window_free_between(s, from, to),
    ensures
        peephole_from(s, from) == s.subrange(from, to) + peephole_from(s, to),
    decreases to - from,
{
    if from < to {
        lemma_sweep_keeps(s, from + 1, to);
        assert(rewrite_at(s, from) is None);
        assert(seq![s[from]] + (s.subrange(from + 1, to) + peephole_from(s, to)) =~= s.subrange(
            from,
            to,
        ) + peephole_from(s, to));
    } else {
        assert(s.subrange(from, to) + peephole_from(s, to) =~= peephole_from(s, to));
    }
}

/// Where a rule applies, the sweep changes the code.
pub proof fn lemma_sweep_changes(s: Seq<ExprView>, at: int)
    requires
        0 <= at < s.len(),
        window_free_between(s, 0, at),
        rewrite_at(s, at) is Some,
    ensures
        peephole(s) != s,
{
    lemma_sweep_keeps(s, 0, at);
    let (code, width) = rewrite_at(s, at)->Some_0;
    let rest = peephole_from(s, at + width);
    assert(peephole_from(s, at) == code + rest);
    let swept = s.subrange(0, at) + (code + rest);
    assert(peephole(s) == swept);
    if code.len() > 0 {
        assert(swept[at] == code[0]);
        assert(s[at] is Number);
        assert(code[0] is Symbol);
    } else {
        assert(at + width == s.len());
        assert(rest =~= Seq::empty());
        assert(swept.len() == at);
    }
}

/// A rule applies somewhere from `from` on, so the sweep changes the code.
proof fn lemma_sweep_changes_from(s: Seq<ExprView>, from: int)
    requires
        0 <= from <= s.len(),
        window_free_between(s, 0, from),
        !window_free_between(s, from, s.len() as int),
    ensures
        peephole(s) != s,
    decreases s.len() - from,
{
    if from < s.len() {
        if rewrite_at(s, from) is Some {
            lemma_sweep_changes(s, from);
        } else {
            lemma_sweep_changes_from(s, from + 1);
        }
    }
}

/// The sweep leaves the code as it is if and only if no rule applies in it.
pub proof fn lemma_peephole_fixpoint(s: Seq<ExprView>)
    ensures
        peephole(s) == s <==> window_free(s),
{
    if window_free(s) {
        lemma_sweep_keeps(s, 0, s.len() as int);
        assert(s.subrange(0, s.len() as int) + peephole_from(s, s.len() as int) =~= s);
    } else {
        lemma_sweep_changes_from(s, 0);
    }
}

/// Sweeping swept code changes nothing, provided that the first sweep left
/// no window behind. (It can: in `0 pick 0 pick not` only the second `pick`
/// is rewritten, and the result, `0 pick not`, is a window again.)
pub proof fn lemma_peephole_idempotent(s: Seq<ExprView>)
    requires
        window_free(peephole(s)),
    ensures
        peephole(peephole(s)) == peephole(s),
{
    lemma_peephole_fixpoint(peephole(s));
}

/// Whether `e` is the word `pick` or the word `roll`.
pub open spec fn is_access(e: ExprView) -> bool {
    is_word(e, "pick"@) || is_word(e, "roll"@)
}

/// Every `pick` and `roll` of `code` stands directly behind a number that
/// is not negative.
pub open spec fn depths_named(code: Seq<ExprView>) -> bool {
    forall|i: int|
        0 <= i < code.len() && is_access(#[trigger] code[i]) ==> i > 0 && code[i - 1] is Number
            && code[i - 1]->Number_0 >= 0
}

/// Appending code that names its depths to code that names its depths
/// gives code that names its depths.
proof fn lemma_depths_named_append(a: Seq<ExprView>, b: Seq<ExprView>)
    requires
        depths_named(a),
        depths_named(b),
    ensures
        depths_named(a + b),
{
    let c = a + b;
    assert forall|i: int| 0 <= i < c.len() && is_access(#[trigger] c[i]) implies i > 0 && c[i
        - 1] is Number && c[i - 1]->Number_0 >= 0 by {
        if i < a.len() {
            assert(c[i] == a[i]);
        } else {
            assert(c[i] == b[i - a.len()]);
            assert(i - a.len() > 0);
            assert(c[i - 1] == b[i - a.len() - 1]);
        }
    }
}

/// The code of a consuming access names its depth.
proof fn lemma_consuming_access_names_depth(depth: int)
    requires
        depth >= 0,
    ensures
        depths_named(consuming_access(depth)),
{
    reveal_strlit("pick");
    reveal_strlit("roll");
    reveal_strlit("swap");
    reveal_strlit("rot");
    let code = consuming_access(depth);
    assert("swap"@[0] != "pick"@[0] && "swap"@[0] != "roll"@[0]);
    assert("rot"@.len() != "pick"@.len() && "rot"@.len() != "roll"@.len());
    assert forall|i: int| 0 <= i < code.len() && is_access(#[trigger] code[i]) implies i > 0
        && code[i - 1] is Number && code[i - 1]->Number_0 >= 0 by {
        if depth == 1 {
            assert(code[0] == ExprView::Symbol("swap"@));
        } else if depth == 2 {
            assert(code[0] == ExprView::Symbol("rot"@));
        } else {
            assert(code[0] == ExprView::Number(depth));
        }
    }
}

/// A translated expression never reaches for a negative depth: as long as
/// the code names its depths before, it does so after.
#[verifier::rlimit(40)]
pub proof fn lemma_emit_expr_names_depths(st: ScanState, e: ExprView, index: nat)
    requires
        depths_named(st.output),
        emit_expr(st, e, index) is Ok,
    ensures
        depths_named(emit_expr(st, e, index)->Ok_0.output),
    decreases e,
{
    reveal_strlit("pick");
    reveal_strlit("roll");
    reveal_strlit("swap");
    reveal_strlit("rot");
    let after = emit_expr(st, e, index)->Ok_0;
    match e {
        ExprView::Symbol(s) => {
            match entry_of(st.table, s) {
                Some(i) => {
                    lemma_entry_of(st.table, s);
                    let actual = st.table[i].depth + st.delta;
                    if st.table[i].last_use == Some(index) {
                        lemma_consuming_access_names_depth(actual);
                        lemma_depths_named_append(st.output, consuming_access(actual));
                    } else {
                        assert(depths_named(copying_access(actual)));
                        lemma_depths_named_append(st.output, copying_access(actual));
                    }
                },
                None => {
                    assert(s != "pick"@ && s != "roll"@);
                    assert(depths_named(seq![ExprView::Symbol(s)]));
                    lemma_depths_named_append(st.output, seq![ExprView::Symbol(s)]);
                    assert(st.output.push(ExprView::Symbol(s)) =~= st.output + seq![
                        ExprView::Symbol(s),
                    ]);
                },
            }
        },
        ExprView::Pipeline(left, right) => {
            lemma_emit_expr_names_depths(st, *left, index);
            lemma_emit_expr_names_depths(emit_expr(st, *left, index)->Ok_0, *right, index);
        },
        ExprView::Quotation(params, body) => {
            let q = ExprView::Quotation(Seq::empty(), translation(param_names(params), body)->Ok_0);
            assert(depths_named(seq![q]));
            lemma_depths_named_append(st.output, seq![q]);
            assert(st.output.push(q) =~= st.output + seq![q]);
        },
        _ => {
            assert(depths_named(seq![e]));
            lemma_depths_named_append(st.output, seq![e]);
            assert(st.output.push(e) =~= st.output + seq![e]);
        },
    }
}

/// The code that a body is translated to, before the peephole sweep, never
/// reaches for a negative depth.
pub proof fn lemma_emit_body_names_depths(st: ScanState, body: Seq<ExprView>, n: int)
    requires
        depths_named(st.output),
        emit_body(st, body, n) is Ok,
    ensures
        depths_named(emit_body(st, body, n)->Ok_0.output),
    decreases n,
{
    if 0 < n <= body.len() {
        lemma_emit_body_names_depths(st, body, n - 1);
        lemma_emit_expr_names_depths(emit_body(st, body, n - 1)->Ok_0, body[n - 1], (n - 1) as nat);
    }
}

/// No expression of `code` is `pick` or `roll`.
pub open spec fn access_free(code: Seq<ExprView>) -> bool {
    forall|i: int| 0 <= i < code.len() ==> !is_access(#[trigger] code[i])
}

/// What a rule rewrites a window to holds neither `pick` nor `roll`.
#[verifier::rlimit(40)]
proof fn lemma_rewrite_is_access_free(s: Seq<ExprView>, i: int)
    requires
        rewrite_at(s, i) is Some,
    ensures
        access_free(rewrite_at(s, i)->Some_0.0),
        depths_named(rewrite_at(s, i)->Some_0.0),
{
    reveal_strlit("pick");
    reveal_strlit("roll");
    reveal_strlit("swap");
    reveal_strlit("drop");
    reveal_strlit("nip");
    reveal_strlit("+");
    reveal_strlit("-");
    reveal_strlit("*");
    reveal_strlit("/");
    reveal_strlit("mod");
    reveal_strlit("==");
    reveal_strlit("!=");
    reveal_strlit("<");
    reveal_strlit(">");
    reveal_strlit("<=");
    reveal_strlit(">=");
    reveal_strlit("and");
    reveal_strlit("or");
    reveal_strlit("not");
    reveal_strlit("sqrt");
    reveal_strlit("sin");
    reveal_strlit("cos");
    reveal_strlit("tan");
    reveal_strlit("abs");
    reveal_strlit("neg");
    let code = rewrite_at(s, i)->Some_0.0;
    assert("swap"@[0] != "pick"@[0] && "swap"@[0] != "roll"@[0]);
    assert("drop"@[0] != "pick"@[0] && "drop"@[0] != "roll"@[0]);
    assert("sqrt"@[0] != "pick"@[0] && "sqrt"@[0] != "roll"@[0]);
    assert forall|e: ExprView| is_binary(e) implies !is_access(e) by {
        let w = e->Symbol_0;
        if w.len() == 4 {
            assert(w != "pick"@ && w != "roll"@);
        }
    }
    assert forall|e: ExprView| is_unary(e) implies !is_access(e) by {
        let w = e->Symbol_0;
        if w == "sqrt"@ {
            assert(w[0] == "sqrt"@[0]);
        }
    }
    assert forall|k: int| 0 <= k < code.len() implies !is_access(#[trigger] code[k]) by {
        if is_access(code[k]) {
            if pick_at(s, i, 1) && pick_at(s, i + 2, 1) && i + 4 < s.len() && is_binary(s[i + 4]) {
                assert(code[k] == s[i + 4]);
            } else if pick_at(s, i, 0) && pick_at(s, i + 2, 1) && i + 4 < s.len() && is_binary(
                s[i + 4],
            ) {
                assert(code[k] == ExprView::Symbol("swap"@) || code[k] == s[i + 4]);
            } else if pick_at(s, i, 0) && i + 2 < s.len() && is_unary(s[i + 2]) {
                assert(code[k] == s[i + 2]);
            } else if pick_at(s, i, 1) && i + 2 < s.len() && is_word(s[i + 2], "drop"@) {
                assert(code[k] == ExprView::Symbol("nip"@));
            } else if pick_at(s, i, 0) && i + 2 < s.len() && is_word(s[i + 2], "drop"@) {
                assert(code[k] == ExprView::Symbol("drop"@));
            } else if pick_at(s, i, 1) && i + 2 == s.len() {
                assert(code[k] == ExprView::Symbol("swap"@) || code[k] == ExprView::Symbol(
                    "drop"@,
                ));
            }
        }
    }
}

/// The sweep keeps every `pick` and `roll` that it keeps behind its
/// depth: from `i` on, swept code names its depths, together with the
/// number before `i` where `i` is at a `pick` or a `roll`.
#[verifier::rlimit(40)]
proof fn lemma_sweep_names_depths(s: Seq<ExprView>, i: int)
    requires
        depths_named(s),
        0 <= i <= s.len(),
    ensures
        i < s.len() && is_access(s[i]) ==> depths_named(seq![s[i - 1]] + peephole_from(s, i)),
        !(i < s.len() && is_access(s[i])) ==> depths_named(peephole_from(s, i)),
    decreases s.len() - i,
{
    if i < s.len() {
        match rewrite_at(s, i) {
            Some((code, width)) => {
                lemma_rewrite_is_access_free(s, i);
                let next = i + width;
                assert(s[i] is Number);
                assert(!is_access(s[i]));
                assert(next <= s.len());
                assert(s[next - 1] is Symbol);
                if next < s.len() {
                    if is_access(s[next]) {
                        assert(s[next - 1] is Number);
                    }
                }
                lemma_sweep_names_depths(s, next);
                lemma_depths_named_append(code, peephole_from(s, next));
            },
            None => {
                lemma_sweep_names_depths(s, i + 1);
                let rest = peephole_from(s, i + 1);
                if is_access(s[i]) {
                    assert(i > 0 && s[i - 1] is Number && s[i - 1]->Number_0 >= 0);
                    if i + 1 < s.len() && is_access(s[i + 1]) {
                        assert(s[i] is Number);
                    }
                    let head = seq![s[i - 1], s[i]];
                    assert(depths_named(head)) by {
                        assert forall|k: int|
                            0 <= k < head.len() && is_access(#[trigger] head[k]) implies k > 0
                            && head[k - 1] is Number && head[k - 1]->Number_0 >= 0 by {
                            if k == 0 {
                                assert(head[0] is Number);
                            }
                        }
                    }
                    lemma_depths_named_append(head, rest);
                    assert(head + rest =~= seq![s[i - 1]] + (seq![s[i]] + rest));
                } else if i + 1 < s.len() && is_access(s[i + 1]) {
                } else {
                    assert(depths_named(seq![s[i]]));
                    lemma_depths_named_append(seq![s[i]], rest);
                }
            },
        }
    }
}

/// A reference to a parameter that would lie above the top of the stack
/// ends the translation. Where there are no more parameters than depths
/// can name, the code for the expressions before `body[i]` can be emitted,
/// and `body[i]` names a parameter that is not consumed and whose depth,
/// together with the growth of the stack by that code, is negative, the
/// translation fails with `NegativeDepth`.
pub proof fn lemma_negative_depth_rejected(names: Seq<Seq<char>>, body: Seq<ExprView>, i: int)
    requires
        names.len() <= max_depth(),
        0 <= i < body.len(),
        emit_body(initial_state(names, body), body, i) matches Ok(st) && body[i] matches ExprView::Symbol(
            s,
        ) && entry_of(st.table, s) matches Some(j) && !st.table[j].consumed && st.table[j].depth
            + st.delta < 0,
    ensures
        translation(names, body) == Err::<Seq<ExprView>, TranslationFailure>(
            TranslationFailure::NegativeDepth,
        ),
{
    let start = initial_state(names, body);
    let st = emit_body(start, body, i)->Ok_0;
    assert(emit_body(start, body, i + 1) == emit_expr(st, body[i], i as nat));
    lemma_failure_stays(start, body, i + 1, body.len() as int);
}

/// Translated code never reaches for a negative depth: every `pick` and
/// every `roll` in it stands directly behind a number that is not negative.
pub proof fn lemma_translation_names_depths(names: Seq<Seq<char>>, body: Seq<ExprView>)
    requires
        translation(names, body) is Ok,
    ensures
        depths_named(translation(names, body)->Ok_0),
{
    let start = initial_state(names, body);
    lemma_emit_body_names_depths(start, body, body.len() as int);
    let raw = emit_body(start, body, body.len() as int)->Ok_0.output;
    lemma_sweep_names_depths(raw, 0);
}

/// Where `--` first occurs in `s` from `i` on.
pub open spec fn find_separator(s: Seq<char>, i: int) -> Option<int>
    decreases s.len() - i,
{
    if i < 0 || i + 1 >= s.len() {
        None
    } else if s[i] == '-' && s[i + 1] == '-' {
        Some(i)
    } else {
        find_separator(s, i + 1)
    }
}

/// What a stack effect declaration denotes. After the white space around it
/// is dropped, the text must begin with `(` and end with `)`, and between
/// them hold `--` exactly once; the words before the `--` are the inputs,
/// those behind it the outputs.
pub open spec fn stack_effect_of(s: Seq<char>) -> Result<StackEffectView, ParseFailure> {
    let t = trimmed(s);
    if !(t.len() > 0 && t[0] == '(' && t.last() == ')') {
        Err(ParseFailure::MissingParentheses)
    } else {
        let inner = t.subrange(1, t.len() - 1);
        match find_separator(inner, 0) {
            None => Err(ParseFailure::MissingSeparator),
            Some(k) => if find_separator(inner, k + 2) is Some {
                Err(ParseFailure::MissingSeparator)
            } else {
                Ok(
                    StackEffectView {
                        inputs: words(inner.subrange(0, k)),
                        outputs: words(inner.subrange(k + 2, inner.len() as int)),
                    },
                )
            },
        }
    }
}

/// Where `--` first occurs in `chars` between `from` and `to`.
fn separator_between(chars: &Vec<char>, from: usize, to: usize, start: usize) -> (r: Option<usize>)
    requires
        from <= start,
        from <= to <= chars.len(),
    ensures
        match r {
            Some(k) => find_separator(chars@.subrange(from as int, to as int), start - from)
                == Some(k - from) && start <= k && k + 2 <= to,
            None => find_separator(chars@.subrange(from as int, to as int), start - from) is None,
        },
{
    let ghost part = chars@.subrange(from as int, to as int);
    let mut i: usize = start;
    while i < to && to - i >= 2
        invariant
            from <= start <= i,
            from <= to <= chars.len(),
            part == chars@.subrange(from as int, to as int),
            find_separator(part, i - from) == find_separator(part, start - from),
        decreases to - i,
    {
        assert(part[i - from] == chars@[i as int]);
        assert(part[i - from + 1] == chars@[i + 1]);
        if chars[i] == '-' && chars[i + 1] == '-' {
            return Some(i);
        }
        i += 1;
    }
    None
}

/// Reads a stack effect declaration, `( inputs -- outputs )`.
#[verifier::rlimit(40)]
pub fn parse_stack_effect(effect_str: &str) -> (r: Result<StackEffect, EvaluatorError>)
    ensures
        match stack_effect_of(effect_str@) {
            Ok(e) => r is Ok && r->Ok_0@ == e,
            Err(f) => r == Err::<StackEffect, EvaluatorError>(EvaluatorError::ParseError(f)),
        },
{
    let chars = chars_of(effect_str);
    let (from, to) = trim_bounds(&chars);
    if from >= to || chars[from] != '(' || chars[to - 1] != ')' {
        return Err(EvaluatorError::ParseError(ParseFailure::MissingParentheses));
    }
    let ghost t = trimmed(chars@);
    let ghost inner = t.subrange(1, t.len() - 1);
    assert(to - from >= 2) by {
        if to - from == 1 {
            assert(chars@[from as int] == chars@[to - 1]);
        }
    }
    let a = from + 1;
    let b = to - 1;
    assert(inner =~= chars@.subrange(a as int, b as int));
    match separator_between(&chars, a, b, a) {
        None => Err(EvaluatorError::ParseError(ParseFailure::MissingSeparator)),
        Some(k) => {
            match separator_between(&chars, a, b, k + 2) {
                Some(_) => Err(EvaluatorError::ParseError(ParseFailure::MissingSeparator)),
                None => {
                    let inputs = words_between(effect_str, &chars, a, k);
                    let outputs = words_between(effect_str, &chars, k + 2, b);
                    assert(inner.subrange(0, k - a) =~= chars@.subrange(a as int, k as int));
                    assert(inner.subrange(k - a + 2, inner.len() as int) =~= chars@.subrange(
                        k + 2,
                        b as int,
                    ));
                    let effect = StackEffect::new(inputs, outputs);
                    assert(effect@.inputs =~= words(inner.subrange(0, k - a)));
                    assert(effect@.outputs =~= words(
                        inner.subrange(k - a + 2, inner.len() as int),
                    ));
                    Ok(effect)
                },
            }
        },
    }
}

} // verus!
