//! What the translator and the machine have to do with each other: the
//! code that a quotation with parameters is translated to does to the
//! stack what the body does where the parameters are bound to their
//! values.

use vstd::prelude::*;
use crate::errors::EvaluatorError;
use crate::machine::{
    access, at_depth, below, binary_result, flag, operation_named, stack_op, Operation,
};
use crate::evaluator::{eval_expr, run_body, run_named, run_op, simple_op, MachineView};
use crate::stack_effects::{
    after_consuming, consuming_access, copying_access, emit_body, emit_expr, entry_of,
    initial_state, lemma_entry_of, lemma_peephole_fixpoint, max_depth, note_body, note_expr, seed,
    seed_upto, translation, window_free, word_effect, ScanState, TrackedParamView,
};
use crate::types::{env_lookup, EnvView, ExprView, ValueView};
use crate::values::truthy;

verus! {

/// How many values an operation takes from the stack and how many it
/// leaves there, for the operations that do nothing else.
pub open spec fn arity(op: Operation) -> Option<(nat, nat)> {
    match op {
        Operation::Dup => Some((1, 2)),
        Operation::Drop => Some((1, 0)),
        Operation::Swap => Some((2, 2)),
        Operation::Rot => Some((3, 3)),
        Operation::Over => Some((2, 3)),
        Operation::Tuck => Some((2, 3)),
        Operation::Nip => Some((2, 1)),
        Operation::Not => Some((1, 1)),
        Operation::Add | Operation::Sub | Operation::Mul | Operation::Div | Operation::Mod
        | Operation::Equal | Operation::NotEqual | Operation::Less | Operation::Greater
        | Operation::LessEqual | Operation::GreaterEqual | Operation::And | Operation::Or => Some(
            (2, 1),
        ),
        _ => None,
    }
}

/// What an operation does to the top of a stack, with `base` put below
/// what it leaves.
pub open spec fn framed(base: Seq<ValueView>, r: Result<Seq<ValueView>, EvaluatorError>) -> Result<
    Seq<ValueView>,
    EvaluatorError,
> {
    match r {
        Ok(top) => Ok(base + top),
        Err(e) => Err(e),
    }
}

/// An operation that finds the values it takes works on them alone: what
/// lies below stays, and what it leaves is as many values as its arity says.
#[verifier::rlimit(40)]
pub proof fn lemma_frame(op: Operation, base: Seq<ValueView>, top: Seq<ValueView>)
    requires
        arity(op) is Some,
        top.len() >= arity(op)->Some_0.0,
    ensures
        stack_op(op, top) is Some,
        stack_op(op, base + top) == Some(framed(base, stack_op(op, top)->Some_0)),
        stack_op(op, top)->Some_0 matches Ok(after) ==> after.len() == top.len() - arity(
            op,
        )->Some_0.0 + arity(op)->Some_0.1,
{
    let s = base + top;
    let n = top.len() as int;
    assert(forall|k: int| 0 <= k < n ==> at_depth(s, k) == at_depth(top, k));
    match op {
        Operation::Dup => {
            assert(s.push(s.last()) =~= base + top.push(top.last()));
        },
        Operation::Drop => {
            assert(s.drop_last() =~= base + top.drop_last());
        },
        Operation::Swap => {
            assert(below(s, 2) =~= base + below(top, 2));
            assert(below(s, 2).push(at_depth(s, 0)).push(at_depth(s, 1)) =~= base + below(
                top,
                2,
            ).push(at_depth(top, 0)).push(at_depth(top, 1)));
        },
        Operation::Rot => {
            assert(below(s, 3) =~= base + below(top, 3));
            assert(below(s, 3).push(at_depth(s, 1)).push(at_depth(s, 0)).push(at_depth(s, 2))
                =~= base + below(top, 3).push(at_depth(top, 1)).push(at_depth(top, 0)).push(
                at_depth(top, 2),
            ));
        },
        Operation::Over => {
            assert(s.push(at_depth(s, 1)) =~= base + top.push(at_depth(top, 1)));
        },
        Operation::Tuck => {
            assert(below(s, 2) =~= base + below(top, 2));
            assert(below(s, 2).push(at_depth(s, 0)).push(at_depth(s, 1)).push(at_depth(s, 0))
                =~= base + below(top, 2).push(at_depth(top, 0)).push(at_depth(top, 1)).push(
                at_depth(top, 0),
            ));
        },
        Operation::Nip => {
            assert(below(s, 2) =~= base + below(top, 2));
            assert(below(s, 2).push(at_depth(s, 0)) =~= base + below(top, 2).push(
                at_depth(top, 0),
            ));
        },
        Operation::Not => {
            assert(s.drop_last().push(flag(!truthy(s.last()))) =~= base + top.drop_last().push(
                flag(!truthy(top.last())),
            ));
        },
        _ => {
            assert(below(s, 2) =~= base + below(top, 2));
            let r = binary_result(op, at_depth(top, 1), at_depth(top, 0));
            assert(r is Some);
            match r->Some_0 {
                Ok(v) => {
                    assert(below(s, 2).push(v) =~= base + below(top, 2).push(v));
                },
                Err(_) => {},
            }
        },
    }
}

/// A word that does nothing but work on the top of the stack: it has a
/// declared effect, and it names an operation with an arity.
pub open spec fn plain_word(w: Seq<char>) -> bool {
    word_effect(w) is Some && operation_named(w) is Some && arity(operation_named(w)->Some_0)
        is Some
}

/// The declared effect of a plain word is the arity of its operation.
#[verifier::rlimit(40)]
pub proof fn lemma_plain_word(w: Seq<char>)
    requires
        plain_word(w),
    ensures
        arity(operation_named(w)->Some_0) == Some(
            (word_effect(w)->Some_0.inputs.len(), word_effect(w)->Some_0.outputs.len()),
        ),
{
    reveal_strlit("!=");
    reveal_strlit("%");
    reveal_strlit("*");
    reveal_strlit("+");
    reveal_strlit("-");
    reveal_strlit(".resources");
    reveal_strlit(".s");
    reveal_strlit("/");
    reveal_strlit("<");
    reveal_strlit("<=");
    reveal_strlit("==");
    reveal_strlit("===");
    reveal_strlit(">");
    reveal_strlit(">=");
    reveal_strlit("add");
    reveal_strlit("and");
    reveal_strlit("apply");
    reveal_strlit("bi");
    reveal_strlit("bi*");
    reveal_strlit("bi@");
    reveal_strlit("borrow");
    reveal_strlit("clear");
    reveal_strlit("cleave");
    reveal_strlit("consume_resource");
    reveal_strlit("create_resource");
    reveal_strlit("depth");
    reveal_strlit("dip");
    reveal_strlit("div");
    reveal_strlit("drop");
    reveal_strlit("dup");
    reveal_strlit("eq");
    reveal_strlit("filter");
    reveal_strlit("fold");
    reveal_strlit("is_resource");
    reveal_strlit("keep");
    reveal_strlit("map");
    reveal_strlit("mod");
    reveal_strlit("mul");
    reveal_strlit("nip");
    reveal_strlit("not");
    reveal_strlit("or");
    reveal_strlit("over");
    reveal_strlit("pick");
    reveal_strlit("print");
    reveal_strlit("resource_type");
    reveal_strlit("roll");
    reveal_strlit("rot");
    reveal_strlit("sqrt");
    reveal_strlit("sub");
    reveal_strlit("swap");
    reveal_strlit("tri");
    reveal_strlit("tuck");
    reveal_strlit("type");
    reveal_strlit("type_equals");
    reveal_strlit("type_quasiquote");
    reveal_strlit("type_quote");
    reveal_strlit("type_to_string");
    reveal_strlit("type_unquote");
    reveal_strlit("veq");
    reveal_strlit("with_borrowed");
    assert("and"@[0] != "==="@[0]);
    assert("and"@[1] != "add"@[1]);
    assert("and"@[0] != "div"@[0]);
    assert("and"@[0] != "dup"@[0]);
    assert("and"@[0] != "mod"@[0]);
    assert("and"@[0] != "mul"@[0]);
    assert("and"@[0] != "nip"@[0]);
    assert("and"@[0] != "rot"@[0]);
    assert("and"@[0] != "sub"@[0]);
    assert("and"@[0] != "veq"@[0]);
    assert("div"@[0] != "add"@[0]);
    assert("div"@[1] != "dup"@[1]);
    assert("div"@[0] != "mul"@[0]);
    assert("div"@[0] != "nip"@[0]);
    assert("div"@[0] != "rot"@[0]);
    assert("div"@[0] != "sub"@[0]);
    assert("mod"@[0] != "add"@[0]);
    assert("mod"@[0] != "div"@[0]);
    assert("mod"@[0] != "dup"@[0]);
    assert("mod"@[1] != "mul"@[1]);
    assert("mod"@[0] != "nip"@[0]);
    assert("mod"@[0] != "rot"@[0]);
    assert("mod"@[0] != "sub"@[0]);
    assert("not"@[0] != "==="@[0]);
    assert("not"@[0] != "add"@[0]);
    assert("not"@[0] != "and"@[0]);
    assert("not"@[0] != "div"@[0]);
    assert("not"@[0] != "dup"@[0]);
    assert("not"@[0] != "mod"@[0]);
    assert("not"@[0] != "mul"@[0]);
    assert("not"@[1] != "nip"@[1]);
    assert("not"@[0] != "rot"@[0]);
    assert("not"@[0] != "sub"@[0]);
    assert("not"@[0] != "veq"@[0]);
    if w == "dup"@ {
        assert(operation_named(w) == Some(Operation::Dup));
    }
    if w == "drop"@ {
        assert(operation_named(w) == Some(Operation::Drop));
    }
    if w == "swap"@ {
        assert(operation_named(w) == Some(Operation::Swap));
    }
    if w == "rot"@ {
        assert(operation_named(w) == Some(Operation::Rot));
    }
    if w == "over"@ {
        assert(operation_named(w) == Some(Operation::Over));
    }
    if w == "tuck"@ {
        assert(operation_named(w) == Some(Operation::Tuck));
    }
    if w == "nip"@ {
        assert(operation_named(w) == Some(Operation::Nip));
    }
    if w == "+"@ {
        assert(operation_named(w) == Some(Operation::Add));
    }
    if w == "add"@ {
        assert(operation_named(w) == Some(Operation::Add));
    }
    if w == "-"@ {
        assert(operation_named(w) == Some(Operation::Sub));
    }
    if w == "sub"@ {
        assert(operation_named(w) == Some(Operation::Sub));
    }
    if w == "*"@ {
        assert(operation_named(w) == Some(Operation::Mul));
    }
    if w == "mul"@ {
        assert(operation_named(w) == Some(Operation::Mul));
    }
    if w == "/"@ {
        assert(operation_named(w) == Some(Operation::Div));
    }
    if w == "div"@ {
        assert(operation_named(w) == Some(Operation::Div));
    }
    if w == "mod"@ {
        assert(operation_named(w) == Some(Operation::Mod));
    }
    if w == "and"@ {
        assert(operation_named(w) == Some(Operation::And));
    }
    if w == "or"@ {
        assert(operation_named(w) == Some(Operation::Or));
    }
    if w == "not"@ {
        assert(operation_named(w) == Some(Operation::Not));
    }
    if w == "=="@ {
        assert(operation_named(w) == Some(Operation::Equal));
    }
    if w == "eq"@ {
        assert(operation_named(w) == Some(Operation::Equal));
    }
    if w == "!="@ {
        assert(operation_named(w) == Some(Operation::NotEqual));
    }
    if w == "<"@ {
        assert(operation_named(w) == Some(Operation::Less));
    }
    if w == ">"@ {
        assert(operation_named(w) == Some(Operation::Greater));
    }
    if w == "<="@ {
        assert(operation_named(w) == Some(Operation::LessEqual));
    }
    if w == ">="@ {
        assert(operation_named(w) == Some(Operation::GreaterEqual));
    }
}

/// Running the first expressions of a body does not depend on what comes
/// behind them.
pub proof fn lemma_run_body_prefix(
    m: MachineView,
    a: Seq<ExprView>,
    b: Seq<ExprView>,
    n: int,
    fuel: nat,
)
    requires
        0 <= n <= a.len(),
        n <= b.len(),
        forall|i: int| 0 <= i < n ==> a[i] == b[i],
    ensures
        run_body(m, a, n, fuel) == run_body(m, b, n, fuel),
    decreases n,
{
    if n > 0 {
        lemma_run_body_prefix(m, a, b, n - 1, fuel);
    }
}

/// What running `a` and then the first `n` expressions of `b` does.
pub open spec fn run_then(
    m: MachineView,
    a: Seq<ExprView>,
    b: Seq<ExprView>,
    n: int,
    fuel: nat,
) -> Result<MachineView, EvaluatorError> {
    match run_body(m, a, a.len() as int, fuel) {
        Err(e) => Err(e),
        Ok(mid) => run_body(mid, b, n, fuel),
    }
}

/// Running a body and then the beginning of another is running the
/// beginning of the one behind the other.
pub proof fn lemma_run_body_split(
    m: MachineView,
    a: Seq<ExprView>,
    b: Seq<ExprView>,
    n: int,
    fuel: nat,
)
    requires
        0 <= n <= b.len(),
    ensures
        run_body(m, a + b, a.len() + n, fuel) == run_then(m, a, b, n, fuel),
    decreases n,
{
    let whole = a + b;
    if n == 0 {
        lemma_run_body_prefix(m, whole, a, a.len() as int, fuel);
    } else {
        lemma_run_body_split(m, a, b, n - 1, fuel);
        assert(whole[a.len() + n - 1] == b[n - 1]);
    }
}

/// Running one body behind another is running the second where the first
/// has ended.
pub proof fn lemma_run_body_append(m: MachineView, a: Seq<ExprView>, b: Seq<ExprView>, fuel: nat)
    ensures
        run_body(m, a + b, (a + b).len() as int, fuel) == run_then(
            m,
            a,
            b,
            b.len() as int,
            fuel,
        ),
{
    lemma_run_body_split(m, a, b, b.len() as int, fuel);
}

/// The machine with another stack.
pub open spec fn with_stack(m: MachineView, s: Seq<ValueView>) -> MachineView {
    MachineView { stack: s, ..m }
}

/// What a word that names an operation on the stack does where it is not bound.
pub proof fn lemma_run_word(m: MachineView, w: Seq<char>, fuel: nat)
    requires
        env_lookup(m.env, w) is None,
        operation_named(w) is Some,
        stack_op(operation_named(w)->Some_0, m.stack) is Some,
    ensures
        run_body(m, seq![ExprView::Symbol(w)], 1, fuel) == match stack_op(
            operation_named(w)->Some_0,
            m.stack,
        )->Some_0 {
            Ok(s) => Ok::<MachineView, EvaluatorError>(with_stack(m, s)),
            Err(e) => Err(e),
        },
{
    let body = seq![ExprView::Symbol(w)];
    let op = operation_named(w)->Some_0;
    assert(run_body(m, body, 0, fuel) == Ok::<MachineView, EvaluatorError>(m));
    assert(run_named(m, w, fuel) == run_op(m, op, fuel));
    assert(simple_op(m, op) is Some);
    assert(run_op(m, op, fuel) == simple_op(m, op)->Some_0);
    assert(eval_expr(m, body[0], fuel) == match run_named(m, w, fuel) {
        Err(e) => Err::<(MachineView, Option<ValueView>), EvaluatorError>(e),
        Ok(after) => Ok((after, None)),
    });
}

/// What a literal does: it puts its value on the stack.
pub proof fn lemma_run_literal(m: MachineView, e: ExprView, fuel: nat)
    requires
        e is Number || e is String || e is Boolean,
    ensures
        run_body(m, seq![e], 1, fuel) == Ok::<MachineView, EvaluatorError>(
            m.push(literal_value(e)),
        ),
{
    let body = seq![e];
    assert(run_body(m, body, 0, fuel) == Ok::<MachineView, EvaluatorError>(m));
    assert(eval_expr(m, body[0], fuel) == Ok::<(MachineView, Option<ValueView>), EvaluatorError>(
        (m, Some(literal_value(e))),
    ));
}

/// The value of a literal.
pub open spec fn literal_value(e: ExprView) -> ValueView {
    match e {
        ExprView::Number(n) => ValueView::Number(n),
        ExprView::String(s) => ValueView::String(s),
        ExprView::Boolean(b) => flag(b),
        _ => ValueView::Nil,
    }
}

/// The operations that the words of an access name.
#[verifier::rlimit(40)]
pub proof fn lemma_access_words()
    ensures
        operation_named("swap"@) == Some(Operation::Swap),
        operation_named("rot"@) == Some(Operation::Rot),
        operation_named("pick"@) == Some(Operation::Pick),
        operation_named("roll"@) == Some(Operation::Roll),
{
    reveal_strlit("dup");
    reveal_strlit("drop");
    reveal_strlit("swap");
    reveal_strlit("rot");
    reveal_strlit("over");
    reveal_strlit("tuck");
    reveal_strlit("nip");
    reveal_strlit("pick");
    reveal_strlit("roll");
    assert("swap"@[0] != "drop"@[0]);
    assert("rot"@[0] != "dup"@[0]);
    assert("pick"@[0] != "drop"@[0]);
    assert("pick"@[0] != "swap"@[0]);
    assert("pick"@[0] != "over"@[0]);
    assert("pick"@[0] != "tuck"@[0]);
    assert("roll"@[0] != "drop"@[0]);
    assert("roll"@[0] != "swap"@[0]);
    assert("roll"@[0] != "over"@[0]);
    assert("roll"@[0] != "tuck"@[0]);
    assert("roll"@[0] != "pick"@[0]);
    assert("roll"@.len() == 4 && "pick"@.len() == 4 && "swap"@.len() == 4);
    assert("rot"@.len() == 3 && "dup"@.len() == 3 && "nip"@.len() == 3);
    assert("roll"@ != "dup"@);
    assert("roll"@ != "rot"@);
    assert("roll"@ != "nip"@);
    assert("roll"@ != "drop"@);
    assert("roll"@ != "swap"@);
    assert("roll"@ != "over"@);
    assert("roll"@ != "tuck"@);
    assert("roll"@ != "pick"@);
}

/// What evaluating the parameter does where it is bound: its value is
/// put on the stack.
pub proof fn lemma_run_bound(ms: MachineView, x: Seq<char>, v: ValueView, fuel: nat)
    requires
        env_lookup(ms.env, x) == Some(v),
    ensures
        run_body(ms, seq![ExprView::Symbol(x)], 1, fuel) == Ok::<MachineView, EvaluatorError>(
            ms.push(v),
        ),
{
    let body = seq![ExprView::Symbol(x)];
    assert(run_body(ms, body, 0, fuel) == Ok::<MachineView, EvaluatorError>(ms));
    assert(eval_expr(ms, body[0], fuel) == Ok::<(MachineView, Option<ValueView>), EvaluatorError>(
        (ms, Some(v)),
    ));
}

/// What a number behind which `pick` or `roll` stands does: the value at
/// the depth that the number names is copied, or moved, to the top.
#[verifier::rlimit(40)]
pub proof fn lemma_run_access(m: MachineView, depth: int, moving: bool, fuel: nat)
    requires
        access_words_free(m.env),
        0 <= depth < m.stack.len(),
    ensures
        run_body(
            m,
            seq![
                ExprView::Number(depth),
                ExprView::Symbol(
                    if moving {
                        "roll"@
                    } else {
                        "pick"@
                    },
                ),
            ],
            2,
            fuel,
        ) == Ok::<MachineView, EvaluatorError>(
            with_stack(
                m,
                if moving {
                    m.stack.remove(m.stack.len() - 1 - depth).push(at_depth(m.stack, depth))
                } else {
                    m.stack.push(at_depth(m.stack, depth))
                },
            ),
        ),
{
    lemma_access_words();
    let w = if moving {
        "roll"@
    } else {
        "pick"@
    };
    let code = seq![ExprView::Number(depth), ExprView::Symbol(w)];
    let a = seq![ExprView::Number(depth)];
    let b = seq![ExprView::Symbol(w)];
    assert(code =~= a + b);
    lemma_run_body_append(m, a, b, fuel);
    lemma_run_literal(m, ExprView::Number(depth), fuel);
    let mid = m.push(ValueView::Number(depth));
    lemma_run_word(mid, w, fuel);
    assert(mid.stack.drop_last() =~= m.stack);
}

/// What one expression adds to translated code.
pub open spec fn added(st: ScanState, after: ScanState) -> Seq<ExprView> {
    after.output.subrange(st.output.len() as int, after.output.len() as int)
}

/// No name occurs twice.
pub open spec fn distinct(names: Seq<Seq<char>>) -> bool {
    forall|i: int, j: int| 0 <= i < j < names.len() ==> names[i] != names[j]
}

/// What the entry `j` of a table holds while the first `live` of the
/// parameters `names` are left: the name; whether it is consumed; and,
/// if it is left, the depth at which its value lay at entry.
pub open spec fn lined_entry(
    entry: TrackedParamView,
    names: Seq<Seq<char>>,
    live: int,
    j: int,
) -> bool {
    &&& entry.name == names[j]
    &&& entry.consumed <==> j >= live
    &&& j < live ==> entry.depth == names.len() - 1 - j
}

/// The table of the parameters `names` while the values of the first
/// `live` of them still lie where they lay at entry and the others have
/// been moved to the top.
pub open spec fn lined_up(table: Seq<TrackedParamView>, names: Seq<Seq<char>>, live: int) -> bool {
    &&& table.len() == names.len()
    &&& 0 <= live <= names.len()
    &&& forall|j: int| 0 <= j < table.len() ==> lined_entry(#[trigger] table[j], names, live, j)
}

/// How many of the first `k` parameters of a table are left.
pub open spec fn left_upto(table: Seq<TrackedParamView>, k: int) -> int
    decreases k,
{
    if k <= 0 || k > table.len() {
        0
    } else {
        left_upto(table, k - 1) + if table[k - 1].consumed {
            0int
        } else {
            1int
        }
    }
}

/// How many parameters of a table are left: not yet moved to the top.
pub open spec fn left(table: Seq<TrackedParamView>) -> int {
    left_upto(table, table.len() as int)
}

/// In a table of which the first `live` parameters are left, they are the
/// ones that are left.
pub proof fn lemma_left_upto(
    table: Seq<TrackedParamView>,
    names: Seq<Seq<char>>,
    live: int,
    k: int,
)
    requires
        lined_up(table, names, live),
        0 <= k <= table.len(),
    ensures
        left_upto(table, k) == if k <= live {
            k
        } else {
            live
        },
    decreases k,
{
    if k > 0 {
        lemma_left_upto(table, names, live, k - 1);
        assert(lined_entry(table[k - 1], names, live, k - 1));
    }
}

/// A table that is lined up says how many parameters are left.
pub proof fn lemma_left(table: Seq<TrackedParamView>, names: Seq<Seq<char>>, live: int)
    requires
        lined_up(table, names, live),
    ensures
        left(table) == live,
{
    lemma_left_upto(table, names, live, table.len() as int);
}

/// Looking up a name in a table that is lined up: the entry of a
/// parameter is found where the parameter stands among the names.
pub proof fn lemma_lined_entry(
    table: Seq<TrackedParamView>,
    names: Seq<Seq<char>>,
    live: int,
    s: Seq<char>,
)
    requires
        lined_up(table, names, live),
    ensures
        match entry_of(table, s) {
            Some(j) => 0 <= j < names.len() && names[j] == s,
            None => forall|j: int| 0 <= j < names.len() ==> names[j] != s,
        },
{
    lemma_entry_of(table, s);
    match entry_of(table, s) {
        Some(j) => {
            assert(lined_entry(table[j], names, live, j));
        },
        None => {
            assert forall|j: int| 0 <= j < names.len() implies names[j] != s by {
                assert(lined_entry(table[j], names, live, j));
            }
        },
    }
}

/// Recording the uses of an expression keeps a table lined up.
pub proof fn lemma_note_expr_lined(
    table: Seq<TrackedParamView>,
    names: Seq<Seq<char>>,
    live: int,
    e: ExprView,
    index: nat,
)
    requires
        lined_up(table, names, live),
    ensures
        lined_up(note_expr(table, e, index), names, live),
    decreases e,
{
    match e {
        ExprView::Symbol(s) => {
            lemma_entry_of(table, s);
            let after = note_expr(table, e, index);
            assert forall|j: int| 0 <= j < after.len() implies lined_entry(
                #[trigger] after[j],
                names,
                live,
                j,
            ) by {
                assert(lined_entry(table[j], names, live, j));
            }
        },
        ExprView::Pipeline(left, right) => {
            lemma_note_expr_lined(table, names, live, *left, 0);
            lemma_note_expr_lined(note_expr(table, *left, 0), names, live, *right, 1);
        },
        _ => {},
    }
}

/// Recording the uses of a body keeps a table lined up.
pub proof fn lemma_note_body_lined(
    table: Seq<TrackedParamView>,
    names: Seq<Seq<char>>,
    live: int,
    body: Seq<ExprView>,
    n: int,
)
    requires
        lined_up(table, names, live),
    ensures
        lined_up(note_body(table, body, n), names, live),
    decreases n,
{
    if n > 0 {
        lemma_note_body_lined(table, names, live, body, n - 1);
        lemma_note_expr_lined(
            note_body(table, body, n - 1),
            names,
            live,
            body[n - 1],
            (n - 1) as nat,
        );
    }
}

/// The table that is seeded for names of which none occurs twice holds
/// the names in order, the last one at depth 0, and none is consumed.
pub proof fn lemma_seed_lined(names: Seq<Seq<char>>, k: int)
    requires
        distinct(names),
        0 <= k <= names.len(),
    ensures
        seed_upto(names, k).len() == k,
        forall|j: int|
            0 <= j < k ==> (#[trigger] seed_upto(names, k)[j]).name == names[j] && seed_upto(
                names,
                k,
            )[j].depth == names.len() - 1 - j && !seed_upto(names, k)[j].consumed,
    decreases k,
{
    if k > 0 {
        lemma_seed_lined(names, k - 1);
        let before = seed_upto(names, k - 1);
        lemma_entry_of(before, names[k - 1]);
        match entry_of(before, names[k - 1]) {
            Some(i) => {
                assert(before[i].name == names[i]);
                assert(false);
            },
            None => {},
        }
    }
}

/// The translation of a body over names of which none occurs twice begins
/// with a table that is lined up, with every parameter left.
pub proof fn lemma_start(names: Seq<Seq<char>>, body: Seq<ExprView>)
    requires
        distinct(names),
    ensures
        lined_up(initial_state(names, body).table, names, names.len() as int),
        initial_state(names, body).delta == 0,
        initial_state(names, body).output == Seq::<ExprView>::empty(),
{
    let table = seed(names);
    lemma_seed_lined(names, names.len() as int);
    assert forall|j: int| 0 <= j < table.len() implies lined_entry(
        #[trigger] table[j],
        names,
        names.len() as int,
        j,
    ) by {}
    lemma_note_body_lined(table, names, names.len() as int, body, body.len() as int);
}

/// The scope after the first `k` of `names` were bound to the first `k`
/// of `vals`.
pub open spec fn bind_all(
    env: EnvView,
    names: Seq<Seq<char>>,
    vals: Seq<ValueView>,
    k: int,
) -> EnvView
    decreases k,
{
    if k <= 0 {
        env
    } else {
        bind_all(env, names, vals, k - 1).bind(names[k - 1], vals[k - 1])
    }
}

/// A parameter that was bound yields its value.
pub proof fn lemma_lookup_param(
    env: EnvView,
    names: Seq<Seq<char>>,
    vals: Seq<ValueView>,
    k: int,
    j: int,
)
    requires
        distinct(names),
        0 <= j < k <= names.len(),
    ensures
        env_lookup(bind_all(env, names, vals, k), names[j]) == Some(vals[j]),
    decreases k,
{
    let before = bind_all(env, names, vals, k - 1);
    crate::env::lemma_lookup_after_set(before, names[k - 1], vals[k - 1], names[j]);
    if j < k - 1 {
        lemma_lookup_param(env, names, vals, k - 1, j);
    }
}

/// A name that is no parameter yields what it yielded before the
/// parameters were bound.
pub proof fn lemma_lookup_other(
    env: EnvView,
    names: Seq<Seq<char>>,
    vals: Seq<ValueView>,
    k: int,
    s: Seq<char>,
)
    requires
        0 <= k <= names.len(),
        forall|j: int| 0 <= j < names.len() ==> names[j] != s,
    ensures
        env_lookup(bind_all(env, names, vals, k), s) == env_lookup(env, s),
    decreases k,
{
    if k > 0 {
        let before = bind_all(env, names, vals, k - 1);
        crate::env::lemma_lookup_after_set(before, names[k - 1], vals[k - 1], s);
        lemma_lookup_other(env, names, vals, k - 1, s);
    }
}

/// The machine with the values of the parameters on its stack, the value
/// of the last parameter on top.
pub open spec fn loaded(m: MachineView, vals: Seq<ValueView>) -> MachineView {
    with_stack(m, m.stack + vals)
}

/// The machine with the parameters bound to their values in its scope.
pub open spec fn bound(m: MachineView, names: Seq<Seq<char>>, vals: Seq<ValueView>) -> MachineView {
    MachineView { env: bind_all(m.env, names, vals, names.len() as int), ..m }
}

/// How many values lie on the stack above where the values of the
/// parameters lay at entry: what the code has made the stack grow by, and
/// the values of the parameters that were moved.
pub open spec fn height(st: ScanState) -> int {
    st.delta + st.table.len() - left(st.table)
}

/// Plain code over the parameters `names`: a literal, a parameter, or a
/// plain word that is not bound.
pub open spec fn plain_item(e: ExprView, names: Seq<Seq<char>>, env: EnvView) -> bool {
    e is Number || e is String || e is Boolean || (e is Symbol && (names.contains(e->Symbol_0) || (
    plain_word(e->Symbol_0) && env_lookup(env, e->Symbol_0) is None)))
}

/// A body of plain code over the parameters `names`.
pub open spec fn plain_body(body: Seq<ExprView>, names: Seq<Seq<char>>, env: EnvView) -> bool {
    forall|i: int| 0 <= i < body.len() ==> plain_item(#[trigger] body[i], names, env)
}

/// The words of an access are not bound.
pub open spec fn access_words_free(env: EnvView) -> bool {
    env_lookup(env, "swap"@) is None && env_lookup(env, "rot"@) is None && env_lookup(
        env,
        "pick"@,
    ) is None && env_lookup(env, "roll"@) is None
}

/// Whether the parameter of entry `j` is the last one that is left, and
/// no parameter that is left lies deeper than the depth at which the
/// translator reaches for this one.
pub open spec fn last_left(st: ScanState, j: int) -> bool {
    forall|k: int|
        0 <= k < st.table.len() && !(#[trigger] st.table[k]).consumed ==> k <= j && (k < j
            ==> st.table[k].depth <= st.table[j].depth + st.delta)
}

/// What the translation of `e` in the state `st` asks for. A word must
/// find the values it takes above where the values of the parameters lay
/// at entry. A parameter that is used for the last time must be the last
/// one that is left, with no other one deeper than the translator reaches:
/// the parameters are moved from the right to the left, each after enough
/// values were put above them.
pub open spec fn fits(st: ScanState, e: ExprView, index: nat) -> bool {
    match e {
        ExprView::Symbol(s) => match entry_of(st.table, s) {
            Some(j) => st.table[j].last_use == Some(index) ==> last_left(st, j),
            None => word_effect(s) is Some ==> height(st) >= word_effect(s)->Some_0.inputs.len(),
        },
        _ => true,
    }
}

/// Whether the translation of the first `n` expressions of a body finds,
/// at each of them, what it asks for.
pub open spec fn orderly(start: ScanState, body: Seq<ExprView>, n: int) -> bool
    decreases n,
{
    if n <= 0 || n > body.len() {
        true
    } else {
        orderly(start, body, n - 1) && match emit_body(start, body, n - 1) {
            Ok(st) => fits(st, body[n - 1], (n - 1) as nat),
            Err(_) => true,
        }
    }
}

/// How the machine that runs translated code, `mt`, and the machine that
/// runs the body, `ms`, stand to each other while the first `live`
/// parameters are left: above the stack at entry the one holds the values
/// of those parameters and then what the other holds, and they differ in
/// nothing else but what is bound.
pub open spec fn related(
    m: MachineView,
    names: Seq<Seq<char>>,
    vals: Seq<ValueView>,
    st: ScanState,
    live: int,
    mt: MachineView,
    ms: MachineView,
) -> bool {
    let base = m.stack;
    let top = ms.stack.skip(base.len() as int);
    &&& ms.stack.len() >= base.len()
    &&& ms.stack == base + top
    &&& mt.stack == base + vals.subrange(0, live) + top
    &&& top.len() == st.delta + names.len() - live
    &&& mt.env == m.env
    &&& ms.env == bind_all(m.env, names, vals, names.len() as int)
    &&& mt.resources == ms.resources
    &&& mt.output == ms.output
}

/// How the outcomes of the two machines stand to each other: both have
/// failed with the same error, or both have gone on and are related.
pub open spec fn outcomes_related(
    m: MachineView,
    names: Seq<Seq<char>>,
    vals: Seq<ValueView>,
    st: ScanState,
    live: int,
    rt: Result<MachineView, EvaluatorError>,
    rs: Result<MachineView, EvaluatorError>,
) -> bool {
    match (rt, rs) {
        (Ok(mt), Ok(ms)) => related(m, names, vals, st, live, mt, ms),
        (Err(a), Err(b)) => a == b,
        _ => false,
    }
}

/// What the translation of one expression does to the table: it stays
/// lined up, and one parameter fewer is left if the expression is the last
/// use of a parameter.
pub proof fn lemma_emit_lined(
    st: ScanState,
    names: Seq<Seq<char>>,
    live: int,
    e: ExprView,
    index: nat,
)
    requires
        lined_up(st.table, names, live),
        e is Number || e is String || e is Boolean || e is Symbol,
        fits(st, e, index),
        emit_expr(st, e, index) is Ok,
    ensures
        lined_up(
            emit_expr(st, e, index)->Ok_0.table,
            names,
            left(emit_expr(st, e, index)->Ok_0.table),
        ),
        left(emit_expr(st, e, index)->Ok_0.table) == if is_last_use(st, e, index) {
            live - 1
        } else {
            live
        },
        is_last_use(st, e, index) ==> entry_of(st.table, e->Symbol_0) == Some(live - 1),
{
    let after = emit_expr(st, e, index)->Ok_0;
    if is_last_use(st, e, index) {
        let s = e->Symbol_0;
        let j = entry_of(st.table, s)->Some_0;
        lemma_lined_entry(st.table, names, live, s);
        assert(lined_entry(st.table[j], names, live, j));
        assert(j < live);
        assert(lined_entry(st.table[live - 1], names, live, live - 1));
        assert(!st.table[live - 1].consumed);
        assert(j == live - 1);
        let actual = st.table[j].depth + st.delta;
        assert(after.table == after_consuming(st.table, j, actual));
        assert forall|k: int| 0 <= k < after.table.len() implies lined_entry(
            #[trigger] after.table[k],
            names,
            live - 1,
            k,
        ) by {
            assert(lined_entry(st.table[k], names, live, k));
            if k < live - 1 {
                assert(!st.table[k].consumed);
            }
        }
        lemma_left(after.table, names, live - 1);
    } else {
        assert(after.table == st.table);
        lemma_left(after.table, names, live);
    }
}

/// Whether `e` is, in the state `st`, the last use of a parameter.
pub open spec fn is_last_use(st: ScanState, e: ExprView, index: nat) -> bool {
    e matches ExprView::Symbol(s) && entry_of(st.table, s) matches Some(j) && st.table[j].last_use
        == Some(index)
}

/// What is asked of a step of the translation, and what it gives: the
/// code that the translation of the expression adds does to the one
/// machine what the expression does to the other.
pub open spec fn step_holds(
    m: MachineView,
    names: Seq<Seq<char>>,
    vals: Seq<ValueView>,
    st: ScanState,
    e: ExprView,
    index: nat,
    mt: MachineView,
    ms: MachineView,
    fuel: nat,
) -> bool {
    let after = emit_expr(st, e, index)->Ok_0;
    &&& after.output == st.output + added(st, after)
    &&& outcomes_related(
        m,
        names,
        vals,
        after,
        left(after.table),
        run_body(mt, added(st, after), added(st, after).len() as int, fuel),
        run_body(ms, seq![e], 1, fuel),
    )
}

/// A step of the translation at a literal.
#[verifier::rlimit(40)]
proof fn lemma_step_literal(
    m: MachineView,
    names: Seq<Seq<char>>,
    vals: Seq<ValueView>,
    st: ScanState,
    live: int,
    e: ExprView,
    index: nat,
    mt: MachineView,
    ms: MachineView,
    fuel: nat,
)
    requires
        lined_up(st.table, names, live),
        e is Number || e is String || e is Boolean,
        emit_expr(st, e, index) is Ok,
        related(m, names, vals, st, live, mt, ms),
    ensures
        step_holds(m, names, vals, st, e, index, mt, ms, fuel),
{
    let after = emit_expr(st, e, index)->Ok_0;
    let code = added(st, after);
    let base = m.stack;
    let top = ms.stack.skip(base.len() as int);
    let low = base + vals.subrange(0, live);
    lemma_left(st.table, names, live);
    assert(code =~= seq![e]);
    assert(after.output =~= st.output + code);
    lemma_run_literal(mt, e, fuel);
    lemma_run_literal(ms, e, fuel);
    let value = literal_value(e);
    let ms2 = ms.push(value);
    assert(ms2.stack.skip(base.len() as int) =~= top.push(value));
    assert(ms2.stack =~= base + top.push(value));
    assert(mt.stack.push(value) =~= low + top.push(value));
}

/// A step of the translation at a word.
#[verifier::rlimit(40)]
proof fn lemma_step_word(
    m: MachineView,
    names: Seq<Seq<char>>,
    vals: Seq<ValueView>,
    st: ScanState,
    live: int,
    s: Seq<char>,
    index: nat,
    mt: MachineView,
    ms: MachineView,
    fuel: nat,
)
    requires
        lined_up(st.table, names, live),
        names.len() == vals.len(),
        entry_of(st.table, s) is None,
        plain_word(s),
        env_lookup(m.env, s) is None,
        fits(st, ExprView::Symbol(s), index),
        emit_expr(st, ExprView::Symbol(s), index) is Ok,
        related(m, names, vals, st, live, mt, ms),
    ensures
        step_holds(m, names, vals, st, ExprView::Symbol(s), index, mt, ms, fuel),
{
    let e = ExprView::Symbol(s);
    let after = emit_expr(st, e, index)->Ok_0;
    let code = added(st, after);
    let base = m.stack;
    let top = ms.stack.skip(base.len() as int);
    let low = base + vals.subrange(0, live);
    lemma_left(st.table, names, live);
    lemma_lined_entry(st.table, names, live, s);
    lemma_lookup_other(m.env, names, vals, names.len() as int, s);
    let op = operation_named(s)->Some_0;
    lemma_plain_word(s);
    assert(code =~= seq![e]);
    assert(after.output =~= st.output + code);
    lemma_frame(op, base, top);
    lemma_frame(op, low, top);
    lemma_run_word(mt, s, fuel);
    lemma_run_word(ms, s, fuel);
    match stack_op(op, top)->Some_0 {
        Ok(top2) => {
            let ms2 = with_stack(ms, base + top2);
            assert(ms2.stack.skip(base.len() as int) =~= top2);
        },
        Err(_) => {},
    }
}

/// A step of the translation at a parameter.
#[verifier::rlimit(60)]
proof fn lemma_step_param(
    m: MachineView,
    names: Seq<Seq<char>>,
    vals: Seq<ValueView>,
    st: ScanState,
    live: int,
    s: Seq<char>,
    index: nat,
    mt: MachineView,
    ms: MachineView,
    fuel: nat,
)
    requires
        lined_up(st.table, names, live),
        distinct(names),
        names.len() == vals.len(),
        entry_of(st.table, s) is Some,
        access_words_free(m.env),
        fits(st, ExprView::Symbol(s), index),
        emit_expr(st, ExprView::Symbol(s), index) is Ok,
        related(m, names, vals, st, live, mt, ms),
    ensures
        step_holds(m, names, vals, st, ExprView::Symbol(s), index, mt, ms, fuel),
{
    let e = ExprView::Symbol(s);
    let after = emit_expr(st, e, index)->Ok_0;
    let code = added(st, after);
    let base = m.stack;
    let top = ms.stack.skip(base.len() as int);
    let j = entry_of(st.table, s)->Some_0;
    lemma_access_words();
    lemma_lined_entry(st.table, names, live, s);
    lemma_emit_lined(st, names, live, e, index);
    assert(lined_entry(st.table[j], names, live, j));
    assert(!st.table[j].consumed);
    assert(j < live);
    let v = vals[j];
    lemma_lookup_param(m.env, names, vals, names.len() as int, j);
    let depth = st.table[j].depth + st.delta;
    assert(depth >= 0);
    assert(depth == top.len() + live - 1 - j);
    lemma_run_bound(ms, s, v, fuel);
    let ms2 = ms.push(v);
    assert(ms2.stack.skip(base.len() as int) =~= top.push(v));
    assert(ms2.stack =~= base + top.push(v));
    let given = vals.subrange(0, live);
    assert(mt.stack == base + given + top);
    assert(mt.stack.len() == base.len() + live + top.len());
    assert(mt.stack[base.len() + j] == given[j]);
    assert(at_depth(mt.stack, depth) == v);
    if st.table[j].last_use == Some(index) {
        assert(j == live - 1);
        let low = base + vals.subrange(0, live - 1);
        assert(base + given =~= low.push(v));
        assert(mt.stack =~= low.push(v) + top);
        assert(depth == top.len());
        assert(mt.stack.remove(mt.stack.len() - 1 - depth) =~= low + top);
        assert(code =~= consuming_access(depth));
        assert(after.output =~= st.output + code);
        if depth == 0 {
            assert(run_body(mt, code, 0, fuel) == Ok::<MachineView, EvaluatorError>(mt));
            assert(mt.stack =~= low + top.push(v));
        } else if depth == 1 {
            lemma_run_word(mt, "swap"@, fuel);
            assert(below(mt.stack, 2).push(at_depth(mt.stack, 0)).push(at_depth(mt.stack, 1))
                =~= low + top.push(v));
        } else if depth == 2 {
            lemma_run_word(mt, "rot"@, fuel);
            assert(below(mt.stack, 3).push(at_depth(mt.stack, 1)).push(
                at_depth(mt.stack, 0),
            ).push(at_depth(mt.stack, 2)) =~= low + top.push(v));
        } else {
            lemma_run_access(mt, depth, true, fuel);
            assert(mt.stack.remove(mt.stack.len() - 1 - depth).push(v) =~= low + top.push(v));
        }
    } else {
        assert(code =~= copying_access(depth));
        assert(after.output =~= st.output + code);
        lemma_run_access(mt, depth, false, fuel);
        assert(mt.stack.push(v) =~= base + given + top.push(v));
    }
}

/// One step of the translation is one step of both machines.
pub proof fn lemma_step(
    m: MachineView,
    names: Seq<Seq<char>>,
    vals: Seq<ValueView>,
    st: ScanState,
    live: int,
    e: ExprView,
    index: nat,
    mt: MachineView,
    ms: MachineView,
    fuel: nat,
)
    requires
        lined_up(st.table, names, live),
        distinct(names),
        names.len() == vals.len(),
        plain_item(e, names, m.env),
        access_words_free(m.env),
        fits(st, e, index),
        emit_expr(st, e, index) is Ok,
        related(m, names, vals, st, live, mt, ms),
    ensures
        step_holds(m, names, vals, st, e, index, mt, ms, fuel),
{
    match e {
        ExprView::Symbol(s) => {
            lemma_lined_entry(st.table, names, live, s);
            if entry_of(st.table, s) is Some {
                lemma_step_param(m, names, vals, st, live, s, index, mt, ms, fuel);
            } else {
                assert(!names.contains(s));
                lemma_step_word(m, names, vals, st, live, s, index, mt, ms, fuel);
            }
        },
        _ => {
            lemma_step_literal(m, names, vals, st, live, e, index, mt, ms, fuel);
        },
    }
}

/// Running a body of one expression is evaluating the expression and
/// putting what it yields on the stack.
pub proof fn lemma_run_one(m: MachineView, e: ExprView, fuel: nat)
    ensures
        run_body(m, seq![e], 1, fuel) == match eval_expr(m, e, fuel) {
            Err(f) => Err::<MachineView, EvaluatorError>(f),
            Ok((after, y)) => Ok(after.push_yield(y)),
        },
{
    let body = seq![e];
    assert(run_body(m, body, 0, fuel) == Ok::<MachineView, EvaluatorError>(m));
    assert(body[0] == e);
}

/// Translated code does to the stack what the body does: as far as the
/// translation of a body of plain code has come, the machine that runs the
/// code on a stack that holds the values of the parameters and the machine
/// that runs the body with the parameters bound to the values have failed
/// alike, or hold the same values above the stack at entry, the one above
/// the values of the parameters that are left.
#[verifier::rlimit(60)]
pub proof fn lemma_simulation(
    m: MachineView,
    names: Seq<Seq<char>>,
    vals: Seq<ValueView>,
    body: Seq<ExprView>,
    n: int,
    fuel: nat,
)
    requires
        distinct(names),
        names.len() == vals.len(),
        plain_body(body, names, m.env),
        access_words_free(m.env),
        0 <= n <= body.len(),
        emit_body(initial_state(names, body), body, n) is Ok,
        orderly(initial_state(names, body), body, n),
    ensures
        ({
            let st = emit_body(initial_state(names, body), body, n)->Ok_0;
            &&& lined_up(st.table, names, left(st.table))
            &&& outcomes_related(
                m,
                names,
                vals,
                st,
                left(st.table),
                run_body(loaded(m, vals), st.output, st.output.len() as int, fuel),
                run_body(bound(m, names, vals), body, n, fuel),
            )
        }),
    decreases n,
{
    let start = initial_state(names, body);
    lemma_start(names, body);
    if n == 0 {
        let mt = loaded(m, vals);
        let ms = bound(m, names, vals);
        lemma_left(start.table, names, names.len() as int);
        assert(ms.stack.skip(m.stack.len() as int) =~= Seq::empty());
        assert(ms.stack =~= m.stack + Seq::empty());
        assert(vals.subrange(0, names.len() as int) =~= vals);
        assert(mt.stack =~= m.stack + vals + Seq::empty());
    } else {
        let before = emit_body(start, body, n - 1)->Ok_0;
        let e = body[n - 1];
        lemma_simulation(m, names, vals, body, n - 1, fuel);
        let live = left(before.table);
        let st = emit_expr(before, e, (n - 1) as nat)->Ok_0;
        let rt = run_body(loaded(m, vals), before.output, before.output.len() as int, fuel);
        let rs = run_body(bound(m, names, vals), body, n - 1, fuel);
        assert(plain_item(e, names, m.env));
        lemma_emit_lined(before, names, live, e, (n - 1) as nat);
        lemma_output_grows(before, e, (n - 1) as nat);
        let code = added(before, st);
        lemma_run_body_append(loaded(m, vals), before.output, code, fuel);
        match (rt, rs) {
            (Ok(mt), Ok(ms)) => {
                lemma_step(m, names, vals, before, live, e, (n - 1) as nat, mt, ms, fuel);
                lemma_run_one(ms, e, fuel);
            },
            _ => {},
        }
    }
}

/// Translating an expression adds to the code and takes nothing away.
pub proof fn lemma_output_grows(st: ScanState, e: ExprView, index: nat)
    requires
        emit_expr(st, e, index) is Ok,
    ensures
        emit_expr(st, e, index)->Ok_0.output == st.output + added(
            st,
            emit_expr(st, e, index)->Ok_0,
        ),
    decreases e,
{
    let after = emit_expr(st, e, index)->Ok_0;
    match e {
        ExprView::Pipeline(left, right) => {
            lemma_output_grows(st, *left, index);
            let mid = emit_expr(st, *left, index)->Ok_0;
            lemma_output_grows(mid, *right, index);
            assert(after.output =~= st.output + added(st, after));
        },
        _ => {
            assert(after.output =~= st.output + added(st, after));
        },
    }
}

/// How the machine that runs translated code and the machine that runs the
/// body have ended: both have failed with the same error, or both have
/// gone on and differ in nothing but what is bound.
pub open spec fn same_outcome(
    rt: Result<MachineView, EvaluatorError>,
    rs: Result<MachineView, EvaluatorError>,
) -> bool {
    match (rt, rs) {
        (Ok(mt), Ok(ms)) => mt.stack == ms.stack && mt.resources == ms.resources && mt.output
            == ms.output,
        (Err(a), Err(b)) => a == b,
        _ => false,
    }
}

/// Translation keeps what a quotation does. Let no parameter be named
/// twice, and let the body be plain code over the parameters: literals,
/// parameters, and words with a declared effect that work on the top of
/// the stack alone and are not bound. Let the translation find what it
/// asks for at each expression (see [`fits`]): every word finds the values
/// it takes above the parameters, and the parameters are used for the last
/// time from the right to the left, none while another one lies deeper
/// than the translator reaches. Let every parameter be used, and let the
/// peephole sweep find nothing to rewrite. Then running the translated
/// code on a stack that holds the values of the parameters, the first one
/// deepest, and running the body with the parameters bound to the values
/// end alike: with the same error, or with the same stack.
pub proof fn lemma_translation_equivalence(
    m: MachineView,
    names: Seq<Seq<char>>,
    vals: Seq<ValueView>,
    body: Seq<ExprView>,
    fuel: nat,
)
    requires
        distinct(names),
        names.len() == vals.len(),
        names.len() <= max_depth(),
        plain_body(body, names, m.env),
        access_words_free(m.env),
        emit_body(initial_state(names, body), body, body.len() as int) is Ok,
        orderly(initial_state(names, body), body, body.len() as int),
        left(emit_body(initial_state(names, body), body, body.len() as int)->Ok_0.table) == 0,
        window_free(emit_body(initial_state(names, body), body, body.len() as int)->Ok_0.output),
    ensures
        translation(names, body) is Ok,
        same_outcome(
            run_body(
                loaded(m, vals),
                translation(names, body)->Ok_0,
                translation(names, body)->Ok_0.len() as int,
                fuel,
            ),
            run_body(bound(m, names, vals), body, body.len() as int, fuel),
        ),
{
    let st = emit_body(initial_state(names, body), body, body.len() as int)->Ok_0;
    lemma_simulation(m, names, vals, body, body.len() as int, fuel);
    lemma_peephole_fixpoint(st.output);
    let rt = run_body(loaded(m, vals), st.output, st.output.len() as int, fuel);
    let rs = run_body(bound(m, names, vals), body, body.len() as int, fuel);
    match (rt, rs) {
        (Ok(mt), Ok(ms)) => {
            assert(vals.subrange(0, 0) =~= Seq::empty());
            assert(mt.stack =~= ms.stack);
        },
        _ => {},
    }
}

} // verus!
