use borf::errors::{EvaluatorError, ParseFailure, TranslationFailure};
use borf::stack_effects::{
    get_word_effect, is_binary_op, is_expr_number, is_expr_symbol, is_unary_op,
    parse_stack_effect, peephole_optimize, translate_quotation, StackEffect, StackerTranslator,
};
use borf::types::{Expr, Param};

fn named(name: &str) -> Param {
    Param { name: name.to_string(), type_annotation: None }
}

fn params(names: &[&str]) -> Vec<Param> {
    names.iter().map(|n| named(n)).collect()
}

fn w(name: &str) -> Expr {
    Expr::Symbol(name.to_string())
}

fn n(value: i32) -> Expr {
    Expr::Number(value)
}

fn failure<T>(f: TranslationFailure) -> Result<T, EvaluatorError> {
    Err(EvaluatorError::StackEffectError(f))
}

fn effect(inputs: &[&str], outputs: &[&str]) -> StackEffect {
    StackEffect::new(
        inputs.iter().map(|s| s.to_string()).collect(),
        outputs.iter().map(|s| s.to_string()).collect(),
    )
}

#[test]
fn last_use_of_two_parameters_is_a_swap() {
    // x lies one below the top: it is moved with swap; y is on top already.
    assert_eq!(
        translate_quotation(&params(&["x", "y"]), &[w("x"), w("y"), w("+")]),
        Ok(vec![w("swap"), w("+")])
    );
}

#[test]
fn earlier_uses_are_copied() {
    // x x * : the first use copies, the second one is the last and finds x one below.
    assert_eq!(
        translate_quotation(&params(&["x"]), &[w("x"), w("x"), w("*")]),
        Ok(vec![n(0), w("pick"), w("swap"), w("*")])
    );
}

#[test]
fn consuming_access_by_depth() {
    // Depth 0: nothing. Depth 1: swap. Depth 2: rot. Depth 3 and more: roll.
    assert_eq!(translate_quotation(&params(&["a"]), &[w("a")]), Ok(vec![]));
    assert_eq!(translate_quotation(&params(&["a", "b"]), &[w("a")]), Ok(vec![w("swap")]));
    assert_eq!(translate_quotation(&params(&["a", "b", "c"]), &[w("a")]), Ok(vec![w("rot")]));
    assert_eq!(
        translate_quotation(&params(&["a", "b", "c", "d"]), &[w("a")]),
        Ok(vec![n(3), w("roll")])
    );
    assert_eq!(
        translate_quotation(&params(&["a", "b", "c", "d", "e"]), &[w("a"), w("drop")]),
        Ok(vec![n(4), w("roll"), w("drop")])
    );
}

#[test]
fn consuming_lowers_what_lay_deeper() {
    // b is taken from depth 1 first; a, which lay at depth 2, is then at depth 1.
    assert_eq!(
        translate_quotation(&params(&["a", "b", "c"]), &[w("b"), w("a")]),
        Ok(vec![w("swap"), w("swap")])
    );
}

#[test]
fn literals_push_and_deepen_parameters() {
    assert_eq!(
        translate_quotation(&params(&["x"]), &[n(5), w("x"), w("-")]),
        Ok(vec![n(5), w("swap"), w("-")])
    );
    assert_eq!(
        translate_quotation(
            &params(&["x"]),
            &[Expr::String("s".to_string()), Expr::Boolean(true), w("x")]
        ),
        Ok(vec![Expr::String("s".to_string()), Expr::Boolean(true), w("rot")])
    );
}

#[test]
fn depth_three_example_reaches_above_the_stack() {
    // After a, b and + the stack holds one value less than at entry, and c,
    // which was on top, is looked for above the top.
    assert_eq!(
        translate_quotation(
            &params(&["a", "b", "c"]),
            &[w("a"), w("b"), w("+"), w("c"), w("*")]
        ),
        failure(TranslationFailure::NegativeDepth)
    );
}

#[test]
fn negative_depth_is_rejected() {
    assert_eq!(
        translate_quotation(&params(&["x"]), &[w("drop"), w("x")]),
        failure(TranslationFailure::NegativeDepth)
    );
    assert_eq!(
        translate_quotation(&params(&["x", "y"]), &[w("drop"), w("drop"), w("drop"), w("x")]),
        failure(TranslationFailure::NegativeDepth)
    );
}

#[test]
fn unknown_words_are_rejected() {
    assert_eq!(
        translate_quotation(&params(&["x"]), &[w("x"), w("frobnicate")]),
        failure(TranslationFailure::UnknownWordEffect)
    );
    // pick and roll have no fixed effect.
    assert_eq!(
        translate_quotation(&[], &[n(0), w("pick")]),
        failure(TranslationFailure::UnknownWordEffect)
    );
}

#[test]
fn consumed_parameter_cannot_be_used_again() {
    // In a pipeline both sides count as the expression of the pipeline: the
    // left x is taken for the last use, and the right one comes too late.
    let pipeline = Expr::Pipeline(Box::new(w("x")), Box::new(w("x")));
    assert_eq!(
        translate_quotation(&params(&["x"]), &[w("dup"), pipeline]),
        failure(TranslationFailure::ParamAlreadyConsumed)
    );
}

#[test]
fn unsupported_expressions_are_rejected() {
    assert_eq!(
        translate_quotation(&params(&["x"]), &[Expr::Nil]),
        failure(TranslationFailure::UnsupportedExpression)
    );
    assert_eq!(
        translate_quotation(&[], &[Expr::Import("m".to_string())]),
        failure(TranslationFailure::UnsupportedExpression)
    );
}

#[test]
fn nested_quotation_is_translated_by_itself() {
    let inner = Expr::Quotation(params(&["a", "b"]), vec![w("a"), w("b"), w("+")]);
    assert_eq!(
        translate_quotation(&params(&["x"]), &[inner, w("x")]),
        Ok(vec![Expr::Quotation(vec![], vec![w("swap"), w("+")]), w("swap")])
    );
    // What the quotation refers to outside of itself is no parameter of it.
    let capturing = Expr::Quotation(vec![], vec![w("x")]);
    assert_eq!(
        translate_quotation(&params(&["x"]), &[capturing]),
        failure(TranslationFailure::UnknownWordEffect)
    );
}

#[test]
fn of_a_name_that_occurs_twice_the_first_counts() {
    // x is at depth 1, where the first x lies.
    assert_eq!(translate_quotation(&params(&["x", "x"]), &[w("x")]), Ok(vec![w("swap")]));
}

#[test]
fn translator_can_be_used_again() {
    let mut translator = StackerTranslator::new();
    // y is on top; once it is taken, x counts as being on top.
    assert_eq!(translator.translate(&params(&["x", "y"]), &[w("y"), w("x")]), Ok(vec![]));
    assert_eq!(translator.translate(&params(&["z"]), &[w("z"), w("not")]), Ok(vec![w("not")]));
}

#[test]
fn peephole_rules() {
    let pick = |k: i32| vec![n(k), w("pick")];
    let seq = |parts: Vec<Vec<Expr>>| parts.into_iter().flatten().collect::<Vec<Expr>>();
    // 1 pick 1 pick <binop> -> <binop>
    assert_eq!(peephole_optimize(&seq(vec![pick(1), pick(1), vec![w("+")]])), vec![w("+")]);
    // 0 pick 1 pick <binop> -> swap <binop>
    assert_eq!(
        peephole_optimize(&seq(vec![pick(0), pick(1), vec![w("<=")]])),
        vec![w("swap"), w("<=")]
    );
    // 0 pick <unop> -> <unop>
    assert_eq!(peephole_optimize(&seq(vec![pick(0), vec![w("neg")]])), vec![w("neg")]);
    // 1 pick drop -> nip
    assert_eq!(peephole_optimize(&seq(vec![pick(1), vec![w("drop")]])), vec![w("nip")]);
    // 0 pick drop -> drop
    assert_eq!(peephole_optimize(&seq(vec![pick(0), vec![w("drop")]])), vec![w("drop")]);
    // a trailing 1 pick -> swap drop
    assert_eq!(
        peephole_optimize(&seq(vec![vec![w("dup")], pick(1)])),
        vec![w("dup"), w("swap"), w("drop")]
    );
    // a trailing 0 pick is dropped
    assert_eq!(peephole_optimize(&seq(vec![vec![w("dup")], pick(0)])), vec![w("dup")]);
    // nothing else changes
    let plain = vec![n(2), w("pick"), w("+"), n(1), w("roll")];
    assert_eq!(peephole_optimize(&plain), plain);
    assert_eq!(peephole_optimize(&[]), vec![]);
}

#[test]
fn peephole_is_a_fixpoint_where_no_window_is_left() {
    let code = vec![n(1), w("pick"), n(1), w("pick"), w("*"), n(0), w("pick"), w("drop")];
    let once = peephole_optimize(&code);
    assert_eq!(once, vec![w("*"), w("drop")]);
    assert_eq!(peephole_optimize(&once), once);
}

#[test]
fn peephole_can_leave_a_window_behind() {
    let code = vec![n(0), w("pick"), n(0), w("pick"), w("not")];
    let once = peephole_optimize(&code);
    assert_eq!(once, vec![n(0), w("pick"), w("not")]);
    assert_eq!(peephole_optimize(&once), vec![w("not")]);
}

#[test]
fn expression_tests() {
    assert!(is_expr_number(&n(1), 1));
    assert!(!is_expr_number(&n(1), 0));
    assert!(!is_expr_number(&w("1"), 1));
    assert!(is_expr_symbol(&w("pick"), "pick"));
    assert!(!is_expr_symbol(&w("pick"), "roll"));
    assert!(!is_expr_symbol(&Expr::String("pick".to_string()), "pick"));
    for op in ["+", "-", "*", "/", "mod", "==", "!=", "<", ">", "<=", ">=", "and", "or"] {
        assert!(is_binary_op(&w(op)));
        assert!(!is_unary_op(&w(op)));
    }
    for op in ["not", "sqrt", "sin", "cos", "tan", "abs", "neg"] {
        assert!(is_unary_op(&w(op)));
        assert!(!is_binary_op(&w(op)));
    }
    assert!(!is_binary_op(&w("dup")));
    assert!(!is_binary_op(&n(1)));
}

#[test]
fn word_effects() {
    assert_eq!(get_word_effect("dup"), Some(effect(&["a"], &["a", "a"])));
    assert_eq!(get_word_effect("rot"), Some(effect(&["a", "b", "c"], &["b", "c", "a"])));
    assert_eq!(get_word_effect("+"), Some(effect(&["a", "b"], &["sum"])));
    assert_eq!(get_word_effect("add"), Some(effect(&["a", "b"], &["sum"])));
    assert_eq!(get_word_effect("tri"), get_word_effect("tri"));
    assert_eq!(
        get_word_effect("bi*"),
        Some(effect(&["x", "y", "p", "q"], &["p(x)", "q(y)"]))
    );
    assert_eq!(get_word_effect("42"), Some(effect(&[], &["n"])));
    assert_eq!(get_word_effect("-7"), Some(effect(&[], &["n"])));
    assert_eq!(get_word_effect("\"text\""), Some(effect(&[], &["str"])));
    assert_eq!(get_word_effect("pick"), None);
    assert_eq!(get_word_effect("roll"), None);
    assert_eq!(get_word_effect("frobnicate"), None);
    assert_eq!(get_word_effect("99999999999"), None);
    assert_eq!(get_word_effect("drop").unwrap().stack_depth_change(), -1);
}

#[test]
fn stack_effect_declarations() {
    assert_eq!(parse_stack_effect("( a b -- c )"), Ok(effect(&["a", "b"], &["c"])));
    assert_eq!(parse_stack_effect("  (a -- a a)\n"), Ok(effect(&["a"], &["a", "a"])));
    assert_eq!(parse_stack_effect("(--)"), Ok(effect(&[], &[])));
    assert_eq!(parse_stack_effect("( x -- )"), Ok(effect(&["x"], &[])));
    assert_eq!(parse_stack_effect("(a --- b)"), Ok(effect(&["a"], &["-", "b"])));
    let parentheses = Err(EvaluatorError::ParseError(ParseFailure::MissingParentheses));
    assert_eq!(parse_stack_effect("a -- b"), parentheses);
    assert_eq!(parse_stack_effect("( a -- b"), parentheses);
    assert_eq!(parse_stack_effect("("), parentheses);
    assert_eq!(parse_stack_effect(""), parentheses);
    let separator = Err(EvaluatorError::ParseError(ParseFailure::MissingSeparator));
    assert_eq!(parse_stack_effect("( a b )"), separator);
    assert_eq!(parse_stack_effect("( a -- b -- c )"), separator);
    assert_eq!(parse_stack_effect("( a ---- b )"), separator);
}

#[test]
fn two_parameters_moved_from_the_right() {
    // [x y -> 5 y + x]: y is moved after one value lies above it, then x.
    let body = [n(5), w("y"), w("+"), w("x")];
    let code = translate_quotation(&params(&["x", "y"]), &body).unwrap();
    assert_eq!(code, vec![n(5), w("swap"), w("+"), w("swap")]);

    let mut translated = borf::Evaluator::new();
    translated.push(borf::Value::Number(3));
    translated.push(borf::Value::Number(4));
    for expr in &code {
        if let Some(value) = translated.eval_expr(expr).unwrap() {
            translated.push(value);
        }
    }

    let mut substituted = borf::Evaluator::new();
    substituted.env.set("x", borf::Value::Number(3));
    substituted.env.set("y", borf::Value::Number(4));
    for expr in &body {
        if let Some(value) = substituted.eval_expr(expr).unwrap() {
            substituted.push(value);
        }
    }
    assert_eq!(translated.stack, vec![borf::Value::Number(9), borf::Value::Number(3)]);
    assert_eq!(translated.stack, substituted.stack);
}

#[test]
fn two_parameters_moved_from_the_left_change_places() {
    // [x y -> x y -] on 3 4: the code leaves 4 - 3 where the body asks for 3 - 4.
    let body = [w("x"), w("y"), w("-")];
    let code = translate_quotation(&params(&["x", "y"]), &body).unwrap();
    assert_eq!(code, vec![w("swap"), w("-")]);
    let mut translated = borf::Evaluator::new();
    translated.push(borf::Value::Number(3));
    translated.push(borf::Value::Number(4));
    for expr in &code {
        if let Some(value) = translated.eval_expr(expr).unwrap() {
            translated.push(value);
        }
    }
    assert_eq!(translated.stack, vec![borf::Value::Number(1)]);
}
