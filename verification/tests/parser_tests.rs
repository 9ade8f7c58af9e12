use std::collections::HashMap;

use borf::stack_effects::StackEffect;

#[test]
fn parser_tests_test_stack_effect_depth_change() {
    let effect1 = StackEffect::new(vec!["a".to_string()], vec!["b".to_string()]);
    assert_eq!(effect1.stack_depth_change(), 0);

    let effect2 = StackEffect::new(vec!["a".to_string(), "b".to_string()], vec!["c".to_string()]);
    assert_eq!(effect2.stack_depth_change(), -1);

    let effect3 = StackEffect::new(vec!["a".to_string()], vec!["b".to_string(), "c".to_string()]);
    assert_eq!(effect3.stack_depth_change(), 1);

    let effect4 = StackEffect::new(vec![], vec!["a".to_string()]);
    assert_eq!(effect4.stack_depth_change(), 1);

    let effect5 = StackEffect::new(vec!["a".to_string()], vec![]);
    assert_eq!(effect5.stack_depth_change(), -1);
}

// Expressions as the simulation below writes them.
#[allow(dead_code)]
#[derive(Debug, PartialEq)]
enum SketchExpr {
    Number(i32),
    String(String),
    Symbol(String),
    Boolean(bool),
    Nil,
    List(Vec<SketchExpr>),
    Record(HashMap<String, SketchExpr>),
    Pick(i32),
}

#[test]
fn parser_tests_test_basic_stacker_simulation() {
    // [x y -> x y +] with every reference copied: [1 pick 1 pick +]
    let expected_output = vec![
        SketchExpr::Number(1),
        SketchExpr::Pick(0),
        SketchExpr::Number(1),
        SketchExpr::Pick(0),
        SketchExpr::Symbol("+".to_string()),
    ];

    assert_eq!(expected_output.len(), 5);
}

// Whether `s` can be a symbol of the language.
fn valid_symbol(s: &str) -> bool {
    if s.is_empty() {
        return false;
    }

    let first_char = s.chars().next().unwrap();
    if !first_char.is_alphabetic() && first_char != '_' {
        return false;
    }

    for c in s.chars() {
        if !c.is_alphanumeric() && c != '_' && c != '?' && c != '!' && c != '\'' && c != '$' {
            return false;
        }
    }

    true
}

#[test]
fn parser_tests_test_grammar_simulation() {
    let symbols = vec!["foo", "bar123", "hello_world", "x", "value!", "maybe?"];
    for sym in symbols {
        assert!(valid_symbol(sym));
    }

    let invalid_symbols = vec!["123abc", "$hello", ""];
    for sym in invalid_symbols {
        assert!(!valid_symbol(sym));
    }
}
