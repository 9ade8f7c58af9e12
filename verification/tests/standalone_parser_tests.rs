use std::collections::HashMap;

use borf::stack_effects::StackEffect;

#[test]
fn standalone_parser_tests_test_stack_effect_depth_change() {
    let effect1 = StackEffect::new(vec!["a".to_string()], vec!["b".to_string()]);
    assert_eq!(effect1.stack_depth_change(), 0);

    let effect2 = StackEffect::new(vec!["a".to_string(), "b".to_string()], vec!["c".to_string()]);
    assert_eq!(effect2.stack_depth_change(), -1);

    let effect3 = StackEffect::new(vec!["a".to_string()], vec!["b".to_string(), "c".to_string()]);
    assert_eq!(effect3.stack_depth_change(), 1);

    let effect4 = StackEffect::new(vec![], vec!["a".to_string()]);
    assert_eq!(effect4.stack_depth_change(), 1);

    let effect5 = StackEffect::new(vec!["a".to_string()], vec![]);
    assert_eq!(effect5.stack_depth_change(), -1);
}

// Expressions as the simulation below writes them.
#[allow(dead_code)]
#[derive(Debug, PartialEq)]
enum PlainExpr {
    Number(i32),
    String(String),
    Symbol(String),
    Boolean(bool),
    Nil,
    List(Vec<PlainExpr>),
    Record(HashMap<String, PlainExpr>),
    Pick(i32),
}

#[test]
fn standalone_parser_tests_test_basic_stacker_simulation() {
    // [x y -> x y +] with every reference copied: [1 pick 1 pick +]
    let expected_output = vec![
        PlainExpr::Number(1),
        PlainExpr::Pick(0),
        PlainExpr::Number(1),
        PlainExpr::Pick(0),
        PlainExpr::Symbol("+".to_string()),
    ];

    assert_eq!(expected_output.len(), 5);
}

// Whether `s` can be a symbol of the language.
fn symbol_ok(s: &str) -> bool {
    if s.is_empty() {
        return false;
    }

    let first_char = s.chars().next().unwrap();
    if !first_char.is_alphabetic() && first_char != '_' {
        return false;
    }

    for c in s.chars() {
        if !c.is_alphanumeric() && c != '_' && c != '?' && c != '!' && c != '\'' && c != '$' {
            return false;
        }
    }

    true
}

#[test]
fn standalone_parser_tests_test_grammar_simulation() {
    let symbols = vec!["foo", "bar123", "hello_world", "x", "value!", "maybe?"];
    for sym in symbols {
        assert!(symbol_ok(sym));
    }

    let invalid_symbols = vec!["123abc", "$hello", ""];
    for sym in invalid_symbols {
        assert!(!symbol_ok(sym));
    }
}

#[derive(Debug, Clone)]
struct NamedParam {
    name: String,
}

// The translation that copies every reference with `pick` and consumes none.
struct CopyingTranslator {
    param_depths: HashMap<String, usize>,
    current_stack_depth_increase: isize,
    output: Vec<PlainExpr>,
}

impl CopyingTranslator {
    fn new() -> Self {
        CopyingTranslator {
            param_depths: HashMap::new(),
            current_stack_depth_increase: 0,
            output: Vec::new(),
        }
    }

    fn translate(&mut self, params: &[NamedParam], body: &[PlainExpr]) -> Vec<PlainExpr> {
        self.param_depths.clear();
        self.current_stack_depth_increase = 0;
        self.output.clear();

        for (i, param) in params.iter().enumerate().rev() {
            self.param_depths.insert(param.name.clone(), i);
        }

        for expr in body {
            self.translate_expr(expr);
        }

        std::mem::take(&mut self.output)
    }

    fn translate_expr(&mut self, expr: &PlainExpr) {
        match expr {
            PlainExpr::Number(n) => {
                self.output.push(PlainExpr::Number(*n));
                self.current_stack_depth_increase += 1;
            }
            PlainExpr::String(s) => {
                self.output.push(PlainExpr::String(s.clone()));
                self.current_stack_depth_increase += 1;
            }
            PlainExpr::Symbol(s) => {
                if let Some(&initial_depth) = self.param_depths.get(s) {
                    let actual_depth = initial_depth as isize + self.current_stack_depth_increase;
                    if actual_depth >= 0 {
                        self.output.push(PlainExpr::Number(actual_depth as i32));
                        self.output.push(PlainExpr::Pick(0));
                        self.current_stack_depth_increase += 1;
                    }
                } else {
                    self.output.push(PlainExpr::Symbol(s.clone()));

                    if s == "+" || s == "-" || s == "*" || s == "/" {
                        self.current_stack_depth_increase -= 1;
                    }
                }
            }
            _ => {}
        }
    }
}

#[test]
fn test_stacker_algorithm() {
    // [x y -> x y +]
    let params = vec![
        NamedParam { name: "x".to_string() },
        NamedParam { name: "y".to_string() },
    ];

    let body = vec![
        PlainExpr::Symbol("x".to_string()),
        PlainExpr::Symbol("y".to_string()),
        PlainExpr::Symbol("+".to_string()),
    ];

    let mut translator = CopyingTranslator::new();
    let result = translator.translate(&params, &body);

    // [1 pick 1 pick +]
    let expected = vec![
        PlainExpr::Number(1),
        PlainExpr::Pick(0),
        PlainExpr::Number(1),
        PlainExpr::Pick(0),
        PlainExpr::Symbol("+".to_string()),
    ];

    assert_eq!(result.len(), expected.len());
}

#[test]
fn test_complex_stacker_algorithm() {
    // [a b c -> a b + c *]
    let params = vec![
        NamedParam { name: "a".to_string() },
        NamedParam { name: "b".to_string() },
        NamedParam { name: "c".to_string() },
    ];

    let body = vec![
        PlainExpr::Symbol("a".to_string()),
        PlainExpr::Symbol("b".to_string()),
        PlainExpr::Symbol("+".to_string()),
        PlainExpr::Symbol("c".to_string()),
        PlainExpr::Symbol("*".to_string()),
    ];

    let mut translator = CopyingTranslator::new();
    let result = translator.translate(&params, &body);

    // [2 pick 2 pick + 2 pick *]
    let expected = vec![
        PlainExpr::Number(2),
        PlainExpr::Pick(0),
        PlainExpr::Number(2),
        PlainExpr::Pick(0),
        PlainExpr::Symbol("+".to_string()),
        PlainExpr::Number(2),
        PlainExpr::Pick(0),
        PlainExpr::Symbol("*".to_string()),
    ];

    assert_eq!(result.len(), expected.len());
}
