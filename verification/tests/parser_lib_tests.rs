use borf::errors::{EvaluatorError, ParseFailure};
use borf::parser::Parser;
use borf::types::{Expr, Param, Type};

fn tokens(input: &str) -> Vec<String> {
    Parser::tokenize(input)
}

fn parse(input: &str) -> Result<Expr, EvaluatorError> {
    Parser::new(input).parse()
}

fn w(name: &str) -> Expr {
    Expr::Symbol(name.to_string())
}

fn named(name: &str) -> Param {
    Param { name: name.to_string(), type_annotation: None }
}

fn typed(name: &str, of_type: &str) -> Param {
    Param { name: name.to_string(), type_annotation: Some(Type::Simple(of_type.to_string())) }
}

#[test]
fn tokens_are_cut_at_white_space_and_special_characters() {
    assert_eq!(tokens("3 4 add"), vec!["3", "4", "add"]);
    assert_eq!(tokens("  a\tb\nc\r\n"), vec!["a", "b", "c"]);
    assert_eq!(tokens("[x,y]"), vec!["[", "x", ",", "y", "]"]);
    assert_eq!(tokens("{a}(b)"), vec!["{", "a", "}", "(", "b", ")"]);
    assert_eq!(tokens("a|b>c=d!e'f$g:h"), vec![
        "a", "|", "b", ">", "c", "=", "d", "!", "e", "'", "f", "$", "g", ":", "h"
    ]);
    assert_eq!(tokens(""), Vec::<String>::new());
    assert_eq!(tokens("   "), Vec::<String>::new());
}

#[test]
fn tokens_of_two_characters() {
    assert_eq!(tokens("a |> b"), vec!["a", "|>", "b"]);
    assert_eq!(tokens("a->b"), vec!["a", "->", "b"]);
    assert_eq!(tokens("a=>b"), vec!["a", "=>", "b"]);
    assert_eq!(tokens("a::b"), vec!["a", "::", "b"]);
    assert_eq!(tokens("a - b"), vec!["a", "-", "b"]);
    assert_eq!(tokens("-5"), vec!["-", "5"]);
}

#[test]
fn texts_keep_what_is_between_the_quotes() {
    assert_eq!(tokens("\"hello world\" x"), vec!["\"hello world\"", "x"]);
    assert_eq!(tokens("\"a [b] -- c\""), vec!["\"a [b] -- c\""]);
    assert_eq!(tokens("ab\"cd\"ef"), vec!["ab\"cd\"", "ef"]);
    // A text that is not closed goes on to the end.
    assert_eq!(tokens("x \"open"), vec!["x", "\"open"]);
}

#[test]
fn comments_go_to_the_end_of_the_line() {
    assert_eq!(tokens("a -- b c\nd"), vec!["a", "d"]);
    assert_eq!(tokens("a-- b"), vec!["a"]);
    assert_eq!(tokens("-- only a comment"), Vec::<String>::new());
    assert_eq!(tokens("a --\n--\nb"), vec!["a", "b"]);
}

#[test]
fn atoms() {
    assert_eq!(parse("42"), Ok(Expr::Number(42)));
    assert_eq!(parse("+7"), Ok(Expr::Number(7)));
    assert_eq!(parse("2147483647"), Ok(Expr::Number(i32::MAX)));
    assert_eq!(parse("2147483648"), Ok(w("2147483648")));
    assert_eq!(parse("\"hi there\""), Ok(Expr::String("hi there".to_string())));
    assert_eq!(parse("\"\""), Ok(Expr::String(String::new())));
    assert_eq!(parse("dup"), Ok(w("dup")));
    assert_eq!(parse("\"open"), Ok(w("\"open")));
}

#[test]
fn several_expressions_are_a_sequence() {
    assert_eq!(
        parse("3 4 add"),
        Ok(Expr::Sequence(vec![Expr::Number(3), Expr::Number(4), w("add")]))
    );
    assert_eq!(parse("-5"), Ok(Expr::Sequence(vec![w("-"), Expr::Number(5)])));
}

#[test]
fn quotations() {
    assert_eq!(parse("[]"), Ok(Expr::Quotation(vec![], vec![])));
    assert_eq!(
        parse("[dup mul]"),
        Ok(Expr::Quotation(vec![], vec![w("dup"), w("mul")]))
    );
    assert_eq!(
        parse("[x, y -> x y add]"),
        Ok(Expr::Quotation(vec![named("x"), named("y")], vec![w("x"), w("y"), w("add")]))
    );
    assert_eq!(
        parse("[x y -> x]"),
        Ok(Expr::Quotation(vec![named("x"), named("y")], vec![w("x")]))
    );
    assert_eq!(
        parse("[x: Num, y -> x]"),
        Ok(Expr::Quotation(vec![typed("x", "Num"), named("y")], vec![w("x")]))
    );
    assert_eq!(
        parse("[x -> x] : Num"),
        Ok(Expr::TypedQuotation(
            vec![named("x")],
            vec![w("x")],
            Box::new(Type::Simple("Num".to_string()))
        ))
    );
    assert_eq!(
        parse("[1 [2] 3]"),
        Ok(Expr::Quotation(
            vec![],
            vec![Expr::Number(1), Expr::Quotation(vec![], vec![Expr::Number(2)]), Expr::Number(3)]
        ))
    );
    // An arrow before the first closing bracket is the arrow of the outer
    // quotation, whatever stands before it.
    assert_eq!(
        parse("[ [x -> x] ]"),
        Ok(Expr::Sequence(vec![
            Expr::Quotation(vec![named("["), named("x")], vec![w("x")]),
            w("]"),
        ]))
    );
    assert_eq!(
        parse("[ [x] y -> x ]"),
        Ok(Expr::Quotation(
            vec![],
            vec![Expr::Quotation(vec![], vec![w("x")]), w("y"), w("->"), w("x")]
        ))
    );
}

#[test]
fn parse_errors() {
    assert_eq!(parse(""), Err(EvaluatorError::ParseError(ParseFailure::EmptyInput)));
    assert_eq!(parse("-- nothing"), Err(EvaluatorError::ParseError(ParseFailure::EmptyInput)));
    assert_eq!(parse("[1 2"), Err(EvaluatorError::ParseError(ParseFailure::UnclosedQuotation)));
    assert_eq!(parse("[x ->"), Err(EvaluatorError::ParseError(ParseFailure::UnclosedQuotation)));
    assert_eq!(parse("1 [ [ 2 ]"), Err(EvaluatorError::ParseError(ParseFailure::UnclosedQuotation)));
    let mut parser = Parser::new("x");
    assert_eq!(parser.parse_expr(), Ok(w("x")));
    assert_eq!(parser.parse_expr(), Err(EvaluatorError::ParseError(ParseFailure::UnexpectedEnd)));
}
