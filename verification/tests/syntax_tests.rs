use borf::diagnostics::BorfError;
use borf::errors::{ParseFailure, TranslationFailure};
use borf::stack_effects::{translate_quotation, StackEffect};
use borf::syntax::{
    are_quotations, combine, is_quotation, make_quotation, parse_atom, parse_expression,
    parse_params, parse_pattern, parse_program, Operator, Rule, SyntaxError, SyntaxNode,
};
use borf::types::{Expr, Param, Pattern};
use miette::SourceSpan;

fn leaf(rule: Rule, text: &str) -> SyntaxNode {
    SyntaxNode::new(rule, text, 0, text.len(), Vec::new())
}

fn node(rule: Rule, text: &str, inner: Vec<SyntaxNode>) -> SyntaxNode {
    SyntaxNode::new(rule, text, 0, text.len(), inner)
}

fn at(mut n: SyntaxNode, start: usize, end: usize) -> SyntaxNode {
    n.start = start;
    n.end = end;
    n
}

fn atom(inner: SyntaxNode) -> SyntaxNode {
    let text = inner.text.clone();
    node(Rule::Atom, &text, vec![inner])
}

fn number(text: &str) -> SyntaxNode {
    atom(leaf(Rule::Number, text))
}

fn symbol(text: &str) -> SyntaxNode {
    atom(leaf(Rule::Symbol, text))
}

fn op(text: &str) -> SyntaxNode {
    node(Rule::InfixOp, text, vec![leaf(Rule::Reserved, text)])
}

fn expr(inner: Vec<SyntaxNode>) -> SyntaxNode {
    node(Rule::Expr, "", inner)
}

fn one(inner: SyntaxNode) -> SyntaxNode {
    expr(vec![inner])
}

fn fault(message: &str, help: &str, start: usize, len: usize) -> SyntaxError {
    SyntaxError::Fault { message: message.to_string(), help: help.to_string(), start, len }
}

fn w(name: &str) -> Expr {
    Expr::Symbol(name.to_string())
}

fn q(body: Vec<Expr>) -> Expr {
    Expr::Quotation(Vec::new(), body)
}

fn boxed(e: Expr) -> Box<Expr> {
    Box::new(e)
}

fn refused(message: &str, help: &str) -> Result<Expr, SyntaxError> {
    Err(fault(message, help, 3, 4))
}

#[test]
fn rules_have_the_names_of_the_grammar() {
    assert_eq!(Rule::Program.name(), "program");
    assert_eq!(Rule::TopLevelExpr.name(), "top_level_expr");
    assert_eq!(Rule::QuasiquotedExpr.name(), "quasiquoted_expr");
    assert_eq!(Rule::Whitespace.name(), "WHITESPACE");
    assert_eq!(Rule::EndOfInput.name(), "EOI");
}

#[test]
fn a_node_knows_its_place() {
    assert_eq!(at(leaf(Rule::Symbol, "dup"), 4, 7).place(), (4, 3));
    assert_eq!(at(leaf(Rule::Symbol, "dup"), 7, 4).place(), (7, 0));
}

#[test]
fn numbers_are_read_in_decimal() {
    assert_eq!(parse_atom(&number("42")), Ok(Expr::Number(42)));
    assert_eq!(parse_atom(&number("-7")), Ok(Expr::Number(-7)));
    assert_eq!(parse_atom(&number("2147483647")), Ok(Expr::Number(i32::MAX)));
    assert_eq!(parse_atom(&number("-2147483648")), Ok(Expr::Number(i32::MIN)));
    assert_eq!(
        parse_atom(&at(leaf(Rule::Number, "2147483648"), 5, 15)),
        Err(fault(
            "Invalid integer: 2147483648",
            "Check that the number is properly formatted",
            5,
            10
        ))
    );
    assert_eq!(
        parse_atom(&leaf(Rule::Number, "12a")),
        Err(fault("Invalid integer: 12a", "Check that the number is properly formatted", 0, 3))
    );
}

#[test]
fn a_number_with_a_point_is_refused() {
    assert_eq!(
        parse_atom(&leaf(Rule::Number, "3.5")),
        Err(fault("Invalid float: 3.5", "Check that the number is properly formatted", 0, 3))
    );
    assert_eq!(
        parse_pattern(&leaf(Rule::Number, "1.")),
        Err(fault("Invalid float: 1.", "Check that the number is properly formatted", 0, 2))
    );
}

#[test]
fn strings_lose_their_quotes() {
    assert_eq!(
        parse_atom(&leaf(Rule::StringLiteral, "\"hello\"")),
        Ok(Expr::String("hello".to_string()))
    );
    assert_eq!(parse_atom(&leaf(Rule::StringLiteral, "\"\"")), Ok(Expr::String(String::new())));
    assert_eq!(
        parse_atom(&leaf(Rule::StringLiteral, "\"h\u{e9}\"")),
        Ok(Expr::String("h\u{e9}".to_string()))
    );
    assert_eq!(
        parse_atom(&leaf(Rule::StringLiteral, "\"")),
        Err(fault("Incomplete rule: string_literal", "The rule lacks one of its parts", 0, 1))
    );
}

#[test]
fn symbols_and_literals_by_name() {
    assert_eq!(parse_atom(&symbol("true")), Ok(Expr::Boolean(true)));
    assert_eq!(parse_atom(&symbol("false")), Ok(Expr::Boolean(false)));
    assert_eq!(parse_atom(&symbol("nil")), Ok(Expr::Nil));
    assert_eq!(parse_atom(&symbol("dup")), Ok(w("dup")));
    assert_eq!(parse_atom(&symbol("True")), Ok(w("True")));
}

#[test]
fn an_atom_without_a_child_is_incomplete() {
    assert_eq!(
        parse_atom(&at(leaf(Rule::Atom, ""), 9, 9)),
        Err(fault("Incomplete rule: atom", "The rule lacks one of its parts", 9, 0))
    );
}

#[test]
fn a_rule_that_is_no_expression_is_refused() {
    assert_eq!(
        parse_atom(&leaf(Rule::Program, "xy")),
        Err(fault(
            "Unexpected expression rule: program",
            "This rule is not handled by the parser: program",
            0,
            2
        ))
    );
    assert_eq!(
        parse_expression(&leaf(Rule::Comment, "-- x")),
        Err(fault(
            "Unexpected expression rule: COMMENT",
            "This rule is not handled by the parser: COMMENT",
            0,
            4
        ))
    );
}

#[test]
fn operators_bind_to_the_left() {
    let tree = expr(vec![number("1"), op("|>"), symbol("inc"), op("|>"), symbol("double")]);
    assert_eq!(
        parse_expression(&tree),
        Ok(Expr::Pipeline(
            boxed(Expr::Pipeline(boxed(Expr::Number(1)), boxed(w("inc")))),
            boxed(w("double"))
        ))
    );
    assert_eq!(parse_expression(&one(number("5"))), Ok(Expr::Number(5)));
}

#[test]
fn an_expression_is_atoms_with_operators_between() {
    let incomplete = Err(fault("Incomplete rule: expr", "The rule lacks one of its parts", 0, 0));
    assert_eq!(parse_expression(&expr(vec![])), incomplete);
    assert_eq!(parse_expression(&expr(vec![number("1"), op("|>")])), incomplete);
    assert_eq!(parse_expression(&expr(vec![op("|>")])), incomplete);
    assert_eq!(parse_expression(&expr(vec![number("1"), number("2"), number("3")])), incomplete);
    let bare = node(Rule::InfixOp, "|>", vec![]);
    assert_eq!(parse_expression(&expr(vec![number("1"), bare, number("2")])), incomplete);
}

#[test]
fn what_stands_between_operators_must_be_an_atom() {
    assert_eq!(
        parse_expression(&one(at(leaf(Rule::Number, "5"), 2, 3))),
        Err(fault(
            "Expected atom, got number",
            "This shouldn't happen - internal parser error",
            2,
            1
        ))
    );
}

#[test]
fn an_unknown_operator_is_refused_at_its_place() {
    let tree = expr(vec![number("1"), at(op("??"), 2, 4), number("2")]);
    assert_eq!(
        parse_expression(&tree),
        Err(fault(
            "Unknown operator: ??",
            "Valid operators include: |>, match, if, times, loop, while, for, dip, map, filter, fold, bi, tri, etc.",
            2,
            2
        ))
    );
}

#[test]
fn operators_by_name() {
    assert_eq!(Operator::from_name("|>"), Some(Operator::Pipe));
    assert_eq!(Operator::from_name("map"), Some(Operator::MapEach));
    assert_eq!(Operator::from_name("bi*"), Some(Operator::BiStar));
    assert_eq!(Operator::from_name("bi@"), Some(Operator::BiAt));
    assert_eq!(Operator::from_name("dip2"), Some(Operator::Dip2));
    assert_eq!(Operator::from_name("cleave"), Some(Operator::Cleave));
    assert_eq!(Operator::from_name("->"), None);
    assert_eq!(Operator::from_name(""), None);
    assert_eq!(Operator::Times.help_text(), "Times loops should be in the form: n [code] times");
    assert_eq!(Operator::Pipe.help_text(), "");
}

#[test]
fn a_pipeline_hands_on_the_first_fault() {
    let left = fault("left", "", 0, 1);
    let right = fault("right", "", 2, 1);
    assert_eq!(
        combine("|>", (3, 4), Err(fault("left", "", 0, 1)), Err(fault("right", "", 2, 1))),
        Err(left)
    );
    assert_eq!(combine("|>", (3, 4), Ok(Expr::Nil), Err(fault("right", "", 2, 1))), Err(right));
    assert_eq!(
        combine("|>", (3, 4), Ok(Expr::Number(1)), Ok(w("inc"))),
        Ok(Expr::Pipeline(boxed(Expr::Number(1)), boxed(w("inc"))))
    );
}

#[test]
fn a_match_takes_its_cases_from_the_right() {
    let cases = vec![(Pattern::Wildcard, Expr::Number(1))];
    let block = Expr::Match(boxed(Expr::Nil), vec![(Pattern::Wildcard, Expr::Number(1))]);
    assert_eq!(
        combine("match", (3, 4), Ok(w("x")), Ok(block)),
        Ok(Expr::Match(boxed(w("x")), cases))
    );
    assert_eq!(
        combine("match", (3, 4), Ok(w("x")), Ok(Expr::Number(2))),
        refused(
            "Expected match block",
            "Match expressions should be in the form: value { | pattern => expr }* match"
        )
    );
    assert_eq!(
        combine("match", (3, 4), Err(fault("left", "", 0, 1)), Err(fault("right", "", 2, 1))),
        Err(fault("right", "", 2, 1))
    );
    assert_eq!(
        combine("match", (3, 4), Err(fault("left", "", 0, 1)), Ok(Expr::Match(boxed(Expr::Nil), vec![]))),
        Err(fault("left", "", 0, 1))
    );
}

#[test]
fn a_conditional_takes_its_branches_from_the_right() {
    let branches =
        Expr::If(boxed(Expr::Nil), boxed(Expr::Sequence(vec![w("a")])), boxed(Expr::Sequence(vec![])));
    assert_eq!(
        combine("if", (3, 4), Ok(Expr::Boolean(true)), Ok(branches)),
        Ok(Expr::If(
            boxed(Expr::Boolean(true)),
            boxed(Expr::Sequence(vec![w("a")])),
            boxed(Expr::Sequence(vec![]))
        ))
    );
    assert_eq!(
        combine("if", (3, 4), Ok(Expr::Boolean(true)), Ok(q(vec![]))),
        refused(
            "Expected if branches",
            "If expressions should be in the form: condition [true_branch] [false_branch] if"
        )
    );
}

#[test]
fn operators_that_take_one_quotation() {
    let code = || q(vec![w("inc")]);
    let lost = || Err(fault("lost", "", 0, 0));
    assert_eq!(
        combine("times", (3, 4), Ok(Expr::Number(5)), Ok(code())),
        Ok(Expr::Times(boxed(Expr::Number(5)), boxed(code())))
    );
    assert_eq!(combine("times", (3, 4), lost(), Ok(code())), lost());
    assert_eq!(
        combine("times", (3, 4), Ok(Expr::Number(5)), Ok(w("inc"))),
        refused(
            "Expected a quotation for times loop body",
            "Times loops should be in the form: n [code] times"
        )
    );
    assert_eq!(
        combine("times", (3, 4), Ok(Expr::Number(5)), lost()),
        refused(
            "Failed to parse 'times' loop body",
            "Times loops should be in the form: n [code] times"
        )
    );
    assert_eq!(combine("loop", (3, 4), lost(), Ok(code())), Ok(Expr::Loop(boxed(code()))));
    assert_eq!(
        combine("loop", (3, 4), Ok(Expr::Nil), Ok(Expr::Number(1))),
        refused("Expected a quotation for loop body", "Loops should be in the form: [code] loop")
    );
    assert_eq!(
        combine("loop", (3, 4), Ok(Expr::Nil), lost()),
        refused("Failed to parse 'loop' body", "Loops should be in the form: [code] loop")
    );
    assert_eq!(combine("dip", (3, 4), lost(), Ok(code())), Ok(Expr::Dip(boxed(code()))));
    assert_eq!(
        combine("dip", (3, 4), Ok(Expr::Nil), Ok(Expr::Nil)),
        refused(
            "Expected a quotation for dip",
            "Dip should be in the form: a b [Q] dip -> a Q b"
        )
    );
    assert_eq!(
        combine("dip", (3, 4), Ok(Expr::Nil), lost()),
        refused(
            "Failed to parse quotation for dip",
            "Dip should be in the form: a b [Q] dip -> a Q b"
        )
    );
    assert_eq!(combine("keep", (3, 4), Ok(Expr::Nil), Ok(code())), Ok(Expr::Keep(boxed(code()))));
    assert_eq!(
        combine("keep", (3, 4), Ok(Expr::Nil), Ok(Expr::Nil)),
        refused(
            "Expected a quotation for keep",
            "Keep should be in the form: x [Q] keep -> x Q(x)"
        )
    );
    assert_eq!(
        combine("keep", (3, 4), Ok(Expr::Nil), lost()),
        refused(
            "Failed to parse quotation for keep",
            "Keep should be in the form: x [Q] keep -> x Q(x)"
        )
    );
    assert_eq!(combine("dip2", (3, 4), Ok(Expr::Nil), Ok(code())), Ok(Expr::Dip2(boxed(code()))));
    assert_eq!(
        combine("dip2", (3, 4), Ok(Expr::Nil), Ok(Expr::Nil)),
        refused(
            "Expected a quotation for dip2",
            "Dip2 should be in the form: a b c [Q] dip2 -> a Q b c"
        )
    );
    assert_eq!(
        combine("dip2", (3, 4), Ok(Expr::Nil), lost()),
        refused(
            "Failed to parse quotation for dip2",
            "Dip2 should be in the form: a b c [Q] dip2 -> a Q b c"
        )
    );
}

#[test]
fn operators_that_take_both_sides() {
    let code = || q(vec![w("inc")]);
    let lost = || Err(fault("lost", "", 0, 0));
    assert_eq!(
        combine("while", (3, 4), Ok(code()), Ok(q(vec![]))),
        Ok(Expr::While(boxed(code()), boxed(q(vec![]))))
    );
    assert_eq!(
        combine("while", (3, 4), Ok(Expr::Boolean(true)), Ok(code())),
        refused(
            "Both condition and body must be quotations in while loop",
            "While loops should be in the form: [condition] [body] while"
        )
    );
    assert_eq!(
        combine("while", (3, 4), lost(), Ok(code())),
        refused(
            "Failed to parse 'while' loop components",
            "While loops should be in the form: [condition] [body] while"
        )
    );
    assert_eq!(
        combine("for", (3, 4), Ok(w("range")), Ok(code())),
        Ok(Expr::For(boxed(w("range")), boxed(code()), boxed(Expr::Nil)))
    );
    assert_eq!(
        combine("for", (3, 4), Ok(w("range")), Ok(w("body"))),
        refused(
            "Body must be a quotation in for loop",
            "For loops should be in the form: [range] [body] for or range [body] for"
        )
    );
    assert_eq!(
        combine("for", (3, 4), Ok(w("range")), lost()),
        refused(
            "Failed to parse 'for' loop components",
            "For loops should be in the form: [range] [body] for or range [body] for"
        )
    );
    assert_eq!(
        combine("map", (3, 4), Ok(w("xs")), Ok(code())),
        Ok(Expr::MapEach(boxed(w("xs")), boxed(code())))
    );
    assert_eq!(
        combine("map", (3, 4), Ok(w("xs")), Ok(w("f"))),
        refused("Expected a quotation for map", "Map should be in the form: sequence [Q] map")
    );
    assert_eq!(
        combine("map", (3, 4), lost(), Ok(code())),
        refused(
            "Failed to parse components for map",
            "Map should be in the form: sequence [Q] map"
        )
    );
    assert_eq!(
        combine("filter", (3, 4), Ok(w("xs")), Ok(code())),
        Ok(Expr::Filter(boxed(w("xs")), boxed(code())))
    );
    assert_eq!(
        combine("filter", (3, 4), Ok(w("xs")), Ok(w("p"))),
        refused(
            "Expected a quotation for filter",
            "Filter should be in the form: sequence [P] filter"
        )
    );
    assert_eq!(
        combine("filter", (3, 4), Ok(w("xs")), lost()),
        refused(
            "Failed to parse components for filter",
            "Filter should be in the form: sequence [P] filter"
        )
    );
}

#[test]
fn operators_that_take_a_depth() {
    let lost = || Err(fault("lost", "", 0, 0));
    assert_eq!(
        combine("nip", (3, 4), Ok(w("a")), Ok(Expr::Number(1))),
        Ok(Expr::Nip(boxed(Expr::Number(1))))
    );
    assert_eq!(
        combine("tuck", (3, 4), Ok(w("a")), Ok(Expr::Number(1))),
        Ok(Expr::Tuck(boxed(Expr::Number(1))))
    );
    assert_eq!(
        combine("pick", (3, 4), Ok(w("a")), Ok(Expr::Number(2))),
        Ok(Expr::Pick(boxed(Expr::Number(2))))
    );
    assert_eq!(
        combine("roll", (3, 4), Ok(w("a")), Ok(Expr::Number(2))),
        Ok(Expr::Roll(boxed(Expr::Number(2))))
    );
    assert_eq!(
        combine("nip", (3, 4), lost(), Ok(Expr::Number(1))),
        refused("Failed to parse components for nip", "Nip should be in the form: a b n nip")
    );
    assert_eq!(
        combine("tuck", (3, 4), Ok(w("a")), lost()),
        refused(
            "Failed to parse components for tuck",
            "Tuck should be in the form: a b n tuck"
        )
    );
    assert_eq!(
        combine("pick", (3, 4), lost(), lost()),
        refused(
            "Failed to parse components for pick",
            "Pick should be in the form: ... items n pick"
        )
    );
    assert_eq!(
        combine("roll", (3, 4), lost(), Ok(Expr::Number(1))),
        refused(
            "Failed to parse components for roll",
            "Roll should be in the form: ... items n roll"
        )
    );
}

#[test]
fn a_fold_takes_a_sequence_and_maybe_a_start() {
    let code = || q(vec![w("add")]);
    let lost = || Err(fault("lost", "", 0, 0));
    let help = "Fold should be in the form: sequence init [F] fold";
    assert_eq!(
        combine("fold", (3, 4), Ok(Expr::Tuple(vec![w("xs"), Expr::Number(0)])), Ok(code())),
        Ok(Expr::Fold(boxed(w("xs")), boxed(Expr::Number(0)), boxed(code())))
    );
    assert_eq!(
        combine("fold", (3, 4), Ok(w("xs")), Ok(code())),
        Ok(Expr::Fold(boxed(w("xs")), boxed(Expr::Nil), boxed(code())))
    );
    assert_eq!(
        combine("fold", (3, 4), Ok(Expr::Tuple(vec![w("xs")])), Ok(code())),
        refused("Expected sequence and initial value for fold", help)
    );
    assert_eq!(
        combine("fold", (3, 4), lost(), Ok(code())),
        refused("Failed to parse sequence for fold", help)
    );
    assert_eq!(
        combine("fold", (3, 4), lost(), Ok(w("f"))),
        refused("Expected a quotation for fold", help)
    );
    assert_eq!(
        combine("fold", (3, 4), Ok(w("xs")), lost()),
        refused("Failed to parse components for fold", help)
    );
}

#[test]
fn operators_that_take_a_tuple_of_quotations() {
    let p = || q(vec![w("inc")]);
    let r = || q(vec![w("dec")]);
    let lost = || Err(fault("lost", "", 0, 0));
    let bi = "Bi should be in the form: x [P] [Q] bi";
    assert_eq!(
        combine("bi", (3, 4), Ok(w("x")), Ok(Expr::Tuple(vec![p(), r()]))),
        Ok(Expr::Bi(boxed(w("x")), boxed(p()), boxed(r())))
    );
    assert_eq!(
        combine("bi", (3, 4), Ok(w("x")), Ok(Expr::Tuple(vec![p(), w("f")]))),
        refused("Expected two quotations for bi", bi)
    );
    assert_eq!(
        combine("bi", (3, 4), Ok(w("x")), Ok(Expr::Tuple(vec![p()]))),
        refused("Expected exactly two quotations for bi", bi)
    );
    assert_eq!(
        combine("bi", (3, 4), Ok(w("x")), Ok(p())),
        refused("Expected tuple of quotations for bi", bi)
    );
    assert_eq!(
        combine("bi", (3, 4), lost(), Ok(p())),
        refused("Failed to parse components for bi", bi)
    );
    let tri = "Tri should be in the form: x [P] [Q] [R] tri";
    assert_eq!(
        combine("tri", (3, 4), Ok(w("x")), Ok(Expr::Tuple(vec![p(), r(), q(vec![])]))),
        Ok(Expr::Tri(boxed(w("x")), boxed(p()), boxed(r()), boxed(q(vec![]))))
    );
    assert_eq!(
        combine("tri", (3, 4), Ok(w("x")), Ok(Expr::Tuple(vec![p(), r(), w("f")]))),
        refused("Expected three quotations for tri", tri)
    );
    assert_eq!(
        combine("tri", (3, 4), Ok(w("x")), Ok(Expr::Tuple(vec![p(), r()]))),
        refused("Expected exactly three quotations for tri", tri)
    );
    assert_eq!(
        combine("tri", (3, 4), Ok(w("x")), Ok(w("f"))),
        refused("Expected tuple of quotations for tri", tri)
    );
    assert_eq!(
        combine("tri", (3, 4), Ok(w("x")), lost()),
        refused("Failed to parse components for tri", tri)
    );
    let cleave = "Cleave should be in the form: x [P] [Q] [R] ... cleave";
    assert_eq!(
        combine("cleave", (3, 4), Ok(w("x")), Ok(Expr::Tuple(vec![p(), r(), p(), r()]))),
        Ok(Expr::Cleave(boxed(w("x")), vec![p(), r(), p(), r()]))
    );
    assert_eq!(
        combine("cleave", (3, 4), Ok(w("x")), Ok(Expr::Tuple(vec![]))),
        Ok(Expr::Cleave(boxed(w("x")), vec![]))
    );
    assert_eq!(
        combine("cleave", (3, 4), Ok(w("x")), Ok(Expr::Tuple(vec![p(), w("f")]))),
        refused("Expected all elements to be quotations for cleave", cleave)
    );
    assert_eq!(
        combine("cleave", (3, 4), Ok(w("x")), Ok(p())),
        refused("Expected tuple of quotations for cleave", cleave)
    );
    assert_eq!(
        combine("cleave", (3, 4), lost(), lost()),
        refused("Failed to parse components for cleave", cleave)
    );
}

#[test]
fn operators_that_take_a_tuple_of_values() {
    let p = || q(vec![w("inc")]);
    let r = || q(vec![w("dec")]);
    let values = || Expr::Tuple(vec![Expr::Number(1), Expr::Number(2)]);
    let lost = || Err(fault("lost", "", 0, 0));
    let star = "Bi* should be in the form: x y [P] [Q] bi*";
    assert_eq!(
        combine("bi*", (3, 4), Ok(values()), Ok(Expr::Tuple(vec![p(), r()]))),
        Ok(Expr::BiStar(boxed(values()), boxed(p()), boxed(r())))
    );
    assert_eq!(
        combine("bi*", (3, 4), Ok(values()), Ok(Expr::Tuple(vec![w("f"), r()]))),
        refused("Expected two quotations for bi*", star)
    );
    assert_eq!(
        combine("bi*", (3, 4), Ok(values()), Ok(Expr::Tuple(vec![p(), r(), p()]))),
        refused("Expected exactly two quotations for bi*", star)
    );
    assert_eq!(
        combine("bi*", (3, 4), Ok(values()), Ok(p())),
        refused("Expected tuple of quotations for bi*", star)
    );
    assert_eq!(
        combine("bi*", (3, 4), Ok(Expr::Tuple(vec![Expr::Number(1)])), Ok(p())),
        refused("Expected exactly two values for bi*", star)
    );
    assert_eq!(
        combine("bi*", (3, 4), Ok(Expr::Number(1)), Ok(Expr::Tuple(vec![p(), r()]))),
        refused("Expected tuple of values for bi*", star)
    );
    assert_eq!(
        combine("bi*", (3, 4), lost(), Ok(Expr::Tuple(vec![p(), r()]))),
        refused("Failed to parse components for bi*", star)
    );
    let bi_at = "Bi@ should be in the form: x y [P] bi@";
    assert_eq!(
        combine("bi@", (3, 4), Ok(values()), Ok(p())),
        Ok(Expr::BiAt(boxed(values()), boxed(p())))
    );
    assert_eq!(
        combine("bi@", (3, 4), Ok(values()), Ok(w("f"))),
        refused("Expected a quotation for bi@", bi_at)
    );
    assert_eq!(
        combine("bi@", (3, 4), Ok(Expr::Tuple(vec![])), Ok(p())),
        refused("Expected exactly two values for bi@", bi_at)
    );
    assert_eq!(
        combine("bi@", (3, 4), Ok(w("x")), Ok(p())),
        refused("Expected tuple of values for bi@", bi_at)
    );
    assert_eq!(
        combine("bi@", (3, 4), Ok(values()), lost()),
        refused("Failed to parse components for bi@", bi_at)
    );
}

#[test]
fn quotations_are_recognised() {
    assert!(is_quotation(&q(vec![])));
    assert!(!is_quotation(&w("q")));
    assert!(!is_quotation(&Expr::Tuple(vec![q(vec![])])));
    assert!(are_quotations(&vec![]));
    assert!(are_quotations(&vec![q(vec![]), q(vec![w("a")])]));
    assert!(!are_quotations(&vec![q(vec![]), w("a")]));
}

#[test]
fn parameters_by_name() {
    let list = node(
        Rule::Params,
        "x, y",
        vec![leaf(Rule::Param, "x"), leaf(Rule::Comment, ","), leaf(Rule::Param, "y")],
    );
    assert_eq!(
        parse_params(&list),
        vec![
            Param { name: "x".to_string(), type_annotation: None },
            Param { name: "y".to_string(), type_annotation: None },
        ]
    );
    assert_eq!(parse_params(&leaf(Rule::Params, "")), vec![]);
}

fn quotation(inner: Vec<SyntaxNode>) -> SyntaxNode {
    node(Rule::Quotation, "[..]", inner)
}

fn params(names: &[&str]) -> SyntaxNode {
    node(Rule::Params, "", names.iter().map(|name| leaf(Rule::Param, name)).collect())
}

#[test]
fn a_quotation_without_parameters_keeps_its_body() {
    let tree = quotation(vec![one(number("1")), one(symbol("dup"))]);
    assert_eq!(parse_atom(&tree), Ok(q(vec![Expr::Number(1), w("dup")])));
    let with_arrow = quotation(vec![leaf(Rule::Reserved, "->"), one(number("1"))]);
    assert_eq!(parse_atom(&with_arrow), Ok(q(vec![Expr::Number(1)])));
    let only_arrow = quotation(vec![leaf(Rule::Reserved, "->")]);
    assert_eq!(parse_atom(&only_arrow), Ok(q(vec![])));
    let with_comment = quotation(vec![leaf(Rule::Comment, "-- c"), one(number("1"))]);
    assert_eq!(parse_atom(&with_comment), Ok(q(vec![Expr::Number(1)])));
}

#[test]
fn a_quotation_with_parameters_is_translated() {
    let tree = quotation(vec![
        params(&["x"]),
        leaf(Rule::Reserved, "->"),
        one(symbol("x")),
        one(symbol("x")),
        one(symbol("*")),
    ]);
    let code = vec![Expr::Number(0), w("pick"), w("swap"), w("*")];
    let named = vec![Param { name: "x".to_string(), type_annotation: None }];
    assert_eq!(translate_quotation(&named, &[w("x"), w("x"), w("*")]), Ok(code.clone()));
    assert_eq!(parse_atom(&tree), Ok(q(code.clone())));
    assert_eq!(make_quotation(named, vec![w("x"), w("x"), w("*")]), Ok(q(code)));
    assert_eq!(make_quotation(vec![], vec![w("x")]), Ok(q(vec![w("x")])));
}

#[test]
fn a_quotation_that_cannot_be_translated_is_refused() {
    let tree = quotation(vec![
        params(&["x"]),
        leaf(Rule::Reserved, "->"),
        one(symbol("x")),
        one(symbol("frobnicate")),
    ]);
    assert_eq!(
        parse_atom(&tree),
        Err(SyntaxError::Translation(TranslationFailure::UnknownWordEffect))
    );
    let twice = quotation(vec![
        params(&["x"]),
        leaf(Rule::Reserved, "->"),
        one(symbol("x")),
        one(symbol("drop")),
        one(symbol("drop")),
        one(symbol("x")),
    ]);
    assert!(matches!(parse_atom(&twice), Err(SyntaxError::Translation(_))));
}

#[test]
fn a_quotation_needs_its_parts() {
    let incomplete =
        Err(fault("Incomplete rule: quotation", "The rule lacks one of its parts", 0, 4));
    assert_eq!(parse_atom(&quotation(vec![])), incomplete);
    assert_eq!(parse_atom(&quotation(vec![params(&["x"])])), incomplete);
    assert_eq!(parse_atom(&quotation(vec![params(&["x"]), one(symbol("x"))])), incomplete);
}

#[test]
fn the_first_fault_of_a_body_is_reported() {
    let tree = quotation(vec![
        one(number("1")),
        one(at(leaf(Rule::Number, "7"), 5, 6)),
        one(at(leaf(Rule::Number, "8"), 7, 8)),
    ]);
    assert_eq!(
        parse_atom(&tree),
        Err(fault(
            "Expected atom, got number",
            "This shouldn't happen - internal parser error",
            5,
            1
        ))
    );
}

#[test]
fn an_assignment_names_a_value() {
    let tree = node(Rule::Assignment, "1 -> x", vec![one(number("1")), leaf(Rule::Symbol, "x")]);
    assert_eq!(parse_atom(&tree), Ok(Expr::Assignment(boxed(Expr::Number(1)), "x".to_string())));
    assert_eq!(
        parse_atom(&node(Rule::Assignment, "1", vec![one(number("1"))])),
        Err(fault("Incomplete rule: assignment", "The rule lacks one of its parts", 0, 1))
    );
}

fn case(pattern: SyntaxNode, body: SyntaxNode) -> SyntaxNode {
    node(Rule::PatternCase, "", vec![node(Rule::Pattern, "", vec![pattern]), body])
}

#[test]
fn a_match_block_holds_its_cases() {
    let tree = node(
        Rule::MatchBlock,
        "",
        vec![
            case(leaf(Rule::Number, "0"), one(symbol("zero"))),
            leaf(Rule::Comment, "-- c"),
            case(leaf(Rule::Symbol, "_"), one(symbol("other"))),
        ],
    );
    assert_eq!(
        parse_atom(&tree),
        Ok(Expr::Match(
            boxed(Expr::Nil),
            vec![
                (Pattern::Literal(Expr::Number(0)), w("zero")),
                (Pattern::Wildcard, w("other")),
            ]
        ))
    );
    let short = node(Rule::MatchBlock, "", vec![node(Rule::PatternCase, "c", vec![])]);
    assert_eq!(
        parse_atom(&short),
        Err(fault("Incomplete rule: pattern_case", "The rule lacks one of its parts", 0, 1))
    );
    let operated = combine("match", (0, 5), Ok(w("n")), parse_atom(&tree));
    assert!(matches!(operated, Ok(Expr::Match(subject, cases)) if *subject == w("n") && cases.len() == 2));
}

#[test]
fn patterns_of_a_match() {
    assert_eq!(parse_pattern(&leaf(Rule::Symbol, "_")), Ok(Pattern::Wildcard));
    assert_eq!(parse_pattern(&leaf(Rule::Symbol, "x")), Ok(Pattern::Variable("x".to_string())));
    assert_eq!(
        parse_pattern(&leaf(Rule::StringLiteral, "\"a\"")),
        Ok(Pattern::Literal(Expr::String("a".to_string())))
    );
    assert_eq!(
        parse_pattern(&leaf(Rule::Number, "-3")),
        Ok(Pattern::Literal(Expr::Number(-3)))
    );
    assert_eq!(
        parse_pattern(&node(Rule::QuotedPattern, "'x", vec![leaf(Rule::Symbol, "x")])),
        Ok(Pattern::Quote(Box::new(Pattern::Variable("x".to_string()))))
    );
    let record = node(
        Rule::RecordPattern,
        "",
        vec![
            node(
                Rule::FieldPattern,
                "",
                vec![leaf(Rule::Symbol, "v"), leaf(Rule::Symbol, "name")],
            ),
            node(
                Rule::FieldPattern,
                "",
                vec![leaf(Rule::Number, "1"), leaf(Rule::Symbol, "age")],
            ),
        ],
    );
    assert_eq!(
        parse_pattern(&record),
        Ok(Pattern::Record(vec![
            ("name".to_string(), Pattern::Variable("v".to_string())),
            ("age".to_string(), Pattern::Literal(Expr::Number(1))),
        ]))
    );
    assert_eq!(
        parse_pattern(&at(leaf(Rule::Quotation, "[]"), 3, 5)),
        Err(fault("Unexpected pattern rule: quotation", "", 3, 2))
    );
    assert_eq!(
        parse_pattern(&leaf(Rule::Pattern, "")),
        Err(fault("Incomplete rule: pattern", "The rule lacks one of its parts", 0, 0))
    );
    assert_eq!(
        parse_pattern(&leaf(Rule::QuotedPattern, "'")),
        Err(fault("Incomplete rule: quoted_pattern", "The rule lacks one of its parts", 0, 1))
    );
    let short = node(
        Rule::RecordPattern,
        "",
        vec![node(Rule::FieldPattern, "f", vec![leaf(Rule::Symbol, "v")])],
    );
    assert_eq!(
        parse_pattern(&short),
        Err(fault("Incomplete rule: field_pattern", "The rule lacks one of its parts", 0, 1))
    );
}

#[test]
fn the_branches_of_a_conditional() {
    let tree = node(
        Rule::IfBranches,
        "",
        vec![
            quotation(vec![one(number("1")), one(number("2"))]),
            quotation(vec![leaf(Rule::Comment, "-- none")]),
        ],
    );
    assert_eq!(
        parse_atom(&tree),
        Ok(Expr::If(
            boxed(Expr::Nil),
            boxed(Expr::Sequence(vec![Expr::Number(1), Expr::Number(2)])),
            boxed(Expr::Sequence(vec![]))
        ))
    );
    assert_eq!(
        parse_atom(&node(Rule::IfBranches, "if", vec![quotation(vec![])])),
        Err(fault("Incomplete rule: if_branches", "The rule lacks one of its parts", 0, 2))
    );
}

#[test]
fn records_and_tuples() {
    let record = node(
        Rule::RecordExpr,
        "",
        vec![
            node(Rule::FieldExpr, "", vec![one(number("1")), leaf(Rule::Symbol, "a")]),
            node(Rule::FieldExpr, "", vec![one(symbol("x")), leaf(Rule::Symbol, "b")]),
        ],
    );
    assert_eq!(
        parse_atom(&record),
        Ok(Expr::Record(vec![("a".to_string(), Expr::Number(1)), ("b".to_string(), w("x"))]))
    );
    let short =
        node(Rule::RecordExpr, "", vec![node(Rule::FieldExpr, "f", vec![one(number("1"))])]);
    assert_eq!(
        parse_atom(&short),
        Err(fault("Incomplete rule: field_expr", "The rule lacks one of its parts", 0, 1))
    );
    let tuple = node(Rule::TupleExpr, "", vec![one(number("1")), one(symbol("x"))]);
    assert_eq!(parse_atom(&tuple), Ok(Expr::Tuple(vec![Expr::Number(1), w("x")])));
    assert_eq!(parse_atom(&leaf(Rule::TupleExpr, "()")), Ok(Expr::Tuple(vec![])));
}

#[test]
fn quoted_expressions() {
    let quoted = node(Rule::QuotedExpr, "'x", vec![one(symbol("x"))]);
    assert_eq!(parse_atom(&quoted), Ok(Expr::Quote(boxed(w("x")))));
    let unquoted = node(Rule::UnquotedExpr, "$x", vec![one(symbol("x"))]);
    assert_eq!(parse_atom(&unquoted), Ok(Expr::Unquote(boxed(w("x")))));
    let quasi = node(Rule::QuasiquotedExpr, "`x", vec![symbol("x")]);
    assert_eq!(parse_atom(&quasi), Ok(Expr::Quasiquote(boxed(w("x")))));
    assert_eq!(
        parse_atom(&leaf(Rule::QuotedExpr, "'")),
        Err(fault("Incomplete rule: quoted_expr", "The rule lacks one of its parts", 0, 1))
    );
}

#[test]
fn stack_effect_atoms() {
    assert_eq!(
        parse_atom(&leaf(Rule::StackEffect, "( a b -- c )")),
        Ok(Expr::StackEffect(StackEffect::new(
            vec!["a".to_string(), "b".to_string()],
            vec!["c".to_string()]
        )))
    );
    assert_eq!(
        parse_atom(&leaf(Rule::StackEffect, "a -- b")),
        Err(SyntaxError::Effect(ParseFailure::MissingParentheses))
    );
    assert_eq!(
        parse_atom(&leaf(Rule::StackEffect, "( a b )")),
        Err(SyntaxError::Effect(ParseFailure::MissingSeparator))
    );
}

fn top(inner: SyntaxNode) -> SyntaxNode {
    node(Rule::TopLevelExpr, "", vec![inner])
}

#[test]
fn a_program_is_its_expression_or_their_sequence() {
    let single = node(Rule::Program, "", vec![top(one(number("1"))), leaf(Rule::EndOfInput, "")]);
    assert_eq!(parse_program(&single), Ok(Expr::Number(1)));
    let several = node(
        Rule::Program,
        "",
        vec![
            leaf(Rule::ModuleDecl, "module m"),
            leaf(Rule::ImportDecl, "import \"x\""),
            top(one(number("1"))),
            top(one(symbol("dup"))),
            leaf(Rule::EndOfInput, ""),
        ],
    );
    assert_eq!(parse_program(&several), Ok(Expr::Sequence(vec![Expr::Number(1), w("dup")])));
    let none = node(Rule::Program, "", vec![leaf(Rule::EndOfInput, "")]);
    assert_eq!(parse_program(&none), Ok(Expr::Sequence(vec![])));
}

#[test]
fn a_program_refuses_what_is_no_expression() {
    let tree = node(
        Rule::Program,
        "",
        vec![top(one(number("1"))), at(symbol("dup"), 2, 5), top(one(number("x")))],
    );
    assert_eq!(parse_program(&tree), Err(fault("Unexpected rule: atom", "", 2, 3)));
    let empty = node(Rule::Program, "", vec![at(leaf(Rule::TopLevelExpr, ""), 1, 1)]);
    assert_eq!(
        parse_program(&empty),
        Err(fault("Incomplete rule: top_level_expr", "The rule lacks one of its parts", 1, 0))
    );
    let wrong = node(Rule::Program, "", vec![top(one(number("x"))), leaf(Rule::Atom, "")]);
    assert_eq!(
        parse_program(&wrong),
        Err(fault("Invalid integer: x", "Check that the number is properly formatted", 0, 1))
    );
}

#[test]
fn a_fault_is_shown_in_its_source() {
    let shown = BorfError::from_syntax_error(fault("Unknown operator: ??", "help", 2, 2), "1 ?? 2");
    assert_eq!(
        shown,
        BorfError::ParseError {
            message: "Unknown operator: ??".to_string(),
            src: Some("1 ?? 2".to_string()),
            span: Some(SourceSpan::from((2, 2))),
            help: "help".to_string(),
        }
    );
    assert_eq!(
        BorfError::from_syntax_error(
            SyntaxError::Translation(TranslationFailure::NegativeDepth),
            "[x -> drop x]"
        ),
        BorfError::StackEffectError {
            message: "Invalid stack depth for parameter".to_string(),
            src: None,
            span: None,
            help: "This usually happens when stack operations have consumed too many items \
                   before the parameter is used. Check the stack effect of operations before \
                   this point."
                .to_string(),
        }
    );
    assert_eq!(
        BorfError::from_syntax_error(SyntaxError::Effect(ParseFailure::MissingSeparator), "( a )"),
        BorfError::StackEffectError {
            message: "Stack effect must contain exactly one '--' separator".to_string(),
            src: None,
            span: None,
            help: "Stack effect declarations should have the form \
                   '( input1 input2 -- output1 output2 )'"
                .to_string(),
        }
    );
}

#[test]
fn copies_of_expressions_are_equal_to_them() {
    let code = || q(vec![w("inc")]);
    let forms = vec![
        Expr::Record(vec![("a".to_string(), Expr::Number(1))]),
        Expr::Tuple(vec![Expr::Number(1), w("x")]),
        Expr::If(boxed(Expr::Boolean(true)), boxed(code()), boxed(code())),
        Expr::StackEffect(StackEffect::new(vec!["a".to_string()], vec![])),
        Expr::Times(boxed(Expr::Number(3)), boxed(code())),
        Expr::Loop(boxed(code())),
        Expr::While(boxed(code()), boxed(code())),
        Expr::For(boxed(w("r")), boxed(code()), boxed(Expr::Nil)),
        Expr::Dip(boxed(code())),
        Expr::MapEach(boxed(w("xs")), boxed(code())),
        Expr::Filter(boxed(w("xs")), boxed(code())),
        Expr::Fold(boxed(w("xs")), boxed(Expr::Number(0)), boxed(code())),
        Expr::Cleave(boxed(w("x")), vec![code(), code()]),
        Expr::Bi(boxed(w("x")), boxed(code()), boxed(code())),
        Expr::Tri(boxed(w("x")), boxed(code()), boxed(code()), boxed(code())),
        Expr::Nip(boxed(Expr::Number(1))),
        Expr::Tuck(boxed(Expr::Number(1))),
        Expr::Pick(boxed(Expr::Number(2))),
        Expr::Roll(boxed(Expr::Number(2))),
        Expr::Keep(boxed(code())),
        Expr::Dip2(boxed(code())),
        Expr::BiStar(boxed(w("xy")), boxed(code()), boxed(code())),
        Expr::BiAt(boxed(w("xy")), boxed(code())),
    ];
    for form in &forms {
        assert_eq!(&form.clone(), form);
    }
    assert_ne!(forms[0], forms[1]);
}
