use borf::errors::{EvalFailure, EvaluatorError, ResourceFailure, TranslationFailure, TypeFailure};
use borf::evaluator::Evaluator;
use borf::machine::Operation;
use borf::types::{Env, Expr, Param, Pattern, Type, Value};

fn machine(stack: Vec<Value>) -> Evaluator {
    let mut evaluator = Evaluator::new();
    evaluator.stack = stack;
    evaluator
}

fn num(n: i32) -> Value {
    Value::Number(n)
}

fn nums(ns: &[i32]) -> Vec<Value> {
    ns.iter().map(|n| Value::Number(*n)).collect()
}

fn w(name: &str) -> Expr {
    Expr::Symbol(name.to_string())
}

fn named(name: &str) -> Param {
    Param { name: name.to_string(), type_annotation: None }
}

fn quotation(params: &[&str], body: Vec<Expr>) -> Value {
    Value::Quotation(params.iter().map(|p| named(p)).collect(), body, None)
}

fn eval_failure<T>(f: EvalFailure) -> Result<T, EvaluatorError> {
    Err(EvaluatorError::EvalError(f))
}

fn run(stack: &[i32], op: &str) -> Result<Vec<Value>, EvaluatorError> {
    let mut evaluator = machine(nums(stack));
    evaluator.execute_operation(op)?;
    Ok(evaluator.stack)
}

#[test]
fn stack_primitives() {
    assert_eq!(run(&[5], "dup"), Ok(nums(&[5, 5])));
    assert_eq!(run(&[], "drop"), eval_failure(EvalFailure::StackUnderflow));
    assert_eq!(run(&[1, 2], "swap"), Ok(nums(&[2, 1])));
    assert_eq!(run(&[1, 2], "drop"), Ok(nums(&[1])));
    assert_eq!(run(&[1, 2, 3], "rot"), Ok(nums(&[2, 3, 1])));
    assert_eq!(run(&[1, 2], "over"), Ok(nums(&[1, 2, 1])));
    assert_eq!(run(&[1, 2], "tuck"), Ok(nums(&[2, 1, 2])));
    assert_eq!(run(&[1, 2], "nip"), Ok(nums(&[2])));
    assert_eq!(run(&[7, 8], "depth"), Ok(nums(&[7, 8, 2])));
    assert_eq!(run(&[7, 8], "clear"), Ok(nums(&[])));
}

#[test]
fn stack_primitives_underflow() {
    for (stack, op) in [
        (vec![], "dup"),
        (vec![1], "swap"),
        (vec![1, 2], "rot"),
        (vec![1], "over"),
        (vec![1], "tuck"),
        (vec![1], "nip"),
        (vec![1], "pick"),
        (vec![], "roll"),
        (vec![1], "add"),
        (vec![], "not"),
        (vec![], "apply"),
        (vec![1], "dip"),
        (vec![1, 2], "bi"),
        (vec![1, 2, 3], "tri"),
        (vec![1], "map"),
        (vec![1, 2], "fold"),
        (vec![], "print"),
        (vec![], "consume_resource"),
        (vec![1], "create_resource"),
    ] {
        assert_eq!(run(&stack, op), eval_failure(EvalFailure::StackUnderflow), "{}", op);
    }
}

#[test]
fn pick_copies_and_roll_moves() {
    assert_eq!(run(&[10, 20, 30, 0], "pick"), Ok(nums(&[10, 20, 30, 30])));
    assert_eq!(run(&[10, 20, 30, 2], "pick"), Ok(nums(&[10, 20, 30, 10])));
    assert_eq!(run(&[10, 20, 30, 0], "roll"), Ok(nums(&[10, 20, 30])));
    assert_eq!(run(&[10, 20, 30, 1], "roll"), Ok(nums(&[10, 30, 20])));
    assert_eq!(run(&[10, 20, 30, 2], "roll"), Ok(nums(&[20, 30, 10])));
    assert_eq!(run(&[10, 20, 30, 3], "pick"), eval_failure(EvalFailure::InvalidDepth));
    assert_eq!(run(&[10, 20, 30, -1], "roll"), eval_failure(EvalFailure::InvalidDepth));
    let mut evaluator = machine(vec![num(1), Value::Nil]);
    assert_eq!(
        evaluator.execute_operation("pick"),
        Err(EvaluatorError::TypeError(TypeFailure::OperandMismatch))
    );
}

#[test]
fn arithmetic() {
    assert_eq!(run(&[3, 4], "add"), Ok(nums(&[7])));
    assert_eq!(run(&[3, 4], "+"), Ok(nums(&[7])));
    assert_eq!(run(&[3, 4], "sub"), Ok(nums(&[-1])));
    assert_eq!(run(&[3, 4], "*"), Ok(nums(&[12])));
    assert_eq!(run(&[7, 2], "div"), Ok(nums(&[3])));
    assert_eq!(run(&[-7, 2], "/"), Ok(nums(&[-3])));
    assert_eq!(run(&[7, -2], "/"), Ok(nums(&[-3])));
    assert_eq!(run(&[-7, -2], "/"), Ok(nums(&[3])));
    assert_eq!(run(&[7, 3], "mod"), Ok(nums(&[1])));
    assert_eq!(run(&[-7, 3], "%"), Ok(nums(&[2])));
    assert_eq!(run(&[-7, -3], "mod"), Ok(nums(&[2])));
    assert_eq!(run(&[-6, 3], "mod"), Ok(nums(&[0])));
    assert_eq!(run(&[1, 0], "div"), eval_failure(EvalFailure::DivisionByZero));
    assert_eq!(run(&[1, 0], "mod"), eval_failure(EvalFailure::DivisionByZero));
    assert_eq!(run(&[i32::MAX, 1], "add"), eval_failure(EvalFailure::ArithmeticOverflow));
    assert_eq!(run(&[i32::MIN, 1], "sub"), eval_failure(EvalFailure::ArithmeticOverflow));
    assert_eq!(run(&[i32::MAX, 2], "mul"), eval_failure(EvalFailure::ArithmeticOverflow));
    assert_eq!(run(&[i32::MIN, -1], "div"), eval_failure(EvalFailure::ArithmeticOverflow));
    assert_eq!(run(&[i32::MIN, -1], "mod"), Ok(nums(&[0])));
    let mut evaluator = machine(vec![num(1), Value::String("a".to_string())]);
    assert_eq!(
        evaluator.execute_operation("add"),
        Err(EvaluatorError::TypeError(TypeFailure::OperandMismatch))
    );
}

#[test]
fn comparison_and_logic() {
    assert_eq!(run(&[1, 2], "<"), Ok(nums(&[1])));
    assert_eq!(run(&[2, 2], "<"), Ok(nums(&[0])));
    assert_eq!(run(&[2, 2], "<="), Ok(nums(&[1])));
    assert_eq!(run(&[3, 2], ">"), Ok(nums(&[1])));
    assert_eq!(run(&[1, 2], ">="), Ok(nums(&[0])));
    assert_eq!(run(&[2, 2], "=="), Ok(nums(&[1])));
    assert_eq!(run(&[2, 3], "eq"), Ok(nums(&[0])));
    assert_eq!(run(&[2, 3], "!="), Ok(nums(&[1])));
    assert_eq!(run(&[2, 3], "==="), Ok(nums(&[1])));
    assert_eq!(run(&[2, 3], "veq"), Ok(nums(&[0])));
    assert_eq!(run(&[2, 0], "and"), Ok(nums(&[0])));
    assert_eq!(run(&[2, 3], "and"), Ok(nums(&[1])));
    assert_eq!(run(&[0, 3], "or"), Ok(nums(&[1])));
    assert_eq!(run(&[0, 0], "or"), Ok(nums(&[0])));
    assert_eq!(run(&[0], "not"), Ok(nums(&[1])));
    assert_eq!(run(&[5], "not"), Ok(nums(&[0])));
}

#[test]
fn value_equality_and_shape() {
    let eq = |a: Value, b: Value, op: &str| {
        let mut evaluator = machine(vec![a, b]);
        evaluator.execute_operation(op).unwrap();
        evaluator.stack
    };
    let text = |s: &str| Value::String(s.to_string());
    // Records are compared by what they bind, whatever the order.
    let r1 = Value::Record(vec![("a".to_string(), num(1)), ("b".to_string(), num(2))]);
    let r2 = Value::Record(vec![("b".to_string(), num(2)), ("a".to_string(), num(1))]);
    let r3 = Value::Record(vec![("a".to_string(), num(1)), ("b".to_string(), num(3))]);
    // Of two pairs with one name the later is in force.
    let r4 = Value::Record(vec![
        ("b".to_string(), num(9)),
        ("a".to_string(), num(1)),
        ("b".to_string(), num(2)),
    ]);
    assert_eq!(eq(r1.clone(), r2.clone(), "=="), nums(&[1]));
    assert_eq!(eq(r1.clone(), r3.clone(), "=="), nums(&[0]));
    assert_eq!(eq(r1.clone(), r4.clone(), "=="), nums(&[1]));
    assert_eq!(eq(r4, r3, "=="), nums(&[0]));
    assert_eq!(eq(text("a"), text("a"), "=="), nums(&[1]));
    assert_eq!(eq(text("a"), text("b"), "=="), nums(&[0]));
    assert_eq!(eq(text("a"), text("b"), "==="), nums(&[1]));
    assert_eq!(eq(text("1"), num(1), "=="), nums(&[0]));
    assert_eq!(eq(text("1"), num(1), "==="), nums(&[0]));
    // Closures are equal by signature.
    let q1 = quotation(&["x"], vec![w("x")]);
    let q2 = quotation(&["y"], vec![w("y"), w("dup")]);
    let q3 = quotation(&[], vec![]);
    assert_eq!(eq(q1.clone(), q2.clone(), "=="), nums(&[1]));
    assert_eq!(eq(q1.clone(), q3.clone(), "=="), nums(&[0]));
    assert_eq!(eq(q1, q2, "==="), nums(&[1]));
    let l1 = Value::List(nums(&[1, 2]));
    let l2 = Value::List(nums(&[1, 3]));
    assert_eq!(eq(l1.clone(), l1.clone(), "==="), nums(&[1]));
    assert_eq!(eq(l1.clone(), l2, "==="), nums(&[0]));
    assert_eq!(eq(Value::Nil, Value::Nil, "=="), nums(&[1]));
    assert_eq!(eq(Value::Nil, Value::Nil, "==="), nums(&[0]));
    assert_eq!(eq(Value::Nil, Value::Nothing, "=="), nums(&[0]));
}

#[test]
fn unknown_operation() {
    assert_eq!(run(&[1], "frobnicate"), eval_failure(EvalFailure::UnknownOperation));
    assert_eq!(Operation::from_name("frobnicate"), None);
    assert_eq!(Operation::from_name("bi@"), Some(Operation::BiAt));
    assert_eq!(Operation::from_name("map"), Some(Operation::MapEach));
}

#[test]
fn resource_operations() {
    let mut evaluator = machine(vec![num(42), Value::String("file".to_string())]);
    assert_eq!(evaluator.execute_operation("create_resource"), Ok(()));
    assert_eq!(evaluator.stack, vec![Value::Resource(0, Box::new(num(42)))]);
    assert_eq!(evaluator.execute_operation("dup"), Ok(()));
    assert_eq!(evaluator.execute_operation("is_resource"), Ok(()));
    assert_eq!(evaluator.pop(), Some(num(1)));
    assert_eq!(evaluator.execute_operation("dup"), Ok(()));
    assert_eq!(evaluator.execute_operation("resource_type"), Ok(()));
    assert_eq!(evaluator.pop(), Some(Value::String("file".to_string())));
    assert_eq!(evaluator.check_for_resource_leaks(), Err(EvaluatorError::ResourceError(ResourceFailure::Leak)));
    assert_eq!(evaluator.execute_operation("dup"), Ok(()));
    assert_eq!(evaluator.execute_operation("consume_resource"), Ok(()));
    assert_eq!(evaluator.pop(), Some(num(42)));
    assert_eq!(evaluator.check_for_resource_leaks(), Ok(()));
    assert_eq!(
        evaluator.execute_operation("consume_resource"),
        Err(EvaluatorError::ResourceError(ResourceFailure::AlreadyConsumed))
    );
    let mut evaluator = machine(vec![num(1)]);
    assert_eq!(
        evaluator.execute_operation("consume_resource"),
        Err(EvaluatorError::ResourceError(ResourceFailure::NotAResource))
    );
    let mut evaluator = machine(vec![num(1), num(2)]);
    assert_eq!(
        evaluator.execute_operation("create_resource"),
        Err(EvaluatorError::TypeError(TypeFailure::OperandMismatch))
    );
}

#[test]
fn borrowing_through_the_evaluator() {
    let mut evaluator = Evaluator::new();
    let r = evaluator.create_resource("file", num(5));
    assert_eq!(evaluator.use_resource(&r), Ok(()));
    evaluator.start_borrowing_region();
    assert_eq!(evaluator.borrow_resource(&r), Ok(Value::BorrowedResource(0, Box::new(num(5)))));
    assert_eq!(
        evaluator.consume_resource(&r),
        Err(EvaluatorError::ResourceError(ResourceFailure::BorrowedActive))
    );
    assert_eq!(evaluator.end_borrowing_region(), Ok(()));
    assert_eq!(evaluator.consume_resource(&r), Ok(num(5)));
    assert_eq!(
        evaluator.end_borrowing_region(),
        Err(EvaluatorError::ResourceError(ResourceFailure::NoActiveRegion))
    );
    assert_eq!(
        evaluator.use_resource(&r),
        Err(EvaluatorError::ResourceError(ResourceFailure::Consumed))
    );
}

#[test]
fn with_borrowed_runs_in_a_region() {
    let mut evaluator = Evaluator::new();
    let r = evaluator.create_resource("file", num(5));
    evaluator.push(r.clone());
    evaluator.push(quotation(&["b"], vec![w("b"), w("drop")]));
    assert_eq!(evaluator.execute_operation("with_borrowed"), Ok(()));
    assert_eq!(evaluator.stack, vec![]);
    // The region is closed again: the resource can be consumed.
    assert_eq!(evaluator.consume_resource(&r), Ok(num(5)));
    let mut evaluator = machine(vec![num(1), quotation(&[], vec![])]);
    assert_eq!(
        evaluator.execute_operation("with_borrowed"),
        eval_failure(EvalFailure::ArityMismatch)
    );
    let mut evaluator = machine(vec![num(1), quotation(&["b"], vec![])]);
    assert_eq!(
        evaluator.execute_operation("with_borrowed"),
        Err(EvaluatorError::ResourceError(ResourceFailure::NotAResource))
    );
}

#[test]
fn translated_code_runs_on_the_stack() {
    // [x y -> x y +] on 3 4
    let mut evaluator = machine(nums(&[3, 4]));
    evaluator.push(quotation(&["x", "y"], vec![w("x"), w("y"), w("+")]));
    assert_eq!(evaluator.execute_operation("apply"), Ok(()));
    assert_eq!(evaluator.stack, nums(&[7]));
    // [x -> x x *] on 6
    let mut evaluator = machine(nums(&[6]));
    evaluator.push(quotation(&["x"], vec![w("x"), w("x"), w("*")]));
    assert_eq!(evaluator.execute_operation("apply"), Ok(()));
    assert_eq!(evaluator.stack, nums(&[36]));
    // [x -> 10 x -] on 3
    let mut evaluator = machine(nums(&[3]));
    evaluator.push(quotation(&["x"], vec![Expr::Number(10), w("x"), w("-")]));
    assert_eq!(evaluator.execute_operation("apply"), Ok(()));
    assert_eq!(evaluator.stack, nums(&[7]));
    // [a b c d -> a] on 1 2 3 4: a is rolled to the top.
    let mut evaluator = machine(nums(&[1, 2, 3, 4]));
    evaluator.push(quotation(&["a", "b", "c", "d"], vec![w("a")]));
    assert_eq!(evaluator.execute_operation("apply"), Ok(()));
    assert_eq!(evaluator.stack, nums(&[2, 3, 4, 1]));
}

#[test]
fn depth_three_example_does_not_translate() {
    let mut evaluator = machine(nums(&[2, 3, 4]));
    evaluator.push(quotation(&["a", "b", "c"], vec![w("a"), w("b"), w("+"), w("c"), w("*")]));
    assert_eq!(
        evaluator.execute_operation("apply"),
        Err(EvaluatorError::StackEffectError(TranslationFailure::NegativeDepth))
    );
}

#[test]
fn apply_and_combinators() {
    let inc = || quotation(&[], vec![Expr::Number(1), w("add")]);
    let double = || quotation(&[], vec![w("dup"), w("add")]);
    let negate = || quotation(&[], vec![Expr::Number(0), w("swap"), w("sub")]);
    let with = |stack: Vec<Value>, op: &str| {
        let mut evaluator = machine(stack);
        evaluator.execute_operation(op).map(|_| evaluator.stack)
    };
    assert_eq!(with(vec![num(1), inc()], "apply"), Ok(nums(&[2])));
    assert_eq!(with(vec![num(3), num(4), Value::Symbol("add".to_string())], "apply"), Ok(nums(&[7])));
    assert_eq!(with(vec![num(3), num(4)], "apply"), Ok(nums(&[3, 4])));
    // x [Q] dip -> Q(x)
    assert_eq!(with(vec![num(1), num(9), inc()], "dip"), Ok(nums(&[1, 10])));
    // x [Q] keep -> x Q(x)
    assert_eq!(with(vec![num(5), inc()], "keep"), Ok(nums(&[5, 6])));
    // x [P] [Q] bi -> P(x) Q(x)
    assert_eq!(with(vec![num(5), inc(), double()], "bi"), Ok(nums(&[6, 10])));
    // x [P] [Q] [R] tri -> P(x) Q(x) R(x)
    assert_eq!(with(vec![num(5), inc(), double(), negate()], "tri"), Ok(nums(&[6, 10, -5])));
    // x y [P] [Q] bi* -> P(x) Q(y)
    assert_eq!(with(vec![num(5), num(7), inc(), double()], "bi*"), Ok(nums(&[6, 14])));
    // x y [P] bi@ -> P(x) P(y)
    assert_eq!(with(vec![num(5), num(7), double()], "bi@"), Ok(nums(&[10, 14])));
    // x [[P] [Q] [R]] cleave -> P(x) Q(x) R(x)
    assert_eq!(
        with(vec![num(5), Value::List(vec![inc(), double(), negate()])], "cleave"),
        Ok(nums(&[6, 10, -5]))
    );
    let list = || Value::List(nums(&[1, 2, 3, 4]));
    assert_eq!(with(vec![list(), double()], "map"), Ok(vec![Value::List(nums(&[2, 4, 6, 8]))]));
    let is_big = quotation(&[], vec![Expr::Number(2), w(">")]);
    assert_eq!(with(vec![list(), is_big], "filter"), Ok(vec![Value::List(nums(&[3, 4]))]));
    let add = quotation(&[], vec![w("add")]);
    assert_eq!(with(vec![list(), num(100), add], "fold"), Ok(nums(&[110])));
    assert_eq!(
        with(vec![num(1), inc()], "map"),
        Err(EvaluatorError::TypeError(TypeFailure::OperandMismatch))
    );
}

#[test]
fn applications_nest_only_so_deep() {
    // [dup apply] dup apply runs for ever, but for the limit.
    let forever = quotation(&[], vec![w("dup"), w("apply")]);
    let mut evaluator = machine(vec![forever.clone(), forever.clone()]);
    evaluator.max_depth = 20;
    assert_eq!(evaluator.execute_operation("apply"), eval_failure(EvalFailure::DepthExceeded));
    // The limit that a machine begins with stops it as well.
    let mut evaluator = machine(vec![forever.clone(), forever]);
    assert_eq!(evaluator.max_depth, borf::evaluator::DEFAULT_MAX_DEPTH);
    assert_eq!(evaluator.execute_operation("apply"), eval_failure(EvalFailure::DepthExceeded));
}

#[test]
fn literals_and_symbols() {
    let mut evaluator = Evaluator::new();
    assert_eq!(evaluator.eval_expr(&Expr::Number(3)), Ok(Some(num(3))));
    assert_eq!(
        evaluator.eval_expr(&Expr::String("s".to_string())),
        Ok(Some(Value::String("s".to_string())))
    );
    assert_eq!(evaluator.eval_expr(&Expr::Boolean(true)), Ok(Some(num(1))));
    assert_eq!(evaluator.eval_expr(&Expr::Nil), Ok(Some(Value::Nil)));
    assert_eq!(evaluator.stack, vec![]);
    // A symbol that is bound yields its value; one that is not runs its operation.
    assert_eq!(
        evaluator.eval_expr(&Expr::Assignment(Box::new(Expr::Number(9)), "nine".to_string())),
        Ok(Some(num(9)))
    );
    assert_eq!(evaluator.eval_expr(&w("nine")), Ok(Some(num(9))));
    evaluator.push(num(1));
    assert_eq!(evaluator.eval_expr(&w("dup")), Ok(None));
    assert_eq!(evaluator.stack, nums(&[1, 1]));
    assert_eq!(evaluator.eval_expr(&w("nope")), eval_failure(EvalFailure::UnknownOperation));
    assert_eq!(
        evaluator.eval_expr(&Expr::Import("m".to_string())),
        eval_failure(EvalFailure::Unsupported)
    );
}

#[test]
fn pipeline_threads_values_through_the_stack() {
    let mut evaluator = Evaluator::new();
    let expr = Expr::Pipeline(
        Box::new(Expr::Number(3)),
        Box::new(Expr::Pipeline(Box::new(Expr::Number(4)), Box::new(w("add")))),
    );
    assert_eq!(evaluator.eval_expr(&expr), Ok(None));
    assert_eq!(evaluator.stack, nums(&[7]));
}

#[test]
fn binary_expressions() {
    let mut evaluator = Evaluator::new();
    let binary = |op: &str, a: i32, b: i32| {
        Expr::Binary(op.to_string(), Box::new(Expr::Number(a)), Box::new(Expr::Number(b)))
    };
    assert_eq!(evaluator.eval_expr(&binary("+", 2, 3)), Ok(Some(num(5))));
    assert_eq!(evaluator.eval_expr(&binary("-", 2, 3)), Ok(Some(num(-1))));
    assert_eq!(evaluator.eval_expr(&binary("*", 2, 3)), Ok(Some(num(6))));
    assert_eq!(evaluator.eval_expr(&binary("/", 7, 2)), Ok(Some(num(3))));
    assert_eq!(evaluator.eval_expr(&binary("==", 2, 2)), Ok(Some(num(1))));
    assert_eq!(evaluator.eval_expr(&binary("!=", 2, 2)), Ok(Some(num(0))));
    assert_eq!(evaluator.eval_expr(&binary("/", 7, 0)), eval_failure(EvalFailure::DivisionByZero));
    assert_eq!(
        evaluator.eval_expr(&binary("dup", 7, 0)),
        eval_failure(EvalFailure::UnknownOperation)
    );
    let no_value = Expr::Binary("+".to_string(), Box::new(Expr::Sequence(vec![])), Box::new(Expr::Number(1)));
    assert_eq!(evaluator.eval_expr(&no_value), eval_failure(EvalFailure::NoValue));
}

#[test]
fn closures_capture_a_snapshot() {
    let mut evaluator = Evaluator::new();
    evaluator.env.set("x", num(1));
    let closure = evaluator.eval_expr(&Expr::Quotation(vec![], vec![w("x")])).unwrap().unwrap();
    // What is bound afterwards is not seen by the closure.
    evaluator.env.set("x", num(2));
    evaluator.push(closure);
    assert_eq!(evaluator.execute_operation("apply"), Ok(()));
    assert_eq!(evaluator.stack, nums(&[1]));
    assert_eq!(evaluator.env.get("x"), Some(num(2)));
}

#[test]
fn match_takes_the_first_case_that_fits() {
    let mut evaluator = Evaluator::new();
    let cases = vec![
        (Pattern::Literal(Expr::Number(1)), Expr::String("one".to_string())),
        (Pattern::TypePattern(Type::Simple("Num".to_string())), Expr::String("skipped".to_string())),
        (Pattern::Variable("n".to_string()), w("n")),
        (Pattern::Wildcard, Expr::String("other".to_string())),
    ];
    let on = |scrutinee: i32| Expr::Match(Box::new(Expr::Number(scrutinee)), cases.clone());
    assert_eq!(evaluator.eval_expr(&on(1)), Ok(Some(Value::String("one".to_string()))));
    assert_eq!(evaluator.eval_expr(&on(5)), Ok(Some(num(5))));
    // The name of the pattern is bound for the case only.
    assert_eq!(evaluator.env.get("n"), None);
    let none = Expr::Match(Box::new(Expr::Number(2)), vec![(Pattern::Literal(Expr::Number(1)), Expr::Nil)]);
    assert_eq!(evaluator.eval_expr(&none), eval_failure(EvalFailure::NoMatch));
}

#[test]
fn quoting() {
    let mut evaluator = Evaluator::new();
    let quoted = Expr::Quote(Box::new(Expr::Number(1)));
    assert_eq!(evaluator.eval_expr(&quoted), Ok(Some(Value::Quoted(Box::new(num(1))))));
    assert_eq!(evaluator.eval_expr(&Expr::Unquote(Box::new(quoted))), Ok(Some(num(1))));
    assert_eq!(
        evaluator.eval_expr(&Expr::Unquote(Box::new(Expr::Number(1)))),
        Err(EvaluatorError::TypeError(TypeFailure::NotQuoted))
    );
    assert_eq!(
        evaluator.eval_expr(&Expr::Quasiquote(Box::new(Expr::Sequence(vec![])))),
        Ok(Some(Value::Quasiquoted(Box::new(Value::Nil))))
    );
    let t = Type::Simple("Num".to_string());
    let type_quote = Expr::TypeQuote(Box::new(t.clone()));
    assert_eq!(evaluator.eval_expr(&type_quote), Ok(Some(Value::QuotedType(t.clone()))));
    assert_eq!(
        evaluator.eval_expr(&Expr::TypeUnquote(Box::new(type_quote))),
        Ok(Some(Value::Type(t)))
    );
}

#[test]
fn modules() {
    let mut evaluator = Evaluator::new();
    let module = Expr::Module(
        "m".to_string(),
        vec![Expr::Import("core".to_string())],
        vec![Expr::Assignment(Box::new(Expr::Number(1)), "one".to_string())],
    );
    let value = Value::Module("m".to_string(), vec![]);
    assert_eq!(evaluator.eval_expr(&module), Ok(Some(value.clone())));
    assert_eq!(evaluator.env.get("m"), Some(value));
    assert_eq!(evaluator.env.get("one"), Some(num(1)));
    assert_eq!(evaluator.stack, vec![]);
    let invalid = Expr::Module("m".to_string(), vec![Expr::Number(1)], vec![]);
    assert_eq!(evaluator.eval_expr(&invalid), eval_failure(EvalFailure::Unsupported));
}

#[test]
fn eval_reads_and_evaluates() {
    let mut evaluator = Evaluator::new();
    assert_eq!(evaluator.eval("42"), Ok(num(42)));
    assert_eq!(evaluator.eval("\"hi\""), Ok(Value::String("hi".to_string())));
    assert_eq!(evaluator.eval("3 4 add 5 mul"), Ok(Value::Nil));
    assert_eq!(evaluator.stack, nums(&[35]));
    assert_eq!(evaluator.eval("[x y -> x y add] apply"), eval_failure(EvalFailure::StackUnderflow));
    let mut evaluator = Evaluator::new();
    assert_eq!(evaluator.eval("2 [dup mul] apply"), Ok(Value::Nil));
    assert_eq!(evaluator.stack, nums(&[4]));
    assert_eq!(
        evaluator.eval(""),
        Err(EvaluatorError::ParseError(borf::errors::ParseFailure::EmptyInput))
    );
    assert_eq!(
        evaluator.eval("[ 1 2"),
        Err(EvaluatorError::ParseError(borf::errors::ParseFailure::UnclosedQuotation))
    );
}

#[test]
fn initialize_binds_the_builtin_names() {
    let mut evaluator = Evaluator::new();
    assert_eq!(evaluator.initialize(), Ok(()));
    assert_eq!(evaluator.env.get("add"), Some(Value::Symbol("add".to_string())));
    assert_eq!(evaluator.env.get(".resources"), Some(Value::Symbol(".resources".to_string())));
    assert_eq!(evaluator.env.get("div"), None);
    // A bound symbol yields its value; applied, it runs the operation.
    assert_eq!(evaluator.eval("3 4 add"), Ok(Value::Nil));
    assert_eq!(evaluator.stack, vec![num(3), num(4), Value::Symbol("add".to_string())]);
    assert_eq!(evaluator.execute_operation("apply"), Ok(()));
    assert_eq!(evaluator.stack, nums(&[7]));
}

#[test]
fn printing_goes_to_the_output() {
    let mut evaluator = machine(vec![num(1), Value::String("two".to_string())]);
    assert_eq!(evaluator.execute_operation(".s"), Ok(()));
    assert_eq!(evaluator.execute_operation("print"), Ok(()));
    assert_eq!(evaluator.execute_operation(".resources"), Ok(()));
    assert_eq!(
        evaluator.take_output(),
        vec![
            "Stack: 2 items",
            "0: 1",
            "1: \"two\"",
            "\"two\"",
            "Resources: 0 total, 0 active, 0 consumed\nBy type:\n",
        ]
    );
    assert_eq!(evaluator.take_output(), Vec::<String>::new());
    assert_eq!(evaluator.stack, nums(&[1]));
}

#[test]
fn type_operations() {
    let with = |stack: Vec<Value>, op: &str| {
        let mut evaluator = machine(stack);
        evaluator.execute_operation(op).map(|_| evaluator.stack)
    };
    let simple = |name: &str| Type::Simple(name.to_string());
    assert_eq!(with(vec![num(1)], "type"), Ok(vec![Value::Type(simple("Num"))]));
    assert_eq!(
        with(vec![Value::Type(simple("Num")), Value::Type(simple("Num"))], "type_equals"),
        Ok(nums(&[1]))
    );
    assert_eq!(
        with(vec![Value::Type(simple("Num")), Value::Type(simple("Any"))], "type_equals"),
        Ok(nums(&[0]))
    );
    assert_eq!(
        with(vec![num(1), Value::Type(simple("Any"))], "type_equals"),
        Err(EvaluatorError::TypeError(TypeFailure::NotAType))
    );
    assert_eq!(
        with(vec![Value::Type(Type::Linear(Box::new(simple("File"))))], "type_to_string"),
        Ok(vec![Value::String("!File".to_string())])
    );
    assert_eq!(
        with(vec![Value::Type(simple("Num"))], "type_quote"),
        Ok(vec![Value::QuotedType(simple("Num"))])
    );
    assert_eq!(
        with(vec![Value::QuotedType(simple("Num"))], "type_unquote"),
        Ok(vec![Value::Type(simple("Num"))])
    );
    assert_eq!(
        with(vec![Value::Type(simple("Num"))], "type_unquote"),
        Err(EvaluatorError::TypeError(TypeFailure::NotQuoted))
    );
}

#[test]
fn environments() {
    let mut outer = Env::new();
    outer.set("a", num(1));
    outer.set("b", num(2));
    let mut inner = Env::with_parent(&outer);
    inner.set("b", num(20));
    assert_eq!(inner.get("a"), Some(num(1)));
    assert_eq!(inner.get("b"), Some(num(20)));
    assert_eq!(inner.get("c"), None);
    // The scope around is a snapshot: it is not touched, nor seen to change.
    assert_eq!(outer.get("b"), Some(num(2)));
    outer.set("a", num(100));
    assert_eq!(inner.get("a"), Some(num(1)));
    inner.set("b", num(21));
    assert_eq!(inner.get("b"), Some(num(21)));
    assert_eq!(inner.bindings.len(), 1);
}

// Runs the body with the parameter bound to the value, and the translated
// code on a stack with the value on top; returns both stacks.
fn both_ways(param: &str, value: i32, body: Vec<Expr>) -> (Vec<Value>, Vec<Value>) {
    let mut bound = machine(nums(&[100]));
    bound.env.set(param, num(value));
    for expr in &body {
        let yielded = bound.eval_expr(expr).unwrap();
        if let Some(v) = yielded {
            bound.push(v);
        }
    }
    let code = borf::stack_effects::translate_quotation(&[named(param)], &body).unwrap();
    let mut translated = machine(nums(&[100, value]));
    for expr in &code {
        let yielded = translated.eval_expr(expr).unwrap();
        if let Some(v) = yielded {
            translated.push(v);
        }
    }
    (translated.stack, bound.stack)
}

#[test]
fn translation_of_one_parameter_keeps_what_the_body_does() {
    let n = Expr::Number;
    let bodies = vec![
        vec![w("x")],
        vec![w("x"), n(1), w("+")],
        vec![n(10), w("x"), w("-")],
        vec![w("x"), w("x"), w("*")],
        vec![w("x"), w("dup"), w("*"), w("x"), w("+")],
        vec![n(1), n(2), n(3), w("x"), w("-")],
        vec![n(1), n(2), n(3), n(4), w("x"), w("x"), w("swap"), w("drop")],
        vec![w("x"), w("x"), w("x"), w("rot"), w("over"), w("tuck"), w("nip")],
        vec![w("x"), n(3), w("<"), w("x"), w("and")],
    ];
    for body in bodies {
        let (translated, bound) = both_ways("x", 7, body.clone());
        assert_eq!(translated, bound, "{:?}", body);
    }
}

#[test]
fn translation_of_two_parameters_can_change_what_the_body_does() {
    // [x y -> x y -] on 3 4: the body means 3 - 4, the code computes 4 - 3.
    let mut evaluator = machine(nums(&[3, 4]));
    evaluator.push(quotation(&["x", "y"], vec![w("x"), w("y"), w("-")]));
    assert_eq!(evaluator.execute_operation("apply"), Ok(()));
    assert_eq!(evaluator.stack, nums(&[1]));
}

#[test]
fn peephole_can_change_what_the_code_does() {
    // x not x: the sweep takes `0 pick not` for `not`.
    let body = vec![w("x"), w("not"), w("x")];
    let code = borf::stack_effects::translate_quotation(&[named("x")], &body);
    assert_eq!(code, Ok(vec![w("not"), w("swap")]));
}

#[test]
fn a_failed_operation_leaves_the_machine_as_it_was() {
    let mut empty = machine(vec![]);
    assert_eq!(empty.execute_operation("drop"), eval_failure(EvalFailure::StackUnderflow));
    assert_eq!(empty.stack, vec![]);

    let mut division = machine(nums(&[1, 0]));
    assert_eq!(division.execute_operation("div"), eval_failure(EvalFailure::DivisionByZero));
    assert_eq!(division.stack, nums(&[1, 0]));

    let mut unknown = machine(nums(&[4]));
    assert_eq!(
        unknown.execute_operation("frobnicate"),
        eval_failure(EvalFailure::UnknownOperation)
    );
    assert_eq!(unknown.stack, nums(&[4]));

    let mut wrong = machine(vec![Value::String("a".to_string()), num(1)]);
    assert!(wrong.execute_operation("add").is_err());
    assert_eq!(wrong.stack, vec![Value::String("a".to_string()), num(1)]);
}

#[test]
fn a_failed_evaluation_is_undone() {
    let mut evaluator = machine(nums(&[5]));
    evaluator.env.set("x", num(1));
    let before = evaluator.clone();
    assert_eq!(
        evaluator.eval(""),
        Err(EvaluatorError::ParseError(borf::errors::ParseFailure::EmptyInput))
    );
    assert_eq!(evaluator.stack, before.stack);
    assert_eq!(evaluator.env, before.env);

    // The sequence pushes, binds and prints before it fails.
    let failing = Expr::Sequence(vec![
        Expr::Number(7),
        Expr::Assignment(Box::new(Expr::Number(2)), "y".to_string()),
        Expr::String("seen".to_string()),
        w("print"),
        Expr::Number(0),
        w("div"),
    ]);
    assert!(evaluator.eval_expr(&failing).is_err());
    assert_eq!(evaluator.stack, nums(&[5]));
    assert_eq!(evaluator.env, before.env);
    assert_eq!(evaluator.env.get("y"), None);
    assert_eq!(evaluator.take_output(), Vec::<String>::new());

    let mut with_resource = machine(vec![num(3), Value::String("File".to_string())]);
    let failing = Expr::Sequence(vec![w("create_resource"), Expr::Number(0), w("div")]);
    assert!(with_resource.eval_expr(&failing).is_err());
    assert_eq!(with_resource.stack, vec![num(3), Value::String("File".to_string())]);
    assert_eq!(with_resource.check_for_resource_leaks(), Ok(()));
}

#[test]
fn a_copy_of_a_machine_is_a_machine_of_its_own() {
    let mut evaluator = machine(nums(&[1, 2]));
    evaluator.start_borrowing_region();
    let handle = evaluator.create_resource("File", num(9));
    let copy = evaluator.clone();
    assert_eq!(copy.stack, evaluator.stack);
    assert_eq!(copy.env, evaluator.env);
    assert_eq!(copy.max_depth, evaluator.max_depth);
    assert_eq!(evaluator.consume_resource(&handle), Ok(num(9)));
    let mut copy = copy;
    assert_eq!(copy.consume_resource(&handle), Ok(num(9)));
    assert!(evaluator.consume_resource(&handle).is_err());
}
