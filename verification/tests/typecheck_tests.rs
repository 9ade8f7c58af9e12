use borf::errors::{EvalFailure, EvaluatorError, TypeFailure};
use borf::typecheck::{
    check_type, get_value_type, infer_type, is_numeric_type, process_type_quasiquote,
    types_compatible,
};
use borf::types::{Env, Expr, Param, Type, Value};
use borf::values::{equal_values, is_truthy, types_equal};

fn simple(name: &str) -> Type {
    Type::Simple(name.to_string())
}

fn any() -> Type {
    simple("Any")
}

fn type_error<T>(f: TypeFailure) -> Result<T, EvaluatorError> {
    Err(EvaluatorError::TypeError(f))
}

fn record(fields: &[(&str, Type)]) -> Type {
    Type::Record(fields.iter().map(|(n, t)| (n.to_string(), t.clone())).collect())
}

#[test]
fn types_of_values() {
    assert_eq!(get_value_type(&Value::Number(1)), simple("Num"));
    assert_eq!(get_value_type(&Value::String("a".to_string())), simple("String"));
    assert_eq!(get_value_type(&Value::Symbol("a".to_string())), simple("Symbol"));
    assert_eq!(get_value_type(&Value::Nothing), simple("Nothing"));
    assert_eq!(get_value_type(&Value::Nil), simple("Nil"));
    assert_eq!(get_value_type(&Value::Type(any())), simple("Type"));
    assert_eq!(get_value_type(&Value::QuotedType(any())), simple("QuotedType"));
    assert_eq!(get_value_type(&Value::Optional(None)), any());
    assert_eq!(
        get_value_type(&Value::List(vec![])),
        Type::Generic("List".to_string(), vec![any()])
    );
    assert_eq!(
        get_value_type(&Value::List(vec![Value::Number(1), Value::Number(2)])),
        Type::Generic("List".to_string(), vec![simple("Num")])
    );
    assert_eq!(
        get_value_type(&Value::List(vec![Value::Number(1), Value::Nil])),
        Type::Generic("List".to_string(), vec![any()])
    );
    assert_eq!(
        get_value_type(&Value::Record(vec![])),
        Type::Generic("Map".to_string(), vec![simple("String"), any()])
    );
    assert_eq!(
        get_value_type(&Value::Resource(0, Box::new(Value::Number(1)))),
        Type::Linear(Box::new(simple("Num")))
    );
    let params = vec![
        Param { name: "x".to_string(), type_annotation: Some(simple("Num")) },
        Param { name: "y".to_string(), type_annotation: None },
    ];
    assert_eq!(
        get_value_type(&Value::Quotation(params.clone(), vec![], None)),
        Type::Function(vec![simple("Num"), any()], Box::new(any()))
    );
    assert_eq!(
        get_value_type(&Value::TypedQuotation(params, vec![], simple("Bool"), None)),
        Type::Function(vec![simple("Num"), any()], Box::new(simple("Bool")))
    );
}

#[test]
fn which_type_fits_which() {
    let num = simple("Num");
    let list = |t: Type| Type::Generic("List".to_string(), vec![t]);
    assert!(types_compatible(&num, &num));
    assert!(types_compatible(&num, &any()));
    assert!(!types_compatible(&any(), &num));
    assert!(!types_compatible(&num, &simple("String")));
    assert!(types_compatible(&list(num.clone()), &list(any())));
    assert!(!types_compatible(&list(any()), &list(num.clone())));
    assert!(!types_compatible(&list(num.clone()), &Type::Generic("Set".to_string(), vec![any()])));
    assert!(types_compatible(
        &Type::Linear(Box::new(num.clone())),
        &Type::Linear(Box::new(any()))
    ));
    assert!(!types_compatible(&num, &Type::Linear(Box::new(num.clone()))));
    assert!(types_compatible(
        &Type::Optional(Box::new(num.clone())),
        &Type::Optional(Box::new(any()))
    ));
    let f = |ps: Vec<Type>, r: Type| Type::Function(ps, Box::new(r));
    assert!(types_compatible(&f(vec![num.clone()], num.clone()), &f(vec![any()], any())));
    assert!(!types_compatible(&f(vec![num.clone()], num.clone()), &f(vec![], any())));
    assert!(!types_compatible(&f(vec![any()], num.clone()), &f(vec![num.clone()], any())));
    // A record fits if it has at least the fields asked for.
    let wide = record(&[("x", num.clone()), ("y", simple("String"))]);
    let narrow = record(&[("x", any())]);
    assert!(types_compatible(&wide, &narrow));
    assert!(!types_compatible(&narrow, &wide));
    assert!(!types_compatible(&wide, &record(&[("x", simple("String"))])));
    // A union is fitted by what fits one of its members.
    let union = Type::Union(vec![simple("String"), num.clone()]);
    assert!(types_compatible(&num, &union));
    assert!(!types_compatible(&simple("Bool"), &union));
    assert!(!types_compatible(&num, &Type::Union(vec![])));
    assert!(is_numeric_type(&num));
    assert!(is_numeric_type(&simple("Int")));
    assert!(is_numeric_type(&simple("Float")));
    assert!(!is_numeric_type(&simple("String")));
    assert!(!is_numeric_type(&list(num)));
}

#[test]
fn checking_values() {
    assert_eq!(check_type(&Value::Number(1), &simple("Num")), Ok(()));
    assert_eq!(check_type(&Value::Number(1), &any()), Ok(()));
    assert_eq!(
        check_type(&Value::Number(1), &simple("String")),
        type_error(TypeFailure::Incompatible)
    );
    let linear = Type::Linear(Box::new(simple("Num")));
    assert_eq!(check_type(&Value::Resource(0, Box::new(Value::Number(1))), &linear), Ok(()));
    assert_eq!(check_type(&Value::Number(1), &linear), type_error(TypeFailure::Incompatible));
    assert_eq!(
        check_type(&Value::Resource(0, Box::new(Value::Nil)), &linear),
        type_error(TypeFailure::Incompatible)
    );
}

#[test]
fn inferring_types() {
    let mut env = Env::new();
    env.set("n", Value::Number(1));
    env.set("s", Value::String("a".to_string()));
    let sym = |name: &str| Expr::Symbol(name.to_string());
    let binary = |op: &str, a: Expr, b: Expr| Expr::Binary(op.to_string(), Box::new(a), Box::new(b));
    assert_eq!(infer_type(&env, &Expr::Number(1)), Ok(simple("Num")));
    assert_eq!(infer_type(&env, &Expr::String("a".to_string())), Ok(simple("String")));
    assert_eq!(infer_type(&env, &sym("n")), Ok(simple("Num")));
    assert_eq!(infer_type(&env, &sym("nope")), type_error(TypeFailure::UnboundName));
    assert_eq!(infer_type(&env, &binary("+", sym("n"), Expr::Number(2))), Ok(simple("Num")));
    assert_eq!(
        infer_type(&env, &binary("*", sym("n"), sym("s"))),
        type_error(TypeFailure::OperandMismatch)
    );
    assert_eq!(infer_type(&env, &binary("<=", sym("n"), sym("s"))), Ok(simple("Bool")));
    assert_eq!(infer_type(&env, &binary("and", sym("n"), sym("s"))), Ok(any()));
    assert_eq!(
        infer_type(&env, &Expr::Pipeline(Box::new(sym("nope")), Box::new(sym("s")))),
        Ok(simple("String"))
    );
    assert_eq!(
        infer_type(&env, &Expr::Quote(Box::new(Expr::Number(1)))),
        Ok(simple("Quote[Num]"))
    );
    assert_eq!(
        infer_type(&env, &Expr::TypeQuote(Box::new(simple("Num")))),
        Ok(simple("QuotedType"))
    );
    assert_eq!(
        infer_type(&env, &Expr::Quotation(
            vec![Param { name: "x".to_string(), type_annotation: Some(simple("Num")) }],
            vec![]
        )),
        Ok(Type::Function(vec![simple("Num")], Box::new(any())))
    );
    assert_eq!(infer_type(&env, &Expr::Nil), Ok(any()));
}

#[test]
fn type_templates() {
    let mut env = Env::new();
    env.set("T", Value::Type(simple("Num")));
    env.set("Q", Value::QuotedType(simple("String")));
    env.set("name", Value::String("List".to_string()));
    env.set("field", Value::String("x".to_string()));
    env.set("point", Value::Type(record(&[("x", simple("$T")), ("y", simple("Num"))])));
    env.set("n", Value::Number(1));
    let expand = |t: Type| process_type_quasiquote(&env, &t, 8);
    assert_eq!(expand(simple("Num")), Ok(simple("Num")));
    assert_eq!(expand(simple("$T")), Ok(simple("Num")));
    assert_eq!(expand(simple("$Q")), Ok(simple("String")));
    assert_eq!(expand(simple("$n")), type_error(TypeFailure::NotAType));
    assert_eq!(expand(simple("$nope")), type_error(TypeFailure::UnboundName));
    assert_eq!(
        expand(Type::Linear(Box::new(simple("$T")))),
        Ok(Type::Linear(Box::new(simple("Num"))))
    );
    assert_eq!(
        expand(Type::Generic("$name".to_string(), vec![simple("$T")])),
        Ok(Type::Generic("List".to_string(), vec![simple("Num")]))
    );
    assert_eq!(
        expand(Type::Generic("$T".to_string(), vec![])),
        type_error(TypeFailure::OperandMismatch)
    );
    assert_eq!(
        expand(Type::Union(vec![simple("$T"), simple("$Q")])),
        Ok(Type::Union(vec![simple("Num"), simple("String")]))
    );
    assert_eq!(
        expand(Type::Function(vec![simple("$T")], Box::new(simple("$Q")))),
        Ok(Type::Function(vec![simple("Num")], Box::new(simple("String"))))
    );
    // A field `name...` stands for the fields of the record that the name is bound to.
    assert_eq!(
        expand(record(&[("$field", simple("$Q")), ("point...", any()), ("z", simple("$T"))])),
        Ok(record(&[
            ("x", simple("String")),
            ("x", simple("Num")),
            ("y", simple("Num")),
            ("z", simple("Num")),
        ]))
    );
    assert_eq!(expand(record(&[("T...", any())])), type_error(TypeFailure::NotAType));
    assert_eq!(expand(record(&[("nope...", any())])), type_error(TypeFailure::UnboundName));
    assert_eq!(
        process_type_quasiquote(&env, &record(&[("point...", any())]), 0),
        Err(EvaluatorError::EvalError(EvalFailure::DepthExceeded))
    );
    assert_eq!(
        expand(Type::Variant(vec![("$field".to_string(), vec![simple("$T")])])),
        Ok(Type::Variant(vec![("x".to_string(), vec![simple("Num")])]))
    );
}

#[test]
fn type_template_operation() {
    let mut evaluator = borf::Evaluator::new();
    evaluator.env.set("T", Value::Type(simple("Num")));
    evaluator.push(Value::QuotedType(Type::Optional(Box::new(simple("$T")))));
    assert_eq!(evaluator.execute_operation("type_quasiquote"), Ok(()));
    assert_eq!(evaluator.stack, vec![Value::Type(Type::Optional(Box::new(simple("Num"))))]);
    assert_eq!(
        evaluator.execute_operation("type_quasiquote"),
        type_error(TypeFailure::NotQuoted)
    );
    assert_eq!(
        evaluator.process_type_quasiquote(&simple("$T")),
        Ok(simple("Num"))
    );
    assert_eq!(evaluator.infer_type(&Expr::Symbol("T".to_string())), Ok(simple("Type")));
    assert_eq!(evaluator.check_type(&Value::Nil, &simple("Nil")), Ok(()));
    assert_eq!(evaluator.get_value_type(&Value::Nil), Ok(simple("Nil")));
    assert!(evaluator.types_compatible(&simple("Nil"), &any()));
    assert_eq!(evaluator.type_to_string(&simple("Nil")), Ok("Nil".to_string()));
    assert!(evaluator.is_numeric_type(&simple("Num")));
}

#[test]
fn equality_and_truth() {
    assert!(types_equal(&record(&[("x", any())]), &record(&[("x", any())])));
    assert!(!types_equal(&record(&[("x", any())]), &record(&[("y", any())])));
    assert!(!types_equal(&simple("A"), &Type::Linear(Box::new(simple("A")))));
    assert!(equal_values(
        &Value::Variant("p".to_string(), vec![Value::Number(1)]),
        &Value::Variant("p".to_string(), vec![Value::Number(1)])
    ));
    assert!(!equal_values(
        &Value::Variant("p".to_string(), vec![Value::Number(1)]),
        &Value::Variant("q".to_string(), vec![Value::Number(1)])
    ));
    assert!(equal_values(
        &Value::Optional(Some(Box::new(Value::Nil))),
        &Value::Optional(Some(Box::new(Value::Nil)))
    ));
    assert!(!equal_values(&Value::Optional(None), &Value::Optional(Some(Box::new(Value::Nil)))));
    assert!(!equal_values(
        &Value::Resource(0, Box::new(Value::Nil)),
        &Value::Resource(1, Box::new(Value::Nil))
    ));
    assert!(is_truthy(&Value::Number(-1)));
    assert!(!is_truthy(&Value::Number(0)));
    assert!(!is_truthy(&Value::String(String::new())));
    assert!(is_truthy(&Value::String("false".to_string())));
    assert!(!is_truthy(&Value::Symbol("false".to_string())));
    assert!(is_truthy(&Value::Symbol("true".to_string())));
    assert!(!is_truthy(&Value::Nil));
    assert!(!is_truthy(&Value::Nothing));
    assert!(is_truthy(&Value::List(vec![])));
}
