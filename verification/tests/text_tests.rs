use borf::render::{join, type_to_string};
use borf::text::{
    chars_of, contains, ends_with, is_whitespace, read_number, render_int, render_nat, same_text,
    starts_with, trim_bounds, words_between,
};
use borf::types::{Param, Type, Value};

fn simple(name: &str) -> Type {
    Type::Simple(name.to_string())
}

fn text(s: &str) -> Value {
    Value::String(s.to_string())
}

#[test]
fn numbers_in_decimal() {
    assert_eq!(render_nat(0), "0");
    assert_eq!(render_nat(7), "7");
    assert_eq!(render_nat(10), "10");
    assert_eq!(render_nat(1234567890), "1234567890");
    assert_eq!(render_nat(u64::MAX), "18446744073709551615");
    assert_eq!(render_int(0), "0");
    assert_eq!(render_int(-1), "-1");
    assert_eq!(render_int(-2147483648), "-2147483648");
    assert_eq!(render_int(i64::MAX), "9223372036854775807");
    assert_eq!(render_int(i64::MIN), "-9223372036854775808");
}

#[test]
fn numbers_from_decimal() {
    assert_eq!(read_number("0"), Some(0));
    assert_eq!(read_number("42"), Some(42));
    assert_eq!(read_number("-42"), Some(-42));
    assert_eq!(read_number("+42"), Some(42));
    assert_eq!(read_number("007"), Some(7));
    assert_eq!(read_number("2147483647"), Some(i32::MAX));
    assert_eq!(read_number("-2147483648"), Some(i32::MIN));
    assert_eq!(read_number("2147483648"), None);
    assert_eq!(read_number("-2147483649"), None);
    assert_eq!(read_number("99999999999999999999999"), None);
    assert_eq!(read_number(""), None);
    assert_eq!(read_number("-"), None);
    assert_eq!(read_number("+"), None);
    assert_eq!(read_number("1a"), None);
    assert_eq!(read_number(" 1"), None);
    assert_eq!(read_number("1_000"), None);
    assert_eq!(read_number("--1"), None);
}

#[test]
fn parts_of_texts() {
    let s = chars_of("héllo wörld");
    assert_eq!(s.len(), 11);
    assert!(starts_with(&s, "hé"));
    assert!(starts_with(&s, ""));
    assert!(!starts_with(&s, "he"));
    assert!(ends_with(&s, "wörld"));
    assert!(!ends_with(&s, "héllo wörld!"));
    assert!(contains(&s, "lo w"));
    assert!(contains(&s, ""));
    assert!(contains(&s, "d"));
    assert!(!contains(&s, "ow"));
    assert!(same_text("a", "a"));
    assert!(!same_text("a", "b"));
}

#[test]
fn white_space() {
    for c in [' ', '\t', '\n', '\r', '\u{0B}', '\u{0C}', '\u{85}', '\u{A0}', '\u{2003}', '\u{3000}'] {
        assert!(is_whitespace(c));
        assert!(c.is_whitespace());
    }
    for c in ['a', '0', '-', '\u{200B}', '\u{0}'] {
        assert!(!is_whitespace(c));
        assert!(!c.is_whitespace());
    }
    let s = chars_of("  a b \n");
    assert_eq!(trim_bounds(&s), (2, 5));
    let blank = chars_of(" \t ");
    let (from, to) = trim_bounds(&blank);
    assert_eq!(from, to);
    let source = " one  two\tthree ";
    let chars = chars_of(source);
    assert_eq!(words_between(source, &chars, 0, chars.len()), vec!["one", "two", "three"]);
    assert_eq!(words_between(source, &chars, 2, 8), vec!["ne", "tw"]);
    assert_eq!(words_between(source, &chars, 4, 5), Vec::<String>::new());
}

#[test]
fn joining() {
    let parts = |v: &[&str]| v.iter().map(|s| s.to_string()).collect::<Vec<String>>();
    assert_eq!(join(&parts(&[]), ", "), "");
    assert_eq!(join(&parts(&["a"]), ", "), "a");
    assert_eq!(join(&parts(&["a", "b", "c"]), ", "), "a, b, c");
    assert_eq!(join(&parts(&["", ""]), "-"), "-");
}

#[test]
fn types_as_text() {
    assert_eq!(type_to_string(&simple("Num")), "Num");
    assert_eq!(type_to_string(&Type::Linear(Box::new(simple("File")))), "!File");
    assert_eq!(type_to_string(&Type::Optional(Box::new(simple("Num")))), "?Num");
    assert_eq!(
        type_to_string(&Type::Generic("Map".to_string(), vec![simple("String"), simple("Num")])),
        "Map[String, Num]"
    );
    assert_eq!(type_to_string(&Type::Generic("Unit".to_string(), vec![])), "Unit[]");
    assert_eq!(type_to_string(&Type::Union(vec![simple("A"), simple("B")])), "A | B");
    assert_eq!(
        type_to_string(&Type::Record(vec![
            ("x".to_string(), simple("Num")),
            ("y".to_string(), simple("String")),
        ])),
        "{ x: Num, y: String }"
    );
    assert_eq!(
        type_to_string(&Type::Variant(vec![
            ("some".to_string(), vec![simple("A"), simple("B")]),
            ("none".to_string(), vec![]),
        ])),
        "{ some: A, B | none:  }"
    );
    assert_eq!(
        type_to_string(&Type::Function(
            vec![simple("A"), simple("B")],
            Box::new(Type::Optional(Box::new(simple("C"))))
        )),
        "(A, B) => ?C"
    );
}

#[test]
fn values_as_text() {
    assert_eq!(Value::Number(42).to_text(), "42");
    assert_eq!(Value::Number(-7).to_text(), "-7");
    assert_eq!(Value::Number(i32::MIN).to_text(), "-2147483648");
    assert_eq!(text("hi").to_text(), "\"hi\"");
    assert_eq!(Value::Symbol("dup".to_string()).to_text(), "dup");
    assert_eq!(Value::Quotation(vec![], vec![], None).to_text(), "[...]");
    let p = Param { name: "x".to_string(), type_annotation: None };
    assert_eq!(
        Value::TypedQuotation(vec![p], vec![], simple("Num"), None).to_text(),
        "[...] : Type"
    );
    assert_eq!(Value::List(vec![]).to_text(), "[]");
    assert_eq!(
        Value::List(vec![Value::Number(1), text("a"), Value::List(vec![Value::Nil])]).to_text(),
        "[1, \"a\", [nil]]"
    );
    assert_eq!(Value::Record(vec![("a".to_string(), Value::Nil)]).to_text(), "{...}");
    assert_eq!(Value::Quoted(Box::new(Value::Number(1))).to_text(), "'1");
    assert_eq!(Value::Quasiquoted(Box::new(Value::Number(1))).to_text(), "`1");
    assert_eq!(Value::Type(simple("Num")).to_text(), "Num");
    assert_eq!(Value::QuotedType(simple("Num")).to_text(), "#Num");
    assert_eq!(Value::Module("m".to_string(), vec![]).to_text(), "module m");
    assert_eq!(Value::Resource(3, Box::new(text("f"))).to_text(), "resource(3, \"f\")");
    assert_eq!(
        Value::BorrowedResource(12, Box::new(Value::Number(0))).to_text(),
        "borrowed(12, 0)"
    );
    assert_eq!(Value::Optional(Some(Box::new(Value::Number(1)))).to_text(), "?1");
    assert_eq!(Value::Optional(None).to_text(), "Nothing");
    assert_eq!(Value::Nothing.to_text(), "Nothing");
    assert_eq!(Value::Variant("none".to_string(), vec![]).to_text(), "none");
    assert_eq!(
        Value::Variant("pair".to_string(), vec![Value::Number(1), Value::Number(2)]).to_text(),
        "pair(1, 2)"
    );
    assert_eq!(Value::Nil.to_text(), "nil");
    assert_eq!(Value::Number(5).green(), "5");
    assert_eq!(text(" a ").trim(), "\" a \"");
    assert_eq!(Value::Symbol("  true \n".to_string()).trim(), "true");
}

#[test]
fn machine_shows_resources_with_their_type() {
    let mut evaluator = borf::Evaluator::new();
    let r = evaluator.create_resource("file", Value::Number(1));
    assert_eq!(evaluator.value_to_string(&r), "resource(0, file)");
    // A resource that the machine does not know is shown as it is.
    let unknown = Value::Resource(9, Box::new(Value::Number(1)));
    assert_eq!(evaluator.value_to_string(&unknown), "resource(9, 1)");
    assert_eq!(evaluator.value_to_string(&Value::Number(3)), "3");
}

#[test]
fn empty_values() {
    assert!(text("").is_empty());
    assert!(!text("a").is_empty());
    assert!(Value::List(vec![]).is_empty());
    assert!(!Value::List(vec![Value::Nil]).is_empty());
    assert!(Value::Record(vec![]).is_empty());
    assert!(Value::Nil.is_empty());
    assert!(Value::Nothing.is_empty());
    assert!(!Value::Number(0).is_empty());
    assert!(!Value::Optional(None).is_empty());
}
