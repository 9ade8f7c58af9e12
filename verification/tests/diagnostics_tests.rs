use borf::diagnostics::{BorfError, BorfSpan};
use miette::SourceSpan;

#[test]
fn span_as_source_span() {
    let span = BorfSpan::new(7, 12, 2, 3, "hello".to_string());
    let source_span = span.to_source_span();
    assert_eq!(source_span.offset(), 7);
    assert_eq!(source_span.len(), 5);
    assert_eq!(span.to_text(), "line 2, column 3");
    assert_eq!(span.clone(), span);
    let empty = BorfSpan::new(4, 4, 1, 5, String::new());
    assert_eq!(empty.to_source_span(), SourceSpan::from((4, 0)));
}

#[test]
fn span_between_two_positions() {
    let input = "a\nbc d";
    let first = pest::Position::new(input, 2).unwrap();
    let second = pest::Position::new(input, 4).unwrap();
    assert_eq!(
        BorfSpan::try_from_pest_span(first.span(&second)),
        Some(BorfSpan::new(2, 4, 2, 1, "bc".to_string()))
    );
    let whole = BorfSpan::try_from_pest_span(first.span(&second)).unwrap();
    assert_eq!(whole.to_source_span(), miette::SourceSpan::from((2, 2)));
}

#[test]
fn span_from_pest_span() {
    let input = "dup\n  swap drop";
    let span = pest::Span::new(input, 6, 10).unwrap();
    assert_eq!(
        BorfSpan::from_pest_span(span),
        BorfSpan::new(6, 10, 2, 3, "swap".to_string())
    );
}

#[test]
fn stack_underflow_help() {
    let span = Some(SourceSpan::from((3, 4)));
    assert_eq!(
        BorfError::stack_underflow(3, 1, Some("a b".to_string()), span),
        BorfError::StackUnderflow {
            depth: 3,
            available: 1,
            src: Some("a b".to_string()),
            span,
            help: Some(
                "You're trying to access an item at depth 3, but only 1 item(s) are available \
                 on the stack. Make sure your stack has enough items before this operation."
                    .to_string()
            ),
        }
    );
    assert_eq!(
        BorfError::stack_underflow(1, 1, None, None),
        BorfError::StackUnderflow {
            depth: 1,
            available: 1,
            src: None,
            span: None,
            help: Some("Check that your stack operations are balanced.".to_string()),
        }
    );
}

#[test]
fn type_mismatch_help() {
    assert_eq!(
        BorfError::type_mismatch("Num", "String", None, None),
        BorfError::TypeMismatch {
            expected: "Num".to_string(),
            found: "String".to_string(),
            src: None,
            span: None,
            help: Some(
                "Expected a value of type 'Num' but found 'String'.\n             Check that \
                 the types of your expressions match what the operation expects."
                    .to_string()
            ),
        }
    );
}

#[test]
fn undefined_symbol_notes() {
    let span = SourceSpan::from((2, 3));
    assert_eq!(
        BorfError::undefined_symbol(
            "dpu",
            vec!["dup".to_string(), "dip".to_string()],
            None,
            Some(span)
        ),
        BorfError::UndefinedSymbol {
            name: "dpu".to_string(),
            src: None,
            span: Some(span),
            similar_names: vec![
                (span, "Did you mean 'dup'?".to_string()),
                (span, "Did you mean 'dip'?".to_string()),
            ],
            help: Some("Did you mean 'dup'?".to_string()),
        }
    );
    assert_eq!(
        BorfError::undefined_symbol("x", vec![], None, None),
        BorfError::UndefinedSymbol {
            name: "x".to_string(),
            src: None,
            span: None,
            similar_names: vec![],
            help: Some("Make sure the symbol is defined before it's used.".to_string()),
        }
    );
}

#[test]
fn unknown_parameter_notes() {
    // Without a place, the notes stand at the beginning of the source.
    assert_eq!(
        BorfError::unknown_parameter("z", vec!["x".to_string()], None, None),
        BorfError::UnknownParameter {
            name: "z".to_string(),
            src: None,
            span: None,
            params_available: vec![(SourceSpan::from((0, 0)), "Available parameter: 'x'".to_string())],
        }
    );
}

#[test]
fn other_errors() {
    assert_eq!(
        BorfError::parameter_depth_error("x", -1, None, None),
        BorfError::ParameterDepthError { name: "x".to_string(), depth: -1, src: None, span: None }
    );
    assert_eq!(
        BorfError::invalid_stack_effect("no separator", None, None),
        BorfError::InvalidStackEffect {
            message: "no separator".to_string(),
            src: None,
            span: None,
            help: Some(
                "Stack effect declarations should have the form '( input1 input2 -- output1 \
                 output2 )'. Check that you have the correct format with inputs, the -- \
                 separator, and outputs."
                    .to_string()
            ),
        }
    );
}
