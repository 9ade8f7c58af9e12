use borf::diagnostics::{BorfError, ParseFault};
use borf::effects::EffectType;
use borf::errors::{
    EvalFailure, EvaluatorError, ParseFailure, ResourceFailure, TranslationFailure, TypeFailure,
};
use borf::repl::{ReplAction, ReplEvent, ReplState};
use borf::runner::{comment_out_declarations, declares, passed, split_lines};
use borf::types::Value;
use miette::SourceSpan;

fn line(state: &mut ReplState, text: &str) -> ReplAction {
    state.step(ReplEvent::Line(text.to_string()))
}

#[test]
fn commands() {
    let mut state = ReplState::new();
    assert_eq!(line(&mut state, ":quit"), ReplAction::Quit);
    assert_eq!(line(&mut state, "  :q  "), ReplAction::Quit);
    assert_eq!(line(&mut state, ":help"), ReplAction::ShowHelp);
    assert_eq!(line(&mut state, ":h"), ReplAction::ShowHelp);
    assert_eq!(line(&mut state, ":clear"), ReplAction::ClearScreen);
    assert_eq!(line(&mut state, ":history"), ReplAction::ShowHistory);
    assert_eq!(line(&mut state, ":load a.borf"), ReplAction::LoadFile("a.borf".to_string()));
    assert_eq!(line(&mut state, ":load   a.borf b"), ReplAction::LoadFile("a.borf".to_string()));
    assert_eq!(line(&mut state, ":save out.txt"), ReplAction::SaveHistory("out.txt".to_string()));
    assert_eq!(line(&mut state, ":load"), ReplAction::UnknownCommand);
    assert_eq!(line(&mut state, ":load "), ReplAction::UnknownCommand);
    assert_eq!(line(&mut state, ":nope"), ReplAction::UnknownCommand);
    assert_eq!(line(&mut state, ":"), ReplAction::UnknownCommand);
    assert_eq!(state, ReplState::new());
}

#[test]
fn lines_to_evaluate() {
    let mut state = ReplState::new();
    assert_eq!(line(&mut state, "3 4 add"), ReplAction::Evaluate("3 4 add".to_string()));
    assert_eq!(line(&mut state, " dup "), ReplAction::Evaluate(" dup ".to_string()));
    assert_eq!(line(&mut state, ""), ReplAction::Ignore);
    assert_eq!(line(&mut state, "  \t"), ReplAction::Ignore);
    assert_eq!(state, ReplState::new());
}

#[test]
fn input_of_several_lines() {
    let mut state = ReplState::new();
    assert_eq!(line(&mut state, "[x ->\\"), ReplAction::ReadMore);
    assert!(state.in_multiline);
    assert_eq!(state.multiline_input, "[x ->\n");
    // In the middle of the input a line that begins with a colon is no command.
    assert_eq!(line(&mut state, ":q \\"), ReplAction::ReadMore);
    assert_eq!(line(&mut state, " \\ "), ReplAction::ReadMore);
    assert_eq!(state.multiline_input, "[x ->\n:q \n\n");
    assert_eq!(line(&mut state, "x]"), ReplAction::Evaluate("[x ->\n:q \n\nx]".to_string()));
    assert_eq!(state, ReplState::new());
    assert_eq!(line(&mut state, "\\"), ReplAction::ReadMore);
    assert_eq!(state.multiline_input, "\n");
    assert_eq!(line(&mut state, ""), ReplAction::Evaluate("\n".to_string()));
}

#[test]
fn interruptions() {
    let mut state = ReplState::new();
    assert_eq!(state.step(ReplEvent::Interrupted), ReplAction::HintExit);
    assert_eq!(line(&mut state, "a\\"), ReplAction::ReadMore);
    assert_eq!(state.step(ReplEvent::Interrupted), ReplAction::CancelMultiline);
    assert_eq!(state, ReplState::new());
    assert_eq!(state.step(ReplEvent::Eof), ReplAction::Quit);
    assert_eq!(state.step(ReplEvent::Failed), ReplAction::Stop);
}

#[test]
fn lines_of_a_file() {
    assert_eq!(split_lines(""), Vec::<String>::new());
    assert_eq!(split_lines("a"), vec!["a"]);
    assert_eq!(split_lines("a\n"), vec!["a"]);
    assert_eq!(split_lines("a\nb"), vec!["a", "b"]);
    assert_eq!(split_lines("a\r\nb\r\n"), vec!["a", "b"]);
    assert_eq!(split_lines("\n\na"), vec!["", "", "a"]);
    assert_eq!(split_lines("a\rb\n"), vec!["a\rb"]);
    assert_eq!(split_lines("a\r"), vec!["a\r"]);
    for text in ["", "a", "a\n", "a\nb", "a\r\nb\r\n", "\n\na", "a\rb\n", "a\r", "\r\n", "\n"] {
        assert_eq!(split_lines(text), text.lines().collect::<Vec<&str>>());
    }
}

#[test]
fn declarations_are_commented_out() {
    assert!(declares("module m"));
    assert!(declares("  import core"));
    assert!(!declares("module"));
    assert!(!declares("modules "));
    assert!(!declares("-- import x"));
    assert_eq!(
        comment_out_declarations("module m\n  import core\n1 2 add\nimported\n"),
        "-- module m\n--   import core\n1 2 add\nimported"
    );
    assert_eq!(comment_out_declarations(""), "");
}

#[test]
fn what_counts_as_a_pass() {
    assert!(passed(&Value::Symbol("true".to_string())));
    assert!(passed(&Value::Symbol(" true\n".to_string())));
    assert!(!passed(&Value::String("true".to_string())));
    assert!(!passed(&Value::Number(1)));
    assert!(!passed(&Value::Nil));
}

#[test]
fn errors_in_words() {
    assert_eq!(
        EvaluatorError::EvalError(EvalFailure::DivisionByZero).message(),
        "Evaluation error: Division by zero"
    );
    assert_eq!(
        EvaluatorError::EvalError(EvalFailure::StackUnderflow).message(),
        "Evaluation error: Not enough values on the stack"
    );
    assert_eq!(
        EvaluatorError::ParseError(ParseFailure::UnclosedQuotation).message(),
        "Parse error: Unclosed quotation"
    );
    assert_eq!(
        EvaluatorError::TypeError(TypeFailure::LinearViolation).message(),
        "Type error: Expected linear value for linear type"
    );
    assert_eq!(
        EvaluatorError::ResourceError(ResourceFailure::BorrowedActive).message(),
        "Resource error: Cannot consume borrowed resource"
    );
    assert_eq!(
        EvaluatorError::StackEffectError(TranslationFailure::NegativeDepth).message(),
        "Stack effect error: Invalid stack depth for parameter"
    );
    assert_eq!(
        EvaluatorError::FileError("no such file".to_string()).message(),
        "File error: no such file"
    );
    assert_eq!(ResourceFailure::Leak.message(), "Resource leak detected");
}

#[test]
fn effects_as_text() {
    for text in ["!creates[file]", "!consumes[a b]", "!uses[]", "!transfers[x]]", "!pure"] {
        assert_eq!(borf::effects::parse_effect(text).unwrap().to_text(), text);
    }
    assert_eq!(EffectType::Uses("db".to_string()).to_text(), "!uses[db]");
}

fn fault(message: &str, positives: Option<Vec<&str>>) -> ParseFault {
    ParseFault {
        message: message.to_string(),
        input: Some("[1 2".to_string()),
        line_col: Some((2, 5)),
        location: Some(3),
        positives: positives.map(|v| v.iter().map(|s| s.to_string()).collect()),
    }
}

#[test]
fn parse_faults() {
    let span = Some(SourceSpan::from((85, 1)));
    let src = Some("[1 2".to_string());
    assert_eq!(
        BorfError::from_parse_fault(fault("expected ]", Some(vec!["expr"]))),
        BorfError::UnterminatedDelimiter {
            delimiter: ']',
            src: src.clone(),
            opening_span: span,
            help: Some("Add closing ']' to complete this expression".to_string()),
        }
    );
    assert_eq!(
        BorfError::from_parse_fault(fault("expected \"x\" or (y)", Some(vec![]))),
        BorfError::UnterminatedDelimiter {
            delimiter: ')',
            src: src.clone(),
            opening_span: span,
            help: Some("Add closing ')' to complete this expression".to_string()),
        }
    );
    assert_eq!(
        BorfError::from_parse_fault(fault("expected atom", Some(vec!["number", "symbol"]))),
        BorfError::UnexpectedToken {
            found: "'2'".to_string(),
            expected: "number, symbol".to_string(),
            src: src.clone(),
            span,
            help: Some("Did you mean to use one of these: number, symbol?".to_string()),
        }
    );
    // A message that holds `expected` and a closing delimiter speaks of a
    // missing delimiter, also where it says `unexpected`.
    let mut at_end = fault("no more input", Some(vec![]));
    at_end.location = Some(4);
    at_end.line_col = None;
    assert_eq!(
        BorfError::from_parse_fault(at_end),
        BorfError::UnexpectedToken {
            found: "end of input".to_string(),
            expected: "end of input".to_string(),
            src: src.clone(),
            span: None,
            help: Some("Did you mean to use one of these: end of input?".to_string()),
        }
    );
    let mut nowhere = fault("odd", Some(vec!["a"]));
    nowhere.location = None;
    nowhere.input = None;
    assert_eq!(
        BorfError::from_parse_fault(nowhere),
        BorfError::UnexpectedToken {
            found: "unknown".to_string(),
            expected: "a".to_string(),
            src: None,
            span,
            help: Some("Did you mean to use one of these: a?".to_string()),
        }
    );
    assert_eq!(
        BorfError::from_parse_fault(fault("expected ] here", None)),
        BorfError::ParseError {
            message: "expected ] here".to_string(),
            src,
            span,
            help: "Check the syntax and ensure it follows Borf grammar rules".to_string(),
        }
    );
}
