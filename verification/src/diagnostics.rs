//! Diagnostics: where in a source text something was found, and errors
//! with what is needed to show them.

use miette::SourceSpan;
use pest::Span;
use vstd::prelude::*;
use crate::errors::TranslationFailure;
use crate::render::{join, joined};
use crate::syntax::{SyntaxError, SyntaxErrorView};
use crate::text::{
    chars_of, contains, contains_text, decimal_digits, render_nat, strings_view,
};

verus! {

/// `SourceSpan` of miette: a place in a source, by offset and length.
#[verifier::external_type_specification]
#[verifier::external_body]
pub struct ExSourceSpan(SourceSpan);

/// `Span` of pest: a part of an input.
#[verifier::external_type_specification]
#[verifier::external_body]
pub struct ExSpan<'i>(Span<'i>);

/// The span of `len` bytes that begins `offset` bytes into a source.
pub uninterp spec fn source_span_of(offset: usize, len: usize) -> SourceSpan;

/// `SourceSpan::from` of miette, for a pair of an offset and a length. The
/// result is the span with that offset and that length: the conversion
/// stores the two numbers as they are.
#[verifier::external_body]
fn source_span(offset: usize, len: usize) -> (r: SourceSpan)
    ensures
        r == source_span_of(offset, len),
{
    SourceSpan::from((offset, len))
}

/// The offset of the first byte of a span in its input.
pub uninterp spec fn span_start_of(span: Span) -> usize;

/// The offset behind the last byte of a span in its input.
pub uninterp spec fn span_end_of(span: Span) -> usize;

/// The line and the column at which a span begins, both counted from 1.
pub uninterp spec fn span_line_col_of(span: Span) -> (usize, usize);

/// The part of its input that a span covers.
pub uninterp spec fn span_text_of(span: Span) -> Seq<char>;

/// `Span::start` of pest. The result is the offset at which the span
/// begins: the method hands out the number that the span holds.
#[verifier::external_body]
fn span_start(span: &Span) -> (r: usize)
    ensures
        r == span_start_of(*span),
{
    span.start()
}

/// `Span::end` of pest. The result is the offset at which the span ends:
/// the method hands out the number that the span holds.
#[verifier::external_body]
fn span_end(span: &Span) -> (r: usize)
    ensures
        r == span_end_of(*span),
{
    span.end()
}

/// `Position::line_col` of pest, at the position where the span begins.
/// The result is the line and the column of that position, which pest
/// counts from the span's input and its start alone; it begins both
/// counts at 1 and only adds to them.
#[verifier::external_body]
fn span_line_col(span: &Span) -> (r: (usize, usize))
    ensures
        r == span_line_col_of(*span),
        r.0 >= 1,
        r.1 >= 1,
{
    span.start_pos().line_col()
}

/// `Span::as_str` of pest. The result holds the part of the input between
/// the span's start and its end. pest slices the input there, which fails
/// for a span that ends before it begins; such a span is left out.
#[verifier::external_body]
fn span_text(span: &Span) -> (r: String)
    requires
        span_start_of(*span) <= span_end_of(*span),
    ensures
        r@ == span_text_of(*span),
{
    span.as_str().to_string()
}

/// A place in a source text.
#[derive(Debug, PartialEq)]
pub struct BorfSpan {
    /// The offset of the first byte.
    pub start: usize,
    /// The offset behind the last byte.
    pub end: usize,
    /// The line, counted from 1.
    pub line: usize,
    /// The column, counted from 1.
    pub column: usize,
    /// The text of the place.
    pub snippet: String,
}

impl Clone for BorfSpan {
    fn clone(&self) -> (r: Self)
        ensures
            r.start == self.start,
            r.end == self.end,
            r.line == self.line,
            r.column == self.column,
            r.snippet@ == self.snippet@,
    {
        BorfSpan {
            start: self.start,
            end: self.end,
            line: self.line,
            column: self.column,
            snippet: self.snippet.clone(),
        }
    }
}

impl BorfSpan {
    /// A place, from its parts.
    pub fn new(start: usize, end: usize, line: usize, column: usize, snippet: String) -> (r:
        BorfSpan)
        ensures
            r.start == start,
            r.end == end,
            r.line == line,
            r.column == column,
            r.snippet == snippet,
    {
        BorfSpan { start, end, line, column, snippet }
    }

    /// Whether a span of pest's `span` is the place `self`: where it begins
    /// and ends, the line and the column at which it begins, and its text.
    pub open spec fn covers(self, span: Span) -> bool {
        &&& self.start == span_start_of(span)
        &&& self.end == span_end_of(span)
        &&& (self.line, self.column) == span_line_col_of(span)
        &&& self.snippet@ == span_text_of(span)
        &&& self.start <= self.end
        &&& self.line >= 1
        &&& self.column >= 1
    }

    /// The place that a span of pest covers. The span must not end before
    /// it begins; of a span that may, ask [`BorfSpan::try_from_pest_span`].
    pub fn from_pest_span(span: Span) -> (r: BorfSpan)
        requires
            span_start_of(span) <= span_end_of(span),
        ensures
            r.covers(span),
    {
        let (line, column) = span_line_col(&span);
        BorfSpan {
            start: span_start(&span),
            end: span_end(&span),
            line,
            column,
            snippet: span_text(&span),
        }
    }

    /// The place that a span of pest covers, or nothing for a span that
    /// ends before it begins.
    pub fn try_from_pest_span(span: Span) -> (r: Option<BorfSpan>)
        ensures
            match r {
                Some(place) => place.covers(span),
                None => span_start_of(span) > span_end_of(span),
            },
    {
        if span_start(&span) <= span_end(&span) {
            Some(BorfSpan::from_pest_span(span))
        } else {
            None
        }
    }

    /// The place as a span of miette: it begins at `start` and is as long
    /// as the place.
    pub fn to_source_span(&self) -> (r: SourceSpan)
        requires
            self.start <= self.end,
        ensures
            r == source_span_of(self.start, (self.end - self.start) as usize),
    {
        source_span(self.start, self.end - self.start)
    }

    /// The place as text: `line L, column C`.
    pub fn to_text(&self) -> (r: String)
        ensures
            r@ == "line "@ + decimal_digits(self.line as nat) + ", column "@ + decimal_digits(
                self.column as nat,
            ),
    {
        let mut s = "line ".to_owned();
        s.append(render_nat(self.line as u64).as_str());
        s.append(", column ");
        s.append(render_nat(self.column as u64).as_str());
        s
    }
}

/// An error with what is needed to show it: the source, the place, and help.
#[derive(Debug, PartialEq)]
pub enum BorfError {
    /// A file could not be read; the text says why.
    FileError(String),
    ParseError { message: String, src: Option<String>, span: Option<SourceSpan>, help: String },
    UnexpectedToken {
        found: String,
        expected: String,
        src: Option<String>,
        span: Option<SourceSpan>,
        help: Option<String>,
    },
    UnterminatedDelimiter {
        delimiter: char,
        src: Option<String>,
        opening_span: Option<SourceSpan>,
        help: Option<String>,
    },
    UnmatchedDelimiter { found: char, src: Option<String>, span: Option<SourceSpan> },
    StackEffectError { message: String, src: Option<String>, span: Option<SourceSpan>, help: String },
    InvalidStackEffect {
        message: String,
        src: Option<String>,
        span: Option<SourceSpan>,
        help: Option<String>,
    },
    StackUnderflow {
        depth: usize,
        available: usize,
        src: Option<String>,
        span: Option<SourceSpan>,
        help: Option<String>,
    },
    UnknownParameter {
        name: String,
        src: Option<String>,
        span: Option<SourceSpan>,
        params_available: Vec<(SourceSpan, String)>,
    },
    ParameterDepthError { name: String, depth: isize, src: Option<String>, span: Option<SourceSpan> },
    EvalError { message: String, src: Option<String>, span: Option<SourceSpan>, help: String },
    UndefinedSymbol {
        name: String,
        src: Option<String>,
        span: Option<SourceSpan>,
        similar_names: Vec<(SourceSpan, String)>,
        help: Option<String>,
    },
    InvalidOperation {
        operation: String,
        types: String,
        src: Option<String>,
        span: Option<SourceSpan>,
        help: Option<String>,
    },
    TypeError { message: String, src: Option<String>, span: Option<SourceSpan>, help: String },
    TypeMismatch {
        expected: String,
        found: String,
        src: Option<String>,
        span: Option<SourceSpan>,
        help: Option<String>,
    },
    MissingField {
        field: String,
        src: Option<String>,
        span: Option<SourceSpan>,
        help: Option<String>,
    },
    ResourceError { message: String, src: Option<String>, span: Option<SourceSpan> },
    ImportError {
        module: String,
        reason: String,
        src: Option<String>,
        span: Option<SourceSpan>,
        help: Option<String>,
    },
    GenericError {
        message: String,
        src: Option<String>,
        span: Option<SourceSpan>,
        label: String,
        help: Option<String>,
    },
}

/// The help for a stack underflow.
pub open spec fn underflow_help(depth: usize, available: usize) -> Seq<char> {
    if depth > available {
        "You're trying to access an item at depth "@ + decimal_digits(depth as nat)
            + ", but only "@ + decimal_digits(available as nat)
            + " item(s) are available on the stack. Make sure your stack has enough items before this operation."@
    } else {
        "Check that your stack operations are balanced."@
    }
}

/// The help for a type mismatch.
pub open spec fn mismatch_help(expected: Seq<char>, found: Seq<char>) -> Seq<char> {
    "Expected a value of type '"@ + expected + "' but found '"@ + found
        + "'.\n             Check that the types of your expressions match what the operation expects."@
}

/// `head`, then `name` between single quotes, then `tail`.
pub open spec fn quoting(head: Seq<char>, name: Seq<char>, tail: Seq<char>) -> Seq<char> {
    head + "'"@ + name + "'"@ + tail
}

/// `head`, then `name` between single quotes, then `tail`.
fn quote_name(head: &str, name: &str, tail: &str) -> (r: String)
    ensures
        r@ == quoting(head@, name@, tail@),
{
    let mut s = head.to_owned();
    s.append("'");
    s.append(name);
    s.append("'");
    s.append(tail);
    s
}

/// The notes that go with a list of names: each name in a sentence, at
/// the place `span`, or at the beginning of the source if there is none.
pub open spec fn notes_for(
    notes: Seq<(SourceSpan, String)>,
    names: Seq<String>,
    span: Option<SourceSpan>,
    head: Seq<char>,
    tail: Seq<char>,
) -> bool {
    &&& notes.len() == names.len()
    &&& forall|i: int|
        0 <= i < names.len() ==> (#[trigger] notes[i]).0 == (match span {
            Some(s) => s,
            None => source_span_of(0, 0),
        }) && notes[i].1@ == quoting(head, names[i]@, tail)
}

/// The notes that go with a list of names.
fn notes(names: &Vec<String>, span: Option<SourceSpan>, head: &str, tail: &str) -> (r: Vec<
    (SourceSpan, String),
>)
    ensures
        notes_for(r@, names@, span, head@, tail@),
{
    let place = match span {
        Some(s) => s,
        None => source_span(0, 0),
    };
    let mut out: Vec<(SourceSpan, String)> = Vec::new();
    let mut i: usize = 0;
    while i < names.len()
        invariant
            i <= names.len(),
            out.len() == i,
            place == (match span {
                Some(s) => s,
                None => source_span_of(0, 0),
            }),
            forall|j: int|
                0 <= j < i ==> (#[trigger] out@[j]).0 == place && out@[j].1@ == quoting(
                    head@,
                    names@[j]@,
                    tail@,
                ),
        decreases names.len() - i,
    {
        out.push((place, quote_name(head, names[i].as_str(), tail)));
        i += 1;
    }
    out
}

impl BorfError {
    /// A stack underflow, with help that says how many items were missing.
    pub fn stack_underflow(
        depth: usize,
        available: usize,
        src: Option<String>,
        span: Option<SourceSpan>,
    ) -> (r: BorfError)
        ensures
            r matches BorfError::StackUnderflow { depth: d, available: a, src: s, span: p, help: Some(h) }
                && d == depth && a == available && s == src && p == span && h@ == underflow_help(
                depth,
                available,
            ),
    {
        let help = if depth > available {
            let mut s = "You're trying to access an item at depth ".to_owned();
            s.append(render_nat(depth as u64).as_str());
            s.append(", but only ");
            s.append(render_nat(available as u64).as_str());
            s.append(
                " item(s) are available on the stack. Make sure your stack has enough items before this operation.",
            );
            s
        } else {
            "Check that your stack operations are balanced.".to_owned()
        };
        BorfError::StackUnderflow { depth, available, src, span, help: Some(help) }
    }

    /// A type mismatch, with help that names both types.
    pub fn type_mismatch(
        expected: &str,
        found: &str,
        src: Option<String>,
        span: Option<SourceSpan>,
    ) -> (r: BorfError)
        ensures
            r matches BorfError::TypeMismatch { expected: e, found: f, src: s, span: p, help: Some(h) }
                && e@ == expected@ && f@ == found@ && s == src && p == span && h@ == mismatch_help(
                expected@,
                found@,
            ),
    {
        let mut help = "Expected a value of type '".to_owned();
        help.append(expected);
        help.append("' but found '");
        help.append(found);
        help.append(
            "'.\n             Check that the types of your expressions match what the operation expects.",
        );
        BorfError::TypeMismatch {
            expected: expected.to_owned(),
            found: found.to_owned(),
            src,
            span,
            help: Some(help),
        }
    }

    /// An undefined symbol, with the names that come near it as notes; the
    /// help proposes the first of them.
    pub fn undefined_symbol(
        name: &str,
        similar: Vec<String>,
        src: Option<String>,
        span: Option<SourceSpan>,
    ) -> (r: BorfError)
        ensures
            r matches BorfError::UndefinedSymbol {
                name: n,
                src: s,
                span: p,
                similar_names: notes,
                help: Some(h),
            } && n@ == name@ && s == src && p == span && notes_for(
                notes@,
                similar@,
                span,
                "Did you mean "@,
                "?"@,
            ) && h@ == if similar@.len() > 0 {
                quoting("Did you mean "@, similar@[0]@, "?"@)
            } else {
                "Make sure the symbol is defined before it's used."@
            },
    {
        let related = notes(&similar, span, "Did you mean ", "?");
        let help = if similar.len() > 0 {
            quote_name("Did you mean ", similar[0].as_str(), "?")
        } else {
            "Make sure the symbol is defined before it's used.".to_owned()
        };
        BorfError::UndefinedSymbol {
            name: name.to_owned(),
            src,
            span,
            similar_names: related,
            help: Some(help),
        }
    }

    /// An unknown parameter, with the parameters there are as notes.
    pub fn unknown_parameter(
        name: &str,
        available: Vec<String>,
        src: Option<String>,
        span: Option<SourceSpan>,
    ) -> (r: BorfError)
        ensures
            r matches BorfError::UnknownParameter { name: n, src: s, span: p, params_available: notes }
                && n@ == name@ && s == src && p == span && notes_for(
                notes@,
                available@,
                span,
                "Available parameter: "@,
                ""@,
            ),
    {
        let related = notes(&available, span, "Available parameter: ", "");
        BorfError::UnknownParameter { name: name.to_owned(), src, span, params_available: related }
    }

    /// A parameter that could not be reached at the depth computed for it.
    pub fn parameter_depth_error(
        name: &str,
        depth: isize,
        src: Option<String>,
        span: Option<SourceSpan>,
    ) -> (r: BorfError)
        ensures
            r matches BorfError::ParameterDepthError { name: n, depth: d, src: s, span: p } && n@
                == name@ && d == depth && s == src && p == span,
    {
        BorfError::ParameterDepthError { name: name.to_owned(), depth, src, span }
    }

    /// An invalid stack effect declaration, with help that shows the form.
    pub fn invalid_stack_effect(message: &str, src: Option<String>, span: Option<SourceSpan>) -> (r:
        BorfError)
        ensures
            r matches BorfError::InvalidStackEffect { message: m, src: s, span: p, help: Some(h) }
                && m@ == message@ && s == src && p == span && h@
                == "Stack effect declarations should have the form '( input1 input2 -- output1 output2 )'. Check that you have the correct format with inputs, the -- separator, and outputs."@,
    {
        BorfError::InvalidStackEffect {
            message: message.to_owned(),
            src,
            span,
            help: Some(
                "Stack effect declarations should have the form '( input1 input2 -- output1 output2 )'. Check that you have the correct format with inputs, the -- separator, and outputs.".to_owned(),
            ),
        }
    }
}

/// What a parser says of an input that it could not read.
#[derive(Debug, PartialEq)]
pub struct ParseFault {
    /// The parser's own words.
    pub message: String,
    /// The input, if it is at hand.
    pub input: Option<String>,
    /// The line and the column of the fault, both counted from 1.
    pub line_col: Option<(usize, usize)>,
    /// The index of the character at which the parser gave up.
    pub location: Option<usize>,
    /// The names of what the parser would have taken; `None` where the
    /// fault is not one of an unexpected input.
    pub positives: Option<Vec<String>>,
}

/// The offset that stands for a line and a column: lines count as 80 wide.
pub open spec fn rough_offset(line: usize, column: usize) -> int {
    (line - 1) * 80 + column
}

/// What was expected: the names, or the end of the input if there are none.
pub open spec fn expected_text(positives: Seq<Seq<char>>) -> Seq<char> {
    if positives.len() == 0 {
        "end of input"@
    } else {
        joined(positives, ", "@)
    }
}

/// What was found at `location`: the character there between single
/// quotes, or the end of the input.
pub open spec fn found_text(input: Option<Seq<char>>, location: Option<usize>) -> Seq<char> {
    match location {
        None => "unknown"@,
        Some(pos) => match input {
            Some(text) => if pos < text.len() {
                "'"@ + text.subrange(pos as int, pos + 1) + "'"@
            } else {
                "end of input"@
            },
            None => "end of input"@,
        },
    }
}

/// The delimiter that a message speaks of, if it speaks of an expected one:
/// `]`, `)`, `}` or `"`, whichever it names first in this order.
pub open spec fn missing_delimiter(message: Seq<char>) -> Option<char> {
    if !contains_text(message, "expected"@) {
        None
    } else if contains_text(message, "]"@) {
        Some(']')
    } else if contains_text(message, ")"@) {
        Some(')')
    } else if contains_text(message, "}"@) {
        Some('}')
    } else if contains_text(message, "\""@) {
        Some('"')
    } else {
        None
    }
}

/// A character as text.
fn delimiter_text(c: char) -> (r: &'static str)
    requires
        c == ']' || c == ')' || c == '}' || c == '"',
    ensures
        r@ == seq![c],
{
    proof {
        reveal_strlit("]");
        reveal_strlit(")");
        reveal_strlit("}");
        reveal_strlit("\"");
    }
    let r = if c == ']' {
        "]"
    } else if c == ')' {
        ")"
    } else if c == '}' {
        "}"
    } else {
        "\""
    };
    assert(r@ =~= seq![c]);
    r
}

impl BorfError {
    /// The error for an input that a parser could not read. A fault whose
    /// message speaks of an expected closing delimiter is an unterminated
    /// delimiter; another fault of an unexpected input is an unexpected
    /// token, with what was found and what was expected; any other fault
    /// is a parse error.
    #[verifier::rlimit(40)]
    pub fn from_parse_fault(fault: ParseFault) -> (r: BorfError)
        requires
            fault.line_col matches Some((line, column)) ==> line >= 1 && rough_offset(line, column)
                <= usize::MAX,
        ensures
            match fault.positives {
                None => r matches BorfError::ParseError { message, src, span, help } && message
                    == fault.message && src == fault.input && span == fault_span(fault.line_col)
                    && help@ == "Check the syntax and ensure it follows Borf grammar rules"@,
                Some(positives) => match missing_delimiter(fault.message@) {
                    Some(c) => r matches BorfError::UnterminatedDelimiter {
                        delimiter,
                        src,
                        opening_span,
                        help: Some(h),
                    } && delimiter == c && src == fault.input && opening_span == fault_span(
                        fault.line_col,
                    ) && h@ == "Add closing '"@ + seq![c] + "' to complete this expression"@,
                    None => r matches BorfError::UnexpectedToken {
                        found,
                        expected,
                        src,
                        span,
                        help: Some(h),
                    } && found@ == found_text(
                        match fault.input {
                            Some(text) => Some(text@),
                            None => None,
                        },
                        fault.location,
                    ) && expected@ == expected_text(strings_view(positives@)) && src == fault.input
                        && span == fault_span(fault.line_col) && h@
                        == "Did you mean to use one of these: "@ + expected@ + "?"@,
                },
            },
    {
        let span = match fault.line_col {
            Some((line, column)) => Some(source_span((line - 1) * 80 + column, 1)),
            None => None,
        };
        let positives = match fault.positives {
            None => {
                return BorfError::ParseError {
                    message: fault.message,
                    src: fault.input,
                    span,
                    help: "Check the syntax and ensure it follows Borf grammar rules".to_owned(),
                };
            },
            Some(positives) => positives,
        };
        let message = chars_of(fault.message.as_str());
        let delimiter = if !contains(&message, "expected") {
            None
        } else if contains(&message, "]") {
            Some(']')
        } else if contains(&message, ")") {
            Some(')')
        } else if contains(&message, "}") {
            Some('}')
        } else if contains(&message, "\"") {
            Some('"')
        } else {
            None
        };
        match delimiter {
            Some(c) => {
                let mut help = "Add closing '".to_owned();
                help.append(delimiter_text(c));
                help.append("' to complete this expression");
                BorfError::UnterminatedDelimiter {
                    delimiter: c,
                    src: fault.input,
                    opening_span: span,
                    help: Some(help),
                }
            },
            None => {
                let expected = if positives.len() == 0 {
                    "end of input".to_owned()
                } else {
                    join(&positives, ", ")
                };
                let found = match fault.location {
                    None => "unknown".to_owned(),
                    Some(pos) => match &fault.input {
                        Some(text) => {
                            let n = text.as_str().unicode_len();
                            if pos < n {
                                let mut s = "'".to_owned();
                                s.append(text.as_str().substring_char(pos, pos + 1));
                                s.append("'");
                                s
                            } else {
                                "end of input".to_owned()
                            }
                        },
                        None => "end of input".to_owned(),
                    },
                };
                let mut help = "Did you mean to use one of these: ".to_owned();
                help.append(expected.as_str());
                help.append("?");
                BorfError::UnexpectedToken {
                    found,
                    expected,
                    src: fault.input,
                    span,
                    help: Some(help),
                }
            },
        }
    }
}

/// The place that stands for a line and a column: one byte at the rough
/// offset.
pub open spec fn fault_span(line_col: Option<(usize, usize)>) -> Option<SourceSpan> {
    match line_col {
        Some((line, column)) => Some(source_span_of(rough_offset(line, column) as usize, 1)),
        None => None,
    }
}

/// What may help against a failure of the translation of a quotation.
pub open spec fn translation_help(f: TranslationFailure) -> Seq<char> {
    match f {
        TranslationFailure::UnknownWordEffect => "Make sure the word is a valid Borf word or declare its stack effect."@,
        TranslationFailure::NegativeDepth => "This usually happens when stack operations have consumed too many items before the parameter is used. Check the stack effect of operations before this point."@,
        TranslationFailure::ParamAlreadyConsumed => "This parameter was marked as consumed in a previous operation. Parameters can only be consumed once."@,
        TranslationFailure::UnsupportedExpression => "The translation only supports basic expressions like literals, symbols, and quotations."@,
        TranslationFailure::DepthOutOfRange => "Depths must fit a 32-bit number."@,
    }
}

/// The form of a stack effect declaration, as help.
pub open spec fn effect_help() -> Seq<char> {
    "Stack effect declarations should have the form '( input1 input2 -- output1 output2 )'"@
}

/// What the error for a fault of a syntax tree in the source `source` is.
/// A fault of the tree is a parse error at its place in the source; a
/// failure of a translation or of a stack effect declaration is a stack
/// effect error without a place.
pub open spec fn shows(r: BorfError, e: SyntaxErrorView, source: Seq<char>) -> bool {
    match e {
        SyntaxErrorView::Fault { message, help, start, len } => r matches BorfError::ParseError {
            message: m,
            src: Some(s),
            span: Some(p),
            help: h,
        } && m@ == message && s@ == source && p == source_span_of(start, len) && h@ == help,
        SyntaxErrorView::Translation(f) => r matches BorfError::StackEffectError {
            message: m,
            src: None,
            span: None,
            help: h,
        } && m@ == f.text() && h@ == translation_help(f),
        SyntaxErrorView::Effect(f) => r matches BorfError::StackEffectError {
            message: m,
            src: None,
            span: None,
            help: h,
        } && m@ == f.text() && h@ == effect_help(),
    }
}

impl BorfError {
    /// The error that shows, in the source `source`, why a syntax tree
    /// could not be read.
    pub fn from_syntax_error(e: SyntaxError, source: &str) -> (r: BorfError)
        ensures
            shows(r, e@, source@),
    {
        match e {
            SyntaxError::Fault { message, help, start, len } => BorfError::ParseError {
                message,
                src: Some(source.to_owned()),
                span: Some(source_span(start, len)),
                help,
            },
            SyntaxError::Translation(f) => {
                let help = match f {
                    TranslationFailure::UnknownWordEffect => "Make sure the word is a valid Borf word or declare its stack effect.",
                    TranslationFailure::NegativeDepth => "This usually happens when stack operations have consumed too many items before the parameter is used. Check the stack effect of operations before this point.",
                    TranslationFailure::ParamAlreadyConsumed => "This parameter was marked as consumed in a previous operation. Parameters can only be consumed once.",
                    TranslationFailure::UnsupportedExpression => "The translation only supports basic expressions like literals, symbols, and quotations.",
                    TranslationFailure::DepthOutOfRange => "Depths must fit a 32-bit number.",
                };
                BorfError::StackEffectError {
                    message: f.message().to_owned(),
                    src: None,
                    span: None,
                    help: help.to_owned(),
                }
            },
            SyntaxError::Effect(f) => BorfError::StackEffectError {
                message: f.message().to_owned(),
                src: None,
                span: None,
                help: "Stack effect declarations should have the form '( input1 input2 -- output1 output2 )'".to_owned(),
            },
        }
    }
}

} // verus!
