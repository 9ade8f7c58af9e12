//! The errors of the crate, by kind.

use vstd::prelude::*;

verus! {

/// Why a text could not be read as what it was meant to be.
#[derive(Debug, Clone, Copy, PartialEq, Eq, Structural)]
pub enum ParseFailure {
    /// The source holds no token.
    EmptyInput,
    /// The tokens end where an expression is expected.
    UnexpectedEnd,
    /// A quotation is opened and never closed.
    UnclosedQuotation,
    /// An effect annotation of none of the known forms.
    InvalidEffect,
    /// A stack effect that is not enclosed in parentheses.
    MissingParentheses,
    /// A stack effect that does not hold `--` exactly once.
    MissingSeparator,
}

/// Why an operation of the stack machine failed.
#[derive(Debug, Clone, Copy, PartialEq, Eq, Structural)]
pub enum EvalFailure {
    /// The stack holds fewer values than the operation takes.
    StackUnderflow,
    /// The symbol is neither bound nor the name of an operation.
    UnknownOperation,
    /// A quotation with the wrong number of parameters.
    ArityMismatch,
    DivisionByZero,
    /// The result does not fit a number.
    ArithmeticOverflow,
    /// A depth that is negative or reaches below the stack.
    InvalidDepth,
    /// An expression that had to yield a value yielded none.
    NoValue,
    /// No case of a match fits the value.
    NoMatch,
    /// The expression form is not one the machine evaluates.
    Unsupported,
    /// Quotations are nested deeper than the machine's limit.
    DepthExceeded,
}

/// Why a value was refused for its type.
#[derive(Debug, Clone, Copy, PartialEq, Eq, Structural)]
pub enum TypeFailure {
    /// An operand of the wrong kind of value.
    OperandMismatch,
    /// A linear type met a value that is no resource.
    LinearViolation,
    /// A type was expected.
    NotAType,
    /// A quoted type or value was expected.
    NotQuoted,
    /// The value's type does not fit the expected type.
    Incompatible,
    /// A name that a type template refers to is not bound.
    UnboundName,
}

/// Why the resource tracker refused a request.
#[derive(Debug, Clone, Copy, PartialEq, Eq, Structural)]
pub enum ResourceFailure {
    /// The resource was consumed before.
    AlreadyConsumed,
    /// The resource is borrowed in a region that is still open.
    BorrowedActive,
    /// No resource has this id.
    UnknownId,
    /// The resource to borrow or use was consumed.
    Consumed,
    /// No region is open.
    NoActiveRegion,
    /// The value is no resource.
    NotAResource,
    /// Resources were left unconsumed.
    Leak,
}

/// Why a quotation could not be translated to stack operations.
#[derive(Debug, Clone, Copy, PartialEq, Eq, Structural)]
pub enum TranslationFailure {
    /// A word whose stack effect is not declared.
    UnknownWordEffect,
    /// A parameter would lie above the top of the stack.
    NegativeDepth,
    /// A parameter is used after the use that consumed it.
    ParamAlreadyConsumed,
    /// An expression form that the translator does not handle.
    UnsupportedExpression,
    /// A depth, or a change of depth, that no number of the language holds.
    DepthOutOfRange,
}

/// An error of the interpreter.
#[derive(Debug, PartialEq, Eq)]
pub enum EvaluatorError {
    /// A file could not be read; the text says why.
    FileError(String),
    ParseError(ParseFailure),
    EvalError(EvalFailure),
    TypeError(TypeFailure),
    ResourceError(ResourceFailure),
    StackEffectError(TranslationFailure),
}

impl ParseFailure {
    /// What went wrong, in words.
    pub open spec fn text(self) -> Seq<char> {
        match self {
            ParseFailure::EmptyInput => "Empty input"@,
            ParseFailure::UnexpectedEnd => "Unexpected end of input"@,
            ParseFailure::UnclosedQuotation => "Unclosed quotation"@,
            ParseFailure::InvalidEffect => "Invalid effect annotation"@,
            ParseFailure::MissingParentheses => "Stack effect declarations should have the form '( input1 input2 -- output1 output2 )'"@,
            ParseFailure::MissingSeparator => "Stack effect must contain exactly one '--' separator"@,
        }
    }

    /// What went wrong, in words.
    pub fn message(self) -> (r: &'static str)
        ensures
            r@ == self.text(),
    {
        match self {
            ParseFailure::EmptyInput => "Empty input",
            ParseFailure::UnexpectedEnd => "Unexpected end of input",
            ParseFailure::UnclosedQuotation => "Unclosed quotation",
            ParseFailure::InvalidEffect => "Invalid effect annotation",
            ParseFailure::MissingParentheses => "Stack effect declarations should have the form '( input1 input2 -- output1 output2 )'",
            ParseFailure::MissingSeparator => "Stack effect must contain exactly one '--' separator",
        }
    }
}

impl EvalFailure {
    /// What went wrong, in words.
    pub open spec fn text(self) -> Seq<char> {
        match self {
            EvalFailure::StackUnderflow => "Not enough values on the stack"@,
            EvalFailure::UnknownOperation => "Unknown operation"@,
            EvalFailure::ArityMismatch => "Wrong number of parameters"@,
            EvalFailure::DivisionByZero => "Division by zero"@,
            EvalFailure::ArithmeticOverflow => "Arithmetic overflow"@,
            EvalFailure::InvalidDepth => "Invalid stack depth"@,
            EvalFailure::NoValue => "Expression produced no value"@,
            EvalFailure::NoMatch => "No pattern matched the value"@,
            EvalFailure::Unsupported => "Unsupported expression"@,
            EvalFailure::DepthExceeded => "Applications are nested too deep"@,
        }
    }

    /// What went wrong, in words.
    pub fn message(self) -> (r: &'static str)
        ensures
            r@ == self.text(),
    {
        match self {
            EvalFailure::StackUnderflow => "Not enough values on the stack",
            EvalFailure::UnknownOperation => "Unknown operation",
            EvalFailure::ArityMismatch => "Wrong number of parameters",
            EvalFailure::DivisionByZero => "Division by zero",
            EvalFailure::ArithmeticOverflow => "Arithmetic overflow",
            EvalFailure::InvalidDepth => "Invalid stack depth",
            EvalFailure::NoValue => "Expression produced no value",
            EvalFailure::NoMatch => "No pattern matched the value",
            EvalFailure::Unsupported => "Unsupported expression",
            EvalFailure::DepthExceeded => "Applications are nested too deep",
        }
    }
}

impl TypeFailure {
    /// What went wrong, in words.
    pub open spec fn text(self) -> Seq<char> {
        match self {
            TypeFailure::OperandMismatch => "Operand of the wrong type"@,
            TypeFailure::LinearViolation => "Expected linear value for linear type"@,
            TypeFailure::NotAType => "Expected a type"@,
            TypeFailure::NotQuoted => "Cannot unquote a value that is not quoted"@,
            TypeFailure::Incompatible => "Type mismatch"@,
            TypeFailure::UnboundName => "Name is not bound"@,
        }
    }

    /// What went wrong, in words.
    pub fn message(self) -> (r: &'static str)
        ensures
            r@ == self.text(),
    {
        match self {
            TypeFailure::OperandMismatch => "Operand of the wrong type",
            TypeFailure::LinearViolation => "Expected linear value for linear type",
            TypeFailure::NotAType => "Expected a type",
            TypeFailure::NotQuoted => "Cannot unquote a value that is not quoted",
            TypeFailure::Incompatible => "Type mismatch",
            TypeFailure::UnboundName => "Name is not bound",
        }
    }
}

impl ResourceFailure {
    /// What went wrong, in words.
    pub open spec fn text(self) -> Seq<char> {
        match self {
            ResourceFailure::AlreadyConsumed => "Resource already consumed"@,
            ResourceFailure::BorrowedActive => "Cannot consume borrowed resource"@,
            ResourceFailure::UnknownId => "Resource not found"@,
            ResourceFailure::Consumed => "Resource has been consumed"@,
            ResourceFailure::NoActiveRegion => "No active borrowing region"@,
            ResourceFailure::NotAResource => "Expected a resource value"@,
            ResourceFailure::Leak => "Resource leak detected"@,
        }
    }

    /// What went wrong, in words.
    pub fn message(self) -> (r: &'static str)
        ensures
            r@ == self.text(),
    {
        match self {
            ResourceFailure::AlreadyConsumed => "Resource already consumed",
            ResourceFailure::BorrowedActive => "Cannot consume borrowed resource",
            ResourceFailure::UnknownId => "Resource not found",
            ResourceFailure::Consumed => "Resource has been consumed",
            ResourceFailure::NoActiveRegion => "No active borrowing region",
            ResourceFailure::NotAResource => "Expected a resource value",
            ResourceFailure::Leak => "Resource leak detected",
        }
    }
}

impl TranslationFailure {
    /// What went wrong, in words.
    pub open spec fn text(self) -> Seq<char> {
        match self {
            TranslationFailure::UnknownWordEffect => "Unknown word with no stack effect declaration"@,
            TranslationFailure::NegativeDepth => "Invalid stack depth for parameter"@,
            TranslationFailure::ParamAlreadyConsumed => "Parameter has already been consumed and cannot be used again"@,
            TranslationFailure::UnsupportedExpression => "Unsupported expression in translation"@,
            TranslationFailure::DepthOutOfRange => "Stack depth out of range"@,
        }
    }

    /// What went wrong, in words.
    pub fn message(self) -> (r: &'static str)
        ensures
            r@ == self.text(),
    {
        match self {
            TranslationFailure::UnknownWordEffect => "Unknown word with no stack effect declaration",
            TranslationFailure::NegativeDepth => "Invalid stack depth for parameter",
            TranslationFailure::ParamAlreadyConsumed => "Parameter has already been consumed and cannot be used again",
            TranslationFailure::UnsupportedExpression => "Unsupported expression in translation",
            TranslationFailure::DepthOutOfRange => "Stack depth out of range",
        }
    }
}

impl EvaluatorError {
    /// The error as text: its kind, then what went wrong.
    pub open spec fn text(self) -> Seq<char> {
        match self {
            EvaluatorError::FileError(m) => "File error: "@ + m@,
            EvaluatorError::ParseError(f) => "Parse error: "@ + f.text(),
            EvaluatorError::EvalError(f) => "Evaluation error: "@ + f.text(),
            EvaluatorError::TypeError(f) => "Type error: "@ + f.text(),
            EvaluatorError::ResourceError(f) => "Resource error: "@ + f.text(),
            EvaluatorError::StackEffectError(f) => "Stack effect error: "@ + f.text(),
        }
    }

    /// The error as text.
    pub fn message(&self) -> (r: String)
        ensures
            r@ == self.text(),
    {
        match self {
            EvaluatorError::FileError(m) => {
                let mut s = "File error: ".to_owned();
                s.append(m.as_str());
                s
            },
            EvaluatorError::ParseError(f) => {
                let mut s = "Parse error: ".to_owned();
                s.append(f.message());
                s
            },
            EvaluatorError::EvalError(f) => {
                let mut s = "Evaluation error: ".to_owned();
                s.append(f.message());
                s
            },
            EvaluatorError::TypeError(f) => {
                let mut s = "Type error: ".to_owned();
                s.append(f.message());
                s
            },
            EvaluatorError::ResourceError(f) => {
                let mut s = "Resource error: ".to_owned();
                s.append(f.message());
                s
            },
            EvaluatorError::StackEffectError(f) => {
                let mut s = "Stack effect error: ".to_owned();
                s.append(f.message());
                s
            },
        }
    }
}

} // verus!
