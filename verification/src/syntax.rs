//! The surface syntax as a tree of grammar rules, and how such a tree is
//! read as an expression.
//!
//! A grammar turns a source into a tree. Each node of the tree names the
//! rule that matched, holds the text that the rule matched and the place of
//! that text, and has the nodes of the rules inside it as its children. The
//! functions of this module read such a tree as an expression, or say what
//! is wrong with it and where.

use vstd::prelude::*;
use crate::errors::{EvaluatorError, ParseFailure, TranslationFailure};
use crate::stack_effects::{
    param_names, parse_stack_effect, stack_effect_of, translate_quotation, translation,
};
use crate::text::{chars_of, contains, contains_text, parse_number, read_number, same_text};
use crate::types::{
    expr_view, exprs_view, field_exprs_view, field_patterns_view, lemma_exprs_view,
    match_cases_view, params_view, pattern_view, Expr, ExprView, Param, ParamView, Pattern,
    PatternView,
};

verus! {

/// A rule of the grammar.
#[derive(Debug, Clone, Copy, PartialEq, Eq, Structural)]
pub enum Rule {
    /// A whole source.
    Program,
    /// A module declaration.
    ModuleDecl,
    /// An import declaration.
    ImportDecl,
    /// An expression at the top of a source.
    TopLevelExpr,
    /// An expression: atoms with operators between them.
    Expr,
    /// An expression without operators.
    Atom,
    /// An operator between two atoms.
    InfixOp,
    /// A number literal.
    Number,
    /// A string literal, with its quotes.
    StringLiteral,
    /// An escape sequence in a string literal.
    EscapeSequence,
    /// A symbol.
    Symbol,
    /// A reserved word.
    Reserved,
    /// A quotation, `[ .. ]`.
    Quotation,
    /// The parameter list of a quotation.
    Params,
    /// One parameter.
    Param,
    /// An assignment, `expr -> name`.
    Assignment,
    /// The cases of a match.
    MatchBlock,
    /// One case: a pattern and an expression.
    PatternCase,
    /// A pattern.
    Pattern,
    /// A record pattern.
    RecordPattern,
    /// One field of a record pattern.
    FieldPattern,
    /// A quoted pattern.
    QuotedPattern,
    /// The two branches of a conditional.
    IfBranches,
    /// A record literal.
    RecordExpr,
    /// One field of a record literal.
    FieldExpr,
    /// A tuple literal.
    TupleExpr,
    /// `'expr`.
    QuotedExpr,
    /// `$expr`.
    UnquotedExpr,
    /// A quasiquoted expression.
    QuasiquotedExpr,
    /// A stack effect declaration.
    StackEffect,
    /// The inputs of a stack effect.
    StackInputs,
    /// The outputs of a stack effect.
    StackOutputs,
    /// One name of a stack effect.
    StackItem,
    /// White space.
    Whitespace,
    /// A comment.
    Comment,
    /// The end of the input.
    EndOfInput,
}

impl Rule {
    /// The name of the rule in the grammar.
    pub open spec fn text(self) -> Seq<char> {
        match self {
            Rule::Program => "program"@,
            Rule::ModuleDecl => "module_decl"@,
            Rule::ImportDecl => "import_decl"@,
            Rule::TopLevelExpr => "top_level_expr"@,
            Rule::Expr => "expr"@,
            Rule::Atom => "atom"@,
            Rule::InfixOp => "infix_op"@,
            Rule::Number => "number"@,
            Rule::StringLiteral => "string_literal"@,
            Rule::EscapeSequence => "escape_sequence"@,
            Rule::Symbol => "symbol"@,
            Rule::Reserved => "reserved"@,
            Rule::Quotation => "quotation"@,
            Rule::Params => "params"@,
            Rule::Param => "param"@,
            Rule::Assignment => "assignment"@,
            Rule::MatchBlock => "match_block"@,
            Rule::PatternCase => "pattern_case"@,
            Rule::Pattern => "pattern"@,
            Rule::RecordPattern => "record_pattern"@,
            Rule::FieldPattern => "field_pattern"@,
            Rule::QuotedPattern => "quoted_pattern"@,
            Rule::IfBranches => "if_branches"@,
            Rule::RecordExpr => "record_expr"@,
            Rule::FieldExpr => "field_expr"@,
            Rule::TupleExpr => "tuple_expr"@,
            Rule::QuotedExpr => "quoted_expr"@,
            Rule::UnquotedExpr => "unquoted_expr"@,
            Rule::QuasiquotedExpr => "quasiquoted_expr"@,
            Rule::StackEffect => "stack_effect"@,
            Rule::StackInputs => "stack_inputs"@,
            Rule::StackOutputs => "stack_outputs"@,
            Rule::StackItem => "stack_item"@,
            Rule::Whitespace => "WHITESPACE"@,
            Rule::Comment => "COMMENT"@,
            Rule::EndOfInput => "EOI"@,
        }
    }

    /// The name of the rule in the grammar.
    pub fn name(self) -> (r: &'static str)
        ensures
            r@ == self.text(),
    {
        match self {
            Rule::Program => "program",
            Rule::ModuleDecl => "module_decl",
            Rule::ImportDecl => "import_decl",
            Rule::TopLevelExpr => "top_level_expr",
            Rule::Expr => "expr",
            Rule::Atom => "atom",
            Rule::InfixOp => "infix_op",
            Rule::Number => "number",
            Rule::StringLiteral => "string_literal",
            Rule::EscapeSequence => "escape_sequence",
            Rule::Symbol => "symbol",
            Rule::Reserved => "reserved",
            Rule::Quotation => "quotation",
            Rule::Params => "params",
            Rule::Param => "param",
            Rule::Assignment => "assignment",
            Rule::MatchBlock => "match_block",
            Rule::PatternCase => "pattern_case",
            Rule::Pattern => "pattern",
            Rule::RecordPattern => "record_pattern",
            Rule::FieldPattern => "field_pattern",
            Rule::QuotedPattern => "quoted_pattern",
            Rule::IfBranches => "if_branches",
            Rule::RecordExpr => "record_expr",
            Rule::FieldExpr => "field_expr",
            Rule::TupleExpr => "tuple_expr",
            Rule::QuotedExpr => "quoted_expr",
            Rule::UnquotedExpr => "unquoted_expr",
            Rule::QuasiquotedExpr => "quasiquoted_expr",
            Rule::StackEffect => "stack_effect",
            Rule::StackInputs => "stack_inputs",
            Rule::StackOutputs => "stack_outputs",
            Rule::StackItem => "stack_item",
            Rule::Whitespace => "WHITESPACE",
            Rule::Comment => "COMMENT",
            Rule::EndOfInput => "EOI",
        }
    }
}

/// A node of a syntax tree.
#[derive(Debug, PartialEq)]
pub struct SyntaxNode {
    /// The rule that matched.
    pub rule: Rule,
    /// The text that it matched.
    pub text: String,
    /// The offset of the first byte of that text in the source.
    pub start: usize,
    /// The offset behind its last byte.
    pub end: usize,
    /// The nodes of the rules inside this one, in the order of the source.
    pub inner: Vec<SyntaxNode>,
}

/// The view of a [`SyntaxNode`].
pub ghost struct NodeView {
    pub rule: Rule,
    pub text: Seq<char>,
    pub start: usize,
    pub end: usize,
    pub inner: Seq<NodeView>,
}

/// The view of a node.
pub open spec fn node_view(n: SyntaxNode) -> NodeView
    decreases n,
{
    NodeView {
        rule: n.rule,
        text: n.text@,
        start: n.start,
        end: n.end,
        inner: nodes_view(n.inner@),
    }
}

/// The views of a list of nodes.
pub open spec fn nodes_view(ns: Seq<SyntaxNode>) -> Seq<NodeView>
    decreases ns,
{
    Seq::new(
        ns.len(),
        |i: int|
            if 0 <= i < ns.len() {
                node_view(ns[i])
            } else {
                arbitrary()
            },
    )
}

impl View for SyntaxNode {
    type V = NodeView;

    open spec fn view(&self) -> NodeView {
        node_view(*self)
    }
}

/// The view of a list of nodes, item by item.
pub proof fn lemma_nodes_view(ns: Seq<SyntaxNode>)
    ensures
        nodes_view(ns).len() == ns.len(),
        forall|i: int| 0 <= i < ns.len() ==> #[trigger] nodes_view(ns)[i] == node_view(ns[i]),
{
}

impl NodeView {
    /// Where the node lies in the source: the offset at which it begins and
    /// its length.
    pub open spec fn place(self) -> (usize, usize) {
        (
            self.start,
            if self.end >= self.start {
                (self.end - self.start) as usize
            } else {
                0
            },
        )
    }
}

impl SyntaxNode {
    /// A node, from its parts.
    pub fn new(rule: Rule, text: &str, start: usize, end: usize, inner: Vec<SyntaxNode>) -> (r:
        SyntaxNode)
        ensures
            r@ == (NodeView { rule, text: text@, start, end, inner: nodes_view(inner@) }),
    {
        SyntaxNode { rule, text: text.to_owned(), start, end, inner }
    }

    /// Where the node lies in the source.
    pub fn place(&self) -> (r: (usize, usize))
        ensures
            r == self@.place(),
    {
        if self.end >= self.start {
            (self.start, self.end - self.start)
        } else {
            (self.start, 0)
        }
    }
}

/// Why a syntax tree could not be read as an expression.
#[derive(Debug, PartialEq)]
pub enum SyntaxError {
    /// The tree is not that of an expression: what is wrong, what may help,
    /// and the place, by the offset at which it begins and its length.
    Fault { message: String, help: String, start: usize, len: usize },
    /// A quotation with parameters could not be translated.
    Translation(TranslationFailure),
    /// A stack effect declaration could not be read.
    Effect(ParseFailure),
}

/// The view of a [`SyntaxError`].
pub ghost enum SyntaxErrorView {
    Fault { message: Seq<char>, help: Seq<char>, start: usize, len: usize },
    Translation(TranslationFailure),
    Effect(ParseFailure),
}

impl View for SyntaxError {
    type V = SyntaxErrorView;

    open spec fn view(&self) -> SyntaxErrorView {
        match *self {
            SyntaxError::Fault { message, help, start, len } => SyntaxErrorView::Fault {
                message: message@,
                help: help@,
                start,
                len,
            },
            SyntaxError::Translation(f) => SyntaxErrorView::Translation(f),
            SyntaxError::Effect(f) => SyntaxErrorView::Effect(f),
        }
    }
}

/// The fault with the words `message` and the help `help` at the place `at`.
pub open spec fn fault(message: Seq<char>, help: Seq<char>, at: (usize, usize)) -> SyntaxErrorView {
    SyntaxErrorView::Fault { message, help, start: at.0, len: at.1 }
}

/// The fault with the words `message` and the help `help` at the place `at`.
fn refuse(message: &str, help: &str, at: (usize, usize)) -> (r: SyntaxError)
    ensures
        r@ == fault(message@, help@, at),
{
    SyntaxError::Fault { message: message.to_owned(), help: help.to_owned(), start: at.0, len: at.1 }
}

/// The fault whose words are `head` and then `tail`.
fn refuse_with(head: &str, tail: &str, help: &str, at: (usize, usize)) -> (r: SyntaxError)
    ensures
        r@ == fault(head@ + tail@, help@, at),
{
    let mut message = head.to_owned();
    message.append(tail);
    SyntaxError::Fault { message, help: help.to_owned(), start: at.0, len: at.1 }
}

/// What reading a tree gives, with the views of both outcomes.
pub open spec fn outcome_view(r: Result<Expr, SyntaxError>) -> Result<ExprView, SyntaxErrorView> {
    match r {
        Ok(e) => Ok(e@),
        Err(f) => Err(f@),
    }
}

/// Whether an expression is a quotation without a declared type.
pub fn is_quotation(e: &Expr) -> (r: bool)
    ensures
        r == (e@ is Quotation),
{
    match e {
        Expr::Quotation(_, _) => true,
        _ => false,
    }
}

/// Every one of `items` is a quotation.
pub open spec fn all_quotations(items: Seq<ExprView>) -> bool {
    forall|i: int| 0 <= i < items.len() ==> (#[trigger] items[i]) is Quotation
}

/// Whether every one of `items` is a quotation.
pub fn are_quotations(items: &Vec<Expr>) -> (r: bool)
    ensures
        r == all_quotations(exprs_view(items@)),
        exprs_view(items@).len() == items@.len(),
{
    proof {
        lemma_exprs_view(items@);
    }
    let mut i: usize = 0;
    while i < items.len()
        invariant
            i <= items.len(),
            exprs_view(items@).len() == items.len(),
            forall|j: int| 0 <= j < items.len() ==> #[trigger] exprs_view(items@)[j] == expr_view(
                items@[j],
            ),
            forall|j: int| 0 <= j < i ==> (#[trigger] exprs_view(items@)[j]) is Quotation,
        decreases items.len() - i,
    {
        if !is_quotation(&items[i]) {
            assert(!(exprs_view(items@)[i as int] is Quotation));
            return false;
        }
        i += 1;
    }
    true
}

/// An operator that stands between two atoms of an expression.
#[derive(Debug, Clone, Copy, PartialEq, Eq, Structural)]
pub enum Operator {
    /// `left |> right`: the right side works on what the left side leaves.
    Pipe,
    /// A match of the value on the left against the cases on the right.
    Match,
    /// A conditional: the condition on the left, the branches on the right.
    If,
    /// `n [code] times`.
    Times,
    /// `[code] loop`.
    Loop,
    /// `[condition] [body] while`.
    While,
    /// `[range] [body] for`.
    For,
    /// `[q] dip`.
    Dip,
    /// `sequence [q] map`.
    MapEach,
    /// `sequence [p] filter`.
    Filter,
    /// `sequence initial [f] fold`.
    Fold,
    /// `x [p] [q] bi`.
    Bi,
    /// `x [p] [q] [r] tri`.
    Tri,
    /// `x [q] keep`.
    Keep,
    /// `[q] dip2`.
    Dip2,
    /// `x y [p] [q] bi*`.
    BiStar,
    /// `x y [p] bi@`.
    BiAt,
    /// `n nip`.
    Nip,
    /// `n tuck`.
    Tuck,
    /// `n pick`.
    Pick,
    /// `n roll`.
    Roll,
    /// `x [p] [q] .. cleave`.
    Cleave,
}

/// The operator that `w` writes, if it writes one.
pub open spec fn operator_named(w: Seq<char>) -> Option<Operator> {
    if w == "|>"@ {
        Some(Operator::Pipe)
    } else if w == "match"@ {
        Some(Operator::Match)
    } else if w == "if"@ {
        Some(Operator::If)
    } else if w == "times"@ {
        Some(Operator::Times)
    } else if w == "loop"@ {
        Some(Operator::Loop)
    } else if w == "while"@ {
        Some(Operator::While)
    } else if w == "for"@ {
        Some(Operator::For)
    } else if w == "dip"@ {
        Some(Operator::Dip)
    } else if w == "map"@ {
        Some(Operator::MapEach)
    } else if w == "filter"@ {
        Some(Operator::Filter)
    } else if w == "fold"@ {
        Some(Operator::Fold)
    } else if w == "bi"@ {
        Some(Operator::Bi)
    } else if w == "tri"@ {
        Some(Operator::Tri)
    } else if w == "keep"@ {
        Some(Operator::Keep)
    } else if w == "dip2"@ {
        Some(Operator::Dip2)
    } else if w == "bi*"@ {
        Some(Operator::BiStar)
    } else if w == "bi@"@ {
        Some(Operator::BiAt)
    } else if w == "nip"@ {
        Some(Operator::Nip)
    } else if w == "tuck"@ {
        Some(Operator::Tuck)
    } else if w == "pick"@ {
        Some(Operator::Pick)
    } else if w == "roll"@ {
        Some(Operator::Roll)
    } else if w == "cleave"@ {
        Some(Operator::Cleave)
    } else {
        None
    }
}

impl Operator {
    /// The operator that `w` writes, if it writes one.
    pub fn from_name(w: &str) -> (r: Option<Operator>)
        ensures
            r == operator_named(w@),
    {
        if same_text(w, "|>") {
            Some(Operator::Pipe)
        } else if same_text(w, "match") {
            Some(Operator::Match)
        } else if same_text(w, "if") {
            Some(Operator::If)
        } else if same_text(w, "times") {
            Some(Operator::Times)
        } else if same_text(w, "loop") {
            Some(Operator::Loop)
        } else if same_text(w, "while") {
            Some(Operator::While)
        } else if same_text(w, "for") {
            Some(Operator::For)
        } else if same_text(w, "dip") {
            Some(Operator::Dip)
        } else if same_text(w, "map") {
            Some(Operator::MapEach)
        } else if same_text(w, "filter") {
            Some(Operator::Filter)
        } else if same_text(w, "fold") {
            Some(Operator::Fold)
        } else if same_text(w, "bi") {
            Some(Operator::Bi)
        } else if same_text(w, "tri") {
            Some(Operator::Tri)
        } else if same_text(w, "keep") {
            Some(Operator::Keep)
        } else if same_text(w, "dip2") {
            Some(Operator::Dip2)
        } else if same_text(w, "bi*") {
            Some(Operator::BiStar)
        } else if same_text(w, "bi@") {
            Some(Operator::BiAt)
        } else if same_text(w, "nip") {
            Some(Operator::Nip)
        } else if same_text(w, "tuck") {
            Some(Operator::Tuck)
        } else if same_text(w, "pick") {
            Some(Operator::Pick)
        } else if same_text(w, "roll") {
            Some(Operator::Roll)
        } else if same_text(w, "cleave") {
            Some(Operator::Cleave)
        } else {
            None
        }
    }

    /// The form in which the operator is to be written; of a pipeline nothing
    /// is said, as none is ever refused.
    pub open spec fn help(self) -> Seq<char> {
        match self {
            Operator::Pipe => ""@,
            Operator::Match => "Match expressions should be in the form: value { | pattern => expr }* match"@,
            Operator::If => "If expressions should be in the form: condition [true_branch] [false_branch] if"@,
            Operator::Times => "Times loops should be in the form: n [code] times"@,
            Operator::Loop => "Loops should be in the form: [code] loop"@,
            Operator::While => "While loops should be in the form: [condition] [body] while"@,
            Operator::For => "For loops should be in the form: [range] [body] for or range [body] for"@,
            Operator::Dip => "Dip should be in the form: a b [Q] dip -> a Q b"@,
            Operator::MapEach => "Map should be in the form: sequence [Q] map"@,
            Operator::Filter => "Filter should be in the form: sequence [P] filter"@,
            Operator::Fold => "Fold should be in the form: sequence init [F] fold"@,
            Operator::Bi => "Bi should be in the form: x [P] [Q] bi"@,
            Operator::Tri => "Tri should be in the form: x [P] [Q] [R] tri"@,
            Operator::Keep => "Keep should be in the form: x [Q] keep -> x Q(x)"@,
            Operator::Dip2 => "Dip2 should be in the form: a b c [Q] dip2 -> a Q b c"@,
            Operator::BiStar => "Bi* should be in the form: x y [P] [Q] bi*"@,
            Operator::BiAt => "Bi@ should be in the form: x y [P] bi@"@,
            Operator::Nip => "Nip should be in the form: a b n nip"@,
            Operator::Tuck => "Tuck should be in the form: a b n tuck"@,
            Operator::Pick => "Pick should be in the form: ... items n pick"@,
            Operator::Roll => "Roll should be in the form: ... items n roll"@,
            Operator::Cleave => "Cleave should be in the form: x [P] [Q] [R] ... cleave"@,
        }
    }

    /// The form in which the operator is to be written.
    pub fn help_text(self) -> (r: &'static str)
        ensures
            r@ == self.help(),
    {
        match self {
            Operator::Pipe => "",
            Operator::Match => "Match expressions should be in the form: value { | pattern => expr }* match",
            Operator::If => "If expressions should be in the form: condition [true_branch] [false_branch] if",
            Operator::Times => "Times loops should be in the form: n [code] times",
            Operator::Loop => "Loops should be in the form: [code] loop",
            Operator::While => "While loops should be in the form: [condition] [body] while",
            Operator::For => "For loops should be in the form: [range] [body] for or range [body] for",
            Operator::Dip => "Dip should be in the form: a b [Q] dip -> a Q b",
            Operator::MapEach => "Map should be in the form: sequence [Q] map",
            Operator::Filter => "Filter should be in the form: sequence [P] filter",
            Operator::Fold => "Fold should be in the form: sequence init [F] fold",
            Operator::Bi => "Bi should be in the form: x [P] [Q] bi",
            Operator::Tri => "Tri should be in the form: x [P] [Q] [R] tri",
            Operator::Keep => "Keep should be in the form: x [Q] keep -> x Q(x)",
            Operator::Dip2 => "Dip2 should be in the form: a b c [Q] dip2 -> a Q b c",
            Operator::BiStar => "Bi* should be in the form: x y [P] [Q] bi*",
            Operator::BiAt => "Bi@ should be in the form: x y [P] bi@",
            Operator::Nip => "Nip should be in the form: a b n nip",
            Operator::Tuck => "Tuck should be in the form: a b n tuck",
            Operator::Pick => "Pick should be in the form: ... items n pick",
            Operator::Roll => "Roll should be in the form: ... items n roll",
            Operator::Cleave => "Cleave should be in the form: x [P] [Q] [R] ... cleave",
        }
    }

    /// The fault of this operator with the words `message`.
    pub open spec fn refusal(self, message: Seq<char>, at: (usize, usize)) -> SyntaxErrorView {
        fault(message, self.help(), at)
    }

    /// The expression that the operator makes of what stands on its left
    /// and on its right, where each side is an expression or the reason why
    /// there is none; `at` is the place of the operator.
    ///
    /// A pipeline, a match, a conditional and the count of `times` hand on
    /// the fault of a side that has one. Every other operator answers a
    /// side without an expression with words of its own.
    pub open spec fn applied(
        self,
        at: (usize, usize),
        lhs: Result<ExprView, SyntaxErrorView>,
        rhs: Result<ExprView, SyntaxErrorView>,
    ) -> Result<ExprView, SyntaxErrorView> {
        match self {
            Operator::Pipe => match lhs {
                Err(e) => Err(e),
                Ok(l) => match rhs {
                    Err(e) => Err(e),
                    Ok(r) => Ok(ExprView::Pipeline(Box::new(l), Box::new(r))),
                },
            },
            Operator::Match => match rhs {
                Err(e) => Err(e),
                Ok(ExprView::Match(_, cases)) => match lhs {
                    Err(e) => Err(e),
                    Ok(l) => Ok(ExprView::Match(Box::new(l), cases)),
                },
                Ok(_) => Err(self.refusal("Expected match block"@, at)),
            },
            Operator::If => match rhs {
                Err(e) => Err(e),
                Ok(ExprView::If(_, yes, no)) => match lhs {
                    Err(e) => Err(e),
                    Ok(l) => Ok(ExprView::If(Box::new(l), yes, no)),
                },
                Ok(_) => Err(self.refusal("Expected if branches"@, at)),
            },
            Operator::Times => match quotation_or(
                rhs,
                self.refusal("Expected a quotation for times loop body"@, at),
                self.refusal("Failed to parse 'times' loop body"@, at),
            ) {
                Err(e) => Err(e),
                Ok(code) => match lhs {
                    Err(e) => Err(e),
                    Ok(l) => Ok(ExprView::Times(Box::new(l), Box::new(code))),
                },
            },
            Operator::Loop => match quotation_or(
                rhs,
                self.refusal("Expected a quotation for loop body"@, at),
                self.refusal("Failed to parse 'loop' body"@, at),
            ) {
                Err(e) => Err(e),
                Ok(code) => Ok(ExprView::Loop(Box::new(code))),
            },
            Operator::Dip => match quotation_or(
                rhs,
                self.refusal("Expected a quotation for dip"@, at),
                self.refusal("Failed to parse quotation for dip"@, at),
            ) {
                Err(e) => Err(e),
                Ok(code) => Ok(ExprView::Dip(Box::new(code))),
            },
            Operator::Keep => match quotation_or(
                rhs,
                self.refusal("Expected a quotation for keep"@, at),
                self.refusal("Failed to parse quotation for keep"@, at),
            ) {
                Err(e) => Err(e),
                Ok(code) => Ok(ExprView::Keep(Box::new(code))),
            },
            Operator::Dip2 => match quotation_or(
                rhs,
                self.refusal("Expected a quotation for dip2"@, at),
                self.refusal("Failed to parse quotation for dip2"@, at),
            ) {
                Err(e) => Err(e),
                Ok(code) => Ok(ExprView::Dip2(Box::new(code))),
            },
            Operator::While => match both(
                lhs,
                rhs,
                self.refusal("Failed to parse 'while' loop components"@, at),
            ) {
                Err(e) => Err(e),
                Ok((condition, body)) => if condition is Quotation && body is Quotation {
                    Ok(ExprView::While(Box::new(condition), Box::new(body)))
                } else {
                    Err(
                        self.refusal(
                            "Both condition and body must be quotations in while loop"@,
                            at,
                        ),
                    )
                },
            },
            Operator::For => match both(
                lhs,
                rhs,
                self.refusal("Failed to parse 'for' loop components"@, at),
            ) {
                Err(e) => Err(e),
                Ok((range, body)) => if body is Quotation {
                    Ok(ExprView::For(Box::new(range), Box::new(body), Box::new(ExprView::Nil)))
                } else {
                    Err(self.refusal("Body must be a quotation in for loop"@, at))
                },
            },
            Operator::MapEach => match both(
                lhs,
                rhs,
                self.refusal("Failed to parse components for map"@, at),
            ) {
                Err(e) => Err(e),
                Ok((sequence, code)) => if code is Quotation {
                    Ok(ExprView::MapEach(Box::new(sequence), Box::new(code)))
                } else {
                    Err(self.refusal("Expected a quotation for map"@, at))
                },
            },
            Operator::Filter => match both(
                lhs,
                rhs,
                self.refusal("Failed to parse components for filter"@, at),
            ) {
                Err(e) => Err(e),
                Ok((sequence, code)) => if code is Quotation {
                    Ok(ExprView::Filter(Box::new(sequence), Box::new(code)))
                } else {
                    Err(self.refusal("Expected a quotation for filter"@, at))
                },
            },
            Operator::Fold => match rhs {
                Err(_) => Err(self.refusal("Failed to parse components for fold"@, at)),
                Ok(code) => if !(code is Quotation) {
                    Err(self.refusal("Expected a quotation for fold"@, at))
                } else {
                    match lhs {
                        Err(_) => Err(self.refusal("Failed to parse sequence for fold"@, at)),
                        Ok(ExprView::Tuple(elements)) => if elements.len() == 2 {
                            Ok(
                                ExprView::Fold(
                                    Box::new(elements[0]),
                                    Box::new(elements[1]),
                                    Box::new(code),
                                ),
                            )
                        } else {
                            Err(
                                self.refusal(
                                    "Expected sequence and initial value for fold"@,
                                    at,
                                ),
                            )
                        },
                        Ok(sequence) => Ok(
                            ExprView::Fold(
                                Box::new(sequence),
                                Box::new(ExprView::Nil),
                                Box::new(code),
                            ),
                        ),
                    }
                },
            },
            Operator::Bi => match both(
                lhs,
                rhs,
                self.refusal("Failed to parse components for bi"@, at),
            ) {
                Err(e) => Err(e),
                Ok((value, ExprView::Tuple(parts))) => if parts.len() != 2 {
                    Err(self.refusal("Expected exactly two quotations for bi"@, at))
                } else if all_quotations(parts) {
                    Ok(ExprView::Bi(Box::new(value), Box::new(parts[0]), Box::new(parts[1])))
                } else {
                    Err(self.refusal("Expected two quotations for bi"@, at))
                },
                Ok(_) => Err(self.refusal("Expected tuple of quotations for bi"@, at)),
            },
            Operator::Tri => match both(
                lhs,
                rhs,
                self.refusal("Failed to parse components for tri"@, at),
            ) {
                Err(e) => Err(e),
                Ok((value, ExprView::Tuple(parts))) => if parts.len() != 3 {
                    Err(self.refusal("Expected exactly three quotations for tri"@, at))
                } else if all_quotations(parts) {
                    Ok(
                        ExprView::Tri(
                            Box::new(value),
                            Box::new(parts[0]),
                            Box::new(parts[1]),
                            Box::new(parts[2]),
                        ),
                    )
                } else {
                    Err(self.refusal("Expected three quotations for tri"@, at))
                },
                Ok(_) => Err(self.refusal("Expected tuple of quotations for tri"@, at)),
            },
            Operator::Cleave => match both(
                lhs,
                rhs,
                self.refusal("Failed to parse components for cleave"@, at),
            ) {
                Err(e) => Err(e),
                Ok((value, ExprView::Tuple(parts))) => if all_quotations(parts) {
                    Ok(ExprView::Cleave(Box::new(value), parts))
                } else {
                    Err(self.refusal("Expected all elements to be quotations for cleave"@, at))
                },
                Ok(_) => Err(self.refusal("Expected tuple of quotations for cleave"@, at)),
            },
            Operator::BiStar => match both(
                lhs,
                rhs,
                self.refusal("Failed to parse components for bi*"@, at),
            ) {
                Err(e) => Err(e),
                Ok((ExprView::Tuple(values), code)) => if values.len() != 2 {
                    Err(self.refusal("Expected exactly two values for bi*"@, at))
                } else {
                    match code {
                        ExprView::Tuple(parts) => if parts.len() != 2 {
                            Err(self.refusal("Expected exactly two quotations for bi*"@, at))
                        } else if all_quotations(parts) {
                            Ok(
                                ExprView::BiStar(
                                    Box::new(ExprView::Tuple(values)),
                                    Box::new(parts[0]),
                                    Box::new(parts[1]),
                                ),
                            )
                        } else {
                            Err(self.refusal("Expected two quotations for bi*"@, at))
                        },
                        _ => Err(self.refusal("Expected tuple of quotations for bi*"@, at)),
                    }
                },
                Ok(_) => Err(self.refusal("Expected tuple of values for bi*"@, at)),
            },
            Operator::BiAt => match both(
                lhs,
                rhs,
                self.refusal("Failed to parse components for bi@"@, at),
            ) {
                Err(e) => Err(e),
                Ok((ExprView::Tuple(values), code)) => if values.len() != 2 {
                    Err(self.refusal("Expected exactly two values for bi@"@, at))
                } else if code is Quotation {
                    Ok(ExprView::BiAt(Box::new(ExprView::Tuple(values)), Box::new(code)))
                } else {
                    Err(self.refusal("Expected a quotation for bi@"@, at))
                },
                Ok(_) => Err(self.refusal("Expected tuple of values for bi@"@, at)),
            },
            Operator::Nip => match both(
                lhs,
                rhs,
                self.refusal("Failed to parse components for nip"@, at),
            ) {
                Err(e) => Err(e),
                Ok((_, n)) => Ok(ExprView::Nip(Box::new(n))),
            },
            Operator::Tuck => match both(
                lhs,
                rhs,
                self.refusal("Failed to parse components for tuck"@, at),
            ) {
                Err(e) => Err(e),
                Ok((_, n)) => Ok(ExprView::Tuck(Box::new(n))),
            },
            Operator::Pick => match both(
                lhs,
                rhs,
                self.refusal("Failed to parse components for pick"@, at),
            ) {
                Err(e) => Err(e),
                Ok((_, n)) => Ok(ExprView::Pick(Box::new(n))),
            },
            Operator::Roll => match both(
                lhs,
                rhs,
                self.refusal("Failed to parse components for roll"@, at),
            ) {
                Err(e) => Err(e),
                Ok((_, n)) => Ok(ExprView::Roll(Box::new(n))),
            },
        }
    }
}

/// The quotation that stands on the right of an operator: `expected` is
/// said of an expression that is no quotation, `failed` where there is no
/// expression.
pub open spec fn quotation_or(
    rhs: Result<ExprView, SyntaxErrorView>,
    expected: SyntaxErrorView,
    failed: SyntaxErrorView,
) -> Result<ExprView, SyntaxErrorView> {
    match rhs {
        Err(_) => Err(failed),
        Ok(code) => if code is Quotation {
            Ok(code)
        } else {
            Err(expected)
        },
    }
}

/// Both sides of an operator; `failed` is said where one of them is no
/// expression.
pub open spec fn both(
    lhs: Result<ExprView, SyntaxErrorView>,
    rhs: Result<ExprView, SyntaxErrorView>,
    failed: SyntaxErrorView,
) -> Result<(ExprView, ExprView), SyntaxErrorView> {
    match (lhs, rhs) {
        (Ok(l), Ok(r)) => Ok((l, r)),
        _ => Err(failed),
    }
}

/// The help that goes with an operator that is none.
pub open spec fn unknown_operator_help() -> Seq<char> {
    "Valid operators include: |>, match, if, times, loop, while, for, dip, map, filter, fold, bi, tri, etc."@
}

/// The expression that the operator written `op` makes of its two sides.
pub open spec fn combined(
    op: Seq<char>,
    at: (usize, usize),
    lhs: Result<ExprView, SyntaxErrorView>,
    rhs: Result<ExprView, SyntaxErrorView>,
) -> Result<ExprView, SyntaxErrorView> {
    match operator_named(op) {
        Some(operator) => operator.applied(at, lhs, rhs),
        None => Err(fault("Unknown operator: "@ + op, unknown_operator_help(), at)),
    }
}

/// The quotation on the right of an operator, or what is said where there
/// is none.
fn right_quotation(
    rhs: Result<Expr, SyntaxError>,
    expected: &str,
    failed: &str,
    help: &str,
    at: (usize, usize),
) -> (r: Result<Expr, SyntaxError>)
    ensures
        outcome_view(r) == quotation_or(
            outcome_view(rhs),
            fault(expected@, help@, at),
            fault(failed@, help@, at),
        ),
{
    match rhs {
        Err(_) => Err(refuse(failed, help, at)),
        Ok(code) => if is_quotation(&code) {
            Ok(code)
        } else {
            Err(refuse(expected, help, at))
        },
    }
}

/// Both sides of an operator, or what is said where one is missing.
fn both_sides(
    lhs: Result<Expr, SyntaxError>,
    rhs: Result<Expr, SyntaxError>,
    failed: &str,
    help: &str,
    at: (usize, usize),
) -> (r: Result<(Expr, Expr), SyntaxError>)
    ensures
        match both(outcome_view(lhs), outcome_view(rhs), fault(failed@, help@, at)) {
            Ok((l, r2)) => r is Ok && r->Ok_0.0@ == l && r->Ok_0.1@ == r2,
            Err(e) => r is Err && r->Err_0@ == e,
        },
{
    match lhs {
        Ok(l) => match rhs {
            Ok(r2) => Ok((l, r2)),
            Err(_) => Err(refuse(failed, help, at)),
        },
        Err(_) => Err(refuse(failed, help, at)),
    }
}

impl Operator {
    /// Makes an expression of what stands on the left and on the right of
    /// the operator; `at` is the place of the operator.
    pub fn apply(
        self,
        at: (usize, usize),
        lhs: Result<Expr, SyntaxError>,
        rhs: Result<Expr, SyntaxError>,
    ) -> (r: Result<Expr, SyntaxError>)
        ensures
            outcome_view(r) == self.applied(at, outcome_view(lhs), outcome_view(rhs)),
    {
        match self {
            Operator::Pipe | Operator::Match | Operator::If => self.apply_linking(at, lhs, rhs),
            Operator::Times
            | Operator::Loop
            | Operator::Dip
            | Operator::Keep
            | Operator::Dip2 => self.apply_to_quotation(
                at,
                lhs,
                rhs,
            ),
            Operator::While
            | Operator::For
            | Operator::MapEach
            | Operator::Filter => self.apply_to_pair(
                at,
                lhs,
                rhs,
            ),
            Operator::Nip
            | Operator::Tuck
            | Operator::Pick
            | Operator::Roll => self.apply_to_depth(
                at,
                lhs,
                rhs,
            ),
            Operator::Fold => self.apply_fold(at, lhs, rhs),
            Operator::Bi
            | Operator::Tri
            | Operator::Cleave => self.apply_to_quotations(
                at,
                lhs,
                rhs,
            ),
            Operator::BiStar | Operator::BiAt => self.apply_to_values(at, lhs, rhs),
        }
    }

    /// Makes an expression of the two sides of a pipeline, a match or a conditional.
    #[verifier::rlimit(40)]
    fn apply_linking(
        self,
        at: (usize, usize),
        lhs: Result<Expr, SyntaxError>,
        rhs: Result<Expr, SyntaxError>,
    ) -> (r: Result<Expr, SyntaxError>)
        requires
            self is Pipe || self is Match || self is If,
        ensures
            outcome_view(r) == self.applied(at, outcome_view(lhs), outcome_view(rhs)),
    {
        let help = self.help_text();
        match self {
            Operator::Pipe => match lhs {
                Err(e) => Err(e),
                Ok(l) => match rhs {
                    Err(e) => Err(e),
                    Ok(r2) => Ok(Expr::Pipeline(Box::new(l), Box::new(r2))),
                },
            },
            Operator::Match => match rhs {
                Err(e) => Err(e),
                Ok(Expr::Match(_, cases)) => match lhs {
                    Err(e) => Err(e),
                    Ok(l) => Ok(Expr::Match(Box::new(l), cases)),
                },
                Ok(_) => Err(refuse("Expected match block", help, at)),
            },
            _ => match rhs {
                Err(e) => Err(e),
                Ok(Expr::If(_, yes, no)) => match lhs {
                    Err(e) => Err(e),
                    Ok(l) => Ok(Expr::If(Box::new(l), yes, no)),
                },
                Ok(_) => Err(refuse("Expected if branches", help, at)),
            },
        }
    }

    /// Makes an expression of the two sides of an operator that takes one quotation.
    #[verifier::rlimit(40)]
    fn apply_to_quotation(
        self,
        at: (usize, usize),
        lhs: Result<Expr, SyntaxError>,
        rhs: Result<Expr, SyntaxError>,
    ) -> (r: Result<Expr, SyntaxError>)
        requires
            self is Times || self is Loop || self is Dip || self is Keep || self is Dip2,
        ensures
            outcome_view(r) == self.applied(at, outcome_view(lhs), outcome_view(rhs)),
    {
        let help = self.help_text();
        match self {
            Operator::Times => match right_quotation(
                rhs,
                "Expected a quotation for times loop body",
                "Failed to parse 'times' loop body",
                help,
                at,
            ) {
                Err(e) => Err(e),
                Ok(code) => match lhs {
                    Err(e) => Err(e),
                    Ok(l) => Ok(Expr::Times(Box::new(l), Box::new(code))),
                },
            },
            Operator::Loop => match right_quotation(
                rhs,
                "Expected a quotation for loop body",
                "Failed to parse 'loop' body",
                help,
                at,
            ) {
                Err(e) => Err(e),
                Ok(code) => Ok(Expr::Loop(Box::new(code))),
            },
            Operator::Dip => match right_quotation(
                rhs,
                "Expected a quotation for dip",
                "Failed to parse quotation for dip",
                help,
                at,
            ) {
                Err(e) => Err(e),
                Ok(code) => Ok(Expr::Dip(Box::new(code))),
            },
            Operator::Keep => match right_quotation(
                rhs,
                "Expected a quotation for keep",
                "Failed to parse quotation for keep",
                help,
                at,
            ) {
                Err(e) => Err(e),
                Ok(code) => Ok(Expr::Keep(Box::new(code))),
            },
            _ => match right_quotation(
                rhs,
                "Expected a quotation for dip2",
                "Failed to parse quotation for dip2",
                help,
                at,
            ) {
                Err(e) => Err(e),
                Ok(code) => Ok(Expr::Dip2(Box::new(code))),
            },
        }
    }

    /// Makes an expression of the two sides of an operator that takes both
    /// sides as they are.
    #[verifier::rlimit(40)]
    fn apply_to_pair(
        self,
        at: (usize, usize),
        lhs: Result<Expr, SyntaxError>,
        rhs: Result<Expr, SyntaxError>,
    ) -> (r: Result<Expr, SyntaxError>)
        requires
            self is While || self is For || self is MapEach || self is Filter,
        ensures
            outcome_view(r) == self.applied(at, outcome_view(lhs), outcome_view(rhs)),
    {
        let help = self.help_text();
        match self {
            Operator::While => match both_sides(
                lhs,
                rhs,
                "Failed to parse 'while' loop components",
                help,
                at,
            ) {
                Err(e) => Err(e),
                Ok((condition, body)) => if is_quotation(&condition) && is_quotation(&body) {
                    Ok(Expr::While(Box::new(condition), Box::new(body)))
                } else {
                    Err(
                        refuse(
                            "Both condition and body must be quotations in while loop",
                            help,
                            at,
                        ),
                    )
                },
            },
            Operator::For => match both_sides(
                lhs,
                rhs,
                "Failed to parse 'for' loop components",
                help,
                at,
            ) {
                Err(e) => Err(e),
                Ok((range, body)) => if is_quotation(&body) {
                    assert(Expr::Nil@ == ExprView::Nil);
                    Ok(Expr::For(Box::new(range), Box::new(body), Box::new(Expr::Nil)))
                } else {
                    Err(refuse("Body must be a quotation in for loop", help, at))
                },
            },
            Operator::MapEach => match both_sides(
                lhs,
                rhs,
                "Failed to parse components for map",
                help,
                at,
            ) {
                Err(e) => Err(e),
                Ok((sequence, code)) => if is_quotation(&code) {
                    Ok(Expr::MapEach(Box::new(sequence), Box::new(code)))
                } else {
                    Err(refuse("Expected a quotation for map", help, at))
                },
            },
            _ => match both_sides(
                lhs,
                rhs,
                "Failed to parse components for filter",
                help,
                at,
            ) {
                Err(e) => Err(e),
                Ok((sequence, code)) => if is_quotation(&code) {
                    Ok(Expr::Filter(Box::new(sequence), Box::new(code)))
                } else {
                    Err(refuse("Expected a quotation for filter", help, at))
                },
            },
        }
    }

    /// Makes an expression of the two sides of an operator that takes a depth.
    #[verifier::rlimit(40)]
    fn apply_to_depth(
        self,
        at: (usize, usize),
        lhs: Result<Expr, SyntaxError>,
        rhs: Result<Expr, SyntaxError>,
    ) -> (r: Result<Expr, SyntaxError>)
        requires
            self is Nip || self is Tuck || self is Pick || self is Roll,
        ensures
            outcome_view(r) == self.applied(at, outcome_view(lhs), outcome_view(rhs)),
    {
        let help = self.help_text();
        match self {
            Operator::Nip => match both_sides(
                lhs,
                rhs,
                "Failed to parse components for nip",
                help,
                at,
            ) {
                Err(e) => Err(e),
                Ok((_, n)) => Ok(Expr::Nip(Box::new(n))),
            },
            Operator::Tuck => match both_sides(
                lhs,
                rhs,
                "Failed to parse components for tuck",
                help,
                at,
            ) {
                Err(e) => Err(e),
                Ok((_, n)) => Ok(Expr::Tuck(Box::new(n))),
            },
            Operator::Pick => match both_sides(
                lhs,
                rhs,
                "Failed to parse components for pick",
                help,
                at,
            ) {
                Err(e) => Err(e),
                Ok((_, n)) => Ok(Expr::Pick(Box::new(n))),
            },
            _ => match both_sides(
                lhs,
                rhs,
                "Failed to parse components for roll",
                help,
                at,
            ) {
                Err(e) => Err(e),
                Ok((_, n)) => Ok(Expr::Roll(Box::new(n))),
            },
        }
    }

    /// Makes an expression of the two sides of a fold.
    #[verifier::rlimit(40)]
    fn apply_fold(
        self,
        at: (usize, usize),
        lhs: Result<Expr, SyntaxError>,
        rhs: Result<Expr, SyntaxError>,
    ) -> (r: Result<Expr, SyntaxError>)
        requires
            self is Fold,
        ensures
            outcome_view(r) == self.applied(at, outcome_view(lhs), outcome_view(rhs)),
    {
        let help = self.help_text();
        let code = match rhs {
            Err(_) => {
                return Err(refuse("Failed to parse components for fold", help, at));
            },
            Ok(code) => code,
        };
        if !is_quotation(&code) {
            return Err(refuse("Expected a quotation for fold", help, at));
        }
        match lhs {
            Err(_) => Err(refuse("Failed to parse sequence for fold", help, at)),
            Ok(Expr::Tuple(elements)) => {
                proof {
                    lemma_exprs_view(elements@);
                }
                if elements.len() == 2 {
                    let (first, second) = pair_of(elements);
                    Ok(Expr::Fold(Box::new(first), Box::new(second), Box::new(code)))
                } else {
                    Err(refuse("Expected sequence and initial value for fold", help, at))
                }
            },
            Ok(sequence) => {
                assert(Expr::Nil@ == ExprView::Nil);
                Ok(Expr::Fold(Box::new(sequence), Box::new(Expr::Nil), Box::new(code)))
            },
        }
    }

    /// Makes an expression of the two sides of an operator that takes its
    /// quotations as a tuple.
    #[verifier::rlimit(40)]
    fn apply_to_quotations(
        self,
        at: (usize, usize),
        lhs: Result<Expr, SyntaxError>,
        rhs: Result<Expr, SyntaxError>,
    ) -> (r: Result<Expr, SyntaxError>)
        requires
            self is Bi || self is Tri || self is Cleave,
        ensures
            outcome_view(r) == self.applied(at, outcome_view(lhs), outcome_view(rhs)),
    {
        let help = self.help_text();
        match self {
            Operator::Bi => match both_sides(
                lhs,
                rhs,
                "Failed to parse components for bi",
                help,
                at,
            ) {
                Err(e) => Err(e),
                Ok((value, Expr::Tuple(parts))) => {
                    proof {
                        lemma_exprs_view(parts@);
                    }
                    if parts.len() != 2 {
                        Err(refuse("Expected exactly two quotations for bi", help, at))
                    } else if are_quotations(&parts) {
                        let (first, second) = pair_of(parts);
                        Ok(Expr::Bi(Box::new(value), Box::new(first), Box::new(second)))
                    } else {
                        Err(refuse("Expected two quotations for bi", help, at))
                    }
                },
                Ok(_) => Err(refuse("Expected tuple of quotations for bi", help, at)),
            },
            Operator::Tri => match both_sides(
                lhs,
                rhs,
                "Failed to parse components for tri",
                help,
                at,
            ) {
                Err(e) => Err(e),
                Ok((value, Expr::Tuple(parts))) => {
                    proof {
                        lemma_exprs_view(parts@);
                    }
                    if parts.len() != 3 {
                        Err(refuse("Expected exactly three quotations for tri", help, at))
                    } else if are_quotations(&parts) {
                        let mut parts = parts;
                        let third = parts.pop().unwrap();
                        proof {
                            lemma_exprs_view(parts@);
                        }
                        let (first, second) = pair_of(parts);
                        Ok(
                            Expr::Tri(
                                Box::new(value),
                                Box::new(first),
                                Box::new(second),
                                Box::new(third),
                            ),
                        )
                    } else {
                        Err(refuse("Expected three quotations for tri", help, at))
                    }
                },
                Ok(_) => Err(refuse("Expected tuple of quotations for tri", help, at)),
            },
            _ => match both_sides(lhs, rhs, "Failed to parse components for cleave", help, at) {
                Err(e) => Err(e),
                Ok((value, Expr::Tuple(parts))) => if are_quotations(&parts) {
                    Ok(Expr::Cleave(Box::new(value), parts))
                } else {
                    Err(refuse("Expected all elements to be quotations for cleave", help, at))
                },
                Ok(_) => Err(refuse("Expected tuple of quotations for cleave", help, at)),
            },
        }
    }

    /// Makes an expression of the two sides of an operator that takes its
    /// values as a tuple.
    #[verifier::rlimit(40)]
    fn apply_to_values(
        self,
        at: (usize, usize),
        lhs: Result<Expr, SyntaxError>,
        rhs: Result<Expr, SyntaxError>,
    ) -> (r: Result<Expr, SyntaxError>)
        requires
            self is BiStar || self is BiAt,
        ensures
            outcome_view(r) == self.applied(at, outcome_view(lhs), outcome_view(rhs)),
    {
        let help = self.help_text();
        match self {
            Operator::BiStar => match both_sides(
                lhs,
                rhs,
                "Failed to parse components for bi*",
                help,
                at,
            ) {
                Err(e) => Err(e),
                Ok((Expr::Tuple(values), code)) => {
                    proof {
                        lemma_exprs_view(values@);
                    }
                    if values.len() != 2 {
                        return Err(refuse("Expected exactly two values for bi*", help, at));
                    }
                    match code {
                        Expr::Tuple(parts) => {
                            proof {
                                lemma_exprs_view(parts@);
                            }
                            if parts.len() != 2 {
                                Err(refuse("Expected exactly two quotations for bi*", help, at))
                            } else if are_quotations(&parts) {
                                let (first, second) = pair_of(parts);
                                Ok(
                                    Expr::BiStar(
                                        Box::new(Expr::Tuple(values)),
                                        Box::new(first),
                                        Box::new(second),
                                    ),
                                )
                            } else {
                                Err(refuse("Expected two quotations for bi*", help, at))
                            }
                        },
                        _ => Err(refuse("Expected tuple of quotations for bi*", help, at)),
                    }
                },
                Ok(_) => Err(refuse("Expected tuple of values for bi*", help, at)),
            },
            _ => match both_sides(lhs, rhs, "Failed to parse components for bi@", help, at) {
                Err(e) => Err(e),
                Ok((Expr::Tuple(values), code)) => {
                    proof {
                        lemma_exprs_view(values@);
                    }
                    if values.len() != 2 {
                        Err(refuse("Expected exactly two values for bi@", help, at))
                    } else if is_quotation(&code) {
                        Ok(Expr::BiAt(Box::new(Expr::Tuple(values)), Box::new(code)))
                    } else {
                        Err(refuse("Expected a quotation for bi@", help, at))
                    }
                },
                Ok(_) => Err(refuse("Expected tuple of values for bi@", help, at)),
            },
        }
    }
}

/// The two items of a list of two.
fn pair_of(items: Vec<Expr>) -> (r: (Expr, Expr))
    requires
        items@.len() == 2,
    ensures
        exprs_view(items@).len() == 2,
        r.0@ == exprs_view(items@)[0],
        r.1@ == exprs_view(items@)[1],
{
    let mut items = items;
    proof {
        lemma_exprs_view(items@);
    }
    let second = items.pop().unwrap();
    let first = items.pop().unwrap();
    (first, second)
}

/// Makes an expression of the two sides of the operator written `op`, which
/// stands at the place `at`.
pub fn combine(
    op: &str,
    at: (usize, usize),
    lhs: Result<Expr, SyntaxError>,
    rhs: Result<Expr, SyntaxError>,
) -> (r: Result<Expr, SyntaxError>)
    ensures
        outcome_view(r) == combined(op@, at, outcome_view(lhs), outcome_view(rhs)),
{
    match Operator::from_name(op) {
        Some(operator) => operator.apply(at, lhs, rhs),
        None => Err(
            refuse_with(
                "Unknown operator: ",
                op,
                "Valid operators include: |>, match, if, times, loop, while, for, dip, map, filter, fold, bi, tri, etc.",
                at,
            ),
        ),
    }
}

/// What is said of a node that lacks a part that its rule has.
pub open spec fn incomplete(n: NodeView) -> SyntaxErrorView {
    fault(
        "Incomplete rule: "@ + n.rule.text(),
        "The rule lacks one of its parts"@,
        n.place(),
    )
}

/// The help for a number that cannot be read.
pub open spec fn number_help() -> Seq<char> {
    "Check that the number is properly formatted"@
}

/// The number that a node writes. The text is an optional sign and
/// decimal digits, and the value must fit 32 bits. A literal with a point
/// is not read here: whoever builds the tree puts the whole part of such a
/// literal in its place, and one that is left is refused.
pub open spec fn number_of(n: NodeView) -> Result<int, SyntaxErrorView> {
    if contains_text(n.text, "."@) {
        Err(fault("Invalid float: "@ + n.text, number_help(), n.place()))
    } else {
        match parse_number(n.text) {
            Some(value) => Ok(value),
            None => Err(fault("Invalid integer: "@ + n.text, number_help(), n.place())),
        }
    }
}

/// The text of a string literal: what stands between its first and its
/// last character, which are the quotes.
pub open spec fn string_of(n: NodeView) -> Result<Seq<char>, SyntaxErrorView> {
    if n.text.len() < 2 {
        Err(incomplete(n))
    } else {
        Ok(n.text.subrange(1, n.text.len() - 1))
    }
}

/// The parameters among the first `k` children of a parameter list.
pub open spec fn params_upto(n: NodeView, k: int) -> Seq<ParamView>
    decreases k,
{
    if k <= 0 || k > n.inner.len() {
        Seq::empty()
    } else if n.inner[k - 1].rule == Rule::Param {
        params_upto(n, k - 1).push(
            ParamView { name: n.inner[k - 1].text, type_annotation: None },
        )
    } else {
        params_upto(n, k - 1)
    }
}

/// The parameters that a parameter list names, in order, none with a type.
pub open spec fn params_of(n: NodeView) -> Seq<ParamView> {
    params_upto(n, n.inner.len() as int)
}

/// The pattern that a node writes.
pub open spec fn pattern_of(n: NodeView) -> Result<PatternView, SyntaxErrorView>
    decreases n, n.inner.len() + 1,
{
    match n.rule {
        Rule::Pattern => if n.inner.len() == 0 {
            Err(incomplete(n))
        } else {
            pattern_of(n.inner[0])
        },
        Rule::StringLiteral => match string_of(n) {
            Ok(text) => Ok(PatternView::Literal(ExprView::String(text))),
            Err(e) => Err(e),
        },
        Rule::Number => match number_of(n) {
            Ok(value) => Ok(PatternView::Literal(ExprView::Number(value))),
            Err(e) => Err(e),
        },
        Rule::Symbol => if n.text == "_"@ {
            Ok(PatternView::Wildcard)
        } else {
            Ok(PatternView::Variable(n.text))
        },
        Rule::RecordPattern => match field_patterns_upto(n, n.inner.len() as int) {
            Ok(fields) => Ok(PatternView::Record(fields)),
            Err(e) => Err(e),
        },
        Rule::QuotedPattern => if n.inner.len() == 0 {
            Err(incomplete(n))
        } else {
            match pattern_of(n.inner[0]) {
                Ok(p) => Ok(PatternView::Quote(Box::new(p))),
                Err(e) => Err(e),
            }
        },
        _ => Err(fault("Unexpected pattern rule: "@ + n.rule.text(), ""@, n.place())),
    }
}

/// The fields among the first `k` children of a record pattern: of each
/// child that is a field, its pattern under its name.
pub open spec fn field_patterns_upto(n: NodeView, k: int) -> Result<
    Seq<(Seq<char>, PatternView)>,
    SyntaxErrorView,
>
    decreases n, k,
{
    if k <= 0 || k > n.inner.len() {
        Ok(Seq::empty())
    } else {
        let field = n.inner[k - 1];
        match field_patterns_upto(n, k - 1) {
            Err(e) => Err(e),
            Ok(done) => if field.rule != Rule::FieldPattern {
                Ok(done)
            } else if field.inner.len() < 2 {
                Err(incomplete(field))
            } else {
                match pattern_of(field.inner[0]) {
                    Err(e) => Err(e),
                    Ok(p) => Ok(done.push((field.inner[1].text, p))),
                }
            },
        }
    }
}

/// Whether the children of an expression are atoms with one operator
/// between each two of them.
pub open spec fn alternating(items: Seq<NodeView>) -> bool {
    &&& items.len() % 2 == 1
    &&& forall|i: int|
        0 <= i < items.len() ==> if i % 2 == 1 {
            (#[trigger] items[i]).rule == Rule::InfixOp && items[i].inner.len() > 0
        } else {
            items[i].rule != Rule::InfixOp
        }
}

/// The expression that a node writes.
///
/// An expression is atoms with operators between them. All operators bind
/// alike and to the left: the first operator works on the first two atoms,
/// the next one on what that gives and the third atom, and so on (see
/// [`Operator::applied`]). Anything else is read as an atom.
pub open spec fn expression_of(n: NodeView) -> Result<ExprView, SyntaxErrorView>
    decreases n, n.inner.len() + 4,
{
    if n.rule == Rule::Expr {
        if alternating(n.inner) {
            folded(n, (n.inner.len() - 1) / 2)
        } else {
            Err(incomplete(n))
        }
    } else {
        atom_of(n)
    }
}

/// The expression that the first `k` operators of an expression make of
/// the atoms around them.
pub open spec fn folded(n: NodeView, k: int) -> Result<ExprView, SyntaxErrorView>
    decreases n, k,
{
    if k < 0 || 2 * k >= n.inner.len() {
        Err(incomplete(n))
    } else if k == 0 {
        primary_of(n.inner[0])
    } else {
        let op = n.inner[2 * k - 1];
        if op.inner.len() == 0 {
            Err(incomplete(n))
        } else {
            combined(op.inner[0].text, op.place(), folded(n, k - 1), primary_of(n.inner[2 * k]))
        }
    }
}

/// The expression that a node between operators writes; it must be an atom.
pub open spec fn primary_of(n: NodeView) -> Result<ExprView, SyntaxErrorView>
    decreases n, n.inner.len() + 3,
{
    if n.rule != Rule::Atom {
        Err(
            fault(
                "Expected atom, got "@ + n.rule.text(),
                "This shouldn't happen - internal parser error"@,
                n.place(),
            ),
        )
    } else {
        atom_of(n)
    }
}

/// The expressions among the children of `n` from `from` up to `k`, in
/// order; children that are no expressions are passed over.
pub open spec fn exprs_upto(n: NodeView, from: int, k: int) -> Result<
    Seq<ExprView>,
    SyntaxErrorView,
>
    decreases n, k,
{
    if from < 0 || k <= from || k > n.inner.len() {
        Ok(Seq::empty())
    } else {
        match exprs_upto(n, from, k - 1) {
            Err(e) => Err(e),
            Ok(done) => if n.inner[k - 1].rule != Rule::Expr {
                Ok(done)
            } else {
                match expression_of(n.inner[k - 1]) {
                    Err(e) => Err(e),
                    Ok(e) => Ok(done.push(e)),
                }
            },
        }
    }
}

/// The cases among the first `k` children of a match block: of each child
/// that is a case, its pattern and its expression.
pub open spec fn cases_upto(n: NodeView, k: int) -> Result<
    Seq<(PatternView, ExprView)>,
    SyntaxErrorView,
>
    decreases n, k,
{
    if k <= 0 || k > n.inner.len() {
        Ok(Seq::empty())
    } else {
        let case = n.inner[k - 1];
        match cases_upto(n, k - 1) {
            Err(e) => Err(e),
            Ok(done) => if case.rule != Rule::PatternCase {
                Ok(done)
            } else if case.inner.len() < 2 {
                Err(incomplete(case))
            } else {
                match pattern_of(case.inner[0]) {
                    Err(e) => Err(e),
                    Ok(p) => match expression_of(case.inner[1]) {
                        Err(e) => Err(e),
                        Ok(e) => Ok(done.push((p, e))),
                    },
                }
            },
        }
    }
}

/// The fields among the first `k` children of a record literal: of each
/// child that is a field, its expression under its name.
pub open spec fn fields_upto(n: NodeView, k: int) -> Result<
    Seq<(Seq<char>, ExprView)>,
    SyntaxErrorView,
>
    decreases n, k,
{
    if k <= 0 || k > n.inner.len() {
        Ok(Seq::empty())
    } else {
        let field = n.inner[k - 1];
        match fields_upto(n, k - 1) {
            Err(e) => Err(e),
            Ok(done) => if field.rule != Rule::FieldExpr {
                Ok(done)
            } else if field.inner.len() < 2 {
                Err(incomplete(field))
            } else {
                match expression_of(field.inner[0]) {
                    Err(e) => Err(e),
                    Ok(e) => Ok(done.push((field.inner[1].text, e))),
                }
            },
        }
    }
}

/// The quotation with the parameters `params` and the body `body`. One
/// with parameters is translated at once, into a quotation without
/// parameters that finds their values on the stack.
pub open spec fn quotation_from(params: Seq<ParamView>, body: Seq<ExprView>) -> Result<
    ExprView,
    SyntaxErrorView,
> {
    if params.len() > 0 {
        match translation(param_names(params), body) {
            Ok(code) => Ok(ExprView::Quotation(Seq::empty(), code)),
            Err(f) => Err(SyntaxErrorView::Translation(f)),
        }
    } else {
        Ok(ExprView::Quotation(params, body))
    }
}

/// The quotation that a node writes: its parameters and an arrow if it
/// has parameters, then its body. An arrow may also stand alone before the
/// body.
pub open spec fn quotation_of(n: NodeView) -> Result<ExprView, SyntaxErrorView>
    decreases n, n.inner.len() + 1,
{
    let len = n.inner.len() as int;
    if len == 0 {
        Err(incomplete(n))
    } else if n.inner[0].rule == Rule::Params {
        if len < 2 || n.inner[1].text != "->"@ {
            Err(incomplete(n))
        } else {
            match exprs_upto(n, 2, len) {
                Err(e) => Err(e),
                Ok(body) => quotation_from(params_of(n.inner[0]), body),
            }
        }
    } else {
        match exprs_upto(
            n,
            if n.inner[0].text == "->"@ {
                1
            } else {
                0
            },
            len,
        ) {
            Err(e) => Err(e),
            Ok(body) => quotation_from(Seq::empty(), body),
        }
    }
}

/// The expression that a symbol writes: a truth value, nil, or the symbol.
pub open spec fn symbol_of(text: Seq<char>) -> ExprView {
    if text == "true"@ {
        ExprView::Boolean(true)
    } else if text == "false"@ {
        ExprView::Boolean(false)
    } else if text == "nil"@ {
        ExprView::Nil
    } else {
        ExprView::Symbol(text)
    }
}

/// The expression that the first child of `n` writes.
pub open spec fn first_of(n: NodeView) -> Result<ExprView, SyntaxErrorView>
    decreases n, n.inner.len() + 1,
{
    if n.inner.len() == 0 {
        Err(incomplete(n))
    } else {
        expression_of(n.inner[0])
    }
}

/// The expression that a node without operators writes.
///
/// The cases of a match and the branches of a conditional stand for
/// themselves, with nil in the place of what they work on: the operator
/// that follows puts it there.
pub open spec fn atom_of(n: NodeView) -> Result<ExprView, SyntaxErrorView>
    decreases n, n.inner.len() + 2,
{
    match n.rule {
        Rule::Atom => if n.inner.len() == 0 {
            Err(incomplete(n))
        } else {
            atom_of(n.inner[0])
        },
        Rule::Number => match number_of(n) {
            Ok(value) => Ok(ExprView::Number(value)),
            Err(e) => Err(e),
        },
        Rule::StringLiteral => match string_of(n) {
            Ok(text) => Ok(ExprView::String(text)),
            Err(e) => Err(e),
        },
        Rule::Symbol => Ok(symbol_of(n.text)),
        Rule::Quotation => quotation_of(n),
        Rule::Assignment => if n.inner.len() < 2 {
            Err(incomplete(n))
        } else {
            match expression_of(n.inner[0]) {
                Err(e) => Err(e),
                Ok(value) => Ok(ExprView::Assignment(Box::new(value), n.inner[1].text)),
            }
        },
        Rule::MatchBlock => match cases_upto(n, n.inner.len() as int) {
            Err(e) => Err(e),
            Ok(cases) => Ok(ExprView::Match(Box::new(ExprView::Nil), cases)),
        },
        Rule::IfBranches => if n.inner.len() < 2 {
            Err(incomplete(n))
        } else {
            match exprs_upto(n.inner[0], 0, n.inner[0].inner.len() as int) {
                Err(e) => Err(e),
                Ok(yes) => match exprs_upto(n.inner[1], 0, n.inner[1].inner.len() as int) {
                    Err(e) => Err(e),
                    Ok(no) => Ok(
                        ExprView::If(
                            Box::new(ExprView::Nil),
                            Box::new(ExprView::Sequence(yes)),
                            Box::new(ExprView::Sequence(no)),
                        ),
                    ),
                },
            }
        },
        Rule::RecordExpr => match fields_upto(n, n.inner.len() as int) {
            Err(e) => Err(e),
            Ok(fields) => Ok(ExprView::Record(fields)),
        },
        Rule::TupleExpr => match exprs_upto(n, 0, n.inner.len() as int) {
            Err(e) => Err(e),
            Ok(items) => Ok(ExprView::Tuple(items)),
        },
        Rule::QuotedExpr => match first_of(n) {
            Err(e) => Err(e),
            Ok(e) => Ok(ExprView::Quote(Box::new(e))),
        },
        Rule::UnquotedExpr => match first_of(n) {
            Err(e) => Err(e),
            Ok(e) => Ok(ExprView::Unquote(Box::new(e))),
        },
        Rule::QuasiquotedExpr => match first_of(n) {
            Err(e) => Err(e),
            Ok(e) => Ok(ExprView::Quasiquote(Box::new(e))),
        },
        Rule::StackEffect => match stack_effect_of(n.text) {
            Ok(effect) => Ok(ExprView::StackEffect(effect)),
            Err(f) => Err(SyntaxErrorView::Effect(f)),
        },
        _ => Err(
            fault(
                "Unexpected expression rule: "@ + n.rule.text(),
                "This rule is not handled by the parser: "@ + n.rule.text(),
                n.place(),
            ),
        ),
    }
}

/// The expressions at the top of a source, among the first `k` children of
/// its node. Declarations of modules and imports are passed over.
pub open spec fn top_upto(n: NodeView, k: int) -> Result<Seq<ExprView>, SyntaxErrorView>
    decreases k,
{
    if k <= 0 || k > n.inner.len() {
        Ok(Seq::empty())
    } else {
        let item = n.inner[k - 1];
        match top_upto(n, k - 1) {
            Err(e) => Err(e),
            Ok(done) => match item.rule {
                Rule::TopLevelExpr => if item.inner.len() == 0 {
                    Err(incomplete(item))
                } else {
                    match expression_of(item.inner[0]) {
                        Err(e) => Err(e),
                        Ok(e) => Ok(done.push(e)),
                    }
                },
                Rule::ModuleDecl | Rule::ImportDecl | Rule::EndOfInput => Ok(done),
                _ => Err(fault("Unexpected rule: "@ + item.rule.text(), ""@, item.place())),
            },
        }
    }
}

/// The expression that a whole source writes: its only expression, or
/// the sequence of its expressions.
pub open spec fn program_of(n: NodeView) -> Result<ExprView, SyntaxErrorView> {
    match top_upto(n, n.inner.len() as int) {
        Err(e) => Err(e),
        Ok(items) => if items.len() == 1 {
            Ok(items[0])
        } else {
            Ok(ExprView::Sequence(items))
        },
    }
}

/// What is said of a node that lacks a part that its rule has.
fn incomplete_node(n: &SyntaxNode) -> (r: SyntaxError)
    ensures
        r@ == incomplete(n@),
{
    refuse_with("Incomplete rule: ", n.rule.name(), "The rule lacks one of its parts", n.place())
}

/// Reads the number that a node writes.
fn parse_number_node(n: &SyntaxNode) -> (r: Result<i32, SyntaxError>)
    ensures
        match number_of(n@) {
            Ok(value) => r is Ok && r->Ok_0 == value,
            Err(e) => r is Err && r->Err_0@ == e,
        },
{
    let text = n.text.as_str();
    let chars = chars_of(text);
    if contains(&chars, ".") {
        Err(refuse_with("Invalid float: ", text, "Check that the number is properly formatted", n.place()))
    } else {
        match read_number(text) {
            Some(value) => Ok(value),
            None => Err(
                refuse_with(
                    "Invalid integer: ",
                    text,
                    "Check that the number is properly formatted",
                    n.place(),
                ),
            ),
        }
    }
}

/// Reads the text of a string literal.
fn parse_string_node(n: &SyntaxNode) -> (r: Result<String, SyntaxError>)
    ensures
        match string_of(n@) {
            Ok(text) => r is Ok && r->Ok_0@ == text,
            Err(e) => r is Err && r->Err_0@ == e,
        },
{
    let text = n.text.as_str();
    let len = text.unicode_len();
    if len < 2 {
        Err(incomplete_node(n))
    } else {
        Ok(text.substring_char(1, len - 1).to_owned())
    }
}

/// Reads the parameters that a parameter list names.
pub fn parse_params(n: &SyntaxNode) -> (r: Vec<Param>)
    ensures
        params_view(r@) == params_of(n@),
{
    let mut out: Vec<Param> = Vec::new();
    let mut i: usize = 0;
    proof {
        lemma_nodes_view(n.inner@);
    }
    assert(params_view(out@) =~= params_upto(n@, 0));
    while i < n.inner.len()
        invariant
            i <= n.inner.len(),
            n@.inner.len() == n.inner.len(),
            forall|j: int| 0 <= j < n.inner.len() ==> #[trigger] n@.inner[j] == n.inner@[j]@,
            params_view(out@) == params_upto(n@, i as int),
        decreases n.inner.len() - i,
    {
        let ghost before = params_view(out@);
        let child = &n.inner[i];
        assert(n@.inner[i as int] == child@);
        if child.rule == Rule::Param {
            out.push(Param { name: child.text.clone(), type_annotation: None });
            assert(params_view(out@) =~= before.push(
                ParamView { name: child@.text, type_annotation: None },
            ));
        }
        i += 1;
    }
    out
}

/// What reading a pattern gives, with the views of both outcomes.
pub open spec fn pattern_outcome_view(r: Result<Pattern, SyntaxError>) -> Result<
    PatternView,
    SyntaxErrorView,
> {
    match r {
        Ok(p) => Ok(p@),
        Err(f) => Err(f@),
    }
}

/// Once a field of a record pattern is refused, the record is.
proof fn lemma_field_patterns_fail(n: NodeView, k: int, m: int)
    requires
        0 <= k <= m <= n.inner.len(),
        field_patterns_upto(n, k) is Err,
    ensures
        field_patterns_upto(n, m) == field_patterns_upto(n, k),
    decreases m - k,
{
    if k < m {
        lemma_field_patterns_fail(n, k, m - 1);
    }
}

/// Reads the pattern that a node writes.
pub fn parse_pattern(n: &SyntaxNode) -> (r: Result<Pattern, SyntaxError>)
    ensures
        pattern_outcome_view(r) == pattern_of(n@),
    decreases n, 1nat,
{
    proof {
        lemma_nodes_view(n.inner@);
    }
    match n.rule {
        Rule::Pattern => if n.inner.len() == 0 {
            Err(incomplete_node(n))
        } else {
            parse_pattern(&n.inner[0])
        },
        Rule::StringLiteral => match parse_string_node(n) {
            Ok(text) => {
                let ghost written = text@;
                let literal = Expr::String(text);
                assert(literal@ == ExprView::String(written));
                Ok(Pattern::Literal(literal))
            },
            Err(e) => Err(e),
        },
        Rule::Number => match parse_number_node(n) {
            Ok(value) => {
                let literal = Expr::Number(value);
                assert(literal@ == ExprView::Number(value as int));
                Ok(Pattern::Literal(literal))
            },
            Err(e) => Err(e),
        },
        Rule::Symbol => if same_text(n.text.as_str(), "_") {
            Ok(Pattern::Wildcard)
        } else {
            Ok(Pattern::Variable(n.text.clone()))
        },
        Rule::RecordPattern => match parse_field_patterns(n) {
            Ok(fields) => Ok(Pattern::Record(fields)),
            Err(e) => Err(e),
        },
        Rule::QuotedPattern => if n.inner.len() == 0 {
            Err(incomplete_node(n))
        } else {
            match parse_pattern(&n.inner[0]) {
                Ok(p) => Ok(Pattern::Quote(Box::new(p))),
                Err(e) => Err(e),
            }
        },
        _ => Err(refuse_with("Unexpected pattern rule: ", n.rule.name(), "", n.place())),
    }
}

/// Reads the fields of a record pattern.
fn parse_field_patterns(n: &SyntaxNode) -> (r: Result<Vec<(String, Pattern)>, SyntaxError>)
    ensures
        match field_patterns_upto(n@, n@.inner.len() as int) {
            Ok(fields) => r is Ok && field_patterns_view(r->Ok_0@) == fields,
            Err(e) => r is Err && r->Err_0@ == e,
        },
    decreases n, 0nat,
{
    let mut out: Vec<(String, Pattern)> = Vec::new();
    let mut i: usize = 0;
    proof {
        lemma_nodes_view(n.inner@);
    }
    assert(field_patterns_view(out@) =~= Seq::empty());
    while i < n.inner.len()
        invariant
            i <= n.inner.len(),
            n@.inner.len() == n.inner.len(),
            forall|j: int| 0 <= j < n.inner.len() ==> #[trigger] n@.inner[j] == n.inner@[j]@,
            field_patterns_upto(n@, i as int) == Ok::<
                Seq<(Seq<char>, PatternView)>,
                SyntaxErrorView,
            >(field_patterns_view(out@)),
        decreases n.inner.len() - i,
    {
        let ghost before = field_patterns_view(out@);
        let field = &n.inner[i];
        assert(n@.inner[i as int] == field@);
        proof {
            lemma_nodes_view(field.inner@);
        }
        if field.rule == Rule::FieldPattern {
            if field.inner.len() < 2 {
                proof {
                    lemma_field_patterns_fail(n@, i + 1, n@.inner.len() as int);
                }
                return Err(incomplete_node(field));
            }
            match parse_pattern(&field.inner[0]) {
                Err(e) => {
                    proof {
                        lemma_field_patterns_fail(n@, i + 1, n@.inner.len() as int);
                    }
                    return Err(e);
                },
                Ok(p) => {
                    out.push((field.inner[1].text.clone(), p));
                    assert(field_patterns_view(out@) =~= before.push((field@.inner[1].text, p@)));
                },
            }
        }
        i += 1;
    }
    Ok(out)
}

/// Once an expression of a list is refused, the list is.
proof fn lemma_exprs_fail(n: NodeView, from: int, k: int, m: int)
    requires
        0 <= from <= k <= m <= n.inner.len(),
        exprs_upto(n, from, k) is Err,
    ensures
        exprs_upto(n, from, m) == exprs_upto(n, from, k),
    decreases m - k,
{
    if k < m {
        lemma_exprs_fail(n, from, k, m - 1);
    }
}

/// Once a case of a match is refused, the match is.
proof fn lemma_cases_fail(n: NodeView, k: int, m: int)
    requires
        0 <= k <= m <= n.inner.len(),
        cases_upto(n, k) is Err,
    ensures
        cases_upto(n, m) == cases_upto(n, k),
    decreases m - k,
{
    if k < m {
        lemma_cases_fail(n, k, m - 1);
    }
}

/// Once a field of a record is refused, the record is.
proof fn lemma_fields_fail(n: NodeView, k: int, m: int)
    requires
        0 <= k <= m <= n.inner.len(),
        fields_upto(n, k) is Err,
    ensures
        fields_upto(n, m) == fields_upto(n, k),
    decreases m - k,
{
    if k < m {
        lemma_fields_fail(n, k, m - 1);
    }
}

/// Once an expression at the top of a source is refused, the source is.
proof fn lemma_top_fail(n: NodeView, k: int, m: int)
    requires
        0 <= k <= m <= n.inner.len(),
        top_upto(n, k) is Err,
    ensures
        top_upto(n, m) == top_upto(n, k),
    decreases m - k,
{
    if k < m {
        lemma_top_fail(n, k, m - 1);
    }
}

/// Whether the children of an expression are atoms with one operator
/// between each two of them.
fn is_alternating(items: &Vec<SyntaxNode>) -> (r: bool)
    ensures
        r == alternating(nodes_view(items@)),
{
    proof {
        lemma_nodes_view(items@);
    }
    let ghost views = nodes_view(items@);
    if items.len() % 2 != 1 {
        return false;
    }
    let mut i: usize = 0;
    while i < items.len()
        invariant
            i <= items.len(),
            views == nodes_view(items@),
            views.len() == items.len(),
            forall|j: int| 0 <= j < items.len() ==> #[trigger] views[j] == items@[j]@,
            forall|j: int|
                0 <= j < i ==> if j % 2 == 1 {
                    (#[trigger] views[j]).rule == Rule::InfixOp && views[j].inner.len() > 0
                } else {
                    views[j].rule != Rule::InfixOp
                },
        decreases items.len() - i,
    {
        let item = &items[i];
        assert(views[i as int] == item@);
        proof {
            lemma_nodes_view(item.inner@);
        }
        let fits = if i % 2 == 1 {
            item.rule == Rule::InfixOp && item.inner.len() > 0
        } else {
            item.rule != Rule::InfixOp
        };
        if !fits {
            return false;
        }
        i += 1;
    }
    true
}

/// Reads the expression that a node writes.
pub fn parse_expression(n: &SyntaxNode) -> (r: Result<Expr, SyntaxError>)
    ensures
        outcome_view(r) == expression_of(n@),
    decreases n, 5nat,
{
    proof {
        lemma_nodes_view(n.inner@);
    }
    if n.rule != Rule::Expr {
        return parse_atom(n);
    }
    if !is_alternating(&n.inner) {
        return Err(incomplete_node(n));
    }
    let mut acc = parse_primary(&n.inner[0]);
    let mut i: usize = 0;
    while n.inner.len() - i > 2
        invariant
            i < n.inner.len(),
            i % 2 == 0,
            n.inner.len() % 2 == 1,
            alternating(n@.inner),
            n@.inner.len() == n.inner.len(),
            forall|j: int| 0 <= j < n.inner.len() ==> #[trigger] n@.inner[j] == n.inner@[j]@,
            outcome_view(acc) == folded(n@, i as int / 2),
        decreases n.inner.len() - i,
    {
        let op = &n.inner[i + 1];
        assert(n@.inner[i + 1] == op@);
        assert(op@.rule == Rule::InfixOp && op@.inner.len() > 0);
        proof {
            lemma_nodes_view(op.inner@);
        }
        let rhs = parse_primary(&n.inner[i + 2]);
        assert(n@.inner[i + 2] == n.inner@[i + 2]@);
        assert((i + 2) / 2 == i / 2 + 1) by (nonlinear_arith)
            requires
                i % 2 == 0,
        ;
        acc = combine(op.inner[0].text.as_str(), op.place(), acc, rhs);
        i += 2;
    }
    assert(i as int / 2 == (n.inner.len() - 1) / 2) by (nonlinear_arith)
        requires
            i % 2 == 0,
            n.inner.len() % 2 == 1,
            i < n.inner.len(),
            n.inner.len() - i <= 2,
    ;
    acc
}

/// Reads the expression that a node between operators writes.
fn parse_primary(n: &SyntaxNode) -> (r: Result<Expr, SyntaxError>)
    ensures
        outcome_view(r) == primary_of(n@),
    decreases n, 4nat,
{
    if n.rule != Rule::Atom {
        Err(
            refuse_with(
                "Expected atom, got ",
                n.rule.name(),
                "This shouldn't happen - internal parser error",
                n.place(),
            ),
        )
    } else {
        parse_atom(n)
    }
}

/// Reads the expressions among the children of `n` from `from` on.
fn parse_exprs(n: &SyntaxNode, from: usize) -> (r: Result<Vec<Expr>, SyntaxError>)
    ensures
        match exprs_upto(n@, from as int, n@.inner.len() as int) {
            Ok(items) => r is Ok && exprs_view(r->Ok_0@) == items,
            Err(e) => r is Err && r->Err_0@ == e,
        },
    decreases n, 0nat,
{
    let mut out: Vec<Expr> = Vec::new();
    proof {
        lemma_nodes_view(n.inner@);
    }
    assert(exprs_view(out@) =~= Seq::empty());
    if from >= n.inner.len() {
        return Ok(out);
    }
    let mut i: usize = from;
    while i < n.inner.len()
        invariant
            from <= i <= n.inner.len(),
            n@.inner.len() == n.inner.len(),
            forall|j: int| 0 <= j < n.inner.len() ==> #[trigger] n@.inner[j] == n.inner@[j]@,
            exprs_upto(n@, from as int, i as int) == Ok::<Seq<ExprView>, SyntaxErrorView>(
                exprs_view(out@),
            ),
        decreases n.inner.len() - i,
    {
        let ghost before = exprs_view(out@);
        let child = &n.inner[i];
        assert(n@.inner[i as int] == child@);
        if child.rule == Rule::Expr {
            match parse_expression(child) {
                Err(e) => {
                    proof {
                        lemma_exprs_fail(n@, from as int, i + 1, n@.inner.len() as int);
                    }
                    return Err(e);
                },
                Ok(e) => {
                    out.push(e);
                    assert(exprs_view(out@) =~= before.push(e@));
                },
            }
        }
        i += 1;
    }
    Ok(out)
}

/// Reads the cases of a match block.
fn parse_cases(n: &SyntaxNode) -> (r: Result<Vec<(Pattern, Expr)>, SyntaxError>)
    ensures
        match cases_upto(n@, n@.inner.len() as int) {
            Ok(cases) => r is Ok && match_cases_view(r->Ok_0@) == cases,
            Err(e) => r is Err && r->Err_0@ == e,
        },
    decreases n, 0nat,
{
    let mut out: Vec<(Pattern, Expr)> = Vec::new();
    proof {
        lemma_nodes_view(n.inner@);
    }
    assert(match_cases_view(out@) =~= Seq::empty());
    let mut i: usize = 0;
    while i < n.inner.len()
        invariant
            i <= n.inner.len(),
            n@.inner.len() == n.inner.len(),
            forall|j: int| 0 <= j < n.inner.len() ==> #[trigger] n@.inner[j] == n.inner@[j]@,
            cases_upto(n@, i as int) == Ok::<Seq<(PatternView, ExprView)>, SyntaxErrorView>(
                match_cases_view(out@),
            ),
        decreases n.inner.len() - i,
    {
        let ghost before = match_cases_view(out@);
        let case = &n.inner[i];
        assert(n@.inner[i as int] == case@);
        proof {
            lemma_nodes_view(case.inner@);
        }
        if case.rule == Rule::PatternCase {
            if case.inner.len() < 2 {
                proof {
                    lemma_cases_fail(n@, i + 1, n@.inner.len() as int);
                }
                return Err(incomplete_node(case));
            }
            let p = match parse_pattern(&case.inner[0]) {
                Err(e) => {
                    proof {
                        lemma_cases_fail(n@, i + 1, n@.inner.len() as int);
                    }
                    return Err(e);
                },
                Ok(p) => p,
            };
            match parse_expression(&case.inner[1]) {
                Err(e) => {
                    proof {
                        lemma_cases_fail(n@, i + 1, n@.inner.len() as int);
                    }
                    return Err(e);
                },
                Ok(e) => {
                    let ghost added = (p@, e@);
                    out.push((p, e));
                    assert(match_cases_view(out@) =~= before.push(added));
                },
            }
        }
        i += 1;
    }
    Ok(out)
}

/// Reads the fields of a record literal.
fn parse_fields(n: &SyntaxNode) -> (r: Result<Vec<(String, Expr)>, SyntaxError>)
    ensures
        match fields_upto(n@, n@.inner.len() as int) {
            Ok(fields) => r is Ok && field_exprs_view(r->Ok_0@) == fields,
            Err(e) => r is Err && r->Err_0@ == e,
        },
    decreases n, 0nat,
{
    let mut out: Vec<(String, Expr)> = Vec::new();
    proof {
        lemma_nodes_view(n.inner@);
    }
    assert(field_exprs_view(out@) =~= Seq::empty());
    let mut i: usize = 0;
    while i < n.inner.len()
        invariant
            i <= n.inner.len(),
            n@.inner.len() == n.inner.len(),
            forall|j: int| 0 <= j < n.inner.len() ==> #[trigger] n@.inner[j] == n.inner@[j]@,
            fields_upto(n@, i as int) == Ok::<Seq<(Seq<char>, ExprView)>, SyntaxErrorView>(
                field_exprs_view(out@),
            ),
        decreases n.inner.len() - i,
    {
        let ghost before = field_exprs_view(out@);
        let field = &n.inner[i];
        assert(n@.inner[i as int] == field@);
        proof {
            lemma_nodes_view(field.inner@);
        }
        if field.rule == Rule::FieldExpr {
            if field.inner.len() < 2 {
                proof {
                    lemma_fields_fail(n@, i + 1, n@.inner.len() as int);
                }
                return Err(incomplete_node(field));
            }
            match parse_expression(&field.inner[0]) {
                Err(e) => {
                    proof {
                        lemma_fields_fail(n@, i + 1, n@.inner.len() as int);
                    }
                    return Err(e);
                },
                Ok(e) => {
                    let ghost added = (field@.inner[1].text, e@);
                    out.push((field.inner[1].text.clone(), e));
                    assert(field_exprs_view(out@) =~= before.push(added));
                },
            }
        }
        i += 1;
    }
    Ok(out)
}

/// Makes the quotation with the parameters `params` and the body `body`.
pub fn make_quotation(params: Vec<Param>, body: Vec<Expr>) -> (r: Result<Expr, SyntaxError>)
    ensures
        outcome_view(r) == quotation_from(params_view(params@), exprs_view(body@)),
{
    assert(params_view(params@).len() == params@.len());
    if params.len() > 0 {
        match translate_quotation(params.as_slice(), body.as_slice()) {
            Ok(code) => {
                let none: Vec<Param> = Vec::new();
                assert(params_view(none@) =~= Seq::empty());
                Ok(Expr::Quotation(none, code))
            },
            Err(EvaluatorError::StackEffectError(f)) => Err(SyntaxError::Translation(f)),
            Err(_) => Err(SyntaxError::Translation(TranslationFailure::UnsupportedExpression)),
        }
    } else {
        Ok(Expr::Quotation(params, body))
    }
}

/// Reads the quotation that a node writes.
fn parse_quotation(n: &SyntaxNode) -> (r: Result<Expr, SyntaxError>)
    ensures
        outcome_view(r) == quotation_of(n@),
    decreases n, 1nat,
{
    proof {
        lemma_nodes_view(n.inner@);
    }
    let len = n.inner.len();
    if len == 0 {
        return Err(incomplete_node(n));
    }
    if n.inner[0].rule == Rule::Params {
        if len < 2 || !same_text(n.inner[1].text.as_str(), "->") {
            return Err(incomplete_node(n));
        }
        match parse_exprs(n, 2) {
            Err(e) => Err(e),
            Ok(body) => make_quotation(parse_params(&n.inner[0]), body),
        }
    } else {
        let from: usize = if same_text(n.inner[0].text.as_str(), "->") {
            1
        } else {
            0
        };
        match parse_exprs(n, from) {
            Err(e) => Err(e),
            Ok(body) => {
                let none: Vec<Param> = Vec::new();
                assert(params_view(none@) =~= Seq::empty());
                make_quotation(none, body)
            },
        }
    }
}

/// Reads the expression that a symbol writes.
fn parse_symbol(text: &str) -> (r: Expr)
    ensures
        r@ == symbol_of(text@),
{
    if same_text(text, "true") {
        Expr::Boolean(true)
    } else if same_text(text, "false") {
        Expr::Boolean(false)
    } else if same_text(text, "nil") {
        Expr::Nil
    } else {
        Expr::Symbol(text.to_owned())
    }
}

/// Reads the expression that the first child of `n` writes.
fn parse_first(n: &SyntaxNode) -> (r: Result<Expr, SyntaxError>)
    ensures
        outcome_view(r) == first_of(n@),
    decreases n, 1nat,
{
    proof {
        lemma_nodes_view(n.inner@);
    }
    if n.inner.len() == 0 {
        Err(incomplete_node(n))
    } else {
        parse_expression(&n.inner[0])
    }
}

/// Reads the branches of a conditional.
fn parse_branches(n: &SyntaxNode) -> (r: Result<Expr, SyntaxError>)
    requires
        n@.rule == Rule::IfBranches,
    ensures
        outcome_view(r) == atom_of(n@),
    decreases n, 1nat,
{
    proof {
        lemma_nodes_view(n.inner@);
    }
    if n.inner.len() < 2 {
        return Err(incomplete_node(n));
    }
    match parse_exprs(&n.inner[0], 0) {
        Err(e) => Err(e),
        Ok(yes) => match parse_exprs(&n.inner[1], 0) {
            Err(e) => Err(e),
            Ok(no) => {
                assert(Expr::Nil@ == ExprView::Nil);
                let ghost yes_view = exprs_view(yes@);
                let ghost no_view = exprs_view(no@);
                let first = Expr::Sequence(yes);
                let second = Expr::Sequence(no);
                assert(first@ == ExprView::Sequence(yes_view));
                assert(second@ == ExprView::Sequence(no_view));
                Ok(Expr::If(Box::new(Expr::Nil), Box::new(first), Box::new(second)))
            },
        },
    }
}

/// Reads the expression that a node without operators writes.
pub fn parse_atom(n: &SyntaxNode) -> (r: Result<Expr, SyntaxError>)
    ensures
        outcome_view(r) == atom_of(n@),
    decreases n, 3nat,
{
    proof {
        lemma_nodes_view(n.inner@);
    }
    match n.rule {
        Rule::Atom => if n.inner.len() == 0 {
            Err(incomplete_node(n))
        } else {
            parse_atom(&n.inner[0])
        },
        Rule::Number => match parse_number_node(n) {
            Ok(value) => Ok(Expr::Number(value)),
            Err(e) => Err(e),
        },
        Rule::StringLiteral => match parse_string_node(n) {
            Ok(text) => Ok(Expr::String(text)),
            Err(e) => Err(e),
        },
        Rule::Symbol => Ok(parse_symbol(n.text.as_str())),
        Rule::Quotation => parse_quotation(n),
        Rule::Assignment => if n.inner.len() < 2 {
            Err(incomplete_node(n))
        } else {
            match parse_expression(&n.inner[0]) {
                Err(e) => Err(e),
                Ok(value) => Ok(Expr::Assignment(Box::new(value), n.inner[1].text.clone())),
            }
        },
        Rule::MatchBlock => match parse_cases(n) {
            Err(e) => Err(e),
            Ok(cases) => {
                assert(Expr::Nil@ == ExprView::Nil);
                Ok(Expr::Match(Box::new(Expr::Nil), cases))
            },
        },
        Rule::IfBranches => parse_branches(n),
        Rule::RecordExpr => match parse_fields(n) {
            Err(e) => Err(e),
            Ok(fields) => Ok(Expr::Record(fields)),
        },
        Rule::TupleExpr => match parse_exprs(n, 0) {
            Err(e) => Err(e),
            Ok(items) => Ok(Expr::Tuple(items)),
        },
        Rule::QuotedExpr => match parse_first(n) {
            Err(e) => Err(e),
            Ok(e) => Ok(Expr::Quote(Box::new(e))),
        },
        Rule::UnquotedExpr => match parse_first(n) {
            Err(e) => Err(e),
            Ok(e) => Ok(Expr::Unquote(Box::new(e))),
        },
        Rule::QuasiquotedExpr => match parse_first(n) {
            Err(e) => Err(e),
            Ok(e) => Ok(Expr::Quasiquote(Box::new(e))),
        },
        Rule::StackEffect => match parse_stack_effect(n.text.as_str()) {
            Ok(effect) => Ok(Expr::StackEffect(effect)),
            Err(EvaluatorError::ParseError(f)) => Err(SyntaxError::Effect(f)),
            Err(_) => Err(SyntaxError::Effect(ParseFailure::MissingParentheses)),
        },
        _ => {
            let name = n.rule.name();
            let mut help = "This rule is not handled by the parser: ".to_owned();
            help.append(name);
            Err(refuse_with("Unexpected expression rule: ", name, help.as_str(), n.place()))
        },
    }
}

/// Reads the expression that a whole source writes; `root` is the node of
/// the source.
pub fn parse_program(root: &SyntaxNode) -> (r: Result<Expr, SyntaxError>)
    ensures
        outcome_view(r) == program_of(root@),
{
    let mut out: Vec<Expr> = Vec::new();
    proof {
        lemma_nodes_view(root.inner@);
    }
    assert(exprs_view(out@) =~= Seq::empty());
    let mut i: usize = 0;
    while i < root.inner.len()
        invariant
            i <= root.inner.len(),
            root@.inner.len() == root.inner.len(),
            forall|j: int|
                0 <= j < root.inner.len() ==> #[trigger] root@.inner[j] == root.inner@[j]@,
            top_upto(root@, i as int) == Ok::<Seq<ExprView>, SyntaxErrorView>(exprs_view(out@)),
        decreases root.inner.len() - i,
    {
        let ghost before = exprs_view(out@);
        let item = &root.inner[i];
        assert(root@.inner[i as int] == item@);
        proof {
            lemma_nodes_view(item.inner@);
        }
        match item.rule {
            Rule::TopLevelExpr => {
                if item.inner.len() == 0 {
                    proof {
                        lemma_top_fail(root@, i + 1, root@.inner.len() as int);
                    }
                    return Err(incomplete_node(item));
                }
                match parse_expression(&item.inner[0]) {
                    Err(e) => {
                        proof {
                            lemma_top_fail(root@, i + 1, root@.inner.len() as int);
                        }
                        return Err(e);
                    },
                    Ok(e) => {
                        out.push(e);
                        assert(exprs_view(out@) =~= before.push(e@));
                    },
                }
            },
            Rule::ModuleDecl | Rule::ImportDecl | Rule::EndOfInput => {},
            _ => {
                proof {
                    lemma_top_fail(root@, i + 1, root@.inner.len() as int);
                }
                return Err(refuse_with("Unexpected rule: ", item.rule.name(), "", item.place()));
            },
        }
        i += 1;
    }
    proof {
        lemma_exprs_view(out@);
    }
    if out.len() == 1 {
        Ok(out.pop().unwrap())
    } else {
        Ok(Expr::Sequence(out))
    }
}

} // verus!
