//! The surface syntax: a source text is cut into tokens, and the tokens
//! are read as expressions.

use vstd::prelude::*;
use crate::errors::{EvaluatorError, ParseFailure};
use crate::text::{chars_of, parse_number, read_number, same_text, strings_view};
use crate::types::{
    exprs_view, lemma_exprs_view, params_view, Expr, ExprView,
    Param, ParamView, Type, TypeView,
};

verus! {

/// What the tokenizer is in the middle of.
#[derive(Debug, Clone, Copy, PartialEq, Eq, Structural)]
pub enum Mode {
    /// Code.
    Code,
    /// A text between double quotes.
    Text,
    /// A comment, which goes on to the end of the line.
    Comment,
}

/// White space between tokens.
pub open spec fn is_blank(c: char) -> bool {
    c == ' ' || c == '\t' || c == '\n' || c == '\r'
}

/// A character that is a token by itself, or the first of a token of two.
pub open spec fn is_special(c: char) -> bool {
    c == '[' || c == ']' || c == '{' || c == '}' || c == '(' || c == ')' || c == '|' || c == '>'
        || c == ',' || c == '-' || c == ':' || c == '=' || c == '!' || c == '\'' || c == '$'
}

/// Whether the tokens `|>`, `->`, `=>` or `::` begin at `i`.
pub open spec fn is_pair(s: Seq<char>, i: int) -> bool {
    0 <= i && i + 1 < s.len() && ((s[i] == '|' && s[i + 1] == '>') || (s[i] == '-' && s[i + 1]
        == '>') || (s[i] == '=' && s[i + 1] == '>') || (s[i] == ':' && s[i + 1] == ':'))
}

/// The token begun at `start` and not yet ended at `i`, if there is one.
pub open spec fn pending(s: Seq<char>, start: int, i: int) -> Seq<Seq<char>> {
    if 0 <= start < i <= s.len() {
        seq![s.subrange(start, i)]
    } else {
        Seq::empty()
    }
}

/// The tokens of `s` from `i` on, where a token was begun at `start`. In
/// code, white space ends a token; `--` begins a comment; each of
/// `[ ] { } ( ) | > , - : = ! ' $` is a token, and so are `|>`, `->`, `=>`
/// and `::`. A double quote begins a text, which goes on to the next
/// double quote; the token that the text is part of ends there.
pub open spec fn tokens_from(s: Seq<char>, i: int, start: int, mode: Mode) -> Seq<Seq<char>>
    decreases s.len() - i,
{
    if i < 0 || i >= s.len() {
        if mode == Mode::Comment {
            Seq::empty()
        } else {
            pending(s, start, s.len() as int)
        }
    } else if mode == Mode::Comment {
        if s[i] == '\n' {
            tokens_from(s, i + 1, i + 1, Mode::Code)
        } else {
            tokens_from(s, i + 1, i + 1, Mode::Comment)
        }
    } else if mode == Mode::Code && s[i] == '-' && i + 1 < s.len() && s[i + 1] == '-' {
        pending(s, start, i) + tokens_from(s, i + 2, i + 2, Mode::Comment)
    } else if s[i] == '"' {
        if mode == Mode::Text {
            seq![s.subrange(start, i + 1)] + tokens_from(s, i + 1, i + 1, Mode::Code)
        } else {
            tokens_from(s, i + 1, start, Mode::Text)
        }
    } else if mode == Mode::Code && is_blank(s[i]) {
        pending(s, start, i) + tokens_from(s, i + 1, i + 1, Mode::Code)
    } else if mode == Mode::Code && is_special(s[i]) {
        if is_pair(s, i) {
            pending(s, start, i) + seq![s.subrange(i, i + 2)] + tokens_from(
                s,
                i + 2,
                i + 2,
                Mode::Code,
            )
        } else {
            pending(s, start, i) + seq![s.subrange(i, i + 1)] + tokens_from(
                s,
                i + 1,
                i + 1,
                Mode::Code,
            )
        }
    } else {
        tokens_from(s, i + 1, start, mode)
    }
}

/// The tokens of a source text.
pub open spec fn tokens_of(s: Seq<char>) -> Seq<Seq<char>> {
    tokens_from(s, 0, 0, Mode::Code)
}

/// Whether `c` is white space between tokens.
fn blank(c: char) -> (r: bool)
    ensures
        r == is_blank(c),
{
    c == ' ' || c == '\t' || c == '\n' || c == '\r'
}

/// Whether `c` is a token by itself, or the first of a token of two.
fn special(c: char) -> (r: bool)
    ensures
        r == is_special(c),
{
    c == '[' || c == ']' || c == '{' || c == '}' || c == '(' || c == ')' || c == '|' || c == '>'
        || c == ',' || c == '-' || c == ':' || c == '=' || c == '!' || c == '\'' || c == '$'
}

/// Whether a token of two characters begins at `i`.
fn pair_at(s: &Vec<char>, i: usize) -> (r: bool)
    requires
        i < s.len(),
    ensures
        r == is_pair(s@, i as int),
{
    if s.len() - i < 2 {
        return false;
    }
    let a = s[i];
    let b = s[i + 1];
    (a == '|' && b == '>') || (a == '-' && b == '>') || (a == '=' && b == '>') || (a == ':' && b
        == ':')
}

/// A token that the parser recognises by its text.
pub open spec fn is_token(t: Seq<char>, text: Seq<char>) -> bool {
    t == text
}

/// Whether a token is a text between double quotes.
pub open spec fn is_text_token(t: Seq<char>) -> bool {
    t.len() >= 2 && t[0] == '"' && t.last() == '"'
}

/// The result of reading from the tokens: what was read, and the index of
/// the token to go on with.
pub type Parsed<T> = Result<(T, int), ParseFailure>;

/// Whether the tokens from `pos` on hold `->` before any `]`.
pub open spec fn has_arrow(tokens: Seq<Seq<char>>, pos: int) -> bool
    decreases tokens.len() - pos,
{
    if pos < 0 || pos >= tokens.len() {
        false
    } else if tokens[pos] == "->"@ {
        true
    } else if tokens[pos] == "]"@ {
        false
    } else {
        has_arrow(tokens, pos + 1)
    }
}

/// The parameters that begin at `pos`, up to and including the `->` that
/// ends them: names, apart by commas or not, each with `: Type` behind it
/// or not.
pub open spec fn params_from(tokens: Seq<Seq<char>>, pos: int) -> (Seq<ParamView>, int)
    decreases tokens.len() - pos,
{
    if pos < 0 || pos >= tokens.len() {
        (Seq::empty(), pos)
    } else if tokens[pos] == "->"@ {
        (Seq::empty(), pos + 1)
    } else if tokens[pos] == ","@ {
        params_from(tokens, pos + 1)
    } else if pos + 2 < tokens.len() && tokens[pos + 1] == ":"@ {
        let (rest, end) = params_from(tokens, pos + 3);
        (
            seq![
                ParamView {
                    name: tokens[pos],
                    type_annotation: Some(TypeView::Simple(tokens[pos + 2])),
                },
            ] + rest,
            end,
        )
    } else if pos + 1 < tokens.len() && tokens[pos + 1] == ":"@ {
        (seq![ParamView { name: tokens[pos], type_annotation: None }], pos + 2)
    } else {
        let (rest, end) = params_from(tokens, pos + 1);
        (seq![ParamView { name: tokens[pos], type_annotation: None }] + rest, end)
    }
}

/// The expression that begins at `pos`: a number, a text between double
/// quotes, a quotation between `[` and `]`, or a symbol.
pub open spec fn expr_at(tokens: Seq<Seq<char>>, pos: int) -> Parsed<ExprView>
    decreases tokens.len() - pos, 1nat,
{
    if pos < 0 || pos >= tokens.len() {
        Err(ParseFailure::UnexpectedEnd)
    } else {
        let t = tokens[pos];
        if parse_number(t) is Some {
            Ok((ExprView::Number(parse_number(t)->Some_0), pos + 1))
        } else if is_text_token(t) {
            Ok((ExprView::String(t.subrange(1, t.len() - 1)), pos + 1))
        } else if t == "["@ {
            let (params, start) = if has_arrow(tokens, pos + 1) {
                params_from(tokens, pos + 1)
            } else {
                (Seq::empty(), pos + 1)
            };
            if start <= pos || start > tokens.len() {
                Err(ParseFailure::UnexpectedEnd)
            } else {
                match body_at(tokens, start) {
                    Err(f) => Err(f),
                    Ok((body, end)) => if end < 0 || end >= tokens.len() {
                        Err(ParseFailure::UnclosedQuotation)
                    } else if end + 2 < tokens.len() && tokens[end + 1] == ":"@ {
                        Ok(
                            (
                                ExprView::TypedQuotation(
                                    params,
                                    body,
                                    TypeView::Simple(tokens[end + 2]),
                                ),
                                end + 3,
                            ),
                        )
                    } else if end + 1 < tokens.len() && tokens[end + 1] == ":"@ {
                        Ok((ExprView::Quotation(params, body), end + 2))
                    } else {
                        Ok((ExprView::Quotation(params, body), end + 1))
                    },
                }
            }
        } else {
            Ok((ExprView::Symbol(t), pos + 1))
        }
    }
}

/// The expressions from `pos` up to the `]` that closes the quotation, or
/// to the end of the tokens.
pub open spec fn body_at(tokens: Seq<Seq<char>>, pos: int) -> Parsed<Seq<ExprView>>
    decreases tokens.len() - pos, 2nat,
{
    if pos < 0 || pos >= tokens.len() || tokens[pos] == "]"@ {
        Ok((Seq::empty(), pos))
    } else {
        match expr_at(tokens, pos) {
            Err(f) => Err(f),
            Ok((first, next)) => if next <= pos || next > tokens.len() {
                Err(ParseFailure::UnexpectedEnd)
            } else {
                match body_at(tokens, next) {
                    Err(f) => Err(f),
                    Ok((rest, end)) => Ok((seq![first] + rest, end)),
                }
            },
        }
    }
}

/// The expressions that the tokens from `pos` on hold, one after the other.
pub open spec fn all_from(tokens: Seq<Seq<char>>, pos: int) -> Result<
    Seq<ExprView>,
    ParseFailure,
>
    decreases tokens.len() - pos, 3nat,
{
    if pos < 0 || pos >= tokens.len() {
        Ok(Seq::empty())
    } else {
        match expr_at(tokens, pos) {
            Err(f) => Err(f),
            Ok((first, next)) => if next <= pos || next > tokens.len() {
                Err(ParseFailure::UnexpectedEnd)
            } else {
                match all_from(tokens, next) {
                    Err(f) => Err(f),
                    Ok(rest) => Ok(seq![first] + rest),
                }
            },
        }
    }
}

/// The expression that the tokens from `pos` on stand for: the one
/// expression that they hold, or the sequence of the expressions that they
/// hold.
pub open spec fn program_at(tokens: Seq<Seq<char>>, pos: int) -> Result<ExprView, ParseFailure> {
    if tokens.len() == 0 {
        Err(ParseFailure::EmptyInput)
    } else {
        match all_from(tokens, pos) {
            Err(f) => Err(f),
            Ok(exprs) => if exprs.len() == 1 {
                Ok(exprs[0])
            } else {
                Ok(ExprView::Sequence(exprs))
            },
        }
    }
}

/// An expression that begins at a token ends behind it.
pub proof fn lemma_expr_at_advances(tokens: Seq<Seq<char>>, pos: int)
    requires
        expr_at(tokens, pos) is Ok,
    ensures
        pos < expr_at(tokens, pos)->Ok_0.1 <= tokens.len(),
    decreases tokens.len() - pos, 1nat,
{
    let t = tokens[pos];
    if parse_number(t) is Some || is_text_token(t) {
    } else if t == "["@ {
        let start = if has_arrow(tokens, pos + 1) {
            params_from(tokens, pos + 1).1
        } else {
            pos + 1
        };
        lemma_body_at_advances(tokens, start);
    }
}

/// A body that begins at a token ends at or behind it.
pub proof fn lemma_body_at_advances(tokens: Seq<Seq<char>>, pos: int)
    requires
        body_at(tokens, pos) is Ok,
    ensures
        pos <= body_at(tokens, pos)->Ok_0.1 || pos > tokens.len() || pos < 0,
        0 <= body_at(tokens, pos)->Ok_0.1 < tokens.len() ==> tokens[body_at(
            tokens,
            pos,
        )->Ok_0.1] == "]"@,
    decreases tokens.len() - pos, 2nat,
{
    if pos < 0 || pos >= tokens.len() || tokens[pos] == "]"@ {
    } else {
        lemma_expr_at_advances(tokens, pos);
        let next = expr_at(tokens, pos)->Ok_0.1;
        lemma_body_at_advances(tokens, next);
    }
}

/// Reads expressions from tokens.
#[derive(Debug)]
pub struct Parser {
    /// The tokens of the source.
    pub tokens: Vec<String>,
    /// The index of the token to go on with.
    pub position: usize,
}

impl Parser {
    /// The tokens of a source text.
    #[verifier::rlimit(40)]
    pub fn tokenize(input: &str) -> (r: Vec<String>)
        ensures
            strings_view(r@) == tokens_of(input@),
    {
        let s = chars_of(input);
        let ghost all = tokens_of(s@);
        let mut tokens: Vec<String> = Vec::new();
        let mut mode = Mode::Code;
        let mut start: usize = 0;
        let mut i: usize = 0;
        assert(strings_view(tokens@) =~= Seq::empty());
        assert(Seq::<Seq<char>>::empty() + all =~= all);
        while i < s.len()
            invariant
                start <= i <= s.len(),
                s@ == input@,
                all == tokens_of(s@),
                strings_view(tokens@) + tokens_from(s@, i as int, start as int, mode) == all,
            decreases s.len() - i,
        {
            let ghost before = strings_view(tokens@);
            let ghost rest = tokens_from(s@, i as int, start as int, mode);
            let c = s[i];
            if mode == Mode::Comment {
                if c == '\n' {
                    mode = Mode::Code;
                }
                i += 1;
                start = i;
            } else if mode == Mode::Code && c == '-' && s.len() - i >= 2 && s[i + 1] == '-' {
                if start < i {
                    tokens.push(input.substring_char(start, i).to_owned());
                }
                assert(strings_view(tokens@) =~= before + pending(s@, start as int, i as int));
                assert(before + (pending(s@, start as int, i as int) + tokens_from(
                    s@,
                    i + 2,
                    i + 2,
                    Mode::Comment,
                )) =~= strings_view(tokens@) + tokens_from(s@, i + 2, i + 2, Mode::Comment));
                i += 2;
                start = i;
                mode = Mode::Comment;
            } else if c == '"' {
                if mode == Mode::Text {
                    tokens.push(input.substring_char(start, i + 1).to_owned());
                    assert(strings_view(tokens@) =~= before + seq![
                        s@.subrange(start as int, i + 1),
                    ]);
                    assert(before + (seq![s@.subrange(start as int, i + 1)] + tokens_from(
                        s@,
                        i + 1,
                        i + 1,
                        Mode::Code,
                    )) =~= strings_view(tokens@) + tokens_from(s@, i + 1, i + 1, Mode::Code));
                    mode = Mode::Code;
                    i += 1;
                    start = i;
                } else {
                    mode = Mode::Text;
                    i += 1;
                }
            } else if mode == Mode::Code && blank(c) {
                if start < i {
                    tokens.push(input.substring_char(start, i).to_owned());
                }
                assert(strings_view(tokens@) =~= before + pending(s@, start as int, i as int));
                assert(before + (pending(s@, start as int, i as int) + tokens_from(
                    s@,
                    i + 1,
                    i + 1,
                    Mode::Code,
                )) =~= strings_view(tokens@) + tokens_from(s@, i + 1, i + 1, Mode::Code));
                i += 1;
                start = i;
            } else if mode == Mode::Code && special(c) {
                if start < i {
                    tokens.push(input.substring_char(start, i).to_owned());
                }
                let width: usize = if pair_at(&s, i) {
                    2
                } else {
                    1
                };
                tokens.push(input.substring_char(i, i + width).to_owned());
                assert(strings_view(tokens@) =~= before + pending(s@, start as int, i as int)
                    + seq![s@.subrange(i as int, i + width)]);
                assert(before + (pending(s@, start as int, i as int) + seq![
                    s@.subrange(i as int, i + width),
                ] + tokens_from(s@, i + width, i + width, Mode::Code)) =~= strings_view(tokens@)
                    + tokens_from(s@, i + width, i + width, Mode::Code));
                i += width;
                start = i;
            } else {
                i += 1;
            }
        }
        if mode != Mode::Comment && start < s.len() {
            let ghost before = strings_view(tokens@);
            tokens.push(input.substring_char(start, s.len()).to_owned());
            assert(strings_view(tokens@) =~= before + pending(
                s@,
                start as int,
                s.len() as int,
            ));
        } else {
            assert(strings_view(tokens@) + Seq::<Seq<char>>::empty() =~= strings_view(tokens@));
        }
        tokens
    }
}

impl Parser {
    /// The tokens, as texts.
    pub open spec fn texts(&self) -> Seq<Seq<char>> {
        strings_view(self.tokens@)
    }

    /// A parser at the first token of `input`.
    pub fn new(input: &str) -> (r: Parser)
        ensures
            r.texts() == tokens_of(input@),
            r.position == 0,
    {
        Parser { tokens: Parser::tokenize(input), position: 0 }
    }

    /// Whether the token at `at` is `text`.
    fn token_is(&self, at: usize, text: &str) -> (r: bool)
        requires
            at < self.tokens.len(),
        ensures
            r == (self.texts()[at as int] == text@),
    {
        same_text(self.tokens[at].as_str(), text)
    }

    /// Whether `->` comes before any `]` from the token `from` on.
    fn scan_arrow(&self, from: usize) -> (r: bool)
        ensures
            r == has_arrow(self.texts(), from as int),
    {
        let mut i: usize = from;
        while i < self.tokens.len()
            invariant
                from <= i,
                has_arrow(self.texts(), i as int) == has_arrow(self.texts(), from as int),
            decreases self.tokens.len() - i,
        {
            if self.token_is(i, "->") {
                return true;
            }
            if self.token_is(i, "]") {
                return false;
            }
            i += 1;
        }
        false
    }

    /// Reads the parameters of a quotation, up to and including `->`.
    #[verifier::rlimit(40)]
    fn parse_params(&mut self) -> (r: Vec<Param>)
        requires
            old(self).position <= old(self).tokens.len(),
        ensures
            final(self).tokens == old(self).tokens,
            old(self).position <= final(self).position <= final(self).tokens.len(),
            (params_view(r@), final(self).position as int) == params_from(
                old(self).texts(),
                old(self).position as int,
            ),
    {
        let ghost tv = self.texts();
        let ghost total = params_from(tv, self.position as int);
        let mut params: Vec<Param> = Vec::new();
        assert(params_view(params@) =~= Seq::empty());
        assert(Seq::<ParamView>::empty() + total.0 =~= total.0);
        let n = self.tokens.len();
        let mut done = false;
        while !done && self.position < n
            invariant
                self.tokens == old(self).tokens,
                n == self.tokens.len(),
                tv == self.texts(),
                old(self).position <= self.position <= n,
                !done ==> params_view(params@) + params_from(tv, self.position as int).0
                    == total.0 && params_from(tv, self.position as int).1 == total.1,
                done ==> params_view(params@) == total.0 && self.position == total.1,
            decreases n - self.position, (if done { 0nat } else { 1nat }),
        {
            let ghost before = params_view(params@);
            let pos = self.position;
            if self.token_is(pos, "->") {
                self.position = pos + 1;
                done = true;
                assert(before + Seq::<ParamView>::empty() =~= before);
            } else if self.token_is(pos, ",") {
                self.position = pos + 1;
            } else {
                let name = self.tokens[pos].clone();
                if n - pos > 1 && self.token_is(pos + 1, ":") {
                    if n - pos > 2 {
                        let annotation = Type::Simple(self.tokens[pos + 2].clone());
                        let param = Param { name, type_annotation: Some(annotation) };
                        params.push(param);
                        self.position = pos + 3;
                        proof {
                            let first = seq![
                                ParamView {
                                    name: tv[pos as int],
                                    type_annotation: Some(TypeView::Simple(tv[pos + 2])),
                                },
                            ];
                            assert(params_view(params@) =~= before + first);
                            assert(before + (first + params_from(tv, pos + 3).0) =~= (before
                                + first) + params_from(tv, pos + 3).0);
                        }
                    } else {
                        params.push(Param { name, type_annotation: None });
                        self.position = pos + 2;
                        done = true;
                        proof {
                            let first = seq![
                                ParamView { name: tv[pos as int], type_annotation: None },
                            ];
                            assert(params_view(params@) =~= before + first);
                        }
                    }
                } else {
                    params.push(Param { name, type_annotation: None });
                    self.position = pos + 1;
                    proof {
                        let first = seq![
                            ParamView { name: tv[pos as int], type_annotation: None },
                        ];
                        assert(params_view(params@) =~= before + first);
                        assert(before + (first + params_from(tv, pos + 1).0) =~= (before + first)
                            + params_from(tv, pos + 1).0);
                    }
                }
            }
        }
        proof {
            if !done {
                assert(params_view(params@) + Seq::<ParamView>::empty() =~= params_view(params@));
            }
        }
        params
    }

    /// Reads the expression at the current token.
    #[verifier::rlimit(40)]
    #[verifier::loop_isolation(false)]
    pub fn parse_expr(&mut self) -> (r: Result<Expr, EvaluatorError>)
        ensures
            final(self).tokens == old(self).tokens,
            r is Ok ==> final(self).position <= final(self).tokens.len(),
            match expr_at(old(self).texts(), old(self).position as int) {
                Ok((e, p)) => r is Ok && r->Ok_0@ == e && final(self).position == p,
                Err(f) => r == Err::<Expr, EvaluatorError>(EvaluatorError::ParseError(f)),
            },
        decreases old(self).tokens.len() - old(self).position,
    {
        let ghost tv = self.texts();
        let n = self.tokens.len();
        let pos = self.position;
        if pos >= n {
            return Err(EvaluatorError::ParseError(ParseFailure::UnexpectedEnd));
        }
        self.position = pos + 1;
        let token = self.tokens[pos].clone();
        match read_number(token.as_str()) {
            Some(number) => {
                return Ok(Expr::Number(number));
            },
            None => {},
        }
        let chars = chars_of(token.as_str());
        if chars.len() >= 2 && chars[0] == '"' && chars[chars.len() - 1] == '"' {
            let content = token.as_str().substring_char(1, chars.len() - 1).to_owned();
            return Ok(Expr::String(content));
        }
        if !same_text(token.as_str(), "[") {
            return Ok(Expr::Symbol(token));
        }
        let params = if self.scan_arrow(pos + 1) {
            self.parse_params()
        } else {
            let none: Vec<Param> = Vec::new();
            assert(params_view(none@) =~= Seq::empty());
            none
        };
        let ghost start = self.position as int;
        let ghost total = body_at(tv, start);
        let mut body: Vec<Expr> = Vec::new();
        proof {
            lemma_exprs_view(body@);
            assert(exprs_view(body@) =~= Seq::empty());
            if total is Ok {
                assert(Seq::<ExprView>::empty() + total->Ok_0.0 =~= total->Ok_0.0);
            }
        }
        while self.position < n && !self.token_is(self.position, "]")
            invariant
                self.tokens == old(self).tokens,
                pos < self.position <= n,
                match body_at(tv, self.position as int) {
                    Ok((rest, end)) => total == Ok::<(Seq<ExprView>, int), ParseFailure>(
                        (exprs_view(body@) + rest, end),
                    ),
                    Err(f) => total == Err::<(Seq<ExprView>, int), ParseFailure>(f),
                },
            decreases n - self.position,
        {
            let ghost before = exprs_view(body@);
            let ghost at = self.position as int;
            proof {
                if expr_at(tv, at) is Ok {
                    lemma_expr_at_advances(tv, at);
                }
            }
            match self.parse_expr() {
                Err(e) => {
                    return Err(e);
                },
                Ok(expr) => {
                    body.push(expr);
                    proof {
                        lemma_exprs_view(body@);
                        assert(exprs_view(body@) =~= before + seq![expr@]);
                        let next = self.position as int;
                        if body_at(tv, next) is Ok {
                            let rest = body_at(tv, next)->Ok_0.0;
                            assert(before + (seq![expr@] + rest) =~= (before + seq![expr@])
                                + rest);
                        }
                    }
                },
            }
        }
        proof {
            assert(exprs_view(body@) + Seq::<ExprView>::empty() =~= exprs_view(body@));
        }
        if self.position >= n {
            return Err(EvaluatorError::ParseError(ParseFailure::UnclosedQuotation));
        }
        let end = self.position;
        self.position = end + 1;
        if n - end > 1 && self.token_is(end + 1, ":") {
            self.position = end + 2;
            if n - end > 2 {
                self.position = end + 3;
                let result = Type::Simple(self.tokens[end + 2].clone());
                return Ok(Expr::TypedQuotation(params, body, Box::new(result)));
            }
        }
        Ok(Expr::Quotation(params, body))
    }

    /// Reads every expression from the current token on; one expression
    /// stands for itself, several for their sequence.
    #[verifier::rlimit(40)]
    #[verifier::loop_isolation(false)]
    pub fn parse(&mut self) -> (r: Result<Expr, EvaluatorError>)
        ensures
            final(self).tokens == old(self).tokens,
            match program_at(old(self).texts(), old(self).position as int) {
                Ok(e) => r is Ok && r->Ok_0@ == e,
                Err(f) => r == Err::<Expr, EvaluatorError>(EvaluatorError::ParseError(f)),
            },
    {
        let ghost tv = self.texts();
        let n = self.tokens.len();
        if n == 0 {
            return Err(EvaluatorError::ParseError(ParseFailure::EmptyInput));
        }
        let ghost total = all_from(tv, self.position as int);
        let mut exprs: Vec<Expr> = Vec::new();
        proof {
            lemma_exprs_view(exprs@);
            assert(exprs_view(exprs@) =~= Seq::empty());
            if total is Ok {
                assert(Seq::<ExprView>::empty() + total->Ok_0 =~= total->Ok_0);
            }
        }
        while self.position < n
            invariant
                self.tokens == old(self).tokens,
                match all_from(tv, self.position as int) {
                    Ok(rest) => total == Ok::<Seq<ExprView>, ParseFailure>(
                        exprs_view(exprs@) + rest,
                    ),
                    Err(f) => total == Err::<Seq<ExprView>, ParseFailure>(f),
                },
            decreases n - self.position,
        {
            let ghost before = exprs_view(exprs@);
            let ghost at = self.position as int;
            proof {
                if expr_at(tv, at) is Ok {
                    lemma_expr_at_advances(tv, at);
                }
            }
            match self.parse_expr() {
                Err(e) => {
                    return Err(e);
                },
                Ok(expr) => {
                    exprs.push(expr);
                    proof {
                        lemma_exprs_view(exprs@);
                        assert(exprs_view(exprs@) =~= before + seq![expr@]);
                        let next = self.position as int;
                        if all_from(tv, next) is Ok {
                            let rest = all_from(tv, next)->Ok_0;
                            assert(before + (seq![expr@] + rest) =~= (before + seq![expr@])
                                + rest);
                        }
                    }
                },
            }
        }
        proof {
            lemma_exprs_view(exprs@);
            assert(exprs_view(exprs@) + Seq::<ExprView>::empty() =~= exprs_view(exprs@));
        }
        if exprs.len() == 1 {
            Ok(exprs.pop().unwrap())
        } else {
            Ok(Expr::Sequence(exprs))
        }
    }
}

/// Reads a source text as one expression.
pub fn parse(input: &str) -> (r: Result<Expr, EvaluatorError>)
    ensures
        match program_at(tokens_of(input@), 0) {
            Ok(e) => r is Ok && r->Ok_0@ == e,
            Err(f) => r == Err::<Expr, EvaluatorError>(EvaluatorError::ParseError(f)),
        },
{
    let mut parser = Parser::new(input);
    parser.parse()
}

} // verus!
