//! What running a file of tests needs beside the machine: the text of the
//! file with its module and import declarations commented out, and what
//! counts as a pass.

use vstd::prelude::*;
use crate::render::{join, joined, value_text};
use crate::text::{
    chars_of, has_prefix, holds_at, same_text, strings_view, trim_bounds, trimmed,
};
use crate::types::Value;

verus! {

/// A line without the carriage return that ends it, if one does.
pub open spec fn without_return(line: Seq<char>) -> Seq<char> {
    if line.len() > 0 && line.last() == '\r' {
        line.drop_last()
    } else {
        line
    }
}

/// The lines ended and the line begun after the first `n` characters: a
/// line feed ends a line, together with a carriage return before it.
pub open spec fn line_state(s: Seq<char>, n: int) -> (Seq<Seq<char>>, Seq<char>)
    decreases n,
{
    if n <= 0 || n > s.len() {
        (Seq::empty(), Seq::empty())
    } else {
        let (done, line) = line_state(s, n - 1);
        if s[n - 1] == '\n' {
            (done.push(without_return(line)), Seq::empty())
        } else {
            (done, line.push(s[n - 1]))
        }
    }
}

/// The lines of a text. The last line need not be ended.
pub open spec fn lines_of(s: Seq<char>) -> Seq<Seq<char>> {
    let (done, line) = line_state(s, s.len() as int);
    if line.len() > 0 {
        done.push(line)
    } else {
        done
    }
}

/// Whether a line declares a module or an import.
pub open spec fn is_declaration(line: Seq<char>) -> bool {
    has_prefix(trimmed(line), "module "@) || has_prefix(trimmed(line), "import "@)
}

/// A line as it is run: a declaration is made a comment.
pub open spec fn disarmed(line: Seq<char>) -> Seq<char> {
    if is_declaration(line) {
        "-- "@ + line
    } else {
        line
    }
}

/// The lines of a text as they are run.
pub open spec fn disarmed_lines(lines: Seq<Seq<char>>) -> Seq<Seq<char>> {
    Seq::new(lines.len(), |i: int| disarmed(lines[i]))
}

/// The lines of `content`.
#[verifier::rlimit(40)]
pub fn split_lines(content: &str) -> (r: Vec<String>)
    ensures
        strings_view(r@) == lines_of(content@),
{
    let chars = chars_of(content);
    let mut done: Vec<String> = Vec::new();
    let mut start: usize = 0;
    let mut i: usize = 0;
    assert(strings_view(done@) =~= Seq::empty());
    assert(chars@.subrange(0, 0) =~= Seq::empty());
    while i < chars.len()
        invariant
            start <= i <= chars.len(),
            chars@ == content@,
            line_state(chars@, i as int) == (
                strings_view(done@),
                chars@.subrange(start as int, i as int),
            ),
        decreases chars.len() - i,
    {
        let ghost seen = strings_view(done@);
        let ghost line = chars@.subrange(start as int, i as int);
        if chars[i] == '\n' {
            let end = if start < i && chars[i - 1] == '\r' {
                i - 1
            } else {
                i
            };
            assert(chars@.subrange(start as int, end as int) =~= without_return(line));
            done.push(content.substring_char(start, end).to_owned());
            assert(strings_view(done@) =~= seen.push(without_return(line)));
            start = i + 1;
            assert(chars@.subrange(start as int, i + 1) =~= Seq::empty());
        } else {
            assert(chars@.subrange(start as int, i + 1) =~= line.push(chars@[i as int]));
        }
        i += 1;
    }
    if start < chars.len() {
        let ghost seen = strings_view(done@);
        done.push(content.substring_char(start, chars.len()).to_owned());
        assert(strings_view(done@) =~= seen.push(
            chars@.subrange(start as int, chars.len() as int),
        ));
    }
    done
}

/// Whether `line` declares a module or an import.
#[verifier::rlimit(40)]
pub fn declares(line: &str) -> (r: bool)
    ensures
        r == is_declaration(line@),
{
    let chars = chars_of(line);
    let (from, to) = trim_bounds(&chars);
    let module = chars_of("module ");
    let import = chars_of("import ");
    proof {
        reveal_strlit("module ");
        reveal_strlit("import ");
        let t = trimmed(line@);
        assert(t == chars@.subrange(from as int, to as int));
        assert(has_prefix(t, "module "@) == (from + 7 <= to && chars@.subrange(
            from as int,
            from + 7,
        ) == "module "@)) by {
            if 7 <= t.len() {
                assert(t.subrange(0, 7) =~= chars@.subrange(from as int, from + 7));
            }
        }
        assert(has_prefix(t, "import "@) == (from + 7 <= to && chars@.subrange(
            from as int,
            from + 7,
        ) == "import "@)) by {
            if 7 <= t.len() {
                assert(t.subrange(0, 7) =~= chars@.subrange(from as int, from + 7));
            }
        }
    }
    to - from >= 7 && (holds_at(&chars, from, &module) || holds_at(&chars, from, &import))
}

/// The text of a file of tests as it is run: its lines, with the
/// declarations of modules and imports made comments, and line feeds
/// between them.
pub fn comment_out_declarations(content: &str) -> (r: String)
    ensures
        r@ == joined(disarmed_lines(lines_of(content@)), "\n"@),
{
    let lines = split_lines(content);
    let mut out: Vec<String> = Vec::new();
    let mut i: usize = 0;
    while i < lines.len()
        invariant
            i <= lines.len(),
            out.len() == i,
            forall|j: int| 0 <= j < i ==> (#[trigger] out@[j])@ == disarmed(lines@[j]@),
        decreases lines.len() - i,
    {
        if declares(lines[i].as_str()) {
            let mut line = "-- ".to_owned();
            line.append(lines[i].as_str());
            out.push(line);
        } else {
            out.push(lines[i].clone());
        }
        i += 1;
    }
    assert(strings_view(out@) =~= disarmed_lines(strings_view(lines@)));
    join(&out, "\n")
}

/// Whether a file of tests passed: what it yields must read `true`.
pub fn passed(result: &Value) -> (r: bool)
    ensures
        r == (trimmed(value_text(result@)) == "true"@),
{
    let text = result.trim();
    same_text(text.as_str(), "true")
}

} // verus!
