//! The decisions of the interactive loop: what a line that was read, or
//! the failure to read one, asks for. Reading and printing are left to
//! whoever runs the loop.

use vstd::prelude::*;
use crate::text::{
    chars_of, has_prefix, has_suffix, same_text, trim_bounds, trimmed,
    words, words_between,
};

verus! {

/// What the loop remembers from line to line.
#[derive(Debug, PartialEq)]
pub struct ReplState {
    /// Whether an input of several lines has been begun.
    pub in_multiline: bool,
    /// The lines of that input so far.
    pub multiline_input: String,
}

/// What happened when the loop asked for a line.
#[derive(Debug, PartialEq)]
pub enum ReplEvent {
    /// A line was read.
    Line(String),
    /// The user interrupted the input.
    Interrupted,
    /// The input has ended.
    Eof,
    /// Reading failed.
    Failed,
}

/// What the loop is to do next.
#[derive(Debug, PartialEq)]
pub enum ReplAction {
    /// Say goodbye and leave.
    Quit,
    /// Leave without a word: the failure has been shown.
    Stop,
    ShowHelp,
    ClearScreen,
    ShowHistory,
    /// Evaluate the file of this name.
    LoadFile(String),
    /// Write the history to the file of this name.
    SaveHistory(String),
    /// Say that `:load` wants a file name.
    MissingLoadName,
    /// Say that `:save` wants a file name.
    MissingSaveName,
    /// Say that the command is not known.
    UnknownCommand,
    /// Remember the input and evaluate it.
    Evaluate(String),
    /// Go on reading the input of several lines.
    ReadMore,
    /// Say that the input of several lines is dropped.
    CancelMultiline,
    /// Say how to leave.
    HintExit,
    /// Do nothing.
    Ignore,
}

/// The view of a [`ReplAction`].
pub ghost enum ReplActionView {
    Quit,
    Stop,
    ShowHelp,
    ClearScreen,
    ShowHistory,
    LoadFile(Seq<char>),
    SaveHistory(Seq<char>),
    MissingLoadName,
    MissingSaveName,
    UnknownCommand,
    Evaluate(Seq<char>),
    ReadMore,
    CancelMultiline,
    HintExit,
    Ignore,
}

impl View for ReplAction {
    type V = ReplActionView;

    open spec fn view(&self) -> ReplActionView {
        match self {
            ReplAction::Quit => ReplActionView::Quit,
            ReplAction::Stop => ReplActionView::Stop,
            ReplAction::ShowHelp => ReplActionView::ShowHelp,
            ReplAction::ClearScreen => ReplActionView::ClearScreen,
            ReplAction::ShowHistory => ReplActionView::ShowHistory,
            ReplAction::LoadFile(name) => ReplActionView::LoadFile(name@),
            ReplAction::SaveHistory(name) => ReplActionView::SaveHistory(name@),
            ReplAction::MissingLoadName => ReplActionView::MissingLoadName,
            ReplAction::MissingSaveName => ReplActionView::MissingSaveName,
            ReplAction::UnknownCommand => ReplActionView::UnknownCommand,
            ReplAction::Evaluate(input) => ReplActionView::Evaluate(input@),
            ReplAction::ReadMore => ReplActionView::ReadMore,
            ReplAction::CancelMultiline => ReplActionView::CancelMultiline,
            ReplAction::HintExit => ReplActionView::HintExit,
            ReplAction::Ignore => ReplActionView::Ignore,
        }
    }
}

/// What a command asks for. A command is a line that begins with `:`,
/// without the white space around it.
pub open spec fn command_action(cmd: Seq<char>) -> ReplActionView {
    if cmd == ":quit"@ || cmd == ":q"@ {
        ReplActionView::Quit
    } else if cmd == ":help"@ || cmd == ":h"@ {
        ReplActionView::ShowHelp
    } else if cmd == ":clear"@ {
        ReplActionView::ClearScreen
    } else if cmd == ":history"@ {
        ReplActionView::ShowHistory
    } else if has_prefix(cmd, ":load "@) {
        if words(cmd).len() > 1 {
            ReplActionView::LoadFile(words(cmd)[1])
        } else {
            ReplActionView::MissingLoadName
        }
    } else if has_prefix(cmd, ":save "@) {
        if words(cmd).len() > 1 {
            ReplActionView::SaveHistory(words(cmd)[1])
        } else {
            ReplActionView::MissingSaveName
        }
    } else {
        ReplActionView::UnknownCommand
    }
}

/// Whether a line goes on with the next one: it ends with `\`, or holds
/// nothing but a `\`.
pub open spec fn continues(line: Seq<char>) -> bool {
    trimmed(line) == "\\"@ || has_suffix(line, "\\"@)
}

/// What is kept of a line that goes on with the next one: the line
/// without the `\` at its end, if it ends with one, and a line break.
pub open spec fn kept_of(line: Seq<char>) -> Seq<char> {
    if has_suffix(line, "\\"@) {
        line.subrange(0, line.len() - 1) + "\n"@
    } else {
        "\n"@
    }
}

/// What a line asks for, and what the loop remembers afterwards. Outside
/// an input of several lines, a line that begins with `:` is a command. A
/// line that goes on with the next one is kept. The line that ends an input
/// of several lines has the whole input evaluated. An empty line is ignored,
/// any other line is evaluated.
pub open spec fn line_step(in_multiline: bool, kept: Seq<char>, line: Seq<char>) -> (
    bool,
    Seq<char>,
    ReplActionView,
) {
    if !in_multiline && has_prefix(trimmed(line), ":"@) {
        (in_multiline, kept, command_action(trimmed(line)))
    } else if continues(line) {
        (
            true,
            if in_multiline {
                kept + kept_of(line)
            } else {
                kept_of(line)
            },
            ReplActionView::ReadMore,
        )
    } else if in_multiline {
        (false, Seq::empty(), ReplActionView::Evaluate(kept + line))
    } else if trimmed(line).len() == 0 {
        (in_multiline, kept, ReplActionView::Ignore)
    } else {
        (in_multiline, kept, ReplActionView::Evaluate(line))
    }
}

/// What the command `cmd`, whose characters are `chars`, asks for.
fn decide_command(cmd: &str, chars: &Vec<char>) -> (r: ReplAction)
    requires
        chars@ == cmd@,
    ensures
        r@ == command_action(cmd@),
{
    if same_text(cmd, ":quit") || same_text(cmd, ":q") {
        ReplAction::Quit
    } else if same_text(cmd, ":help") || same_text(cmd, ":h") {
        ReplAction::ShowHelp
    } else if same_text(cmd, ":clear") {
        ReplAction::ClearScreen
    } else if same_text(cmd, ":history") {
        ReplAction::ShowHistory
    } else {
        let loading = crate::text::starts_with(chars, ":load ");
        let saving = crate::text::starts_with(chars, ":save ");
        if loading || saving {
            assert(chars@.subrange(0, chars@.len() as int) =~= chars@);
            let mut parts = words_between(cmd, chars, 0, chars.len());
            if parts.len() > 1 {
                let name = parts.swap_remove(1);
                if loading {
                    ReplAction::LoadFile(name)
                } else {
                    ReplAction::SaveHistory(name)
                }
            } else if loading {
                ReplAction::MissingLoadName
            } else {
                ReplAction::MissingSaveName
            }
        } else {
            ReplAction::UnknownCommand
        }
    }
}

impl ReplState {
    /// The state in which the loop begins.
    pub fn new() -> (r: ReplState)
        ensures
            !r.in_multiline,
            r.multiline_input@ == Seq::<char>::empty(),
    {
        ReplState { in_multiline: false, multiline_input: String::new() }
    }

    /// What the loop is to do after `event`, and what it remembers then.
    #[verifier::rlimit(40)]
    pub fn step(&mut self, event: ReplEvent) -> (r: ReplAction)
        ensures
            match event {
                ReplEvent::Line(line) => (
                    final(self).in_multiline,
                    final(self).multiline_input@,
                    r@,
                ) == line_step(old(self).in_multiline, old(self).multiline_input@, line@),
                ReplEvent::Interrupted => !final(self).in_multiline && if old(self).in_multiline {
                    r@ == ReplActionView::CancelMultiline && final(self).multiline_input@
                        == Seq::<char>::empty()
                } else {
                    r@ == ReplActionView::HintExit && final(self).multiline_input@ == old(
                        self,
                    ).multiline_input@
                },
                ReplEvent::Eof => r@ == ReplActionView::Quit && *final(self) == *old(self),
                ReplEvent::Failed => r@ == ReplActionView::Stop && *final(self) == *old(self),
            },
    {
        match event {
            ReplEvent::Eof => ReplAction::Quit,
            ReplEvent::Failed => ReplAction::Stop,
            ReplEvent::Interrupted => {
                if self.in_multiline {
                    self.in_multiline = false;
                    self.multiline_input = String::new();
                    ReplAction::CancelMultiline
                } else {
                    ReplAction::HintExit
                }
            },
            ReplEvent::Line(line) => {
                proof {
                    reveal_strlit(":");
                    reveal_strlit("\\");
                    reveal_strlit("\n");
                }
                let chars = chars_of(line.as_str());
                let (from, to) = trim_bounds(&chars);
                let ghost cmd = trimmed(line@);
                if !self.in_multiline && from < to && chars[from] == ':' {
                    assert(cmd.subrange(0, 1) =~= ":"@);
                    let text = line.as_str().substring_char(from, to);
                    let cmd_chars = chars_of(text);
                    return decide_command(text, &cmd_chars);
                }
                proof {
                    if !self.in_multiline {
                        if has_prefix(cmd, ":"@) {
                            assert(cmd.subrange(0, 1)[0] == ':');
                        }
                    }
                }
                let n = chars.len();
                let ends = n > 0 && chars[n - 1] == '\\';
                let alone = to - from == 1 && chars[from] == '\\';
                proof {
                    assert("\\"@ =~= seq!['\\']);
                    assert(cmd.len() == to - from);
                    if n > 0 {
                        assert(line@.subrange(n - 1, n as int) =~= seq![chars@[n - 1]]);
                        if !ends {
                            assert(line@.subrange(n - 1, n as int)[0] != '\\');
                        }
                    }
                    assert(ends == has_suffix(line@, "\\"@));
                    if to - from == 1 {
                        assert(cmd =~= seq![chars@[from as int]]);
                        assert(cmd[0] == chars@[from as int]);
                        if chars@[from as int] == '\\' {
                            assert(cmd =~= "\\"@);
                        } else {
                            assert(cmd[0] != "\\"@[0]);
                        }
                    } else {
                        assert(cmd.len() != "\\"@.len());
                    }
                    assert(alone == (cmd == "\\"@));
                }
                if ends || alone {
                    if !self.in_multiline {
                        self.in_multiline = true;
                        self.multiline_input = String::new();
                    }
                    if ends {
                        self.multiline_input.append(line.as_str().substring_char(0, n - 1));
                    }
                    self.multiline_input.append("\n");
                    proof {
                        assert(self.multiline_input@ =~= if old(self).in_multiline {
                            old(self).multiline_input@ + kept_of(line@)
                        } else {
                            kept_of(line@)
                        });
                    }
                    ReplAction::ReadMore
                } else if self.in_multiline {
                    let mut input = String::new();
                    input.append(self.multiline_input.as_str());
                    input.append(line.as_str());
                    self.in_multiline = false;
                    self.multiline_input = String::new();
                    assert(input@ =~= old(self).multiline_input@ + line@);
                    ReplAction::Evaluate(input)
                } else if from >= to {
                    ReplAction::Ignore
                } else {
                    ReplAction::Evaluate(line)
                }
            },
        }
    }
}

} // verus!
