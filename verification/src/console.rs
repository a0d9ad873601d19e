//! The console of the surrounding program: what the simulated program
//! printed, what the user typed, and the steps that connect the machine to
//! both.

use crate::machine::Machine;
use crate::parser::scan::{at_char, char_at, run_end, skip, Class};
use crate::pipeline::{CycleError, PipelineState};
use crate::register::V0;
use crate::syscall::{
    input_number, word_of_number, Syscall, SyscallErrorView, SyscallView,
};
use crate::text::{chars_of, trimmed};
use std::ops::ControlFlow;
use vstd::prelude::*;
use vstd::string::{StrSliceExecFns, StringExecFns};

verus! {

/// Marks the start of an error message in the console text.
pub const ERROR_START: char = '\x07';

/// Marks the end of an error message in the console text.
pub const ERROR_END: char = '\x1b';

/// The text of the console and the place from which input is read.
pub struct Console {
    text: String,
    cursor: usize,
}

/// `text` framed as an error message.
pub open spec fn framed(text: Seq<char>) -> Seq<char> {
    seq![ERROR_START] + text + seq![ERROR_END]
}

/// How a system-call error is shown on the console.
pub open spec fn error_report(text: Seq<char>) -> Seq<char> {
    "\n"@ + framed("ERROR: "@ + text) + "\n"@
}

/// The place two behind `length`, as far as it can be counted.
pub open spec fn two_behind(length: nat) -> usize {
    if length + 2 <= usize::MAX {
        (length + 2) as usize
    } else {
        usize::MAX
    }
}

impl Console {
    /// The text of the console.
    pub closed spec fn contents(&self) -> Seq<char> {
        self.text@
    }

    /// The place, counted in characters, from which input is read.
    pub closed spec fn position(&self) -> usize {
        self.cursor
    }

    /// An empty console.
    pub fn new() -> (console: Self)
        ensures
            console.contents() == Seq::<char>::empty(),
            console.position() == 0,
    {
        Console { text: String::new(), cursor: 0 }
    }

    /// Empties the console.
    pub fn clear(&mut self)
        ensures
            final(self).contents() == Seq::<char>::empty(),
            final(self).position() == 0,
    {
        self.text = String::new();
        self.cursor = 0;
    }

    /// Appends output. Input is read from behind it.
    pub fn print(&mut self, text: &str)
        ensures
            final(self).contents() == old(self).contents() + text@,
            final(self).position() == final(self).contents().len(),
    {
        self.text.append(text);
        self.cursor = self.text.as_str().unicode_len();
    }

    /// Appends an error message, framed so that it can be told from
    /// output.
    pub fn error(&mut self, text: &str)
        ensures
            final(self).contents() == old(self).contents() + framed(text@),
            final(self).position() == two_behind(final(self).contents().len()),
    {
        proof {
            reveal_strlit("\x07");
            reveal_strlit("\x1b");
            assert("\x07"@ =~= seq![ERROR_START]);
            assert("\x1b"@ =~= seq![ERROR_END]);
        }
        self.text.append("\x07");
        self.text.append(text);
        self.text.append("\x1b");
        assert(self.text@ =~= old(self).text@ + framed(text@));
        let length = self.text.as_str().unicode_len();
        self.cursor = if length <= usize::MAX - 2 {
            length + 2
        } else {
            usize::MAX
        };
    }

    /// The text and the place from which input is read, for display and
    /// editing.
    pub fn view(&mut self) -> (parts: (&mut String, usize))
        ensures
            parts.1 == old(self).position(),
            (*parts.0)@ == old(self).contents(),
            final(self).contents() == (*final(parts.0))@,
            final(self).position() == old(self).position(),
    {
        (&mut self.text, self.cursor)
    }

    /// The line of input that is ready: the text from the read position up
    /// to the next line feed. The read position moves to that line feed.
    /// Nothing is ready while no line feed follows the read position.
    pub fn input(&mut self) -> (line: Option<String>)
        ensures
            final(self).contents() == old(self).contents(),
            ({
                let text = old(self).contents();
                let from = old(self).position();
                let end = run_end(text, from, Class::CommentBody);
                if char_at(text, end) == Some('\n') {
                    &&& line matches Some(found)
                    &&& found@ == text.subrange(from as int, end as int)
                    &&& final(self).position() == end
                } else {
                    &&& line is None
                    &&& final(self).position() == from
                }
            }),
    {
        let chars = chars_of(self.text.as_str());
        let end = skip(chars.as_slice(), self.cursor, Class::CommentBody);
        if at_char(chars.as_slice(), end, '\n') {
            let begin = self.cursor;
            self.cursor = end;
            Some(self.text.as_str().substring_char(begin, end).to_owned())
        } else {
            None
        }
    }
}

impl Default for Console {
    fn default() -> (console: Self)
        ensures
            console.contents() == Seq::<char>::empty(),
            console.position() == 0,
    {
        Console::new()
    }
}

/// What the console is shown of a cycle that came to `result`: the message
/// of a failure as an error, output as it is, a system-call error as a
/// report, and nothing else.
pub open spec fn shown_of(result: Result<(PipelineState, Option<SyscallView>), CycleError>) -> Seq<
    char,
> {
    match result {
        Err(e) => framed(e.words() + "\n"@),
        Ok(next) => match next.1 {
            Some(SyscallView::Print(out)) => out,
            Some(SyscallView::Error(out)) => error_report(out),
            _ => Seq::empty(),
        },
    }
}

/// Whether the machine goes on running after a cycle that came to
/// `result`: a failure and `Quit` stop it.
pub open spec fn goes_on(
    result: Result<(PipelineState, Option<SyscallView>), CycleError>,
    running: bool,
) -> bool {
    match result {
        Err(_) => false,
        Ok(next) => next.1 != Some(SyscallView::Quit) && running,
    }
}

/// The system call that waits on after a cycle that came to `result`:
/// `ReadInt`, which needs input; every other call is dealt with at once.
pub open spec fn waits_on(
    result: Result<(PipelineState, Option<SyscallView>), CycleError>,
) -> Option<SyscallView> {
    match result {
        Ok(next) => if next.1 == Some(SyscallView::ReadInt) {
            next.1
        } else {
            None
        },
        Err(_) => None,
    }
}

/// One step of a running machine: a cycle, and what comes of it for the
/// console. Nothing happens while a system call is pending.
///
/// A failed cycle is reported as an error and stops the machine. Output is
/// printed, unless it is empty; a system-call error is printed as a report;
/// `Quit` stops the machine; `ReadInt` waits for [`feed_input`].
pub fn run_cycle(machine: &mut Machine, console: &mut Console, running: bool) -> (still: bool)
    ensures
        final(machine).labels() == old(machine).labels(),
        old(machine).pending() is Some ==> {
            &&& still == running
            &&& final(console).contents() == old(console).contents()
            &&& final(console).position() == old(console).position()
            &&& old(machine).same_state(final(machine))
        },
        old(machine).pending() is None ==> {
            &&& old(machine).stepped(final(machine), waits_on(old(machine).step().result))
            &&& still == goes_on(old(machine).step().result, running)
            &&& final(console).contents() == old(console).contents() + shown_of(
                old(machine).step().result,
            )
            &&& final(console).position() == (if old(machine).step().result is Err {
                two_behind(final(console).contents().len())
            } else if shown_of(old(machine).step().result).len() > 0 {
                final(console).contents().len() as usize
            } else {
                old(console).position()
            })
        },
{
    if machine.pending_syscall() {
        return running;
    }
    match machine.cycle() {
        Err(e) => {
            let mut text = e.message();
            text.append("\n");
            console.error(text.as_str());
            false
        },
        Ok(()) => {
            let mut still = running;
            let mut print = String::new();
            let outcome = match machine.waiting_syscall() {
                Some(Syscall::Print(out)) => {
                    print.append(out.as_str());
                    ControlFlow::Break(())
                },
                Some(Syscall::Error(out)) => {
                    proof {
                        reveal_strlit("\x07");
                        reveal_strlit("\x1b");
                        assert("\x07"@ =~= seq![ERROR_START]);
                        assert("\x1b"@ =~= seq![ERROR_END]);
                    }
                    print.append("\n");
                    print.append("\x07");
                    print.append("ERROR: ");
                    print.append(out.as_str());
                    print.append("\x1b");
                    print.append("\n");
                    assert(print@ =~= error_report(out@));
                    ControlFlow::Break(())
                },
                Some(Syscall::Quit) => {
                    still = false;
                    ControlFlow::Break(())
                },
                Some(Syscall::ReadInt) => ControlFlow::Continue(()),
                None => ControlFlow::Continue(()),
            };
            machine.settle_syscall(outcome);
            if print.as_str().unicode_len() > 0 {
                console.print(print.as_str());
            } else {
                assert(old(console).contents() + print@ =~= old(console).contents());
            }
            still
        },
    }
}

/// Hands the line of input that is ready on the console, if one is, to the
/// system call that waits for it. Input that the call refuses is reported
/// as an error and stops the machine.
pub fn feed_input(machine: &mut Machine, console: &mut Console, running: bool) -> (still: bool)
    ensures
        final(machine).program_counter() == old(machine).program_counter(),
        final(machine).memory() == old(machine).memory(),
        final(machine).latches() == old(machine).latches(),
        final(machine).labels() == old(machine).labels(),
        ({
            let text = old(console).contents();
            let from = old(console).position();
            let end = run_end(text, from, Class::CommentBody);
            let line = text.subrange(from as int, end as int);
            if char_at(text, end) != Some('\n') {
                &&& still == running
                &&& final(console).contents() == text
                &&& final(console).position() == from
                &&& final(machine).registers() == old(machine).registers()
                &&& final(machine).pending() == old(machine).pending()
            } else if old(machine).pending() == Some(SyscallView::ReadInt) && input_number(line)
                is None {
                &&& !still
                &&& final(console).contents() == text + framed(
                    (SyscallErrorView::InvalidInput { text: trimmed(line) }).message(),
                )
                &&& final(console).position() == two_behind(final(console).contents().len())
                &&& final(machine).registers() == old(machine).registers()
                &&& final(machine).pending() == old(machine).pending()
            } else {
                &&& still == running
                &&& final(console).contents() == text
                &&& final(console).position() == end
                &&& final(machine).pending() is None
                &&& final(machine).registers() == (if old(machine).pending() == Some(
                    SyscallView::ReadInt,
                ) {
                    old(machine).registers().update(
                        V0 as int,
                        word_of_number(input_number(line)->0),
                    )
                } else {
                    old(machine).registers()
                })
            }
        }),
{
    match console.input() {
        None => running,
        Some(line) => match machine.resolve_input(line.as_str()) {
            Ok(()) => running,
            Err(e) => {
                console.error(e.message().as_str());
                false
            },
        },
    }
}

} // verus!
