//! What is known of the supervised process, and what is written to it.
//!
//! The process itself is held by the caller. The watcher records whether
//! its exit was seen, and decides from that whether a line is still to be
//! written to its input.

use crate::text::{chars_of, text_of};
use vstd::prelude::*;
use vstd::string::StringExecFns;

verus! {

/// The state of the supervised process as far as it was observed. `S` is the
/// caller's exit status.
pub struct CommandWatcher<S> {
    status: Option<S>,
}

/// What is written to the process for the command `text`: the text as it is
/// and a line feed.
pub open spec fn command_line(text: Seq<char>) -> Seq<char> {
    text.push('\n')
}

/// `line` without the line feed at its end, if there is one.
pub open spec fn without_line_feed(line: Seq<char>) -> Seq<char> {
    if line.len() > 0 && line.last() == '\n' {
        line.drop_last()
    } else {
        line
    }
}

/// A line that was read with its line feed, written again as a command, is
/// the line as it was read.
pub proof fn lemma_line_round_trip(line: Seq<char>)
    requires
        line.len() > 0,
        line.last() == '\n',
    ensures
        command_line(without_line_feed(line)) == line,
{
    assert(command_line(without_line_feed(line)) =~= line);
}

/// The text of a line that was read from the operator, without the line feed
/// at its end.
pub fn line_text(line: &str) -> (r: String)
    ensures
        r@ == without_line_feed(line@),
{
    let chars = chars_of(line);
    let n = chars.len();
    if n > 0 && chars[n - 1] == '\n' {
        let r = text_of(vstd::slice::slice_subrange(chars.as_slice(), 0, n - 1));
        assert(r@ =~= line@.drop_last());
        r
    } else {
        text_of(chars.as_slice())
    }
}

impl<S: Copy> CommandWatcher<S> {
    /// The exit status that was seen, if any.
    pub closed spec fn status(&self) -> Option<S> {
        self.status
    }

    /// A watcher for a process that was just started.
    pub fn new() -> (r: Self)
        ensures
            r.status() is None,
    {
        CommandWatcher { status: None }
    }

    /// Records the outcome of one poll of the process, `polled`, and says
    /// whether the process has exited: with the status that was seen first,
    /// from then on at every call.
    pub fn check_complete(&mut self, polled: Option<S>) -> (r: Option<S>)
        ensures
            final(self).status() == if old(self).status() is Some {
                old(self).status()
            } else {
                polled
            },
            r == final(self).status(),
    {
        if self.status.is_none() {
            self.status = polled;
        }
        self.status
    }

    /// Decides what is written to the process for the command `write`, after
    /// one more poll of the process.
    ///
    /// While no exit was seen it is `write` and a line feed. Once the process
    /// has exited nothing is written, and that is no failure.
    pub fn send_string(&mut self, polled: Option<S>, write: String) -> (r: Option<String>)
        ensures
            final(self).status() == if old(self).status() is Some {
                old(self).status()
            } else {
                polled
            },
            match r {
                Some(line) => final(self).status() is None && line@ == command_line(write@),
                None => final(self).status() is Some,
            },
    {
        if self.check_complete(polled).is_some() {
            return None;
        }
        proof {
            reveal_strlit("\n");
        }
        let mut line = write;
        line.append("\n");
        assert(line@ =~= command_line(write@));
        Some(line)
    }
}

} // verus!
