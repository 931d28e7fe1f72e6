//! The output of a queue: every line that a process of the queue writes, to
//! its standard output or to its standard error, goes to one sink, with a
//! prefix that tells where it came from.

use vstd::prelude::*;
use crate::text::{decimal, is_digit, push_decimal};

verus! {

/// The two streams of a process that are read.
#[derive(Debug, Clone, Copy, PartialEq, Eq, Structural)]
pub enum Stream {
    Stdout,
    Stderr,
}

impl Stream {
    /// The name of the stream.
    pub open spec fn name(self) -> Seq<char> {
        match self {
            Stream::Stdout => "stdout"@,
            Stream::Stderr => "stderr"@,
        }
    }
}

/// The prefix of the lines that the process `pid` writes to `stream`.
pub open spec fn prefix_spec(pid: u32, stream: Stream) -> Seq<char> {
    "["@ + decimal(pid as nat) + ":"@ + stream.name() + "]: "@
}

/// No character of `text` ends a line.
pub open spec fn one_line(text: Seq<char>) -> bool {
    forall|i: int| 0 <= i < text.len() ==> #[trigger] text[i] != '\n'
}

/// A decimal numeral is made of digits.
pub proof fn lemma_decimal_digits(n: nat)
    ensures
        decimal(n).len() > 0,
        forall|i: int| 0 <= i < decimal(n).len() ==> is_digit(#[trigger] decimal(n)[i]),
    decreases n,
{
    if n >= 10 {
        lemma_decimal_digits(n / 10);
    }
}

/// A prefix never ends a line.
pub proof fn lemma_prefix_one_line(pid: u32, stream: Stream)
    ensures
        one_line(prefix_spec(pid, stream)),
{
    reveal_strlit("[");
    reveal_strlit(":");
    reveal_strlit("]: ");
    reveal_strlit("stdout");
    reveal_strlit("stderr");
    lemma_decimal_digits(pid as nat);
    let digits = decimal(pid as nat);
    let text = prefix_spec(pid, stream);
    assert forall|i: int| 0 <= i < text.len() implies #[trigger] text[i] != '\n' by {
        if 1 <= i < 1 + digits.len() {
            assert(text[i] == digits[i - 1]);
            assert(is_digit(digits[i - 1]));
        }
    }
}

/// The prefix tells the two streams of a process apart: whatever a process
/// writes, no line of its standard output reaches the sink looking like a line
/// of its standard error.
pub proof fn lemma_streams_differ(pid: u32, out_line: Seq<char>, err_line: Seq<char>)
    ensures
        prefix_spec(pid, Stream::Stdout) + out_line != prefix_spec(pid, Stream::Stderr)
            + err_line,
{
    reveal_strlit("[");
    reveal_strlit(":");
    reveal_strlit("]: ");
    reveal_strlit("stdout");
    reveal_strlit("stderr");
    let digits = decimal(pid as nat);
    let at = (digits.len() + 5) as int;
    let out = prefix_spec(pid, Stream::Stdout) + out_line;
    let err = prefix_spec(pid, Stream::Stderr) + err_line;
    assert(out[at] == 'o');
    assert(err[at] == 'e');
}

/// The prefix of the lines that the process `pid` writes to `stream`:
/// `[<pid>:stdout]: ` or `[<pid>:stderr]: `.
pub fn prefix(pid: u32, stream: Stream) -> (text: String)
    ensures
        text@ == prefix_spec(pid, stream),
        one_line(text@),
{
    let mut text = "[".to_owned();
    push_decimal(&mut text, pid as u64);
    text.append(":");
    match stream {
        Stream::Stdout => text.append("stdout"),
        Stream::Stderr => text.append("stderr"),
    }
    text.append("]: ");
    proof {
        lemma_prefix_one_line(pid, stream);
    }
    text
}

/// Hands the lines of one stream of one process on to the sink, each with the
/// prefix of the stream.
#[derive(Debug)]
pub struct Forwarder {
    name: String,
}

impl Forwarder {
    /// The prefix that every line gets.
    pub closed spec fn name(&self) -> Seq<char> {
        self.name@
    }

    /// A forwarder for the stream with the prefix `name`.
    pub fn new(name: String) -> (forwarder: Forwarder)
        ensures
            forwarder.name() == name@,
    {
        Forwarder { name }
    }

    /// The line as it goes to the sink: the prefix, then the line as it was
    /// read. A line that was read whole stays one line.
    pub fn serve(&self, line: &str) -> (text: String)
        ensures
            text@ == self.name() + line@,
            one_line(self.name()) && one_line(line@) ==> one_line(text@),
    {
        let mut text = self.name.clone();
        text.append(line);
        text
    }
}

/// What the sink gets for one line: the line, then the end of the line, so
/// that what is written for a line that was read whole is one line of its own.
pub fn consume(line: &str) -> (text: String)
    ensures
        text@ == line@.push('\n'),
        one_line(line@) ==> one_line(text@.drop_last()),
{
    let mut text = line.to_owned();
    text.push('\n');
    assert(text@.drop_last() =~= line@);
    text
}

} // verus!
