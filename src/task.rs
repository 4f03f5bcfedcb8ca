//! Declarations of the tasks that a run starts.
use vstd::prelude::*;

verus! {

/// The view of an optional string.
pub open spec fn opt_view(o: Option<String>) -> Option<Seq<char>> {
    match o {
        Some(s) => Some(s@),
        None => None,
    }
}

/// The two output streams of a process.
#[derive(Clone, Copy, Debug, PartialEq, Eq, Structural)]
pub enum Stream {
    Stdout,
    Stderr,
}

/// Where the two streams of one task are saved: a suffix for each stream
/// that is kept, none for a stream that is discarded.
#[derive(Clone, Debug)]
pub struct Suffixes {
    pub stdout: Option<String>,
    pub stderr: Option<String>,
}

impl Suffixes {
    pub open spec fn view(&self) -> (Option<Seq<char>>, Option<Seq<char>>) {
        (opt_view(self.stdout), opt_view(self.stderr))
    }

    /// The suffix configured for one stream.
    pub fn of(&self, stream: Stream) -> (r: &Option<String>)
        ensures
            opt_view(*r) == suffix_for(self.view(), stream),
    {
        match stream {
            Stream::Stdout => &self.stdout,
            Stream::Stderr => &self.stderr,
        }
    }

    pub fn copy(&self) -> (r: Suffixes)
        ensures
            r.view() == self.view(),
    {
        Suffixes { stdout: clone_opt(&self.stdout), stderr: clone_opt(&self.stderr) }
    }
}

/// The suffix of one stream in a pair of suffixes.
pub open spec fn suffix_for(
    pair: (Option<Seq<char>>, Option<Seq<char>>),
    stream: Stream,
) -> Option<Seq<char>> {
    match stream {
        Stream::Stdout => pair.0,
        Stream::Stderr => pair.1,
    }
}

fn clone_opt(o: &Option<String>) -> (r: Option<String>)
    ensures
        opt_view(r) == opt_view(*o),
{
    match o {
        Some(s) => Some(s.clone()),
        None => None,
    }
}

/// One background task: a command, its arguments, and where its streams go.
#[derive(Clone, Debug)]
pub struct TaskSpec {
    pub cmd: String,
    pub args: Vec<String>,
    pub suffixes: Suffixes,
}

/// A command line split into the program and its arguments.
#[derive(Clone, Debug)]
pub struct CommandLine {
    pub program: String,
    pub args: Vec<String>,
}

/// Splits a non-empty list of tokens into the program (the first token) and
/// its arguments (the rest, in order).
pub fn split_command(tokens: Vec<String>) -> (r: CommandLine)
    requires
        tokens.len() > 0,
    ensures
        r.program == tokens@[0],
        r.args@ == tokens@.drop_first(),
{
    let mut rest = tokens;
    let program = rest.remove(0);
    CommandLine { program, args: rest }
}

} // verus!
