//! Turning one command string into a program and its arguments, and turning
//! an exit status and its captured output into an execution outcome.

use vstd::prelude::*;
use crate::parse::views_of;
use crate::text::{decode_lossy, lossy_text_of};

verus! {

#[verifier::external_type_specification]
#[verifier::external_body]
pub struct ExParseError(shell_words::ParseError);

/// What `shell_words::split` makes of a command line: its words, or `None`
/// where a quote is left open.
pub uninterp spec fn shell_words_of(s: Seq<char>) -> Option<Seq<Seq<char>>>;

/// Relies on `shell_words::split`: POSIX word splitting with quote removal;
/// the result depends on the text alone, and the empty text has no words.
#[verifier::external_body]
fn split_words(s: &str) -> (r: Result<Vec<String>, shell_words::ParseError>)
    ensures
        match r {
            Ok(words) => shell_words_of(s@) == Some(views_of(words@)),
            Err(_) => shell_words_of(s@) is None,
        },
        s@.len() == 0 ==> (r is Ok && r->Ok_0@.len() == 0),
{
    shell_words::split(s)
}

/// The text of the error that `shell_words::split` reports.
pub open spec fn unclosed_quote_text() -> Seq<char> {
    "missing closing quote"@
}

/// Relies on the `Display` impl of `shell_words::ParseError`, which writes a
/// fixed message.
#[verifier::external_body]
fn parse_error_text(e: &shell_words::ParseError) -> (r: String)
    ensures
        r@ == unclosed_quote_text(),
{
    e.to_string()
}

/// The text recorded for a command line without words.
pub open spec fn empty_command_text() -> Seq<char> {
    "Command is empty"@
}

/// A program to start, with its arguments.
#[derive(Debug)]
pub struct Invocation {
    pub program: String,
    pub args: Vec<String>,
}

/// What a command line comes to once split into words: the first word names
/// the program and the others are its arguments; a failed split gives its
/// error text, and no words give the empty-command text.
pub open spec fn invocation_of(words: Result<Seq<Seq<char>>, Seq<char>>) -> Result<
    (Seq<char>, Seq<Seq<char>>),
    Seq<char>,
> {
    match words {
        Err(e) => Err(e),
        Ok(w) => if w.len() == 0 {
            Err(empty_command_text())
        } else {
            Ok((w[0], w.drop_first()))
        },
    }
}

/// What a command string comes to.
pub open spec fn prepared_of(command: Seq<char>) -> Result<(Seq<char>, Seq<Seq<char>>), Seq<char>> {
    match shell_words_of(command) {
        Some(w) => invocation_of(Ok(w)),
        None => Err(unclosed_quote_text()),
    }
}

/// The view of an invocation result.
pub open spec fn invocation_view(r: Result<Invocation, String>) -> Result<
    (Seq<char>, Seq<Seq<char>>),
    Seq<char>,
> {
    match r {
        Ok(inv) => Ok((inv.program@, views_of(inv.args@))),
        Err(e) => Err(e@),
    }
}

/// The view of a split result.
pub open spec fn words_view(r: Result<Vec<String>, String>) -> Result<Seq<Seq<char>>, Seq<char>> {
    match r {
        Ok(w) => Ok(views_of(w@)),
        Err(e) => Err(e@),
    }
}

/// Takes the words of a command line, or the error of splitting it, and
/// says what is to be started.
pub fn invocation_from_words(words: Result<Vec<String>, String>) -> (r: Result<Invocation, String>)
    ensures
        invocation_view(r) == invocation_of(words_view(words)),
{
    match words {
        Err(e) => Err(e),
        Ok(w) => {
            if w.len() == 0 {
                Err(String::from_str("Command is empty"))
            } else {
                let mut w = w;
                let ghost all = views_of(w@);
                let program = w.remove(0);
                proof {
                    assert(views_of(w@) =~= all.drop_first());
                }
                Ok(Invocation { program, args: w })
            }
        },
    }
}

/// Splits a command string into shell words; the first names the program.
/// An open quote or a command without words gives the error text recorded
/// for it.
pub fn prepare_command(command: &str) -> (r: Result<Invocation, String>)
    ensures
        invocation_view(r) == prepared_of(command@),
{
    let words = match split_words(command) {
        Ok(w) => Ok(w),
        Err(e) => Err(parse_error_text(&e)),
    };
    invocation_from_words(words)
}

/// The outcome of running one command.
#[derive(Debug)]
pub enum ExecutionResult {
    /// The command exited with status zero; its standard output.
    Success(String),
    /// The command could not be run or exited otherwise; the error text.
    Failure(String),
}

/// The view of an execution outcome: `Ok` for success, `Err` for failure.
pub open spec fn outcome_view(r: ExecutionResult) -> Result<Seq<char>, Seq<char>> {
    match r {
        ExecutionResult::Success(out) => Ok(out@),
        ExecutionResult::Failure(err) => Err(err@),
    }
}

/// The outcome of a process that exited: its decoded standard output on
/// success, its decoded standard error otherwise.
pub open spec fn exit_outcome(success: bool, stdout: Seq<u8>, stderr: Seq<u8>) -> Result<
    Seq<char>,
    Seq<char>,
> {
    if success {
        Ok(lossy_text_of(stdout))
    } else {
        Err(lossy_text_of(stderr))
    }
}

/// Classifies a process that exited, from whether its status was success and
/// the bytes it wrote.
pub fn outcome_of_exit(success: bool, stdout: &[u8], stderr: &[u8]) -> (r: ExecutionResult)
    ensures
        outcome_view(r) == exit_outcome(success, stdout@, stderr@),
{
    if success {
        ExecutionResult::Success(decode_lossy(stdout))
    } else {
        ExecutionResult::Failure(decode_lossy(stderr))
    }
}

} // verus!
