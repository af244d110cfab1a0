//! Transcript records: one chat-style message per executed command.

use vstd::prelude::*;
use crate::exec::{
    exit_outcome, outcome_view, prepared_of, shell_words_of, unclosed_quote_text, ExecutionResult,
};
use crate::parse::{commands_of, is_nonblank, split_on, COMMAND_DELIMITER};
use crate::text::{lossy_text_of, trim, trim_text};

verus! {

/// The role tag that every record carries.
pub open spec fn system_role() -> Seq<char> {
    "system"@
}

/// The first sentence of the record of a command that succeeded.
pub open spec fn success_header(command: Seq<char>) -> Seq<char> {
    "Command executed: '"@ + command + "'."@
}

/// The first sentence of the record of a command that failed.
pub open spec fn failure_header(command: Seq<char>) -> Seq<char> {
    "Command execution failed: '"@ + command + "'."@
}

/// The content of the record of `command` with the given outcome: on success
/// the header and the trimmed output, on failure the header and the error.
pub open spec fn record_content(command: Seq<char>, outcome: Result<Seq<char>, Seq<char>>) -> Seq<
    char,
> {
    match outcome {
        Ok(out) => success_header(command) + "\nOutput:\n"@ + trim(out),
        Err(err) => failure_header(command) + "\nError: "@ + err,
    }
}

/// One message of the transcript.
#[derive(Debug)]
pub struct TranscriptRecord {
    pub role: String,
    pub content: String,
}

impl TranscriptRecord {
    /// The role and the content of the record.
    pub open spec fn view_pair(&self) -> (Seq<char>, Seq<char>) {
        (self.role@, self.content@)
    }
}

/// The record of `command` with the given outcome.
pub open spec fn record_of(command: Seq<char>, outcome: Result<Seq<char>, Seq<char>>) -> (
    Seq<char>,
    Seq<char>,
) {
    (system_role(), record_content(command, outcome))
}

/// The transcript of a sequence of commands with their outcomes: one record
/// for each, in the same order.
pub open spec fn transcript_of(runs: Seq<(Seq<char>, Result<Seq<char>, Seq<char>>)>) -> Seq<
    (Seq<char>, Seq<char>),
> {
    runs.map_values(|p: (Seq<char>, Result<Seq<char>, Seq<char>>)| record_of(p.0, p.1))
}

/// The views of the records of a transcript.
pub open spec fn records_view(v: Seq<TranscriptRecord>) -> Seq<(Seq<char>, Seq<char>)> {
    v.map_values(|r: TranscriptRecord| r.view_pair())
}

/// The views of commands paired with their outcomes.
pub open spec fn runs_view(v: Seq<(String, ExecutionResult)>) -> Seq<
    (Seq<char>, Result<Seq<char>, Seq<char>>),
> {
    v.map_values(|p: (String, ExecutionResult)| (p.0@, outcome_view(p.1)))
}

/// Builds the record of one executed command.
pub fn format_record(command: &str, outcome: &ExecutionResult) -> (r: TranscriptRecord)
    ensures
        r.view_pair() == record_of(command@, outcome_view(*outcome)),
{
    let role = String::from_str("system");
    match outcome {
        ExecutionResult::Success(out) => {
            let mut content = String::from_str("Command executed: '");
            content.append(command);
            content.append("'.");
            content.append("\nOutput:\n");
            let trimmed = trim_text(out.as_str());
            content.append(trimmed.as_str());
            TranscriptRecord { role, content }
        },
        ExecutionResult::Failure(err) => {
            let mut content = String::from_str("Command execution failed: '");
            content.append(command);
            content.append("'.");
            content.append("\nError: ");
            content.append(err.as_str());
            TranscriptRecord { role, content }
        },
    }
}

/// Builds the transcript of the executed commands, one record each, in order.
pub fn build_transcript(runs: &Vec<(String, ExecutionResult)>) -> (r: Vec<TranscriptRecord>)
    ensures
        records_view(r@) == transcript_of(runs_view(runs@)),
{
    let mut out: Vec<TranscriptRecord> = Vec::new();
    let mut i: usize = 0;
    while i < runs.len()
        invariant
            i <= runs@.len(),
            records_view(out@) == transcript_of(runs_view(runs@.take(i as int))),
        decreases runs@.len() - i,
    {
        let rec = format_record(runs[i].0.as_str(), &runs[i].1);
        let ghost prev = out@;
        out.push(rec);
        proof {
            let head = runs@.take(i as int);
            assert(runs@.take(i + 1) =~= head.push(runs@[i as int]));
            assert(records_view(out@) =~= records_view(prev).push(rec.view_pair()));
            assert(runs_view(head.push(runs@[i as int])) =~= runs_view(head).push(
                (runs@[i as int].0@, outcome_view(runs@[i as int].1)),
            ));
            assert(transcript_of(runs_view(head.push(runs@[i as int]))) =~= transcript_of(
                runs_view(head),
            ).push(record_of(runs@[i as int].0@, outcome_view(runs@[i as int].1))));
            assert(records_view(out@) =~= transcript_of(runs_view(runs@.take(i + 1))));
        }
        i = i + 1;
    }
    proof {
        assert(runs@.take(i as int) =~= runs@);
    }
    out
}

/// Pairs each command with the outcome at the same place.
pub open spec fn runs_of(commands: Seq<Seq<char>>, outcomes: Seq<Result<Seq<char>, Seq<char>>>) -> Seq<
    (Seq<char>, Result<Seq<char>, Seq<char>>),
> {
    Seq::new(commands.len(), |i: int| (commands[i], outcomes[i]))
}

/// The transcript of a raw input has one record for each comma-separated
/// piece that is non-empty once trimmed, and the record at each place is the
/// record of the command at that place, whatever the other commands did.
pub proof fn lemma_one_record_per_command(
    raw: Seq<char>,
    outcomes: Seq<Result<Seq<char>, Seq<char>>>,
)
    requires
        outcomes.len() == commands_of(raw).len(),
    ensures
        transcript_of(runs_of(commands_of(raw), outcomes)).len() == split_on(
            raw,
            COMMAND_DELIMITER,
        ).map_values(|seg: Seq<char>| trim(seg)).filter(|seg: Seq<char>| is_nonblank(seg)).len(),
        forall|i: int|
            0 <= i < outcomes.len() ==> #[trigger] transcript_of(
                runs_of(commands_of(raw), outcomes),
            )[i] == record_of(commands_of(raw)[i], outcomes[i]),
{
}

/// The record of a command that exited with status zero starts with the
/// success header and ends with its trimmed standard output.
pub proof fn lemma_success_record(command: Seq<char>, stdout: Seq<u8>, stderr: Seq<u8>)
    ensures
        ({
            let c = record_content(command, exit_outcome(true, stdout, stderr));
            let h = success_header(command);
            let o = trim(lossy_text_of(stdout));
            &&& c.len() >= h.len() + o.len()
            &&& c.take(h.len() as int) == h
            &&& c.skip(c.len() - o.len()) == o
        }),
{
    let c = record_content(command, exit_outcome(true, stdout, stderr));
    let h = success_header(command);
    let o = trim(lossy_text_of(stdout));
    assert(c == h + ("\nOutput:\n"@ + o));
    assert(c.take(h.len() as int) =~= h);
    assert(c.skip(c.len() - o.len()) =~= o);
}

/// The record of a command that exited with another status starts with the
/// failure header and ends with its standard error.
pub proof fn lemma_failure_record(command: Seq<char>, stdout: Seq<u8>, stderr: Seq<u8>)
    ensures
        ({
            let c = record_content(command, exit_outcome(false, stdout, stderr));
            let h = failure_header(command);
            let e = lossy_text_of(stderr);
            &&& c.len() >= h.len() + e.len()
            &&& c.take(h.len() as int) == h
            &&& c.skip(c.len() - e.len()) == e
        }),
{
    let c = record_content(command, exit_outcome(false, stdout, stderr));
    let h = failure_header(command);
    let e = lossy_text_of(stderr);
    assert(c == h + ("\nError: "@ + e));
    assert(c.take(h.len() as int) =~= h);
    assert(c.skip(c.len() - e.len()) =~= e);
}

/// A command with an open quote is not started: its record is a failure
/// that ends with the tokenizer's error text.
pub proof fn lemma_unclosed_quote_record(command: Seq<char>)
    requires
        shell_words_of(command) is None,
    ensures
        prepared_of(command) == Err::<(Seq<char>, Seq<Seq<char>>), Seq<char>>(
            unclosed_quote_text(),
        ),
        ({
            let c = record_content(command, Err(unclosed_quote_text()));
            let h = failure_header(command);
            let e = unclosed_quote_text();
            &&& c.len() >= h.len() + e.len()
            &&& c.take(h.len() as int) == h
            &&& c.skip(c.len() - e.len()) == e
        }),
{
    let c = record_content(command, Err(unclosed_quote_text()));
    let h = failure_header(command);
    let e = unclosed_quote_text();
    assert(c == h + ("\nError: "@ + e));
    assert(c.take(h.len() as int) =~= h);
    assert(c.skip(c.len() - e.len()) =~= e);
}

} // verus!
