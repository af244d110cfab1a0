use cmd_transcript::exec::{invocation_from_words, outcome_of_exit, prepare_command, ExecutionResult};
use cmd_transcript::parse::{parse_commands, InputError};
use cmd_transcript::transcript::{build_transcript, format_record, TranscriptRecord};

fn success_text(r: &ExecutionResult) -> String {
    match r {
        ExecutionResult::Success(s) => s.clone(),
        ExecutionResult::Failure(e) => panic!("expected success, got failure {:?}", e),
    }
}

fn failure_text(r: &ExecutionResult) -> String {
    match r {
        ExecutionResult::Failure(e) => e.clone(),
        ExecutionResult::Success(s) => panic!("expected failure, got success {:?}", s),
    }
}

fn strings(v: &[&str]) -> Vec<String> {
    v.iter().map(|s| s.to_string()).collect()
}

#[test]
fn parse_splits_trims_and_drops_empty_pieces() {
    let cmds = parse_commands("echo hello, false, nonexistent-cmd-xyz").unwrap();
    assert_eq!(cmds, strings(&["echo hello", "false", "nonexistent-cmd-xyz"]));
    let cmds = parse_commands(" a ,, b\t,  ,c,").unwrap();
    assert_eq!(cmds, strings(&["a", "b", "c"]));
}

#[test]
fn parse_keeps_delimiter_inside_quotes_naive() {
    let cmds = parse_commands("echo 'a,b'").unwrap();
    assert_eq!(cmds, strings(&["echo 'a", "b'"]));
}

#[test]
fn parse_empty_input_is_refused() {
    assert_eq!(parse_commands(""), Err(InputError::NoCommands));
    assert_eq!(parse_commands("  , ,\n, "), Err(InputError::NoCommands));
    assert_eq!(InputError::NoCommands.message(), "Error: No commands provided.");
}

#[test]
fn parse_single_command_without_delimiter() {
    assert_eq!(parse_commands("  ls -la  ").unwrap(), strings(&["ls -la"]));
}

#[test]
fn prepare_splits_shell_words() {
    let inv = prepare_command("ls -la 'a b' \"c d\" e\\ f").unwrap();
    assert_eq!(inv.program, "ls");
    assert_eq!(inv.args, strings(&["-la", "a b", "c d", "e f"]));
}

#[test]
fn prepare_program_without_arguments() {
    let inv = prepare_command("false").unwrap();
    assert_eq!(inv.program, "false");
    assert!(inv.args.is_empty());
}

#[test]
fn prepare_unclosed_quote_is_tokenize_error() {
    assert_eq!(prepare_command("echo \"unterminated").unwrap_err(), "missing closing quote");
    assert_eq!(prepare_command("echo 'x").unwrap_err(), "missing closing quote");
}

#[test]
fn prepare_without_words_is_empty_command() {
    assert_eq!(prepare_command("# only a comment").unwrap_err(), "Command is empty");
    assert_eq!(prepare_command("").unwrap_err(), "Command is empty");
}

#[test]
fn invocation_from_given_words() {
    let inv = invocation_from_words(Ok(strings(&["git", "status", "-s"]))).unwrap();
    assert_eq!(inv.program, "git");
    assert_eq!(inv.args, strings(&["status", "-s"]));
    assert_eq!(invocation_from_words(Ok(Vec::new())).unwrap_err(), "Command is empty");
    assert_eq!(invocation_from_words(Err("bad".to_string())).unwrap_err(), "bad");
}

#[test]
fn exit_zero_keeps_stdout() {
    let r = outcome_of_exit(true, b"hello\n", b"ignored");
    assert_eq!(success_text(&r), "hello\n");
}

#[test]
fn exit_nonzero_keeps_stderr() {
    let r = outcome_of_exit(false, b"ignored", b"boom\n");
    assert_eq!(failure_text(&r), "boom\n");
    let r = outcome_of_exit(false, b"", b"");
    assert_eq!(failure_text(&r), "");
}

#[test]
fn exit_output_is_decoded_lossily() {
    let r = outcome_of_exit(true, &[0x66, 0xff, 0x67], b"");
    assert_eq!(success_text(&r), "f\u{FFFD}g");
}

#[test]
fn success_record_has_header_and_trimmed_output() {
    let rec = format_record("echo hi", &ExecutionResult::Success("  hi \n".to_string()));
    assert_eq!(rec.role, "system");
    assert_eq!(rec.content, "Command executed: 'echo hi'.\nOutput:\nhi");
}

#[test]
fn failure_record_has_header_and_error() {
    let rec = format_record("false", &ExecutionResult::Failure("boom\n".to_string()));
    assert_eq!(rec.role, "system");
    assert_eq!(rec.content, "Command execution failed: 'false'.\nError: boom\n");
}

#[test]
fn success_record_starts_with_header_for_exit_zero() {
    let r = outcome_of_exit(true, b"line one\nline two\n\n", b"");
    let rec = format_record("printf x", &r);
    assert!(rec.content.starts_with("Command executed: 'printf x'."));
    assert!(rec.content.ends_with("line one\nline two"));
}

#[test]
fn failure_record_starts_with_header_for_nonzero_exit() {
    let r = outcome_of_exit(false, b"", b"no such file\n");
    let rec = format_record("ls /missing", &r);
    assert!(rec.content.starts_with("Command execution failed: 'ls /missing'."));
    assert!(rec.content.contains("no such file"));
}

#[test]
fn malformed_command_does_not_stop_the_batch() {
    let cmds = parse_commands("echo \"unterminated, echo after").unwrap();
    assert_eq!(cmds.len(), 2);
    let first = match prepare_command(&cmds[0]) {
        Ok(_) => panic!("expected a tokenize error"),
        Err(e) => ExecutionResult::Failure(e),
    };
    let second = prepare_command(&cmds[1]).unwrap();
    assert_eq!(second.program, "echo");
    assert_eq!(second.args, strings(&["after"]));
    let runs = vec![
        (cmds[0].clone(), first),
        (cmds[1].clone(), outcome_of_exit(true, b"after\n", b"")),
    ];
    let t = build_transcript(&runs);
    assert_eq!(t.len(), 2);
    assert_eq!(t[0].content, "Command execution failed: 'echo \"unterminated'.\nError: missing closing quote");
    assert_eq!(t[1].content, "Command executed: 'echo after'.\nOutput:\nafter");
}

fn scenario_transcript() -> Vec<TranscriptRecord> {
    let cmds = parse_commands("echo hello, false, nonexistent-cmd-xyz").unwrap();
    let outcomes = vec![
        outcome_of_exit(true, b"hello\n", b""),
        outcome_of_exit(false, b"", b""),
        ExecutionResult::Failure("No such file or directory (os error 2)".to_string()),
    ];
    let runs: Vec<(String, ExecutionResult)> = cmds.into_iter().zip(outcomes).collect();
    build_transcript(&runs)
}

#[test]
fn three_commands_give_three_records() {
    let t = scenario_transcript();
    assert_eq!(t.len(), 3);
    assert!(t.iter().all(|r| r.role == "system"));
    assert_eq!(t[0].content, "Command executed: 'echo hello'.\nOutput:\nhello");
    assert_eq!(t[1].content, "Command execution failed: 'false'.\nError: ");
    assert_eq!(
        t[2].content,
        "Command execution failed: 'nonexistent-cmd-xyz'.\nError: No such file or directory (os error 2)"
    );
}

#[test]
fn record_count_matches_nonblank_pieces() {
    let cmds = parse_commands("a, ,b,,c ,   d").unwrap();
    let runs: Vec<(String, ExecutionResult)> = cmds
        .iter()
        .map(|c| (c.clone(), ExecutionResult::Success(String::new())))
        .collect();
    let t = build_transcript(&runs);
    assert_eq!(t.len(), 4);
    assert_eq!(t[3].content, "Command executed: 'd'.\nOutput:\n");
}

#[test]
fn empty_transcript_from_no_runs() {
    assert!(build_transcript(&Vec::new()).is_empty());
}

fn to_json_value(t: &[TranscriptRecord]) -> serde_json::Value {
    let mut items = Vec::new();
    for r in t {
        let mut m = serde_json::Map::new();
        m.insert("role".to_string(), serde_json::Value::String(r.role.clone()));
        m.insert("content".to_string(), serde_json::Value::String(r.content.clone()));
        items.push(serde_json::Value::Object(m));
    }
    serde_json::Value::Array(items)
}

#[test]
fn json_round_trip_keeps_keys_and_order() {
    let t = scenario_transcript();
    let text = serde_json::to_string_pretty(&to_json_value(&t)).unwrap();
    let back: serde_json::Value = serde_json::from_str(&text).unwrap();
    let arr = back.as_array().unwrap();
    assert_eq!(arr.len(), 3);
    for (i, v) in arr.iter().enumerate() {
        let obj = v.as_object().unwrap();
        assert_eq!(obj.len(), 2);
        assert_eq!(obj.get("role").unwrap().as_str().unwrap(), "system");
        assert_eq!(obj.get("content").unwrap().as_str().unwrap(), t[i].content);
    }
}

#[test]
fn yaml_matches_json_content() {
    let t = scenario_transcript();
    let v = to_json_value(&t);
    let yaml = serde_yaml::to_string(&v).unwrap();
    let from_yaml: serde_json::Value = serde_yaml::from_str(&yaml).unwrap();
    let json = serde_json::to_string_pretty(&v).unwrap();
    let from_json: serde_json::Value = serde_json::from_str(&json).unwrap();
    assert_eq!(from_yaml, from_json);
}
