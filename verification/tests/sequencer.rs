//! The sequencer driven over the outcomes the real programs of each
//! scenario would produce: sequencing, short-circuiting, pipe threading
//! and spawn-failure recovery.

use nrbt::aggregate::{Completion, SpawnFailure, Status};
use nrbt::segment::segment_expression;
use nrbt::sequencer::{run_scripted, Action, Event, Sequencer};

fn exited(code: i32) -> Completion {
    Completion { status: Status::Exited(code), stdout: Vec::new(), stderr: Vec::new() }
}

fn exited_with_stdout(code: i32, stdout: &[u8]) -> Completion {
    Completion { status: Status::Exited(code), stdout: stdout.to_vec(), stderr: Vec::new() }
}

/// Exactly one of exit code and signal is set once anything has run.
fn assert_settled(seq: &Sequencer) {
    let agg = &seq.aggregate;
    assert!(agg.exit_code.is_some() != agg.signal.is_some());
}

#[test]
fn single_program_outcome_is_reproduced_exactly() {
    let mut seq = Sequencer::new(segment_expression("printf abc"));
    assert_eq!(seq.next_action(), Action::RunBlocking);
    seq.apply_completion(Completion {
        status: Status::Exited(0),
        stdout: b"abc".to_vec(),
        stderr: b"warning".to_vec(),
    });
    assert_eq!(seq.next_action(), Action::Finished);
    assert!(!seq.aborted);
    assert_eq!(seq.aggregate.exit_code, Some(0));
    assert_eq!(seq.aggregate.signal, None);
    assert_eq!(seq.aggregate.stdout, b"abc".to_vec());
    assert_eq!(seq.aggregate.stderr, b"warning".to_vec());
    assert_settled(&seq);
}

#[test]
fn sequence_runs_and_overwrites_unconditionally() {
    // "true ; false": `;` never inspects the prior status.
    let mut seq = Sequencer::new(segment_expression("true ; false"));
    assert_eq!(seq.next_action(), Action::RunBlocking);
    seq.apply_completion(exited(0));
    assert_eq!(seq.next_action(), Action::RunBlocking);
    seq.apply_completion(exited(1));
    assert_eq!(seq.next_action(), Action::Finished);
    assert!(!seq.aborted);
    assert_eq!(seq.aggregate.exit_code, Some(1));
    assert!(seq.aggregate.stdout.is_empty());
    assert_settled(&seq);
}

#[test]
fn sequence_after_failure_still_runs() {
    let mut seq = Sequencer::new(segment_expression("false ; true"));
    assert_eq!(seq.next_action(), Action::RunBlocking);
    seq.apply_completion(exited(1));
    assert_eq!(seq.next_action(), Action::RunBlocking);
    seq.apply_completion(exited(0));
    assert_eq!(seq.next_action(), Action::Finished);
    assert_eq!(seq.aggregate.exit_code, Some(0));
}

#[test]
fn and_after_failure_aborts_without_running() {
    // "false && true": the sequencer halts in Abort before `true` runs —
    // it never even asks for the second segment to be spawned.
    let mut seq = Sequencer::new(segment_expression("false && true"));
    assert_eq!(seq.next_action(), Action::RunBlocking);
    seq.apply_completion(exited(1));
    assert_eq!(seq.next_action(), Action::Finished);
    assert!(seq.aborted);
    assert_eq!(seq.aggregate.exit_code, Some(1));
    assert!(seq.aggregate.stdout.is_empty());
    assert!(seq.aggregate.stderr.is_empty());
    assert_settled(&seq);
    // A halted run is final.
    assert_eq!(seq.next_action(), Action::Finished);
}

#[test]
fn and_after_success_runs_both() {
    let mut seq = Sequencer::new(segment_expression("true && true"));
    assert_eq!(seq.next_action(), Action::RunBlocking);
    seq.apply_completion(exited(0));
    assert_eq!(seq.next_action(), Action::RunBlocking);
    seq.apply_completion(exited(0));
    assert_eq!(seq.next_action(), Action::Finished);
    assert!(!seq.aborted);
    assert_eq!(seq.aggregate.exit_code, Some(0));
    assert_settled(&seq);
}

#[test]
fn and_after_signal_death_is_not_a_failure() {
    // Failure means a nonzero exit code; a signal-killed predecessor
    // reports no exit code and does not short-circuit `&&`.
    let mut seq = Sequencer::new(segment_expression("a && b"));
    assert_eq!(seq.next_action(), Action::RunBlocking);
    seq.apply_completion(Completion {
        status: Status::Signaled(9),
        stdout: Vec::new(),
        stderr: Vec::new(),
    });
    assert_eq!(seq.aggregate.exit_code, None);
    assert_eq!(seq.aggregate.signal, Some(9));
    assert_settled(&seq);
    assert_eq!(seq.next_action(), Action::RunBlocking);
    seq.apply_completion(exited(0));
    assert_eq!(seq.aggregate.exit_code, Some(0));
    assert_eq!(seq.aggregate.signal, None);
    assert_settled(&seq);
}

#[test]
fn pipe_threads_and_only_the_terminal_stage_is_captured() {
    // "printf abc | tr a-z A-Z": the first stage is spawned detached and
    // contributes no output of its own; the terminal stage's captured
    // stdout is the whole result.
    let mut seq = Sequencer::new(segment_expression("printf abc | tr a-z A-Z"));
    assert_eq!(seq.next_action(), Action::RunDetached);
    assert_eq!(seq.current_words(), vec!["printf", "abc"]);
    seq.apply_detached();
    assert!(seq.pending);
    assert_eq!(seq.next_action(), Action::RunBlocking);
    assert_eq!(seq.current_words(), vec!["tr", "a-z", "A-Z"]);
    seq.apply_completion(exited_with_stdout(0, b"ABC"));
    assert!(!seq.pending);
    assert_eq!(seq.next_action(), Action::Finished);
    assert_eq!(seq.aggregate.exit_code, Some(0));
    assert_eq!(seq.aggregate.stdout, b"ABC".to_vec());
    assert!(seq.aggregate.stderr.is_empty());
    assert_settled(&seq);
}

#[test]
fn missing_program_recovers_with_127_and_a_diagnostic() {
    let mut seq = Sequencer::new(segment_expression("nonexistent-binary-xyz"));
    assert_eq!(seq.next_action(), Action::RunBlocking);
    seq.apply_spawn_failure(SpawnFailure::NotFound);
    assert_eq!(seq.next_action(), Action::Finished);
    assert!(!seq.aborted);
    assert_eq!(seq.aggregate.exit_code, Some(127));
    assert_eq!(seq.aggregate.signal, None);
    assert_eq!(
        seq.aggregate.stderr,
        b"command not found: nonexistent-binary-xyz".to_vec()
    );
    assert_settled(&seq);
}

#[test]
fn forbidden_program_recovers_with_126_and_a_diagnostic() {
    let mut seq = Sequencer::new(segment_expression("locked-up-tool ; true"));
    assert_eq!(seq.next_action(), Action::RunBlocking);
    seq.apply_spawn_failure(SpawnFailure::PermissionDenied);
    assert_eq!(seq.aggregate.exit_code, Some(126));
    assert_eq!(seq.aggregate.stderr, b"permission denied: locked-up-tool".to_vec());
    // The run continues: a recoverable failure is not fatal.
    assert_eq!(seq.next_action(), Action::RunBlocking);
    seq.apply_completion(exited(0));
    assert_eq!(seq.next_action(), Action::Finished);
    assert_eq!(seq.aggregate.exit_code, Some(0));
    assert_settled(&seq);
}

#[test]
fn missing_program_failure_short_circuits_a_following_and() {
    let mut seq = Sequencer::new(segment_expression("nonexistent-binary-xyz && true"));
    assert_eq!(seq.next_action(), Action::RunBlocking);
    seq.apply_spawn_failure(SpawnFailure::NotFound);
    assert_eq!(seq.next_action(), Action::Finished);
    assert!(seq.aborted);
    assert_eq!(seq.aggregate.exit_code, Some(127));
    assert_settled(&seq);
}

#[test]
fn a_longer_pipe_chain_still_captures_only_the_terminal_stage() {
    let mut seq = Sequencer::new(segment_expression("a | b | c"));
    assert_eq!(seq.next_action(), Action::RunDetached);
    seq.apply_detached();
    assert_eq!(seq.next_action(), Action::RunDetached);
    seq.apply_detached();
    assert_eq!(seq.next_action(), Action::RunBlocking);
    seq.apply_completion(exited_with_stdout(0, b"end"));
    assert_eq!(seq.next_action(), Action::Finished);
    assert_eq!(seq.aggregate.stdout, b"end".to_vec());
    assert_eq!(seq.aggregate.exit_code, Some(0));
    assert_settled(&seq);
}

#[test]
fn a_trailing_pipe_leaves_the_aggregate_untouched() {
    // "a |": the producer is spawned detached and nothing ever joins it,
    // so no outcome is folded — both status fields stay unset.
    let mut seq = Sequencer::new(segment_expression("a |"));
    assert_eq!(seq.next_action(), Action::RunDetached);
    seq.apply_detached();
    assert_eq!(seq.next_action(), Action::Finished);
    assert_eq!(seq.aggregate.exit_code, None);
    assert_eq!(seq.aggregate.signal, None);
    assert!(seq.aggregate.stdout.is_empty());
}

#[test]
fn outputs_append_in_execution_order() {
    let mut seq = Sequencer::new(segment_expression("a ; b"));
    seq.next_action();
    seq.apply_completion(exited_with_stdout(0, b"one"));
    seq.next_action();
    seq.apply_completion(exited_with_stdout(0, b"two"));
    assert_eq!(seq.aggregate.stdout, b"onetwo".to_vec());
}

#[test]
fn a_whole_run_can_be_replayed_from_a_script() {
    let agg = run_scripted(
        segment_expression("true ; false"),
        vec![Event::Completed(exited(0)), Event::Completed(exited(1))],
    );
    assert_eq!(agg.exit_code, Some(1));
    assert_eq!(agg.signal, None);
    assert!(agg.stdout.is_empty());
}

#[test]
fn a_scripted_pipe_chain_reproduces_the_terminal_output() {
    let agg = run_scripted(
        segment_expression("printf abc | tr a-z A-Z"),
        vec![Event::Spawned, Event::Completed(exited_with_stdout(0, b"ABC"))],
    );
    assert_eq!(agg.exit_code, Some(0));
    assert_eq!(agg.stdout, b"ABC".to_vec());
}

#[test]
fn a_scripted_short_circuit_never_consumes_the_rest() {
    // The event for `true` is scripted but must never be used: the walk
    // halts on the failing `&&` predecessor first.
    let agg = run_scripted(
        segment_expression("false && true"),
        vec![
            Event::Completed(exited(1)),
            Event::Completed(exited_with_stdout(0, b"must not appear")),
        ],
    );
    assert_eq!(agg.exit_code, Some(1));
    assert!(agg.stdout.is_empty());
}

#[test]
fn a_scripted_missing_program_recovers() {
    let agg = run_scripted(
        segment_expression("nonexistent-binary-xyz"),
        vec![Event::SpawnFailed(SpawnFailure::NotFound)],
    );
    assert_eq!(agg.exit_code, Some(127));
    assert_eq!(agg.stderr, b"command not found: nonexistent-binary-xyz".to_vec());
}
