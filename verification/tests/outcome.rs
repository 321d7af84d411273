use playground::outcome::{ExecutionResult, ProcessOutcome, Stage, SIGNAL_EXIT_CODE};

#[test]
fn exit_code_zero_is_a_success() {
    let outcome = ProcessOutcome::from_exit(Some(0), b"X\n".to_vec(), Vec::new());
    assert_eq!(outcome, ProcessOutcome::Success("X\n".to_string()));
}

#[test]
fn warnings_beside_exit_code_zero_are_no_failure() {
    let outcome =
        ProcessOutcome::from_exit(Some(0), b"done".to_vec(), b"warning: unused variable".to_vec());
    assert_eq!(outcome, ProcessOutcome::Success("done".to_string()));
}

#[test]
fn another_exit_code_carries_the_standard_error() {
    let outcome = ProcessOutcome::from_exit(Some(2), b"partial".to_vec(), b"syntax error".to_vec());
    assert_eq!(outcome, ProcessOutcome::NonZeroExit(2, "syntax error".to_string()));
    let negative = ProcessOutcome::from_exit(Some(-1), Vec::new(), Vec::new());
    assert_eq!(negative, ProcessOutcome::NonZeroExit(-1, String::new()));
}

#[test]
fn a_signal_counts_as_exit_code_one() {
    assert_eq!(SIGNAL_EXIT_CODE, 1);
    let outcome = ProcessOutcome::from_exit(None, b"out".to_vec(), b"killed".to_vec());
    assert_eq!(outcome, ProcessOutcome::NonZeroExit(1, "killed".to_string()));
}

#[test]
fn output_is_decoded_as_utf8() {
    let text = "héllo ✓ 𝄞\n";
    let outcome = ProcessOutcome::from_exit(Some(0), text.as_bytes().to_vec(), Vec::new());
    assert_eq!(outcome, ProcessOutcome::Success(text.to_string()));
    let failed = ProcessOutcome::from_exit(Some(1), Vec::new(), text.as_bytes().to_vec());
    assert_eq!(failed, ProcessOutcome::NonZeroExit(1, text.to_string()));
}

#[test]
fn undecodable_output_is_no_usable_result() {
    let outcome = ProcessOutcome::from_exit(Some(0), vec![0xff, 0xfe], Vec::new());
    assert_eq!(
        outcome,
        ProcessOutcome::SpawnFailed("invalid utf-8 sequence of 1 bytes from index 0".to_string())
    );
    let failed = ProcessOutcome::from_exit(Some(3), Vec::new(), vec![b'o', b'k', 0xc3]);
    assert_eq!(
        failed,
        ProcessOutcome::SpawnFailed("incomplete utf-8 byte sequence from index 2".to_string())
    );
}

#[test]
fn the_refusal_is_worded_by_the_decoder() {
    let samples: [&[u8]; 5] =
        [&[0x80], &[b'a', 0xe2, 0x82], &[0xed, 0xa0, 0x80], &[0xf5, 0x80, 0x80, 0x80], &[0xc0, 0xaf]];
    for bytes in samples {
        let reason = String::from_utf8(bytes.to_vec()).unwrap_err().to_string();
        assert_eq!(
            ProcessOutcome::from_exit(Some(0), bytes.to_vec(), Vec::new()),
            ProcessOutcome::SpawnFailed(reason.clone())
        );
        assert_eq!(
            ProcessOutcome::from_exit(None, Vec::new(), bytes.to_vec()),
            ProcessOutcome::SpawnFailed(reason)
        );
    }
}

#[test]
fn text_is_classified_by_the_exit_code() {
    assert_eq!(
        ProcessOutcome::from_text(Some(0), Ok("out".to_string())),
        ProcessOutcome::Success("out".to_string())
    );
    assert_eq!(
        ProcessOutcome::from_text(Some(7), Ok("err".to_string())),
        ProcessOutcome::NonZeroExit(7, "err".to_string())
    );
    assert_eq!(
        ProcessOutcome::from_text(None, Ok("err".to_string())),
        ProcessOutcome::NonZeroExit(1, "err".to_string())
    );
    for code in [Some(0), Some(1), None] {
        assert_eq!(
            ProcessOutcome::from_text(code, Err("no text".to_string())),
            ProcessOutcome::SpawnFailed("no text".to_string())
        );
    }
}

#[test]
fn a_wait_that_ran_out_of_time_throws_the_output_away() {
    let outcome = ProcessOutcome::from_wait(Ok(None), b"partial".to_vec(), b"noise".to_vec());
    assert_eq!(outcome, ProcessOutcome::TimedOut);
}

#[test]
fn a_wait_that_saw_the_end_goes_by_the_exit_code() {
    assert_eq!(
        ProcessOutcome::from_wait(Ok(Some(Some(0))), b"X\n".to_vec(), b"warn".to_vec()),
        ProcessOutcome::Success("X\n".to_string())
    );
    assert_eq!(
        ProcessOutcome::from_wait(Ok(Some(Some(2))), b"X\n".to_vec(), b"syntax error".to_vec()),
        ProcessOutcome::NonZeroExit(2, "syntax error".to_string())
    );
    assert_eq!(
        ProcessOutcome::from_wait(Ok(Some(None)), Vec::new(), b"killed".to_vec()),
        ProcessOutcome::NonZeroExit(1, "killed".to_string())
    );
}

#[test]
fn a_wait_that_failed_is_no_usable_result() {
    let outcome =
        ProcessOutcome::from_wait(Err("no child processes".to_string()), b"out".to_vec(), Vec::new());
    assert_eq!(outcome, ProcessOutcome::SpawnFailed("no child processes".to_string()));
}

#[test]
fn only_the_stream_that_is_reported_is_decoded() {
    let outcome = ProcessOutcome::from_exit(Some(0), b"fine".to_vec(), vec![0xff]);
    assert_eq!(outcome, ProcessOutcome::Success("fine".to_string()));
    let failed = ProcessOutcome::from_exit(Some(1), vec![0xff], b"bad".to_vec());
    assert_eq!(failed, ProcessOutcome::NonZeroExit(1, "bad".to_string()));
}

#[test]
fn what_the_compile_stage_comes_to() {
    assert_eq!(ExecutionResult::after_compile(ProcessOutcome::Success("ignored".to_string())), None);
    assert_eq!(
        ExecutionResult::after_compile(ProcessOutcome::NonZeroExit(1, "syntax error".to_string())),
        Some(ExecutionResult::CompileError("syntax error".to_string()))
    );
    assert_eq!(
        ExecutionResult::after_compile(ProcessOutcome::TimedOut),
        Some(ExecutionResult::TimedOut(Stage::Compile))
    );
    assert_eq!(
        ExecutionResult::after_compile(ProcessOutcome::SpawnFailed("no gcc".to_string())),
        Some(ExecutionResult::InternalError("no gcc".to_string()))
    );
}

#[test]
fn what_the_execute_stage_comes_to() {
    assert_eq!(
        ExecutionResult::after_execute(ProcessOutcome::Success("X\n".to_string())),
        ExecutionResult::Output("X\n".to_string())
    );
    assert_eq!(
        ExecutionResult::after_execute(ProcessOutcome::NonZeroExit(139, "segfault".to_string())),
        ExecutionResult::RuntimeError("segfault".to_string())
    );
    assert_eq!(
        ExecutionResult::after_execute(ProcessOutcome::TimedOut),
        ExecutionResult::TimedOut(Stage::Execute)
    );
    assert_eq!(
        ExecutionResult::after_execute(ProcessOutcome::SpawnFailed("no such file".to_string())),
        ExecutionResult::InternalError("no such file".to_string())
    );
}

#[test]
fn a_duplicate_holds_the_same_result() {
    let all = [
        ExecutionResult::Output("a".to_string()),
        ExecutionResult::CompileError("b".to_string()),
        ExecutionResult::RuntimeError("c".to_string()),
        ExecutionResult::TimedOut(Stage::Compile),
        ExecutionResult::TimedOut(Stage::Execute),
        ExecutionResult::InternalError("d".to_string()),
    ];
    for r in all.iter() {
        assert_eq!(&r.duplicate(), r);
    }
}

#[test]
fn only_internal_errors_are_kept_from_the_user() {
    assert!(ExecutionResult::Output(String::new()).is_user_facing());
    assert!(ExecutionResult::CompileError(String::new()).is_user_facing());
    assert!(ExecutionResult::RuntimeError(String::new()).is_user_facing());
    assert!(ExecutionResult::TimedOut(Stage::Execute).is_user_facing());
    assert!(!ExecutionResult::InternalError("disk full".to_string()).is_user_facing());
}
