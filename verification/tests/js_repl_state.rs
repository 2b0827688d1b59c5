use codex_kit::js_repl::args::JsReplArgs;
use codex_kit::js_repl::args::JS_REPL_POLL_TIMEOUT_ARG_ERROR_MESSAGE;
use codex_kit::js_repl::diagnostics::KernelStreamEnd;
use codex_kit::js_repl::diagnostics::exit_failure_message;
use codex_kit::js_repl::exec_buffer::ExecBuffer;
use codex_kit::js_repl::exec_buffer::ExecCompletionEvent;
use codex_kit::js_repl::exec_buffer::ExecTerminalKind;
use codex_kit::js_repl::exec_buffer::JS_REPL_POLL_ALL_LOGS_MAX_BYTES;
use codex_kit::js_repl::exec_buffer::JS_REPL_POLL_LOGS_TRUNCATED_MARKER;
use codex_kit::js_repl::exec_buffer::JS_REPL_POLL_LOG_QUEUE_MAX_BYTES;
use codex_kit::js_repl::exec_buffer::MAX_EXEC_OUTPUT_DELTAS_PER_CALL;
use codex_kit::js_repl::ids::choose_session_id;
use codex_kit::js_repl::ids::fresh_exec_id;
use codex_kit::js_repl::kernel::answer_run_tool;
use codex_kit::js_repl::kernel::ExecuteEnd;
use codex_kit::js_repl::kernel::KernelState;
use codex_kit::js_repl::kernel::ToolTaskOutcome;
use codex_kit::js_repl::manager::JsReplManager;
use codex_kit::js_repl::manager::JS_REPL_CANCEL_ERROR_MESSAGE;
use codex_kit::js_repl::manager::JS_REPL_POLL_MAX_SESSIONS;
use codex_kit::js_repl::messages::ExecResultMessage;
use codex_kit::js_repl::sessions::poll_deadline;
use codex_kit::js_repl::sessions::Installed;
use codex_kit::js_repl::sessions::JsExecPollResult;
use codex_kit::js_repl::sessions::JsExecSubmission;
use codex_kit::js_repl::sessions::PollStep;

fn code(code: &str, session_id: Option<&str>) -> JsReplArgs {
    JsReplArgs {
        code: code.to_string(),
        timeout_ms: None,
        poll: true,
        session_id: session_id.map(str::to_string),
    }
}

/// Hands code to a session, starting a kernel where one is needed.
fn submit(
    manager: &mut JsReplManager,
    kernel: &mut KernelState,
    kernel_id: u64,
    call: &str,
    args: &JsReplArgs,
    now: u64,
) -> Result<JsExecSubmission, String> {
    let step = manager.submit(args, now).map_err(|error| error.message())?;
    if step.needs_kernel {
        match manager.install_session(&step.session_id, kernel_id, now) {
            Installed::AtCapacity => return Err(JsReplManager::at_capacity_error().message()),
            _ => {}
        }
    }
    let exec_id = fresh_exec_id();
    manager
        .claim_session(&step.session_id, &exec_id, now)
        .map_err(|error| error.message())?;
    let message = manager.register_exec(kernel, &exec_id, &step.session_id, call.to_string(), args, now);
    assert_eq!(message.id, exec_id);
    assert_eq!(message.code, args.code);
    assert!(message.stream_logs);
    Ok(JsExecSubmission { exec_id, session_id: step.session_id })
}

fn poll_now(manager: &mut JsReplManager, exec_id: &str) -> Result<JsExecPollResult, String> {
    match manager.poll(exec_id, 10, 10, false) {
        Ok(PollStep::Ready(result)) => Ok(result),
        Ok(PollStep::Wait(_)) => panic!("the deadline has passed"),
        Err(error) => Err(error.message()),
    }
}

/// Ends the code of a session that was reset.
fn end_exec(manager: &mut JsReplManager, exec_id: &str, now: u64) -> Option<ExecCompletionEvent> {
    manager.release_exec(exec_id);
    assert!(!manager.must_wait_for_exec_tool_calls(exec_id));
    manager.cancel_exec(exec_id, now)
}

#[test]
fn exec_buffer_output_deltas_honor_remaining_budget() {
    let mut entry = ExecBuffer::new("call-1".to_string(), None, 0);
    entry.emitted_deltas = MAX_EXEC_OUTPUT_DELTAS_PER_CALL - 1;

    let first = entry.output_delta_chunks_for_log_line("hello");
    assert_eq!(first.len(), 1);
    assert_eq!(String::from_utf8(first[0].clone()).unwrap(), "hello\n");

    let second = entry.output_delta_chunks_for_log_line("world");
    assert!(second.is_empty());
}

#[test]
fn exec_buffer_caps_all_logs_by_bytes() {
    let mut entry = ExecBuffer::new("call-1".to_string(), None, 0);
    let chunk = "x".repeat(16 * 1024);
    for _ in 0..96 {
        entry.push_log(chunk.clone());
    }
    assert!(entry.all_logs_truncated);
    assert!(entry.all_logs_bytes <= JS_REPL_POLL_ALL_LOGS_MAX_BYTES);
    assert!(entry.all_logs.last().is_some_and(|line| line.contains("logs truncated")));
}

#[test]
fn exec_buffer_log_marker_keeps_newest_logs() {
    let mut entry = ExecBuffer::new("call-1".to_string(), None, 0);
    let filler = "x".repeat(8 * 1024);
    for i in 0..20 {
        entry.push_log(format!("id{i}:{filler}"));
    }

    let drained = entry.poll_logs();
    assert_eq!(
        drained.first().map(String::as_str),
        Some(JS_REPL_POLL_LOGS_TRUNCATED_MARKER)
    );
    assert!(drained.iter().any(|line| line.starts_with("id19:")));
    assert!(!drained.iter().any(|line| line.starts_with("id0:")));
}

#[test]
fn a_poll_gives_the_longest_tail_that_fits() {
    let room = JS_REPL_POLL_LOG_QUEUE_MAX_BYTES - JS_REPL_POLL_LOGS_TRUNCATED_MARKER.len();
    let mut entry = ExecBuffer::new("call-1".to_string(), None, 0);
    let mut lines: Vec<String> = Vec::new();
    for i in 0..60 {
        let line = format!("{i}:{}", "z".repeat((i * 977) % 9001));
        lines.push(line.clone());
        entry.push_log(line);
        let bytes = |from: usize| lines[from..].iter().map(String::len).sum::<usize>();
        let queue: Vec<String> = entry.logs.iter().cloned().collect();
        if bytes(0) <= JS_REPL_POLL_LOG_QUEUE_MAX_BYTES {
            assert_eq!(queue, lines);
        } else {
            let from = (0..=lines.len()).find(|from| bytes(*from) <= room).unwrap();
            assert_eq!(queue[0], JS_REPL_POLL_LOGS_TRUNCATED_MARKER);
            assert_eq!(&queue[1..], &lines[from..]);
        }
    }
    assert!(entry.logs_truncated);
    let marker = JS_REPL_POLL_LOGS_TRUNCATED_MARKER.to_string();
    let mut marked = ExecBuffer::new("call-1".to_string(), None, 0);
    marked.push_log("a".repeat(JS_REPL_POLL_LOG_QUEUE_MAX_BYTES));
    marked.poll_logs();
    marked.push_log("a".repeat(JS_REPL_POLL_LOG_QUEUE_MAX_BYTES));
    marked.push_log(marker.clone());
    assert_eq!(marked.poll_logs(), vec![marker]);
}

#[test]
fn log_counts_are_right_at_every_step() {
    let mut entry = ExecBuffer::new("call-1".to_string(), None, 0);
    for i in 0..40 {
        entry.push_log("é".repeat(1000 + 37 * i));
        assert_eq!(entry.logs_bytes, entry.logs.iter().map(String::len).sum::<usize>());
        assert!(entry.logs_bytes <= JS_REPL_POLL_LOG_QUEUE_MAX_BYTES);
        assert_eq!(entry.all_logs_bytes, entry.all_logs.join("\n").len());
    }
    assert!(entry.logs_truncated);
    entry.push_log("y".repeat(2 * JS_REPL_POLL_LOG_QUEUE_MAX_BYTES));
    assert_eq!(entry.logs.len(), 1);
    assert_eq!(entry.logs[0], JS_REPL_POLL_LOGS_TRUNCATED_MARKER);
    assert_eq!(entry.poll_logs().len(), 1);
    assert!(!entry.logs_truncated);
    assert_eq!(entry.logs_bytes, 0);
    entry.push_log("again".to_string());
    assert_eq!(entry.poll_logs(), vec!["again".to_string()]);
}

#[test]
fn output_is_shown_before_lines() {
    let mut entry = ExecBuffer::new("call-1".to_string(), None, 0);
    entry.push_log("one".to_string());
    entry.push_log("two".to_string());
    assert_eq!(entry.display_output(), "one\ntwo");
    entry.output = Some(String::new());
    assert_eq!(entry.display_output(), "one\ntwo");
    entry.output = Some("given back".to_string());
    assert_eq!(entry.display_output(), "given back");
}

#[test]
fn complete_exec_in_store_suppresses_kernel_exit_when_host_terminating() {
    let exec_id = "exec-1";
    let mut manager = JsReplManager::new();

    let mut entry = ExecBuffer::new("call-1".to_string(), None, 0);
    entry.host_terminating = true;
    manager.exec_store.insert(exec_id.to_string(), entry);

    let kernel_exit_completed = manager.complete_exec(
        exec_id,
        ExecTerminalKind::KernelExit,
        None,
        Some("js_repl kernel exited unexpectedly".to_string()),
        false,
        1,
    );
    assert!(kernel_exit_completed.is_none());

    {
        let entry = manager.exec_store.get(exec_id).expect("exec entry should exist");
        assert!(!entry.done);
        assert!(entry.terminal_kind.is_none());
        assert!(entry.error.is_none());
        assert!(entry.host_terminating);
    }

    let cancelled_completed = manager.complete_exec(
        exec_id,
        ExecTerminalKind::Cancelled,
        None,
        Some(JS_REPL_CANCEL_ERROR_MESSAGE.to_string()),
        false,
        1,
    );
    assert!(cancelled_completed.is_some());

    let entry = manager.exec_store.get(exec_id).expect("exec entry should exist");
    assert!(entry.done);
    assert_eq!(entry.terminal_kind, Some(ExecTerminalKind::Cancelled));
    assert_eq!(entry.error.as_deref(), Some(JS_REPL_CANCEL_ERROR_MESSAGE));
    assert!(!entry.host_terminating);
}

#[test]
fn code_comes_to_an_end_once() {
    let mut entry = ExecBuffer::new("call-1".to_string(), Some("s".to_string()), 100);
    let event = entry
        .complete(ExecTerminalKind::KernelExit, None, Some("gone".to_string()), false, 150)
        .unwrap();
    assert_eq!(event.duration, 50);
    assert_eq!(event.error.as_deref(), Some("gone"));
    assert!(entry
        .complete(ExecTerminalKind::Success, Some("x".to_string()), None, false, 160)
        .is_none());
    let cancelled = entry
        .complete(ExecTerminalKind::Cancelled, None, Some("off".to_string()), true, 170)
        .unwrap();
    assert_eq!(cancelled.error.as_deref(), Some("off"));
    assert!(entry
        .complete(ExecTerminalKind::Cancelled, None, Some("off".to_string()), true, 180)
        .is_none());
}

#[test]
fn tool_calls_are_counted() {
    let mut manager = JsReplManager::new();
    assert_eq!(manager.begin_exec_tool_call("e"), None);
    assert!(!manager.cancel_exec_tool_calls("e"));
    manager.register_exec_tool_calls("e");
    assert!(!manager.must_wait_for_exec_tool_calls("e"));
    assert_eq!(manager.begin_exec_tool_call("e"), Some(false));
    assert_eq!(manager.begin_exec_tool_call("e"), Some(false));
    assert!(manager.must_wait_for_exec_tool_calls("e"));
    assert!(!manager.finish_exec_tool_call("e"));
    assert!(manager.finish_exec_tool_call("e"));
    assert!(!manager.finish_exec_tool_call("e"));
    assert!(manager.cancel_exec_tool_calls("e"));
    assert_eq!(manager.begin_exec_tool_call("e"), Some(true));
    assert!(manager.clear_exec_tool_calls("e"));
    assert!(!manager.clear_exec_tool_calls("e"));
    manager.register_exec_tool_calls("a");
    manager.register_exec_tool_calls("b");
    let mut cleared = manager.clear_all_exec_tool_calls();
    cleared.sort();
    assert_eq!(cleared, vec!["a".to_string(), "b".to_string()]);
    assert!(!manager.must_wait_for_exec_tool_calls("a"));
}

#[test]
fn fresh_names_have_their_form() {
    let first = fresh_exec_id();
    let second = fresh_exec_id();
    assert_ne!(first, second);
    assert_eq!(first.len(), 36);
    for (i, ch) in first.chars().enumerate() {
        if [8, 13, 18, 23].contains(&i) {
            assert_eq!(ch, '-');
        } else {
            assert!(ch.is_ascii_hexdigit() && !ch.is_ascii_uppercase());
        }
    }
    assert_eq!(&first[14..15], "4");
    assert!(["8", "9", "a", "b"].contains(&&first[19..20]));
    let named = choose_session_id(&code("x", Some("mine")));
    assert_eq!((named.session_id.as_str(), named.provided), ("mine", true));
    assert!(!choose_session_id(&code("x", None)).provided);
}

#[test]
fn js_repl_poll_rejects_submit_with_unknown_session_id() {
    let mut manager = JsReplManager::new();
    let err = manager
        .submit(&code("console.log('should not run');", Some("missing-session")), 0)
        .expect_err("expected missing session submit rejection");
    assert_eq!(err.message(), "js_repl session id not found");
}

#[test]
fn js_repl_poll_rejects_timeout_ms_on_submit() {
    let mut manager = JsReplManager::new();
    let mut args = code("console.log('should not run');", None);
    args.timeout_ms = Some(5_000);
    let err = manager
        .submit(&args, 0)
        .expect_err("expected timeout_ms polling submit rejection");
    assert_eq!(err.message(), JS_REPL_POLL_TIMEOUT_ARG_ERROR_MESSAGE);
}

#[test]
fn js_repl_poll_rejects_submit_when_session_has_active_exec() {
    let mut manager = JsReplManager::new();
    let mut kernel = KernelState::new();
    let submission = submit(
        &mut manager,
        &mut kernel,
        1,
        "call-session-active",
        &code("await new Promise((resolve) => setTimeout(resolve, 10_000));", None),
        0,
    )
    .unwrap();

    let err = submit(
        &mut manager,
        &mut kernel,
        2,
        "call-session-active-conflict",
        &code("console.log('should not run');", Some(&submission.session_id)),
        1,
    )
    .expect_err("expected active session submit rejection");
    assert_eq!(
        err,
        format!(
            "js_repl session `{}` already has a running exec: `{}`",
            submission.session_id, submission.exec_id
        )
    );

    manager.reset_session(&submission.session_id).unwrap();
    end_exec(&mut manager, &submission.exec_id, 2);
    assert!(poll_now(&mut manager, &submission.exec_id).unwrap().done);
}

#[test]
fn a_blank_session_name_is_refused() {
    let mut manager = JsReplManager::new();
    let err = manager.submit(&code("x", Some("  ")), 0).unwrap_err();
    assert_eq!(err.message(), "js_repl session_id must not be empty");
    let gone = manager.claim_session("s", "e", 0).unwrap_err();
    assert_eq!(gone.message(), "js_repl session `s` is unavailable");
}

#[test]
fn idle_sessions_make_room_and_busy_ones_do_not() {
    let mut manager = JsReplManager::new();
    for i in 0..JS_REPL_POLL_MAX_SESSIONS {
        let step = manager.submit_in(None, format!("s{i}"), false, i as u64).unwrap();
        assert!(step.needs_kernel && step.pruned.is_none());
        assert_eq!(
            manager.install_session(&step.session_id, 100 + i as u64, 50 - i as u64),
            Installed::Installed
        );
    }
    assert_eq!(manager.poll_sessions.len(), JS_REPL_POLL_MAX_SESSIONS);
    assert_eq!(manager.install_session("s0", 1, 99), Installed::Stale);
    assert_eq!(manager.install_session("more", 1, 99), Installed::AtCapacity);

    manager.claim_session("s15", "busy", 1).unwrap();
    let step = manager.submit_in(None, "fresh".to_string(), false, 99).unwrap();
    let pruned = step.pruned.unwrap();
    assert_eq!((pruned.session_id.as_str(), pruned.kernel), ("s14", 114));
    assert_eq!(manager.install_session("fresh", 7, 99), Installed::Installed);

    for i in 0..14 {
        manager.claim_session(&format!("s{i}"), "busy", 100).unwrap();
    }
    manager.claim_session("fresh", "busy", 100).unwrap();
    let err = manager.submit_in(None, "late".to_string(), false, 100).unwrap_err();
    assert_eq!(
        err.message(),
        "js_repl polling has reached the maximum of 16 active sessions; reset a session before creating another"
    );
    assert_eq!(JsReplManager::at_capacity_error().message(), err.message());
}

#[test]
fn a_session_is_used_again() {
    let mut manager = JsReplManager::new();
    let mut kernel = KernelState::new();
    let first = submit(&mut manager, &mut kernel, 1, "call", &code("x", None), 0).unwrap();
    assert_eq!(manager.take_route(&first.exec_id), Some(first.session_id.clone()));
    let step = manager.finish_result(
        &mut kernel,
        &first.exec_id,
        true,
        "1".to_string(),
        None,
        Some(&first.session_id),
        5,
    );
    assert!(step.reply.is_none());
    assert_eq!(step.event.unwrap().output, "1");
    let again =
        submit(&mut manager, &mut kernel, 2, "call", &code("y", Some(&first.session_id)), 6).unwrap();
    assert_eq!(again.session_id, first.session_id);
    assert_ne!(again.exec_id, first.exec_id);
    assert_eq!(manager.poll_sessions.get(&again.session_id).unwrap().kernel, 1);
}

#[test]
fn code_that_cannot_be_handed_over_is_forgotten() {
    let mut manager = JsReplManager::new();
    let mut kernel = KernelState::new();
    let lost = submit(&mut manager, &mut kernel, 9, "call", &code("x", None), 0).unwrap();
    assert_eq!(manager.abandon_exec(&mut kernel, &lost.exec_id, &lost.session_id), Some(9));
    assert_eq!(manager.poll_sessions.len(), 0);
    assert!(!kernel.exec_contexts.contains_key(&lost.exec_id));
    assert_eq!(poll_now(&mut manager, &lost.exec_id).unwrap_err(), "js_repl exec id not found");
    assert_eq!(manager.abandon_exec(&mut kernel, &lost.exec_id, &lost.session_id), None);
}

#[test]
fn js_repl_poll_completed_exec_is_replayable() {
    let mut manager = JsReplManager::new();
    let mut kernel = KernelState::new();
    let submission = submit(
        &mut manager,
        &mut kernel,
        1,
        "call-replay",
        &code("console.log('replay-ok');", None),
        0,
    )
    .unwrap();
    manager.handle_log(&submission.exec_id, "replay-ok".to_string());
    manager.take_route(&submission.exec_id);
    manager.finish_result(
        &mut kernel,
        &submission.exec_id,
        true,
        "replay-ok".to_string(),
        None,
        Some(&submission.session_id),
        1,
    );

    let first_result = poll_now(&mut manager, &submission.exec_id).unwrap();
    assert!(first_result.done);
    assert!(first_result.output.as_deref().is_some_and(|output| output.contains("replay-ok")));
    assert_eq!(first_result.session_id, submission.session_id);
    assert_eq!(first_result.logs, vec!["replay-ok".to_string()]);

    let second_result = poll_now(&mut manager, &submission.exec_id).unwrap();
    assert!(second_result.done);
    assert_eq!(second_result.session_id, submission.session_id);
    assert!(second_result.output.as_deref().is_some_and(|output| output.contains("replay-ok")));
    assert!(second_result.logs.is_empty());

    manager.evict_completed_exec(&submission.exec_id);
    assert_eq!(
        poll_now(&mut manager, &submission.exec_id).unwrap_err(),
        "js_repl exec id not found"
    );
}

#[test]
fn js_repl_poll_timeout_resnapshots_state_before_returning() {
    let mut manager = JsReplManager::new();
    let exec_id = "exec-missed-notify";
    let poll_session_id = "session-missed-notify";
    manager.exec_store.insert(
        exec_id.to_string(),
        ExecBuffer::new("call-missed-notify".to_string(), Some(poll_session_id.to_string()), 0),
    );
    let deadline = poll_deadline(0, Some(80));
    assert_eq!(deadline, 80_000_000);
    match manager.poll(exec_id, 0, deadline, false).unwrap() {
        PollStep::Wait(remaining) => assert_eq!(remaining, deadline),
        PollStep::Ready(_) => panic!("there is nothing to give yet"),
    }
    {
        let entry = manager.exec_store.get_mut(exec_id).unwrap();
        entry.push_log("late log".to_string());
        entry.output = Some("late log".to_string());
        entry.done = true;
    }
    let result = match manager.poll(exec_id, deadline, deadline, true).unwrap() {
        PollStep::Ready(result) => result,
        PollStep::Wait(_) => panic!("the wait is over"),
    };
    assert!(result.done);
    assert_eq!(result.session_id, poll_session_id);
    assert_eq!(result.logs, vec!["late log".to_string()]);
    assert_eq!(result.output.as_deref(), Some("late log"));
}

#[test]
fn js_repl_poll_rejects_unknown_exec_id() {
    let mut manager = JsReplManager::new();
    let err = poll_now(&mut manager, "missing-exec-id").expect_err("expected missing exec id error");
    assert_eq!(err, "js_repl exec id not found");
    manager
        .exec_store
        .insert("e".to_string(), ExecBuffer::new("call".to_string(), None, 0));
    assert_eq!(poll_now(&mut manager, "e").unwrap_err(), "js_repl exec id is not pollable");
}

#[test]
fn a_poll_without_news_counts_as_use() {
    let mut manager = JsReplManager::new();
    let mut kernel = KernelState::new();
    let run = submit(&mut manager, &mut kernel, 1, "call", &code("x", None), 0).unwrap();
    assert_eq!(manager.poll(&run.exec_id, 7, 20, false), Ok(PollStep::Wait(13)));
    assert_eq!(manager.poll_sessions.get(&run.session_id).unwrap().last_used, 7);
    let result = poll_now(&mut manager, &run.exec_id).unwrap();
    assert!(!result.done && result.logs.is_empty() && result.output.is_none());
    assert_eq!(manager.poll_sessions.get(&run.session_id).unwrap().last_used, 10);
}

#[test]
fn js_repl_poll_reset_session_marks_exec_canceled() {
    let mut manager = JsReplManager::new();
    for attempt in 0..4 {
        let mut kernel = KernelState::new();
        let submission = submit(
            &mut manager,
            &mut kernel,
            attempt,
            &format!("call-cancel-{attempt}"),
            &code("await new Promise((resolve) => setTimeout(resolve, 10_000));", None),
            0,
        )
        .unwrap();
        let ended = manager.reset_session(&submission.session_id).unwrap();
        assert_eq!(ended.kernel, attempt);
        assert_eq!(ended.active_exec.as_deref(), Some(submission.exec_id.as_str()));

        // The kernel ends while the session is being reset.
        let contexts = kernel.drain_contexts();
        let message = exit_failure_message(&KernelStreamEnd::Shutdown, &None);
        let end = manager.end_stream(
            &mut kernel,
            attempt,
            Some(&submission.session_id),
            &contexts,
            &message,
            1,
        );
        assert!(end.events.is_empty());

        let event = end_exec(&mut manager, &submission.exec_id, 2).unwrap();
        assert_eq!(event.error.as_deref(), Some(JS_REPL_CANCEL_ERROR_MESSAGE));

        let result = poll_now(&mut manager, &submission.exec_id).unwrap();
        assert!(result.done);
        let err = result.error.as_deref();
        assert_eq!(err, Some(JS_REPL_CANCEL_ERROR_MESSAGE));
        assert!(!err.is_some_and(|message| message.contains("kernel exited unexpectedly")));
    }
}

#[test]
fn js_repl_reset_session_rejects_unknown_session_id() {
    let mut manager = JsReplManager::new();
    let err = manager
        .reset_session("missing-session")
        .expect_err("expected missing session id error");
    assert_eq!(err.message(), "js_repl session id not found");
}

#[test]
fn js_repl_poll_reset_marks_running_exec_canceled() {
    let mut manager = JsReplManager::new();
    let mut kernel = KernelState::new();
    let submission = submit(
        &mut manager,
        &mut kernel,
        3,
        "call-reset",
        &code("await new Promise((resolve) => setTimeout(resolve, 10_000));", None),
        0,
    )
    .unwrap();
    manager.use_kernel(77);
    let plan = manager.reset();
    assert_eq!(plan.kernel, Some(77));
    assert_eq!(plan.sessions.len(), 1);
    assert_eq!(plan.sessions[0].kernel, 3);
    for session in &plan.sessions {
        if let Some(exec_id) = &session.active_exec {
            manager.mark_exec_host_terminating(exec_id);
            end_exec(&mut manager, exec_id, 1);
        }
    }
    manager.clear_all_exec_tool_calls();
    assert_eq!(manager.kernel, None);
    assert_eq!(manager.poll_sessions.len(), 0);

    let result = poll_now(&mut manager, &submission.exec_id).unwrap();
    assert!(result.done);
    assert_eq!(result.error.as_deref(), Some(JS_REPL_CANCEL_ERROR_MESSAGE));
}

#[test]
fn lines_are_sent_on_in_pieces() {
    let mut manager = JsReplManager::new();
    let mut kernel = KernelState::new();
    let run = submit(&mut manager, &mut kernel, 1, "call-7", &code("x", None), 0).unwrap();
    let deltas = manager.handle_log(&run.exec_id, "y".repeat(9000)).unwrap();
    assert_eq!(deltas.event_call_id, "call-7");
    assert_eq!(deltas.chunks.len(), 2);
    assert_eq!(deltas.chunks[0].len(), 8192);
    assert_eq!(deltas.chunks.concat().len(), 9001);
    assert!(manager.handle_log("unknown", "y".to_string()).is_none());
}

#[test]
fn code_that_is_waited_for_is_answered() {
    let mut manager = JsReplManager::new();
    let mut kernel = KernelState::new();
    let mut args = code("1 + 1", None);
    args.poll = false;
    let plan = manager.execute(&args).unwrap();
    assert!(plan.needs_kernel);
    assert_eq!(plan.wait_ms, 30_000);
    manager.use_kernel(5);
    args.timeout_ms = Some(10);
    let plan = manager.execute(&args).unwrap();
    assert!(!plan.needs_kernel);
    assert_eq!(plan.wait_ms, 10);
    let message = manager.begin_execute(&mut kernel, "e", &args);
    assert!(!message.stream_logs);
    assert_eq!(message.timeout_ms, Some(10));
    assert_eq!(manager.take_route("e"), None);
    let step = manager.finish_result(&mut kernel, "e", true, "2".to_string(), None, None, 1);
    assert_eq!(step.reply, Some(ExecResultMessage::Done { output: "2".to_string() }));
    assert!(step.event.is_none());
    manager.begin_execute(&mut kernel, "f", &args);
    let failed = manager.finish_result(&mut kernel, "f", false, String::new(), None, None, 1);
    assert_eq!(
        failed.reply,
        Some(ExecResultMessage::Failed { message: "js_repl execution failed".to_string() })
    );
    args.session_id = Some("s".to_string());
    assert_eq!(
        manager.execute(&args).unwrap_err().message(),
        "js_repl session_id is only supported when poll=true"
    );
    manager.begin_execute(&mut kernel, "g", &args);
    kernel.withdraw_exec("g");
    assert!(!kernel.pending_execs.contains_key("g"));
    assert_eq!(manager.reset_kernel(), Some(5));
    assert_eq!(manager.reset_kernel(), None);
}

#[test]
fn waiting_for_code_leaves_nothing_behind() {
    for end in [ExecuteEnd::WriteFailed, ExecuteEnd::Closed, ExecuteEnd::TimedOut] {
        let mut manager = JsReplManager::new();
        let mut kernel = KernelState::new();
        manager.use_kernel(5);
        manager.begin_execute(&mut kernel, "e", &code("x", None));
        let cleanup = manager.end_execute(&mut kernel, "e", end);
        let timed_out = end == ExecuteEnd::TimedOut;
        assert_eq!(cleanup.kernel, if timed_out { Some(5) } else { None });
        assert_eq!(manager.kernel, if timed_out { None } else { Some(5) });
        assert_eq!(cleanup.end_calls, end != ExecuteEnd::WriteFailed);
        assert_eq!(manager.exec_tool_calls.contains_key("e"), cleanup.end_calls);
        if cleanup.end_calls {
            assert!(manager.cancel_exec_tool_calls("e"));
            assert!(manager.clear_exec_tool_calls("e"));
        }
        assert!(!kernel.pending_execs.contains_key("e"));
        assert!(!kernel.exec_contexts.contains_key("e"));
    }
    let mut manager = JsReplManager::new();
    let mut kernel = KernelState::new();
    manager.begin_execute(&mut kernel, "e", &code("x", None));
    let cleanup = manager.end_execute(&mut kernel, "e", ExecuteEnd::Replied);
    assert_eq!((cleanup.kernel, cleanup.end_calls), (None, false));
    assert!(kernel.pending_execs.contains_key("e"));
}

#[test]
fn the_end_of_a_kernel_ends_its_code() {
    let mut manager = JsReplManager::new();
    let mut kernel = KernelState::new();
    let mut other_kernel = KernelState::new();
    let run = submit(&mut manager, &mut kernel, 1, "call-a", &code("x", None), 0).unwrap();
    let other = submit(&mut manager, &mut other_kernel, 2, "call-b", &code("y", None), 0).unwrap();
    let contexts = kernel.drain_contexts();
    assert_eq!(contexts, vec![run.exec_id.clone()]);
    for exec_id in &contexts {
        manager.cancel_exec_tool_calls(exec_id);
        manager.clear_exec_tool_calls(exec_id);
    }
    let end = manager.end_stream(&mut kernel, 1, Some(&run.session_id), &contexts, "it ended", 4);
    assert_eq!(end.affected, vec![run.exec_id.clone()]);
    assert!(end.unanswered.is_empty());
    assert_eq!(end.events.len(), 1);
    assert_eq!(end.events[0].event_call_id, "call-a");
    assert_eq!(end.events[0].error.as_deref(), Some("it ended"));
    assert!(!manager.poll_sessions.contains_key(&run.session_id));
    assert!(manager.poll_sessions.contains_key(&other.session_id));
    assert_eq!(
        manager.exec_store.get(&run.exec_id).unwrap().terminal_kind,
        Some(ExecTerminalKind::KernelExit)
    );
    assert!(!manager.exec_store.get(&other.exec_id).unwrap().done);
    // A session that has another kernel by now is left alone.
    let again = manager.end_stream(&mut other_kernel, 1, Some(&other.session_id), &vec![], "x", 5);
    assert!(again.affected.is_empty());
    assert!(manager.poll_sessions.contains_key(&other.session_id));
}

#[test]
fn tool_tasks_are_answered() {
    let reset = answer_run_tool("r", ToolTaskOutcome::Reset);
    assert_eq!(reset.error.as_deref(), Some("js_repl execution reset"));
    let missing = answer_run_tool("r", ToolTaskOutcome::NoContext);
    assert_eq!(missing.error.as_deref(), Some("js_repl exec context not found"));
    let finished = answer_run_tool("r", ToolTaskOutcome::Finished(missing));
    assert_eq!(finished.id, "r");
    assert!(!finished.ok);
}
