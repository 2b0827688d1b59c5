use std::collections::VecDeque;

use codex_kit::bytes::split_utf8_chunks_with_limits;
use codex_kit::bytes::truncate_utf8_prefix_by_bytes;
use codex_kit::js_repl::diagnostics::exit_failure_message;
use codex_kit::js_repl::diagnostics::is_kernel_status_exited;
use codex_kit::js_repl::diagnostics::kernel_status_text;
use codex_kit::js_repl::diagnostics::needs_kill;
use codex_kit::js_repl::diagnostics::should_include_model_diagnostics_for_write_error;
use codex_kit::js_repl::diagnostics::with_model_kernel_failure_message;
use codex_kit::js_repl::diagnostics::ChildStatus;
use codex_kit::js_repl::diagnostics::KernelDebugSnapshot;
use codex_kit::js_repl::diagnostics::KernelStreamEnd;
use codex_kit::js_repl::diagnostics::ProcessExit;
use codex_kit::js_repl::diagnostics::JS_REPL_MODEL_DIAG_ERROR_MAX_BYTES;
use codex_kit::js_repl::diagnostics::JS_REPL_MODEL_DIAG_STDERR_MAX_BYTES;
use codex_kit::js_repl::kernel::execute_result;
use codex_kit::js_repl::kernel::kernel_command;
use codex_kit::js_repl::kernel::kernel_environment;
use codex_kit::js_repl::kernel::spawn_command;
use codex_kit::js_repl::kernel::start_error;
use codex_kit::js_repl::kernel::ExecuteOutcome;
use codex_kit::js_repl::kernel::KernelState;
use codex_kit::js_repl::kernel::StartFailure;
use codex_kit::js_repl::messages::build_js_repl_exec_output;
use codex_kit::js_repl::messages::clamp_poll_ms;
use codex_kit::js_repl::messages::finish_tool_call;
use codex_kit::js_repl::messages::is_freeform_tool;
use codex_kit::js_repl::messages::is_js_repl_internal_tool;
use codex_kit::js_repl::messages::join_outputs;
use codex_kit::js_repl::messages::plan_tool_call;
use codex_kit::js_repl::messages::truncate_id_list;
use codex_kit::js_repl::messages::write_error_message;
use codex_kit::js_repl::messages::ExecResultMessage;
use codex_kit::js_repl::messages::RunToolRequest;
use codex_kit::js_repl::messages::ToolReply;
use codex_kit::js_repl::messages::ToolSpec;
use codex_kit::js_repl::messages::WriteStage;
use codex_kit::js_repl::node::ensure_node_version;
use codex_kit::js_repl::node::read_node_version;
use codex_kit::js_repl::node::required_node_version;
use codex_kit::js_repl::node::resolve_node;
use codex_kit::js_repl::node::NodeCandidate;
use codex_kit::js_repl::node::NodeVersion;
use codex_kit::js_repl::stderr_tail::format_stderr_tail;
use codex_kit::js_repl::stderr_tail::push_stderr_tail_line;
use codex_kit::js_repl::stderr_tail::stderr_tail_bytes_with_candidate;
use codex_kit::js_repl::stderr_tail::stderr_tail_formatted_bytes;
use codex_kit::js_repl::stderr_tail::JS_REPL_STDERR_TAIL_LINE_LIMIT;
use codex_kit::js_repl::stderr_tail::JS_REPL_STDERR_TAIL_LINE_MAX_BYTES;
use codex_kit::js_repl::stderr_tail::JS_REPL_STDERR_TAIL_MAX_BYTES;
use codex_kit::json::JsonValue;
use codex_kit::string_map::StringMap;
use codex_kit::tools::FunctionCallError;
use codex_kit::tools::ToolPayload;

fn snapshot(status: &str) -> KernelDebugSnapshot {
    KernelDebugSnapshot {
        pid: Some(7),
        status: status.to_string(),
        stderr_tail: "<empty>".to_string(),
    }
}

fn request(tool_name: &str) -> RunToolRequest {
    RunToolRequest {
        id: "r1".to_string(),
        exec_id: "e1".to_string(),
        tool_name: tool_name.to_string(),
        arguments: "{}".to_string(),
    }
}

#[test]
fn node_version_parses_v_prefix_and_suffix() {
    let version = NodeVersion::parse("v25.1.0-nightly.2024").unwrap();
    assert_eq!(version, NodeVersion { major: 25, minor: 1, patch: 0 });
}

#[test]
fn what_stands_around_a_version_changes_nothing() {
    let plain = NodeVersion::parse("20.11.3").unwrap();
    for text in [
        "v20.11.3",
        "vv20.11.3",
        " \t20.11.3\n",
        "20.11.3-rc.1",
        "20.11.3-",
        "20.11.3- x y ",
        "20.11.3+build",
        "20.11.3.4",
        "\u{a0}v20.11.3-nightly+7 ",
    ] {
        assert_eq!(NodeVersion::parse(text), Ok(plain));
    }
    assert!(NodeVersion::parse("20.11-3").is_ok());
    assert!(NodeVersion::parse("20.11.3 -x").is_err());
}

#[test]
fn node_versions_that_are_none() {
    assert_eq!(
        NodeVersion::parse("").unwrap_err(),
        "invalid major version: cannot parse integer from empty string"
    );
    assert_eq!(NodeVersion::parse("v22").unwrap_err(), "missing minor version");
    assert_eq!(NodeVersion::parse("22.x").unwrap_err(), "invalid minor version: invalid digit found in string");
    assert_eq!(NodeVersion::parse("22.1").unwrap_err(), "missing patch version");
    assert_eq!(
        NodeVersion::parse("22.1.99999999999999999999").unwrap_err(),
        "invalid patch version: number too large to fit in target type"
    );
    assert_eq!(required_node_version(" v22.1.0\n"), Ok(NodeVersion { major: 22, minor: 1, patch: 0 }));
}

#[test]
fn node_versions_are_ordered_and_read_back() {
    let older = NodeVersion { major: 22, minor: 9, patch: 9 };
    let newer = NodeVersion { major: 22, minor: 10, patch: 0 };
    assert!(older.is_before(&newer));
    assert!(!newer.is_before(&older));
    assert!(!newer.is_before(&newer));
    assert_eq!(older.is_before(&newer), older < newer);
    assert_eq!(newer.to_text(), "22.10.0");
    assert_eq!(NodeVersion::parse(&newer.to_text()), Ok(newer));
}

#[test]
fn the_runtime_has_to_be_new_enough() {
    let required = required_node_version("22.10.0");
    let found = read_node_version(None, "v22.9.9\n", "");
    assert_eq!(
        ensure_node_version("/usr/bin/node", &required, &found).unwrap_err(),
        "Node runtime too old for js_repl (resolved /usr/bin/node): found v22.9.9, requires >= v22.10.0. Install/update Node or set js_repl_node_path to a newer runtime."
    );
    assert_eq!(ensure_node_version("n", &required, &read_node_version(None, "v22.10.0", "")), Ok(()));
    assert_eq!(
        read_node_version(Some("exit status: 1"), " out \n", "err\n").unwrap_err(),
        "failed to read Node version (status exit status: 1) ( stdout: out stderr: err)"
    );
    assert_eq!(
        read_node_version(Some("exit status: 1"), " \n", "").unwrap_err(),
        "failed to read Node version (status exit status: 1)"
    );
    assert_eq!(
        read_node_version(None, "v8\n", "").unwrap_err(),
        "failed to parse Node version output `v8`: missing minor version"
    );
    let broken = read_node_version(None, "v8\n", "");
    assert_eq!(ensure_node_version("n", &required, &broken), Err(broken.clone().unwrap_err()));
    let no_minimum = required_node_version("x");
    assert_eq!(ensure_node_version("n", &no_minimum, &broken), Err(no_minimum.clone().unwrap_err()));
}

#[test]
fn the_runtime_is_looked_for_in_order() {
    let at = |path: &str, exists: bool| Some(NodeCandidate { path: path.to_string(), exists });
    let searched = Some("/usr/bin/node".to_string());
    assert_eq!(resolve_node(&at("/env", true), &at("/cfg", true), &searched), Some("/env".to_string()));
    assert_eq!(resolve_node(&at("/env", false), &at("/cfg", true), &searched), Some("/cfg".to_string()));
    assert_eq!(resolve_node(&None, &at("/cfg", false), &searched), searched);
    assert_eq!(resolve_node(&None, &None, &None), None);
}

#[test]
fn truncate_utf8_prefix_by_bytes_preserves_character_boundaries() {
    let input = "aé🙂z";
    assert_eq!(truncate_utf8_prefix_by_bytes(input, 0), "");
    assert_eq!(truncate_utf8_prefix_by_bytes(input, 1), "a");
    assert_eq!(truncate_utf8_prefix_by_bytes(input, 2), "a");
    assert_eq!(truncate_utf8_prefix_by_bytes(input, 3), "aé");
    assert_eq!(truncate_utf8_prefix_by_bytes(input, 6), "aé");
    assert_eq!(truncate_utf8_prefix_by_bytes(input, 7), "aé🙂");
    assert_eq!(truncate_utf8_prefix_by_bytes(input, 8), "aé🙂z");
}

#[test]
fn split_utf8_chunks_with_limits_respects_boundaries_and_limits() {
    let chunks = split_utf8_chunks_with_limits("éé🙂z", 3, 2);
    assert_eq!(chunks.len(), 2);
    assert_eq!(std::str::from_utf8(&chunks[0]).unwrap(), "é");
    assert_eq!(std::str::from_utf8(&chunks[1]).unwrap(), "é");
}

#[test]
fn chunks_are_never_empty_and_hold_the_text() {
    assert!(split_utf8_chunks_with_limits("", 3, 2).is_empty());
    assert!(split_utf8_chunks_with_limits("abc", 0, 2).is_empty());
    assert!(split_utf8_chunks_with_limits("abc", 3, 0).is_empty());
    let wide = split_utf8_chunks_with_limits("🙂a", 1, 9);
    assert_eq!(wide, vec!["🙂".as_bytes().to_vec(), b"a".to_vec()]);
    let whole = split_utf8_chunks_with_limits("aé🙂z", 4, 9).concat();
    assert_eq!(whole, "aé🙂z".as_bytes());
}

#[test]
fn stderr_tail_applies_line_and_byte_limits() {
    let mut lines = VecDeque::new();
    let per_line_cap = JS_REPL_STDERR_TAIL_LINE_MAX_BYTES.min(JS_REPL_STDERR_TAIL_MAX_BYTES);
    let long = "x".repeat(per_line_cap + 128);
    let bounded = push_stderr_tail_line(&mut lines, &long);
    assert_eq!(bounded.len(), per_line_cap);

    for i in 0..50 {
        let line = format!("line-{i}-{}", "y".repeat(200));
        push_stderr_tail_line(&mut lines, &line);
    }

    assert!(lines.len() <= JS_REPL_STDERR_TAIL_LINE_LIMIT);
    assert!(lines.iter().all(|line| line.len() <= per_line_cap));
    assert!(stderr_tail_formatted_bytes(&lines) <= JS_REPL_STDERR_TAIL_MAX_BYTES);
    assert_eq!(format_stderr_tail(&lines).len(), stderr_tail_formatted_bytes(&lines));
}

#[test]
fn stderr_tail_keeps_the_newest_lines() {
    let mut lines = VecDeque::new();
    assert_eq!(format_stderr_tail(&lines), "<empty>");
    assert_eq!(stderr_tail_formatted_bytes(&lines), 0);
    assert_eq!(push_stderr_tail_line(&mut lines, ""), "");
    assert!(lines.is_empty());
    assert_eq!(stderr_tail_bytes_with_candidate(&lines, "ab"), 2);
    for i in 0..21 {
        push_stderr_tail_line(&mut lines, &format!("l{i}"));
    }
    assert_eq!(lines.len(), 20);
    assert_eq!(lines[0], "l1");
    assert_eq!(lines[19], "l20");
    let mut two = VecDeque::new();
    push_stderr_tail_line(&mut two, "ab");
    push_stderr_tail_line(&mut two, "cd");
    assert_eq!(format_stderr_tail(&two), "ab | cd");
    assert_eq!(stderr_tail_bytes_with_candidate(&two, "e"), 11);
}

#[test]
fn model_kernel_failure_details_are_structured_and_truncated() {
    let snapshot = KernelDebugSnapshot {
        pid: Some(42),
        status: "exited(code=1)".to_string(),
        stderr_tail: "s".repeat(JS_REPL_MODEL_DIAG_STDERR_MAX_BYTES + 400),
    };
    let stream_error = "e".repeat(JS_REPL_MODEL_DIAG_ERROR_MAX_BYTES + 200);
    let message = with_model_kernel_failure_message(
        "js_repl kernel exited unexpectedly",
        "stdout_eof",
        Some(&stream_error),
        &snapshot,
    );
    assert!(message.starts_with("js_repl kernel exited unexpectedly\n\njs_repl diagnostics: "));
    let (_prefix, encoded) = message
        .split_once("js_repl diagnostics: ")
        .expect("diagnostics suffix should be present");
    let parsed: serde_json::Value =
        serde_json::from_str(encoded).expect("diagnostics should be valid json");
    assert_eq!(parsed.get("reason").and_then(|v| v.as_str()), Some("stdout_eof"));
    assert_eq!(parsed.get("kernel_pid").and_then(serde_json::Value::as_u64), Some(42));
    assert_eq!(
        parsed.get("kernel_status").and_then(|v| v.as_str()),
        Some("exited(code=1)")
    );
    assert!(
        parsed
            .get("kernel_stderr_tail")
            .and_then(|v| v.as_str())
            .expect("kernel_stderr_tail should be present")
            .len()
            <= JS_REPL_MODEL_DIAG_STDERR_MAX_BYTES
    );
    assert!(
        parsed
            .get("stream_error")
            .and_then(|v| v.as_str())
            .expect("stream_error should be present")
            .len()
            <= JS_REPL_MODEL_DIAG_ERROR_MAX_BYTES
    );
}

#[test]
fn write_error_diagnostics_only_attach_for_likely_kernel_failures() {
    let running = KernelDebugSnapshot {
        pid: Some(7),
        status: "running".to_string(),
        stderr_tail: "<empty>".to_string(),
    };
    let exited = KernelDebugSnapshot {
        pid: Some(7),
        status: "exited(code=1)".to_string(),
        stderr_tail: "<empty>".to_string(),
    };
    assert!(!should_include_model_diagnostics_for_write_error(
        "failed to flush kernel message: other io error",
        &running
    ));
    assert!(should_include_model_diagnostics_for_write_error(
        "failed to write to kernel: Broken pipe (os error 32)",
        &running
    ));
    assert!(should_include_model_diagnostics_for_write_error(
        "failed to write to kernel: some other io error",
        &exited
    ));
}

#[test]
fn js_repl_internal_tool_guard_matches_expected_names() {
    assert!(is_js_repl_internal_tool("js_repl"));
    assert!(is_js_repl_internal_tool("js_repl_poll"));
    assert!(is_js_repl_internal_tool("js_repl_reset"));
    assert!(!is_js_repl_internal_tool("shell_command"));
    assert!(!is_js_repl_internal_tool("list_mcp_resources"));
}

#[test]
fn build_js_repl_exec_output_sets_timed_out() {
    let out = build_js_repl_exec_output("", Some("timeout"), 50_000_000, true);
    assert!(out.timed_out);
}

#[test]
fn output_and_errors_become_one_text() {
    assert_eq!(join_outputs("", "err"), "err");
    assert_eq!(join_outputs("out", ""), "out");
    assert_eq!(join_outputs("out", "err"), "out\nerr");
    let ok = build_js_repl_exec_output("out", None, 3, false);
    assert_eq!((ok.exit_code, ok.stderr.as_str(), ok.duration), (0, "", 3));
    let failed = build_js_repl_exec_output("out", Some("err"), 3, false);
    assert_eq!(failed.exit_code, 1);
    assert_eq!(failed.aggregated_output, "out\nerr");
}

#[test]
fn a_poll_waits_within_bounds() {
    assert_eq!(clamp_poll_ms(None), 1000);
    assert_eq!(clamp_poll_ms(Some(0)), 50);
    assert_eq!(clamp_poll_ms(Some(50)), 50);
    assert_eq!(clamp_poll_ms(Some(777)), 777);
    assert_eq!(clamp_poll_ms(Some(60_000)), 5000);
}

#[test]
fn long_lists_of_names_are_cut() {
    let ids = |count: usize| (0..count).map(|i| i.to_string()).collect::<Vec<_>>();
    assert_eq!(truncate_id_list(&ids(8)), ids(8));
    let mut expected = ids(8);
    expected.push("...+3".to_string());
    assert_eq!(truncate_id_list(&ids(11)), expected);
}

#[test]
fn tool_calls_are_planned_by_name() {
    let specs = vec![
        ToolSpec { name: "shell".to_string(), freeform: false },
        ToolSpec { name: "apply_patch".to_string(), freeform: true },
    ];
    assert!(is_freeform_tool(&specs, "apply_patch"));
    assert!(!is_freeform_tool(&specs, "shell"));
    assert!(!is_freeform_tool(&specs, "missing"));
    let refused = plan_tool_call(&request("js_repl"), None, &specs).unwrap_err();
    assert_eq!(refused.error.as_deref(), Some("js_repl cannot invoke itself"));
    assert!(!refused.ok);
    let text = plan_tool_call(&request("apply_patch"), None, &specs).unwrap();
    assert_eq!(text.payload, ToolPayload::Custom { input: "{}".to_string() });
    assert_eq!(text.call_id, "r1");
    let plain = plan_tool_call(&request("shell"), None, &specs).unwrap();
    assert_eq!(plain.payload, ToolPayload::Function { arguments: "{}".to_string() });
    let server = plan_tool_call(
        &request("mcp__s__t"),
        Some(("s".to_string(), "t".to_string())),
        &specs,
    )
    .unwrap();
    assert_eq!(
        server.payload,
        ToolPayload::Mcp {
            server: "s".to_string(),
            tool: "t".to_string(),
            raw_arguments: "{}".to_string(),
        }
    );
}

#[test]
fn tool_calls_are_answered() {
    let ok = finish_tool_call("r1", ToolReply::Response(JsonValue::Bool(true)));
    assert!(ok.ok);
    assert_eq!(ok.response, Some(JsonValue::Bool(true)));
    assert_eq!(ok.error, None);
    let odd = finish_tool_call("r1", ToolReply::Unserializable("why".to_string()));
    assert_eq!(odd.error.as_deref(), Some("failed to serialize tool output: why"));
    let failed = finish_tool_call(
        "r1",
        ToolReply::Failed(FunctionCallError::RespondToModel("no".to_string())),
    );
    assert_eq!((failed.ok, failed.error.as_deref()), (false, Some("no")));
}

#[test]
fn kernels_stand_in_words() {
    let code = ChildStatus::Exited(ProcessExit { code: Some(-3), signal: None });
    let signal = ChildStatus::Exited(ProcessExit { code: None, signal: Some(9) });
    let unknown = ChildStatus::Exited(ProcessExit { code: None, signal: None });
    assert_eq!(kernel_status_text(&code), "exited(code=-3)");
    assert_eq!(kernel_status_text(&signal), "exited(signal=9)");
    assert_eq!(kernel_status_text(&unknown), "exited(unknown)");
    assert_eq!(kernel_status_text(&ChildStatus::Running), "running");
    assert_eq!(kernel_status_text(&ChildStatus::Unknown("e".to_string())), "unknown (e)");
    assert!(is_kernel_status_exited(&kernel_status_text(&signal)));
    assert!(!is_kernel_status_exited("running"));
    assert!(!needs_kill(&code));
    assert!(needs_kill(&ChildStatus::Running));
    assert!(needs_kill(&ChildStatus::Unknown("e".to_string())));
}

#[test]
fn the_end_of_a_kernel_is_explained_unless_on_purpose() {
    let plain = "js_repl kernel exited unexpectedly";
    let told = Some(snapshot("exited(code=1)"));
    assert_eq!(exit_failure_message(&KernelStreamEnd::Shutdown, &told), plain);
    assert_eq!(exit_failure_message(&KernelStreamEnd::StdoutEof, &None), plain);
    let eof = exit_failure_message(&KernelStreamEnd::StdoutEof, &told);
    assert!(eof.contains("\"reason\":\"stdout_eof\""));
    assert!(eof.contains("\"stream_error\":null"));
    let end = KernelStreamEnd::StdoutReadError("bad".to_string());
    assert_eq!(end.reason(), "stdout_read_error");
    assert_eq!(end.error(), Some("bad"));
    assert!(exit_failure_message(&end, &told).contains("\"stream_error\":\"bad\""));
}

#[test]
fn code_that_is_waited_for_comes_to_one_of_four_ends() {
    let done = execute_result(ExecuteOutcome::Replied(ExecResultMessage::Done {
        output: "42".to_string(),
    }));
    assert_eq!(done.unwrap().output, "42");
    let failed = execute_result(ExecuteOutcome::Replied(ExecResultMessage::Failed {
        message: "no".to_string(),
    }));
    assert_eq!(failed.unwrap_err().message(), "no");
    let late = execute_result(ExecuteOutcome::TimedOut);
    assert_eq!(
        late.unwrap_err().message(),
        "js_repl execution timed out; kernel reset, rerun your request"
    );
    let closed = execute_result(ExecuteOutcome::Closed { snapshot: snapshot("running") });
    assert_eq!(closed.unwrap_err().message(), "js_repl kernel closed unexpectedly");
    let gone = execute_result(ExecuteOutcome::Closed { snapshot: snapshot("exited(code=0)") });
    assert!(gone.unwrap_err().message().contains("response_channel_closed"));
    let kept = execute_result(ExecuteOutcome::WriteFailed {
        message: write_error_message(WriteStage::Flush, "odd"),
        snapshot: snapshot("running"),
    });
    assert_eq!(kept.unwrap_err().message(), "failed to flush kernel message: odd");
    let broken = execute_result(ExecuteOutcome::WriteFailed {
        message: write_error_message(WriteStage::Write, "Broken pipe"),
        snapshot: snapshot("running"),
    });
    let message = broken.unwrap_err().message();
    assert!(message.starts_with("failed to write to kernel: Broken pipe\n\njs_repl diagnostics: {"));
    assert!(message.contains("\"reason\":\"write_failed\""));
    assert_eq!(
        write_error_message(WriteStage::Serialize, "e"),
        "failed to serialize kernel message: e"
    );
}

#[test]
fn kernels_get_their_environment() {
    let mut env: StringMap<String> = StringMap::new();
    env.insert("PATH".to_string(), "/bin".to_string());
    let with_dirs = kernel_environment(env.clone(), "/tmp/k", Some(Ok("/a:/b".to_string()))).unwrap();
    assert_eq!(with_dirs.get("CODEX_JS_TMP_DIR").map(String::as_str), Some("/tmp/k"));
    assert_eq!(with_dirs.get("CODEX_JS_REPL_NODE_MODULE_DIRS").map(String::as_str), Some("/a:/b"));
    assert_eq!(with_dirs.get("PATH").map(String::as_str), Some("/bin"));
    let without = kernel_environment(env.clone(), "/tmp/k", None).unwrap();
    assert!(!without.contains_key("CODEX_JS_REPL_NODE_MODULE_DIRS"));
    let failure = kernel_environment(env.clone(), "/tmp/k", Some(Err("colon".to_string()))).unwrap_err();
    assert_eq!(start_error(&failure).message(), "failed to join js_repl_node_module_dirs: colon");
    env.insert("CODEX_JS_REPL_NODE_MODULE_DIRS".to_string(), "/own".to_string());
    let own = kernel_environment(env, "/tmp/k", Some(Err("colon".to_string()))).unwrap();
    assert_eq!(own.get("CODEX_JS_REPL_NODE_MODULE_DIRS").map(String::as_str), Some("/own"));
}

#[test]
fn kernels_get_their_command() {
    let command = kernel_command("/usr/bin/node", "/tmp/kernel.js");
    assert_eq!(command.program, "/usr/bin/node");
    assert_eq!(command.args, vec!["--experimental-vm-modules", "/tmp/kernel.js"]);
    let line = vec!["sandbox".to_string(), "node".to_string(), "k.js".to_string()];
    let spawned = spawn_command(&line, &None);
    assert_eq!(spawned.program, "sandbox");
    assert_eq!(spawned.args, vec!["node", "k.js"]);
    assert_eq!(spawned.arg0.as_deref(), Some("sandbox"));
    assert_eq!(spawn_command(&line, &Some("x".to_string())).arg0.as_deref(), Some("x"));
    let empty = spawn_command(&vec![], &None);
    assert_eq!((empty.program.as_str(), empty.arg0.as_deref()), ("", Some("")));
}

#[test]
fn what_keeps_a_kernel_from_starting_is_told() {
    let cases = vec![
        (StartFailure::TempDir("e".to_string()), "failed to create js_repl temp dir: e"),
        (StartFailure::Script("e".to_string()), "failed to stage js_repl kernel script: e"),
        (
            StartFailure::NoRuntime,
            "Node runtime not found; install Node or set CODEX_JS_REPL_NODE_PATH",
        ),
        (StartFailure::Runtime("too old".to_string()), "too old"),
        (StartFailure::Sandbox("e".to_string()), "failed to configure sandbox for js_repl: e"),
        (StartFailure::Spawn("e".to_string()), "failed to start Node runtime: e"),
        (StartFailure::NoStdout, "js_repl kernel missing stdout"),
        (StartFailure::NoStdin, "js_repl kernel missing stdin"),
    ];
    for (failure, message) in cases {
        assert_eq!(start_error(&failure).message(), message);
    }
}

#[test]
fn error_streams_are_noted_line_by_line() {
    let mut kernel = KernelState::new();
    assert_eq!(kernel.note_stderr("  \t"), None);
    assert_eq!(kernel.note_stderr("  oops \n"), Some("oops".to_string()));
    let snapshot = kernel.snapshot(Some(3), &ChildStatus::Running);
    assert_eq!(snapshot.pid, Some(3));
    assert_eq!(snapshot.status, "running");
    assert_eq!(snapshot.stderr_tail, "oops");
}
