use codex_kit::js_repl::args::freeform_source;
use codex_kit::js_repl::args::parse_freeform;
use codex_kit::js_repl::args::parse_freeform_args;
use codex_kit::js_repl::args::reject_json_or_quoted_source;
use codex_kit::js_repl::args::JsReplArgs;
use codex_kit::js_repl::args::JS_REPL_POLL_TIMEOUT_ARG_ERROR_MESSAGE;
use codex_kit::js_repl::handlers::format_poll_output;
use codex_kit::js_repl::handlers::is_js_repl_timeout_message;
use codex_kit::js_repl::handlers::JsReplHandler;
use codex_kit::js_repl::handlers::JsReplInput;
use codex_kit::js_repl::handlers::JsReplPollHandler;
use codex_kit::js_repl::handlers::JsReplResetArgs;
use codex_kit::js_repl::handlers::JsReplResetHandler;
use codex_kit::js_repl::kernel::JsExecResult;
use codex_kit::js_repl::kernel::JS_REPL_TIMEOUT_ERROR_MESSAGE;
use codex_kit::js_repl::messages::ToolEventStage;
use codex_kit::js_repl::sessions::JsExecPollResult;
use codex_kit::js_repl::sessions::JsExecSubmission;
use codex_kit::json::JsonKind;
use codex_kit::tools::FunctionCallError;
use codex_kit::tools::ToolKind;
use codex_kit::tools::ToolOutput;
use codex_kit::tools::ToolPayload;

fn custom(input: &str) -> ToolPayload {
    ToolPayload::Custom { input: input.to_string() }
}

fn function(arguments: &str) -> ToolPayload {
    ToolPayload::Function { arguments: arguments.to_string() }
}

fn args(code: &str, timeout_ms: Option<u64>, poll: bool, session_id: Option<&str>) -> JsReplArgs {
    JsReplArgs {
        code: code.to_string(),
        timeout_ms,
        poll,
        session_id: session_id.map(str::to_string),
    }
}

fn rejected(input: &str) -> String {
    parse_freeform_args(input).expect_err("expected error").message()
}

#[test]
fn parse_freeform_args_without_pragma() {
    let args = parse_freeform_args("console.log('ok');").expect("parse args");
    assert_eq!(args.code, "console.log('ok');");
    assert_eq!(args.timeout_ms, None);
    assert!(!args.poll);
    assert_eq!(args.session_id, None);
}

#[test]
fn parse_freeform_args_with_pragma() {
    let input = "// codex-js-repl: timeout_ms=15000\nconsole.log('ok');";
    let args = parse_freeform_args(input).expect("parse args");
    assert_eq!(args.code, "console.log('ok');");
    assert_eq!(args.timeout_ms, Some(15_000));
    assert!(!args.poll);
    assert_eq!(args.session_id, None);
}

#[test]
fn parse_freeform_args_with_poll() {
    let input = "// codex-js-repl: poll=true\nconsole.log('ok');";
    let args = parse_freeform_args(input).expect("parse args");
    assert_eq!(args.code, "console.log('ok');");
    assert_eq!(args.timeout_ms, None);
    assert!(args.poll);
    assert_eq!(args.session_id, None);
}

#[test]
fn parse_freeform_args_rejects_timeout_ms_when_poll_true() {
    let input = "// codex-js-repl: poll=true timeout_ms=15000\nconsole.log('ok');";
    let err = parse_freeform_args(input).expect_err("expected error");
    assert_eq!(err.message(), JS_REPL_POLL_TIMEOUT_ARG_ERROR_MESSAGE);
}

#[test]
fn parse_freeform_args_with_poll_and_session_id() {
    let input = "// codex-js-repl: poll=true session_id=my-session\nconsole.log('ok');";
    let args = parse_freeform_args(input).expect("parse args");
    assert_eq!(args.code, "console.log('ok');");
    assert_eq!(args.timeout_ms, None);
    assert!(args.poll);
    assert_eq!(args.session_id.as_deref(), Some("my-session"));
}

#[test]
fn parse_freeform_args_rejects_session_id_without_poll() {
    let input = "// codex-js-repl: session_id=my-session\nconsole.log('ok');";
    let err = parse_freeform_args(input).expect_err("expected error");
    assert_eq!(err.message(), "js_repl session_id is only supported when poll=true");
}

#[test]
fn parse_freeform_args_rejects_unknown_key() {
    let err = parse_freeform_args("// codex-js-repl: nope=1\nconsole.log('ok');")
        .expect_err("expected error");
    assert_eq!(
        err.message(),
        "js_repl pragma only supports timeout_ms, poll, session_id; got `nope`"
    );
}

#[test]
fn parse_freeform_args_rejects_reset_key() {
    let err = parse_freeform_args("// codex-js-repl: reset=true\nconsole.log('ok');")
        .expect_err("expected error");
    assert_eq!(
        err.message(),
        "js_repl pragma only supports timeout_ms, poll, session_id; got `reset`"
    );
}

#[test]
fn parse_freeform_args_rejects_duplicate_poll() {
    let err = parse_freeform_args("// codex-js-repl: poll=true poll=false\nconsole.log('ok');")
        .expect_err("expected error");
    assert_eq!(err.message(), "js_repl pragma specifies poll more than once");
}

#[test]
fn parse_freeform_args_rejects_json_wrapped_code() {
    let err = parse_freeform_args(r#"{"code":"await doThing()"}"#).expect_err("expected error");
    assert_eq!(
        err.message(),
        "js_repl is a freeform tool and expects raw JavaScript source. Resend plain JS only (optional first line `// codex-js-repl: ...`); do not send JSON (`{\"code\":...}`), quoted code, or markdown fences."
    );
}

#[test]
fn freeform_input_has_to_hold_source() {
    assert_eq!(
        rejected(" \n\t "),
        "js_repl expects raw JavaScript tool input (non-empty). Provide JS source text, optionally with first-line `// codex-js-repl: ...`."
    );
    assert_eq!(
        rejected("// codex-js-repl: poll=true\n  \n"),
        "js_repl pragma must be followed by JavaScript source on subsequent lines"
    );
    assert_eq!(
        rejected("// codex-js-repl: poll=true"),
        "js_repl pragma must be followed by JavaScript source on subsequent lines"
    );
    assert_eq!(
        rejected("```js\nlet x = 1;\n```"),
        "js_repl expects raw JavaScript source, not markdown code fences. Resend plain JS only (optional first line `// codex-js-repl: ...`)."
    );
    assert!(rejected("\"let x = 1;\"").starts_with("js_repl is a freeform tool"));
    assert!(rejected("// codex-js-repl:\n{\"a\":1}").starts_with("js_repl is a freeform tool"));
}

#[test]
fn pragmas_are_checked_one_by_one() {
    assert_eq!(
        rejected("// codex-js-repl: poll\nx"),
        "js_repl pragma expects space-separated key=value pairs (supported keys: timeout_ms, poll, session_id); got `poll`"
    );
    assert_eq!(
        rejected("// codex-js-repl: timeout_ms=1 timeout_ms=2\nx"),
        "js_repl pragma specifies timeout_ms more than once"
    );
    assert_eq!(
        rejected("// codex-js-repl: timeout_ms=-1\nx"),
        "js_repl pragma timeout_ms must be an integer; got `-1`"
    );
    assert_eq!(
        rejected("// codex-js-repl: poll=yes\nx"),
        "js_repl pragma poll must be true or false; got `yes`"
    );
    assert_eq!(
        rejected("// codex-js-repl: session_id=a session_id=b\nx"),
        "js_repl pragma specifies session_id more than once"
    );
    assert_eq!(
        rejected("// codex-js-repl: session_id=\nx"),
        "js_repl session_id must not be empty"
    );
    let parsed = parse_freeform_args("  // codex-js-repl:  poll=TRUE \nx\ny").unwrap();
    assert_eq!(parsed, args("x\ny", None, true, None));
    let empty = parse_freeform_args("// codex-js-repl:\nx").unwrap();
    assert_eq!(empty, args("x", None, false, None));
}

#[test]
fn json_that_is_neither_object_nor_text_is_source() {
    assert!(parse_freeform_args("[1, 2]").is_ok());
    assert!(parse_freeform_args("42").is_ok());
    assert!(parse_freeform_args("null").is_ok());
    assert!(parse_freeform_args("{ let x = 1; }").is_ok());
    assert!(reject_json_or_quoted_source(" {\"a\": [true]} ").is_err());
    assert!(reject_json_or_quoted_source("true").is_ok());
}

#[test]
fn the_kind_of_json_decides_what_is_source() {
    let input = "// codex-js-repl: timeout_ms=7\n42";
    assert_eq!(freeform_source(input), "42");
    assert_eq!(freeform_source("42"), "42");
    assert!(parse_freeform(input, Some(JsonKind::Object)).is_err());
    assert!(parse_freeform(input, Some(JsonKind::Text)).is_err());
    for kind in [None, Some(JsonKind::Null), Some(JsonKind::Bool), Some(JsonKind::Number), Some(JsonKind::Array)] {
        assert_eq!(parse_freeform(input, kind), Ok(args("42", Some(7), false, None)));
    }
}

#[test]
fn timeout_message_detection_matches_canonical_error() {
    assert!(is_js_repl_timeout_message(JS_REPL_TIMEOUT_ERROR_MESSAGE));
    assert!(!is_js_repl_timeout_message("some other error"));
}

#[test]
fn format_poll_output_serializes_logs_in_json_payload() {
    let result = JsExecPollResult {
        exec_id: "exec-1".to_string(),
        session_id: "session-1".to_string(),
        logs: vec!["line 1".to_string(), "line 2".to_string()],
        output: None,
        error: None,
        done: false,
    };
    let output = format_poll_output(&result).expect("format poll output");
    let payload: serde_json::Value =
        serde_json::from_str(&output.content).expect("valid json payload");
    let mut expected = serde_json::Map::new();
    expected.insert("exec_id".to_string(), serde_json::Value::from("exec-1"));
    expected.insert("session_id".to_string(), serde_json::Value::from("session-1"));
    expected.insert("status".to_string(), serde_json::Value::from("running"));
    expected.insert("logs".to_string(), serde_json::Value::from("line 1\nline 2"));
    expected.insert("output".to_string(), serde_json::Value::Null);
    expected.insert("error".to_string(), serde_json::Value::Null);
    assert_eq!(payload, serde_json::Value::Object(expected));
}

#[test]
fn polled_code_stands_in_one_of_three_ways() {
    let mut result = JsExecPollResult {
        exec_id: "e".to_string(),
        session_id: "s".to_string(),
        logs: vec![],
        output: Some("out \"quoted\"".to_string()),
        error: None,
        done: true,
    };
    assert_eq!(
        format_poll_output(&result).unwrap().content,
        "{\"error\":null,\"exec_id\":\"e\",\"logs\":null,\"output\":\"out \\\"quoted\\\"\",\"session_id\":\"s\",\"status\":\"completed\"}"
    );
    result.error = Some("bad".to_string());
    assert!(format_poll_output(&result).unwrap().content.contains("\"status\":\"error\""));
    result.done = false;
    assert!(format_poll_output(&result).unwrap().content.contains("\"status\":\"running\""));
}

#[test]
fn running_code_asks_for_the_right_payload() {
    let handler = JsReplHandler;
    assert_eq!(handler.kind(), ToolKind::Function);
    assert!(handler.matches_kind(&function("{}")));
    assert!(handler.matches_kind(&custom("x")));
    assert!(!handler.matches_kind(&ToolPayload::LocalShell));
    assert_eq!(
        handler.accept(&custom("x"), false).unwrap_err().message(),
        "js_repl is disabled by feature flag"
    );
    assert_eq!(
        handler.accept(&ToolPayload::LocalShell, true).unwrap_err().message(),
        "js_repl expects custom or function payload"
    );
    assert_eq!(
        handler.accept(&function("{\"code\":\"x\"}"), true),
        Ok(JsReplInput::Arguments("{\"code\":\"x\"}".to_string()))
    );
    assert_eq!(
        handler.accept(&custom("x"), true),
        Ok(JsReplInput::Parsed(args("x", None, false, None)))
    );
}

#[test]
fn arguments_have_to_go_together() {
    let handler = JsReplHandler;
    assert_eq!(handler.check(&args("x", Some(1), false, None), false), Ok(false));
    assert_eq!(handler.check(&args("x", None, true, Some("s")), true), Ok(true));
    assert_eq!(
        handler.check(&args("x", None, false, Some("s")), true).unwrap_err().message(),
        "js_repl session_id is only supported when poll=true"
    );
    assert_eq!(
        handler.check(&args("x", None, true, Some(" ")), true).unwrap_err().message(),
        "js_repl session_id must not be empty"
    );
    assert_eq!(
        handler.check(&args("x", Some(1), true, None), true).unwrap_err().message(),
        JS_REPL_POLL_TIMEOUT_ARG_ERROR_MESSAGE
    );
    assert_eq!(
        handler.check(&args("x", None, true, None), false).unwrap_err().message(),
        "js_repl polling is disabled by feature flag"
    );
}

#[test]
fn what_is_told_of_code_that_ran() {
    let handler = JsReplHandler;
    let submitted = handler.submitted(
        Ok(JsExecSubmission { exec_id: "e".to_string(), session_id: "s".to_string() }),
        5,
    );
    assert_eq!(
        submitted.output,
        Ok(ToolOutput::Text {
            content: "{\"exec_id\":\"e\",\"session_id\":\"s\",\"status\":\"running\"}".to_string(),
            success: true,
        })
    );
    assert_eq!(submitted.event, None);

    let refused = handler.submitted(Err(FunctionCallError::RespondToModel("no".to_string())), 5);
    match refused.event {
        Some(ToolEventStage::Failure(output)) => {
            assert_eq!(output.stderr, "no");
            assert_eq!(output.exit_code, 1);
            assert_eq!(output.duration, 5);
            assert!(!output.timed_out);
        }
        _ => panic!("expected a failure"),
    }

    let executed = handler.executed(Ok(JsExecResult { output: "done".to_string() }), 9);
    assert_eq!(
        executed.output,
        Ok(ToolOutput::InputText { text: "done".to_string(), success: true })
    );
    match executed.event {
        Some(ToolEventStage::Success(output)) => {
            assert_eq!(output.stdout, "done");
            assert_eq!(output.aggregated_output, "done");
            assert_eq!(output.exit_code, 0);
        }
        _ => panic!("expected a success"),
    }

    let late = handler.executed(
        Err(FunctionCallError::RespondToModel(JS_REPL_TIMEOUT_ERROR_MESSAGE.to_string())),
        9,
    );
    match late.event {
        Some(ToolEventStage::Failure(output)) => assert!(output.timed_out),
        _ => panic!("expected a failure"),
    }
    let fatal = handler.executed(Err(FunctionCallError::Fatal("broken".to_string())), 9);
    match fatal.event {
        Some(ToolEventStage::Failure(output)) => assert_eq!(output.stderr, "Fatal error: broken"),
        _ => panic!("expected a failure"),
    }
}

#[test]
fn resetting_names_one_session_or_none() {
    let handler = JsReplResetHandler;
    assert_eq!(handler.kind(), ToolKind::Function);
    assert_eq!(handler.accept(&function("{}"), true), Ok("{}".to_string()));
    assert_eq!(
        handler.accept(&custom("x"), true).unwrap_err().message(),
        "js_repl_reset expects function payload"
    );
    assert_eq!(
        handler.accept(&function("{}"), false).unwrap_err().message(),
        "js_repl is disabled by feature flag"
    );
    let one = JsReplResetArgs { session_id: Some("s".to_string()) };
    let all = JsReplResetArgs { session_id: None };
    let blank = JsReplResetArgs { session_id: Some(" ".to_string()) };
    assert!(handler.check(&one).is_ok());
    assert!(handler.check(&all).is_ok());
    assert_eq!(
        handler.check(&blank).unwrap_err().message(),
        "js_repl session_id must not be empty"
    );
    assert_eq!(
        handler.finished(&one),
        ToolOutput::Text {
            content: "{\"session_id\":\"s\",\"status\":\"reset\"}".to_string(),
            success: true,
        }
    );
    assert_eq!(
        handler.finished(&all),
        ToolOutput::Text { content: "{\"status\":\"reset_all\"}".to_string(), success: true }
    );
}

#[test]
fn polling_asks_for_both_features() {
    let handler = JsReplPollHandler;
    assert_eq!(handler.kind(), ToolKind::Function);
    assert_eq!(handler.accept(&function("{}"), true, true), Ok("{}".to_string()));
    assert_eq!(
        handler.accept(&function("{}"), false, true).unwrap_err().message(),
        "js_repl is disabled by feature flag"
    );
    assert_eq!(
        handler.accept(&function("{}"), true, false).unwrap_err().message(),
        "js_repl polling is disabled by feature flag"
    );
    assert_eq!(
        handler.accept(&custom("x"), true, true).unwrap_err().message(),
        "js_repl_poll expects function payload"
    );
    let result = JsExecPollResult {
        exec_id: "e".to_string(),
        session_id: "s".to_string(),
        logs: vec![],
        output: None,
        error: None,
        done: false,
    };
    assert!(handler.finished(&result).is_ok());
}
