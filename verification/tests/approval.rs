use codex_kit::approval::form::parse_elicitation_schema_fields;
use codex_kit::approval::form::parse_input_value;
use codex_kit::approval::form::read_input;
use codex_kit::approval::form::parse_schema_type;
use codex_kit::approval::form::parse_schema_type_str;
use codex_kit::approval::form::ElicitationFieldType;
use codex_kit::approval::form::ElicitationFormField;
use codex_kit::approval::form::ElicitationFormState;
use codex_kit::approval::keys::plain;
use codex_kit::approval::keys::KeyCode;
use codex_kit::approval::keys::KeyEvent;
use codex_kit::approval::keys::KeyEventKind;
use codex_kit::approval::keys::KeyModifiers;
use codex_kit::approval::overlay::ApprovalEvent;
use codex_kit::approval::overlay::ApprovalOverlay;
use codex_kit::approval::overlay::Area;
use codex_kit::approval::overlay::KeyNext;
use codex_kit::approval::request::build_options;
use codex_kit::approval::request::elicitation_options;
use codex_kit::approval::request::exec_options;
use codex_kit::approval::request::parse_elicitation_app_name;
use codex_kit::approval::request::patch_options;
use codex_kit::approval::request::ApprovalOption;
use codex_kit::approval::request::ApprovalRequest;
use codex_kit::approval::request::ApprovalRequestState;
use codex_kit::approval::request::ExecPolicyAmendment;
use codex_kit::approval::request::HeaderItem;
use codex_kit::approval::request::NetworkApprovalContext;
use codex_kit::approval::request::NetworkApprovalProtocol;
use codex_kit::approval::request::RequestId;
use codex_kit::approval::request::ReviewDecision;
use codex_kit::approval::request::Span;
use codex_kit::approval::request::SpanStyle;
use codex_kit::json::Double;
use codex_kit::json::FloatReading;
use codex_kit::json::JsonNumber;
use codex_kit::json::JsonValue;
use codex_kit::json::NumberKind;
use codex_kit::json::TextReading;
use codex_kit::user_input::ElicitationAction;

fn double(number: f64) -> Double {
    let bits = number.to_bits() as i64;
    Double {
        order: if bits >= 0 { bits } else { i64::MIN.wrapping_sub(bits) },
        text: number.to_string(),
    }
}

fn value(source: &serde_json::Value) -> JsonValue {
    match source {
        serde_json::Value::Null => JsonValue::Null,
        serde_json::Value::Bool(flag) => JsonValue::Bool(*flag),
        serde_json::Value::Number(number) => JsonValue::Number(JsonNumber {
            kind: if let Some(natural) = number.as_u64() {
                NumberKind::PosInt(natural)
            } else if let Some(integer) = number.as_i64() {
                NumberKind::NegInt(integer)
            } else {
                NumberKind::Float(number.to_string())
            },
            double: number.as_f64().map(double),
        }),
        serde_json::Value::String(text) => JsonValue::Text(text.clone()),
        serde_json::Value::Array(items) => JsonValue::Array(items.iter().map(value).collect()),
        serde_json::Value::Object(members) => JsonValue::Object(
            members.iter().map(|(name, member)| (name.clone(), value(member))).collect(),
        ),
    }
}

fn json(text: &str) -> JsonValue {
    value(&serde_json::from_str(text).unwrap())
}

fn reading(text: &str) -> TextReading {
    let text = text.trim();
    TextReading {
        integer: text.parse::<i64>().ok().map(|number| double(number as f64)),
        float: match text.parse::<f64>() {
            Err(_) => FloatReading::NotANumber,
            Ok(number) if number.is_finite() => FloatReading::Finite {
                json: serde_json::Value::from(number).to_string(),
                double: double(number),
            },
            Ok(_) => FloatReading::NonFinite,
        },
    }
}

fn readings(view: &ApprovalOverlay) -> Vec<TextReading> {
    match &view.elicitation_form {
        Some(form) => form.values.iter().map(|value| reading(value)).collect(),
        None => Vec::new(),
    }
}

fn texts(items: &[&str]) -> Vec<String> {
    items.iter().map(|item| item.to_string()).collect()
}

fn key(code: KeyCode) -> KeyEvent {
    KeyEvent::new(code, KeyModifiers::empty())
}

/// Presses a key. The line of input takes every character; the list takes the enter key and has
/// its first option selected.
fn press(view: &mut ApprovalOverlay, event: KeyEvent) -> Vec<ApprovalEvent> {
    let values = readings(view);
    let mut step = view.handle_key_event(&event, &values);
    let mut events = step.events;
    if step.next == KeyNext::Compose {
        let handled = match event.code {
            KeyCode::Char(ch) => {
                let mut text = view.elicitation_form.as_ref().unwrap().text.clone();
                text.push(ch);
                view.set_form_text(text);
                true
            }
            _ => false,
        };
        step = view.composed(&event, handled, &values);
        events.extend(step.events);
    }
    if step.next == KeyNext::List && event.code == KeyCode::Enter {
        events.extend(view.apply_selection(0, &values));
    }
    events
}

fn make_exec_request() -> ApprovalRequest {
    ApprovalRequest::Exec {
        id: "test".to_string(),
        command: texts(&["echo", "hi"]),
        reason: Some("reason".to_string()),
        network_approval_context: None,
        proposed_execpolicy_amendment: None,
    }
}

fn make_elicitation_request(
    requested_schema: Option<JsonValue>,
    url: Option<&str>,
) -> ApprovalRequest {
    ApprovalRequest::McpElicitation {
        server_name: "mcp-server".to_string(),
        request_id: RequestId::Text("request-id-1".to_string()),
        message: "Request user details".to_string(),
        requested_schema,
        url: url.map(|url| url.to_string()),
    }
}

fn amendment(command: &str) -> ExecPolicyAmendment {
    ExecPolicyAmendment::new(vec![command.to_string()], command.to_string())
}

fn resolved(events: Vec<ApprovalEvent>) -> Option<(String, RequestId, ElicitationAction, Option<String>)> {
    events.into_iter().find_map(|event| match event {
        ApprovalEvent::ResolveElicitation {
            server_name,
            request_id,
            decision,
            response_content,
        } => Some((
            server_name,
            request_id,
            decision,
            response_content.map(|content| content.to_text()),
        )),
        _ => None,
    })
}

fn plain_text(item: &HeaderItem) -> String {
    match item {
        HeaderItem::Line(spans) => spans.iter().map(|span| span.text.as_str()).collect(),
        HeaderItem::Changes => "<changes>".to_string(),
    }
}

#[test]
fn ctrl_c_aborts_and_clears_queue() {
    let mut view = ApprovalOverlay::new(make_exec_request(), false);
    view.enqueue_request(make_exec_request());
    let events = view.on_ctrl_c();
    assert_eq!(
        events,
        vec![
            ApprovalEvent::InsertHistoryCell {
                command: texts(&["echo", "hi"]),
                decision: ReviewDecision::Abort,
            },
            ApprovalEvent::ExecApproval { id: "test".to_string(), decision: ReviewDecision::Abort },
        ]
    );
    assert!(view.queue.is_empty());
    assert!(view.is_complete());
    assert!(view.on_ctrl_c().is_empty());
}

#[test]
fn shortcut_triggers_selection() {
    let mut view = ApprovalOverlay::new(make_exec_request(), false);
    assert!(!view.is_complete());
    let events = press(&mut view, key(KeyCode::Char('y')));
    let saw_op = events.iter().any(|event| matches!(event, ApprovalEvent::ExecApproval { .. }));
    assert!(saw_op, "expected approval decision to emit an op");
}

#[test]
fn exec_prefix_option_emits_execpolicy_amendment() {
    let mut view = ApprovalOverlay::new(
        ApprovalRequest::Exec {
            id: "test".to_string(),
            command: texts(&["echo"]),
            reason: None,
            network_approval_context: None,
            proposed_execpolicy_amendment: Some(amendment("echo")),
        },
        false,
    );
    let events = press(&mut view, key(KeyCode::Char('p')));
    let decision = events.into_iter().find_map(|event| match event {
        ApprovalEvent::ExecApproval { decision, .. } => Some(decision),
        _ => None,
    });
    assert_eq!(
        decision,
        Some(ReviewDecision::ApprovedExecpolicyAmendment {
            proposed_execpolicy_amendment: amendment("echo"),
        })
    );
}

#[test]
fn header_includes_command_snippet() {
    let request = ApprovalRequest::Exec {
        id: "test".to_string(),
        command: texts(&["echo", "hello", "world"]),
        reason: None,
        network_approval_context: None,
        proposed_execpolicy_amendment: None,
    };
    let lines = vec![
        vec![
            Span { text: "echo".to_string(), style: SpanStyle::Custom(3) },
            Span { text: " hello world".to_string(), style: SpanStyle::Plain },
        ],
        vec![Span { text: "next".to_string(), style: SpanStyle::Plain }],
    ];
    let rendered: Vec<String> =
        ApprovalRequestState::from(&request, lines).header.iter().map(plain_text).collect();
    assert!(rendered.iter().any(|line| line.contains("echo hello world")));
    assert_eq!(rendered, texts(&["$ echo hello world", "next"]));
}

#[test]
fn network_exec_options_use_expected_labels_and_hide_execpolicy_amendment() {
    let network_context = NetworkApprovalContext {
        host: "example.com".to_string(),
        protocol: NetworkApprovalProtocol::Https,
    };
    let options = exec_options(Some(&amendment("curl")), Some(&network_context));

    let labels: Vec<String> = options.into_iter().map(|option| option.label).collect();
    assert_eq!(
        labels,
        vec![
            "Yes, just this once".to_string(),
            "Yes, and allow this host for this session".to_string(),
            "No, and tell Codex what to do differently".to_string(),
        ]
    );
}

#[test]
fn network_exec_prompt_title_includes_host() {
    let exec_request = ApprovalRequest::Exec {
        id: "test".to_string(),
        command: texts(&["curl", "https://example.com"]),
        reason: Some("network request blocked".to_string()),
        network_approval_context: Some(NetworkApprovalContext {
            host: "example.com".to_string(),
            protocol: NetworkApprovalProtocol::Https,
        }),
        proposed_execpolicy_amendment: Some(amendment("curl")),
    };
    let view = ApprovalOverlay::new(exec_request, false);
    assert!(view.page.title.contains("Do you want to approve access to \"example.com\"?"));
    assert!(view.page.spaced);
    assert!(!view.page.options.iter().any(|option| option.label.contains("don't ask again")));
}

#[test]
fn enter_sets_last_selected_index_without_dismissing() {
    let mut view = ApprovalOverlay::new(make_exec_request(), false);
    let events = press(&mut view, key(KeyCode::Enter));

    assert!(view.is_complete(), "exec approval should complete without queued requests");
    let decision = events.into_iter().find_map(|event| match event {
        ApprovalEvent::ExecApproval { decision, .. } => Some(decision),
        _ => None,
    });
    assert_eq!(decision, Some(ReviewDecision::Approved));
}

#[test]
fn elicitation_accept_sends_structured_payload_for_schema_fields() {
    let mut view = ApprovalOverlay::new(
        make_elicitation_request(
            Some(json(r#"{"properties": {"name": {"type": "string"}}}"#)),
            None,
        ),
        true,
    );
    assert!(view.elicitation_form.as_ref().is_some(), "expected schema-backed form state");

    press(&mut view, key(KeyCode::Tab));
    press(&mut view, key(KeyCode::Char('a')));
    press(&mut view, key(KeyCode::Char('l')));
    press(&mut view, key(KeyCode::Char('i')));
    press(&mut view, key(KeyCode::Char('c')));
    press(&mut view, key(KeyCode::Char('e')));
    press(&mut view, key(KeyCode::Enter));
    let events = press(&mut view, key(KeyCode::Char('y')));

    let (server_name, request_id, decision, response_content) = resolved(events).unwrap();
    assert_eq!(server_name, "mcp-server");
    assert_eq!(request_id, RequestId::Text("request-id-1".to_string()));
    assert_eq!(decision, ElicitationAction::Accept);
    assert_eq!(response_content.as_deref(), Some(r#"{"name":"alice"}"#));
}

#[test]
fn elicitation_accept_without_parsed_form_schema_allows_decision_without_payload() {
    let mut view = ApprovalOverlay::new(
        make_elicitation_request(Some(json(r#"{"type": "string"}"#)), None),
        true,
    );
    assert!(view.elicitation_form.is_some());

    let events = press(&mut view, key(KeyCode::Char('y')));

    let (server_name, request_id, decision, response_content) = resolved(events).unwrap();
    assert_eq!(server_name, "mcp-server");
    assert_eq!(request_id, RequestId::Text("request-id-1".to_string()));
    assert_eq!(decision, ElicitationAction::Accept);
    assert_eq!(response_content, None);
}

#[test]
fn elicitation_cancel_does_not_send_content() {
    let mut view = ApprovalOverlay::new(
        make_elicitation_request(
            Some(json(r#"{"properties": {"age": {"type": "number"}}}"#)),
            None,
        ),
        true,
    );
    let events = press(&mut view, key(KeyCode::Char('c')));

    let (server_name, request_id, decision, response_content) = resolved(events).unwrap();
    assert_eq!(server_name, "mcp-server");
    assert_eq!(request_id, RequestId::Text("request-id-1".to_string()));
    assert_eq!(decision, ElicitationAction::Cancel);
    assert_eq!(response_content, None);
}

#[test]
fn what_was_filled_in_goes_with_no_cancelled_request() {
    for (answer, expected, content) in [
        ('c', ElicitationAction::Cancel, None),
        ('n', ElicitationAction::Decline, Some(r#"{"age":42.0}"#.to_string())),
        ('y', ElicitationAction::Accept, Some(r#"{"age":42.0}"#.to_string())),
    ] {
        let mut view = ApprovalOverlay::new(
            make_elicitation_request(
                Some(json(r#"{"properties": {"age": {"type": "number"}}}"#)),
                None,
            ),
            true,
        );
        for code in [KeyCode::Tab, KeyCode::Char('4'), KeyCode::Char('2'), KeyCode::Enter] {
            assert!(press(&mut view, key(code)).is_empty());
        }
        assert_eq!(view.elicitation_form.as_ref().unwrap().values, vec!["42".to_string()]);
        let events = press(&mut view, key(KeyCode::Char(answer)));
        assert_eq!(events.len(), 1);
        let (server_name, request_id, decision, response_content) = resolved(events).unwrap();
        assert_eq!(server_name, "mcp-server");
        assert_eq!(request_id, RequestId::Text("request-id-1".to_string()));
        assert_eq!(decision, expected);
        assert_eq!(response_content, content);
        assert!(view.is_complete());
    }
}

#[test]
fn lists_and_objects_are_read_as_json() {
    let mut view = ApprovalOverlay::new(
        make_elicitation_request(
            Some(json(r#"{"properties": {"tags": {"type": "array"}}}"#)),
            None,
        ),
        true,
    );
    press(&mut view, key(KeyCode::Tab));
    view.set_form_text(r#" [ 1, -2, 2.50, {"b": null, "a": true}, "x" ] "#.to_string());
    press(&mut view, key(KeyCode::Enter));
    let events = press(&mut view, key(KeyCode::Char('y')));
    let (_, _, _, content) = resolved(events).unwrap();
    assert_eq!(content.as_deref(), Some(r#"{"tags":[1,-2,2.5,{"a":true,"b":null},"x"]}"#));
    let unread = TextReading { integer: None, float: FloatReading::NotANumber };
    let broken = read_input("[1,", ElicitationFieldType::Object, &unread);
    assert_eq!(broken, JsonValue::Text("[1,".to_string()));
    let text = read_input("[1]", ElicitationFieldType::Text, &unread);
    assert_eq!(text, JsonValue::Text("[1]".to_string()));
}

#[test]
fn elicitation_accept_requires_required_schema_fields() {
    let mut view = ApprovalOverlay::new(
        make_elicitation_request(
            Some(json(
                r#"{"type": "object", "properties": {"age": {"type": "integer"}}, "required": ["age"]}"#,
            )),
            None,
        ),
        true,
    );

    let events = press(&mut view, key(KeyCode::Char('y')));

    assert!(
        view.elicitation_form.as_ref().is_some_and(|form| form.is_editing),
        "expected form editing to start for missing required field"
    );
    assert!(
        resolved(events).is_none(),
        "accept should not resolve with missing required fields"
    );

    press(&mut view, key(KeyCode::Char('4')));
    press(&mut view, key(KeyCode::Char('2')));
    press(&mut view, key(KeyCode::Enter));
    let events = press(&mut view, key(KeyCode::Char('y')));

    let (server_name, request_id, decision, response_content) = resolved(events).unwrap();
    assert_eq!(server_name, "mcp-server");
    assert_eq!(request_id, RequestId::Text("request-id-1".to_string()));
    assert_eq!(decision, ElicitationAction::Accept);
    assert_eq!(response_content.as_deref(), Some(r#"{"age":42}"#));
}

#[test]
fn elicitation_union_type_prefers_non_null_supported_type() {
    let mut view = ApprovalOverlay::new(
        make_elicitation_request(
            Some(json(
                r#"{"type": "object", "properties": {"age": {"type": ["null", "integer"]}}}"#,
            )),
            None,
        ),
        true,
    );

    press(&mut view, key(KeyCode::Tab));
    press(&mut view, key(KeyCode::Char('4')));
    press(&mut view, key(KeyCode::Char('2')));
    press(&mut view, key(KeyCode::Enter));
    let events = press(&mut view, key(KeyCode::Char('y')));

    let (server_name, request_id, decision, response_content) = resolved(events).unwrap();
    assert_eq!(server_name, "mcp-server");
    assert_eq!(request_id, RequestId::Text("request-id-1".to_string()));
    assert_eq!(decision, ElicitationAction::Accept);
    assert_eq!(response_content.as_deref(), Some(r#"{"age":42}"#));
}

#[test]
fn elicitation_schema_is_ignored_when_feature_disabled() {
    let mut view = ApprovalOverlay::new(
        make_elicitation_request(
            Some(json(
                r#"{"type": "object", "properties": {"age": {"type": "integer"}}, "required": ["age"]}"#,
            )),
            Some("https://example.com/elicitation"),
        ),
        false,
    );

    assert!(
        view.elicitation_form.is_none(),
        "legacy behavior should not render a schema form when feature is disabled"
    );
    assert_eq!(view.current_request, make_elicitation_request(None, None));
    let events = press(&mut view, key(KeyCode::Char('y')));

    let (server_name, request_id, decision, response_content) = resolved(events).unwrap();
    assert_eq!(server_name, "mcp-server");
    assert_eq!(request_id, RequestId::Text("request-id-1".to_string()));
    assert_eq!(decision, ElicitationAction::Accept);
    assert_eq!(response_content, None);
}

#[test]
fn calling_off_a_server_request_cancels_it_without_content() {
    let schema = json(r#"{"properties": {"name": {"type": "string"}}}"#);
    let mut view = ApprovalOverlay::new(make_elicitation_request(Some(schema), None), true);
    press(&mut view, key(KeyCode::Char('x')));
    press(&mut view, key(KeyCode::Enter));
    assert_eq!(view.elicitation_form.as_ref().unwrap().values, texts(&["x"]));
    let (_, _, decision, content) = resolved(view.on_ctrl_c()).unwrap();
    assert_eq!(decision, ElicitationAction::Cancel);
    assert_eq!(content, None);
}

#[test]
fn waiting_requests_come_last_in_first_out() {
    let mut view = ApprovalOverlay::new(make_exec_request(), true);
    view.enqueue_request(make_elicitation_request(None, None));
    view.enqueue_request(ApprovalRequest::ApplyPatch {
        id: "patch".to_string(),
        reason: Some(String::new()),
        cwd: "/w".to_string(),
        changes: 4,
    });
    press(&mut view, key(KeyCode::Char('n')));
    assert_eq!(view.page.title, "Would you like to make the following edits?");
    let events = press(&mut view, key(KeyCode::Char('a')));
    assert_eq!(
        events,
        vec![ApprovalEvent::PatchApproval {
            id: "patch".to_string(),
            decision: ReviewDecision::ApprovedForSession,
        }]
    );
    assert_eq!(view.page.title, "mcp-server needs your approval.");
    assert!(!view.page.spaced);
    assert!(!view.is_complete());
    let (_, _, decision, _) = resolved(press(&mut view, key(KeyCode::Esc))).unwrap();
    assert_eq!(decision, ElicitationAction::Cancel);
    assert!(view.is_complete());
    assert!(press(&mut view, key(KeyCode::Char('y'))).is_empty());
}

#[test]
fn control_a_asks_for_the_whole_screen() {
    let mut view = ApprovalOverlay::new(make_exec_request(), false);
    let mut control = KeyModifiers::empty();
    control.control = true;
    let events = press(&mut view, KeyEvent::new(KeyCode::Char('a'), control));
    assert_eq!(events, vec![ApprovalEvent::FullScreenApprovalRequest(make_exec_request())]);
    assert!(!view.is_complete());
    let mut release = key(KeyCode::Char('y'));
    release.kind = KeyEventKind::Release;
    assert!(press(&mut view, release).is_empty());
    let mut repeat = key(KeyCode::Char('y'));
    repeat.kind = KeyEventKind::Repeat;
    assert_eq!(press(&mut view, repeat).len(), 2);
}

#[test]
fn keys_that_are_not_taken_choose_options() {
    let schema = json(r#"{"properties": {"name": {}}}"#);
    let mut view = ApprovalOverlay::new(make_elicitation_request(Some(schema), None), true);
    press(&mut view, key(KeyCode::Tab));
    assert!(view.elicitation_form.as_ref().unwrap().is_editing);
    let (_, _, decision, _) = resolved(press(&mut view, key(KeyCode::Esc))).unwrap();
    assert_eq!(decision, ElicitationAction::Cancel);
    assert!(ApprovalOverlay::is_form_input_key(&key(KeyCode::Char('x'))));
    for ch in ['y', 'Y', 'n', 'N', 'c', 'C'] {
        assert!(!ApprovalOverlay::is_form_input_key(&key(KeyCode::Char(ch))));
    }
    assert!(!ApprovalOverlay::is_form_input_key(&key(KeyCode::Tab)));
}

#[test]
fn every_shown_key_chooses_its_option() {
    let pages: Vec<Vec<ApprovalOption>> = vec![
        exec_options(Some(&amendment("ls")), None),
        exec_options(None, None),
        patch_options(),
        elicitation_options(),
    ];
    for options in pages {
        for (index, option) in options.iter().enumerate() {
            let shown = option.shown_shortcut().unwrap();
            let event = KeyEvent::new(shown.code, shown.modifiers);
            let chosen = options.iter().position(|option| {
                option.display_shortcut.into_iter().chain(option.additional_shortcuts.clone()).any(
                    |binding| binding.is_press(&event),
                )
            });
            assert_eq!(chosen, Some(index));
        }
    }
    assert_eq!(patch_options()[2].shown_shortcut(), Some(plain(KeyCode::Esc)));
}

#[test]
fn amendments_of_several_lines_are_not_offered() {
    let lines = ExecPolicyAmendment::new(texts(&["a\nb"]), "a\nb".to_string());
    assert_eq!(exec_options(Some(&lines), None).len(), 2);
    let returns = ExecPolicyAmendment::new(texts(&["a\rb"]), "a\rb".to_string());
    assert_eq!(exec_options(Some(&returns), None).len(), 2);
    let options = exec_options(Some(&amendment("git status")), None);
    assert_eq!(
        options[1].label,
        "Yes, and don't ask again for commands that start with `git status`"
    );
}

#[test]
fn headers_show_reasons_apps_and_schemas() {
    let exec = ApprovalRequestState::from(&make_exec_request(), vec![]);
    assert_eq!(
        exec.header[0],
        HeaderItem::Line(vec![
            Span { text: "Reason: ".to_string(), style: SpanStyle::Plain },
            Span { text: "reason".to_string(), style: SpanStyle::Italic },
        ])
    );
    assert_eq!(exec.header[1], HeaderItem::Line(vec![]));
    let patch = ApprovalRequest::ApplyPatch {
        id: "p".to_string(),
        reason: Some(String::new()),
        cwd: "/".to_string(),
        changes: 0,
    };
    assert_eq!(ApprovalRequestState::from(&patch, vec![]).header, vec![HeaderItem::Changes]);

    let names: Vec<String> = (0..12).map(|i| format!("\"property{i:02}\": {{}}")).collect();
    let schema = json(&format!("{{\"properties\": {{{}}}}}", names.join(",")));
    let request = ApprovalRequest::McpElicitation {
        server_name: "s".to_string(),
        request_id: RequestId::Integer(7),
        message: "Tool call from `Calendar` wants more".to_string(),
        requested_schema: Some(schema),
        url: Some("https://example.com".to_string()),
    };
    let lines: Vec<String> =
        ApprovalRequestState::from(&request, vec![]).header.iter().map(plain_text).collect();
    assert_eq!(
        lines[..4],
        [
            "  Server: s",
            "  App: Calendar",
            "Tool call from `Calendar` wants more",
            "  URL: https://example.com",
        ]
    );
    assert_eq!(lines.len(), 7);
    assert!(lines[4].starts_with("  Schema properties: property00, property01"));
    assert!(lines[4..].iter().all(|line| line.len() <= 80));
}

#[test]
fn app_names_stand_in_backquotes() {
    assert_eq!(parse_elicitation_app_name("x from `App` y").as_deref(), Some("App"));
    assert_eq!(parse_elicitation_app_name("x from `App"), None);
    assert_eq!(parse_elicitation_app_name("x from ``"), None);
    assert_eq!(parse_elicitation_app_name("`App`"), None);
    assert_eq!(parse_elicitation_app_name("é from `ß` from `z`").as_deref(), Some("ß"));
}

#[test]
fn schema_types_are_read() {
    let names = ["boolean", "integer", "number", "object", "array", "string", "null"];
    let kinds: Vec<ElicitationFieldType> =
        names.iter().map(|name| parse_schema_type_str(name)).collect();
    assert_eq!(
        kinds,
        vec![
            ElicitationFieldType::Boolean,
            ElicitationFieldType::Integer,
            ElicitationFieldType::Number,
            ElicitationFieldType::Object,
            ElicitationFieldType::Array,
            ElicitationFieldType::Text,
            ElicitationFieldType::Unknown,
        ]
    );
    assert_eq!(
        parse_schema_type(&json(r#"[1, "null", "odd", "boolean", "integer"]"#)),
        ElicitationFieldType::Boolean
    );
    assert_eq!(parse_schema_type(&json(r#"["null"]"#)), ElicitationFieldType::Unknown);
    assert_eq!(parse_schema_type(&json("1")), ElicitationFieldType::Unknown);
    assert!(parse_elicitation_schema_fields(&json("{}")).is_none());
    let fields = parse_elicitation_schema_fields(&json(
        r#"{"properties": {"a": {"title": "A"}, "b": {"type": "number"}}, "required": ["b", 1]}"#,
    ))
    .unwrap();
    assert_eq!(fields[0].title.as_deref(), Some("A"));
    assert!(!fields[0].required && fields[1].required);
    assert_eq!(fields[1].field_type, ElicitationFieldType::Number);
}

#[test]
fn what_is_filled_in_becomes_a_value() {
    let cases = [
        (" true ", ElicitationFieldType::Boolean, "true"),
        ("TRUE", ElicitationFieldType::Boolean, "\"TRUE\""),
        ("-42", ElicitationFieldType::Integer, "-42"),
        ("+7", ElicitationFieldType::Integer, "7"),
        ("1.5", ElicitationFieldType::Integer, "1.5"),
        ("many", ElicitationFieldType::Integer, "\"many\""),
        ("42", ElicitationFieldType::Number, "42.0"),
        ("inf", ElicitationFieldType::Number, "null"),
        ("x", ElicitationFieldType::Number, "\"x\""),
        ("[1, 2]", ElicitationFieldType::Array, "[1,2]"),
        ("[1, ", ElicitationFieldType::Array, "\"[1,\""),
        ("{\"a\": null}", ElicitationFieldType::Object, "{\"a\":null}"),
        (" a \"b\" ", ElicitationFieldType::Text, "\"a \\\"b\\\"\""),
        ("1", ElicitationFieldType::Unknown, "\"1\""),
    ];
    for (input, kind, expected) in cases {
        assert_eq!(read_input(input, kind, &reading(input)).to_text(), expected);
        let read = serde_json::from_str::<serde_json::Value>(input.trim()).ok().as_ref().map(value);
        assert_eq!(parse_input_value(input, kind, &reading(input), read).to_text(), expected);
    }
}

#[test]
fn fields_are_filled_in_one_after_another() {
    let field = |name: &str, required: bool, title: Option<&str>| ElicitationFormField {
        name: name.to_string(),
        field_type: ElicitationFieldType::Text,
        required,
        title: title.map(|title| title.to_string()),
    };
    let mut form = ElicitationFormState::new(vec![
        field("a", false, None),
        field("b", true, Some("B")),
        field("c", true, None),
    ]);
    assert_eq!(form.placeholder, "a: ");
    assert!(form.has_missing_required_fields());
    form.focus_first_missing_required_field();
    assert_eq!((form.current_field, form.is_editing), (1, true));
    assert_eq!(form.placeholder, "b (B) *: ");
    form.set_text(" x ".to_string());
    form.submit_current_field();
    assert_eq!((form.current_field, form.is_editing), (2, true));
    assert_eq!(form.placeholder, "c *: ");
    form.set_text("  ".to_string());
    form.submit_current_field();
    assert!(!form.is_editing);
    assert!(form.has_missing_required_fields());
    assert_eq!(form.to_value(&vec![]).unwrap().to_text(), "{\"b\":\"x\"}");
    form.focus_first_missing_required_field();
    assert_eq!((form.current_field, form.text.as_str()), (2, "  "));
    form.set_text("y".to_string());
    form.submit_current_field();
    assert!(!form.has_missing_required_fields());
    assert_eq!(form.values, texts(&["", " x ", "y"]));
    assert_eq!(ElicitationFormState::new(vec![]).placeholder, "Response: ");
    assert_eq!(ElicitationFormField::notes().name, "response");
}

#[test]
fn the_line_of_input_stands_below_the_list() {
    let schema = json(r#"{"properties": {"name": {}}}"#);
    let mut view = ApprovalOverlay::new(make_elicitation_request(Some(schema), None), true);
    let area = Area { x: 1, y: 2, width: 30, height: 10 };
    let layout = view.layout(area, 3);
    assert_eq!(layout.list, Area { x: 1, y: 2, width: 30, height: 7 });
    assert_eq!(layout.composer, Some(Area { x: 1, y: 9, width: 30, height: 3 }));
    assert!(!view.cursor_in_form(&layout));
    press(&mut view, key(KeyCode::Tab));
    assert!(view.cursor_in_form(&layout));
    assert_eq!(view.layout(area, 10).composer, None);
    assert_eq!(view.layout(area, 0).list, area);
    assert_eq!(view.desired_height(5, 3), 8);
    assert_eq!(view.desired_height(65_535, 3), 65_535);
    let plain_view = ApprovalOverlay::new(make_exec_request(), true);
    assert_eq!(plain_view.desired_height(5, 3), 5);
    assert_eq!(plain_view.layout(area, 3).composer, None);
    assert_eq!(build_options(&make_exec_request()).options.len(), 2);
}
