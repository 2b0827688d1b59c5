use codex_kit::json::Double;
use codex_kit::json::FloatReading;
use codex_kit::json::JsonNumber;
use codex_kit::json::JsonValue;
use codex_kit::json::NumberKind;
use codex_kit::json::TextReading;
use codex_kit::string_map::StringMap;
use codex_kit::tools::ToolKind;
use codex_kit::tools::ToolOutput;
use codex_kit::tools::ToolPayload;
use codex_kit::user_input::build_mcp_elicitation_request_user_input_args;
use codex_kit::user_input::build_mcp_elicitation_response_from_user_input;
use codex_kit::user_input::format_modes;
use codex_kit::user_input::question_option;
use codex_kit::user_input::request_user_input_answer_to_elicitation_action;
use codex_kit::user_input::request_user_input_tool_description;
use codex_kit::user_input::request_user_input_unavailable_message;
use codex_kit::user_input::ElicitationAction;
use codex_kit::user_input::ElicitationRequestEvent;
use codex_kit::user_input::ModeKind;
use codex_kit::user_input::RequestUserInputAnswer;
use codex_kit::user_input::RequestUserInputArgs;
use codex_kit::user_input::RequestUserInputHandler;
use codex_kit::user_input::RequestUserInputQuestion;
use codex_kit::user_input::RequestUserInputResponse;

fn double(number: f64) -> Double {
    let bits = number.to_bits() as i64;
    Double {
        order: if bits >= 0 { bits } else { i64::MIN.wrapping_sub(bits) },
        text: number.to_string(),
    }
}

fn value(source: &serde_json::Value) -> JsonValue {
    match source {
        serde_json::Value::Null => JsonValue::Null,
        serde_json::Value::Bool(flag) => JsonValue::Bool(*flag),
        serde_json::Value::Number(number) => JsonValue::Number(JsonNumber {
            kind: if let Some(natural) = number.as_u64() {
                NumberKind::PosInt(natural)
            } else if let Some(integer) = number.as_i64() {
                NumberKind::NegInt(integer)
            } else {
                NumberKind::Float(number.to_string())
            },
            double: number.as_f64().map(double),
        }),
        serde_json::Value::String(text) => JsonValue::Text(text.clone()),
        serde_json::Value::Array(items) => JsonValue::Array(items.iter().map(value).collect()),
        serde_json::Value::Object(members) => JsonValue::Object(
            members.iter().map(|(name, member)| (name.clone(), value(member))).collect(),
        ),
    }
}

fn json(text: &str) -> JsonValue {
    value(&serde_json::from_str(text).unwrap())
}

fn answer(entries: &[&str]) -> RequestUserInputAnswer {
    RequestUserInputAnswer { answers: entries.iter().map(|entry| entry.to_string()).collect() }
}

fn response(answers: &[(&str, &[&str])]) -> RequestUserInputResponse {
    let mut map: StringMap<RequestUserInputAnswer> = StringMap::new();
    for (id, entries) in answers {
        map.insert(id.to_string(), answer(entries));
    }
    RequestUserInputResponse { answers: map }
}

fn event(schema: Option<&str>, url: Option<&str>) -> ElicitationRequestEvent {
    ElicitationRequestEvent {
        message: "Who are you?".to_string(),
        url: url.map(|url| url.to_string()),
        requested_schema: schema.map(json),
    }
}

fn question(options: Option<Vec<&str>>) -> RequestUserInputQuestion {
    RequestUserInputQuestion {
        id: "q".to_string(),
        header: "h".to_string(),
        question: "?".to_string(),
        is_other: false,
        is_secret: false,
        options: options.map(|labels| {
            labels.iter().map(|label| question_option(label.to_string(), String::new())).collect()
        }),
    }
}

#[test]
fn request_user_input_mode_availability_is_plan_only() {
    assert!(ModeKind::Plan.allows_request_user_input());
    assert!(!ModeKind::Default.allows_request_user_input());
    assert!(!ModeKind::Execute.allows_request_user_input());
    assert!(!ModeKind::PairProgramming.allows_request_user_input());
}

#[test]
fn request_user_input_unavailable_messages_use_default_name_for_default_modes() {
    assert_eq!(request_user_input_unavailable_message(ModeKind::Plan), None);
    assert_eq!(
        request_user_input_unavailable_message(ModeKind::Default),
        Some("request_user_input is unavailable in Default mode".to_string())
    );
    assert_eq!(
        request_user_input_unavailable_message(ModeKind::Execute),
        Some("request_user_input is unavailable in Execute mode".to_string())
    );
    assert_eq!(
        request_user_input_unavailable_message(ModeKind::PairProgramming),
        Some("request_user_input is unavailable in Pair Programming mode".to_string())
    );
}

#[test]
fn request_user_input_tool_description_mentions_plan_only() {
    assert_eq!(
        request_user_input_tool_description(),
        "Request user input for one to three short questions and wait for the response. This tool is only available in Plan mode.".to_string()
    );
}

#[test]
fn modes_are_put_into_words() {
    assert_eq!(format_modes(&vec![]), "no modes");
    assert_eq!(format_modes(&vec![ModeKind::Execute, ModeKind::Default]), "no modes");
    assert_eq!(format_modes(&vec![ModeKind::Plan, ModeKind::Plan]), "Plan or Plan mode");
    assert_eq!(
        format_modes(&vec![ModeKind::Plan, ModeKind::Plan, ModeKind::Plan]),
        "modes: Plan,Plan,Plan"
    );
}

#[test]
fn a_server_request_becomes_questions() {
    let schema = r#"{"properties": {"a b": {"type": "string"}, "a_b": {"type": "boolean"}}}"#;
    let args =
        build_mcp_elicitation_request_user_input_args(&event(Some(schema), Some("https://x")));
    assert_eq!(args.questions.len(), 3);
    let decision = &args.questions[0];
    assert_eq!(decision.id, "mcp_elicitation_decision");
    assert_eq!(decision.header, "MCP elicitation");
    assert_eq!(decision.question, "Who are you?\nURL: https://x");
    assert!(decision.is_other && !decision.is_secret);
    let labels: Vec<&str> =
        decision.options.as_ref().unwrap().iter().map(|option| option.label.as_str()).collect();
    assert_eq!(labels, ["Accept", "Decline", "Cancel"]);
    assert_eq!(args.questions[1].id, "mcp_elicitation_field_0_a_b");
    assert_eq!(args.questions[2].id, "mcp_elicitation_field_1_a_b");
    let plain = build_mcp_elicitation_request_user_input_args(&event(None, None));
    assert_eq!(plain.questions.len(), 1);
    assert_eq!(plain.questions[0].question, "Who are you?");
}

#[test]
fn answers_decide_about_a_request() {
    let action = |entries: &[&str]| request_user_input_answer_to_elicitation_action(&answer(entries));
    assert_eq!(action(&["user_note: Accept", "Decline", "Accept"]), Some(ElicitationAction::Decline));
    assert_eq!(action(&["accept"]), None);
    assert_eq!(action(&["odd", "Cancel"]), Some(ElicitationAction::Cancel));
    assert_eq!(action(&[]), None);
}

#[test]
fn replies_carry_content_only_where_granted() {
    let schema = r#"{"properties": {"age": {"type": "integer"}}, "required": ["age"]}"#;
    let request = event(Some(schema), None);
    let id = "mcp_elicitation_field_0_age";
    let reading = vec![TextReading { integer: Some(double(7.0)), float: FloatReading::NotANumber }];

    let none = build_mcp_elicitation_response_from_user_input(None, &request, &reading);
    assert_eq!((none.action, none.content), (ElicitationAction::Cancel, None));

    let granted = response(&[("mcp_elicitation_decision", &["Accept"]), (id, &["7"])]);
    let reply = build_mcp_elicitation_response_from_user_input(Some(&granted), &request, &reading);
    assert_eq!(reply.action, ElicitationAction::Accept);
    assert_eq!(reply.content.unwrap().to_text(), r#"{"age":7}"#);

    let missing = response(&[("mcp_elicitation_decision", &["Accept"])]);
    let reply = build_mcp_elicitation_response_from_user_input(Some(&missing), &request, &vec![]);
    assert_eq!((reply.action, reply.content), (ElicitationAction::Cancel, None));

    let declined = response(&[("mcp_elicitation_decision", &["Decline"]), (id, &["7"])]);
    let reply = build_mcp_elicitation_response_from_user_input(Some(&declined), &request, &reading);
    assert_eq!((reply.action, reply.content), (ElicitationAction::Decline, None));

    let unclear = response(&[(id, &["7"])]);
    let reply = build_mcp_elicitation_response_from_user_input(Some(&unclear), &request, &reading);
    assert_eq!((reply.action, reply.content), (ElicitationAction::Cancel, None));

    for formless in [event(None, None), event(Some("{}"), None)] {
        let reply =
            build_mcp_elicitation_response_from_user_input(Some(&missing), &formless, &vec![]);
        assert_eq!(reply.action, ElicitationAction::Accept);
        assert_eq!(reply.content, Some(JsonValue::Object(vec![])));
    }
}

#[test]
fn calls_of_the_tool_are_handled() {
    let handler = RequestUserInputHandler;
    assert_eq!(handler.kind(), ToolKind::Function);
    let function = ToolPayload::Function { arguments: "{}".to_string() };
    assert_eq!(handler.accept(&function, ModeKind::Plan).unwrap(), "{}");
    assert_eq!(
        handler.accept(&function, ModeKind::Default).unwrap_err().message(),
        "request_user_input is unavailable in Default mode"
    );
    let custom = ToolPayload::Custom { input: String::new() };
    assert_eq!(
        handler.accept(&custom, ModeKind::Default).unwrap_err().message(),
        "request_user_input handler received unsupported payload"
    );

    let good = RequestUserInputArgs { questions: vec![question(Some(vec!["a"]))] };
    let prepared = handler.prepare(good).unwrap();
    assert!(prepared.questions.iter().all(|question| question.is_other));
    for options in [None, Some(vec![])] {
        let bad = RequestUserInputArgs {
            questions: vec![question(Some(vec!["a"])), question(options)],
        };
        assert_eq!(
            handler.prepare(bad).unwrap_err().message(),
            "request_user_input requires non-empty options for every question"
        );
    }

    assert_eq!(
        handler.finish(Some(Ok("{}".to_string()))).unwrap(),
        ToolOutput::Text { content: "{}".to_string(), success: true }
    );
    assert_eq!(
        handler.finish(Some(Err("why".to_string()))).unwrap_err().message(),
        "Fatal error: failed to serialize request_user_input response: why"
    );
    assert_eq!(
        handler.finish(None).unwrap_err().message(),
        "request_user_input was cancelled before receiving a response"
    );
}
