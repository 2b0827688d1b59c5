use codex_kit::elicitation_form::answer_to;
use codex_kit::elicitation_form::build_elicitation_content_from_response;
use codex_kit::elicitation_form::build_elicitation_content_questions;
use codex_kit::elicitation_form::build_question_id;
use codex_kit::elicitation_form::extract_selection_and_note;
use codex_kit::elicitation_form::parse_boolean_value;
use codex_kit::elicitation_form::parse_field_kind;
use codex_kit::elicitation_form::parse_number_value;
use codex_kit::elicitation_form::parse_text_value;
use codex_kit::elicitation_form::response_texts;
use codex_kit::elicitation_form::FieldKind;
use codex_kit::elicitation_form::ParsedSchema;
use codex_kit::json::Double;
use codex_kit::json::FloatReading;
use codex_kit::json::JsonNumber;
use codex_kit::json::JsonValue;
use codex_kit::json::NumberKind;
use codex_kit::json::TextReading;
use codex_kit::string_map::StringMap;
use codex_kit::user_input::RequestUserInputAnswer;
use codex_kit::user_input::RequestUserInputResponse;

fn double(number: f64) -> Double {
    let bits = number.to_bits() as i64;
    Double {
        order: if bits >= 0 { bits } else { i64::MIN.wrapping_sub(bits) },
        text: number.to_string(),
    }
}

fn value(source: &serde_json::Value) -> JsonValue {
    match source {
        serde_json::Value::Null => JsonValue::Null,
        serde_json::Value::Bool(flag) => JsonValue::Bool(*flag),
        serde_json::Value::Number(number) => JsonValue::Number(JsonNumber {
            kind: if let Some(natural) = number.as_u64() {
                NumberKind::PosInt(natural)
            } else if let Some(integer) = number.as_i64() {
                NumberKind::NegInt(integer)
            } else {
                NumberKind::Float(number.to_string())
            },
            double: number.as_f64().map(double),
        }),
        serde_json::Value::String(text) => JsonValue::Text(text.clone()),
        serde_json::Value::Array(items) => JsonValue::Array(items.iter().map(value).collect()),
        serde_json::Value::Object(members) => JsonValue::Object(
            members.iter().map(|(name, member)| (name.clone(), value(member))).collect(),
        ),
    }
}

fn json(text: &str) -> JsonValue {
    value(&serde_json::from_str(text).unwrap())
}

fn reading(text: &str) -> TextReading {
    TextReading {
        integer: text.parse::<i64>().ok().map(|number| double(number as f64)),
        float: match text.parse::<f64>() {
            Err(_) => FloatReading::NotANumber,
            Ok(number) if number.is_finite() => FloatReading::Finite {
                json: serde_json::Value::from(number).to_string(),
                double: double(number),
            },
            Ok(_) => FloatReading::NonFinite,
        },
    }
}

fn response(answers: &[(&str, &str)]) -> RequestUserInputResponse {
    let mut map: StringMap<RequestUserInputAnswer> = StringMap::new();
    for (id, entry) in answers {
        map.insert(
            id.to_string(),
            RequestUserInputAnswer { answers: vec![entry.to_string()] },
        );
    }
    RequestUserInputResponse { answers: map }
}

/// What an answer to a form of one field comes to.
fn content(property: &str, required: bool, entry: Option<&str>) -> Result<String, ()> {
    let required = if required { r#", "required": ["f"]"# } else { "" };
    let schema = json(&format!(r#"{{"properties": {{"f": {property}}}{required}}}"#));
    let given: Vec<(&str, &str)> =
        entry.into_iter().map(|entry| ("mcp_elicitation_field_0_f", entry)).collect();
    let response = response(&given);
    let readings: Vec<TextReading> = response_texts(&response, Some(&schema))
        .into_iter()
        .map(|text| reading(text.as_deref().unwrap_or("")))
        .collect();
    build_elicitation_content_from_response(&response, Some(&schema), &readings)
        .map(|content| content.unwrap().to_text())
}

fn prompt(property: &str, required: bool) -> String {
    let required = if required { r#", "required": ["f"]"# } else { "" };
    let schema = json(&format!(r#"{{"properties": {{"f": {property}}}{required}}}"#));
    build_elicitation_content_questions(Some(&schema)).remove(0).question
}

fn ok(text: &str) -> Result<String, ()> {
    Ok(text.to_string())
}

#[test]
fn fields_are_asked_for_in_words() {
    assert_eq!(
        prompt(
            r#"{"type": "string", "description": " Your name ", "title": " Name ", "minLength": 2, "maxLength": 5, "pattern": "^a", "format": "email"}"#,
            true
        ),
        "Your name\nEnter text.\nUse text in the requested format (for example: \"example\").\nUse at least 2 characters.\nUse no more than 5 characters.\nMust follow this pattern: ^a.\nThis answer is required.\nNo default value is set.\nPlease enter a value for \"Name\"."
    );
    assert_eq!(
        prompt(r#"{"type": "integer", "minimum": -1, "maximum": 2.5, "default": 1}"#, false),
        "Enter a whole number.\nMust be at least -1.\nMust be at most 2.5.\nYou can leave this blank.\nIf left blank, default is 1.\nPlease enter a value for \"f\"."
    );
    assert_eq!(
        prompt(r#"{"type": "number", "default": null}"#, false),
        "Enter a number.\nYou can leave this blank.\nIf left blank, default is null.\nPlease enter a value for \"f\"."
    );
    assert_eq!(
        prompt(r#"{"type": "boolean", "title": "  "}"#, false),
        "Choose Yes or No below.\nYou can leave this blank.\nNo default value is set.\nPlease enter a value for \"f\"."
    );
    assert_eq!(
        prompt(
            r#"{"type": "array", "items": {"enum": ["Red", 1, true, null]}, "minItems": 1, "maxItems": 2}"#,
            false
        ),
        "Choose one or more options.\nEnter multiple values separated by commas (for example: Red, Blue).\nAvailable options: Red, 1, true.\nChoose at least 1.\nChoose no more than 2.\nYou can leave this blank.\nNo default value is set.\nPlease enter a value for \"f\"."
    );
}

#[test]
fn questions_offer_choices() {
    let schema = json(
        r#"{"properties": {
            "a": {"type": "string", "oneOf": [{"const": "x", "title": " X "}, {"const": 2}, {"title": "none"}, 5]},
            "b": {"type": "boolean"},
            "c": {"type": "string", "enum": []},
            "d": {"type": "object"},
            "e": 7
        }}"#,
    );
    let questions = build_elicitation_content_questions(Some(&schema));
    assert_eq!(questions.len(), 3);
    let offered: Vec<(String, String)> = questions[0]
        .options
        .as_ref()
        .unwrap()
        .iter()
        .map(|option| (option.label.clone(), option.description.clone()))
        .collect();
    assert_eq!(
        offered,
        vec![
            ("X".to_string(), "Use value `x`.".to_string()),
            ("2".to_string(), "Use value `2`.".to_string()),
        ]
    );
    assert!(questions[0].question.starts_with("Choose from one option below."));
    assert_eq!(questions[1].options.as_ref().unwrap()[0].label, "Yes");
    assert_eq!(questions[1].options.as_ref().unwrap()[1].description, "Choose No.");
    assert!(questions[2].options.is_none());
    assert!(!questions[2].is_other && !questions[2].is_secret);
    assert!(build_elicitation_content_questions(None).is_empty());
    assert!(build_elicitation_content_questions(Some(&json("[]"))).is_empty());
}

#[test]
fn texts_are_checked() {
    let bounded = r#"{"type": "string", "minLength": 2, "maxLength": 3}"#;
    assert_eq!(content(bounded, false, Some(" éé ")), ok(r#"{"f":"éé"}"#));
    assert_eq!(content(bounded, false, Some("a")), Err(()));
    assert_eq!(content(bounded, false, Some("abcd")), Err(()));
    let pattern = r#"{"type": "string", "pattern": "^[a-c]+$"}"#;
    assert_eq!(content(pattern, false, Some("abc")), ok(r#"{"f":"abc"}"#));
    assert_eq!(content(pattern, false, Some("abd")), Err(()));
    let broken = r#"{"type": "string", "pattern": "(["}"#;
    assert_eq!(content(broken, false, Some("anything")), ok(r#"{"f":"anything"}"#));
    assert_eq!(parse_text_value("a", None, None, Some(false)), Err(()));
    assert_eq!(
        parse_text_value("a", Some(1), Some(1), Some(true)),
        Ok(Some(JsonValue::Text("a".to_string())))
    );
}

#[test]
fn numbers_are_checked() {
    let whole = r#"{"type": "integer", "minimum": -2, "maximum": 10}"#;
    assert_eq!(content(whole, false, Some("-2")), ok(r#"{"f":-2}"#));
    assert_eq!(content(whole, false, Some("+10")), ok(r#"{"f":10}"#));
    assert_eq!(content(whole, false, Some("-3")), Err(()));
    assert_eq!(content(whole, false, Some("11")), Err(()));
    assert_eq!(content(whole, false, Some("1.5")), Err(()));
    let any = r#"{"type": "number", "minimum": -0.5, "maximum": 1e3}"#;
    assert_eq!(content(any, false, Some("2")), ok(r#"{"f":2.0}"#));
    assert_eq!(content(any, false, Some("-0.5")), ok(r#"{"f":-0.5}"#));
    assert_eq!(content(any, false, Some("-0.75")), Err(()));
    assert_eq!(content(any, false, Some("1001")), Err(()));
    assert_eq!(content(any, false, Some("much")), Err(()));
    let free = r#"{"type": "number"}"#;
    assert_eq!(content(free, false, Some("inf")), Err(()));
    assert_eq!(content(free, false, Some("NaN")), Err(()));
    let from_zero = r#"{"type": "number", "minimum": 0}"#;
    assert_eq!(content(from_zero, false, Some("-0")), ok(r#"{"f":-0.0}"#));
}

#[test]
fn yes_and_no_are_understood() {
    for word in ["true", "YES", "y", "1"] {
        assert_eq!(parse_boolean_value(word), Ok(Some(JsonValue::Bool(true))));
    }
    for word in ["False", "no", "N", "0"] {
        assert_eq!(parse_boolean_value(word), Ok(Some(JsonValue::Bool(false))));
    }
    assert_eq!(parse_boolean_value("maybe"), Err(()));
    assert_eq!(content(r#"{"type": "boolean"}"#, false, Some("Yes")), ok(r#"{"f":true}"#));
}

#[test]
fn choices_are_taken_by_name_or_value() {
    let one = r#"{"type": "string", "oneOf": [{"const": "r", "title": "Red"}, {"const": 2}]}"#;
    assert_eq!(content(one, false, Some("Red")), ok(r#"{"f":"r"}"#));
    assert_eq!(content(one, false, Some("r")), ok(r#"{"f":"r"}"#));
    assert_eq!(content(one, false, Some("2")), ok(r#"{"f":2}"#));
    assert_eq!(content(one, false, Some("red")), Err(()));
    let some = r#"{"type": "array", "items": {"anyOf": [{"const": "a"}, {"const": true}]}, "minItems": 1, "maxItems": 2}"#;
    assert_eq!(content(some, false, Some("true, , a,")), ok(r#"{"f":[true,"a"]}"#));
    assert_eq!(content(some, false, Some(",")), Err(()));
    assert_eq!(content(some, false, Some("a,a,a")), Err(()));
    assert_eq!(content(some, false, Some("a,b")), Err(()));
}

#[test]
fn blank_answers_take_the_default() {
    let with_default = r#"{"type": "string", "default": "d"}"#;
    assert_eq!(content(with_default, true, None), ok(r#"{"f":"d"}"#));
    assert_eq!(content(with_default, true, Some("  ")), ok(r#"{"f":"d"}"#));
    let without = r#"{"type": "string"}"#;
    assert_eq!(content(without, true, None), Err(()));
    assert_eq!(content(without, false, Some("user_note:  ")), ok("{}"));
    assert_eq!(build_elicitation_content_from_response(&response(&[]), None, &vec![]), Ok(None));
    assert_eq!(
        build_elicitation_content_from_response(&response(&[]), Some(&json("{}")), &vec![]),
        Ok(None)
    );
}

#[test]
fn notes_go_before_selections() {
    let answer = RequestUserInputAnswer {
        answers: ["  ", "user_note: one", " pick ", "user_note:   ", "other", "user_note: two "]
            .iter()
            .map(|entry| entry.to_string())
            .collect(),
    };
    assert_eq!(
        extract_selection_and_note(Some(&answer)),
        (Some("pick".to_string()), Some("two".to_string()))
    );
    assert_eq!(extract_selection_and_note(None), (None, None));
    let mut answers: StringMap<RequestUserInputAnswer> = StringMap::new();
    answers.insert("id".to_string(), answer);
    let response = RequestUserInputResponse { answers };
    assert_eq!(answer_to(&response, "id").as_deref(), Some("two"));
    assert_eq!(answer_to(&response, "other"), None);
}

#[test]
fn question_names_differ() {
    let mut used: Vec<String> = vec!["mcp_elicitation_field_0_a_b".to_string()];
    assert_eq!(build_question_id("a b", 0, &mut used), "mcp_elicitation_field_0_a_b_1");
    assert_eq!(build_question_id("a-b", 0, &mut used), "mcp_elicitation_field_0_a_b_2");
    assert_eq!(build_question_id("ä1", 3, &mut used), "mcp_elicitation_field_3__1");
    assert_eq!(used.len(), 4);
    let schema = json(
        r#"{"properties": {"x": {"type": "string"}, "y": {"type": "odd"}, "z": {"type": "boolean"}}}"#,
    );
    let parsed = ParsedSchema::from_requested_schema(&schema).unwrap();
    let ids: Vec<&str> = parsed.fields.iter().map(|field| field.question_id.as_str()).collect();
    assert_eq!(ids, ["mcp_elicitation_field_0_x", "mcp_elicitation_field_2_z"]);
}

#[test]
fn kinds_follow_the_type() {
    let kind = |text: &str| match json(text) {
        JsonValue::Object(members) => parse_field_kind(&members),
        _ => panic!("an object is asked for"),
    };
    assert!(matches!(kind(r#"{"type": "string"}"#), Some(FieldKind::Text { .. })));
    assert!(matches!(kind(r#"{"type": "number"}"#), Some(FieldKind::Number { integer: false, .. })));
    assert!(matches!(kind(r#"{"type": "integer"}"#), Some(FieldKind::Number { integer: true, .. })));
    assert!(matches!(kind(r#"{"type": "boolean"}"#), Some(FieldKind::Boolean)));
    assert!(matches!(
        kind(r#"{"type": "string", "enum": ["a"]}"#),
        Some(FieldKind::SingleSelectEnum { .. })
    ));
    assert!(matches!(
        kind(r#"{"type": "array", "items": {"enum": ["a"]}}"#),
        Some(FieldKind::MultiSelectEnum { min_items: None, max_items: None, .. })
    ));
    assert!(kind(r#"{"type": "array", "items": {}}"#).is_none());
    assert!(kind(r#"{"type": "array"}"#).is_none());
    assert!(kind(r#"{"type": "null"}"#).is_none());
    assert!(kind("{}").is_none());
}

#[test]
fn an_integer_without_bounds_needs_no_double() {
    let unread = TextReading { integer: None, float: FloatReading::NotANumber };
    let number = parse_number_value("-7", true, &None, &None, &unread).unwrap().unwrap();
    assert_eq!(number.to_text(), "-7");
    assert_eq!(parse_number_value("7.5", true, &None, &None, &unread), Err(()));
    let seven = parse_number_value("7", true, &Some(double(7.0)), &None, &reading("7"));
    assert_eq!(seven.unwrap().unwrap().to_text(), "7");
    assert_eq!(parse_number_value("7", true, &None, &Some(double(6.5)), &reading("7")), Err(()));
}
