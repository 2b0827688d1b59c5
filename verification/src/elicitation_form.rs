//! Forms that a tool server asks the user to fill in: from a schema to questions, and from the
//! answers to the content that the server gets.

use vstd::prelude::*;

use crate::json::find_member;
use crate::json::float_number;
use crate::json::float_value;
use crate::json::integer_number;
use crate::json::json_double_of;
use crate::json::json_get;
use crate::json::json_items;
use crate::json::json_members;
use crate::json::json_nat_of;
use crate::json::json_text;
use crate::json::json_text_of;
use crate::json::lemma_json_view;
use crate::json::member;
use crate::json::opt_double;
use crate::json::opt_json;
use crate::json::opt_json_owned;
use crate::json::Double;
use crate::json::DoubleView;
use crate::json::FloatReading;
use crate::json::FloatReadingView;
use crate::json::JsonNumber;
use crate::json::JsonValue;
use crate::json::JsonView;
use crate::json::NumberKind;
use crate::json::NumberKindView;
use crate::json::TextReading;
use crate::numbers::decimal;
use crate::numbers::decimal_usize;
use crate::numbers::lemma_decimal_digits;
use crate::numbers::lemma_decimal_injective;
use crate::numbers::parse_i64;
use crate::numbers::signed_value;
use crate::text::blank;
use crate::text::chars_of;
use crate::text::holds_text;
use crate::text::is_alphanumeric;
use crate::text::is_ascii_alphanumeric;
use crate::text::is_blank;
use crate::text::join;
use crate::text::joined;
use crate::text::just;
use crate::text::lacks;
use crate::text::lemma_split_around;
use crate::text::lemma_split_join;
use crate::text::lemma_split_whole;
use crate::text::lower_text;
use crate::text::opt_str;
use crate::text::opt_text;
use crate::text::plus3;
use crate::text::push_text;
use crate::text::same_text;
use crate::text::split_text;
use crate::text::split_where;
use crate::text::strip;
use crate::text::strip_prefix;
use crate::text::texts;
use crate::text::to_ascii_lowercase;
use crate::text::trim;
use crate::text::trimmed;
use crate::user_input::option_views;
use crate::user_input::question_option;
use crate::user_input::question_views;
use crate::user_input::OptionView;
use crate::user_input::QuestionView;
use crate::user_input::RequestUserInputAnswer;
use crate::user_input::RequestUserInputQuestion;
use crate::user_input::RequestUserInputQuestionOption;
use crate::user_input::RequestUserInputResponse;
use crate::user_input::REQUEST_USER_INPUT_NOTE_PREFIX;

verus! {

// ---------------------------------------------------------------------------------------------
// Fields
// ---------------------------------------------------------------------------------------------

/// One of the values that a field may take.
#[derive(Debug, PartialEq, Eq)]
pub struct EnumChoice {
    /// The value.
    pub value: JsonValue,
    /// Its name for the user.
    pub label: String,
}

/// What a field may hold.
#[derive(Debug, PartialEq, Eq)]
pub enum FieldKind {
    /// A text.
    Text {
        /// The least number of characters.
        min_length: Option<usize>,
        /// The greatest number of characters.
        max_length: Option<usize>,
        /// A regular expression that the text has to match.
        pattern: Option<String>,
        /// The name of a format.
        format: Option<String>,
    },
    /// A number.
    Number {
        /// Whether the number has to be whole.
        integer: bool,
        /// The least number.
        minimum: Option<Double>,
        /// The greatest number.
        maximum: Option<Double>,
    },
    /// Yes or no.
    Boolean,
    /// One of some values.
    SingleSelectEnum {
        /// The values.
        choices: Vec<EnumChoice>,
    },
    /// Some of some values.
    MultiSelectEnum {
        /// The values.
        choices: Vec<EnumChoice>,
        /// The least number of values.
        min_items: Option<usize>,
        /// The greatest number of values.
        max_items: Option<usize>,
    },
}

/// A value that a field may take, with texts as characters.
pub struct ChoiceView {
    /// The value.
    pub value: JsonView,
    /// Its name for the user.
    pub label: Seq<char>,
}

/// What a field may hold, with texts as characters.
#[verifier::ext_equal]
pub enum FieldKindView {
    /// A text.
    Text {
        /// The least number of characters.
        min_length: Option<usize>,
        /// The greatest number of characters.
        max_length: Option<usize>,
        /// A regular expression that the text has to match.
        pattern: Option<Seq<char>>,
        /// The name of a format.
        format: Option<Seq<char>>,
    },
    /// A number.
    Number {
        /// Whether the number has to be whole.
        integer: bool,
        /// The least number.
        minimum: Option<DoubleView>,
        /// The greatest number.
        maximum: Option<DoubleView>,
    },
    /// Yes or no.
    Boolean,
    /// One of some values.
    SingleSelectEnum {
        /// The values.
        choices: Seq<ChoiceView>,
    },
    /// Some of some values.
    MultiSelectEnum {
        /// The values.
        choices: Seq<ChoiceView>,
        /// The least number of values.
        min_items: Option<usize>,
        /// The greatest number of values.
        max_items: Option<usize>,
    },
}

impl View for EnumChoice {
    type V = ChoiceView;

    open spec fn view(&self) -> ChoiceView {
        ChoiceView { value: self.value@, label: self.label@ }
    }
}

/// Values that a field may take, with texts as characters.
pub open spec fn choice_views(choices: Seq<EnumChoice>) -> Seq<ChoiceView> {
    Seq::new(choices.len(), |i: int| choices[i]@)
}

impl View for FieldKind {
    type V = FieldKindView;

    open spec fn view(&self) -> FieldKindView {
        match *self {
            FieldKind::Text { min_length, max_length, pattern, format } => FieldKindView::Text {
                min_length,
                max_length,
                pattern: opt_text(pattern),
                format: opt_text(format),
            },
            FieldKind::Number { integer, minimum, maximum } => FieldKindView::Number {
                integer,
                minimum: opt_double(minimum),
                maximum: opt_double(maximum),
            },
            FieldKind::Boolean => FieldKindView::Boolean,
            FieldKind::SingleSelectEnum { choices } => FieldKindView::SingleSelectEnum {
                choices: choice_views(choices@),
            },
            FieldKind::MultiSelectEnum { choices, min_items, max_items } =>
                FieldKindView::MultiSelectEnum {
                choices: choice_views(choices@),
                min_items,
                max_items,
            },
        }
    }
}

// ---------------------------------------------------------------------------------------------
// Values and their names
// ---------------------------------------------------------------------------------------------

/// Whether a value is a text, a number, or `true` or `false`.
pub open spec fn supported(value: JsonView) -> bool {
    value is Text || value is Number || value is Bool
}

/// A value as the user reads it: a text without quotation marks, anything else in its notation.
pub open spec fn primitive_text(value: JsonView) -> Seq<char> {
    match value {
        JsonView::Text(text) => text,
        _ => json_text(value),
    }
}

/// Whether a value is one that a choice can stand for.
pub fn is_supported_primitive(value: &JsonValue) -> (is_primitive: bool)
    ensures
        is_primitive == supported(value@),
{
    value.is_primitive()
}

/// A value as the user reads it.
pub fn render_json_primitive(value: &JsonValue) -> (text: String)
    ensures
        text@ == primitive_text(value@),
{
    match value {
        JsonValue::Text(text) => text.clone(),
        _ => value.to_text(),
    }
}

/// A text without the white space around it, where that leaves anything.
pub open spec fn caption(value: Option<JsonView>) -> Option<Seq<char>> {
    match json_text_of(value) {
        Some(text) => if is_blank(text) {
            None
        } else {
            Some(trim(text))
        },
        None => None,
    }
}

/// A text without the white space around it, where that leaves anything.
fn read_caption(value: Option<&JsonValue>) -> (text: Option<String>)
    ensures
        opt_text(text) == caption(opt_json(value)),
{
    match value {
        Some(JsonValue::Text(text)) => if blank(text.as_str()) {
            None
        } else {
            Some(trimmed(text.as_str()))
        },
        _ => None,
    }
}

/// A list of choices, where there is any.
pub open spec fn unless_empty(choices: Seq<ChoiceView>) -> Option<Seq<ChoiceView>> {
    if choices.len() == 0 {
        None
    } else {
        Some(choices)
    }
}

/// The view of optional choices.
pub open spec fn opt_choices(choices: Option<Vec<EnumChoice>>) -> Option<Seq<ChoiceView>> {
    match choices {
        Some(choices) => Some(choice_views(choices@)),
        None => None,
    }
}

/// The choices of a list of values: those of a supported kind, under their own names.
pub open spec fn listed_choices(values: Seq<JsonView>) -> Seq<ChoiceView>
    decreases values.len(),
{
    if values.len() == 0 {
        Seq::empty()
    } else if supported(values.last()) {
        listed_choices(values.drop_last()).push(
            ChoiceView { value: values.last(), label: primitive_text(values.last()) },
        )
    } else {
        listed_choices(values.drop_last())
    }
}

/// The choices of an `enum`.
pub open spec fn enum_choices(schema: Seq<(Seq<char>, JsonView)>) -> Option<Seq<ChoiceView>> {
    match member(schema, "enum"@) {
        Some(JsonView::Array(values)) => unless_empty(listed_choices(values)),
        _ => None,
    }
}

/// The choice of an entry with a constant, under its title where it has one.
pub open spec fn const_choice(entry: JsonView) -> Option<ChoiceView> {
    match json_get(entry, "const"@) {
        Some(value) => if supported(value) {
            Some(
                ChoiceView {
                    value,
                    label: match caption(json_get(entry, "title"@)) {
                        Some(title) => title,
                        None => primitive_text(value),
                    },
                },
            )
        } else {
            None
        },
        None => None,
    }
}

/// The choices of entries with constants.
pub open spec fn const_choices(entries: Seq<JsonView>) -> Seq<ChoiceView>
    decreases entries.len(),
{
    if entries.len() == 0 {
        Seq::empty()
    } else {
        match const_choice(entries.last()) {
            Some(choice) => const_choices(entries.drop_last()).push(choice),
            None => const_choices(entries.drop_last()),
        }
    }
}

/// The choices of a `oneOf` or `anyOf`.
pub open spec fn union_choices(value: Option<JsonView>) -> Option<Seq<ChoiceView>> {
    match value {
        Some(JsonView::Array(entries)) => unless_empty(const_choices(entries)),
        _ => None,
    }
}

/// Adds a choice at the end.
fn push_choice(choices: &mut Vec<EnumChoice>, choice: EnumChoice)
    ensures
        choice_views(final(choices)@) == choice_views(old(choices)@).push(choice@),
{
    let ghost before = choice_views(choices@);
    choices.push(choice);
    assert(choice_views(choices@) =~= before.push(choice@));
}

/// The choices of an `enum`.
pub fn parse_choices_from_enum(schema: &Vec<(String, JsonValue)>) -> (choices: Option<
    Vec<EnumChoice>,
>)
    ensures
        opt_choices(choices) == enum_choices(json_members(schema@)),
{
    let values = match find_member(schema, "enum") {
        Some(value) => match value.as_array() {
            Some(values) => values,
            None => return None,
        },
        None => return None,
    };
    let ghost all = json_items(values@);
    let mut choices: Vec<EnumChoice> = Vec::new();
    let mut at: usize = 0;
    proof {
        assert(choice_views(choices@) =~= listed_choices(all.take(0)));
    }
    while at < values.len()
        invariant
            all == json_items(values@),
            at <= values@.len(),
            choice_views(choices@) == listed_choices(all.take(at as int)),
        decreases values@.len() - at,
    {
        proof {
            assert(all.take(at + 1).drop_last() =~= all.take(at as int));
            assert(all.take(at + 1).last() == values@[at as int]@);
        }
        if is_supported_primitive(&values[at]) {
            let label = render_json_primitive(&values[at]);
            let value = values[at].copy();
            push_choice(&mut choices, EnumChoice { value, label });
        }
        at += 1;
    }
    assert(all.take(at as int) =~= all);
    if choices.len() == 0 {
        None
    } else {
        Some(choices)
    }
}

/// The choices of a `oneOf` or `anyOf`.
pub fn parse_choices_from_const_union(value: Option<&JsonValue>) -> (choices: Option<
    Vec<EnumChoice>,
>)
    ensures
        opt_choices(choices) == union_choices(opt_json(value)),
{
    let entries = match value {
        Some(value) => match value.as_array() {
            Some(entries) => entries,
            None => return None,
        },
        None => return None,
    };
    let ghost all = json_items(entries@);
    let mut choices: Vec<EnumChoice> = Vec::new();
    let mut at: usize = 0;
    proof {
        assert(choice_views(choices@) =~= const_choices(all.take(0)));
    }
    while at < entries.len()
        invariant
            all == json_items(entries@),
            at <= entries@.len(),
            choice_views(choices@) == const_choices(all.take(at as int)),
        decreases entries@.len() - at,
    {
        proof {
            assert(all.take(at + 1).drop_last() =~= all.take(at as int));
            assert(all.take(at + 1).last() == entries@[at as int]@);
        }
        if let Some(value) = entries[at].get("const") {
            if is_supported_primitive(value) {
                let label = match read_caption(entries[at].get("title")) {
                    Some(title) => title,
                    None => render_json_primitive(value),
                };
                push_choice(&mut choices, EnumChoice { value: value.copy(), label });
            }
        }
        at += 1;
    }
    assert(all.take(at as int) =~= all);
    if choices.len() == 0 {
        None
    } else {
        Some(choices)
    }
}

/// The bound that a schema sets under a name.
pub open spec fn bound(schema: Seq<(Seq<char>, JsonView)>, name: Seq<char>) -> Option<usize> {
    match json_nat_of(member(schema, name)) {
        Some(number) => Some(number as usize),
        None => None,
    }
}

/// The bound that a schema sets under a name.
fn read_bound(schema: &Vec<(String, JsonValue)>, name: &str) -> (limit: Option<usize>)
    ensures
        limit == bound(json_members(schema@), name@),
{
    match find_member(schema, name) {
        Some(JsonValue::Number(number)) => match number.kind {
            NumberKind::PosInt(limit) => Some(limit as usize),
            _ => None,
        },
        _ => None,
    }
}

/// The text that a schema holds under a name.
fn read_text(schema: &Vec<(String, JsonValue)>, name: &str) -> (text: Option<String>)
    ensures
        opt_text(text) == json_text_of(member(json_members(schema@), name@)),
{
    match find_member(schema, name) {
        Some(JsonValue::Text(text)) => Some(text.clone()),
        _ => None,
    }
}

/// The number that a schema holds under a name.
fn read_double(schema: &Vec<(String, JsonValue)>, name: &str) -> (double: Option<Double>)
    ensures
        opt_double(double) == json_double_of(member(json_members(schema@), name@)),
{
    match find_member(schema, name) {
        Some(JsonValue::Number(number)) => match &number.double {
            Some(double) => Some(double.copy()),
            None => None,
        },
        _ => None,
    }
}

/// What the schema of a property lets it hold; none where it is not understood.
pub open spec fn field_kind(schema: Seq<(Seq<char>, JsonView)>) -> Option<FieldKindView> {
    let field_type = json_text_of(member(schema, "type"@));
    if field_type == Some("string"@) {
        if enum_choices(schema) is Some {
            Some(FieldKindView::SingleSelectEnum { choices: enum_choices(schema)->0 })
        } else if union_choices(member(schema, "oneOf"@)) is Some {
            Some(
                FieldKindView::SingleSelectEnum {
                    choices: union_choices(member(schema, "oneOf"@))->0,
                },
            )
        } else {
            Some(
                FieldKindView::Text {
                    min_length: bound(schema, "minLength"@),
                    max_length: bound(schema, "maxLength"@),
                    pattern: json_text_of(member(schema, "pattern"@)),
                    format: json_text_of(member(schema, "format"@)),
                },
            )
        }
    } else if field_type == Some("number"@) || field_type == Some("integer"@) {
        Some(
            FieldKindView::Number {
                integer: field_type == Some("integer"@),
                minimum: json_double_of(member(schema, "minimum"@)),
                maximum: json_double_of(member(schema, "maximum"@)),
            },
        )
    } else if field_type == Some("boolean"@) {
        Some(FieldKindView::Boolean)
    } else if field_type == Some("array"@) {
        match member(schema, "items"@) {
            Some(JsonView::Object(items)) => {
                let choices = if enum_choices(items) is Some {
                    enum_choices(items)
                } else {
                    union_choices(member(items, "anyOf"@))
                };
                match choices {
                    Some(choices) => Some(
                        FieldKindView::MultiSelectEnum {
                            choices,
                            min_items: bound(schema, "minItems"@),
                            max_items: bound(schema, "maxItems"@),
                        },
                    ),
                    None => None,
                }
            },
            _ => None,
        }
    } else {
        None
    }
}

/// The view of an optional kind.
pub open spec fn opt_kind(kind: Option<FieldKind>) -> Option<FieldKindView> {
    match kind {
        Some(kind) => Some(kind@),
        None => None,
    }
}

/// What the schema of a property lets it hold; none where it is not understood.
pub fn parse_field_kind(schema: &Vec<(String, JsonValue)>) -> (kind: Option<FieldKind>)
    ensures
        opt_kind(kind) == field_kind(json_members(schema@)),
{
    let field_type = match read_text(schema, "type") {
        Some(field_type) => field_type,
        None => return None,
    };
    proof {
        reveal_strlit("string");
        reveal_strlit("number");
        reveal_strlit("integer");
        reveal_strlit("boolean");
        reveal_strlit("array");
    }
    if same_text(field_type.as_str(), "string") {
        if let Some(choices) = parse_choices_from_enum(schema) {
            return Some(FieldKind::SingleSelectEnum { choices });
        }
        if let Some(choices) = parse_choices_from_const_union(
            find_member(schema, "oneOf"),
        ) {
            return Some(FieldKind::SingleSelectEnum { choices });
        }
        return Some(
            FieldKind::Text {
                min_length: read_bound(schema, "minLength"),
                max_length: read_bound(schema, "maxLength"),
                pattern: read_text(schema, "pattern"),
                format: read_text(schema, "format"),
            },
        );
    }
    let integer = same_text(field_type.as_str(), "integer");
    if integer || same_text(field_type.as_str(), "number") {
        return Some(
            FieldKind::Number {
                integer,
                minimum: read_double(schema, "minimum"),
                maximum: read_double(schema, "maximum"),
            },
        );
    }
    if same_text(field_type.as_str(), "boolean") {
        return Some(FieldKind::Boolean);
    }
    if same_text(field_type.as_str(), "array") {
        if let Some(value) = find_member(schema, "items") {
            if let Some(items) = value.as_object() {
                let choices = match parse_choices_from_enum(items) {
                    Some(choices) => Some(choices),
                    None => parse_choices_from_const_union(
                        find_member(items, "anyOf"),
                    ),
                };
                if let Some(choices) = choices {
                    return Some(
                        FieldKind::MultiSelectEnum {
                            choices,
                            min_items: read_bound(schema, "minItems"),
                            max_items: read_bound(schema, "maxItems"),
                        },
                    );
                }
            }
        }
    }
    None
}

// ---------------------------------------------------------------------------------------------
// Names of questions
// ---------------------------------------------------------------------------------------------

/// What the name of each field's question begins with.
pub const MCP_ELICITATION_FIELD_ID_PREFIX: &'static str = "mcp_elicitation_field";

/// A name with everything but ASCII letters and digits replaced by `_`.
pub open spec fn plain_name(name: Seq<char>) -> Seq<char> {
    Seq::new(
        name.len(),
        |i: int|
            if is_alphanumeric(name[i]) {
                name[i]
            } else {
                '_'
            },
    )
}

/// The name that a property's question has unless another question has it already.
pub open spec fn base_id(name: Seq<char>, index: nat) -> Seq<char> {
    MCP_ELICITATION_FIELD_ID_PREFIX@ + seq!['_'] + decimal(index) + seq!['_'] + plain_name(name)
}

/// The names that are tried for a question, in order: the base, and the base with a number.
pub open spec fn candidate_id(base: Seq<char>, number: nat) -> Seq<char> {
    if number == 0 {
        base
    } else {
        base + seq!['_'] + decimal(number)
    }
}

/// Whether a number is the first whose candidate is not used.
pub open spec fn first_free(base: Seq<char>, used: Seq<Seq<char>>, number: nat) -> bool {
    &&& !used.contains(candidate_id(base, number))
    &&& forall|n: nat| n < number ==> used.contains(#[trigger] candidate_id(base, n))
}

/// The name of a property's question: the first candidate that is not used.
pub open spec fn question_id(name: Seq<char>, index: nat, used: Seq<Seq<char>>) -> Seq<char> {
    candidate_id(
        base_id(name, index),
        choose|number: nat| first_free(base_id(name, index), used, number),
    )
}

/// Different numbers give different candidates.
proof fn lemma_candidates_differ(base: Seq<char>, left: nat, right: nat)
    requires
        left != right,
    ensures
        candidate_id(base, left) != candidate_id(base, right),
{
    lemma_decimal_digits(left);
    lemma_decimal_digits(right);
    let first = candidate_id(base, left);
    let second = candidate_id(base, right);
    if left == 0 || right == 0 {
        assert(first.len() != second.len());
    } else if first == second {
        let cut = base.len() + 1;
        assert(first.skip(cut as int) =~= decimal(left));
        assert(second.skip(cut as int) =~= decimal(right));
        lemma_decimal_injective(left, right);
    }
}

/// As many candidates as are used, the list of used names has entries.
proof fn lemma_candidates_counted(base: Seq<char>, used: Seq<Seq<char>>, count: nat)
    requires
        forall|n: nat| n < count ==> used.contains(#[trigger] candidate_id(base, n)),
    ensures
        count <= used.len(),
{
    let tried = Seq::new(count, |i: int| candidate_id(base, i as nat));
    assert(tried.no_duplicates()) by {
        assert forall|i: int, j: int| 0 <= i < tried.len() && 0 <= j < tried.len() && i
            != j implies tried[i] != tried[j] by {
            lemma_candidates_differ(base, i as nat, j as nat);
        }
    }
    tried.unique_seq_to_set();
    used.lemma_cardinality_of_set();
    assert forall|id: Seq<char>| #[trigger] tried.to_set().contains(id) implies used.to_set().contains(
        id,
    ) by {
        let i = choose|i: int| 0 <= i < tried.len() && tried[i] == id;
        assert(used.contains(candidate_id(base, i as nat)));
    }
    vstd::set_lib::lemma_len_subset(tried.to_set(), used.to_set());
}

/// There is one first candidate that is not used, and only one.
proof fn lemma_first_free(base: Seq<char>, used: Seq<Seq<char>>, number: nat)
    requires
        first_free(base, used, number),
    ensures
        (choose|n: nat| first_free(base, used, n)) == number,
{
    let chosen = choose|n: nat| first_free(base, used, n);
    assert(first_free(base, used, chosen));
    if chosen < number {
        assert(used.contains(candidate_id(base, chosen)));
    } else if number < chosen {
        assert(used.contains(candidate_id(base, number)));
    }
}

/// A name with everything but ASCII letters and digits replaced by `_`.
fn plain(name: &str) -> (plain: String)
    ensures
        plain@ == plain_name(name@),
{
    let mut plain = String::new();
    for ch in it: name.chars()
        invariant
            it.seq() == name@,
            plain@ == plain_name(name@).take(it.index()),
    {
        if is_ascii_alphanumeric(ch) {
            plain.push(ch);
        } else {
            plain.push('_');
        }
        assert(plain@ =~= plain_name(name@).take(it.index() + 1));
    }
    assert(plain@ =~= plain_name(name@));
    plain
}

/// The name of a property's question, which is marked as used.
pub fn build_question_id(property_name: &str, index: usize, used_ids: &mut Vec<String>) -> (id:
    String)
    ensures
        id@ == question_id(property_name@, index as nat, texts(old(used_ids)@)),
        texts(final(used_ids)@) == texts(old(used_ids)@).push(id@),
        !texts(old(used_ids)@).contains(id@),
{
    let ghost used = texts(used_ids@);
    let mut base = MCP_ELICITATION_FIELD_ID_PREFIX.to_owned();
    base.push('_');
    base.append(decimal_usize(index).as_str());
    base.push('_');
    base.append(plain(property_name).as_str());
    assert(base@ =~= base_id(property_name@, index as nat));
    let mut candidate = base.clone();
    let mut suffix: usize = 0;
    while holds_text(used_ids, candidate.as_str())
        invariant
            used == texts(used_ids@),
            candidate@ == candidate_id(base@, suffix as nat),
            forall|n: nat| n < suffix ==> used.contains(#[trigger] candidate_id(base@, n)),
            suffix <= used_ids.len(),
        decreases used_ids@.len() - suffix,
    {
        proof {
            assert forall|n: nat| n < suffix + 1 implies used.contains(
                #[trigger] candidate_id(base@, n),
            ) by {
                if n == suffix {
                }
            }
            lemma_candidates_counted(base@, used, (suffix + 1) as nat);
            assert(suffix + 1 <= used_ids.len());
        }
        suffix += 1;
        candidate = base.clone();
        candidate.push('_');
        candidate.append(decimal_usize(suffix).as_str());
        assert(candidate@ =~= candidate_id(base@, suffix as nat));
    }
    proof {
        assert(first_free(base@, used, suffix as nat));
        lemma_first_free(base@, used, suffix as nat);
    }
    push_text(used_ids, candidate.clone());
    candidate
}

// ---------------------------------------------------------------------------------------------
// Schemas
// ---------------------------------------------------------------------------------------------

/// A field of a form.
#[derive(Debug, PartialEq, Eq)]
pub struct FieldSpec {
    /// The property that the field fills in.
    pub property_name: String,
    /// The name of its question.
    pub question_id: String,
    /// Its title.
    pub header: String,
    /// What it is for.
    pub description: Option<String>,
    /// Whether it has to be filled in.
    pub required: bool,
    /// The value that it has where it is left blank.
    pub default: Option<JsonValue>,
    /// What it may hold.
    pub kind: FieldKind,
}

/// The fields of a form.
#[derive(Debug, PartialEq, Eq)]
pub struct ParsedSchema {
    /// The fields, in the order of the properties.
    pub fields: Vec<FieldSpec>,
}

/// A field, with texts as characters.
#[verifier::ext_equal]
pub struct FieldView {
    /// The property that the field fills in.
    pub property_name: Seq<char>,
    /// The name of its question.
    pub question_id: Seq<char>,
    /// Its title.
    pub header: Seq<char>,
    /// What it is for.
    pub description: Option<Seq<char>>,
    /// Whether it has to be filled in.
    pub required: bool,
    /// The value that it has where it is left blank.
    pub default: Option<JsonView>,
    /// What it may hold.
    pub kind: FieldKindView,
}

impl View for FieldSpec {
    type V = FieldView;

    open spec fn view(&self) -> FieldView {
        FieldView {
            property_name: self.property_name@,
            question_id: self.question_id@,
            header: self.header@,
            description: opt_text(self.description),
            required: self.required,
            default: opt_json_owned(self.default),
            kind: self.kind@,
        }
    }
}

/// Fields, with texts as characters.
pub open spec fn field_views(fields: Seq<FieldSpec>) -> Seq<FieldView> {
    Seq::new(fields.len(), |i: int| fields[i]@)
}

/// The names of the questions of some fields.
pub open spec fn ids(fields: Seq<FieldView>) -> Seq<Seq<char>> {
    Seq::new(fields.len(), |i: int| fields[i].question_id)
}

/// The view of an optional field.
pub open spec fn opt_field(field: Option<FieldSpec>) -> Option<FieldView> {
    match field {
        Some(field) => Some(field@),
        None => None,
    }
}

/// The field of a property; none where its schema is not understood.
pub open spec fn field_of(
    name: Seq<char>,
    schema: JsonView,
    required: bool,
    index: nat,
    used: Seq<Seq<char>>,
) -> Option<FieldView> {
    match schema {
        JsonView::Object(members) => match field_kind(members) {
            Some(kind) => Some(
                FieldView {
                    property_name: name,
                    question_id: question_id(name, index, used),
                    header: match caption(member(members, "title"@)) {
                        Some(title) => title,
                        None => name,
                    },
                    description: caption(member(members, "description"@)),
                    required,
                    default: member(members, "default"@),
                    kind,
                },
            ),
            None => None,
        },
        _ => None,
    }
}

impl FieldSpec {
    /// The field of a property; none where its schema is not understood. The name of its question
    /// is marked as used.
    pub fn from_property(
        property_name: &str,
        schema: &JsonValue,
        required: bool,
        index: usize,
        used_ids: &mut Vec<String>,
    ) -> (field: Option<FieldSpec>)
        ensures
            opt_field(field) == field_of(
                property_name@,
                schema@,
                required,
                index as nat,
                texts(old(used_ids)@),
            ),
            match field {
                Some(field) => {
                    &&& texts(final(used_ids)@) == texts(old(used_ids)@).push(field.question_id@)
                    &&& !texts(old(used_ids)@).contains(field.question_id@)
                },
                None => *final(used_ids) == *old(used_ids),
            },
    {
        let members = match schema.as_object() {
            Some(members) => members,
            None => return None,
        };
        let kind = match parse_field_kind(members) {
            Some(kind) => kind,
            None => return None,
        };
        let header = match read_caption(find_member(members, "title")) {
            Some(title) => title,
            None => property_name.to_owned(),
        };
        let description = read_caption(find_member(members, "description"));
        let default = match find_member(members, "default") {
            Some(value) => Some(value.copy()),
            None => None,
        };
        let question_id = build_question_id(property_name, index, used_ids);
        Some(
            FieldSpec {
                property_name: property_name.to_owned(),
                question_id,
                header,
                description,
                required,
                default,
                kind,
            },
        )
    }
}

/// Whether a schema names a property as one that has to be filled in.
pub open spec fn is_required(schema: JsonView, name: Seq<char>) -> bool {
    match json_get(schema, "required"@) {
        Some(JsonView::Array(items)) => items.contains(JsonView::Text(name)),
        _ => false,
    }
}

/// Whether a schema names a property as one that has to be filled in.
pub fn requires_property(schema: &JsonValue, name: &str) -> (required: bool)
    ensures
        required == is_required(schema@, name@),
{
    let items = match schema.get("required") {
        Some(value) => match value.as_array() {
            Some(items) => items,
            None => return false,
        },
        None => return false,
    };
    let ghost all = json_items(items@);
    let mut at: usize = 0;
    while at < items.len()
        invariant
            all == json_items(items@),
            is_required(schema@, name@) == all.contains(JsonView::Text(name@)),
            at <= items@.len(),
            forall|i: int| 0 <= i < at ==> all[i] != JsonView::Text(name@),
        decreases items@.len() - at,
    {
        assert(all[at as int] == items@[at as int]@);
        if let Some(text) = items[at].as_str() {
            if same_text(text.as_str(), name) {
                assert(all[at as int] == JsonView::Text(name@));
                return true;
            }
        }
        at += 1;
    }
    false
}

/// The fields of the first so many properties of a schema.
pub open spec fn fields_among(
    schema: JsonView,
    properties: Seq<(Seq<char>, JsonView)>,
    count: nat,
) -> Seq<FieldView>
    decreases count,
{
    if count == 0 {
        Seq::empty()
    } else {
        let index = (count - 1) as nat;
        let earlier = fields_among(schema, properties, index);
        let (name, property) = properties[index as int];
        match field_of(name, property, is_required(schema, name), index, ids(earlier)) {
            Some(field) => earlier.push(field),
            None => earlier,
        }
    }
}

/// The fields of a schema; none where it lists no properties.
pub open spec fn schema_fields(schema: JsonView) -> Option<Seq<FieldView>> {
    match json_get(schema, "properties"@) {
        Some(JsonView::Object(properties)) => Some(
            fields_among(schema, properties, properties.len()),
        ),
        _ => None,
    }
}

impl ParsedSchema {
    /// The fields of a schema; none where it lists no properties.
    pub fn from_requested_schema(requested_schema: &JsonValue) -> (parsed: Option<ParsedSchema>)
        ensures
            match parsed {
                Some(parsed) => schema_fields(requested_schema@) == Some(
                    field_views(parsed.fields@),
                ),
                None => schema_fields(requested_schema@) is None,
            },
    {
        let properties = match requested_schema.get("properties") {
            Some(value) => match value.as_object() {
                Some(properties) => properties,
                None => return None,
            },
            None => return None,
        };
        let ghost all = json_members(properties@);
        let mut used_ids: Vec<String> = Vec::new();
        let mut fields: Vec<FieldSpec> = Vec::new();
        let mut index: usize = 0;
        proof {
            assert(field_views(fields@) =~= Seq::<FieldView>::empty());
            assert(texts(used_ids@) =~= ids(field_views(fields@)));
        }
        while index < properties.len()
            invariant
                all == json_members(properties@),
                index <= properties@.len(),
                texts(used_ids@) == ids(field_views(fields@)),
                field_views(fields@) == fields_among(requested_schema@, all, index as nat),
            decreases properties@.len() - index,
        {
            let ghost before = field_views(fields@);
            let name = properties[index].0.as_str();
            let required = requires_property(requested_schema, name);
            let field = FieldSpec::from_property(
                name,
                &properties[index].1,
                required,
                index,
                &mut used_ids,
            );
            if let Some(field) = field {
                fields.push(field);
                proof {
                    assert(field_views(fields@) =~= before.push(field@));
                    assert(ids(field_views(fields@)) =~= ids(before).push(field.question_id@));
                }
            }
            index += 1;
        }
        Some(ParsedSchema { fields })
    }
}

/// The questions of a form all have different names, and every field fills in a property that the
/// schema lists.
pub proof fn lemma_fields(schema: JsonView, properties: Seq<(Seq<char>, JsonView)>, count: nat)
    requires
        count <= properties.len(),
    ensures
        ids(fields_among(schema, properties, count)).no_duplicates(),
        forall|i: int|
            0 <= i < fields_among(schema, properties, count).len() ==> exists|j: int|
                0 <= j < count && #[trigger] properties[j].0 == (#[trigger] fields_among(
                    schema,
                    properties,
                    count,
                )[i]).property_name,
    decreases count,
{
    if count > 0 {
        let index = (count - 1) as nat;
        lemma_fields(schema, properties, index);
        let earlier = fields_among(schema, properties, index);
        let all = fields_among(schema, properties, count);
        let (name, property) = properties[index as int];
        let used = ids(earlier);
        if let Some(field) = field_of(name, property, is_required(schema, name), index, used) {
            lemma_free_exists(base_id(name, index), used);
            assert(!used.contains(field.question_id));
            assert(ids(all) =~= used.push(field.question_id));
            assert forall|i: int| 0 <= i < all.len() implies exists|j: int|
                0 <= j < count && #[trigger] properties[j].0 == (#[trigger] all[i]).property_name by {
                if i < earlier.len() {
                    assert(all[i] == earlier[i]);
                    let j = choose|j: int|
                        0 <= j < index && #[trigger] properties[j].0 == earlier[i].property_name;
                    assert(properties[j].0 == all[i].property_name);
                } else {
                    assert(properties[index as int].0 == all[i].property_name);
                }
            }
        }
    }
}

/// The name of a field's question is none that another kind of question has: it goes on with `f`
/// where that of a decision goes on with `d`.
pub proof fn lemma_field_ids(schema: JsonView, properties: Seq<(Seq<char>, JsonView)>, count: nat)
    requires
        count <= properties.len(),
    ensures
        forall|i: int|
            0 <= i < fields_among(schema, properties, count).len() ==> {
                let id = (#[trigger] fields_among(schema, properties, count)[i]).question_id;
                id.len() > 16 && id[16] == 'f'
            },
    decreases count,
{
    if count > 0 {
        let index = (count - 1) as nat;
        lemma_field_ids(schema, properties, index);
        let earlier = fields_among(schema, properties, index);
        let all = fields_among(schema, properties, count);
        let (name, property) = properties[index as int];
        reveal_strlit("mcp_elicitation_field");
        let base = base_id(name, index);
        assert(base[16] == 'f');
        assert forall|i: int| 0 <= i < all.len() implies {
            let id = (#[trigger] all[i]).question_id;
            id.len() > 16 && id[16] == 'f'
        } by {
            if i < earlier.len() {
                assert(all[i] == earlier[i]);
            }
        }
    }
}

/// Some candidate is not used.
proof fn lemma_free_exists(base: Seq<char>, used: Seq<Seq<char>>)
    ensures
        exists|number: nat| first_free(base, used, number),
{
    if forall|number: nat| !first_free(base, used, number) {
        lemma_all_used(base, used, used.len() + 1);
        lemma_candidates_counted(base, used, used.len() + 1);
    }
}

/// Where no candidate is the first that is not used, all are used.
proof fn lemma_all_used(base: Seq<char>, used: Seq<Seq<char>>, count: nat)
    requires
        forall|number: nat| !first_free(base, used, number),
    ensures
        forall|n: nat| n < count ==> used.contains(#[trigger] candidate_id(base, n)),
    decreases count,
{
    if count > 0 {
        let last = (count - 1) as nat;
        lemma_all_used(base, used, last);
        assert(!first_free(base, used, last));
    }
}

// ---------------------------------------------------------------------------------------------
// Questions
// ---------------------------------------------------------------------------------------------

/// A line with a number in it, where there is a number.
pub open spec fn bound_line(before: Seq<char>, bound: Option<usize>, after: Seq<char>) -> Seq<
    Seq<char>,
> {
    match bound {
        Some(bound) => seq![before + decimal(bound as nat) + after],
        None => Seq::empty(),
    }
}

/// A line with a text in it, where there is a text.
pub open spec fn text_line(before: Seq<char>, text: Option<Seq<char>>, after: Seq<char>) -> Seq<
    Seq<char>,
> {
    match text {
        Some(text) => seq![before + text + after],
        None => Seq::empty(),
    }
}

/// The notation of an optional number.
pub open spec fn double_text(double: Option<DoubleView>) -> Option<Seq<char>> {
    match double {
        Some(double) => Some(double.text),
        None => None,
    }
}

/// The names of some choices.
pub open spec fn labels(choices: Seq<ChoiceView>) -> Seq<Seq<char>> {
    Seq::new(choices.len(), |i: int| choices[i].label)
}

/// What the user is told of what a field may hold.
pub open spec fn kind_lines(kind: FieldKindView) -> Seq<Seq<char>> {
    match kind {
        FieldKindView::Text { min_length, max_length, pattern, format } => seq!["Enter text."@] + (
        if format is Some {
            seq!["Use text in the requested format (for example: \"example\")."@]
        } else {
            Seq::empty()
        }) + bound_line("Use at least "@, min_length, " characters."@) + bound_line(
            "Use no more than "@,
            max_length,
            " characters."@,
        ) + text_line("Must follow this pattern: "@, pattern, "."@),
        FieldKindView::Number { integer, minimum, maximum } => seq![
            if integer {
                "Enter a whole number."@
            } else {
                "Enter a number."@
            },
        ] + text_line("Must be at least "@, double_text(minimum), "."@) + text_line(
            "Must be at most "@,
            double_text(maximum),
            "."@,
        ),
        FieldKindView::Boolean => seq!["Choose Yes or No below."@],
        FieldKindView::SingleSelectEnum { choices } => seq!["Choose from one option below."@],
        FieldKindView::MultiSelectEnum { choices, min_items, max_items } => seq![
            "Choose one or more options."@,
            "Enter multiple values separated by commas (for example: Red, Blue)."@,
            "Available options: "@ + join(labels(choices), ", "@) + "."@,
        ] + bound_line("Choose at least "@, min_items, "."@) + bound_line(
            "Choose no more than "@,
            max_items,
            "."@,
        ),
    }
}

/// The lines in which the user is asked for a field.
pub open spec fn prompt_lines(field: FieldView) -> Seq<Seq<char>> {
    text_line(Seq::empty(), field.description, Seq::empty()) + kind_lines(field.kind) + seq![
        if field.required {
            "This answer is required."@
        } else {
            "You can leave this blank."@
        },
        match field.default {
            Some(default) => "If left blank, default is "@ + primitive_text(default) + "."@,
            None => "No default value is set."@,
        },
        "Please enter a value for \""@ + field.header + "\"."@,
    ]
}

/// The text in which the user is asked for a field.
pub open spec fn prompt(field: FieldView) -> Seq<char> {
    join(prompt_lines(field), "\n"@)
}

/// Adds a line.
fn push_line(lines: &mut Vec<String>, line: &str)
    ensures
        texts(final(lines)@) == texts(old(lines)@) + seq![line@],
{
    push_text(lines, line.to_owned());
}

/// Adds a line with a number in it, where there is a number.
fn push_bound_line(lines: &mut Vec<String>, before: &str, bound: Option<usize>, after: &str)
    ensures
        texts(final(lines)@) == texts(old(lines)@) + bound_line(before@, bound, after@),
{
    match bound {
        Some(bound) => push_text(lines, plus3(before, decimal_usize(bound).as_str(), after)),
        None => {
            assert(texts(lines@) =~= texts(lines@) + Seq::<Seq<char>>::empty());
        },
    }
}

/// Adds a line with a text in it, where there is a text.
fn push_text_line(lines: &mut Vec<String>, before: &str, text: Option<&str>, after: &str)
    ensures
        texts(final(lines)@) == texts(old(lines)@) + text_line(before@, opt_str(text), after@),
{
    match text {
        Some(text) => push_text(lines, plus3(before, text, after)),
        None => {
            assert(texts(lines@) =~= texts(lines@) + Seq::<Seq<char>>::empty());
        },
    }
}

/// An optional text, borrowed.
fn borrowed(text: &Option<String>) -> (view: Option<&str>)
    ensures
        opt_str(view) == opt_text(*text),
{
    match text {
        Some(text) => Some(text.as_str()),
        None => None,
    }
}

/// The notation of an optional number.
fn notation(double: &Option<Double>) -> (view: Option<&str>)
    ensures
        opt_str(view) == double_text(opt_double(*double)),
{
    match double {
        Some(double) => Some(double.text.as_str()),
        None => None,
    }
}

/// The names of some choices.
fn choice_labels(choices: &Vec<EnumChoice>) -> (names: Vec<String>)
    ensures
        texts(names@) == labels(choice_views(choices@)),
{
    let mut names: Vec<String> = Vec::new();
    let mut at: usize = 0;
    let ghost all = labels(choice_views(choices@));
    assert(texts(names@) =~= all.take(0));
    while at < choices.len()
        invariant
            all == labels(choice_views(choices@)),
            at <= choices@.len(),
            texts(names@) == all.take(at as int),
        decreases choices@.len() - at,
    {
        push_text(&mut names, choices[at].label.clone());
        assert(all.take(at + 1) =~= all.take(at as int).push(choices@[at as int].label@));
        at += 1;
    }
    assert(all.take(at as int) =~= all);
    names
}

/// Adds what the user is told of what a field may hold.
fn push_kind_lines(lines: &mut Vec<String>, kind: &FieldKind)
    ensures
        texts(final(lines)@) == texts(old(lines)@) + kind_lines(kind@),
{
    let ghost before = texts(lines@);
    match kind {
        FieldKind::Text { min_length, max_length, pattern, format } => {
            push_line(lines, "Enter text.");
            if format.is_some() {
                push_line(lines, "Use text in the requested format (for example: \"example\").");
            } else {
                assert(texts(lines@) =~= texts(lines@) + Seq::<Seq<char>>::empty());
            }
            push_bound_line(lines, "Use at least ", *min_length, " characters.");
            push_bound_line(lines, "Use no more than ", *max_length, " characters.");
            push_text_line(lines, "Must follow this pattern: ", borrowed(pattern), ".");
        },
        FieldKind::Number { integer, minimum, maximum } => {
            if *integer {
                push_line(lines, "Enter a whole number.");
            } else {
                push_line(lines, "Enter a number.");
            }
            push_text_line(lines, "Must be at least ", notation(minimum), ".");
            push_text_line(lines, "Must be at most ", notation(maximum), ".");
        },
        FieldKind::Boolean => push_line(lines, "Choose Yes or No below."),
        FieldKind::SingleSelectEnum { .. } => push_line(lines, "Choose from one option below."),
        FieldKind::MultiSelectEnum { choices, min_items, max_items } => {
            push_line(lines, "Choose one or more options.");
            push_line(lines, "Enter multiple values separated by commas (for example: Red, Blue).");
            let values = joined(&choice_labels(choices), ", ");
            push_text(lines, plus3("Available options: ", values.as_str(), "."));
            push_bound_line(lines, "Choose at least ", *min_items, ".");
            push_bound_line(lines, "Choose no more than ", *max_items, ".");
        },
    }
    assert(texts(lines@) =~= before + kind_lines(kind@));
}

/// What a question offers for a field.
pub open spec fn field_options(kind: FieldKindView) -> Option<Seq<OptionView>> {
    match kind {
        FieldKindView::Boolean => Some(
            seq![
                OptionView { label: "Yes"@, description: "Choose Yes."@ },
                OptionView { label: "No"@, description: "Choose No."@ },
            ],
        ),
        FieldKindView::SingleSelectEnum { choices } => Some(choice_options(choices)),
        _ => None,
    }
}

/// Choices as a question offers them.
pub open spec fn choice_options(choices: Seq<ChoiceView>) -> Seq<OptionView> {
    Seq::new(
        choices.len(),
        |i: int|
            OptionView {
                label: choices[i].label,
                description: "Use value `"@ + primitive_text(choices[i].value) + "`."@,
            },
    )
}

/// The question for a field.
pub open spec fn field_question(field: FieldView) -> QuestionView {
    QuestionView {
        id: field.question_id,
        header: field.header,
        question: prompt(field),
        is_other: false,
        is_secret: false,
        options: field_options(field.kind),
    }
}

impl FieldSpec {
    /// The text in which the user is asked for the field.
    pub fn render_prompt(&self) -> (text: String)
        ensures
            text@ == prompt(self@),
    {
        let mut lines: Vec<String> = Vec::new();
        if let Some(description) = &self.description {
            push_text(&mut lines, description.clone());
        }
        proof {
            match &self.description {
                Some(description) => assert(Seq::<char>::empty() + description@ + Seq::<
                    char,
                >::empty() =~= description@),
                None => {},
            }
            assert(texts(lines@) =~= text_line(
                Seq::empty(),
                self@.description,
                Seq::empty(),
            ));
        }
        push_kind_lines(&mut lines, &self.kind);
        if self.required {
            push_line(&mut lines, "This answer is required.");
        } else {
            push_line(&mut lines, "You can leave this blank.");
        }
        match &self.default {
            Some(default) => {
                let value = render_json_primitive(default);
                push_text(&mut lines, plus3("If left blank, default is ", value.as_str(), "."));
            },
            None => push_line(&mut lines, "No default value is set."),
        }
        push_text(
            &mut lines,
            plus3("Please enter a value for \"", self.header.as_str(), "\"."),
        );
        assert(texts(lines@) =~= prompt_lines(self@));
        joined(&lines, "\n")
    }

    /// The question for the field.
    pub fn to_question(&self) -> (question: RequestUserInputQuestion)
        ensures
            question@ == field_question(self@),
    {
        let options = match &self.kind {
            FieldKind::Boolean => {
                let offered = vec![
                    question_option("Yes".to_owned(), "Choose Yes.".to_owned()),
                    question_option("No".to_owned(), "Choose No.".to_owned()),
                ];
                assert(option_views(offered@) =~= field_options(self@.kind)->0);
                Some(offered)
            },
            FieldKind::SingleSelectEnum { choices } => {
                let mut offered: Vec<RequestUserInputQuestionOption> = Vec::new();
                let ghost all = choice_options(choice_views(choices@));
                let mut at: usize = 0;
                assert(option_views(offered@) =~= all.take(0));
                while at < choices.len()
                    invariant
                        all == choice_options(choice_views(choices@)),
                        at <= choices@.len(),
                        option_views(offered@) == all.take(at as int),
                    decreases choices@.len() - at,
                {
                    let ghost before = option_views(offered@);
                    let value = render_json_primitive(&choices[at].value);
                    let option = question_option(
                        choices[at].label.clone(),
                        plus3("Use value `", value.as_str(), "`."),
                    );
                    offered.push(option);
                    assert(option_views(offered@) =~= before.push(option@));
                    assert(all.take(at + 1) =~= all.take(at as int).push(all[at as int]));
                    at += 1;
                }
                assert(all.take(at as int) =~= all);
                Some(offered)
            },
            _ => None,
        };
        RequestUserInputQuestion {
            id: self.question_id.clone(),
            header: self.header.clone(),
            question: self.render_prompt(),
            is_other: false,
            is_secret: false,
            options,
        }
    }
}

/// The questions for some fields.
pub open spec fn field_questions(fields: Seq<FieldView>) -> Seq<QuestionView> {
    Seq::new(fields.len(), |i: int| field_question(fields[i]))
}

/// The questions of a form.
pub open spec fn form_questions(schema: Option<JsonView>) -> Seq<QuestionView> {
    match schema {
        Some(schema) => match schema_fields(schema) {
            Some(fields) => field_questions(fields),
            None => Seq::empty(),
        },
        None => Seq::empty(),
    }
}

/// The questions of a form: one for each field, in order.
pub fn build_elicitation_content_questions(requested_schema: Option<&JsonValue>) -> (questions: Vec<
    RequestUserInputQuestion,
>)
    ensures
        question_views(questions@) == form_questions(opt_json(requested_schema)),
{
    let mut questions: Vec<RequestUserInputQuestion> = Vec::new();
    assert(question_views(questions@) =~= Seq::<QuestionView>::empty());
    let parsed = match requested_schema {
        Some(schema) => match ParsedSchema::from_requested_schema(schema) {
            Some(parsed) => parsed,
            None => return questions,
        },
        None => return questions,
    };
    let ghost all = field_questions(field_views(parsed.fields@));
    assert(all.take(0) =~= Seq::<QuestionView>::empty());
    let mut at: usize = 0;
    while at < parsed.fields.len()
        invariant
            all == field_questions(field_views(parsed.fields@)),
            at <= parsed.fields@.len(),
            question_views(questions@) == all.take(at as int),
        decreases parsed.fields@.len() - at,
    {
        let ghost before = question_views(questions@);
        let question = parsed.fields[at].to_question();
        questions.push(question);
        assert(question_views(questions@) =~= before.push(question@));
        assert(all.take(at + 1) =~= all.take(at as int).push(all[at as int]));
        at += 1;
    }
    assert(all.take(at as int) =~= all);
    questions
}

// ---------------------------------------------------------------------------------------------
// Answers
// ---------------------------------------------------------------------------------------------

/// The last note that is not blank.
pub open spec fn note_of(entries: Seq<Seq<char>>) -> Option<Seq<char>>
    decreases entries.len(),
{
    if entries.len() == 0 {
        None
    } else {
        match strip(entries.last(), REQUEST_USER_INPUT_NOTE_PREFIX@) {
            Some(note) => if is_blank(note) {
                note_of(entries.drop_last())
            } else {
                Some(trim(note))
            },
            None => note_of(entries.drop_last()),
        }
    }
}

/// The first entry that is no note and not blank.
pub open spec fn selection_of(entries: Seq<Seq<char>>) -> Option<Seq<char>>
    decreases entries.len(),
{
    if entries.len() == 0 {
        None
    } else if selection_of(entries.drop_last()) is Some {
        selection_of(entries.drop_last())
    } else if strip(entries.last(), REQUEST_USER_INPUT_NOTE_PREFIX@) is Some || is_blank(
        entries.last(),
    ) {
        None
    } else {
        Some(trim(entries.last()))
    }
}

/// What an answer says: its note, or else its selection.
pub open spec fn answer_text(entries: Seq<Seq<char>>) -> Option<Seq<char>> {
    if note_of(entries) is Some {
        note_of(entries)
    } else {
        selection_of(entries)
    }
}

/// The entries of an optional answer.
pub open spec fn answer_entries(answer: Option<&RequestUserInputAnswer>) -> Seq<Seq<char>> {
    match answer {
        Some(answer) => texts(answer.answers@),
        None => Seq::empty(),
    }
}

/// The selection and the note of an answer.
pub fn extract_selection_and_note(answer: Option<&RequestUserInputAnswer>) -> (found: (
    Option<String>,
    Option<String>,
))
    ensures
        opt_text(found.0) == selection_of(answer_entries(answer)),
        opt_text(found.1) == note_of(answer_entries(answer)),
{
    let answer = match answer {
        Some(answer) => answer,
        None => return (None, None),
    };
    let ghost all = texts(answer.answers@);
    let mut selection: Option<String> = None;
    let mut note: Option<String> = None;
    let mut at: usize = 0;
    while at < answer.answers.len()
        invariant
            all == texts(answer.answers@),
            at <= answer.answers@.len(),
            opt_text(selection) == selection_of(all.take(at as int)),
            opt_text(note) == note_of(all.take(at as int)),
        decreases answer.answers@.len() - at,
    {
        let entry = answer.answers[at].as_str();
        proof {
            assert(all.take(at + 1).drop_last() =~= all.take(at as int));
            assert(all.take(at + 1).last() == entry@);
        }
        match strip_prefix(entry, REQUEST_USER_INPUT_NOTE_PREFIX) {
            Some(value) => {
                if !blank(value.as_str()) {
                    note = Some(trimmed(value.as_str()));
                }
            },
            None => {
                if selection.is_none() && !blank(entry) {
                    selection = Some(trimmed(entry));
                }
            },
        }
        at += 1;
    }
    assert(all.take(at as int) =~= all);
    (selection, note)
}

/// What the answer to a question says.
pub fn answer_to(response: &RequestUserInputResponse, id: &str) -> (text: Option<String>)
    requires
        response.wf(),
    ensures
        opt_text(text) == answer_text(response.entries(id@)),
{
    let (selection, note) = extract_selection_and_note(response.answers.get(id));
    match note {
        Some(note) => Some(note),
        None => selection,
    }
}

// ---------------------------------------------------------------------------------------------
// Values
// ---------------------------------------------------------------------------------------------

/// Whether a text matches a regular expression; none where the expression is not one.
pub uninterp spec fn pattern_verdict(pattern: Seq<char>, text: Seq<char>) -> Option<bool>;

/// `regex_lite::Regex::new`, and `regex_lite::Regex::is_match` on what it gives: whether a
/// pattern is a regular expression, and whether a text matches it, rests on the two texts alone.
/// Nothing more is claimed of them.
#[verifier::external_body]
fn match_pattern(pattern: &str, text: &str) -> (verdict: Option<bool>)
    ensures
        verdict == pattern_verdict(pattern@, text@),
{
    match regex_lite::Regex::new(pattern) {
        Ok(regex) => Some(regex.is_match(text)),
        Err(_) => None,
    }
}

/// The view of what an answer comes to.
pub open spec fn outcome(value: Result<Option<JsonValue>, ()>) -> Result<Option<JsonView>, ()> {
    match value {
        Ok(value) => Ok(opt_json_owned(value)),
        Err(error) => Err(error),
    }
}

/// What a blank answer comes to: the default; without one, nothing, unless an answer is required.
pub open spec fn blank_value(default: Option<JsonView>, required: bool) -> Result<
    Option<JsonView>,
    (),
> {
    if default is Some {
        Ok(default)
    } else if required {
        Err(())
    } else {
        Ok(None)
    }
}

/// What a text comes to, given whether it matches the pattern: the text, where its length is in
/// bounds and it does not fail to match.
pub open spec fn text_value(
    raw: Seq<char>,
    min_length: Option<usize>,
    max_length: Option<usize>,
    verdict: Option<bool>,
) -> Result<Option<JsonView>, ()> {
    if (min_length matches Some(least) && raw.len() < least) || (max_length matches Some(most)
        && raw.len() > most) || verdict == Some(false) {
        Err(())
    } else {
        Ok(Some(JsonView::Text(raw)))
    }
}

/// Whether a number is in bounds.
pub open spec fn within(
    number: DoubleView,
    minimum: Option<DoubleView>,
    maximum: Option<DoubleView>,
) -> bool {
    &&& minimum matches Some(least) ==> number.order >= least.order
    &&& maximum matches Some(most) ==> number.order <= most.order
}

/// What a text comes to where a number is asked for: the number, where it is in bounds.
pub open spec fn number_value(
    raw: Seq<char>,
    integer: bool,
    minimum: Option<DoubleView>,
    maximum: Option<DoubleView>,
    as_integer: Option<DoubleView>,
    as_float: FloatReadingView,
) -> Result<Option<JsonView>, ()> {
    if integer {
        match signed_value(raw) {
            Ok(number) => if (minimum is None && maximum is None) || (as_integer matches Some(
                double,
            ) && within(double, minimum, maximum)) {
                Ok(Some(JsonView::Number(integer_number(number, as_integer))))
            } else {
                Err(())
            },
            Err(_) => Err(()),
        }
    } else {
        match as_float {
            FloatReadingView::Finite(json, double) => if within(double, minimum, maximum) {
                Ok(Some(JsonView::Number(float_number(json, double))))
            } else {
                Err(())
            },
            _ => Err(()),
        }
    }
}

/// What a text comes to where yes or no is asked for.
pub open spec fn boolean_value(raw: Seq<char>) -> Result<Option<JsonView>, ()> {
    let lowered = lower_text(raw);
    if lowered == "true"@ || lowered == "yes"@ || lowered == "y"@ || lowered == "1"@ {
        Ok(Some(JsonView::Bool(true)))
    } else if lowered == "false"@ || lowered == "no"@ || lowered == "n"@ || lowered == "0"@ {
        Ok(Some(JsonView::Bool(false)))
    } else {
        Err(())
    }
}

/// The answers that a yes-or-no question offers are understood.
pub proof fn lemma_offered_yes_or_no()
    ensures
        boolean_value("Yes"@) == Ok::<_, ()>(Some(JsonView::Bool(true))),
        boolean_value("No"@) == Ok::<_, ()>(Some(JsonView::Bool(false))),
{
    reveal_strlit("Yes");
    reveal_strlit("yes");
    reveal_strlit("No");
    reveal_strlit("no");
    reveal_strlit("true");
    reveal_strlit("y");
    reveal_strlit("1");
    assert(lower_text("Yes"@) =~= "yes"@);
    assert(lower_text("No"@) =~= "no"@);
    assert("no"@.len() == 2);
}

/// The value of the first choice that goes by a name: its own, or the value's notation.
pub open spec fn choice_value(choices: Seq<ChoiceView>, name: Seq<char>) -> Option<JsonView>
    decreases choices.len(),
{
    if choices.len() == 0 {
        None
    } else if choices[0].label == name || primitive_text(choices[0].value) == name {
        Some(choices[0].value)
    } else {
        choice_value(choices.drop_first(), name)
    }
}

/// What a text comes to where one choice is asked for.
pub open spec fn single_value(choices: Seq<ChoiceView>, raw: Seq<char>) -> Result<
    Option<JsonView>,
    (),
> {
    match choice_value(choices, raw) {
        Some(value) => Ok(Some(value)),
        None => Err(()),
    }
}

/// The parts that are not blank, without the white space around them.
pub open spec fn full_parts(parts: Seq<Seq<char>>) -> Seq<Seq<char>>
    decreases parts.len(),
{
    if parts.len() == 0 {
        Seq::empty()
    } else if is_blank(parts.last()) {
        full_parts(parts.drop_last())
    } else {
        full_parts(parts.drop_last()).push(trim(parts.last()))
    }
}

/// The names that a text lists between commas.
pub open spec fn listed_names(raw: Seq<char>) -> Seq<Seq<char>> {
    full_parts(split_where(raw, just(',')))
}

/// Whether each name is that of a choice.
pub open spec fn all_chosen(choices: Seq<ChoiceView>, names: Seq<Seq<char>>) -> bool {
    forall|i: int| 0 <= i < names.len() ==> choice_value(choices, #[trigger] names[i]) is Some
}

/// The values of the choices that go by some names.
pub open spec fn chosen_values(choices: Seq<ChoiceView>, names: Seq<Seq<char>>) -> Seq<JsonView> {
    Seq::new(names.len(), |i: int| choice_value(choices, names[i])->0)
}

/// What a text comes to where some choices are asked for.
pub open spec fn multi_value(
    choices: Seq<ChoiceView>,
    min_items: Option<usize>,
    max_items: Option<usize>,
    raw: Seq<char>,
) -> Result<Option<JsonView>, ()> {
    let names = listed_names(raw);
    if (min_items matches Some(least) && names.len() < least) || (max_items matches Some(most)
        && names.len() > most) || !all_chosen(choices, names) {
        Err(())
    } else {
        Ok(Some(JsonView::Array(chosen_values(choices, names))))
    }
}

/// What an answer to a field comes to.
pub open spec fn field_value(
    field: FieldView,
    raw: Option<Seq<char>>,
    as_integer: Option<DoubleView>,
    as_float: FloatReadingView,
) -> Result<Option<JsonView>, ()> {
    match raw {
        Some(raw) => match field.kind {
            FieldKindView::Text { min_length, max_length, pattern, format } => text_value(
                raw,
                min_length,
                max_length,
                match pattern {
                    Some(pattern) => pattern_verdict(pattern, raw),
                    None => None,
                },
            ),
            FieldKindView::Number { integer, minimum, maximum } => number_value(
                raw,
                integer,
                minimum,
                maximum,
                as_integer,
                as_float,
            ),
            FieldKindView::Boolean => boolean_value(raw),
            FieldKindView::SingleSelectEnum { choices } => single_value(choices, raw),
            FieldKindView::MultiSelectEnum { choices, min_items, max_items } => multi_value(
                choices,
                min_items,
                max_items,
                raw,
            ),
        },
        None => blank_value(field.default, field.required),
    }
}

/// What a text comes to, given whether it matches the pattern.
pub fn parse_text_value(
    raw: &str,
    min_length: Option<usize>,
    max_length: Option<usize>,
    verdict: Option<bool>,
) -> (value: Result<Option<JsonValue>, ()>)
    ensures
        outcome(value) == text_value(raw@, min_length, max_length, verdict),
{
    let length = chars_of(raw).len();
    if let Some(least) = min_length {
        if length < least {
            return Err(());
        }
    }
    if let Some(most) = max_length {
        if length > most {
            return Err(());
        }
    }
    if let Some(matched) = verdict {
        if !matched {
            return Err(());
        }
    }
    Ok(Some(JsonValue::Text(raw.to_owned())))
}

/// Whether a number is in bounds.
fn in_bounds(number: &Double, minimum: &Option<Double>, maximum: &Option<Double>) -> (inside: bool)
    ensures
        inside == within(number@, opt_double(*minimum), opt_double(*maximum)),
{
    if let Some(least) = minimum {
        if number.order < least.order {
            return false;
        }
    }
    if let Some(most) = maximum {
        if number.order > most.order {
            return false;
        }
    }
    true
}

/// What a text comes to where a number is asked for.
pub fn parse_number_value(
    raw: &str,
    integer: bool,
    minimum: &Option<Double>,
    maximum: &Option<Double>,
    reading: &TextReading,
) -> (value: Result<Option<JsonValue>, ()>)
    ensures
        outcome(value) == number_value(
            raw@,
            integer,
            opt_double(*minimum),
            opt_double(*maximum),
            opt_double(reading.integer),
            reading.float@,
        ),
{
    if integer {
        let parsed = match parse_i64(raw) {
            Ok(parsed) => parsed,
            Err(_) => return Err(()),
        };
        let fits = match &reading.integer {
            Some(double) => in_bounds(double, minimum, maximum),
            None => minimum.is_none() && maximum.is_none(),
        };
        if fits {
            Ok(Some(JsonValue::Number(JsonNumber::from_i64(parsed, &reading.integer))))
        } else {
            Err(())
        }
    } else {
        match &reading.float {
            FloatReading::Finite { json, double } => if in_bounds(double, minimum, maximum) {
                Ok(Some(float_value(json, double)))
            } else {
                Err(())
            },
            _ => Err(()),
        }
    }
}

/// What a text comes to where yes or no is asked for.
pub fn parse_boolean_value(raw: &str) -> (value: Result<Option<JsonValue>, ()>)
    ensures
        outcome(value) == boolean_value(raw@),
{
    let lowered = to_ascii_lowercase(raw);
    let word = lowered.as_str();
    if same_text(word, "true") || same_text(word, "yes") || same_text(word, "y") || same_text(
        word,
        "1",
    ) {
        Ok(Some(JsonValue::Bool(true)))
    } else if same_text(word, "false") || same_text(word, "no") || same_text(word, "n")
        || same_text(word, "0") {
        Ok(Some(JsonValue::Bool(false)))
    } else {
        Err(())
    }
}

/// The value of the first choice that goes by a name.
fn find_choice(choices: &Vec<EnumChoice>, name: &str) -> (value: Option<JsonValue>)
    ensures
        opt_json_owned(value) == choice_value(choice_views(choices@), name@),
{
    let ghost all = choice_views(choices@);
    let mut at: usize = 0;
    assert(all.skip(0) =~= all);
    while at < choices.len()
        invariant
            all == choice_views(choices@),
            at <= choices@.len(),
            choice_value(all, name@) == choice_value(all.skip(at as int), name@),
        decreases choices@.len() - at,
    {
        proof {
            assert(all.skip(at as int)[0] == choices@[at as int]@);
            assert(all.skip(at as int).drop_first() =~= all.skip(at + 1));
        }
        if same_text(choices[at].label.as_str(), name) || same_text(
            render_json_primitive(&choices[at].value).as_str(),
            name,
        ) {
            return Some(choices[at].value.copy());
        }
        at += 1;
    }
    None
}

/// The name of an offered choice is accepted, and gives the value of some choice that was offered.
pub proof fn lemma_offered_choice(choices: Seq<ChoiceView>, at: int)
    requires
        0 <= at < choices.len(),
    ensures
        choice_value(choices, choices[at].label) matches Some(value) && exists|i: int|
            0 <= i < choices.len() && (#[trigger] choices[i]).value == value,
    decreases choices.len(),
{
    let name = choices[at].label;
    if choices[0].label == name || primitive_text(choices[0].value) == name {
        assert(choices[0].value == choice_value(choices, name)->0);
    } else {
        let rest = choices.drop_first();
        assert(rest[at - 1] == choices[at]);
        lemma_offered_choice(rest, at - 1);
        let value = choice_value(rest, name)->0;
        let i = choose|i: int| 0 <= i < rest.len() && (#[trigger] rest[i]).value == value;
        assert(choices[i + 1].value == value);
    }
}

/// The names that a text lists between commas.
fn split_names(raw: &str) -> (names: Vec<String>)
    ensures
        texts(names@) == listed_names(raw@),
{
    let parts = split_text(raw, ',');
    let ghost all = texts(parts@);
    let mut names: Vec<String> = Vec::new();
    let mut at: usize = 0;
    assert(texts(names@) =~= full_parts(all.take(0)));
    while at < parts.len()
        invariant
            all == texts(parts@),
            at <= parts@.len(),
            texts(names@) == full_parts(all.take(at as int)),
        decreases parts@.len() - at,
    {
        proof {
            assert(all.take(at + 1).drop_last() =~= all.take(at as int));
            assert(all.take(at + 1).last() == parts@[at as int]@);
        }
        if !blank(parts[at].as_str()) {
            push_text(&mut names, trimmed(parts[at].as_str()));
        }
        at += 1;
    }
    assert(all.take(at as int) =~= all);
    names
}

/// What a text comes to where some choices are asked for.
pub fn parse_multi_value(
    choices: &Vec<EnumChoice>,
    min_items: Option<usize>,
    max_items: Option<usize>,
    raw: &str,
) -> (value: Result<Option<JsonValue>, ()>)
    ensures
        outcome(value) == multi_value(choice_views(choices@), min_items, max_items, raw@),
{
    let names = split_names(raw);
    let ghost all = texts(names@);
    let ghost offered = choice_views(choices@);
    if let Some(least) = min_items {
        if names.len() < least {
            return Err(());
        }
    }
    if let Some(most) = max_items {
        if names.len() > most {
            return Err(());
        }
    }
    let mut values: Vec<JsonValue> = Vec::new();
    let mut at: usize = 0;
    assert(json_items(values@) =~= chosen_values(offered, all).take(0));
    while at < names.len()
        invariant
            all == texts(names@),
            all == listed_names(raw@),
            offered == choice_views(choices@),
            at <= names@.len(),
            forall|i: int| 0 <= i < at ==> choice_value(offered, #[trigger] all[i]) is Some,
            json_items(values@) == chosen_values(offered, all).take(at as int),
        decreases names@.len() - at,
    {
        let ghost before = json_items(values@);
        assert(all[at as int] == names@[at as int]@);
        match find_choice(choices, names[at].as_str()) {
            Some(value) => {
                values.push(value);
                assert(json_items(values@) =~= before.push(value@));
                assert(chosen_values(offered, all).take(at + 1) =~= before.push(value@));
            },
            None => {
                assert(!all_chosen(offered, all));
                return Err(());
            },
        }
        at += 1;
    }
    assert(json_items(values@) =~= chosen_values(offered, all));
    let value = JsonValue::Array(values);
    proof {
        lemma_json_view(value);
    }
    Ok(Some(value))
}

impl FieldSpec {
    /// What a blank answer comes to.
    pub fn default_or_required_value(&self) -> (value: Result<Option<JsonValue>, ()>)
        ensures
            outcome(value) == blank_value(self@.default, self.required),
    {
        match &self.default {
            Some(default) => Ok(Some(default.copy())),
            None => if self.required {
                Err(())
            } else {
                Ok(None)
            },
        }
    }

    /// What the answer to the field's question comes to. `reading` is the answer's text read as a
    /// number.
    pub fn parse_response_value(
        &self,
        response: &RequestUserInputResponse,
        reading: &TextReading,
    ) -> (value: Result<Option<JsonValue>, ()>)
        requires
            response.wf(),
        ensures
            outcome(value) == field_value(
                self@,
                answer_text(response.entries(self.question_id@)),
                opt_double(reading.integer),
                reading.float@,
            ),
    {
        let raw = match answer_to(response, self.question_id.as_str()) {
            Some(raw) => raw,
            None => return self.default_or_required_value(),
        };
        let raw = raw.as_str();
        match &self.kind {
            FieldKind::Text { min_length, max_length, pattern, .. } => {
                let verdict = match pattern {
                    Some(pattern) => match_pattern(pattern.as_str(), raw),
                    None => None,
                };
                parse_text_value(raw, *min_length, *max_length, verdict)
            },
            FieldKind::Number { integer, minimum, maximum } => parse_number_value(
                raw,
                *integer,
                minimum,
                maximum,
                reading,
            ),
            FieldKind::Boolean => parse_boolean_value(raw),
            FieldKind::SingleSelectEnum { choices } => match find_choice(choices, raw) {
                Some(value) => Ok(Some(value)),
                None => Err(()),
            },
            FieldKind::MultiSelectEnum { choices, min_items, max_items } => parse_multi_value(
                choices,
                *min_items,
                *max_items,
                raw,
            ),
        }
    }
}

// ---------------------------------------------------------------------------------------------
// Content
// ---------------------------------------------------------------------------------------------

/// The entries of an object after a name was given a value.
pub open spec fn with_member(
    members: Seq<(Seq<char>, JsonView)>,
    name: Seq<char>,
    value: JsonView,
) -> Seq<(Seq<char>, JsonView)>
    decreases members.len(),
{
    if members.len() == 0 {
        seq![(name, value)]
    } else if members[0].0 == name {
        seq![(name, value)] + members.drop_first()
    } else {
        seq![members[0]] + with_member(members.drop_first(), name, value)
    }
}

/// The reading of the answer to a field; none was made where the list is too short.
pub open spec fn reading_at(readings: Seq<TextReading>, at: int) -> (
    Option<DoubleView>,
    FloatReadingView,
) {
    if 0 <= at < readings.len() {
        (opt_double(readings[at].integer), readings[at].float@)
    } else {
        (None, FloatReadingView::NotANumber)
    }
}

/// What the answer to the field at a place comes to.
pub open spec fn value_at(
    fields: Seq<FieldView>,
    response: RequestUserInputResponse,
    readings: Seq<TextReading>,
    at: int,
) -> Result<Option<JsonView>, ()> {
    field_value(
        fields[at],
        answer_text(response.entries(fields[at].question_id)),
        reading_at(readings, at).0,
        reading_at(readings, at).1,
    )
}

/// The content that the answers to the first so many fields make; none where an answer will not
/// do.
pub open spec fn content_of(
    fields: Seq<FieldView>,
    response: RequestUserInputResponse,
    readings: Seq<TextReading>,
    count: nat,
) -> Result<Seq<(Seq<char>, JsonView)>, ()>
    decreases count,
{
    if count == 0 {
        Ok(Seq::empty())
    } else {
        let at = count - 1;
        match content_of(fields, response, readings, at as nat) {
            Ok(content) => match value_at(fields, response, readings, at) {
                Ok(Some(value)) => Ok(with_member(content, fields[at].property_name, value)),
                Ok(None) => Ok(content),
                Err(error) => Err(error),
            },
            Err(error) => Err(error),
        }
    }
}

/// The content that the answers to a form make.
pub open spec fn form_content(
    response: RequestUserInputResponse,
    schema: Option<JsonView>,
    readings: Seq<TextReading>,
) -> Result<Option<JsonView>, ()> {
    match schema {
        Some(schema) => match schema_fields(schema) {
            Some(fields) => match content_of(fields, response, readings, fields.len()) {
                Ok(content) => Ok(Some(JsonView::Object(content))),
                Err(error) => Err(error),
            },
            None => Ok(None),
        },
        None => Ok(None),
    }
}

/// Gives a name in an object a value.
pub fn put_member(members: &mut Vec<(String, JsonValue)>, name: String, value: JsonValue)
    ensures
        json_members(final(members)@) == with_member(json_members(old(members)@), name@, value@),
{
    let ghost all = json_members(members@);
    let mut at: usize = 0;
    assert(all.take(0) + with_member(all.skip(0), name@, value@) =~= with_member(
        all,
        name@,
        value@,
    )) by {
        assert(all.skip(0) =~= all);
    }
    while at < members.len()
        invariant
            all == json_members(members@),
            *members == *old(members),
            at <= members@.len(),
            all.take(at as int) + with_member(all.skip(at as int), name@, value@) == with_member(
                all,
                name@,
                value@,
            ),
        decreases members@.len() - at,
    {
        let ghost rest = all.skip(at as int);
        proof {
            assert(rest[0] == all[at as int]);
            assert(rest.drop_first() =~= all.skip(at + 1));
        }
        if same_text(members[at].0.as_str(), name.as_str()) {
            members.set(at, (name, value));
            proof {
                assert(json_members(members@) =~= all.take(at as int) + (seq![(name@, value@)]
                    + rest.drop_first()));
            }
            return ;
        }
        proof {
            assert(all.take(at as int) + (seq![rest[0]] + with_member(
                all.skip(at + 1),
                name@,
                value@,
            )) =~= all.take(at + 1) + with_member(all.skip(at + 1), name@, value@));
        }
        at += 1;
    }
    members.push((name, value));
    proof {
        assert(json_members(members@) =~= all.take(at as int) + seq![(name@, value@)]);
    }
}

/// What each answer to a form says, in the order of the fields: the texts that are to be read as
/// numbers.
pub fn response_texts(
    response: &RequestUserInputResponse,
    requested_schema: Option<&JsonValue>,
) -> (answers: Vec<Option<String>>)
    requires
        response.wf(),
    ensures
        match opt_json(requested_schema) {
            Some(schema) => match schema_fields(schema) {
                Some(fields) => {
                    &&& answers@.len() == fields.len()
                    &&& forall|i: int|
                        0 <= i < fields.len() ==> opt_text(#[trigger] answers@[i]) == answer_text(
                            response.entries(fields[i].question_id),
                        )
                },
                None => answers@.len() == 0,
            },
            None => answers@.len() == 0,
        },
{
    let mut answers: Vec<Option<String>> = Vec::new();
    let parsed = match requested_schema {
        Some(schema) => match ParsedSchema::from_requested_schema(schema) {
            Some(parsed) => parsed,
            None => return answers,
        },
        None => return answers,
    };
    let ghost fields = field_views(parsed.fields@);
    let mut at: usize = 0;
    while at < parsed.fields.len()
        invariant
            response.wf(),
            fields == field_views(parsed.fields@),
            at <= parsed.fields@.len(),
            answers@.len() == at,
            forall|i: int|
                0 <= i < at ==> opt_text(#[trigger] answers@[i]) == answer_text(
                    response.entries(fields[i].question_id),
                ),
        decreases parsed.fields@.len() - at,
    {
        let text = answer_to(response, parsed.fields[at].question_id.as_str());
        answers.push(text);
        at += 1;
    }
    answers
}

/// The content that the answers to a form make: none without a form, an error where an answer will
/// not do. `readings` holds the answers' texts, in the order of the fields, read as numbers.
pub fn build_elicitation_content_from_response(
    response: &RequestUserInputResponse,
    requested_schema: Option<&JsonValue>,
    readings: &Vec<TextReading>,
) -> (content: Result<Option<JsonValue>, ()>)
    requires
        response.wf(),
    ensures
        outcome(content) == form_content(*response, opt_json(requested_schema), readings@),
{
    let parsed = match requested_schema {
        Some(schema) => match ParsedSchema::from_requested_schema(schema) {
            Some(parsed) => parsed,
            None => return Ok(None),
        },
        None => return Ok(None),
    };
    let ghost fields = field_views(parsed.fields@);
    let unread = TextReading { integer: None, float: FloatReading::NotANumber };
    let mut content: Vec<(String, JsonValue)> = Vec::new();
    let mut at: usize = 0;
    assert(json_members(content@) =~= Seq::<(Seq<char>, JsonView)>::empty());
    while at < parsed.fields.len()
        invariant
            response.wf(),
            fields == field_views(parsed.fields@),
            unread.integer is None,
            unread.float is NotANumber,
            form_content(*response, opt_json(requested_schema), readings@) == (match content_of(
                fields,
                *response,
                readings@,
                fields.len(),
            ) {
                Ok(content) => Ok(Some(JsonView::Object(content))),
                Err(error) => Err(error),
            }),
            at <= parsed.fields@.len(),
            content_of(fields, *response, readings@, at as nat) == Ok::<_, ()>(
                json_members(content@),
            ),
        decreases parsed.fields@.len() - at,
    {
        let field = &parsed.fields[at];
        assert(fields[at as int] == field@);
        let reading = if at < readings.len() {
            &readings[at]
        } else {
            &unread
        };
        match field.parse_response_value(response, reading) {
            Ok(Some(value)) => put_member(&mut content, field.property_name.clone(), value),
            Ok(None) => {},
            Err(_) => {
                proof {
                    lemma_error_stays(
                        fields,
                        *response,
                        readings@,
                        (at + 1) as nat,
                        fields.len(),
                    );
                }
                return Err(());
            },
        }
        at += 1;
    }
    let value = JsonValue::Object(content);
    proof {
        lemma_json_view(value);
    }
    Ok(Some(value))
}

/// Once an answer will not do, no later one mends it.
proof fn lemma_error_stays(
    fields: Seq<FieldView>,
    response: RequestUserInputResponse,
    readings: Seq<TextReading>,
    fewer: nat,
    more: nat,
)
    requires
        fewer <= more,
        content_of(fields, response, readings, fewer) is Err,
    ensures
        content_of(fields, response, readings, more) is Err,
    decreases more,
{
    if fewer < more {
        lemma_error_stays(fields, response, readings, fewer, (more - 1) as nat);
    }
}

/// Where the answer to one field will not do, there is no content: in particular where a field
/// that is required, and has no default, is left blank.
pub proof fn lemma_content_needs_all(
    response: RequestUserInputResponse,
    schema: JsonView,
    readings: Seq<TextReading>,
    at: int,
)
    requires
        schema_fields(schema) matches Some(fields) && 0 <= at < fields.len() && value_at(
            fields,
            response,
            readings,
            at,
        ) is Err,
    ensures
        form_content(response, Some(schema), readings) is Err,
{
    let fields = schema_fields(schema)->0;
    lemma_error_stays(fields, response, readings, (at + 1) as nat, fields.len());
}

/// A field that is required, and has no default, is not left blank.
pub proof fn lemma_required_blank(
    response: RequestUserInputResponse,
    schema: JsonView,
    readings: Seq<TextReading>,
    at: int,
)
    requires
        schema_fields(schema) matches Some(fields) && 0 <= at < fields.len() && fields[at].required
            && fields[at].default is None && answer_text(
            response.entries(fields[at].question_id),
        ) is None,
    ensures
        form_content(response, Some(schema), readings) is Err,
{
    lemma_content_needs_all(response, schema, readings, at);
}

/// The names of an object's entries.
pub open spec fn names(members: Seq<(Seq<char>, JsonView)>) -> Seq<Seq<char>> {
    Seq::new(members.len(), |i: int| members[i].0)
}

/// Giving a name a value adds that name and no other, and leaves no name twice.
pub proof fn lemma_with_member(
    members: Seq<(Seq<char>, JsonView)>,
    name: Seq<char>,
    value: JsonView,
)
    ensures
        forall|other: Seq<char>| #[trigger]
            names(with_member(members, name, value)).contains(other) <==> other == name || names(
                members,
            ).contains(other),
        names(members).no_duplicates() ==> names(
            with_member(members, name, value),
        ).no_duplicates(),
        member(with_member(members, name, value), name) == Some(value),
        forall|other: Seq<char>|
            other != name ==> #[trigger] member(with_member(members, name, value), other) == member(
                members,
                other,
            ),
    decreases members.len(),
{
    let after = with_member(members, name, value);
    if members.len() == 0 {
        assert(after[0].0 == name);
        assert(names(members) =~= Seq::<Seq<char>>::empty());
        assert(names(after) =~= seq![name] + names(members));
        assert forall|other: Seq<char>| #[trigger] names(after).contains(other) <==> other
            == name || names(members).contains(other) by {
            lemma_contains_first(name, names(members), other);
        }
        assert forall|other: Seq<char>| other != name implies #[trigger] member(after, other)
            == member(members, other) by {
            assert(after.drop_first() =~= members);
        }
    } else {
        let rest = members.drop_first();
        assert(names(members) =~= seq![members[0].0] + names(rest));
        assert forall|other: Seq<char>| #[trigger] names(members).contains(other) <==> other
            == members[0].0 || names(rest).contains(other) by {
            lemma_contains_first(members[0].0, names(rest), other);
        }
        if members[0].0 == name {
            assert(names(after) =~= names(members));
            assert(after[0] == (name, value));
            assert forall|other: Seq<char>| other != name implies #[trigger] member(after, other)
                == member(members, other) by {
                assert(after.drop_first() =~= rest);
            }
        } else {
            lemma_with_member(rest, name, value);
            let later = with_member(rest, name, value);
            assert(names(after) =~= seq![members[0].0] + names(later));
            assert(after.drop_first() =~= later);
            assert(after[0] == members[0]);
            assert forall|other: Seq<char>| other != name implies #[trigger] member(after, other)
                == member(members, other) by {
                assert(member(later, other) == member(rest, other));
            }
            assert forall|other: Seq<char>| #[trigger] names(after).contains(other) <==> other
                == name || names(members).contains(other) by {
                lemma_contains_first(members[0].0, names(later), other);
            }
            if names(members).no_duplicates() {
                assert(!names(rest).contains(members[0].0)) by {
                    if names(rest).contains(members[0].0) {
                        let i = choose|i: int|
                            0 <= i < names(rest).len() && names(rest)[i] == members[0].0;
                        assert(names(members)[i + 1] == names(members)[0]);
                    }
                }
                assert(names(rest).no_duplicates()) by {
                    assert forall|i: int, j: int|
                        0 <= i < rest.len() && 0 <= j < rest.len() && i != j implies names(rest)[i]
                        != names(rest)[j] by {
                        assert(names(members)[i + 1] != names(members)[j + 1]);
                    }
                }
                assert(!names(later).contains(members[0].0));
                assert(names(after).no_duplicates());
            }
        }
    }
}

/// What a list with one more entry in front holds.
proof fn lemma_contains_first(first: Seq<char>, rest: Seq<Seq<char>>, other: Seq<char>)
    ensures
        (seq![first] + rest).contains(other) <==> other == first || rest.contains(other),
{
    let whole = seq![first] + rest;
    assert(whole[0] == first);
    if rest.contains(other) {
        let i = choose|i: int| 0 <= i < rest.len() && rest[i] == other;
        assert(whole[i + 1] == other);
    }
    if whole.contains(other) {
        let i = choose|i: int| 0 <= i < whole.len() && whole[i] == other;
        if i > 0 {
            assert(rest[i - 1] == other);
        }
    }
}

/// The content of a form holds each name once, and only names of properties that have a field.
pub proof fn lemma_content_names(
    fields: Seq<FieldView>,
    response: RequestUserInputResponse,
    readings: Seq<TextReading>,
    count: nat,
)
    requires
        count <= fields.len(),
    ensures
        content_of(fields, response, readings, count) matches Ok(content) ==> {
            &&& names(content).no_duplicates()
            &&& forall|name: Seq<char>| #[trigger]
                names(content).contains(name) ==> exists|i: int|
                    0 <= i < count && (#[trigger] fields[i]).property_name == name
        },
    decreases count,
{
    if count > 0 {
        let at = count - 1;
        lemma_content_names(fields, response, readings, at as nat);
        if let Ok(earlier) = content_of(fields, response, readings, at as nat) {
            if let Ok(Some(value)) = value_at(fields, response, readings, at) {
                lemma_with_member(earlier, fields[at].property_name, value);
            }
            if let Ok(content) = content_of(fields, response, readings, count) {
                assert forall|name: Seq<char>| #[trigger]
                    names(content).contains(name) implies exists|i: int|
                    0 <= i < count && (#[trigger] fields[i]).property_name == name by {
                    if names(earlier).contains(name) {
                        let i = choose|i: int|
                            0 <= i < at && (#[trigger] fields[i]).property_name == name;
                        assert(fields[i].property_name == name);
                    } else {
                        assert(fields[at].property_name == name);
                    }
                }
            }
        }
    }
}

/// Whether no two fields fill in the same property.
pub open spec fn fill_in_once(fields: Seq<FieldView>) -> bool {
    forall|i: int, j: int|
        0 <= i < j < fields.len() ==> (#[trigger] fields[i]).property_name != (
        #[trigger] fields[j]).property_name
}

/// The content of a form holds, for every field whose answer comes to a value, exactly that value
/// under the name of the field's property, and no entry for a field whose answer comes to none.
/// There is no content where an answer will not do, and only there.
pub proof fn lemma_content_holds(
    fields: Seq<FieldView>,
    response: RequestUserInputResponse,
    readings: Seq<TextReading>,
    count: nat,
)
    requires
        count <= fields.len(),
        fill_in_once(fields),
    ensures
        match content_of(fields, response, readings, count) {
            Ok(content) => forall|i: int|
                0 <= i < count ==> (match #[trigger] value_at(fields, response, readings, i) {
                    Ok(Some(value)) => member(content, fields[i].property_name) == Some(value),
                    Ok(None) => member(content, fields[i].property_name) is None,
                    Err(_) => false,
                }),
            Err(_) => exists|i: int|
                0 <= i < count && (#[trigger] value_at(fields, response, readings, i)) is Err,
        },
    decreases count,
{
    if count > 0 {
        let at = count - 1;
        lemma_content_holds(fields, response, readings, at as nat);
        lemma_content_names(fields, response, readings, at as nat);
        match content_of(fields, response, readings, at as nat) {
            Ok(earlier) => {
                let name = fields[at].property_name;
                assert(member(earlier, name) is None) by {
                    lemma_member_named(earlier, name);
                    if names(earlier).contains(name) {
                        let i = choose|i: int|
                            0 <= i < at && (#[trigger] fields[i]).property_name == name;
                        assert(fields[i].property_name != fields[at].property_name);
                    }
                }
                match value_at(fields, response, readings, at) {
                    Ok(Some(value)) => {
                        lemma_with_member(earlier, name, value);
                        let content = with_member(earlier, name, value);
                        assert forall|i: int| 0 <= i < count implies (
                        match #[trigger] value_at(fields, response, readings, i) {
                            Ok(Some(value)) => member(content, fields[i].property_name) == Some(
                                value,
                            ),
                            Ok(None) => member(content, fields[i].property_name) is None,
                            Err(_) => false,
                        }) by {
                            if i < at {
                                assert(fields[i].property_name != fields[at].property_name);
                                assert(member(content, fields[i].property_name) == member(
                                    earlier,
                                    fields[i].property_name,
                                ));
                            }
                        }
                    },
                    Ok(None) => {},
                    Err(_) => {
                        assert(value_at(fields, response, readings, at) is Err);
                    },
                }
            },
            Err(_) => {
                let i = choose|i: int|
                    0 <= i < at && (#[trigger] value_at(fields, response, readings, i)) is Err;
                assert(value_at(fields, response, readings, i) is Err);
            },
        }
    }
}

/// An object has an entry under a name where one of its entries has it.
proof fn lemma_member_named(members: Seq<(Seq<char>, JsonView)>, name: Seq<char>)
    ensures
        member(members, name) is Some <==> names(members).contains(name),
    decreases members.len(),
{
    if members.len() > 0 {
        let rest = members.drop_first();
        lemma_member_named(rest, name);
        assert(names(members) =~= seq![members[0].0] + names(rest));
        lemma_contains_first(members[0].0, names(rest), name);
    }
}

/// Whether one of some fields fills in a property of some name, of some kind, with some default,
/// required or not.
pub open spec fn has_field(
    fields: Seq<FieldView>,
    name: Seq<char>,
    kind: FieldKindView,
    default: Option<JsonView>,
    required: bool,
) -> bool {
    exists|i: int|
        {
            &&& 0 <= i < fields.len()
            &&& (#[trigger] fields[i]).property_name == name
            &&& fields[i].kind == kind
            &&& fields[i].default == default
            &&& fields[i].required == required
        }
}

/// Where the properties of a schema have different names, so do the fields of its form, and each
/// property whose schema is understood has a field: under its name, with its kind and its default,
/// and required where the schema says so.
pub proof fn lemma_fields_complete(
    schema: JsonView,
    properties: Seq<(Seq<char>, JsonView)>,
    count: nat,
)
    requires
        count <= properties.len(),
        forall|i: int, j: int|
            0 <= i < j < properties.len() ==> (#[trigger] properties[i]).0 != (
            #[trigger] properties[j]).0,
    ensures
        fill_in_once(fields_among(schema, properties, count)),
        forall|j: int|
            0 <= j < count ==> ((#[trigger] properties[j]).1 matches JsonView::Object(members)
                ==> field_kind(members) matches Some(kind) ==> has_field(
                fields_among(schema, properties, count),
                properties[j].0,
                kind,
                member(members, "default"@),
                is_required(schema, properties[j].0),
            )),
    decreases count,
{
    if count > 0 {
        let index = (count - 1) as nat;
        lemma_fields_complete(schema, properties, index);
        lemma_fields(schema, properties, index);
        let earlier = fields_among(schema, properties, index);
        let all = fields_among(schema, properties, count);
        let (name, property) = properties[index as int];
        let found = field_of(name, property, is_required(schema, name), index, ids(earlier));
        assert(fill_in_once(all)) by {
            assert forall|i: int, j: int| 0 <= i < j < all.len() implies (
            #[trigger] all[i]).property_name != (#[trigger] all[j]).property_name by {
                assert(all[i] == earlier[i]);
                if j < earlier.len() {
                    assert(all[j] == earlier[j]);
                } else {
                    let k = choose|k: int|
                        0 <= k < index && #[trigger] properties[k].0 == earlier[i].property_name;
                    assert(properties[k].0 != properties[index as int].0);
                }
            }
        }
        assert forall|j: int| 0 <= j < count implies ((#[trigger] properties[j]).1
            matches JsonView::Object(members) ==> field_kind(members) matches Some(kind)
            ==> has_field(
            all,
            properties[j].0,
            kind,
            member(members, "default"@),
            is_required(schema, properties[j].0),
        )) by {
            if let JsonView::Object(members) = properties[j].1 {
                if let Some(kind) = field_kind(members) {
                    let default = member(members, "default"@);
                    let required = is_required(schema, properties[j].0);
                    if j < index {
                        assert(has_field(earlier, properties[j].0, kind, default, required));
                        let i = choose|i: int|
                            {
                                &&& 0 <= i < earlier.len()
                                &&& (#[trigger] earlier[i]).property_name == properties[j].0
                                &&& earlier[i].kind == kind
                                &&& earlier[i].default == default
                                &&& earlier[i].required == required
                            };
                        assert(all[i] == earlier[i]);
                    } else {
                        assert(found is Some);
                        assert(all[earlier.len() as int] == found->0);
                    }
                }
            }
        }
    }
}

/// A property is required where the schema's list of required ones holds its name, and only there;
/// without such a list, none is.
pub proof fn lemma_required(members: Seq<(Seq<char>, JsonView)>, name: Seq<char>)
    ensures
        member(members, "required"@) matches Some(JsonView::Array(items)) ==> (is_required(
            JsonView::Object(members),
            name,
        ) <==> exists|i: int| 0 <= i < items.len() && #[trigger] items[i] == JsonView::Text(name)),
        !(member(members, "required"@) matches Some(JsonView::Array(items))) ==> !is_required(
            JsonView::Object(members),
            name,
        ),
{
    if let Some(JsonView::Array(items)) = member(members, "required"@) {
        if exists|i: int| 0 <= i < items.len() && #[trigger] items[i] == JsonView::Text(name) {
            let i = choose|i: int|
                0 <= i < items.len() && #[trigger] items[i] == JsonView::Text(name);
            assert(items.contains(items[i]));
        }
    }
}

/// What a form comes to. Without a schema, or where it lists no properties, there is nothing to
/// fill in. Where the properties have different names, the content holds for each field exactly
/// what its answer comes to, and there is none where one of the answers will not do.
pub proof fn lemma_form_content(
    response: RequestUserInputResponse,
    schema: JsonView,
    properties: Seq<(Seq<char>, JsonView)>,
    readings: Seq<TextReading>,
)
    requires
        json_get(schema, "properties"@) == Some(JsonView::Object(properties)),
        forall|i: int, j: int|
            0 <= i < j < properties.len() ==> (#[trigger] properties[i]).0 != (
            #[trigger] properties[j]).0,
    ensures
        schema_fields(schema) matches Some(fields) && match form_content(
            response,
            Some(schema),
            readings,
        ) {
            Ok(content) => content matches Some(JsonView::Object(members)) && forall|i: int|
                0 <= i < fields.len() ==> (#[trigger] value_at(fields, response, readings, i))
                    == Ok::<_, ()>(member(members, fields[i].property_name)),
            Err(_) => exists|i: int|
                0 <= i < fields.len() && (#[trigger] value_at(fields, response, readings, i))
                    is Err,
        },
        form_content(response, None, readings) == Ok::<Option<JsonView>, ()>(None),
{
    lemma_fields_complete(schema, properties, properties.len());
    let fields = schema_fields(schema)->0;
    lemma_content_holds(fields, response, readings, fields.len());
    if let Ok(content) = content_of(fields, response, readings, fields.len()) {
        assert forall|i: int| 0 <= i < fields.len() implies (#[trigger] value_at(
            fields,
            response,
            readings,
            i,
        )) == Ok::<_, ()>(member(content, fields[i].property_name)) by {
            match value_at(fields, response, readings, i) {
                Ok(Some(value)) => {},
                Ok(None) => {},
                Err(_) => {},
            }
        }
    }
}

/// A field that is left blank takes its default; without one it is left out, unless it has to be
/// filled in, which will not do.
pub proof fn lemma_left_blank(
    field: FieldView,
    as_integer: Option<DoubleView>,
    as_float: FloatReadingView,
)
    ensures
        field.default matches Some(value) ==> field_value(field, None, as_integer, as_float)
            == Ok::<_, ()>(Some(value)),
        field.default is None && field.required ==> field_value(field, None, as_integer, as_float)
            is Err,
        field.default is None && !field.required ==> field_value(field, None, as_integer, as_float)
            == Ok::<Option<JsonView>, ()>(None),
{
}

/// An answer to a field for text is taken as it is where its length is in bounds and it does not
/// fail to match the pattern, and will not do otherwise.
pub proof fn lemma_text_answer(
    field: FieldView,
    raw: Seq<char>,
    as_integer: Option<DoubleView>,
    as_float: FloatReadingView,
)
    ensures
        field.kind matches FieldKindView::Text { min_length, max_length, pattern, format } ==> {
            let fits = (min_length matches Some(least) ==> least <= raw.len()) && (
            max_length matches Some(most) ==> raw.len() <= most) && (pattern matches Some(pattern)
                ==> pattern_verdict(pattern, raw) != Some(false));
            let value = field_value(field, Some(raw), as_integer, as_float);
            &&& fits ==> value == Ok::<_, ()>(Some(JsonView::Text(raw)))
            &&& !fits ==> value is Err
        },
{
}

/// An answer to a field for a number is the number that it spells, where that is in bounds: a whole
/// one where one is asked for, and else the one in double precision. Anything else will not do.
pub proof fn lemma_number_answer(
    field: FieldView,
    raw: Seq<char>,
    as_integer: Option<DoubleView>,
    as_float: FloatReadingView,
)
    ensures
        field.kind matches FieldKindView::Number { integer, minimum, maximum } ==> {
            let value = field_value(field, Some(raw), as_integer, as_float);
            let read = if integer {
                as_integer
            } else {
                match as_float {
                    FloatReadingView::Finite(json, double) => Some(double),
                    _ => None,
                }
            };
            let low = minimum matches Some(least) && (read matches Some(double) ==> double.order
                < least.order);
            let high = maximum matches Some(most) && (read matches Some(double) ==> double.order
                > most.order);
            &&& integer ==> (signed_value(raw) matches Ok(number) ==> !low && !high ==> value
                == Ok::<_, ()>(Some(JsonView::Number(integer_number(number, as_integer)))))
            &&& integer && signed_value(raw) is Err ==> value is Err
            &&& !integer ==> (as_float matches FloatReadingView::Finite(json, double) ==> !low
                && !high ==> value == Ok::<_, ()>(
                Some(JsonView::Number(float_number(json, double))),
            ))
            &&& !integer && !(as_float is Finite) ==> value is Err
            &&& low || high ==> value is Err
        },
{
}

/// An answer to a field for yes or no is understood in any mix of small and capital letters: four
/// words mean yes, four mean no, and nothing else will do.
pub proof fn lemma_boolean_answer(raw: Seq<char>, other: Seq<char>)
    ensures
        lower_text(raw) == lower_text(other) ==> boolean_value(raw) == boolean_value(other),
        boolean_value(raw) == Ok::<_, ()>(Some(JsonView::Bool(true))) <==> lower_text(raw)
            == "true"@ || lower_text(raw) == "yes"@ || lower_text(raw) == "y"@ || lower_text(raw)
            == "1"@,
        boolean_value(raw) == Ok::<_, ()>(Some(JsonView::Bool(false))) <==> lower_text(raw)
            == "false"@ || lower_text(raw) == "no"@ || lower_text(raw) == "n"@ || lower_text(raw)
            == "0"@,
        boolean_value(raw) is Ok ==> boolean_value(raw) == Ok::<_, ()>(Some(JsonView::Bool(true)))
            || boolean_value(raw) == Ok::<_, ()>(Some(JsonView::Bool(false))),
{
    reveal_strlit("true");
    reveal_strlit("yes");
    reveal_strlit("y");
    reveal_strlit("1");
    reveal_strlit("false");
    reveal_strlit("no");
    reveal_strlit("n");
    reveal_strlit("0");
    assert("true"@.len() == 4 && "yes"@.len() == 3 && "y"@[0] == 'y' && "1"@[0] == '1');
    assert("false"@.len() == 5 && "no"@.len() == 2 && "n"@[0] == 'n' && "0"@[0] == '0');
    assert("y"@.len() == 1 && "1"@.len() == 1 && "n"@.len() == 1 && "0"@.len() == 1);
}

/// Whether a choice goes by a name.
pub open spec fn goes_by(choice: ChoiceView, name: Seq<char>) -> bool {
    choice.label == name || primitive_text(choice.value) == name
}

/// An answer to a field for one choice gives the value of the first choice that goes by that name,
/// and will not do where none does.
pub proof fn lemma_choice_answer(choices: Seq<ChoiceView>, name: Seq<char>)
    ensures
        match choice_value(choices, name) {
            Some(value) => exists|i: int|
                {
                    &&& 0 <= i < choices.len()
                    &&& #[trigger] goes_by(choices[i], name)
                    &&& choices[i].value == value
                    &&& forall|j: int| 0 <= j < i ==> !#[trigger] goes_by(choices[j], name)
                },
            None => forall|i: int| 0 <= i < choices.len() ==> !#[trigger] goes_by(choices[i], name),
        },
        single_value(choices, name) == (match choice_value(choices, name) {
            Some(value) => Ok::<_, ()>(Some(value)),
            None => Err(()),
        }),
    decreases choices.len(),
{
    if choices.len() > 0 {
        if goes_by(choices[0], name) {
            assert(choices[0].value == choice_value(choices, name)->0);
        } else {
            let rest = choices.drop_first();
            lemma_choice_answer(rest, name);
            match choice_value(rest, name) {
                Some(value) => {
                    let i = choose|i: int|
                        {
                            &&& 0 <= i < rest.len()
                            &&& #[trigger] goes_by(rest[i], name)
                            &&& rest[i].value == value
                            &&& forall|j: int| 0 <= j < i ==> !#[trigger] goes_by(rest[j], name)
                        };
                    assert(choices[i + 1] == rest[i]);
                    assert forall|j: int| 0 <= j < i + 1 implies !#[trigger] goes_by(
                        choices[j],
                        name,
                    ) by {
                        if j > 0 {
                            assert(!goes_by(rest[j - 1], name));
                        }
                    }
                    assert(goes_by(choices[i + 1], name));
                },
                None => {
                    assert forall|j: int| 0 <= j < choices.len() implies !#[trigger] goes_by(
                        choices[j],
                        name,
                    ) by {
                        if j > 0 {
                            assert(!goes_by(rest[j - 1], name));
                        }
                    }
                },
            }
        }
    }
}

/// An answer to a field for some choices gives the value of each name that it lists, in order; it
/// will not do where one of them is no choice, or where there are too few or too many.
pub proof fn lemma_choices_answer(
    choices: Seq<ChoiceView>,
    min_items: Option<usize>,
    max_items: Option<usize>,
    raw: Seq<char>,
)
    ensures
        ({
            let listed = listed_names(raw);
            match multi_value(choices, min_items, max_items, raw) {
                Ok(value) => {
                    &&& min_items matches Some(least) ==> least <= listed.len()
                    &&& max_items matches Some(most) ==> listed.len() <= most
                    &&& value matches Some(JsonView::Array(values)) && {
                        &&& values.len() == listed.len()
                        &&& forall|i: int|
                            0 <= i < listed.len() ==> choice_value(choices, #[trigger] listed[i])
                                == Some(values[i])
                    }
                },
                Err(_) => {
                    ||| min_items matches Some(least) && listed.len() < least
                    ||| max_items matches Some(most) && listed.len() > most
                    ||| exists|i: int|
                        0 <= i < listed.len() && choice_value(choices, #[trigger] listed[i])
                            is None
                },
            }
        }),
{
}

/// Whether an entry of an answer is a note that is not blank.
pub open spec fn is_note(entry: Seq<char>) -> bool {
    strip(entry, REQUEST_USER_INPUT_NOTE_PREFIX@) matches Some(note) && !is_blank(note)
}

/// Whether an entry of an answer is something that was chosen or typed.
pub open spec fn is_selection(entry: Seq<char>) -> bool {
    strip(entry, REQUEST_USER_INPUT_NOTE_PREFIX@) is None && !is_blank(entry)
}

/// What an answer says where it has a note: the last one, without white space around it, whatever
/// was chosen.
pub proof fn lemma_note_counts(before: Seq<Seq<char>>, entry: Seq<char>, after: Seq<Seq<char>>)
    requires
        is_note(entry),
        forall|i: int| 0 <= i < after.len() ==> !is_note(#[trigger] after[i]),
    ensures
        answer_text(before + seq![entry] + after) == Some(
            trim(strip(entry, REQUEST_USER_INPUT_NOTE_PREFIX@)->0),
        ),
    decreases after.len(),
{
    let all = before + seq![entry] + after;
    if after.len() > 0 {
        let rest = after.drop_last();
        assert forall|i: int| 0 <= i < rest.len() implies !is_note(#[trigger] rest[i]) by {
            assert(rest[i] == after[i]);
        }
        lemma_note_counts(before, entry, rest);
        assert(!is_note(after[after.len() - 1]));
        assert(all.drop_last() =~= before + seq![entry] + rest);
        assert(all.last() == after.last());
        let earlier = before + seq![entry] + rest;
        lemma_note_there(before, entry, rest);
    } else {
        assert(all.last() == entry);
    }
}

/// A note that is not blank is found.
proof fn lemma_note_there(before: Seq<Seq<char>>, entry: Seq<char>, after: Seq<Seq<char>>)
    requires
        is_note(entry),
    ensures
        note_of(before + seq![entry] + after) is Some,
    decreases after.len(),
{
    let all = before + seq![entry] + after;
    if after.len() > 0 {
        lemma_note_there(before, entry, after.drop_last());
        assert(all.drop_last() =~= before + seq![entry] + after.drop_last());
    } else {
        assert(all.last() == entry);
    }
}

/// Without a note that is not blank, none is found.
proof fn lemma_no_note(entries: Seq<Seq<char>>)
    requires
        forall|i: int| 0 <= i < entries.len() ==> !is_note(#[trigger] entries[i]),
    ensures
        note_of(entries) is None,
    decreases entries.len(),
{
    if entries.len() > 0 {
        let rest = entries.drop_last();
        assert forall|i: int| 0 <= i < rest.len() implies !is_note(#[trigger] rest[i]) by {
            assert(rest[i] == entries[i]);
        }
        assert(!is_note(entries[entries.len() - 1]));
        lemma_no_note(rest);
    }
}

/// What an answer says where it has no note: the first that was chosen or typed, without white
/// space around it; and nothing where nothing was.
pub proof fn lemma_selection_counts(
    before: Seq<Seq<char>>,
    entry: Seq<char>,
    after: Seq<Seq<char>>,
)
    requires
        forall|i: int| 0 <= i < before.len() ==> !is_note(#[trigger] before[i]),
        forall|i: int| 0 <= i < before.len() ==> !is_selection(#[trigger] before[i]),
        forall|i: int| 0 <= i < after.len() ==> !is_note(#[trigger] after[i]),
        is_selection(entry),
    ensures
        answer_text(before + seq![entry] + after) == Some(trim(entry)),
        answer_text(before) is None,
    decreases after.len(),
{
    let all = before + seq![entry] + after;
    lemma_no_note(before);
    lemma_no_selection(before);
    assert forall|i: int| 0 <= i < all.len() implies !is_note(#[trigger] all[i]) by {
        if i < before.len() {
            assert(all[i] == before[i]);
        } else if i > before.len() {
            assert(all[i] == after[i - before.len() - 1]);
        }
    }
    lemma_no_note(all);
    if after.len() > 0 {
        let rest = after.drop_last();
        assert forall|i: int| 0 <= i < rest.len() implies !is_note(#[trigger] rest[i]) by {
            assert(rest[i] == after[i]);
        }
        lemma_selection_counts(before, entry, rest);
        let earlier = before + seq![entry] + rest;
        assert(all.drop_last() =~= earlier);
        assert forall|i: int| 0 <= i < earlier.len() implies !is_note(#[trigger] earlier[i]) by {
            assert(earlier[i] == all[i]);
        }
        lemma_no_note(earlier);
    } else {
        assert(all.last() == entry);
        assert(all.drop_last() =~= before);
    }
}

/// Where nothing was chosen or typed, nothing is found.
proof fn lemma_no_selection(entries: Seq<Seq<char>>)
    requires
        forall|i: int| 0 <= i < entries.len() ==> !is_selection(#[trigger] entries[i]),
    ensures
        selection_of(entries) is None,
    decreases entries.len(),
{
    if entries.len() > 0 {
        let rest = entries.drop_last();
        assert forall|i: int| 0 <= i < rest.len() implies !is_selection(#[trigger] rest[i]) by {
            assert(rest[i] == entries[i]);
        }
        assert(!is_selection(entries[entries.len() - 1]));
        lemma_no_selection(rest);
    }
}

// ---------------------------------------------------------------------------------------------
// What a schema asks for
// ---------------------------------------------------------------------------------------------

/// What the type of a property lets it hold. A property for text with neither an `enum` nor a
/// `oneOf` takes a text, with the bounds, the pattern and the format that its schema sets; with one
/// of them, one of its choices. One for numbers takes a number, a whole one where that is asked for,
/// with the bounds that its schema sets; one for yes or no takes that. Without a type, or with any
/// other, a property is not understood.
pub proof fn lemma_field_kind(schema: Seq<(Seq<char>, JsonView)>)
    ensures
        ({
            let kind = field_kind(schema);
            let named = member(schema, "type"@);
            &&& named == Some(JsonView::Text("string"@)) && member(schema, "enum"@) is None
                && member(schema, "oneOf"@) is None ==> (kind matches Some(FieldKindView::Text {
                min_length,
                max_length,
                pattern,
                format,
            }) && min_length == bound(schema, "minLength"@) && max_length == bound(
                schema,
                "maxLength"@,
            ) && pattern == json_text_of(member(schema, "pattern"@)) && format == json_text_of(
                member(schema, "format"@),
            ))
            &&& named == Some(JsonView::Text("string"@)) ==> (enum_choices(schema) matches Some(
                choices,
            ) ==> kind == Some(FieldKindView::SingleSelectEnum { choices }))
            &&& named == Some(JsonView::Text("string"@)) && enum_choices(schema) is None ==> (
            union_choices(member(schema, "oneOf"@)) matches Some(choices) ==> kind == Some(
                FieldKindView::SingleSelectEnum { choices },
            ))
            &&& named == Some(JsonView::Text("integer"@)) ==> kind == Some(
                FieldKindView::Number {
                    integer: true,
                    minimum: json_double_of(member(schema, "minimum"@)),
                    maximum: json_double_of(member(schema, "maximum"@)),
                },
            )
            &&& named == Some(JsonView::Text("number"@)) ==> kind == Some(
                FieldKindView::Number {
                    integer: false,
                    minimum: json_double_of(member(schema, "minimum"@)),
                    maximum: json_double_of(member(schema, "maximum"@)),
                },
            )
            &&& named == Some(JsonView::Text("boolean"@)) ==> kind == Some(FieldKindView::Boolean)
            &&& named == Some(JsonView::Text("array"@)) ==> (member(schema, "items"@) matches Some(
                JsonView::Object(items),
            ) ==> (enum_choices(items) matches Some(choices) ==> kind == Some(
                FieldKindView::MultiSelectEnum {
                    choices,
                    min_items: bound(schema, "minItems"@),
                    max_items: bound(schema, "maxItems"@),
                },
            )))
            &&& named is None || !(named->0 is Text) ==> kind is None
        }),
{
    reveal_strlit("string");
    reveal_strlit("integer");
    reveal_strlit("number");
    reveal_strlit("boolean");
    reveal_strlit("array");
    assert("string"@.len() == 6 && "string"@[0] == 's' && "number"@.len() == 6 && "number"@[0]
        == 'n');
    assert("integer"@.len() == 7 && "integer"@[0] == 'i' && "boolean"@.len() == 7 && "boolean"@[0]
        == 'b');
    assert("array"@.len() == 5);
}

/// The bound that a schema sets is the number that it names, where that is whole and not negative
/// and fits.
pub proof fn lemma_bound(schema: Seq<(Seq<char>, JsonView)>, name: Seq<char>)
    ensures
        member(schema, name) is None ==> bound(schema, name) is None,
        member(schema, name) matches Some(JsonView::Number(number)) ==> (
        number.kind matches NumberKindView::PosInt(limit) ==> limit <= usize::MAX ==> bound(
            schema,
            name,
        ) == Some(limit as usize)),
        member(schema, name) matches Some(JsonView::Number(number)) ==> !(number.kind is PosInt)
            ==> bound(schema, name) is None,
{
}

/// The choices of a list of values: one for each value that is a text, a number, or yes or no, in
/// order, under the value's own notation; other values are passed over.
pub proof fn lemma_listed_choices(values: Seq<JsonView>, value: JsonView)
    ensures
        value is Text || value is Number || value is Bool ==> listed_choices(values.push(value))
            == listed_choices(values).push(ChoiceView { value, label: primitive_text(value) }),
        value is Null || value is Array || value is Object ==> listed_choices(values.push(value))
            == listed_choices(values),
        listed_choices(Seq::<JsonView>::empty()).len() == 0,
        value matches JsonView::Text(text) ==> primitive_text(value) == text,
        !(value is Text) ==> primitive_text(value) == json_text(value),
{
    assert(values.push(value).drop_last() =~= values);
}

/// The choices of entries with constants: one for each whose constant can be a choice, in order,
/// under its title where it has one that is not blank, and else under the constant's notation.
pub proof fn lemma_const_choices(entries: Seq<JsonView>, entry: JsonView)
    ensures
        ({
            let before = const_choices(entries);
            let after = const_choices(entries.push(entry));
            let named = json_get(entry, "title"@);
            match json_get(entry, "const"@) {
                Some(value) => {
                    &&& value is Null || value is Array || value is Object ==> after == before
                    &&& value is Text || value is Number || value is Bool ==> {
                        &&& after.len() == before.len() + 1
                        &&& after.drop_last() == before
                        &&& after.last().value == value
                        &&& named is None ==> after.last().label == primitive_text(value)
                        &&& named matches Some(JsonView::Text(title)) ==> !is_blank(title)
                            ==> after.last().label == trim(title)
                        &&& named matches Some(JsonView::Text(title)) ==> is_blank(title)
                            ==> after.last().label == primitive_text(value)
                    }
                },
                None => after == before,
            }
        }),
        const_choices(Seq::<JsonView>::empty()).len() == 0,
{
    assert(entries.push(entry).drop_last() =~= entries);
    let before = const_choices(entries);
    if let Some(choice) = const_choice(entry) {
        assert(before.push(choice).drop_last() =~= before);
    }
}

/// The title of a field is that of its property, without white space around it, or else the
/// property's name; what it is for is told the same way, or not at all.
pub proof fn lemma_field_of(
    name: Seq<char>,
    members: Seq<(Seq<char>, JsonView)>,
    required: bool,
    index: nat,
    used: Seq<Seq<char>>,
)
    ensures
        field_of(name, JsonView::Object(members), required, index, used) is Some <==> field_kind(
            members,
        ) is Some,
        field_of(name, JsonView::Object(members), required, index, used) matches Some(field) ==> {
            &&& field.property_name == name
            &&& field.required == required
            &&& field.default == member(members, "default"@)
            &&& Some(field.kind) == field_kind(members)
            &&& !used.contains(field.question_id)
            &&& !used.contains(base_id(name, index)) ==> field.question_id == base_id(name, index)
            &&& member(members, "title"@) matches Some(JsonView::Text(title)) ==> !is_blank(title)
                ==> field.header == trim(title)
            &&& member(members, "title"@) is None ==> field.header == name
            &&& member(members, "description"@) matches Some(JsonView::Text(text)) ==> !is_blank(
                text,
            ) ==> field.description == Some(trim(text))
            &&& member(members, "description"@) is None ==> field.description is None
        },
{
    lemma_free_exists(base_id(name, index), used);
    let base = base_id(name, index);
    let number = choose|number: nat| first_free(base, used, number);
    assert(first_free(base, used, number));
    if !used.contains(base) && number > 0 {
        assert(used.contains(candidate_id(base, 0)));
    }
}

/// The name of a question holds the place of its property and the property's name, of which only
/// ASCII letters and digits are kept as they are.
pub proof fn lemma_plain_name(name: Seq<char>, index: nat, at: int)
    requires
        0 <= at < name.len(),
    ensures
        plain_name(name).len() == name.len(),
        is_alphanumeric(name[at]) ==> plain_name(name)[at] == name[at],
        !is_alphanumeric(name[at]) ==> plain_name(name)[at] == '_',
        base_id(name, index) == "mcp_elicitation_field"@ + seq!['_'] + decimal(index) + seq!['_']
            + plain_name(name),
{
}

/// What a question offers: yes and no for yes or no, the names of the choices in order for one
/// choice, and nothing for anything that is typed. It is filed under the field's name, and takes no
/// answer of the user's own besides.
pub proof fn lemma_field_question(field: FieldView)
    ensures
        ({
            let question = field_question(field);
            &&& question.id == field.question_id
            &&& question.header == field.header
            &&& !question.is_other
            &&& !question.is_secret
            &&& field.kind is Boolean ==> (question.options matches Some(options) && options.len()
                == 2 && options[0].label == "Yes"@ && options[1].label == "No"@)
            &&& field.kind matches FieldKindView::SingleSelectEnum { choices } ==> (
            question.options matches Some(options) && options.len() == choices.len()
                && forall|i: int|
                0 <= i < choices.len() ==> (#[trigger] options[i]).label == choices[i].label)
            &&& field.kind is Text || field.kind is Number || field.kind is MultiSelectEnum
                ==> question.options is None
        }),
{
}

/// The user is told whether a field has to be filled in and what it is otherwise, and what it is
/// called.
pub proof fn lemma_prompt_lines(field: FieldView)
    ensures
        ({
            let lines = prompt_lines(field);
            let count = lines.len() as int;
            &&& count >= 4
            &&& field.required ==> lines[count - 3] == "This answer is required."@
            &&& !field.required ==> lines[count - 3] == "You can leave this blank."@
            &&& field.default matches Some(value) ==> lines[count - 2]
                == "If left blank, default is "@ + primitive_text(value) + "."@
            &&& field.default is None ==> lines[count - 2] == "No default value is set."@
            &&& lines[count - 1] == "Please enter a value for \""@ + field.header + "\"."@
            &&& field.description matches Some(text) ==> lines[0] == text
        }),
{
    if let Some(text) = field.description {
        assert(Seq::<char>::empty() + text + Seq::<char>::empty() =~= text);
    }
}

/// The names that a text lists between commas are read back as they were joined; what is blank
/// between two commas is passed over, and white space around a name does not count.
pub proof fn lemma_listed_names(listed: Seq<Seq<char>>)
    requires
        listed.len() > 0,
        forall|i: int|
            0 <= i < listed.len() ==> lacks(#[trigger] listed[i], ',') && !is_blank(listed[i])
                && trim(listed[i]) == listed[i],
    ensures
        listed_names(join(listed, seq![','])) == listed,
{
    assert forall|i: int| 0 <= i < listed.len() implies lacks(#[trigger] listed[i], ',') by {}
    lemma_split_join(listed, ',');
    lemma_full_parts(listed);
}

/// Parts that are not blank and have no white space around them stay as they are.
proof fn lemma_full_parts(parts: Seq<Seq<char>>)
    requires
        forall|i: int|
            0 <= i < parts.len() ==> !is_blank(#[trigger] parts[i]) && trim(parts[i]) == parts[i],
    ensures
        full_parts(parts) == parts,
    decreases parts.len(),
{
    if parts.len() > 0 {
        let rest = parts.drop_last();
        assert forall|i: int| 0 <= i < rest.len() implies !is_blank(#[trigger] rest[i]) && trim(
            rest[i],
        ) == rest[i] by {
            assert(rest[i] == parts[i]);
        }
        assert(!is_blank(parts[parts.len() - 1]));
        lemma_full_parts(rest);
        assert(rest.push(parts.last()) =~= parts);
    } else {
        assert(full_parts(parts) =~= parts);
    }
}

/// A part that is blank lists nothing, and one more that is not lists one more name.
pub proof fn lemma_names_on(raw: Seq<char>, part: Seq<char>)
    requires
        lacks(part, ','),
    ensures
        is_blank(part) ==> listed_names(raw + seq![','] + part) == listed_names(raw),
        !is_blank(part) ==> listed_names(raw + seq![','] + part) == listed_names(raw).push(
            trim(part),
        ),
{
    lemma_split_around(raw, ',', part, just(','));
    lemma_split_whole(part, just(','));
    let parts = split_where(raw, just(','));
    assert(parts + seq![part] =~= parts.push(part));
    assert(parts.push(part).drop_last() =~= parts);
}

/// The user is told of each bound that a field has, with its number, and of none that it has not.
pub proof fn lemma_kind_lines(kind: FieldKindView)
    ensures
        ({
            let lines = kind_lines(kind);
            &&& kind matches FieldKindView::Text { min_length, max_length, pattern, format } ==> {
                &&& lines[0] == "Enter text."@
                &&& min_length matches Some(least) ==> lines.contains(
                    "Use at least "@ + decimal(least as nat) + " characters."@,
                )
                &&& max_length matches Some(most) ==> lines.contains(
                    "Use no more than "@ + decimal(most as nat) + " characters."@,
                )
                &&& pattern matches Some(pattern) ==> lines.contains(
                    "Must follow this pattern: "@ + pattern + "."@,
                )
                &&& min_length is None && max_length is None && pattern is None && format is None
                    ==> lines.len() == 1
            }
            &&& kind matches FieldKindView::Number { integer, minimum, maximum } ==> {
                &&& integer ==> lines[0] == "Enter a whole number."@
                &&& !integer ==> lines[0] == "Enter a number."@
                &&& minimum matches Some(least) ==> lines.contains(
                    "Must be at least "@ + least.text + "."@,
                )
                &&& maximum matches Some(most) ==> lines.contains(
                    "Must be at most "@ + most.text + "."@,
                )
                &&& minimum is None && maximum is None ==> lines.len() == 1
            }
            &&& kind matches FieldKindView::MultiSelectEnum { choices, min_items, max_items } ==> {
                &&& lines[2] == "Available options: "@ + join(
                    Seq::new(choices.len(), |i: int| choices[i].label),
                    ", "@,
                ) + "."@
                &&& min_items matches Some(least) ==> lines.contains(
                    "Choose at least "@ + decimal(least as nat) + "."@,
                )
                &&& max_items matches Some(most) ==> lines.contains(
                    "Choose no more than "@ + decimal(most as nat) + "."@,
                )
            }
        }),
{
    let lines = kind_lines(kind);
    match kind {
        FieldKindView::Text { min_length, max_length, pattern, format } => {
            let formatted: int = if format is Some {
                1
            } else {
                0
            };
            let least: int = if min_length is Some {
                1
            } else {
                0
            };
            let most: int = if max_length is Some {
                1
            } else {
                0
            };
            if let Some(limit) = min_length {
                assert(lines[1 + formatted] == "Use at least "@ + decimal(limit as nat)
                    + " characters."@);
            }
            if let Some(limit) = max_length {
                assert(lines[1 + formatted + least] == "Use no more than "@ + decimal(limit as nat)
                    + " characters."@);
            }
            if let Some(text) = pattern {
                assert(lines[1 + formatted + least + most] == "Must follow this pattern: "@ + text
                    + "."@);
            }
        },
        FieldKindView::Number { integer, minimum, maximum } => {
            let least: int = if minimum is Some {
                1
            } else {
                0
            };
            if let Some(limit) = minimum {
                assert(lines[1] == "Must be at least "@ + limit.text + "."@);
            }
            if let Some(limit) = maximum {
                assert(lines[1 + least] == "Must be at most "@ + limit.text + "."@);
            }
        },
        FieldKindView::MultiSelectEnum { choices, min_items, max_items } => {
            assert(labels(choices) =~= Seq::new(choices.len(), |i: int| choices[i].label));
            let least: int = if min_items is Some {
                1
            } else {
                0
            };
            if let Some(limit) = min_items {
                assert(lines[3] == "Choose at least "@ + decimal(limit as nat) + "."@);
            }
            if let Some(limit) = max_items {
                assert(lines[3 + least] == "Choose no more than "@ + decimal(limit as nat) + "."@);
            }
        },
        _ => {},
    }
}

} // verus!
