//! The form that a request of a tool server brings with it.

use vstd::prelude::*;

use crate::elicitation_form::is_required;
use crate::elicitation_form::lemma_with_member;
use crate::elicitation_form::put_member;
use crate::elicitation_form::requires_property;
use crate::elicitation_form::with_member;
use crate::json::float_number;
use crate::json::float_value;
use crate::json::integer_number;
use crate::json::json_get;
use crate::json::json_items;
use crate::json::json_members;
use crate::json::json_text_of;
use crate::json::json_value_of;
use crate::json::lemma_json_view;
use crate::json::member;
use crate::json::opt_double;
use crate::json::opt_json_owned;
use crate::json::read_json;
use crate::json::DoubleView;
use crate::json::FloatReading;
use crate::json::FloatReadingView;
use crate::json::JsonNumber;
use crate::json::JsonValue;
use crate::json::JsonView;
use crate::json::TextReading;
use crate::numbers::parse_i64;
use crate::numbers::signed_value;
use crate::text::blank;
use crate::text::is_blank;
use crate::text::opt_text;
use crate::text::plus;
use crate::text::plus3;
use crate::text::push_text;
use crate::text::same_text;
use crate::text::texts;
use crate::text::trim;
use crate::text::trimmed;

verus! {

// ---------------------------------------------------------------------------------------------
// Fields
// ---------------------------------------------------------------------------------------------

/// What a field holds.
#[derive(Clone, Copy, Debug, PartialEq, Eq, Structural)]
pub enum ElicitationFieldType {
    /// `true` or `false`.
    Boolean,
    /// A whole number.
    Integer,
    /// A number.
    Number,
    /// A list.
    Array,
    /// Named values.
    Object,
    /// A text.
    Text,
    /// Anything.
    Unknown,
}

/// A field of a form.
#[derive(Clone, Debug, PartialEq, Eq)]
pub struct ElicitationFormField {
    /// Its name.
    pub name: String,
    /// What it holds.
    pub field_type: ElicitationFieldType,
    /// Whether it has to be filled in.
    pub required: bool,
    /// Its title.
    pub title: Option<String>,
}

/// A field of a form, with texts as characters.
#[verifier::ext_equal]
pub struct FormFieldView {
    /// Its name.
    pub name: Seq<char>,
    /// What it holds.
    pub field_type: ElicitationFieldType,
    /// Whether it has to be filled in.
    pub required: bool,
    /// Its title.
    pub title: Option<Seq<char>>,
}

impl View for ElicitationFormField {
    type V = FormFieldView;

    open spec fn view(&self) -> FormFieldView {
        FormFieldView {
            name: self.name@,
            field_type: self.field_type,
            required: self.required,
            title: opt_text(self.title),
        }
    }
}

/// Fields of a form, with texts as characters.
pub open spec fn form_field_views(fields: Seq<ElicitationFormField>) -> Seq<FormFieldView> {
    Seq::new(fields.len(), |i: int| fields[i]@)
}

/// The field of a form that asks for nothing in particular.
pub open spec fn notes_field() -> FormFieldView {
    FormFieldView {
        name: "response"@,
        field_type: ElicitationFieldType::Text,
        required: false,
        title: None,
    }
}

impl ElicitationFormField {
    /// The field of a form that asks for nothing in particular.
    pub fn notes() -> (field: ElicitationFormField)
        ensures
            field@ == notes_field(),
    {
        ElicitationFormField {
            name: "response".to_owned(),
            field_type: ElicitationFieldType::Text,
            required: false,
            title: None,
        }
    }
}

/// What a field of a type of some name holds.
pub open spec fn type_of_name(name: Seq<char>) -> ElicitationFieldType {
    if name == "boolean"@ {
        ElicitationFieldType::Boolean
    } else if name == "integer"@ {
        ElicitationFieldType::Integer
    } else if name == "number"@ {
        ElicitationFieldType::Number
    } else if name == "object"@ {
        ElicitationFieldType::Object
    } else if name == "array"@ {
        ElicitationFieldType::Array
    } else if name == "string"@ {
        ElicitationFieldType::Text
    } else {
        ElicitationFieldType::Unknown
    }
}

/// What a field of a type of some name holds.
pub fn parse_schema_type_str(field_type: &str) -> (kind: ElicitationFieldType)
    ensures
        kind == type_of_name(field_type@),
{
    if same_text(field_type, "boolean") {
        ElicitationFieldType::Boolean
    } else if same_text(field_type, "integer") {
        ElicitationFieldType::Integer
    } else if same_text(field_type, "number") {
        ElicitationFieldType::Number
    } else if same_text(field_type, "object") {
        ElicitationFieldType::Object
    } else if same_text(field_type, "array") {
        ElicitationFieldType::Array
    } else if same_text(field_type, "string") {
        ElicitationFieldType::Text
    } else {
        ElicitationFieldType::Unknown
    }
}

/// What a field holds whose type is the first of a list that is understood.
pub open spec fn first_known_type(types: Seq<JsonView>) -> ElicitationFieldType
    decreases types.len(),
{
    if types.len() == 0 {
        ElicitationFieldType::Unknown
    } else {
        match types[0] {
            JsonView::Text(name) => if type_of_name(name) != ElicitationFieldType::Unknown {
                type_of_name(name)
            } else {
                first_known_type(types.drop_first())
            },
            _ => first_known_type(types.drop_first()),
        }
    }
}

/// Of a list of types, those that are not understood, such as `null`, count for nothing before
/// one that is.
pub proof fn lemma_first_known_type(
    before: Seq<JsonView>,
    name: Seq<char>,
    after: Seq<JsonView>,
)
    requires
        forall|i: int|
            0 <= i < before.len() ==> ((#[trigger] before[i]) matches JsonView::Text(other)
                ==> type_of_name(other) == ElicitationFieldType::Unknown),
        type_of_name(name) != ElicitationFieldType::Unknown,
    ensures
        first_known_type(before + seq![JsonView::Text(name)] + after) == type_of_name(name),
        first_known_type(before) == ElicitationFieldType::Unknown,
    decreases before.len(),
{
    let all = before + seq![JsonView::Text(name)] + after;
    if before.len() > 0 {
        let rest = before.drop_first();
        assert(before[0] matches JsonView::Text(other) ==> type_of_name(other)
            == ElicitationFieldType::Unknown);
        assert forall|i: int| 0 <= i < rest.len() implies ((#[trigger] rest[i])
            matches JsonView::Text(other) ==> type_of_name(other)
            == ElicitationFieldType::Unknown) by {
            assert(rest[i] == before[i + 1]);
        }
        lemma_first_known_type(rest, name, after);
        assert(all.drop_first() =~= rest + seq![JsonView::Text(name)] + after);
    }
}

/// What a field of some type holds.
pub open spec fn type_of(value: JsonView) -> ElicitationFieldType {
    match value {
        JsonView::Text(name) => type_of_name(name),
        JsonView::Array(types) => first_known_type(types),
        _ => ElicitationFieldType::Unknown,
    }
}

/// What a field of some type holds: of a list of types, the first that is understood counts.
pub fn parse_schema_type(value: &JsonValue) -> (kind: ElicitationFieldType)
    ensures
        kind == type_of(value@),
{
    if let Some(name) = value.as_str() {
        return parse_schema_type_str(name.as_str());
    }
    let types = match value.as_array() {
        Some(types) => types,
        None => return ElicitationFieldType::Unknown,
    };
    let ghost all = json_items(types@);
    let mut at: usize = 0;
    assert(all.skip(0) =~= all);
    while at < types.len()
        invariant
            all == json_items(types@),
            at <= types@.len(),
            type_of(value@) == first_known_type(all),
            first_known_type(all) == first_known_type(all.skip(at as int)),
        decreases types@.len() - at,
    {
        proof {
            assert(all.skip(at as int)[0] == types@[at as int]@);
            assert(all.skip(at as int).drop_first() =~= all.skip(at + 1));
        }
        if let Some(name) = types[at].as_str() {
            let kind = parse_schema_type_str(name.as_str());
            if kind != ElicitationFieldType::Unknown {
                return kind;
            }
        }
        at += 1;
    }
    ElicitationFieldType::Unknown
}

/// The field of a property.
pub open spec fn form_field(schema: JsonView, name: Seq<char>, property: JsonView) -> FormFieldView {
    FormFieldView {
        name,
        field_type: match json_get(property, "type"@) {
            Some(value) => type_of(value),
            None => ElicitationFieldType::Unknown,
        },
        required: is_required(schema, name),
        title: json_text_of(json_get(property, "title"@)),
    }
}

/// The fields of some properties.
pub open spec fn form_fields(schema: JsonView, properties: Seq<(Seq<char>, JsonView)>) -> Seq<
    FormFieldView,
> {
    Seq::new(properties.len(), |i: int| form_field(schema, properties[i].0, properties[i].1))
}

/// The fields of a schema; none where it lists no properties.
pub open spec fn listed_fields(schema: JsonView) -> Option<Seq<FormFieldView>> {
    match json_get(schema, "properties"@) {
        Some(JsonView::Object(properties)) => Some(form_fields(schema, properties)),
        _ => None,
    }
}

/// The fields of a schema; none where it lists no properties.
pub fn parse_elicitation_schema_fields(requested_schema: &JsonValue) -> (fields: Option<
    Vec<ElicitationFormField>,
>)
    ensures
        match fields {
            Some(fields) => listed_fields(requested_schema@) == Some(form_field_views(fields@)),
            None => listed_fields(requested_schema@) is None,
        },
{
    let properties = match requested_schema.get("properties") {
        Some(value) => match value.as_object() {
            Some(properties) => properties,
            None => return None,
        },
        None => return None,
    };
    let ghost all = form_fields(requested_schema@, json_members(properties@));
    let mut fields: Vec<ElicitationFormField> = Vec::new();
    let mut at: usize = 0;
    assert(form_field_views(fields@) =~= all.take(0));
    while at < properties.len()
        invariant
            all == form_fields(requested_schema@, json_members(properties@)),
            at <= properties@.len(),
            form_field_views(fields@) == all.take(at as int),
        decreases properties@.len() - at,
    {
        let ghost before = form_field_views(fields@);
        let name = properties[at].0.as_str();
        let property = &properties[at].1;
        let field_type = match property.get("type") {
            Some(value) => parse_schema_type(value),
            None => ElicitationFieldType::Unknown,
        };
        let title = match property.get("title") {
            Some(JsonValue::Text(title)) => Some(title.clone()),
            _ => None,
        };
        let required = requires_property(requested_schema, name);
        let field = ElicitationFormField { name: name.to_owned(), field_type, required, title };
        fields.push(field);
        proof {
            assert(form_field_views(fields@) =~= before.push(field@));
            assert(all.take(at + 1) =~= all.take(at as int).push(all[at as int]));
            assert(field@ == all[at as int]);
        }
        at += 1;
    }
    assert(all.take(at as int) =~= all);
    Some(fields)
}

// ---------------------------------------------------------------------------------------------
// Values
// ---------------------------------------------------------------------------------------------

/// What was filled in, read as a number and as JSON, with texts as characters.
pub struct InputReadingView {
    /// The text read as an integer.
    pub integer: Option<DoubleView>,
    /// The text read as a number.
    pub float: FloatReadingView,
    /// The text read as JSON.
    pub json: Option<JsonView>,
}

/// What was filled in, read as JSON too.
pub open spec fn input_reading(input: Seq<char>, number: TextReading) -> InputReadingView {
    InputReadingView {
        integer: opt_double(number.integer),
        float: number.float@,
        json: json_value_of(trim(input)),
    }
}

/// A number in double precision as a value, or a text that is none.
pub open spec fn float_or_text(text: Seq<char>, float: FloatReadingView) -> JsonView {
    match float {
        FloatReadingView::NotANumber => JsonView::Text(text),
        FloatReadingView::NonFinite => JsonView::Null,
        FloatReadingView::Finite(json, double) => JsonView::Number(float_number(json, double)),
    }
}

/// What was filled in, as a value: what the field holds, or else a text.
pub open spec fn input_value(
    input: Seq<char>,
    field_type: ElicitationFieldType,
    reading: InputReadingView,
) -> JsonView {
    let text = trim(input);
    match field_type {
        ElicitationFieldType::Boolean => if text == "true"@ {
            JsonView::Bool(true)
        } else if text == "false"@ {
            JsonView::Bool(false)
        } else {
            JsonView::Text(text)
        },
        ElicitationFieldType::Integer => match signed_value(text) {
            Ok(number) => JsonView::Number(integer_number(number, reading.integer)),
            Err(_) => float_or_text(text, reading.float),
        },
        ElicitationFieldType::Number => float_or_text(text, reading.float),
        ElicitationFieldType::Array | ElicitationFieldType::Object => match reading.json {
            Some(value) => value,
            None => JsonView::Text(text),
        },
        ElicitationFieldType::Text | ElicitationFieldType::Unknown => JsonView::Text(text),
    }
}

/// A number in double precision as a value, or a text that is none.
fn read_float(text: String, float: &FloatReading) -> (value: JsonValue)
    ensures
        value@ == float_or_text(text@, float@),
{
    match float {
        FloatReading::NotANumber => JsonValue::Text(text),
        FloatReading::NonFinite => JsonValue::Null,
        FloatReading::Finite { json, double } => float_value(json, double),
    }
}

/// What was filled in, as a value. `number` and `json` are the text without the white space around
/// it, read as a number and as JSON.
pub fn parse_input_value(
    input: &str,
    field_type: ElicitationFieldType,
    number: &TextReading,
    json: Option<JsonValue>,
) -> (value: JsonValue)
    ensures
        value@ == input_value(
            input@,
            field_type,
            InputReadingView {
                integer: opt_double(number.integer),
                float: number.float@,
                json: opt_json_owned(json),
            },
        ),
{
    let text = trimmed(input);
    match field_type {
        ElicitationFieldType::Boolean => if same_text(text.as_str(), "true") {
            JsonValue::Bool(true)
        } else if same_text(text.as_str(), "false") {
            JsonValue::Bool(false)
        } else {
            JsonValue::Text(text)
        },
        ElicitationFieldType::Integer => match parse_i64(text.as_str()) {
            Ok(parsed) => JsonValue::Number(
                JsonNumber::from_i64(parsed, &number.integer),
            ),
            Err(_) => read_float(text, &number.float),
        },
        ElicitationFieldType::Number => read_float(text, &number.float),
        ElicitationFieldType::Array => match json {
            Some(value) => value,
            None => JsonValue::Text(text),
        },
        ElicitationFieldType::Object => match json {
            Some(value) => value,
            None => JsonValue::Text(text),
        },
        ElicitationFieldType::Text => JsonValue::Text(text),
        ElicitationFieldType::Unknown => JsonValue::Text(text),
    }
}

/// What was filled in, as a value. `number` is the text without the white space around it, read as
/// a number.
pub fn read_input(input: &str, field_type: ElicitationFieldType, number: &TextReading) -> (value:
    JsonValue)
    ensures
        value@ == input_value(input@, field_type, input_reading(input@, *number)),
{
    let json = match field_type {
        ElicitationFieldType::Array => read_json(trimmed(input).as_str()),
        ElicitationFieldType::Object => read_json(trimmed(input).as_str()),
        _ => None,
    };
    parse_input_value(input, field_type, number, json)
}

// ---------------------------------------------------------------------------------------------
// The form
// ---------------------------------------------------------------------------------------------

/// A form that is being filled in. The fields are filled in one after another in one line of
/// input.
#[derive(Clone, Debug, PartialEq, Eq)]
pub struct ElicitationFormState {
    /// The fields.
    pub fields: Vec<ElicitationFormField>,
    /// What was filled in so far, for each field.
    pub values: Vec<String>,
    /// The field that is being filled in.
    pub current_field: usize,
    /// Whether a field is being filled in.
    pub is_editing: bool,
    /// What the line of input holds.
    pub text: String,
    /// What the line of input shows where it holds nothing.
    pub placeholder: String,
}

/// A form that is being filled in, with texts as characters.
#[verifier::ext_equal]
pub struct FormView {
    /// The fields.
    pub fields: Seq<FormFieldView>,
    /// What was filled in so far, for each field.
    pub values: Seq<Seq<char>>,
    /// The field that is being filled in.
    pub current_field: int,
    /// Whether a field is being filled in.
    pub is_editing: bool,
    /// What the line of input holds.
    pub text: Seq<char>,
    /// What the line of input shows where it holds nothing.
    pub placeholder: Seq<char>,
}

impl View for ElicitationFormState {
    type V = FormView;

    open spec fn view(&self) -> FormView {
        FormView {
            fields: form_field_views(self.fields@),
            values: texts(self.values@),
            current_field: self.current_field as int,
            is_editing: self.is_editing,
            text: self.text@,
            placeholder: self.placeholder@,
        }
    }
}

impl ElicitationFormState {
    /// Whether there is a value for each field, and the current field is one of them.
    pub open spec fn wf(&self) -> bool {
        &&& self.fields@.len() == self.values@.len()
        &&& self.fields@.len() == 0 || self.current_field < self.fields@.len()
    }
}

/// The name of a field as it is shown.
pub open spec fn field_label(field: FormFieldView) -> Seq<char> {
    let titled = match field.title {
        Some(title) => field.name + " ("@ + title + ")"@,
        None => field.name,
    };
    if field.required {
        titled + " *"@
    } else {
        titled
    }
}

/// What the line of input shows where it holds nothing.
pub open spec fn placeholder_of(fields: Seq<FormFieldView>, at: int) -> Seq<char> {
    (if 0 <= at < fields.len() {
        field_label(fields[at])
    } else {
        "Response"@
    }) + ": "@
}

/// A form of which nothing is filled in.
pub open spec fn fresh_form(fields: Seq<FormFieldView>) -> FormView {
    FormView {
        fields,
        values: Seq::new(fields.len(), |i: int| Seq::empty()),
        current_field: 0,
        is_editing: false,
        text: Seq::empty(),
        placeholder: placeholder_of(fields, 0),
    }
}

/// A form whose current field is being filled in.
pub open spec fn form_editing(form: FormView) -> FormView {
    FormView {
        is_editing: true,
        text: if 0 <= form.current_field < form.values.len() {
            form.values[form.current_field]
        } else {
            form.text
        },
        placeholder: placeholder_of(form.fields, form.current_field),
        ..form
    }
}

/// A form whose current field was filled in: the next is, or else none is any more.
pub open spec fn form_submitted(form: FormView) -> FormView {
    let filled = FormView {
        values: if 0 <= form.current_field < form.values.len() {
            form.values.update(form.current_field, form.text)
        } else {
            form.values
        },
        text: Seq::empty(),
        ..form
    };
    if form.current_field + 1 < form.fields.len() {
        FormView {
            current_field: form.current_field + 1,
            placeholder: placeholder_of(form.fields, form.current_field + 1),
            ..filled
        }
    } else {
        FormView { is_editing: false, ..filled }
    }
}

/// Whether a field that has to be filled in is not.
pub open spec fn is_missing(form: FormView, at: int) -> bool {
    form.fields[at].required && is_blank(form.values[at])
}

/// Whether the field at a place is the first that has to be filled in and is not.
pub open spec fn is_first_missing(form: FormView, at: int) -> bool {
    &&& 0 <= at < form.fields.len()
    &&& is_missing(form, at)
    &&& forall|i: int| 0 <= i < at ==> !#[trigger] is_missing(form, i)
}

/// Whether a field that has to be filled in is not.
pub open spec fn any_missing(form: FormView) -> bool {
    exists|at: int| 0 <= at < form.fields.len() && #[trigger] is_missing(form, at)
}

/// A form whose first field that has to be filled in, and is not, is being filled in.
pub open spec fn form_focused(form: FormView) -> FormView {
    form_editing(
        FormView { current_field: choose|at: int| is_first_missing(form, at), ..form },
    )
}

/// There is at most one first field that has to be filled in and is not.
proof fn lemma_first_missing(form: FormView, at: int)
    requires
        is_first_missing(form, at),
    ensures
        (choose|i: int| is_first_missing(form, i)) == at,
{
    let chosen = choose|i: int| is_first_missing(form, i);
    assert(is_first_missing(form, chosen));
    if chosen < at {
        assert(is_missing(form, chosen));
    } else if at < chosen {
        assert(is_missing(form, at));
    }
}

/// What was filled in, read as a number; nothing is where the list is too short.
pub open spec fn number_reading_at(readings: Seq<TextReading>, at: int) -> TextReading {
    if 0 <= at < readings.len() {
        readings[at]
    } else {
        TextReading { integer: None, float: FloatReading::NotANumber }
    }
}

/// What was filled in for the first so many fields.
pub open spec fn filled_in(form: FormView, readings: Seq<TextReading>, count: nat) -> Seq<
    (Seq<char>, JsonView),
>
    decreases count,
{
    if count == 0 {
        Seq::empty()
    } else {
        let at = count - 1;
        let earlier = filled_in(form, readings, at as nat);
        if is_blank(form.values[at]) {
            earlier
        } else {
            with_member(
                earlier,
                form.fields[at].name,
                input_value(
                    form.values[at],
                    form.fields[at].field_type,
                    input_reading(form.values[at], number_reading_at(readings, at)),
                ),
            )
        }
    }
}

/// What was filled in, where anything was.
pub open spec fn form_value(form: FormView, readings: Seq<TextReading>) -> Option<JsonView> {
    let members = filled_in(form, readings, form.fields.len());
    if members.len() == 0 {
        None
    } else {
        Some(JsonView::Object(members))
    }
}

impl ElicitationFormState {
    /// A form of which nothing is filled in.
    pub fn new(fields: Vec<ElicitationFormField>) -> (form: ElicitationFormState)
        ensures
            form.wf(),
            form@ == fresh_form(form_field_views(fields@)),
    {
        let mut values: Vec<String> = Vec::new();
        let mut at: usize = 0;
        while at < fields.len()
            invariant
                at <= fields@.len(),
                values@.len() == at,
                forall|i: int|
                    0 <= i < at ==> (#[trigger] texts(values@)[i]) == Seq::<char>::empty(),
            decreases fields@.len() - at,
        {
            let ghost before = texts(values@);
            push_text(&mut values, String::new());
            assert(texts(values@).len() == before.len() + 1);
            at += 1;
        }
        let mut form = ElicitationFormState {
            fields,
            values,
            current_field: 0,
            is_editing: false,
            text: String::new(),
            placeholder: String::new(),
        };
        form.update_placeholder();
        assert(form@.values =~= fresh_form(form_field_views(fields@)).values);
        form
    }

    /// Shows the name of the current field where the line of input holds nothing.
    pub fn update_placeholder(&mut self)
        requires
            old(self).wf(),
        ensures
            final(self).wf(),
            final(self)@ == (FormView {
                placeholder: placeholder_of(old(self)@.fields, old(self)@.current_field),
                ..old(self)@
            }),
    {
        let label = if self.current_field < self.fields.len() {
            let field = &self.fields[self.current_field];
            assert(self@.fields[self.current_field as int] == field@);
            let titled = match &field.title {
                Some(title) => plus(
                    plus3(field.name.as_str(), " (", title.as_str()).as_str(),
                    ")",
                ),
                None => field.name.clone(),
            };
            if field.required {
                plus(titled.as_str(), " *")
            } else {
                titled
            }
        } else {
            "Response".to_owned()
        };
        self.placeholder = plus(label.as_str(), ": ");
    }

    /// Takes in what the line of input holds.
    pub fn set_text(&mut self, text: String)
        requires
            old(self).wf(),
        ensures
            final(self).wf(),
            final(self)@ == (FormView { text: text@, ..old(self)@ }),
    {
        self.text = text;
    }

    /// Begins to fill in the current field.
    pub fn start_editing(&mut self)
        requires
            old(self).wf(),
        ensures
            final(self).wf(),
            final(self)@ == form_editing(old(self)@),
    {
        self.is_editing = true;
        if self.current_field < self.values.len() {
            assert(self@.values[self.current_field as int]
                == self.values@[self.current_field as int]@);
            self.text = self.values[self.current_field].clone();
        }
        self.update_placeholder();
    }

    /// Fills in the current field with what the line of input holds, and goes on to the next.
    pub fn submit_current_field(&mut self)
        requires
            old(self).wf(),
        ensures
            final(self).wf(),
            final(self)@ == form_submitted(old(self)@),
    {
        let ghost before = self@;
        if self.current_field < self.values.len() {
            self.values.set(self.current_field, self.text.clone());
            assert(self@.values =~= before.values.update(before.current_field, before.text));
        }
        self.text = String::new();
        if self.fields.len() > 0 && self.current_field < self.fields.len() - 1 {
            self.current_field = self.current_field + 1;
            self.update_placeholder();
            return ;
        }
        self.is_editing = false;
    }

    /// What was filled in, where anything was. `readings` holds what was filled in for each
    /// field, without the white space around it, read as a number.
    pub fn to_value(&self, readings: &Vec<TextReading>) -> (value: Option<JsonValue>)
        requires
            self.wf(),
        ensures
            opt_json_owned(value) == form_value(self@, readings@),
    {
        let unread = TextReading { integer: None, float: FloatReading::NotANumber };
        let mut members: Vec<(String, JsonValue)> = Vec::new();
        let mut at: usize = 0;
        assert(json_members(members@) =~= Seq::<(Seq<char>, JsonView)>::empty());
        while at < self.fields.len()
            invariant
                self.wf(),
                at <= self.fields@.len(),
                unread == (TextReading { integer: None, float: FloatReading::NotANumber }),
                json_members(members@) == filled_in(self@, readings@, at as nat),
            decreases self.fields@.len() - at,
        {
            proof {
                assert(self@.values[at as int] == self.values@[at as int]@);
                assert(self@.fields[at as int] == self.fields@[at as int]@);
            }
            if !blank(self.values[at].as_str()) {
                let reading = if at < readings.len() {
                    &readings[at]
                } else {
                    &unread
                };
                let value = read_input(
                    self.values[at].as_str(),
                    self.fields[at].field_type,
                    reading,
                );
                put_member(&mut members, self.fields[at].name.clone(), value);
            }
            at += 1;
        }
        if members.len() == 0 {
            None
        } else {
            let value = JsonValue::Object(members);
            proof {
                lemma_json_view(value);
            }
            Some(value)
        }
    }

    /// The first field that has to be filled in and is not.
    fn first_missing(&self) -> (place: Option<usize>)
        requires
            self.wf(),
        ensures
            match place {
                Some(place) => is_first_missing(self@, place as int),
                None => !any_missing(self@),
            },
    {
        let mut at: usize = 0;
        while at < self.fields.len()
            invariant
                self.wf(),
                at <= self.fields@.len(),
                forall|i: int| 0 <= i < at ==> !#[trigger] is_missing(self@, i),
            decreases self.fields@.len() - at,
        {
            proof {
                assert(self@.values[at as int] == self.values@[at as int]@);
                assert(self@.fields[at as int] == self.fields@[at as int]@);
            }
            if self.fields[at].required && blank(self.values[at].as_str()) {
                assert(is_missing(self@, at as int));
                return Some(at);
            }
            at += 1;
        }
        None
    }

    /// Whether a field that has to be filled in is not.
    pub fn has_missing_required_fields(&self) -> (missing: bool)
        requires
            self.wf(),
        ensures
            missing == any_missing(self@),
    {
        match self.first_missing() {
            Some(place) => {
                assert(is_missing(self@, place as int));
                true
            },
            None => false,
        }
    }

    /// Goes to the first field that has to be filled in and is not.
    pub fn focus_first_missing_required_field(&mut self)
        requires
            old(self).wf(),
        ensures
            final(self).wf(),
            final(self)@ == (if any_missing(old(self)@) {
                form_focused(old(self)@)
            } else {
                old(self)@
            }),
    {
        if let Some(place) = self.first_missing() {
            proof {
                assert(is_missing(self@, place as int));
                lemma_first_missing(self@, place as int);
            }
            self.current_field = place;
            self.start_editing();
        }
    }
}

/// Filling in a field and going back to it shows what was filled in; the other fields keep what
/// they hold.
pub proof fn lemma_submit_keeps(form: FormView, back: int)
    requires
        form.fields.len() == form.values.len(),
        0 <= form.current_field < form.fields.len(),
        0 <= back < form.fields.len(),
    ensures
        form_editing(FormView { current_field: back, ..form_submitted(form) }).text == (if back
            == form.current_field {
            form.text
        } else {
            form.values[back]
        }),
{
}

/// What was filled in for each field is in the value of the form, under the field's name and as
/// what the field holds; a field that holds nothing but white space is left out. A form has a value
/// where any field holds more than that.
pub proof fn lemma_filled_in(form: FormView, readings: Seq<TextReading>, count: nat)
    requires
        form.fields.len() == form.values.len(),
        count <= form.fields.len(),
        forall|i: int, j: int|
            0 <= i < j < form.fields.len() ==> (#[trigger] form.fields[i]).name != (
            #[trigger] form.fields[j]).name,
    ensures
        forall|i: int|
            0 <= i < count ==> member(
                filled_in(form, readings, count),
                (#[trigger] form.fields[i]).name,
            ) == (if is_blank(form.values[i]) {
                None
            } else {
                Some(
                    input_value(
                        form.values[i],
                        form.fields[i].field_type,
                        input_reading(form.values[i], number_reading_at(readings, i)),
                    ),
                )
            }),
        forall|name: Seq<char>|
            (#[trigger] member(filled_in(form, readings, count), name)) is Some ==> exists|i: int|
                0 <= i < count && (#[trigger] form.fields[i]).name == name,
        filled_in(form, readings, count).len() == 0 <==> forall|i: int|
            0 <= i < count ==> is_blank(#[trigger] form.values[i]),
    decreases count,
{
    if count > 0 {
        let at = count - 1;
        lemma_filled_in(form, readings, at as nat);
        let earlier = filled_in(form, readings, at as nat);
        let all = filled_in(form, readings, count);
        let name = form.fields[at].name;
        if member(earlier, name) is Some {
            let i = choose|i: int| 0 <= i < at && (#[trigger] form.fields[i]).name == name;
            assert(form.fields[i].name != form.fields[at].name);
        }
        if !is_blank(form.values[at]) {
            let value = input_value(
                form.values[at],
                form.fields[at].field_type,
                input_reading(form.values[at], number_reading_at(readings, at)),
            );
            lemma_with_member(earlier, name, value);
            assert forall|i: int| 0 <= i < count implies member(
                all,
                (#[trigger] form.fields[i]).name,
            ) == (if is_blank(form.values[i]) {
                None
            } else {
                Some(
                    input_value(
                        form.values[i],
                        form.fields[i].field_type,
                        input_reading(form.values[i], number_reading_at(readings, i)),
                    ),
                )
            }) by {
                if i < at {
                    assert(form.fields[i].name != form.fields[at].name);
                }
            }
            assert(member(all, name) is Some);
            assert(all.len() > 0);
        }
        assert forall|other: Seq<char>|
            (#[trigger] member(all, other)) is Some implies exists|i: int|
            0 <= i < count && (#[trigger] form.fields[i]).name == other by {
            if other == name {
                assert(form.fields[at].name == other);
            } else {
                assert(member(earlier, other) is Some);
                let i = choose|i: int| 0 <= i < at && (#[trigger] form.fields[i]).name == other;
                assert(form.fields[i].name == other);
            }
        }
    }
}

/// What a form comes to: an object with what was filled in for each field, or nothing where nothing
/// was.
pub proof fn lemma_form_value(form: FormView, readings: Seq<TextReading>)
    requires
        form.fields.len() == form.values.len(),
        forall|i: int, j: int|
            0 <= i < j < form.fields.len() ==> (#[trigger] form.fields[i]).name != (
            #[trigger] form.fields[j]).name,
    ensures
        match form_value(form, readings) {
            Some(value) => value matches JsonView::Object(members) && forall|i: int|
                0 <= i < form.fields.len() ==> member(members, (#[trigger] form.fields[i]).name)
                    == (if is_blank(form.values[i]) {
                    None
                } else {
                    Some(
                        input_value(
                            form.values[i],
                            form.fields[i].field_type,
                            input_reading(form.values[i], number_reading_at(readings, i)),
                        ),
                    )
                }),
            None => forall|i: int|
                0 <= i < form.values.len() ==> is_blank(#[trigger] form.values[i]),
        },
{
    lemma_filled_in(form, readings, form.fields.len());
}

/// What a text comes to in a field of each type. A field for text, and one of no type that is
/// understood, take the text as it is but for the white space around it, whatever it looks like. A
/// field for yes or no takes `true` and `false`, one for whole numbers a whole number, one for
/// numbers a number, and one for a list or an object what the text is in JSON. Any other text is
/// taken as a text rather than refused.
pub proof fn lemma_input_value(
    input: Seq<char>,
    field_type: ElicitationFieldType,
    reading: InputReadingView,
)
    ensures
        ({
            let value = input_value(input, field_type, reading);
            let text = JsonView::Text(trim(input));
            &&& field_type == ElicitationFieldType::Text || field_type
                == ElicitationFieldType::Unknown ==> value == text
            &&& field_type == ElicitationFieldType::Boolean ==> {
                &&& trim(input) == "true"@ ==> value == JsonView::Bool(true)
                &&& trim(input) == "false"@ ==> value == JsonView::Bool(false)
                &&& trim(input) != "true"@ && trim(input) != "false"@ ==> value == text
            }
            &&& field_type == ElicitationFieldType::Integer ==> {
                &&& signed_value(trim(input)) matches Ok(number) ==> value == JsonView::Number(
                    integer_number(number, reading.integer),
                )
                &&& signed_value(trim(input)) is Err && reading.float is NotANumber ==> value
                    == text
            }
            &&& field_type == ElicitationFieldType::Number || (field_type
                == ElicitationFieldType::Integer && signed_value(trim(input)) is Err) ==> {
                &&& reading.float matches FloatReadingView::Finite(json, double) ==> value
                    == JsonView::Number(float_number(json, double))
                &&& reading.float is NonFinite ==> value == JsonView::Null
                &&& reading.float is NotANumber ==> value == text
            }
            &&& field_type == ElicitationFieldType::Array || field_type
                == ElicitationFieldType::Object ==> {
                &&& reading.json matches Some(read) ==> value == read
                &&& reading.json is None ==> value == text
            }
        }),
{
    reveal_strlit("true");
    reveal_strlit("false");
    assert("true"@.len() != "false"@.len());
}

/// Filling in a field takes what the line of input holds for that field, leaves the others alone,
/// and goes on to the next field with an empty line; behind the last, no field is being filled in.
pub proof fn lemma_form_submitted(form: FormView)
    requires
        form.fields.len() == form.values.len(),
        0 <= form.current_field < form.fields.len(),
    ensures
        ({
            let after = form_submitted(form);
            &&& after.fields == form.fields
            &&& after.values.len() == form.values.len()
            &&& after.values[form.current_field] == form.text
            &&& forall|i: int|
                0 <= i < form.values.len() && i != form.current_field
                    ==> #[trigger] after.values[i] == form.values[i]
            &&& after.text.len() == 0
            &&& form.current_field + 1 < form.fields.len() ==> after.current_field
                == form.current_field + 1 && after.is_editing == form.is_editing
                && after.placeholder == placeholder_of(form.fields, form.current_field + 1)
            &&& form.current_field + 1 == form.fields.len() ==> !after.is_editing
                && after.current_field == form.current_field
        }),
{
}

/// Beginning to fill in a field shows what it holds, and changes nothing of what was filled in.
pub proof fn lemma_form_editing(form: FormView)
    requires
        form.fields.len() == form.values.len(),
        0 <= form.current_field < form.fields.len(),
    ensures
        form_editing(form).is_editing,
        form_editing(form).text == form.values[form.current_field],
        form_editing(form).values == form.values,
        form_editing(form).fields == form.fields,
        form_editing(form).current_field == form.current_field,
        form_editing(form).placeholder == placeholder_of(form.fields, form.current_field),
{
}

/// Where a field that has to be filled in is not, the first such is gone to, with what it holds,
/// and what was filled in stays.
pub proof fn lemma_form_focused(form: FormView)
    requires
        form.fields.len() == form.values.len(),
    ensures
        any_missing(form) <==> exists|i: int|
            0 <= i < form.fields.len() && (#[trigger] form.fields[i]).required && is_blank(
                form.values[i],
            ),
        any_missing(form) ==> {
            let after = form_focused(form);
            let at = after.current_field;
            &&& after.is_editing
            &&& 0 <= at < form.fields.len()
            &&& form.fields[at].required
            &&& is_blank(form.values[at])
            &&& forall|i: int|
                0 <= i < at && (#[trigger] form.fields[i]).required ==> !is_blank(form.values[i])
            &&& after.text == form.values[at]
            &&& after.values == form.values
            &&& after.fields == form.fields
        },
{
    if exists|i: int|
        0 <= i < form.fields.len() && (#[trigger] form.fields[i]).required && is_blank(
            form.values[i],
        ) {
        let i = choose|i: int|
            0 <= i < form.fields.len() && (#[trigger] form.fields[i]).required && is_blank(
                form.values[i],
            );
        assert(is_missing(form, i));
    }
    if any_missing(form) {
        let at = choose|at: int| 0 <= at < form.fields.len() && #[trigger] is_missing(form, at);
        assert(form.fields[at].required);
        lemma_some_first_missing(form, at);
        let first = choose|i: int| is_first_missing(form, i);
        assert(is_first_missing(form, first));
        assert forall|i: int| 0 <= i < first && (#[trigger] form.fields[i]).required implies !is_blank(
            form.values[i],
        ) by {
            assert(!is_missing(form, i));
        }
    }
}

/// Where a field is missing, one is the first.
proof fn lemma_some_first_missing(form: FormView, at: int)
    requires
        0 <= at < form.fields.len(),
        is_missing(form, at),
    ensures
        exists|i: int| is_first_missing(form, i),
    decreases at,
{
    if is_first_missing(form, at) {
    } else {
        let earlier = choose|i: int| 0 <= i < at && #[trigger] is_missing(form, i);
        lemma_some_first_missing(form, earlier);
    }
}

/// The fields of a form: one for each property of its schema, in order and under its name, of the
/// type that the property names, and required where the schema lists the name as required.
pub proof fn lemma_listed_fields(
    schema: JsonView,
    properties: Seq<(Seq<char>, JsonView)>,
    at: int,
)
    requires
        json_get(schema, "properties"@) == Some(JsonView::Object(properties)),
        0 <= at < properties.len(),
    ensures
        listed_fields(schema) matches Some(fields) && {
            let field = fields[at];
            let named = json_get(properties[at].1, "type"@);
            &&& fields.len() == properties.len()
            &&& field.name == properties[at].0
            &&& field.required <==> is_required(schema, properties[at].0)
            &&& named == Some(JsonView::Text("boolean"@)) ==> field.field_type
                == ElicitationFieldType::Boolean
            &&& named == Some(JsonView::Text("integer"@)) ==> field.field_type
                == ElicitationFieldType::Integer
            &&& named == Some(JsonView::Text("number"@)) ==> field.field_type
                == ElicitationFieldType::Number
            &&& named == Some(JsonView::Text("object"@)) ==> field.field_type
                == ElicitationFieldType::Object
            &&& named == Some(JsonView::Text("array"@)) ==> field.field_type
                == ElicitationFieldType::Array
            &&& named == Some(JsonView::Text("string"@)) ==> field.field_type
                == ElicitationFieldType::Text
            &&& named is None ==> field.field_type == ElicitationFieldType::Unknown
            &&& json_get(properties[at].1, "title"@) matches Some(JsonView::Text(title))
                ==> field.title == Some(title)
        },
{
    reveal_strlit("boolean");
    reveal_strlit("integer");
    reveal_strlit("number");
    reveal_strlit("object");
    reveal_strlit("array");
    reveal_strlit("string");
    assert("boolean"@.len() == 7 && "integer"@.len() == 7 && "boolean"@[0] == 'b'
        && "integer"@[0] == 'i');
    assert("number"@.len() == 6 && "number"@[0] == 'n' && "object"@.len() == 6 && "object"@[0]
        == 'o');
    assert("string"@.len() == 6 && "string"@[0] == 's' && "array"@.len() == 5);
}

} // verus!
