//! JSON values, and their compact notation.

use vstd::prelude::*;

use crate::numbers::decimal;
use crate::numbers::decimal_i64;
use crate::numbers::decimal_int;
use crate::numbers::decimal_u64;
use crate::text::join;
use crate::text::joined;
use crate::text::same_text;
use crate::text::texts;

verus! {

// ---------------------------------------------------------------------------------------------
// Values
// ---------------------------------------------------------------------------------------------

/// A finite number in double precision, by what is read of it: its place in the order of such
/// numbers (equal numbers have equal places) and its notation.
#[derive(Clone, Debug, PartialEq, Eq)]
pub struct Double {
    /// The place in the order of all finite doubles.
    pub order: i64,
    /// The shortest decimal notation that reads as the number.
    pub text: String,
}

/// How a number is held.
#[derive(Clone, Debug, PartialEq, Eq)]
pub enum NumberKind {
    /// An integer that is not negative.
    PosInt(u64),
    /// A negative integer.
    NegInt(i64),
    /// Any other number, by its notation in JSON.
    Float(String),
}

/// A number.
#[derive(Clone, Debug, PartialEq, Eq)]
pub struct JsonNumber {
    /// How the number is held.
    pub kind: NumberKind,
    /// The number in double precision; none for a number that is only written, never compared.
    pub double: Option<Double>,
}

/// A JSON value. The entries of an object stand in the order in which it is walked.
#[derive(Debug, PartialEq, Eq)]
pub enum JsonValue {
    /// `null`.
    Null,
    /// `true` or `false`.
    Bool(bool),
    /// A number.
    Number(JsonNumber),
    /// A text.
    Text(String),
    /// A list.
    Array(Vec<JsonValue>),
    /// Named values.
    Object(Vec<(String, JsonValue)>),
}

/// A finite double, with its notation as characters.
pub struct DoubleView {
    /// The place in the order of all finite doubles.
    pub order: int,
    /// The notation.
    pub text: Seq<char>,
}

/// How a number is held, with texts as characters.
pub enum NumberKindView {
    /// An integer that is not negative.
    PosInt(nat),
    /// A negative integer.
    NegInt(int),
    /// Any other number, by its notation in JSON.
    Float(Seq<char>),
}

/// A number, with texts as characters.
pub struct NumberView {
    /// How the number is held.
    pub kind: NumberKindView,
    /// The number in double precision; none for a number that is only written, never compared.
    pub double: Option<DoubleView>,
}

/// A JSON value, with texts as characters.
#[verifier::ext_equal]
pub enum JsonView {
    /// `null`.
    Null,
    /// `true` or `false`.
    Bool(bool),
    /// A number.
    Number(NumberView),
    /// A text.
    Text(Seq<char>),
    /// A list.
    Array(Seq<JsonView>),
    /// Named values.
    Object(Seq<(Seq<char>, JsonView)>),
}

impl View for Double {
    type V = DoubleView;

    open spec fn view(&self) -> DoubleView {
        DoubleView { order: self.order as int, text: self.text@ }
    }
}

impl View for JsonNumber {
    type V = NumberView;

    open spec fn view(&self) -> NumberView {
        NumberView {
            kind: match self.kind {
                NumberKind::PosInt(number) => NumberKindView::PosInt(number as nat),
                NumberKind::NegInt(number) => NumberKindView::NegInt(number as int),
                NumberKind::Float(text) => NumberKindView::Float(text@),
            },
            double: opt_double(self.double),
        }
    }
}

/// The value that a JSON value stands for.
pub open spec fn json_view(value: JsonValue) -> JsonView
    decreases value,
{
    match value {
        JsonValue::Null => JsonView::Null,
        JsonValue::Bool(flag) => JsonView::Bool(flag),
        JsonValue::Number(number) => JsonView::Number(number@),
        JsonValue::Text(text) => JsonView::Text(text@),
        JsonValue::Array(items) => JsonView::Array(
            Seq::new(
                items@.len(),
                |i: int|
                    if 0 <= i < items@.len() {
                        json_view(items@[i])
                    } else {
                        JsonView::Null
                    },
            ),
        ),
        JsonValue::Object(members) => JsonView::Object(
            Seq::new(
                members@.len(),
                |i: int|
                    if 0 <= i < members@.len() {
                        (members@[i].0@, json_view(members@[i].1))
                    } else {
                        (Seq::empty(), JsonView::Null)
                    },
            ),
        ),
    }
}

impl View for JsonValue {
    type V = JsonView;

    open spec fn view(&self) -> JsonView {
        json_view(*self)
    }
}

/// The values of a list.
pub open spec fn json_items(items: Seq<JsonValue>) -> Seq<JsonView> {
    Seq::new(items.len(), |i: int| items[i]@)
}

/// The named values of an object.
pub open spec fn json_members(members: Seq<(String, JsonValue)>) -> Seq<(Seq<char>, JsonView)> {
    Seq::new(members.len(), |i: int| (members[i].0@, members[i].1@))
}

/// The view of a list is the list of the views, and so for an object.
pub proof fn lemma_json_view(value: JsonValue)
    ensures
        value matches JsonValue::Array(items) ==> value@ == JsonView::Array(json_items(items@)),
        value matches JsonValue::Object(members) ==> value@ == JsonView::Object(
            json_members(members@),
        ),
{
    match value {
        JsonValue::Array(items) => {
            assert(json_view(value)->Array_0 =~= json_items(items@));
        },
        JsonValue::Object(members) => {
            assert(json_view(value)->Object_0 =~= json_members(members@));
        },
        _ => {},
    }
}

impl Double {
    /// A copy of the number.
    pub fn copy(&self) -> (copy: Double)
        ensures
            copy@ == self@,
    {
        Double { order: self.order, text: self.text.clone() }
    }
}

impl JsonNumber {
    /// A copy of the number.
    pub fn copy(&self) -> (copy: JsonNumber)
        ensures
            copy@ == self@,
    {
        JsonNumber {
            kind: match &self.kind {
                NumberKind::PosInt(number) => NumberKind::PosInt(*number),
                NumberKind::NegInt(number) => NumberKind::NegInt(*number),
                NumberKind::Float(text) => NumberKind::Float(text.clone()),
            },
            double: match &self.double {
                Some(double) => Some(double.copy()),
                None => None,
            },
        }
    }

    /// An integer as a number. `double` is the integer in double precision.
    pub fn from_i64(number: i64, double: &Option<Double>) -> (made: JsonNumber)
        ensures
            made@ == integer_number(number as int, opt_double(*double)),
    {
        JsonNumber {
            kind: if number >= 0 {
                NumberKind::PosInt(number as u64)
            } else {
                NumberKind::NegInt(number)
            },
            double: match double {
                Some(double) => Some(double.copy()),
                None => None,
            },
        }
    }
}

/// An integer as a number.
pub open spec fn integer_number(number: int, double: Option<DoubleView>) -> NumberView {
    NumberView {
        kind: if number >= 0 {
            NumberKindView::PosInt(number as nat)
        } else {
            NumberKindView::NegInt(number)
        },
        double,
    }
}

/// A number that is no integer.
pub open spec fn float_number(json: Seq<char>, double: DoubleView) -> NumberView {
    NumberView { kind: NumberKindView::Float(json), double: Some(double) }
}

/// A number that is no integer.
pub fn float_value(json: &String, double: &Double) -> (value: JsonValue)
    ensures
        value@ == JsonView::Number(float_number(json@, double@)),
{
    JsonValue::Number(
        JsonNumber { kind: NumberKind::Float(json.clone()), double: Some(double.copy()) },
    )
}

/// The first value with a name.
pub open spec fn member(members: Seq<(Seq<char>, JsonView)>, name: Seq<char>) -> Option<JsonView>
    decreases members.len(),
{
    if members.len() == 0 {
        None
    } else if members[0].0 == name {
        Some(members[0].1)
    } else {
        member(members.drop_first(), name)
    }
}

/// The value with a name in an object; none in any other value.
pub open spec fn json_get(value: JsonView, name: Seq<char>) -> Option<JsonView> {
    match value {
        JsonView::Object(members) => member(members, name),
        _ => None,
    }
}

/// The text that a value is.
pub open spec fn json_text_of(value: Option<JsonView>) -> Option<Seq<char>> {
    match value {
        Some(JsonView::Text(text)) => Some(text),
        _ => None,
    }
}

/// The integer that is not negative that a value is.
pub open spec fn json_nat_of(value: Option<JsonView>) -> Option<nat> {
    match value {
        Some(JsonView::Number(number)) => match number.kind {
            NumberKindView::PosInt(natural) => Some(natural),
            _ => None,
        },
        _ => None,
    }
}

/// The number in double precision that a value is.
pub open spec fn json_double_of(value: Option<JsonView>) -> Option<DoubleView> {
    match value {
        Some(JsonView::Number(number)) => number.double,
        _ => None,
    }
}

/// The view of an optional value.
pub open spec fn opt_json(value: Option<&JsonValue>) -> Option<JsonView> {
    match value {
        Some(value) => Some(value@),
        None => None,
    }
}

/// The view of an optional owned value.
pub open spec fn opt_json_owned(value: Option<JsonValue>) -> Option<JsonView> {
    match value {
        Some(value) => Some(value@),
        None => None,
    }
}

/// The first value with a name.
pub fn find_member<'a>(members: &'a Vec<(String, JsonValue)>, name: &str) -> (value: Option<
    &'a JsonValue,
>)
    ensures
        opt_json(value) == member(json_members(members@), name@),
{
    let ghost all = json_members(members@);
    let mut at: usize = 0;
    proof {
        assert(all.skip(0) =~= all);
    }
    while at < members.len()
        invariant
            at <= members@.len(),
            all == json_members(members@),
            member(all, name@) == member(all.skip(at as int), name@),
        decreases members@.len() - at,
    {
        proof {
            assert(all.skip(at as int)[0] == all[at as int]);
            assert(all.skip(at as int).drop_first() =~= all.skip(at + 1));
        }
        if same_text(members[at].0.as_str(), name) {
            return Some(&members[at].1);
        }
        at += 1;
    }
    None
}

impl JsonValue {
    /// The value with a name in an object; none in any other value.
    pub fn get(&self, name: &str) -> (value: Option<&JsonValue>)
        ensures
            opt_json(value) == json_get(self@, name@),
    {
        proof {
            lemma_json_view(*self);
        }
        match self {
            JsonValue::Object(members) => find_member(members, name),
            _ => None,
        }
    }

    /// The entries of an object.
    pub fn as_object(&self) -> (members: Option<&Vec<(String, JsonValue)>>)
        ensures
            match members {
                Some(members) => self@ == JsonView::Object(json_members(members@)),
                None => !(self@ is Object),
            },
    {
        proof {
            lemma_json_view(*self);
        }
        match self {
            JsonValue::Object(members) => Some(members),
            _ => None,
        }
    }

    /// The items of a list.
    pub fn as_array(&self) -> (items: Option<&Vec<JsonValue>>)
        ensures
            match items {
                Some(items) => self@ == JsonView::Array(json_items(items@)),
                None => !(self@ is Array),
            },
    {
        proof {
            lemma_json_view(*self);
        }
        match self {
            JsonValue::Array(items) => Some(items),
            _ => None,
        }
    }

    /// The text that the value is.
    pub fn as_str(&self) -> (text: Option<&String>)
        ensures
            match text {
                Some(text) => self@ == JsonView::Text(text@),
                None => !(self@ is Text),
            },
    {
        match self {
            JsonValue::Text(text) => Some(text),
            _ => None,
        }
    }

    /// Whether the value is a text, a number, or `true` or `false`.
    pub fn is_primitive(&self) -> (primitive: bool)
        ensures
            primitive == (self@ is Text || self@ is Number || self@ is Bool),
    {
        match self {
            JsonValue::Text(_) => true,
            JsonValue::Number(_) => true,
            JsonValue::Bool(_) => true,
            _ => false,
        }
    }

    /// A copy of the value.
    pub fn copy(&self) -> (copy: JsonValue)
        ensures
            copy@ == self@,
        decreases self,
    {
        proof {
            lemma_json_view(*self);
        }
        match self {
            JsonValue::Null => JsonValue::Null,
            JsonValue::Bool(flag) => JsonValue::Bool(*flag),
            JsonValue::Number(number) => JsonValue::Number(number.copy()),
            JsonValue::Text(text) => JsonValue::Text(text.clone()),
            JsonValue::Array(items) => {
                let mut copies: Vec<JsonValue> = Vec::new();
                let mut at: usize = 0;
                while at < items.len()
                    invariant
                        self matches JsonValue::Array(source) && *source == *items,
                        at <= items@.len(),
                        json_items(copies@) == json_items(items@).take(at as int),
                    decreases items@.len() - at,
                {
                    let ghost before = json_items(copies@);
                    let copied = items[at].copy();
                    copies.push(copied);
                    assert(json_items(copies@) =~= before.push(items@[at as int]@));
                    at += 1;
                    assert(json_items(copies@) =~= json_items(items@).take(at as int));
                }
                assert(json_items(items@).take(at as int) =~= json_items(items@));
                let made = JsonValue::Array(copies);
                proof {
                    lemma_json_view(made);
                }
                made
            },
            JsonValue::Object(members) => {
                let mut copies: Vec<(String, JsonValue)> = Vec::new();
                let mut at: usize = 0;
                while at < members.len()
                    invariant
                        self matches JsonValue::Object(source) && *source == *members,
                        at <= members@.len(),
                        json_members(copies@) == json_members(members@).take(at as int),
                    decreases members@.len() - at,
                {
                    let ghost before = json_members(copies@);
                    let name = members[at].0.clone();
                    let copied = members[at].1.copy();
                    copies.push((name, copied));
                    assert(json_members(copies@) =~= before.push(
                        (members@[at as int].0@, members@[at as int].1@),
                    ));
                    at += 1;
                    assert(json_members(copies@) =~= json_members(members@).take(at as int));
                }
                assert(json_members(members@).take(at as int) =~= json_members(members@));
                let made = JsonValue::Object(copies);
                proof {
                    lemma_json_view(made);
                }
                made
            },
        }
    }
}

// ---------------------------------------------------------------------------------------------
// Notation
// ---------------------------------------------------------------------------------------------

/// The lower-case hexadecimal digit for a number below sixteen.
pub open spec fn hex_char(digit: int) -> char {
    if digit < 10 {
        (48 + digit) as u8 as char
    } else {
        (87 + digit) as u8 as char
    }
}

/// A character as it stands between the quotation marks of a JSON text.
pub open spec fn escaped(ch: char) -> Seq<char> {
    if ch == '"' {
        seq!['\\', '"']
    } else if ch == '\\' {
        seq!['\\', '\\']
    } else if ch == '\u{8}' {
        seq!['\\', 'b']
    } else if ch == '\t' {
        seq!['\\', 't']
    } else if ch == '\n' {
        seq!['\\', 'n']
    } else if ch == '\u{c}' {
        seq!['\\', 'f']
    } else if ch == '\r' {
        seq!['\\', 'r']
    } else if (ch as int) < 32 {
        seq!['\\', 'u', '0', '0', hex_char(ch as int / 16), hex_char(ch as int % 16)]
    } else {
        seq![ch]
    }
}

/// A text as it stands between the quotation marks.
pub open spec fn escaped_text(text: Seq<char>) -> Seq<char>
    decreases text.len(),
{
    if text.len() == 0 {
        Seq::empty()
    } else {
        escaped_text(text.drop_last()) + escaped(text.last())
    }
}

/// The JSON notation of a text.
pub open spec fn quoted(text: Seq<char>) -> Seq<char> {
    seq!['"'] + escaped_text(text) + seq!['"']
}

/// `serde_json::Value::to_string` on a text: quotation marks around the text, in which the
/// quotation mark, the reverse solidus and the characters below the space are escaped, by their
/// short form where there is one and else as `\u00` and two lower-case hexadecimal digits.
#[verifier::external_body]
fn quote(text: &str) -> (notation: String)
    ensures
        notation@ == quoted(text@),
{
    serde_json::Value::from(text).to_string()
}

/// The JSON notation of a number.
pub open spec fn number_text(number: NumberView) -> Seq<char> {
    match number.kind {
        NumberKindView::PosInt(natural) => decimal(natural),
        NumberKindView::NegInt(integer) => decimal_int(integer),
        NumberKindView::Float(text) => text,
    }
}

/// The compact JSON notation of a value.
pub open spec fn json_text(value: JsonView) -> Seq<char>
    decreases value,
{
    match value {
        JsonView::Null => "null"@,
        JsonView::Bool(flag) => if flag {
            "true"@
        } else {
            "false"@
        },
        JsonView::Number(number) => number_text(number),
        JsonView::Text(text) => quoted(text),
        JsonView::Array(items) => seq!['['] + join(item_texts(items), seq![',']) + seq![']'],
        JsonView::Object(members) => seq!['{'] + join(member_texts(members), seq![','])
            + seq!['}'],
    }
}

/// The notations of the values of a list.
pub open spec fn item_texts(items: Seq<JsonView>) -> Seq<Seq<char>>
    decreases items,
{
    Seq::new(
        items.len(),
        |i: int|
            if 0 <= i < items.len() {
                json_text(items[i])
            } else {
                Seq::empty()
            },
    )
}

/// The notations of the entries of an object.
pub open spec fn member_texts(members: Seq<(Seq<char>, JsonView)>) -> Seq<Seq<char>>
    decreases members,
{
    Seq::new(
        members.len(),
        |i: int|
            if 0 <= i < members.len() {
                quoted(members[i].0) + seq![':'] + json_text(members[i].1)
            } else {
                Seq::empty()
            },
    )
}

/// A text between two characters.
fn enclosed(open: char, inner: &str, close: char) -> (whole: String)
    ensures
        whole@ == seq![open] + inner@ + seq![close],
{
    let mut whole = String::new();
    whole.push(open);
    whole.append(inner);
    whole.push(close);
    assert(whole@ =~= seq![open] + inner@ + seq![close]);
    whole
}

impl JsonNumber {
    /// The JSON notation of the number.
    pub fn to_text(&self) -> (text: String)
        ensures
            text@ == number_text(self@),
    {
        match &self.kind {
            NumberKind::PosInt(number) => decimal_u64(*number),
            NumberKind::NegInt(number) => decimal_i64(*number),
            NumberKind::Float(text) => text.clone(),
        }
    }
}

impl JsonValue {
    /// The compact JSON notation of the value.
    pub fn to_text(&self) -> (text: String)
        ensures
            text@ == json_text(self@),
        decreases self,
    {
        proof {
            lemma_json_view(*self);
            reveal_strlit(",");
            assert(","@ =~= seq![',']);
        }
        match self {
            JsonValue::Null => "null".to_owned(),
            JsonValue::Bool(flag) => if *flag {
                "true".to_owned()
            } else {
                "false".to_owned()
            },
            JsonValue::Number(number) => number.to_text(),
            JsonValue::Text(text) => quote(text.as_str()),
            JsonValue::Array(items) => {
                let mut parts: Vec<String> = Vec::new();
                let mut at: usize = 0;
                let ghost all = item_texts(json_items(items@));
                while at < items.len()
                    invariant
                        self matches JsonValue::Array(source) && *source == *items,
                        all == item_texts(json_items(items@)),
                        at <= items@.len(),
                        texts(parts@) == all.take(at as int),
                    decreases items@.len() - at,
                {
                    let ghost before = texts(parts@);
                    let part = items[at].to_text();
                    parts.push(part);
                    assert(texts(parts@) =~= before.push(all[at as int]));
                    at += 1;
                    assert(texts(parts@) =~= all.take(at as int));
                }
                assert(all.take(at as int) =~= all);
                enclosed('[', joined(&parts, ",").as_str(), ']')
            },
            JsonValue::Object(members) => {
                let mut parts: Vec<String> = Vec::new();
                let mut at: usize = 0;
                let ghost all = member_texts(json_members(members@));
                while at < members.len()
                    invariant
                        self matches JsonValue::Object(source) && *source == *members,
                        all == member_texts(json_members(members@)),
                        at <= members@.len(),
                        texts(parts@) == all.take(at as int),
                    decreases members@.len() - at,
                {
                    let ghost before = texts(parts@);
                    let value = members[at].1.to_text();
                    let mut part = quote(members[at].0.as_str());
                    part.push(':');
                    part.append(value.as_str());
                    proof {
                        assert(part@ =~= all[at as int]);
                    }
                    parts.push(part);
                    assert(texts(parts@) =~= before.push(all[at as int]));
                    at += 1;
                    assert(texts(parts@) =~= all.take(at as int));
                }
                assert(all.take(at as int) =~= all);
                enclosed('{', joined(&parts, ",").as_str(), '}')
            },
        }
    }
}

// ---------------------------------------------------------------------------------------------
// Texts read as numbers
// ---------------------------------------------------------------------------------------------

/// A text read as a number in double precision.
#[derive(Clone, Debug, PartialEq, Eq)]
pub enum FloatReading {
    /// The text is no number.
    NotANumber,
    /// The text stands for an infinity or for the value that is no number.
    NonFinite,
    /// The text is the notation of a finite number.
    Finite {
        /// The number's notation in JSON.
        json: String,
        /// The number.
        double: Double,
    },
}

/// A text read as a number.
#[derive(Clone, Debug, PartialEq, Eq)]
pub struct TextReading {
    /// Where the text is the notation of an integer, the integer in double precision.
    pub integer: Option<Double>,
    /// The text as a number in double precision.
    pub float: FloatReading,
}

/// A text read as a number in double precision, with texts as characters.
pub enum FloatReadingView {
    /// The text is no number.
    NotANumber,
    /// The text stands for an infinity or for the value that is no number.
    NonFinite,
    /// The text is the notation of a finite number: its notation in JSON, and the number.
    Finite(Seq<char>, DoubleView),
}

impl View for FloatReading {
    type V = FloatReadingView;

    open spec fn view(&self) -> FloatReadingView {
        match *self {
            FloatReading::NotANumber => FloatReadingView::NotANumber,
            FloatReading::NonFinite => FloatReadingView::NonFinite,
            FloatReading::Finite { json, double } => FloatReadingView::Finite(json@, double@),
        }
    }
}

/// The view of an optional number.
pub open spec fn opt_double(double: Option<Double>) -> Option<DoubleView> {
    match double {
        Some(double) => Some(double@),
        None => None,
    }
}

// ---------------------------------------------------------------------------------------------
// Reading
// ---------------------------------------------------------------------------------------------

/// The kinds of JSON values.
#[derive(Clone, Copy, Debug, PartialEq, Eq, Structural)]
pub enum JsonKind {
    /// `null`.
    Null,
    /// `true` or `false`.
    Bool,
    /// A number.
    Number,
    /// A text.
    Text,
    /// A list.
    Array,
    /// Named values.
    Object,
}

/// A value of `serde_json`.
#[verifier::external_type_specification]
#[verifier::external_body]
pub struct ExSerdeValue(serde_json::Value);

/// The value that a text is the JSON notation of; none for a text that is no JSON. Its numbers
/// come without their doubles.
pub uninterp spec fn json_value_of(text: Seq<char>) -> Option<JsonView>;

/// A `serde_json::Value` part by part, its numbers by `serde_json::Number::as_u64`, `as_i64` and
/// `to_string`. Nothing is claimed of it: what a text is read as is claimed of `read_json`.
#[verifier::external_body]
fn held(value: &serde_json::Value) -> (held: JsonValue) {
    match value {
        serde_json::Value::Null => JsonValue::Null,
        serde_json::Value::Bool(flag) => JsonValue::Bool(*flag),
        serde_json::Value::Number(number) => JsonValue::Number(JsonNumber {
            kind: number.as_u64().map(NumberKind::PosInt).or(number.as_i64().map(NumberKind::NegInt))
                .unwrap_or_else(|| NumberKind::Float(number.to_string())),
            double: None,
        }),
        serde_json::Value::String(text) => JsonValue::Text(text.clone()),
        serde_json::Value::Array(items) => JsonValue::Array(items.iter().map(held).collect()),
        serde_json::Value::Object(members) => JsonValue::Object(
            members.iter().map(|(name, member)| (name.clone(), held(member))).collect()),
    }
}

/// `serde_json::from_str` into a `serde_json::Value`: whether a text is JSON, and which value it
/// is the notation of, rests on the text alone. Nothing more is claimed of it.
#[verifier::external_body]
pub(crate) fn read_json(text: &str) -> (value: Option<JsonValue>)
    ensures
        opt_json_owned(value) == json_value_of(text@),
{
    serde_json::from_str::<serde_json::Value>(text).ok().as_ref().map(held)
}

/// The kind of a value.
pub open spec fn kind_of(value: JsonView) -> JsonKind {
    match value {
        JsonView::Null => JsonKind::Null,
        JsonView::Bool(_) => JsonKind::Bool,
        JsonView::Number(_) => JsonKind::Number,
        JsonView::Text(_) => JsonKind::Text,
        JsonView::Array(_) => JsonKind::Array,
        JsonView::Object(_) => JsonKind::Object,
    }
}

/// The kind of the JSON value that a text is the notation of; none for a text that is no JSON.
pub open spec fn json_kind_of(text: Seq<char>) -> Option<JsonKind> {
    match json_value_of(text) {
        Some(value) => Some(kind_of(value)),
        None => None,
    }
}

/// The kind of the JSON value that a text is the notation of; none for a text that is no JSON.
pub fn json_kind(text: &str) -> (kind: Option<JsonKind>)
    ensures
        kind == json_kind_of(text@),
{
    match read_json(text) {
        Some(JsonValue::Null) => Some(JsonKind::Null),
        Some(JsonValue::Bool(_)) => Some(JsonKind::Bool),
        Some(JsonValue::Number(_)) => Some(JsonKind::Number),
        Some(JsonValue::Text(_)) => Some(JsonKind::Text),
        Some(JsonValue::Array(_)) => Some(JsonKind::Array),
        Some(JsonValue::Object(_)) => Some(JsonKind::Object),
        None => None,
    }
}

/// The value with a name is that of the first entry that has it; there is none where no entry does.
pub proof fn lemma_member(members: Seq<(Seq<char>, JsonView)>, name: Seq<char>, at: int)
    requires
        0 <= at < members.len(),
        forall|i: int| 0 <= i < at ==> (#[trigger] members[i]).0 != name,
    ensures
        members[at].0 == name ==> member(members, name) == Some(members[at].1),
        (forall|i: int| 0 <= i < members.len() ==> (#[trigger] members[i]).0 != name) ==> member(
            members,
            name,
        ) is None,
    decreases members.len(),
{
    let rest = members.drop_first();
    if at > 0 {
        assert(members[0].0 != name);
        assert forall|i: int| 0 <= i < at - 1 implies (#[trigger] rest[i]).0 != name by {
            assert(rest[i] == members[i + 1]);
        }
        if forall|i: int| 0 <= i < members.len() ==> (#[trigger] members[i]).0 != name {
            assert forall|i: int| 0 <= i < rest.len() implies (#[trigger] rest[i]).0 != name by {
                assert(rest[i] == members[i + 1]);
            }
        }
        lemma_member(rest, name, at - 1);
    } else if forall|i: int| 0 <= i < members.len() ==> (#[trigger] members[i]).0 != name {
        assert(members[0].0 != name);
        assert forall|i: int| 0 <= i < rest.len() implies (#[trigger] rest[i]).0 != name by {
            assert(rest[i] == members[i + 1]);
        }
        if rest.len() > 0 {
            lemma_member(rest, name, 0);
        }
    }
}

/// The notation of an object: its entries in order, each with its name and its value, with commas
/// between them. So with a list and its values.
pub proof fn lemma_json_text(
    members: Seq<(Seq<char>, JsonView)>,
    name: Seq<char>,
    items: Seq<JsonView>,
    value: JsonView,
)
    ensures
        json_text(JsonView::Object(Seq::empty())) == seq!['{', '}'],
        json_text(JsonView::Object(seq![(name, value)])) == seq!['{'] + (quoted(name) + seq![':']
            + json_text(value)) + seq!['}'],
        members.len() > 0 ==> json_text(JsonView::Object(members.push((name, value))))
            == json_text(JsonView::Object(members)).drop_last() + seq![','] + (quoted(name)
            + seq![':'] + json_text(value)) + seq!['}'],
        json_text(JsonView::Array(Seq::empty())) == seq!['[', ']'],
        json_text(JsonView::Array(seq![value])) == seq!['['] + json_text(value) + seq![']'],
        items.len() > 0 ==> json_text(JsonView::Array(items.push(value))) == json_text(
            JsonView::Array(items),
        ).drop_last() + seq![','] + json_text(value) + seq![']'],
{
    let entry = quoted(name) + seq![':'] + json_text(value);
    let comma = seq![','];
    let none = Seq::<(Seq<char>, JsonView)>::empty();
    let nothing = Seq::<JsonView>::empty();
    assert(json_text(JsonView::Object(none)) =~= seq!['{', '}']);
    assert(json_text(JsonView::Array(nothing)) =~= seq!['[', ']']);
    assert(member_texts(seq![(name, value)]) =~= seq![entry]);
    assert(join(seq![entry], comma) == entry);
    assert(item_texts(seq![value]) =~= seq![json_text(value)]);
    assert(join(seq![json_text(value)], comma) == json_text(value));
    if members.len() > 0 {
        let more = members.push((name, value));
        assert(member_texts(more) =~= member_texts(members).push(entry));
        assert(member_texts(members).push(entry).drop_last() =~= member_texts(members));
        assert(join(member_texts(more), comma) == join(member_texts(members), comma) + comma
            + entry);
        assert(json_text(JsonView::Object(members)).drop_last() =~= seq!['{'] + join(
            member_texts(members),
            comma,
        ));
        assert(json_text(JsonView::Object(more)) =~= json_text(
            JsonView::Object(members),
        ).drop_last() + comma + entry + seq!['}']);
    }
    if items.len() > 0 {
        let more = items.push(value);
        let told = json_text(value);
        assert(item_texts(more) =~= item_texts(items).push(told));
        assert(item_texts(items).push(told).drop_last() =~= item_texts(items));
        assert(join(item_texts(more), comma) == join(item_texts(items), comma) + comma + told);
        assert(json_text(JsonView::Array(items)).drop_last() =~= seq!['['] + join(
            item_texts(items),
            comma,
        ));
        assert(json_text(JsonView::Array(more)) =~= json_text(JsonView::Array(items)).drop_last()
            + comma + told + seq![']']);
    }
}

/// The notation of a value that is no list and no object: a whole number in decimal digits, and the
/// words for `null`, yes and no.
pub proof fn lemma_json_text_plain(number: int, double: Option<DoubleView>)
    ensures
        json_text(JsonView::Number(integer_number(number, double))) == decimal_int(number),
        json_text(JsonView::Null) == "null"@,
        json_text(JsonView::Bool(true)) == "true"@,
        json_text(JsonView::Bool(false)) == "false"@,
{
}

/// The kind of a value is its own.
pub proof fn lemma_kind_of(value: JsonView)
    ensures
        kind_of(value) == JsonKind::Object <==> value is Object,
        kind_of(value) == JsonKind::Text <==> value is Text,
        kind_of(value) == JsonKind::Array <==> value is Array,
        kind_of(value) == JsonKind::Number <==> value is Number,
        kind_of(value) == JsonKind::Bool <==> value is Bool,
        kind_of(value) == JsonKind::Null <==> value is Null,
{
}

} // verus!
