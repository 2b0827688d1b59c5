//! Questions to the user, and what the answers decide.

use vstd::prelude::*;

use crate::elicitation_form::build_elicitation_content_from_response;
use crate::elicitation_form::build_elicitation_content_questions;
use crate::elicitation_form::fields_among;
use crate::elicitation_form::form_content;
use crate::elicitation_form::form_questions;
use crate::elicitation_form::ids;
use crate::elicitation_form::lemma_field_ids;
use crate::elicitation_form::lemma_fields;
use crate::json::json_get;
use crate::json::json_members;
use crate::json::lemma_json_view;
use crate::json::opt_json_owned;
use crate::json::JsonValue;
use crate::json::JsonView;
use crate::json::TextReading;
use crate::string_map::StringMap;
use crate::text::join;
use crate::text::joined;
use crate::text::opt_text;
use crate::text::plus;
use crate::text::plus3;
use crate::text::push_text;
use crate::text::same_text;
use crate::text::starts;
use crate::text::starts_with;
use crate::text::texts;
use crate::tools::respond;
use crate::tools::ErrorView;
use crate::tools::FunctionCallError;
use crate::tools::OutputView;
use crate::tools::PayloadView;
use crate::tools::ToolKind;
use crate::tools::ToolOutput;
use crate::tools::ToolPayload;

verus! {

// ---------------------------------------------------------------------------------------------
// Questions and answers
// ---------------------------------------------------------------------------------------------

/// One of the answers that a question offers.
#[derive(Clone, Debug, PartialEq, Eq)]
pub struct RequestUserInputQuestionOption {
    /// What is chosen.
    pub label: String,
    /// What choosing it means.
    pub description: String,
}

/// A question to the user.
#[derive(Clone, Debug, PartialEq, Eq)]
pub struct RequestUserInputQuestion {
    /// The name under which the answer is filed.
    pub id: String,
    /// A short title.
    pub header: String,
    /// The question itself.
    pub question: String,
    /// Whether an answer of the user's own is welcome.
    pub is_other: bool,
    /// Whether the answer is not to be shown.
    pub is_secret: bool,
    /// The answers to choose from.
    pub options: Option<Vec<RequestUserInputQuestionOption>>,
}

/// A round of questions.
#[derive(Clone, Debug, PartialEq, Eq)]
pub struct RequestUserInputArgs {
    /// The questions, in order.
    pub questions: Vec<RequestUserInputQuestion>,
}

/// The answer to one question: what was chosen, and notes.
#[derive(Clone, Debug, PartialEq, Eq)]
pub struct RequestUserInputAnswer {
    /// The entries, in order.
    pub answers: Vec<String>,
}

/// The answers to a round of questions, by the questions' names.
#[derive(Debug)]
pub struct RequestUserInputResponse {
    /// The answers.
    pub answers: StringMap<RequestUserInputAnswer>,
}

/// An offered answer, with texts as characters.
pub struct OptionView {
    /// What is chosen.
    pub label: Seq<char>,
    /// What choosing it means.
    pub description: Seq<char>,
}

/// A question, with texts as characters.
#[verifier::ext_equal]
pub struct QuestionView {
    /// The name under which the answer is filed.
    pub id: Seq<char>,
    /// A short title.
    pub header: Seq<char>,
    /// The question itself.
    pub question: Seq<char>,
    /// Whether an answer of the user's own is welcome.
    pub is_other: bool,
    /// Whether the answer is not to be shown.
    pub is_secret: bool,
    /// The answers to choose from.
    pub options: Option<Seq<OptionView>>,
}

impl View for RequestUserInputQuestionOption {
    type V = OptionView;

    open spec fn view(&self) -> OptionView {
        OptionView { label: self.label@, description: self.description@ }
    }
}

/// Offered answers, with texts as characters.
pub open spec fn option_views(options: Seq<RequestUserInputQuestionOption>) -> Seq<OptionView> {
    Seq::new(options.len(), |i: int| options[i]@)
}

impl View for RequestUserInputQuestion {
    type V = QuestionView;

    open spec fn view(&self) -> QuestionView {
        QuestionView {
            id: self.id@,
            header: self.header@,
            question: self.question@,
            is_other: self.is_other,
            is_secret: self.is_secret,
            options: match self.options {
                Some(options) => Some(option_views(options@)),
                None => None,
            },
        }
    }
}

/// Questions, with texts as characters.
pub open spec fn question_views(questions: Seq<RequestUserInputQuestion>) -> Seq<QuestionView> {
    Seq::new(questions.len(), |i: int| questions[i]@)
}

impl RequestUserInputResponse {
    /// Whether each question has at most one answer.
    pub open spec fn wf(&self) -> bool {
        self.answers.wf()
    }

    /// The entries of the answer to a question; none where there is no answer.
    pub open spec fn entries(&self, id: Seq<char>) -> Seq<Seq<char>> {
        if self.answers@.contains_key(id) {
            texts(self.answers@[id].answers@)
        } else {
            Seq::empty()
        }
    }
}

/// An offered answer.
pub fn question_option(label: String, description: String) -> (
    option: RequestUserInputQuestionOption)
    ensures
        option@ == (OptionView { label: label@, description: description@ }),
{
    RequestUserInputQuestionOption { label, description }
}

/// What stands before a note of the user's own.
pub const REQUEST_USER_INPUT_NOTE_PREFIX: &'static str = "user_note: ";

// ---------------------------------------------------------------------------------------------
// Modes
// ---------------------------------------------------------------------------------------------

/// The ways in which the model and the user work together.
#[derive(Clone, Copy, Debug, PartialEq, Eq, Structural)]
pub enum ModeKind {
    /// A plan is made.
    Plan,
    /// The usual way.
    Default,
    /// A plan is carried out.
    Execute,
    /// Both write.
    PairProgramming,
}

impl ModeKind {
    /// The name of the mode.
    pub open spec fn name(self) -> Seq<char> {
        match self {
            ModeKind::Plan => "Plan"@,
            ModeKind::Default => "Default"@,
            ModeKind::Execute => "Execute"@,
            ModeKind::PairProgramming => "Pair Programming"@,
        }
    }

    /// Whether the model may ask the user.
    pub open spec fn may_ask(self) -> bool {
        self == ModeKind::Plan
    }

    /// The name of the mode.
    pub fn display_name(&self) -> (name: &'static str)
        ensures
            name@ == self.name(),
    {
        match self {
            ModeKind::Plan => "Plan",
            ModeKind::Default => "Default",
            ModeKind::Execute => "Execute",
            ModeKind::PairProgramming => "Pair Programming",
        }
    }

    /// Whether the model may ask the user.
    pub fn allows_request_user_input(&self) -> (allowed: bool)
        ensures
            allowed == self.may_ask(),
    {
        match self {
            ModeKind::Plan => true,
            _ => false,
        }
    }
}

/// The modes that the user can choose, in order.
pub open spec fn visible_modes() -> Seq<ModeKind> {
    seq![ModeKind::Default, ModeKind::Plan]
}

/// The names of the modes in which the model may ask the user, in order.
pub open spec fn asking_names(modes: Seq<ModeKind>) -> Seq<Seq<char>>
    decreases modes.len(),
{
    if modes.len() == 0 {
        Seq::empty()
    } else if modes.last().may_ask() {
        asking_names(modes.drop_last()).push(modes.last().name())
    } else {
        asking_names(modes.drop_last())
    }
}

/// Names of modes as part of a sentence.
pub open spec fn modes_phrase(names: Seq<Seq<char>>) -> Seq<char> {
    if names.len() == 0 {
        "no modes"@
    } else if names.len() == 1 {
        names[0] + " mode"@
    } else if names.len() == 2 {
        names[0] + " or "@ + names[1] + " mode"@
    } else {
        "modes: "@ + join(names, ","@)
    }
}

/// The modes among some in which the model may ask the user, as part of a sentence.
pub fn format_modes(modes: &Vec<ModeKind>) -> (phrase: String)
    ensures
        phrase@ == modes_phrase(asking_names(modes@)),
{
    let mut names: Vec<String> = Vec::new();
    let mut at: usize = 0;
    assert(texts(names@) =~= asking_names(modes@.take(0)));
    while at < modes.len()
        invariant
            at <= modes@.len(),
            texts(names@) == asking_names(modes@.take(at as int)),
        decreases modes@.len() - at,
    {
        proof {
            assert(modes@.take(at + 1).drop_last() =~= modes@.take(at as int));
            assert(modes@.take(at + 1).last() == modes@[at as int]);
        }
        if modes[at].allows_request_user_input() {
            push_text(&mut names, modes[at].display_name().to_owned());
        }
        at += 1;
    }
    proof {
        assert(modes@.take(at as int) =~= modes@);
        let found = texts(names@);
        assert(forall|i: int| 0 <= i < names@.len() ==> found[i] == (#[trigger] names@[i])@);
    }
    if names.len() == 0 {
        "no modes".to_owned()
    } else if names.len() == 1 {
        plus(names[0].as_str(), " mode")
    } else if names.len() == 2 {
        plus(plus3(names[0].as_str(), " or ", names[1].as_str()).as_str(), " mode")
    } else {
        plus("modes: ", joined(&names, ",").as_str())
    }
}

/// The visible modes in which the model may ask the user, as part of a sentence.
pub fn format_allowed_modes() -> (phrase: String)
    ensures
        phrase@ == modes_phrase(asking_names(visible_modes())),
        phrase@ == "Plan mode"@,
{
    let modes = vec![ModeKind::Default, ModeKind::Plan];
    proof {
        assert(modes@ =~= visible_modes());
        reveal_with_fuel(asking_names, 3);
        let names = asking_names(visible_modes());
        assert(visible_modes().drop_last() =~= seq![ModeKind::Default]);
        assert(names =~= seq!["Plan"@]);
        reveal_strlit("Plan");
        reveal_strlit(" mode");
        reveal_strlit("Plan mode");
        assert("Plan"@ + " mode"@ =~= "Plan mode"@);
    }
    format_modes(&modes)
}

/// Why the model may not ask the user in a mode; none where it may.
pub fn request_user_input_unavailable_message(mode: ModeKind) -> (message: Option<String>)
    ensures
        match message {
            Some(message) => !mode.may_ask() && message@ == "request_user_input is unavailable in "@
                + mode.name() + " mode"@,
            None => mode.may_ask(),
        },
{
    if mode.allows_request_user_input() {
        None
    } else {
        Some(plus3("request_user_input is unavailable in ", mode.display_name(), " mode"))
    }
}

/// What the model is told of the tool that asks the user.
pub fn request_user_input_tool_description() -> (description: String)
    ensures
        description@ == "Request user input for one to three short questions and wait for the response. This tool is only available in "@
            + "Plan mode"@ + "."@,
{
    let allowed_modes = format_allowed_modes();
    plus3(
        "Request user input for one to three short questions and wait for the response. This tool is only available in ",
        allowed_modes.as_str(),
        ".",
    )
}

// ---------------------------------------------------------------------------------------------
// Requests of tool servers
// ---------------------------------------------------------------------------------------------

/// A request of a tool server to the user.
#[derive(Debug, PartialEq, Eq)]
pub struct ElicitationRequestEvent {
    /// What the server says.
    pub message: String,
    /// A page that the user is sent to.
    pub url: Option<String>,
    /// The schema of a form that the user fills in.
    pub requested_schema: Option<JsonValue>,
}

/// What the user does about a request.
#[derive(Clone, Copy, Debug, PartialEq, Eq, Structural)]
pub enum ElicitationAction {
    /// The request is granted.
    Accept,
    /// The request is turned down.
    Decline,
    /// The request is called off.
    Cancel,
}

/// The reply to a request.
#[derive(Debug, PartialEq, Eq)]
pub struct ElicitationResponse {
    /// What the user does.
    pub action: ElicitationAction,
    /// What the user filled in.
    pub content: Option<JsonValue>,
}

/// The name of the question whether to grant a request.
pub const MCP_ELICITATION_DECISION_QUESTION_ID: &'static str = "mcp_elicitation_decision";

/// The answer that grants a request.
pub const MCP_ELICITATION_ACCEPT: &'static str = "Accept";

/// The answer that turns a request down.
pub const MCP_ELICITATION_DECLINE: &'static str = "Decline";

/// The answer that calls a request off.
pub const MCP_ELICITATION_CANCEL: &'static str = "Cancel";

/// The question whether to grant a request.
pub open spec fn decision_question(message: Seq<char>, url: Option<Seq<char>>) -> QuestionView {
    QuestionView {
        id: MCP_ELICITATION_DECISION_QUESTION_ID@,
        header: "MCP elicitation"@,
        question: match url {
            Some(url) => message + "\nURL: "@ + url,
            None => message,
        },
        is_other: true,
        is_secret: false,
        options: Some(
            seq![
                OptionView {
                    label: MCP_ELICITATION_ACCEPT@,
                    description: "Accept this elicitation request."@,
                },
                OptionView {
                    label: MCP_ELICITATION_DECLINE@,
                    description: "Decline this elicitation request."@,
                },
                OptionView {
                    label: MCP_ELICITATION_CANCEL@,
                    description: "Cancel this elicitation request."@,
                },
            ],
        ),
    }
}

/// The questions that put a request to the user: whether to grant it, and those of its form.
pub fn build_mcp_elicitation_request_user_input_args(elicitation: &ElicitationRequestEvent) -> (
    args: RequestUserInputArgs)
    ensures
        question_views(args.questions@) == seq![
            decision_question(elicitation.message@, opt_text(elicitation.url)),
        ] + form_questions(opt_json_owned(elicitation.requested_schema)),
{
    let question = match &elicitation.url {
        Some(url) => plus3(elicitation.message.as_str(), "\nURL: ", url.as_str()),
        None => elicitation.message.clone(),
    };
    let options = vec![
        question_option(
            MCP_ELICITATION_ACCEPT.to_owned(),
            "Accept this elicitation request.".to_owned(),
        ),
        question_option(
            MCP_ELICITATION_DECLINE.to_owned(),
            "Decline this elicitation request.".to_owned(),
        ),
        question_option(
            MCP_ELICITATION_CANCEL.to_owned(),
            "Cancel this elicitation request.".to_owned(),
        ),
    ];
    proof {
        assert(option_views(options@) =~= decision_question(
            elicitation.message@,
            opt_text(elicitation.url),
        ).options->0);
    }
    let decision = RequestUserInputQuestion {
        id: MCP_ELICITATION_DECISION_QUESTION_ID.to_owned(),
        header: "MCP elicitation".to_owned(),
        question,
        is_other: true,
        is_secret: false,
        options: Some(options),
    };
    let mut questions: Vec<RequestUserInputQuestion> = vec![decision];
    let mut rest = build_elicitation_content_questions(elicitation.requested_schema.as_ref());
    let ghost later = rest@;
    questions.append(&mut rest);
    proof {
        assert(questions@ =~= seq![decision] + later);
        assert(question_views(questions@) =~= seq![decision@] + question_views(later));
    }
    RequestUserInputArgs { questions }
}

/// The names of some questions.
pub open spec fn question_ids(questions: Seq<QuestionView>) -> Seq<Seq<char>> {
    Seq::new(questions.len(), |i: int| questions[i].id)
}

/// No two of the questions that put a request to the user have the same name.
pub proof fn lemma_question_ids(
    message: Seq<char>,
    url: Option<Seq<char>>,
    schema: Option<JsonView>,
)
    ensures
        question_ids(
            seq![decision_question(message, url)] + form_questions(schema),
        ).no_duplicates(),
{
    let questions = seq![decision_question(message, url)] + form_questions(schema);
    let all = question_ids(questions);
    let later = form_questions(schema);
    reveal_strlit("mcp_elicitation_decision");
    if later.len() > 0 {
        let properties = json_get(schema->0, "properties"@)->0->Object_0;
        let fields = fields_among(schema->0, properties, properties.len());
        lemma_fields(schema->0, properties, properties.len());
        lemma_field_ids(schema->0, properties, properties.len());
        assert forall|i: int, j: int|
            0 <= i < all.len() && 0 <= j < all.len() && i != j implies all[i] != all[j] by {
            if i > 0 {
                assert(all[i] == fields[i - 1].question_id);
            }
            if j > 0 {
                assert(all[j] == fields[j - 1].question_id);
            }
            if i > 0 && j > 0 {
                assert(ids(fields)[i - 1] != ids(fields)[j - 1]);
            }
        }
    }
}

/// What an entry of an answer decides.
pub open spec fn entry_action(entry: Seq<char>) -> Option<ElicitationAction> {
    if starts(entry, REQUEST_USER_INPUT_NOTE_PREFIX@) {
        None
    } else if entry == MCP_ELICITATION_ACCEPT@ {
        Some(ElicitationAction::Accept)
    } else if entry == MCP_ELICITATION_DECLINE@ {
        Some(ElicitationAction::Decline)
    } else if entry == MCP_ELICITATION_CANCEL@ {
        Some(ElicitationAction::Cancel)
    } else {
        None
    }
}

/// What the first entry that decides anything decides.
pub open spec fn answer_action(entries: Seq<Seq<char>>) -> Option<ElicitationAction>
    decreases entries.len(),
{
    if entries.len() == 0 {
        None
    } else if entry_action(entries[0]) is Some {
        entry_action(entries[0])
    } else {
        answer_action(entries.drop_first())
    }
}

/// What an answer decides.
pub fn request_user_input_answer_to_elicitation_action(answer: &RequestUserInputAnswer) -> (action:
    Option<ElicitationAction>)
    ensures
        action == answer_action(texts(answer.answers@)),
{
    let ghost all = texts(answer.answers@);
    let mut at: usize = 0;
    assert(all.skip(0) =~= all);
    while at < answer.answers.len()
        invariant
            all == texts(answer.answers@),
            at <= answer.answers@.len(),
            answer_action(all) == answer_action(all.skip(at as int)),
        decreases answer.answers@.len() - at,
    {
        let entry = answer.answers[at].as_str();
        proof {
            assert(all.skip(at as int)[0] == entry@);
            assert(all.skip(at as int).drop_first() =~= all.skip(at + 1));
        }
        if !starts_with(entry, REQUEST_USER_INPUT_NOTE_PREFIX) {
            if same_text(entry, MCP_ELICITATION_ACCEPT) {
                return Some(ElicitationAction::Accept);
            }
            if same_text(entry, MCP_ELICITATION_DECLINE) {
                return Some(ElicitationAction::Decline);
            }
            if same_text(entry, MCP_ELICITATION_CANCEL) {
                return Some(ElicitationAction::Cancel);
            }
        }
        at += 1;
    }
    None
}

/// What the user decides: nothing clear calls the request off.
pub open spec fn decided(response: RequestUserInputResponse) -> ElicitationAction {
    match answer_action(response.entries(MCP_ELICITATION_DECISION_QUESTION_ID@)) {
        Some(action) => action,
        None => ElicitationAction::Cancel,
    }
}

/// The reply to a request: what the user does, and what goes with it.
pub open spec fn reply(
    response: Option<RequestUserInputResponse>,
    schema: Option<JsonView>,
    readings: Seq<TextReading>,
) -> (ElicitationAction, Option<JsonView>) {
    match response {
        Some(response) => if decided(response) == ElicitationAction::Accept {
            match form_content(response, schema, readings) {
                Ok(Some(content)) => (ElicitationAction::Accept, Some(content)),
                Ok(None) => (ElicitationAction::Accept, Some(JsonView::Object(Seq::empty()))),
                Err(_) => (ElicitationAction::Cancel, None),
            }
        } else {
            (decided(response), None)
        },
        None => (ElicitationAction::Cancel, None),
    }
}

/// The reply to a request. `readings` holds what the answers to its form say, in the order of the
/// fields, read as numbers.
pub fn build_mcp_elicitation_response_from_user_input(
    response: Option<&RequestUserInputResponse>,
    elicitation: &ElicitationRequestEvent,
    readings: &Vec<TextReading>,
) -> (result: ElicitationResponse)
    requires
        response matches Some(response) ==> response.wf(),
    ensures
        (result.action, opt_json_owned(result.content)) == reply(
            match response {
                Some(response) => Some(*response),
                None => None,
            },
            opt_json_owned(elicitation.requested_schema),
            readings@,
        ),
{
    let response = match response {
        Some(response) => response,
        None => return ElicitationResponse { action: ElicitationAction::Cancel, content: None },
    };
    let action = match response.answers.get(MCP_ELICITATION_DECISION_QUESTION_ID) {
        Some(answer) => match request_user_input_answer_to_elicitation_action(answer) {
            Some(action) => action,
            None => ElicitationAction::Cancel,
        },
        None => ElicitationAction::Cancel,
    };
    match action {
        ElicitationAction::Accept => {
            let content = build_elicitation_content_from_response(
                response,
                elicitation.requested_schema.as_ref(),
                readings,
            );
            match content {
                Ok(Some(value)) => ElicitationResponse { action, content: Some(value) },
                Ok(None) => {
                    let empty = JsonValue::Object(Vec::new());
                    proof {
                        lemma_json_view(empty);
                        assert(json_members(Seq::empty()) =~= Seq::empty());
                    }
                    ElicitationResponse { action, content: Some(empty) }
                },
                Err(_) => ElicitationResponse { action: ElicitationAction::Cancel, content: None },
            }
        },
        _ => ElicitationResponse { action, content: None },
    }
}

/// Content goes with a reply exactly where the request is granted.
pub proof fn lemma_reply_content(
    response: Option<RequestUserInputResponse>,
    schema: Option<JsonView>,
    readings: Seq<TextReading>,
)
    ensures
        reply(response, schema, readings).1 is Some <==> reply(response, schema, readings).0
            == ElicitationAction::Accept,
{
}

// ---------------------------------------------------------------------------------------------
// Calls of the tool
// ---------------------------------------------------------------------------------------------

/// The tool with which the model asks the user.
pub struct RequestUserInputHandler;

/// The view of a result with a text.
pub open spec fn text_result(result: Result<String, FunctionCallError>) -> Result<
    Seq<char>,
    ErrorView,
> {
    match result {
        Ok(text) => Ok(text@),
        Err(error) => Err(error@),
    }
}

/// Whether each question offers an answer.
pub open spec fn all_offer(questions: Seq<QuestionView>) -> bool {
    forall|i: int|
        0 <= i < questions.len() ==> ((#[trigger] questions[i]).options matches Some(options)
            && options.len() > 0)
}

/// A question that also takes an answer of the user's own.
pub open spec fn opened(question: QuestionView) -> QuestionView {
    QuestionView { is_other: true, ..question }
}

/// Questions that also take answers of the user's own.
pub open spec fn all_opened(questions: Seq<QuestionView>) -> Seq<QuestionView> {
    Seq::new(questions.len(), |i: int| opened(questions[i]))
}

impl RequestUserInputHandler {
    /// The kind of the tool.
    pub fn kind(&self) -> (kind: ToolKind)
        ensures
            kind == ToolKind::Function,
    {
        ToolKind::Function
    }

    /// The arguments of a call that may be made: in JSON, and in a mode in which the model may
    /// ask.
    pub fn accept(&self, payload: &ToolPayload, mode: ModeKind) -> (arguments: Result<
        String,
        FunctionCallError,
    >)
        ensures
            text_result(arguments) == (match payload@ {
                PayloadView::Function(arguments) => if mode.may_ask() {
                    Ok(arguments)
                } else {
                    Err(
                        ErrorView::RespondToModel(
                            "request_user_input is unavailable in "@ + mode.name() + " mode"@,
                        ),
                    )
                },
                _ => Err(
                    ErrorView::RespondToModel(
                        "request_user_input handler received unsupported payload"@,
                    ),
                ),
            }),
    {
        match payload {
            ToolPayload::Function { arguments } => {
                match request_user_input_unavailable_message(mode) {
                    Some(message) => Err(FunctionCallError::RespondToModel(message)),
                    None => Ok(arguments.clone()),
                }
            },
            _ => Err(respond("request_user_input handler received unsupported payload")),
        }
    }

    /// The questions as they are put to the user: each has to offer an answer, and takes one of
    /// the user's own besides.
    pub fn prepare(&self, args: RequestUserInputArgs) -> (prepared: Result<
        RequestUserInputArgs,
        FunctionCallError,
    >)
        ensures
            match prepared {
                Ok(prepared) => all_offer(question_views(args.questions@)) && question_views(
                    prepared.questions@,
                ) == all_opened(question_views(args.questions@)),
                Err(error) => !all_offer(question_views(args.questions@)) && error@
                    == ErrorView::RespondToModel(
                    "request_user_input requires non-empty options for every question"@,
                ),
            },
    {
        let ghost asked = question_views(args.questions@);
        let mut questions = args.questions;
        let mut at: usize = 0;
        while at < questions.len()
            invariant
                asked == question_views(args.questions@),
                asked == question_views(questions@),
                at <= questions@.len(),
                forall|i: int|
                    0 <= i < at ==> ((#[trigger] asked[i]).options matches Some(options)
                        && options.len() > 0),
            decreases questions@.len() - at,
        {
            assert(asked[at as int] == questions@[at as int]@);
            let offered: usize = match &questions[at].options {
                Some(options) => options.len(),
                None => 0,
            };
            if offered == 0 {
                return Err(
                    respond("request_user_input requires non-empty options for every question"),
                );
            }
            at += 1;
        }
        let mut at: usize = 0;
        while at < questions.len()
            invariant
                at <= questions@.len(),
                questions@.len() == asked.len(),
                forall|i: int| 0 <= i < at ==> (#[trigger] questions@[i])@ == opened(asked[i]),
                forall|i: int|
                    at <= i < questions@.len() ==> (#[trigger] questions@[i])@ == asked[i],
            decreases questions@.len() - at,
        {
            questions[at].is_other = true;
            at += 1;
        }
        assert(question_views(questions@) =~= all_opened(asked));
        Ok(RequestUserInputArgs { questions })
    }

    /// What a call gives back: `reply` holds the answers in JSON, or why they could not be
    /// written; there is none where the user did not answer.
    pub fn finish(&self, reply: Option<Result<String, String>>) -> (output: Result<
        ToolOutput,
        FunctionCallError,
    >)
        ensures
            match output {
                Ok(output) => reply matches Some(Ok(content)) && output@ == OutputView::Text(
                    content@,
                    true,
                ),
                Err(error) => match reply {
                    Some(Ok(_)) => false,
                    Some(Err(cause)) => error@ == ErrorView::Fatal(
                        "failed to serialize request_user_input response: "@ + cause@,
                    ),
                    None => error@ == ErrorView::RespondToModel(
                        "request_user_input was cancelled before receiving a response"@,
                    ),
                },
            },
    {
        match reply {
            Some(Ok(content)) => Ok(ToolOutput::Text { content, success: true }),
            Some(Err(cause)) => Err(
                FunctionCallError::Fatal(
                    plus("failed to serialize request_user_input response: ", cause.as_str()),
                ),
            ),
            None => Err(respond("request_user_input was cancelled before receiving a response")),
        }
    }
}

// ---------------------------------------------------------------------------------------------
// Laws
// ---------------------------------------------------------------------------------------------

/// The entries that decide: the three labels, each for its own action, and nothing else.
pub proof fn lemma_entry_action(entry: Seq<char>)
    ensures
        entry == "Accept"@ ==> entry_action(entry) == Some(ElicitationAction::Accept),
        entry == "Decline"@ ==> entry_action(entry) == Some(ElicitationAction::Decline),
        entry == "Cancel"@ ==> entry_action(entry) == Some(ElicitationAction::Cancel),
        entry != "Accept"@ && entry != "Decline"@ && entry != "Cancel"@ ==> entry_action(entry)
            is None,
{
    reveal_strlit("Accept");
    reveal_strlit("Decline");
    reveal_strlit("Cancel");
    reveal_strlit("user_note: ");
    assert("Accept"@.len() == 6 && "Accept"@[0] == 'A');
    assert("Cancel"@.len() == 6 && "Cancel"@[0] == 'C');
    assert("Decline"@.len() == 7);
    assert("user_note: "@.len() == 11);
}

/// The first entry that decides anything settles what an answer decides, whatever stands around it;
/// without one, nothing is decided.
pub proof fn lemma_answer_action(before: Seq<Seq<char>>, entry: Seq<char>, after: Seq<Seq<char>>)
    requires
        forall|i: int|
            0 <= i < before.len() ==> (#[trigger] before[i]) != "Accept"@ && before[i]
                != "Decline"@ && before[i] != "Cancel"@,
    ensures
        ({
            let all = before + seq![entry] + after;
            &&& entry == "Accept"@ ==> answer_action(all) == Some(ElicitationAction::Accept)
            &&& entry == "Decline"@ ==> answer_action(all) == Some(ElicitationAction::Decline)
            &&& entry == "Cancel"@ ==> answer_action(all) == Some(ElicitationAction::Cancel)
        }),
        answer_action(before) is None,
    decreases before.len(),
{
    let all = before + seq![entry] + after;
    lemma_entry_action(entry);
    if before.len() > 0 {
        let rest = before.drop_first();
        assert forall|i: int| 0 <= i < rest.len() implies (#[trigger] rest[i]) != "Accept"@
            && rest[i] != "Decline"@ && rest[i] != "Cancel"@ by {
            assert(rest[i] == before[i + 1]);
        }
        assert(before[0] != "Accept"@);
        lemma_entry_action(before[0]);
        lemma_answer_action(rest, entry, after);
        assert(all[0] == before[0]);
        assert(all.drop_first() =~= rest + seq![entry] + after);
    } else {
        assert(all[0] == entry);
    }
}

/// The reply to a request is what the user decides. A granted request is answered with what the
/// form comes to, and with an empty object where there is no form; where the form will not do, and
/// where the user decides nothing or does not answer at all, the request is called off. Without
/// being granted, nothing goes with the reply.
pub proof fn lemma_reply(
    response: RequestUserInputResponse,
    schema: Option<JsonView>,
    readings: Seq<TextReading>,
)
    ensures
        reply(None, schema, readings) == (ElicitationAction::Cancel, None::<JsonView>),
        ({
            let entries = response.entries("mcp_elicitation_decision"@);
            let told = reply(Some(response), schema, readings);
            &&& answer_action(entries) is None ==> told == (
                ElicitationAction::Cancel,
                None::<JsonView>,
            )
            &&& answer_action(entries) == Some(ElicitationAction::Cancel) ==> told == (
                ElicitationAction::Cancel,
                None::<JsonView>,
            )
            &&& answer_action(entries) == Some(ElicitationAction::Decline) ==> told == (
                ElicitationAction::Decline,
                None::<JsonView>,
            )
            &&& answer_action(entries) == Some(ElicitationAction::Accept) ==> match form_content(
                response,
                schema,
                readings,
            ) {
                Ok(Some(content)) => told == (ElicitationAction::Accept, Some(content)),
                Ok(None) => told.0 == ElicitationAction::Accept && (told.1 matches Some(
                    JsonView::Object(members),
                ) && members.len() == 0),
                Err(_) => told == (ElicitationAction::Cancel, None::<JsonView>),
            }
        }),
{
}

/// The question whether to grant a request shows what the server says, and the page where there is
/// one, and offers the three answers that are understood.
pub proof fn lemma_decision_question(message: Seq<char>, url: Option<Seq<char>>)
    ensures
        ({
            let question = decision_question(message, url);
            &&& question.id == "mcp_elicitation_decision"@
            &&& question.is_other
            &&& !question.is_secret
            &&& url is None ==> question.question == message
            &&& url matches Some(page) ==> question.question == message + "\nURL: "@ + page
            &&& question.options matches Some(options) && {
                &&& options.len() == 3
                &&& options[0].label == "Accept"@
                &&& options[1].label == "Decline"@
                &&& options[2].label == "Cancel"@
            }
        }),
{
}

/// Questions are put to the user as they were asked, in order, and each takes an answer of the
/// user's own besides. They are refused where one of them offers no answer, and only there.
pub proof fn lemma_prepared(questions: Seq<QuestionView>, at: int)
    requires
        0 <= at < questions.len(),
    ensures
        questions[at].options is None ==> !all_offer(questions),
        questions[at].options matches Some(options) ==> options.len() == 0 ==> !all_offer(
            questions,
        ),
        all_opened(questions).len() == questions.len(),
        all_opened(questions)[at].is_other,
        all_opened(questions)[at].id == questions[at].id,
        all_opened(questions)[at].header == questions[at].header,
        all_opened(questions)[at].question == questions[at].question,
        all_opened(questions)[at].is_secret == questions[at].is_secret,
        all_opened(questions)[at].options == questions[at].options,
{
}

/// The model may ask the user while a plan is made, and at no other time.
pub proof fn lemma_may_ask(mode: ModeKind)
    ensures
        mode.may_ask() <==> mode is Plan,
{
}

/// Of some modes, those in which the model may ask are named, in order.
pub proof fn lemma_asking_names(modes: Seq<ModeKind>, mode: ModeKind)
    ensures
        mode.may_ask() ==> asking_names(modes.push(mode)) == asking_names(modes).push(mode.name()),
        !mode.may_ask() ==> asking_names(modes.push(mode)) == asking_names(modes),
        asking_names(Seq::<ModeKind>::empty()).len() == 0,
{
    assert(modes.push(mode).drop_last() =~= modes);
}

} // verus!
