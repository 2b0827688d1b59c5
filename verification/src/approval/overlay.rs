//! The overlay that asks the user to approve requests, one after another.

use vstd::prelude::*;

use crate::approval::form::any_missing;
use crate::approval::form::filled_in;
use crate::approval::form::form_editing;
use crate::approval::form::form_field_views;
use crate::approval::form::form_focused;
use crate::approval::form::form_submitted;
use crate::approval::form::form_value;
use crate::approval::form::fresh_form;
use crate::approval::form::is_missing;
use crate::approval::form::listed_fields;
use crate::approval::form::notes_field;
use crate::approval::form::parse_elicitation_schema_fields;
use crate::approval::form::ElicitationFormField;
use crate::approval::form::ElicitationFormState;
use crate::approval::form::FormFieldView;
use crate::approval::form::FormView;
use crate::approval::keys::plain_key;
use crate::approval::keys::pressed;
use crate::approval::keys::KeyCode;
use crate::approval::keys::KeyEvent;
use crate::approval::keys::KeyEventKind;
use crate::approval::keys::KeyModifiers;
use crate::approval::request::abort_option;
use crate::approval::request::approval_options;
use crate::approval::request::build_options;
use crate::approval::request::options_of;
use crate::approval::request::shown_key;
use crate::approval::request::title_of;
use crate::approval::request::ApprovalDecision;
use crate::approval::request::ApprovalOption;
use crate::approval::request::ApprovalOptionView;
use crate::approval::request::ApprovalRequest;
use crate::approval::request::DecisionView;
use crate::approval::request::OptionsPage;
use crate::approval::request::RequestId;
use crate::approval::request::RequestIdView;
use crate::approval::request::RequestView;
use crate::approval::request::ReviewDecision;
use crate::approval::request::ReviewView;
use crate::json::opt_json_owned;
use crate::json::JsonValue;
use crate::json::JsonView;
use crate::json::TextReading;
use crate::text::copy_texts;
use crate::text::is_blank;
use crate::text::texts;
use crate::user_input::ElicitationAction;

verus! {

// ---------------------------------------------------------------------------------------------
// Events
// ---------------------------------------------------------------------------------------------

/// What the overlay tells the rest of the program.
#[derive(Debug, PartialEq, Eq)]
pub enum ApprovalEvent {
    /// A decision about a command goes into the history.
    InsertHistoryCell {
        /// The command.
        command: Vec<String>,
        /// The decision.
        decision: ReviewDecision,
    },
    /// A command was decided about.
    ExecApproval {
        /// The name of the request.
        id: String,
        /// The decision.
        decision: ReviewDecision,
    },
    /// Changes were decided about.
    PatchApproval {
        /// The name of the request.
        id: String,
        /// The decision.
        decision: ReviewDecision,
    },
    /// A request of a tool server was decided about.
    ResolveElicitation {
        /// The server.
        server_name: String,
        /// The name of the request.
        request_id: RequestId,
        /// The decision.
        decision: ElicitationAction,
        /// What was filled in.
        response_content: Option<JsonValue>,
    },
    /// The request is to be shown on the whole screen.
    FullScreenApprovalRequest(ApprovalRequest),
}

/// What the overlay tells the rest of the program, with texts as characters.
pub enum EventView {
    /// A decision about a command goes into the history.
    InsertHistoryCell(Seq<Seq<char>>, ReviewView),
    /// A command was decided about.
    ExecApproval(Seq<char>, ReviewView),
    /// Changes were decided about.
    PatchApproval(Seq<char>, ReviewView),
    /// A request of a tool server was decided about.
    ResolveElicitation(Seq<char>, RequestIdView, ElicitationAction, Option<JsonView>),
    /// The request is to be shown on the whole screen.
    FullScreenApprovalRequest(RequestView),
}

impl View for ApprovalEvent {
    type V = EventView;

    open spec fn view(&self) -> EventView {
        match *self {
            ApprovalEvent::InsertHistoryCell { command, decision } => EventView::InsertHistoryCell(
                texts(command@),
                decision@,
            ),
            ApprovalEvent::ExecApproval { id, decision } => EventView::ExecApproval(
                id@,
                decision@,
            ),
            ApprovalEvent::PatchApproval { id, decision } => EventView::PatchApproval(
                id@,
                decision@,
            ),
            ApprovalEvent::ResolveElicitation {
                server_name,
                request_id,
                decision,
                response_content,
            } => EventView::ResolveElicitation(
                server_name@,
                request_id@,
                decision,
                opt_json_owned(response_content),
            ),
            ApprovalEvent::FullScreenApprovalRequest(request) =>
                EventView::FullScreenApprovalRequest(request@),
        }
    }
}

/// Events, with texts as characters.
pub open spec fn event_views(events: Seq<ApprovalEvent>) -> Seq<EventView> {
    Seq::new(events.len(), |i: int| events[i]@)
}

/// What is told of a decision about a request, with what was filled in.
pub open spec fn decision_events(
    request: RequestView,
    decision: DecisionView,
    content: Option<JsonView>,
) -> Seq<EventView> {
    match (request, decision) {
        (
            RequestView::Exec { id, command, reason, network, amendment },
            DecisionView::Review(review),
        ) => seq![
            EventView::InsertHistoryCell(command, review),
            EventView::ExecApproval(id, review),
        ],
        (
            RequestView::ApplyPatch { id, reason, cwd, changes },
            DecisionView::Review(review),
        ) => seq![EventView::PatchApproval(id, review)],
        (
            RequestView::McpElicitation {
                server_name,
                request_id,
                message,
                requested_schema,
                url,
            },
            DecisionView::McpElicitation(action),
        ) => seq![EventView::ResolveElicitation(server_name, request_id, action, content)],
        _ => Seq::empty(),
    }
}

/// What is told of a decision about a request, with what was filled in.
fn tell_decision(
    request: &ApprovalRequest,
    decision: &ApprovalDecision,
    content: Option<JsonValue>,
) -> (events: Vec<ApprovalEvent>)
    ensures
        event_views(events@) == decision_events(request@, decision@, opt_json_owned(content)),
{
    let mut events: Vec<ApprovalEvent> = Vec::new();
    match (request, decision) {
        (ApprovalRequest::Exec { id, command, .. }, ApprovalDecision::Review(review)) => {
            events.push(
                ApprovalEvent::InsertHistoryCell {
                    command: copy_texts(command),
                    decision: review.copy(),
                },
            );
            events.push(ApprovalEvent::ExecApproval { id: id.clone(), decision: review.copy() });
        },
        (ApprovalRequest::ApplyPatch { id, .. }, ApprovalDecision::Review(review)) => {
            events.push(ApprovalEvent::PatchApproval { id: id.clone(), decision: review.copy() });
        },
        (
            ApprovalRequest::McpElicitation { server_name, request_id, .. },
            ApprovalDecision::McpElicitation(action),
        ) => {
            events.push(
                ApprovalEvent::ResolveElicitation {
                    server_name: server_name.clone(),
                    request_id: request_id.copy(),
                    decision: *action,
                    response_content: content,
                },
            );
        },
        _ => {},
    }
    assert(event_views(events@) =~= decision_events(request@, decision@, opt_json_owned(content)));
    events
}

// ---------------------------------------------------------------------------------------------
// The overlay
// ---------------------------------------------------------------------------------------------

/// The overlay that asks the user to approve requests, one after another.
#[derive(Debug)]
pub struct ApprovalOverlay {
    /// The request that is shown.
    pub current_request: ApprovalRequest,
    /// The requests that wait; the last comes next.
    pub queue: Vec<ApprovalRequest>,
    /// The form that is shown with the request.
    pub elicitation_form: Option<ElicitationFormState>,
    /// How the request is put to the user.
    pub page: OptionsPage,
    /// Whether the request that is shown is decided.
    pub current_complete: bool,
    /// Whether all requests are decided.
    pub done: bool,
    /// Whether requests of tool servers come with forms and pages.
    pub apps_gateway: bool,
}

/// The overlay, with texts as characters.
#[verifier::ext_equal]
pub struct OverlayView {
    /// The request that is shown.
    pub request: RequestView,
    /// The requests that wait; the last comes next.
    pub queue: Seq<RequestView>,
    /// The form that is shown with the request.
    pub form: Option<FormView>,
    /// Whether the request that is shown is decided.
    pub complete: bool,
    /// Whether all requests are decided.
    pub done: bool,
    /// Whether requests of tool servers come with forms and pages.
    pub apps_gateway: bool,
}

/// Requests, with texts as characters.
pub open spec fn request_views(requests: Seq<ApprovalRequest>) -> Seq<RequestView> {
    Seq::new(requests.len(), |i: int| requests[i]@)
}

/// The view of an optional form.
pub open spec fn opt_form(form: Option<ElicitationFormState>) -> Option<FormView> {
    match form {
        Some(form) => Some(form@),
        None => None,
    }
}

impl View for ApprovalOverlay {
    type V = OverlayView;

    open spec fn view(&self) -> OverlayView {
        OverlayView {
            request: self.current_request@,
            queue: request_views(self.queue@),
            form: opt_form(self.elicitation_form),
            complete: self.current_complete,
            done: self.done,
            apps_gateway: self.apps_gateway,
        }
    }
}

impl ApprovalOverlay {
    /// Whether the options and the title are those of the request, and the form is sound.
    pub open spec fn wf(&self) -> bool {
        &&& approval_options(self.page.options@) == options_of(self.current_request@)
        &&& self.page.title@ == title_of(self.current_request@)
        &&& self.page.spaced == !(self.current_request@ is McpElicitation)
        &&& self.elicitation_form matches Some(form) ==> form.wf()
    }
}

/// A request as it is shown: without a form and a page where they are switched off.
pub open spec fn shown(request: RequestView, apps_gateway: bool) -> RequestView {
    match request {
        RequestView::McpElicitation {
            server_name,
            request_id,
            message,
            requested_schema,
            url,
        } => if apps_gateway {
            request
        } else {
            RequestView::McpElicitation {
                server_name,
                request_id,
                message,
                requested_schema: None,
                url: None,
            }
        },
        _ => request,
    }
}

/// The fields of a form: those of its schema, or else one that asks for nothing in particular.
pub open spec fn fields_or_notes(schema: JsonView) -> Seq<FormFieldView> {
    match listed_fields(schema) {
        Some(fields) => if fields.len() == 0 {
            seq![notes_field()]
        } else {
            fields
        },
        None => seq![notes_field()],
    }
}

/// The form that is shown with a request.
pub open spec fn form_of(request: RequestView, apps_gateway: bool) -> Option<FormView> {
    match request {
        RequestView::McpElicitation {
            server_name,
            request_id,
            message,
            requested_schema,
            url,
        } => match requested_schema {
            Some(schema) => if apps_gateway {
                Some(fresh_form(fields_or_notes(schema)))
            } else {
                None
            },
            None => None,
        },
        _ => None,
    }
}

/// The overlay when a request is shown.
pub open spec fn showing(overlay: OverlayView, request: RequestView) -> OverlayView {
    let visible = shown(request, overlay.apps_gateway);
    OverlayView {
        request: visible,
        form: form_of(visible, overlay.apps_gateway),
        complete: false,
        ..overlay
    }
}

/// The overlay when the next request is shown, or all are decided.
pub open spec fn advanced(overlay: OverlayView) -> OverlayView {
    if overlay.queue.len() > 0 {
        showing(
            OverlayView { queue: overlay.queue.drop_last(), ..overlay },
            overlay.queue.last(),
        )
    } else {
        OverlayView { done: true, ..overlay }
    }
}

/// Whether granting a request has to wait: a field that has to be filled in is not.
pub open spec fn must_fill_in(overlay: OverlayView, decision: DecisionView) -> bool {
    &&& overlay.request is McpElicitation
    &&& overlay.apps_gateway
    &&& decision == DecisionView::McpElicitation(ElicitationAction::Accept)
    &&& overlay.form matches Some(form) && any_missing(form)
}

/// Whether a decision cancels a request of a tool server.
pub open spec fn cancels(decision: DecisionView) -> bool {
    decision == DecisionView::McpElicitation(ElicitationAction::Cancel)
}

/// What goes with a decision of what was filled in: nothing where the request is cancelled.
pub open spec fn payload(
    overlay: OverlayView,
    decision: DecisionView,
    readings: Seq<TextReading>,
) -> Option<JsonView> {
    match overlay.form {
        Some(form) => if overlay.apps_gateway && !cancels(decision) {
            form_value(form, readings)
        } else {
            None
        },
        None => None,
    }
}

/// The overlay when the user has chosen an option, and what is told.
pub open spec fn selected(overlay: OverlayView, index: int, readings: Seq<TextReading>) -> (
    OverlayView,
    Seq<EventView>,
) {
    let options = options_of(overlay.request);
    if overlay.complete || !(0 <= index < options.len()) {
        (overlay, Seq::empty())
    } else {
        let decision = options[index].decision;
        if must_fill_in(overlay, decision) {
            (
                OverlayView { form: Some(form_focused(overlay.form->0)), ..overlay },
                Seq::empty(),
            )
        } else {
            (
                advanced(OverlayView { complete: true, ..overlay }),
                decision_events(
                    overlay.request,
                    decision,
                    payload(overlay, decision, readings),
                ),
            )
        }
    }
}

/// What calling a request off decides.
pub open spec fn abort_decision(request: RequestView) -> DecisionView {
    match request {
        RequestView::McpElicitation { .. } => DecisionView::McpElicitation(
            ElicitationAction::Cancel,
        ),
        _ => DecisionView::Review(ReviewView::Abort),
    }
}

/// The overlay when the user has called everything off, and what is told.
pub open spec fn called_off(overlay: OverlayView) -> (OverlayView, Seq<EventView>) {
    if overlay.done {
        (overlay, Seq::empty())
    } else {
        (
            OverlayView { queue: Seq::empty(), done: true, ..overlay },
            if overlay.complete {
                Seq::empty()
            } else {
                decision_events(overlay.request, abort_decision(overlay.request), None)
            },
        )
    }
}

/// What is done with a key next.
#[derive(Clone, Copy, Debug, PartialEq, Eq, Structural)]
pub enum KeyNext {
    /// Nothing.
    Done,
    /// It goes to the line of input; whether that took it is then told.
    Compose,
    /// It goes to the list of options; which of them was chosen is then told.
    List,
}

/// What a key does.
#[derive(Debug, PartialEq, Eq)]
pub struct KeyStep {
    /// What is done with the key next.
    pub next: KeyNext,
    /// What is told.
    pub events: Vec<ApprovalEvent>,
}

/// Whether a key begins to fill in a field by being typed.
pub open spec fn types_into_form(key: KeyEvent) -> bool {
    match key.code {
        KeyCode::Char(ch) => key.kind == KeyEventKind::Press && key.modifiers
            == KeyModifiers::none() && ch != 'y' && ch != 'Y' && ch != 'n' && ch != 'N' && ch != 'c'
            && ch != 'C',
        _ => false,
    }
}

/// What a key does to a form; none where it does nothing.
pub open spec fn form_key(form: FormView, key: KeyEvent) -> Option<(FormView, KeyNext)> {
    if key.kind != KeyEventKind::Press {
        None
    } else if !form.is_editing {
        if key.code == KeyCode::Tab {
            Some((form_editing(form), KeyNext::Done))
        } else if types_into_form(key) {
            Some((form_editing(form), KeyNext::Compose))
        } else {
            None
        }
    } else if key.code == KeyCode::Enter || key.code == KeyCode::Tab {
        Some((form_submitted(form), KeyNext::Done))
    } else {
        Some((form, KeyNext::Compose))
    }
}

/// Whether a key is one for an option that is being typed into a form instead.
pub open spec fn typed_instead(overlay: OverlayView, key: KeyEvent) -> bool {
    &&& overlay.form matches Some(form) && form.is_editing
    &&& key.modifiers == KeyModifiers::none()
    &&& key.code == KeyCode::Char('a') || key.code == KeyCode::Char('c') || key.code
        == KeyCode::Char('n') || key.code == KeyCode::Char('y')
}

/// Whether a key asks for the whole screen.
pub open spec fn asks_full_screen(key: KeyEvent) -> bool {
    key.kind == KeyEventKind::Press && key.code == KeyCode::Char('a') && key.modifiers.control
}

/// Whether a key is one for an option.
pub open spec fn chooses(option: ApprovalOptionView, key: KeyEvent) -> bool {
    (option.display_shortcut matches Some(binding) && pressed(binding, key)) || exists|i: int|
        0 <= i < option.additional_shortcuts.len() && #[trigger] pressed(
            option.additional_shortcuts[i],
            key,
        )
}

/// The first option that a key is for, or the number of options.
pub open spec fn chosen_option(options: Seq<ApprovalOptionView>, key: KeyEvent) -> int
    decreases options.len(),
{
    if options.len() == 0 || chooses(options[0], key) {
        0
    } else {
        1 + chosen_option(options.drop_first(), key)
    }
}

/// What a key does that no form takes.
pub open spec fn shortcut(overlay: OverlayView, key: KeyEvent, readings: Seq<TextReading>) -> (
    OverlayView,
    Seq<EventView>,
    KeyNext,
) {
    let options = options_of(overlay.request);
    let index = chosen_option(options, key);
    if typed_instead(overlay, key) {
        (overlay, Seq::empty(), KeyNext::List)
    } else if asks_full_screen(key) {
        (overlay, seq![EventView::FullScreenApprovalRequest(overlay.request)], KeyNext::Done)
    } else if index < options.len() {
        let after = selected(overlay, index, readings);
        (after.0, after.1, KeyNext::Done)
    } else {
        (overlay, Seq::empty(), KeyNext::List)
    }
}

/// What a key does.
pub open spec fn keyed(overlay: OverlayView, key: KeyEvent, readings: Seq<TextReading>) -> (
    OverlayView,
    Seq<EventView>,
    KeyNext,
) {
    match overlay.form {
        Some(form) => match form_key(form, key) {
            Some((after, next)) => (
                OverlayView { form: Some(after), ..overlay },
                Seq::empty(),
                next,
            ),
            None => shortcut(overlay, key, readings),
        },
        None => shortcut(overlay, key, readings),
    }
}

impl ApprovalOverlay {
    /// The overlay with a request.
    pub fn new(request: ApprovalRequest, apps_gateway: bool) -> (overlay: ApprovalOverlay)
        ensures
            overlay.wf(),
            overlay@ == showing(
                OverlayView {
                    request: request@,
                    queue: Seq::empty(),
                    form: None,
                    complete: false,
                    done: false,
                    apps_gateway,
                },
                request@,
            ),
    {
        let request = ApprovalOverlay::visible(request, apps_gateway);
        let form = ApprovalOverlay::build_form_state(&request, apps_gateway);
        let page = build_options(&request);
        let overlay = ApprovalOverlay {
            current_request: request,
            queue: Vec::new(),
            elicitation_form: form,
            page,
            current_complete: false,
            done: false,
            apps_gateway,
        };
        assert(overlay@.queue =~= Seq::<RequestView>::empty());
        overlay
    }

    /// A request as it is shown.
    fn visible(request: ApprovalRequest, apps_gateway: bool) -> (visible: ApprovalRequest)
        ensures
            visible@ == shown(request@, apps_gateway),
    {
        if apps_gateway {
            return request;
        }
        match request {
            ApprovalRequest::McpElicitation { server_name, request_id, message, .. } =>
                ApprovalRequest::McpElicitation {
                server_name,
                request_id,
                message,
                requested_schema: None,
                url: None,
            },
            request => request,
        }
    }

    /// The form that is shown with a request.
    pub fn build_form_state(request: &ApprovalRequest, apps_gateway: bool) -> (form: Option<
        ElicitationFormState,
    >)
        ensures
            opt_form(form) == form_of(request@, apps_gateway),
            form matches Some(form) ==> form.wf(),
    {
        if !apps_gateway {
            return None;
        }
        match request {
            ApprovalRequest::McpElicitation { requested_schema: Some(schema), .. } => {
                let fields = match parse_elicitation_schema_fields(schema) {
                    Some(fields) => fields,
                    None => Vec::new(),
                };
                if fields.len() == 0 {
                    let notes = vec![ElicitationFormField::notes()];
                    assert(form_field_views(notes@) =~= seq![notes_field()]);
                    Some(ElicitationFormState::new(notes))
                } else {
                    Some(ElicitationFormState::new(fields))
                }
            },
            _ => None,
        }
    }

    /// Lets a request wait.
    pub fn enqueue_request(&mut self, req: ApprovalRequest)
        requires
            old(self).wf(),
        ensures
            final(self).wf(),
            final(self)@ == (OverlayView {
                queue: old(self)@.queue.push(req@),
                ..old(self)@
            }),
    {
        let ghost before = self@;
        self.queue.push(req);
        assert(self@.queue =~= before.queue.push(req@));
    }

    /// Shows a request.
    pub fn set_current(&mut self, request: ApprovalRequest)
        requires
            old(self).wf(),
        ensures
            final(self).wf(),
            final(self)@ == showing(old(self)@, request@),
    {
        let request = ApprovalOverlay::visible(request, self.apps_gateway);
        self.elicitation_form = ApprovalOverlay::build_form_state(&request, self.apps_gateway);
        self.page = build_options(&request);
        self.current_request = request;
        self.current_complete = false;
    }

    /// Shows the next request, where one waits.
    pub fn advance_queue(&mut self)
        requires
            old(self).wf(),
        ensures
            final(self).wf(),
            final(self)@ == advanced(old(self)@),
    {
        let ghost before = self@;
        match self.queue.pop() {
            Some(next) => {
                proof {
                    assert(before.queue.last() == next@);
                    assert(self@.queue =~= before.queue.drop_last());
                }
                self.set_current(next);
            },
            None => {
                self.done = true;
                assert(self@.queue =~= before.queue);
            },
        }
    }

    /// Takes in that the user has chosen an option. What is told is handed back. `readings` holds
    /// what was filled in, read as numbers.
    pub fn apply_selection(&mut self, actual_idx: usize, readings: &Vec<TextReading>) -> (events:
        Vec<ApprovalEvent>)
        requires
            old(self).wf(),
        ensures
            final(self).wf(),
            (final(self)@, event_views(events@)) == selected(
                old(self)@,
                actual_idx as int,
                readings@,
            ),
    {
        let ghost before = self@;
        let nothing: Vec<ApprovalEvent> = Vec::new();
        assert(event_views(nothing@) =~= Seq::<EventView>::empty());
        proof {
            assert(approval_options(self.page.options@).len() == self.page.options@.len());
        }
        if self.current_complete || actual_idx >= self.page.options.len() {
            return nothing;
        }
        assert(options_of(before.request)[actual_idx as int]
            == self.page.options@[actual_idx as int]@);
        let decision = &self.page.options[actual_idx].decision;
        let accepts = match decision {
            ApprovalDecision::McpElicitation(ElicitationAction::Accept) => true,
            _ => false,
        };
        let of_server = match &self.current_request {
            ApprovalRequest::McpElicitation { .. } => true,
            _ => false,
        };
        if accepts && of_server && self.apps_gateway {
            let missing = match &self.elicitation_form {
                Some(form) => form.has_missing_required_fields(),
                None => false,
            };
            if missing {
                if let Some(form) = &mut self.elicitation_form {
                    form.focus_first_missing_required_field();
                }
                return nothing;
            }
        }
        let cancelled = match decision {
            ApprovalDecision::McpElicitation(ElicitationAction::Cancel) => true,
            _ => false,
        };
        let content = match &self.elicitation_form {
            Some(form) => if self.apps_gateway && !cancelled {
                form.to_value(readings)
            } else {
                None
            },
            None => None,
        };
        let events = tell_decision(&self.current_request, decision, content);
        self.current_complete = true;
        self.advance_queue();
        events
    }

    /// Takes in that the user calls everything off. What is told is handed back.
    pub fn on_ctrl_c(&mut self) -> (events: Vec<ApprovalEvent>)
        requires
            old(self).wf(),
        ensures
            final(self).wf(),
            (final(self)@, event_views(events@)) == called_off(old(self)@),
    {
        let mut events: Vec<ApprovalEvent> = Vec::new();
        assert(event_views(events@) =~= Seq::<EventView>::empty());
        if self.done {
            return events;
        }
        if !self.current_complete {
            let decision = match &self.current_request {
                ApprovalRequest::McpElicitation { .. } => ApprovalDecision::McpElicitation(
                    ElicitationAction::Cancel,
                ),
                _ => ApprovalDecision::Review(ReviewDecision::Abort),
            };
            events = tell_decision(&self.current_request, &decision, None);
        }
        self.queue.clear();
        self.done = true;
        assert(self@.queue =~= Seq::<RequestView>::empty());
        events
    }

    /// Whether all requests are decided.
    pub fn is_complete(&self) -> (done: bool)
        ensures
            done == self@.done,
    {
        self.done
    }

    /// Takes in what the line of input holds.
    pub fn set_form_text(&mut self, text: String)
        requires
            old(self).wf(),
        ensures
            final(self).wf(),
            final(self)@ == (OverlayView {
                form: match old(self)@.form {
                    Some(form) => Some(FormView { text: text@, ..form }),
                    None => None,
                },
                ..old(self)@
            }),
    {
        if let Some(form) = &mut self.elicitation_form {
            form.set_text(text);
        }
    }

    /// Whether a key begins to fill in a field by being typed.
    pub fn is_form_input_key(key_event: &KeyEvent) -> (typed: bool)
        ensures
            typed == types_into_form(*key_event),
    {
        match key_event.code {
            KeyCode::Char(ch) => key_event.kind == KeyEventKind::Press && key_event.modifiers.same(
                &KeyModifiers::empty(),
            ) && ch != 'y' && ch != 'Y' && ch != 'n' && ch != 'N' && ch != 'c' && ch != 'C',
            _ => false,
        }
    }

    /// Takes in a key where a form takes it.
    fn try_handle_form_key_event(&mut self, key_event: &KeyEvent) -> (next: Option<KeyNext>)
        requires
            old(self).wf(),
        ensures
            final(self).wf(),
            match old(self)@.form {
                Some(form) => match form_key(form, *key_event) {
                    Some((after, then_next)) => next == Some(then_next) && final(self)@ == (
                    OverlayView { form: Some(after), ..old(self)@ }),
                    None => next is None && final(self)@ == old(self)@,
                },
                None => next is None && final(self)@ == old(self)@,
            },
    {
        match &mut self.elicitation_form {
            Some(form) => {
                if key_event.kind != KeyEventKind::Press {
                    return None;
                }
                if !form.is_editing {
                    if key_event.code.same(&KeyCode::Tab) {
                        form.start_editing();
                        return Some(KeyNext::Done);
                    }
                    if ApprovalOverlay::is_form_input_key(key_event) {
                        form.start_editing();
                        return Some(KeyNext::Compose);
                    }
                    return None;
                }
                if key_event.code.same(&KeyCode::Enter) || key_event.code.same(&KeyCode::Tab) {
                    form.submit_current_field();
                    Some(KeyNext::Done)
                } else {
                    Some(KeyNext::Compose)
                }
            },
            None => None,
        }
    }

    /// Whether a key is one for an option.
    fn option_chosen(option: &ApprovalOption, key_event: &KeyEvent) -> (chosen: bool)
        ensures
            chosen == chooses(option@, *key_event),
    {
        if let Some(binding) = &option.display_shortcut {
            if binding.is_press(key_event) {
                return true;
            }
        }
        let mut at: usize = 0;
        while at < option.additional_shortcuts.len()
            invariant
                at <= option.additional_shortcuts@.len(),
                option.display_shortcut matches Some(binding) ==> !pressed(binding, *key_event),
                forall|i: int|
                    0 <= i < at ==> !#[trigger] pressed(
                        option.additional_shortcuts@[i],
                        *key_event,
                    ),
            decreases option.additional_shortcuts@.len() - at,
        {
            if option.additional_shortcuts[at].is_press(key_event) {
                assert(pressed(option@.additional_shortcuts[at as int], *key_event));
                return true;
            }
            at += 1;
        }
        false
    }

    /// Takes in a key that no form takes.
    fn try_handle_shortcut(&mut self, key_event: &KeyEvent, readings: &Vec<TextReading>) -> (step:
        KeyStep)
        requires
            old(self).wf(),
        ensures
            final(self).wf(),
            (final(self)@, event_views(step.events@), step.next) == shortcut(
                old(self)@,
                *key_event,
                readings@,
            ),
    {
        let mut events: Vec<ApprovalEvent> = Vec::new();
        assert(event_views(events@) =~= Seq::<EventView>::empty());
        let editing = match &self.elicitation_form {
            Some(form) => form.is_editing,
            None => false,
        };
        if editing && key_event.modifiers.same(&KeyModifiers::empty()) && (key_event.code.same(
            &KeyCode::Char('a'),
        ) || key_event.code.same(&KeyCode::Char('c')) || key_event.code.same(&KeyCode::Char('n'))
            || key_event.code.same(&KeyCode::Char('y'))) {
            return KeyStep { next: KeyNext::List, events };
        }
        if key_event.kind == KeyEventKind::Press && key_event.code.same(&KeyCode::Char('a'))
            && key_event.modifiers.control {
            events.push(
                ApprovalEvent::FullScreenApprovalRequest(self.current_request.copy()),
            );
            assert(event_views(events@) =~= seq![
                EventView::FullScreenApprovalRequest(self@.request),
            ]);
            return KeyStep { next: KeyNext::Done, events };
        }
        let ghost options = options_of(self@.request);
        let mut at: usize = 0;
        assert(options.skip(0) =~= options);
        while at < self.page.options.len()
            invariant
                self.wf(),
                *self == *old(self),
                options == options_of(self@.request),
                options == approval_options(self.page.options@),
                !typed_instead(self@, *key_event),
                !asks_full_screen(*key_event),
                at <= self.page.options@.len(),
                chosen_option(options, *key_event) == at + chosen_option(
                    options.skip(at as int),
                    *key_event,
                ),
            decreases self.page.options@.len() - at,
        {
            proof {
                assert(options.skip(at as int)[0] == self.page.options@[at as int]@);
                assert(options.skip(at as int).drop_first() =~= options.skip(at + 1));
            }
            if ApprovalOverlay::option_chosen(&self.page.options[at], key_event) {
                let told = self.apply_selection(at, readings);
                return KeyStep { next: KeyNext::Done, events: told };
            }
            at += 1;
        }
        KeyStep { next: KeyNext::List, events }
    }

    /// Takes in a key. Before, what the line of input holds is to be told; after, the line of
    /// input is to hold what the form says. `readings` holds what was filled in, read as numbers.
    pub fn handle_key_event(&mut self, key_event: &KeyEvent, readings: &Vec<TextReading>) -> (step:
        KeyStep)
        requires
            old(self).wf(),
        ensures
            final(self).wf(),
            (final(self)@, event_views(step.events@), step.next) == keyed(
                old(self)@,
                *key_event,
                readings@,
            ),
    {
        match self.try_handle_form_key_event(key_event) {
            Some(next) => {
                let events: Vec<ApprovalEvent> = Vec::new();
                assert(event_views(events@) =~= Seq::<EventView>::empty());
                KeyStep { next, events }
            },
            None => self.try_handle_shortcut(key_event, readings),
        }
    }

    /// Takes in whether the line of input took a key: if not, it may be one for an option.
    pub fn composed(&mut self, key_event: &KeyEvent, handled: bool, readings: &Vec<TextReading>) -> (
        step: KeyStep)
        requires
            old(self).wf(),
        ensures
            final(self).wf(),
            (final(self)@, event_views(step.events@), step.next) == (if handled {
                (old(self)@, Seq::empty(), KeyNext::Done)
            } else {
                shortcut(old(self)@, *key_event, readings@)
            }),
    {
        if handled {
            let events: Vec<ApprovalEvent> = Vec::new();
            assert(event_views(events@) =~= Seq::<EventView>::empty());
            KeyStep { next: KeyNext::Done, events }
        } else {
            self.try_handle_shortcut(key_event, readings)
        }
    }
}

// ---------------------------------------------------------------------------------------------
// Laws
// ---------------------------------------------------------------------------------------------

/// Calling everything off decides the request that is shown, drops those that wait, and is done;
/// doing it again tells nothing. A request of a tool server is answered without what was filled
/// in.
pub proof fn lemma_called_off(overlay: OverlayView)
    ensures
        called_off(overlay).0.done,
        !overlay.done ==> called_off(overlay).0.queue.len() == 0,
        called_off(called_off(overlay).0) == (called_off(overlay).0, Seq::<EventView>::empty()),
        !overlay.done && !overlay.complete ==> called_off(overlay).1.len() > 0,
        overlay.request matches RequestView::McpElicitation {
            server_name,
            request_id,
            message,
            requested_schema,
            url,
        } ==> !overlay.done && !overlay.complete ==> called_off(overlay).1 == seq![
            EventView::ResolveElicitation(server_name, request_id, ElicitationAction::Cancel, None),
        ],
        overlay.request matches RequestView::ApplyPatch { id, reason, cwd, changes }
            ==> !overlay.done && !overlay.complete ==> called_off(overlay).1 == seq![
            EventView::PatchApproval(id, ReviewView::Abort),
        ],
        overlay.request matches RequestView::Exec { id, command, reason, network, amendment }
            ==> !overlay.done && !overlay.complete ==> called_off(overlay).1 == seq![
            EventView::InsertHistoryCell(command, ReviewView::Abort),
            EventView::ExecApproval(id, ReviewView::Abort),
        ],
        overlay.done || overlay.complete ==> called_off(overlay).1.len() == 0,
        called_off(overlay).0.request == overlay.request,
        called_off(overlay).0.form == overlay.form,
{
}

/// A form of which nothing is filled in but white space has no value.
proof fn lemma_blank_form(form: FormView, readings: Seq<TextReading>, count: nat)
    requires
        count <= form.values.len(),
        forall|i: int| 0 <= i < form.values.len() ==> is_blank(#[trigger] form.values[i]),
    ensures
        filled_in(form, readings, count).len() == 0,
    decreases count,
{
    if count > 0 {
        lemma_blank_form(form, readings, (count - 1) as nat);
        assert(is_blank(form.values[count - 1]));
    }
}

/// Where nothing but white space is filled in, a request of a tool server is answered without
/// content, whether it is granted, declined or cancelled.
pub proof fn lemma_nothing_filled_in(
    overlay: OverlayView,
    index: int,
    readings: Seq<TextReading>,
)
    requires
        !overlay.complete,
        0 <= index < options_of(overlay.request).len(),
        overlay.request is McpElicitation,
        overlay.form matches Some(form) ==> form.fields.len() == form.values.len() && (forall|
            i: int,
        |
            0 <= i < form.values.len() ==> is_blank(#[trigger] form.values[i])),
    ensures
        forall|i: int|
            0 <= i < selected(overlay, index, readings).1.len() ==> ((#[trigger] selected(
                overlay,
                index,
                readings,
            ).1[i]) matches EventView::ResolveElicitation(_, _, _, content) && content is None),
{
    if let Some(form) = overlay.form {
        lemma_blank_form(form, readings, form.fields.len());
    }
}

/// A request of a tool server that is cancelled is answered with that, and without content,
/// whatever is filled in.
pub proof fn lemma_cancelled_without_content(
    overlay: OverlayView,
    index: int,
    readings: Seq<TextReading>,
)
    requires
        !overlay.complete,
        0 <= index < options_of(overlay.request).len(),
        cancels(options_of(overlay.request)[index].decision),
    ensures
        overlay.request matches RequestView::McpElicitation {
            server_name,
            request_id,
            message,
            requested_schema,
            url,
        } && selected(overlay, index, readings).1 == seq![
            EventView::ResolveElicitation(server_name, request_id, ElicitationAction::Cancel, None),
        ],
{
    match overlay.request {
        RequestView::McpElicitation { .. } => {},
        _ => {
            assert(options_of(overlay.request)[index].decision is Review);
        },
    }
}

/// No other option takes the key that is shown for an option.
pub proof fn lemma_shown_key_chooses(request: RequestView, index: int)
    requires
        0 <= index < options_of(request).len(),
    ensures
        shown_key(options_of(request)[index]) matches Some(binding) && chosen_option(
            options_of(request),
            KeyEvent { code: binding.code, modifiers: binding.modifiers, kind: KeyEventKind::Press },
        ) == index,
{
    let options = options_of(request);
    let binding = shown_key(options[index])->0;
    let key = KeyEvent {
        code: binding.code,
        modifiers: binding.modifiers,
        kind: KeyEventKind::Press,
    };
    assert forall|i: int| 0 <= i < options.len() implies chooses(#[trigger] options[i], key) == (i
        == index) by {
        assert(options[i].additional_shortcuts.len() == 1);
        if i == index && options[i].display_shortcut is None {
            assert(pressed(options[i].additional_shortcuts[0], key));
        }
    }
    lemma_chosen_option(options, key, index);
}

/// The first option that a key is for, where it is for one alone.
proof fn lemma_chosen_option(options: Seq<ApprovalOptionView>, key: KeyEvent, index: int)
    requires
        0 <= index < options.len(),
        forall|i: int| 0 <= i < options.len() ==> chooses(#[trigger] options[i], key) == (i == index),
    ensures
        chosen_option(options, key) == index,
    decreases index,
{
    assert(chooses(options[0], key) == (0 == index));
    if index > 0 {
        let rest = options.drop_first();
        assert forall|i: int| 0 <= i < rest.len() implies chooses(#[trigger] rest[i], key) == (i
            == index - 1) by {
            assert(rest[i] == options[i + 1]);
        }
        lemma_chosen_option(rest, key, index - 1);
    }
}

/// A request is not granted while a field that has to be filled in is not: nothing is told, and
/// the first such field is being filled in.
pub proof fn lemma_required_fields_gate(
    overlay: OverlayView,
    index: int,
    readings: Seq<TextReading>,
)
    requires
        !overlay.complete,
        0 <= index < options_of(overlay.request).len(),
        options_of(overlay.request)[index].decision == DecisionView::McpElicitation(
            ElicitationAction::Accept,
        ),
        overlay.request is McpElicitation,
        overlay.apps_gateway,
        overlay.form matches Some(form) && any_missing(form),
    ensures
        selected(overlay, index, readings).1.len() == 0,
        selected(overlay, index, readings).0.request == overlay.request,
        selected(overlay, index, readings).0.form matches Some(form) && form.is_editing,
{
}

/// Where forms and pages are switched off, a request is shown without them, and nothing that is
/// filled in goes with a decision.
pub proof fn lemma_gateway_off(
    overlay: OverlayView,
    request: RequestView,
    decision: DecisionView,
    readings: Seq<TextReading>,
)
    requires
        !overlay.apps_gateway,
    ensures
        showing(overlay, request).form is None,
        showing(overlay, request).request matches RequestView::McpElicitation {
            server_name,
            request_id,
            message,
            requested_schema,
            url,
        } ==> requested_schema is None && url is None,
        payload(showing(overlay, request), decision, readings) is None,
{
}

/// A decision about a request that is shown is told, and either the next request is shown or all
/// are decided.
pub proof fn lemma_decision_told(overlay: OverlayView, index: int, readings: Seq<TextReading>)
    requires
        !overlay.complete,
        !overlay.done,
        0 <= index < options_of(overlay.request).len(),
        !must_fill_in(overlay, options_of(overlay.request)[index].decision),
    ensures
        selected(overlay, index, readings).1.len() > 0,
        overlay.queue.len() == 0 ==> selected(overlay, index, readings).0.done,
        overlay.queue.len() > 0 ==> {
            let after = selected(overlay, index, readings).0;
            &&& !after.done
            &&& !after.complete
            &&& after.request == shown(overlay.queue.last(), overlay.apps_gateway)
            &&& after.queue == overlay.queue.drop_last()
        },
{
    match overlay.request {
        RequestView::Exec { id, command, reason, network, amendment } => {
            assert(options_of(overlay.request)[index].decision is Review);
        },
        RequestView::ApplyPatch { .. } => {
            assert(options_of(overlay.request)[index].decision is Review);
        },
        RequestView::McpElicitation { .. } => {
            assert(options_of(overlay.request)[index].decision is McpElicitation);
        },
    }
}

/// What is told of a decision carries the decision of the option that was chosen, and names the
/// request that it is about: of changes, one approval; of a command, an entry in the history with
/// the command, and an approval, both with the decision; of a request of a tool server, an answer
/// with the action, and with what was filled in. Nothing else is told.
pub proof fn lemma_decision_carried(overlay: OverlayView, index: int, readings: Seq<TextReading>)
    requires
        !overlay.complete,
        0 <= index < options_of(overlay.request).len(),
        !must_fill_in(overlay, options_of(overlay.request)[index].decision),
    ensures
        ({
            let decision = options_of(overlay.request)[index].decision;
            let told = selected(overlay, index, readings).1;
            match overlay.request {
                RequestView::ApplyPatch { id, reason, cwd, changes } => {
                    &&& decision is Review
                    &&& told == seq![EventView::PatchApproval(id, decision->Review_0)]
                },
                RequestView::Exec { id, command, reason, network, amendment } => {
                    &&& decision is Review
                    &&& told == seq![
                        EventView::InsertHistoryCell(command, decision->Review_0),
                        EventView::ExecApproval(id, decision->Review_0),
                    ]
                },
                RequestView::McpElicitation {
                    server_name,
                    request_id,
                    message,
                    requested_schema,
                    url,
                } => {
                    &&& decision is McpElicitation
                    &&& told.len() == 1
                    &&& told[0] matches EventView::ResolveElicitation(server, id, action, content)
                        && {
                        &&& server == server_name
                        &&& id == request_id
                        &&& action == decision->McpElicitation_0
                        &&& overlay.form is None || !overlay.apps_gateway || action
                            == ElicitationAction::Cancel ==> content is None
                        &&& overlay.apps_gateway && action != ElicitationAction::Cancel ==> (
                        overlay.form matches Some(form) ==> content == form_value(form, readings))
                    }
                },
            }
        }),
{
    let options = options_of(overlay.request);
    match overlay.request {
        RequestView::McpElicitation { .. } => {
            assert(options[index].decision is McpElicitation);
        },
        _ => {
            assert(options[index].decision is Review);
        },
    }
}

/// A key that is bound to one option chooses that one.
proof fn lemma_key_chooses(request: RequestView, key: KeyEvent, index: int)
    requires
        key.kind == KeyEventKind::Press,
        key.modifiers == KeyModifiers::none(),
        0 <= index < options_of(request).len(),
        options_of(request)[index].display_shortcut == Some(plain_key(key.code))
            || options_of(request)[index].additional_shortcuts[0] == plain_key(key.code),
    ensures
        chosen_option(options_of(request), key) == index,
{
    let options = options_of(request);
    assert forall|i: int| 0 <= i < options.len() implies chooses(#[trigger] options[i], key) == (i
        == index) by {
        assert(options[i].additional_shortcuts.len() == 1);
        if i == index && options[i].display_shortcut != Some(plain_key(key.code)) {
            assert(pressed(options[i].additional_shortcuts[0], key));
        }
    }
    lemma_chosen_option(options, key, index);
}

/// What the keys decide about changes: `y` approves them, `a` approves them for the session, and
/// `n` and the escape key deny them. That is what is told, of that request.
pub proof fn lemma_keys_on_changes(overlay: OverlayView, key: KeyEvent, readings: Seq<TextReading>)
    requires
        !overlay.complete,
        overlay.form is None,
        overlay.request is ApplyPatch,
        key.kind == KeyEventKind::Press,
        key.modifiers == KeyModifiers::none(),
    ensures
        overlay.request matches RequestView::ApplyPatch { id, reason, cwd, changes } ==> {
            let told = keyed(overlay, key, readings).1;
            &&& key.code == KeyCode::Char('y') ==> told == seq![
                EventView::PatchApproval(id, ReviewView::Approved),
            ]
            &&& key.code == KeyCode::Char('a') ==> told == seq![
                EventView::PatchApproval(id, ReviewView::ApprovedForSession),
            ]
            &&& key.code == KeyCode::Char('n') || key.code == KeyCode::Esc ==> told == seq![
                EventView::PatchApproval(id, ReviewView::Abort),
            ]
        },
{
    let options = options_of(overlay.request);
    if key.code == KeyCode::Char('y') {
        lemma_key_chooses(overlay.request, key, 0);
    } else if key.code == KeyCode::Char('a') {
        lemma_key_chooses(overlay.request, key, 1);
    } else if key.code == KeyCode::Char('n') || key.code == KeyCode::Esc {
        lemma_key_chooses(overlay.request, key, 2);
    }
}

/// What the keys decide about a command: `y` approves it; `n` and the escape key deny it; `a`
/// approves a host for the session; and `p` approves whatever begins alike, where that can be shown
/// in one line and the command does not ask for a host. That is what is told, of that command.
pub proof fn lemma_keys_on_command(overlay: OverlayView, key: KeyEvent, readings: Seq<TextReading>)
    requires
        !overlay.complete,
        overlay.form is None,
        overlay.request is Exec,
        key.kind == KeyEventKind::Press,
        key.modifiers == KeyModifiers::none(),
    ensures
        overlay.request matches RequestView::Exec { id, command, reason, network, amendment } ==> {
            let told = keyed(overlay, key, readings).1;
            &&& key.code == KeyCode::Char('y') ==> told == seq![
                EventView::InsertHistoryCell(command, ReviewView::Approved),
                EventView::ExecApproval(id, ReviewView::Approved),
            ]
            &&& key.code == KeyCode::Char('n') || key.code == KeyCode::Esc ==> told == seq![
                EventView::InsertHistoryCell(command, ReviewView::Abort),
                EventView::ExecApproval(id, ReviewView::Abort),
            ]
            &&& key.code == KeyCode::Char('a') && network is Some ==> told == seq![
                EventView::InsertHistoryCell(command, ReviewView::ApprovedForSession),
                EventView::ExecApproval(id, ReviewView::ApprovedForSession),
            ]
            &&& key.code == KeyCode::Char('a') && network is None ==> told.len() == 0
            &&& key.code == KeyCode::Char('p') && network is Some ==> told.len() == 0
            &&& key.code == KeyCode::Char('p') && network is None ==> (match amendment {
                Some(offer) => if offer.rendered.contains('\n') || offer.rendered.contains('\r') {
                    told.len() == 0
                } else {
                    told == seq![
                        EventView::InsertHistoryCell(
                            command,
                            ReviewView::ApprovedExecpolicyAmendment(offer),
                        ),
                        EventView::ExecApproval(
                            id,
                            ReviewView::ApprovedExecpolicyAmendment(offer),
                        ),
                    ]
                },
                None => told.len() == 0,
            })
        },
{
    let options = options_of(overlay.request);
    let last = options.len() - 1;
    assert(options[last] == abort_option());
    if key.code == KeyCode::Char('y') {
        lemma_key_chooses(overlay.request, key, 0);
    } else if key.code == KeyCode::Char('n') || key.code == KeyCode::Esc {
        lemma_key_chooses(overlay.request, key, last);
    } else if key.code == KeyCode::Char('a') || key.code == KeyCode::Char('p') {
        let bound = options.len() == 3 && options[1].additional_shortcuts[0] == plain_key(key.code);
        if bound {
            lemma_key_chooses(overlay.request, key, 1);
        } else {
            assert forall|i: int| 0 <= i < options.len() implies !chooses(
                #[trigger] options[i],
                key,
            ) by {
                assert(options[i].additional_shortcuts.len() == 1);
                assert(!pressed(options[i].additional_shortcuts[0], key));
            }
            lemma_chosen_none(options, key);
        }
    }
}

/// What the keys decide about a request of a tool server: `y` grants it, `n` declines it, and `c`
/// and the escape key cancel it, while no field is being filled in. Granting waits until all fields
/// that have to be filled in are.
pub proof fn lemma_keys_on_server_request(
    overlay: OverlayView,
    key: KeyEvent,
    readings: Seq<TextReading>,
)
    requires
        !overlay.complete,
        overlay.form matches Some(form) ==> !form.is_editing,
        overlay.request is McpElicitation,
        key.kind == KeyEventKind::Press,
        key.modifiers == KeyModifiers::none(),
    ensures
        overlay.request matches RequestView::McpElicitation {
            server_name,
            request_id,
            message,
            requested_schema,
            url,
        } ==> {
            let told = keyed(overlay, key, readings).1;
            let content = match overlay.form {
                Some(form) => if overlay.apps_gateway {
                    form_value(form, readings)
                } else {
                    None
                },
                None => None,
            };
            let waits = overlay.apps_gateway && (overlay.form matches Some(form) && exists|at: int|
                0 <= at < form.fields.len() && (#[trigger] form.fields[at]).required && is_blank(
                    form.values[at],
                ));
            &&& key.code == KeyCode::Char('y') && !waits ==> told == seq![
                EventView::ResolveElicitation(
                    server_name,
                    request_id,
                    ElicitationAction::Accept,
                    content,
                ),
            ]
            &&& key.code == KeyCode::Char('y') && waits ==> told.len() == 0
            &&& key.code == KeyCode::Char('n') ==> told == seq![
                EventView::ResolveElicitation(
                    server_name,
                    request_id,
                    ElicitationAction::Decline,
                    content,
                ),
            ]
            &&& key.code == KeyCode::Char('c') || key.code == KeyCode::Esc ==> told == seq![
                EventView::ResolveElicitation(
                    server_name,
                    request_id,
                    ElicitationAction::Cancel,
                    None,
                ),
            ]
        },
{
    let options = options_of(overlay.request);
    if let Some(form) = overlay.form {
        if exists|at: int|
            0 <= at < form.fields.len() && (#[trigger] form.fields[at]).required && is_blank(
                form.values[at],
            ) {
            let at = choose|at: int|
                0 <= at < form.fields.len() && (#[trigger] form.fields[at]).required && is_blank(
                    form.values[at],
                );
            assert(is_missing(form, at));
        } else if any_missing(form) {
            let at = choose|at: int| 0 <= at < form.fields.len() && #[trigger] is_missing(form, at);
            assert(form.fields[at].required);
        }
    }
    if key.code == KeyCode::Char('y') {
        lemma_key_chooses(overlay.request, key, 0);
    } else if key.code == KeyCode::Char('n') {
        lemma_key_chooses(overlay.request, key, 1);
    } else if key.code == KeyCode::Char('c') || key.code == KeyCode::Esc {
        lemma_key_chooses(overlay.request, key, 2);
    }
}

/// No option is chosen by a key that is for none.
proof fn lemma_chosen_none(options: Seq<ApprovalOptionView>, key: KeyEvent)
    requires
        forall|i: int| 0 <= i < options.len() ==> !chooses(#[trigger] options[i], key),
    ensures
        chosen_option(options, key) == options.len(),
    decreases options.len(),
{
    if options.len() > 0 {
        let rest = options.drop_first();
        assert(!chooses(options[0], key));
        assert forall|i: int| 0 <= i < rest.len() implies !chooses(#[trigger] rest[i], key) by {
            assert(rest[i] == options[i + 1]);
        }
        lemma_chosen_none(rest, key);
    }
}

/// What keys do to a form. Before a field is being filled in, the tabulator key begins to fill one
/// in, and so does a character that is for no option, which is typed too; `y`, `n` and `c` are for
/// the options. While a field is being filled in, the enter and tabulator keys take in what the
/// line of input holds, and any other key is typed. No such key decides anything.
pub proof fn lemma_form_keys(overlay: OverlayView, key: KeyEvent, readings: Seq<TextReading>)
    requires
        key.kind == KeyEventKind::Press,
    ensures
        overlay.form matches Some(form) ==> {
            let after = keyed(overlay, key, readings);
            &&& !form.is_editing && key.code == KeyCode::Tab ==> after.1.len() == 0 && after.2
                == KeyNext::Done && after.0.form == Some(form_editing(form))
            &&& !form.is_editing && key.modifiers == KeyModifiers::none() ==> (
            key.code matches KeyCode::Char(ch) ==> ch != 'y' && ch != 'Y' && ch != 'n' && ch != 'N'
                && ch != 'c' && ch != 'C' ==> after.1.len() == 0 && after.2 == KeyNext::Compose
                && after.0.form == Some(form_editing(form)))
            &&& form.is_editing && (key.code == KeyCode::Enter || key.code == KeyCode::Tab)
                ==> after.1.len() == 0 && after.2 == KeyNext::Done && after.0.form == Some(
                form_submitted(form),
            )
            &&& form.is_editing && key.code != KeyCode::Enter && key.code != KeyCode::Tab
                ==> after.1.len() == 0 && after.2 == KeyNext::Compose && after.0.form == Some(form)
            &&& form.is_editing ==> after.0.request == overlay.request && after.0.complete
                == overlay.complete && after.0.done == overlay.done && after.0.queue
                == overlay.queue
        },
        !(overlay.form matches Some(form) && form.is_editing) && key.code == KeyCode::Char('a')
            && key.modifiers.control ==> keyed(overlay, key, readings).1 == seq![
            EventView::FullScreenApprovalRequest(overlay.request),
        ] && keyed(overlay, key, readings).0 == overlay,
{
}

/// A request is shown as it came, and is not decided; those that wait stay. Only of a request of a
/// tool server are the form and the page left out, where they are switched off. A form comes with a
/// request of a tool server that has a schema, and nothing of it is filled in.
pub proof fn lemma_showing(overlay: OverlayView, request: RequestView)
    ensures
        ({
            let after = showing(overlay, request);
            &&& !after.complete
            &&& after.queue == overlay.queue
            &&& after.done == overlay.done
            &&& after.apps_gateway == overlay.apps_gateway
            &&& overlay.apps_gateway || !(request is McpElicitation) ==> after.request == request
            &&& request matches RequestView::McpElicitation {
                server_name,
                request_id,
                message,
                requested_schema,
                url,
            } ==> !overlay.apps_gateway ==> after.request == (RequestView::McpElicitation {
                server_name,
                request_id,
                message,
                requested_schema: None,
                url: None,
            })
            &&& !(request is McpElicitation) ==> after.form is None
            &&& request matches RequestView::McpElicitation {
                server_name,
                request_id,
                message,
                requested_schema,
                url,
            } ==> overlay.apps_gateway ==> (after.form is Some <==> requested_schema is Some)
            &&& after.form matches Some(form) ==> {
                &&& form.fields.len() > 0
                &&& form.values.len() == form.fields.len()
                &&& form.current_field == 0
                &&& !form.is_editing
                &&& forall|i: int|
                    0 <= i < form.values.len() ==> (#[trigger] form.values[i]).len() == 0
            }
        }),
{
}

/// A key that is for no option goes on to the list of options, and decides nothing. One that is for
/// an option goes no further. The whole screen is asked for by one key alone, and that decides
/// nothing.
pub proof fn lemma_other_keys(overlay: OverlayView, key: KeyEvent, readings: Seq<TextReading>)
    requires
        overlay.form is None,
    ensures
        ({
            let options = options_of(overlay.request);
            let after = keyed(overlay, key, readings);
            let full = key.kind == KeyEventKind::Press && key.code == KeyCode::Char('a')
                && key.modifiers.control;
            let bound = exists|i: int| 0 <= i < options.len() && chooses(#[trigger] options[i], key);
            &&& !full && !bound ==> after.0 == overlay && after.1.len() == 0 && after.2
                == KeyNext::List
            &&& full ==> after.0 == overlay && after.1 == seq![
                EventView::FullScreenApprovalRequest(overlay.request),
            ]
            &&& full || bound ==> after.2 == KeyNext::Done
            &&& !full ==> forall|i: int|
                0 <= i < after.1.len() ==> !((#[trigger] after.1[i])
                    is FullScreenApprovalRequest)
        }),
{
    let options = options_of(overlay.request);
    if exists|i: int| 0 <= i < options.len() && chooses(#[trigger] options[i], key) {
        let i = choose|i: int| 0 <= i < options.len() && chooses(#[trigger] options[i], key);
        lemma_chosen_some(options, key, i);
    } else {
        lemma_chosen_none(options, key);
    }
}

/// A key that is for an option chooses one.
proof fn lemma_chosen_some(options: Seq<ApprovalOptionView>, key: KeyEvent, index: int)
    requires
        0 <= index < options.len(),
        chooses(options[index], key),
    ensures
        0 <= chosen_option(options, key) <= index,
        chooses(options[chosen_option(options, key)], key),
    decreases options.len(),
{
    if !chooses(options[0], key) {
        let rest = options.drop_first();
        assert(rest[index - 1] == options[index]);
        lemma_chosen_some(rest, key, index - 1);
    }
}

/// A key is for an option where it is pressed or held with no other key besides: the key that is
/// shown for the option, or one of its others.
pub proof fn lemma_chooses(option: ApprovalOptionView, key: KeyEvent, at: int)
    requires
        0 <= at < option.additional_shortcuts.len(),
    ensures
        key.kind == KeyEventKind::Release ==> !chooses(option, key),
        key.kind != KeyEventKind::Release && option.additional_shortcuts[at].code == key.code
            && option.additional_shortcuts[at].modifiers == key.modifiers ==> chooses(option, key),
        key.kind != KeyEventKind::Release ==> (option.display_shortcut matches Some(binding)
            ==> binding.code == key.code && binding.modifiers == key.modifiers ==> chooses(
            option,
            key,
        )),
        chooses(option, key) ==> (option.display_shortcut matches Some(binding) && binding.code
            == key.code && binding.modifiers == key.modifiers) || exists|i: int|
            0 <= i < option.additional_shortcuts.len() && (
            #[trigger] option.additional_shortcuts[i]).code == key.code
                && option.additional_shortcuts[i].modifiers == key.modifiers,
{
    let shortcuts = option.additional_shortcuts;
    if key.kind != KeyEventKind::Release && shortcuts[at].code == key.code
        && shortcuts[at].modifiers == key.modifiers {
        assert(pressed(option.additional_shortcuts[at], key));
    }
    if chooses(option, key) && !(option.display_shortcut matches Some(binding) && pressed(
        binding,
        key,
    )) {
        let i = choose|i: int| 0 <= i < shortcuts.len() && #[trigger] pressed(shortcuts[i], key);
        assert(shortcuts[i].code == key.code);
    }
}

/// While a field is being filled in, a letter that is for an option is not: what the line of input
/// leaves of it goes on to the list of options, and decides nothing.
pub proof fn lemma_typed_letters(overlay: OverlayView, key: KeyEvent, readings: Seq<TextReading>)
    requires
        overlay.form matches Some(form) && form.is_editing,
        key.modifiers == KeyModifiers::none(),
        key.code == KeyCode::Char('a') || key.code == KeyCode::Char('c') || key.code
            == KeyCode::Char('n') || key.code == KeyCode::Char('y'),
    ensures
        shortcut(overlay, key, readings).0 == overlay,
        shortcut(overlay, key, readings).1.len() == 0,
        shortcut(overlay, key, readings).2 == KeyNext::List,
{
}

/// A request is decided once: where it is, and where an option is chosen that there is not, nothing
/// is told and nothing changes. Once the last request is decided, choosing again and calling off
/// tell nothing.
pub proof fn lemma_decided_once(
    overlay: OverlayView,
    index: int,
    readings: Seq<TextReading>,
    again: int,
)
    ensures
        overlay.complete || index < 0 || index >= options_of(overlay.request).len() ==> selected(
            overlay,
            index,
            readings,
        ) == (overlay, Seq::<EventView>::empty()),
        !overlay.complete && 0 <= index < options_of(overlay.request).len() && !must_fill_in(
            overlay,
            options_of(overlay.request)[index].decision,
        ) && overlay.queue.len() == 0 ==> {
            let after = selected(overlay, index, readings).0;
            &&& after.complete
            &&& after.done
            &&& after.request == overlay.request
            &&& selected(after, again, readings).1.len() == 0
            &&& called_off(after).1.len() == 0
        },
{
}

// ---------------------------------------------------------------------------------------------
// Layout
// ---------------------------------------------------------------------------------------------

/// A part of the screen.
#[derive(Clone, Copy, Debug, PartialEq, Eq, Structural)]
pub struct Area {
    /// The left edge.
    pub x: u16,
    /// The upper edge.
    pub y: u16,
    /// The width.
    pub width: u16,
    /// The height.
    pub height: u16,
}

/// Where the list of options and the line of input are shown.
#[derive(Clone, Copy, Debug, PartialEq, Eq, Structural)]
pub struct Layout {
    /// The list of options.
    pub list: Area,
    /// The line of input, where it is shown.
    pub composer: Option<Area>,
}

/// Where the list of options and the line of input are shown: the line of input below the list,
/// where it leaves room for it.
pub open spec fn layout_of(area: Area, composer_height: Option<u16>) -> Layout {
    match composer_height {
        Some(height) => if 0 < height < area.height {
            Layout {
                list: Area { height: (area.height - height) as u16, ..area },
                composer: Some(
                    Area { y: (area.y + (area.height - height)) as u16, height, ..area },
                ),
            }
        } else {
            Layout { list: area, composer: None }
        },
        None => Layout { list: area, composer: None },
    }
}

impl ApprovalOverlay {
    /// How high the overlay is. `composer_height` is the height of the line of input.
    pub fn desired_height(&self, list_height: u16, composer_height: u16) -> (height: u16)
        ensures
            height == (if self@.form is None {
                list_height as int
            } else if list_height + composer_height > u16::MAX {
                u16::MAX as int
            } else {
                list_height + composer_height
            }),
    {
        match &self.elicitation_form {
            Some(_) => if list_height > u16::MAX - composer_height {
                u16::MAX
            } else {
                list_height + composer_height
            },
            None => list_height,
        }
    }

    /// Where the list of options and the line of input are shown. `composer_height` is the height
    /// of the line of input.
    pub fn layout(&self, area: Area, composer_height: u16) -> (layout: Layout)
        requires
            area.y + area.height <= u16::MAX,
        ensures
            layout == layout_of(
                area,
                if self@.form is Some {
                    Some(composer_height)
                } else {
                    None
                },
            ),
    {
        if self.elicitation_form.is_some() && composer_height > 0 && composer_height
            < area.height {
            let list_height = area.height - composer_height;
            return Layout {
                list: Area { x: area.x, y: area.y, width: area.width, height: list_height },
                composer: Some(
                    Area {
                        x: area.x,
                        y: area.y + list_height,
                        width: area.width,
                        height: composer_height,
                    },
                ),
            };
        }
        Layout { list: area, composer: None }
    }

    /// Whether the cursor stands in the line of input.
    pub fn cursor_in_form(&self, layout: &Layout) -> (inside: bool)
        ensures
            inside == (layout.composer is Some && (self@.form matches Some(form)
                && form.is_editing)),
    {
        match &self.elicitation_form {
            Some(form) => form.is_editing && layout.composer.is_some(),
            None => false,
        }
    }
}

/// The list and the line of input share the whole area, and neither covers the other.
pub proof fn lemma_layout(area: Area, composer_height: Option<u16>)
    requires
        area.y + area.height <= u16::MAX,
    ensures
        layout_of(area, composer_height).composer matches Some(composer) ==> {
            let list = layout_of(area, composer_height).list;
            &&& list.y == area.y
            &&& composer.y == list.y + list.height
            &&& list.height + composer.height == area.height
            &&& list.height > 0
            &&& composer.height > 0
        },
        layout_of(area, composer_height).composer is None ==> layout_of(
            area,
            composer_height,
        ).list == area,
{
}

} // verus!
