//! What the user is asked to approve, and how it is shown.

use vstd::prelude::*;

use crate::approval::keys::plain;
use crate::approval::keys::plain_key;
use crate::approval::keys::KeyBinding;
use crate::approval::keys::KeyCode;
use crate::elicitation_form::names;
use crate::json::json_get;
use crate::json::json_members;
use crate::json::opt_json_owned;
use crate::json::JsonValue;
use crate::json::JsonView;
use crate::text::chars_of;
use crate::text::contains_char;
use crate::text::copy_opt;
use crate::text::copy_texts;
use crate::text::find;
use crate::text::find_char;
use crate::text::find_text;
use crate::text::index_where;
use crate::text::join;
use crate::text::joined;
use crate::text::just;
use crate::text::lacks;
use crate::text::lemma_find_text_shape;
use crate::text::lemma_index_where;
use crate::text::opt_text;
use crate::text::plus;
use crate::text::plus3;
use crate::text::push_text;
use crate::text::same_text;
use crate::text::text_of;
use crate::text::texts;
use crate::user_input::ElicitationAction;

verus! {

// ---------------------------------------------------------------------------------------------
// Requests
// ---------------------------------------------------------------------------------------------

/// A protocol of the network.
#[derive(Clone, Copy, Debug, PartialEq, Eq, Structural)]
pub enum NetworkApprovalProtocol {
    /// HTTP.
    Http,
    /// HTTP over TLS.
    Https,
    /// SOCKS over TCP.
    Socks5Tcp,
    /// SOCKS over UDP.
    Socks5Udp,
}

/// A host that a command wants to reach.
#[derive(Clone, Debug, PartialEq, Eq)]
pub struct NetworkApprovalContext {
    /// The host.
    pub host: String,
    /// The protocol.
    pub protocol: NetworkApprovalProtocol,
}

/// Commands that need no approval any more.
#[derive(Clone, Debug, PartialEq, Eq)]
pub struct ExecPolicyAmendment {
    /// What such a command begins with.
    pub command: Vec<String>,
    /// The same as the user would type it.
    pub rendered: String,
}

/// The name of a request of a tool server.
#[derive(Clone, Debug, PartialEq, Eq)]
pub enum RequestId {
    /// A text.
    Text(String),
    /// A number.
    Integer(i64),
}

/// What the user is asked to approve.
#[derive(Debug, PartialEq, Eq)]
pub enum ApprovalRequest {
    /// A command.
    Exec {
        /// The name of the request.
        id: String,
        /// The command.
        command: Vec<String>,
        /// What it is for.
        reason: Option<String>,
        /// The host that it wants to reach.
        network_approval_context: Option<NetworkApprovalContext>,
        /// Commands that could go without approval from now on.
        proposed_execpolicy_amendment: Option<ExecPolicyAmendment>,
    },
    /// Changes of files.
    ApplyPatch {
        /// The name of the request.
        id: String,
        /// What they are for.
        reason: Option<String>,
        /// The directory.
        cwd: String,
        /// The caller's number for the changes.
        changes: u64,
    },
    /// A request of a tool server.
    McpElicitation {
        /// The server.
        server_name: String,
        /// The name of the request.
        request_id: RequestId,
        /// What the server says.
        message: String,
        /// The schema of a form.
        requested_schema: Option<JsonValue>,
        /// A page that the user is sent to.
        url: Option<String>,
    },
}

/// The name of a request of a tool server, with texts as characters.
pub enum RequestIdView {
    /// A text.
    Text(Seq<char>),
    /// A number.
    Integer(int),
}

/// Commands that need no approval any more, with texts as characters.
pub struct AmendmentView {
    /// What such a command begins with.
    pub command: Seq<Seq<char>>,
    /// The same as the user would type it.
    pub rendered: Seq<char>,
}

/// What the user is asked to approve, with texts as characters.
#[verifier::ext_equal]
pub enum RequestView {
    /// A command.
    Exec {
        /// The name of the request.
        id: Seq<char>,
        /// The command.
        command: Seq<Seq<char>>,
        /// What it is for.
        reason: Option<Seq<char>>,
        /// The host that it wants to reach, and how.
        network: Option<(Seq<char>, NetworkApprovalProtocol)>,
        /// Commands that could go without approval from now on.
        amendment: Option<AmendmentView>,
    },
    /// Changes of files.
    ApplyPatch {
        /// The name of the request.
        id: Seq<char>,
        /// What they are for.
        reason: Option<Seq<char>>,
        /// The directory.
        cwd: Seq<char>,
        /// The caller's number for the changes.
        changes: u64,
    },
    /// A request of a tool server.
    McpElicitation {
        /// The server.
        server_name: Seq<char>,
        /// The name of the request.
        request_id: RequestIdView,
        /// What the server says.
        message: Seq<char>,
        /// The schema of a form.
        requested_schema: Option<JsonView>,
        /// A page that the user is sent to.
        url: Option<Seq<char>>,
    },
}

impl View for RequestId {
    type V = RequestIdView;

    open spec fn view(&self) -> RequestIdView {
        match *self {
            RequestId::Text(text) => RequestIdView::Text(text@),
            RequestId::Integer(number) => RequestIdView::Integer(number as int),
        }
    }
}

impl View for ExecPolicyAmendment {
    type V = AmendmentView;

    open spec fn view(&self) -> AmendmentView {
        AmendmentView { command: texts(self.command@), rendered: self.rendered@ }
    }
}

/// The view of an optional amendment.
pub open spec fn opt_amendment(amendment: Option<ExecPolicyAmendment>) -> Option<AmendmentView> {
    match amendment {
        Some(amendment) => Some(amendment@),
        None => None,
    }
}

/// The view of an optional host.
pub open spec fn opt_network(network: Option<NetworkApprovalContext>) -> Option<
    (Seq<char>, NetworkApprovalProtocol),
> {
    match network {
        Some(network) => Some((network.host@, network.protocol)),
        None => None,
    }
}

impl View for ApprovalRequest {
    type V = RequestView;

    open spec fn view(&self) -> RequestView {
        match *self {
            ApprovalRequest::Exec {
                id,
                command,
                reason,
                network_approval_context,
                proposed_execpolicy_amendment,
            } => RequestView::Exec {
                id: id@,
                command: texts(command@),
                reason: opt_text(reason),
                network: opt_network(network_approval_context),
                amendment: opt_amendment(proposed_execpolicy_amendment),
            },
            ApprovalRequest::ApplyPatch { id, reason, cwd, changes } => RequestView::ApplyPatch {
                id: id@,
                reason: opt_text(reason),
                cwd: cwd@,
                changes,
            },
            ApprovalRequest::McpElicitation {
                server_name,
                request_id,
                message,
                requested_schema,
                url,
            } => RequestView::McpElicitation {
                server_name: server_name@,
                request_id: request_id@,
                message: message@,
                requested_schema: opt_json_owned(requested_schema),
                url: opt_text(url),
            },
        }
    }
}

impl ExecPolicyAmendment {
    /// Commands that begin in some way need no approval any more.
    pub fn new(command: Vec<String>, rendered: String) -> (amendment: ExecPolicyAmendment)
        ensures
            amendment@ == (AmendmentView { command: texts(command@), rendered: rendered@ }),
    {
        ExecPolicyAmendment { command, rendered }
    }

    /// A copy.
    pub fn copy(&self) -> (copy: ExecPolicyAmendment)
        ensures
            copy@ == self@,
    {
        ExecPolicyAmendment {
            command: copy_texts(&self.command),
            rendered: self.rendered.clone(),
        }
    }
}

impl RequestId {
    /// A copy.
    pub fn copy(&self) -> (copy: RequestId)
        ensures
            copy@ == self@,
    {
        match self {
            RequestId::Text(text) => RequestId::Text(text.clone()),
            RequestId::Integer(number) => RequestId::Integer(*number),
        }
    }
}

impl ApprovalRequest {
    /// A copy.
    pub fn copy(&self) -> (copy: ApprovalRequest)
        ensures
            copy@ == self@,
    {
        match self {
            ApprovalRequest::Exec {
                id,
                command,
                reason,
                network_approval_context,
                proposed_execpolicy_amendment,
            } => ApprovalRequest::Exec {
                id: id.clone(),
                command: copy_texts(command),
                reason: copy_opt(reason),
                network_approval_context: match network_approval_context {
                    Some(network) => Some(
                        NetworkApprovalContext {
                            host: network.host.clone(),
                            protocol: network.protocol,
                        },
                    ),
                    None => None,
                },
                proposed_execpolicy_amendment: match proposed_execpolicy_amendment {
                    Some(amendment) => Some(amendment.copy()),
                    None => None,
                },
            },
            ApprovalRequest::ApplyPatch { id, reason, cwd, changes } =>
                ApprovalRequest::ApplyPatch {
                id: id.clone(),
                reason: copy_opt(reason),
                cwd: cwd.clone(),
                changes: *changes,
            },
            ApprovalRequest::McpElicitation {
                server_name,
                request_id,
                message,
                requested_schema,
                url,
            } => ApprovalRequest::McpElicitation {
                server_name: server_name.clone(),
                request_id: request_id.copy(),
                message: message.clone(),
                requested_schema: match requested_schema {
                    Some(schema) => Some(schema.copy()),
                    None => None,
                },
                url: copy_opt(url),
            },
        }
    }
}

// ---------------------------------------------------------------------------------------------
// Options
// ---------------------------------------------------------------------------------------------

/// What the user decides about a command or changes.
#[derive(Clone, Debug, PartialEq, Eq)]
pub enum ReviewDecision {
    /// Approved.
    Approved,
    /// Approved, and whatever is alike until the end of the session.
    ApprovedForSession,
    /// Approved, and whatever begins alike from now on.
    ApprovedExecpolicyAmendment {
        /// What begins alike.
        proposed_execpolicy_amendment: ExecPolicyAmendment,
    },
    /// Denied, and the turn ends.
    Abort,
}

/// What the user decides about a command or changes, with texts as characters.
pub enum ReviewView {
    /// Approved.
    Approved,
    /// Approved, and whatever is alike until the end of the session.
    ApprovedForSession,
    /// Approved, and whatever begins alike from now on.
    ApprovedExecpolicyAmendment(AmendmentView),
    /// Denied, and the turn ends.
    Abort,
}

impl View for ReviewDecision {
    type V = ReviewView;

    open spec fn view(&self) -> ReviewView {
        match *self {
            ReviewDecision::Approved => ReviewView::Approved,
            ReviewDecision::ApprovedForSession => ReviewView::ApprovedForSession,
            ReviewDecision::ApprovedExecpolicyAmendment { proposed_execpolicy_amendment } =>
                ReviewView::ApprovedExecpolicyAmendment(proposed_execpolicy_amendment@),
            ReviewDecision::Abort => ReviewView::Abort,
        }
    }
}

impl ReviewDecision {
    /// A copy.
    pub fn copy(&self) -> (copy: ReviewDecision)
        ensures
            copy@ == self@,
    {
        match self {
            ReviewDecision::Approved => ReviewDecision::Approved,
            ReviewDecision::ApprovedForSession => ReviewDecision::ApprovedForSession,
            ReviewDecision::ApprovedExecpolicyAmendment { proposed_execpolicy_amendment } =>
                ReviewDecision::ApprovedExecpolicyAmendment {
                proposed_execpolicy_amendment: proposed_execpolicy_amendment.copy(),
            },
            ReviewDecision::Abort => ReviewDecision::Abort,
        }
    }
}

/// What the user decides.
#[derive(Clone, Debug, PartialEq, Eq)]
pub enum ApprovalDecision {
    /// About a command or changes.
    Review(ReviewDecision),
    /// About a request of a tool server.
    McpElicitation(ElicitationAction),
}

/// What the user decides, with texts as characters.
pub enum DecisionView {
    /// About a command or changes.
    Review(ReviewView),
    /// About a request of a tool server.
    McpElicitation(ElicitationAction),
}

impl View for ApprovalDecision {
    type V = DecisionView;

    open spec fn view(&self) -> DecisionView {
        match *self {
            ApprovalDecision::Review(decision) => DecisionView::Review(decision@),
            ApprovalDecision::McpElicitation(action) => DecisionView::McpElicitation(action),
        }
    }
}

/// One of the decisions that the user may take.
#[derive(Clone, Debug, PartialEq, Eq)]
pub struct ApprovalOption {
    /// Its name.
    pub label: String,
    /// The decision.
    pub decision: ApprovalDecision,
    /// The key that is shown for it.
    pub display_shortcut: Option<KeyBinding>,
    /// Other keys for it.
    pub additional_shortcuts: Vec<KeyBinding>,
}

/// One of the decisions that the user may take, with texts as characters.
#[verifier::ext_equal]
pub struct ApprovalOptionView {
    /// Its name.
    pub label: Seq<char>,
    /// The decision.
    pub decision: DecisionView,
    /// The key that is shown for it.
    pub display_shortcut: Option<KeyBinding>,
    /// Other keys for it.
    pub additional_shortcuts: Seq<KeyBinding>,
}

impl View for ApprovalOption {
    type V = ApprovalOptionView;

    open spec fn view(&self) -> ApprovalOptionView {
        ApprovalOptionView {
            label: self.label@,
            decision: self.decision@,
            display_shortcut: self.display_shortcut,
            additional_shortcuts: self.additional_shortcuts@,
        }
    }
}

/// Decisions that the user may take, with texts as characters.
pub open spec fn approval_options(options: Seq<ApprovalOption>) -> Seq<ApprovalOptionView> {
    Seq::new(options.len(), |i: int| options[i]@)
}

/// An option with a character for its key.
pub open spec fn char_option(label: Seq<char>, decision: DecisionView, ch: char) -> ApprovalOptionView {
    ApprovalOptionView {
        label,
        decision,
        display_shortcut: None,
        additional_shortcuts: seq![plain_key(KeyCode::Char(ch))],
    }
}

/// An option with a character for its key, and the escape key, which is shown.
pub open spec fn escape_option(label: Seq<char>, decision: DecisionView, ch: char) -> ApprovalOptionView {
    ApprovalOptionView {
        label,
        decision,
        display_shortcut: Some(plain_key(KeyCode::Esc)),
        additional_shortcuts: seq![plain_key(KeyCode::Char(ch))],
    }
}

/// An option with a character for its key.
fn make_option(label: String, decision: ApprovalDecision, ch: char) -> (option: ApprovalOption)
    ensures
        option@ == char_option(label@, decision@, ch),
{
    let keys = vec![plain(KeyCode::Char(ch))];
    assert(keys@ =~= seq![plain_key(KeyCode::Char(ch))]);
    ApprovalOption { label, decision, display_shortcut: None, additional_shortcuts: keys }
}

/// An option with a character for its key, and the escape key, which is shown.
fn make_escape_option(label: String, decision: ApprovalDecision, ch: char) -> (option:
    ApprovalOption)
    ensures
        option@ == escape_option(label@, decision@, ch),
{
    let keys = vec![plain(KeyCode::Char(ch))];
    assert(keys@ =~= seq![plain_key(KeyCode::Char(ch))]);
    ApprovalOption {
        label,
        decision,
        display_shortcut: Some(plain(KeyCode::Esc)),
        additional_shortcuts: keys,
    }
}

/// The option that denies a command or changes.
pub open spec fn abort_option() -> ApprovalOptionView {
    escape_option(
        "No, and tell Codex what to do differently"@,
        DecisionView::Review(ReviewView::Abort),
        'n',
    )
}

/// The option that approves whatever begins alike, unless that is no single line.
pub open spec fn amendment_option(amendment: Option<AmendmentView>) -> Seq<ApprovalOptionView> {
    match amendment {
        Some(amendment) => if amendment.rendered.contains('\n') || amendment.rendered.contains(
            '\r',
        ) {
            Seq::empty()
        } else {
            seq![
                char_option(
                    "Yes, and don't ask again for commands that start with `"@ + amendment.rendered
                        + "`"@,
                    DecisionView::Review(ReviewView::ApprovedExecpolicyAmendment(amendment)),
                    'p',
                ),
            ]
        },
        None => Seq::empty(),
    }
}

/// The options for a command: of one that wants to reach a host, nothing is approved from now on.
pub open spec fn command_options(amendment: Option<AmendmentView>, network: bool) -> Seq<
    ApprovalOptionView,
> {
    if network {
        seq![
            char_option(
                "Yes, just this once"@,
                DecisionView::Review(ReviewView::Approved),
                'y',
            ),
            char_option(
                "Yes, and allow this host for this session"@,
                DecisionView::Review(ReviewView::ApprovedForSession),
                'a',
            ),
            abort_option(),
        ]
    } else {
        seq![
            char_option("Yes, proceed"@, DecisionView::Review(ReviewView::Approved), 'y'),
        ] + amendment_option(amendment) + seq![abort_option()]
    }
}

/// The options for a command.
pub fn exec_options(
    proposed_execpolicy_amendment: Option<&ExecPolicyAmendment>,
    network_approval_context: Option<&NetworkApprovalContext>,
) -> (options: Vec<ApprovalOption>)
    ensures
        approval_options(options@) == command_options(
            match proposed_execpolicy_amendment {
                Some(amendment) => Some(amendment@),
                None => None,
            },
            network_approval_context is Some,
        ),
{
    let abort = make_escape_option(
        "No, and tell Codex what to do differently".to_owned(),
        ApprovalDecision::Review(ReviewDecision::Abort),
        'n',
    );
    let mut options: Vec<ApprovalOption> = Vec::new();
    if network_approval_context.is_some() {
        options.push(
            make_option(
                "Yes, just this once".to_owned(),
                ApprovalDecision::Review(ReviewDecision::Approved),
                'y',
            ),
        );
        options.push(
            make_option(
                "Yes, and allow this host for this session".to_owned(),
                ApprovalDecision::Review(ReviewDecision::ApprovedForSession),
                'a',
            ),
        );
        options.push(abort);
        assert(approval_options(options@) =~= command_options(None, true));
        return options;
    }
    options.push(
        make_option(
            "Yes, proceed".to_owned(),
            ApprovalDecision::Review(ReviewDecision::Approved),
            'y',
        ),
    );
    if let Some(amendment) = proposed_execpolicy_amendment {
        let rendered = amendment.rendered.as_str();
        if !contains_char(rendered, '\n') && !contains_char(rendered, '\r') {
            options.push(
                make_option(
                    plus3(
                        "Yes, and don't ask again for commands that start with `",
                        rendered,
                        "`",
                    ),
                    ApprovalDecision::Review(
                        ReviewDecision::ApprovedExecpolicyAmendment {
                            proposed_execpolicy_amendment: amendment.copy(),
                        },
                    ),
                    'p',
                ),
            );
        }
    }
    options.push(abort);
    proof {
        let amendment = match proposed_execpolicy_amendment {
            Some(amendment) => Some(amendment@),
            None => None,
        };
        assert(approval_options(options@) =~= command_options(amendment, false));
    }
    options
}

/// Of a command that wants to reach a host, nothing is ever approved from now on.
pub proof fn lemma_network_offers_no_amendment(amendment: Option<AmendmentView>, index: int)
    requires
        0 <= index < command_options(amendment, true).len(),
    ensures
        command_options(amendment, true) == command_options(None, true),
        !(command_options(amendment, true)[index].decision
            matches DecisionView::Review(ReviewView::ApprovedExecpolicyAmendment(_))),
{
}

/// The options for changes of files.
pub open spec fn change_options() -> Seq<ApprovalOptionView> {
    seq![
        char_option("Yes, proceed"@, DecisionView::Review(ReviewView::Approved), 'y'),
        char_option(
            "Yes, and don't ask again for these files"@,
            DecisionView::Review(ReviewView::ApprovedForSession),
            'a',
        ),
        abort_option(),
    ]
}

/// The options for changes of files.
pub fn patch_options() -> (options: Vec<ApprovalOption>)
    ensures
        approval_options(options@) == change_options(),
{
    let options = vec![
        make_option(
            "Yes, proceed".to_owned(),
            ApprovalDecision::Review(ReviewDecision::Approved),
            'y',
        ),
        make_option(
            "Yes, and don't ask again for these files".to_owned(),
            ApprovalDecision::Review(ReviewDecision::ApprovedForSession),
            'a',
        ),
        make_escape_option(
            "No, and tell Codex what to do differently".to_owned(),
            ApprovalDecision::Review(ReviewDecision::Abort),
            'n',
        ),
    ];
    assert(approval_options(options@) =~= change_options());
    options
}

/// The options for a request of a tool server.
pub open spec fn server_options() -> Seq<ApprovalOptionView> {
    seq![
        char_option(
            "Yes, provide the requested info"@,
            DecisionView::McpElicitation(ElicitationAction::Accept),
            'y',
        ),
        char_option(
            "No, but continue without it"@,
            DecisionView::McpElicitation(ElicitationAction::Decline),
            'n',
        ),
        escape_option(
            "Cancel this request"@,
            DecisionView::McpElicitation(ElicitationAction::Cancel),
            'c',
        ),
    ]
}

/// The options for a request of a tool server.
pub fn elicitation_options() -> (options: Vec<ApprovalOption>)
    ensures
        approval_options(options@) == server_options(),
{
    let options = vec![
        make_option(
            "Yes, provide the requested info".to_owned(),
            ApprovalDecision::McpElicitation(ElicitationAction::Accept),
            'y',
        ),
        make_option(
            "No, but continue without it".to_owned(),
            ApprovalDecision::McpElicitation(ElicitationAction::Decline),
            'n',
        ),
        make_escape_option(
            "Cancel this request".to_owned(),
            ApprovalDecision::McpElicitation(ElicitationAction::Cancel),
            'c',
        ),
    ];
    assert(approval_options(options@) =~= server_options());
    options
}

/// The options for a request.
pub open spec fn options_of(request: RequestView) -> Seq<ApprovalOptionView> {
    match request {
        RequestView::Exec { id, command, reason, network, amendment } => command_options(
            amendment,
            network is Some,
        ),
        RequestView::ApplyPatch { .. } => change_options(),
        RequestView::McpElicitation { .. } => server_options(),
    }
}

/// The title of a request.
pub open spec fn title_of(request: RequestView) -> Seq<char> {
    match request {
        RequestView::Exec { id, command, reason, network, amendment } => match network {
            Some((host, protocol)) => "Do you want to approve access to \""@ + host + "\"?"@,
            None => "Would you like to run the following command?"@,
        },
        RequestView::ApplyPatch { .. } => "Would you like to make the following edits?"@,
        RequestView::McpElicitation { server_name, .. } => server_name + " needs your approval."@,
    }
}

/// How a request is put to the user.
#[derive(Clone, Debug, PartialEq, Eq)]
pub struct OptionsPage {
    /// The options.
    pub options: Vec<ApprovalOption>,
    /// The title.
    pub title: String,
    /// Whether an empty line follows the title.
    pub spaced: bool,
}

/// How a request is put to the user: its options, and its title.
pub fn build_options(request: &ApprovalRequest) -> (page: OptionsPage)
    ensures
        approval_options(page.options@) == options_of(request@),
        page.title@ == title_of(request@),
        page.spaced == !(request@ is McpElicitation),
{
    match request {
        ApprovalRequest::Exec {
            network_approval_context,
            proposed_execpolicy_amendment,
            ..
        } => {
            let title = match network_approval_context {
                Some(network) => plus3(
                    "Do you want to approve access to \"",
                    network.host.as_str(),
                    "\"?",
                ),
                None => "Would you like to run the following command?".to_owned(),
            };
            OptionsPage {
                options: exec_options(
                    proposed_execpolicy_amendment.as_ref(),
                    network_approval_context.as_ref(),
                ),
                title,
                spaced: true,
            }
        },
        ApprovalRequest::ApplyPatch { .. } => OptionsPage {
            options: patch_options(),
            title: "Would you like to make the following edits?".to_owned(),
            spaced: true,
        },
        ApprovalRequest::McpElicitation { server_name, .. } => OptionsPage {
            options: elicitation_options(),
            title: plus(server_name.as_str(), " needs your approval."),
            spaced: false,
        },
    }
}

/// The key that is shown for an option: the one that is to be shown, or else the first other.
pub open spec fn shown_key(option: ApprovalOptionView) -> Option<KeyBinding> {
    if option.display_shortcut is Some {
        option.display_shortcut
    } else if option.additional_shortcuts.len() > 0 {
        Some(option.additional_shortcuts[0])
    } else {
        None
    }
}

impl ApprovalOption {
    /// The key that is shown for the option.
    pub fn shown_shortcut(&self) -> (key: Option<KeyBinding>)
        ensures
            key == shown_key(self@),
    {
        match self.display_shortcut {
            Some(key) => Some(key),
            None => if self.additional_shortcuts.len() > 0 {
                Some(self.additional_shortcuts[0])
            } else {
                None
            },
        }
    }
}

// ---------------------------------------------------------------------------------------------
// Headers
// ---------------------------------------------------------------------------------------------

/// How a text looks.
#[derive(Clone, Copy, Debug, PartialEq, Eq, Structural)]
pub enum SpanStyle {
    /// As usual.
    Plain,
    /// Italic.
    Italic,
    /// Bold.
    Bold,
    /// In cyan.
    Cyan,
    /// In the caller's style of some number.
    Custom(u32),
}

/// A text, and how it looks.
#[derive(Clone, Debug, PartialEq, Eq)]
pub struct Span {
    /// The text.
    pub text: String,
    /// How it looks.
    pub style: SpanStyle,
}

/// A part of what stands above the options.
#[derive(Clone, Debug, PartialEq, Eq)]
pub enum HeaderItem {
    /// A line.
    Line(Vec<Span>),
    /// The changes.
    Changes,
}

/// A part of what stands above the options, with texts as characters.
pub enum HeaderView {
    /// A line.
    Line(Seq<(Seq<char>, SpanStyle)>),
    /// The changes.
    Changes,
}

/// Texts of a line, as characters.
pub open spec fn span_views(spans: Seq<Span>) -> Seq<(Seq<char>, SpanStyle)> {
    Seq::new(spans.len(), |i: int| (spans[i].text@, spans[i].style))
}

impl View for HeaderItem {
    type V = HeaderView;

    open spec fn view(&self) -> HeaderView {
        match *self {
            HeaderItem::Line(spans) => HeaderView::Line(span_views(spans@)),
            HeaderItem::Changes => HeaderView::Changes,
        }
    }
}

/// What stands above the options, with texts as characters.
pub open spec fn header_views(header: Seq<HeaderItem>) -> Seq<HeaderView> {
    Seq::new(header.len(), |i: int| header[i]@)
}

/// Lines, with texts as characters.
pub open spec fn line_views(lines: Seq<Vec<Span>>) -> Seq<Seq<(Seq<char>, SpanStyle)>> {
    Seq::new(lines.len(), |i: int| span_views(lines[i]@))
}

/// The lines on what a request is for.
pub open spec fn reason_lines(reason: Option<Seq<char>>) -> Seq<HeaderView> {
    match reason {
        Some(reason) => seq![
            HeaderView::Line(
                seq![("Reason: "@, SpanStyle::Plain), (reason, SpanStyle::Italic)],
            ),
            HeaderView::Line(Seq::empty()),
        ],
        None => Seq::empty(),
    }
}

/// The lines of a command, behind a prompt.
pub open spec fn prompted(lines: Seq<Seq<(Seq<char>, SpanStyle)>>) -> Seq<HeaderView> {
    Seq::new(
        lines.len(),
        |i: int|
            HeaderView::Line(
                if i == 0 {
                    seq![("$ "@, SpanStyle::Plain)] + lines[0]
                } else {
                    lines[i]
                },
            ),
    )
}

/// An optional text that is not empty.
pub open spec fn unless_no_text(text: Option<Seq<char>>) -> Option<Seq<char>> {
    match text {
        Some(text) => if text.len() == 0 {
            None
        } else {
            Some(text)
        },
        None => None,
    }
}

/// A line of one text.
pub open spec fn plain_line(text: Seq<char>) -> HeaderView {
    HeaderView::Line(seq![(text, SpanStyle::Plain)])
}

/// Lines of one text each.
pub open spec fn plain_lines(lines: Seq<Seq<char>>) -> Seq<HeaderView> {
    Seq::new(lines.len(), |i: int| plain_line(lines[i]))
}

/// The name of the app that a message speaks for: what stands in backquotes behind `from`.
pub open spec fn app_name_of(message: Seq<char>) -> Option<Seq<char>> {
    match find_text(message, " from `"@) {
        Some(at) => {
            let rest = message.skip(at + 7);
            let end = index_where(rest, just('`'));
            if 0 < end < rest.len() {
                Some(rest.take(end))
            } else {
                None
            }
        },
        None => None,
    }
}

/// The name of the app that a message speaks for.
pub fn parse_elicitation_app_name(message: &str) -> (app_name: Option<String>)
    ensures
        opt_text(app_name) == app_name_of(message@),
{
    let chars = chars_of(message);
    proof {
        reveal_strlit(" from `");
        lemma_find_text_shape(message@, " from `"@);
    }
    let start = match find(&chars, " from `") {
        Some(at) => {
            assert(at + 7 <= chars.len());
            at + 7
        },
        None => return None,
    };
    let end = find_char(&chars, start, '`');
    proof {
        let rest = message@.skip(start as int);
        assert(rest =~= chars@.skip(start as int));
    }
    if end < chars.len() && end > start {
        let name = text_of(&chars, start, end);
        proof {
            let rest = message@.skip(start as int);
            assert(name@ =~= rest.take(end - start));
        }
        Some(name)
    } else {
        None
    }
}

/// The line on the properties of a schema, where it lists any.
pub open spec fn schema_line_of(schema: Option<JsonView>) -> Option<Seq<char>> {
    match schema {
        Some(schema) => match json_get(schema, "properties"@) {
            Some(JsonView::Object(properties)) => if properties.len() == 0 {
                None
            } else {
                Some("  Schema properties: "@ + join(names(properties), ", "@))
            },
            _ => None,
        },
        None => None,
    }
}

/// The line on the properties of a schema, where it lists any.
pub fn schema_line(requested_schema: &Option<JsonValue>) -> (line: Option<String>)
    ensures
        opt_text(line) == schema_line_of(opt_json_owned(*requested_schema)),
{
    let schema = match requested_schema {
        Some(schema) => schema,
        None => return None,
    };
    let properties = match schema.get("properties") {
        Some(value) => match value.as_object() {
            Some(properties) => properties,
            None => return None,
        },
        None => return None,
    };
    if properties.len() == 0 {
        return None;
    }
    let ghost all = names(json_members(properties@));
    let mut keys: Vec<String> = Vec::new();
    let mut at: usize = 0;
    assert(texts(keys@) =~= all.take(0));
    while at < properties.len()
        invariant
            all == names(json_members(properties@)),
            at <= properties@.len(),
            texts(keys@) == all.take(at as int),
        decreases properties@.len() - at,
    {
        push_text(&mut keys, properties[at].0.clone());
        assert(all.take(at + 1) =~= all.take(at as int).push(all[at as int]));
        at += 1;
    }
    assert(all.take(at as int) =~= all);
    Some(plus("  Schema properties: ", joined(&keys, ", ").as_str()))
}

/// How wide the line on the properties may be.
pub const SCHEMA_LINE_WIDTH: usize = 80;

/// The lines into which a text is broken.
pub uninterp spec fn wrapped_lines(text: Seq<char>, width: nat) -> Seq<Seq<char>>;

/// `textwrap::wrap` with a width and no other options: the lines into which a text is broken rest
/// on the text and the width alone. Nothing more is claimed of them.
#[verifier::external_body]
fn wrap_text(text: &str, width: usize) -> (lines: Vec<String>)
    ensures
        texts(lines@) == wrapped_lines(text@, width as nat),
{
    textwrap::wrap(text, width).into_iter().map(std::borrow::Cow::into_owned).collect()
}

/// What stands above the options for a request of a tool server, given the lines on the
/// properties of its schema.
pub open spec fn server_header(
    server_name: Seq<char>,
    message: Seq<char>,
    url: Option<Seq<char>>,
    schema_lines: Seq<Seq<char>>,
) -> Seq<HeaderView> {
    seq![
        HeaderView::Line(seq![("  Server: "@, SpanStyle::Plain), (server_name, SpanStyle::Bold)]),
    ] + (match app_name_of(message) {
        Some(app_name) => seq![
            HeaderView::Line(seq![("  App: "@, SpanStyle::Plain), (app_name, SpanStyle::Bold)]),
        ],
        None => Seq::empty(),
    }) + seq![plain_line(message)] + (match url {
        Some(url) => seq![
            HeaderView::Line(seq![("  URL: "@, SpanStyle::Plain), (url, SpanStyle::Cyan)]),
        ],
        None => Seq::empty(),
    }) + plain_lines(schema_lines)
}

/// What stands above the options for a request. `command_lines` holds the lines of a command as
/// they look.
pub open spec fn header_of(
    request: RequestView,
    command_lines: Seq<Seq<(Seq<char>, SpanStyle)>>,
) -> Seq<HeaderView> {
    match request {
        RequestView::Exec { id, command, reason, network, amendment } => reason_lines(reason)
            + prompted(command_lines),
        RequestView::ApplyPatch { id, reason, cwd, changes } => reason_lines(
            unless_no_text(reason),
        ) + seq![HeaderView::Changes],
        RequestView::McpElicitation {
            server_name,
            request_id,
            message,
            requested_schema,
            url,
        } => server_header(
            server_name,
            message,
            url,
            match schema_line_of(requested_schema) {
                Some(line) => wrapped_lines(line, SCHEMA_LINE_WIDTH as nat),
                None => Seq::empty(),
            },
        ),
    }
}

/// Adds a part to what stands above the options.
fn push_item(header: &mut Vec<HeaderItem>, item: HeaderItem)
    ensures
        header_views(final(header)@) == header_views(old(header)@) + seq![item@],
{
    let ghost before = header_views(header@);
    header.push(item);
    assert(header_views(header@) =~= before + seq![item@]);
}

/// A line of one text.
fn line_of_one(text: String) -> (item: HeaderItem)
    ensures
        item@ == plain_line(text@),
{
    let spans = vec![Span { text, style: SpanStyle::Plain }];
    assert(span_views(spans@) =~= seq![(text@, SpanStyle::Plain)]);
    HeaderItem::Line(spans)
}

/// A line of a name and a text.
fn line_of_two(name: &str, text: String, style: SpanStyle) -> (item: HeaderItem)
    ensures
        item@ == HeaderView::Line(seq![(name@, SpanStyle::Plain), (text@, style)]),
{
    let spans = vec![
        Span { text: name.to_owned(), style: SpanStyle::Plain },
        Span { text, style },
    ];
    assert(span_views(spans@) =~= seq![(name@, SpanStyle::Plain), (text@, style)]);
    HeaderItem::Line(spans)
}

/// Adds the lines on what a request is for.
fn push_reason(header: &mut Vec<HeaderItem>, reason: &str)
    ensures
        header_views(final(header)@) == header_views(old(header)@) + reason_lines(Some(reason@)),
{
    let ghost before = header_views(header@);
    push_item(header, line_of_two("Reason: ", reason.to_owned(), SpanStyle::Italic));
    let spans: Vec<Span> = Vec::new();
    assert(span_views(spans@) =~= Seq::<(Seq<char>, SpanStyle)>::empty());
    push_item(header, HeaderItem::Line(spans));
    assert(header_views(header@) =~= before + reason_lines(Some(reason@)));
}

/// Adds the lines of a command, behind a prompt.
fn push_command(header: &mut Vec<HeaderItem>, lines: Vec<Vec<Span>>)
    ensures
        header_views(final(header)@) == header_views(old(header)@) + prompted(
            line_views(lines@),
        ),
{
    let ghost before = header_views(header@);
    let ghost shown = line_views(lines@);
    let ghost all = prompted(shown);
    let ghost given = lines@;
    let mut lines = lines;
    if lines.len() > 0 {
        let mut first = lines.remove(0);
        let ghost spans = span_views(first@);
        first.insert(0, Span { text: "$ ".to_owned(), style: SpanStyle::Plain });
        assert(span_views(first@) =~= seq![("$ "@, SpanStyle::Plain)] + spans);
        push_item(header, HeaderItem::Line(first));
        assert(header_views(header@) =~= before + all.take(1));
        assert(lines@ =~= given.drop_first());
        let ghost rest = lines@;
        let mut done: usize = 0;
        let count = lines.len();
        while done < count
            invariant
                done <= count,
                count == rest.len(),
                lines@ == rest.skip(done as int),
                rest == given.drop_first(),
                given.len() == count + 1,
                shown == line_views(given),
                all == prompted(shown),
                header_views(header@) == before + all.take(done + 1),
            decreases count - done,
        {
            let next = lines.remove(0);
            proof {
                assert(next == given[done + 1]);
                assert(lines@ =~= rest.skip(done + 1));
            }
            push_item(header, HeaderItem::Line(next));
            assert(header_views(header@) =~= before + all.take(done + 2));
            done += 1;
        }
        assert(all.take(done + 1) =~= all);
    } else {
        assert(before + all =~= before);
    }
}

/// What stands above the options for a request of a tool server, given the lines on the
/// properties of its schema.
pub fn elicitation_header(
    server_name: &str,
    message: &str,
    url: &Option<String>,
    schema_lines: &Vec<String>,
) -> (header: Vec<HeaderItem>)
    ensures
        header_views(header@) == server_header(
            server_name@,
            message@,
            opt_text(*url),
            texts(schema_lines@),
        ),
{
    let mut header: Vec<HeaderItem> = Vec::new();
    assert(header_views(header@) =~= Seq::<HeaderView>::empty());
    push_item(&mut header, line_of_two("  Server: ", server_name.to_owned(), SpanStyle::Bold));
    match parse_elicitation_app_name(message) {
        Some(app_name) => push_item(
            &mut header,
            line_of_two("  App: ", app_name, SpanStyle::Bold),
        ),
        None => {
            assert(header_views(header@) =~= header_views(header@) + Seq::<HeaderView>::empty());
        },
    }
    push_item(&mut header, line_of_one(message.to_owned()));
    match url {
        Some(url) => push_item(&mut header, line_of_two("  URL: ", url.clone(), SpanStyle::Cyan)),
        None => {
            assert(header_views(header@) =~= header_views(header@) + Seq::<HeaderView>::empty());
        },
    }
    let ghost before = header_views(header@);
    let ghost all = plain_lines(texts(schema_lines@));
    let mut at: usize = 0;
    assert(before + all.take(0) =~= before);
    while at < schema_lines.len()
        invariant
            all == plain_lines(texts(schema_lines@)),
            at <= schema_lines@.len(),
            header_views(header@) == before + all.take(at as int),
        decreases schema_lines@.len() - at,
    {
        push_item(&mut header, line_of_one(schema_lines[at].clone()));
        assert(before + all.take(at + 1) =~= before + all.take(at as int) + seq![all[at as int]]);
        at += 1;
    }
    assert(all.take(at as int) =~= all);
    proof {
        let told = server_header(server_name@, message@, opt_text(*url), texts(schema_lines@));
        assert(header_views(header@) =~= told);
    }
    header
}

/// What stands above the options for a request.
#[derive(Clone, Debug, PartialEq, Eq)]
pub struct ApprovalRequestState {
    /// The parts.
    pub header: Vec<HeaderItem>,
}

impl ApprovalRequestState {
    /// What stands above the options for a request. `command_lines` holds the lines of a command
    /// as they look.
    pub fn from(value: &ApprovalRequest, command_lines: Vec<Vec<Span>>) -> (state:
        ApprovalRequestState)
        ensures
            header_views(state.header@) == header_of(value@, line_views(command_lines@)),
    {
        let mut header: Vec<HeaderItem> = Vec::new();
        assert(header_views(header@) =~= Seq::<HeaderView>::empty());
        match value {
            ApprovalRequest::Exec { reason, .. } => {
                if let Some(reason) = reason {
                    push_reason(&mut header, reason.as_str());
                }
                assert(header_views(header@) =~= reason_lines(opt_text(*reason)));
                push_command(&mut header, command_lines);
            },
            ApprovalRequest::ApplyPatch { reason, .. } => {
                if let Some(reason) = reason {
                    proof {
                        reveal_strlit("");
                        assert(reason@.len() == 0 ==> reason@ =~= ""@);
                    }
                    if !same_text(reason.as_str(), "") {
                        push_reason(&mut header, reason.as_str());
                    }
                }
                assert(header_views(header@) =~= reason_lines(unless_no_text(opt_text(*reason))));
                push_item(&mut header, HeaderItem::Changes);
            },
            ApprovalRequest::McpElicitation {
                server_name,
                message,
                requested_schema,
                url,
                ..
            } => {
                let schema_lines = match schema_line(requested_schema) {
                    Some(line) => wrap_text(line.as_str(), SCHEMA_LINE_WIDTH),
                    None => {
                        let none: Vec<String> = Vec::new();
                        assert(texts(none@) =~= Seq::<Seq<char>>::empty());
                        none
                    },
                };
                header = elicitation_header(
                    server_name.as_str(),
                    message.as_str(),
                    url,
                    &schema_lines,
                );
            },
        }
        ApprovalRequestState { header }
    }
}

// ---------------------------------------------------------------------------------------------
// Laws
// ---------------------------------------------------------------------------------------------

/// What stands above the options for a command: what it is for, where that is told, and then its
/// lines in order, the first behind a prompt.
pub proof fn lemma_command_header(
    request: RequestView,
    command_lines: Seq<Seq<(Seq<char>, SpanStyle)>>,
    at: int,
)
    requires
        0 <= at < command_lines.len(),
    ensures
        request matches RequestView::Exec { id, command, reason, network, amendment } ==> {
            let header = header_of(request, command_lines);
            let skipped: int = if reason is Some {
                2
            } else {
                0
            };
            &&& header.len() == skipped + command_lines.len()
            &&& at > 0 ==> header[skipped + at] == HeaderView::Line(command_lines[at])
            &&& header[skipped] == HeaderView::Line(
                seq![("$ "@, SpanStyle::Plain)] + command_lines[0],
            )
            &&& reason matches Some(told) ==> header[0] == HeaderView::Line(
                seq![("Reason: "@, SpanStyle::Plain), (told, SpanStyle::Italic)],
            )
        },
{
}

/// What stands above the options for changes: what they are for, where that is told and not empty,
/// and then the changes, once.
pub proof fn lemma_changes_header(
    request: RequestView,
    command_lines: Seq<Seq<(Seq<char>, SpanStyle)>>,
)
    ensures
        request matches RequestView::ApplyPatch { id, reason, cwd, changes } ==> {
            let header = header_of(request, command_lines);
            let told = reason matches Some(text) && text.len() > 0;
            &&& told ==> header.len() == 3 && header[0] == HeaderView::Line(
                seq![("Reason: "@, SpanStyle::Plain), (reason->0, SpanStyle::Italic)],
            ) && header[2] == HeaderView::Changes
            &&& !told ==> header.len() == 1 && header[0] == HeaderView::Changes
        },
{
}

/// What stands above the options for a request of a tool server: the server, the app where the
/// message names one, the message as it is, the page where there is one, and the lines on the
/// properties of the schema, in this order.
pub proof fn lemma_server_header(
    server_name: Seq<char>,
    message: Seq<char>,
    url: Option<Seq<char>>,
    schema_lines: Seq<Seq<char>>,
)
    ensures
        ({
            let header = server_header(server_name, message, url, schema_lines);
            let app: int = if app_name_of(message) is Some {
                1
            } else {
                0
            };
            let page: int = if url is Some {
                1
            } else {
                0
            };
            &&& header.len() == 2 + app + page + schema_lines.len()
            &&& header[0] == HeaderView::Line(
                seq![("  Server: "@, SpanStyle::Plain), (server_name, SpanStyle::Bold)],
            )
            &&& app_name_of(message) matches Some(name) ==> header[1] == HeaderView::Line(
                seq![("  App: "@, SpanStyle::Plain), (name, SpanStyle::Bold)],
            )
            &&& header[1 + app] == HeaderView::Line(seq![(message, SpanStyle::Plain)])
            &&& url matches Some(address) ==> header[2 + app] == HeaderView::Line(
                seq![("  URL: "@, SpanStyle::Plain), (address, SpanStyle::Cyan)],
            )
            &&& forall|i: int|
                0 <= i < schema_lines.len() ==> header[2 + app + page + i] == HeaderView::Line(
                    seq![(#[trigger] schema_lines[i], SpanStyle::Plain)],
                )
        }),
{
    let header = server_header(server_name, message, url, schema_lines);
    let app: int = if app_name_of(message) is Some {
        1
    } else {
        0
    };
    let page: int = if url is Some {
        1
    } else {
        0
    };
    assert forall|i: int| 0 <= i < schema_lines.len() implies header[2 + app + page + i]
        == HeaderView::Line(seq![(#[trigger] schema_lines[i], SpanStyle::Plain)]) by {
        assert(header[2 + app + page + i] == plain_lines(schema_lines)[i]);
    }
}

/// The app that a message speaks for is what it names in backquotes behind `from`, the first time
/// that it does.
pub proof fn lemma_app_name(before: Seq<char>, name: Seq<char>, after: Seq<char>)
    requires
        name.len() > 0,
        lacks(name, '`'),
        find_text(before + " from `"@ + name + seq!['`'] + after, " from `"@) == Some(
            before.len() as int,
        ),
    ensures
        app_name_of(before + " from `"@ + name + seq!['`'] + after) == Some(name),
{
    reveal_strlit(" from `");
    let message = before + " from `"@ + name + seq!['`'] + after;
    let rest = name + seq!['`'] + after;
    assert(message.skip(before.len() as int + 7) =~= rest);
    assert forall|i: int| 0 <= i < name.len() implies !just('`')(#[trigger] rest[i]) by {
        assert(rest[i] == name[i]);
    }
    assert(rest[name.len() as int] == '`');
    lemma_index_where(rest, just('`'), name.len() as int);
    assert(rest.take(name.len() as int) =~= name);
}

/// A message that does not say `from` speaks for no app.
pub proof fn lemma_no_app_name(message: Seq<char>)
    requires
        find_text(message, " from `"@) is None,
    ensures
        app_name_of(message) is None,
{
}

/// The line on the properties of a schema lists their names in order; there is none without any.
pub proof fn lemma_schema_line(schema: JsonView, properties: Seq<(Seq<char>, JsonView)>)
    requires
        json_get(schema, "properties"@) == Some(JsonView::Object(properties)),
    ensures
        properties.len() == 0 ==> schema_line_of(Some(schema)) is None,
        properties.len() > 0 ==> schema_line_of(Some(schema)) == Some(
            "  Schema properties: "@ + join(
                Seq::new(properties.len(), |i: int| properties[i].0),
                ", "@,
            ),
        ),
        schema_line_of(None) is None,
{
    assert(names(properties) =~= Seq::new(properties.len(), |i: int| properties[i].0));
}

/// The title of a request says what is asked for: the host that a command wants to reach, the
/// command, the changes, or the server that asks.
pub proof fn lemma_title(request: RequestView)
    ensures
        request matches RequestView::Exec { id, command, reason, network, amendment } ==> {
            &&& network is None ==> title_of(request)
                == "Would you like to run the following command?"@
            &&& network matches Some((host, protocol)) ==> title_of(request)
                == "Do you want to approve access to \""@ + host + "\"?"@
        },
        request is ApplyPatch ==> title_of(request)
            == "Would you like to make the following edits?"@,
        request matches RequestView::McpElicitation {
            server_name,
            request_id,
            message,
            requested_schema,
            url,
        } ==> title_of(request) == server_name + " needs your approval."@,
{
}

/// The options for a command: it is approved first and denied last. Where it asks for a host, that
/// host may be approved for the session in between; else whatever begins alike may be from now on,
/// where that is proposed and can be shown in one line.
pub proof fn lemma_command_options(amendment: Option<AmendmentView>, network: bool)
    ensures
        ({
            let options = command_options(amendment, network);
            let proposed = amendment matches Some(offer) && !offer.rendered.contains('\n')
                && !offer.rendered.contains('\r');
            &&& options[0].decision == DecisionView::Review(ReviewView::Approved)
            &&& options.last().decision == DecisionView::Review(ReviewView::Abort)
            &&& network ==> options.len() == 3 && options[1].decision == DecisionView::Review(
                ReviewView::ApprovedForSession,
            )
            &&& !network && proposed ==> options.len() == 3 && options[1].decision
                == DecisionView::Review(ReviewView::ApprovedExecpolicyAmendment(amendment->0))
                && options[1].label == "Yes, and don't ask again for commands that start with `"@
                + amendment->0.rendered + "`"@
            &&& !network && !proposed ==> options.len() == 2
        }),
{
}

/// The key that is shown for an option is one that chooses it: the one that is to be shown, or else
/// the first of the others.
pub proof fn lemma_shown_key(option: ApprovalOptionView)
    ensures
        option.display_shortcut matches Some(key) ==> shown_key(option) == Some(key),
        option.display_shortcut is None && option.additional_shortcuts.len() > 0 ==> shown_key(
            option,
        ) == Some(option.additional_shortcuts[0]),
        option.display_shortcut is None && option.additional_shortcuts.len() == 0 ==> shown_key(
            option,
        ) is None,
{
}

/// A name in backquotes that is empty, or that is not closed, is none.
pub proof fn lemma_app_name_open(before: Seq<char>, rest: Seq<char>)
    requires
        find_text(before + " from `"@ + rest, " from `"@) == Some(before.len() as int),
    ensures
        lacks(rest, '`') ==> app_name_of(before + " from `"@ + rest) is None,
        rest.len() > 0 && rest[0] == '`' ==> app_name_of(before + " from `"@ + rest) is None,
{
    reveal_strlit(" from `");
    let message = before + " from `"@ + rest;
    assert(message.skip(before.len() as int + 7) =~= rest);
    if lacks(rest, '`') {
        assert forall|i: int| 0 <= i < rest.len() implies !just('`')(#[trigger] rest[i]) by {}
        lemma_index_where(rest, just('`'), rest.len() as int);
    } else if rest.len() > 0 && rest[0] == '`' {
        lemma_index_where(rest, just('`'), 0);
    }
}

} // verus!
