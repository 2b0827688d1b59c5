//! Calls of tools by the model, and what they give back.

use vstd::prelude::*;

use crate::text::plus;

verus! {

/// What a tool is called with.
#[derive(Clone, Debug, PartialEq, Eq)]
pub enum ToolPayload {
    /// Arguments in JSON.
    Function {
        /// The arguments.
        arguments: String,
    },
    /// A text of any form.
    Custom {
        /// The text.
        input: String,
    },
    /// Arguments in JSON for a tool of a server.
    Mcp {
        /// The server.
        server: String,
        /// The tool.
        tool: String,
        /// The arguments.
        raw_arguments: String,
    },
    /// A shell command.
    LocalShell,
}

/// A call's payload, with texts as characters.
pub enum PayloadView {
    /// Arguments in JSON.
    Function(Seq<char>),
    /// A text of any form.
    Custom(Seq<char>),
    /// Server, tool and arguments in JSON.
    Mcp(Seq<char>, Seq<char>, Seq<char>),
    /// A shell command.
    LocalShell,
}

impl View for ToolPayload {
    type V = PayloadView;

    open spec fn view(&self) -> PayloadView {
        match *self {
            ToolPayload::Function { arguments } => PayloadView::Function(arguments@),
            ToolPayload::Custom { input } => PayloadView::Custom(input@),
            ToolPayload::Mcp { server, tool, raw_arguments } => PayloadView::Mcp(
                server@,
                tool@,
                raw_arguments@,
            ),
            ToolPayload::LocalShell => PayloadView::LocalShell,
        }
    }
}

/// Why a call came to nothing.
#[derive(Clone, Debug, PartialEq, Eq)]
pub enum FunctionCallError {
    /// The model is told, and goes on.
    RespondToModel(String),
    /// The turn ends.
    Fatal(String),
}

/// Why a call came to nothing, with texts as characters.
pub enum ErrorView {
    /// The model is told, and goes on.
    RespondToModel(Seq<char>),
    /// The turn ends.
    Fatal(Seq<char>),
}

impl View for FunctionCallError {
    type V = ErrorView;

    open spec fn view(&self) -> ErrorView {
        match *self {
            FunctionCallError::RespondToModel(message) => ErrorView::RespondToModel(message@),
            FunctionCallError::Fatal(message) => ErrorView::Fatal(message@),
        }
    }
}

/// What an error says.
pub open spec fn error_message(error: ErrorView) -> Seq<char> {
    match error {
        ErrorView::RespondToModel(message) => message,
        ErrorView::Fatal(message) => "Fatal error: "@ + message,
    }
}

impl FunctionCallError {
    /// What the error says.
    pub fn message(&self) -> (message: String)
        ensures
            message@ == error_message(self@),
    {
        match self {
            FunctionCallError::RespondToModel(message) => message.clone(),
            FunctionCallError::Fatal(message) => plus("Fatal error: ", message.as_str()),
        }
    }
}

/// An error that the model is told.
pub fn respond(message: &str) -> (error: FunctionCallError)
    ensures
        error@ == ErrorView::RespondToModel(message@),
{
    FunctionCallError::RespondToModel(message.to_owned())
}

/// What a call gives back.
#[derive(Clone, Debug, PartialEq, Eq)]
pub enum ToolOutput {
    /// A text.
    Text {
        /// The text.
        content: String,
        /// Whether the call did what it was asked for.
        success: bool,
    },
    /// One item that holds a text.
    InputText {
        /// The text.
        text: String,
        /// Whether the call did what it was asked for.
        success: bool,
    },
}

/// What a call gives back, with texts as characters.
pub enum OutputView {
    /// A text, and whether the call did what it was asked for.
    Text(Seq<char>, bool),
    /// One item that holds a text, and whether the call did what it was asked for.
    InputText(Seq<char>, bool),
}

impl View for ToolOutput {
    type V = OutputView;

    open spec fn view(&self) -> OutputView {
        match *self {
            ToolOutput::Text { content, success } => OutputView::Text(content@, success),
            ToolOutput::InputText { text, success } => OutputView::InputText(text@, success),
        }
    }
}

/// The kinds of tools.
#[derive(Clone, Copy, Debug, PartialEq, Eq, Structural)]
pub enum ToolKind {
    /// A tool that the library offers.
    Function,
    /// A tool of a server.
    Mcp,
}

} // verus!
