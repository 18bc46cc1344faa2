//! Transcript entries.  Every entry carries a `hidden` flag; a transcript is
//! append-only, and entries are never removed or reordered, only hidden.

use vstd::prelude::*;
use crate::command::{Command, CommandModel, serialized};
use crate::consts::{summary_marker, summary_marker_chars};
use crate::text::{contains_seq, contains_chars, to_char_vec};
use crate::types::{CodeBlock, CodeBlockModel, InjectedMessage, format_spec};

verus! {

/// One entry of the conversation transcript.
#[derive(Debug, PartialEq, Clone)]
pub enum SourcemaptMessage {
    System { content: String, hidden: bool },
    User { content: String, hidden: bool },
    Code { code: CodeBlock, hidden: bool },
    Injected { kind: InjectedMessage, hidden: bool },
    Model { content: String, hidden: bool },
    CommandInvocation { command: Command, hidden: bool },
    CommandResult { content: String, hidden: bool },
}

/// The mathematical value of a [`SourcemaptMessage`].
pub enum MessageModel {
    System { content: Seq<char>, hidden: bool },
    User { content: Seq<char>, hidden: bool },
    Code { code: CodeBlockModel, hidden: bool },
    Injected { kind: InjectedMessage, hidden: bool },
    Model { content: Seq<char>, hidden: bool },
    CommandInvocation { command: CommandModel, hidden: bool },
    CommandResult { content: Seq<char>, hidden: bool },
}

impl View for SourcemaptMessage {
    type V = MessageModel;

    open spec fn view(&self) -> MessageModel {
        match self {
            SourcemaptMessage::System { content, hidden } => MessageModel::System {
                content: content@,
                hidden: *hidden,
            },
            SourcemaptMessage::User { content, hidden } => MessageModel::User {
                content: content@,
                hidden: *hidden,
            },
            SourcemaptMessage::Code { code, hidden } => MessageModel::Code {
                code: code@,
                hidden: *hidden,
            },
            SourcemaptMessage::Injected { kind, hidden } => MessageModel::Injected {
                kind: *kind,
                hidden: *hidden,
            },
            SourcemaptMessage::Model { content, hidden } => MessageModel::Model {
                content: content@,
                hidden: *hidden,
            },
            SourcemaptMessage::CommandInvocation { command, hidden } => {
                MessageModel::CommandInvocation { command: command@, hidden: *hidden }
            },
            SourcemaptMessage::CommandResult { content, hidden } => MessageModel::CommandResult {
                content: content@,
                hidden: *hidden,
            },
        }
    }
}

impl DeepView for SourcemaptMessage {
    type V = MessageModel;

    open spec fn deep_view(&self) -> MessageModel {
        self.view()
    }
}

/// The hidden flag of a message, whatever its variant.
pub open spec fn msg_hidden(m: MessageModel) -> bool {
    match m {
        MessageModel::System { hidden, .. } => hidden,
        MessageModel::User { hidden, .. } => hidden,
        MessageModel::Code { hidden, .. } => hidden,
        MessageModel::Injected { hidden, .. } => hidden,
        MessageModel::Model { hidden, .. } => hidden,
        MessageModel::CommandInvocation { hidden, .. } => hidden,
        MessageModel::CommandResult { hidden, .. } => hidden,
    }
}

/// The same message with its hidden flag set.
pub open spec fn with_hidden(m: MessageModel) -> MessageModel {
    match m {
        MessageModel::System { content, .. } => MessageModel::System { content, hidden: true },
        MessageModel::User { content, .. } => MessageModel::User { content, hidden: true },
        MessageModel::Code { code, .. } => MessageModel::Code { code, hidden: true },
        MessageModel::Injected { kind, .. } => MessageModel::Injected { kind, hidden: true },
        MessageModel::Model { content, .. } => MessageModel::Model { content, hidden: true },
        MessageModel::CommandInvocation { command, .. } => MessageModel::CommandInvocation {
            command,
            hidden: true,
        },
        MessageModel::CommandResult { content, .. } => MessageModel::CommandResult {
            content,
            hidden: true,
        },
    }
}

/// A concluding message: model prose holding the summary marker.
pub open spec fn msg_is_summary(m: MessageModel) -> bool {
    match m {
        MessageModel::Model { content, .. } => contains_seq(content, summary_marker()),
        _ => false,
    }
}

/// A message whose rendering cannot overflow: a code block's highest printed
/// line number fits the machine word.  Every other variant is fine as it is.
pub open spec fn msg_wf(m: MessageModel) -> bool {
    match m {
        MessageModel::Code { code, .. } => code.start + code.lines.len() <= usize::MAX,
        _ => true,
    }
}

impl SourcemaptMessage {
    /// Whether this message is hidden from the model-facing transcript.
    pub fn hidden(&self) -> (b: bool)
        ensures
            b == msg_hidden(self@),
    {
        match self {
            SourcemaptMessage::System { hidden, .. } => *hidden,
            SourcemaptMessage::User { hidden, .. } => *hidden,
            SourcemaptMessage::Code { hidden, .. } => *hidden,
            SourcemaptMessage::Injected { hidden, .. } => *hidden,
            SourcemaptMessage::Model { hidden, .. } => *hidden,
            SourcemaptMessage::CommandInvocation { hidden, .. } => *hidden,
            SourcemaptMessage::CommandResult { hidden, .. } => *hidden,
        }
    }

    /// Whether this message concludes the conversation: model prose holding
    /// the summary marker.
    pub fn is_summary(&self) -> (b: bool)
        ensures
            b == msg_is_summary(self@),
    {
        match self {
            SourcemaptMessage::Model { content, .. } => {
                let marker = summary_marker_chars();
                let chars = to_char_vec(content.as_str());
                contains_chars(&chars, &marker)
            },
            _ => false,
        }
    }

    /// Hides this message; everything else about it stays as it was.
    pub fn conceal(&mut self)
        ensures
            final(self)@ == with_hidden(old(self)@),
    {
        match self {
            SourcemaptMessage::System { hidden, .. } => *hidden = true,
            SourcemaptMessage::User { hidden, .. } => *hidden = true,
            SourcemaptMessage::Code { hidden, .. } => *hidden = true,
            SourcemaptMessage::Injected { hidden, .. } => *hidden = true,
            SourcemaptMessage::Model { hidden, .. } => *hidden = true,
            SourcemaptMessage::CommandInvocation { hidden, .. } => *hidden = true,
            SourcemaptMessage::CommandResult { hidden, .. } => *hidden = true,
        }
    }
}

// ---------------------------------------------------------------------------
// The model-facing form
// ---------------------------------------------------------------------------
/// The three roles of the model-facing message scheme.
#[derive(Debug, PartialEq, Eq, Clone, Copy)]
pub enum Role {
    System,
    User,
    Assistant,
}

/// One model-facing prompt entry.
#[derive(Debug, PartialEq, Clone)]
pub struct ChatMessage {
    pub role: Role,
    pub content: String,
}

/// The mathematical value of a [`ChatMessage`].
pub struct ChatMessageModel {
    pub role: Role,
    pub content: Seq<char>,
}

impl View for ChatMessage {
    type V = ChatMessageModel;

    open spec fn view(&self) -> ChatMessageModel {
        ChatMessageModel { role: self.role, content: self.content@ }
    }
}

impl DeepView for ChatMessage {
    type V = ChatMessageModel;

    open spec fn deep_view(&self) -> ChatMessageModel {
        self.view()
    }
}

/// How each transcript entry reads to the model: prompts, injected steering,
/// code excerpts and command results speak as the user; the model's prose and
/// its serialized command invocations speak as the assistant.
pub open spec fn chat_of(m: MessageModel) -> ChatMessageModel {
    match m {
        MessageModel::System { content, .. } => ChatMessageModel {
            role: Role::System,
            content,
        },
        MessageModel::User { content, .. } => ChatMessageModel { role: Role::User, content },
        MessageModel::Code { code, .. } => ChatMessageModel {
            role: Role::User,
            content: format_spec(code),
        },
        MessageModel::Injected { kind, .. } => ChatMessageModel {
            role: Role::User,
            content: kind.text(),
        },
        MessageModel::Model { content, .. } => ChatMessageModel {
            role: Role::Assistant,
            content,
        },
        MessageModel::CommandInvocation { command, .. } => ChatMessageModel {
            role: Role::Assistant,
            content: serialized(command),
        },
        MessageModel::CommandResult { content, .. } => ChatMessageModel {
            role: Role::User,
            content,
        },
    }
}

impl SourcemaptMessage {
    /// This entry in the model-facing form.
    pub fn map_to_chat_message(&self) -> (r: ChatMessage)
        requires
            msg_wf(self@),
        ensures
            r@ == chat_of(self@),
    {
        match self {
            SourcemaptMessage::System { content, .. } => ChatMessage {
                role: Role::System,
                content: content.clone(),
            },
            SourcemaptMessage::User { content, .. } => ChatMessage {
                role: Role::User,
                content: content.clone(),
            },
            SourcemaptMessage::Code { code, .. } => ChatMessage {
                role: Role::User,
                content: code.format(),
            },
            SourcemaptMessage::Injected { kind, .. } => ChatMessage {
                role: Role::User,
                content: kind.get_string(),
            },
            SourcemaptMessage::Model { content, .. } => ChatMessage {
                role: Role::Assistant,
                content: content.clone(),
            },
            SourcemaptMessage::CommandInvocation { command, .. } => ChatMessage {
                role: Role::Assistant,
                content: command.serialize(),
            },
            SourcemaptMessage::CommandResult { content, .. } => ChatMessage {
                role: Role::User,
                content: content.clone(),
            },
        }
    }
}

} // verus!
