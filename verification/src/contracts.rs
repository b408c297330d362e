//! The types that every part of the agent shares.

use crate::text::view_all;
use vstd::prelude::*;

verus! {

/// Where messages come from and go to.
#[derive(Debug, Clone, Copy, PartialEq, Eq, Structural)]
pub enum Channel {
    Feishu,
}

/// How much the agent may do without asking.
#[derive(Debug, Clone, Copy, PartialEq, Eq, Structural)]
pub enum AutonomyLevel {
    ReadOnly,
    Supervised,
    Full,
}

/// The workspace that the agent works in.
#[derive(Debug, Clone, PartialEq, Eq)]
pub struct WorkspaceTarget {
    pub path: String,
    pub label: String,
}

/// The kind of chat that a message was sent in.
#[derive(Debug, Clone, Copy, PartialEq, Eq, Structural)]
pub enum ChatType {
    P2p,
    Group,
    Unknown,
}

impl Default for ChatType {
    fn default() -> (r: Self)
        ensures
            r == ChatType::Unknown,
    {
        ChatType::Unknown
    }
}

/// A message received from an IM channel.
#[derive(Debug, Clone)]
pub struct InboundMessage {
    pub channel: Channel,
    pub sender_id: String,
    pub text: String,
    pub message_id: String,
    pub chat_type: ChatType,
    pub chat_id: String,
    pub mentions: Vec<String>,
}

/// What an `InboundMessage` says.
#[verifier::ext_equal]
pub ghost struct InboundView {
    pub channel: Channel,
    pub sender_id: Seq<char>,
    pub text: Seq<char>,
    pub message_id: Seq<char>,
    pub chat_type: ChatType,
    pub chat_id: Seq<char>,
    pub mentions: Seq<Seq<char>>,
}

impl View for InboundMessage {
    type V = InboundView;

    open spec fn view(&self) -> InboundView {
        InboundView {
            channel: self.channel,
            sender_id: self.sender_id@,
            text: self.text@,
            message_id: self.message_id@,
            chat_type: self.chat_type,
            chat_id: self.chat_id@,
            mentions: view_all(self.mentions@),
        }
    }
}

/// A message to send back to an IM channel.
#[derive(Debug, Clone)]
pub struct OutboundMessage {
    pub channel: Channel,
    pub recipient_id: String,
    pub text: String,
    pub reply_to_message_id: String,
}

/// What a transport is doing.
#[derive(Debug, Clone, Copy, PartialEq, Eq, Structural)]
pub enum ConnectionState {
    Disconnected,
    Connecting,
    Connected,
    Reconnecting,
    Stopped,
}

/// What the runtime is allowed to do, and where.
#[derive(Debug, Clone)]
pub struct RuntimeConfig {
    pub autonomy: AutonomyLevel,
    pub workspace: Option<WorkspaceTarget>,
}

impl Default for RuntimeConfig {
    /// Supervised, with no workspace yet.
    fn default() -> (r: Self)
        ensures
            r.autonomy == AutonomyLevel::Supervised,
            r.workspace is None,
    {
        RuntimeConfig { autonomy: AutonomyLevel::Supervised, workspace: None }
    }
}

} // verus!
