//! What peers say to one another: in the chat room, while they negotiate a barter, and during it.

use crate::text::texts;
use vstd::prelude::*;

verus! {

/// Whether a user comes to the chat room or leaves it.
#[derive(Debug, Clone, Copy, PartialEq, Eq, Structural)]
pub enum PresenceAction {
    Join,
    Leave,
}

/// A message to everyone in the chat room.
#[derive(Debug, PartialEq, Eq)]
pub enum ChatMessage {
    UserMessage { sender_id: String, sender_name: String, content: String, timestamp: u64 },
    UserPresence { action: PresenceAction, user_id: String, user_name: String },
    BarterRequest { from_id: String, from_name: String, to_id: String },
    /// `addrs` are the addresses at which the one who accepts can be reached.
    BarterAccepted { from_id: String, from_name: String, to_id: String, addrs: Vec<String> },
}

/// The content of a [`ChatMessage`].
pub enum ChatMessageView {
    UserMessage {
        sender_id: Seq<char>,
        sender_name: Seq<char>,
        content: Seq<char>,
        timestamp: u64,
    },
    UserPresence { action: PresenceAction, user_id: Seq<char>, user_name: Seq<char> },
    BarterRequest { from_id: Seq<char>, from_name: Seq<char>, to_id: Seq<char> },
    BarterAccepted {
        from_id: Seq<char>,
        from_name: Seq<char>,
        to_id: Seq<char>,
        addrs: Seq<Seq<char>>,
    },
}

impl View for ChatMessage {
    type V = ChatMessageView;

    open spec fn view(&self) -> ChatMessageView {
        match *self {
            ChatMessage::UserMessage {
                sender_id,
                sender_name,
                content,
                timestamp,
            } => ChatMessageView::UserMessage {
                sender_id: sender_id@,
                sender_name: sender_name@,
                content: content@,
                timestamp,
            },
            ChatMessage::UserPresence {
                action,
                user_id,
                user_name,
            } => ChatMessageView::UserPresence { action, user_id: user_id@, user_name: user_name@ },
            ChatMessage::BarterRequest {
                from_id,
                from_name,
                to_id,
            } => ChatMessageView::BarterRequest {
                from_id: from_id@,
                from_name: from_name@,
                to_id: to_id@,
            },
            ChatMessage::BarterAccepted {
                from_id,
                from_name,
                to_id,
                addrs,
            } => ChatMessageView::BarterAccepted {
                from_id: from_id@,
                from_name: from_name@,
                to_id: to_id@,
                addrs: texts(addrs@),
            },
        }
    }
}

/// What one peer asks of another before a barter.
#[derive(Debug, Clone, Copy, PartialEq, Eq, Structural)]
pub enum BarterNegotiationRequest {
    ProposeBarterSession,
}

/// The answer to a [`BarterNegotiationRequest`].
#[derive(Debug, Clone, PartialEq, Eq)]
pub enum BarterNegotiationResponse {
    /// `addrs` are the addresses at which the session can be joined.
    Accept { addrs: Vec<String> },
    Decline,
}

/// The content of a [`BarterNegotiationResponse`].
pub enum BarterNegotiationResponseView {
    Accept { addrs: Seq<Seq<char>> },
    Decline,
}

impl View for BarterNegotiationResponse {
    type V = BarterNegotiationResponseView;

    open spec fn view(&self) -> BarterNegotiationResponseView {
        match *self {
            BarterNegotiationResponse::Accept {
                addrs,
            } => BarterNegotiationResponseView::Accept { addrs: texts(addrs@) },
            BarterNegotiationResponse::Decline => BarterNegotiationResponseView::Decline,
        }
    }
}

/// What is known of a peer.
#[derive(Debug, Clone, PartialEq, Eq)]
pub struct PeerInfo {
    pub peer_id: String,
    pub username: String,
    pub addrs: Vec<String>,
}

/// How the chat room is left.
#[derive(Debug, PartialEq, Eq)]
pub enum ChatRoomExit {
    Quit,
    /// A barter that the peer has accepted; `addr` lists where it can be reached.
    AcceptBarter { peer_id: String, addr: Option<String> },
    /// A barter that this side has accepted.
    AcceptBarterAsAcceptor { peer_id: String, peer_name: String },
}

/// The content of a [`ChatRoomExit`].
pub enum ChatRoomExitView {
    Quit,
    AcceptBarter { peer_id: Seq<char>, addr: Option<Seq<char>> },
    AcceptBarterAsAcceptor { peer_id: Seq<char>, peer_name: Seq<char> },
}

impl View for ChatRoomExit {
    type V = ChatRoomExitView;

    open spec fn view(&self) -> ChatRoomExitView {
        match *self {
            ChatRoomExit::Quit => ChatRoomExitView::Quit,
            ChatRoomExit::AcceptBarter {
                peer_id,
                addr,
            } => ChatRoomExitView::AcceptBarter {
                peer_id: peer_id@,
                addr: crate::text::optional_text(addr),
            },
            ChatRoomExit::AcceptBarterAsAcceptor {
                peer_id,
                peer_name,
            } => ChatRoomExitView::AcceptBarterAsAcceptor {
                peer_id: peer_id@,
                peer_name: peer_name@,
            },
        }
    }
}

/// What one peer sends another during a barter session.
#[derive(Debug, Clone, PartialEq, Eq)]
pub enum BarterMessage {
    /// The sender offers one file and wants another, encrypted for `key`.
    BarterRequest { offering: String, requesting: String, key: String },
    /// A file that was offered, under its own name; its content is encrypted.
    FileDelivery { filename: String, file_data: Vec<u8> },
    /// A line of conversation.
    DirectMessage { content: String },
}

/// The content of a [`BarterMessage`].
pub enum BarterMessageView {
    BarterRequest { offering: Seq<char>, requesting: Seq<char>, key: Seq<char> },
    FileDelivery { filename: Seq<char>, file_data: Seq<u8> },
    DirectMessage { content: Seq<char> },
}

impl View for BarterMessage {
    type V = BarterMessageView;

    open spec fn view(&self) -> BarterMessageView {
        match *self {
            BarterMessage::BarterRequest {
                offering,
                requesting,
                key,
            } => BarterMessageView::BarterRequest {
                offering: offering@,
                requesting: requesting@,
                key: key@,
            },
            BarterMessage::FileDelivery {
                filename,
                file_data,
            } => BarterMessageView::FileDelivery {
                filename: filename@,
                file_data: file_data@,
            },
            BarterMessage::DirectMessage {
                content,
            } => BarterMessageView::DirectMessage { content: content@ },
        }
    }
}

/// The answer to a [`BarterMessage`].
#[derive(Debug, Clone, PartialEq, Eq)]
pub enum BarterResponse {
    /// The barter is accepted: here is the file that was wanted, encrypted. The one that was
    /// offered is to be encrypted for `key`.
    Accepted { file_data: Vec<u8>, key: String },
    Declined,
    FileReceived,
    MessageReceived,
}

/// The content of a [`BarterResponse`].
pub enum BarterResponseView {
    Accepted { file_data: Seq<u8>, key: Seq<char> },
    Declined,
    FileReceived,
    MessageReceived,
}

impl View for BarterResponse {
    type V = BarterResponseView;

    open spec fn view(&self) -> BarterResponseView {
        match *self {
            BarterResponse::Accepted { file_data, key } => BarterResponseView::Accepted {
                file_data: file_data@,
                key: key@,
            },
            BarterResponse::Declined => BarterResponseView::Declined,
            BarterResponse::FileReceived => BarterResponseView::FileReceived,
            BarterResponse::MessageReceived => BarterResponseView::MessageReceived,
        }
    }
}

/// What a message in the chat room says is all that it holds: two messages that say the same hold
/// the same texts.
pub proof fn law_chat_messages_say_what_they_hold(message: ChatMessage)
    ensures
        match message {
            ChatMessage::UserMessage {
                sender_id,
                sender_name,
                content,
                timestamp,
            } => message@ matches ChatMessageView::UserMessage {
                sender_id: id,
                sender_name: name,
                content: words,
                timestamp: time,
            } && id == sender_id@ && name == sender_name@ && words == content@ && time == timestamp,
            ChatMessage::UserPresence {
                action,
                user_id,
                user_name,
            } => message@ matches ChatMessageView::UserPresence {
                action: what,
                user_id: id,
                user_name: name,
            } && what == action && id == user_id@ && name == user_name@,
            ChatMessage::BarterRequest {
                from_id,
                from_name,
                to_id,
            } => message@ matches ChatMessageView::BarterRequest {
                from_id: from,
                from_name: name,
                to_id: to,
            } && from == from_id@ && name == from_name@ && to == to_id@,
            ChatMessage::BarterAccepted {
                from_id,
                from_name,
                to_id,
                addrs,
            } => message@ matches ChatMessageView::BarterAccepted {
                from_id: from,
                from_name: name,
                to_id: to,
                addrs: list,
            } && from == from_id@ && name == from_name@ && to == to_id@ && list.len() == addrs.len()
                && forall|i: int| 0 <= i < list.len() ==> #[trigger] list[i] == addrs[i]@,
        },
{
}

/// What a message of a barter session says is all that it holds, and so with its answers.
pub proof fn law_barter_messages_say_what_they_hold(
    message: BarterMessage,
    response: BarterResponse,
)
    ensures
        match message {
            BarterMessage::BarterRequest {
                offering,
                requesting,
                key,
            } => message@ matches BarterMessageView::BarterRequest {
                offering: offer,
                requesting: want,
                key: text,
            } && offer == offering@ && want == requesting@ && text == key@,
            BarterMessage::FileDelivery {
                filename,
                file_data,
            } => message@ matches BarterMessageView::FileDelivery {
                filename: name,
                file_data: data,
            } && name == filename@ && data == file_data@,
            BarterMessage::DirectMessage {
                content,
            } => message@ matches BarterMessageView::DirectMessage { content: words } && words
                == content@,
        },
        match response {
            BarterResponse::Accepted {
                file_data,
                key,
            } => response@ matches BarterResponseView::Accepted { file_data: data, key: text }
                && data == file_data@ && text == key@,
            BarterResponse::Declined => response@ is Declined,
            BarterResponse::FileReceived => response@ is FileReceived,
            BarterResponse::MessageReceived => response@ is MessageReceived,
        },
{
}

}
