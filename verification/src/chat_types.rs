//! What the chat room tells its user, what it asks to be done, and what happens to it.

use crate::messages::{
    BarterNegotiationRequest, BarterNegotiationResponse, BarterNegotiationResponseView,
    ChatMessage, ChatMessageView, ChatRoomExit, ChatRoomExitView,
};
use crate::plan::contents;
use crate::text::{optional_text, texts};
use vstd::prelude::*;

verus! {

/// Why a rendezvous server refuses a request.
#[derive(Debug, Clone, Copy, PartialEq, Eq, Structural)]
pub enum RendezvousError {
    InvalidNamespace,
    InvalidSignedPeerRecord,
    InvalidTtl,
    InvalidCookie,
    NotAuthorized,
    InternalError,
    Unavailable,
}

/// Why the rendezvous server is not asked for something.
#[derive(Debug, PartialEq, Eq)]
pub enum RendezvousFailure<S> {
    /// There is no rendezvous server.
    NoServer,
    /// The namespace is not one that the protocol takes.
    InvalidNamespace,
    /// No address is being listened on.
    NoListeners,
    /// There is no address at which others could reach this side.
    NoExternalAddresses,
    /// What should be an address of this side is none, for this reason.
    BadAddress(S),
    /// The request could not be made, for this reason.
    Refused(S),
}

/// The words for why the rendezvous server is not asked for something.
pub open spec fn failure_words(failure: RendezvousFailure<Seq<char>>) -> Seq<char> {
    match failure {
        RendezvousFailure::NoServer => "No rendezvous server specified"@,
        RendezvousFailure::InvalidNamespace => "Invalid namespace"@,
        RendezvousFailure::NoListeners => "No listening addresses available"@,
        RendezvousFailure::NoExternalAddresses => {
            "No external addresses available for registration"@
        },
        RendezvousFailure::BadAddress(reason) => reason,
        RendezvousFailure::Refused(reason) => "Registration request failed: "@ + reason,
    }
}

impl RendezvousFailure<String> {
    /// Says in words why the rendezvous server is not asked for something.
    pub fn words(&self) -> (r: String)
        ensures
            r@ == failure_words(self@),
    {
        match self {
            RendezvousFailure::NoServer => "No rendezvous server specified".to_owned(),
            RendezvousFailure::InvalidNamespace => "Invalid namespace".to_owned(),
            RendezvousFailure::NoListeners => "No listening addresses available".to_owned(),
            RendezvousFailure::NoExternalAddresses => {
                "No external addresses available for registration".to_owned()
            },
            RendezvousFailure::BadAddress(reason) => reason.clone(),
            RendezvousFailure::Refused(reason) => {
                let mut text = "Registration request failed: ".to_owned();
                text.append(reason.as_str());
                text
            },
        }
    }
}

impl View for RendezvousFailure<String> {
    type V = RendezvousFailure<Seq<char>>;

    open spec fn view(&self) -> RendezvousFailure<Seq<char>> {
        match *self {
            RendezvousFailure::NoServer => RendezvousFailure::NoServer,
            RendezvousFailure::InvalidNamespace => RendezvousFailure::InvalidNamespace,
            RendezvousFailure::NoListeners => RendezvousFailure::NoListeners,
            RendezvousFailure::NoExternalAddresses => RendezvousFailure::NoExternalAddresses,
            RendezvousFailure::BadAddress(reason) => RendezvousFailure::BadAddress(reason@),
            RendezvousFailure::Refused(reason) => RendezvousFailure::Refused(reason@),
        }
    }
}

/// What the user is told. `S` is a text, and `L` a list of texts.
#[derive(Debug, PartialEq, Eq)]
pub enum ChatNotice<S, L = Vec<S>> {
    Help,
    NoPeersInRoom,
    PeersHeading,
    PeerRow { number: usize, name: S, peer: S },
    PeersEnd,
    BarterUsage,
    DmUsage,
    SendingRequest { peer: S },
    RequestSent,
    RequestNotSent { reason: S },
    PeerNotFound { peer: S },
    Discovering,
    NoServer,
    SwitchingToBarter { peer: S },
    CannotAccept,
    NothingToAccept,
    Leaving,
    UnknownCommand,
    NoClock,
    Listening { address: S },
    ConnectionEstablished { peer: S },
    ConnectedToServer { server: S },
    PeerDisconnected { name: S, peer: S },
    ConnectionClosed { peer: S },
    DisconnectedFromServer { server: S },
    DiscoveryStarting { server: S },
    DiscoveryStarted,
    Discovered { count: usize, server: S },
    PeerFound { peer: S, namespace: S, ttl: u64 },
    NoAddresses { peer: S },
    DiscoveryFailed { server: S, in_namespace: Option<S>, error: RendezvousError },
    Registered { server: S, namespace: S, ttl: u64 },
    DiscoveryAfterRegistration,
    RegistrationFailed { server: S, namespace: S, error: RendezvousError },
    RegistrationExpired { peer: S, connected: bool },
    UserMessage { time: S, name: S, content: S },
    UserJoined { name: S, peer: S },
    InvalidPresence { reason: S },
    UserLeft { name: S, peer: S },
    BarterRequested { name: S, peer: S },
    OthersBarter { from: S, to: S },
    BarterAccepted { name: S, addrs: L },
    DirectRequest { name: S, peer: S },
    RequestAccepted,
    RequestDeclined,
}

impl View for ChatNotice<String> {
    type V = ChatNotice<Seq<char>, Seq<Seq<char>>>;

    open spec fn view(&self) -> ChatNotice<Seq<char>, Seq<Seq<char>>> {
        match *self {
            ChatNotice::Help => ChatNotice::Help,
            ChatNotice::NoPeersInRoom => ChatNotice::NoPeersInRoom,
            ChatNotice::PeersHeading => ChatNotice::PeersHeading,
            ChatNotice::PeerRow { number, name, peer } => ChatNotice::PeerRow {
                number,
                name: name@,
                peer: peer@,
            },
            ChatNotice::PeersEnd => ChatNotice::PeersEnd,
            ChatNotice::BarterUsage => ChatNotice::BarterUsage,
            ChatNotice::DmUsage => ChatNotice::DmUsage,
            ChatNotice::SendingRequest { peer } => ChatNotice::SendingRequest { peer: peer@ },
            ChatNotice::RequestSent => ChatNotice::RequestSent,
            ChatNotice::RequestNotSent { reason } => ChatNotice::RequestNotSent { reason: reason@ },
            ChatNotice::PeerNotFound { peer } => ChatNotice::PeerNotFound { peer: peer@ },
            ChatNotice::Discovering => ChatNotice::Discovering,
            ChatNotice::NoServer => ChatNotice::NoServer,
            ChatNotice::SwitchingToBarter { peer } => ChatNotice::SwitchingToBarter { peer: peer@ },
            ChatNotice::CannotAccept => ChatNotice::CannotAccept,
            ChatNotice::NothingToAccept => ChatNotice::NothingToAccept,
            ChatNotice::Leaving => ChatNotice::Leaving,
            ChatNotice::UnknownCommand => ChatNotice::UnknownCommand,
            ChatNotice::NoClock => ChatNotice::NoClock,
            ChatNotice::Listening { address } => ChatNotice::Listening { address: address@ },
            ChatNotice::ConnectionEstablished { peer } => ChatNotice::ConnectionEstablished {
                peer: peer@,
            },
            ChatNotice::ConnectedToServer { server } => ChatNotice::ConnectedToServer {
                server: server@,
            },
            ChatNotice::PeerDisconnected { name, peer } => ChatNotice::PeerDisconnected {
                name: name@,
                peer: peer@,
            },
            ChatNotice::ConnectionClosed { peer } => ChatNotice::ConnectionClosed { peer: peer@ },
            ChatNotice::DisconnectedFromServer { server } => ChatNotice::DisconnectedFromServer {
                server: server@,
            },
            ChatNotice::DiscoveryStarting { server } => ChatNotice::DiscoveryStarting {
                server: server@,
            },
            ChatNotice::DiscoveryStarted => ChatNotice::DiscoveryStarted,
            ChatNotice::Discovered { count, server } => ChatNotice::Discovered {
                count,
                server: server@,
            },
            ChatNotice::PeerFound { peer, namespace, ttl } => ChatNotice::PeerFound {
                peer: peer@,
                namespace: namespace@,
                ttl,
            },
            ChatNotice::NoAddresses { peer } => ChatNotice::NoAddresses { peer: peer@ },
            ChatNotice::DiscoveryFailed { server, in_namespace, error } => {
                ChatNotice::DiscoveryFailed {
                    server: server@,
                    in_namespace: optional_text(in_namespace),
                    error,
                }
            },
            ChatNotice::Registered { server, namespace, ttl } => ChatNotice::Registered {
                server: server@,
                namespace: namespace@,
                ttl,
            },
            ChatNotice::DiscoveryAfterRegistration => ChatNotice::DiscoveryAfterRegistration,
            ChatNotice::RegistrationFailed { server, namespace, error } => {
                ChatNotice::RegistrationFailed { server: server@, namespace: namespace@, error }
            },
            ChatNotice::RegistrationExpired { peer, connected } => ChatNotice::RegistrationExpired {
                peer: peer@,
                connected,
            },
            ChatNotice::UserMessage { time, name, content } => ChatNotice::UserMessage {
                time: time@,
                name: name@,
                content: content@,
            },
            ChatNotice::UserJoined { name, peer } => ChatNotice::UserJoined {
                name: name@,
                peer: peer@,
            },
            ChatNotice::InvalidPresence { reason } => ChatNotice::InvalidPresence {
                reason: reason@,
            },
            ChatNotice::UserLeft { name, peer } => ChatNotice::UserLeft {
                name: name@,
                peer: peer@,
            },
            ChatNotice::BarterRequested { name, peer } => ChatNotice::BarterRequested {
                name: name@,
                peer: peer@,
            },
            ChatNotice::OthersBarter { from, to } => ChatNotice::OthersBarter {
                from: from@,
                to: to@,
            },
            ChatNotice::BarterAccepted { name, addrs } => ChatNotice::BarterAccepted {
                name: name@,
                addrs: texts(addrs@),
            },
            ChatNotice::DirectRequest { name, peer } => ChatNotice::DirectRequest {
                name: name@,
                peer: peer@,
            },
            ChatNotice::RequestAccepted => ChatNotice::RequestAccepted,
            ChatNotice::RequestDeclined => ChatNotice::RequestDeclined,
        }
    }
}

/// What the room asks to be done. `C` is the channel on which a request is answered.
#[derive(Debug, PartialEq, Eq)]
pub enum ChatAction<C> {
    /// Tell the user.
    Tell(ChatNotice<String>),
    /// Publish a message in the room; it does not matter whether that succeeds.
    Announce(ChatMessage),
    /// Publish a message in the room, then call `message_published` of the room.
    Say(ChatMessage),
    /// Publish a message in the room, then call `leave_published` of the room.
    TakeLeave(ChatMessage),
    /// Dial the rendezvous server.
    DialServer { address: String },
    /// Dial a peer at one address after the other, as `address_to_dial` says.
    DialPeer { peer: String, addrs: Vec<String> },
    /// Register with the rendezvous server: see `register_with_rendezvous` of the room.
    Register { server: String },
    /// Ask the rendezvous server for registered peers.
    Discover { server: String, namespace: String, limit: u64 },
    /// Take back the registration with the rendezvous server.
    Unregister { server: String, namespace: String },
    /// Ask a peer for a barter session.
    Propose { peer: String, request: BarterNegotiationRequest },
    /// Answer the request that came on a channel.
    Respond { channel: C, response: BarterNegotiationResponse },
    /// Wait.
    Pause { millis: u64 },
    /// Wait until the user presses Enter.
    AwaitEnter,
    /// Leave the room.
    Exit(ChatRoomExit),
}

/// The content of a [`ChatAction`].
pub enum ChatActionView<C> {
    Tell(ChatNotice<Seq<char>, Seq<Seq<char>>>),
    Announce(ChatMessageView),
    Say(ChatMessageView),
    TakeLeave(ChatMessageView),
    DialServer { address: Seq<char> },
    DialPeer { peer: Seq<char>, addrs: Seq<Seq<char>> },
    Register { server: Seq<char> },
    Discover { server: Seq<char>, namespace: Seq<char>, limit: u64 },
    Unregister { server: Seq<char>, namespace: Seq<char> },
    Propose { peer: Seq<char>, request: BarterNegotiationRequest },
    Respond { channel: C, response: BarterNegotiationResponseView },
    Pause { millis: u64 },
    AwaitEnter,
    Exit(ChatRoomExitView),
}

impl<C> View for ChatAction<C> {
    type V = ChatActionView<C>;

    open spec fn view(&self) -> ChatActionView<C> {
        match *self {
            ChatAction::Tell(it) => ChatActionView::Tell(it@),
            ChatAction::Announce(it) => ChatActionView::Announce(it@),
            ChatAction::Say(it) => ChatActionView::Say(it@),
            ChatAction::TakeLeave(it) => ChatActionView::TakeLeave(it@),
            ChatAction::DialServer { address } => ChatActionView::DialServer { address: address@ },
            ChatAction::DialPeer { peer, addrs } => ChatActionView::DialPeer {
                peer: peer@,
                addrs: texts(addrs@),
            },
            ChatAction::Register { server } => ChatActionView::Register { server: server@ },
            ChatAction::Discover { server, namespace, limit } => ChatActionView::Discover {
                server: server@,
                namespace: namespace@,
                limit,
            },
            ChatAction::Unregister { server, namespace } => ChatActionView::Unregister {
                server: server@,
                namespace: namespace@,
            },
            ChatAction::Propose { peer, request } => ChatActionView::Propose {
                peer: peer@,
                request,
            },
            ChatAction::Respond { channel, response } => ChatActionView::Respond {
                channel,
                response: response@,
            },
            ChatAction::Pause { millis } => ChatActionView::Pause { millis },
            ChatAction::AwaitEnter => ChatActionView::AwaitEnter,
            ChatAction::Exit(it) => ChatActionView::Exit(it@),
        }
    }
}

/// A peer that is registered with a rendezvous server.
#[derive(Debug, PartialEq, Eq)]
pub struct Registration {
    pub peer: String,
    pub addrs: Vec<String>,
    pub namespace: String,
    pub ttl: u64,
}

/// The content of a [`Registration`].
pub struct RegistrationView {
    pub peer: Seq<char>,
    pub addrs: Seq<Seq<char>>,
    pub namespace: Seq<char>,
    pub ttl: u64,
}

impl View for Registration {
    type V = RegistrationView;

    open spec fn view(&self) -> RegistrationView {
        RegistrationView {
            peer: self.peer@,
            addrs: texts(self.addrs@),
            namespace: self.namespace@,
            ttl: self.ttl,
        }
    }
}

/// What happens on the network while in the room.
#[derive(Debug, PartialEq, Eq)]
pub enum ChatEvent<C> {
    /// An address is being listened on.
    Listening { address: String },
    /// A connection to a peer was established.
    Connected { peer: String },
    /// The connection to a peer was closed.
    Closed { peer: String },
    /// The rendezvous server lists registered peers.
    Discovered { server: String, registrations: Vec<Registration> },
    /// The rendezvous server does not list registered peers.
    DiscoverFailed { server: String, in_namespace: Option<String>, error: RendezvousError },
    /// The rendezvous server has registered this side.
    Registered { server: String, namespace: String, ttl: u64 },
    /// The rendezvous server has not registered this side.
    RegisterFailed { server: String, namespace: String, error: RendezvousError },
    /// The registration of a peer has run out.
    Expired { peer: String },
    /// A message was published in the room.
    Heard { message: ChatMessage },
    /// A peer asks for a barter session.
    Proposed { peer: String, channel: C, request: BarterNegotiationRequest },
    /// A peer answers a request for a barter session.
    Answered { peer: String, response: BarterNegotiationResponse },
}

/// The content of a [`ChatEvent`].
pub enum ChatEventView<C> {
    Listening { address: Seq<char> },
    Connected { peer: Seq<char> },
    Closed { peer: Seq<char> },
    Discovered { server: Seq<char>, registrations: Seq<RegistrationView> },
    DiscoverFailed { server: Seq<char>, in_namespace: Option<Seq<char>>, error: RendezvousError },
    Registered { server: Seq<char>, namespace: Seq<char>, ttl: u64 },
    RegisterFailed { server: Seq<char>, namespace: Seq<char>, error: RendezvousError },
    Expired { peer: Seq<char> },
    Heard { message: ChatMessageView },
    Proposed { peer: Seq<char>, channel: C, request: BarterNegotiationRequest },
    Answered { peer: Seq<char>, response: BarterNegotiationResponseView },
}

impl<C> View for ChatEvent<C> {
    type V = ChatEventView<C>;

    open spec fn view(&self) -> ChatEventView<C> {
        match *self {
            ChatEvent::Listening { address } => ChatEventView::Listening { address: address@ },
            ChatEvent::Connected { peer } => ChatEventView::Connected { peer: peer@ },
            ChatEvent::Closed { peer } => ChatEventView::Closed { peer: peer@ },
            ChatEvent::Discovered { server, registrations } => ChatEventView::Discovered {
                server: server@,
                registrations: contents(registrations@),
            },
            ChatEvent::DiscoverFailed { server, in_namespace, error } => {
                ChatEventView::DiscoverFailed {
                    server: server@,
                    in_namespace: optional_text(in_namespace),
                    error,
                }
            },
            ChatEvent::Registered { server, namespace, ttl } => ChatEventView::Registered {
                server: server@,
                namespace: namespace@,
                ttl,
            },
            ChatEvent::RegisterFailed { server, namespace, error } => {
                ChatEventView::RegisterFailed { server: server@, namespace: namespace@, error }
            },
            ChatEvent::Expired { peer } => ChatEventView::Expired { peer: peer@ },
            ChatEvent::Heard { message } => ChatEventView::Heard { message: message@ },
            ChatEvent::Proposed { peer, channel, request } => ChatEventView::Proposed {
                peer: peer@,
                channel,
                request,
            },
            ChatEvent::Answered { peer, response } => ChatEventView::Answered {
                peer: peer@,
                response: response@,
            },
        }
    }
}

/// The words for a refusal hold the whole reason, and those for an address that is none are it.
pub proof fn law_reasons_are_told(reason: Seq<char>)
    ensures
        failure_words(RendezvousFailure::Refused(reason)) == "Registration request failed: "@
            + reason,
        failure_words(RendezvousFailure::BadAddress(reason)) == reason,
{
}

}
