//! The chat room: who is there, what is said, and how two peers agree on a barter.
//!
//! The room takes lines that its user types, events of the network and the passing of time, one
//! at a time, and says what is to be done. Times are in nanoseconds since some fixed moment.

use crate::addresses::{
    address_of_peer, addressed_peer, barter_addresses, list_barter_addresses, listening_at,
    peer_address, peer_in_address, usable_listen_address, AddressedPeer,
};
use crate::chat_types::{
    ChatAction, ChatActionView, ChatEvent, ChatEventView, ChatNotice, Registration,
    RegistrationView, RendezvousFailure,
};
use crate::clock::{clock_text, show_time, time_of_message, usable_timestamp};
use crate::foreign::{
    local_ip, new_namespace, parse_peer_id, parsed_multiaddr, parsed_peer_id, seconds_since_1970,
};
use crate::messages::{
    BarterNegotiationRequest, BarterNegotiationResponse, BarterNegotiationResponseView,
    ChatMessage, ChatMessageView, ChatRoomExit, ChatRoomExitView, PresenceAction,
};
use crate::plan::contents;
use crate::registration::{
    plan_registration, registration_plan, AddressStep, Registering, RegisteringView, Stage,
};
use crate::table::{distinct, holds, law_with, law_without, lookup, with, without, PeerTable};
use crate::text::{
    after_first, before_first, begins_with, clone_texts, join, joined, optional_text, same_text,
    starts_with, text_after_first, text_before_first, texts, trim, trimmed,
};
use vstd::prelude::*;

verus! {

broadcast use {crate::plan::lemma_contents_add, crate::plan::lemma_contents_push};

/// The port on which the one who accepts a barter listens for the other.
pub const BARTER_PORT: u16 = 50001;

/// How many peers are asked for in one discovery.
pub const DISCOVERY_LIMIT: u64 = 50;

/// How long presence is announced again after the last time: 30 seconds.
pub const HEARTBEAT_INTERVAL: u64 = 30_000_000_000;

/// How long after the last discovery the next one is due in any case: 5 minutes.
pub const DISCOVERY_INTERVAL: u64 = 300_000_000_000;

/// How long after the last discovery someone's coming or going may cause one: 30 seconds.
pub const MIN_DISCOVERY_INTERVAL: u64 = 30_000_000_000;

/// How long a new connection to the rendezvous server is left alone before registration.
pub const SETTLING_MILLIS: u64 = 500;

/// The namespace under which peers find one another at the rendezvous server.
pub open spec fn namespace() -> Seq<char> {
    "p2p-file-barter"@
}

/// The state of a room.
#[verifier::ext_equal]
pub struct RoomView<C> {
    /// The id of this side.
    pub local: Seq<char>,
    /// The name of the user.
    pub name: Seq<char>,
    /// The connected peers and their users' names.
    pub peers: Seq<(Seq<char>, Seq<char>)>,
    /// The id and the name of the peer that asked for a barter last.
    pub request: Option<(Seq<char>, Seq<char>)>,
    /// The peer whose direct request waits for its answer, and the channel of that answer.
    pub channel: Option<(Seq<char>, C)>,
    /// The rendezvous server.
    pub server: Option<Seq<char>>,
    /// Peers that were discovered, and their addresses.
    pub discovered: Seq<(Seq<char>, Seq<Seq<char>>)>,
    /// When presence was last announced by the clock.
    pub last_heartbeat: u64,
    /// The time from which the intervals between discoveries count: when one was last due, or the
    /// room was entered. Before that, when it was made.
    pub last_discovery: u64,
    /// When this side last asked its rendezvous server for peers, if it has.
    pub last_discovery_time: Option<u64>,
    /// When the present turn began.
    pub turn_start: u64,
    /// Whether an address is being listened on.
    pub listening: bool,
    /// Whether the rendezvous server has registered this side.
    pub registered: bool,
    /// Whether registration has been tried.
    pub attempted: bool,
    /// Whether there is a connection to the rendezvous server.
    pub server_connected: bool,
}

impl<C> RoomView<C> {
    /// No peer is listed twice, and the request that waits on a channel is the one that would be
    /// accepted.
    pub open spec fn well_formed(self) -> bool {
        &&& distinct(self.peers)
        &&& distinct(self.discovered)
        &&& self.channel matches Some((asker, _)) ==> self.request matches Some((peer, _)) && peer
            == asker
    }
}

/// What the user is told.
pub open spec fn tell<C>(notice: ChatNotice<Seq<char>, Seq<Seq<char>>>) -> ChatActionView<C> {
    ChatActionView::Tell(notice)
}

/// How long ago `then` was at `now`: not at all, if it was later.
pub open spec fn elapsed(now: u64, then: u64) -> int {
    if now >= then {
        now - then
    } else {
        0
    }
}

/// The message by which this side says that it comes or goes.
pub open spec fn presence<C>(r: RoomView<C>, action: PresenceAction) -> ChatMessageView {
    ChatMessageView::UserPresence { action, user_id: r.local, user_name: r.name }
}

/// The message by which this side says something in the room.
pub open spec fn utterance<C>(
    r: RoomView<C>,
    content: Seq<char>,
    timestamp: u64,
) -> ChatMessageView {
    ChatMessageView::UserMessage { sender_id: r.local, sender_name: r.name, content, timestamp }
}

/// What starts a discovery: nothing, if there is no rendezvous server.
pub open spec fn discovery<C>(r: RoomView<C>) -> Seq<ChatActionView<C>> {
    match r.server {
        Some(server) => seq![
            tell(ChatNotice::DiscoveryStarting { server }),
            ChatActionView::Discover { server, namespace: namespace(), limit: DISCOVERY_LIMIT },
            tell(ChatNotice::DiscoveryStarted),
        ],
        None => seq![],
    }
}

/// The room once a discovery was started at a given time.
pub open spec fn discovering<C>(r: RoomView<C>, at: u64) -> RoomView<C> {
    if r.server is Some {
        RoomView { last_discovery_time: Some(at), ..r }
    } else {
        r
    }
}

/// At the beginning of a turn: a room that listens and is not registered dials its server, or
/// registers with it once it is connected.
pub open spec fn registration_turn<C>(r: RoomView<C>) -> (RoomView<C>, Seq<ChatActionView<C>>) {
    match r.server {
        Some(server) if r.listening && !r.registered => {
            if !r.server_connected {
                (r, seq![ChatActionView::DialServer { address: peer_address(server) }])
            } else if !r.attempted {
                (RoomView { attempted: true, ..r }, seq![ChatActionView::Register { server }])
            } else {
                (r, seq![])
            }
        },
        _ => (r, seq![]),
    }
}

/// At the beginning of a turn: presence is announced once the heartbeat interval is over.
pub open spec fn heartbeat_turn<C>(r: RoomView<C>) -> (RoomView<C>, Seq<ChatActionView<C>>) {
    if elapsed(r.turn_start, r.last_heartbeat) > HEARTBEAT_INTERVAL {
        (
            RoomView { last_heartbeat: r.turn_start, ..r },
            seq![ChatActionView::Announce(presence(r, PresenceAction::Join))],
        )
    } else {
        (r, seq![])
    }
}

/// At the beginning of a turn: a registered room discovers peers once the interval is over.
pub open spec fn discovery_turn<C>(r: RoomView<C>) -> (RoomView<C>, Seq<ChatActionView<C>>) {
    if r.registered && r.server is Some && elapsed(r.turn_start, r.last_discovery)
        > DISCOVERY_INTERVAL {
        (RoomView { last_discovery: r.turn_start, ..discovering(r, r.turn_start) }, discovery(r))
    } else {
        (r, seq![])
    }
}

/// What the beginning of a turn does.
pub open spec fn turn<C>(r: RoomView<C>, now: u64) -> (RoomView<C>, Seq<ChatActionView<C>>) {
    let (r1, a1) = registration_turn(RoomView { turn_start: now, ..r });
    let (r2, a2) = heartbeat_turn(r1);
    let (r3, a3) = discovery_turn(r2);
    (r3, a1 + a2 + a3)
}

/// The numbered rows of the list of peers.
pub open spec fn peer_rows<C>(peers: Seq<(Seq<char>, Seq<char>)>) -> Seq<ChatActionView<C>> {
    Seq::new(
        peers.len(),
        |i: int|
            tell(
                ChatNotice::PeerRow {
                    number: (i + 1) as usize,
                    name: peers[i].1,
                    peer: peers[i].0,
                },
            ),
    )
}

/// What is told when the user asks who is there.
pub open spec fn peers_told<C>(peers: Seq<(Seq<char>, Seq<char>)>) -> Seq<ChatActionView<C>> {
    if peers.len() == 0 {
        seq![tell(ChatNotice::NoPeersInRoom)]
    } else {
        seq![tell(ChatNotice::PeersHeading)] + peer_rows(peers) + seq![tell(ChatNotice::PeersEnd)]
    }
}

/// What asks a peer for a barter session.
pub open spec fn barter_asked<C>(peer: Seq<char>) -> Seq<ChatActionView<C>> {
    seq![tell(ChatNotice::SendingRequest { peer })] + match parsed_peer_id(peer) {
        Ok(id) => seq![
            ChatActionView::Propose {
                peer: id,
                request: BarterNegotiationRequest::ProposeBarterSession,
            },
            tell(ChatNotice::RequestSent),
        ],
        Err(reason) => seq![tell(ChatNotice::RequestNotSent { reason })],
    }
}

/// What `/barter` does: it asks the connected peer with that id.
pub open spec fn barter_command<C>(r: RoomView<C>, argument: Option<Seq<char>>) -> Seq<
    ChatActionView<C>,
> {
    match argument {
        None => seq![tell(ChatNotice::BarterUsage)],
        Some(text) => {
            let peer = trimmed(text);
            if holds(r.peers, peer) {
                barter_asked(peer)
            } else {
                seq![tell(ChatNotice::PeerNotFound { peer })]
            }
        },
    }
}

/// The position of the first peer whose user has this name, or the number of peers if there is
/// none.
pub open spec fn position_of_name(peers: Seq<(Seq<char>, Seq<char>)>, name: Seq<char>) -> int
    decreases peers.len(),
{
    if peers.len() == 0 || peers[0].1 == name {
        0
    } else {
        1 + position_of_name(peers.skip(1), name)
    }
}

/// The connected peer that a text means: the one with that id, or else the first whose user has
/// that name.
pub open spec fn addressee(peers: Seq<(Seq<char>, Seq<char>)>, text: Seq<char>) -> Option<
    Seq<char>,
> {
    if holds(peers, text) {
        Some(text)
    } else if position_of_name(peers, text) < peers.len() {
        Some(peers[position_of_name(peers, text)].0)
    } else {
        None
    }
}

/// What `/dm` does: it asks the connected peer that is meant.
pub open spec fn dm_command<C>(r: RoomView<C>, argument: Option<Seq<char>>) -> Seq<
    ChatActionView<C>,
> {
    match argument {
        None => seq![tell(ChatNotice::DmUsage)],
        Some(text) => match addressee(r.peers, trimmed(text)) {
            Some(peer) => barter_asked(peer),
            None => seq![tell(ChatNotice::PeerNotFound { peer: trimmed(text) })],
        },
    }
}

/// What `/discover` does.
pub open spec fn discover_command<C>(r: RoomView<C>, at: u64) -> (
    RoomView<C>,
    Seq<ChatActionView<C>>,
) {
    if r.server is Some {
        (
            RoomView { last_discovery: at, ..discovering(r, at) },
            discovery(r) + seq![tell(ChatNotice::Discovering)],
        )
    } else {
        (r, seq![tell(ChatNotice::NoServer)])
    }
}

/// What `/accept` does: the direct request that waits is answered with the addresses of the
/// session, and the room is left for it.
pub open spec fn accept_command<C>(r: RoomView<C>, local_ip: Option<Seq<char>>) -> (
    RoomView<C>,
    Seq<ChatActionView<C>>,
) {
    match r.request {
        None => (r, seq![tell(ChatNotice::NothingToAccept)]),
        Some((peer, name)) => {
            if parsed_peer_id(peer) is Err {
                (r, seq![tell(ChatNotice::CannotAccept)])
            } else {
                (
                    RoomView { channel: None, ..r },
                    seq![tell(ChatNotice::SwitchingToBarter { peer })] + (match r.channel {
                        Some((asker, channel)) if asker == peer => seq![
                            ChatActionView::Respond {
                                channel,
                                response: BarterNegotiationResponseView::Accept {
                                    addrs: barter_addresses(local_ip, BARTER_PORT),
                                },
                            },
                        ],
                        _ => seq![],
                    }) + seq![
                        ChatActionView::Exit(
                            ChatRoomExitView::AcceptBarterAsAcceptor {
                                peer_id: peer,
                                peer_name: name,
                            },
                        ),
                    ],
                )
            }
        },
    }
}

/// What entering the room does: this side announces that it is there. Nothing counts as known of
/// the network yet, neither that an address is being listened on nor anything of the rendezvous
/// server, and the time to the next discovery begins to run.
pub open spec fn entered<C>(r: RoomView<C>, at: u64) -> (RoomView<C>, Seq<ChatActionView<C>>) {
    (
        RoomView {
            last_discovery: at,
            listening: false,
            registered: false,
            attempted: false,
            server_connected: false,
            ..r
        },
        seq![ChatActionView::Announce(presence(r, PresenceAction::Join))],
    )
}

/// What `/quit` does: this side takes leave.
pub open spec fn quit_command<C>(r: RoomView<C>) -> Seq<ChatActionView<C>> {
    seq![ChatActionView::TakeLeave(presence(r, PresenceAction::Leave))]
}

/// What follows once this side has taken leave, whether or not that could be published: it takes
/// back its registration, and the room is left.
pub open spec fn left<C>(r: RoomView<C>, published: bool) -> Seq<ChatActionView<C>> {
    (match r.server {
        Some(server) => seq![ChatActionView::Unregister { server, namespace: namespace() }],
        None => seq![],
    }) + seq![tell(ChatNotice::Leaving), ChatActionView::Exit(ChatRoomExitView::Quit)]
}

/// What something that the user says does, at the time of day that the clock shows, if any.
pub open spec fn said<C>(r: RoomView<C>, line: Seq<char>, timestamp: Option<u64>) -> Seq<
    ChatActionView<C>,
> {
    match timestamp {
        Some(time) => seq![ChatActionView::Say(utterance(r, line, time))],
        None => seq![tell(ChatNotice::NoClock)],
    }
}

/// What a line that the user types does. `at` is the time; `local_ip` and `timestamp` are what
/// the machine gives as its address and as the time of day.
pub open spec fn chat_line<C>(
    r: RoomView<C>,
    line: Seq<char>,
    at: u64,
    local_ip: Option<Seq<char>>,
    timestamp: Option<u64>,
) -> (RoomView<C>, Seq<ChatActionView<C>>) {
    let command = before_first(line, ' ');
    let argument = after_first(line, ' ');
    if !begins_with(line, "/"@) {
        (r, said(r, line, timestamp))
    } else if command == "/help"@ {
        (r, seq![tell(ChatNotice::Help)])
    } else if command == "/peers"@ {
        (r, peers_told(r.peers))
    } else if command == "/dm"@ {
        (r, dm_command(r, argument))
    } else if command == "/barter"@ {
        (r, barter_command(r, argument))
    } else if command == "/discover"@ {
        discover_command(r, at)
    } else if command == "/accept"@ {
        accept_command(r, local_ip)
    } else if command == "/quit"@ {
        (r, quit_command(r))
    } else {
        (r, seq![tell(ChatNotice::UnknownCommand)])
    }
}

/// What a new connection does.
pub open spec fn on_connected<C>(r: RoomView<C>, peer: Seq<char>) -> (
    RoomView<C>,
    Seq<ChatActionView<C>>,
) {
    let peers = if holds(r.peers, peer) {
        r.peers
    } else {
        with(r.peers, peer, "Connected (awaiting username)"@)
    };
    let told = seq![
        tell(ChatNotice::ConnectionEstablished { peer }),
        ChatActionView::Announce(presence(r, PresenceAction::Join)),
    ];
    if r.server == Some(peer) {
        (
            RoomView { peers, server_connected: true, attempted: true, ..r },
            told + seq![
                tell(ChatNotice::ConnectedToServer { server: peer }),
                ChatActionView::Pause { millis: SETTLING_MILLIS },
            ] + if r.attempted {
                seq![]
            } else {
                seq![ChatActionView::Register { server: peer }]
            },
        )
    } else {
        (RoomView { peers, ..r }, told)
    }
}

/// What the end of a connection does.
pub open spec fn on_closed<C>(r: RoomView<C>, peer: Seq<char>) -> (
    RoomView<C>,
    Seq<ChatActionView<C>>,
) {
    let told = seq![
        match lookup(r.peers, peer) {
            Some(name) => tell(ChatNotice::PeerDisconnected { name, peer }),
            None => tell(ChatNotice::ConnectionClosed { peer }),
        },
    ];
    let after = RoomView { peers: without(r.peers, peer), ..r };
    if r.server == Some(peer) {
        (
            RoomView { server_connected: false, registered: false, ..after },
            told.push(tell(ChatNotice::DisconnectedFromServer { server: peer })),
        )
    } else {
        (after, told)
    }
}

/// What one registered peer does: unless it is this side or is connected, it is remembered and
/// dialled.
pub open spec fn on_registration<C>(r: RoomView<C>, found: RegistrationView) -> (
    RoomView<C>,
    Seq<ChatActionView<C>>,
) {
    if found.peer == r.local {
        (r, seq![])
    } else {
        let told = tell(
            ChatNotice::PeerFound {
                peer: found.peer,
                namespace: found.namespace,
                ttl: found.ttl,
            },
        );
        if holds(r.peers, found.peer) {
            (r, seq![told])
        } else {
            (
                RoomView { discovered: with(r.discovered, found.peer, found.addrs), ..r },
                seq![
                    told,
                    if found.addrs.len() == 0 {
                        tell(ChatNotice::NoAddresses { peer: found.peer })
                    } else {
                        ChatActionView::DialPeer { peer: found.peer, addrs: found.addrs }
                    },
                ],
            )
        }
    }
}

/// What the first `n` of a list of registered peers do, one after the other.
pub open spec fn on_registrations<C>(r: RoomView<C>, found: Seq<RegistrationView>, n: nat) -> (
    RoomView<C>,
    Seq<ChatActionView<C>>,
)
    decreases n,
{
    if n == 0 {
        (r, seq![])
    } else {
        let (r1, a1) = on_registrations(r, found, (n - 1) as nat);
        let (r2, a2) = on_registration(r1, found[n - 1]);
        (r2, a1 + a2)
    }
}

/// What someone's coming or going does first: it causes a discovery, unless the last one was a
/// short while ago.
pub open spec fn presence_discovery<C>(r: RoomView<C>, at: u64) -> (
    RoomView<C>,
    Seq<ChatActionView<C>>,
) {
    if elapsed(r.turn_start, r.last_discovery) > MIN_DISCOVERY_INTERVAL {
        (RoomView { last_discovery: r.turn_start, ..discovering(r, at) }, discovery(r))
    } else {
        (r, seq![])
    }
}

/// What the coming of another user does: they are listed under their name, and greeted if they
/// are the only one.
pub open spec fn on_join<C>(r: RoomView<C>, id: Seq<char>, name: Seq<char>) -> (
    RoomView<C>,
    Seq<ChatActionView<C>>,
) {
    match parsed_peer_id(id) {
        Err(reason) => (r, seq![tell(ChatNotice::InvalidPresence { reason })]),
        Ok(peer) => {
            let after = RoomView { peers: with(r.peers, peer, name), ..r };
            (
                after,
                (if holds(r.peers, peer) {
                    seq![]
                } else {
                    seq![tell(ChatNotice::UserJoined { name, peer })]
                }) + (if after.peers.len() == 1 {
                    seq![ChatActionView::Announce(presence(r, PresenceAction::Join))]
                } else {
                    seq![]
                }),
            )
        },
    }
}

/// What the going of another user does.
pub open spec fn on_leave<C>(r: RoomView<C>, id: Seq<char>, name: Seq<char>) -> (
    RoomView<C>,
    Seq<ChatActionView<C>>,
) {
    match parsed_peer_id(id) {
        Err(_) => (r, seq![]),
        Ok(peer) => (
            RoomView { peers: without(r.peers, peer), ..r },
            if holds(r.peers, peer) {
                seq![tell(ChatNotice::UserLeft { name, peer })]
            } else {
                seq![]
            },
        ),
    }
}

/// The name of the user of a peer, as far as it is known.
pub open spec fn name_of<C>(r: RoomView<C>, id: Seq<char>) -> Seq<char> {
    match parsed_peer_id(id) {
        Ok(peer) => match lookup(r.peers, peer) {
            Some(name) => name,
            None => "Unknown"@,
        },
        Err(_) => "Unknown"@,
    }
}

/// What a message in the room does when it comes at a given time.
pub open spec fn on_message<C>(r: RoomView<C>, message: ChatMessageView, at: u64) -> (
    RoomView<C>,
    Seq<ChatActionView<C>>,
) {
    match message {
        ChatMessageView::UserMessage { sender_id, sender_name, content, timestamp } => (
            r,
            if sender_id == r.local {
                seq![]
            } else {
                seq![
                    tell(
                        ChatNotice::UserMessage {
                            time: clock_text(timestamp),
                            name: sender_name,
                            content,
                        },
                    ),
                ]
            },
        ),
        ChatMessageView::UserPresence { action, user_id, user_name } => {
            if user_id == r.local {
                (r, seq![])
            } else {
                let (r1, a1) = presence_discovery(r, at);
                let (r2, a2) = match action {
                    PresenceAction::Join => on_join(r1, user_id, user_name),
                    PresenceAction::Leave => on_leave(r1, user_id, user_name),
                };
                (r2, a1 + a2)
            }
        },
        ChatMessageView::BarterRequest { from_id, from_name, to_id } => {
            if to_id == r.local {
                (
                    RoomView {
                        request: Some((from_id, from_name)),
                        channel: match r.channel {
                            Some((asker, channel)) if asker == from_id => Some((asker, channel)),
                            _ => None,
                        },
                        ..r
                    },
                    seq![tell(ChatNotice::BarterRequested { name: from_name, peer: from_id })],
                )
            } else if from_id != r.local {
                (r, seq![tell(ChatNotice::OthersBarter { from: from_name, to: name_of(r, to_id) })])
            } else {
                (r, seq![])
            }
        },
        ChatMessageView::BarterAccepted { from_id, from_name, to_id, addrs } => (
            r,
            if to_id == r.local {
                seq![
                    tell(ChatNotice::BarterAccepted { name: from_name, addrs }),
                    ChatActionView::Exit(
                        ChatRoomExitView::AcceptBarter {
                            peer_id: from_id,
                            addr: Some(joined(addrs, ","@)),
                        },
                    ),
                ]
            } else {
                seq![]
            },
        ),
    }
}

/// What a direct request for a barter session does: it waits for the user's answer, in place of
/// any earlier one.
pub open spec fn on_proposed<C>(r: RoomView<C>, peer: Seq<char>, channel: C) -> (
    RoomView<C>,
    Seq<ChatActionView<C>>,
) {
    let name = match lookup(r.peers, peer) {
        Some(name) => name,
        None => "Unknown User"@,
    };
    (
        RoomView { request: Some((peer, name)), channel: Some((peer, channel)), ..r },
        seq![tell(ChatNotice::DirectRequest { name, peer })],
    )
}

/// What the answer to a request for a barter session does: if it was accepted, the room is left
/// for the session once the user presses Enter.
pub open spec fn on_answered<C>(peer: Seq<char>, response: BarterNegotiationResponseView) -> Seq<
    ChatActionView<C>,
> {
    match response {
        BarterNegotiationResponseView::Accept { addrs } => seq![
            tell(ChatNotice::RequestAccepted),
            ChatActionView::AwaitEnter,
            ChatActionView::Exit(
                ChatRoomExitView::AcceptBarter {
                    peer_id: peer,
                    addr: Some(joined(addrs, ","@)),
                },
            ),
        ],
        BarterNegotiationResponseView::Decline => seq![tell(ChatNotice::RequestDeclined)],
    }
}

/// What an event of the network does. `at` is the time.
pub open spec fn chat_event<C>(r: RoomView<C>, event: ChatEventView<C>, at: u64) -> (
    RoomView<C>,
    Seq<ChatActionView<C>>,
) {
    match event {
        ChatEventView::Listening { address } => (
            RoomView { listening: true, ..r },
            seq![tell(ChatNotice::Listening { address })],
        ),
        ChatEventView::Connected { peer } => on_connected(r, peer),
        ChatEventView::Closed { peer } => on_closed(r, peer),
        ChatEventView::Discovered { server, registrations } => {
            let (after, actions) = on_registrations(r, registrations, registrations.len());
            (
                after,
                seq![tell(ChatNotice::Discovered { count: registrations.len() as usize, server })]
                    + actions,
            )
        },
        ChatEventView::DiscoverFailed { server, in_namespace, error } => (
            r,
            seq![tell(ChatNotice::DiscoveryFailed { server, in_namespace, error })],
        ),
        ChatEventView::Registered { server, namespace, ttl } => (
            RoomView { registered: true, last_discovery: at, ..r },
            seq![
                tell(ChatNotice::Registered { server, namespace, ttl }),
                ChatActionView::Discover { server, namespace, limit: DISCOVERY_LIMIT },
                tell(ChatNotice::DiscoveryAfterRegistration),
            ],
        ),
        ChatEventView::RegisterFailed { server, namespace, error } => (
            RoomView { attempted: false, ..r },
            seq![tell(ChatNotice::RegistrationFailed { server, namespace, error })],
        ),
        ChatEventView::Expired { peer } => (
            RoomView { discovered: without(r.discovered, peer), ..r },
            seq![
                tell(ChatNotice::RegistrationExpired { peer, connected: holds(r.peers, peer) }),
            ],
        ),
        ChatEventView::Heard { message } => on_message(r, message, at),
        ChatEventView::Proposed { peer, channel, request } => on_proposed(r, peer, channel),
        ChatEventView::Answered { peer, response } => (r, on_answered(peer, response)),
    }
}

/// A list of addresses.
pub struct AddressList(Vec<String>);

impl View for AddressList {
    type V = Seq<Seq<char>>;

    closed spec fn view(&self) -> Seq<Seq<char>> {
        texts(self.0@)
    }
}

/// The chat room. `C` is the channel on which a request is answered.
pub struct ChatRoom<C> {
    local_peer_id: String,
    user_name: String,
    connected_peers: PeerTable<String>,
    pending_barter_request: Option<(String, String)>,
    pending_barter_channel: Option<(String, C)>,
    rendezvous_server: Option<String>,
    discovered_peers: PeerTable<AddressList>,
    last_heartbeat: u64,
    last_discovery: u64,
    last_discovery_time: Option<u64>,
    turn_start: u64,
    listening: bool,
    rendezvous_registered: bool,
    registration_attempted: bool,
    connected_to_rendezvous: bool,
}

impl<C> View for ChatRoom<C> {
    type V = RoomView<C>;

    closed spec fn view(&self) -> RoomView<C> {
        RoomView {
            local: self.local_peer_id@,
            name: self.user_name@,
            peers: self.connected_peers@,
            request: match self.pending_barter_request {
                Some((peer, name)) => Some((peer@, name@)),
                None => None,
            },
            channel: match self.pending_barter_channel {
                Some((asker, channel)) => Some((asker@, channel)),
                None => None,
            },
            server: optional_text(self.rendezvous_server),
            discovered: self.discovered_peers@,
            last_heartbeat: self.last_heartbeat,
            last_discovery: self.last_discovery,
            last_discovery_time: self.last_discovery_time,
            turn_start: self.turn_start,
            listening: self.listening,
            registered: self.rendezvous_registered,
            attempted: self.registration_attempted,
            server_connected: self.connected_to_rendezvous,
        }
    }
}

/// Tells whether more than `interval` has passed at `now` since `then`.
fn is_over(now: u64, then: u64, interval: u64) -> (r: bool)
    ensures
        r == (elapsed(now, then) > interval),
{
    now >= then && now - then > interval
}

/// The namespace under which peers find one another, as the rendezvous protocol takes it. The
/// protocol takes it: it is short enough.
pub fn rendezvous_namespace() -> (r: Result<String, RendezvousFailure<String>>)
    ensures
        r matches Ok(name) && name@ == namespace(),
{
    proof {
        reveal_strlit("p2p-file-barter");
        assert(vstd::utf8::is_ascii_chars(namespace()));
        vstd::utf8::is_ascii_chars_encode_utf8(namespace());
    }
    match new_namespace("p2p-file-barter") {
        Ok(name) => Ok(name),
        Err(_) => Err(RendezvousFailure::InvalidNamespace),
    }
}

impl<C> ChatRoom<C> {
    fn presence_message(&self, action: PresenceAction) -> (r: ChatMessage)
        ensures
            r@ == presence(self@, action),
    {
        ChatMessage::UserPresence {
            action,
            user_id: self.local_peer_id.clone(),
            user_name: self.user_name.clone(),
        }
    }

    /// The message by which this side announces that it is there.
    pub fn announce_presence(&self) -> (r: ChatMessage)
        ensures
            r@ == presence(self@, PresenceAction::Join),
    {
        self.presence_message(PresenceAction::Join)
    }

    /// The message by which this side says something at a given time of day.
    pub fn compose_message(&self, content: String, timestamp: u64) -> (r: ChatMessage)
        ensures
            r@ == utterance(self@, content@, timestamp),
    {
        ChatMessage::UserMessage {
            sender_id: self.local_peer_id.clone(),
            sender_name: self.user_name.clone(),
            content,
            timestamp,
        }
    }

    /// Starts a discovery at a given time; there has to be a rendezvous server.
    pub fn discover_peers(&mut self, at: u64) -> (r: Result<
        Vec<ChatAction<C>>,
        RendezvousFailure<String>,
    >)
        ensures
            final(self)@ == discovering(old(self)@, at),
            match r {
                Ok(actions) => old(self)@.server is Some && contents(actions@) == discovery(
                    old(self)@,
                ),
                Err(failure) => old(self)@.server is None && failure is NoServer,
            },
    {
        match &self.rendezvous_server {
            Some(server) => match rendezvous_namespace() {
                Ok(namespace) => {
                    let actions = vec![
                        ChatAction::Tell(ChatNotice::DiscoveryStarting { server: server.clone() }),
                        ChatAction::Discover {
                            server: server.clone(),
                            namespace,
                            limit: DISCOVERY_LIMIT,
                        },
                        ChatAction::Tell(ChatNotice::DiscoveryStarted),
                    ];
                    self.last_discovery_time = Some(at);
                    Ok(actions)
                },
                Err(failure) => Err(failure),
            },
            None => Err(RendezvousFailure::NoServer),
        }
    }

    /// When this side last asked its rendezvous server for peers, if it has.
    pub fn last_discovery_time(&self) -> (r: Option<u64>)
        ensures
            r == self@.last_discovery_time,
    {
        self.last_discovery_time
    }

    /// Starts a discovery at a given time, if there is a rendezvous server.
    fn try_discovery(&mut self, at: u64) -> (r: Vec<ChatAction<C>>)
        ensures
            final(self)@ == discovering(old(self)@, at),
            contents(r@) == discovery(old(self)@),
    {
        match self.discover_peers(at) {
            Ok(actions) => actions,
            Err(_) => vec![],
        }
    }

    /// Begins a turn, before a line or an event is waited for.
    pub fn begin_turn(&mut self, now: u64) -> (r: Vec<ChatAction<C>>)
        requires
            old(self)@.well_formed(),
        ensures
            final(self)@ == turn(old(self)@, now).0,
            contents(r@) == turn(old(self)@, now).1,
            final(self)@.well_formed(),
    {
        self.turn_start = now;
        let mut actions: Vec<ChatAction<C>> = Vec::new();
        let ghost r1 = registration_turn(self@);
        if let Some(server) = &self.rendezvous_server {
            if self.listening && !self.rendezvous_registered {
                if !self.connected_to_rendezvous {
                    actions.push(
                        ChatAction::DialServer { address: address_of_peer(server.as_str()) },
                    );
                } else if !self.registration_attempted {
                    actions.push(ChatAction::Register { server: server.clone() });
                    self.registration_attempted = true;
                }
            }
        }
        assert(contents(actions@) =~= r1.1);
        assert(self@ == r1.0);
        let ghost r2 = heartbeat_turn(self@);
        if is_over(now, self.last_heartbeat, HEARTBEAT_INTERVAL) {
            actions.push(ChatAction::Announce(self.announce_presence()));
            self.last_heartbeat = now;
        }
        assert(contents(actions@) =~= r1.1 + r2.1);
        assert(self@ == r2.0);
        if self.rendezvous_registered && self.rendezvous_server.is_some() && is_over(
            now,
            self.last_discovery,
            DISCOVERY_INTERVAL,
        ) {
            let mut more = self.try_discovery(now);
            actions.append(&mut more);
            self.last_discovery = now;
        }
        assert(contents(actions@) =~= r1.1 + r2.1 + discovery_turn(r2.0).1);
        actions
    }

    fn tell_peers(&self) -> (r: Vec<ChatAction<C>>)
        ensures
            contents(r@) == peers_told::<C>(self@.peers),
    {
        let n: usize = self.connected_peers.len();
        if n == 0 {
            return vec![ChatAction::Tell(ChatNotice::NoPeersInRoom)];
        }
        let mut list: Vec<ChatAction<C>> = vec![ChatAction::Tell(ChatNotice::PeersHeading)];
        let mut i: usize = 0;
        while i < n
            invariant
                n == self@.peers.len(),
                i <= n,
                contents(list@) == seq![tell::<C>(ChatNotice::PeersHeading)] + peer_rows::<C>(
                    self@.peers,
                ).take(i as int),
            decreases n - i,
        {
            let ghost rows = peer_rows::<C>(self@.peers);
            let row = ChatAction::Tell(
                ChatNotice::PeerRow {
                    number: i + 1,
                    name: self.connected_peers.value(i).clone(),
                    peer: self.connected_peers.peer(i).clone(),
                },
            );
            assert(row@ == rows[i as int]);
            let ghost before = contents(list@);
            list.push(row);
            assert(contents(list@) == before.push(rows[i as int]));
            assert(rows.take(i + 1) =~= rows.take(i as int).push(rows[i as int]));
            i = i + 1;
        }
        list.push(ChatAction::Tell(ChatNotice::PeersEnd));
        assert(peer_rows::<C>(self@.peers).take(i as int) =~= peer_rows::<C>(self@.peers));
        list
    }

    /// The request for a barter session with a peer, which has to be named by its id.
    pub fn send_barter_negotiation_request(&self, peer_id: &str) -> (r: Result<
        ChatAction<C>,
        String,
    >)
        ensures
            match r {
                Ok(action) => parsed_peer_id(peer_id@) matches Ok(id) && action@
                    == ChatActionView::<C>::Propose {
                    peer: id,
                    request: BarterNegotiationRequest::ProposeBarterSession,
                },
                Err(reason) => parsed_peer_id(peer_id@) == Err::<Seq<char>, Seq<char>>(reason@),
            },
    {
        match parse_peer_id(peer_id) {
            Ok(peer) => Ok(
                ChatAction::Propose {
                    peer,
                    request: BarterNegotiationRequest::ProposeBarterSession,
                },
            ),
            Err(reason) => Err(reason),
        }
    }

    fn ask_for_barter(&self, peer: &str) -> (r: Vec<ChatAction<C>>)
        ensures
            contents(r@) == barter_asked::<C>(peer@),
    {
        let told = ChatAction::Tell(ChatNotice::SendingRequest { peer: peer.to_owned() });
        let r = match self.send_barter_negotiation_request(peer) {
            Ok(action) => vec![told, action, ChatAction::Tell(ChatNotice::RequestSent)],
            Err(reason) => vec![told, ChatAction::Tell(ChatNotice::RequestNotSent { reason })],
        };
        assert(contents(r@) =~= barter_asked::<C>(peer@));
        r
    }

    fn command_barter(&self, argument: Option<String>) -> (r: Vec<ChatAction<C>>)
        ensures
            contents(r@) == barter_command(self@, optional_text(argument)),
    {
        match argument {
            None => vec![ChatAction::Tell(ChatNotice::BarterUsage)],
            Some(text) => {
                let peer = trim(text.as_str());
                if self.connected_peers.contains(peer.as_str()) {
                    self.ask_for_barter(peer.as_str())
                } else {
                    vec![ChatAction::Tell(ChatNotice::PeerNotFound { peer })]
                }
            },
        }
    }

    /// The connected peer that a text means, by its id or by its user's name.
    pub fn find_addressee(&self, text: &str) -> (r: Option<String>)
        ensures
            optional_text(r) == addressee(self@.peers, text@),
    {
        if self.connected_peers.contains(text) {
            return Some(text.to_owned());
        }
        let n: usize = self.connected_peers.len();
        let mut i: usize = 0;
        let ghost peers = self@.peers;
        assert(peers.skip(0) =~= peers);
        while i < n
            invariant
                n == peers.len(),
                peers == self@.peers,
                i <= n,
                !holds(peers, text@),
                position_of_name(peers, text@) == i + position_of_name(peers.skip(i as int), text@),
            decreases n - i,
        {
            assert(peers.skip(i as int).skip(1) =~= peers.skip(i + 1));
            if same_text(self.connected_peers.value(i).as_str(), text) {
                return Some(self.connected_peers.peer(i).clone());
            }
            i = i + 1;
        }
        None
    }

    fn command_dm(&self, argument: Option<String>) -> (r: Vec<ChatAction<C>>)
        ensures
            contents(r@) == dm_command(self@, optional_text(argument)),
    {
        match argument {
            None => vec![ChatAction::Tell(ChatNotice::DmUsage)],
            Some(text) => {
                let meant = trim(text.as_str());
                match self.find_addressee(meant.as_str()) {
                    Some(peer) => self.ask_for_barter(peer.as_str()),
                    None => vec![ChatAction::Tell(ChatNotice::PeerNotFound { peer: meant })],
                }
            },
        }
    }

    fn command_discover(&mut self, at: u64) -> (r: Vec<ChatAction<C>>)
        ensures
            final(self)@ == discover_command(old(self)@, at).0,
            contents(r@) == discover_command(old(self)@, at).1,
    {
        match self.discover_peers(at) {
            Ok(mut actions) => {
                actions.push(ChatAction::Tell(ChatNotice::Discovering));
                self.last_discovery = at;
                assert(contents(actions@) =~= discover_command(old(self)@, at).1);
                actions
            },
            Err(_) => vec![ChatAction::Tell(ChatNotice::NoServer)],
        }
    }

    fn command_accept(&mut self, local_ip: &Option<String>) -> (r: Vec<ChatAction<C>>)
        ensures
            final(self)@ == accept_command(old(self)@, optional_text(*local_ip)).0,
            contents(r@) == accept_command(old(self)@, optional_text(*local_ip)).1,
    {
        let (peer_id, peer_name) = match &self.pending_barter_request {
            Some((peer, name)) => (peer.clone(), name.clone()),
            None => {
                return vec![ChatAction::Tell(ChatNotice::NothingToAccept)];
            },
        };
        if parse_peer_id(peer_id.as_str()).is_err() {
            return vec![ChatAction::Tell(ChatNotice::CannotAccept)];
        }
        let mut actions: Vec<ChatAction<C>> = vec![
            ChatAction::Tell(ChatNotice::SwitchingToBarter { peer: peer_id.clone() }),
        ];
        if let Some((asker, channel)) = self.pending_barter_channel.take() {
            if same_text(asker.as_str(), peer_id.as_str()) {
                let addrs = list_barter_addresses(local_ip, BARTER_PORT);
                actions.push(
                    ChatAction::Respond {
                        channel,
                        response: BarterNegotiationResponse::Accept { addrs },
                    },
                );
            }
        }
        actions.push(ChatAction::Exit(ChatRoomExit::AcceptBarterAsAcceptor { peer_id, peer_name }));
        assert(contents(actions@) =~= accept_command(old(self)@, optional_text(*local_ip)).1);
        actions
    }

    /// Enters the room at a given time, for the first time or again.
    pub fn enter(&mut self, at: u64) -> (r: Vec<ChatAction<C>>)
        requires
            old(self)@.well_formed(),
        ensures
            final(self)@ == entered(old(self)@, at).0,
            contents(r@) == entered(old(self)@, at).1,
            final(self)@.well_formed(),
    {
        self.last_discovery = at;
        self.listening = false;
        self.rendezvous_registered = false;
        self.registration_attempted = false;
        self.connected_to_rendezvous = false;
        vec![ChatAction::Announce(self.announce_presence())]
    }

    fn say(&self, line: &str, timestamp: Option<u64>) -> (r: Vec<ChatAction<C>>)
        ensures
            contents(r@) == said(self@, line@, timestamp),
    {
        match timestamp {
            Some(time) => vec![ChatAction::Say(self.compose_message(line.to_owned(), time))],
            None => vec![ChatAction::Tell(ChatNotice::NoClock)],
        }
    }

    fn command_quit(&self) -> (r: Vec<ChatAction<C>>)
        ensures
            contents(r@) == quit_command(self@),
    {
        vec![ChatAction::TakeLeave(self.presence_message(PresenceAction::Leave))]
    }

    /// Says what follows once this side has taken leave and it is known whether that could be
    /// published: the room is left in any case.
    pub fn leave_published(&self, published: bool) -> (r: Vec<ChatAction<C>>)
        ensures
            contents(r@) == left(self@, published),
    {
        let mut actions: Vec<ChatAction<C>> = Vec::new();
        if let Some(server) = &self.rendezvous_server {
            if let Ok(namespace) = rendezvous_namespace() {
                actions.push(ChatAction::Unregister { server: server.clone(), namespace });
            }
        }
        actions.push(ChatAction::Tell(ChatNotice::Leaving));
        actions.push(ChatAction::Exit(ChatRoomExit::Quit));
        assert(contents(actions@) =~= left(self@, published));
        actions
    }

    /// Takes a line that the user types: a command, or something to say to everyone. `local_ip`
    /// is the address of this machine, `timestamp` the time of day.
    pub fn handle_line_at(
        &mut self,
        line: &str,
        at: u64,
        local_ip: &Option<String>,
        timestamp: Option<u64>,
    ) -> (r: Vec<ChatAction<C>>)
        requires
            old(self)@.well_formed(),
        ensures
            final(self)@ == chat_line(old(self)@, line@, at, optional_text(*local_ip), timestamp).0,
            contents(r@) == chat_line(old(self)@, line@, at, optional_text(*local_ip), timestamp).1,
            final(self)@.well_formed(),
    {
        if !starts_with(line, "/") {
            return self.say(line, timestamp);
        }
        let command = text_before_first(line, ' ');
        let argument = text_after_first(line, ' ');
        if same_text(command.as_str(), "/help") {
            vec![ChatAction::Tell(ChatNotice::Help)]
        } else if same_text(command.as_str(), "/peers") {
            self.tell_peers()
        } else if same_text(command.as_str(), "/dm") {
            self.command_dm(argument)
        } else if same_text(command.as_str(), "/barter") {
            self.command_barter(argument)
        } else if same_text(command.as_str(), "/discover") {
            self.command_discover(at)
        } else if same_text(command.as_str(), "/accept") {
            self.command_accept(local_ip)
        } else if same_text(command.as_str(), "/quit") {
            self.command_quit()
        } else {
            vec![ChatAction::Tell(ChatNotice::UnknownCommand)]
        }
    }

    /// Takes a line that the user types, with the address and the time of day that the machine
    /// gives.
    pub fn handle_line(&mut self, line: &str, at: u64) -> (r: Vec<ChatAction<C>>)
        requires
            old(self)@.well_formed(),
        ensures
            exists|ip: Option<Seq<char>>, timestamp: Option<u64>|
                (final(self)@, contents(r@)) == #[trigger] chat_line(
                    old(self)@,
                    line@,
                    at,
                    ip,
                    timestamp,
                ),
            final(self)@.well_formed(),
    {
        let ip: Option<String> = if same_text(text_before_first(line, ' ').as_str(), "/accept") {
            local_ip()
        } else {
            None
        };
        let timestamp: Option<u64> = if starts_with(line, "/") {
            None
        } else {
            time_of_message(usable_timestamp(seconds_since_1970()))
        };
        let r = self.handle_line_at(line, at, &ip, timestamp);
        assert((self@, contents(r@)) == chat_line(
            old(self)@,
            line@,
            at,
            optional_text(ip),
            timestamp,
        ));
        r
    }

    /// The message by which this side says something now. There is none if the clock shows no
    /// usable time.
    pub fn send_message(&self, content: String) -> (r: Option<ChatMessage>)
        ensures
            r matches Some(message) ==> exists|timestamp: u64|
                message@ == #[trigger] utterance(self@, content@, timestamp),
    {
        match time_of_message(usable_timestamp(seconds_since_1970())) {
            Some(timestamp) => {
                let message = self.compose_message(content, timestamp);
                assert(message@ == utterance(self@, content@, timestamp));
                Some(message)
            },
            None => None,
        }
    }

    /// Lists where a barter session on a port can be joined, with the address that the machine
    /// gives as its own, if any.
    pub fn collect_barter_addresses(&self, port: u16) -> (r: Vec<String>)
        ensures
            exists|ip: Option<Seq<char>>| texts(r@) == #[trigger] barter_addresses(ip, port),
    {
        let ip = local_ip();
        let r = list_barter_addresses(&ip, port);
        assert(texts(r@) == barter_addresses(optional_text(ip), port));
        r
    }

    /// Plans a registration with the rendezvous server: the steps before it, and whether it can
    /// go on after them. `listeners` are the addresses that are being listened on; the local IP
    /// address is what the machine gives as its own, if any.
    pub fn register_with_rendezvous(&self, listeners: &Vec<String>) -> (r: (
        Vec<AddressStep<String>>,
        Result<Registering, RendezvousFailure<String>>,
    ))
        ensures
            exists|ip: Option<Seq<char>>|
                ({
                    let plan = #[trigger] registration_plan(self@.server, texts(listeners@), ip);
                    &&& contents(r.0@) == plan.0
                    &&& match (r.1, plan.1) {
                        (Ok(going), Ok(peer)) => going@ == (RegisteringView {
                            server: peer,
                            namespace: namespace(),
                            stage: Stage::Unchecked,
                        }),
                        (Err(failure), Err(expected)) => failure@ == expected,
                        _ => false,
                    }
                }),
    {
        let ip = local_ip();
        let r = plan_registration(&self.rendezvous_server, listeners, &ip);
        assert(contents(r.0@) == registration_plan(
            self@.server,
            texts(listeners@),
            optional_text(ip),
        ).0);
        r
    }

    /// Says what follows once it is known whether something said in the room could be published.
    pub fn message_published(&self, published: bool) -> (r: SendOutcome)
        ensures
            r == send_outcome(self@, published),
    {
        if published {
            SendOutcome::Sent
        } else if self.connected_peers.len() == 0 {
            SendOutcome::NobodyThere
        } else {
            SendOutcome::Failed
        }
    }

    fn connected(&mut self, peer: String) -> (r: Vec<ChatAction<C>>)
        requires
            old(self)@.well_formed(),
        ensures
            final(self)@ == on_connected(old(self)@, peer@).0,
            contents(r@) == on_connected(old(self)@, peer@).1,
            final(self)@.well_formed(),
    {
        let mut actions: Vec<ChatAction<C>> = vec![
            ChatAction::Tell(ChatNotice::ConnectionEstablished { peer: peer.clone() }),
            ChatAction::Announce(self.announce_presence()),
        ];
        proof {
            law_with(self.connected_peers@, peer@, "Connected (awaiting username)"@);
        }
        if !self.connected_peers.contains(peer.as_str()) {
            self.connected_peers.insert(
                peer.clone(),
                "Connected (awaiting username)".to_owned(),
            );
        }
        if self.is_server(peer.as_str()) {
            self.connected_to_rendezvous = true;
            actions.push(
                ChatAction::Tell(ChatNotice::ConnectedToServer { server: peer.clone() }),
            );
            actions.push(ChatAction::Pause { millis: SETTLING_MILLIS });
            if !self.registration_attempted {
                self.registration_attempted = true;
                actions.push(ChatAction::Register { server: peer });
            }
        }
        assert(contents(actions@) =~= on_connected(old(self)@, peer@).1);
        actions
    }

    fn is_server(&self, peer: &str) -> (r: bool)
        ensures
            r == (self@.server == Some(peer@)),
    {
        match &self.rendezvous_server {
            Some(server) => same_text(server.as_str(), peer),
            None => false,
        }
    }

    fn closed(&mut self, peer: String) -> (r: Vec<ChatAction<C>>)
        requires
            old(self)@.well_formed(),
        ensures
            final(self)@ == on_closed(old(self)@, peer@).0,
            contents(r@) == on_closed(old(self)@, peer@).1,
            final(self)@.well_formed(),
    {
        proof {
            law_without(self.connected_peers@, peer@);
        }
        let was_server: bool = self.is_server(peer.as_str());
        let mut actions: Vec<ChatAction<C>> = match self.connected_peers.remove(peer.as_str()) {
            Some(name) => vec![
                ChatAction::Tell(ChatNotice::PeerDisconnected { name, peer: peer.clone() }),
            ],
            None => vec![ChatAction::Tell(ChatNotice::ConnectionClosed { peer: peer.clone() })],
        };
        if was_server {
            self.connected_to_rendezvous = false;
            self.rendezvous_registered = false;
            actions.push(ChatAction::Tell(ChatNotice::DisconnectedFromServer { server: peer }));
        }
        assert(contents(actions@) =~= on_closed(old(self)@, peer@).1);
        actions
    }

    fn registration_found(&mut self, found: &Registration) -> (r: Vec<ChatAction<C>>)
        requires
            old(self)@.well_formed(),
        ensures
            final(self)@ == on_registration(old(self)@, found@).0,
            contents(r@) == on_registration(old(self)@, found@).1,
            final(self)@.well_formed(),
    {
        if same_text(found.peer.as_str(), self.local_peer_id.as_str()) {
            return vec![];
        }
        let told = ChatAction::Tell(
            ChatNotice::PeerFound {
                peer: found.peer.clone(),
                namespace: found.namespace.clone(),
                ttl: found.ttl,
            },
        );
        if self.connected_peers.contains(found.peer.as_str()) {
            return vec![told];
        }
        let addrs = AddressList(clone_texts(&found.addrs));
        proof {
            law_with(self.discovered_peers@, found.peer@, addrs@);
        }
        self.discovered_peers.insert(found.peer.clone(), addrs);
        if found.addrs.len() == 0 {
            vec![told, ChatAction::Tell(ChatNotice::NoAddresses { peer: found.peer.clone() })]
        } else {
            vec![
                told,
                ChatAction::DialPeer {
                    peer: found.peer.clone(),
                    addrs: clone_texts(&found.addrs),
                },
            ]
        }
    }

    fn registrations_found(&mut self, server: String, found: Vec<Registration>) -> (r: Vec<
        ChatAction<C>,
    >)
        requires
            old(self)@.well_formed(),
        ensures
            ({
                let event = ChatEventView::Discovered {
                    server: server@,
                    registrations: contents(found@),
                };
                &&& final(self)@ == chat_event(old(self)@, event, 0).0
                &&& contents(r@) == chat_event(old(self)@, event, 0).1
            }),
            final(self)@.well_formed(),
    {
        let ghost told = tell::<C>(
            ChatNotice::Discovered { count: found@.len() as usize, server: server@ },
        );
        let mut actions: Vec<ChatAction<C>> = vec![
            ChatAction::Tell(ChatNotice::Discovered { count: found.len(), server }),
        ];
        let ghost before = self@;
        let mut i: usize = 0;
        assert(contents(actions@) =~= seq![told]);
        while i < found.len()
            invariant
                i <= found.len(),
                self@.well_formed(),
                self@ == on_registrations(before, contents(found@), i as nat).0,
                contents(actions@) == seq![told] + on_registrations(
                    before,
                    contents(found@),
                    i as nat,
                ).1,
            decreases found.len() - i,
        {
            let ghost so_far = contents(actions@);
            let mut more = self.registration_found(&found[i]);
            let ghost new = contents(more@);
            actions.append(&mut more);
            i = i + 1;
            assert(contents(actions@) == so_far + new);
            assert(contents(actions@) =~= seq![told] + on_registrations(
                before,
                contents(found@),
                i as nat,
            ).1);
        }
        actions
    }

    fn user_joined(&mut self, id: String, name: String) -> (r: Vec<ChatAction<C>>)
        requires
            old(self)@.well_formed(),
        ensures
            final(self)@ == on_join(old(self)@, id@, name@).0,
            contents(r@) == on_join(old(self)@, id@, name@).1,
            final(self)@.well_formed(),
    {
        match parse_peer_id(id.as_str()) {
            Err(reason) => vec![ChatAction::Tell(ChatNotice::InvalidPresence { reason })],
            Ok(peer) => {
                let mut actions: Vec<ChatAction<C>> = Vec::new();
                proof {
                    law_with(self.connected_peers@, peer@, name@);
                }
                if !self.connected_peers.contains(peer.as_str()) {
                    actions.push(
                        ChatAction::Tell(
                            ChatNotice::UserJoined { name: name.clone(), peer: peer.clone() },
                        ),
                    );
                }
                self.connected_peers.insert(peer, name);
                if self.connected_peers.len() == 1 {
                    actions.push(ChatAction::Announce(self.announce_presence()));
                }
                assert(contents(actions@) =~= on_join(old(self)@, id@, name@).1);
                actions
            },
        }
    }

    fn user_left(&mut self, id: String, name: String) -> (r: Vec<ChatAction<C>>)
        requires
            old(self)@.well_formed(),
        ensures
            final(self)@ == on_leave(old(self)@, id@, name@).0,
            contents(r@) == on_leave(old(self)@, id@, name@).1,
            final(self)@.well_formed(),
    {
        match parse_peer_id(id.as_str()) {
            Err(_) => vec![],
            Ok(peer) => {
                proof {
                    law_without(self.connected_peers@, peer@);
                }
                if self.connected_peers.remove(peer.as_str()).is_some() {
                    vec![ChatAction::Tell(ChatNotice::UserLeft { name, peer })]
                } else {
                    vec![]
                }
            },
        }
    }

    fn presence_heard(
        &mut self,
        action: PresenceAction,
        id: String,
        name: String,
        at: u64,
    ) -> (r: Vec<ChatAction<C>>)
        requires
            old(self)@.well_formed(),
        ensures
            ({
                let message = ChatMessageView::UserPresence {
                    action,
                    user_id: id@,
                    user_name: name@,
                };
                &&& final(self)@ == on_message(old(self)@, message, at).0
                &&& contents(r@) == on_message(old(self)@, message, at).1
            }),
            final(self)@.well_formed(),
    {
        if same_text(id.as_str(), self.local_peer_id.as_str()) {
            return vec![];
        }
        let mut actions: Vec<ChatAction<C>> = Vec::new();
        if is_over(self.turn_start, self.last_discovery, MIN_DISCOVERY_INTERVAL) {
            let mut more = self.try_discovery(at);
            actions.append(&mut more);
            self.last_discovery = self.turn_start;
        }
        assert(contents(actions@) =~= presence_discovery(old(self)@, at).1);
        let mut more = match action {
            PresenceAction::Join => self.user_joined(id, name),
            PresenceAction::Leave => self.user_left(id, name),
        };
        actions.append(&mut more);
        actions
    }

    fn known_name(&self, id: &str) -> (r: String)
        ensures
            r@ == name_of(self@, id@),
    {
        match parse_peer_id(id) {
            Ok(peer) => match self.connected_peers.get(peer.as_str()) {
                Some(name) => name.clone(),
                None => "Unknown".to_owned(),
            },
            Err(_) => "Unknown".to_owned(),
        }
    }

    /// Takes a message that was published in the room and comes at a given time.
    pub fn handle_message(&mut self, message: ChatMessage, at: u64) -> (r: Vec<ChatAction<C>>)
        requires
            old(self)@.well_formed(),
        ensures
            final(self)@ == on_message(old(self)@, message@, at).0,
            contents(r@) == on_message(old(self)@, message@, at).1,
            final(self)@.well_formed(),
    {
        match message {
            ChatMessage::UserMessage { sender_id, sender_name, content, timestamp } => {
                if same_text(sender_id.as_str(), self.local_peer_id.as_str()) {
                    vec![]
                } else {
                    vec![
                        ChatAction::Tell(
                            ChatNotice::UserMessage {
                                time: show_time(timestamp),
                                name: sender_name,
                                content,
                            },
                        ),
                    ]
                }
            },
            ChatMessage::UserPresence { action, user_id, user_name } => self.presence_heard(
                action,
                user_id,
                user_name,
                at,
            ),
            ChatMessage::BarterRequest { from_id, from_name, to_id } => {
                if same_text(to_id.as_str(), self.local_peer_id.as_str()) {
                    let same_asker: bool = match &self.pending_barter_channel {
                        Some((asker, _)) => same_text(asker.as_str(), from_id.as_str()),
                        None => false,
                    };
                    if !same_asker {
                        self.pending_barter_channel = None;
                    }
                    self.pending_barter_request = Some((from_id.clone(), from_name.clone()));
                    vec![
                        ChatAction::Tell(
                            ChatNotice::BarterRequested { name: from_name, peer: from_id },
                        ),
                    ]
                } else if !same_text(from_id.as_str(), self.local_peer_id.as_str()) {
                    let to = self.known_name(to_id.as_str());
                    vec![ChatAction::Tell(ChatNotice::OthersBarter { from: from_name, to })]
                } else {
                    vec![]
                }
            },
            ChatMessage::BarterAccepted { from_id, from_name, to_id, addrs } => {
                if same_text(to_id.as_str(), self.local_peer_id.as_str()) {
                    let list = join(&addrs, ",");
                    vec![
                        ChatAction::Tell(ChatNotice::BarterAccepted { name: from_name, addrs }),
                        ChatAction::Exit(
                            ChatRoomExit::AcceptBarter { peer_id: from_id, addr: Some(list) },
                        ),
                    ]
                } else {
                    vec![]
                }
            },
        }
    }

    fn proposed(&mut self, peer: String, channel: C) -> (r: Vec<ChatAction<C>>)
        ensures
            final(self)@ == on_proposed(old(self)@, peer@, channel).0,
            contents(r@) == on_proposed(old(self)@, peer@, channel).1,
    {
        let name = match self.connected_peers.get(peer.as_str()) {
            Some(name) => name.clone(),
            None => "Unknown User".to_owned(),
        };
        self.pending_barter_request = Some((peer.clone(), name.clone()));
        self.pending_barter_channel = Some((peer.clone(), channel));
        vec![ChatAction::Tell(ChatNotice::DirectRequest { name, peer })]
    }

    fn answered(&self, peer: String, response: BarterNegotiationResponse) -> (r: Vec<
        ChatAction<C>,
    >)
        ensures
            contents(r@) == on_answered::<C>(peer@, response@),
    {
        match response {
            BarterNegotiationResponse::Accept { addrs } => vec![
                ChatAction::Tell(ChatNotice::RequestAccepted),
                ChatAction::AwaitEnter,
                ChatAction::Exit(
                    ChatRoomExit::AcceptBarter { peer_id: peer, addr: Some(join(&addrs, ",")) },
                ),
            ],
            BarterNegotiationResponse::Decline => vec![
                ChatAction::Tell(ChatNotice::RequestDeclined),
            ],
        }
    }

    /// Takes an event of the network.
    pub fn handle_event(&mut self, event: ChatEvent<C>, at: u64) -> (r: Vec<ChatAction<C>>)
        requires
            old(self)@.well_formed(),
        ensures
            final(self)@ == chat_event(old(self)@, event@, at).0,
            contents(r@) == chat_event(old(self)@, event@, at).1,
            final(self)@.well_formed(),
    {
        match event {
            ChatEvent::Listening { address } => {
                self.listening = true;
                vec![ChatAction::Tell(ChatNotice::Listening { address })]
            },
            ChatEvent::Connected { peer } => self.connected(peer),
            ChatEvent::Closed { peer } => self.closed(peer),
            ChatEvent::Discovered { server, registrations } => self.registrations_found(
                server,
                registrations,
            ),
            ChatEvent::DiscoverFailed { server, in_namespace, error } => vec![
                ChatAction::Tell(ChatNotice::DiscoveryFailed { server, in_namespace, error }),
            ],
            ChatEvent::Registered { server, namespace, ttl } => {
                self.rendezvous_registered = true;
                self.last_discovery = at;
                vec![
                    ChatAction::Tell(
                        ChatNotice::Registered {
                            server: server.clone(),
                            namespace: namespace.clone(),
                            ttl,
                        },
                    ),
                    ChatAction::Discover { server, namespace, limit: DISCOVERY_LIMIT },
                    ChatAction::Tell(ChatNotice::DiscoveryAfterRegistration),
                ]
            },
            ChatEvent::RegisterFailed { server, namespace, error } => {
                self.registration_attempted = false;
                vec![ChatAction::Tell(ChatNotice::RegistrationFailed { server, namespace, error })]
            },
            ChatEvent::Expired { peer } => {
                proof {
                    law_without(self.discovered_peers@, peer@);
                }
                let _ = self.discovered_peers.remove(peer.as_str());
                let connected: bool = self.connected_peers.contains(peer.as_str());
                vec![ChatAction::Tell(ChatNotice::RegistrationExpired { peer, connected })]
            },
            ChatEvent::Heard { message } => self.handle_message(message, at),
            ChatEvent::Proposed { peer, channel, request } => match request {
                BarterNegotiationRequest::ProposeBarterSession => self.proposed(peer, channel),
            },
            ChatEvent::Answered { peer, response } => self.answered(peer, response),
        }
    }

    /// Sets up the room of a user. `local_peer_id` is the id of this side, `now` the time.
    ///
    /// The port has to make an address to listen on; the reason is returned if it does not.
    pub fn new(username: String, args: ChatCliArgs, local_peer_id: String, now: u64) -> (r: Result<
        (Self, Vec<StartStep<String>>),
        String,
    >)
        ensures
            match r {
                Ok((room, steps)) => {
                    &&& parsed_multiaddr(listening_at(args@.port)) matches Ok(listen)
                    &&& contents(steps@) == start_steps(args@, listen)
                    &&& room@ == new_room::<C>(username@, args@, local_peer_id@, now)
                    &&& room@.well_formed()
                },
                Err(reason) => parsed_multiaddr(listening_at(args@.port)) == Err::<
                    Seq<char>,
                    Seq<char>,
                >(reason@),
            },
    {
        let listen = match usable_listen_address(&args.port) {
            Ok(address) => address,
            Err(reason) => {
                return Err(reason);
            },
        };
        let mut steps: Vec<StartStep<String>> = vec![StartStep::Listen { address: listen }];
        let mut rendezvous_server: Option<String> = None;
        if let Some(address) = args.rendezvous_server {
            match peer_in_address(address.as_str()) {
                AddressedPeer::Peer(peer) => {
                    steps.push(StartStep::ServerNamed { peer: peer.clone() });
                    steps.push(StartStep::DialServer { address });
                    rendezvous_server = Some(peer);
                },
                AddressedPeer::Malformed(reason) => {
                    steps.push(StartStep::ServerMalformed { reason });
                },
                AddressedPeer::Unnamed => {
                    steps.push(StartStep::ServerUnnamed);
                },
            }
        }
        if let Some(address) = args.peer {
            steps.push(StartStep::DialPeer { address });
        }
        let room = ChatRoom {
            local_peer_id,
            user_name: username,
            connected_peers: PeerTable::new(),
            pending_barter_request: None,
            pending_barter_channel: None,
            rendezvous_server,
            discovered_peers: PeerTable::new(),
            last_heartbeat: now,
            last_discovery: now,
            last_discovery_time: None,
            turn_start: now,
            listening: false,
            rendezvous_registered: false,
            registration_attempted: false,
            connected_to_rendezvous: false,
        };
        proof {
            let listen = parsed_multiaddr(listening_at(args@.port))->Ok_0;
            assert(contents(steps@) =~= start_steps(args@, listen));
        }
        Ok((room, steps))
    }
}

/// What comes of saying something in the room.
#[derive(Debug, Clone, Copy, PartialEq, Eq, Structural)]
pub enum SendOutcome {
    Sent,
    /// It could not be published because nobody is connected: the user is told so.
    NobodyThere,
    /// It could not be published though peers are connected: the room ends with that error.
    Failed,
}

/// What comes of saying something in the room.
pub open spec fn send_outcome<C>(r: RoomView<C>, published: bool) -> SendOutcome {
    if published {
        SendOutcome::Sent
    } else if r.peers.len() == 0 {
        SendOutcome::NobodyThere
    } else {
        SendOutcome::Failed
    }
}

/// The address of a peer to dial next, by its position, given what came of the earlier attempts:
/// one after the other, until one succeeds.
pub open spec fn next_to_dial(count: nat, outcomes: Seq<bool>) -> Option<nat> {
    if outcomes.contains(true) || outcomes.len() >= count {
        None
    } else {
        Some(outcomes.len())
    }
}

/// Picks the address of a peer to dial next.
pub fn address_to_dial(addrs: &Vec<String>, outcomes: &Vec<bool>) -> (r: Option<usize>)
    ensures
        match r {
            Some(i) => next_to_dial(addrs@.len(), outcomes@) == Some(i as nat),
            None => next_to_dial(addrs@.len(), outcomes@) is None,
        },
{
    let mut i: usize = 0;
    while i < outcomes.len()
        invariant
            i <= outcomes.len(),
            forall|k: int| 0 <= k < i ==> !outcomes[k],
        decreases outcomes.len() - i,
    {
        if outcomes[i] {
            assert(outcomes@.contains(true));
            return None;
        }
        i = i + 1;
    }
    if i < addrs.len() {
        Some(i)
    } else {
        None
    }
}

/// The arguments of the chat room: addresses are in multiaddr notation.
#[derive(Debug, PartialEq, Eq)]
pub struct ChatCliArgs {
    pub port: Option<String>,
    pub peer: Option<String>,
    pub rendezvous_server: Option<String>,
    pub username: Option<String>,
}

/// The content of [`ChatCliArgs`].
pub struct ChatCliArgsView {
    pub port: Option<Seq<char>>,
    pub peer: Option<Seq<char>>,
    pub rendezvous_server: Option<Seq<char>>,
    pub username: Option<Seq<char>>,
}

impl View for ChatCliArgs {
    type V = ChatCliArgsView;

    open spec fn view(&self) -> ChatCliArgsView {
        ChatCliArgsView {
            port: optional_text(self.port),
            peer: optional_text(self.peer),
            rendezvous_server: optional_text(self.rendezvous_server),
            username: optional_text(self.username),
        }
    }
}

/// What is done to set up a room.
#[derive(Debug, PartialEq, Eq)]
pub enum StartStep<S> {
    /// Listen on an address, then call [`start_step_done`].
    Listen { address: S },
    /// Tell the user that this is the rendezvous server.
    ServerNamed { peer: S },
    /// Dial the rendezvous server, then call [`start_step_done`].
    DialServer { address: S },
    /// Tell the user that the address of the rendezvous server names no peer that could be one.
    ServerMalformed { reason: S },
    /// Tell the user that the address of the rendezvous server names no peer.
    ServerUnnamed,
    /// Dial a peer, then call [`start_step_done`].
    DialPeer { address: S },
}

impl View for StartStep<String> {
    type V = StartStep<Seq<char>>;

    open spec fn view(&self) -> StartStep<Seq<char>> {
        match *self {
            StartStep::Listen { address } => StartStep::Listen { address: address@ },
            StartStep::ServerNamed { peer } => StartStep::ServerNamed { peer: peer@ },
            StartStep::DialServer { address } => StartStep::DialServer { address: address@ },
            StartStep::ServerMalformed { reason } => StartStep::ServerMalformed { reason: reason@ },
            StartStep::ServerUnnamed => StartStep::ServerUnnamed,
            StartStep::DialPeer { address } => StartStep::DialPeer { address: address@ },
        }
    }
}

/// Says whether there is a room after a step that failed for the given reason, or did not: it has
/// to listen and to dial the peer that it was given, but does without its rendezvous server.
pub fn start_step_done(step: &StartStep<String>, failure: Option<String>) -> (r: Result<
    (),
    String,
>)
    ensures
        match r {
            Ok(_) => failure is None || !(step@ is Listen || step@ is DialPeer),
            Err(reason) => (step@ is Listen || step@ is DialPeer) && optional_text(failure) == Some(
                reason@,
            ),
        },
{
    match failure {
        None => Ok(()),
        Some(reason) => match step {
            StartStep::Listen { .. } => Err(reason),
            StartStep::DialPeer { .. } => Err(reason),
            _ => Ok(()),
        },
    }
}

/// What is done to set up a room with these arguments that listens on this address.
pub open spec fn start_steps(args: ChatCliArgsView, listen: Seq<char>) -> Seq<
    StartStep<Seq<char>>,
> {
    seq![StartStep::Listen { address: listen }] + (match args.rendezvous_server {
        None => seq![],
        Some(address) => match addressed_peer(address) {
            AddressedPeer::Peer(peer) => seq![
                StartStep::ServerNamed { peer },
                StartStep::DialServer { address },
            ],
            AddressedPeer::Malformed(reason) => seq![StartStep::ServerMalformed { reason }],
            AddressedPeer::Unnamed => seq![StartStep::ServerUnnamed],
        },
    }) + (match args.peer {
        None => seq![],
        Some(address) => seq![StartStep::DialPeer { address }],
    })
}

/// A room that has just been set up: nobody is there, and its rendezvous server is the peer that
/// the given address names.
pub open spec fn new_room<C>(
    username: Seq<char>,
    args: ChatCliArgsView,
    local: Seq<char>,
    now: u64,
) -> RoomView<C> {
    RoomView {
        local,
        name: username,
        peers: Seq::empty(),
        request: None,
        channel: None,
        server: match args.rendezvous_server {
            Some(address) => match addressed_peer(address) {
                AddressedPeer::Peer(peer) => Some(peer),
                _ => None,
            },
            None => None,
        },
        discovered: Seq::empty(),
        last_heartbeat: now,
        last_discovery: now,
        last_discovery_time: None,
        turn_start: now,
        listening: false,
        registered: false,
        attempted: false,
        server_connected: false,
    }
}

}
