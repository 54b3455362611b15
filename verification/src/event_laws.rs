//! What the passing of time and the events of the network do in the chat room.

use crate::addresses::{addressed_peer, AddressedPeer};
use crate::chat_room::{
    chat_event, discovering, discovery, entered, new_room, next_to_dial, on_message,
    on_registration, on_registrations, presence, send_outcome, start_steps, turn, utterance,
    ChatCliArgsView, RoomView, StartStep,
};
use crate::chat_types::{
    ChatActionView, ChatEventView, ChatNotice, RegistrationView, RendezvousError,
};
use crate::clock::clock_text;
use crate::foreign::parsed_peer_id;
use crate::messages::{
    BarterNegotiationRequest, BarterNegotiationResponseView, ChatMessageView, ChatRoomExitView,
    PresenceAction,
};
use crate::table::{holds, lookup, with, without};
use crate::text::joined;
use vstd::prelude::*;

verus! {

/// The announcement of a side that it is there.
pub open spec fn here<C>(r: RoomView<C>) -> ChatActionView<C> {
    ChatActionView::Announce(
        ChatMessageView::UserPresence {
            action: PresenceAction::Join,
            user_id: r.local,
            user_name: r.name,
        },
    )
}

/// What is seen and done when the rendezvous server is asked for peers: up to 50, in the namespace
/// of the chat room. Without a server nothing is.
pub open spec fn peers_asked_for<C>(r: RoomView<C>) -> Seq<ChatActionView<C>> {
    match r.server {
        Some(server) => seq![
            ChatActionView::<C>::Tell(ChatNotice::DiscoveryStarting { server }),
            ChatActionView::Discover { server, namespace: "p2p-file-barter"@, limit: 50 },
            ChatActionView::Tell(ChatNotice::DiscoveryStarted),
        ],
        None => seq![],
    }
}

/// Entering the room announces this side to everyone, once. What was known of the network is
/// forgotten, and the rest of the room stays: who is listed, what waits, and the last heartbeat.
pub proof fn law_entering_announces<C>(r: RoomView<C>, at: u64)
    ensures
        entered(r, at).1 == seq![here(r)],
        entered(r, at).0 == (RoomView {
            last_discovery: at,
            listening: false,
            registered: false,
            attempted: false,
            server_connected: false,
            ..r
        }),
{
}

/// What the clock does, and nothing else. A room that listens and is not registered dials its
/// server, or asks it for registration once there is a connection and that was not tried; presence
/// is announced when the last time is more than 30 seconds ago; and a registered room asks for
/// peers when the last time is more than 5 minutes ago. What was done is remembered, and the rest
/// of the room stays as it is.
pub proof fn law_what_a_turn_does<C>(r: RoomView<C>, now: u64)
    ensures
        ({
            let (after, actions) = turn(r, now);
            let waiting = r.server is Some && r.listening && !r.registered;
            let registering = waiting && r.server_connected && !r.attempted;
            let beating = now - r.last_heartbeat > 30_000_000_000;
            let looking = r.registered && r.server is Some && now - r.last_discovery
                > 300_000_000_000;
            let reaching: Seq<ChatActionView<C>> = if waiting && !r.server_connected {
                seq![ChatActionView::DialServer { address: "/p2p/"@ + r.server->0 }]
            } else if registering {
                seq![ChatActionView::Register { server: r.server->0 }]
            } else {
                seq![]
            };
            &&& actions == reaching + (if beating {
                seq![here(r)]
            } else {
                seq![]
            }) + (if looking {
                peers_asked_for(r)
            } else {
                seq![]
            })
            &&& after == (RoomView {
                turn_start: now,
                attempted: r.attempted || registering,
                last_heartbeat: if beating {
                    now
                } else {
                    r.last_heartbeat
                },
                last_discovery: if looking {
                    now
                } else {
                    r.last_discovery
                },
                last_discovery_time: if looking {
                    Some(now)
                } else {
                    r.last_discovery_time
                },
                ..r
            })
        }),
{
}

/// An address that is being listened on is shown, and the room listens from then on.
pub proof fn law_listening<C>(r: RoomView<C>, address: Seq<char>, at: u64)
    ensures
        chat_event(r, ChatEventView::Listening { address }, at) == (
            RoomView { listening: true, ..r },
            seq![ChatActionView::<C>::Tell(ChatNotice::Listening { address })],
        ),
{
}

/// A peer that connects is listed, under the name that it has or as one whose user is not known
/// yet, and this side announces itself. If it is the rendezvous server, it is asked for
/// registration after half a second, unless that was tried.
pub proof fn law_connected<C>(r: RoomView<C>, peer: Seq<char>, at: u64)
    ensures
        ({
            let (after, actions) = chat_event(r, ChatEventView::Connected { peer }, at);
            let peers = if holds(r.peers, peer) {
                r.peers
            } else {
                r.peers.push((peer, "Connected (awaiting username)"@))
            };
            let greeting = seq![
                ChatActionView::<C>::Tell(ChatNotice::ConnectionEstablished { peer }),
                here(r),
            ];
            if r.server == Some(peer) {
                &&& after == (RoomView { peers, server_connected: true, attempted: true, ..r })
                &&& actions == greeting + seq![
                    ChatActionView::Tell(ChatNotice::ConnectedToServer { server: peer }),
                    ChatActionView::Pause { millis: 500 },
                ] + (if r.attempted {
                    seq![]
                } else {
                    seq![ChatActionView::Register { server: peer }]
                })
            } else {
                after == (RoomView { peers, ..r }) && actions == greeting
            }
        }),
{
}

/// A peer whose connection ends is not listed any more, and the user is told who it was. Without
/// the connection to the rendezvous server this side is neither connected to it nor registered.
pub proof fn law_closed<C>(r: RoomView<C>, peer: Seq<char>, at: u64)
    ensures
        ({
            let (after, actions) = chat_event(r, ChatEventView::Closed { peer }, at);
            let gone = ChatActionView::<C>::Tell(
                match lookup(r.peers, peer) {
                    Some(name) => ChatNotice::PeerDisconnected { name, peer },
                    None => ChatNotice::ConnectionClosed { peer },
                },
            );
            let peers = without(r.peers, peer);
            if r.server == Some(peer) {
                &&& after == (RoomView { peers, server_connected: false, registered: false, ..r })
                &&& actions == seq![
                    gone,
                    ChatActionView::Tell(ChatNotice::DisconnectedFromServer { server: peer }),
                ]
            } else {
                after == (RoomView { peers, ..r }) && actions == seq![gone]
            }
        }),
{
    if r.server == Some(peer) {
        assert(chat_event(r, ChatEventView::Closed { peer }, at).1 =~= seq![
            ChatActionView::<C>::Tell(
                match lookup(r.peers, peer) {
                    Some(name) => ChatNotice::PeerDisconnected { name, peer },
                    None => ChatNotice::ConnectionClosed { peer },
                },
            ),
            ChatActionView::Tell(ChatNotice::DisconnectedFromServer { server: peer }),
        ]);
    }
}

proof fn lemma_registrations_alike<C>(
    r: RoomView<C>,
    found: Seq<RegistrationView>,
    more: Seq<RegistrationView>,
    n: nat,
)
    requires
        n <= found.len(),
        n <= more.len(),
        forall|i: int| 0 <= i < n ==> found[i] == more[i],
    ensures
        on_registrations(r, found, n) == on_registrations(r, more, n),
    decreases n,
{
    if n > 0 {
        lemma_registrations_alike(r, found, more, (n - 1) as nat);
    }
}

proof fn lemma_only_discovered<C>(r: RoomView<C>, found: Seq<RegistrationView>, n: nat)
    requires
        n <= found.len(),
    ensures
        on_registrations(r, found, n).0 == (RoomView {
            discovered: on_registrations(r, found, n).0.discovered,
            ..r
        }),
    decreases n,
{
    if n > 0 {
        lemma_only_discovered(r, found, (n - 1) as nat);
    }
}

/// Every peer that is found counts for itself, however many were found before it: a stranger is
/// told, remembered with its addresses and dialled at them, if it has any; one that is connected is
/// only told, and this side is passed over. Nothing else of the room changes.
pub proof fn law_each_found_peer_counts<C>(
    r: RoomView<C>,
    server: Seq<char>,
    registrations: Seq<RegistrationView>,
    one: RegistrationView,
    at: u64,
)
    ensures
        ({
            let some = chat_event(r, ChatEventView::Discovered { server, registrations }, at);
            let event = ChatEventView::Discovered {
                server,
                registrations: registrations.push(one),
            };
            let all = chat_event(r, event, at);
            let stranger = one.peer != r.local && !holds(r.peers, one.peer);
            &&& all.1.len() > 0 && all.1[0] == ChatActionView::<C>::Tell(
                ChatNotice::Discovered { count: (registrations.len() + 1) as usize, server },
            )
            &&& all.1.skip(1) == some.1.skip(1) + (if one.peer == r.local {
                seq![]
            } else {
                seq![
                    ChatActionView::Tell(
                        ChatNotice::PeerFound {
                            peer: one.peer,
                            namespace: one.namespace,
                            ttl: one.ttl,
                        },
                    ),
                ]
            }) + (if !stranger {
                seq![]
            } else if one.addrs.len() == 0 {
                seq![ChatActionView::Tell(ChatNotice::NoAddresses { peer: one.peer })]
            } else {
                seq![ChatActionView::DialPeer { peer: one.peer, addrs: one.addrs }]
            })
            &&& all.0 == (RoomView {
                discovered: if stranger {
                    with(some.0.discovered, one.peer, one.addrs)
                } else {
                    some.0.discovered
                },
                ..r
            })
        }),
        ({
            let event = ChatEventView::Discovered {
                server,
                registrations: Seq::<RegistrationView>::empty(),
            };
            chat_event(r, event, at) == (
                r,
                seq![ChatActionView::<C>::Tell(ChatNotice::Discovered { count: 0, server })],
            )
        }),
{
    let more = registrations.push(one);
    let n = registrations.len();
    lemma_registrations_alike(r, registrations, more, n);
    lemma_only_discovered(r, registrations, n);
    let (r1, a1) = on_registrations(r, registrations, n);
    let (r2, a2) = on_registration(r1, one);
    assert(on_registrations(r, more, more.len()) == (r2, a1 + a2));
    let some = chat_event(r, ChatEventView::Discovered { server, registrations }, at);
    let all = chat_event(r, ChatEventView::Discovered { server, registrations: more }, at);
    assert(some.1.skip(1) =~= a1);
    assert(all.1.skip(1) =~= a1 + a2);
    let stranger = one.peer != r.local && !holds(r.peers, one.peer);
    assert(a1 + a2 =~= a1 + (if one.peer == r.local {
        seq![]
    } else {
        seq![
            ChatActionView::<C>::Tell(
                ChatNotice::PeerFound {
                    peer: one.peer,
                    namespace: one.namespace,
                    ttl: one.ttl,
                },
            ),
        ]
    }) + (if !stranger {
        seq![]
    } else if one.addrs.len() == 0 {
        seq![ChatActionView::Tell(ChatNotice::NoAddresses { peer: one.peer })]
    } else {
        seq![ChatActionView::DialPeer { peer: one.peer, addrs: one.addrs }]
    }));
    let none = chat_event(
        r,
        ChatEventView::Discovered { server, registrations: Seq::<RegistrationView>::empty() },
        at,
    );
    assert(none.1 =~= seq![ChatActionView::<C>::Tell(ChatNotice::Discovered { count: 0, server })]);
}

proof fn lemma_strangers_dialled<C>(
    r: RoomView<C>,
    found: Seq<RegistrationView>,
    n: nat,
    k: int,
)
    requires
        0 <= k < n <= found.len(),
        found[k].peer != r.local,
        !holds(r.peers, found[k].peer),
        found[k].addrs.len() > 0,
    ensures
        on_registrations(r, found, n).1.contains(
            ChatActionView::DialPeer { peer: found[k].peer, addrs: found[k].addrs },
        ),
    decreases n,
{
    let (r1, a1) = on_registrations(r, found, (n - 1) as nat);
    let (r2, a2) = on_registration(r1, found[n - 1]);
    let dial = ChatActionView::<C>::DialPeer { peer: found[k].peer, addrs: found[k].addrs };
    lemma_only_discovered(r, found, (n - 1) as nat);
    assert(on_registrations(r, found, n).1 == a1 + a2);
    if k == n - 1 {
        assert((a1 + a2)[a1.len() as int + 1] == dial);
    } else {
        lemma_strangers_dialled(r, found, (n - 1) as nat, k);
        let i = choose|i: int| 0 <= i < a1.len() && a1[i] == dial;
        assert((a1 + a2)[i] == dial);
    }
}

/// Everyone who is found is dialled at the addresses under which they are registered, if there are
/// any, unless it is this side or a peer that is connected: whoever else is found, and whoever was
/// found before.
pub proof fn law_every_stranger_is_dialled<C>(
    r: RoomView<C>,
    server: Seq<char>,
    registrations: Seq<RegistrationView>,
    at: u64,
    k: int,
)
    requires
        0 <= k < registrations.len(),
        registrations[k].peer != r.local,
        !holds(r.peers, registrations[k].peer),
        registrations[k].addrs.len() > 0,
    ensures
        chat_event(r, ChatEventView::Discovered { server, registrations }, at).1.contains(
            ChatActionView::DialPeer {
                peer: registrations[k].peer,
                addrs: registrations[k].addrs,
            },
        ),
{
    let n = registrations.len();
    lemma_strangers_dialled(r, registrations, n, k);
    let found = on_registrations(r, registrations, n).1;
    let all = chat_event(r, ChatEventView::Discovered { server, registrations }, at).1;
    let dial = ChatActionView::<C>::DialPeer {
        peer: registrations[k].peer,
        addrs: registrations[k].addrs,
    };
    let i = choose|i: int| 0 <= i < found.len() && found[i] == dial;
    assert(all[i + 1] == dial);
}

/// The addresses of a peer are dialled one after the other, in order, until one succeeds or none is
/// left.
pub proof fn law_addresses_are_dialled_in_turn(count: nat, outcomes: Seq<bool>)
    ensures
        next_to_dial(count, Seq::<bool>::empty()) == (if count > 0 {
            Some(0nat)
        } else {
            None
        }),
        (forall|i: int| 0 <= i < outcomes.len() ==> !#[trigger] outcomes[i]) && outcomes.len()
            < count ==> next_to_dial(count, outcomes) == Some(outcomes.len()),
        outcomes.len() >= count ==> next_to_dial(count, outcomes) is None,
        (exists|i: int| 0 <= i < outcomes.len() && #[trigger] outcomes[i]) ==> next_to_dial(
            count,
            outcomes,
        ) is None,
{
    if exists|i: int| 0 <= i < outcomes.len() && #[trigger] outcomes[i] {
        let i = choose|i: int| 0 <= i < outcomes.len() && #[trigger] outcomes[i];
        assert(outcomes[i] == true);
        assert(outcomes.contains(true));
    }
}

/// What the rendezvous server answers. A registration that it confirms is remembered and followed
/// by asking it for up to 50 peers in that namespace; one that it refuses may be tried again; a
/// discovery that fails, and a registration that has run out, are told, and the peer of the latter
/// is not remembered any more.
pub proof fn law_answers_of_the_server<C>(
    r: RoomView<C>,
    server: Seq<char>,
    namespace: Seq<char>,
    ttl: u64,
    error: RendezvousError,
    in_namespace: Option<Seq<char>>,
    peer: Seq<char>,
    at: u64,
)
    ensures
        chat_event(r, ChatEventView::Registered { server, namespace, ttl }, at) == (
            RoomView { registered: true, last_discovery: at, ..r },
            seq![
                ChatActionView::<C>::Tell(ChatNotice::Registered { server, namespace, ttl }),
                ChatActionView::Discover { server, namespace, limit: 50 },
                ChatActionView::Tell(ChatNotice::DiscoveryAfterRegistration),
            ],
        ),
        chat_event(r, ChatEventView::RegisterFailed { server, namespace, error }, at) == (
            RoomView { attempted: false, ..r },
            seq![
                ChatActionView::<C>::Tell(
                    ChatNotice::RegistrationFailed { server, namespace, error },
                ),
            ],
        ),
        chat_event(r, ChatEventView::DiscoverFailed { server, in_namespace, error }, at) == (
            r,
            seq![
                ChatActionView::<C>::Tell(
                    ChatNotice::DiscoveryFailed { server, in_namespace, error },
                ),
            ],
        ),
        chat_event(r, ChatEventView::Expired { peer }, at) == (
            RoomView { discovered: without(r.discovered, peer), ..r },
            seq![
                ChatActionView::<C>::Tell(
                    ChatNotice::RegistrationExpired { peer, connected: holds(r.peers, peer) },
                ),
            ],
        ),
{
}

/// What another one says in the room is shown as it was said, under the name of who said it and
/// with the time that it carries; what this side has said is not shown again. The room stays as it
/// is.
pub proof fn law_what_others_say_is_shown<C>(
    r: RoomView<C>,
    sender_id: Seq<char>,
    sender_name: Seq<char>,
    content: Seq<char>,
    timestamp: u64,
    at: u64,
)
    ensures
        ({
            let message = ChatMessageView::UserMessage {
                sender_id,
                sender_name,
                content,
                timestamp,
            };
            let (after, actions) = chat_event(r, ChatEventView::Heard { message }, at);
            &&& after == r
            &&& actions == (if sender_id == r.local {
                seq![]
            } else {
                seq![
                    ChatActionView::<C>::Tell(
                        ChatNotice::UserMessage {
                            time: clock_text(timestamp),
                            name: sender_name,
                            content,
                        },
                    ),
                ]
            })
        }),
{
}

/// What someone's coming and going does. First the rendezvous server is asked for peers, if the
/// last time is more than 30 seconds before the present turn. Whoever comes is listed under the
/// name that they give, told to the user if they were not listed, and greeted if nobody else is
/// listed; whoever goes is not listed any more, and told if they were. Of this side itself nothing
/// comes, and of what is no peer id only a warning.
pub proof fn law_coming_and_going<C>(
    r: RoomView<C>,
    action: PresenceAction,
    user_id: Seq<char>,
    user_name: Seq<char>,
    at: u64,
)
    ensures
        ({
            let message = ChatMessageView::UserPresence { action, user_id, user_name };
            let (after, actions) = chat_event(r, ChatEventView::Heard { message }, at);
            let due = r.turn_start - r.last_discovery > 30_000_000_000;
            let asking = if due {
                peers_asked_for(r)
            } else {
                seq![]
            };
            let noted = RoomView {
                last_discovery: if due {
                    r.turn_start
                } else {
                    r.last_discovery
                },
                last_discovery_time: if due && r.server is Some {
                    Some(at)
                } else {
                    r.last_discovery_time
                },
                ..r
            };
            if user_id == r.local {
                after == r && actions == Seq::<ChatActionView<C>>::empty()
            } else {
                match (action, parsed_peer_id(user_id)) {
                    (PresenceAction::Join, Ok(peer)) => {
                        let peers = with(r.peers, peer, user_name);
                        let news: Seq<ChatActionView<C>> = if holds(r.peers, peer) {
                            seq![]
                        } else {
                            seq![
                                ChatActionView::Tell(
                                    ChatNotice::UserJoined { name: user_name, peer },
                                ),
                            ]
                        };
                        &&& after == (RoomView { peers, ..noted })
                        &&& actions == asking + news + (if peers.len() == 1 {
                            seq![here(r)]
                        } else {
                            seq![]
                        })
                    },
                    (PresenceAction::Leave, Ok(peer)) => {
                        &&& after == (RoomView { peers: without(r.peers, peer), ..noted })
                        &&& actions == asking + (if holds(r.peers, peer) {
                            seq![
                                ChatActionView::Tell(
                                    ChatNotice::UserLeft { name: user_name, peer },
                                ),
                            ]
                        } else {
                            seq![]
                        })
                    },
                    (PresenceAction::Join, Err(reason)) => {
                        &&& after == noted
                        &&& actions == asking + seq![
                            ChatActionView::Tell(ChatNotice::InvalidPresence { reason }),
                        ]
                    },
                    (PresenceAction::Leave, Err(_)) => after == noted && actions == asking,
                }
            }
        }),
{
    let message = ChatMessageView::UserPresence { action, user_id, user_name };
    let (after, actions) = chat_event(r, ChatEventView::Heard { message }, at);
    let due = r.turn_start - r.last_discovery > 30_000_000_000;
    let asking = if due {
        peers_asked_for(r)
    } else {
        seq![]
    };
    if user_id != r.local {
        match (action, parsed_peer_id(user_id)) {
            (PresenceAction::Join, Ok(peer)) => {
                let peers = with(r.peers, peer, user_name);
                let news: Seq<ChatActionView<C>> = if holds(r.peers, peer) {
                    seq![]
                } else {
                    seq![ChatActionView::Tell(ChatNotice::UserJoined { name: user_name, peer })]
                };
                assert(actions =~= asking + news + (if peers.len() == 1 {
                    seq![here(r)]
                } else {
                    seq![]
                }));
            },
            (PresenceAction::Leave, Err(_)) => {
                assert(actions =~= asking);
            },
            _ => {},
        }
    }
}

/// A request for a barter that is published waits for the user if it is meant for this side, under
/// the id and the name that it gives, in place of any earlier one; an earlier direct request can
/// then only be answered if it came from the same peer. Of requests between others the user is
/// told, with the names of both.
pub proof fn law_published_requests<C>(
    r: RoomView<C>,
    from_id: Seq<char>,
    from_name: Seq<char>,
    to_id: Seq<char>,
    at: u64,
)
    ensures
        ({
            let message = ChatMessageView::BarterRequest { from_id, from_name, to_id };
            let (after, actions) = chat_event(r, ChatEventView::Heard { message }, at);
            if to_id == r.local {
                &&& after == (RoomView {
                    request: Some((from_id, from_name)),
                    channel: after.channel,
                    ..r
                })
                &&& (r.channel matches Some((asker, _)) && asker == from_id) ==> after.channel
                    == r.channel
                &&& !(r.channel matches Some((asker, _)) && asker == from_id)
                    ==> after.channel is None
                &&& actions == seq![
                    ChatActionView::<C>::Tell(
                        ChatNotice::BarterRequested { name: from_name, peer: from_id },
                    ),
                ]
            } else if from_id == r.local {
                after == r && actions == Seq::<ChatActionView<C>>::empty()
            } else {
                let known = match parsed_peer_id(to_id) {
                    Ok(peer) => lookup(r.peers, peer),
                    Err(_) => None,
                };
                &&& after == r
                &&& actions == seq![
                    ChatActionView::<C>::Tell(
                        ChatNotice::OthersBarter {
                            from: from_name,
                            to: match known {
                                Some(name) => name,
                                None => "Unknown"@,
                            },
                        },
                    ),
                ]
            }
        }),
{
}

/// An acceptance that is published for this side is shown with its addresses, and the room is left
/// for a session with the one who accepted, at those addresses; one for others does nothing.
pub proof fn law_published_acceptances<C>(
    r: RoomView<C>,
    from_id: Seq<char>,
    from_name: Seq<char>,
    to_id: Seq<char>,
    addrs: Seq<Seq<char>>,
    at: u64,
)
    ensures
        ({
            let message = ChatMessageView::BarterAccepted { from_id, from_name, to_id, addrs };
            let (after, actions) = chat_event(r, ChatEventView::Heard { message }, at);
            &&& after == r
            &&& actions == (if to_id == r.local {
                seq![
                    ChatActionView::<C>::Tell(
                        ChatNotice::BarterAccepted { name: from_name, addrs },
                    ),
                    ChatActionView::Exit(
                        ChatRoomExitView::AcceptBarter {
                            peer_id: from_id,
                            addr: Some(joined(addrs, ","@)),
                        },
                    ),
                ]
            } else {
                seq![]
            })
        }),
{
}

/// A direct request for a session waits for the user with the channel of its answer, in place of
/// any earlier one, and is told under the name of the peer's user, as far as it is known.
pub proof fn law_direct_requests<C>(
    r: RoomView<C>,
    peer: Seq<char>,
    channel: C,
    request: BarterNegotiationRequest,
    at: u64,
)
    ensures
        ({
            let name = match lookup(r.peers, peer) {
                Some(name) => name,
                None => "Unknown User"@,
            };
            chat_event(r, ChatEventView::Proposed { peer, channel, request }, at) == (
                RoomView { request: Some((peer, name)), channel: Some((peer, channel)), ..r },
                seq![ChatActionView::<C>::Tell(ChatNotice::DirectRequest { name, peer })],
            )
        }),
{
}

/// When a peer accepts, the user is told, and the room is left for the session with that peer, at
/// the addresses that it gave, once Enter is pressed. When it declines, the room is not left.
pub proof fn law_answers_to_requests<C>(
    r: RoomView<C>,
    peer: Seq<char>,
    addrs: Seq<Seq<char>>,
    at: u64,
)
    ensures
        ({
            let response = BarterNegotiationResponseView::Accept { addrs };
            chat_event(r, ChatEventView::Answered { peer, response }, at) == (
                r,
                seq![
                    ChatActionView::<C>::Tell(ChatNotice::RequestAccepted),
                    ChatActionView::AwaitEnter,
                    ChatActionView::Exit(
                        ChatRoomExitView::AcceptBarter {
                            peer_id: peer,
                            addr: Some(joined(addrs, ","@)),
                        },
                    ),
                ],
            )
        }),
        ({
            let response = BarterNegotiationResponseView::Decline;
            chat_event(r, ChatEventView::Answered { peer, response }, at) == (
                r,
                seq![ChatActionView::<C>::Tell(ChatNotice::RequestDeclined)],
            )
        }),
{
}

/// What is published is sent. What cannot be is no error while nobody is listed, and one as soon as
/// somebody is.
pub proof fn law_outcome_of_saying<C>(r: RoomView<C>)
    ensures
        send_outcome(r, true) is Sent,
        r.peers.len() == 0 ==> send_outcome(r, false) is NobodyThere,
        r.peers.len() > 0 ==> send_outcome(r, false) is Failed,
{
}

/// A new room lists nobody and knows of no request. It has the id and the name that it was given,
/// and its rendezvous server is the peer that the given address names, if it names one.
pub proof fn law_new_room<C>(
    username: Seq<char>,
    args: ChatCliArgsView,
    local: Seq<char>,
    now: u64,
)
    ensures
        ({
            let r = new_room::<C>(username, args, local, now);
            &&& r.local == local && r.name == username
            &&& r.peers.len() == 0 && r.discovered.len() == 0
            &&& r.request is None && r.channel is None
            &&& match args.rendezvous_server {
                Some(address) => match addressed_peer(address) {
                    AddressedPeer::Peer(peer) => r.server == Some(peer),
                    _ => r.server is None,
                },
                None => r.server is None,
            }
            &&& r.last_heartbeat == now && r.last_discovery == now && r.turn_start == now
            &&& r.last_discovery_time is None
            &&& !r.listening && !r.registered && !r.attempted && !r.server_connected
        }),
{
}

/// A room is set up by listening, and then by dialling the rendezvous server, if the given address
/// names a peer, and the given peer, if there is one: each once, at the address that was given.
pub proof fn law_room_is_set_up(args: ChatCliArgsView, listen: Seq<char>)
    ensures
        ({
            let steps = start_steps(args, listen);
            let listening = seq![StartStep::Listen { address: listen }];
            let reaching: Seq<StartStep<Seq<char>>> = match args.peer {
                Some(address) => seq![StartStep::DialPeer { address }],
                None => seq![],
            };
            match args.rendezvous_server {
                None => steps == listening + reaching,
                Some(address) => match addressed_peer(address) {
                    AddressedPeer::Peer(peer) => steps == listening + seq![
                        StartStep::ServerNamed { peer },
                        StartStep::DialServer { address },
                    ] + reaching,
                    AddressedPeer::Malformed(reason) => steps == listening + seq![
                        StartStep::ServerMalformed { reason },
                    ] + reaching,
                    AddressedPeer::Unnamed => steps == listening + seq![StartStep::ServerUnnamed]
                        + reaching,
                },
            }
        }),
{
    assert(args.rendezvous_server is None ==> start_steps(args, listen) =~= seq![
        StartStep::Listen { address: listen },
    ] + match args.peer {
        Some(address) => seq![StartStep::DialPeer { address }],
        None => seq![],
    });
}

/// A message does the same however it comes to the room.
pub proof fn law_messages_are_events<C>(r: RoomView<C>, message: ChatMessageView, at: u64)
    ensures
        chat_event(r, ChatEventView::Heard { message }, at) == on_message(r, message, at),
{
}

/// Whatever this side publishes about itself carries its id and the name of its user, and what it
/// says carries the words and the time that it was given.
pub proof fn law_messages_carry_who_sends_them<C>(
    r: RoomView<C>,
    action: PresenceAction,
    content: Seq<char>,
    timestamp: u64,
)
    ensures
        presence(r, action) == (ChatMessageView::UserPresence {
            action,
            user_id: r.local,
            user_name: r.name,
        }),
        utterance(r, content, timestamp) == (ChatMessageView::UserMessage {
            sender_id: r.local,
            sender_name: r.name,
            content,
            timestamp,
        }),
{
}

/// A discovery asks the rendezvous server, and its time is remembered; without a server nothing is
/// asked and nothing changes.
pub proof fn law_discovery_is_noted<C>(r: RoomView<C>, at: u64)
    ensures
        discovery(r) == peers_asked_for(r),
        r.server is Some ==> discovering(r, at) == (RoomView {
            last_discovery_time: Some(at),
            ..r
        }),
        r.server is None ==> discovering(r, at) == r,
{
}

}
