use swapbytes::chat_room::{
    address_to_dial, start_step_done, ChatCliArgs, ChatRoom, SendOutcome, StartStep, BARTER_PORT,
    DISCOVERY_INTERVAL, DISCOVERY_LIMIT, HEARTBEAT_INTERVAL, MIN_DISCOVERY_INTERVAL,
    SETTLING_MILLIS,
};
use swapbytes::chat_types::{
    ChatAction, ChatEvent, ChatNotice, Registration, RendezvousError, RendezvousFailure,
};
use swapbytes::launch::{after_chat, AfterChat};
use swapbytes::messages::{
    BarterNegotiationRequest, BarterNegotiationResponse, ChatMessage, ChatRoomExit, PresenceAction,
};
use swapbytes::registration::AddressStep;

const ALICE: &str = "QmcgpsyWgH8Y8ajJz1Cu72KnS5uo2Aa2LpzU7kinSupNKC";
const BOB: &str = "QmYyQSo1c1Ym7orWxLYvCrM2EmxFTANf8wXmmE7DWjhx5N";
const EVE: &str = "QmNnooDu7bfjPFoTZYxMNLWUQJyrVwtbZg5gBMjTezGAJN";
const SERVER: &str = "QmaCpDMGvV2BGHeYERUEnRQAwe3N8SzbUtfsmvsqQLuvuJ";
const START: u64 = 1_000_000_000_000;

fn s(text: &str) -> String {
    text.to_string()
}

fn tell(notice: ChatNotice<String>) -> ChatAction<u32> {
    ChatAction::Tell(notice)
}

fn args(server: Option<String>) -> ChatCliArgs {
    ChatCliArgs { port: None, peer: None, rendezvous_server: server, username: Some(s("Alice")) }
}

/// The room of Alice, without a rendezvous server.
fn room() -> ChatRoom<u32> {
    ChatRoom::new(s("Alice"), args(None), s(ALICE), START).unwrap().0
}

/// The room of Alice, with a rendezvous server.
fn served_room() -> ChatRoom<u32> {
    let server = format!("/ip4/1.2.3.4/tcp/50002/p2p/{}", SERVER);
    ChatRoom::new(s("Alice"), args(Some(server)), s(ALICE), START).unwrap().0
}

fn presence(action: PresenceAction, id: &str, name: &str) -> ChatMessage {
    ChatMessage::UserPresence { action, user_id: s(id), user_name: s(name) }
}

fn joins(room: &mut ChatRoom<u32>, id: &str, name: &str) -> Vec<ChatAction<u32>> {
    room.handle_event(
        ChatEvent::Heard { message: presence(PresenceAction::Join, id, name) },
        START,
    )
}

fn types(room: &mut ChatRoom<u32>, line: &str) -> Vec<ChatAction<u32>> {
    room.handle_line_at(line, START, &Some(s("10.0.0.7")), Some(77))
}

fn announced() -> ChatAction<u32> {
    ChatAction::Announce(presence(PresenceAction::Join, ALICE, "Alice"))
}

fn discovery() -> Vec<ChatAction<u32>> {
    vec![
        tell(ChatNotice::DiscoveryStarting { server: s(SERVER) }),
        ChatAction::Discover {
            server: s(SERVER),
            namespace: s("p2p-file-barter"),
            limit: DISCOVERY_LIMIT,
        },
        tell(ChatNotice::DiscoveryStarted),
    ]
}

#[test]
fn a_room_is_set_up() {
    let server = format!("/ip4/1.2.3.4/tcp/50002/p2p/{}", SERVER);
    let (_, steps) = ChatRoom::<u32>::new(
        s("Alice"),
        ChatCliArgs {
            port: Some(s("4001")),
            peer: Some(s("/ip4/5.6.7.8/tcp/1")),
            rendezvous_server: Some(server.clone()),
            username: None,
        },
        s(ALICE),
        START,
    )
    .ok()
    .unwrap();
    assert_eq!(
        steps,
        vec![
            StartStep::Listen { address: s("/ip4/0.0.0.0/tcp/4001") },
            StartStep::ServerNamed { peer: s(SERVER) },
            StartStep::DialServer { address: server },
            StartStep::DialPeer { address: s("/ip4/5.6.7.8/tcp/1") },
        ]
    );
}

#[test]
fn a_room_may_do_without_its_server() {
    let unnamed = Some(s("/ip4/1.2.3.4/tcp/50002"));
    let (mut room, steps) =
        ChatRoom::<u32>::new(s("Alice"), args(unnamed), s(ALICE), START).ok().unwrap();
    assert_eq!(steps[1], StartStep::ServerUnnamed);
    assert_eq!(types(&mut room, "/discover"), vec![tell(ChatNotice::NoServer)]);
    let malformed = Some(s("/ip4/192.168.1.5/tcp/50002/p2p/ExamplePeerId"));
    let (mut room, steps) =
        ChatRoom::<u32>::new(s("Alice"), args(malformed), s(ALICE), START).ok().unwrap();
    assert!(matches!(steps[1], StartStep::ServerMalformed { .. }));
    assert_eq!(types(&mut room, "/discover"), vec![tell(ChatNotice::NoServer)]);
}

#[test]
fn a_room_needs_a_port() {
    let bad = ChatCliArgs { port: Some(s("http")), ..args(None) };
    assert!(ChatRoom::<u32>::new(s("Alice"), bad, s(ALICE), START).is_err());
}

#[test]
fn what_is_said_goes_to_everyone() {
    let mut room = room();
    let said = |content: &str| {
        vec![ChatAction::Say(ChatMessage::UserMessage {
            sender_id: s(ALICE),
            sender_name: s("Alice"),
            content: s(content),
            timestamp: 77,
        })]
    };
    assert_eq!(types(&mut room, "hello /quit"), said("hello /quit"));
    assert_eq!(types(&mut room, ""), said(""));
    assert_eq!(types(&mut room, " /quit"), said(" /quit"));
}

#[test]
fn others_hear_what_is_said() {
    let mut room = room();
    let message = |id: &str| ChatMessage::UserMessage {
        sender_id: s(id),
        sender_name: s("Bob"),
        content: s("hi"),
        timestamp: 86399,
    };
    assert_eq!(
        room.handle_message(message(BOB), START),
        vec![tell(ChatNotice::UserMessage {
            time: s("23:59:59"),
            name: s("Bob"),
            content: s("hi")
        })]
    );
    assert_eq!(room.handle_message(message(ALICE), START), vec![]);
}

#[test]
fn unpublished_words_fail_only_in_company() {
    let mut room = room();
    assert_eq!(room.message_published(true), SendOutcome::Sent);
    assert_eq!(room.message_published(false), SendOutcome::NobodyThere);
    joins(&mut room, BOB, "Bob");
    assert_eq!(room.message_published(true), SendOutcome::Sent);
    assert_eq!(room.message_published(false), SendOutcome::Failed);
}

#[test]
fn peers_are_listed_by_name() {
    let mut room = room();
    assert_eq!(types(&mut room, "/peers"), vec![tell(ChatNotice::NoPeersInRoom)]);
    assert_eq!(
        joins(&mut room, BOB, "Bob"),
        vec![tell(ChatNotice::UserJoined { name: s("Bob"), peer: s(BOB) }), announced()]
    );
    assert_eq!(
        joins(&mut room, EVE, "Eve"),
        vec![tell(ChatNotice::UserJoined { name: s("Eve"), peer: s(EVE) })]
    );
    assert_eq!(joins(&mut room, BOB, "Bobby"), vec![]);
    assert_eq!(
        types(&mut room, "/peers now"),
        vec![
            tell(ChatNotice::PeersHeading),
            tell(ChatNotice::PeerRow { number: 1, name: s("Bobby"), peer: s(BOB) }),
            tell(ChatNotice::PeerRow { number: 2, name: s("Eve"), peer: s(EVE) }),
            tell(ChatNotice::PeersEnd),
        ]
    );
}

#[test]
fn peers_leave() {
    let mut room = room();
    let leaves = || ChatEvent::Heard { message: presence(PresenceAction::Leave, BOB, "Bob") };
    assert_eq!(room.handle_event(leaves(), START), vec![]);
    joins(&mut room, BOB, "Bob");
    assert_eq!(
        room.handle_event(leaves(), START),
        vec![tell(ChatNotice::UserLeft { name: s("Bob"), peer: s(BOB) })]
    );
    assert_eq!(types(&mut room, "/peers"), vec![tell(ChatNotice::NoPeersInRoom)]);
    let nobody = ChatEvent::Heard { message: presence(PresenceAction::Leave, "no id", "Bob") };
    assert_eq!(room.handle_event(nobody, START), vec![]);
}

#[test]
fn presence_needs_an_id() {
    let mut room = room();
    let told = joins(&mut room, "no id", "Bob");
    assert_eq!(told.len(), 1);
    assert!(matches!(told[0], ChatAction::Tell(ChatNotice::InvalidPresence { .. })));
    assert_eq!(joins(&mut room, ALICE, "Alice"), vec![]);
    assert_eq!(types(&mut room, "/peers"), vec![tell(ChatNotice::NoPeersInRoom)]);
}

#[test]
fn connections_come_and_go() {
    let mut room = room();
    assert_eq!(
        room.handle_event(ChatEvent::Connected { peer: s(BOB) }, START),
        vec![tell(ChatNotice::ConnectionEstablished { peer: s(BOB) }), announced()]
    );
    assert_eq!(
        types(&mut room, "/peers")[1],
        tell(ChatNotice::PeerRow {
            number: 1,
            name: s("Connected (awaiting username)"),
            peer: s(BOB)
        })
    );
    joins(&mut room, BOB, "Bob");
    room.handle_event(ChatEvent::Connected { peer: s(BOB) }, START);
    assert_eq!(
        room.handle_event(ChatEvent::Closed { peer: s(BOB) }, START),
        vec![tell(ChatNotice::PeerDisconnected { name: s("Bob"), peer: s(BOB) })]
    );
    assert_eq!(
        room.handle_event(ChatEvent::Closed { peer: s(BOB) }, START),
        vec![tell(ChatNotice::ConnectionClosed { peer: s(BOB) })]
    );
}

#[test]
fn a_session_is_asked_for_by_name_or_id() {
    let mut room = room();
    joins(&mut room, BOB, "Bob");
    let asked = vec![
        tell(ChatNotice::SendingRequest { peer: s(BOB) }),
        ChatAction::Propose {
            peer: s(BOB),
            request: BarterNegotiationRequest::ProposeBarterSession,
        },
        tell(ChatNotice::RequestSent),
    ];
    assert_eq!(types(&mut room, "/dm Bob"), asked);
    assert_eq!(types(&mut room, &format!("/dm  {}\t", BOB)), asked);
    assert_eq!(types(&mut room, &format!("/barter {} ", BOB)), asked);
    assert_eq!(
        types(&mut room, "/barter Bob"),
        vec![tell(ChatNotice::PeerNotFound { peer: s("Bob") })]
    );
    assert_eq!(
        types(&mut room, &format!("/dm {}", EVE)),
        vec![tell(ChatNotice::PeerNotFound { peer: s(EVE) })]
    );
    assert_eq!(types(&mut room, "/dm"), vec![tell(ChatNotice::DmUsage)]);
    assert_eq!(types(&mut room, "/barter"), vec![tell(ChatNotice::BarterUsage)]);
    assert_eq!(
        types(&mut room, "/dm "),
        vec![tell(ChatNotice::PeerNotFound { peer: s("") })]
    );
}

#[test]
fn an_id_comes_before_a_name() {
    let mut room = room();
    joins(&mut room, EVE, BOB);
    assert_eq!(room.find_addressee(BOB), Some(s(EVE)));
    joins(&mut room, BOB, "Bob");
    assert_eq!(room.find_addressee(BOB), Some(s(BOB)));
    assert_eq!(room.find_addressee("bob"), None);
}

#[test]
fn a_request_needs_an_id() {
    let room = room();
    assert_eq!(
        room.send_barter_negotiation_request(BOB),
        Ok(ChatAction::Propose {
            peer: s(BOB),
            request: BarterNegotiationRequest::ProposeBarterSession
        })
    );
    assert!(room.send_barter_negotiation_request("Bob").is_err());
    let mut odd = self::room();
    odd.handle_event(ChatEvent::Connected { peer: s("odd") }, START);
    let asked = types(&mut odd, "/dm odd");
    assert_eq!(asked.len(), 2);
    assert!(matches!(asked[1], ChatAction::Tell(ChatNotice::RequestNotSent { .. })));
}

#[test]
fn a_direct_request_is_accepted() {
    let mut room = room();
    assert_eq!(types(&mut room, "/accept"), vec![tell(ChatNotice::NothingToAccept)]);
    joins(&mut room, BOB, "Bob");
    let proposed = |channel: u32| ChatEvent::Proposed {
        peer: s(BOB),
        channel,
        request: BarterNegotiationRequest::ProposeBarterSession,
    };
    assert_eq!(
        room.handle_event(proposed(1), START),
        vec![tell(ChatNotice::DirectRequest { name: s("Bob"), peer: s(BOB) })]
    );
    room.handle_event(proposed(2), START);
    assert_eq!(BARTER_PORT, 50001);
    assert_eq!(
        types(&mut room, "/accept"),
        vec![
            tell(ChatNotice::SwitchingToBarter { peer: s(BOB) }),
            ChatAction::Respond {
                channel: 2,
                response: BarterNegotiationResponse::Accept {
                    addrs: vec![s("/ip4/10.0.0.7/tcp/50001"), s("/ip4/127.0.0.1/tcp/50001")]
                }
            },
            ChatAction::Exit(ChatRoomExit::AcceptBarterAsAcceptor {
                peer_id: s(BOB),
                peer_name: s("Bob")
            }),
        ]
    );
}

#[test]
fn two_users_arrange_a_session() {
    let mut alice = room();
    let mut bob: ChatRoom<u32> =
        ChatRoom::new(s("Bob"), args(None), s(BOB), START).ok().unwrap().0;
    alice.handle_message(bob.announce_presence(), START);
    bob.handle_message(alice.announce_presence(), START);
    let mut asking = types(&mut alice, "/dm Bob");
    let request = match asking.swap_remove(1) {
        ChatAction::Propose { peer, request } if peer == BOB => request,
        other => panic!("{:?}", other),
    };
    bob.handle_event(ChatEvent::Proposed { peer: s(ALICE), channel: 9, request }, START);
    let mut accepting = types(&mut bob, "/accept");
    assert_eq!(
        accepting.pop(),
        Some(ChatAction::Exit(ChatRoomExit::AcceptBarterAsAcceptor {
            peer_id: s(ALICE),
            peer_name: s("Alice")
        }))
    );
    let response = match accepting.pop() {
        Some(ChatAction::Respond { channel: 9, response }) => response,
        other => panic!("{:?}", other),
    };
    let answered =
        alice.handle_event(ChatEvent::Answered { peer: s(BOB), response }, START);
    let exit = match answered.into_iter().last() {
        Some(ChatAction::Exit(exit)) => exit,
        other => panic!("{:?}", other),
    };
    assert_eq!(
        after_chat(exit, &None),
        Ok(AfterChat::Barter { port: None, peer: Some(s("/ip4/10.0.0.7/tcp/50001")) })
    );
}

#[test]
fn one_peer_is_accepted() {
    let request = |from: &str| ChatMessage::BarterRequest {
        from_id: s(from),
        from_name: s("Name"),
        to_id: s(ALICE),
    };
    let asks = || ChatEvent::Proposed {
        peer: s(BOB),
        channel: 4,
        request: BarterNegotiationRequest::ProposeBarterSession,
    };
    let exit = |peer: &str| {
        Some(ChatAction::Exit(ChatRoomExit::AcceptBarterAsAcceptor {
            peer_id: s(peer),
            peer_name: s("Name"),
        }))
    };
    // Someone else asks in the room after a direct request: they are the one that is accepted.
    let mut room = self::room();
    room.handle_event(asks(), START);
    room.handle_message(request(EVE), START);
    let mut accepting = types(&mut room, "/accept");
    assert_eq!(accepting.pop(), exit(EVE));
    assert_eq!(accepting, vec![tell(ChatNotice::SwitchingToBarter { peer: s(EVE) })]);
    // The same peer asks again: the answer still goes to them.
    let mut room = self::room();
    room.handle_event(asks(), START);
    room.handle_message(request(BOB), START);
    let mut accepting = types(&mut room, "/accept");
    assert_eq!(accepting.pop(), exit(BOB));
    assert!(matches!(accepting.pop(), Some(ChatAction::Respond { channel: 4, .. })));
}

#[test]
fn a_room_is_entered_with_a_greeting() {
    assert_eq!(room().enter(START), vec![announced()]);
}

#[test]
fn a_room_that_is_entered_again_starts_afresh() {
    let mut room = served_room();
    let registered = || ChatEvent::Registered { server: s(SERVER), namespace: s("n"), ttl: 7200 };
    room.handle_event(ChatEvent::Listening { address: s("a") }, START);
    room.handle_event(ChatEvent::Connected { peer: s(SERVER) }, START);
    room.handle_event(registered(), START);
    let again = START + DISCOVERY_INTERVAL;
    assert_eq!(room.enter(again), vec![announced()]);
    // Neither registered nor listening: the clock only announces.
    assert_eq!(room.begin_turn(again + 1), vec![announced()]);
    // It is dialled and registered with as in the beginning.
    room.handle_event(ChatEvent::Listening { address: s("a") }, again);
    assert_eq!(room.begin_turn(again + 1).len(), 1);
    let connected = room.handle_event(ChatEvent::Connected { peer: s(SERVER) }, again + 1);
    assert_eq!(connected.last(), Some(&ChatAction::Register { server: s(SERVER) }));
    // The interval counts from when the room was entered.
    let mut later = served_room();
    later.enter(again);
    let joined = presence(PresenceAction::Join, BOB, "Bob");
    later.begin_turn(again + MIN_DISCOVERY_INTERVAL);
    assert!(!later.handle_message(joined, again).contains(&discovery()[1]));
}

#[test]
fn nothing_is_said_without_a_clock() {
    let mut room = room();
    assert_eq!(
        room.handle_line_at("hi", START, &None, None),
        vec![tell(ChatNotice::NoClock)]
    );
}

#[test]
fn a_room_needs_some_of_its_steps() {
    let why = || Some(s("why"));
    let listen = StartStep::Listen { address: s("a") };
    let peer = StartStep::DialPeer { address: s("a") };
    let server = StartStep::DialServer { address: s("a") };
    assert_eq!(start_step_done(&listen, None), Ok(()));
    assert_eq!(start_step_done(&listen, why()), Err(s("why")));
    assert_eq!(start_step_done(&peer, None), Ok(()));
    assert_eq!(start_step_done(&peer, why()), Err(s("why")));
    assert_eq!(start_step_done(&server, why()), Ok(()));
}

#[test]
fn failures_have_words() {
    for (failure, words) in [
        (RendezvousFailure::NoServer, "No rendezvous server specified"),
        (RendezvousFailure::InvalidNamespace, "Invalid namespace"),
        (RendezvousFailure::NoListeners, "No listening addresses available"),
        (
            RendezvousFailure::NoExternalAddresses,
            "No external addresses available for registration",
        ),
        (RendezvousFailure::BadAddress(s("why")), "why"),
        (RendezvousFailure::Refused(s("why")), "Registration request failed: why"),
    ] {
        assert_eq!(failure.words(), words);
    }
}

#[test]
fn a_stranger_has_no_name() {
    let mut room = room();
    let proposed = ChatEvent::Proposed {
        peer: s(BOB),
        channel: 1,
        request: BarterNegotiationRequest::ProposeBarterSession,
    };
    assert_eq!(
        room.handle_event(proposed, START),
        vec![tell(ChatNotice::DirectRequest { name: s("Unknown User"), peer: s(BOB) })]
    );
}

#[test]
fn a_request_in_the_room_is_accepted() {
    let mut room = room();
    let request = |from: &str, to: &str| ChatMessage::BarterRequest {
        from_id: s(from),
        from_name: s("Bob"),
        to_id: s(to),
    };
    assert_eq!(
        room.handle_message(request("odd", ALICE), START),
        vec![tell(ChatNotice::BarterRequested { name: s("Bob"), peer: s("odd") })]
    );
    assert_eq!(types(&mut room, "/accept"), vec![tell(ChatNotice::CannotAccept)]);
    room.handle_message(request(BOB, ALICE), START);
    assert_eq!(
        types(&mut room, "/accept"),
        vec![
            tell(ChatNotice::SwitchingToBarter { peer: s(BOB) }),
            ChatAction::Exit(ChatRoomExit::AcceptBarterAsAcceptor {
                peer_id: s(BOB),
                peer_name: s("Bob")
            }),
        ]
    );
    assert_eq!(room.handle_message(request(ALICE, BOB), START), vec![]);
    let others = |to: &str| vec![tell(ChatNotice::OthersBarter { from: s("Bob"), to: s(to) })];
    assert_eq!(room.handle_message(request(BOB, EVE), START), others("Unknown"));
    assert_eq!(room.handle_message(request(BOB, "odd"), START), others("Unknown"));
    joins(&mut room, EVE, "Eve");
    assert_eq!(room.handle_message(request(BOB, EVE), START), others("Eve"));
}

#[test]
fn an_accepted_request_leaves_the_room() {
    let mut room = room();
    let addrs = vec![s("/ip4/10.0.0.7/tcp/50001"), s("/ip4/127.0.0.1/tcp/50001")];
    let list = "/ip4/10.0.0.7/tcp/50001,/ip4/127.0.0.1/tcp/50001";
    let left = || {
        ChatAction::Exit(ChatRoomExit::AcceptBarter { peer_id: s(BOB), addr: Some(s(list)) })
    };
    assert_eq!(
        room.handle_event(
            ChatEvent::Answered {
                peer: s(BOB),
                response: BarterNegotiationResponse::Accept { addrs: addrs.clone() }
            },
            START
        ),
        vec![tell(ChatNotice::RequestAccepted), ChatAction::AwaitEnter, left()]
    );
    assert_eq!(
        room.handle_event(
            ChatEvent::Answered { peer: s(BOB), response: BarterNegotiationResponse::Decline },
            START
        ),
        vec![tell(ChatNotice::RequestDeclined)]
    );
    let accepted = |to: &str| ChatMessage::BarterAccepted {
        from_id: s(BOB),
        from_name: s("Bob"),
        to_id: s(to),
        addrs: addrs.clone(),
    };
    assert_eq!(
        room.handle_message(accepted(ALICE), START),
        vec![tell(ChatNotice::BarterAccepted { name: s("Bob"), addrs: addrs.clone() }), left()]
    );
    assert_eq!(room.handle_message(accepted(EVE), START), vec![]);
}

#[test]
fn the_room_has_more_commands() {
    let mut room = room();
    assert_eq!(types(&mut room, "/help"), vec![tell(ChatNotice::Help)]);
    assert_eq!(types(&mut room, "/help me"), vec![tell(ChatNotice::Help)]);
    assert_eq!(types(&mut room, "/helpme"), vec![tell(ChatNotice::UnknownCommand)]);
    assert_eq!(types(&mut room, "/help\tme"), vec![tell(ChatNotice::UnknownCommand)]);
    assert_eq!(types(&mut room, "/"), vec![tell(ChatNotice::UnknownCommand)]);
}

#[test]
fn the_room_is_quit() {
    let leave = || ChatAction::TakeLeave(presence(PresenceAction::Leave, ALICE, "Alice"));
    assert_eq!(types(&mut room(), "/quit"), vec![leave()]);
    assert_eq!(types(&mut served_room(), "/quit"), vec![leave()]);
    for published in [true, false] {
        assert_eq!(
            room().leave_published(published),
            vec![tell(ChatNotice::Leaving), ChatAction::Exit(ChatRoomExit::Quit)]
        );
    }
    assert_eq!(
        served_room().leave_published(false),
        vec![
            ChatAction::Unregister { server: s(SERVER), namespace: s("p2p-file-barter") },
            tell(ChatNotice::Leaving),
            ChatAction::Exit(ChatRoomExit::Quit)
        ]
    );
}

#[test]
fn presence_is_announced_by_the_clock() {
    let mut room = room();
    assert_eq!(room.begin_turn(START + HEARTBEAT_INTERVAL), vec![]);
    assert_eq!(room.begin_turn(START + HEARTBEAT_INTERVAL + 1), vec![announced()]);
    assert_eq!(room.begin_turn(START + 2 * HEARTBEAT_INTERVAL + 1), vec![]);
    assert_eq!(room.begin_turn(START + 2 * HEARTBEAT_INTERVAL + 2), vec![announced()]);
    assert_eq!(room.begin_turn(0), vec![]);
    assert_eq!(
        room.announce_presence(),
        presence(PresenceAction::Join, ALICE, "Alice")
    );
}

#[test]
fn the_server_is_dialled_and_asked() {
    let mut room = served_room();
    assert_eq!(room.begin_turn(START), vec![]);
    assert_eq!(
        room.handle_event(ChatEvent::Listening { address: s("/ip4/10.0.0.7/tcp/1") }, START),
        vec![tell(ChatNotice::Listening { address: s("/ip4/10.0.0.7/tcp/1") })]
    );
    let dialled = ChatAction::DialServer { address: format!("/p2p/{}", SERVER) };
    assert_eq!(room.begin_turn(START), vec![dialled]);
    assert_eq!(
        room.handle_event(ChatEvent::Connected { peer: s(SERVER) }, START),
        vec![
            tell(ChatNotice::ConnectionEstablished { peer: s(SERVER) }),
            announced(),
            tell(ChatNotice::ConnectedToServer { server: s(SERVER) }),
            ChatAction::Pause { millis: SETTLING_MILLIS },
            ChatAction::Register { server: s(SERVER) },
        ]
    );
    assert_eq!(room.begin_turn(START), vec![]);
    assert_eq!(
        room.handle_event(
            ChatEvent::RegisterFailed {
                server: s(SERVER),
                namespace: s("n"),
                error: RendezvousError::Unavailable
            },
            START
        ),
        vec![tell(ChatNotice::RegistrationFailed {
            server: s(SERVER),
            namespace: s("n"),
            error: RendezvousError::Unavailable
        })]
    );
    assert_eq!(room.begin_turn(START), vec![ChatAction::Register { server: s(SERVER) }]);
    assert_eq!(room.begin_turn(START), vec![]);
}

#[test]
fn a_registered_room_discovers() {
    let mut room = served_room();
    let registered = ChatEvent::Registered { server: s(SERVER), namespace: s("n"), ttl: 7200 };
    assert_eq!(
        room.handle_event(registered, START + 5),
        vec![
            tell(ChatNotice::Registered { server: s(SERVER), namespace: s("n"), ttl: 7200 }),
            ChatAction::Discover {
                server: s(SERVER),
                namespace: s("n"),
                limit: DISCOVERY_LIMIT
            },
            tell(ChatNotice::DiscoveryAfterRegistration),
        ]
    );
    let due = START + 5 + DISCOVERY_INTERVAL;
    assert_eq!(room.begin_turn(due), vec![announced()]);
    assert_eq!(room.begin_turn(due + 1), discovery());
    assert_eq!(room.begin_turn(due + 2), vec![]);
    assert_eq!(
        room.handle_event(ChatEvent::Closed { peer: s(SERVER) }, due + 2),
        vec![
            tell(ChatNotice::ConnectionClosed { peer: s(SERVER) }),
            tell(ChatNotice::DisconnectedFromServer { server: s(SERVER) })
        ]
    );
    assert_eq!(room.begin_turn(due + 2 * DISCOVERY_INTERVAL), vec![announced()]);
}

#[test]
fn discovery_is_asked_for() {
    let mut room = served_room();
    assert_eq!(room.last_discovery_time(), None);
    let mut expected = discovery();
    expected.push(tell(ChatNotice::Discovering));
    assert_eq!(room.handle_line_at("/discover", START + 3, &None, Some(77)), expected);
    assert_eq!(room.last_discovery_time(), Some(START + 3));
    assert_eq!(room.discover_peers(START + 5), Ok(discovery()));
    assert_eq!(room.last_discovery_time(), Some(START + 5));
    let mut alone = self::room();
    assert_eq!(alone.discover_peers(START + 5), Err(RendezvousFailure::NoServer));
    assert_eq!(alone.last_discovery_time(), None);
}

#[test]
fn presence_causes_discovery_now_and_then() {
    let mut room = served_room();
    joins(&mut room, BOB, "Bob");
    let later = START + MIN_DISCOVERY_INTERVAL;
    room.begin_turn(later);
    assert_eq!(joins(&mut room, BOB, "Bob"), vec![announced()]);
    room.begin_turn(later + 1);
    let mut expected = discovery();
    expected.push(tell(ChatNotice::UserLeft { name: s("Bob"), peer: s(BOB) }));
    let leaves = ChatEvent::Heard { message: presence(PresenceAction::Leave, BOB, "Bob") };
    assert_eq!(room.handle_event(leaves, later + 4), expected);
    assert_eq!(room.last_discovery_time(), Some(later + 4));
    // The next one is not due, whatever happens in between.
    types(&mut room, "/peers");
    room.begin_turn(later + 1 + MIN_DISCOVERY_INTERVAL);
    assert_eq!(joins(&mut room, BOB, "Bob").len(), 2);
}

fn registered(peer: &str, addrs: Vec<String>) -> Registration {
    Registration { peer: s(peer), addrs, namespace: s("n"), ttl: 7200 }
}

#[test]
fn discovered_strangers_are_dialled() {
    let mut room = served_room();
    joins(&mut room, BOB, "Bob");
    let found = |peer: &str| {
        tell(ChatNotice::PeerFound { peer: s(peer), namespace: s("n"), ttl: 7200 })
    };
    let addrs = vec![s("/ip4/1.2.3.4/tcp/1"), s("/ip4/1.2.3.4/tcp/2")];
    assert_eq!(
        room.handle_event(
            ChatEvent::Discovered {
                server: s(SERVER),
                registrations: vec![
                    registered(ALICE, addrs.clone()),
                    registered(BOB, addrs.clone()),
                    registered(EVE, addrs.clone()),
                    registered(SERVER, vec![]),
                ]
            },
            START
        ),
        vec![
            tell(ChatNotice::Discovered { count: 4, server: s(SERVER) }),
            found(BOB),
            found(EVE),
            ChatAction::DialPeer { peer: s(EVE), addrs },
            found(SERVER),
            tell(ChatNotice::NoAddresses { peer: s(SERVER) }),
        ]
    );
    let expired = |peer: &str, connected: bool| {
        vec![tell(ChatNotice::RegistrationExpired { peer: s(peer), connected })]
    };
    assert_eq!(
        room.handle_event(ChatEvent::Expired { peer: s(EVE) }, START),
        expired(EVE, false)
    );
    assert_eq!(room.handle_event(ChatEvent::Expired { peer: s(BOB) }, START), expired(BOB, true));
}

#[test]
fn failed_discovery_is_reported() {
    let mut room = served_room();
    let failed = ChatEvent::DiscoverFailed {
        server: s(SERVER),
        in_namespace: None,
        error: RendezvousError::InvalidCookie,
    };
    assert_eq!(
        room.handle_event(failed, START),
        vec![tell(ChatNotice::DiscoveryFailed {
            server: s(SERVER),
            in_namespace: None,
            error: RendezvousError::InvalidCookie
        })]
    );
}

#[test]
fn addresses_are_dialled_until_one_answers() {
    let addrs = vec![s("a"), s("b")];
    assert_eq!(address_to_dial(&addrs, &vec![]), Some(0));
    assert_eq!(address_to_dial(&addrs, &vec![false]), Some(1));
    assert_eq!(address_to_dial(&addrs, &vec![true]), None);
    assert_eq!(address_to_dial(&addrs, &vec![false, false]), None);
    assert_eq!(address_to_dial(&vec![], &vec![]), None);
}

#[test]
fn the_machine_gives_address_and_time() {
    let mut room = room();
    let before = chrono::Utc::now().timestamp() as u64;
    let message = room.send_message(s("hi"));
    let typed = room.handle_line("hi", START);
    let after = chrono::Utc::now().timestamp() as u64;
    for said in [message, said(typed)] {
        match said {
            Some(ChatMessage::UserMessage { sender_id, sender_name, content, timestamp }) => {
                assert_eq!((sender_id, sender_name, content), (s(ALICE), s("Alice"), s("hi")));
                assert!(before <= timestamp && timestamp <= after);
            }
            other => panic!("{:?}", other),
        }
    }
    let addrs = room.collect_barter_addresses(7);
    assert_eq!(addrs.last(), Some(&s("/ip4/127.0.0.1/tcp/7")));
    match local_ip_address::local_ip() {
        Ok(ip) => assert_eq!(addrs[0], format!("/ip4/{}/tcp/7", ip)),
        Err(_) => assert_eq!(addrs.len(), 1),
    }
    room.handle_event(
        ChatEvent::Proposed {
            peer: s(BOB),
            channel: 1,
            request: BarterNegotiationRequest::ProposeBarterSession,
        },
        START,
    );
    let expected = room.collect_barter_addresses(BARTER_PORT);
    assert_eq!(
        room.handle_line("/accept", START)[1],
        ChatAction::Respond {
            channel: 1,
            response: BarterNegotiationResponse::Accept { addrs: expected }
        }
    );
}

fn said(mut actions: Vec<ChatAction<u32>>) -> Option<ChatMessage> {
    match actions.pop() {
        Some(ChatAction::Say(message)) => Some(message),
        _ => None,
    }
}

#[test]
fn a_room_registers() {
    let listeners = vec![s("/ip4/10.0.0.7/tcp/4001")];
    let (steps, going) = served_room().register_with_rendezvous(&listeners);
    assert_eq!(steps[0], AddressStep::Clear);
    assert_eq!(steps[1], AddressStep::AddListener(s("/ip4/10.0.0.7/tcp/4001")));
    assert!(going.is_ok());
    let (steps, going) = room().register_with_rendezvous(&listeners);
    assert_eq!((steps, going), (vec![], Err(RendezvousFailure::NoServer)));
}
