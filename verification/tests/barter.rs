use swapbytes::barter::{
    accepted_file_saved, deliver_file, deliver_sealed, delivery_saved, plan_session,
    received_file_name, seal_outcome, session_step_done, BarterAction, BarterEvent, BarterNotice,
    BarterSession, FileOutcome, SealedFile, Sent, SessionStart,
};
use swapbytes::messages::{BarterMessage, BarterResponse};

fn s(text: &str) -> String {
    text.to_string()
}

fn tell(notice: BarterNotice<String>) -> BarterAction<u32> {
    BarterAction::Tell(notice)
}

fn alone() -> BarterSession<u32> {
    BarterSession::start().unwrap()
}

fn with_peer(peer: &str) -> BarterSession<u32> {
    let mut session = alone();
    assert_eq!(
        session.handle_event(BarterEvent::Connected { peer: s(peer) }),
        vec![tell(BarterNotice::ConnectionEstablished { peer: s(peer) })]
    );
    session
}

fn request(
    session: &mut BarterSession<u32>,
    peer: &str,
    channel: u32,
    request: BarterMessage,
) -> Vec<BarterAction<u32>> {
    session.handle_event(BarterEvent::Request { peer: s(peer), channel, request })
}

fn respond(
    session: &mut BarterSession<u32>,
    peer: &str,
    sent: Sent,
    response: BarterResponse,
) -> Vec<BarterAction<u32>> {
    session.handle_event(BarterEvent::Response { peer: s(peer), sent, response })
}

fn propose(
    session: &mut BarterSession<u32>,
    peer: &str,
    channel: u32,
    offering: &str,
    requesting: &str,
) {
    assert_eq!(
        request(
            session,
            peer,
            channel,
            BarterMessage::BarterRequest {
                offering: s(offering),
                requesting: s(requesting),
                key: s("k")
            }
        ),
        vec![tell(BarterNotice::RequestReceived {
            peer: s(peer),
            offering: s(offering),
            requesting: s(requesting)
        })]
    );
}

fn accepting(peer: &str, channel: u32, filename: &str) -> Vec<BarterAction<u32>> {
    vec![
        tell(BarterNotice::Accepting { peer: s(peer) }),
        BarterAction::ReadForAnswer { channel, filename: s(filename), key: s("k") },
    ]
}

/// An acceptance that comes with a file for a session.
fn accepted(session: &BarterSession<u32>, file: &[u8]) -> BarterResponse {
    match seal_outcome(&session.public_key(), FileOutcome::Content(file.to_vec())) {
        SealedFile::Sealed { data, .. } => {
            BarterResponse::Accepted { file_data: data, key: s("k") }
        }
        other => panic!("{:?}", other),
    }
}

fn files_touched(actions: &Vec<BarterAction<u32>>) -> Vec<String> {
    let mut files = vec![];
    for action in actions {
        match action {
            BarterAction::SaveAccepted { filename, .. } => files.push(filename.clone()),
            BarterAction::ReadForDelivery { filename, .. } => files.push(filename.clone()),
            BarterAction::ReadForAnswer { filename, .. } => files.push(filename.clone()),
            _ => {}
        }
    }
    files
}

#[test]
fn two_peers_swap_files() {
    let mut alice = with_peer("bob");
    let mut bob = with_peer("alice");
    assert_eq!(
        alice.handle_line("/barter 1.txt 2.txt"),
        vec![BarterAction::CheckOffer { offering: s("1.txt"), requesting: s("2.txt") }]
    );
    let mut proposing = alice.proposal_checked(s("1.txt"), s("2.txt"), true);
    assert_eq!(proposing[0], tell(BarterNotice::SendingRequest { peer: s("bob") }));
    let (message, sent) = match proposing.pop() {
        Some(BarterAction::Send { peer, message, sent }) if peer == "bob" => (message, sent),
        other => panic!("{:?}", other),
    };
    assert_eq!(sent, Sent::Barter);
    assert_eq!(
        message,
        BarterMessage::BarterRequest {
            offering: s("1.txt"),
            requesting: s("2.txt"),
            key: alice.public_key()
        }
    );
    request(&mut bob, "alice", 1, message);
    let key = alice.public_key();
    assert_eq!(
        bob.handle_line("/accept"),
        vec![
            tell(BarterNotice::Accepting { peer: s("alice") }),
            BarterAction::ReadForAnswer { channel: 1, filename: s("2.txt"), key: key.clone() }
        ]
    );
    let mut answering =
        bob.answer_with_file(1, s("2.txt"), &key, FileOutcome::Content(vec![2, 2]));
    assert_eq!(answering[0], tell(BarterNotice::FileRead { filename: s("2.txt"), size: 2 }));
    let response = match answering.pop() {
        Some(BarterAction::Respond { channel: 1, response }) => response,
        other => panic!("{:?}", other),
    };
    let size = match &response {
        BarterResponse::Accepted { file_data, key } => {
            assert_eq!(key, &bob.public_key());
            assert_ne!(file_data, &vec![2, 2]);
            file_data.len()
        }
        other => panic!("{:?}", other),
    };
    let key = bob.public_key();
    assert_eq!(
        respond(&mut alice, "bob", sent, response),
        vec![
            tell(BarterNotice::BarterAccepted { peer: s("bob"), size }),
            BarterAction::SaveAccepted { filename: s("received_2.txt"), data: vec![2, 2] },
            tell(BarterNotice::ReadingOffer { filename: s("1.txt") }),
            BarterAction::ReadForDelivery {
                peer: s("bob"),
                filename: s("1.txt"),
                key: key.clone()
            }
        ]
    );
    let mut delivering =
        deliver_file::<u32>(s("bob"), s("1.txt"), &key, FileOutcome::Content(vec![1]));
    assert_eq!(delivering[0], tell(BarterNotice::SendingOffer { size: 1 }));
    let (message, sent) = match delivering.pop() {
        Some(BarterAction::Send { peer, message, sent }) if peer == "bob" => (message, sent),
        other => panic!("{:?}", other),
    };
    let saving = request(&mut bob, "alice", 2, message);
    assert_eq!(
        saving[1],
        BarterAction::SaveDelivery { channel: 2, filename: s("received_1.txt"), data: vec![1] }
    );
    assert_eq!(
        delivery_saved(2, s("received_1.txt"), true),
        vec![
            tell(BarterNotice::DeliverySaved { filename: s("received_1.txt") }),
            BarterAction::Respond { channel: 2, response: BarterResponse::FileReceived }
        ]
    );
    assert_eq!(
        respond(&mut alice, "bob", sent, BarterResponse::FileReceived),
        vec![tell(BarterNotice::BarterCompleted { peer: s("bob") })]
    );
    // The barter is over: a second acceptance finds nothing to swap.
    let again = accepted(&alice, &[9]);
    assert_eq!(respond(&mut alice, "bob", Sent::Barter, again).len(), 1);
}

#[test]
fn crossing_proposals_do_not_mix() {
    // The peer's proposal does not touch ours.
    let mut session = with_peer("p");
    session.proposal_checked(s("f"), s("g"), true);
    propose(&mut session, "p", 1, "x", "y");
    let answer = accepted(&session, &[1]);
    let actions = respond(&mut session, "p", Sent::Barter, answer);
    assert_eq!(files_touched(&actions), vec!["received_g", "f"]);
    // Ours does not touch the peer's.
    let mut session = with_peer("p");
    propose(&mut session, "p", 1, "x", "y");
    session.proposal_checked(s("a"), s("b"), true);
    assert_eq!(session.handle_line("/accept"), accepting("p", 1, "y"));
}

#[test]
fn only_the_key_in_a_proposal_is_the_sessions_own() {
    let mut first = with_peer("p");
    let mut second = with_peer("p");
    assert_ne!(first.public_key(), second.public_key());
    for session in [&mut first, &mut second] {
        let key = session.public_key();
        let actions = session.proposal_checked(s("a"), s("b"), true);
        let message = BarterMessage::BarterRequest { offering: s("a"), requesting: s("b"), key };
        assert_eq!(
            actions.last(),
            Some(&BarterAction::Send { peer: s("p"), message, sent: Sent::Barter })
        );
        propose(session, "p", 1, "x", "y");
        assert_eq!(session.handle_line("/accept"), accepting("p", 1, "y"));
        let answer = accepted(session, &[1]);
        let actions = respond(session, "p", Sent::Barter, answer);
        assert_eq!(files_touched(&actions), vec!["received_b", "a"]);
        assert_eq!(
            actions[1],
            BarterAction::SaveAccepted { filename: s("received_b"), data: vec![1] }
        );
    }
}

#[test]
fn a_refusal_of_ours_leaves_the_proposal_of_the_peer() {
    let mut session = with_peer("p");
    session.proposal_checked(s("a"), s("b"), true);
    propose(&mut session, "p", 1, "x", "y");
    assert_eq!(
        respond(&mut session, "p", Sent::Barter, BarterResponse::Declined),
        vec![tell(BarterNotice::BarterDeclined { peer: s("p") })]
    );
    assert_eq!(session.handle_line("/accept"), accepting("p", 1, "y"));
}

#[test]
fn a_peer_cannot_name_what_is_sent() {
    let mut session = with_peer("p");
    session.handle_line("hello");
    propose(&mut session, "p", 1, "secret", "y");
    for sent in [Sent::Conversation, Sent::Barter] {
        let answer = accepted(&session, &[1]);
        assert_eq!(files_touched(&respond(&mut session, "p", sent, answer)), Vec::<String>::new());
    }
    session.proposal_checked(s("f"), s("g"), true);
    let answer = accepted(&session, &[1]);
    let actions = respond(&mut session, "p", Sent::Conversation, answer);
    assert_eq!(files_touched(&actions), Vec::<String>::new());
    let answer = accepted(&session, &[1]);
    let actions = respond(&mut session, "q", Sent::Barter, answer);
    assert_eq!(files_touched(&actions), Vec::<String>::new());
}

#[test]
fn a_newer_proposal_replaces_an_older_one() {
    let mut session = with_peer("p");
    session.proposal_checked(s("a"), s("b"), true);
    session.proposal_checked(s("f"), s("g"), true);
    let answer = accepted(&session, &[1]);
    let actions = respond(&mut session, "p", Sent::Barter, answer);
    assert_eq!(files_touched(&actions), vec!["received_g", "f"]);
    // A refusal ends what is open, and an answer to a line of conversation does not.
    respond(&mut session, "p", Sent::Conversation, BarterResponse::Declined);
    let answer = accepted(&session, &[1]);
    let actions = respond(&mut session, "p", Sent::Barter, answer);
    assert_eq!(files_touched(&actions), vec!["received_g", "f"]);
    respond(&mut session, "p", Sent::Barter, BarterResponse::Declined);
    let answer = accepted(&session, &[1]);
    assert_eq!(respond(&mut session, "p", Sent::Barter, answer).len(), 1);
}

#[test]
fn what_cannot_be_opened_is_not_saved() {
    let mut session = with_peer("p");
    session.proposal_checked(s("f"), s("g"), true);
    let other = accepted(&alone(), &[1]);
    let size = match &other {
        BarterResponse::Accepted { file_data, .. } => file_data.len(),
        _ => 0,
    };
    assert_eq!(
        respond(&mut session, "p", Sent::Barter, other),
        vec![
            tell(BarterNotice::BarterAccepted { peer: s("p"), size }),
            tell(BarterNotice::AcceptedFileUnreadable { peer: s("p") })
        ]
    );
    let answer = accepted(&session, &[1]);
    assert_eq!(respond(&mut session, "p", Sent::Barter, answer).len(), 1);
    let plain = BarterMessage::FileDelivery { filename: s("x"), file_data: vec![1, 2] };
    assert_eq!(
        request(&mut session, "p", 4, plain),
        vec![
            tell(BarterNotice::DeliveryReceived { peer: s("p"), filename: s("x"), size: 2 }),
            tell(BarterNotice::DeliveryUnreadable { peer: s("p") }),
            BarterAction::Respond { channel: 4, response: BarterResponse::Declined }
        ]
    );
    assert_eq!(
        session.delivery_opened(s("p"), 4, s("x"), 9, Some(vec![7])),
        vec![
            tell(BarterNotice::DeliveryReceived { peer: s("p"), filename: s("x"), size: 9 }),
            BarterAction::SaveDelivery { channel: 4, filename: s("received_x"), data: vec![7] }
        ]
    );
}

#[test]
fn a_session_needs_a_secret_key() {
    assert!(BarterSession::<u32>::new(s("no key")).is_none());
    assert_ne!(alone().public_key(), alone().public_key());
    assert!(alone().public_key().parse::<age::x25519::Recipient>().is_ok());
}

#[test]
fn received_files_have_a_prefix() {
    assert_eq!(received_file_name("document.txt"), "received_document.txt");
    assert_eq!(
        accepted_file_saved(s("received_x"), true),
        BarterNotice::AcceptedFileSaved { filename: s("received_x") }
    );
    assert_eq!(accepted_file_saved(s("received_x"), false), BarterNotice::AcceptedFileNotSaved);
}

#[test]
fn unusable_proposals_are_not_sent() {
    let mut session = with_peer("bob");
    for line in ["/barter", "/barter a"] {
        assert_eq!(session.handle_line(line), vec![tell(BarterNotice::BarterUsage)]);
    }
    assert_eq!(
        session.handle_line("/barter a b c"),
        vec![BarterAction::CheckOffer { offering: s("a"), requesting: s("b") }]
    );
    assert_eq!(
        session.proposal_checked(s("a"), s("b"), false),
        vec![tell(BarterNotice::NoSuchFile { filename: s("a") })]
    );
    let mut alone = alone();
    assert_eq!(alone.handle_line("/barter a b"), vec![tell(BarterNotice::NoPeers)]);
    assert_eq!(alone.handle_line("/barter a"), vec![tell(BarterNotice::BarterUsage)]);
    assert_eq!(
        alone.proposal_checked(s("a"), s("b"), true),
        vec![tell(BarterNotice::NoPeers)]
    );
}

#[test]
fn the_latest_proposal_is_answered_first() {
    let mut session = with_peer("bob");
    propose(&mut session, "bob", 1, "a", "b");
    propose(&mut session, "eve", 2, "c", "d");
    propose(&mut session, "bob", 3, "e", "f");
    assert_eq!(session.handle_line("/accept"), accepting("bob", 3, "f"));
    assert_eq!(
        session.handle_line("/decline"),
        vec![
            tell(BarterNotice::Declining { peer: s("eve") }),
            BarterAction::Respond { channel: 2, response: BarterResponse::Declined }
        ]
    );
    assert_eq!(session.handle_line("/accept"), vec![tell(BarterNotice::NothingToAccept)]);
    assert_eq!(session.handle_line("/decline"), vec![tell(BarterNotice::NothingToDecline)]);
}

#[test]
fn a_file_that_cannot_be_read_or_sealed_declines() {
    let session = alone();
    let key = session.public_key();
    let declined = || BarterAction::Respond { channel: 7, response: BarterResponse::Declined };
    assert_eq!(
        session.answer_with_file(7, s("x"), &key, FileOutcome::NotOpened),
        vec![tell(BarterNotice::DecliningMissingFile { filename: s("x") }), declined()]
    );
    assert_eq!(
        session.answer_with_file(7, s("x"), &key, FileOutcome::NotRead),
        vec![tell(BarterNotice::DecliningUnreadFile), declined()]
    );
    assert_eq!(
        session.answer_with_file(7, s("x"), "no key", FileOutcome::Content(vec![1])),
        vec![tell(BarterNotice::DecliningUnsealedFile { filename: s("x") }), declined()]
    );
    let sealed = SealedFile::Sealed { size: 1, data: vec![5, 5] };
    assert_eq!(
        session.answer_sealed(7, s("x"), sealed),
        vec![
            tell(BarterNotice::FileRead { filename: s("x"), size: 1 }),
            BarterAction::Respond {
                channel: 7,
                response: BarterResponse::Accepted { file_data: vec![5, 5], key }
            }
        ]
    );
}

#[test]
fn an_offer_may_be_undeliverable() {
    let deliver = |outcome: FileOutcome, key: &str| {
        deliver_file::<u32>(s("bob"), s("x"), key, outcome)
    };
    assert_eq!(deliver(FileOutcome::NotOpened, "k"), vec![tell(BarterNotice::OfferNotOpened)]);
    assert_eq!(deliver(FileOutcome::NotRead, "k"), vec![tell(BarterNotice::OfferNotRead)]);
    assert_eq!(
        deliver(FileOutcome::Content(vec![1]), "k"),
        vec![tell(BarterNotice::OfferNotSealed { peer: s("bob") })]
    );
    let sealed = SealedFile::Sealed { size: 1, data: vec![5, 5] };
    assert_eq!(
        deliver_sealed::<u32>(s("bob"), s("x"), sealed),
        vec![
            tell(BarterNotice::SendingOffer { size: 1 }),
            BarterAction::Send {
                peer: s("bob"),
                message: BarterMessage::FileDelivery { filename: s("x"), file_data: vec![5, 5] },
                sent: Sent::Barter
            }
        ]
    );
    assert_eq!(
        delivery_saved(7, s("received_x"), false),
        vec![
            tell(BarterNotice::DeliveryNotSaved),
            BarterAction::Respond { channel: 7, response: BarterResponse::Declined }
        ]
    );
}

#[test]
fn a_closed_connection_is_forgotten() {
    let mut session = with_peer("bob");
    session.handle_event(BarterEvent::Connected { peer: s("eve") });
    session.handle_event(BarterEvent::Connected { peer: s("bob") });
    session.proposal_checked(s("f"), s("g"), true);
    propose(&mut session, "bob", 1, "a", "b");
    propose(&mut session, "eve", 2, "c", "d");
    assert_eq!(
        session.handle_event(BarterEvent::Closed { peer: s("bob") }),
        vec![tell(BarterNotice::ConnectionClosed { peer: s("bob") })]
    );
    assert_eq!(
        session.handle_line("/peers"),
        vec![
            tell(BarterNotice::PeersHeading),
            tell(BarterNotice::PeerRow { number: 1, peer: s("eve") }),
            tell(BarterNotice::PeersEnd)
        ]
    );
    let answer = accepted(&session, &[1]);
    assert_eq!(respond(&mut session, "bob", Sent::Barter, answer).len(), 1);
    assert!(matches!(
        session.handle_line("/decline")[1],
        BarterAction::Respond { channel: 2, .. }
    ));
    assert_eq!(session.handle_line("/decline"), vec![tell(BarterNotice::NothingToDecline)]);
}

#[test]
fn partners_can_talk() {
    let mut session = with_peer("bob");
    assert_eq!(
        session.handle_line("hello there"),
        vec![BarterAction::Send {
            peer: s("bob"),
            message: BarterMessage::DirectMessage { content: s("hello there") },
            sent: Sent::Conversation
        }]
    );
    assert_eq!(session.handle_line(""), vec![tell(BarterNotice::CommandsBeginWithSlash)]);
    assert_eq!(
        request(&mut session, "bob", 5, BarterMessage::DirectMessage { content: s("hi") }),
        vec![
            tell(BarterNotice::DirectMessage { peer: s("bob"), content: s("hi") }),
            BarterAction::Respond { channel: 5, response: BarterResponse::MessageReceived }
        ]
    );
    assert_eq!(
        respond(&mut session, "bob", Sent::Conversation, BarterResponse::MessageReceived),
        vec![]
    );
    let mut alone = alone();
    assert_eq!(alone.handle_line("hello"), vec![tell(BarterNotice::NoPeers)]);
    assert_eq!(alone.handle_line(""), vec![tell(BarterNotice::CommandsBeginWithSlash)]);
}

#[test]
fn the_session_has_more_commands() {
    let mut session = alone();
    assert_eq!(session.handle_line("/peers"), vec![tell(BarterNotice::NoPeersConnected)]);
    assert_eq!(session.handle_line("/help"), vec![tell(BarterNotice::Help)]);
    assert_eq!(session.handle_line("/quit"), vec![tell(BarterNotice::UnknownCommand)]);
    assert_eq!(session.handle_line("/"), vec![tell(BarterNotice::UnknownCommand)]);
    assert_eq!(
        session.handle_line("/return"),
        vec![tell(BarterNotice::Returning), BarterAction::Return]
    );
    assert_eq!(
        session.handle_event(BarterEvent::Listening { address: s("/ip4/1.2.3.4") }),
        vec![tell(BarterNotice::Listening { address: s("/ip4/1.2.3.4") })]
    );
}

#[test]
fn a_session_begins() {
    let listen = || SessionStart::Listen { address: s("/ip4/0.0.0.0/tcp/50001") };
    let dial = || SessionStart::Dial { address: s("/ip4/1.2.3.4/tcp/50001") };
    assert_eq!(plan_session(&Some(s("50001")), None), Ok(vec![listen()]));
    assert_eq!(
        plan_session(&Some(s("050001")), Some(s("/ip4/1.2.3.4/tcp/50001"))),
        Ok(vec![listen(), dial()])
    );
    assert!(plan_session(&Some(s("http")), None).is_err());
    assert_eq!(session_step_done(&listen(), None), Ok(()));
    assert_eq!(session_step_done(&listen(), Some(s("busy"))), Err(s("busy")));
    assert_eq!(session_step_done(&dial(), Some(s("gone"))), Ok(()));
}
