//! What the lines that a user types in the chat room do.

use crate::addresses::barter_addresses;
use crate::chat_laws::lemma_position_of_name;
use crate::chat_room::{
    addressee, barter_asked, chat_line, left, peer_rows, peers_told, position_of_name, RoomView,
};
use crate::chat_types::{ChatActionView, ChatNotice};
use crate::foreign::parsed_peer_id;
use crate::messages::{
    BarterNegotiationRequest, BarterNegotiationResponseView, ChatMessageView, ChatRoomExitView,
    PresenceAction,
};
use crate::table::{distinct, law_rows_are_found};
use crate::text::{
    after_first, before_first, begins_with, blank, law_trimmed, lemma_until_is, white_space,
};
use vstd::prelude::*;

verus! {

/// Whether a line is a command, alone or with something after a space.
pub open spec fn typed(line: Seq<char>, command: Seq<char>) -> bool {
    &&& command.len() <= line.len()
    &&& line.take(command.len() as int) == command
    &&& line.len() == command.len() || line[command.len() as int] == ' '
}

proof fn lemma_typed(line: Seq<char>, command: Seq<char>)
    requires
        typed(line, command),
        command.len() > 0,
        command[0] == '/',
        !command.contains(' '),
    ensures
        before_first(line, ' ') == command,
        after_first(line, ' ') == if line.len() == command.len() {
            None
        } else {
            Some(line.skip(command.len() as int + 1))
        },
        begins_with(line, "/"@),
{
    reveal_strlit("/");
    let n = command.len() as int;
    assert forall|i: int| 0 <= i < n implies line[i] != ' ' by {
        assert(line[i] == line.take(n)[i]);
        assert(command.contains(command[i]));
    }
    lemma_until_is(line, ' ', n);
    assert(line[0] == line.take(n)[0]);
    assert(line.subrange(0, 1) =~= "/"@);
}

/// The commands are told apart.
proof fn lemma_commands()
    ensures
        "/help"@ != "/quit"@,
        "/barter"@ != "/accept"@,
        "/help"@.len() == 5,
        "/peers"@.len() == 6,
        "/dm"@.len() == 3,
        "/barter"@.len() == 7,
        "/discover"@.len() == 9,
        "/accept"@.len() == 7,
        "/quit"@.len() == 5,
{
    reveal_strlit("/help");
    reveal_strlit("/peers");
    reveal_strlit("/dm");
    reveal_strlit("/barter");
    reveal_strlit("/discover");
    reveal_strlit("/accept");
    reveal_strlit("/quit");
    assert("/help"@[1] != "/quit"@[1]);
    assert("/barter"@[1] != "/accept"@[1]);
}

proof fn lemma_command_typed(line: Seq<char>, command: Seq<char>)
    requires
        typed(line, command),
        command == "/help"@ || command == "/peers"@ || command == "/dm"@ || command == "/barter"@
            || command == "/discover"@ || command == "/accept"@ || command == "/quit"@,
    ensures
        before_first(line, ' ') == command,
        after_first(line, ' ') == if line.len() == command.len() {
            None
        } else {
            Some(line.skip(command.len() as int + 1))
        },
        begins_with(line, "/"@),
{
    reveal_strlit("/help");
    reveal_strlit("/peers");
    reveal_strlit("/dm");
    reveal_strlit("/barter");
    reveal_strlit("/discover");
    reveal_strlit("/accept");
    reveal_strlit("/quit");
    lemma_typed(line, command);
}

/// Whoever is in the room, a line that does not begin with a slash is said to everyone, once and as
/// it was typed, under the id and the name of this side and at the time that the clock shows. Only
/// if the clock shows none is nothing said; the user is told so.
pub proof fn law_what_is_typed_is_said<C>(
    r: RoomView<C>,
    line: Seq<char>,
    at: u64,
    ip: Option<Seq<char>>,
    timestamp: u64,
)
    requires
        line.len() > 0 ==> line[0] != '/',
    ensures
        chat_line(r, line, at, ip, Some(timestamp)) == (
            r,
            seq![
                ChatActionView::<C>::Say(
                    ChatMessageView::UserMessage {
                        sender_id: r.local,
                        sender_name: r.name,
                        content: line,
                        timestamp,
                    },
                ),
            ],
        ),
        chat_line(r, line, at, ip, None) == (
            r,
            seq![ChatActionView::<C>::Tell(ChatNotice::NoClock)],
        ),
{
    reveal_strlit("/");
    if begins_with(line, "/"@) {
        assert(line.subrange(0, 1)[0] == line[0]);
    }
}

/// What a user sees and the network does when a peer is asked for a session: the request goes to
/// that peer, once, and to nobody else; if what is listed is no peer id, nothing is sent.
pub open spec fn asks_only<C>(peer: Seq<char>, actions: Seq<ChatActionView<C>>) -> bool {
    match parsed_peer_id(peer) {
        Ok(id) => actions == seq![
            ChatActionView::<C>::Tell(ChatNotice::SendingRequest { peer }),
            ChatActionView::Propose {
                peer: id,
                request: BarterNegotiationRequest::ProposeBarterSession,
            },
            ChatActionView::Tell(ChatNotice::RequestSent),
        ],
        Err(reason) => actions == seq![
            ChatActionView::<C>::Tell(ChatNotice::SendingRequest { peer }),
            ChatActionView::Tell(ChatNotice::RequestNotSent { reason }),
        ],
    }
}

proof fn lemma_asks_only<C>(peer: Seq<char>)
    ensures
        asks_only(peer, barter_asked::<C>(peer)),
{
    match parsed_peer_id(peer) {
        Ok(id) => {
            assert(barter_asked::<C>(peer) =~= seq![
                ChatActionView::<C>::Tell(ChatNotice::SendingRequest { peer }),
                ChatActionView::Propose {
                    peer: id,
                    request: BarterNegotiationRequest::ProposeBarterSession,
                },
                ChatActionView::Tell(ChatNotice::RequestSent),
            ]);
        },
        Err(reason) => {
            assert(barter_asked::<C>(peer) =~= seq![
                ChatActionView::<C>::Tell(ChatNotice::SendingRequest { peer }),
                ChatActionView::Tell(ChatNotice::RequestNotSent { reason }),
            ]);
        },
    }
}

/// A line with a command and one thing after it, with any white space around that.
pub open spec fn line_about(
    command: Seq<char>,
    front: Seq<char>,
    text: Seq<char>,
    back: Seq<char>,
) -> Seq<char> {
    command + seq![' '] + (front + text + back)
}

proof fn lemma_line_about(
    command: Seq<char>,
    front: Seq<char>,
    text: Seq<char>,
    back: Seq<char>,
)
    ensures
        typed(line_about(command, front, text, back), command),
        line_about(command, front, text, back).len() > command.len(),
        line_about(command, front, text, back).skip(command.len() as int + 1) == front + text
            + back,
{
    let line = line_about(command, front, text, back);
    assert(line.take(command.len() as int) =~= command);
    assert(line.skip(command.len() as int + 1) =~= front + text + back);
}

/// `/barter` and the id of a listed peer asks that peer for a session, whoever else is listed and
/// wherever; with any other text nobody is asked, and the user is told that it is not found. White
/// space around it does not count.
pub proof fn law_barter_asks_the_peer_with_that_id<C>(
    r: RoomView<C>,
    front: Seq<char>,
    text: Seq<char>,
    back: Seq<char>,
    at: u64,
    ip: Option<Seq<char>>,
    timestamp: Option<u64>,
    k: int,
)
    requires
        distinct(r.peers),
        blank(front),
        blank(back),
        text.len() > 0 ==> !white_space(text[0]) && !white_space(text.last()),
    ensures
        ({
            let line = line_about("/barter"@, front, text, back);
            let (after, actions) = chat_line(r, line, at, ip, timestamp);
            &&& after == r
            &&& 0 <= k < r.peers.len() && r.peers[k].0 == text ==> asks_only(text, actions)
            &&& (forall|i: int| 0 <= i < r.peers.len() ==> (#[trigger] r.peers[i]).0 != text)
                ==> actions == seq![
                ChatActionView::<C>::Tell(ChatNotice::PeerNotFound { peer: text }),
            ]
        }),
{
    let line = line_about("/barter"@, front, text, back);
    lemma_commands();
    lemma_line_about("/barter"@, front, text, back);
    lemma_command_typed(line, "/barter"@);
    law_trimmed(front, text, back);
    law_rows_are_found(r.peers, text, k);
    lemma_asks_only::<C>(text);
}

/// `/dm` and the id of a listed peer asks that peer for a session, and so does `/dm` and the name
/// of its user, if it is the first of that name; with any other text nobody is asked, and the user
/// is told that it is not found. White space around it does not count.
pub proof fn law_dm_asks_the_peer_that_is_meant<C>(
    r: RoomView<C>,
    front: Seq<char>,
    text: Seq<char>,
    back: Seq<char>,
    at: u64,
    ip: Option<Seq<char>>,
    timestamp: Option<u64>,
    k: int,
)
    requires
        distinct(r.peers),
        blank(front),
        blank(back),
        text.len() > 0 ==> !white_space(text[0]) && !white_space(text.last()),
    ensures
        ({
            let line = line_about("/dm"@, front, text, back);
            let (after, actions) = chat_line(r, line, at, ip, timestamp);
            let no_id = forall|i: int| 0 <= i < r.peers.len() ==> (#[trigger] r.peers[i]).0 != text;
            &&& after == r
            &&& 0 <= k < r.peers.len() && r.peers[k].0 == text ==> asks_only(text, actions)
            &&& no_id && 0 <= k < r.peers.len() && r.peers[k].1 == text && (forall|i: int|
                0 <= i < k ==> (#[trigger] r.peers[i]).1 != text) ==> asks_only(
                r.peers[k].0,
                actions,
            )
            &&& no_id && (forall|i: int|
                0 <= i < r.peers.len() ==> (#[trigger] r.peers[i]).1 != text) ==> actions == seq![
                ChatActionView::<C>::Tell(ChatNotice::PeerNotFound { peer: text }),
            ]
        }),
{
    let line = line_about("/dm"@, front, text, back);
    lemma_commands();
    lemma_line_about("/dm"@, front, text, back);
    lemma_command_typed(line, "/dm"@);
    law_trimmed(front, text, back);
    law_rows_are_found(r.peers, text, k);
    lemma_position_of_name(r.peers, text);
    let p = position_of_name(r.peers, text);
    if 0 <= k < r.peers.len() && r.peers[k].1 == text && (forall|i: int|
        0 <= i < k ==> (#[trigger] r.peers[i]).1 != text) {
        if k < p {
            assert(r.peers[k].1 != text);
        }
        if p < k {
            assert(r.peers[p].1 != text);
        }
    }
    if let Some(peer) = addressee(r.peers, text) {
        lemma_asks_only::<C>(peer);
    }
}

/// `/barter` and `/dm` without anybody after them ask nobody: the user is told how they are used.
pub proof fn law_nobody_is_asked_without_a_name<C>(
    r: RoomView<C>,
    at: u64,
    ip: Option<Seq<char>>,
    timestamp: Option<u64>,
)
    ensures
        chat_line(r, "/barter"@, at, ip, timestamp) == (
            r,
            seq![ChatActionView::<C>::Tell(ChatNotice::BarterUsage)],
        ),
        chat_line(r, "/dm"@, at, ip, timestamp) == (
            r,
            seq![ChatActionView::<C>::Tell(ChatNotice::DmUsage)],
        ),
{
    lemma_commands();
    assert("/barter"@.take(7) =~= "/barter"@);
    assert("/dm"@.take(3) =~= "/dm"@);
    lemma_command_typed("/barter"@, "/barter"@);
    lemma_command_typed("/dm"@, "/dm"@);
}

/// `/peers` tells who is there and does nothing else: a heading, every listed peer with its user's
/// name under its number, and an end; or that nobody is there.
pub proof fn law_peers_are_told<C>(
    r: RoomView<C>,
    line: Seq<char>,
    at: u64,
    ip: Option<Seq<char>>,
    timestamp: Option<u64>,
    i: int,
)
    requires
        typed(line, "/peers"@),
    ensures
        ({
            let (after, actions) = chat_line(r, line, at, ip, timestamp);
            &&& after == r
            &&& r.peers.len() == 0 ==> actions == seq![
                ChatActionView::<C>::Tell(ChatNotice::NoPeersInRoom),
            ]
            &&& r.peers.len() > 0 ==> {
                &&& actions.len() == r.peers.len() + 2
                &&& actions[0] == ChatActionView::<C>::Tell(ChatNotice::PeersHeading)
                &&& actions.last() == ChatActionView::<C>::Tell(ChatNotice::PeersEnd)
                &&& 0 <= i < r.peers.len() ==> actions[i + 1] == ChatActionView::<C>::Tell(
                    ChatNotice::PeerRow {
                        number: (i + 1) as usize,
                        name: r.peers[i].1,
                        peer: r.peers[i].0,
                    },
                )
            }
        }),
{
    lemma_commands();
    lemma_command_typed(line, "/peers"@);
    if 0 <= i < r.peers.len() {
        assert(peers_told::<C>(r.peers)[i + 1] == peer_rows::<C>(r.peers)[i]);
    }
}

/// `/help` shows the commands and does nothing else.
pub proof fn law_help_is_told<C>(
    r: RoomView<C>,
    line: Seq<char>,
    at: u64,
    ip: Option<Seq<char>>,
    timestamp: Option<u64>,
)
    requires
        typed(line, "/help"@),
    ensures
        chat_line(r, line, at, ip, timestamp) == (
            r,
            seq![ChatActionView::<C>::Tell(ChatNotice::Help)],
        ),
{
    lemma_commands();
    lemma_command_typed(line, "/help"@);
}

/// `/discover` asks the rendezvous server for up to 50 peers in the namespace of the chat room,
/// once, and the time of it is remembered; without a server nothing is asked, and the user is told
/// so. Nothing else of the room changes.
pub proof fn law_discover_asks_the_server<C>(
    r: RoomView<C>,
    line: Seq<char>,
    at: u64,
    ip: Option<Seq<char>>,
    timestamp: Option<u64>,
)
    requires
        typed(line, "/discover"@),
    ensures
        ({
            let (after, actions) = chat_line(r, line, at, ip, timestamp);
            match r.server {
                Some(server) => {
                    &&& after == (RoomView {
                        last_discovery: at,
                        last_discovery_time: Some(at),
                        ..r
                    })
                    &&& actions == seq![
                        ChatActionView::<C>::Tell(ChatNotice::DiscoveryStarting { server }),
                        ChatActionView::Discover {
                            server,
                            namespace: "p2p-file-barter"@,
                            limit: 50,
                        },
                        ChatActionView::Tell(ChatNotice::DiscoveryStarted),
                        ChatActionView::Tell(ChatNotice::Discovering),
                    ]
                },
                None => {
                    &&& after == r
                    &&& actions == seq![ChatActionView::<C>::Tell(ChatNotice::NoServer)]
                },
            }
        }),
{
    lemma_commands();
    lemma_command_typed(line, "/discover"@);
    if let Some(server) = r.server {
        assert(chat_line(r, line, at, ip, timestamp).1 =~= seq![
            ChatActionView::<C>::Tell(ChatNotice::DiscoveryStarting { server }),
            ChatActionView::Discover { server, namespace: "p2p-file-barter"@, limit: 50 },
            ChatActionView::Tell(ChatNotice::DiscoveryStarted),
            ChatActionView::Tell(ChatNotice::Discovering),
        ]);
    }
}

/// `/accept` takes up the request for a barter that waits: the peer that asked directly is told
/// where it can join the session, on its channel, and the room is left for the session with the one
/// who asked. If nobody has asked, or what the request gives is no peer id, the room is not left
/// and nobody is answered.
pub proof fn law_accept_joins_whoever_asked<C>(
    r: RoomView<C>,
    line: Seq<char>,
    at: u64,
    ip: Option<Seq<char>>,
    timestamp: Option<u64>,
)
    requires
        r.well_formed(),
        typed(line, "/accept"@),
    ensures
        ({
            let (after, actions) = chat_line(r, line, at, ip, timestamp);
            match r.request {
                None => after == r && actions == seq![
                    ChatActionView::<C>::Tell(ChatNotice::NothingToAccept),
                ],
                Some((peer, name)) => if parsed_peer_id(peer) is Err {
                    after == r && actions == seq![
                        ChatActionView::<C>::Tell(ChatNotice::CannotAccept),
                    ]
                } else {
                    let switching = ChatActionView::<C>::Tell(
                        ChatNotice::SwitchingToBarter { peer },
                    );
                    let leaving = ChatActionView::<C>::Exit(
                        ChatRoomExitView::AcceptBarterAsAcceptor { peer_id: peer, peer_name: name },
                    );
                    &&& after == (RoomView { channel: None, ..r })
                    &&& match r.channel {
                        Some((asker, channel)) => asker == peer && actions == seq![
                            switching,
                            ChatActionView::Respond {
                                channel,
                                response: BarterNegotiationResponseView::Accept {
                                    addrs: barter_addresses(ip, 50001),
                                },
                            },
                            leaving,
                        ],
                        None => actions == seq![switching, leaving],
                    }
                },
            }
        }),
{
    lemma_commands();
    lemma_command_typed(line, "/accept"@);
    let (after, actions) = chat_line(r, line, at, ip, timestamp);
    if let Some((peer, name)) = r.request {
        if parsed_peer_id(peer) is Ok {
            let switching = ChatActionView::<C>::Tell(ChatNotice::SwitchingToBarter { peer });
            let leaving = ChatActionView::<C>::Exit(
                ChatRoomExitView::AcceptBarterAsAcceptor { peer_id: peer, peer_name: name },
            );
            match r.channel {
                Some((asker, channel)) => {
                    assert(actions =~= seq![
                        switching,
                        ChatActionView::Respond {
                            channel,
                            response: BarterNegotiationResponseView::Accept {
                                addrs: barter_addresses(ip, 50001),
                            },
                        },
                        leaving,
                    ]);
                },
                None => {
                    assert(actions =~= seq![switching, leaving]);
                },
            }
        }
    }
}

/// `/quit` takes leave of everyone in the room, under the id and the name of this side.
pub proof fn law_quit_takes_leave<C>(
    r: RoomView<C>,
    line: Seq<char>,
    at: u64,
    ip: Option<Seq<char>>,
    timestamp: Option<u64>,
)
    requires
        typed(line, "/quit"@),
    ensures
        chat_line(r, line, at, ip, timestamp) == (
            r,
            seq![
                ChatActionView::<C>::TakeLeave(
                    ChatMessageView::UserPresence {
                        action: PresenceAction::Leave,
                        user_id: r.local,
                        user_name: r.name,
                    },
                ),
            ],
        ),
{
    lemma_commands();
    lemma_command_typed(line, "/quit"@);
}

/// Once leave has been taken the room is left in any case, last of all; and before that the
/// registration in the namespace of the chat room is taken back at the rendezvous server, if there
/// is one. Whether the leave could be published plays no part.
pub proof fn law_leaving_takes_back_the_registration<C>(r: RoomView<C>, published: bool)
    ensures
        ({
            let actions = left(r, published);
            let n = actions.len() as int;
            &&& n > 0 && actions[n - 1] == ChatActionView::<C>::Exit(ChatRoomExitView::Quit)
            &&& forall|i: int| 0 <= i < n - 1 ==> !(#[trigger] actions[i] is Exit)
            &&& actions.contains(ChatActionView::Tell(ChatNotice::Leaving))
            &&& match r.server {
                Some(server) => {
                    &&& n == 3
                    &&& actions[0] == ChatActionView::<C>::Unregister {
                        server,
                        namespace: "p2p-file-barter"@,
                    }
                },
                None => n == 2,
            }
        }),
        left(r, published) == left(r, !published),
{
    let actions = left(r, published);
    let n = actions.len() as int;
    assert(actions[n - 2] == ChatActionView::<C>::Tell(ChatNotice::Leaving));
    assert(left(r, published) =~= left(r, !published));
}

/// A line that begins with a slash but is none of the commands does nothing: the user is told that
/// it is not known.
pub proof fn law_other_commands_are_unknown<C>(
    r: RoomView<C>,
    line: Seq<char>,
    at: u64,
    ip: Option<Seq<char>>,
    timestamp: Option<u64>,
)
    requires
        line.len() > 0,
        line[0] == '/',
        !typed(line, "/help"@),
        !typed(line, "/peers"@),
        !typed(line, "/dm"@),
        !typed(line, "/barter"@),
        !typed(line, "/discover"@),
        !typed(line, "/accept"@),
        !typed(line, "/quit"@),
    ensures
        chat_line(r, line, at, ip, timestamp) == (
            r,
            seq![ChatActionView::<C>::Tell(ChatNotice::UnknownCommand)],
        ),
{
    reveal_strlit("/");
    assert(line.subrange(0, 1) =~= "/"@);
    let command = before_first(line, ' ');
    crate::text::law_parted_at_first(line, ' ');
    let n = command.len() as int;
    assert(line.take(n) =~= command);
    if let Some(rest) = after_first(line, ' ') {
        assert(line[n] == ' ');
    }
    assert(typed(line, command));
}

/// What the machine gives plays a part where it should alone: the address of the machine for
/// `/accept`, and the time of day for what is said.
pub proof fn law_machine_plays_no_other_part<C>(
    r: RoomView<C>,
    line: Seq<char>,
    at: u64,
    ip: Option<Seq<char>>,
    other_ip: Option<Seq<char>>,
    timestamp: Option<u64>,
    other: Option<u64>,
)
    ensures
        line.len() > 0 && line[0] == '/' ==> chat_line(r, line, at, ip, timestamp) == chat_line(
            r,
            line,
            at,
            ip,
            other,
        ),
        !typed(line, "/accept"@) ==> chat_line(r, line, at, ip, timestamp) == chat_line(
            r,
            line,
            at,
            other_ip,
            timestamp,
        ),
{
    reveal_strlit("/");
    if line.len() > 0 && line[0] == '/' {
        assert(line.subrange(0, 1) =~= "/"@);
    }
    crate::text::law_parted_at_first(line, ' ');
    let command = before_first(line, ' ');
    let n = command.len() as int;
    assert(line.take(n) =~= command);
    if let Some(rest) = after_first(line, ' ') {
        assert(line[n] == ' ');
    }
    assert(typed(line, command));
}

/// Whom a text means: the peer with that id, or else the first whose user has that name, or else
/// nobody.
pub proof fn law_whom_a_text_means(peers: Seq<(Seq<char>, Seq<char>)>, text: Seq<char>, k: int)
    requires
        distinct(peers),
    ensures
        0 <= k < peers.len() && peers[k].0 == text ==> addressee(peers, text) == Some(text),
        (forall|i: int| 0 <= i < peers.len() ==> (#[trigger] peers[i]).0 != text) && 0 <= k
            < peers.len() && peers[k].1 == text && (forall|i: int|
            0 <= i < k ==> (#[trigger] peers[i]).1 != text) ==> addressee(peers, text) == Some(
            peers[k].0,
        ),
        (forall|i: int|
            0 <= i < peers.len() ==> (#[trigger] peers[i]).0 != text && peers[i].1 != text)
            ==> addressee(peers, text) is None,
{
    law_rows_are_found(peers, text, k);
    lemma_position_of_name(peers, text);
    let p = position_of_name(peers, text);
    if 0 <= k < peers.len() && peers[k].1 == text && (forall|i: int|
        0 <= i < k ==> (#[trigger] peers[i]).1 != text) {
        if k < p {
            assert(peers[k].1 != text);
        }
        if p < k {
            assert(peers[p].1 != text);
        }
    }
}

}
