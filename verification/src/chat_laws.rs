//! What holds of chat rooms as a whole.

use crate::addresses::{barter_addresses, ip4_tcp};
use crate::chat_room::{
    accept_command, addressee, barter_command, chat_event, chat_line, discovery_turn, dm_command,
    elapsed, entered, heartbeat_turn, new_room, on_answered, on_closed, on_join, on_leave,
    on_message, on_proposed, on_registration, on_registrations, peer_rows, peers_told,
    position_of_name, presence, presence_discovery, registration_turn, tell, turn, utterance,
    ChatCliArgsView, RoomView, BARTER_PORT, DISCOVERY_INTERVAL, HEARTBEAT_INTERVAL,
    MIN_DISCOVERY_INTERVAL,
};
use crate::chat_types::{ChatActionView, ChatEventView, ChatNotice, RegistrationView};
use crate::clock::clock_text;
use crate::foreign::{parsed_multiaddr, parsed_peer_id};
use crate::launch::{followed_by, AfterChatView};
use crate::messages::{
    BarterNegotiationRequest, BarterNegotiationResponseView, ChatMessageView, ChatRoomExitView,
    PresenceAction,
};
use crate::table::{distinct, holds, law_with, law_without, lemma_position, lookup, position};
use crate::text::{
    before_first, decimal, joined, law_first_of_joined, lemma_separated, lemma_unseparated, trimmed,
};
use vstd::prelude::*;

verus! {

proof fn lemma_registrations<C>(r: RoomView<C>, found: Seq<RegistrationView>, n: nat)
    requires
        n <= found.len(),
    ensures
        ({
            let (after, actions) = on_registrations(r, found, n);
            &&& after == (RoomView { discovered: after.discovered, ..r })
            &&& distinct(r.discovered) ==> distinct(after.discovered)
            &&& forall|i: int|
                0 <= i < actions.len() ==> match #[trigger] actions[i] {
                    ChatActionView::Tell(_) => true,
                    ChatActionView::DialPeer { peer, addrs } => {
                        &&& peer != r.local
                        &&& !holds(r.peers, peer)
                        &&& addrs.len() > 0
                        &&& exists|k: int|
                            0 <= k < n && (#[trigger] found[k]).peer == peer && found[k].addrs
                                == addrs
                    },
                    _ => false,
                }
        }),
    decreases n,
{
    if n > 0 {
        lemma_registrations(r, found, (n - 1) as nat);
        let (r1, a1) = on_registrations(r, found, (n - 1) as nat);
        let one = found[n - 1];
        law_with(r1.discovered, one.peer, one.addrs);
        let (r2, a2) = on_registration(r1, one);
        let (after, actions) = on_registrations(r, found, n);
        assert(actions == a1 + a2);
        assert forall|i: int| 0 <= i < actions.len() implies match #[trigger] actions[i] {
            ChatActionView::Tell(_) => true,
            ChatActionView::DialPeer { peer, addrs } => {
                &&& peer != r.local
                &&& !holds(r.peers, peer)
                &&& addrs.len() > 0
                &&& exists|k: int|
                    0 <= k < n && (#[trigger] found[k]).peer == peer && found[k].addrs == addrs
            },
            _ => false,
        } by {
            if i < a1.len() {
                assert(actions[i] == a1[i]);
            } else {
                assert(actions[i] == a2[i - a1.len()]);
                assert(found[n - 1] == one);
            }
        }
    }
}

/// Whatever is typed, whatever happens and however time passes, no peer is listed twice, and the
/// id of this side, the name of its user and its rendezvous server stay what they are.
pub proof fn law_room_keeps_its_order<C>(
    r: RoomView<C>,
    line: Seq<char>,
    event: ChatEventView<C>,
    at: u64,
    ip: Option<Seq<char>>,
    timestamp: Option<u64>,
)
    requires
        r.well_formed(),
    ensures
        keeps_order(r, entered(r, at).0),
        keeps_order(r, turn(r, at).0),
        keeps_order(r, chat_line(r, line, at, ip, timestamp).0),
        keeps_order(r, chat_event(r, event, at).0),
{
    match event {
        ChatEventView::Connected { peer } => {
            law_with(r.peers, peer, "Connected (awaiting username)"@);
        },
        ChatEventView::Closed { peer } => {
            law_without(r.peers, peer);
        },
        ChatEventView::Discovered { server, registrations } => {
            lemma_registrations(r, registrations, registrations.len());
        },
        ChatEventView::Expired { peer } => {
            law_without(r.discovered, peer);
        },
        ChatEventView::Heard { message } => {
            match message {
                ChatMessageView::UserPresence { action, user_id, user_name } => {
                    if parsed_peer_id(user_id) is Ok {
                        law_with(r.peers, parsed_peer_id(user_id)->Ok_0, user_name);
                        law_without(r.peers, parsed_peer_id(user_id)->Ok_0);
                    }
                },
                _ => {},
            }
        },
        _ => {},
    }
}

/// What every step of a room keeps.
pub open spec fn keeps_order<C>(before: RoomView<C>, after: RoomView<C>) -> bool {
    &&& after.well_formed()
    &&& after.local == before.local
    &&& after.name == before.name
    &&& after.server == before.server
}

/// What one says in the room, every other one is shown under the name of who said it, and the
/// one who said it is not.
pub proof fn law_others_hear_what_is_said<C, D>(
    speaker: RoomView<C>,
    listener: RoomView<D>,
    content: Seq<char>,
    timestamp: u64,
    at: u64,
)
    ensures
        listener.local != speaker.local ==> on_message(
            listener,
            utterance(speaker, content, timestamp),
            at,
        ) == (
            listener,
            seq![
                tell::<D>(
                    ChatNotice::UserMessage {
                        time: clock_text(timestamp),
                        name: speaker.name,
                        content,
                    },
                ),
            ],
        ),
        on_message(speaker, utterance(speaker, content, timestamp), at) == (
            speaker,
            Seq::<ChatActionView<C>>::empty(),
        ),
{
    assert(on_message(speaker, utterance(speaker, content, timestamp), at).1
        =~= Seq::<ChatActionView<C>>::empty());
}

/// Once another one has announced that it is there, it is listed under its user's name; once it
/// has taken leave, it is not. No one else's entry changes, and one's own announcements do
/// nothing.
pub proof fn law_presence_is_listed<C, D>(other: RoomView<C>, r: RoomView<D>, at: u64)
    requires
        r.well_formed(),
        parsed_peer_id(other.local) == Ok::<Seq<char>, Seq<char>>(other.local),
    ensures
        ({
            let joined = on_message(r, presence(other, PresenceAction::Join), at).0;
            let left = on_message(r, presence(other, PresenceAction::Leave), at).0;
            if other.local == r.local {
                joined == r && left == r
            } else {
                &&& lookup(joined.peers, other.local) == Some(other.name)
                &&& !holds(left.peers, other.local)
                &&& forall|peer: Seq<char>|
                    peer != other.local ==> {
                        &&& #[trigger] lookup(joined.peers, peer) == lookup(r.peers, peer)
                        &&& lookup(left.peers, peer) == lookup(r.peers, peer)
                    }
            }
        }),
{
    law_with(r.peers, other.local, other.name);
    law_without(r.peers, other.local);
}

/// The room after a number of messages, each at its time.
pub open spec fn heard<C>(
    r: RoomView<C>,
    messages: Seq<ChatMessageView>,
    times: Seq<u64>,
) -> RoomView<C>
    decreases messages.len(),
{
    if messages.len() == 0 {
        r
    } else {
        let before = heard(r, messages.drop_last(), times);
        on_message(before, messages.last(), times[messages.len() - 1]).0
    }
}

/// What a peer has last said of its presence in a number of messages, as a room with the id
/// `local` takes them: that it is there, with its user's name, or that it is not.
pub open spec fn last_presence(
    messages: Seq<ChatMessageView>,
    local: Seq<char>,
    peer: Seq<char>,
) -> Option<Option<Seq<char>>>
    decreases messages.len(),
{
    if messages.len() == 0 {
        None
    } else {
        match messages.last() {
            ChatMessageView::UserPresence { action, user_id, user_name } if user_id != local
                && parsed_peer_id(user_id) == Ok::<Seq<char>, Seq<char>>(peer) => match action {
                PresenceAction::Join => Some(Some(user_name)),
                PresenceAction::Leave => Some(None),
            },
            _ => last_presence(messages.drop_last(), local, peer),
        }
    }
}

/// After any number of messages in the room, whoever has last said that they are there is listed
/// under the name that they gave, and whoever has last taken leave is not. Whoever has said
/// nothing of it is listed as before.
pub proof fn law_last_presence_counts<C>(
    r: RoomView<C>,
    messages: Seq<ChatMessageView>,
    times: Seq<u64>,
    peer: Seq<char>,
)
    requires
        r.well_formed(),
    ensures
        heard(r, messages, times).well_formed(),
        heard(r, messages, times).local == r.local,
        lookup(heard(r, messages, times).peers, peer) == match last_presence(
            messages,
            r.local,
            peer,
        ) {
            Some(name) => name,
            None => lookup(r.peers, peer),
        },
    decreases messages.len(),
{
    if messages.len() > 0 {
        law_last_presence_counts(r, messages.drop_last(), times, peer);
        let before = heard(r, messages.drop_last(), times);
        let message = messages.last();
        if let ChatMessageView::UserPresence { action, user_id, user_name } = message {
            if parsed_peer_id(user_id) is Ok {
                law_with(before.peers, parsed_peer_id(user_id)->Ok_0, user_name);
                law_without(before.peers, parsed_peer_id(user_id)->Ok_0);
            }
        }
    }
}

/// Once the connection to a peer is closed, it is not listed any more, and the others are as
/// they were.
pub proof fn law_closed_peer_is_not_listed<C>(r: RoomView<C>, peer: Seq<char>)
    requires
        r.well_formed(),
    ensures
        !holds(on_closed(r, peer).0.peers, peer),
        forall|other: Seq<char>|
            other != peer ==> #[trigger] lookup(on_closed(r, peer).0.peers, other) == lookup(
                r.peers,
                other,
            ),
{
    law_without(r.peers, peer);
}

/// Whether an action involves the rendezvous server.
pub open spec fn involves_server<C>(action: ChatActionView<C>) -> bool {
    action is DialServer || action is Register || action is Discover || action is Unregister
}

/// Whether no action of a list involves the rendezvous server.
pub open spec fn without_server<C>(actions: Seq<ChatActionView<C>>) -> bool {
    forall|i: int| 0 <= i < actions.len() ==> !involves_server(#[trigger] actions[i])
}

/// A room without a rendezvous server never dials one, nor asks it for anything. (That a
/// registration is confirmed cannot happen to it.)
pub proof fn law_without_server<C>(
    r: RoomView<C>,
    line: Seq<char>,
    event: ChatEventView<C>,
    at: u64,
    ip: Option<Seq<char>>,
    timestamp: Option<u64>,
)
    requires
        r.server is None,
        !(event is Registered),
    ensures
        without_server(entered(r, at).1),
        without_server(turn(r, at).1),
        without_server(chat_line(r, line, at, ip, timestamp).1),
        without_server(chat_event(r, event, at).1),
{
    match event {
        ChatEventView::Discovered { server, registrations } => {
            lemma_registrations(r, registrations, registrations.len());
            let found = on_registrations(r, registrations, registrations.len()).1;
            let all = chat_event(r, event, at).1;
            assert forall|i: int| 0 <= i < all.len() implies !involves_server(
                #[trigger] all[i],
            ) by {
                if i > 0 {
                    assert(all[i] == found[i - 1]);
                }
            }
        },
        _ => {},
    }
}

/// Whether a list of actions asks for registration.
pub open spec fn registers<C>(actions: Seq<ChatActionView<C>>) -> bool {
    exists|i: int| 0 <= i < actions.len() && #[trigger] actions[i] is Register
}

proof fn lemma_registration_of_turn<C>(r: RoomView<C>, now: u64)
    ensures
        registers(turn(r, now).1) ==> !r.attempted && turn(r, now).0.attempted,
        r.attempted ==> turn(r, now).0.attempted,
{
}

proof fn lemma_registration_of_line<C>(
    r: RoomView<C>,
    line: Seq<char>,
    at: u64,
    ip: Option<Seq<char>>,
    timestamp: Option<u64>,
)
    ensures
        !registers(chat_line(r, line, at, ip, timestamp).1),
        chat_line(r, line, at, ip, timestamp).0.attempted == r.attempted,
{
}

proof fn lemma_registration_of_event<C>(r: RoomView<C>, event: ChatEventView<C>, at: u64)
    ensures
        registers(chat_event(r, event, at).1) ==> !r.attempted && chat_event(
            r,
            event,
            at,
        ).0.attempted,
        r.attempted && !(event is RegisterFailed) ==> chat_event(r, event, at).0.attempted,
{
    match event {
        ChatEventView::Discovered { server, registrations } => {
            lemma_registrations(r, registrations, registrations.len());
            let found = on_registrations(r, registrations, registrations.len()).1;
            let all = chat_event(r, event, at).1;
            assert forall|i: int| 0 <= i < all.len() implies !(#[trigger] all[i] is Register) by {
                if i > 0 {
                    assert(all[i] == found[i - 1]);
                }
            }
        },
        _ => {},
    }
}

/// Registration is tried once after the room is entered: it is only asked for when it has not been
/// tried, which is then remembered until the server says that it failed.
pub proof fn law_registration_is_tried_once<C>(
    r: RoomView<C>,
    line: Seq<char>,
    event: ChatEventView<C>,
    at: u64,
    ip: Option<Seq<char>>,
    timestamp: Option<u64>,
)
    ensures
        registers(turn(r, at).1) ==> !r.attempted && turn(r, at).0.attempted,
        registers(chat_event(r, event, at).1) ==> !r.attempted && chat_event(
            r,
            event,
            at,
        ).0.attempted,
        !registers(chat_line(r, line, at, ip, timestamp).1),
        !registers(entered(r, at).1),
        r.attempted ==> turn(r, at).0.attempted,
        r.attempted ==> chat_line(r, line, at, ip, timestamp).0.attempted,
        r.attempted && !(event is RegisterFailed) ==> chat_event(r, event, at).0.attempted,
{
    lemma_registration_of_turn(r, at);
    lemma_registration_of_line(r, line, at, ip, timestamp);
    lemma_registration_of_event(r, event, at);
}

/// `/accept` is an acceptance.
proof fn lemma_accept_line<C>(
    r: RoomView<C>,
    at: u64,
    ip: Option<Seq<char>>,
    timestamp: Option<u64>,
)
    ensures
        chat_line(r, "/accept"@, at, ip, timestamp) == accept_command(r, ip),
{
    reveal_strlit("/");
    reveal_strlit("/help");
    reveal_strlit("/peers");
    reveal_strlit("/dm");
    reveal_strlit("/barter");
    reveal_strlit("/discover");
    reveal_strlit("/accept");
    let line = "/accept"@;
    assert(line.subrange(0, 1) =~= "/"@);
    lemma_unseparated(line, ' ');
    assert(line[1] != "/barter"@[1]);
}

/// `/dm` with something after it is meant for whoever that is.
proof fn lemma_dm_line<C>(
    r: RoomView<C>,
    text: Seq<char>,
    at: u64,
    ip: Option<Seq<char>>,
    timestamp: Option<u64>,
)
    ensures
        chat_line(r, "/dm"@ + seq![' '] + text, at, ip, timestamp) == (
            r,
            dm_command(r, Some(text)),
        ),
{
    reveal_strlit("/");
    reveal_strlit("/help");
    reveal_strlit("/peers");
    reveal_strlit("/dm");
    let line = "/dm"@ + seq![' '] + text;
    assert(line.subrange(0, 1) =~= "/"@);
    lemma_separated("/dm"@, ' ', text);
}

/// A direct request for a barter that has come in is what `/accept` answers: on the channel that
/// it came on, with the addresses of the session; and the room is left for the session with that
/// peer. It is answered once: the channel is not used again.
pub proof fn law_direct_request_is_answered<C>(
    r: RoomView<C>,
    peer: Seq<char>,
    channel: C,
    at: u64,
    ip: Option<Seq<char>>,
    timestamp: Option<u64>,
)
    requires
        parsed_peer_id(peer) is Ok,
    ensures
        ({
            let request = BarterNegotiationRequest::ProposeBarterSession;
            let asked = chat_event(r, ChatEventView::Proposed { peer, channel, request }, at).0;
            let name = match lookup(r.peers, peer) {
                Some(name) => name,
                None => "Unknown User"@,
            };
            let (after, actions) = chat_line(asked, "/accept"@, at, ip, timestamp);
            &&& actions == seq![
                tell(ChatNotice::SwitchingToBarter { peer }),
                ChatActionView::Respond {
                    channel,
                    response: BarterNegotiationResponseView::Accept {
                        addrs: barter_addresses(ip, BARTER_PORT),
                    },
                },
                ChatActionView::Exit(
                    ChatRoomExitView::AcceptBarterAsAcceptor { peer_id: peer, peer_name: name },
                ),
            ]
            &&& after.channel is None
        }),
{
    let asked = on_proposed(r, peer, channel).0;
    let name = match lookup(r.peers, peer) {
        Some(name) => name,
        None => "Unknown User"@,
    };
    lemma_accept_line(asked, at, ip, timestamp);
    assert(accept_command(asked, ip).1 =~= seq![
        tell(ChatNotice::SwitchingToBarter { peer }),
        ChatActionView::Respond {
            channel,
            response: BarterNegotiationResponseView::Accept {
                addrs: barter_addresses(ip, BARTER_PORT),
            },
        },
        ChatActionView::Exit(
            ChatRoomExitView::AcceptBarterAsAcceptor { peer_id: peer, peer_name: name },
        ),
    ]);
}

/// One `/accept` answers and joins one and the same peer: the answer goes on the channel of the
/// peer with whom the session is.
pub proof fn law_accept_names_one_peer<C>(
    r: RoomView<C>,
    at: u64,
    ip: Option<Seq<char>>,
    timestamp: Option<u64>,
    i: int,
    j: int,
)
    requires
        r.well_formed(),
        0 <= i < chat_line(r, "/accept"@, at, ip, timestamp).1.len(),
        0 <= j < chat_line(r, "/accept"@, at, ip, timestamp).1.len(),
    ensures
        ({
            let actions = chat_line(r, "/accept"@, at, ip, timestamp).1;
            actions[i] matches ChatActionView::Respond { channel, response } ==> actions[j] matches
                ChatActionView::Exit(exit) ==> {
                &&& exit matches ChatRoomExitView::AcceptBarterAsAcceptor { peer_id, .. }
                &&& r.channel == Some((peer_id, channel))
            }
        }),
{
    lemma_accept_line(r, at, ip, timestamp);
}

/// One step of a room.
pub enum ChatStep<C> {
    /// The room is entered.
    Enter { at: u64 },
    /// A turn begins.
    Turn { now: u64 },
    /// The user types a line.
    Line { line: Seq<char>, at: u64, ip: Option<Seq<char>>, timestamp: Option<u64> },
    /// Something happens on the network.
    Event { event: ChatEventView<C>, at: u64 },
}

/// What a step does.
pub open spec fn room_stepped<C>(r: RoomView<C>, step: ChatStep<C>) -> (
    RoomView<C>,
    Seq<ChatActionView<C>>,
) {
    match step {
        ChatStep::Enter { at } => entered(r, at),
        ChatStep::Turn { now } => turn(r, now),
        ChatStep::Line { line, at, ip, timestamp } => chat_line(r, line, at, ip, timestamp),
        ChatStep::Event { event, at } => chat_event(r, event, at),
    }
}

/// The room after a number of steps.
pub open spec fn room_after<C>(r: RoomView<C>, steps: Seq<ChatStep<C>>) -> RoomView<C>
    decreases steps.len(),
{
    if steps.len() == 0 {
        r
    } else {
        room_stepped(room_after(r, steps.drop_last()), steps.last()).0
    }
}

/// Whether a step is a direct request of a peer on a channel.
pub open spec fn asks_directly<C>(step: ChatStep<C>, peer: Seq<char>, channel: C) -> bool {
    step matches ChatStep::Event {
        event: ChatEventView::Proposed { peer: p, channel: c, request },
        at,
    } && p == peer && c == channel
}

/// Whether a step is a request for a barter to this side, direct or published.
pub open spec fn asks_for_barter<C>(r: RoomView<C>, step: ChatStep<C>) -> bool {
    step matches ChatStep::Event { event, at } && match event {
        ChatEventView::Proposed { .. } => true,
        ChatEventView::Heard { message } => message matches ChatMessageView::BarterRequest {
            from_id,
            from_name,
            to_id,
        } && to_id == r.local,
        _ => false,
    }
}

/// A request for a barter waits as it is, with the channel of its answer, until another one comes
/// or the user accepts it.
pub proof fn law_request_is_kept<C>(r: RoomView<C>, step: ChatStep<C>)
    ensures
        !asks_for_barter(r, step) ==> room_stepped(r, step).0.request == r.request,
        !asks_for_barter(r, step) && !(step matches ChatStep::Line { line, at, ip, timestamp }
            && before_first(line, ' ') == "/accept"@) ==> room_stepped(r, step).0.channel
            == r.channel,
{
    if let ChatStep::Event { event, at } = step {
        if let ChatEventView::Discovered { server, registrations } = event {
            lemma_registrations(r, registrations, registrations.len());
        }
    }
}

/// The channel that waits after a step waited before it for the same peer, or that peer has just
/// asked on it.
proof fn lemma_channel<C>(r: RoomView<C>, step: ChatStep<C>)
    ensures
        room_stepped(r, step).0.channel matches Some((peer, channel)) ==> r.channel
            == room_stepped(r, step).0.channel || asks_directly(step, peer, channel),
{
    law_request_is_kept(r, step);
}

/// In any run from a new room, the channel that waits for an answer is one on which that peer has
/// asked directly.
pub proof fn law_channel_belongs_to_asker<C>(
    username: Seq<char>,
    args: ChatCliArgsView,
    local: Seq<char>,
    now: u64,
    steps: Seq<ChatStep<C>>,
)
    ensures
        room_after(new_room::<C>(username, args, local, now), steps).channel matches Some(
            (peer, channel),
        ) ==> exists|k: int|
            0 <= k < steps.len() && asks_directly(#[trigger] steps[k], peer, channel),
    decreases steps.len(),
{
    let r = new_room::<C>(username, args, local, now);
    if steps.len() > 0 {
        let before = steps.drop_last();
        law_channel_belongs_to_asker(username, args, local, now, before);
        lemma_channel(room_after(r, before), steps.last());
        if let Some((peer, channel)) = room_after(r, steps).channel {
            if asks_directly(steps.last(), peer, channel) {
                assert(asks_directly(steps[steps.len() - 1], peer, channel));
            } else {
                let k = choose|k: int|
                    0 <= k < before.len() && asks_directly(#[trigger] before[k], peer, channel);
                assert(steps[k] == before[k]);
            }
        }
    }
}

/// The two sides of a barter meet: the one who accepts listens on the barter port, and the one
/// who asked dials that port at the first address that it was given, which is that of the other
/// machine, if it has one.
pub proof fn law_sides_meet<C>(
    acceptor: Seq<char>,
    asker: Seq<char>,
    name: Seq<char>,
    ip: Option<Seq<char>>,
    port: Option<Seq<char>>,
)
    requires
        ip matches Some(own) ==> !own.contains(','),
    ensures
        ({
            let addrs = barter_addresses(ip, BARTER_PORT);
            let own = match ip {
                Some(own) => own,
                None => "127.0.0.1"@,
            };
            let exit = ChatRoomExitView::AcceptBarter {
                peer_id: acceptor,
                addr: Some(joined(addrs, ","@)),
            };
            &&& on_answered::<C>(acceptor, BarterNegotiationResponseView::Accept { addrs }).last()
                == ChatActionView::<C>::Exit(exit)
            &&& followed_by(exit, port) == match parsed_multiaddr(
                ip4_tcp(own, decimal(BARTER_PORT as nat)),
            ) {
                Ok(address) => Ok::<AfterChatView, Seq<char>>(
                    AfterChatView::Barter { port, peer: Some(address) },
                ),
                Err(reason) => Err(reason),
            }
            &&& followed_by(
                ChatRoomExitView::AcceptBarterAsAcceptor { peer_id: asker, peer_name: name },
                port,
            ) == Ok::<AfterChatView, Seq<char>>(
                AfterChatView::Barter { port: Some(decimal(BARTER_PORT as nat)), peer: None },
            )
        }),
{
    let addrs = barter_addresses(ip, BARTER_PORT);
    let own = match ip {
        Some(own) => own,
        None => "127.0.0.1"@,
    };
    let number = decimal(BARTER_PORT as nat);
    reveal_strlit("/ip4/");
    reveal_strlit("/tcp/");
    reveal_strlit("127.0.0.1");
    reveal_strlit(",");
    assert(","@ =~= seq![',']);
    crate::text::lemma_decimal(BARTER_PORT as nat);
    let first = addrs[0];
    assert(first == ip4_tcp(own, number));
    if first.contains(',') {
        let i = choose|i: int| 0 <= i < first.len() && first[i] == ',';
        let a = "/ip4/"@;
        let b = "/tcp/"@;
        if i < a.len() {
            assert(first[i] == a[i]);
        } else if i < a.len() + own.len() {
            assert(first[i] == own[i - a.len()]);
            assert(own.contains(','));
        } else if i < a.len() + own.len() + b.len() {
            assert(first[i] == b[i - a.len() - own.len()]);
        } else {
            assert(first[i] == number[i - a.len() - own.len() - b.len()]);
            assert(crate::text::is_digit(number[i - a.len() - own.len() - b.len()]));
        }
    }
    law_first_of_joined(addrs, ',');
}

/// A session is arranged. One user types `/dm` and the name or the id of a connected peer, whose
/// user types `/accept`: the peer is asked, its answer goes back on the channel on which it was
/// asked, and each side leaves its room for a session with the other.
pub proof fn law_session_is_arranged<C, D>(
    asker: RoomView<C>,
    acceptor: RoomView<D>,
    text: Seq<char>,
    channel: D,
    at: u64,
    ip: Option<Seq<char>>,
    timestamp: Option<u64>,
)
    requires
        addressee(asker.peers, trimmed(text)) == Some(acceptor.local),
        parsed_peer_id(acceptor.local) == Ok::<Seq<char>, Seq<char>>(acceptor.local),
        parsed_peer_id(asker.local) == Ok::<Seq<char>, Seq<char>>(asker.local),
    ensures
        ({
            let request = BarterNegotiationRequest::ProposeBarterSession;
            let response = BarterNegotiationResponseView::Accept {
                addrs: barter_addresses(ip, BARTER_PORT),
            };
            let asking = chat_line(asker, "/dm"@ + seq![' '] + text, at, ip, timestamp).1;
            let asked = chat_event(
                acceptor,
                ChatEventView::Proposed { peer: asker.local, channel, request },
                at,
            ).0;
            let accepting = chat_line(asked, "/accept"@, at, ip, timestamp).1;
            let answered = chat_event(
                asker,
                ChatEventView::Answered { peer: acceptor.local, response },
                at,
            ).1;
            &&& asking.contains(ChatActionView::Propose { peer: acceptor.local, request })
            &&& accepting.contains(ChatActionView::Respond { channel, response })
            &&& accepting.last() matches ChatActionView::Exit(
                ChatRoomExitView::AcceptBarterAsAcceptor { peer_id, .. },
            ) && peer_id == asker.local
            &&& answered.contains(ChatActionView::AwaitEnter)
            &&& answered.last() matches ChatActionView::Exit(
                ChatRoomExitView::AcceptBarter { peer_id, .. },
            ) && peer_id == acceptor.local
        }),
{
    let request = BarterNegotiationRequest::ProposeBarterSession;
    let response = BarterNegotiationResponseView::Accept {
        addrs: barter_addresses(ip, BARTER_PORT),
    };
    lemma_dm_line(asker, text, at, ip, timestamp);
    law_direct_request_is_answered(acceptor, asker.local, channel, at, ip, timestamp);
    let asking = chat_line(asker, "/dm"@ + seq![' '] + text, at, ip, timestamp).1;
    assert(asking[1] == ChatActionView::<C>::Propose { peer: acceptor.local, request });
    let asked = on_proposed(acceptor, asker.local, channel).0;
    let accepting = chat_line(asked, "/accept"@, at, ip, timestamp).1;
    assert(accepting[1] == (ChatActionView::Respond { channel, response }));
    let answered = on_answered::<C>(acceptor.local, response);
    assert(answered[1] == ChatActionView::<C>::AwaitEnter);
}

/// A barter session can always be joined on the machine itself.
pub proof fn law_reachable_here(ip: Option<Seq<char>>, port: u16)
    ensures
        barter_addresses(ip, port).last() == ip4_tcp("127.0.0.1"@, decimal(port as nat)),
{
}

/// `/barter` and `/dm` only ask peers that are connected.
pub proof fn law_only_connected_peers_are_asked<C>(r: RoomView<C>, argument: Option<Seq<char>>)
    ensures
        asks_connected(r, barter_command(r, argument)),
        asks_connected(r, dm_command(r, argument)),
{
    if let Some(text) = argument {
        lemma_position_of_name(r.peers, trimmed(text));
        let p = position_of_name(r.peers, trimmed(text));
        if p < r.peers.len() {
            lemma_position(r.peers, r.peers[p].0);
            if !holds(r.peers, r.peers[p].0) {
                assert(r.peers[p].0 != r.peers[p].0);
            }
        }
    }
}

/// Whether every peer that a list of actions asks for a barter is connected. (What is asked is
/// the peer id that the text of the connected peer denotes.)
pub open spec fn asks_connected<C>(r: RoomView<C>, actions: Seq<ChatActionView<C>>) -> bool {
    forall|i: int|
        0 <= i < actions.len() ==> match #[trigger] actions[i] {
            ChatActionView::Propose { peer, request } => exists|listed: Seq<char>|
                #[trigger] holds(r.peers, listed) && parsed_peer_id(listed) == Ok::<
                    Seq<char>,
                    Seq<char>,
                >(peer),
            _ => true,
        }
}

/// `position_of_name` is that of the first peer whose user has the name.
pub proof fn lemma_position_of_name(peers: Seq<(Seq<char>, Seq<char>)>, name: Seq<char>)
    ensures
        0 <= position_of_name(peers, name) <= peers.len(),
        position_of_name(peers, name) < peers.len() ==> peers[position_of_name(peers, name)].1
            == name,
        forall|i: int| 0 <= i < position_of_name(peers, name) ==> (#[trigger] peers[i]).1 != name,
    decreases peers.len(),
{
    if peers.len() > 0 && peers[0].1 != name {
        let rest = peers.skip(1);
        lemma_position_of_name(rest, name);
        assert forall|i: int| 0 <= i < position_of_name(peers, name) implies (#[trigger] peers[i]).1
            != name by {
            if i > 0 {
                assert(peers[i] == rest[i - 1]);
            }
        }
        if position_of_name(peers, name) < peers.len() {
            assert(peers[position_of_name(peers, name)] == rest[position_of_name(rest, name)]);
        }
    }
}

/// A peer can be asked by its id or by its user's name: whoever is connected is found either
/// way, and by a name only someone of that name, or whose id it is.
pub proof fn law_addressed_by_id_or_name(peers: Seq<(Seq<char>, Seq<char>)>, i: int)
    requires
        distinct(peers),
        0 <= i < peers.len(),
    ensures
        addressee(peers, peers[i].0) == Some(peers[i].0),
        addressee(peers, peers[i].1) matches Some(peer) && holds(peers, peer) && (lookup(
            peers,
            peer,
        ) == Some(peers[i].1) || peer == peers[i].1),
{
    let (id, name) = peers[i];
    lemma_position(peers, id);
    if !holds(peers, id) {
        assert(peers[i].0 != id);
    }
    lemma_position_of_name(peers, name);
    let p = position_of_name(peers, name);
    if p >= peers.len() {
        assert(peers[i].1 != name);
    }
    let found = peers[p].0;
    lemma_position(peers, found);
    let q = position(peers, found);
    if q < p {
        assert(peers[q].0 != peers[p].0);
    }
    if p < q {
        assert(peers[p].0 != found);
    }
}

/// Discovery dials no peer that is this side or is connected, and only at addresses under which
/// the peer is registered.
pub proof fn law_discovery_dials_strangers<C>(
    r: RoomView<C>,
    server: Seq<char>,
    registrations: Seq<RegistrationView>,
    at: u64,
)
    ensures
        ({
            let event = ChatEventView::Discovered { server, registrations };
            let actions = chat_event(r, event, at).1;
            forall|i: int|
                0 <= i < actions.len() ==> match #[trigger] actions[i] {
                    ChatActionView::Tell(_) => true,
                    ChatActionView::DialPeer { peer, addrs } => {
                        &&& peer != r.local
                        &&& !holds(r.peers, peer)
                        &&& exists|k: int|
                            0 <= k < registrations.len() && (#[trigger] registrations[k]).peer
                                == peer && registrations[k].addrs == addrs
                    },
                    _ => false,
                }
        }),
{
    lemma_registrations(r, registrations, registrations.len());
    let event = ChatEventView::Discovered { server, registrations };
    let actions = chat_event(r, event, at).1;
    let found = on_registrations(r, registrations, registrations.len()).1;
    assert forall|i: int| 0 <= i < actions.len() implies match #[trigger] actions[i] {
        ChatActionView::Tell(_) => true,
        ChatActionView::DialPeer { peer, addrs } => {
            &&& peer != r.local
            &&& !holds(r.peers, peer)
            &&& exists|k: int|
                0 <= k < registrations.len() && (#[trigger] registrations[k]).peer == peer
                    && registrations[k].addrs == addrs
        },
        _ => false,
    } by {
        if i > 0 {
            assert(actions[i] == found[i - 1]);
        }
    }
}

/// Whether a list of actions announces presence.
pub open spec fn announces<C>(actions: Seq<ChatActionView<C>>) -> bool {
    exists|i: int| 0 <= i < actions.len() && #[trigger] actions[i] is Announce
}

/// The clock makes presence be announced when more than the heartbeat interval has passed since
/// the last time, and not before: after an announcement, none follows within the interval.
pub proof fn law_heartbeat<C>(r: RoomView<C>, now: u64, later: u64)
    requires
        now <= later,
    ensures
        announces(turn(r, now).1) <==> elapsed(now, r.last_heartbeat) > HEARTBEAT_INTERVAL,
        announces(turn(r, now).1) && later - now <= HEARTBEAT_INTERVAL ==> !announces(
            turn(turn(r, now).0, later).1,
        ),
{
    lemma_announces(r, now);
    lemma_announces(turn(r, now).0, later);
}

proof fn lemma_announces<C>(r: RoomView<C>, now: u64)
    ensures
        announces(turn(r, now).1) <==> elapsed(now, r.last_heartbeat) > HEARTBEAT_INTERVAL,
        announces(turn(r, now).1) ==> turn(r, now).0.last_heartbeat == now,
{
    let (r1, a1) = registration_turn(RoomView { turn_start: now, ..r });
    let (r2, a2) = heartbeat_turn(r1);
    let (r3, a3) = discovery_turn(r2);
    let all = turn(r, now).1;
    assert(all == a1 + a2 + a3);
    if elapsed(now, r.last_heartbeat) > HEARTBEAT_INTERVAL {
        assert(all[a1.len() as int] == a2[0]);
        assert(all[a1.len() as int] is Announce);
    } else {
        assert forall|i: int| 0 <= i < all.len() implies !(#[trigger] all[i] is Announce) by {
            if i < a1.len() {
                assert(all[i] == a1[i]);
            } else {
                assert(all[i] == a3[i - a1.len()]);
            }
        }
    }
}

/// Whether a list of actions asks for registered peers.
pub open spec fn discovers<C>(actions: Seq<ChatActionView<C>>) -> bool {
    exists|i: int| 0 <= i < actions.len() && #[trigger] actions[i] is Discover
}

/// The clock makes a registered room look for peers again when more than the discovery interval
/// has passed since the last time, and not before.
pub proof fn law_discovery_is_renewed<C>(r: RoomView<C>, now: u64)
    ensures
        discovers(turn(r, now).1) <==> r.registered && r.server is Some && elapsed(
            now,
            r.last_discovery,
        ) > DISCOVERY_INTERVAL,
        discovers(turn(r, now).1) ==> turn(r, now).0.last_discovery == now,
{
    let (r1, a1) = registration_turn(RoomView { turn_start: now, ..r });
    let (r2, a2) = heartbeat_turn(r1);
    let (r3, a3) = discovery_turn(r2);
    let all = turn(r, now).1;
    let n = (a1.len() + a2.len()) as int;
    assert(all == a1 + a2 + a3);
    if r.registered && r.server is Some && elapsed(now, r.last_discovery) > DISCOVERY_INTERVAL {
        assert(all[n + 1] == a3[1]);
        assert(all[n + 1] is Discover);
    } else {
        assert forall|i: int| 0 <= i < all.len() implies !(#[trigger] all[i] is Discover) by {
            if i < a1.len() {
                assert(all[i] == a1[i]);
            } else {
                assert(all[i] == a2[i - a1.len()]);
            }
        }
    }
}

/// Whether a message is about the coming or going of someone else.
pub open spec fn of_other<C>(r: RoomView<C>, message: ChatMessageView) -> bool {
    message matches ChatMessageView::UserPresence { action, user_id, user_name } && user_id
        != r.local
}

/// People's coming and going causes a discovery exactly if the last one is longer ago than the
/// minimal interval, and it counts as one then.
pub proof fn law_presence_causes_discovery<C>(r: RoomView<C>, message: ChatMessageView, at: u64)
    requires
        message is UserPresence,
    ensures
        discovers(on_message(r, message, at).1) <==> of_other(r, message) && r.server is Some
            && elapsed(r.turn_start, r.last_discovery) > MIN_DISCOVERY_INTERVAL,
        discovers(on_message(r, message, at).1) ==> {
            &&& on_message(r, message, at).0.last_discovery == r.turn_start
            &&& on_message(r, message, at).0.last_discovery_time == Some(at)
        },
{
    if let ChatMessageView::UserPresence { action, user_id, user_name } = message {
        let (r1, a1) = presence_discovery(r, at);
        let (r2, a2) = match action {
            PresenceAction::Join => on_join(r1, user_id, user_name),
            PresenceAction::Leave => on_leave(r1, user_id, user_name),
        };
        let all = on_message(r, message, at).1;
        if user_id != r.local {
            assert(all == a1 + a2);
            if r.server is Some && elapsed(r.turn_start, r.last_discovery)
                > MIN_DISCOVERY_INTERVAL {
                assert(all[1] == a1[1]);
                assert(all[1] is Discover);
            } else {
                assert forall|i: int| 0 <= i < all.len() implies !(
                #[trigger] all[i] is Discover) by {
                    assert(all[i] == a2[i]);
                }
            }
        }
    }
}

/// When a step happens.
pub open spec fn time_of<C>(step: ChatStep<C>) -> u64 {
    match step {
        ChatStep::Enter { at } => at,
        ChatStep::Turn { now } => now,
        ChatStep::Line { at, .. } => at,
        ChatStep::Event { at, .. } => at,
    }
}

proof fn lemma_discovery_not_earlier<C>(r: RoomView<C>, steps: Seq<ChatStep<C>>, since: u64)
    requires
        r.last_discovery >= since,
        r.turn_start >= since,
        forall|k: int| 0 <= k < steps.len() ==> time_of(#[trigger] steps[k]) >= since,
    ensures
        room_after(r, steps).last_discovery >= since,
        room_after(r, steps).turn_start >= since,
    decreases steps.len(),
{
    if steps.len() > 0 {
        let before = steps.drop_last();
        assert forall|k: int| 0 <= k < before.len() implies time_of(#[trigger] before[k])
            >= since by {
            assert(before[k] == steps[k]);
        }
        lemma_discovery_not_earlier(r, before, since);
        assert(time_of(steps[steps.len() - 1]) >= since);
        if let ChatStep::Event { event, at } = steps.last() {
            if let ChatEventView::Discovered { server, registrations } = event {
                lemma_registrations(room_after(r, before), registrations, registrations.len());
            }
        }
    }
}

/// People's coming and going does not flood the server: after a discovery that it caused, and any
/// steps at later times, none follows in a turn that begins within the minimal interval, neither
/// from more of it nor from the clock.
pub proof fn law_presence_does_not_flood<C>(
    r: RoomView<C>,
    first: ChatMessageView,
    at: u64,
    steps: Seq<ChatStep<C>>,
    later: u64,
    second: ChatMessageView,
    moment: u64,
)
    requires
        first is UserPresence,
        second is UserPresence,
        discovers(on_message(r, first, at).1),
        forall|k: int| 0 <= k < steps.len() ==> time_of(#[trigger] steps[k]) >= r.turn_start,
    ensures
        ({
            let after = room_after(on_message(r, first, at).0, steps);
            &&& elapsed(later, r.turn_start) <= MIN_DISCOVERY_INTERVAL ==> !discovers(
                turn(after, later).1,
            )
            &&& elapsed(after.turn_start, r.turn_start) <= MIN_DISCOVERY_INTERVAL ==> !discovers(
                on_message(after, second, moment).1,
            )
        }),
{
    let r1 = on_message(r, first, at).0;
    let after = room_after(r1, steps);
    law_presence_causes_discovery(r, first, at);
    lemma_discovery_not_earlier(r1, steps, r.turn_start);
    law_discovery_is_renewed(after, later);
    law_presence_causes_discovery(after, second, moment);
}

/// The list of who is there shows every connected peer once, with its user's name, in order.
pub proof fn law_everyone_is_shown<C>(r: RoomView<C>, i: int)
    requires
        0 <= i < r.peers.len(),
    ensures
        peers_told::<C>(r.peers).len() == r.peers.len() + 2,
        peers_told::<C>(r.peers)[i + 1] == tell::<C>(
            ChatNotice::PeerRow {
                number: (i + 1) as usize,
                name: r.peers[i].1,
                peer: r.peers[i].0,
            },
        ),
{
    assert(peers_told::<C>(r.peers)[i + 1] == peer_rows::<C>(r.peers)[i]);
}

}
