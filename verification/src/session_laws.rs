//! What the lines that a user types and the events of the network do in a barter session.

use crate::barter::{
    barter_event, barter_line, checked_proposal, delivery, delivery_answer, file_answer,
    new_session, on_accepted, on_delivery, others, peer_rows, peers_told, received_name,
    sealed_for, session_steps, BarterActionView, BarterEventView, BarterNotice, FileOutcomeView,
    PendingBarterView, SealedFileView, Sent, SessionStart, SessionView, WaitingRequestView,
};
use crate::foreign::{opened, parsed_recipient, recipient_of};
use crate::messages::{BarterMessageView, BarterResponseView};
use crate::sealing::weak;
use crate::table::{law_without, lookup, with, without};
use crate::text::words_of;
use vstd::prelude::*;

verus! {

/// A received file is saved under its whole name after `received_`, so that two files with
/// different names never get the same one.
pub proof fn law_received_name(filename: Seq<char>, other: Seq<char>)
    ensures
        received_name(filename).len() == filename.len() + 9,
        received_name(filename).take(9) == "received_"@,
        received_name(filename).skip(9) == filename,
        filename != other ==> received_name(filename) != received_name(other),
{
    reveal_strlit("received_");
    assert(received_name(filename).take(9) =~= "received_"@);
    assert(received_name(filename).skip(9) =~= filename);
    assert(received_name(other).skip(9) =~= other);
}

/// Whether a line is a command of the session: it begins with a slash, and that is its first word.
pub open spec fn commands(line: Seq<char>, command: Seq<char>) -> bool {
    &&& line.len() > 0
    &&& line[0] == '/'
    &&& words_of(line).len() > 0
    &&& words_of(line)[0] == command
}

proof fn lemma_session_commands(line: Seq<char>)
    ensures
        line.len() > 0 && line[0] == '/' <==> crate::text::begins_with(line, "/"@),
        "/accept"@ != "/barter"@,
        "/decline"@ != "/barter"@ && "/decline"@ != "/accept"@,
        "/peers"@ != "/barter"@ && "/peers"@ != "/accept"@ && "/peers"@ != "/decline"@,
        "/return"@ != "/barter"@ && "/return"@ != "/accept"@ && "/return"@ != "/decline"@
            && "/return"@ != "/peers"@,
        "/help"@ != "/barter"@ && "/help"@ != "/accept"@ && "/help"@ != "/decline"@ && "/help"@
            != "/peers"@ && "/help"@ != "/return"@,
{
    reveal_strlit("/");
    reveal_strlit("/barter");
    reveal_strlit("/accept");
    reveal_strlit("/decline");
    reveal_strlit("/peers");
    reveal_strlit("/return");
    reveal_strlit("/help");
    if line.len() > 0 && line[0] == '/' {
        assert(line.subrange(0, 1) =~= "/"@);
    }
    if crate::text::begins_with(line, "/"@) {
        assert(line.subrange(0, 1)[0] == line[0]);
    }
    assert("/accept"@[1] != "/barter"@[1]);
    assert("/return"@[1] != "/barter"@[1]);
    assert("/return"@[1] != "/accept"@[1]);
    assert("/peers"@.len() == 6 && "/help"@.len() == 5 && "/decline"@.len() == 8);
}

/// A line that does not begin with a slash is said to the first connected peer, as it was typed and
/// once; if nobody is connected, the user is told so. An empty line is said to nobody.
pub proof fn law_what_is_typed_is_said_to_the_partner<C>(s: SessionView<C>, line: Seq<char>)
    requires
        line.len() > 0 ==> line[0] != '/',
    ensures
        barter_line(s, line) == (
            s,
            if line.len() == 0 {
                seq![BarterActionView::<C>::Tell(BarterNotice::CommandsBeginWithSlash)]
            } else if s.connected.len() == 0 {
                seq![BarterActionView::Tell(BarterNotice::NoPeers)]
            } else {
                seq![
                    BarterActionView::Send {
                        peer: s.connected[0],
                        message: BarterMessageView::DirectMessage { content: line },
                        sent: Sent::Conversation,
                    },
                ]
            },
        ),
{
    lemma_session_commands(line);
}

/// `/barter` takes the next two words for the file that is offered and the one that is wanted, and
/// goes on with them if a peer is connected. With fewer words the user is told how it is used.
pub proof fn law_barter_takes_two_files<C>(s: SessionView<C>, line: Seq<char>)
    requires
        commands(line, "/barter"@),
    ensures
        ({
            let words = words_of(line);
            barter_line(s, line) == (
                s,
                if words.len() < 3 {
                    seq![BarterActionView::<C>::Tell(BarterNotice::BarterUsage)]
                } else if s.connected.len() == 0 {
                    seq![BarterActionView::Tell(BarterNotice::NoPeers)]
                } else {
                    seq![
                        BarterActionView::CheckOffer { offering: words[1], requesting: words[2] },
                    ]
                },
            )
        }),
{
    lemma_session_commands(line);
}

/// A proposal whose offered file is there goes to the first connected peer, once, with both names
/// and the key of this side, and is open from then on, in place of an earlier one to that peer.
/// Without the file, or without a peer, nothing is sent and nothing changes.
pub proof fn law_proposal_goes_to_the_partner<C>(
    s: SessionView<C>,
    offering: Seq<char>,
    requesting: Seq<char>,
)
    ensures
        checked_proposal(s, offering, requesting, false) == (
            s,
            seq![BarterActionView::<C>::Tell(BarterNotice::NoSuchFile { filename: offering })],
        ),
        s.connected.len() == 0 ==> checked_proposal(s, offering, requesting, true) == (
            s,
            seq![BarterActionView::<C>::Tell(BarterNotice::NoPeers)],
        ),
        s.connected.len() > 0 ==> checked_proposal(s, offering, requesting, true) == (
            SessionView {
                proposed: with(
                    s.proposed,
                    s.connected[0],
                    PendingBarterView { offering, requesting },
                ),
                ..s
            },
            seq![
                BarterActionView::<C>::Tell(
                    BarterNotice::SendingRequest { peer: s.connected[0] },
                ),
                BarterActionView::Send {
                    peer: s.connected[0],
                    message: BarterMessageView::BarterRequest { offering, requesting, key: s.key },
                    sent: Sent::Barter,
                },
            ],
        ),
{
}

/// `/accept` takes the latest proposal that waits: the file that it wants is read for the answer on
/// its channel, to be encrypted for its key. `/decline` answers the latest one on its channel with
/// a refusal. Either way the others wait on, and nothing else changes. If none waits, the user is
/// told so.
pub proof fn law_latest_proposal_is_taken<C>(
    s: SessionView<C>,
    accepting: Seq<char>,
    declining: Seq<char>,
)
    requires
        commands(accepting, "/accept"@),
        commands(declining, "/decline"@),
    ensures
        s.requests.len() == 0 ==> {
            &&& barter_line(s, accepting) == (
                s,
                seq![BarterActionView::<C>::Tell(BarterNotice::NothingToAccept)],
            )
            &&& barter_line(s, declining) == (
                s,
                seq![BarterActionView::<C>::Tell(BarterNotice::NothingToDecline)],
            )
        },
        s.requests.len() > 0 ==> {
            let (peer, request) = s.requests[s.requests.len() - 1];
            let rest = SessionView { requests: s.requests.take(s.requests.len() - 1), ..s };
            &&& barter_line(s, accepting) == (
                rest,
                seq![
                    BarterActionView::Tell(BarterNotice::Accepting { peer }),
                    BarterActionView::ReadForAnswer {
                        channel: request.channel,
                        filename: request.requesting,
                        key: request.key,
                    },
                ],
            )
            &&& barter_line(s, declining) == (
                rest,
                seq![
                    BarterActionView::Tell(BarterNotice::Declining { peer }),
                    BarterActionView::Respond {
                        channel: request.channel,
                        response: BarterResponseView::Declined,
                    },
                ],
            )
        },
{
    lemma_session_commands(accepting);
    lemma_session_commands(declining);
    if s.requests.len() > 0 {
        assert(s.requests.drop_last() =~= s.requests.take(s.requests.len() - 1));
    }
}

/// `/peers` tells who is connected and does nothing else: a heading, every connected peer under its
/// number, and an end; or that nobody is.
pub proof fn law_partners_are_told<C>(s: SessionView<C>, line: Seq<char>, i: int)
    requires
        commands(line, "/peers"@),
    ensures
        ({
            let (after, actions) = barter_line(s, line);
            &&& after == s
            &&& s.connected.len() == 0 ==> actions == seq![
                BarterActionView::<C>::Tell(BarterNotice::NoPeersConnected),
            ]
            &&& s.connected.len() > 0 ==> {
                &&& actions.len() == s.connected.len() + 2
                &&& actions[0] == BarterActionView::<C>::Tell(BarterNotice::PeersHeading)
                &&& actions.last() == BarterActionView::<C>::Tell(BarterNotice::PeersEnd)
                &&& 0 <= i < s.connected.len() ==> actions[i + 1] == BarterActionView::<C>::Tell(
                    BarterNotice::PeerRow { number: (i + 1) as usize, peer: s.connected[i] },
                )
            }
        }),
{
    lemma_session_commands(line);
    if 0 <= i < s.connected.len() {
        assert(peers_told::<C>(s.connected)[i + 1] == peer_rows::<C>(s.connected)[i]);
    }
}

/// `/return` ends the session and goes back to the chat room; `/help` shows the commands; any other
/// word after a slash is not known. None of them changes anything.
pub proof fn law_other_commands_of_the_session<C>(s: SessionView<C>, line: Seq<char>)
    ensures
        commands(line, "/return"@) ==> barter_line(s, line) == (
            s,
            seq![BarterActionView::<C>::Tell(BarterNotice::Returning), BarterActionView::Return],
        ),
        commands(line, "/help"@) ==> barter_line(s, line) == (
            s,
            seq![BarterActionView::<C>::Tell(BarterNotice::Help)],
        ),
        line.len() > 0 && line[0] == '/' && words_of(line).len() > 0 && !commands(
            line,
            "/barter"@,
        ) && !commands(line, "/accept"@) && !commands(line, "/decline"@) && !commands(
            line,
            "/peers"@,
        ) && !commands(line, "/return"@) && !commands(line, "/help"@) ==> barter_line(s, line) == (
            s,
            seq![BarterActionView::<C>::Tell(BarterNotice::UnknownCommand)],
        ),
{
    lemma_session_commands(line);
}

/// What happens to connections. An address that is being listened on is shown; a peer that connects
/// comes last; one whose connection ends is forgotten, with what it and this side have proposed.
pub proof fn law_connections_of_the_session<C>(
    s: SessionView<C>,
    address: Seq<char>,
    peer: Seq<char>,
)
    ensures
        barter_event(s, BarterEventView::Listening { address }) == (
            s,
            seq![BarterActionView::<C>::Tell(BarterNotice::Listening { address })],
        ),
        barter_event(s, BarterEventView::Connected { peer }) == (
            SessionView { connected: s.connected.push(peer), ..s },
            seq![BarterActionView::<C>::Tell(BarterNotice::ConnectionEstablished { peer })],
        ),
        barter_event(s, BarterEventView::Closed { peer }) == (
            SessionView {
                connected: others(s.connected, peer),
                proposed: without(s.proposed, peer),
                requests: without(s.requests, peer),
                ..s
            },
            seq![BarterActionView::<C>::Tell(BarterNotice::ConnectionClosed { peer })],
        ),
{
}

/// Taking one peer out of a list takes it out wherever it stands, and leaves the others in order.
pub proof fn law_others(front: Seq<Seq<char>>, last: Seq<char>, peer: Seq<char>)
    ensures
        others(Seq::<Seq<char>>::empty(), peer) == Seq::<Seq<char>>::empty(),
        others(front.push(last), peer) == (if last == peer {
            others(front, peer)
        } else {
            others(front, peer).push(last)
        }),
{
    reveal(Seq::filter);
    assert(front.push(last).drop_last() =~= front);
    assert(others(Seq::<Seq<char>>::empty(), peer) =~= Seq::<Seq<char>>::empty());
}

/// A proposal of a peer waits for the user as the latest one, in place of an earlier one of that
/// peer, with the channel and the key that it came with; the user is told of it. Nothing that this
/// side has proposed changes.
pub proof fn law_proposal_of_a_peer_waits<C>(
    s: SessionView<C>,
    peer: Seq<char>,
    channel: C,
    offering: Seq<char>,
    requesting: Seq<char>,
    key: Seq<char>,
)
    requires
        s.well_formed(),
    ensures
        ({
            let request = BarterMessageView::BarterRequest { offering, requesting, key };
            barter_event(s, BarterEventView::Request { peer, channel, request }) == (
                SessionView {
                    requests: without(s.requests, peer).push(
                        (peer, WaitingRequestView { channel, offering, requesting, key }),
                    ),
                    ..s
                },
                seq![
                    BarterActionView::<C>::Tell(
                        BarterNotice::RequestReceived { peer, offering, requesting },
                    ),
                ],
            )
        }),
{
    law_without(s.requests, peer);
}

/// A delivered file that the key of this side opens is saved, as it was before it was encrypted,
/// under the `received_` name of the one that it came with; one that it does not open is refused
/// and not saved. The session stays as it is.
pub proof fn law_delivered_file_is_saved<C>(
    s: SessionView<C>,
    peer: Seq<char>,
    channel: C,
    filename: Seq<char>,
    file_data: Seq<u8>,
)
    ensures
        ({
            let request = BarterMessageView::FileDelivery { filename, file_data };
            let told = BarterActionView::<C>::Tell(
                BarterNotice::DeliveryReceived { peer, filename, size: file_data.len() as usize },
            );
            barter_event(s, BarterEventView::Request { peer, channel, request }) == (
                s,
                match opened(s.secret, file_data) {
                    Some(data) => seq![
                        told,
                        BarterActionView::SaveDelivery {
                            channel,
                            filename: "received_"@ + filename,
                            data,
                        },
                    ],
                    None => seq![
                        told,
                        BarterActionView::Tell(BarterNotice::DeliveryUnreadable { peer }),
                        BarterActionView::Respond {
                            channel,
                            response: BarterResponseView::Declined,
                        },
                    ],
                },
            )
        }),
{
}

/// A line of the partner is shown as it was said and confirmed on its channel.
pub proof fn law_what_the_partner_says_is_shown<C>(
    s: SessionView<C>,
    peer: Seq<char>,
    channel: C,
    content: Seq<char>,
)
    ensures
        ({
            let request = BarterMessageView::DirectMessage { content };
            barter_event(s, BarterEventView::Request { peer, channel, request }) == (
                s,
                seq![
                    BarterActionView::<C>::Tell(BarterNotice::DirectMessage { peer, content }),
                    BarterActionView::Respond {
                        channel,
                        response: BarterResponseView::MessageReceived,
                    },
                ],
            )
        }),
{
}

/// When a peer accepts the proposal that is open to it, the file that comes with it is saved, as it
/// was before it was encrypted, under the `received_` name of the one that was wanted, and the
/// offered file is read, to be delivered to that peer under its key. If the key of this side does
/// not open what comes, neither is done, and the proposal is not open any more. An acceptance where
/// nothing is open, or of a line of conversation, is only told.
pub proof fn law_acceptance_swaps<C>(
    s: SessionView<C>,
    peer: Seq<char>,
    sent: Sent,
    file_data: Seq<u8>,
    key: Seq<char>,
)
    ensures
        ({
            let response = BarterResponseView::Accepted { file_data, key };
            let (after, actions) = barter_event(
                s,
                BarterEventView::Response { peer, sent, response },
            );
            let told = BarterActionView::<C>::Tell(
                BarterNotice::BarterAccepted { peer, size: file_data.len() as usize },
            );
            match (lookup(s.proposed, peer), opened(s.secret, file_data)) {
                (Some(barter), Some(data)) if sent is Barter => {
                    &&& after == s
                    &&& actions == seq![
                        told,
                        BarterActionView::SaveAccepted {
                            filename: "received_"@ + barter.requesting,
                            data,
                        },
                        BarterActionView::Tell(
                            BarterNotice::ReadingOffer { filename: barter.offering },
                        ),
                        BarterActionView::ReadForDelivery {
                            peer,
                            filename: barter.offering,
                            key,
                        },
                    ]
                },
                (Some(_), None) if sent is Barter => {
                    &&& after == (SessionView { proposed: without(s.proposed, peer), ..s })
                    &&& actions == seq![
                        told,
                        BarterActionView::Tell(BarterNotice::AcceptedFileUnreadable { peer }),
                    ]
                },
                _ => after == s && actions == seq![told],
            }
        }),
{
}

/// A refusal and a confirmation are told, and put an end to the proposal that is open to that peer,
/// unless they answer a line of conversation. The confirmation of a line is not even told.
pub proof fn law_other_answers_of_the_partner<C>(s: SessionView<C>, peer: Seq<char>, sent: Sent)
    ensures
        ({
            let ended = if sent is Barter {
                SessionView { proposed: without(s.proposed, peer), ..s }
            } else {
                s
            };
            let response = BarterResponseView::Declined;
            &&& barter_event(s, BarterEventView::Response { peer, sent, response }) == (
                ended,
                seq![BarterActionView::<C>::Tell(BarterNotice::BarterDeclined { peer })],
            )
            &&& barter_event(
                s,
                BarterEventView::Response {
                    peer,
                    sent,
                    response: BarterResponseView::FileReceived,
                },
            ) == (
                ended,
                seq![BarterActionView::<C>::Tell(BarterNotice::BarterCompleted { peer })],
            )
            &&& barter_event(
                s,
                BarterEventView::Response {
                    peer,
                    sent,
                    response: BarterResponseView::MessageReceived,
                },
            ) == (s, Seq::<BarterActionView<C>>::empty())
        }),
{
}

/// How an accepted proposal is answered, on its channel and once: with the encrypted file and the
/// key of this side, if the file could be read and encrypted, and with a refusal if not.
pub proof fn law_answer_to_an_accepted_proposal<C>(
    channel: C,
    filename: Seq<char>,
    own_key: Seq<char>,
    size: nat,
    data: Seq<u8>,
)
    ensures
        ({
            let refused = BarterActionView::Respond {
                channel,
                response: BarterResponseView::Declined,
            };
            &&& file_answer(
                channel,
                filename,
                own_key,
                SealedFileView::Sealed { size, data },
            ) == seq![
                BarterActionView::Tell(BarterNotice::FileRead { filename, size: size as usize }),
                BarterActionView::Respond {
                    channel,
                    response: BarterResponseView::Accepted { file_data: data, key: own_key },
                },
            ]
            &&& file_answer(channel, filename, own_key, SealedFileView::NotSealed) == seq![
                BarterActionView::Tell(BarterNotice::DecliningUnsealedFile { filename }),
                refused,
            ]
            &&& file_answer(channel, filename, own_key, SealedFileView::NotRead) == seq![
                BarterActionView::Tell(BarterNotice::DecliningUnreadFile),
                refused,
            ]
            &&& file_answer(channel, filename, own_key, SealedFileView::NotOpened) == seq![
                BarterActionView::Tell(BarterNotice::DecliningMissingFile { filename }),
                refused,
            ]
        }),
{
}

/// How the offered file is delivered: to that peer, once, encrypted and under its own name. If it
/// could not be read or encrypted, nothing is sent, and the user is told so.
pub proof fn law_offered_file_is_delivered<C>(
    peer: Seq<char>,
    filename: Seq<char>,
    size: nat,
    data: Seq<u8>,
)
    ensures
        delivery::<C>(peer, filename, SealedFileView::Sealed { size, data }) == seq![
            BarterActionView::<C>::Tell(BarterNotice::SendingOffer { size: size as usize }),
            BarterActionView::Send {
                peer,
                message: BarterMessageView::FileDelivery { filename, file_data: data },
                sent: Sent::Barter,
            },
        ],
        delivery::<C>(peer, filename, SealedFileView::NotSealed) == seq![
            BarterActionView::<C>::Tell(BarterNotice::OfferNotSealed { peer }),
        ],
        delivery::<C>(peer, filename, SealedFileView::NotRead) == seq![
            BarterActionView::<C>::Tell(BarterNotice::OfferNotRead),
        ],
        delivery::<C>(peer, filename, SealedFileView::NotOpened) == seq![
            BarterActionView::<C>::Tell(BarterNotice::OfferNotOpened),
        ],
{
}

/// A delivery is confirmed on its channel exactly if the file could be saved, and refused if not.
pub proof fn law_delivery_is_answered<C>(channel: C, filename: Seq<char>)
    ensures
        delivery_answer(channel, filename, true) == seq![
            BarterActionView::Tell(BarterNotice::DeliverySaved { filename }),
            BarterActionView::Respond { channel, response: BarterResponseView::FileReceived },
        ],
        delivery_answer(channel, filename, false) == seq![
            BarterActionView::Tell(BarterNotice::DeliveryNotSaved),
            BarterActionView::Respond { channel, response: BarterResponseView::Declined },
        ],
{
}

/// A session begins by listening, and then by dialling the other side at the given address, if
/// there is one. In the beginning nobody is connected and nothing is proposed.
pub proof fn law_session_begins<C>(
    listen: Seq<char>,
    peer: Seq<char>,
    secret: Seq<char>,
    key: Seq<char>,
)
    ensures
        session_steps(listen, Some(peer)) == seq![
            SessionStart::Listen { address: listen },
            SessionStart::Dial { address: peer },
        ],
        session_steps(listen, None) == seq![SessionStart::Listen { address: listen }],
        new_session::<C>(secret, key).connected.len() == 0,
        new_session::<C>(secret, key).proposed.len() == 0,
        new_session::<C>(secret, key).requests.len() == 0,
        new_session::<C>(secret, key).secret == secret,
        new_session::<C>(secret, key).key == key,
{
}

/// What is opened counts, however it was: a delivered file that was opened to `data` is saved as
/// that, and so is one that came with an acceptance.
pub proof fn law_what_is_opened_is_saved<C>(
    s: SessionView<C>,
    peer: Seq<char>,
    channel: C,
    filename: Seq<char>,
    size: nat,
    key: Seq<char>,
    data: Seq<u8>,
)
    ensures
        on_delivery(peer, channel, filename, size, Some(data)) == seq![
            BarterActionView::Tell(
                BarterNotice::DeliveryReceived { peer, filename, size: size as usize },
            ),
            BarterActionView::SaveDelivery { channel, filename: "received_"@ + filename, data },
        ],
        on_delivery(peer, channel, filename, size, None) == seq![
            BarterActionView::Tell(
                BarterNotice::DeliveryReceived { peer, filename, size: size as usize },
            ),
            BarterActionView::Tell(BarterNotice::DeliveryUnreadable { peer }),
            BarterActionView::Respond { channel, response: BarterResponseView::Declined },
        ],
        ({
            let told = BarterActionView::<C>::Tell(
                BarterNotice::BarterAccepted { peer, size: size as usize },
            );
            match lookup(s.proposed, peer) {
                Some(barter) => {
                    &&& on_accepted(s, peer, Sent::Barter, size, key, Some(data)) == (
                        s,
                        seq![
                            told,
                            BarterActionView::SaveAccepted {
                                filename: "received_"@ + barter.requesting,
                                data,
                            },
                            BarterActionView::Tell(
                                BarterNotice::ReadingOffer { filename: barter.offering },
                            ),
                            BarterActionView::ReadForDelivery {
                                peer,
                                filename: barter.offering,
                                key,
                            },
                        ],
                    )
                    &&& on_accepted(s, peer, Sent::Barter, size, key, None) == (
                        SessionView { proposed: without(s.proposed, peer), ..s },
                        seq![
                            told,
                            BarterActionView::Tell(
                                BarterNotice::AcceptedFileUnreadable { peer },
                            ),
                        ],
                    )
                },
                None => on_accepted(s, peer, Sent::Barter, size, key, Some(data)) == (
                    s,
                    seq![told],
                ) && on_accepted(s, peer, Sent::Barter, size, key, None) == (s, seq![told]),
            }
        }),
        on_accepted(s, peer, Sent::Conversation, size, key, Some(data)) == (
            s,
            seq![
                BarterActionView::<C>::Tell(
                    BarterNotice::BarterAccepted { peer, size: size as usize },
                ),
            ],
        ),
        on_accepted(s, peer, Sent::Conversation, size, key, None) == (
            s,
            seq![
                BarterActionView::<C>::Tell(
                    BarterNotice::BarterAccepted { peer, size: size as usize },
                ),
            ],
        ),
{
}

/// A file that was read is encrypted for any key that is one and is not weak, so that the secret
/// key that belongs to it opens it and gives back the file; for other texts it is not. What could
/// not be opened or read stays that.
pub proof fn law_file_is_encrypted_for_its_reader(
    sealed: SealedFileView,
    key: Seq<char>,
    outcome: FileOutcomeView,
    secret: Seq<char>,
)
    requires
        sealed_for(sealed, key, outcome),
    ensures
        match outcome {
            FileOutcomeView::Content(file) => match parsed_recipient(key) {
                Some(recipient) if !weak(recipient) => {
                    &&& sealed matches SealedFileView::Sealed { size, data }
                    &&& size == file.len()
                    &&& data.len() > file.len()
                    &&& recipient_of(secret) == Some(recipient) ==> opened(secret, data) == Some(
                        file,
                    )
                },
                _ => sealed is NotSealed,
            },
            FileOutcomeView::NotOpened => sealed is NotOpened,
            FileOutcomeView::NotRead => sealed is NotRead,
        },
{
}

}
