//! What holds of barter sessions as a whole.

use crate::barter::{
    acceptance, barter_event, barter_line, checked_proposal, delivery, delivery_answer, file_answer,
    new_session, others, received_name, refusal, sealed_for, BarterActionView, BarterEventView,
    BarterNotice, FileOutcomeView, PendingBarterView, SealedFileView, Sent, SessionView,
    WaitingRequestView,
};
use crate::foreign::opened;
use crate::messages::{BarterMessageView, BarterResponseView};
use crate::sealing::seals;
use crate::table::{holds, law_with, law_without, lemma_position_is, lookup, without};
use crate::text::{begins_with, is_word, lemma_first_word, words_of};
use vstd::prelude::*;

verus! {

/// One step of a session.
pub enum BarterStep<C> {
    /// The user types a line.
    Line(Seq<char>),
    /// Something happens on the network.
    Event(BarterEventView<C>),
    /// A proposal goes on, once it is known whether the offered file is there.
    Checked { offering: Seq<char>, requesting: Seq<char>, found: bool },
}

/// What a step does.
pub open spec fn stepped<C>(s: SessionView<C>, step: BarterStep<C>) -> (
    SessionView<C>,
    Seq<BarterActionView<C>>,
) {
    match step {
        BarterStep::Line(line) => barter_line(s, line),
        BarterStep::Event(event) => barter_event(s, event),
        BarterStep::Checked { offering, requesting, found } => checked_proposal(
            s,
            offering,
            requesting,
            found,
        ),
    }
}

/// The session after a number of steps.
pub open spec fn after<C>(s: SessionView<C>, steps: Seq<BarterStep<C>>) -> SessionView<C>
    decreases steps.len(),
{
    if steps.len() == 0 {
        s
    } else {
        stepped(after(s, steps.drop_last()), steps.last()).0
    }
}

/// Whatever the user types and whatever happens on the network, no peer gets two open proposals,
/// nor two that wait for an answer, and the keys stay what they are.
pub proof fn law_session_stays_well_formed<C>(s: SessionView<C>, step: BarterStep<C>)
    requires
        s.well_formed(),
    ensures
        stepped(s, step).0.well_formed(),
        stepped(s, step).0.secret == s.secret,
        stepped(s, step).0.key == s.key,
{
    match step {
        BarterStep::Line(line) => {},
        BarterStep::Checked { offering, requesting, found } => {
            if s.connected.len() > 0 {
                law_with(s.proposed, s.connected[0], PendingBarterView { offering, requesting });
            }
        },
        BarterStep::Event(event) => match event {
            BarterEventView::Closed { peer } => {
                law_without(s.proposed, peer);
                law_without(s.requests, peer);
            },
            BarterEventView::Request { peer, channel, request } => match request {
                BarterMessageView::BarterRequest { offering, requesting, key } => {
                    law_without(s.requests, peer);
                    law_with(
                        without(s.requests, peer),
                        peer,
                        WaitingRequestView { channel, offering, requesting, key },
                    );
                },
                _ => {},
            },
            BarterEventView::Response { peer, sent, response } => {
                law_without(s.proposed, peer);
            },
            _ => {},
        },
    }
}

proof fn lemma_stays_well_formed<C>(s: SessionView<C>, steps: Seq<BarterStep<C>>)
    requires
        s.well_formed(),
    ensures
        after(s, steps).well_formed(),
    decreases steps.len(),
{
    if steps.len() > 0 {
        lemma_stays_well_formed(s, steps.drop_last());
        law_session_stays_well_formed(after(s, steps.drop_last()), steps.last());
    }
}

/// The only file that is read for delivery to a peer is the one that this side has offered that
/// peer in a proposal that is still open, and only once the peer has accepted; what came with the
/// acceptance is saved under the `received_` name of the file that was wanted for it. No peer can
/// name a file that is sent, nor the name under which its own is saved.
pub proof fn law_only_what_was_offered_is_delivered<C>(
    s: SessionView<C>,
    step: BarterStep<C>,
    i: int,
)
    requires
        0 <= i < stepped(s, step).1.len(),
    ensures
        match stepped(s, step).1[i] {
            BarterActionView::ReadForDelivery { peer, filename, key } => {
                &&& accepts(step, peer)
                &&& lookup(s.proposed, peer) matches Some(barter)
                &&& filename == barter.offering
            },
            BarterActionView::SaveAccepted { filename, data } => exists|peer: Seq<char>|
                {
                    &&& #[trigger] accepts(step, peer)
                    &&& lookup(s.proposed, peer) matches Some(barter)
                    &&& filename == received_name(barter.requesting)
                },
            _ => true,
        },
{
    if let BarterStep::Event(event) = step {
        if let BarterEventView::Response { peer, sent, response } = event {
            assert(response is Accepted && sent is Barter ==> accepts(step, peer));
        }
    }
}

/// Whether a step is the acceptance of a barter by a peer: its answer to a request that was about
/// one.
pub open spec fn accepts<C>(step: BarterStep<C>, peer: Seq<char>) -> bool {
    step matches BarterStep::Event(BarterEventView::Response { peer: p, sent, response }) && p
        == peer && sent is Barter && response is Accepted
}

/// The only file that is read for an answer is the one that the latest proposal wants, and the
/// answer goes on the channel on which that proposal came.
pub proof fn law_only_what_was_wanted_is_answered<C>(s: SessionView<C>, step: BarterStep<C>, i: int)
    requires
        0 <= i < stepped(s, step).1.len(),
    ensures
        stepped(s, step).1[i] matches BarterActionView::ReadForAnswer { channel, filename, key }
            ==> {
            &&& step is Line
            &&& s.requests.len() > 0
            &&& s.requests.last().1.channel == channel
            &&& s.requests.last().1.requesting == filename
            &&& s.requests.last().1.key == key
        },
{
}

/// A proposal of this side that is open after a step was open before it, or has just been made
/// by the user to the first connected peer.
pub proof fn law_proposals_are_the_users<C>(s: SessionView<C>, step: BarterStep<C>, peer: Seq<char>)
    requires
        s.well_formed(),
        lookup(stepped(s, step).0.proposed, peer) is Some,
    ensures
        lookup(stepped(s, step).0.proposed, peer) == lookup(s.proposed, peer) || makes(
            s,
            step,
            peer,
            lookup(stepped(s, step).0.proposed, peer)->0,
        ),
        !(step matches BarterStep::Event(BarterEventView::Closed { peer: p }) && p == peer),
{
    match step {
        BarterStep::Line(line) => {},
        BarterStep::Checked { offering, requesting, found } => {
            if s.connected.len() > 0 {
                law_with(s.proposed, s.connected[0], PendingBarterView { offering, requesting });
            }
        },
        BarterStep::Event(event) => match event {
            BarterEventView::Closed { peer: p } => {
                law_without(s.proposed, p);
            },
            BarterEventView::Response { peer: p, sent, response } => {
                law_without(s.proposed, p);
            },
            _ => {},
        },
    }
}

/// Whether a step is the user's proposal of a barter to a peer.
pub open spec fn makes<C>(
    s: SessionView<C>,
    step: BarterStep<C>,
    peer: Seq<char>,
    barter: PendingBarterView,
) -> bool {
    &&& step == BarterStep::<C>::Checked {
        offering: barter.offering,
        requesting: barter.requesting,
        found: true,
    }
    &&& s.connected.len() > 0
    &&& s.connected[0] == peer
}

/// Whether the step at a position of a run is the user's proposal of a barter to a peer, and the
/// connection to that peer has not been closed since.
pub open spec fn offered_at<C>(
    s: SessionView<C>,
    steps: Seq<BarterStep<C>>,
    k: int,
    peer: Seq<char>,
    barter: PendingBarterView,
) -> bool {
    &&& 0 <= k < steps.len()
    &&& makes(after(s, steps.take(k)), steps[k], peer, barter)
    &&& forall|j: int|
        k < j < steps.len() ==> !(#[trigger] steps[j] matches BarterStep::Event(
            BarterEventView::Closed { peer: p },
        ) && p == peer)
}

/// Every open proposal in a run from a new session was made by the user to that peer, and the
/// connection to it has not been closed since.
pub proof fn law_open_proposals_were_made<C>(
    secret: Seq<char>,
    key: Seq<char>,
    steps: Seq<BarterStep<C>>,
    peer: Seq<char>,
)
    requires
        new_session::<C>(secret, key).well_formed(),
        lookup(after(new_session::<C>(secret, key), steps).proposed, peer) is Some,
    ensures
        exists|k: int| #[trigger]
            offered_at(
                new_session::<C>(secret, key),
                steps,
                k,
                peer,
                lookup(after(new_session::<C>(secret, key), steps).proposed, peer)->0,
            ),
    decreases steps.len(),
{
    let s = new_session::<C>(secret, key);
    let barter = lookup(after(s, steps).proposed, peer)->0;
    if steps.len() > 0 {
        let before = steps.drop_last();
        let n = before.len() as int;
        lemma_stays_well_formed(s, before);
        law_proposals_are_the_users(after(s, before), steps.last(), peer);
        assert(steps.take(n) =~= before);
        if makes(after(s, before), steps.last(), peer, barter) {
            assert(offered_at(s, steps, n, peer, barter));
        } else {
            law_open_proposals_were_made(secret, key, before, peer);
            let k = choose|k: int| offered_at(s, before, k, peer, barter);
            assert(steps.take(k) =~= before.take(k));
            assert forall|j: int| k < j < steps.len() implies !(#[trigger] steps[j] matches
                BarterStep::Event(BarterEventView::Closed { peer: p }) && p == peer) by {
                if j < n {
                    assert(steps[j] == before[j]);
                }
            }
            assert(offered_at(s, steps, k, peer, barter));
        }
    }
}

/// A barter is negotiated: in any run from a new session, a file that is read for delivery to a
/// peer is one that the user has offered to that peer with `/barter`.
pub proof fn law_delivered_file_was_offered<C>(
    secret: Seq<char>,
    key: Seq<char>,
    steps: Seq<BarterStep<C>>,
    step: BarterStep<C>,
    i: int,
)
    requires
        new_session::<C>(secret, key).well_formed(),
        0 <= i < stepped(after(new_session::<C>(secret, key), steps), step).1.len(),
    ensures
        stepped(after(new_session::<C>(secret, key), steps), step).1[i] matches
            BarterActionView::ReadForDelivery { peer, filename, key: other } ==> exists|
            k: int,
            barter: PendingBarterView,
        |
            #[trigger] offered_at(new_session::<C>(secret, key), steps, k, peer, barter)
                && barter.offering == filename,
{
    let s = after(new_session::<C>(secret, key), steps);
    law_only_what_was_offered_is_delivered(s, step, i);
    if let BarterActionView::ReadForDelivery { peer, filename, key: other } =
        stepped(s, step).1[i] {
        law_open_proposals_were_made(secret, key, steps, peer);
    }
}

/// Whether a step is a proposal of a peer that is then to be answered as `request` says.
pub open spec fn asks<C>(
    step: BarterStep<C>,
    peer: Seq<char>,
    request: WaitingRequestView<C>,
) -> bool {
    step == BarterStep::Event(
        BarterEventView::Request {
            peer,
            channel: request.channel,
            request: BarterMessageView::BarterRequest {
                offering: request.offering,
                requesting: request.requesting,
                key: request.key,
            },
        },
    )
}

proof fn lemma_rows<V>(rows: Seq<(Seq<char>, V)>, i: int)
    requires
        crate::table::distinct(rows),
        0 <= i < rows.len(),
    ensures
        lookup(rows, rows[i].0) == Some(rows[i].1),
{
    let key = rows[i].0;
    assert forall|k: int| 0 <= k < i implies (#[trigger] rows[k]).0 != key by {
        assert(rows[k].0 != rows[i].0);
    }
    lemma_position_is(rows, key, i);
}

/// What waits for an answer after a step waited before it, or has just been asked by that peer.
pub proof fn law_requests_are_the_peers<C>(s: SessionView<C>, step: BarterStep<C>, peer: Seq<char>)
    requires
        s.well_formed(),
        lookup(stepped(s, step).0.requests, peer) is Some,
    ensures
        lookup(stepped(s, step).0.requests, peer) == lookup(s.requests, peer) || asks(
            step,
            peer,
            lookup(stepped(s, step).0.requests, peer)->0,
        ),
{
    match step {
        BarterStep::Line(line) => {
            lemma_answered(s);
        },
        BarterStep::Checked { .. } => {},
        BarterStep::Event(event) => match event {
            BarterEventView::Closed { peer: p } => {
                law_without(s.requests, p);
            },
            BarterEventView::Request { peer: p, channel, request } => match request {
                BarterMessageView::BarterRequest { offering, requesting, key } => {
                    let waiting = WaitingRequestView { channel, offering, requesting, key };
                    law_without(s.requests, p);
                    law_with(without(s.requests, p), p, waiting);
                },
                _ => {},
            },
            _ => {},
        },
    }
}

/// Answering the latest proposal takes away that one alone.
proof fn lemma_answered<C>(s: SessionView<C>)
    requires
        s.well_formed(),
    ensures
        s.requests.len() > 0 ==> {
            let rest = s.requests.drop_last();
            &&& rest == without(s.requests, s.requests.last().0)
            &&& !holds(rest, s.requests.last().0)
            &&& forall|other: Seq<char>|
                other != s.requests.last().0 ==> #[trigger] lookup(rest, other) == lookup(
                    s.requests,
                    other,
                )
        },
{
    if s.requests.len() > 0 {
        let peer = s.requests.last().0;
        let n = s.requests.len() - 1;
        assert forall|i: int| 0 <= i < n implies (#[trigger] s.requests[i]).0 != peer by {
            assert(s.requests[i].0 != s.requests[n].0);
        }
        lemma_position_is(s.requests, peer, n);
        assert(s.requests.drop_last() =~= without(s.requests, peer));
        law_without(s.requests, peer);
    }
}

/// Every proposal that waits for an answer in a run from a new session has come from that peer on
/// that channel.
pub proof fn law_waiting_requests_were_asked<C>(
    secret: Seq<char>,
    key: Seq<char>,
    steps: Seq<BarterStep<C>>,
    peer: Seq<char>,
)
    requires
        new_session::<C>(secret, key).well_formed(),
        lookup(after(new_session::<C>(secret, key), steps).requests, peer) is Some,
    ensures
        exists|k: int|
            0 <= k < steps.len() && asks(
                #[trigger] steps[k],
                peer,
                lookup(after(new_session::<C>(secret, key), steps).requests, peer)->0,
            ),
    decreases steps.len(),
{
    let s = new_session::<C>(secret, key);
    let request = lookup(after(s, steps).requests, peer)->0;
    if steps.len() > 0 {
        let before = steps.drop_last();
        lemma_stays_well_formed(s, before);
        law_requests_are_the_peers(after(s, before), steps.last(), peer);
        if asks(steps.last(), peer, request) {
            assert(asks(steps[steps.len() - 1], peer, request));
        } else {
            law_waiting_requests_were_asked(secret, key, before, peer);
            let k = choose|k: int|
                0 <= k < before.len() && asks(#[trigger] before[k], peer, request);
            assert(steps[k] == before[k]);
        }
    }
}

/// In any run from a new session, a file that is read for an answer is one that some peer has
/// asked for in a proposal on the channel of that answer.
pub proof fn law_answered_file_was_wanted<C>(
    secret: Seq<char>,
    key: Seq<char>,
    steps: Seq<BarterStep<C>>,
    step: BarterStep<C>,
    i: int,
)
    requires
        new_session::<C>(secret, key).well_formed(),
        0 <= i < stepped(after(new_session::<C>(secret, key), steps), step).1.len(),
    ensures
        stepped(after(new_session::<C>(secret, key), steps), step).1[i] matches
            BarterActionView::ReadForAnswer { channel, filename, key: other } ==> exists|
            k: int,
            peer: Seq<char>,
            request: WaitingRequestView<C>,
        |
            {
                &&& 0 <= k < steps.len()
                &&& #[trigger] asks(steps[k], peer, request)
                &&& request.channel == channel
                &&& request.requesting == filename
                &&& request.key == other
            },
{
    let s = after(new_session::<C>(secret, key), steps);
    law_only_what_was_wanted_is_answered(s, step, i);
    if stepped(s, step).1[i] is ReadForAnswer {
        let (peer, request) = s.requests.last();
        lemma_stays_well_formed(new_session::<C>(secret, key), steps);
        lemma_rows(s.requests, s.requests.len() - 1);
        law_waiting_requests_were_asked(secret, key, steps, peer);
        let k = choose|k: int| 0 <= k < steps.len() && asks(#[trigger] steps[k], peer, request);
        assert(asks(steps[k], peer, request));
    }
}

/// Whether a step puts an end to the open proposal to a peer: its connection is closed, it answers
/// a request that was about a barter with a refusal or a confirmation, or with a file that cannot
/// be opened, or the user makes another proposal to the same peer.
pub open spec fn ends<C>(s: SessionView<C>, step: BarterStep<C>, peer: Seq<char>) -> bool {
    match step {
        BarterStep::Line(_) => false,
        BarterStep::Checked { offering, requesting, found } => makes(
            s,
            step,
            peer,
            PendingBarterView { offering, requesting },
        ),
        BarterStep::Event(event) => match event {
            BarterEventView::Closed { peer: p } => p == peer,
            BarterEventView::Response { peer: p, sent, response } => {
                &&& p == peer
                &&& sent is Barter
                &&& match response {
                    BarterResponseView::Accepted { file_data, key } => opened(
                        s.secret,
                        file_data,
                    ) is None,
                    BarterResponseView::MessageReceived => false,
                    _ => true,
                }
            },
            _ => false,
        },
    }
}

/// A proposal of this side stays open as it is until something puts an end to it. In particular,
/// no proposal of a peer touches it, nor an answer to a line of conversation.
pub proof fn law_open_proposal_is_kept<C>(s: SessionView<C>, step: BarterStep<C>, peer: Seq<char>)
    requires
        s.well_formed(),
        !ends(s, step, peer),
    ensures
        lookup(stepped(s, step).0.proposed, peer) == lookup(s.proposed, peer),
{
    match step {
        BarterStep::Line(line) => {},
        BarterStep::Checked { offering, requesting, found } => {
            if s.connected.len() > 0 {
                law_with(s.proposed, s.connected[0], PendingBarterView { offering, requesting });
            }
        },
        BarterStep::Event(event) => match event {
            BarterEventView::Closed { peer: p } => {
                law_without(s.proposed, p);
            },
            BarterEventView::Response { peer: p, sent, response } => {
                law_without(s.proposed, p);
            },
            _ => {},
        },
    }
}

/// Whether a step takes away the proposal of a peer that waits: its connection is closed, it
/// makes another one, or it is the latest one and the user answers.
pub open spec fn takes_away<C>(s: SessionView<C>, step: BarterStep<C>, peer: Seq<char>) -> bool {
    match step {
        BarterStep::Line(line) => {
            &&& begins_with(line, "/"@)
            &&& words_of(line).len() > 0
            &&& words_of(line)[0] == "/accept"@ || words_of(line)[0] == "/decline"@
            &&& s.requests.len() > 0
            &&& s.requests.last().0 == peer
        },
        BarterStep::Checked { .. } => false,
        BarterStep::Event(event) => match event {
            BarterEventView::Closed { peer: p } => p == peer,
            BarterEventView::Request { peer: p, channel, request } => p == peer
                && request is BarterRequest,
            _ => false,
        },
    }
}

/// A proposal of a peer waits as it is until something takes it away. In particular, no proposal
/// of this side touches it, nor any answer of the peer.
pub proof fn law_waiting_request_is_kept<C>(s: SessionView<C>, step: BarterStep<C>, peer: Seq<char>)
    requires
        s.well_formed(),
        !takes_away(s, step, peer),
    ensures
        lookup(stepped(s, step).0.requests, peer) == lookup(s.requests, peer),
{
    match step {
        BarterStep::Line(line) => {
            lemma_answered(s);
        },
        BarterStep::Checked { .. } => {},
        BarterStep::Event(event) => match event {
            BarterEventView::Closed { peer: p } => {
                law_without(s.requests, p);
            },
            BarterEventView::Request { peer: p, channel, request } => match request {
                BarterMessageView::BarterRequest { offering, requesting, key } => {
                    let waiting = WaitingRequestView { channel, offering, requesting, key };
                    law_without(s.requests, p);
                    law_with(without(s.requests, p), p, waiting);
                },
                _ => {},
            },
            _ => {},
        },
    }
}

/// `/accept` is an acceptance, and `/decline` a refusal.
proof fn lemma_answers<C>(s: SessionView<C>)
    ensures
        barter_line(s, "/accept"@) == acceptance(s),
        barter_line(s, "/decline"@) == refusal(s),
{
    reveal_strlit("/");
    reveal_strlit("/barter");
    reveal_strlit("/accept");
    reveal_strlit("/decline");
    assert("/accept"@.subrange(0, 1) =~= "/"@);
    assert("/decline"@.subrange(0, 1) =~= "/"@);
    lemma_first_word("/accept"@, Seq::empty());
    lemma_first_word("/decline"@, Seq::empty());
    assert("/accept"@[1] != "/barter"@[1]);
    assert("/decline"@.len() != "/barter"@.len());
    assert("/decline"@.len() != "/accept"@.len());
}

/// A proposal that has just come in is the one that `/accept` and `/decline` answer, on the
/// channel that it came on, whatever else waits and whatever this side has proposed: acceptance
/// reads the file that it wants, and refusal says so to the peer. Either way it no longer waits,
/// and what waited before still does.
pub proof fn law_latest_proposal_is_answered<C>(
    s: SessionView<C>,
    peer: Seq<char>,
    channel: C,
    offering: Seq<char>,
    requesting: Seq<char>,
    key: Seq<char>,
)
    requires
        s.well_formed(),
    ensures
        ({
            let request = BarterMessageView::BarterRequest { offering, requesting, key };
            let waiting = barter_event(s, BarterEventView::Request { peer, channel, request }).0;
            let (accepted, accepting) = barter_line(waiting, "/accept"@);
            let (declined, declining) = barter_line(waiting, "/decline"@);
            &&& accepting == seq![
                BarterActionView::Tell(BarterNotice::Accepting { peer }),
                BarterActionView::ReadForAnswer { channel, filename: requesting, key },
            ]
            &&& declining == seq![
                BarterActionView::Tell(BarterNotice::Declining { peer }),
                BarterActionView::Respond { channel, response: BarterResponseView::Declined },
            ]
            &&& accepted.requests == without(s.requests, peer)
            &&& declined.requests == without(s.requests, peer)
            &&& !holds(accepted.requests, peer)
            &&& accepted.proposed == s.proposed
            &&& declined.proposed == s.proposed
        }),
{
    let request = BarterMessageView::BarterRequest { offering, requesting, key };
    let waiting = barter_event(s, BarterEventView::Request { peer, channel, request }).0;
    let row = WaitingRequestView { channel, offering, requesting, key };
    law_without(s.requests, peer);
    lemma_answers(waiting);
    assert(waiting.requests == without(s.requests, peer).push((peer, row)));
    assert(waiting.requests.drop_last() =~= without(s.requests, peer));
}

/// A proposal is answered at most once: once it has been accepted or declined, its channel does
/// not wait any more, and the proposals of other peers are left as they were.
pub proof fn law_answered_once<C>(s: SessionView<C>)
    requires
        s.well_formed(),
        s.requests.len() > 0,
    ensures
        ({
            let peer = s.requests.last().0;
            &&& acceptance(s).0.requests == refusal(s).0.requests
            &&& !holds(refusal(s).0.requests, peer)
            &&& forall|other: Seq<char>|
                other != peer ==> #[trigger] lookup(refusal(s).0.requests, other) == lookup(
                    s.requests,
                    other,
                )
            &&& acceptance(s).0.proposed == s.proposed
            &&& refusal(s).0.proposed == s.proposed
        }),
{
    lemma_answered(s);
}

/// A whole barter. The first peer proposes `offering` for `requesting`; the second accepts, and
/// its file can be read; the first saves it and delivers its own, which the second saves and
/// confirms. What travels is encrypted for the one who gets it. In the end each has the other's
/// file, as it was, under its `received_` name, and neither the proposal nor the barter of the
/// first peer is left.
pub proof fn law_barter_swaps_files<C>(
    a: SessionView<C>,
    b: SessionView<C>,
    first: Seq<char>,
    offering: Seq<char>,
    requesting: Seq<char>,
    proposal_channel: C,
    delivery_channel: C,
    offered: Seq<u8>,
    requested: Seq<u8>,
    sealed_request: SealedFileView,
    sealed_offer: SealedFileView,
)
    requires
        a.well_formed(),
        b.well_formed(),
        a.connected.len() > 0,
        sealed_for(sealed_request, a.key, FileOutcomeView::Content(requested)),
        sealed_for(sealed_offer, b.key, FileOutcomeView::Content(offered)),
    ensures
        ({
            let second = a.connected[0];
            let request = BarterMessageView::BarterRequest { offering, requesting, key: a.key };
            let sent = Sent::Barter;
            let (a1, proposing) = checked_proposal(a, offering, requesting, true);
            let b1 = barter_event(
                b,
                BarterEventView::Request { peer: first, channel: proposal_channel, request },
            ).0;
            let (b2, accepting) = barter_line(b1, "/accept"@);
            let answering = file_answer(proposal_channel, requesting, b.key, sealed_request);
            let answer = BarterResponseView::Accepted {
                file_data: sealed_request->data,
                key: b.key,
            };
            let (a2, receiving) = barter_event(
                a1,
                BarterEventView::Response { peer: second, sent, response: answer },
            );
            let delivering = delivery::<C>(second, offering, sealed_offer);
            let message = BarterMessageView::FileDelivery {
                filename: offering,
                file_data: sealed_offer->data,
            };
            let (b3, saving) = barter_event(
                b2,
                BarterEventView::Request {
                    peer: first,
                    channel: delivery_channel,
                    request: message,
                },
            );
            let confirming = delivery_answer(delivery_channel, received_name(offering), true);
            let a3 = barter_event(
                a2,
                BarterEventView::Response {
                    peer: second,
                    sent,
                    response: BarterResponseView::FileReceived,
                },
            ).0;
            &&& proposing.contains(
                BarterActionView::Send { peer: second, message: request, sent },
            )
            &&& accepting.contains(
                BarterActionView::ReadForAnswer {
                    channel: proposal_channel,
                    filename: requesting,
                    key: a.key,
                },
            )
            &&& seals(sealed_request->data, a.key, requested)
            &&& answering.contains(
                BarterActionView::Respond { channel: proposal_channel, response: answer },
            )
            &&& receiving.contains(
                BarterActionView::SaveAccepted {
                    filename: received_name(requesting),
                    data: requested,
                },
            )
            &&& receiving.contains(
                BarterActionView::ReadForDelivery { peer: second, filename: offering, key: b.key },
            )
            &&& seals(sealed_offer->data, b.key, offered)
            &&& delivering.contains(BarterActionView::Send { peer: second, message, sent })
            &&& saving.contains(
                BarterActionView::SaveDelivery {
                    channel: delivery_channel,
                    filename: received_name(offering),
                    data: offered,
                },
            )
            &&& confirming.contains(
                BarterActionView::Respond {
                    channel: delivery_channel,
                    response: BarterResponseView::FileReceived,
                },
            )
            &&& !holds(a3.proposed, second)
            &&& !holds(b3.requests, first)
        }),
{
    let second = a.connected[0];
    let barter = PendingBarterView { offering, requesting };
    let request = BarterMessageView::BarterRequest { offering, requesting, key: a.key };
    let sent = Sent::Barter;
    let (a1, proposing) = checked_proposal(a, offering, requesting, true);
    law_with(a.proposed, second, barter);
    law_latest_proposal_is_answered(b, first, proposal_channel, offering, requesting, a.key);
    let b1 = barter_event(
        b,
        BarterEventView::Request { peer: first, channel: proposal_channel, request },
    ).0;
    let (b2, accepting) = barter_line(b1, "/accept"@);
    lemma_answers(b1);
    let answering = file_answer(proposal_channel, requesting, b.key, sealed_request);
    let answer = BarterResponseView::Accepted { file_data: sealed_request->data, key: b.key };
    assert(opened(a.secret, sealed_request->data) == Some(requested));
    assert(opened(b.secret, sealed_offer->data) == Some(offered));
    let (a2, receiving) = barter_event(
        a1,
        BarterEventView::Response { peer: second, sent, response: answer },
    );
    let delivering = delivery::<C>(second, offering, sealed_offer);
    let message = BarterMessageView::FileDelivery {
        filename: offering,
        file_data: sealed_offer->data,
    };
    let (b3, saving) = barter_event(
        b2,
        BarterEventView::Request { peer: first, channel: delivery_channel, request: message },
    );
    let confirming = delivery_answer(delivery_channel, received_name(offering), true);
    assert(a2 == a1);
    law_without(a2.proposed, second);
    assert(proposing[1] == BarterActionView::<C>::Send { peer: second, message: request, sent });
    assert(accepting[1] == (BarterActionView::ReadForAnswer {
        channel: proposal_channel,
        filename: requesting,
        key: a.key,
    }));
    assert(answering[1] == (BarterActionView::Respond {
        channel: proposal_channel,
        response: answer,
    }));
    assert(receiving[1] == BarterActionView::<C>::SaveAccepted {
        filename: received_name(requesting),
        data: requested,
    });
    assert(receiving[3] == BarterActionView::<C>::ReadForDelivery {
        peer: second,
        filename: offering,
        key: b.key,
    });
    assert(delivering[1] == BarterActionView::<C>::Send { peer: second, message, sent });
    assert(saving[1] == (BarterActionView::SaveDelivery {
        channel: delivery_channel,
        filename: received_name(offering),
        data: offered,
    }));
    assert(confirming[1] == (BarterActionView::Respond {
        channel: delivery_channel,
        response: BarterResponseView::FileReceived,
    }));
}

/// A file never travels as it is: what is sent of a file, for an answer or for a delivery, is
/// longer than the file, and the secret key of the one who gets it opens it.
pub proof fn law_files_are_encrypted<C>(
    file: Seq<u8>,
    key: Seq<char>,
    sealed: SealedFileView,
    channel: C,
    wanted: Seq<char>,
    own: Seq<char>,
    peer: Seq<char>,
    offering: Seq<char>,
    i: int,
)
    requires
        sealed_for(sealed, key, FileOutcomeView::Content(file)),
    ensures
        ({
            let answer = file_answer(channel, wanted, own, sealed);
            0 <= i < answer.len() ==> match answer[i] {
                BarterActionView::Respond {
                    response: BarterResponseView::Accepted { file_data, .. },
                    ..
                } => file_data.len() > file.len() && seals(file_data, key, file),
                _ => true,
            }
        }),
        ({
            let sending = delivery::<C>(peer, offering, sealed);
            0 <= i < sending.len() ==> match sending[i] {
                BarterActionView::Send {
                    message: BarterMessageView::FileDelivery { file_data, .. },
                    ..
                } => file_data.len() > file.len() && seals(file_data, key, file),
                _ => true,
            }
        }),
{
}

/// A proposal that is declined, whose file cannot be read, whose barter is completed or whose peer
/// is gone is not open any more; the proposals to other peers are as they were, and a later
/// acceptance is only told.
pub proof fn law_ended_barter_is_forgotten<C>(
    s: SessionView<C>,
    peer: Seq<char>,
    channel: C,
    filename: Seq<char>,
    file_data: Seq<u8>,
    key: Seq<char>,
)
    requires
        s.well_formed(),
    ensures
        file_answer(channel, filename, s.key, SealedFileView::NotOpened).last()
            == (BarterActionView::Respond { channel, response: BarterResponseView::Declined }),
        file_answer(channel, filename, s.key, SealedFileView::NotRead).last()
            == (BarterActionView::Respond { channel, response: BarterResponseView::Declined }),
        ({
            let sent = Sent::Barter;
            let response = BarterResponseView::Declined;
            let declined = barter_event(s, BarterEventView::Response { peer, sent, response }).0;
            forgotten(s, declined, peer, file_data, key)
        }),
        ({
            let sent = Sent::Barter;
            let response = BarterResponseView::FileReceived;
            let completed = barter_event(s, BarterEventView::Response { peer, sent, response }).0;
            forgotten(s, completed, peer, file_data, key)
        }),
        forgotten(s, barter_event(s, BarterEventView::Closed { peer }).0, peer, file_data, key),
{
    law_without(s.proposed, peer);
}

/// Whether the proposal to a peer is not open any more, while the others are as they were, and an
/// acceptance of it would only be told.
pub open spec fn forgotten<C>(
    before: SessionView<C>,
    after: SessionView<C>,
    peer: Seq<char>,
    file_data: Seq<u8>,
    key: Seq<char>,
) -> bool {
    let sent = Sent::Barter;
    let response = BarterResponseView::Accepted { file_data, key };
    &&& !holds(after.proposed, peer)
    &&& forall|other: Seq<char>|
        other != peer ==> #[trigger] lookup(after.proposed, other) == lookup(before.proposed, other)
    &&& barter_event(after, BarterEventView::Response { peer, sent, response }) == (
        after,
        seq![
            BarterActionView::<C>::Tell(
                BarterNotice::BarterAccepted { peer, size: file_data.len() as usize },
            ),
        ],
    )
}

/// Once the connection to a peer is closed, nothing of it is left in the session, and the other
/// peers are not touched.
pub proof fn law_closed_peer_is_forgotten<C>(s: SessionView<C>, peer: Seq<char>)
    requires
        s.well_formed(),
    ensures
        ({
            let after = barter_event(s, BarterEventView::Closed { peer }).0;
            &&& !after.connected.contains(peer)
            &&& !holds(after.proposed, peer)
            &&& !holds(after.requests, peer)
            &&& forall|other: Seq<char>|
                other != peer ==> {
                    &&& #[trigger] after.connected.contains(other) == s.connected.contains(other)
                    &&& lookup(after.proposed, other) == lookup(s.proposed, other)
                    &&& lookup(after.requests, other) == lookup(s.requests, other)
                }
        }),
{
    law_without(s.proposed, peer);
    law_without(s.requests, peer);
    lemma_others(s.connected, peer);
}

proof fn lemma_others(peers: Seq<Seq<char>>, peer: Seq<char>)
    ensures
        !others(peers, peer).contains(peer),
        forall|other: Seq<char>|
            other != peer ==> #[trigger] others(peers, peer).contains(other) == peers.contains(
                other,
            ),
    decreases peers.len(),
{
    reveal(Seq::filter);
    let now = others(peers, peer);
    if peers.len() > 0 {
        let front = peers.drop_last();
        lemma_others(front, peer);
        let kept = others(front, peer);
        assert forall|other: Seq<char>| other != peer implies #[trigger] now.contains(other)
            == peers.contains(other) by {
            if peers.contains(other) {
                let i = choose|i: int| 0 <= i < peers.len() && peers[i] == other;
                if i < front.len() {
                    assert(front[i] == other);
                    assert(kept.contains(other));
                    let j = choose|j: int| 0 <= j < kept.len() && kept[j] == other;
                    assert(now[j] == other);
                } else {
                    assert(now.last() == other);
                }
            }
            if now.contains(other) {
                let i = choose|i: int| 0 <= i < now.len() && now[i] == other;
                if i < kept.len() {
                    assert(kept[i] == other);
                    assert(kept.contains(other));
                    let j = choose|j: int| 0 <= j < front.len() && front[j] == other;
                    assert(peers[j] == other);
                } else {
                    assert(peers.last() == other);
                }
            }
        }
        if now.contains(peer) {
            let i = choose|i: int| 0 <= i < now.len() && now[i] == peer;
            assert(kept[i] == peer);
            assert(kept.contains(peer));
        }
    }
}

/// A line that is no command is said to the other peer, who is shown it and confirms it; it
/// changes nothing on either side. Nor does any other answer to it do more than be told.
pub proof fn law_conversation_changes_nothing<C, D>(
    s: SessionView<C>,
    partner: SessionView<D>,
    line: Seq<char>,
    first: Seq<char>,
    channel: D,
    peer: Seq<char>,
    response: BarterResponseView,
    i: int,
)
    requires
        line.len() > 0,
        !begins_with(line, "/"@),
    ensures
        barter_line(s, line).0 == s,
        s.connected.len() > 0 ==> barter_line(s, line).1 == seq![
            BarterActionView::<C>::Send {
                peer: s.connected[0],
                message: BarterMessageView::DirectMessage { content: line },
                sent: Sent::Conversation,
            },
        ],
        ({
            let request = BarterMessageView::DirectMessage { content: line };
            barter_event(partner, BarterEventView::Request { peer: first, channel, request }) == (
                partner,
                seq![
                    BarterActionView::Tell(
                        BarterNotice::DirectMessage { peer: first, content: line },
                    ),
                    BarterActionView::Respond {
                        channel,
                        response: BarterResponseView::MessageReceived,
                    },
                ],
            )
        }),
        ({
            let sent = Sent::Conversation;
            let (after, actions) = barter_event(
                s,
                BarterEventView::Response { peer, sent, response },
            );
            &&& after == s
            &&& response is MessageReceived ==> actions.len() == 0
            &&& 0 <= i < actions.len() ==> actions[i] is Tell
        }),
{
}

/// An action with another public key in the proposal that it sends, if it sends one.
pub open spec fn rekeyed<C>(action: BarterActionView<C>, key: Seq<char>) -> BarterActionView<C> {
    match action {
        BarterActionView::Send {
            peer,
            message: BarterMessageView::BarterRequest { offering, requesting, .. },
            sent,
        } => BarterActionView::Send {
            peer,
            message: BarterMessageView::BarterRequest { offering, requesting, key },
            sent,
        },
        _ => action,
    }
}

/// Whether two secret keys open the file that comes with a step, if one does, to the same content.
pub open spec fn opened_alike<C>(step: BarterStep<C>, a: Seq<char>, b: Seq<char>) -> bool {
    match step {
        BarterStep::Event(
            BarterEventView::Response {
                response: BarterResponseView::Accepted { file_data, .. },
                ..
            },
        ) => opened(a, file_data) == opened(b, file_data),
        BarterStep::Event(
            BarterEventView::Request {
                request: BarterMessageView::FileDelivery { file_data, .. },
                ..
            },
        ) => opened(a, file_data) == opened(b, file_data),
        _ => true,
    }
}

/// Whether two sessions differ in their keys at most.
pub open spec fn alike<C>(a: SessionView<C>, b: SessionView<C>) -> bool {
    a == (SessionView { secret: a.secret, key: a.key, ..b })
}

proof fn lemma_step_alike<C>(a: SessionView<C>, b: SessionView<C>, step: BarterStep<C>)
    requires
        alike(a, b),
        opened_alike(step, a.secret, b.secret),
    ensures
        alike(stepped(a, step).0, stepped(b, step).0),
        stepped(a, step).0.secret == a.secret,
        stepped(a, step).0.key == a.key,
        stepped(b, step).0.secret == b.secret,
        stepped(b, step).0.key == b.key,
        stepped(a, step).1.len() == stepped(b, step).1.len(),
        forall|i: int|
            0 <= i < stepped(a, step).1.len() ==> #[trigger] stepped(a, step).1[i] == rekeyed(
                stepped(b, step).1[i],
                a.key,
            ),
{
}

/// Under which identity a session runs plays no part in what it does, nor does it matter which
/// keys it has: two sessions that go through the same lines and events, and whose keys open what
/// comes to the same files, send the same messages to the same peers and save the same files, in
/// the same order. Only the public key in the proposals is each one's own.
pub proof fn law_identity_plays_no_part<C>(
    a: SessionView<C>,
    b: SessionView<C>,
    steps: Seq<BarterStep<C>>,
    step: BarterStep<C>,
    i: int,
)
    requires
        alike(a, b),
        forall|k: int|
            0 <= k < steps.len() ==> opened_alike(#[trigger] steps[k], a.secret, b.secret),
        opened_alike(step, a.secret, b.secret),
    ensures
        alike(after(a, steps), after(b, steps)),
        ({
            let doing = stepped(after(a, steps), step).1;
            let other = stepped(after(b, steps), step).1;
            &&& doing.len() == other.len()
            &&& 0 <= i < doing.len() ==> doing[i] == rekeyed(other[i], a.key)
        }),
{
    lemma_run_alike(a, b, steps);
    lemma_step_alike(after(a, steps), after(b, steps), step);
}

proof fn lemma_run_alike<C>(a: SessionView<C>, b: SessionView<C>, steps: Seq<BarterStep<C>>)
    requires
        alike(a, b),
        forall|k: int|
            0 <= k < steps.len() ==> opened_alike(#[trigger] steps[k], a.secret, b.secret),
    ensures
        alike(after(a, steps), after(b, steps)),
        after(a, steps).secret == a.secret,
        after(a, steps).key == a.key,
        after(b, steps).secret == b.secret,
        after(b, steps).key == b.key,
    decreases steps.len(),
{
    if steps.len() > 0 {
        let before = steps.drop_last();
        assert forall|k: int| 0 <= k < before.len() implies opened_alike(
            #[trigger] before[k],
            a.secret,
            b.secret,
        ) by {
            assert(before[k] == steps[k]);
        }
        lemma_run_alike(a, b, before);
        assert(opened_alike(steps[steps.len() - 1], a.secret, b.secret));
        lemma_step_alike(after(a, before), after(b, before), steps.last());
    }
}

/// `/barter` with two file names proposes the first for the second, provided that neither holds
/// white space.
pub proof fn law_barter_names_two_files<C>(
    s: SessionView<C>,
    offering: Seq<char>,
    requesting: Seq<char>,
)
    requires
        s.connected.len() > 0,
        is_word(offering),
        is_word(requesting),
    ensures
        ({
            let line = "/barter"@ + seq![' '] + (offering + seq![' '] + requesting);
            barter_line(s, line) == (
                s,
                seq![BarterActionView::<C>::CheckOffer { offering, requesting }],
            )
        }),
{
    reveal_strlit("/barter");
    reveal_strlit("/");
    let command = "/barter"@;
    let files = offering + seq![' '] + requesting;
    let line = command + seq![' '] + files;
    assert(line.subrange(0, 1) =~= "/"@);
    lemma_first_word(command, files);
    lemma_first_word(offering, requesting);
    lemma_first_word(requesting, Seq::empty());
    let parts = words_of(line);
    assert(parts =~= seq![command, offering, requesting]);
}

}
