//! The barter session: two peers talk, and swap one file for another.
//!
//! The session takes lines that its user types and events of the network, one at a time, and says
//! what is to be done. What this side has proposed and what other peers have proposed to it are
//! kept apart.

use crate::addresses::{listening_at, usable_listen_address};
use crate::foreign::{
    generate_secret, opened, parsed_multiaddr, parsed_recipient, public_key, recipient_of, unseal,
};
use crate::messages::{BarterMessage, BarterMessageView, BarterResponse, BarterResponseView};
use crate::plan::contents;
use crate::sealing::{good_key, is_weak, seal_file, seals};
use crate::table::{distinct, law_with, law_without, lookup, with, without, PeerTable};
use crate::text::{begins_with, optional_text, same_text, starts_with, texts, words, words_of};
use vstd::prelude::*;

verus! {

broadcast use {crate::plan::lemma_contents_add, crate::plan::lemma_contents_push};

/// What the user is told.
#[derive(Debug, PartialEq, Eq)]
pub enum BarterNotice<S> {
    BarterUsage,
    /// Commands begin with a slash.
    CommandsBeginWithSlash,
    NoPeers,
    NoSuchFile { filename: S },
    SendingRequest { peer: S },
    NothingToAccept,
    Accepting { peer: S },
    FileRead { filename: S, size: usize },
    DecliningUnreadFile,
    DecliningMissingFile { filename: S },
    DecliningUnsealedFile { filename: S },
    NothingToDecline,
    Declining { peer: S },
    NoPeersConnected,
    PeersHeading,
    PeerRow { number: usize, peer: S },
    PeersEnd,
    Help,
    UnknownCommand,
    Listening { address: S },
    ConnectionEstablished { peer: S },
    ConnectionClosed { peer: S },
    RequestReceived { peer: S, offering: S, requesting: S },
    DeliveryReceived { peer: S, filename: S, size: usize },
    DeliveryUnreadable { peer: S },
    DeliverySaved { filename: S },
    DeliveryNotSaved,
    BarterAccepted { peer: S, size: usize },
    AcceptedFileUnreadable { peer: S },
    AcceptedFileSaved { filename: S },
    AcceptedFileNotSaved,
    ReadingOffer { filename: S },
    SendingOffer { size: usize },
    OfferNotOpened,
    OfferNotRead,
    OfferNotSealed { peer: S },
    BarterDeclined { peer: S },
    BarterCompleted { peer: S },
    DirectMessage { peer: S, content: S },
    Returning,
}

impl View for BarterNotice<String> {
    type V = BarterNotice<Seq<char>>;

    open spec fn view(&self) -> BarterNotice<Seq<char>> {
        match *self {
            BarterNotice::BarterUsage => BarterNotice::BarterUsage,
            BarterNotice::CommandsBeginWithSlash => BarterNotice::CommandsBeginWithSlash,
            BarterNotice::NoPeers => BarterNotice::NoPeers,
            BarterNotice::NoSuchFile { filename } => BarterNotice::NoSuchFile {
                filename: filename@,
            },
            BarterNotice::SendingRequest { peer } => BarterNotice::SendingRequest { peer: peer@ },
            BarterNotice::NothingToAccept => BarterNotice::NothingToAccept,
            BarterNotice::Accepting { peer } => BarterNotice::Accepting { peer: peer@ },
            BarterNotice::FileRead { filename, size } => BarterNotice::FileRead {
                filename: filename@,
                size,
            },
            BarterNotice::DecliningUnreadFile => BarterNotice::DecliningUnreadFile,
            BarterNotice::DecliningMissingFile { filename } => BarterNotice::DecliningMissingFile {
                filename: filename@,
            },
            BarterNotice::DecliningUnsealedFile {
                filename,
            } => BarterNotice::DecliningUnsealedFile { filename: filename@ },
            BarterNotice::NothingToDecline => BarterNotice::NothingToDecline,
            BarterNotice::Declining { peer } => BarterNotice::Declining { peer: peer@ },
            BarterNotice::NoPeersConnected => BarterNotice::NoPeersConnected,
            BarterNotice::PeersHeading => BarterNotice::PeersHeading,
            BarterNotice::PeerRow { number, peer } => BarterNotice::PeerRow { number, peer: peer@ },
            BarterNotice::PeersEnd => BarterNotice::PeersEnd,
            BarterNotice::Help => BarterNotice::Help,
            BarterNotice::UnknownCommand => BarterNotice::UnknownCommand,
            BarterNotice::Listening { address } => BarterNotice::Listening { address: address@ },
            BarterNotice::ConnectionEstablished { peer } => BarterNotice::ConnectionEstablished {
                peer: peer@,
            },
            BarterNotice::ConnectionClosed { peer } => BarterNotice::ConnectionClosed {
                peer: peer@,
            },
            BarterNotice::RequestReceived {
                peer,
                offering,
                requesting,
            } => BarterNotice::RequestReceived {
                peer: peer@,
                offering: offering@,
                requesting: requesting@,
            },
            BarterNotice::DeliveryReceived {
                peer,
                filename,
                size,
            } => BarterNotice::DeliveryReceived {
                peer: peer@,
                filename: filename@,
                size,
            },
            BarterNotice::DeliveryUnreadable { peer } => BarterNotice::DeliveryUnreadable {
                peer: peer@,
            },
            BarterNotice::DeliverySaved { filename } => BarterNotice::DeliverySaved {
                filename: filename@,
            },
            BarterNotice::DeliveryNotSaved => BarterNotice::DeliveryNotSaved,
            BarterNotice::BarterAccepted { peer, size } => BarterNotice::BarterAccepted {
                peer: peer@,
                size,
            },
            BarterNotice::AcceptedFileUnreadable { peer } => BarterNotice::AcceptedFileUnreadable {
                peer: peer@,
            },
            BarterNotice::AcceptedFileSaved { filename } => BarterNotice::AcceptedFileSaved {
                filename: filename@,
            },
            BarterNotice::AcceptedFileNotSaved => BarterNotice::AcceptedFileNotSaved,
            BarterNotice::ReadingOffer { filename } => BarterNotice::ReadingOffer {
                filename: filename@,
            },
            BarterNotice::SendingOffer { size } => BarterNotice::SendingOffer { size },
            BarterNotice::OfferNotOpened => BarterNotice::OfferNotOpened,
            BarterNotice::OfferNotRead => BarterNotice::OfferNotRead,
            BarterNotice::OfferNotSealed { peer } => BarterNotice::OfferNotSealed { peer: peer@ },
            BarterNotice::BarterDeclined { peer } => BarterNotice::BarterDeclined { peer: peer@ },
            BarterNotice::BarterCompleted { peer } => BarterNotice::BarterCompleted { peer: peer@ },
            BarterNotice::DirectMessage { peer, content } => BarterNotice::DirectMessage {
                peer: peer@,
                content: content@,
            },
            BarterNotice::Returning => BarterNotice::Returning,
        }
    }
}

/// The files of a barter: one is offered for the other.
#[derive(Debug, PartialEq, Eq)]
pub struct PendingBarter {
    pub offering: String,
    pub requesting: String,
}

/// The content of a [`PendingBarter`].
pub struct PendingBarterView {
    pub offering: Seq<char>,
    pub requesting: Seq<char>,
}

impl View for PendingBarter {
    type V = PendingBarterView;

    open spec fn view(&self) -> PendingBarterView {
        PendingBarterView { offering: self.offering@, requesting: self.requesting@ }
    }
}

/// A proposal of another peer that waits for an answer. `C` is the channel of the answer, which
/// is encrypted for `key`.
pub struct WaitingRequest<C> {
    pub channel: C,
    pub offering: String,
    pub requesting: String,
    pub key: String,
}

/// The content of a [`WaitingRequest`].
pub struct WaitingRequestView<C> {
    pub channel: C,
    pub offering: Seq<char>,
    pub requesting: Seq<char>,
    pub key: Seq<char>,
}

impl<C> View for WaitingRequest<C> {
    type V = WaitingRequestView<C>;

    open spec fn view(&self) -> WaitingRequestView<C> {
        WaitingRequestView {
            channel: self.channel,
            offering: self.offering@,
            requesting: self.requesting@,
            key: self.key@,
        }
    }
}

/// What a request that this side sent was about. Its answer is told apart by it.
#[derive(Debug, Clone, Copy, PartialEq, Eq, Structural)]
pub enum Sent {
    /// It proposed a barter, or delivered the offered file of one.
    Barter,
    /// It was a line of conversation.
    Conversation,
}

/// What a session asks to be done. `C` is the channel on which a request is answered.
#[derive(Debug, PartialEq, Eq)]
pub enum BarterAction<C> {
    /// Tell the user.
    Tell(BarterNotice<String>),
    /// See whether the file `offering` can be accessed, then call
    /// [`BarterSession::proposal_checked`].
    CheckOffer { offering: String, requesting: String },
    /// Read the file, then call [`BarterSession::answer_with_file`].
    ReadForAnswer { channel: C, filename: String, key: String },
    /// Write the file, then call [`delivery_saved`].
    SaveDelivery { channel: C, filename: String, data: Vec<u8> },
    /// Write the file, then call [`accepted_file_saved`].
    SaveAccepted { filename: String, data: Vec<u8> },
    /// Read the file, then call [`deliver_file`].
    ReadForDelivery { peer: String, filename: String, key: String },
    /// Send a request to a peer, and hand back `sent` with its answer.
    Send { peer: String, message: BarterMessage, sent: Sent },
    /// Answer a request.
    Respond { channel: C, response: BarterResponse },
    /// End the session and go back to the chat room.
    Return,
}

/// The content of a [`BarterAction`].
pub enum BarterActionView<C> {
    Tell(BarterNotice<Seq<char>>),
    CheckOffer { offering: Seq<char>, requesting: Seq<char> },
    ReadForAnswer { channel: C, filename: Seq<char>, key: Seq<char> },
    SaveDelivery { channel: C, filename: Seq<char>, data: Seq<u8> },
    SaveAccepted { filename: Seq<char>, data: Seq<u8> },
    ReadForDelivery { peer: Seq<char>, filename: Seq<char>, key: Seq<char> },
    Send { peer: Seq<char>, message: BarterMessageView, sent: Sent },
    Respond { channel: C, response: BarterResponseView },
    Return,
}

impl<C> View for BarterAction<C> {
    type V = BarterActionView<C>;

    open spec fn view(&self) -> BarterActionView<C> {
        match *self {
            BarterAction::Tell(notice) => BarterActionView::Tell(notice@),
            BarterAction::CheckOffer { offering, requesting } => BarterActionView::CheckOffer {
                offering: offering@,
                requesting: requesting@,
            },
            BarterAction::ReadForAnswer { channel, filename, key } => {
                BarterActionView::ReadForAnswer { channel, filename: filename@, key: key@ }
            },
            BarterAction::SaveDelivery { channel, filename, data } => {
                BarterActionView::SaveDelivery { channel, filename: filename@, data: data@ }
            },
            BarterAction::SaveAccepted { filename, data } => BarterActionView::SaveAccepted {
                filename: filename@,
                data: data@,
            },
            BarterAction::ReadForDelivery { peer, filename, key } => {
                BarterActionView::ReadForDelivery { peer: peer@, filename: filename@, key: key@ }
            },
            BarterAction::Send { peer, message, sent } => BarterActionView::Send {
                peer: peer@,
                message: message@,
                sent,
            },
            BarterAction::Respond { channel, response } => BarterActionView::Respond {
                channel,
                response: response@,
            },
            BarterAction::Return => BarterActionView::Return,
        }
    }
}

/// What happens on the network during a session.
#[derive(Debug, PartialEq, Eq)]
pub enum BarterEvent<C> {
    Listening { address: String },
    Connected { peer: String },
    Closed { peer: String },
    Request { peer: String, channel: C, request: BarterMessage },
    /// A peer answers a request; `sent` is what that one was about.
    Response { peer: String, sent: Sent, response: BarterResponse },
}

/// The content of a [`BarterEvent`].
pub enum BarterEventView<C> {
    Listening { address: Seq<char> },
    Connected { peer: Seq<char> },
    Closed { peer: Seq<char> },
    Request { peer: Seq<char>, channel: C, request: BarterMessageView },
    Response { peer: Seq<char>, sent: Sent, response: BarterResponseView },
}

impl<C> View for BarterEvent<C> {
    type V = BarterEventView<C>;

    open spec fn view(&self) -> BarterEventView<C> {
        match *self {
            BarterEvent::Listening { address } => BarterEventView::Listening { address: address@ },
            BarterEvent::Connected { peer } => BarterEventView::Connected { peer: peer@ },
            BarterEvent::Closed { peer } => BarterEventView::Closed { peer: peer@ },
            BarterEvent::Request { peer, channel, request } => BarterEventView::Request {
                peer: peer@,
                channel,
                request: request@,
            },
            BarterEvent::Response { peer, sent, response } => BarterEventView::Response {
                peer: peer@,
                sent,
                response: response@,
            },
        }
    }
}

/// What came of reading a file.
#[derive(Debug, PartialEq, Eq)]
pub enum FileOutcome {
    Content(Vec<u8>),
    NotOpened,
    NotRead,
}

/// The content of a [`FileOutcome`].
pub enum FileOutcomeView {
    Content(Seq<u8>),
    NotOpened,
    NotRead,
}

impl View for FileOutcome {
    type V = FileOutcomeView;

    open spec fn view(&self) -> FileOutcomeView {
        match *self {
            FileOutcome::Content(data) => FileOutcomeView::Content(data@),
            FileOutcome::NotOpened => FileOutcomeView::NotOpened,
            FileOutcome::NotRead => FileOutcomeView::NotRead,
        }
    }
}

/// What came of reading a file and encrypting it. `size` is that of the file.
#[derive(Debug, PartialEq, Eq)]
pub enum SealedFile {
    Sealed { size: usize, data: Vec<u8> },
    NotSealed,
    NotOpened,
    NotRead,
}

/// The content of a [`SealedFile`].
pub enum SealedFileView {
    Sealed { size: nat, data: Seq<u8> },
    NotSealed,
    NotOpened,
    NotRead,
}

impl View for SealedFile {
    type V = SealedFileView;

    open spec fn view(&self) -> SealedFileView {
        match *self {
            SealedFile::Sealed { size, data } => SealedFileView::Sealed {
                size: size as nat,
                data: data@,
            },
            SealedFile::NotSealed => SealedFileView::NotSealed,
            SealedFile::NotOpened => SealedFileView::NotOpened,
            SealedFile::NotRead => SealedFileView::NotRead,
        }
    }
}

/// Whether a file that was read is encrypted for a key as it should be: if the key is good, and
/// in such a way that the holder of the secret key gets back the file.
pub open spec fn sealed_for(
    sealed: SealedFileView,
    key: Seq<char>,
    outcome: FileOutcomeView,
) -> bool {
    match outcome {
        FileOutcomeView::Content(file) => if good_key(key) {
            &&& sealed matches SealedFileView::Sealed { size, data }
            &&& size == file.len()
            &&& seals(data, key, file)
        } else {
            sealed is NotSealed
        },
        FileOutcomeView::NotOpened => sealed is NotOpened,
        FileOutcomeView::NotRead => sealed is NotRead,
    }
}

/// Encrypts a file that was read for a key.
pub fn seal_outcome(key: &str, outcome: FileOutcome) -> (r: SealedFile)
    ensures
        sealed_for(r@, key@, outcome@),
{
    match outcome {
        FileOutcome::Content(file) => match seal_file(key, &file) {
            Some(data) => SealedFile::Sealed { size: file.len(), data },
            None => SealedFile::NotSealed,
        },
        FileOutcome::NotOpened => SealedFile::NotOpened,
        FileOutcome::NotRead => SealedFile::NotRead,
    }
}

/// The state of a session.
#[verifier::ext_equal]
pub struct SessionView<C> {
    /// The secret key of this side.
    pub secret: Seq<char>,
    /// The public key of this side, for which other peers encrypt.
    pub key: Seq<char>,
    /// The connected peers, once for each connection.
    pub connected: Seq<Seq<char>>,
    /// What this side has proposed to each peer and is still open.
    pub proposed: Seq<(Seq<char>, PendingBarterView)>,
    /// What each peer has proposed to this side and waits for an answer, the latest one last.
    pub requests: Seq<(Seq<char>, WaitingRequestView<C>)>,
}

impl<C> SessionView<C> {
    /// No peer has two open proposals of either kind, and the keys belong together.
    pub open spec fn well_formed(self) -> bool {
        &&& distinct(self.proposed)
        &&& distinct(self.requests)
        &&& recipient_of(self.secret) == Some(self.key)
        &&& parsed_recipient(self.key) == Some(self.key)
        &&& good_key(self.key)
    }
}

/// A session with these keys before anyone has connected.
pub open spec fn new_session<C>(secret: Seq<char>, key: Seq<char>) -> SessionView<C> {
    SessionView {
        secret,
        key,
        connected: Seq::empty(),
        proposed: Seq::empty(),
        requests: Seq::empty(),
    }
}

/// A barter session. `C` is the channel on which a request is answered.
pub struct BarterSession<C> {
    secret: String,
    key: String,
    connected: Vec<String>,
    proposed: PeerTable<PendingBarter>,
    requests: PeerTable<WaitingRequest<C>>,
}

impl<C> View for BarterSession<C> {
    type V = SessionView<C>;

    closed spec fn view(&self) -> SessionView<C> {
        SessionView {
            secret: self.secret@,
            key: self.key@,
            connected: texts(self.connected@),
            proposed: self.proposed@,
            requests: self.requests@,
        }
    }
}

/// The name under which a received file is saved.
pub open spec fn received_name(filename: Seq<char>) -> Seq<char> {
    "received_"@ + filename
}

/// The numbered rows of a list of peers.
pub open spec fn peer_rows<C>(peers: Seq<Seq<char>>) -> Seq<BarterActionView<C>> {
    Seq::new(
        peers.len(),
        |i: int|
            BarterActionView::Tell(
                BarterNotice::PeerRow { number: (i + 1) as usize, peer: peers[i] },
            ),
    )
}

/// What is told when the user asks for the connected peers.
pub open spec fn peers_told<C>(peers: Seq<Seq<char>>) -> Seq<BarterActionView<C>> {
    if peers.len() == 0 {
        seq![BarterActionView::Tell(BarterNotice::NoPeersConnected)]
    } else {
        seq![BarterActionView::Tell(BarterNotice::PeersHeading)] + peer_rows(peers)
            + seq![BarterActionView::Tell(BarterNotice::PeersEnd)]
    }
}

/// What a line that is no command does: it goes to the first connected peer. An empty line goes
/// nowhere; the user is told how commands begin.
pub open spec fn conversation<C>(s: SessionView<C>, line: Seq<char>) -> Seq<BarterActionView<C>> {
    if line.len() == 0 {
        seq![BarterActionView::Tell(BarterNotice::CommandsBeginWithSlash)]
    } else if s.connected.len() == 0 {
        seq![BarterActionView::Tell(BarterNotice::NoPeers)]
    } else {
        seq![
            BarterActionView::Send {
                peer: s.connected[0],
                message: BarterMessageView::DirectMessage { content: line },
                sent: Sent::Conversation,
            },
        ]
    }
}

/// What `/barter` does, given its words.
pub open spec fn proposal<C>(s: SessionView<C>, parts: Seq<Seq<char>>) -> Seq<BarterActionView<C>> {
    if parts.len() < 3 {
        seq![BarterActionView::Tell(BarterNotice::BarterUsage)]
    } else if s.connected.len() == 0 {
        seq![BarterActionView::Tell(BarterNotice::NoPeers)]
    } else {
        seq![BarterActionView::CheckOffer { offering: parts[1], requesting: parts[2] }]
    }
}

/// What a proposal does once it is known whether the offered file is there: it goes to the first
/// connected peer, in place of an earlier one to that peer.
pub open spec fn checked_proposal<C>(
    s: SessionView<C>,
    offering: Seq<char>,
    requesting: Seq<char>,
    found: bool,
) -> (SessionView<C>, Seq<BarterActionView<C>>) {
    if !found {
        (s, seq![BarterActionView::Tell(BarterNotice::NoSuchFile { filename: offering })])
    } else if s.connected.len() == 0 {
        (s, seq![BarterActionView::Tell(BarterNotice::NoPeers)])
    } else {
        let peer = s.connected[0];
        (
            SessionView {
                proposed: with(s.proposed, peer, PendingBarterView { offering, requesting }),
                ..s
            },
            seq![
                BarterActionView::Tell(BarterNotice::SendingRequest { peer }),
                BarterActionView::Send {
                    peer,
                    message: BarterMessageView::BarterRequest { offering, requesting, key: s.key },
                    sent: Sent::Barter,
                },
            ],
        )
    }
}

/// What `/accept` does: the latest proposal no longer waits, and the file that it wants is read
/// for the answer.
pub open spec fn acceptance<C>(s: SessionView<C>) -> (SessionView<C>, Seq<BarterActionView<C>>) {
    if s.requests.len() == 0 {
        (s, seq![BarterActionView::Tell(BarterNotice::NothingToAccept)])
    } else {
        let (peer, request) = s.requests.last();
        (
            SessionView { requests: s.requests.drop_last(), ..s },
            seq![
                BarterActionView::Tell(BarterNotice::Accepting { peer }),
                BarterActionView::ReadForAnswer {
                    channel: request.channel,
                    filename: request.requesting,
                    key: request.key,
                },
            ],
        )
    }
}

/// What `/decline` does: the latest proposal is answered with a refusal.
pub open spec fn refusal<C>(s: SessionView<C>) -> (SessionView<C>, Seq<BarterActionView<C>>) {
    if s.requests.len() == 0 {
        (s, seq![BarterActionView::Tell(BarterNotice::NothingToDecline)])
    } else {
        let (peer, request) = s.requests.last();
        (
            SessionView { requests: s.requests.drop_last(), ..s },
            seq![
                BarterActionView::Tell(BarterNotice::Declining { peer }),
                BarterActionView::Respond {
                    channel: request.channel,
                    response: BarterResponseView::Declined,
                },
            ],
        )
    }
}

/// What a line that the user types does.
pub open spec fn barter_line<C>(s: SessionView<C>, line: Seq<char>) -> (
    SessionView<C>,
    Seq<BarterActionView<C>>,
) {
    let parts = words_of(line);
    if !begins_with(line, "/"@) {
        (s, conversation(s, line))
    } else if parts.len() == 0 {
        (s, seq![])
    } else if parts[0] == "/barter"@ {
        (s, proposal(s, parts))
    } else if parts[0] == "/accept"@ {
        acceptance(s)
    } else if parts[0] == "/decline"@ {
        refusal(s)
    } else if parts[0] == "/peers"@ {
        (s, peers_told(s.connected))
    } else if parts[0] == "/return"@ {
        (s, seq![BarterActionView::Tell(BarterNotice::Returning), BarterActionView::Return])
    } else if parts[0] == "/help"@ {
        (s, seq![BarterActionView::Tell(BarterNotice::Help)])
    } else {
        (s, seq![BarterActionView::Tell(BarterNotice::UnknownCommand)])
    }
}

/// What a delivered file does, once it is known what opening it gave: it is saved under its
/// `received_` name, or refused if it could not be opened. `size` is that of what was sent.
pub open spec fn on_delivery<C>(
    peer: Seq<char>,
    channel: C,
    filename: Seq<char>,
    size: nat,
    content: Option<Seq<u8>>,
) -> Seq<BarterActionView<C>> {
    let told = BarterActionView::Tell(
        BarterNotice::DeliveryReceived { peer, filename, size: size as usize },
    );
    match content {
        Some(data) => seq![
            told,
            BarterActionView::SaveDelivery { channel, filename: received_name(filename), data },
        ],
        None => seq![
            told,
            BarterActionView::Tell(BarterNotice::DeliveryUnreadable { peer }),
            BarterActionView::Respond { channel, response: BarterResponseView::Declined },
        ],
    }
}

/// What a request of a peer does.
pub open spec fn barter_request<C>(
    s: SessionView<C>,
    peer: Seq<char>,
    channel: C,
    request: BarterMessageView,
) -> (SessionView<C>, Seq<BarterActionView<C>>) {
    match request {
        BarterMessageView::BarterRequest { offering, requesting, key } => (
            SessionView {
                requests: with(
                    without(s.requests, peer),
                    peer,
                    WaitingRequestView { channel, offering, requesting, key },
                ),
                ..s
            },
            seq![
                BarterActionView::Tell(
                    BarterNotice::RequestReceived { peer, offering, requesting },
                ),
            ],
        ),
        BarterMessageView::FileDelivery { filename, file_data } => (
            s,
            on_delivery(peer, channel, filename, file_data.len(), opened(s.secret, file_data)),
        ),
        BarterMessageView::DirectMessage { content } => (
            s,
            seq![
                BarterActionView::Tell(BarterNotice::DirectMessage { peer, content }),
                BarterActionView::Respond {
                    channel,
                    response: BarterResponseView::MessageReceived,
                },
            ],
        ),
    }
}

/// The session once an answer to a request that was about a barter has put an end to the proposal
/// to that peer, if there is one. There is one at most: a later proposal takes the place of an
/// earlier one.
pub open spec fn settled<C>(s: SessionView<C>, peer: Seq<char>, sent: Sent) -> SessionView<C> {
    match sent {
        Sent::Barter => SessionView { proposed: without(s.proposed, peer), ..s },
        Sent::Conversation => s,
    }
}

/// The open proposal that an answer of a peer is about, if any.
pub open spec fn answered_proposal<C>(s: SessionView<C>, peer: Seq<char>, sent: Sent) -> Option<
    PendingBarterView,
> {
    match sent {
        Sent::Barter => lookup(s.proposed, peer),
        Sent::Conversation => None,
    }
}

/// What an acceptance does, once it is known what opening the file that came with it gave. If
/// there is an open proposal to that peer, the file is saved under the `received_` name of the one
/// that was wanted, and the offered one is read for delivery; the barter ends if the file could not
/// be opened. An acceptance of anything else is only told. `size` is that of what was sent.
pub open spec fn on_accepted<C>(
    s: SessionView<C>,
    peer: Seq<char>,
    sent: Sent,
    size: nat,
    key: Seq<char>,
    content: Option<Seq<u8>>,
) -> (SessionView<C>, Seq<BarterActionView<C>>) {
    let told = BarterActionView::Tell(BarterNotice::BarterAccepted { peer, size: size as usize });
    match (answered_proposal(s, peer, sent), content) {
        (Some(barter), Some(data)) => (
            s,
            seq![
                told,
                BarterActionView::SaveAccepted {
                    filename: received_name(barter.requesting),
                    data,
                },
                BarterActionView::Tell(BarterNotice::ReadingOffer { filename: barter.offering }),
                BarterActionView::ReadForDelivery { peer, filename: barter.offering, key },
            ],
        ),
        (Some(_), None) => (
            settled(s, peer, sent),
            seq![told, BarterActionView::Tell(BarterNotice::AcceptedFileUnreadable { peer })],
        ),
        (None, _) => (s, seq![told]),
    }
}

/// What the answer of a peer does to a request that was about `sent`.
pub open spec fn barter_response<C>(
    s: SessionView<C>,
    peer: Seq<char>,
    sent: Sent,
    response: BarterResponseView,
) -> (SessionView<C>, Seq<BarterActionView<C>>) {
    match response {
        BarterResponseView::Accepted { file_data, key } => on_accepted(
            s,
            peer,
            sent,
            file_data.len(),
            key,
            opened(s.secret, file_data),
        ),
        BarterResponseView::Declined => (
            settled(s, peer, sent),
            seq![BarterActionView::Tell(BarterNotice::BarterDeclined { peer })],
        ),
        BarterResponseView::FileReceived => (
            settled(s, peer, sent),
            seq![BarterActionView::Tell(BarterNotice::BarterCompleted { peer })],
        ),
        BarterResponseView::MessageReceived => (s, seq![]),
    }
}

/// The peers of a list but for one.
pub open spec fn others(peers: Seq<Seq<char>>, peer: Seq<char>) -> Seq<Seq<char>> {
    peers.filter(|other: Seq<char>| other != peer)
}

/// What an event of the network does.
pub open spec fn barter_event<C>(s: SessionView<C>, event: BarterEventView<C>) -> (
    SessionView<C>,
    Seq<BarterActionView<C>>,
) {
    match event {
        BarterEventView::Listening { address } => (
            s,
            seq![BarterActionView::Tell(BarterNotice::Listening { address })],
        ),
        BarterEventView::Connected { peer } => (
            SessionView { connected: s.connected.push(peer), ..s },
            seq![BarterActionView::Tell(BarterNotice::ConnectionEstablished { peer })],
        ),
        BarterEventView::Closed { peer } => (
            SessionView {
                connected: others(s.connected, peer),
                proposed: without(s.proposed, peer),
                requests: without(s.requests, peer),
                ..s
            },
            seq![BarterActionView::Tell(BarterNotice::ConnectionClosed { peer })],
        ),
        BarterEventView::Request { peer, channel, request } => barter_request(
            s,
            peer,
            channel,
            request,
        ),
        BarterEventView::Response { peer, sent, response } => barter_response(
            s,
            peer,
            sent,
            response,
        ),
    }
}

/// The name under which a received file is saved.
pub fn received_file_name(filename: &str) -> (r: String)
    ensures
        r@ == received_name(filename@),
{
    let mut name = "received_".to_owned();
    name.append(filename);
    name
}

impl<C> BarterSession<C> {
    /// A session with this secret key before anyone has connected, if it is one.
    pub fn new(secret: String) -> (r: Option<Self>)
        ensures
            match r {
                Some(session) => {
                    &&& recipient_of(secret@) matches Some(key)
                    &&& good_key(key)
                    &&& session@ == new_session::<C>(secret@, key)
                    &&& session@.well_formed()
                },
                None => recipient_of(secret@) matches Some(key) ==> !good_key(key),
            },
    {
        let key = match public_key(secret.as_str()) {
            Some(key) => key,
            None => {
                return None;
            },
        };
        if is_weak(key.as_str()) {
            return None;
        }
        let r = BarterSession {
            secret,
            key,
            connected: Vec::new(),
            proposed: PeerTable::new(),
            requests: PeerTable::new(),
        };
        assert(r@ =~= new_session::<C>(secret@, key@)) by {
            assert(texts(r.connected@) =~= Seq::<Seq<char>>::empty());
        }
        Some(r)
    }

    /// A session with new keys before anyone has connected. There is none only if the public key
    /// happens to be one that files cannot be encrypted for.
    pub fn start() -> (r: Option<Self>)
        ensures
            exists|secret: Seq<char>|
                ({
                    &&& #[trigger] recipient_of(secret) matches Some(key)
                    &&& match r {
                        Some(session) => session@ == new_session::<C>(secret, key)
                            && session@.well_formed(),
                        None => !good_key(key),
                    }
                }),
    {
        let secret = generate_secret();
        let ghost chosen = secret@;
        let r = BarterSession::new(secret);
        assert(recipient_of(chosen) is Some);
        r
    }

    /// The public key of this side.
    pub fn public_key(&self) -> (r: String)
        ensures
            r@ == self@.key,
    {
        self.key.clone()
    }

    fn tell_peers(&self) -> (r: Vec<BarterAction<C>>)
        ensures
            contents(r@) == peers_told::<C>(self@.connected),
    {
        if self.connected.len() == 0 {
            return vec![BarterAction::Tell(BarterNotice::NoPeersConnected)];
        }
        let mut list: Vec<BarterAction<C>> = vec![BarterAction::Tell(BarterNotice::PeersHeading)];
        let mut i: usize = 0;
        while i < self.connected.len()
            invariant
                i <= self.connected.len(),
                contents(list@) == seq![
                    BarterActionView::<C>::Tell(BarterNotice::PeersHeading),
                ] + peer_rows::<C>(self@.connected).take(i as int),
            decreases self.connected.len() - i,
        {
            let ghost rows = peer_rows::<C>(self@.connected);
            let row = BarterAction::Tell(
                BarterNotice::PeerRow { number: i + 1, peer: self.connected[i].clone() },
            );
            assert(row@ == rows[i as int]);
            let ghost before = contents(list@);
            list.push(row);
            assert(contents(list@) == before.push(rows[i as int]));
            assert(rows.take(i + 1) =~= rows.take(i as int).push(rows[i as int]));
            i = i + 1;
        }
        list.push(BarterAction::Tell(BarterNotice::PeersEnd));
        assert(peer_rows::<C>(self@.connected).take(i as int) =~= peer_rows::<C>(self@.connected));
        list
    }

    fn accept(&mut self) -> (r: Vec<BarterAction<C>>)
        requires
            old(self)@.well_formed(),
        ensures
            final(self)@ == acceptance(old(self)@).0,
            contents(r@) == acceptance(old(self)@).1,
            final(self)@.well_formed(),
    {
        match self.requests.pop() {
            None => vec![BarterAction::Tell(BarterNotice::NothingToAccept)],
            Some((peer, request)) => vec![
                BarterAction::Tell(BarterNotice::Accepting { peer }),
                BarterAction::ReadForAnswer {
                    channel: request.channel,
                    filename: request.requesting,
                    key: request.key,
                },
            ],
        }
    }

    fn decline(&mut self) -> (r: Vec<BarterAction<C>>)
        requires
            old(self)@.well_formed(),
        ensures
            final(self)@ == refusal(old(self)@).0,
            contents(r@) == refusal(old(self)@).1,
            final(self)@.well_formed(),
    {
        match self.requests.pop() {
            None => vec![BarterAction::Tell(BarterNotice::NothingToDecline)],
            Some((peer, request)) => vec![
                BarterAction::Tell(BarterNotice::Declining { peer }),
                BarterAction::Respond {
                    channel: request.channel,
                    response: BarterResponse::Declined,
                },
            ],
        }
    }

    fn converse(&self, line: &str) -> (r: Vec<BarterAction<C>>)
        ensures
            contents(r@) == conversation(self@, line@),
    {
        if line.unicode_len() == 0 {
            vec![BarterAction::Tell(BarterNotice::CommandsBeginWithSlash)]
        } else if self.connected.len() == 0 {
            vec![BarterAction::Tell(BarterNotice::NoPeers)]
        } else {
            vec![
                BarterAction::Send {
                    peer: self.connected[0].clone(),
                    message: BarterMessage::DirectMessage { content: line.to_owned() },
                    sent: Sent::Conversation,
                },
            ]
        }
    }

    fn propose(&self, parts: &Vec<String>) -> (r: Vec<BarterAction<C>>)
        ensures
            contents(r@) == proposal(self@, texts(parts@)),
    {
        if parts.len() < 3 {
            vec![BarterAction::Tell(BarterNotice::BarterUsage)]
        } else if self.connected.len() == 0 {
            vec![BarterAction::Tell(BarterNotice::NoPeers)]
        } else {
            vec![
                BarterAction::CheckOffer {
                    offering: parts[1].clone(),
                    requesting: parts[2].clone(),
                },
            ]
        }
    }

    /// Takes a line that the user types: a command, or something to say to the other peer.
    pub fn handle_line(&mut self, line: &str) -> (r: Vec<BarterAction<C>>)
        requires
            old(self)@.well_formed(),
        ensures
            final(self)@ == barter_line(old(self)@, line@).0,
            contents(r@) == barter_line(old(self)@, line@).1,
            final(self)@.well_formed(),
    {
        if !starts_with(line, "/") {
            return self.converse(line);
        }
        let parts = words(line);
        if parts.len() == 0 {
            return vec![];
        }
        assert(texts(parts@)[0] == parts@[0]@);
        let command = parts[0].as_str();
        if same_text(command, "/barter") {
            self.propose(&parts)
        } else if same_text(command, "/accept") {
            self.accept()
        } else if same_text(command, "/decline") {
            self.decline()
        } else if same_text(command, "/peers") {
            self.tell_peers()
        } else if same_text(command, "/return") {
            vec![BarterAction::Tell(BarterNotice::Returning), BarterAction::Return]
        } else if same_text(command, "/help") {
            vec![BarterAction::Tell(BarterNotice::Help)]
        } else {
            vec![BarterAction::Tell(BarterNotice::UnknownCommand)]
        }
    }

    /// Goes on with a proposal once it is known whether the offered file can be accessed.
    pub fn proposal_checked(
        &mut self,
        offering: String,
        requesting: String,
        found: bool,
    ) -> (r: Vec<BarterAction<C>>)
        requires
            old(self)@.well_formed(),
        ensures
            final(self)@ == checked_proposal(old(self)@, offering@, requesting@, found).0,
            contents(r@) == checked_proposal(old(self)@, offering@, requesting@, found).1,
            final(self)@.well_formed(),
    {
        if !found {
            vec![BarterAction::Tell(BarterNotice::NoSuchFile { filename: offering })]
        } else if self.connected.len() == 0 {
            vec![BarterAction::Tell(BarterNotice::NoPeers)]
        } else {
            let peer = self.connected[0].clone();
            let message = BarterMessage::BarterRequest {
                offering: offering.clone(),
                requesting: requesting.clone(),
                key: self.key.clone(),
            };
            proof {
                law_with(
                    self.proposed@,
                    peer@,
                    PendingBarterView { offering: offering@, requesting: requesting@ },
                );
            }
            self.proposed.insert(peer.clone(), PendingBarter { offering, requesting });
            vec![
                BarterAction::Tell(BarterNotice::SendingRequest { peer: peer.clone() }),
                BarterAction::Send { peer, message, sent: Sent::Barter },
            ]
        }
    }

    fn forget_connection(&mut self, peer: &str)
        ensures
            final(self)@ == (SessionView {
                connected: others(old(self)@.connected, peer@),
                ..old(self)@
            }),
    {
        let ghost all = texts(self.connected@);
        let mut kept: Vec<String> = Vec::new();
        let mut i: usize = 0;
        proof {
            reveal(Seq::filter);
            assert(texts(kept@) =~= others(all.take(0), peer@));
        }
        while i < self.connected.len()
            invariant
                i <= self.connected.len(),
                all == texts(self.connected@),
                texts(kept@) == others(all.take(i as int), peer@),
            decreases self.connected.len() - i,
        {
            let ghost before = texts(kept@);
            let ghost next = all.take(i + 1);
            if !same_text(self.connected[i].as_str(), peer) {
                kept.push(self.connected[i].clone());
                assert(texts(kept@) =~= before.push(all[i as int]));
            }
            proof {
                reveal(Seq::filter);
                assert(next.drop_last() =~= all.take(i as int));
                assert(next.last() == all[i as int]);
            }
            i = i + 1;
        }
        assert(all.take(i as int) =~= all);
        self.connected = kept;
    }

    /// Goes on with a delivered file once it is known what opening it gave. `size` is that of what
    /// was sent.
    pub fn delivery_opened(
        &self,
        peer: String,
        channel: C,
        filename: String,
        size: usize,
        content: Option<Vec<u8>>,
    ) -> (r: Vec<BarterAction<C>>)
        ensures
            contents(r@) == on_delivery(
                peer@,
                channel,
                filename@,
                size as nat,
                optional_bytes(content),
            ),
    {
        let received = received_file_name(filename.as_str());
        match content {
            Some(data) => vec![
                BarterAction::Tell(BarterNotice::DeliveryReceived { peer, filename, size }),
                BarterAction::SaveDelivery { channel, filename: received, data },
            ],
            None => vec![
                BarterAction::Tell(
                    BarterNotice::DeliveryReceived { peer: peer.clone(), filename, size },
                ),
                BarterAction::Tell(BarterNotice::DeliveryUnreadable { peer }),
                BarterAction::Respond { channel, response: BarterResponse::Declined },
            ],
        }
    }

    fn handle_request(&mut self, peer: String, channel: C, request: BarterMessage) -> (r: Vec<
        BarterAction<C>,
    >)
        requires
            old(self)@.well_formed(),
        ensures
            final(self)@ == barter_request(old(self)@, peer@, channel, request@).0,
            contents(r@) == barter_request(old(self)@, peer@, channel, request@).1,
            final(self)@.well_formed(),
    {
        match request {
            BarterMessage::BarterRequest { offering, requesting, key } => {
                let request = WaitingRequest {
                    channel,
                    offering: offering.clone(),
                    requesting: requesting.clone(),
                    key,
                };
                proof {
                    law_without(self.requests@, peer@);
                    law_with(without(self.requests@, peer@), peer@, request@);
                }
                let _ = self.requests.remove(peer.as_str());
                self.requests.insert(peer.clone(), request);
                vec![
                    BarterAction::Tell(
                        BarterNotice::RequestReceived { peer, offering, requesting },
                    ),
                ]
            },
            BarterMessage::FileDelivery { filename, file_data } => {
                let content = unseal(self.secret.as_str(), &file_data);
                self.delivery_opened(peer, channel, filename, file_data.len(), content)
            },
            BarterMessage::DirectMessage { content } => vec![
                BarterAction::Tell(BarterNotice::DirectMessage { peer, content }),
                BarterAction::Respond { channel, response: BarterResponse::MessageReceived },
            ],
        }
    }

    fn settle(&mut self, peer: &str, sent: Sent)
        requires
            old(self)@.well_formed(),
        ensures
            final(self)@ == settled(old(self)@, peer@, sent),
            final(self)@.well_formed(),
    {
        proof {
            law_without(self.proposed@, peer@);
        }
        if let Sent::Barter = sent {
            let _ = self.proposed.remove(peer);
        }
    }

    fn proposal_answered(&self, peer: &str, sent: Sent) -> (r: Option<PendingBarter>)
        ensures
            match r {
                Some(barter) => answered_proposal(self@, peer@, sent) == Some(barter@),
                None => answered_proposal(self@, peer@, sent) is None,
            },
    {
        match sent {
            Sent::Barter => match self.proposed.get(peer) {
                Some(barter) => Some(
                    PendingBarter {
                        offering: barter.offering.clone(),
                        requesting: barter.requesting.clone(),
                    },
                ),
                None => None,
            },
            Sent::Conversation => None,
        }
    }

    /// Goes on with an acceptance once it is known what opening the file that came with it gave.
    /// `size` is that of what was sent, `key` the public key of the peer.
    pub fn acceptance_opened(
        &mut self,
        peer: String,
        sent: Sent,
        size: usize,
        key: String,
        content: Option<Vec<u8>>,
    ) -> (r: Vec<BarterAction<C>>)
        requires
            old(self)@.well_formed(),
        ensures
            ({
                let next = on_accepted(
                    old(self)@,
                    peer@,
                    sent,
                    size as nat,
                    key@,
                    optional_bytes(content),
                );
                &&& final(self)@ == next.0
                &&& contents(r@) == next.1
            }),
            final(self)@.well_formed(),
    {
        let told = BarterAction::Tell(BarterNotice::BarterAccepted { peer: peer.clone(), size });
        match self.proposal_answered(peer.as_str(), sent) {
            Some(barter) => match content {
                Some(data) => vec![
                    told,
                    BarterAction::SaveAccepted {
                        filename: received_file_name(barter.requesting.as_str()),
                        data,
                    },
                    BarterAction::Tell(
                        BarterNotice::ReadingOffer { filename: barter.offering.clone() },
                    ),
                    BarterAction::ReadForDelivery { peer, filename: barter.offering, key },
                ],
                None => {
                    self.settle(peer.as_str(), sent);
                    vec![told, BarterAction::Tell(BarterNotice::AcceptedFileUnreadable { peer })]
                },
            },
            None => vec![told],
        }
    }

    fn handle_response(
        &mut self,
        peer: String,
        sent: Sent,
        response: BarterResponse,
    ) -> (r: Vec<BarterAction<C>>)
        requires
            old(self)@.well_formed(),
        ensures
            final(self)@ == barter_response(old(self)@, peer@, sent, response@).0,
            contents(r@) == barter_response(old(self)@, peer@, sent, response@).1,
            final(self)@.well_formed(),
    {
        match response {
            BarterResponse::Accepted { file_data, key } => {
                let content = unseal(self.secret.as_str(), &file_data);
                self.acceptance_opened(peer, sent, file_data.len(), key, content)
            },
            BarterResponse::Declined => {
                self.settle(peer.as_str(), sent);
                vec![BarterAction::Tell(BarterNotice::BarterDeclined { peer })]
            },
            BarterResponse::FileReceived => {
                self.settle(peer.as_str(), sent);
                vec![BarterAction::Tell(BarterNotice::BarterCompleted { peer })]
            },
            BarterResponse::MessageReceived => vec![],
        }
    }

    /// Takes an event of the network.
    pub fn handle_event(&mut self, event: BarterEvent<C>) -> (r: Vec<BarterAction<C>>)
        requires
            old(self)@.well_formed(),
        ensures
            final(self)@ == barter_event(old(self)@, event@).0,
            contents(r@) == barter_event(old(self)@, event@).1,
            final(self)@.well_formed(),
    {
        match event {
            BarterEvent::Listening { address } => vec![
                BarterAction::Tell(BarterNotice::Listening { address }),
            ],
            BarterEvent::Connected { peer } => {
                let ghost before = self.connected@;
                self.connected.push(peer.clone());
                assert(texts(self.connected@) =~= texts(before).push(peer@));
                vec![BarterAction::Tell(BarterNotice::ConnectionEstablished { peer })]
            },
            BarterEvent::Closed { peer } => {
                proof {
                    law_without(self.proposed@, peer@);
                    law_without(self.requests@, peer@);
                }
                self.forget_connection(peer.as_str());
                let _ = self.proposed.remove(peer.as_str());
                let _ = self.requests.remove(peer.as_str());
                vec![BarterAction::Tell(BarterNotice::ConnectionClosed { peer })]
            },
            BarterEvent::Request { peer, channel, request } => self.handle_request(
                peer,
                channel,
                request,
            ),
            BarterEvent::Response { peer, sent, response } => self.handle_response(
                peer,
                sent,
                response,
            ),
        }
    }

    /// Answers an accepted proposal once its file has been read: the file is encrypted for the key
    /// that the proposal gave.
    pub fn answer_with_file(
        &self,
        channel: C,
        filename: String,
        key: &str,
        outcome: FileOutcome,
    ) -> (r: Vec<BarterAction<C>>)
        ensures
            exists|sealed: SealedFileView| #[trigger]
                sealed_for(sealed, key@, outcome@) && contents(r@) == file_answer(
                    channel,
                    filename@,
                    self@.key,
                    sealed,
                ),
    {
        let sealed = seal_outcome(key, outcome);
        let ghost content = sealed@;
        let r = self.answer_sealed(channel, filename, sealed);
        assert(sealed_for(content, key@, outcome@));
        r
    }

    /// Answers an accepted proposal once its file has been read and encrypted.
    pub fn answer_sealed(&self, channel: C, filename: String, sealed: SealedFile) -> (r: Vec<
        BarterAction<C>,
    >)
        ensures
            contents(r@) == file_answer(channel, filename@, self@.key, sealed@),
    {
        match sealed {
            SealedFile::Sealed { size, data } => vec![
                BarterAction::Tell(BarterNotice::FileRead { filename, size }),
                BarterAction::Respond {
                    channel,
                    response: BarterResponse::Accepted { file_data: data, key: self.key.clone() },
                },
            ],
            SealedFile::NotSealed => vec![
                BarterAction::Tell(BarterNotice::DecliningUnsealedFile { filename }),
                BarterAction::Respond { channel, response: BarterResponse::Declined },
            ],
            SealedFile::NotRead => vec![
                BarterAction::Tell(BarterNotice::DecliningUnreadFile),
                BarterAction::Respond { channel, response: BarterResponse::Declined },
            ],
            SealedFile::NotOpened => vec![
                BarterAction::Tell(BarterNotice::DecliningMissingFile { filename }),
                BarterAction::Respond { channel, response: BarterResponse::Declined },
            ],
        }
    }
}

/// The content of bytes that may be absent.
pub open spec fn optional_bytes(bytes: Option<Vec<u8>>) -> Option<Seq<u8>> {
    match bytes {
        Some(b) => Some(b@),
        None => None,
    }
}

/// What answers an accepted proposal once its file has been read and encrypted: the encrypted
/// file with the public key of this side, or a refusal.
pub open spec fn file_answer<C>(
    channel: C,
    filename: Seq<char>,
    own_key: Seq<char>,
    sealed: SealedFileView,
) -> Seq<BarterActionView<C>> {
    let refused = BarterActionView::Respond { channel, response: BarterResponseView::Declined };
    match sealed {
        SealedFileView::Sealed { size, data } => seq![
            BarterActionView::Tell(BarterNotice::FileRead { filename, size: size as usize }),
            BarterActionView::Respond {
                channel,
                response: BarterResponseView::Accepted { file_data: data, key: own_key },
            },
        ],
        SealedFileView::NotSealed => seq![
            BarterActionView::Tell(BarterNotice::DecliningUnsealedFile { filename }),
            refused,
        ],
        SealedFileView::NotRead => seq![
            BarterActionView::Tell(BarterNotice::DecliningUnreadFile),
            refused,
        ],
        SealedFileView::NotOpened => seq![
            BarterActionView::Tell(BarterNotice::DecliningMissingFile { filename }),
            refused,
        ],
    }
}

/// What answers a delivery, once it is known whether the file could be saved.
pub open spec fn delivery_answer<C>(channel: C, filename: Seq<char>, saved: bool) -> Seq<
    BarterActionView<C>,
> {
    if saved {
        seq![
            BarterActionView::Tell(BarterNotice::DeliverySaved { filename }),
            BarterActionView::Respond { channel, response: BarterResponseView::FileReceived },
        ]
    } else {
        seq![
            BarterActionView::Tell(BarterNotice::DeliveryNotSaved),
            BarterActionView::Respond { channel, response: BarterResponseView::Declined },
        ]
    }
}

/// Answers a delivery, once it is known whether the file could be saved.
pub fn delivery_saved<C>(channel: C, filename: String, saved: bool) -> (r: Vec<BarterAction<C>>)
    ensures
        contents(r@) == delivery_answer(channel, filename@, saved),
{
    if saved {
        vec![
            BarterAction::Tell(BarterNotice::DeliverySaved { filename }),
            BarterAction::Respond { channel, response: BarterResponse::FileReceived },
        ]
    } else {
        vec![
            BarterAction::Tell(BarterNotice::DeliveryNotSaved),
            BarterAction::Respond { channel, response: BarterResponse::Declined },
        ]
    }
}

/// Reports whether the file that came with an acceptance could be saved.
pub fn accepted_file_saved(filename: String, saved: bool) -> (r: BarterNotice<String>)
    ensures
        r@ == (if saved {
            BarterNotice::AcceptedFileSaved { filename: filename@ }
        } else {
            BarterNotice::AcceptedFileNotSaved
        }),
{
    if saved {
        BarterNotice::AcceptedFileSaved { filename }
    } else {
        BarterNotice::AcceptedFileNotSaved
    }
}

/// What follows once the offered file of a barter has been read and encrypted: it is delivered
/// under its own name.
pub open spec fn delivery<C>(
    peer: Seq<char>,
    filename: Seq<char>,
    sealed: SealedFileView,
) -> Seq<BarterActionView<C>> {
    match sealed {
        SealedFileView::Sealed { size, data } => seq![
            BarterActionView::Tell(BarterNotice::SendingOffer { size: size as usize }),
            BarterActionView::Send {
                peer,
                message: BarterMessageView::FileDelivery { filename, file_data: data },
                sent: Sent::Barter,
            },
        ],
        SealedFileView::NotSealed => seq![
            BarterActionView::Tell(BarterNotice::OfferNotSealed { peer }),
        ],
        SealedFileView::NotRead => seq![BarterActionView::Tell(BarterNotice::OfferNotRead)],
        SealedFileView::NotOpened => seq![BarterActionView::Tell(BarterNotice::OfferNotOpened)],
    }
}

/// Delivers the offered file of a barter once it has been read: it is encrypted for the key of
/// the peer.
pub fn deliver_file<C>(
    peer: String,
    filename: String,
    key: &str,
    outcome: FileOutcome,
) -> (r: Vec<BarterAction<C>>)
    ensures
        exists|sealed: SealedFileView| #[trigger]
            sealed_for(sealed, key@, outcome@) && contents(r@) == delivery::<C>(
                peer@,
                filename@,
                sealed,
            ),
{
    let sealed = seal_outcome(key, outcome);
    let ghost content = sealed@;
    let r = deliver_sealed(peer, filename, sealed);
    assert(sealed_for(content, key@, outcome@));
    r
}

/// Delivers the offered file of a barter once it has been read and encrypted.
pub fn deliver_sealed<C>(peer: String, filename: String, sealed: SealedFile) -> (r: Vec<
    BarterAction<C>,
>)
    ensures
        contents(r@) == delivery::<C>(peer@, filename@, sealed@),
{
    match sealed {
        SealedFile::Sealed { size, data } => vec![
            BarterAction::Tell(BarterNotice::SendingOffer { size }),
            BarterAction::Send {
                peer,
                message: BarterMessage::FileDelivery { filename, file_data: data },
                sent: Sent::Barter,
            },
        ],
        SealedFile::NotSealed => vec![BarterAction::Tell(BarterNotice::OfferNotSealed { peer })],
        SealedFile::NotRead => vec![BarterAction::Tell(BarterNotice::OfferNotRead)],
        SealedFile::NotOpened => vec![BarterAction::Tell(BarterNotice::OfferNotOpened)],
    }
}

/// What is done to begin a session.
#[derive(Debug, PartialEq, Eq)]
pub enum SessionStart<S> {
    /// Listen on an address.
    Listen { address: S },
    /// Dial the other side.
    Dial { address: S },
}

impl View for SessionStart<String> {
    type V = SessionStart<Seq<char>>;

    open spec fn view(&self) -> SessionStart<Seq<char>> {
        match *self {
            SessionStart::Listen { address } => SessionStart::Listen { address: address@ },
            SessionStart::Dial { address } => SessionStart::Dial { address: address@ },
        }
    }
}

/// What is done to begin a session that listens on one address and dials another, if it has one.
pub open spec fn session_steps(listen: Seq<char>, peer: Option<Seq<char>>) -> Seq<
    SessionStart<Seq<char>>,
> {
    match peer {
        Some(address) => seq![
            SessionStart::Listen { address: listen },
            SessionStart::Dial { address },
        ],
        None => seq![SessionStart::Listen { address: listen }],
    }
}

/// Plans the beginning of a session on a port. The port has to make an address to listen on; the
/// reason is returned if it does not.
pub fn plan_session(port: &Option<String>, peer: Option<String>) -> (r: Result<
    Vec<SessionStart<String>>,
    String,
>)
    ensures
        match r {
            Ok(steps) => parsed_multiaddr(listening_at(optional_text(*port))) matches Ok(listen)
                && contents(steps@) == session_steps(listen, optional_text(peer)),
            Err(reason) => parsed_multiaddr(listening_at(optional_text(*port))) == Err::<
                Seq<char>,
                Seq<char>,
            >(reason@),
        },
{
    match usable_listen_address(port) {
        Ok(address) => match peer {
            Some(other) => Ok(
                vec![SessionStart::Listen { address }, SessionStart::Dial { address: other }],
            ),
            None => Ok(vec![SessionStart::Listen { address }]),
        },
        Err(reason) => Err(reason),
    }
}

/// Says whether a session begins after a step that failed for the given reason, or did not: it
/// has to listen, but need not reach the other side.
pub fn session_step_done(step: &SessionStart<String>, failure: Option<String>) -> (r: Result<
    (),
    String,
>)
    ensures
        match r {
            Ok(_) => failure is None || step@ is Dial,
            Err(reason) => step@ is Listen && optional_text(failure) == Some(reason@),
        },
{
    match failure {
        None => Ok(()),
        Some(reason) => match step {
            SessionStart::Listen { .. } => Err(reason),
            SessionStart::Dial { .. } => Ok(()),
        },
    }
}

}
