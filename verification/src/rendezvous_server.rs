//! The rendezvous server: which peers are registered, and where the server is found.

use crate::addresses::{
    addressed_peer, law_server_address_names_its_peer, listening_at, server_address, server_at,
    usable_listen_address, AddressedPeer,
};
use crate::chat_types::RendezvousError;
use crate::foreign::{local_ip, parsed_multiaddr, parsed_peer_id};
use crate::plan::contents;
use crate::settings::{law_settings_round_trip, server_for, settings_for, write_settings};
use crate::table::{
    distinct, holds, law_with, law_without, lookup, with, without, PeerTable,
};
use crate::text::{
    decimal, decimal_text, join, joined, optional_text, same_text, texts, trim, trimmed,
    white_space,
};
use vstd::prelude::*;

verus! {

broadcast use {crate::plan::lemma_contents_add, crate::plan::lemma_contents_push};

/// The port on which a rendezvous server listens if it is not told another.
pub const RENDEZVOUS_PORT: u16 = 50002;

/// The arguments of the rendezvous server.
#[derive(Debug, PartialEq, Eq)]
pub struct RendezvousCliArgs {
    pub port: Option<u16>,
    pub server: bool,
    pub rendezvous_server: Option<String>,
}

/// The content of [`RendezvousCliArgs`].
pub struct RendezvousCliArgsView {
    pub port: Option<u16>,
    pub server: bool,
    pub rendezvous_server: Option<Seq<char>>,
}

impl View for RendezvousCliArgs {
    type V = RendezvousCliArgsView;

    open spec fn view(&self) -> RendezvousCliArgsView {
        RendezvousCliArgsView {
            port: self.port,
            server: self.server,
            rendezvous_server: optional_text(self.rendezvous_server),
        }
    }
}

/// How a rendezvous server starts.
#[derive(Debug, PartialEq, Eq)]
pub struct ServerStart {
    /// The port that it listens on.
    pub port: u16,
    /// The address that it listens on.
    pub listen: String,
    /// The address at which clients find it.
    pub address: String,
    /// The contents of the settings file for clients.
    pub settings: String,
}

/// The port that a server listens on.
pub open spec fn server_port(port: Option<u16>) -> u16 {
    match port {
        Some(p) => p,
        None => RENDEZVOUS_PORT,
    }
}

/// The address at which clients find a server: at its local IP address, or on the same machine
/// if it has none.
pub open spec fn found_at(port: u16, peer: Seq<char>, ip: Option<Seq<char>>) -> Seq<char> {
    server_at(
        match ip {
            Some(address) => address,
            None => "127.0.0.1"@,
        },
        port,
        peer,
    )
}

/// What is promised of the start of a server.
pub open spec fn starts(
    start: Result<ServerStart, String>,
    args: RendezvousCliArgsView,
    peer: Seq<char>,
    ip: Option<Seq<char>>,
) -> bool {
    let port = server_port(args.port);
    let listening = parsed_multiaddr(listening_at(Some(decimal(port as nat))));
    match start {
        Ok(s) => {
            &&& s.port == port
            &&& listening == Ok::<Seq<char>, Seq<char>>(s.listen@)
            &&& s.address@ == found_at(port, peer, ip)
            &&& s.settings@ == settings_for(found_at(port, peer, ip))
        },
        Err(reason) => listening == Err::<Seq<char>, Seq<char>>(reason@),
    }
}

/// Prepares the start of a server with the given id and local IP address.
pub fn prepare_server_at(args: &RendezvousCliArgs, peer: &str, ip: &Option<String>) -> (r: Result<
    ServerStart,
    String,
>)
    ensures
        starts(r, args@, peer@, optional_text(*ip)),
{
    let port: u16 = match args.port {
        Some(p) => p,
        None => RENDEZVOUS_PORT,
    };
    match usable_listen_address(&Some(decimal_text(port as u64))) {
        Ok(listen) => {
            let address = match ip {
                Some(own) => server_address(own.as_str(), port, peer),
                None => server_address("127.0.0.1", port, peer),
            };
            let settings = write_settings(address.as_str());
            Ok(ServerStart { port, listen, address, settings })
        },
        Err(reason) => Err(reason),
    }
}

/// Prepares the start of a server with the given id, at the local IP address that the machine
/// gives, if any.
pub fn prepare_server(args: &RendezvousCliArgs, peer: &str) -> (r: Result<ServerStart, String>)
    ensures
        exists|ip: Option<Seq<char>>| #[trigger] starts(r, args@, peer@, ip),
{
    let ip = local_ip();
    let r = prepare_server_at(args, peer, &ip);
    assert(starts(r, args@, peer@, optional_text(ip)));
    r
}

/// What the one who runs the server is told.
#[derive(Debug, PartialEq, Eq)]
pub enum ServerNotice<S> {
    ShuttingDown,
    ListHeading,
    NobodyRegistered,
    RegisteredRow { number: usize, peer: S, namespace: S },
    ListEnd,
    UnknownCommand,
    Listening { address: S },
    ConnectionEstablished { peer: S, endpoint: S },
    ConnectionClosed { peer: S, cause: S },
    Registered { peer: S, namespace: S, ttl: u64, addrs: S },
    NotRegistered { peer: S, namespace: S, error: RendezvousError },
    Unregistered { peer: S, namespace: S },
    DiscoverServed { peer: S, count: usize },
    DiscoverNotServed { peer: S, error: RendezvousError },
    RegistrationExpired { peer: S, namespace: S },
    Identified { peer: S, protocol_version: S, agent_version: S, protocols: S },
}

impl View for ServerNotice<String> {
    type V = ServerNotice<Seq<char>>;

    open spec fn view(&self) -> ServerNotice<Seq<char>> {
        match *self {
            ServerNotice::ShuttingDown => ServerNotice::ShuttingDown,
            ServerNotice::ListHeading => ServerNotice::ListHeading,
            ServerNotice::NobodyRegistered => ServerNotice::NobodyRegistered,
            ServerNotice::RegisteredRow {
                number,
                peer,
                namespace,
            } => ServerNotice::RegisteredRow { number, peer: peer@, namespace: namespace@ },
            ServerNotice::ListEnd => ServerNotice::ListEnd,
            ServerNotice::UnknownCommand => ServerNotice::UnknownCommand,
            ServerNotice::Listening { address } => ServerNotice::Listening { address: address@ },
            ServerNotice::ConnectionEstablished {
                peer,
                endpoint,
            } => ServerNotice::ConnectionEstablished { peer: peer@, endpoint: endpoint@ },
            ServerNotice::ConnectionClosed { peer, cause } => ServerNotice::ConnectionClosed {
                peer: peer@,
                cause: cause@,
            },
            ServerNotice::Registered { peer, namespace, ttl, addrs } => ServerNotice::Registered {
                peer: peer@,
                namespace: namespace@,
                ttl,
                addrs: addrs@,
            },
            ServerNotice::NotRegistered { peer, namespace, error } => ServerNotice::NotRegistered {
                peer: peer@,
                namespace: namespace@,
                error,
            },
            ServerNotice::Unregistered { peer, namespace } => ServerNotice::Unregistered {
                peer: peer@,
                namespace: namespace@,
            },
            ServerNotice::DiscoverServed { peer, count } => ServerNotice::DiscoverServed {
                peer: peer@,
                count,
            },
            ServerNotice::DiscoverNotServed { peer, error } => ServerNotice::DiscoverNotServed {
                peer: peer@,
                error,
            },
            ServerNotice::RegistrationExpired {
                peer,
                namespace,
            } => ServerNotice::RegistrationExpired { peer: peer@, namespace: namespace@ },
            ServerNotice::Identified {
                peer,
                protocol_version,
                agent_version,
                protocols,
            } => ServerNotice::Identified {
                peer: peer@,
                protocol_version: protocol_version@,
                agent_version: agent_version@,
                protocols: protocols@,
            },
        }
    }
}

/// What happens at the server.
#[derive(Debug, PartialEq, Eq)]
pub enum ServerEvent {
    Listening { address: String },
    Connected { peer: String, endpoint: String },
    Closed { peer: String, cause: String },
    Registered { peer: String, namespace: String, ttl: u64, addrs: Vec<String> },
    NotRegistered { peer: String, namespace: String, error: RendezvousError },
    Unregistered { peer: String, namespace: String },
    DiscoverServed { peer: String, count: usize },
    DiscoverNotServed { peer: String, error: RendezvousError },
    Expired { peer: String, namespace: String },
    Identified {
        peer: String,
        protocol_version: String,
        agent_version: String,
        protocols: Vec<String>,
    },
}

/// The content of a [`ServerEvent`].
pub enum ServerEventView {
    Listening { address: Seq<char> },
    Connected { peer: Seq<char>, endpoint: Seq<char> },
    Closed { peer: Seq<char>, cause: Seq<char> },
    Registered { peer: Seq<char>, namespace: Seq<char>, ttl: u64, addrs: Seq<Seq<char>> },
    NotRegistered { peer: Seq<char>, namespace: Seq<char>, error: RendezvousError },
    Unregistered { peer: Seq<char>, namespace: Seq<char> },
    DiscoverServed { peer: Seq<char>, count: usize },
    DiscoverNotServed { peer: Seq<char>, error: RendezvousError },
    Expired { peer: Seq<char>, namespace: Seq<char> },
    Identified {
        peer: Seq<char>,
        protocol_version: Seq<char>,
        agent_version: Seq<char>,
        protocols: Seq<Seq<char>>,
    },
}

impl View for ServerEvent {
    type V = ServerEventView;

    open spec fn view(&self) -> ServerEventView {
        match *self {
            ServerEvent::Listening { address } => ServerEventView::Listening { address: address@ },
            ServerEvent::Connected { peer, endpoint } => ServerEventView::Connected {
                peer: peer@,
                endpoint: endpoint@,
            },
            ServerEvent::Closed { peer, cause } => ServerEventView::Closed {
                peer: peer@,
                cause: cause@,
            },
            ServerEvent::Registered { peer, namespace, ttl, addrs } => ServerEventView::Registered {
                peer: peer@,
                namespace: namespace@,
                ttl,
                addrs: texts(addrs@),
            },
            ServerEvent::NotRegistered {
                peer,
                namespace,
                error,
            } => ServerEventView::NotRegistered { peer: peer@, namespace: namespace@, error },
            ServerEvent::Unregistered { peer, namespace } => ServerEventView::Unregistered {
                peer: peer@,
                namespace: namespace@,
            },
            ServerEvent::DiscoverServed { peer, count } => ServerEventView::DiscoverServed {
                peer: peer@,
                count,
            },
            ServerEvent::DiscoverNotServed { peer, error } => ServerEventView::DiscoverNotServed {
                peer: peer@,
                error,
            },
            ServerEvent::Expired { peer, namespace } => ServerEventView::Expired {
                peer: peer@,
                namespace: namespace@,
            },
            ServerEvent::Identified {
                peer,
                protocol_version,
                agent_version,
                protocols,
            } => ServerEventView::Identified {
                peer: peer@,
                protocol_version: protocol_version@,
                agent_version: agent_version@,
                protocols: texts(protocols@),
            },
        }
    }
}

/// The numbered rows of the list of registered peers.
pub open spec fn registered_rows(registered: Seq<(Seq<char>, Seq<char>)>) -> Seq<
    ServerNotice<Seq<char>>,
> {
    Seq::new(
        registered.len(),
        |i: int|
            ServerNotice::RegisteredRow {
                number: (i + 1) as usize,
                peer: registered[i].0,
                namespace: registered[i].1,
            },
    )
}

/// What is told when the list of registered peers is asked for.
pub open spec fn registered_told(registered: Seq<(Seq<char>, Seq<char>)>) -> Seq<
    ServerNotice<Seq<char>>,
> {
    seq![ServerNotice::ListHeading] + (if registered.len() == 0 {
        seq![ServerNotice::NobodyRegistered]
    } else {
        registered_rows(registered)
    }) + seq![ServerNotice::ListEnd]
}

/// What a typed line does: what is told, and whether the server goes on.
pub open spec fn server_line(registered: Seq<(Seq<char>, Seq<char>)>, line: Seq<char>) -> (
    Seq<ServerNotice<Seq<char>>>,
    bool,
) {
    if trimmed(line) == "quit"@ {
        (seq![ServerNotice::ShuttingDown], false)
    } else if trimmed(line) == "list"@ {
        (registered_told(registered), true)
    } else {
        (seq![ServerNotice::UnknownCommand], true)
    }
}

/// What an event does: which peers are registered afterwards, and what is told.
pub open spec fn server_event(registered: Seq<(Seq<char>, Seq<char>)>, event: ServerEventView) -> (
    Seq<(Seq<char>, Seq<char>)>,
    ServerNotice<Seq<char>>,
) {
    match event {
        ServerEventView::Listening { address } => (registered, ServerNotice::Listening { address }),
        ServerEventView::Connected { peer, endpoint } => (
            registered,
            ServerNotice::ConnectionEstablished { peer, endpoint },
        ),
        ServerEventView::Closed { peer, cause } => (
            without(registered, peer),
            ServerNotice::ConnectionClosed { peer, cause },
        ),
        ServerEventView::Registered { peer, namespace, ttl, addrs } => (
            with(registered, peer, namespace),
            ServerNotice::Registered { peer, namespace, ttl, addrs: joined(addrs, ", "@) },
        ),
        ServerEventView::NotRegistered { peer, namespace, error } => (
            registered,
            ServerNotice::NotRegistered { peer, namespace, error },
        ),
        ServerEventView::Unregistered { peer, namespace } => (
            without(registered, peer),
            ServerNotice::Unregistered { peer, namespace },
        ),
        ServerEventView::DiscoverServed { peer, count } => (
            registered,
            ServerNotice::DiscoverServed { peer, count },
        ),
        ServerEventView::DiscoverNotServed { peer, error } => (
            registered,
            ServerNotice::DiscoverNotServed { peer, error },
        ),
        ServerEventView::Expired { peer, namespace } => (
            without(registered, peer),
            ServerNotice::RegistrationExpired { peer, namespace },
        ),
        ServerEventView::Identified { peer, protocol_version, agent_version, protocols } => (
            registered,
            ServerNotice::Identified {
                peer,
                protocol_version,
                agent_version,
                protocols: joined(protocols, ", "@),
            },
        ),
    }
}

/// What a rendezvous server knows of its peers: who is registered, and in which namespace.
pub struct RendezvousServer {
    registered_peers: PeerTable<String>,
}

impl View for RendezvousServer {
    type V = Seq<(Seq<char>, Seq<char>)>;

    closed spec fn view(&self) -> Seq<(Seq<char>, Seq<char>)> {
        self.registered_peers@
    }
}

impl RendezvousServer {
    /// A server at which nobody is registered.
    pub fn new() -> (r: Self)
        ensures
            r@ == Seq::<(Seq<char>, Seq<char>)>::empty(),
            distinct(r@),
    {
        RendezvousServer { registered_peers: PeerTable::new() }
    }

    fn tell_registered(&self) -> (r: Vec<ServerNotice<String>>)
        ensures
            contents(r@) == registered_told(self@),
    {
        let n: usize = self.registered_peers.len();
        let mut list: Vec<ServerNotice<String>> = vec![ServerNotice::ListHeading];
        if n == 0 {
            list.push(ServerNotice::NobodyRegistered);
        }
        let ghost head = contents(list@);
        let ghost rows = registered_rows(self@);
        assert(head =~= head + rows.take(0));
        let mut i: usize = 0;
        while i < n
            invariant
                n == self@.len(),
                i <= n,
                rows == registered_rows(self@),
                contents(list@) == head + rows.take(i as int),
            decreases n - i,
        {
            let row = ServerNotice::RegisteredRow {
                number: i + 1,
                peer: self.registered_peers.peer(i).clone(),
                namespace: self.registered_peers.value(i).clone(),
            };
            assert(row@ == rows[i as int]);
            let ghost before = contents(list@);
            list.push(row);
            assert(contents(list@) == before.push(rows[i as int]));
            assert(head + rows.take(i + 1) =~= before.push(rows[i as int]));
            i = i + 1;
        }
        list.push(ServerNotice::ListEnd);
        assert(rows.take(i as int) =~= rows);
        assert(contents(list@) =~= registered_told(self@));
        list
    }

    /// Takes a line that is typed at the server: says what to tell, and whether to go on.
    pub fn handle_line(&self, line: &str) -> (r: (Vec<ServerNotice<String>>, bool))
        ensures
            contents(r.0@) == server_line(self@, line@).0,
            r.1 == server_line(self@, line@).1,
    {
        let command = trim(line);
        if same_text(command.as_str(), "quit") {
            (vec![ServerNotice::ShuttingDown], false)
        } else if same_text(command.as_str(), "list") {
            (self.tell_registered(), true)
        } else {
            (vec![ServerNotice::UnknownCommand], true)
        }
    }

    /// Takes an event of the network and says what to tell.
    pub fn handle_event(&mut self, event: ServerEvent) -> (r: ServerNotice<String>)
        requires
            distinct(old(self)@),
        ensures
            final(self)@ == server_event(old(self)@, event@).0,
            r@ == server_event(old(self)@, event@).1,
            distinct(final(self)@),
    {
        match event {
            ServerEvent::Listening { address } => ServerNotice::Listening { address },
            ServerEvent::Connected { peer, endpoint } => ServerNotice::ConnectionEstablished {
                peer,
                endpoint,
            },
            ServerEvent::Closed { peer, cause } => {
                proof {
                    law_without(self@, peer@);
                }
                let _ = self.registered_peers.remove(peer.as_str());
                ServerNotice::ConnectionClosed { peer, cause }
            },
            ServerEvent::Registered { peer, namespace, ttl, addrs } => {
                proof {
                    law_with(self@, peer@, namespace@);
                }
                self.registered_peers.insert(peer.clone(), namespace.clone());
                ServerNotice::Registered { peer, namespace, ttl, addrs: join(&addrs, ", ") }
            },
            ServerEvent::NotRegistered { peer, namespace, error } => ServerNotice::NotRegistered {
                peer,
                namespace,
                error,
            },
            ServerEvent::Unregistered { peer, namespace } => {
                proof {
                    law_without(self@, peer@);
                }
                let _ = self.registered_peers.remove(peer.as_str());
                ServerNotice::Unregistered { peer, namespace }
            },
            ServerEvent::DiscoverServed { peer, count } => ServerNotice::DiscoverServed {
                peer,
                count,
            },
            ServerEvent::DiscoverNotServed { peer, error } => ServerNotice::DiscoverNotServed {
                peer,
                error,
            },
            ServerEvent::Expired { peer, namespace } => {
                proof {
                    law_without(self@, peer@);
                }
                let _ = self.registered_peers.remove(peer.as_str());
                ServerNotice::RegistrationExpired { peer, namespace }
            },
            ServerEvent::Identified { peer, protocol_version, agent_version, protocols } => {
                ServerNotice::Identified {
                    peer,
                    protocol_version,
                    agent_version,
                    protocols: join(&protocols, ", "),
                }
            },
        }
    }
}

/// A peer that registers is listed in its namespace; a peer that unregisters, whose connection is
/// closed or whose registration runs out is not. The other peers are as they were.
pub proof fn law_registered_peers_are_listed(
    registered: Seq<(Seq<char>, Seq<char>)>,
    peer: Seq<char>,
    namespace: Seq<char>,
    ttl: u64,
    addrs: Seq<Seq<char>>,
    cause: Seq<char>,
)
    requires
        distinct(registered),
    ensures
        ({
            let added = server_event(
                registered,
                ServerEventView::Registered { peer, namespace, ttl, addrs },
            ).0;
            let removed = server_event(
                registered,
                ServerEventView::Unregistered { peer, namespace },
            ).0;
            &&& lookup(added, peer) == Some(namespace)
            &&& !holds(removed, peer)
            &&& server_event(registered, ServerEventView::Closed { peer, cause }).0 == removed
            &&& server_event(registered, ServerEventView::Expired { peer, namespace }).0 == removed
            &&& forall|other: Seq<char>|
                other != peer ==> {
                    &&& #[trigger] lookup(added, other) == lookup(registered, other)
                    &&& lookup(removed, other) == lookup(registered, other)
                }
            &&& distinct(added) && distinct(removed)
        }),
{
    law_with(registered, peer, namespace);
    law_without(registered, peer);
}

/// Who is registered after a number of events.
pub open spec fn registered_after(
    registered: Seq<(Seq<char>, Seq<char>)>,
    events: Seq<ServerEventView>,
) -> Seq<(Seq<char>, Seq<char>)>
    decreases events.len(),
{
    if events.len() == 0 {
        registered
    } else {
        server_event(registered_after(registered, events.drop_last()), events.last()).0
    }
}

/// What the last event about the registration of a peer says in a number of events: that it is
/// registered in a namespace, or that it is not.
pub open spec fn last_registration(events: Seq<ServerEventView>, peer: Seq<char>) -> Option<
    Option<Seq<char>>,
>
    decreases events.len(),
{
    if events.len() == 0 {
        None
    } else {
        match events.last() {
            ServerEventView::Registered { peer: p, namespace, ttl, addrs } if p == peer => Some(
                Some(namespace),
            ),
            ServerEventView::Unregistered { peer: p, namespace } if p == peer => Some(None),
            ServerEventView::Closed { peer: p, cause } if p == peer => Some(None),
            ServerEventView::Expired { peer: p, namespace } if p == peer => Some(None),
            _ => last_registration(events.drop_last(), peer),
        }
    }
}

/// After any number of events, a peer is listed as the last event about its registration says, or
/// as before if there was none.
pub proof fn law_last_registration_counts(
    registered: Seq<(Seq<char>, Seq<char>)>,
    events: Seq<ServerEventView>,
    peer: Seq<char>,
)
    requires
        distinct(registered),
    ensures
        distinct(registered_after(registered, events)),
        lookup(registered_after(registered, events), peer) == match last_registration(
            events,
            peer,
        ) {
            Some(namespace) => namespace,
            None => lookup(registered, peer),
        },
    decreases events.len(),
{
    if events.len() > 0 {
        law_last_registration_counts(registered, events.drop_last(), peer);
        let before = registered_after(registered, events.drop_last());
        match events.last() {
            ServerEventView::Registered { peer: p, namespace, ttl, addrs } => {
                law_with(before, p, namespace);
            },
            ServerEventView::Unregistered { peer: p, namespace } => {
                law_without(before, p);
            },
            ServerEventView::Closed { peer: p, cause } => {
                law_without(before, p);
            },
            ServerEventView::Expired { peer: p, namespace } => {
                law_without(before, p);
            },
            _ => {},
        }
    }
}

/// The list shows every registered peer once, with its namespace, in order.
pub proof fn law_every_registered_peer_is_shown(registered: Seq<(Seq<char>, Seq<char>)>, i: int)
    requires
        0 <= i < registered.len(),
    ensures
        registered_told(registered).len() == registered.len() + 2,
        registered_told(registered)[i + 1] == (ServerNotice::RegisteredRow {
            number: (i + 1) as usize,
            peer: registered[i].0,
            namespace: registered[i].1,
        }),
{
    assert(registered_told(registered)[i + 1] == registered_rows(registered)[i]);
}

/// A client that was told no server, and has the settings file that a server wrote, takes that
/// server's peer for its rendezvous server.
pub proof fn law_client_finds_server(port: u16, peer: Seq<char>, ip: Option<Seq<char>>)
    requires
        parsed_peer_id(peer) == Ok::<Seq<char>, Seq<char>>(peer),
        peer.len() > 0,
        forall|i: int| 0 <= i < peer.len() ==> peer[i] != '/' && !white_space(peer[i]),
        ip matches Some(address) ==> !address.contains('\n'),
    ensures
        ({
            let address = found_at(port, peer, ip);
            &&& server_for(None, Some(settings_for(address))) == Some(address)
            &&& addressed_peer(address) == AddressedPeer::Peer(peer)
        }),
{
    reveal_strlit("/ip4/");
    reveal_strlit("/tcp/");
    reveal_strlit("/p2p/");
    reveal_strlit("127.0.0.1");
    let address = found_at(port, peer, ip);
    let own = match ip {
        Some(a) => a,
        None => "127.0.0.1"@,
    };
    let number = decimal(port as nat);
    crate::text::lemma_decimal(port as nat);
    let a = "/ip4/"@;
    let b = "/tcp/"@;
    let c = "/p2p/"@;
    let n1 = a.len() as int;
    let n2 = n1 + own.len();
    let n3 = n2 + b.len();
    let n4 = n3 + number.len();
    let n5 = n4 + c.len();
    assert(address.len() == n5 + peer.len());
    if address.contains('\n') {
        let i = choose|i: int| 0 <= i < address.len() && address[i] == '\n';
        if i < n1 {
            assert(address[i] == a[i]);
        } else if i < n2 {
            assert(address[i] == own[i - n1]);
            assert(own.contains('\n'));
        } else if i < n3 {
            assert(address[i] == b[i - n2]);
        } else if i < n4 {
            assert(address[i] == number[i - n3]);
            assert(crate::text::is_digit(number[i - n3]));
        } else if i < n5 {
            assert(address[i] == c[i - n4]);
        } else {
            assert(address[i] == peer[i - n5]);
            assert(!white_space(peer[i - n5]));
        }
    }
    assert(address[0] == a[0]);
    assert(address.last() == peer.last());
    assert(trimmed(address) == address);
    law_settings_round_trip(address);
    if peer.contains('/') {
        let i = choose|i: int| 0 <= i < peer.len() && peer[i] == '/';
        assert(peer[i] != '/');
    }
    law_server_address_names_its_peer(own, port, peer);
}

/// How a server starts: on the port that it was given, or 50002; listening on every interface; and
/// found, by the settings file that it writes, at its local IP address, or on the same machine if
/// it has none. It does not start exactly if that makes no address to listen on.
pub proof fn law_server_starts(
    start: Result<ServerStart, String>,
    args: RendezvousCliArgsView,
    peer: Seq<char>,
    ip: Option<Seq<char>>,
)
    requires
        starts(start, args, peer, ip),
    ensures
        ({
            let port = match args.port {
                Some(port) => port,
                None => 50002u16,
            };
            let number = decimal(port as nat);
            let own = match ip {
                Some(own) => own,
                None => "127.0.0.1"@,
            };
            let address = "/ip4/"@ + own + "/tcp/"@ + number + "/p2p/"@ + peer;
            let listening = parsed_multiaddr("/ip4/0.0.0.0/tcp/"@ + number);
            match start {
                Ok(s) => {
                    &&& s.port == port
                    &&& listening == Ok::<Seq<char>, Seq<char>>(s.listen@)
                    &&& s.address@ == address
                    &&& s.settings@ == "RENDEZVOUS_SERVER="@ + address + seq!['\n']
                },
                Err(reason) => listening == Err::<Seq<char>, Seq<char>>(reason@),
            }
        }),
{
    let port = match args.port {
        Some(port) => port,
        None => 50002u16,
    };
    let own = match ip {
        Some(own) => own,
        None => "127.0.0.1"@,
    };
    crate::addresses::law_listening_address(decimal(port as nat));
    crate::addresses::law_full_server_address(own, port, peer);
    crate::settings::law_settings_file(found_at(port, peer, ip));
}

/// What is typed at the server, with any white space around it: `quit` ends it; `list` shows a
/// heading, every registered peer with its namespace under its number, or that there is none, and
/// an end; anything else is not known. Only `quit` ends it.
pub proof fn law_lines_at_the_server(
    registered: Seq<(Seq<char>, Seq<char>)>,
    front: Seq<char>,
    text: Seq<char>,
    back: Seq<char>,
    i: int,
)
    requires
        crate::text::blank(front),
        crate::text::blank(back),
        text.len() > 0 ==> !white_space(text[0]) && !white_space(text.last()),
    ensures
        ({
            let (told, going_on) = server_line(registered, front + text + back);
            &&& going_on == (text != "quit"@)
            &&& text == "quit"@ ==> told == seq![ServerNotice::<Seq<char>>::ShuttingDown]
            &&& text != "quit"@ && text != "list"@ ==> told == seq![
                ServerNotice::<Seq<char>>::UnknownCommand,
            ]
            &&& text == "list"@ && registered.len() == 0 ==> told == seq![
                ServerNotice::<Seq<char>>::ListHeading,
                ServerNotice::NobodyRegistered,
                ServerNotice::ListEnd,
            ]
            &&& text == "list"@ && registered.len() > 0 ==> {
                &&& told.len() == registered.len() + 2
                &&& told[0] == ServerNotice::<Seq<char>>::ListHeading
                &&& told.last() == ServerNotice::<Seq<char>>::ListEnd
                &&& 0 <= i < registered.len() ==> told[i + 1] == (ServerNotice::RegisteredRow {
                    number: (i + 1) as usize,
                    peer: registered[i].0,
                    namespace: registered[i].1,
                })
            }
        }),
{
    reveal_strlit("quit");
    reveal_strlit("list");
    assert("quit"@[0] != "list"@[0]);
    crate::text::law_trimmed(front, text, back);
    let told = registered_told(registered);
    if registered.len() == 0 {
        assert(told =~= seq![
            ServerNotice::<Seq<char>>::ListHeading,
            ServerNotice::NobodyRegistered,
            ServerNotice::ListEnd,
        ]);
    } else if 0 <= i < registered.len() {
        law_every_registered_peer_is_shown(registered, i);
    }
}

/// What the one who runs the server is told of registrations, and who is registered after them.
pub proof fn law_registrations_are_told(
    registered: Seq<(Seq<char>, Seq<char>)>,
    peer: Seq<char>,
    namespace: Seq<char>,
    ttl: u64,
    addrs: Seq<Seq<char>>,
    error: RendezvousError,
)
    ensures
        server_event(registered, ServerEventView::Registered { peer, namespace, ttl, addrs }) == (
            with(registered, peer, namespace),
            ServerNotice::Registered { peer, namespace, ttl, addrs: joined(addrs, ", "@) },
        ),
        server_event(registered, ServerEventView::NotRegistered { peer, namespace, error }) == (
            registered,
            ServerNotice::<Seq<char>>::NotRegistered { peer, namespace, error },
        ),
        server_event(registered, ServerEventView::Unregistered { peer, namespace }) == (
            without(registered, peer),
            ServerNotice::<Seq<char>>::Unregistered { peer, namespace },
        ),
        server_event(registered, ServerEventView::Expired { peer, namespace }) == (
            without(registered, peer),
            ServerNotice::<Seq<char>>::RegistrationExpired { peer, namespace },
        ),
{
}

/// What the one who runs the server is told of connections and discoveries. Only the end of a
/// connection changes who is registered.
pub proof fn law_connections_are_told(
    registered: Seq<(Seq<char>, Seq<char>)>,
    peer: Seq<char>,
    text: Seq<char>,
    other: Seq<char>,
    count: usize,
    error: RendezvousError,
    protocols: Seq<Seq<char>>,
)
    ensures
        server_event(registered, ServerEventView::Listening { address: text }) == (
            registered,
            ServerNotice::Listening { address: text },
        ),
        server_event(registered, ServerEventView::Connected { peer, endpoint: text }) == (
            registered,
            ServerNotice::ConnectionEstablished { peer, endpoint: text },
        ),
        server_event(registered, ServerEventView::Closed { peer, cause: text }) == (
            without(registered, peer),
            ServerNotice::ConnectionClosed { peer, cause: text },
        ),
        server_event(registered, ServerEventView::DiscoverServed { peer, count }) == (
            registered,
            ServerNotice::<Seq<char>>::DiscoverServed { peer, count },
        ),
        server_event(registered, ServerEventView::DiscoverNotServed { peer, error }) == (
            registered,
            ServerNotice::<Seq<char>>::DiscoverNotServed { peer, error },
        ),
        server_event(
            registered,
            ServerEventView::Identified {
                peer,
                protocol_version: text,
                agent_version: other,
                protocols,
            },
        ) == (
            registered,
            ServerNotice::Identified {
                peer,
                protocol_version: text,
                agent_version: other,
                protocols: joined(protocols, ", "@),
            },
        ),
{
}

}
