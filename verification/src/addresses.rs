//! Network addresses: what to listen on, where others can reach this side, and which peer and
//! port an address names.
//!
//! An address is a text in multiaddr notation, such as `/ip4/10.0.0.7/tcp/50002`.

use crate::foreign::{
    multiaddr_tcp_components, parse_multiaddr, parse_peer_id, parsed_multiaddr, parsed_peer_id,
    tcp_components,
};
use crate::text::{
    after_last, before_first, begins_with, contains, decimal, decimal_text, last_occurrence_upto,
    occurs, occurs_at, optional_text, same_text, starts_with, text_after_last, text_before_first,
    texts,
};
use vstd::prelude::*;

verus! {

/// The TCP address of a port at an IPv4 address.
pub open spec fn ip4_tcp(ip: Seq<char>, port: Seq<char>) -> Seq<char> {
    "/ip4/"@ + ip + "/tcp/"@ + port
}

/// Writes the TCP address of a port at an IPv4 address.
pub fn ip4_tcp_address(ip: &str, port: &str) -> (r: String)
    ensures
        r@ == ip4_tcp(ip@, port@),
{
    let mut text = "/ip4/".to_owned();
    text.append(ip);
    text.append("/tcp/");
    text.append(port);
    text
}

/// The address to listen on: the given port on every interface, or any free one.
pub open spec fn listening_at(port: Option<Seq<char>>) -> Seq<char> {
    ip4_tcp(
        "0.0.0.0"@,
        match port {
            Some(p) => p,
            None => "0"@,
        },
    )
}

/// Writes the address to listen on.
pub fn listen_address(port: &Option<String>) -> (r: String)
    ensures
        r@ == listening_at(optional_text(*port)),
{
    match port {
        Some(p) => ip4_tcp_address("0.0.0.0", p.as_str()),
        None => ip4_tcp_address("0.0.0.0", "0"),
    }
}

/// The address to listen on, as the network takes it, or why it is none.
pub fn usable_listen_address(port: &Option<String>) -> (r: Result<String, String>)
    ensures
        match r {
            Ok(address) => parsed_multiaddr(listening_at(optional_text(*port))) == Ok::<
                Seq<char>,
                Seq<char>,
            >(address@),
            Err(reason) => parsed_multiaddr(listening_at(optional_text(*port))) == Err::<
                Seq<char>,
                Seq<char>,
            >(reason@),
        },
{
    parse_multiaddr(listen_address(port).as_str())
}

/// The first port in a list of components.
pub open spec fn first_port(components: Seq<Option<u16>>) -> Option<u16>
    decreases components.len(),
{
    if components.len() == 0 {
        None
    } else if components[0] is Some {
        components[0]
    } else {
        first_port(components.skip(1))
    }
}

/// Finds the first port in a list of components.
pub fn first_tcp_port(components: &Vec<Option<u16>>) -> (r: Option<u16>)
    ensures
        r == first_port(components@),
{
    let mut i: usize = 0;
    assert(components@.skip(0) =~= components@);
    while i < components.len()
        invariant
            i <= components.len(),
            first_port(components@.skip(i as int)) == first_port(components@),
        decreases components.len() - i,
    {
        assert(components@.skip(i as int).skip(1) =~= components@.skip(i + 1));
        if let Some(port) = components[i] {
            return Some(port);
        }
        i = i + 1;
    }
    None
}

/// An IPv4 address in dotted notation.
pub open spec fn dotted(a: u8, b: u8, c: u8, d: u8) -> Seq<char> {
    decimal(a as nat) + "."@ + decimal(b as nat) + "."@ + decimal(c as nat) + "."@ + decimal(
        d as nat,
    )
}

/// Whether a text is an IPv4 address in dotted notation.
pub open spec fn is_ipv4(ip: Seq<char>) -> bool {
    exists|a: u8, b: u8, c: u8, d: u8| ip == #[trigger] dotted(a, b, c, d)
}

/// Whether what an address is said to be made of tells its port, if it is the TCP address of a port
/// at an IPv4 address: for each component the port, if it is one of TCP.
pub open spec fn tells_port(addr: Seq<char>, components: Option<Seq<Option<u16>>>) -> bool {
    forall|ip: Seq<char>, port: u16|
        is_ipv4(ip) && addr == #[trigger] ip4_tcp(ip, decimal(port as nat)) ==> components == Some(
            seq![None, Some(port)],
        )
}

/// The port of the first TCP component of an address.
pub open spec fn port_in(addr: Seq<char>) -> Option<u16> {
    match tcp_components(addr) {
        Some(components) => first_port(components),
        None => None,
    }
}

/// Finds the port of the first TCP component of an address. The port of a TCP address at an IPv4
/// address is read back.
pub fn extract_port_from_multiaddr(addr: &str) -> (r: Option<u16>)
    ensures
        r == port_in(addr@),
        forall|ip: Seq<char>, port: u16|
            is_ipv4(ip) && addr@ == #[trigger] ip4_tcp(ip, decimal(port as nat)) ==> r == Some(
                port,
            ),
{
    let r = match multiaddr_tcp_components(addr) {
        Some(components) => first_tcp_port(&components),
        None => None,
    };
    proof {
        assert forall|ip: Seq<char>, port: u16|
            is_ipv4(ip) && addr@ == #[trigger] ip4_tcp(ip, decimal(port as nat)) implies r == Some(
            port,
        ) by {
            lemma_port_told(addr@, ip, port);
        }
    }
    r
}

proof fn lemma_port_told(addr: Seq<char>, ip: Seq<char>, port: u16)
    requires
        is_ipv4(ip),
        addr == ip4_tcp(ip, decimal(port as nat)),
        tells_port(addr, tcp_components(addr)),
    ensures
        port_in(addr) == Some(port),
{
    let components: Seq<Option<u16>> = seq![None, Some(port)];
    assert(tcp_components(addr) == Some(components));
    assert(components.skip(1) =~= seq![Some(port)]);
    reveal_with_fuel(first_port, 2);
}

/// Whether an address is one of the loopback interface, which only this machine can reach: at an
/// IPv4 address that begins with 127, or at `::1`.
pub open spec fn local_only(addr: Seq<char>) -> bool {
    occurs(addr, "/ip4/127."@) || occurs(addr + "/"@, "/ip6/::1/"@)
}

/// Tells whether an address is one of the loopback interface.
pub fn is_local_only(addr: &str) -> (r: bool)
    ensures
        r == local_only(addr@),
{
    let mut ended = addr.to_owned();
    ended.append("/");
    contains(addr, "/ip4/127.") || contains(ended.as_str(), "/ip6/::1/")
}

/// Whether an IP address is one of the loopback interface.
pub open spec fn loopback(ip: Seq<char>) -> bool {
    begins_with(ip, "127."@) || ip == "::1"@
}

/// Tells whether an IP address is one of the loopback interface.
pub fn is_loopback(ip: &str) -> (r: bool)
    ensures
        r == loopback(ip@),
{
    starts_with(ip, "127.") || same_text(ip, "::1")
}

/// Where a barter session on a port can be joined: at the local IP address, if there is one, and
/// always on this machine.
pub open spec fn barter_addresses(local_ip: Option<Seq<char>>, port: u16) -> Seq<Seq<char>> {
    let here = ip4_tcp("127.0.0.1"@, decimal(port as nat));
    match local_ip {
        Some(ip) => seq![ip4_tcp(ip, decimal(port as nat)), here],
        None => seq![here],
    }
}

/// Lists where a barter session on a port can be joined.
pub fn list_barter_addresses(local_ip: &Option<String>, port: u16) -> (r: Vec<String>)
    ensures
        texts(r@) == barter_addresses(optional_text(*local_ip), port),
{
    let number = decimal_text(port as u64);
    let mut list: Vec<String> = Vec::new();
    if let Some(ip) = local_ip {
        list.push(ip4_tcp_address(ip.as_str(), number.as_str()));
    }
    list.push(ip4_tcp_address("127.0.0.1", number.as_str()));
    assert(texts(list@) =~= barter_addresses(optional_text(*local_ip), port));
    list
}

/// The barter port is read back from each address at which a session can be joined, provided that
/// the local IP address is one of IPv4.
pub proof fn law_barter_port_is_read_back(local_ip: Option<Seq<char>>, port: u16, i: int)
    requires
        0 <= i < barter_addresses(local_ip, port).len(),
        local_ip matches Some(ip) ==> is_ipv4(ip),
        tells_port(
            barter_addresses(local_ip, port)[i],
            tcp_components(barter_addresses(local_ip, port)[i]),
        ),
    ensures
        port_in(barter_addresses(local_ip, port)[i]) == Some(port),
{
    let addr = barter_addresses(local_ip, port)[i];
    lemma_this_machine();
    if i == 0 && local_ip is Some {
        lemma_port_told(addr, local_ip->0, port);
    } else {
        lemma_port_told(addr, "127.0.0.1"@, port);
    }
}

proof fn lemma_this_machine()
    ensures
        is_ipv4("127.0.0.1"@),
{
    reveal_strlit("127.0.0.1");
    reveal_strlit(".");
    reveal_with_fuel(decimal, 3);
    assert("127.0.0.1"@ =~= dotted(127, 0, 0, 1));
}

/// Which peer an address names as its last component.
#[derive(Debug, PartialEq, Eq)]
pub enum AddressedPeer<S> {
    /// The address names this peer.
    Peer(S),
    /// What the address gives as a peer is none, for this reason.
    Malformed(S),
    /// The address names no peer.
    Unnamed,
}

impl View for AddressedPeer<String> {
    type V = AddressedPeer<Seq<char>>;

    open spec fn view(&self) -> AddressedPeer<Seq<char>> {
        match *self {
            AddressedPeer::Peer(id) => AddressedPeer::Peer(id@),
            AddressedPeer::Malformed(reason) => AddressedPeer::Malformed(reason@),
            AddressedPeer::Unnamed => AddressedPeer::Unnamed,
        }
    }
}

/// The peer that an address names: what follows its last `/p2p/`.
pub open spec fn addressed_peer(addr: Seq<char>) -> AddressedPeer<Seq<char>> {
    match after_last(addr, "/p2p/"@) {
        Some(id) => match parsed_peer_id(id) {
            Ok(peer) => AddressedPeer::Peer(peer),
            Err(reason) => AddressedPeer::Malformed(reason),
        },
        None => AddressedPeer::Unnamed,
    }
}

/// Finds the peer that an address names.
pub fn peer_in_address(addr: &str) -> (r: AddressedPeer<String>)
    ensures
        r@ == addressed_peer(addr@),
{
    match text_after_last(addr, "/p2p/") {
        Some(id) => match parse_peer_id(id.as_str()) {
            Ok(peer) => AddressedPeer::Peer(peer),
            Err(reason) => AddressedPeer::Malformed(reason),
        },
        None => AddressedPeer::Unnamed,
    }
}

/// The address of a peer without its place in the network.
pub open spec fn peer_address(peer: Seq<char>) -> Seq<char> {
    "/p2p/"@ + peer
}

/// Writes the address of a peer without its place in the network.
pub fn address_of_peer(peer: &str) -> (r: String)
    ensures
        r@ == peer_address(peer@),
{
    let mut text = "/p2p/".to_owned();
    text.append(peer);
    text
}

/// The first of a list of addresses that are separated by commas.
pub fn first_address(list: &str) -> (r: String)
    ensures
        r@ == before_first(list@, ','),
{
    text_before_first(list, ',')
}

/// The full address of a rendezvous server.
pub open spec fn server_at(ip: Seq<char>, port: u16, peer: Seq<char>) -> Seq<char> {
    ip4_tcp(ip, decimal(port as nat)) + peer_address(peer)
}

/// Writes the full address of a rendezvous server.
pub fn server_address(ip: &str, port: u16, peer: &str) -> (r: String)
    ensures
        r@ == server_at(ip@, port, peer@),
{
    let mut text = ip4_tcp_address(ip, decimal_text(port as u64).as_str());
    text.append(address_of_peer(peer).as_str());
    text
}

/// The full address of a server names the server's peer.
pub proof fn law_server_address_names_its_peer(ip: Seq<char>, port: u16, peer: Seq<char>)
    requires
        parsed_peer_id(peer) == Ok::<Seq<char>, Seq<char>>(peer),
        !peer.contains('/'),
    ensures
        addressed_peer(server_at(ip, port, peer)) == AddressedPeer::Peer(peer),
{
    reveal_strlit("/p2p/");
    let mark = "/p2p/"@;
    let front = ip4_tcp(ip, decimal(port as nat));
    let all = server_at(ip, port, peer);
    let n = front.len() as int;
    assert(all.subrange(n, n + 5) =~= mark);
    assert forall|at: int| n < at implies !occurs_at(all, mark, at) by {
        if occurs_at(all, mark, at) {
            let found = all.subrange(at, at + 5);
            assert(found[0] == all[at]);
            assert(found[4] == all[at + 4]);
            assert(all[at + 4] == peer[at + 4 - n - 5]);
        }
    }
    lemma_last_occurrence(all, mark, n, all.len() as int);
    assert(all.skip(n + 5) =~= peer);
}

proof fn lemma_last_occurrence(text: Seq<char>, pattern: Seq<char>, at: int, from: int)
    requires
        0 <= at <= from,
        occurs_at(text, pattern, at),
        forall|later: int| at < later ==> !occurs_at(text, pattern, later),
    ensures
        last_occurrence_upto(text, pattern, from) == Some(at),
    decreases from,
{
    if at < from {
        lemma_last_occurrence(text, pattern, at, from - 1);
    }
}

/// The address to listen on is the given port on every interface of the machine, or any free port
/// if none is given.
pub proof fn law_listening_address(port: Seq<char>)
    ensures
        listening_at(Some(port)) == "/ip4/0.0.0.0/tcp/"@ + port,
        listening_at(None) == "/ip4/0.0.0.0/tcp/0"@,
{
    reveal_strlit("/ip4/");
    reveal_strlit("/tcp/");
    reveal_strlit("0.0.0.0");
    reveal_strlit("0");
    reveal_strlit("/ip4/0.0.0.0/tcp/");
    reveal_strlit("/ip4/0.0.0.0/tcp/0");
    assert(listening_at(Some(port)) =~= "/ip4/0.0.0.0/tcp/"@ + port);
    assert(listening_at(None) =~= "/ip4/0.0.0.0/tcp/0"@);
}

/// A barter session can be joined at its port on this machine, and before that at the local IP
/// address, if there is one; nowhere else.
pub proof fn law_where_a_session_is_joined(ip: Seq<char>, port: u16)
    ensures
        barter_addresses(None, port) == seq!["/ip4/127.0.0.1/tcp/"@ + decimal(port as nat)],
        barter_addresses(Some(ip), port) == seq![
            "/ip4/"@ + ip + "/tcp/"@ + decimal(port as nat),
            "/ip4/127.0.0.1/tcp/"@ + decimal(port as nat),
        ],
{
    reveal_strlit("/ip4/");
    reveal_strlit("/tcp/");
    reveal_strlit("127.0.0.1");
    reveal_strlit("/ip4/127.0.0.1/tcp/");
    assert(ip4_tcp("127.0.0.1"@, decimal(port as nat)) =~= "/ip4/127.0.0.1/tcp/"@ + decimal(
        port as nat,
    ));
}

/// The full address of a server is its place in the network, followed by its peer.
pub proof fn law_full_server_address(ip: Seq<char>, port: u16, peer: Seq<char>)
    ensures
        ip4_tcp(ip, decimal(port as nat)) == "/ip4/"@ + ip + "/tcp/"@ + decimal(port as nat),
        server_at(ip, port, peer) == "/ip4/"@ + ip + "/tcp/"@ + decimal(port as nat) + "/p2p/"@
            + peer,
        peer_address(peer) == "/p2p/"@ + peer,
{
    assert(server_at(ip, port, peer) =~= "/ip4/"@ + ip + "/tcp/"@ + decimal(port as nat) + "/p2p/"@
        + peer);
}

/// Any address that ends in `/p2p/` and a peer id names that peer; one that ends otherwise after
/// it is malformed; and one without `/p2p/` names none.
pub proof fn law_peer_of_address(front: Seq<char>, id: Seq<char>)
    requires
        !id.contains('/'),
    ensures
        match parsed_peer_id(id) {
            Ok(peer) => addressed_peer(front + "/p2p/"@ + id) == AddressedPeer::Peer(peer),
            Err(reason) => addressed_peer(front + "/p2p/"@ + id) == AddressedPeer::Malformed(
                reason,
            ),
        },
        (forall|at: int|
            0 <= at && at + 5 <= front.len() ==> #[trigger] front.subrange(at, at + 5)
                != "/p2p/"@) ==> addressed_peer(front) is Unnamed,
{
    reveal_strlit("/p2p/");
    let mark = "/p2p/"@;
    let text = front + mark + id;
    let n = front.len() as int;
    assert forall|at: int| n < at && at + mark.len() <= text.len() implies #[trigger] text.subrange(
        at,
        at + mark.len(),
    ) != mark by {
        let found = text.subrange(at, at + 5);
        if found == mark {
            assert(found[0] == text[at]);
            assert(found[4] == text[at + 4]);
            assert(text[at + 4] == id[at + 4 - n - 5]);
            assert(id.contains('/'));
        }
    }
    crate::text::law_after_last(front, mark, id);
}

/// The addresses of the loopback interface are those that begin with 127 in IPv4, and `::1` in
/// IPv6.
pub proof fn law_loopback(ip: Seq<char>)
    ensures
        loopback(ip) <==> (ip.len() >= 4 && ip.take(4) == "127."@) || ip == "::1"@,
{
    reveal_strlit("127.");
    if ip.len() >= 4 {
        assert(ip.take(4) =~= ip.subrange(0, 4));
    }
}

/// Which TCP addresses only this machine can reach: those at an IP address of the loopback
/// interface.
pub proof fn law_local_only(ip: Seq<char>, port: Seq<char>)
    requires
        !ip.contains('/'),
        !port.contains('/'),
    ensures
        local_only("/ip4/"@ + ip + "/tcp/"@ + port) <==> ip.len() >= 4 && ip.take(4) == "127."@,
        local_only("/ip6/"@ + ip + "/tcp/"@ + port) <==> ip == "::1"@,
{
    reveal_strlit("/ip4/");
    reveal_strlit("/ip6/");
    assert("/ip4/"@[3] != "/ip6/"@[3]);
    lemma_local_only(ip, port, "/ip4/"@);
    lemma_local_only(ip, port, "/ip6/"@);
}

proof fn lemma_local_only(ip: Seq<char>, port: Seq<char>, kind: Seq<char>)
    requires
        !ip.contains('/'),
        !port.contains('/'),
        kind == "/ip4/"@ || kind == "/ip6/"@,
    ensures
        local_only(kind + ip + "/tcp/"@ + port) <==> if kind == "/ip4/"@ {
            ip.len() >= 4 && ip.take(4) == "127."@
        } else {
            ip == "::1"@
        },
{
    reveal_strlit("/ip4/");
    reveal_strlit("/ip6/");
    reveal_strlit("/tcp/");
    reveal_strlit("127.");
    reveal_strlit("::1");
    reveal_strlit("/ip4/127.");
    reveal_strlit("/ip6/::1/");
    reveal_strlit("/");
    let four = "/ip4/127."@;
    let six = "/ip6/::1/"@;
    let tcp = "/tcp/"@;
    let addr = kind + ip + tcp + port;
    let ended = addr + "/"@;
    let n = ip.len() as int;
    assert forall|at: int| 0 <= at < addr.len() && addr[at] == '/' implies at == 0 || at == 4 || at
        == 5 + n || at == 9 + n by {
        if 5 <= at < 5 + n {
            assert(addr[at] == ip[at - 5]);
        } else if at >= 10 + n {
            assert(addr[at] == port[at - 10 - n]);
        }
    }
    assert forall|at: int| #[trigger] occurs_at(addr, four, at) implies kind == "/ip4/"@ && n >= 4
        && ip.take(4) == "127."@ by {
        let found = addr.subrange(at, at + 9);
        assert(found[0] == addr[at] && found[1] == addr[at + 1] && found[3] == addr[at + 3]
            && found[4] == addr[at + 4] && found[5] == addr[at + 5] && found[6] == addr[at + 6]
            && found[7] == addr[at + 7] && found[8] == addr[at + 8]);
        if at == 4 {
            assert(n == 3);
            assert(addr[9] == tcp[1]);
        } else if at == 0 {
            assert(addr[5] == '1' && addr[6] == '2' && addr[7] == '7' && addr[8] == '.');
            if n < 4 {
                assert(addr[5 + n] == '/');
            }
            assert(ip.take(4) =~= "127."@);
        } else if at == 5 + n {
            assert(addr[at + 1] == tcp[1]);
        }
    }
    assert forall|at: int| #[trigger] occurs_at(ended, six, at) implies kind == "/ip6/"@ && ip
        == "::1"@ by {
        let found = ended.subrange(at, at + 9);
        assert(found[0] == ended[at] && found[1] == ended[at + 1] && found[3] == ended[at + 3]
            && found[4] == ended[at + 4] && found[5] == ended[at + 5] && found[6] == ended[at + 6]
            && found[7] == ended[at + 7] && found[8] == ended[at + 8]);
        assert(addr[at] == ended[at]);
        if at + 4 < addr.len() {
            assert(addr[at + 4] == ended[at + 4]);
        }
        if at == 4 {
            assert(n == 3);
            assert(ended[9] == tcp[1]);
        } else if at == 0 {
            assert(addr[8] == '/');
            assert(ip =~= "::1"@);
        } else if at == 5 + n {
            assert(ended[at + 1] == tcp[1]);
        }
    }
    if kind == "/ip4/"@ && n >= 4 && ip.take(4) == "127."@ {
        assert(ip[0] == ip.take(4)[0] && ip[1] == ip.take(4)[1] && ip[2] == ip.take(4)[2] && ip[3]
            == ip.take(4)[3]);
        assert(addr.subrange(0, 9) =~= four);
        assert(occurs_at(addr, four, 0));
    }
    if kind == "/ip6/"@ && ip == "::1"@ {
        assert(ended.subrange(0, 9) =~= six);
        assert(occurs_at(ended, six, 0));
    }
    assert("/ip4/"@[3] != "/ip6/"@[3]);
}

/// The port of an address is that of its first component that is one of TCP, if any is.
pub proof fn law_first_port(front: Seq<Option<u16>>, port: u16, rest: Seq<Option<u16>>)
    requires
        forall|i: int| 0 <= i < front.len() ==> #[trigger] front[i] is None,
    ensures
        first_port(front) is None,
        first_port(front + seq![Some(port)] + rest) == Some(port),
    decreases front.len(),
{
    let all = front + seq![Some(port)] + rest;
    if front.len() > 0 {
        let less = front.skip(1);
        assert forall|i: int| 0 <= i < less.len() implies #[trigger] less[i] is None by {
            assert(less[i] == front[i + 1]);
        }
        law_first_port(less, port, rest);
        assert(all.skip(1) =~= less + seq![Some(port)] + rest);
        assert(all[0] == front[0]);
    }
}

/// An address is one of the loopback interface wherever it says so, and only if it does.
pub proof fn law_local_only_anywhere(front: Seq<char>, back: Seq<char>)
    ensures
        local_only(front + "/ip4/127."@ + back),
        local_only(front + "/ip6/::1"@),
        local_only(front + "/ip6/::1/"@ + back),
        local_only(front) ==> occurs(front, "/ip4/127."@) || occurs(front, "/ip6/::1"@),
{
    reveal_strlit("/ip6/::1");
    reveal_strlit("/ip6/::1/");
    reveal_strlit("/");
    let four = "/ip4/127."@;
    let six = "/ip6/::1/"@;
    let short = "/ip6/::1"@;
    let n = front.len() as int;
    crate::text::law_occurs(front, four, back);
    let ended = front + short + "/"@;
    assert(ended.subrange(n, n + 9) =~= six);
    assert(occurs_at(ended, six, n));
    let longer = front + six + back + "/"@;
    assert(longer.subrange(n, n + 9) =~= six);
    assert(occurs_at(longer, six, n));
    if occurs(front + "/"@, six) {
        let at = choose|at: int| occurs_at(front + "/"@, six, at);
        let found = (front + "/"@).subrange(at, at + 9);
        assert(front.subrange(at, at + 8) =~= found.take(8));
        assert(found.take(8) =~= short);
        assert(occurs_at(front, short, at));
    }
}

}
