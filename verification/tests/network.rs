use swapbytes::addresses::{
    address_of_peer, extract_port_from_multiaddr, first_address, first_tcp_port, ip4_tcp_address,
    is_local_only, is_loopback, list_barter_addresses, listen_address, peer_in_address,
    server_address, usable_listen_address, AddressedPeer,
};
use swapbytes::chat_room::rendezvous_namespace;
use swapbytes::chat_types::{RendezvousError, RendezvousFailure};
use swapbytes::registration::{
    plan_registration, registration_requested, AddressStep, RegistrationStep,
};
use swapbytes::rendezvous_server::{
    prepare_server, prepare_server_at, RendezvousCliArgs, RendezvousServer, ServerEvent,
    ServerNotice, RENDEZVOUS_PORT,
};
use swapbytes::settings::read_settings;
use swapbytes::table::PeerTable;

const ALICE: &str = "QmcgpsyWgH8Y8ajJz1Cu72KnS5uo2Aa2LpzU7kinSupNKC";
const BOB: &str = "QmYyQSo1c1Ym7orWxLYvCrM2EmxFTANf8wXmmE7DWjhx5N";

fn s(text: &str) -> String {
    text.to_string()
}

#[test]
fn addresses_are_written() {
    assert_eq!(ip4_tcp_address("10.0.0.7", "80"), "/ip4/10.0.0.7/tcp/80");
    assert_eq!(listen_address(&None), "/ip4/0.0.0.0/tcp/0");
    assert_eq!(listen_address(&Some(s("50001"))), "/ip4/0.0.0.0/tcp/50001");
    assert_eq!(address_of_peer("X"), "/p2p/X");
    assert_eq!(server_address("1.2.3.4", 50002, "X"), "/ip4/1.2.3.4/tcp/50002/p2p/X");
}

#[test]
fn a_listen_address_has_to_be_one() {
    assert_eq!(usable_listen_address(&Some(s("+080"))), Ok(s("/ip4/0.0.0.0/tcp/80")));
    assert_eq!(usable_listen_address(&None), Ok(s("/ip4/0.0.0.0/tcp/0")));
    assert!(usable_listen_address(&Some(s("http"))).is_err());
    assert!(usable_listen_address(&Some(s("65536"))).is_err());
}

#[test]
fn the_first_tcp_port_is_found() {
    assert_eq!(extract_port_from_multiaddr("/ip4/1.2.3.4/tcp/4001"), Some(4001));
    assert_eq!(extract_port_from_multiaddr("/ip4/1.2.3.4/udp/1/quic-v1"), None);
    assert_eq!(extract_port_from_multiaddr("/ip4/1.2.3.4/udp/1/tcp/2/tcp/3"), Some(2));
    assert_eq!(extract_port_from_multiaddr("no address"), None);
    assert_eq!(extract_port_from_multiaddr(""), None);
    assert_eq!(first_tcp_port(&vec![None, Some(5), Some(6)]), Some(5));
    assert_eq!(first_tcp_port(&vec![None]), None);
}

#[test]
fn loopback_addresses_are_known() {
    assert!(is_loopback("127.0.0.1"));
    assert!(is_loopback("127.255.0.3"));
    assert!(is_loopback("::1"));
    assert!(!is_loopback("10.0.0.127"));
    assert!(!is_loopback("::2"));
}

#[test]
fn barter_addresses_end_with_this_machine() {
    assert_eq!(
        list_barter_addresses(&Some(s("10.0.0.7")), 50001),
        vec!["/ip4/10.0.0.7/tcp/50001", "/ip4/127.0.0.1/tcp/50001"]
    );
    assert_eq!(list_barter_addresses(&None, 7), vec!["/ip4/127.0.0.1/tcp/7"]);
    for port in [0, 7, 50001, 65535] {
        for addr in list_barter_addresses(&Some(s("192.0.255.1")), port) {
            assert_eq!(extract_port_from_multiaddr(&addr), Some(port));
        }
    }
}

#[test]
fn an_address_names_its_last_peer() {
    assert_eq!(
        peer_in_address(&server_address("1.2.3.4", 50002, ALICE)),
        AddressedPeer::Peer(s(ALICE))
    );
    assert_eq!(
        peer_in_address(&format!("/p2p/{}/p2p-circuit/p2p/{}", ALICE, BOB)),
        AddressedPeer::Peer(s(BOB))
    );
    assert_eq!(peer_in_address("/ip4/1.2.3.4/tcp/1"), AddressedPeer::Unnamed);
    assert!(matches!(peer_in_address("/ip4/1.2.3.4/p2p/Example"), AddressedPeer::Malformed(_)));
}

fn base58(bytes: &[u8]) -> String {
    let alphabet = b"123456789ABCDEFGHJKLMNPQRSTUVWXYZabcdefghijkmnopqrstuvwxyz";
    let mut digits: Vec<u8> = vec![];
    for byte in bytes {
        let mut carry = *byte as u32;
        for digit in digits.iter_mut() {
            carry += (*digit as u32) << 8;
            *digit = (carry % 58) as u8;
            carry /= 58;
        }
        while carry > 0 {
            digits.push((carry % 58) as u8);
            carry /= 58;
        }
    }
    digits.iter().rev().map(|digit| alphabet[*digit as usize] as char).collect()
}

#[test]
fn an_id_is_written_in_one_way() {
    let digest = [7u8; 32];
    let mut short = vec![0x12u8, 32];
    short.extend(digest);
    let mut long = vec![0x92u8];
    long.extend([0x80u8; 8]);
    long.extend([2u8, 32]);
    long.extend(digest);
    for bytes in [&short, &long] {
        assert_eq!(
            peer_in_address(&address_of_peer(&base58(bytes))),
            AddressedPeer::Peer(base58(&short))
        );
    }
    let other = vec![0x11u8, 1, 7];
    assert_eq!(
        peer_in_address(&address_of_peer(&base58(&other))),
        AddressedPeer::Malformed(s("unsupported multihash code '17'"))
    );
}

#[test]
fn the_first_of_several_addresses() {
    assert_eq!(first_address("/ip4/1.2.3.4/tcp/1,/ip4/127.0.0.1/tcp/1"), "/ip4/1.2.3.4/tcp/1");
    assert_eq!(first_address("/ip4/1.2.3.4/tcp/1"), "/ip4/1.2.3.4/tcp/1");
    assert_eq!(first_address(""), "");
}

#[test]
fn the_namespace_is_taken() {
    assert_eq!(rendezvous_namespace(), Ok(s("p2p-file-barter")));
}

#[test]
fn a_table_holds_one_value_per_peer() {
    let mut table: PeerTable<String> = PeerTable::new();
    table.insert(s("a"), s("1"));
    table.insert(s("b"), s("2"));
    table.insert(s("a"), s("3"));
    assert_eq!(table.len(), 2);
    assert_eq!(table.get("a"), Some(&s("3")));
    assert_eq!((table.peer(0), table.value(0)), (&s("a"), &s("3")));
    assert!(table.contains("b"));
    assert_eq!(table.remove("b"), Some(s("2")));
    assert_eq!(table.remove("b"), None);
    assert!(!table.contains("b"));
    assert_eq!(table.pop(), Some((s("a"), s("3"))));
    assert_eq!(table.pop(), None);
}

#[test]
fn registration_adds_reachable_addresses() {
    let listeners = vec![s("/ip4/127.0.0.1/tcp/4001"), s("/ip4/10.0.0.7/tcp/4001")];
    let (steps, going) = plan_registration(&Some(s(ALICE)), &listeners, &Some(s("10.0.0.9")));
    assert_eq!(
        steps,
        vec![
            AddressStep::Clear,
            AddressStep::SkipLocal(s("/ip4/127.0.0.1/tcp/4001")),
            AddressStep::AddListener(s("/ip4/10.0.0.7/tcp/4001")),
            AddressStep::FoundLocalIp(s("10.0.0.9")),
            AddressStep::AddExternal(s("/ip4/10.0.0.9/tcp/4001")),
            AddressStep::AddExternal(s("/ip4/10.0.0.9/tcp/4001")),
        ]
    );
    assert!(going.is_ok());
}

#[test]
fn loopback_addresses_are_not_registered() {
    let here = ["/ip4/127.0.0.1/tcp/1", "/ip4/127.0.0.2/tcp/1", "/ip6/::1/tcp/1", "/ip6/::1"];
    for address in here {
        assert!(is_local_only(address), "{}", address);
        let listeners = vec![s(address), s("/ip4/10.0.0.7/tcp/1")];
        let (steps, _) = plan_registration(&Some(s(ALICE)), &listeners, &None);
        assert_eq!(steps[1], AddressStep::SkipLocal(s(address)));
        assert_eq!(steps[2], AddressStep::AddListener(s("/ip4/10.0.0.7/tcp/1")));
    }
    for address in ["/ip4/12.7.0.1/tcp/1", "/ip6/::1234/tcp/1", "/ip6/fe80::1/tcp/1"] {
        assert!(!is_local_only(address), "{}", address);
    }
}

#[test]
fn registration_may_be_impossible() {
    let here = vec![s("/ip4/127.0.0.1/tcp/4001")];
    let (steps, going) = plan_registration(&None, &here, &None);
    assert_eq!((steps, going), (vec![], Err(RendezvousFailure::NoServer)));
    let (steps, going) = plan_registration(&Some(s(ALICE)), &vec![], &None);
    assert_eq!((steps, going), (vec![], Err(RendezvousFailure::NoListeners)));
    let (steps, going) = plan_registration(&Some(s(ALICE)), &here, &None);
    assert_eq!(
        steps,
        vec![
            AddressStep::Clear,
            AddressStep::SkipLocal(s("/ip4/127.0.0.1/tcp/4001")),
            AddressStep::NoLocalIp
        ]
    );
    assert_eq!(going, Err(RendezvousFailure::NoExternalAddresses));
    let (_, going) = plan_registration(&Some(s(ALICE)), &here, &Some(s("127.0.1.1")));
    assert_eq!(going, Err(RendezvousFailure::NoExternalAddresses));
    let (steps, going) = plan_registration(&Some(s(ALICE)), &here, &Some(s("fe80::1")));
    assert_eq!(steps.len(), 3);
    assert!(matches!(going, Err(RendezvousFailure::BadAddress(_))));
}

#[test]
fn a_connected_server_is_asked_at_once() {
    let listeners = vec![s("/ip4/10.0.0.7/tcp/4001")];
    let mut going = plan_registration(&Some(s(ALICE)), &listeners, &None).1.unwrap();
    let request =
        RegistrationStep::Request {
            server: s(ALICE),
            namespace: s("p2p-file-barter"),
            ttl: 7200,
        };
    assert_eq!(
        going.connection_checked(&vec![s(BOB), s(ALICE)]),
        vec![RegistrationStep::AlreadyConnected, request]
    );
    assert_eq!(going.connection_checked(&vec![s(ALICE)]), vec![]);
}

#[test]
fn a_server_is_dialled_and_then_asked_anyway() {
    let listeners = vec![s("/ip4/10.0.0.7/tcp/4001")];
    for there in [false, true] {
        let mut going = plan_registration(&Some(s(ALICE)), &listeners, &None).1.unwrap();
        assert_eq!(
            going.connection_checked(&vec![s(BOB)]),
            vec![
                RegistrationStep::Connecting,
                RegistrationStep::Dial(format!("/p2p/{}", ALICE)),
                RegistrationStep::Wait(2000)
            ]
        );
        let request =
            RegistrationStep::Request {
            server: s(ALICE),
            namespace: s("p2p-file-barter"),
            ttl: 7200,
        };
        let connected = if there { vec![s(ALICE)] } else { vec![] };
        let told = if there {
            RegistrationStep::NowConnected
        } else {
            RegistrationStep::NotYetConnected
        };
        assert_eq!(going.connection_checked(&connected), vec![told, request]);
        assert_eq!(going.connection_checked(&connected), vec![]);
    }
}

#[test]
fn a_refused_request_is_reported() {
    assert_eq!(registration_requested(None), (Ok(()), false));
    assert_eq!(
        registration_requested(Some(s("there are no external addresses"))),
        (Err(RendezvousFailure::Refused(s("there are no external addresses"))), true)
    );
    assert_eq!(
        registration_requested(Some(s("signing"))),
        (Err(RendezvousFailure::Refused(s("signing"))), false)
    );
}

fn registered(server: &mut RendezvousServer, peer: &str, namespace: &str) -> ServerNotice<String> {
    server.handle_event(ServerEvent::Registered {
        peer: s(peer),
        namespace: s(namespace),
        ttl: 7200,
        addrs: vec![s("/ip4/1.2.3.4"), s("/ip4/5.6.7.8")],
    })
}

#[test]
fn the_server_lists_registered_peers() {
    let mut server = RendezvousServer::new();
    assert_eq!(
        server.handle_line("list"),
        (
            vec![
                ServerNotice::ListHeading,
                ServerNotice::NobodyRegistered,
                ServerNotice::ListEnd
            ],
            true
        )
    );
    assert_eq!(
        registered(&mut server, ALICE, "n"),
        ServerNotice::Registered {
            peer: s(ALICE),
            namespace: s("n"),
            ttl: 7200,
            addrs: s("/ip4/1.2.3.4, /ip4/5.6.7.8")
        }
    );
    registered(&mut server, BOB, "n");
    registered(&mut server, ALICE, "m");
    assert_eq!(
        server.handle_line("  list "),
        (
            vec![
                ServerNotice::ListHeading,
                ServerNotice::RegisteredRow { number: 1, peer: s(ALICE), namespace: s("m") },
                ServerNotice::RegisteredRow { number: 2, peer: s(BOB), namespace: s("n") },
                ServerNotice::ListEnd
            ],
            true
        )
    );
}

#[test]
fn the_server_forgets_peers() {
    let leaving = vec![
        ServerEvent::Unregistered { peer: s(ALICE), namespace: s("n") },
        ServerEvent::Closed { peer: s(ALICE), cause: s("None") },
        ServerEvent::Expired { peer: s(ALICE), namespace: s("n") },
    ];
    for event in leaving {
        let mut server = RendezvousServer::new();
        registered(&mut server, ALICE, "n");
        registered(&mut server, BOB, "n");
        server.handle_event(event);
        assert_eq!(
            server.handle_line("list").0[1],
            ServerNotice::RegisteredRow { number: 1, peer: s(BOB), namespace: s("n") }
        );
    }
}

#[test]
fn the_server_reports_what_changes_nothing() {
    let mut server = RendezvousServer::new();
    registered(&mut server, ALICE, "n");
    let before = server.handle_line("list");
    assert_eq!(
        server.handle_event(ServerEvent::NotRegistered {
            peer: s(BOB),
            namespace: s("n"),
            error: RendezvousError::InvalidTtl
        }),
        ServerNotice::NotRegistered {
            peer: s(BOB),
            namespace: s("n"),
            error: RendezvousError::InvalidTtl
        }
    );
    assert_eq!(
        server.handle_event(ServerEvent::Identified {
            peer: s(BOB),
            protocol_version: s("1"),
            agent_version: s("2"),
            protocols: vec![s("a"), s("b")]
        }),
        ServerNotice::Identified {
            peer: s(BOB),
            protocol_version: s("1"),
            agent_version: s("2"),
            protocols: s("a, b")
        }
    );
    assert_eq!(
        server.handle_event(ServerEvent::DiscoverServed { peer: s(BOB), count: 3 }),
        ServerNotice::DiscoverServed { peer: s(BOB), count: 3 }
    );
    assert_eq!(
        server.handle_event(ServerEvent::DiscoverNotServed {
            peer: s(BOB),
            error: RendezvousError::Unavailable
        }),
        ServerNotice::DiscoverNotServed { peer: s(BOB), error: RendezvousError::Unavailable }
    );
    server.handle_event(ServerEvent::Listening { address: s("/ip4/0.0.0.0/tcp/1") });
    server.handle_event(ServerEvent::Connected { peer: s(BOB), endpoint: s("x") });
    assert_eq!(server.handle_line("list"), before);
}

#[test]
fn the_server_is_quit() {
    let server = RendezvousServer::new();
    assert_eq!(server.handle_line(" quit\t"), (vec![ServerNotice::ShuttingDown], false));
    assert_eq!(server.handle_line("Quit"), (vec![ServerNotice::UnknownCommand], true));
}

#[test]
fn a_client_finds_the_server_in_the_settings() {
    let args = RendezvousCliArgs { port: None, server: true, rendezvous_server: None };
    let start = prepare_server_at(&args, ALICE, &Some(s("10.0.0.7"))).unwrap();
    assert_eq!(start.port, RENDEZVOUS_PORT);
    assert_eq!(start.listen, "/ip4/0.0.0.0/tcp/50002");
    assert_eq!(start.address, format!("/ip4/10.0.0.7/tcp/50002/p2p/{}", ALICE));
    let address = read_settings(&start.settings).unwrap();
    assert_eq!(address, start.address);
    assert_eq!(peer_in_address(&address), AddressedPeer::Peer(s(ALICE)));
}

#[test]
fn a_server_may_have_another_port() {
    let args = RendezvousCliArgs { port: Some(7), server: true, rendezvous_server: None };
    let start = prepare_server_at(&args, ALICE, &None).unwrap();
    assert_eq!(start.port, 7);
    assert_eq!(start.listen, "/ip4/0.0.0.0/tcp/7");
    assert_eq!(start.address, format!("/ip4/127.0.0.1/tcp/7/p2p/{}", ALICE));
    let found = prepare_server(&args, ALICE).unwrap();
    assert!(found.address.ends_with(&format!("/tcp/7/p2p/{}", ALICE)));
}
