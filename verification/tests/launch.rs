use swapbytes::chat_room::ChatCliArgs;
use swapbytes::launch::{after_chat, plan_launch, AfterChat, Cli, Launch, LaunchError};
use swapbytes::messages::ChatRoomExit;
use swapbytes::rendezvous_server::RendezvousCliArgs;
use swapbytes::settings::write_settings;

const SERVER: &str = "QmaCpDMGvV2BGHeYERUEnRQAwe3N8SzbUtfsmvsqQLuvuJ";

fn s(text: &str) -> String {
    text.to_string()
}

fn cli() -> Cli {
    Cli {
        port: None,
        peer: None,
        username: None,
        rendezvous_server: None,
        run_rendezvous_server: false,
        run_discovery_server: false,
    }
}

fn server_with(port: Option<u16>) -> Result<Launch, LaunchError<String>> {
    Ok(Launch::Server(RendezvousCliArgs { port, server: true, rendezvous_server: None }))
}

#[test]
fn a_client_is_anonymous_by_default() {
    assert_eq!(
        plan_launch(cli(), None),
        Ok(Launch::Client {
            username: s("Anonymous"),
            args: ChatCliArgs {
                port: None,
                peer: None,
                rendezvous_server: None,
                username: Some(s("Anonymous"))
            }
        })
    );
}

#[test]
fn addresses_are_taken_as_the_network_writes_them() {
    let told = Cli {
        port: Some(s("4001")),
        peer: Some(s("/ip4/1.2.3.4/tcp/0080")),
        username: Some(s("Alice")),
        rendezvous_server: Some(format!("/ip4/1.2.3.4/tcp/50002/ipfs/{}", SERVER)),
        ..cli()
    };
    assert_eq!(
        plan_launch(told, Some(write_settings("no address"))),
        Ok(Launch::Client {
            username: s("Alice"),
            args: ChatCliArgs {
                port: Some(s("4001")),
                peer: Some(s("/ip4/1.2.3.4/tcp/80")),
                rendezvous_server: Some(format!("/ip4/1.2.3.4/tcp/50002/p2p/{}", SERVER)),
                username: Some(s("Alice"))
            }
        })
    );
}

#[test]
fn the_settings_name_the_server() {
    let address = format!("/ip4/1.2.3.4/tcp/50002/p2p/{}", SERVER);
    match plan_launch(cli(), Some(write_settings(&address))) {
        Ok(Launch::Client { args, .. }) => assert_eq!(args.rendezvous_server, Some(address)),
        other => panic!("{:?}", other),
    }
    assert!(matches!(
        plan_launch(cli(), Some(write_settings("no address"))),
        Err(LaunchError::BadServer(_))
    ));
}

#[test]
fn bad_addresses_are_refused() {
    let bad_peer = Cli { peer: Some(s("Bob")), rendezvous_server: Some(s("x")), ..cli() };
    assert!(matches!(plan_launch(bad_peer, None), Err(LaunchError::BadPeer(_))));
    let bad_server =
        Cli { rendezvous_server: Some(s("x")), run_rendezvous_server: true, ..cli() };
    assert!(matches!(plan_launch(bad_server, None), Err(LaunchError::BadServer(_))));
}

#[test]
fn a_server_is_launched() {
    assert_eq!(plan_launch(Cli { run_rendezvous_server: true, ..cli() }, None), server_with(None));
    assert_eq!(plan_launch(Cli { run_discovery_server: true, ..cli() }, None), server_with(None));
    let with_port = |port: &str| Cli { run_rendezvous_server: true, port: Some(s(port)), ..cli() };
    assert_eq!(plan_launch(with_port("7"), None), server_with(Some(7)));
    assert_eq!(plan_launch(with_port("65536"), None), server_with(Some(50002)));
    assert_eq!(plan_launch(with_port("http"), None), server_with(Some(50002)));
}

#[test]
fn the_room_is_followed_by_a_session() {
    let port = Some(s("4001"));
    assert_eq!(after_chat(ChatRoomExit::Quit, &port), Ok(AfterChat::Goodbye));
    let accepted = |addr: Option<&str>| ChatRoomExit::AcceptBarter {
        peer_id: s("bob"),
        addr: addr.map(|a| a.to_string()),
    };
    let session = |peer: Option<&str>| {
        Ok(AfterChat::Barter { port: Some(s("4001")), peer: peer.map(|p| p.to_string()) })
    };
    assert_eq!(
        after_chat(accepted(Some("/ip4/10.0.0.7/tcp/50001,/ip4/127.0.0.1/tcp/50001")), &port),
        session(Some("/ip4/10.0.0.7/tcp/50001"))
    );
    assert_eq!(
        after_chat(accepted(Some("/ip4/127.0.0.1/tcp/050001")), &port),
        session(Some("/ip4/127.0.0.1/tcp/50001"))
    );
    assert_eq!(after_chat(accepted(None), &port), session(None));
    assert!(after_chat(accepted(Some("nowhere,/ip4/1.2.3.4")), &port).is_err());
    assert_eq!(
        after_chat(
            ChatRoomExit::AcceptBarterAsAcceptor { peer_id: s("bob"), peer_name: s("Bob") },
            &port
        ),
        Ok(AfterChat::Barter { port: Some(s("50001")), peer: None })
    );
}
