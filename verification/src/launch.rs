//! How the program starts, and where it goes from the chat room.

use crate::addresses::first_address;
use crate::chat_room::{new_room, ChatCliArgs, ChatCliArgsView, BARTER_PORT};
use crate::foreign::{parse_multiaddr, parsed_multiaddr, parsed_peer_id};
use crate::messages::{ChatRoomExit, ChatRoomExitView};
use crate::rendezvous_server::{
    found_at, law_client_finds_server, RendezvousCliArgs, RendezvousCliArgsView, RENDEZVOUS_PORT,
};
use crate::settings::{choose_server, server_for, settings_for};
use crate::text::{
    before_first, decimal, decimal_text, optional_text, parse_port, port_of, white_space,
};
use vstd::prelude::*;

verus! {

/// The command line.
#[derive(Debug, PartialEq, Eq)]
pub struct Cli {
    pub port: Option<String>,
    pub peer: Option<String>,
    pub username: Option<String>,
    pub rendezvous_server: Option<String>,
    pub run_rendezvous_server: bool,
    pub run_discovery_server: bool,
}

/// The content of a [`Cli`].
pub struct CliView {
    pub port: Option<Seq<char>>,
    pub peer: Option<Seq<char>>,
    pub username: Option<Seq<char>>,
    pub rendezvous_server: Option<Seq<char>>,
    pub run_rendezvous_server: bool,
    pub run_discovery_server: bool,
}

impl View for Cli {
    type V = CliView;

    open spec fn view(&self) -> CliView {
        CliView {
            port: optional_text(self.port),
            peer: optional_text(self.peer),
            username: optional_text(self.username),
            rendezvous_server: optional_text(self.rendezvous_server),
            run_rendezvous_server: self.run_rendezvous_server,
            run_discovery_server: self.run_discovery_server,
        }
    }
}

/// What the program runs as.
#[derive(Debug, PartialEq, Eq)]
pub enum Launch {
    Server(RendezvousCliArgs),
    Client { username: String, args: ChatCliArgs },
}

/// The content of a [`Launch`].
pub enum LaunchView {
    Server(RendezvousCliArgsView),
    Client { username: Seq<char>, args: ChatCliArgsView },
}

impl View for Launch {
    type V = LaunchView;

    open spec fn view(&self) -> LaunchView {
        match *self {
            Launch::Server(args) => LaunchView::Server(args@),
            Launch::Client { username, args } => LaunchView::Client {
                username: username@,
                args: args@,
            },
        }
    }
}

/// Why the program does not start.
#[derive(Debug, PartialEq, Eq)]
pub enum LaunchError<S> {
    /// The peer to connect to is no address, for this reason.
    BadPeer(S),
    /// The rendezvous server is no address, for this reason.
    BadServer(S),
}

impl View for LaunchError<String> {
    type V = LaunchError<Seq<char>>;

    open spec fn view(&self) -> LaunchError<Seq<char>> {
        match *self {
            LaunchError::BadPeer(reason) => LaunchError::BadPeer(reason@),
            LaunchError::BadServer(reason) => LaunchError::BadServer(reason@),
        }
    }
}

/// An address that may be absent, as the network takes it, or why it is none.
pub open spec fn optional_address(text: Option<Seq<char>>) -> Result<Option<Seq<char>>, Seq<char>> {
    match text {
        None => Ok(None),
        Some(t) => match parsed_multiaddr(t) {
            Ok(address) => Ok(Some(address)),
            Err(reason) => Err(reason),
        },
    }
}

fn read_address(text: &Option<String>) -> (r: Result<Option<String>, String>)
    ensures
        match (r, optional_address(optional_text(*text))) {
            (Ok(address), Ok(expected)) => optional_text(address) == expected,
            (Err(reason), Err(expected)) => reason@ == expected,
            _ => false,
        },
{
    match text {
        None => Ok(None),
        Some(t) => match parse_multiaddr(t.as_str()) {
            Ok(address) => Ok(Some(address)),
            Err(reason) => Err(reason),
        },
    }
}

/// What a command line starts, given the contents of the settings file, if there is one. The
/// addresses on the command line have to be such in any case; the settings file only counts for
/// a client that was told no server.
pub open spec fn launched(cli: CliView, settings: Option<Seq<char>>) -> Result<
    LaunchView,
    LaunchError<Seq<char>>,
> {
    match (optional_address(cli.peer), optional_address(cli.rendezvous_server)) {
        (Err(reason), _) => Err(LaunchError::BadPeer(reason)),
        (_, Err(reason)) => Err(LaunchError::BadServer(reason)),
        (Ok(peer), Ok(_)) => if cli.run_rendezvous_server || cli.run_discovery_server {
            Ok(
                LaunchView::Server(
                    RendezvousCliArgsView {
                        port: match cli.port {
                            None => None,
                            Some(text) => match port_of(text) {
                                Some(port) => Some(port),
                                None => Some(RENDEZVOUS_PORT),
                            },
                        },
                        server: true,
                        rendezvous_server: None,
                    },
                ),
            )
        } else {
            match optional_address(server_for(cli.rendezvous_server, settings)) {
                Err(reason) => Err(LaunchError::BadServer(reason)),
                Ok(rendezvous_server) => {
                    let username = match cli.username {
                        Some(name) => name,
                        None => "Anonymous"@,
                    };
                    Ok(
                        LaunchView::Client {
                            username,
                            args: ChatCliArgsView {
                                port: cli.port,
                                peer,
                                rendezvous_server,
                                username: Some(username),
                            },
                        },
                    )
                },
            }
        },
    }
}

/// Decides what a command line starts, given the contents of the settings file, if there is one.
pub fn plan_launch(cli: Cli, settings: Option<String>) -> (r: Result<Launch, LaunchError<String>>)
    ensures
        match (r, launched(cli@, optional_text(settings))) {
            (Ok(launch), Ok(expected)) => launch@ == expected,
            (Err(error), Err(expected)) => error@ == expected,
            _ => false,
        },
{
    let peer = match read_address(&cli.peer) {
        Ok(peer) => peer,
        Err(reason) => {
            return Err(LaunchError::BadPeer(reason));
        },
    };
    if let Err(reason) = read_address(&cli.rendezvous_server) {
        return Err(LaunchError::BadServer(reason));
    }
    if cli.run_rendezvous_server || cli.run_discovery_server {
        let port: Option<u16> = match &cli.port {
            None => None,
            Some(text) => match parse_port(text.as_str()) {
                Some(port) => Some(port),
                None => Some(RENDEZVOUS_PORT),
            },
        };
        let args = RendezvousCliArgs { port, server: true, rendezvous_server: None };
        return Ok(Launch::Server(args));
    }
    let server = choose_server(cli.rendezvous_server, settings);
    match read_address(&server) {
        Err(reason) => Err(LaunchError::BadServer(reason)),
        Ok(rendezvous_server) => {
            let username = match cli.username {
                Some(name) => name,
                None => "Anonymous".to_owned(),
            };
            let args = ChatCliArgs {
                port: cli.port,
                peer,
                rendezvous_server,
                username: Some(username.clone()),
            };
            Ok(Launch::Client { username, args })
        },
    }
}

/// A client that is told no server, but has the settings file that a server wrote, goes to the
/// chat room with that server as its own, provided that the network writes the server's address
/// as the server does.
pub proof fn law_client_joins_server<C>(
    cli: CliView,
    port: u16,
    peer: Seq<char>,
    ip: Option<Seq<char>>,
    local: Seq<char>,
    now: u64,
)
    requires
        cli.rendezvous_server is None,
        !cli.run_rendezvous_server,
        !cli.run_discovery_server,
        optional_address(cli.peer) is Ok,
        parsed_peer_id(peer) == Ok::<Seq<char>, Seq<char>>(peer),
        parsed_multiaddr(found_at(port, peer, ip)) == Ok::<Seq<char>, Seq<char>>(
            found_at(port, peer, ip),
        ),
        peer.len() > 0,
        forall|i: int| 0 <= i < peer.len() ==> peer[i] != '/' && !white_space(peer[i]),
        ip matches Some(address) ==> !address.contains('\n'),
    ensures
        ({
            let settings = settings_for(found_at(port, peer, ip));
            &&& launched(cli, Some(settings)) matches Ok(LaunchView::Client { username, args })
            &&& new_room::<C>(username, args, local, now).server == Some(peer)
        }),
{
    law_client_finds_server(port, peer, ip);
}

/// What follows the chat room.
#[derive(Debug, PartialEq, Eq)]
pub enum AfterChat {
    /// The program ends.
    Goodbye,
    /// A barter session: the port to listen on, and the address of the other side, if it is to
    /// be dialled.
    Barter { port: Option<String>, peer: Option<String> },
}

/// The content of an [`AfterChat`].
pub enum AfterChatView {
    Goodbye,
    Barter { port: Option<Seq<char>>, peer: Option<Seq<char>> },
}

impl View for AfterChat {
    type V = AfterChatView;

    open spec fn view(&self) -> AfterChatView {
        match *self {
            AfterChat::Goodbye => AfterChatView::Goodbye,
            AfterChat::Barter { port, peer } => AfterChatView::Barter {
                port: optional_text(port),
                peer: optional_text(peer),
            },
        }
    }
}

/// What follows the chat room: whoever asked for a barter dials the first address of the one who
/// accepted, who listens on the barter port. The error is why that address is none.
pub open spec fn followed_by(exit: ChatRoomExitView, port: Option<Seq<char>>) -> Result<
    AfterChatView,
    Seq<char>,
> {
    match exit {
        ChatRoomExitView::Quit => Ok(AfterChatView::Goodbye),
        ChatRoomExitView::AcceptBarter { peer_id, addr } => {
            let first = match addr {
                Some(list) => Some(before_first(list, ',')),
                None => None,
            };
            match optional_address(first) {
                Ok(peer) => Ok(AfterChatView::Barter { port, peer }),
                Err(reason) => Err(reason),
            }
        },
        ChatRoomExitView::AcceptBarterAsAcceptor { peer_id, peer_name } => Ok(
            AfterChatView::Barter { port: Some(decimal(BARTER_PORT as nat)), peer: None },
        ),
    }
}

/// Decides what follows the chat room.
pub fn after_chat(exit: ChatRoomExit, port: &Option<String>) -> (r: Result<AfterChat, String>)
    ensures
        match (r, followed_by(exit@, optional_text(*port))) {
            (Ok(next), Ok(expected)) => next@ == expected,
            (Err(reason), Err(expected)) => reason@ == expected,
            _ => false,
        },
{
    match exit {
        ChatRoomExit::Quit => Ok(AfterChat::Goodbye),
        ChatRoomExit::AcceptBarter { peer_id: _, addr } => {
            let first = match addr {
                Some(list) => Some(first_address(list.as_str())),
                None => None,
            };
            match read_address(&first) {
                Ok(peer) => Ok(AfterChat::Barter { port: port.clone(), peer }),
                Err(reason) => Err(reason),
            }
        },
        ChatRoomExit::AcceptBarterAsAcceptor { peer_id: _, peer_name: _ } => Ok(
            AfterChat::Barter { port: Some(decimal_text(BARTER_PORT as u64)), peer: None },
        ),
    }
}

/// An address on the command line that is none keeps the program from starting, whatever it would
/// have run as; of two the one of the peer is named.
pub proof fn law_addresses_have_to_be_such(cli: CliView, settings: Option<Seq<char>>)
    ensures
        cli.peer matches Some(text) ==> (parsed_multiaddr(text) matches Err(reason) ==> launched(
            cli,
            settings,
        ) == Err::<LaunchView, LaunchError<Seq<char>>>(LaunchError::BadPeer(reason))),
        (cli.peer matches Some(text) ==> parsed_multiaddr(text) is Ok) ==> (
        cli.rendezvous_server matches Some(text) ==> (parsed_multiaddr(text) matches Err(reason)
            ==> launched(cli, settings) == Err::<LaunchView, LaunchError<Seq<char>>>(
            LaunchError::BadServer(reason),
        ))),
{
}

/// Whether the addresses on a command line are such.
pub open spec fn addressed_well(cli: CliView) -> bool {
    &&& cli.peer matches Some(text) ==> parsed_multiaddr(text) is Ok
    &&& cli.rendezvous_server matches Some(text) ==> parsed_multiaddr(text) is Ok
}

/// A program that is told to run a rendezvous server, by either name, does so, on the port that it
/// was given, on the usual one if what was given is no port, and on the one that the server chooses
/// if none was given.
pub proof fn law_server_is_launched(cli: CliView, settings: Option<Seq<char>>)
    requires
        addressed_well(cli),
        cli.run_rendezvous_server || cli.run_discovery_server,
    ensures
        launched(cli, settings) matches Ok(LaunchView::Server(args)) && args.server
            && args.rendezvous_server is None && match cli.port {
            None => args.port is None,
            Some(text) => args.port == Some(
                match port_of(text) {
                    Some(port) => port,
                    None => 50002u16,
                },
            ),
        },
{
}

/// Any other program goes to the chat room: under the name that it was given, or as Anonymous; on
/// the port and to the peer that it was given; and with the rendezvous server that it was told, or
/// that the settings file gives. If that is no address, it does not start.
pub proof fn law_client_is_launched(cli: CliView, settings: Option<Seq<char>>)
    requires
        addressed_well(cli),
        !cli.run_rendezvous_server,
        !cli.run_discovery_server,
    ensures
        ({
            let name = match cli.username {
                Some(name) => name,
                None => "Anonymous"@,
            };
            let server = match server_for(cli.rendezvous_server, settings) {
                Some(text) => Some(parsed_multiaddr(text)),
                None => None,
            };
            match server {
                Some(Err(reason)) => launched(cli, settings) == Err::<
                    LaunchView,
                    LaunchError<Seq<char>>,
                >(LaunchError::BadServer(reason)),
                _ => {
                    &&& launched(cli, settings) matches Ok(LaunchView::Client { username, args })
                    &&& username == name && args.username == Some(name)
                    &&& args.port == cli.port
                    &&& args.peer == (match cli.peer {
                        Some(text) => Some(parsed_multiaddr(text)->Ok_0),
                        None => None,
                    })
                    &&& args.rendezvous_server == (match server {
                        Some(address) => Some(address->Ok_0),
                        None => None,
                    })
                },
            }
        }),
{
}

/// What follows the room. After `/quit` the program ends. Whoever asked for a barter dials the
/// first of the addresses that it was given, and listens on its own port; whoever accepted listens
/// on the barter port and dials nobody.
pub proof fn law_what_follows_the_room(
    peer_id: Seq<char>,
    peer_name: Seq<char>,
    first: Seq<char>,
    rest: Seq<char>,
    port: Option<Seq<char>>,
)
    requires
        !first.contains(','),
    ensures
        followed_by(ChatRoomExitView::Quit, port) == Ok::<AfterChatView, Seq<char>>(
            AfterChatView::Goodbye,
        ),
        followed_by(ChatRoomExitView::AcceptBarter { peer_id, addr: None }, port) == Ok::<
            AfterChatView,
            Seq<char>,
        >(AfterChatView::Barter { port, peer: None }),
        ({
            let one = ChatRoomExitView::AcceptBarter { peer_id, addr: Some(first) };
            let more = ChatRoomExitView::AcceptBarter {
                peer_id,
                addr: Some(first + seq![','] + rest),
            };
            let dialling = match parsed_multiaddr(first) {
                Ok(address) => Ok::<AfterChatView, Seq<char>>(
                    AfterChatView::Barter { port, peer: Some(address) },
                ),
                Err(reason) => Err(reason),
            };
            followed_by(one, port) == dialling && followed_by(more, port) == dialling
        }),
        followed_by(ChatRoomExitView::AcceptBarterAsAcceptor { peer_id, peer_name }, port) == Ok::<
            AfterChatView,
            Seq<char>,
        >(AfterChatView::Barter { port: Some("50001"@), peer: None }),
{
    crate::text::lemma_unseparated(first, ',');
    crate::text::lemma_separated(first, ',', rest);
    reveal_strlit("50001");
    reveal_with_fuel(decimal, 6);
    assert(decimal(50001) =~= "50001"@);
}

}
