//! Registration with the rendezvous server: at which addresses others can reach this side, and
//! when the request is made.

use crate::addresses::{
    address_of_peer, extract_port_from_multiaddr, ip4_tcp, ip4_tcp_address, is_local_only,
    is_loopback, local_only, loopback, peer_address, port_in,
};
use crate::chat_room::{namespace, rendezvous_namespace};
use crate::chat_types::RendezvousFailure;
use crate::foreign::{parse_multiaddr, parsed_multiaddr};
use crate::plan::contents;
use crate::text::{contains, decimal, decimal_text, occurs, optional_text, same_text, texts};
use vstd::prelude::*;

verus! {

broadcast use {crate::plan::lemma_contents_add, crate::plan::lemma_contents_push};

/// How long a dialled rendezvous server is waited for.
pub const CONNECTING_MILLIS: u64 = 2000;

/// How long a registration is asked for, in seconds: 2 hours.
pub const REGISTRATION_TTL: u64 = 7200;

/// What is done to settle at which addresses others can reach this side.
#[derive(Debug, PartialEq, Eq)]
pub enum AddressStep<S> {
    /// Forget all external addresses.
    Clear,
    /// Add an address that is being listened on.
    AddListener(S),
    /// Tell the user that an address is left out because only this machine can reach it.
    SkipLocal(S),
    /// Tell the user that this is the local IP address.
    FoundLocalIp(S),
    /// Tell the user that there is no local IP address.
    NoLocalIp,
    /// Add an address that is made of the local IP address and a port that is being listened on.
    AddExternal(S),
}

impl View for AddressStep<String> {
    type V = AddressStep<Seq<char>>;

    open spec fn view(&self) -> AddressStep<Seq<char>> {
        match *self {
            AddressStep::Clear => AddressStep::Clear,
            AddressStep::AddListener(addr) => AddressStep::AddListener(addr@),
            AddressStep::SkipLocal(addr) => AddressStep::SkipLocal(addr@),
            AddressStep::FoundLocalIp(ip) => AddressStep::FoundLocalIp(ip@),
            AddressStep::NoLocalIp => AddressStep::NoLocalIp,
            AddressStep::AddExternal(addr) => AddressStep::AddExternal(addr@),
        }
    }
}

/// Whether a step adds an external address.
pub open spec fn adds(step: AddressStep<Seq<char>>) -> bool {
    step is AddListener || step is AddExternal
}

/// What an address that is being listened on contributes: itself, unless only this machine can
/// reach it.
pub open spec fn listener_step(addr: Seq<char>) -> AddressStep<Seq<char>> {
    if local_only(addr) {
        AddressStep::SkipLocal(addr)
    } else {
        AddressStep::AddListener(addr)
    }
}

/// What all addresses that are being listened on contribute.
pub open spec fn listener_steps(listeners: Seq<Seq<char>>) -> Seq<AddressStep<Seq<char>>> {
    Seq::new(listeners.len(), |i: int| listener_step(listeners[i]))
}

/// What the first `n` addresses that are being listened on contribute through their ports: the
/// port at the local IP address, unless that is one of the loopback interface. The second part
/// is why it came to an early end, if it did: what was made is no address.
pub open spec fn external_steps(listeners: Seq<Seq<char>>, ip: Seq<char>, n: nat) -> (
    Seq<AddressStep<Seq<char>>>,
    Option<Seq<char>>,
)
    decreases n,
{
    if n == 0 {
        (Seq::empty(), None)
    } else {
        let (steps, end) = external_steps(listeners, ip, (n - 1) as nat);
        match port_in(listeners[n - 1]) {
            Some(port) if end is None && !loopback(ip) => match parsed_multiaddr(
                ip4_tcp(ip, decimal(port as nat)),
            ) {
                Ok(addr) => (steps.push(AddressStep::AddExternal(addr)), None),
                Err(reason) => (steps, Some(reason)),
            },
            _ => (steps, end),
        }
    }
}

/// What is done to settle at which addresses others can reach this side, and why it came to an
/// early end, if it did.
pub open spec fn address_steps(listeners: Seq<Seq<char>>, local_ip: Option<Seq<char>>) -> (
    Seq<AddressStep<Seq<char>>>,
    Option<Seq<char>>,
) {
    let first = seq![AddressStep::Clear] + listener_steps(listeners);
    match local_ip {
        Some(ip) => {
            let (more, end) = external_steps(listeners, ip, listeners.len());
            (first + seq![AddressStep::FoundLocalIp(ip)] + more, end)
        },
        None => (first.push(AddressStep::NoLocalIp), None),
    }
}

/// The steps before a registration, and whether it can go on after them.
pub open spec fn registration_plan(
    server: Option<Seq<char>>,
    listeners: Seq<Seq<char>>,
    local_ip: Option<Seq<char>>,
) -> (Seq<AddressStep<Seq<char>>>, Result<Seq<char>, RendezvousFailure<Seq<char>>>) {
    match server {
        None => (Seq::empty(), Err(RendezvousFailure::NoServer)),
        Some(peer) => {
            if listeners.len() == 0 {
                (Seq::empty(), Err(RendezvousFailure::NoListeners))
            } else {
                let (steps, end) = address_steps(listeners, local_ip);
                (
                    steps,
                    match end {
                        Some(reason) => Err(RendezvousFailure::BadAddress(reason)),
                        None => if exists|i: int|
                            0 <= i < steps.len() && adds(#[trigger] steps[i]) {
                            Ok(peer)
                        } else {
                            Err(RendezvousFailure::NoExternalAddresses)
                        },
                    },
                )
            }
        },
    }
}

fn plan_listeners(listeners: &Vec<String>) -> (r: Vec<AddressStep<String>>)
    ensures
        contents(r@) == seq![AddressStep::<Seq<char>>::Clear] + listener_steps(texts(listeners@)),
{
    let mut steps: Vec<AddressStep<String>> = vec![AddressStep::Clear];
    let ghost all = listener_steps(texts(listeners@));
    let ghost clear = seq![AddressStep::<Seq<char>>::Clear];
    let mut i: usize = 0;
    assert(contents(steps@) =~= clear + all.take(0));
    while i < listeners.len()
        invariant
            i <= listeners.len(),
            all == listener_steps(texts(listeners@)),
            clear == seq![AddressStep::<Seq<char>>::Clear],
            contents(steps@) == clear + all.take(i as int),
        decreases listeners.len() - i,
    {
        let ghost before = contents(steps@);
        if is_local_only(listeners[i].as_str()) {
            steps.push(AddressStep::SkipLocal(listeners[i].clone()));
        } else {
            steps.push(AddressStep::AddListener(listeners[i].clone()));
        }
        assert(contents(steps@) == before.push(all[i as int]));
        assert(clear + all.take(i + 1) =~= before.push(all[i as int]));
        i = i + 1;
    }
    assert(all.take(i as int) =~= all);
    steps
}

fn plan_externals(listeners: &Vec<String>, ip: &str) -> (r: (
    Vec<AddressStep<String>>,
    Option<String>,
))
    ensures
        contents(r.0@) == external_steps(texts(listeners@), ip@, listeners@.len()).0,
        optional_text(r.1) == external_steps(texts(listeners@), ip@, listeners@.len()).1,
{
    let mut steps: Vec<AddressStep<String>> = Vec::new();
    let mut end: Option<String> = None;
    let mut i: usize = 0;
    let ghost all = texts(listeners@);
    assert(contents(steps@) =~= external_steps(all, ip@, 0).0);
    while i < listeners.len()
        invariant
            i <= listeners.len(),
            all == texts(listeners@),
            contents(steps@) == external_steps(all, ip@, i as nat).0,
            optional_text(end) == external_steps(all, ip@, i as nat).1,
        decreases listeners.len() - i,
    {
        assert(all[i as int] == listeners@[i as int]@);
        if end.is_none() && !is_loopback(ip) {
            if let Some(port) = extract_port_from_multiaddr(listeners[i].as_str()) {
                let text = ip4_tcp_address(ip, decimal_text(port as u64).as_str());
                match parse_multiaddr(text.as_str()) {
                    Ok(addr) => {
                        steps.push(AddressStep::AddExternal(addr));
                    },
                    Err(reason) => {
                        end = Some(reason);
                    },
                }
            }
        }
        i = i + 1;
    }
    (steps, end)
}

fn any_adds(steps: &Vec<AddressStep<String>>) -> (r: bool)
    ensures
        r == exists|i: int|
            0 <= i < contents(steps@).len() && adds(#[trigger] contents(steps@)[i]),
{
    let mut i: usize = 0;
    while i < steps.len()
        invariant
            i <= steps.len(),
            forall|k: int| 0 <= k < i ==> !adds(#[trigger] contents(steps@)[k]),
        decreases steps.len() - i,
    {
        assert(contents(steps@)[i as int] == steps@[i as int]@);
        match &steps[i] {
            AddressStep::AddListener(_) => {
                return true;
            },
            AddressStep::AddExternal(_) => {
                return true;
            },
            _ => {},
        }
        i = i + 1;
    }
    false
}

/// Plans a registration: the steps before it, and whether it can go on after them. `listeners`
/// are the addresses that are being listened on.
pub fn plan_registration(
    server: &Option<String>,
    listeners: &Vec<String>,
    local_ip: &Option<String>,
) -> (r: (Vec<AddressStep<String>>, Result<Registering, RendezvousFailure<String>>))
    ensures
        contents(r.0@) == registration_plan(
            optional_text(*server),
            texts(listeners@),
            optional_text(*local_ip),
        ).0,
        match (
            r.1,
            registration_plan(
                optional_text(*server),
                texts(listeners@),
                optional_text(*local_ip),
            ).1,
        ) {
            (Ok(going), Ok(peer)) => going@ == (RegisteringView {
                server: peer,
                namespace: namespace(),
                stage: Stage::Unchecked,
            }),
            (Err(failure), Err(expected)) => failure@ == expected,
            _ => false,
        },
{
    let peer = match server {
        Some(peer) => peer.clone(),
        None => {
            let none: Vec<AddressStep<String>> = vec![];
            assert(contents(none@) =~= Seq::empty());
            return (none, Err(RendezvousFailure::NoServer));
        },
    };
    let name = match rendezvous_namespace() {
        Ok(name) => name,
        Err(failure) => {
            return (vec![], Err(failure));
        },
    };
    if listeners.len() == 0 {
        let none: Vec<AddressStep<String>> = vec![];
        assert(contents(none@) =~= Seq::empty());
        return (none, Err(RendezvousFailure::NoListeners));
    }
    let mut steps = plan_listeners(listeners);
    let mut end: Option<String> = None;
    match local_ip {
        Some(ip) => {
            let (mut more, reason) = plan_externals(listeners, ip.as_str());
            steps.push(AddressStep::FoundLocalIp(ip.clone()));
            steps.append(&mut more);
            end = reason;
        },
        None => {
            steps.push(AddressStep::NoLocalIp);
        },
    }
    assert(contents(steps@) =~= address_steps(texts(listeners@), optional_text(*local_ip)).0);
    assert(optional_text(end) == address_steps(texts(listeners@), optional_text(*local_ip)).1);
    let verdict = match end {
        Some(reason) => Err(RendezvousFailure::BadAddress(reason)),
        None => if any_adds(&steps) {
            Ok(Registering { server: peer, namespace: name, stage: Stage::Unchecked })
        } else {
            Err(RendezvousFailure::NoExternalAddresses)
        },
    };
    (steps, verdict)
}

/// How far a registration has come.
#[derive(Debug, Clone, Copy, PartialEq, Eq, Structural)]
pub enum Stage {
    /// It is not known whether the server is connected.
    Unchecked,
    /// The server was dialled and waited for.
    Dialled,
    /// The request was made.
    Requested,
}

/// A registration that is under way.
#[derive(Debug, PartialEq, Eq)]
pub struct Registering {
    server: String,
    namespace: String,
    stage: Stage,
}

/// The content of a [`Registering`].
pub struct RegisteringView {
    pub server: Seq<char>,
    pub namespace: Seq<char>,
    pub stage: Stage,
}

impl View for Registering {
    type V = RegisteringView;

    closed spec fn view(&self) -> RegisteringView {
        RegisteringView {
            server: self.server@,
            namespace: self.namespace@,
            stage: self.stage,
        }
    }
}

/// What is done to register.
#[derive(Debug, PartialEq, Eq)]
pub enum RegistrationStep<S> {
    /// Tell the user that the server is connected already.
    AlreadyConnected,
    /// Tell the user that a connection to the server is made.
    Connecting,
    /// Dial the server.
    Dial(S),
    /// Wait, then call [`Registering::connection_checked`] again.
    Wait(u64),
    /// Tell the user that the server is connected now.
    NowConnected,
    /// Tell the user that the server is not connected yet.
    NotYetConnected,
    /// Ask the server for registration in a namespace, for `ttl` seconds.
    Request { server: S, namespace: S, ttl: u64 },
}

impl View for RegistrationStep<String> {
    type V = RegistrationStep<Seq<char>>;

    open spec fn view(&self) -> RegistrationStep<Seq<char>> {
        match *self {
            RegistrationStep::AlreadyConnected => RegistrationStep::AlreadyConnected,
            RegistrationStep::Connecting => RegistrationStep::Connecting,
            RegistrationStep::Dial(addr) => RegistrationStep::Dial(addr@),
            RegistrationStep::Wait(millis) => RegistrationStep::Wait(millis),
            RegistrationStep::NowConnected => RegistrationStep::NowConnected,
            RegistrationStep::NotYetConnected => RegistrationStep::NotYetConnected,
            RegistrationStep::Request { server, namespace, ttl } => RegistrationStep::Request {
                server: server@,
                namespace: namespace@,
                ttl,
            },
        }
    }
}

/// The request for a registration.
pub open spec fn asked_for(g: RegisteringView) -> RegistrationStep<Seq<char>> {
    RegistrationStep::Request {
        server: g.server,
        namespace: g.namespace,
        ttl: REGISTRATION_TTL,
    }
}

/// What follows once the connected peers are known: a server that is not connected is dialled
/// and waited for once, and then asked in any case.
pub open spec fn checked(g: RegisteringView, connected: Seq<Seq<char>>) -> (
    RegisteringView,
    Seq<RegistrationStep<Seq<char>>>,
) {
    let request = asked_for(g);
    let there = connected.contains(g.server);
    match g.stage {
        Stage::Unchecked => if there {
            (
                RegisteringView { stage: Stage::Requested, ..g },
                seq![RegistrationStep::AlreadyConnected, request],
            )
        } else {
            (
                RegisteringView { stage: Stage::Dialled, ..g },
                seq![
                    RegistrationStep::Connecting,
                    RegistrationStep::Dial(peer_address(g.server)),
                    RegistrationStep::Wait(CONNECTING_MILLIS),
                ],
            )
        },
        Stage::Dialled => (
            RegisteringView { stage: Stage::Requested, ..g },
            seq![
                if there {
                    RegistrationStep::NowConnected
                } else {
                    RegistrationStep::NotYetConnected
                },
                request,
            ],
        ),
        Stage::Requested => (g, seq![]),
    }
}

fn lists(peers: &Vec<String>, peer: &str) -> (r: bool)
    ensures
        r == texts(peers@).contains(peer@),
{
    let mut i: usize = 0;
    while i < peers.len()
        invariant
            i <= peers.len(),
            forall|k: int| 0 <= k < i ==> #[trigger] texts(peers@)[k] != peer@,
        decreases peers.len() - i,
    {
        assert(texts(peers@)[i as int] == peers@[i as int]@);
        if same_text(peers[i].as_str(), peer) {
            return true;
        }
        i = i + 1;
    }
    false
}

impl Registering {
    /// Goes on with a registration, given the peers that are connected.
    pub fn connection_checked(&mut self, connected: &Vec<String>) -> (r: Vec<
        RegistrationStep<String>,
    >)
        ensures
            final(self)@ == checked(old(self)@, texts(connected@)).0,
            contents(r@) == checked(old(self)@, texts(connected@)).1,
    {
        let there: bool = lists(connected, self.server.as_str());
        let request = RegistrationStep::Request {
            server: self.server.clone(),
            namespace: self.namespace.clone(),
            ttl: REGISTRATION_TTL,
        };
        match self.stage {
            Stage::Unchecked => {
                if there {
                    self.stage = Stage::Requested;
                    vec![RegistrationStep::AlreadyConnected, request]
                } else {
                    self.stage = Stage::Dialled;
                    vec![
                        RegistrationStep::Connecting,
                        RegistrationStep::Dial(address_of_peer(self.server.as_str())),
                        RegistrationStep::Wait(CONNECTING_MILLIS),
                    ]
                }
            },
            Stage::Dialled => {
                self.stage = Stage::Requested;
                if there {
                    vec![RegistrationStep::NowConnected, request]
                } else {
                    vec![RegistrationStep::NotYetConnected, request]
                }
            },
            Stage::Requested => vec![],
        }
    }
}

/// What comes of a request for registration, and whether the user is shown the external
/// addresses because the error is about them.
pub open spec fn request_outcome(error: Option<Seq<char>>) -> (
    Result<(), RendezvousFailure<Seq<char>>>,
    bool,
) {
    match error {
        None => (Ok(()), false),
        Some(reason) => (
            Err(RendezvousFailure::Refused(reason)),
            occurs(reason, "no external addresses"@),
        ),
    }
}

/// Says what comes of a request for registration that failed for the given reason, or did not.
pub fn registration_requested(error: Option<String>) -> (r: (
    Result<(), RendezvousFailure<String>>,
    bool,
))
    ensures
        match r.0 {
            Ok(_) => request_outcome(optional_text(error)).0 is Ok,
            Err(failure) => request_outcome(optional_text(error)).0 == Err::<
                (),
                RendezvousFailure<Seq<char>>,
            >(failure@),
        },
        r.1 == request_outcome(optional_text(error)).1,
{
    match error {
        None => (Ok(()), false),
        Some(reason) => {
            let about_addresses: bool = contains(reason.as_str(), "no external addresses");
            (Err(RendezvousFailure::Refused(reason)), about_addresses)
        },
    }
}

proof fn lemma_external_steps(listeners: Seq<Seq<char>>, ip: Seq<char>, n: nat)
    requires
        n <= listeners.len(),
    ensures
        ({
            let (steps, end) = external_steps(listeners, ip, n);
            &&& loopback(ip) ==> steps.len() == 0 && end is None
            &&& forall|i: int|
                0 <= i < steps.len() ==> (#[trigger] steps[i] matches AddressStep::AddExternal(addr)
                    && exists|k: int, port: u16|
                    {
                        &&& 0 <= k < n
                        &&& #[trigger] port_in(listeners[k]) == Some(port)
                        &&& parsed_multiaddr(#[trigger] ip4_tcp(ip, decimal(port as nat))) == Ok::<
                            Seq<char>,
                            Seq<char>,
                        >(addr)
                    })
        }),
    decreases n,
{
    if n > 0 {
        lemma_external_steps(listeners, ip, (n - 1) as nat);
        let (before, end) = external_steps(listeners, ip, (n - 1) as nat);
        let (steps, _) = external_steps(listeners, ip, n);
        assert forall|i: int| 0 <= i < steps.len() implies (#[trigger] steps[i] matches
            AddressStep::AddExternal(addr) && exists|k: int, port: u16|
            {
                &&& 0 <= k < n
                &&& #[trigger] port_in(listeners[k]) == Some(port)
                &&& parsed_multiaddr(#[trigger] ip4_tcp(ip, decimal(port as nat))) == Ok::<
                    Seq<char>,
                    Seq<char>,
                >(addr)
            }) by {
            if i < before.len() {
                assert(steps[i] == before[i]);
            } else {
                assert(port_in(listeners[n - 1]) is Some);
                let port = port_in(listeners[n - 1])->0;
                let made = ip4_tcp(ip, decimal(port as nat));
                assert(parsed_multiaddr(made) is Ok);
            }
        }
    }
}

/// Where others are told to reach this side: at an address that is being listened on, unless that
/// is one of the loopback interface, or at a port that is being listened on at the local IP
/// address, unless that is one of the loopback interface. And no registration goes on without such
/// an address.
pub proof fn law_registered_addresses(
    server: Option<Seq<char>>,
    listeners: Seq<Seq<char>>,
    local_ip: Option<Seq<char>>,
)
    ensures
        ({
            let (steps, verdict) = registration_plan(server, listeners, local_ip);
            &&& verdict is Ok ==> exists|i: int| 0 <= i < steps.len() && adds(#[trigger] steps[i])
            &&& forall|i: int|
                0 <= i < steps.len() ==> match #[trigger] steps[i] {
                    AddressStep::AddListener(addr) => listeners.contains(addr) && !local_only(addr),
                    AddressStep::AddExternal(addr) => {
                        &&& local_ip matches Some(ip)
                        &&& !loopback(ip)
                        &&& exists|k: int, port: u16|
                            {
                                &&& 0 <= k < listeners.len()
                                &&& #[trigger] port_in(listeners[k]) == Some(port)
                                &&& parsed_multiaddr(#[trigger] ip4_tcp(ip, decimal(port as nat)))
                                    == Ok::<Seq<char>, Seq<char>>(addr)
                            }
                    },
                    _ => true,
                }
        }),
{
    let (steps, verdict) = registration_plan(server, listeners, local_ip);
    let first = listener_steps(listeners);
    let own = match local_ip {
        Some(ip) => ip,
        None => Seq::empty(),
    };
    lemma_external_steps(listeners, own, listeners.len());
    let more = external_steps(listeners, own, listeners.len()).0;
    assert forall|i: int| 0 <= i < steps.len() implies match #[trigger] steps[i] {
        AddressStep::AddListener(addr) => listeners.contains(addr) && !local_only(addr),
        AddressStep::AddExternal(addr) => {
            &&& local_ip matches Some(ip)
            &&& !loopback(ip)
            &&& exists|k: int, port: u16|
                {
                    &&& 0 <= k < listeners.len()
                    &&& #[trigger] port_in(listeners[k]) == Some(port)
                    &&& parsed_multiaddr(#[trigger] ip4_tcp(ip, decimal(port as nat))) == Ok::<
                        Seq<char>,
                        Seq<char>,
                    >(addr)
                }
        },
        _ => true,
    } by {
        if 1 <= i < 1 + first.len() {
            assert(steps[i] == first[i - 1]);
            assert(listeners.contains(listeners[i - 1]));
        } else if i > 1 + first.len() {
            assert(steps[i] == more[i - 2 - first.len()]);
        }
    }
}

proof fn lemma_every_port(listeners: Seq<Seq<char>>, ip: Seq<char>, n: nat, k: int)
    requires
        0 <= k < n <= listeners.len(),
        !loopback(ip),
        external_steps(listeners, ip, n).1 is None,
        port_in(listeners[k]) is Some,
    ensures
        ({
            let made = ip4_tcp(ip, decimal(port_in(listeners[k])->0 as nat));
            &&& parsed_multiaddr(made) matches Ok(addr)
            &&& external_steps(listeners, ip, n).0.contains(AddressStep::AddExternal(addr))
        }),
    decreases n,
{
    let (steps, end) = external_steps(listeners, ip, n);
    let before = external_steps(listeners, ip, (n - 1) as nat).0;
    if k == n - 1 {
        assert(steps.last() is AddExternal);
        assert(steps.contains(steps.last()));
    } else {
        lemma_every_port(listeners, ip, (n - 1) as nat, k);
        let addr = parsed_multiaddr(ip4_tcp(ip, decimal(port_in(listeners[k])->0 as nat)))->Ok_0;
        let i = choose|i: int|
            0 <= i < before.len() && before[i] == AddressStep::AddExternal(addr);
        assert(steps[i] == before[i]);
    }
}

/// Nothing by which others can reach this side is left out: unless a registration comes to an
/// early end, every address that is being listened on and is not one of the loopback interface is
/// added, and so is every port that is being listened on at the local IP address, unless that is
/// one of the loopback interface.
pub proof fn law_every_address_is_registered(
    server: Seq<char>,
    listeners: Seq<Seq<char>>,
    local_ip: Option<Seq<char>>,
    k: int,
)
    requires
        0 <= k < listeners.len(),
        !(registration_plan(Some(server), listeners, local_ip).1 matches Err(failure) && failure
            is BadAddress),
    ensures
        ({
            let steps = registration_plan(Some(server), listeners, local_ip).0;
            &&& !local_only(listeners[k]) ==> steps.contains(
                AddressStep::AddListener(listeners[k]),
            )
            &&& match (local_ip, port_in(listeners[k])) {
                (Some(ip), Some(port)) => loopback(ip) || {
                    &&& parsed_multiaddr(ip4_tcp(ip, decimal(port as nat))) matches Ok(addr)
                    &&& steps.contains(AddressStep::AddExternal(addr))
                },
                _ => true,
            }
        }),
{
    let steps = registration_plan(Some(server), listeners, local_ip).0;
    let first = listener_steps(listeners);
    assert(steps[k + 1] == first[k]);
    if let Some(ip) = local_ip {
        if !loopback(ip) && port_in(listeners[k]) is Some {
            let more = external_steps(listeners, ip, listeners.len()).0;
            lemma_every_port(listeners, ip, listeners.len(), k);
            let port = port_in(listeners[k])->0;
            let addr = parsed_multiaddr(ip4_tcp(ip, decimal(port as nat)))->Ok_0;
            let i = choose|i: int|
                0 <= i < more.len() && more[i] == AddressStep::AddExternal(addr);
            assert(steps[i + 2 + first.len()] == more[i]);
        }
    }
}

/// The external addresses after a number of steps.
pub open spec fn external_after(
    before: Set<Seq<char>>,
    steps: Seq<AddressStep<Seq<char>>>,
) -> Set<Seq<char>>
    decreases steps.len(),
{
    if steps.len() == 0 {
        before
    } else {
        let addresses = external_after(before, steps.drop_last());
        match steps.last() {
            AddressStep::Clear => Set::empty(),
            AddressStep::AddListener(addr) => addresses.insert(addr),
            AddressStep::AddExternal(addr) => addresses.insert(addr),
            _ => addresses,
        }
    }
}

proof fn lemma_cleared(
    before: Set<Seq<char>>,
    steps: Seq<AddressStep<Seq<char>>>,
    addr: Seq<char>,
)
    requires
        steps.len() > 0,
        steps[0] is Clear,
        forall|i: int| 0 < i < steps.len() ==> !(#[trigger] steps[i] is Clear),
    ensures
        external_after(before, steps).contains(addr) <==> steps.contains(
            AddressStep::AddListener(addr),
        ) || steps.contains(AddressStep::AddExternal(addr)),
    decreases steps.len(),
{
    let front = steps.drop_last();
    let n = front.len() as int;
    let listener = AddressStep::AddListener(addr);
    let external = AddressStep::AddExternal(addr);
    assert forall|step: AddressStep<Seq<char>>| #[trigger] steps.contains(step) implies step
        == steps[n] || front.contains(step) by {
        let i = choose|i: int| 0 <= i < steps.len() && steps[i] == step;
        if i < n {
            assert(front[i] == step);
        }
    }
    assert(steps.contains(steps[n]));
    if n > 0 {
        assert forall|i: int| 0 < i < front.len() implies !(#[trigger] front[i] is Clear) by {
            assert(front[i] == steps[i]);
        }
        lemma_cleared(before, front, addr);
        assert forall|step: AddressStep<Seq<char>>| #[trigger] front.contains(step) implies
            steps.contains(step) by {
            let i = choose|i: int| 0 <= i < front.len() && front[i] == step;
            assert(steps[i] == step);
        }
    }
}

/// A registration settles anew where others can reach this side: the external addresses after its
/// steps are those that the steps add, whatever they were before. Only if it does not come to that,
/// for want of a server or of an address that is being listened on, are they left as they were.
pub proof fn law_external_addresses_are_settled_anew(
    server: Option<Seq<char>>,
    listeners: Seq<Seq<char>>,
    local_ip: Option<Seq<char>>,
    before: Set<Seq<char>>,
    other: Set<Seq<char>>,
    addr: Seq<char>,
)
    ensures
        ({
            let steps = registration_plan(server, listeners, local_ip).0;
            if server is Some && listeners.len() > 0 {
                &&& external_after(before, steps) == external_after(other, steps)
                &&& external_after(before, steps).contains(addr) <==> steps.contains(
                    AddressStep::AddListener(addr),
                ) || steps.contains(AddressStep::AddExternal(addr))
            } else {
                external_after(before, steps) == before
            }
        }),
{
    let steps = registration_plan(server, listeners, local_ip).0;
    if server is Some && listeners.len() > 0 {
        let first = listener_steps(listeners);
        let own = match local_ip {
            Some(ip) => ip,
            None => Seq::empty(),
        };
        let more = external_steps(listeners, own, listeners.len()).0;
        lemma_external_steps(listeners, own, listeners.len());
        assert forall|i: int| 0 < i < steps.len() implies !(#[trigger] steps[i] is Clear) by {
            if i < 1 + first.len() {
                assert(steps[i] == first[i - 1]);
            } else if i > 1 + first.len() {
                assert(steps[i] == more[i - 2 - first.len()]);
            }
        }
        assert forall|a: Seq<char>| #[trigger] external_after(before, steps).contains(a)
            == external_after(other, steps).contains(a) by {
            lemma_cleared(before, steps, a);
            lemma_cleared(other, steps, a);
        }
        assert(external_after(before, steps) =~= external_after(other, steps));
        lemma_cleared(before, steps, addr);
    }
}

/// A registration that is under way asks the server after at most two looks at who is connected,
/// whether or not the server is; and it asks once.
pub proof fn law_server_is_asked_once(
    g: RegisteringView,
    first: Seq<Seq<char>>,
    second: Seq<Seq<char>>,
    third: Seq<Seq<char>>,
)
    requires
        g.stage is Unchecked,
    ensures
        ({
            let request = asked_for(g);
            let (g1, s1) = checked(g, first);
            let (g2, s2) = checked(g1, second);
            let (g3, s3) = checked(g2, third);
            &&& first.contains(g.server) ==> s1.last() == request && s2 == Seq::<
                RegistrationStep<Seq<char>>,
            >::empty()
            &&& !first.contains(g.server) ==> !s1.contains(request) && s2.last() == request
            &&& g2.stage is Requested
            &&& s3 == Seq::<RegistrationStep<Seq<char>>>::empty()
        }),
{
    let request = asked_for(g);
    let (g1, s1) = checked(g, first);
    let (g2, s2) = checked(g1, second);
    let (g3, s3) = checked(g2, third);
    if s1.contains(request) && !first.contains(g.server) {
        let i = choose|i: int| 0 <= i < s1.len() && s1[i] == request;
        assert(s1[i] is Request);
    }
    assert(s3 =~= Seq::<RegistrationStep<Seq<char>>>::empty());
    if first.contains(g.server) {
        assert(s2 =~= Seq::<RegistrationStep<Seq<char>>>::empty());
    }
}

/// What a registration that is under way does: a server that is not among the connected peers is
/// dialled, and waited for 2 seconds; then, or at once if it is connected, it is asked for
/// registration in the namespace for 2 hours, and never again.
pub proof fn law_registration_under_way(g: RegisteringView, connected: Seq<Seq<char>>)
    ensures
        ({
            let (after, steps) = checked(g, connected);
            let there = exists|i: int| 0 <= i < connected.len() && #[trigger] connected[i]
                == g.server;
            let request = RegistrationStep::Request {
                server: g.server,
                namespace: g.namespace,
                ttl: 7200,
            };
            &&& after.server == g.server && after.namespace == g.namespace
            &&& match g.stage {
                Stage::Unchecked => if there {
                    &&& after.stage is Requested
                    &&& steps == seq![RegistrationStep::AlreadyConnected, request]
                } else {
                    &&& after.stage is Dialled
                    &&& steps == seq![
                        RegistrationStep::Connecting,
                        RegistrationStep::Dial("/p2p/"@ + g.server),
                        RegistrationStep::Wait(2000),
                    ]
                },
                Stage::Dialled => {
                    &&& after.stage is Requested
                    &&& steps == seq![
                        if there {
                            RegistrationStep::<Seq<char>>::NowConnected
                        } else {
                            RegistrationStep::NotYetConnected
                        },
                        request,
                    ]
                },
                Stage::Requested => {
                    &&& after.stage is Requested
                    &&& steps == Seq::<RegistrationStep<Seq<char>>>::empty()
                },
            }
        }),
{
    if connected.contains(g.server) {
        let i = choose|i: int| 0 <= i < connected.len() && connected[i] == g.server;
        assert(connected[i] == g.server);
    }
}

proof fn lemma_no_bad_address(listeners: Seq<Seq<char>>, ip: Seq<char>, n: nat)
    requires
        n <= listeners.len(),
        forall|k: int, port: u16|
            0 <= k < listeners.len() && #[trigger] port_in(listeners[k]) == Some(port)
                ==> parsed_multiaddr(#[trigger] ip4_tcp(ip, decimal(port as nat))) is Ok,
    ensures
        external_steps(listeners, ip, n).1 is None,
    decreases n,
{
    if n > 0 {
        lemma_no_bad_address(listeners, ip, (n - 1) as nat);
        if let Some(port) = port_in(listeners[n - 1]) {
            assert(parsed_multiaddr(ip4_tcp(ip, decimal(port as nat))) is Ok);
        }
    }
}

/// When a registration goes on. Without a server, or without an address that is being listened on,
/// it does not, and nothing is done. Otherwise it goes on with that server if others can reach this
/// side: at an address that is being listened on, or at a port of one at the local IP address,
/// outside the loopback interface. It comes to an early end only if such a port and the local IP
/// address make no address.
pub proof fn law_registration_goes_on(
    server: Seq<char>,
    listeners: Seq<Seq<char>>,
    local_ip: Option<Seq<char>>,
    k: int,
)
    ensures
        registration_plan(None, listeners, local_ip) == (
            Seq::<AddressStep<Seq<char>>>::empty(),
            Err::<Seq<char>, RendezvousFailure<Seq<char>>>(RendezvousFailure::NoServer),
        ),
        listeners.len() == 0 ==> registration_plan(Some(server), listeners, local_ip) == (
            Seq::<AddressStep<Seq<char>>>::empty(),
            Err::<Seq<char>, RendezvousFailure<Seq<char>>>(RendezvousFailure::NoListeners),
        ),
        listeners.len() > 0 ==> match registration_plan(Some(server), listeners, local_ip).1 {
            Ok(peer) => peer == server,
            Err(failure) => {
                &&& failure is NoExternalAddresses || failure is BadAddress
                &&& failure is NoExternalAddresses && 0 <= k < listeners.len() ==> local_only(
                    listeners[k],
                ) && (local_ip matches Some(ip) ==> loopback(ip) || port_in(listeners[k]) is None)
                &&& failure is BadAddress ==> (local_ip matches Some(ip) && exists|
                    i: int,
                    port: u16,
                |
                    0 <= i < listeners.len() && #[trigger] port_in(listeners[i]) == Some(port)
                        && parsed_multiaddr(#[trigger] ip4_tcp(ip, decimal(port as nat))) is Err)
            },
        },
{
    let (steps, verdict) = registration_plan(Some(server), listeners, local_ip);
    if listeners.len() > 0 {
        if let Err(failure) = verdict {
            if failure is NoExternalAddresses && 0 <= k < listeners.len() {
                law_every_address_is_registered(server, listeners, local_ip, k);
                if !local_only(listeners[k]) {
                    let step = AddressStep::AddListener(listeners[k]);
                    let i = choose|i: int| 0 <= i < steps.len() && steps[i] == step;
                    assert(adds(steps[i]));
                }
                if let Some(ip) = local_ip {
                    if !loopback(ip) && port_in(listeners[k]) is Some {
                        let port = port_in(listeners[k])->0;
                        let addr = parsed_multiaddr(ip4_tcp(ip, decimal(port as nat)))->Ok_0;
                        let step = AddressStep::AddExternal(addr);
                        let i = choose|i: int| 0 <= i < steps.len() && steps[i] == step;
                        assert(adds(steps[i]));
                    }
                }
            }
            if failure is BadAddress {
                let ip = local_ip->0;
                if forall|i: int, port: u16|
                    0 <= i < listeners.len() && #[trigger] port_in(listeners[i]) == Some(port)
                        ==> parsed_multiaddr(#[trigger] ip4_tcp(ip, decimal(port as nat))) is Ok {
                    lemma_no_bad_address(listeners, ip, listeners.len());
                }
            }
        }
    }
}

/// The steps before a registration, in order: the external addresses are forgotten; each address
/// that is being listened on is added, or passed over if it is one of the loopback interface; and
/// the local IP address is told, or that there is none. What comes after that only adds.
pub proof fn law_steps_before_a_registration(
    server: Seq<char>,
    listeners: Seq<Seq<char>>,
    local_ip: Option<Seq<char>>,
    k: int,
)
    requires
        listeners.len() > 0,
    ensures
        ({
            let steps = registration_plan(Some(server), listeners, local_ip).0;
            let n = listeners.len() as int;
            &&& steps.len() >= n + 2
            &&& steps[0] is Clear
            &&& 0 <= k < n ==> steps[k + 1] == (if local_only(listeners[k]) {
                AddressStep::SkipLocal(listeners[k])
            } else {
                AddressStep::AddListener(listeners[k])
            })
            &&& match local_ip {
                Some(ip) => {
                    &&& steps[n + 1] == AddressStep::FoundLocalIp(ip)
                    &&& n + 1 < k < steps.len() ==> steps[k] is AddExternal
                    &&& steps.len() <= 2 * n + 2
                },
                None => steps[n + 1] is NoLocalIp && steps.len() == n + 2,
            }
        }),
{
    let steps = registration_plan(Some(server), listeners, local_ip).0;
    let first = listener_steps(listeners);
    let n = listeners.len() as int;
    if 0 <= k < n {
        assert(steps[k + 1] == first[k]);
    }
    if let Some(ip) = local_ip {
        let more = external_steps(listeners, ip, listeners.len()).0;
        lemma_external_steps(listeners, ip, listeners.len());
        lemma_one_step_per_listener(listeners, ip, listeners.len());
        if n + 1 < k < steps.len() {
            assert(steps[k] == more[k - n - 2]);
        }
    }
}

proof fn lemma_one_step_per_listener(listeners: Seq<Seq<char>>, ip: Seq<char>, n: nat)
    ensures
        external_steps(listeners, ip, n).0.len() <= n,
    decreases n,
{
    if n > 0 {
        lemma_one_step_per_listener(listeners, ip, (n - 1) as nat);
    }
}

/// What comes of a request for registration: it is well if it was made, and if it was refused the
/// reason is kept; the user is shown the external addresses if the reason speaks of them.
pub proof fn law_outcome_of_a_request(front: Seq<char>, back: Seq<char>, reason: Seq<char>)
    ensures
        request_outcome(None) == (Ok::<(), RendezvousFailure<Seq<char>>>(()), false),
        request_outcome(Some(reason)).0 == Err::<(), RendezvousFailure<Seq<char>>>(
            RendezvousFailure::Refused(reason),
        ),
        request_outcome(Some(front + "no external addresses"@ + back)).1,
        (forall|at: int|
            0 <= at && at + "no external addresses"@.len() <= reason.len()
                ==> #[trigger] reason.subrange(at, at + "no external addresses"@.len())
                != "no external addresses"@) ==> !request_outcome(Some(reason)).1,
{
    let words = "no external addresses"@;
    let text = front + words + back;
    let n = front.len() as int;
    assert(text.subrange(n, n + words.len()) =~= words);
    assert(crate::text::occurs_at(text, words, n));
    if occurs(reason, words) {
        let at = choose|at: int| crate::text::occurs_at(reason, words, at);
        assert(reason.subrange(at, at + words.len()) == words);
    }
}

proof fn lemma_external_steps_alike(
    listeners: Seq<Seq<char>>,
    more: Seq<Seq<char>>,
    ip: Seq<char>,
    n: nat,
)
    requires
        n <= listeners.len(),
        n <= more.len(),
        forall|i: int| 0 <= i < n ==> listeners[i] == more[i],
    ensures
        external_steps(listeners, ip, n) == external_steps(more, ip, n),
    decreases n,
{
    if n > 0 {
        lemma_external_steps_alike(listeners, more, ip, (n - 1) as nat);
    }
}

/// Every address that is being listened on counts for itself: after those of the others, its port
/// at the local IP address is added, once, if it has one and the local IP address is not one of the
/// loopback interface. If that makes no address the plan comes to an end, for that reason.
pub proof fn law_each_listener_counts(
    server: Seq<char>,
    listeners: Seq<Seq<char>>,
    one: Seq<char>,
    ip: Seq<char>,
)
    requires
        listeners.len() > 0,
    ensures
        ({
            let (steps, verdict) = registration_plan(Some(server), listeners, Some(ip));
            let (all, end) = registration_plan(Some(server), listeners.push(one), Some(ip));
            let before = steps.skip(listeners.len() as int + 2);
            let after = all.skip(listeners.len() as int + 3);
            if verdict matches Err(RendezvousFailure::BadAddress(reason)) {
                &&& after == before
                &&& end == verdict
            } else if loopback(ip) {
                after == before && after.len() == 0
            } else {
                match port_in(one) {
                    Some(port) => match parsed_multiaddr(
                        "/ip4/"@ + ip + "/tcp/"@ + decimal(port as nat),
                    ) {
                        Ok(addr) => after == before.push(AddressStep::AddExternal(addr)),
                        Err(reason) => after == before && end == Err::<
                            Seq<char>,
                            RendezvousFailure<Seq<char>>,
                        >(RendezvousFailure::BadAddress(reason)),
                    },
                    None => after == before,
                }
            }
        }),
{
    let more = listeners.push(one);
    let n = listeners.len();
    lemma_external_steps_alike(listeners, more, ip, n);
    lemma_external_steps(more, ip, more.len());
    lemma_external_steps(listeners, ip, n);
    let (steps, verdict) = registration_plan(Some(server), listeners, Some(ip));
    let (all, end) = registration_plan(Some(server), more, Some(ip));
    assert(steps.skip(n as int + 2) =~= external_steps(listeners, ip, n).0);
    assert(all.skip(n as int + 3) =~= external_steps(more, ip, more.len()).0);
}

}
