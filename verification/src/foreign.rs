//! What the library takes on trust from other crates.

use crate::addresses::tells_port;
use crate::sealing::{good_key, seals};
use chrono::Timelike;
use vstd::prelude::*;
use vstd::utf8::encode_utf8;

verus! {

/// What `PeerId::from_str` of libp2p makes of a text: the base-58 text of the peer id, or the
/// words of its error.
pub uninterp spec fn parsed_peer_id(text: Seq<char>) -> Result<Seq<char>, Seq<char>>;

/// Calls `PeerId::from_str` of libp2p and renders what it returns.
///
/// Claimed: the result depends on the text alone, and the text that is returned for a peer id is
/// accepted as that peer id. (A text that is accepted need not be the one that is returned: the
/// bytes of a peer id begin with numbers of which libp2p accepts more than one encoding.)
#[verifier::external_body]
pub(crate) fn parse_peer_id(text: &str) -> (r: Result<String, String>)
    ensures
        match r {
            Ok(id) => parsed_peer_id(text@) == Ok::<Seq<char>, Seq<char>>(id@) && parsed_peer_id(
                id@,
            ) == Ok::<Seq<char>, Seq<char>>(id@),
            Err(words) => parsed_peer_id(text@) == Err::<Seq<char>, Seq<char>>(words@),
        },
{
    text.parse::<libp2p::PeerId>().map(|id| id.to_string()).map_err(|e| e.to_string())
}

/// What `Multiaddr::from_str` of libp2p makes of a text: the address as `Multiaddr` writes it, or
/// the words of its error.
pub uninterp spec fn parsed_multiaddr(text: Seq<char>) -> Result<Seq<char>, Seq<char>>;

/// Calls `Multiaddr::from_str` of libp2p and renders what it returns.
///
/// Claimed: the result depends on the text alone.
#[verifier::external_body]
pub(crate) fn parse_multiaddr(text: &str) -> (r: Result<String, String>)
    ensures
        match r {
            Ok(addr) => parsed_multiaddr(text@) == Ok::<Seq<char>, Seq<char>>(addr@),
            Err(words) => parsed_multiaddr(text@) == Err::<Seq<char>, Seq<char>>(words@),
        },
{
    text.parse::<libp2p::Multiaddr>().map(|addr| addr.to_string()).map_err(|e| e.to_string())
}

/// What `Multiaddr::iter` of libp2p yields for the address that a text denotes: for each
/// component in turn the port, if it is one of TCP. There is nothing to yield for a text that is
/// no address.
pub uninterp spec fn tcp_components(text: Seq<char>) -> Option<Seq<Option<u16>>>;

/// Calls `Multiaddr::iter` of libp2p on the address that a text denotes and keeps of each
/// component whether it is one of TCP, and then its port.
///
/// Claimed: the result depends on the text alone, and there is one exactly where the text is
/// accepted as an address. (An address that was parsed can be iterated over: its bytes are those
/// that its components were written as.) And the TCP address of a port at an IPv4 address in dotted
/// notation has two components, of which the second is that port.
#[verifier::external_body]
pub(crate) fn multiaddr_tcp_components(text: &str) -> (r: Option<Vec<Option<u16>>>)
    ensures
        match r {
            Some(ports) => tcp_components(text@) == Some(ports@) && tells_port(
                text@,
                Some(ports@),
            ),
            None => tcp_components(text@) is None && tells_port(text@, None),
        },
        r is Some <==> parsed_multiaddr(text@) is Ok,
{
    text.parse::<libp2p::Multiaddr>().ok().map(
        |addr|
            addr.iter()
                .map(
                    |part| match part {
                        libp2p::multiaddr::Protocol::Tcp(port) => Some(port),
                        _ => None,
                    },
                )
                .collect(),
    )
}

/// The error of `Namespace::new` of libp2p's rendezvous protocol.
#[verifier::external_type_specification]
#[verifier::external_body]
pub struct ExNamespaceTooLong(libp2p::rendezvous::NamespaceTooLong);

/// Calls `Namespace::new` of libp2p's rendezvous protocol and renders the namespace.
///
/// Claimed: a name of up to 255 bytes is accepted and kept as it is, a longer one is not.
#[verifier::external_body]
pub(crate) fn new_namespace(name: &str) -> (r: Result<
    String,
    libp2p::rendezvous::NamespaceTooLong,
>)
    ensures
        match r {
            Ok(namespace) => encode_utf8(name@).len() <= 255 && namespace@ == name@,
            Err(_) => encode_utf8(name@).len() > 255,
        },
{
    libp2p::rendezvous::Namespace::new(name.to_string()).map(|namespace| namespace.to_string())
}

/// The hour, minute and second of the day, in UTC, of a number of seconds since the beginning of
/// 1970, if the year is one that chrono can represent: -262143 to 262142.
pub open spec fn time_of_day(seconds: int) -> Option<(u32, u32, u32)> {
    if -8_334_601_228_800 <= seconds <= 8_210_266_876_799 {
        let second = seconds % 86_400;
        Some(((second / 3600) as u32, (second / 60 % 60) as u32, (second % 60) as u32))
    } else {
        None
    }
}

/// Calls `DateTime::from_timestamp` of chrono, with no nanoseconds, and reads the hour, minute
/// and second of the result.
///
/// Claimed: these are the time of day in UTC, and there is none exactly where the date is out of
/// chrono's range.
#[verifier::external_body]
pub(crate) fn utc_time_of_day(seconds: i64) -> (r: Option<(u32, u32, u32)>)
    ensures
        r == time_of_day(seconds as int),
{
    chrono::DateTime::<chrono::Utc>::from_timestamp(seconds, 0).map(
        |time| (time.hour(), time.minute(), time.second()),
    )
}

/// Calls `SystemTime::elapsed` of std on the beginning of 1970 and takes the seconds of the result.
/// Nothing is claimed of the result: it is what the clock of the machine shows. There is none if
/// that is before 1970.
#[verifier::external_body]
pub(crate) fn seconds_since_1970() -> (r: Option<u64>) {
    std::time::UNIX_EPOCH.elapsed().ok().map(|since| since.as_secs())
}

/// Calls `local_ip` of local-ip-address and renders the address. Nothing is claimed of the
/// result: it is what the network interfaces of the machine show, if anything.
#[verifier::external_body]
pub(crate) fn local_ip() -> (r: Option<String>) {
    local_ip_address::local_ip().ok().map(|ip| ip.to_string())
}

/// What `Recipient::from_str` of age makes of a text: the public key as age writes it, if it is
/// one.
pub uninterp spec fn parsed_recipient(text: Seq<char>) -> Option<Seq<char>>;

/// Calls `Recipient::from_str` of age and renders what it returns.
///
/// Claimed: the result depends on the text alone.
#[verifier::external_body]
pub(crate) fn parse_recipient(text: &str) -> (r: Option<String>)
    ensures
        match r {
            Some(key) => parsed_recipient(text@) == Some(key@),
            None => parsed_recipient(text@) is None,
        },
{
    text.parse::<age::x25519::Recipient>().ok().map(|key| key.to_string())
}

/// What `Identity::to_public` of age gives for the secret key that a text denotes: the public key
/// as age writes it. There is none for a text that is no secret key.
pub uninterp spec fn recipient_of(secret: Seq<char>) -> Option<Seq<char>>;

/// Calls `Identity::to_public` of age on the secret key that a text denotes and renders the
/// public key.
///
/// Claimed: the result depends on the text alone, and a public key as age writes it is read as
/// itself.
#[verifier::external_body]
pub(crate) fn public_key(secret: &str) -> (r: Option<String>)
    ensures
        match r {
            Some(key) => recipient_of(secret@) == Some(key@) && parsed_recipient(key@) == Some(
                key@,
            ),
            None => recipient_of(secret@) is None,
        },
{
    secret.parse::<age::x25519::Identity>().ok().map(|identity| identity.to_public().to_string())
}

/// Calls `Identity::generate` of age and renders the secret key.
///
/// Claimed: what is rendered is a secret key. Which one is up to chance.
#[verifier::external_body]
pub(crate) fn generate_secret() -> (r: String)
    ensures
        recipient_of(r@) is Some,
{
    let secret = age::x25519::Identity::generate().to_string();
    age::secrecy::ExposeSecret::expose_secret(&secret).to_string()
}

/// What `decrypt` of age returns for the secret key that a text denotes: the content, or nothing
/// if it is an error.
pub uninterp spec fn opened(secret: Seq<char>, sealed: Seq<u8>) -> Option<Seq<u8>>;

/// Calls `decrypt` of age with the secret key that a text denotes. There is no result for a text
/// that is no secret key.
///
/// Claimed: the result depends on the key and on the bytes alone.
#[verifier::external_body]
pub(crate) fn unseal(secret: &str, sealed: &Vec<u8>) -> (r: Option<Vec<u8>>)
    ensures
        match r {
            Some(content) => opened(secret@, sealed@) == Some(content@),
            None => opened(secret@, sealed@) is None,
        },
{
    let identity = secret.parse::<age::x25519::Identity>().ok()?;
    age::decrypt(&identity, sealed).ok()
}

/// Calls `encrypt` of age with the public key that a text denotes. The key must not be of small
/// order: age panics on those.
///
/// Claimed: it succeeds; the result is longer than the content, since it has a header; and every
/// secret key with that public key opens it and gets back the content. What else the result is,
/// is up to chance.
#[verifier::external_body]
pub(crate) fn seal(key: &str, content: &Vec<u8>) -> (r: Option<Vec<u8>>)
    requires
        good_key(key@),
    ensures
        match r {
            Some(sealed) => seals(sealed@, key@, content@),
            None => false,
        },
{
    let recipient = key.parse::<age::x25519::Recipient>().ok()?;
    age::encrypt(&recipient, content).ok()
}

}
