# SwapBytes

Peer-to-peer chat and file swapping. Peers find one another through a rendezvous server, talk in a
global chat room, agree on a direct session with one other peer, and swap files there.

The decisions of the program are a library, verified with Verus; the network, the terminal and the
files belong to a thin program around it.

## Layout

- `src/` is the verified library.
  - `chat_room`, `chat_types`: the chat room. Lines, network events and the time go in, things to
    do come out.
  - `barter`: the direct session in which two peers talk and swap files.
  - `sealing`: the encryption of the files that are swapped. Each side of a session has a key pair
    of its own; the public keys travel with proposals and acceptances.
  - `registration`: where others can reach this side, and how it registers.
  - `rendezvous_server`: what a rendezvous server knows of its peers and how it starts.
  - `launch`, `settings`: how the program starts, and the settings file by which a server tells
    clients where it is.
  - `addresses`, `clock`, `text`, `table`, `messages`, `plan`: what these are built of.
  - `chat_laws`, `barter_laws`: what holds of rooms and sessions as a whole. Other laws stand
    beside what they are about.
  - `foreign`: what is taken on trust from libp2p, chrono, local-ip-address and age.
- `tests/` runs the library on concrete values.
- `app/` is the program: it owns the libp2p swarms, does what the library asks for, and reports
  back.

## Model

A peer is known by the base-58 text of its id, an address by its multiaddr text. The channel on
which a request is answered is a type parameter that the library never looks into. Each state
machine has a view (`RoomView`, `SessionView`), and each of its functions is specified by a spec
function from the view before to the view after and the list of things to do.
