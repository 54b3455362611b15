//! Encryption of files: only the peer that a file is meant for can open what is sent.
//!
//! A session has a key pair of age. Its public key is a text that begins with `age1`.

use crate::foreign::{opened, parse_recipient, parsed_recipient, recipient_of, seal};
use crate::text::same_text;
use vstd::prelude::*;

verus! {

/// The public keys that are points of small order on Curve25519, in each of their encodings.
/// Nothing can be kept secret with them, and no secret key has them.
pub open spec fn weak(key: Seq<char>) -> bool {
    ||| key == "age1qqqqqqqqqqqqqqqqqqqqqqqqqqqqqqqqqqqqqqqqqqqqqqqqqqqq5cu47z"@
    ||| key == "age1qqqqqqqqqqqqqqqqqqqqqqqqqqqqqqqqqqqqqqqqqqqqqqqqqzqqsuwj9m"@
    ||| key == "age1qyqqqqqqqqqqqqqqqqqqqqqqqqqqqqqqqqqqqqqqqqqqqqqqqqqqj7vrya"@
    ||| key == "age1qyqqqqqqqqqqqqqqqqqqqqqqqqqqqqqqqqqqqqqqqqqqqqqqqzqqk67yly"@
    ||| key == "age1ur4h5lpmgxu2u9jku0a0r87ydtdqnr0tnsetrlvxvgz3vh6fhqqqzyt4v9"@
    ||| key == "age1ur4h5lpmgxu2u9jku0a0r87ydtdqnr0tnsetrlvxvgz3vh6fhzqqxqejhu"@
    ||| key == "age1t7wft09r2zxzfvwsk92eeql0tvzyghxytqwgapkcyf8dm5ylz9ts6wm9s8"@
    ||| key == "age1t7wft09r2zxzfvwsk92eeql0tvzyghxytqwgapkcyf8dm5ylz8ts72fzt7"@
    ||| key == "age1anlllllllllllllllllllllllllllllllllllllllllllllllals4n2t7m"@
    ||| key == "age1anllllllllllllllllllllllllllllllllllllllllllllllllls3hcv9z"@
    ||| key == "age1ahlllllllllllllllllllllllllllllllllllllllllllllllalsn46ayy"@
    ||| key == "age1ahlllllllllllllllllllllllllllllllllllllllllllllllllsh3g6la"@
    ||| key == "age1amlllllllllllllllllllllllllllllllllllllllllllllllalselrwrv"@
    ||| key == "age1amlllllllllllllllllllllllllllllllllllllllllllllllllsam3fc4"@
}

/// Tells whether a public key is a point of small order.
pub fn is_weak(key: &str) -> (r: bool)
    ensures
        r == weak(key@),
{
    same_text(key, "age1qqqqqqqqqqqqqqqqqqqqqqqqqqqqqqqqqqqqqqqqqqqqqqqqqqqq5cu47z")
        || same_text(key, "age1qqqqqqqqqqqqqqqqqqqqqqqqqqqqqqqqqqqqqqqqqqqqqqqqqzqqsuwj9m")
        || same_text(key, "age1qyqqqqqqqqqqqqqqqqqqqqqqqqqqqqqqqqqqqqqqqqqqqqqqqqqqj7vrya")
        || same_text(key, "age1qyqqqqqqqqqqqqqqqqqqqqqqqqqqqqqqqqqqqqqqqqqqqqqqqzqqk67yly")
        || same_text(key, "age1ur4h5lpmgxu2u9jku0a0r87ydtdqnr0tnsetrlvxvgz3vh6fhqqqzyt4v9")
        || same_text(key, "age1ur4h5lpmgxu2u9jku0a0r87ydtdqnr0tnsetrlvxvgz3vh6fhzqqxqejhu")
        || same_text(key, "age1t7wft09r2zxzfvwsk92eeql0tvzyghxytqwgapkcyf8dm5ylz9ts6wm9s8")
        || same_text(key, "age1t7wft09r2zxzfvwsk92eeql0tvzyghxytqwgapkcyf8dm5ylz8ts72fzt7")
        || same_text(key, "age1anlllllllllllllllllllllllllllllllllllllllllllllllals4n2t7m")
        || same_text(key, "age1anllllllllllllllllllllllllllllllllllllllllllllllllls3hcv9z")
        || same_text(key, "age1ahlllllllllllllllllllllllllllllllllllllllllllllllalsn46ayy")
        || same_text(key, "age1ahlllllllllllllllllllllllllllllllllllllllllllllllllsh3g6la")
        || same_text(key, "age1amlllllllllllllllllllllllllllllllllllllllllllllllalselrwrv")
        || same_text(key, "age1amlllllllllllllllllllllllllllllllllllllllllllllllllsam3fc4")
}

/// Whether a text is a public key that files can be encrypted for.
pub open spec fn good_key(key: Seq<char>) -> bool {
    parsed_recipient(key) matches Some(recipient) && !weak(recipient)
}

/// Whether `sealed` is an encryption of a file for a public key: it is longer than the file, and
/// every secret key with that public key opens it and gets back the file.
pub open spec fn seals(sealed: Seq<u8>, key: Seq<char>, file: Seq<u8>) -> bool {
    &&& sealed.len() > file.len()
    &&& forall|secret: Seq<char>|
        recipient_of(secret) is Some && recipient_of(secret) == parsed_recipient(key)
            ==> #[trigger] opened(secret, sealed) == Some(file)
}

/// Encrypts a file for a public key, if it is one that files can be encrypted for.
pub fn seal_file(key: &str, file: &Vec<u8>) -> (r: Option<Vec<u8>>)
    ensures
        match r {
            Some(sealed) => good_key(key@) && seals(sealed@, key@, file@),
            None => !good_key(key@),
        },
{
    match parse_recipient(key) {
        Some(recipient) => if is_weak(recipient.as_str()) {
            None
        } else {
            seal(key, file)
        },
        None => None,
    }
}

/// Hardly any key is weak: those that are begin in one of seven ways.
pub proof fn law_weak_keys(key: Seq<char>)
    ensures
        weak(key) ==> key.len() == 62 && {
            ||| key.take(12) == "age1qqqqqqqq"@
            ||| key.take(12) == "age1qyqqqqqq"@
            ||| key.take(12) == "age1ur4h5lpm"@
            ||| key.take(12) == "age1t7wft09r"@
            ||| key.take(12) == "age1anllllll"@
            ||| key.take(12) == "age1ahllllll"@
            ||| key.take(12) == "age1amllllll"@
        },
{
    reveal_strlit("age1qqqqqqqqqqqqqqqqqqqqqqqqqqqqqqqqqqqqqqqqqqqqqqqqqqqq5cu47z");
    reveal_strlit("age1qqqqqqqqqqqqqqqqqqqqqqqqqqqqqqqqqqqqqqqqqqqqqqqqqzqqsuwj9m");
    reveal_strlit("age1qyqqqqqqqqqqqqqqqqqqqqqqqqqqqqqqqqqqqqqqqqqqqqqqqqqqj7vrya");
    reveal_strlit("age1qyqqqqqqqqqqqqqqqqqqqqqqqqqqqqqqqqqqqqqqqqqqqqqqqzqqk67yly");
    reveal_strlit("age1ur4h5lpmgxu2u9jku0a0r87ydtdqnr0tnsetrlvxvgz3vh6fhqqqzyt4v9");
    reveal_strlit("age1ur4h5lpmgxu2u9jku0a0r87ydtdqnr0tnsetrlvxvgz3vh6fhzqqxqejhu");
    reveal_strlit("age1t7wft09r2zxzfvwsk92eeql0tvzyghxytqwgapkcyf8dm5ylz9ts6wm9s8");
    reveal_strlit("age1t7wft09r2zxzfvwsk92eeql0tvzyghxytqwgapkcyf8dm5ylz8ts72fzt7");
    reveal_strlit("age1anlllllllllllllllllllllllllllllllllllllllllllllllals4n2t7m");
    reveal_strlit("age1anllllllllllllllllllllllllllllllllllllllllllllllllls3hcv9z");
    reveal_strlit("age1ahlllllllllllllllllllllllllllllllllllllllllllllllalsn46ayy");
    reveal_strlit("age1ahlllllllllllllllllllllllllllllllllllllllllllllllllsh3g6la");
    reveal_strlit("age1amlllllllllllllllllllllllllllllllllllllllllllllllalselrwrv");
    reveal_strlit("age1amlllllllllllllllllllllllllllllllllllllllllllllllllsam3fc4");
    reveal_strlit("age1qqqqqqqq");
    reveal_strlit("age1qyqqqqqq");
    reveal_strlit("age1ur4h5lpm");
    reveal_strlit("age1t7wft09r");
    reveal_strlit("age1anllllll");
    reveal_strlit("age1ahllllll");
    reveal_strlit("age1amllllll");
    if weak(key) {
        let start = key.take(12);
        assert(start =~= "age1qqqqqqqq"@ || start =~= "age1qyqqqqqq"@ || start
            =~= "age1ur4h5lpm"@ || start =~= "age1t7wft09r"@ || start =~= "age1anllllll"@ || start
            =~= "age1ahllllll"@ || start =~= "age1amllllll"@);
    }
}

/// What is encrypted for a public key is opened by the secret key that belongs to it, and gives
/// back the file; it is longer than the file.
pub proof fn law_sealed_is_opened(
    sealed: Seq<u8>,
    key: Seq<char>,
    file: Seq<u8>,
    secret: Seq<char>,
    recipient: Seq<char>,
)
    requires
        seals(sealed, key, file),
        parsed_recipient(key) == Some(recipient),
        recipient_of(secret) == Some(recipient),
    ensures
        opened(secret, sealed) == Some(file),
        sealed.len() > file.len(),
{
}

}
