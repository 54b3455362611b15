use swapbytes::sealing::{is_weak, seal_file};

fn pair() -> (age::x25519::Identity, String) {
    let identity = age::x25519::Identity::generate();
    let key = identity.to_public().to_string();
    (identity, key)
}

#[test]
fn a_sealed_file_is_opened() {
    for size in [0usize, 1, 1000, 65535, 65536, 65537, 131072] {
        let (identity, key) = pair();
        let file = vec![7u8; size];
        let sealed = seal_file(&key, &file).unwrap();
        assert!(sealed.len() > file.len());
        assert_eq!(age::decrypt(&identity, &sealed).unwrap(), file);
        assert!(age::decrypt(&pair().0, &sealed).is_err());
    }
}

#[test]
fn a_key_may_be_in_capitals() {
    let (identity, key) = pair();
    let sealed = seal_file(&key.to_uppercase(), &vec![1, 2, 3]).unwrap();
    assert_eq!(age::decrypt(&identity, &sealed).unwrap(), vec![1, 2, 3]);
}

#[test]
fn nothing_is_sealed_for_what_is_no_key() {
    for key in ["", "age1", "bob", "AGE-SECRET-KEY-1"] {
        assert_eq!(seal_file(key, &vec![1]), None);
    }
    assert!(!is_weak(&pair().1));
}

#[test]
fn nothing_is_sealed_for_weak_keys() {
    let weak = [
        "age1qqqqqqqqqqqqqqqqqqqqqqqqqqqqqqqqqqqqqqqqqqqqqqqqqqqq5cu47z",
        "age1qqqqqqqqqqqqqqqqqqqqqqqqqqqqqqqqqqqqqqqqqqqqqqqqqzqqsuwj9m",
        "age1qyqqqqqqqqqqqqqqqqqqqqqqqqqqqqqqqqqqqqqqqqqqqqqqqqqqj7vrya",
        "age1qyqqqqqqqqqqqqqqqqqqqqqqqqqqqqqqqqqqqqqqqqqqqqqqqzqqk67yly",
        "age1ur4h5lpmgxu2u9jku0a0r87ydtdqnr0tnsetrlvxvgz3vh6fhqqqzyt4v9",
        "age1ur4h5lpmgxu2u9jku0a0r87ydtdqnr0tnsetrlvxvgz3vh6fhzqqxqejhu",
        "age1t7wft09r2zxzfvwsk92eeql0tvzyghxytqwgapkcyf8dm5ylz9ts6wm9s8",
        "age1t7wft09r2zxzfvwsk92eeql0tvzyghxytqwgapkcyf8dm5ylz8ts72fzt7",
        "age1anlllllllllllllllllllllllllllllllllllllllllllllllals4n2t7m",
        "age1anllllllllllllllllllllllllllllllllllllllllllllllllls3hcv9z",
        "age1ahlllllllllllllllllllllllllllllllllllllllllllllllalsn46ayy",
        "age1ahlllllllllllllllllllllllllllllllllllllllllllllllllsh3g6la",
        "age1amlllllllllllllllllllllllllllllllllllllllllllllllalselrwrv",
        "age1amlllllllllllllllllllllllllllllllllllllllllllllllllsam3fc4",
    ];
    for key in weak {
        assert!(key.parse::<age::x25519::Recipient>().is_ok());
        assert!(is_weak(key));
        assert_eq!(seal_file(key, &vec![1]), None);
        assert_eq!(seal_file(&key.to_uppercase(), &vec![1]), None);
    }
}
