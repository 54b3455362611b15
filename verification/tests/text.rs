use swapbytes::clock::{show_time, time_of_message, usable_timestamp};
use swapbytes::settings::{choose_server, read_settings, write_settings};
use swapbytes::text::{
    characters, clone_texts, contains, decimal_text, is_white_space, join, parse_port, same_text,
    starts_with, text_after_first, text_after_last, text_before_first, trim, words,
};

#[test]
fn white_space_is_that_of_unicode() {
    for n in 0..=0x10ffffu32 {
        if let Some(c) = char::from_u32(n) {
            assert_eq!(is_white_space(c), c.is_whitespace(), "{:x}", n);
        }
    }
}

#[test]
fn texts_are_compared_by_characters() {
    assert!(same_text("Bob", "Bob"));
    assert!(!same_text("Bob", "bob"));
    assert!(!same_text("Bob", "Bobby"));
    assert!(same_text("", ""));
}

#[test]
fn characters_are_not_bytes() {
    assert_eq!(characters("aé✓"), vec!['a', 'é', '✓']);
    assert_eq!(characters(""), Vec::<char>::new());
}

#[test]
fn lists_are_copied() {
    let list = vec!["a".to_string(), "".to_string(), "b c".to_string()];
    assert_eq!(clone_texts(&list), list);
}

#[test]
fn text_is_searched() {
    assert!(starts_with("/help", "/"));
    assert!(!starts_with("help", "/"));
    assert!(!starts_with("", "/"));
    assert!(starts_with("abc", ""));
    assert!(contains("/ip4/127.0.0.1/tcp/80", "/ip4/127.0.0.1/"));
    assert!(!contains("/ip4/127.0.0.10/tcp/80", "/ip4/127.0.0.1/"));
    assert!(contains("xxabc", "abc"));
    assert!(!contains("ab", "abc"));
    assert!(contains("", ""));
}

#[test]
fn what_follows_the_last_occurrence() {
    assert_eq!(text_after_last("/ip4/1.2.3.4/p2p/A/p2p/B", "/p2p/"), Some("B".to_string()));
    assert_eq!(text_after_last("/p2p/", "/p2p/"), Some("".to_string()));
    assert_eq!(text_after_last("/ip4/1.2.3.4", "/p2p/"), None);
    assert_eq!(text_after_last("", "/p2p/"), None);
    for text in ["aaa", "é/p2p/✓", "/p2p//p2p/", "/p2p"] {
        assert_eq!(
            text_after_last(text, "/p2p/"),
            text.rfind("/p2p/").map(|at| text[at + 5..].to_string())
        );
    }
}

#[test]
fn text_is_cut_at_the_first_separator() {
    assert_eq!(text_before_first("/dm Bob  x", ' '), "/dm");
    assert_eq!(text_after_first("/dm Bob  x", ' '), Some("Bob  x".to_string()));
    assert_eq!(text_before_first("/help", ' '), "/help");
    assert_eq!(text_after_first("/help", ' '), None);
    assert_eq!(text_after_first("/dm ", ' '), Some("".to_string()));
}

#[test]
fn white_space_is_trimmed() {
    for text in ["", " ", "  a b\t\n", "\u{3000}x\u{a0}", "x", " x", "x "] {
        assert_eq!(trim(text), text.trim());
    }
}

#[test]
fn words_are_split() {
    for text in ["", "  ", "/barter 1.txt 2.txt", "\t/barter\u{2003}a  b \n", "x", " x"] {
        let expected: Vec<String> = text.split_whitespace().map(|w| w.to_string()).collect();
        assert_eq!(words(text), expected);
    }
    assert_eq!(words("/barter 1.txt 2.txt"), vec!["/barter", "1.txt", "2.txt"]);
}

#[test]
fn texts_are_joined() {
    let list = vec!["a".to_string(), "b".to_string(), "c".to_string()];
    assert_eq!(join(&list, ", "), "a, b, c");
    assert_eq!(join(&vec![], ","), "");
    assert_eq!(join(&vec!["a".to_string()], ","), "a");
}

#[test]
fn numbers_are_written_in_decimal() {
    for n in [0u64, 7, 10, 99, 100, 50001, 65535, u64::MAX] {
        assert_eq!(decimal_text(n), n.to_string());
    }
}

#[test]
fn ports_are_read() {
    for text in [
        "", "+", "-", "0", "+0", "-0", "00080", "65535", "65536", "+65535", "99999999999999999999",
        "80 ", " 80", "8a", "++8", "٣", "50002",
    ] {
        assert_eq!(parse_port(text), text.parse::<u16>().ok(), "{}", text);
    }
    assert_eq!(parse_port("50002"), Some(50002));
}

#[test]
fn every_port_is_read_back() {
    for port in 0..=65535u16 {
        assert_eq!(parse_port(&decimal_text(port as u64)), Some(port));
    }
}

#[test]
fn times_are_shown() {
    assert_eq!(show_time(0), "00:00:00");
    assert_eq!(show_time(86399), "23:59:59");
    assert_eq!(show_time(1431648000 + 3723), "01:02:03");
    assert_eq!(show_time(8210266876799), "23:59:59");
    assert_eq!(show_time(8210266876800), "??:??:??");
    assert_eq!(show_time(u64::MAX), "23:59:59");
    assert_eq!(show_time(i64::MAX as u64), "??:??:??");
    assert_eq!(show_time(i64::MAX as u64 + 1), "??:??:??");
    assert_eq!(show_time((-8334601228800i64) as u64), "00:00:00");
    assert_eq!(show_time((-8334601228801i64) as u64), "??:??:??");
}

#[test]
fn times_are_those_of_chrono() {
    for n in [1u64, 59, 60, 3599, 3600, 1700000000, 1763212345, u64::MAX - 100000] {
        let expected = chrono::DateTime::<chrono::Utc>::from_timestamp(n as i64, 0)
            .map(|dt| dt.format("%H:%M:%S").to_string())
            .unwrap_or_else(|| "??:??:??".to_string());
        assert_eq!(show_time(n), expected);
    }
}

#[test]
fn settings_give_back_the_server() {
    let address = "/ip4/192.168.1.5/tcp/50002/p2p/QmcgpsyWgH8Y8ajJz1Cu72KnS5uo2Aa2LpzU7kinSupNKC";
    assert_eq!(write_settings(address), format!("RENDEZVOUS_SERVER={}\n", address));
    assert_eq!(read_settings(&write_settings(address)), Some(address.to_string()));
    assert_eq!(
        read_settings("# comment\r\nOTHER=1\r\nRENDEZVOUS_SERVER= /ip4/1.2.3.4 \r\n"),
        Some("/ip4/1.2.3.4".to_string())
    );
    assert_eq!(read_settings("OTHER=1"), None);
    assert_eq!(read_settings(""), None);
    assert_eq!(read_settings("RENDEZVOUS_SERVER="), Some("".to_string()));
}

#[test]
fn a_told_server_comes_before_the_settings() {
    let settings = Some(write_settings("/ip4/1.2.3.4"));
    assert_eq!(
        choose_server(Some("/ip4/9.9.9.9".to_string()), settings.clone()),
        Some("/ip4/9.9.9.9".to_string())
    );
    assert_eq!(choose_server(None, settings), Some("/ip4/1.2.3.4".to_string()));
    assert_eq!(choose_server(None, None), None);
}

#[test]
fn a_clock_may_be_unusable() {
    assert_eq!(usable_timestamp(None), None);
    assert_eq!(usable_timestamp(Some(0)), Some(0));
    assert_eq!(usable_timestamp(Some(8210266876799)), Some(8210266876799));
    assert_eq!(usable_timestamp(Some(8210266876800)), None);
    assert_eq!(usable_timestamp(Some(u64::MAX)), None);
    assert_eq!(time_of_message(Some(77)), Some(77));
    assert_eq!(time_of_message(Some(-1)), Some(u64::MAX));
    assert_eq!(time_of_message(None), None);
}
