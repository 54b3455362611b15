//! The settings file by which a rendezvous server tells clients where it is.

use crate::text::{
    after_first, before_first, begins_with, lemma_separated, lemma_unseparated, lemma_until,
    lemma_until_is, optional_text, starts_with, text_after_first, text_before_first, trim, trimmed,
};
use vstd::prelude::*;

verus! {

/// The contents of the settings file of a server with this address.
pub open spec fn settings_for(address: Seq<char>) -> Seq<char> {
    "RENDEZVOUS_SERVER="@ + address + "\n"@
}

/// Writes the contents of the settings file of a server.
pub fn write_settings(address: &str) -> (r: String)
    ensures
        r@ == settings_for(address@),
{
    let mut text = "RENDEZVOUS_SERVER=".to_owned();
    text.append(address);
    text.append("\n");
    text
}

/// The server address that a settings file gives: what its first line for it says, without the
/// white space around it.
pub open spec fn server_in(settings: Seq<char>) -> Option<Seq<char>>
    decreases settings.len(),
{
    let line = before_first(settings, '\n');
    if begins_with(line, "RENDEZVOUS_SERVER="@) {
        Some(trimmed(line.skip("RENDEZVOUS_SERVER="@.len() as int)))
    } else {
        match after_first(settings, '\n') {
            Some(rest) => {
                proof {
                    lemma_until(settings, '\n');
                }
                server_in(rest)
            },
            None => None,
        }
    }
}

/// Finds the server address that a settings file gives.
pub fn read_settings(settings: &str) -> (r: Option<String>)
    ensures
        optional_text(r) == server_in(settings@),
{
    let mut rest: String = settings.to_owned();
    loop
        invariant
            server_in(rest@) == server_in(settings@),
        decreases rest@.len(),
    {
        let line = text_before_first(rest.as_str(), '\n');
        if starts_with(line.as_str(), "RENDEZVOUS_SERVER=") {
            let n: usize = "RENDEZVOUS_SERVER=".unicode_len();
            let value = line.as_str().substring_char(n, line.as_str().unicode_len());
            assert(value@ =~= line@.skip(n as int));
            return Some(trim(value));
        }
        proof {
            lemma_until(rest@, '\n');
        }
        match text_after_first(rest.as_str(), '\n') {
            Some(more) => {
                rest = more;
            },
            None => {
                return None;
            },
        }
    }
}

/// The rendezvous server that a client uses: the one that it was told, or else the one that the
/// settings file gives.
pub open spec fn server_for(told: Option<Seq<char>>, settings: Option<Seq<char>>) -> Option<
    Seq<char>,
> {
    match told {
        Some(address) => Some(address),
        None => match settings {
            Some(contents) => server_in(contents),
            None => None,
        },
    }
}

/// Chooses the rendezvous server of a client, given the contents of its settings file, if it
/// has one.
pub fn choose_server(told: Option<String>, settings: Option<String>) -> (r: Option<String>)
    ensures
        optional_text(r) == server_for(optional_text(told), optional_text(settings)),
{
    match told {
        Some(address) => Some(address),
        None => match settings {
            Some(contents) => read_settings(contents.as_str()),
            None => None,
        },
    }
}

/// A client that was told no server finds in the settings file the address that the server wrote
/// there, provided that it is on one line. White space around it does not count.
pub proof fn law_settings_round_trip(address: Seq<char>)
    requires
        !address.contains('\n'),
    ensures
        server_for(None, Some(settings_for(address))) == Some(trimmed(address)),
{
    reveal_strlit("RENDEZVOUS_SERVER=");
    reveal_strlit("\n");
    let key = "RENDEZVOUS_SERVER="@;
    let all = settings_for(address);
    let line = key + address;
    assert forall|i: int| 0 <= i < line.len() implies all[i] != '\n' by {
        if i >= key.len() {
            assert(all[i] == address[i - key.len()]);
            assert(address.contains(address[i - key.len()]));
        } else {
            assert(all[i] == key[i]);
        }
    }
    lemma_until_is(all, '\n', line.len() as int);
    assert(before_first(all, '\n') =~= line);
    assert(line.subrange(0, key.len() as int) =~= key);
    assert(line.skip(key.len() as int) =~= address);
}

/// A settings file is read line by line: the first line that begins with the name of the setting
/// gives the server, which is what follows on it, without white space around; lines before it do
/// not count, nor does what follows it.
pub proof fn law_settings_are_read_by_lines(
    line: Seq<char>,
    value: Seq<char>,
    rest: Seq<char>,
)
    requires
        !line.contains('\n'),
        !value.contains('\n'),
        line.len() < 18 || line.take(18) != "RENDEZVOUS_SERVER="@,
    ensures
        server_in(line) is None,
        server_in(line + seq!['\n'] + rest) == server_in(rest),
        server_in("RENDEZVOUS_SERVER="@ + value) == Some(trimmed(value)),
        server_in("RENDEZVOUS_SERVER="@ + value + seq!['\n'] + rest) == Some(trimmed(value)),
{
    reveal_strlit("RENDEZVOUS_SERVER=");
    let key = "RENDEZVOUS_SERVER="@;
    let named = key + value;
    if named.contains('\n') {
        let i = choose|i: int| 0 <= i < named.len() && named[i] == '\n';
        if i < 18 {
            assert(named[i] == key[i]);
        } else {
            assert(value[i - 18] == '\n');
            assert(value.contains('\n'));
        }
    }
    lemma_unseparated(line, '\n');
    lemma_separated(line, '\n', rest);
    lemma_unseparated(named, '\n');
    lemma_separated(named, '\n', rest);
    if line.len() >= 18 {
        assert(line.take(18) =~= line.subrange(0, 18));
    }
    assert(named.subrange(0, 18) =~= key);
    assert(named.skip(18) =~= value);
}

/// A client that was told a server uses that one, whatever the settings file says; one that was
/// told none uses the one of the settings file, if there is such a file and it gives one.
pub proof fn law_told_server_goes_first(
    told: Seq<char>,
    settings: Option<Seq<char>>,
    contents: Seq<char>,
)
    ensures
        server_for(Some(told), settings) == Some(told),
        server_for(None, None) is None,
        server_for(None, Some(contents)) == server_in(contents),
{
}

/// The settings file of a server is one line, with its whole address after the name of the setting.
pub proof fn law_settings_file(address: Seq<char>)
    ensures
        settings_for(address) == "RENDEZVOUS_SERVER="@ + address + seq!['\n'],
{
    reveal_strlit("\n");
    assert("\n"@ =~= seq!['\n']);
}

}
