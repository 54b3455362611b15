//! Text: white space, words, searching, joining and decimal numbers.
//!
//! A text is a sequence of characters. Positions count characters, not bytes.

use vstd::prelude::*;

verus! {

/// The contents of a list of texts.
pub open spec fn texts(list: Seq<String>) -> Seq<Seq<char>> {
    Seq::new(list.len(), |i: int| list[i]@)
}

/// The content of a text that may be absent.
pub open spec fn optional_text(text: Option<String>) -> Option<Seq<char>> {
    match text {
        Some(t) => Some(t@),
        None => None,
    }
}

/// Whether a character has the Unicode property `White_Space`.
pub open spec fn white_space(c: char) -> bool {
    let n = c as int;
    ||| 0x9 <= n <= 0xd
    ||| n == 0x20
    ||| n == 0x85
    ||| n == 0xa0
    ||| n == 0x1680
    ||| 0x2000 <= n <= 0x200a
    ||| n == 0x2028
    ||| n == 0x2029
    ||| n == 0x202f
    ||| n == 0x205f
    ||| n == 0x3000
}

/// Tells whether a character is white space.
pub fn is_white_space(c: char) -> (r: bool)
    ensures
        r == white_space(c),
{
    let n: u32 = c as u32;
    (0x9 <= n && n <= 0xd) || n == 0x20 || n == 0x85 || n == 0xa0 || n == 0x1680 || (0x2000 <= n
        && n <= 0x200a) || n == 0x2028 || n == 0x2029 || n == 0x202f || n == 0x205f || n == 0x3000
}

/// Compares two texts character by character.
pub fn same_text(a: &str, b: &str) -> (r: bool)
    ensures
        r == (a@ == b@),
{
    a.to_owned() == b.to_owned()
}

/// A copy of a list of texts.
pub fn clone_texts(list: &Vec<String>) -> (r: Vec<String>)
    ensures
        texts(r@) == texts(list@),
{
    let mut copy: Vec<String> = Vec::new();
    let mut i: usize = 0;
    while i < list.len()
        invariant
            i <= list.len(),
            copy.len() == i,
            forall|k: int| 0 <= k < i ==> copy[k]@ == #[trigger] list[k]@,
        decreases list.len() - i,
    {
        copy.push(list[i].clone());
        i = i + 1;
    }
    assert(texts(copy@) =~= texts(list@));
    copy
}

/// Whether `pattern` stands in `text` at position `at`.
pub open spec fn occurs_at(text: Seq<char>, pattern: Seq<char>, at: int) -> bool {
    &&& 0 <= at
    &&& at + pattern.len() <= text.len()
    &&& text.subrange(at, at + pattern.len()) == pattern
}

/// Whether `pattern` stands somewhere in `text`.
pub open spec fn occurs(text: Seq<char>, pattern: Seq<char>) -> bool {
    exists|at: int| occurs_at(text, pattern, at)
}

/// Whether `text` begins with `pattern`.
pub open spec fn begins_with(text: Seq<char>, pattern: Seq<char>) -> bool {
    occurs_at(text, pattern, 0)
}

/// The characters of a text.
pub fn characters(text: &str) -> (r: Vec<char>)
    ensures
        r@ == text@,
{
    let mut list: Vec<char> = Vec::new();
    for c in iter: text.chars()
        invariant
            iter.seq() == text@,
            list@ == text@.take(iter.index() as int),
    {
        proof {
            assert(text@.take(iter.index() as int).push(c) =~= text@.take(iter.index() + 1));
        }
        list.push(c);
    }
    proof {
        assert(text@.take(text@.len() as int) =~= text@);
    }
    list
}


fn matches_at(text: &Vec<char>, pattern: &Vec<char>, at: usize) -> (r: bool)
    ensures
        r == occurs_at(text@, pattern@, at as int),
{
    if pattern.len() > text.len() || at > text.len() - pattern.len() {
        return false;
    }
    let mut i: usize = 0;
    while i < pattern.len()
        invariant
            at + pattern.len() <= text.len(),
            i <= pattern.len(),
            forall|k: int| 0 <= k < i ==> text[at + k] == pattern[k],
        decreases pattern.len() - i,
    {
        if text[at + i] != pattern[i] {
            proof {
                assert(text@.subrange(at as int, at + pattern@.len())[i as int] == text[at + i]);
            }
            return false;
        }
        i = i + 1;
    }
    assert(text@.subrange(at as int, at + pattern@.len()) =~= pattern@);
    true
}

/// Tells whether `text` begins with `pattern`.
pub fn starts_with(text: &str, pattern: &str) -> (r: bool)
    ensures
        r == begins_with(text@, pattern@),
{
    matches_at(&characters(text), &characters(pattern), 0)
}

/// Tells whether `pattern` stands somewhere in `text`.
pub fn contains(text: &str, pattern: &str) -> (r: bool)
    ensures
        r == occurs(text@, pattern@),
{
    let t = characters(text);
    let p = characters(pattern);
    let mut at: usize = 0;
    while at < t.len()
        invariant
            t@ == text@,
            p@ == pattern@,
            at <= t.len(),
            forall|k: int| 0 <= k < at ==> !occurs_at(text@, pattern@, k),
        decreases t.len() - at,
    {
        if matches_at(&t, &p, at) {
            return true;
        }
        at = at + 1;
    }
    matches_at(&t, &p, at)
}

/// The last position, up to `from`, at which `pattern` stands in `text`.
pub open spec fn last_occurrence_upto(text: Seq<char>, pattern: Seq<char>, from: int) -> Option<int>
    decreases from + 1,
{
    if from < 0 {
        None
    } else if occurs_at(text, pattern, from) {
        Some(from)
    } else {
        last_occurrence_upto(text, pattern, from - 1)
    }
}

/// What follows the last occurrence of `pattern` in `text`, if there is one.
pub open spec fn after_last(text: Seq<char>, pattern: Seq<char>) -> Option<Seq<char>> {
    match last_occurrence_upto(text, pattern, text.len() as int) {
        Some(at) => Some(text.skip(at + pattern.len())),
        None => None,
    }
}

/// Copies what follows the last occurrence of `pattern` in `text`, if there is one.
pub fn text_after_last(text: &str, pattern: &str) -> (r: Option<String>)
    ensures
        optional_text(r) == after_last(text@, pattern@),
{
    let t = characters(text);
    let p = characters(pattern);
    let mut at: usize = t.len();
    loop
        invariant
            t@ == text@,
            p@ == pattern@,
            at <= t.len(),
            last_occurrence_upto(text@, pattern@, text@.len() as int) == last_occurrence_upto(
                text@,
                pattern@,
                at as int,
            ),
        decreases at,
    {
        if matches_at(&t, &p, at) {
            let rest = text.substring_char(at + p.len(), t.len());
            assert(rest@ =~= text@.skip(at + pattern@.len()));
            return Some(rest.to_owned());
        }
        if at == 0 {
            assert(last_occurrence_upto(text@, pattern@, -1) is None);
            return None;
        }
        at = at - 1;
    }
}

/// The number of characters of `text` before the first `c`, or all of them if there is none.
pub open spec fn until(text: Seq<char>, c: char) -> int
    decreases text.len(),
{
    if text.len() == 0 || text[0] == c {
        0
    } else {
        1 + until(text.skip(1), c)
    }
}

/// What stands before the first `c`: the whole text, where there is no `c`.
pub open spec fn before_first(text: Seq<char>, c: char) -> Seq<char> {
    text.take(until(text, c))
}

/// What follows the first `c`, if there is one.
pub open spec fn after_first(text: Seq<char>, c: char) -> Option<Seq<char>> {
    if until(text, c) < text.len() {
        Some(text.skip(until(text, c) + 1))
    } else {
        None
    }
}

/// `until` counts the characters before the first `c`.
pub proof fn lemma_until(text: Seq<char>, c: char)
    ensures
        0 <= until(text, c) <= text.len(),
        until(text, c) < text.len() ==> text[until(text, c)] == c,
        forall|i: int| 0 <= i < until(text, c) ==> text[i] != c,
    decreases text.len(),
{
    if text.len() > 0 && text[0] != c {
        let rest = text.skip(1);
        lemma_until(rest, c);
        assert forall|i: int| 0 <= i < until(text, c) implies text[i] != c by {
            if i > 0 {
                assert(text[i] == rest[i - 1]);
            }
        }
        if until(text, c) < text.len() {
            assert(text[until(text, c)] == rest[until(rest, c)]);
        }
    }
}

/// `until` is the only position with what `lemma_until` says of it.
pub proof fn lemma_until_is(text: Seq<char>, c: char, n: int)
    requires
        0 <= n <= text.len(),
        n < text.len() ==> text[n] == c,
        forall|i: int| 0 <= i < n ==> text[i] != c,
    ensures
        until(text, c) == n,
{
    lemma_until(text, c);
    if until(text, c) < n {
        assert(text[until(text, c)] != c);
    }
    if n < until(text, c) {
        assert(text[n] != c);
    }
}

/// A text that holds no `c` stands before it as a whole.
pub proof fn lemma_unseparated(text: Seq<char>, c: char)
    requires
        !text.contains(c),
    ensures
        before_first(text, c) == text,
        after_first(text, c) is None,
{
    assert forall|i: int| 0 <= i < text.len() implies text[i] != c by {
        assert(text.contains(text[i]));
    }
    lemma_until_is(text, c, text.len() as int);
    assert(before_first(text, c) =~= text);
}

/// A text that holds no `c` and one after it are parted by a `c` between them.
pub proof fn lemma_separated(text: Seq<char>, c: char, rest: Seq<char>)
    requires
        !text.contains(c),
    ensures
        before_first(text + seq![c] + rest, c) == text,
        after_first(text + seq![c] + rest, c) == Some(rest),
{
    let all = text + seq![c] + rest;
    assert forall|i: int| 0 <= i < text.len() implies all[i] != c by {
        assert(all[i] == text[i]);
        assert(text.contains(text[i]));
    }
    lemma_until_is(all, c, text.len() as int);
    assert(before_first(all, c) =~= text);
    assert(all.skip(text.len() as int + 1) =~= rest);
}

fn position_of(text: &Vec<char>, c: char) -> (r: usize)
    ensures
        r == until(text@, c),
{
    let mut i: usize = 0;
    while i < text.len()
        invariant
            i <= text.len(),
            forall|k: int| 0 <= k < i ==> text[k] != c,
        decreases text.len() - i,
    {
        if text[i] == c {
            proof {
                lemma_until_is(text@, c, i as int);
            }
            return i;
        }
        i = i + 1;
    }
    proof {
        lemma_until_is(text@, c, i as int);
    }
    i
}

/// Copies what stands before the first `c`.
pub fn text_before_first(text: &str, c: char) -> (r: String)
    ensures
        r@ == before_first(text@, c),
{
    let at: usize = position_of(&characters(text), c);
    proof {
        lemma_until(text@, c);
    }
    let head = text.substring_char(0, at);
    assert(head@ =~= before_first(text@, c));
    head.to_owned()
}

/// Copies what follows the first `c`, if there is one.
pub fn text_after_first(text: &str, c: char) -> (r: Option<String>)
    ensures
        optional_text(r) == after_first(text@, c),
{
    let t = characters(text);
    let at: usize = position_of(&t, c);
    if at < t.len() {
        let rest = text.substring_char(at + 1, t.len());
        assert(rest@ =~= text@.skip(at + 1));
        Some(rest.to_owned())
    } else {
        None
    }
}

/// A text without the white space in front.
pub open spec fn trimmed_start(text: Seq<char>) -> Seq<char>
    decreases text.len(),
{
    if text.len() > 0 && white_space(text[0]) {
        trimmed_start(text.skip(1))
    } else {
        text
    }
}

/// A text without the white space at the end.
pub open spec fn trimmed_end(text: Seq<char>) -> Seq<char>
    decreases text.len(),
{
    if text.len() > 0 && white_space(text.last()) {
        trimmed_end(text.drop_last())
    } else {
        text
    }
}

/// A text without the white space around it.
pub open spec fn trimmed(text: Seq<char>) -> Seq<char> {
    trimmed_end(trimmed_start(text))
}

/// Copies a text without the white space around it.
pub fn trim(text: &str) -> (r: String)
    ensures
        r@ == trimmed(text@),
{
    let t = characters(text);
    let mut from: usize = 0;
    assert(text@.skip(0) =~= text@);
    while from < t.len() && is_white_space(t[from])
        invariant
            t@ == text@,
            from <= t.len(),
            trimmed_start(text@.skip(from as int)) == trimmed_start(text@),
        decreases t.len() - from,
    {
        assert(text@.skip(from as int).skip(1) =~= text@.skip(from + 1));
        from = from + 1;
    }
    let ghost front = text@.skip(from as int);
    assert(trimmed_start(text@) == front);
    let mut to: usize = t.len();
    assert(front.take(to - from) =~= front);
    while from < to && is_white_space(t[to - 1])
        invariant
            t@ == text@,
            from <= to <= t.len(),
            front == text@.skip(from as int),
            trimmed_end(front.take(to - from)) == trimmed_end(front),
        decreases to,
    {
        let ghost rest = front.take(to - from);
        assert(rest.last() == t[to - 1]);
        assert(rest.drop_last() =~= front.take(to - 1 - from));
        to = to - 1;
    }
    let body = text.substring_char(from, to);
    proof {
        let rest = front.take(to - from);
        assert(body@ =~= rest);
        if from < to {
            assert(rest.last() == t[to - 1]);
        }
    }
    body.to_owned()
}

/// The length of the word that a text begins with.
pub open spec fn word_len(text: Seq<char>) -> int
    decreases text.len(),
{
    if text.len() == 0 || white_space(text[0]) {
        0
    } else {
        1 + word_len(text.skip(1))
    }
}

/// A word is no longer than the text that it begins.
pub proof fn lemma_word_len(text: Seq<char>)
    ensures
        0 <= word_len(text) <= text.len(),
        forall|i: int| 0 <= i < word_len(text) ==> !white_space(text[i]),
        word_len(text) < text.len() ==> white_space(text[word_len(text)]),
    decreases text.len(),
{
    if text.len() > 0 && !white_space(text[0]) {
        let rest = text.skip(1);
        lemma_word_len(rest);
        assert forall|i: int| 0 <= i < word_len(text) implies !white_space(text[i]) by {
            if i > 0 {
                assert(text[i] == rest[i - 1]);
            }
        }
        if word_len(text) < text.len() {
            assert(text[word_len(text)] == rest[word_len(rest)]);
        }
    }
}

/// The words of a text: its longest runs without white space, in order.
pub open spec fn words_of(text: Seq<char>) -> Seq<Seq<char>>
    decreases text.len(),
{
    if text.len() == 0 {
        Seq::empty()
    } else if white_space(text[0]) {
        words_of(text.skip(1))
    } else {
        proof {
            lemma_word_len(text);
        }
        seq![text.take(word_len(text))] + words_of(text.skip(word_len(text)))
    }
}

/// Splits a text into its words.
pub fn words(text: &str) -> (r: Vec<String>)
    ensures
        texts(r@) == words_of(text@),
{
    let t = characters(text);
    let mut list: Vec<String> = Vec::new();
    let mut i: usize = 0;
    assert(text@.skip(0) =~= text@);
    assert(texts(list@) + words_of(text@) =~= words_of(text@));
    while i < t.len()
        invariant
            t@ == text@,
            i <= t.len(),
            texts(list@) + words_of(text@.skip(i as int)) == words_of(text@),
        decreases t.len() - i,
    {
        let ghost rest = text@.skip(i as int);
        if is_white_space(t[i]) {
            assert(rest.skip(1) =~= text@.skip(i + 1));
            i = i + 1;
        } else {
            let mut j: usize = i + 1;
            assert(rest.skip(1) =~= text@.skip(j as int));
            while j < t.len() && !is_white_space(t[j])
                invariant
                    t@ == text@,
                    i < j <= t.len(),
                    rest == text@.skip(i as int),
                    word_len(rest) == j - i + word_len(text@.skip(j as int)),
                decreases t.len() - j,
            {
                assert(text@.skip(j as int).skip(1) =~= text@.skip(j + 1));
                j = j + 1;
            }
            let word = text.substring_char(i, j);
            let ghost before = list@;
            list.push(word.to_owned());
            proof {
                assert(word_len(rest) == j - i);
                assert(word@ =~= rest.take(word_len(rest)));
                assert(rest.skip(word_len(rest)) =~= text@.skip(j as int));
                assert(texts(list@) =~= texts(before) + seq![word@]);
                assert(texts(list@) + words_of(text@.skip(j as int)) =~= texts(before) + words_of(
                    rest,
                ));
            }
            i = j;
        }
    }
    assert(texts(list@) + words_of(text@.skip(t.len() as int)) =~= texts(list@));
    list
}


/// The first `n` texts of a list, with `separator` between them.
pub open spec fn joined_upto(list: Seq<Seq<char>>, separator: Seq<char>, n: nat) -> Seq<char>
    decreases n,
{
    if n == 0 {
        Seq::empty()
    } else if n == 1 {
        list[0]
    } else {
        joined_upto(list, separator, (n - 1) as nat) + separator + list[n - 1]
    }
}

/// The texts of a list, with `separator` between them.
pub open spec fn joined(list: Seq<Seq<char>>, separator: Seq<char>) -> Seq<char> {
    joined_upto(list, separator, list.len())
}

/// Joins the texts of a list, with `separator` between them.
pub fn join(list: &Vec<String>, separator: &str) -> (r: String)
    ensures
        r@ == joined(texts(list@), separator@),
{
    let mut text = String::new();
    let mut i: usize = 0;
    while i < list.len()
        invariant
            i <= list.len(),
            text@ == joined_upto(texts(list@), separator@, i as nat),
        decreases list.len() - i,
    {
        if i > 0 {
            text.append(separator);
        }
        text.append(list[i].as_str());
        assert(i == 0 ==> text@ =~= list[0]@);
        i = i + 1;
    }
    text
}

/// What is joined begins with the first text of the list, which the separator ends.
pub proof fn lemma_joined_head(list: Seq<Seq<char>>, separator: Seq<char>, n: nat)
    requires
        1 <= n <= list.len(),
    ensures
        begins_with(
            joined_upto(list, separator, n),
            if n == 1 {
                list[0]
            } else {
                list[0] + separator
            },
        ),
        n == 1 ==> joined_upto(list, separator, n) == list[0],
    decreases n,
{
    let all = joined_upto(list, separator, n);
    if n == 1 {
        assert(all.subrange(0, list[0].len() as int) =~= list[0]);
    } else {
        lemma_joined_head(list, separator, (n - 1) as nat);
        let front = joined_upto(list, separator, (n - 1) as nat);
        let head = list[0] + separator;
        if n == 2 {
            assert(all.subrange(0, head.len() as int) =~= head);
        } else {
            assert(all.subrange(0, head.len() as int) =~= front.subrange(0, head.len() as int));
        }
    }
}

/// The first of the texts joined by a separator character is what stands before the first
/// separator, provided that it does not hold one itself.
pub proof fn law_first_of_joined(list: Seq<Seq<char>>, c: char)
    requires
        list.len() > 0,
        !list[0].contains(c),
    ensures
        before_first(joined(list, seq![c]), c) == list[0],
{
    let all = joined(list, seq![c]);
    let n = list[0].len() as int;
    lemma_joined_head(list, seq![c], list.len());
    if list.len() > 1 {
        let head = list[0] + seq![c];
        assert(all.subrange(0, n + 1) == head);
        assert(all[n] == all.subrange(0, n + 1)[n]);
        assert forall|i: int| 0 <= i < n implies all[i] == list[0][i] by {
            assert(all[i] == all.subrange(0, n + 1)[i]);
        }
    }
    assert forall|i: int| 0 <= i < n implies all[i] != c by {
        assert(list[0].contains(list[0][i]));
    }
    lemma_until_is(all, c, n);
    assert(all.take(n) =~= list[0]);
}

/// The character of a decimal digit.
pub open spec fn digit(d: int) -> char {
    (48 + d) as char
}

/// A number in decimal notation, without leading zeros.
pub open spec fn decimal(n: nat) -> Seq<char>
    decreases n,
{
    if n < 10 {
        seq![digit(n as int)]
    } else {
        decimal(n / 10).push(digit((n % 10) as int))
    }
}

pub(crate) fn digit_text(d: u64) -> (r: &'static str)
    requires
        d < 10,
    ensures
        r@ == seq![digit(d as int)],
{
    proof {
        reveal_strlit("0123456789");
    }
    let all = "0123456789";
    let one = all.substring_char(d as usize, d as usize + 1);
    assert(one@ =~= seq![digit(d as int)]);
    one
}

/// Writes a number in decimal notation.
pub fn decimal_text(n: u64) -> (r: String)
    ensures
        r@ == decimal(n as nat),
    decreases n,
{
    if n < 10 {
        digit_text(n).to_owned()
    } else {
        let mut text = decimal_text(n / 10);
        text.append(digit_text(n % 10));
        assert(text@ =~= decimal(n as nat));
        text
    }
}


/// Whether a character is a decimal digit.
pub open spec fn is_digit(c: char) -> bool {
    48 <= c as int <= 57
}

/// The number that a sequence of decimal digits denotes.
pub open spec fn number(digits: Seq<char>) -> int
    decreases digits.len(),
{
    if digits.len() == 0 {
        0
    } else {
        10 * number(digits.drop_last()) + (digits.last() as int - 48)
    }
}

/// The digits of an unsigned number: what follows its plus sign, if it has one.
pub open spec fn unsigned_digits(text: Seq<char>) -> Seq<char> {
    if text.len() > 0 && text[0] == '+' {
        text.skip(1)
    } else {
        text
    }
}

/// The 16-bit number that a text denotes: digits, at least one, that may follow a plus sign.
pub open spec fn port_of(text: Seq<char>) -> Option<u16> {
    let digits = unsigned_digits(text);
    if digits.len() > 0 && (forall|i: int| 0 <= i < digits.len() ==> is_digit(digits[i])) && number(
        digits,
    ) <= 0xffff {
        Some(number(digits) as u16)
    } else {
        None
    }
}

proof fn lemma_number_grows(digits: Seq<char>, n: int)
    requires
        0 <= n <= digits.len(),
        forall|i: int| 0 <= i < digits.len() ==> is_digit(digits[i]),
    ensures
        0 <= number(digits.take(n)) <= number(digits),
    decreases digits.len() - n, digits.len(),
{
    if n == digits.len() {
        assert(digits.take(n) =~= digits);
        if n > 0 {
            lemma_number_grows(digits.drop_last(), n - 1);
            assert(digits.drop_last().take(n - 1) =~= digits.drop_last());
        }
    } else {
        lemma_number_grows(digits, n + 1);
        let next = digits.take(n + 1);
        assert(next.drop_last() =~= digits.take(n));
        assert(is_digit(next.last()));
        if n > 0 {
            lemma_number_grows(digits.take(n), n);
            assert(digits.take(n).take(n) =~= digits.take(n));
        }
    }
}

fn digit_value(c: char) -> (r: Option<u32>)
    ensures
        match r {
            Some(d) => is_digit(c) && d == c as int - 48,
            None => !is_digit(c),
        },
{
    let n: u32 = c as u32;
    if 48 <= n && n <= 57 {
        Some(n - 48)
    } else {
        None
    }
}

/// Reads a 16-bit number from a text.
pub fn parse_port(text: &str) -> (r: Option<u16>)
    ensures
        r == port_of(text@),
{
    let t = characters(text);
    let from: usize = if t.len() > 0 && t[0] == '+' {
        1
    } else {
        0
    };
    let ghost digits = unsigned_digits(text@);
    assert(digits =~= text@.skip(from as int));
    if from == t.len() {
        return None;
    }
    let mut value: u32 = 0;
    let mut i: usize = from;
    assert(digits.take(0) =~= Seq::empty());
    while i < t.len()
        invariant
            t@ == text@,
            from <= i <= t.len(),
            from < t.len(),
            digits == unsigned_digits(text@),
            digits == text@.skip(from as int),
            value <= 0xffff,
            value == number(digits.take(i - from)),
            forall|k: int| 0 <= k < i - from ==> is_digit(digits[k]),
        decreases t.len() - i,
    {
        proof {
            assert(digits[i - from] == t[i as int]);
        }
        let d: u32 = match digit_value(t[i]) {
            Some(d) => d,
            None => {
                return None;
            },
        };
        proof {
            let next = digits.take(i - from + 1);
            assert(next.drop_last() =~= digits.take(i - from));
            assert(next.last() == t[i as int]);
        }
        value = 10 * value + d;
        i = i + 1;
        if value > 0xffff {
            proof {
                if forall|k: int| 0 <= k < digits.len() ==> is_digit(digits[k]) {
                    lemma_number_grows(digits, i - from);
                }
            }
            return None;
        }
    }
    assert(digits.take(i - from) =~= digits);
    Some(value as u16)
}

pub proof fn lemma_decimal(n: nat)
    ensures
        decimal(n).len() > 0,
        forall|i: int| 0 <= i < decimal(n).len() ==> is_digit(decimal(n)[i]),
        number(decimal(n)) == n,
    decreases n,
{
    if n < 10 {
        assert(decimal(n).drop_last() =~= Seq::empty());
        assert(number(Seq::<char>::empty()) == 0);
    } else {
        lemma_decimal(n / 10);
        assert(decimal(n).drop_last() =~= decimal(n / 10));
    }
}

/// A 16-bit number is read back from its decimal notation.
pub proof fn law_port_round_trip(port: u16)
    ensures
        port_of(decimal(port as nat)) == Some(port),
{
    lemma_decimal(port as nat);
    let text = decimal(port as nat);
    assert(is_digit(text[0]));
    assert(text[0] != '+');
    assert(unsigned_digits(text) == text);
}

/// Whether a text is one word.
pub open spec fn is_word(text: Seq<char>) -> bool {
    &&& text.len() > 0
    &&& forall|i: int| 0 <= i < text.len() ==> !white_space(text[i])
}

/// The words of a text are words: not empty, and without white space.
pub proof fn law_words(text: Seq<char>)
    ensures
        forall|i: int| 0 <= i < words_of(text).len() ==> is_word(#[trigger] words_of(text)[i]),
    decreases text.len(),
{
    if text.len() > 0 {
        if white_space(text[0]) {
            law_words(text.skip(1));
            assert(words_of(text) == words_of(text.skip(1)));
        } else {
            lemma_word_len(text);
            let n = word_len(text);
            assert(words_of(text) == seq![text.take(n)] + words_of(text.skip(n)));
            let rest = words_of(text.skip(n));
            law_words(text.skip(n));
            assert(is_word(text.take(n)));
            assert forall|i: int| 0 <= i < words_of(text).len() implies is_word(
                #[trigger] words_of(text)[i],
            ) by {
                if i > 0 {
                    assert(words_of(text)[i] == rest[i - 1]);
                }
            }
        }
    }
}

proof fn lemma_word_len_is(text: Seq<char>, n: int)
    requires
        0 <= n <= text.len(),
        forall|i: int| 0 <= i < n ==> !white_space(text[i]),
        n < text.len() ==> white_space(text[n]),
    ensures
        word_len(text) == n,
{
    lemma_word_len(text);
    let m = word_len(text);
    if m < n {
        assert(!white_space(text[m]));
    }
    if n < m {
        assert(!white_space(text[n]));
    }
}

/// A word with a space and more text after it is the first word of the whole.
pub proof fn lemma_first_word(word: Seq<char>, rest: Seq<char>)
    requires
        is_word(word),
    ensures
        words_of(word) == seq![word],
        words_of(word + seq![' '] + rest) == seq![word] + words_of(rest),
{
    lemma_word_len_is(word, word.len() as int);
    assert(word.take(word.len() as int) =~= word);
    assert(words_of(word.skip(word.len() as int)) =~= Seq::<Seq<char>>::empty());
    assert(words_of(word) =~= seq![word]);
    let all = word + seq![' '] + rest;
    let n = word.len() as int;
    assert forall|i: int| 0 <= i < n implies !white_space(all[i]) by {
        assert(all[i] == word[i]);
    }
    lemma_word_len_is(all, n);
    assert(all.take(n) =~= word);
    let tail = all.skip(n);
    assert(tail[0] == ' ');
    assert(tail.skip(1) =~= rest);
    assert(words_of(tail) == words_of(rest));
}

/// Of the ASCII characters, space, tab, line feed, vertical tab, form feed and carriage return are
/// white space, and no other is.
pub proof fn law_ascii_white_space(c: char)
    requires
        c as int <= 127,
    ensures
        white_space(c) <==> c == ' ' || c == '\t' || c == '\n' || c as int == 11 || c as int == 12
            || c == '\r',
{
}

/// A text is parted at the first `c`: what stands before it holds none, and with the `c` and what
/// follows it makes up the text. A text without a `c` stands before it as a whole.
pub proof fn law_parted_at_first(text: Seq<char>, c: char)
    ensures
        !before_first(text, c).contains(c),
        match after_first(text, c) {
            Some(rest) => text == before_first(text, c) + seq![c] + rest,
            None => text == before_first(text, c),
        },
{
    lemma_until(text, c);
    let n = until(text, c);
    let before = before_first(text, c);
    if before.contains(c) {
        let i = choose|i: int| 0 <= i < before.len() && before[i] == c;
        assert(text[i] == c);
    }
    if n < text.len() {
        assert(text =~= before + seq![c] + text.skip(n + 1));
    } else {
        assert(text =~= before);
    }
}

/// Whether all of a text is white space.
pub open spec fn blank(text: Seq<char>) -> bool {
    forall|i: int| 0 <= i < text.len() ==> white_space(#[trigger] text[i])
}

proof fn lemma_trimmed_start(front: Seq<char>, rest: Seq<char>)
    requires
        blank(front),
    ensures
        trimmed_start(front + rest) == trimmed_start(rest),
    decreases front.len(),
{
    let all = front + rest;
    if front.len() > 0 {
        assert(all[0] == front[0]);
        assert(all.skip(1) =~= front.skip(1) + rest);
        assert forall|i: int| 0 <= i < front.skip(1).len() implies white_space(
            #[trigger] front.skip(1)[i],
        ) by {
            assert(front.skip(1)[i] == front[i + 1]);
        }
        lemma_trimmed_start(front.skip(1), rest);
    } else {
        assert(all =~= rest);
    }
}

proof fn lemma_trimmed_end(rest: Seq<char>, back: Seq<char>)
    requires
        blank(back),
    ensures
        trimmed_end(rest + back) == trimmed_end(rest),
    decreases back.len(),
{
    let all = rest + back;
    if back.len() > 0 {
        assert(all.last() == back.last());
        assert(white_space(back[back.len() - 1]));
        assert(all.drop_last() =~= rest + back.drop_last());
        assert forall|i: int| 0 <= i < back.drop_last().len() implies white_space(
            #[trigger] back.drop_last()[i],
        ) by {
            assert(back.drop_last()[i] == back[i]);
        }
        lemma_trimmed_end(rest, back.drop_last());
    } else {
        assert(all =~= rest);
    }
}

/// White space around a text is taken away, all of it and nothing else.
pub proof fn law_trimmed(front: Seq<char>, text: Seq<char>, back: Seq<char>)
    requires
        blank(front),
        blank(back),
        text.len() > 0 ==> !white_space(text[0]) && !white_space(text.last()),
    ensures
        trimmed(front + text + back) == text,
{
    let all = front + text + back;
    assert(all =~= front + (text + back));
    lemma_trimmed_start(front, text + back);
    if text.len() == 0 {
        assert(text + back =~= back);
        assert(back =~= back + text);
        lemma_trimmed_start(back, text);
        assert(trimmed_start(text) == text);
    } else {
        assert((text + back)[0] == text[0]);
        lemma_trimmed_end(text, back);
    }
}

/// The words of a text are what its white space parts: a word that stands in front of it is the
/// first one, and white space itself adds none.
pub proof fn law_words_are_parted(word: Seq<char>, c: char, rest: Seq<char>)
    requires
        is_word(word),
        white_space(c),
    ensures
        words_of(Seq::<char>::empty()) == Seq::<Seq<char>>::empty(),
        words_of(seq![c] + rest) == words_of(rest),
        words_of(word) == seq![word],
        words_of(word + seq![c] + rest) == seq![word] + words_of(rest),
{
    let blank_first = seq![c] + rest;
    assert(blank_first[0] == c);
    assert(blank_first.skip(1) =~= rest);
    lemma_first_word(word, rest);
    let all = word + seq![c] + rest;
    let n = word.len() as int;
    assert forall|i: int| 0 <= i < n implies !white_space(all[i]) by {
        assert(all[i] == word[i]);
    }
    lemma_word_len_is(all, n);
    assert(all.take(n) =~= word);
    assert(all.skip(n) =~= blank_first);
    assert(words_of(blank_first) == words_of(rest));
    assert(words_of(all) == seq![all.take(n)] + words_of(all.skip(n)));
}

proof fn lemma_joined_upto(
    list: Seq<Seq<char>>,
    more: Seq<Seq<char>>,
    separator: Seq<char>,
    n: nat,
)
    requires
        n <= list.len(),
        n <= more.len(),
        forall|i: int| 0 <= i < n ==> list[i] == more[i],
    ensures
        joined_upto(list, separator, n) == joined_upto(more, separator, n),
    decreases n,
{
    if n > 1 {
        lemma_joined_upto(list, more, separator, (n - 1) as nat);
    }
}

/// Texts that are joined follow one another in order, each but the first after a separator.
pub proof fn law_joined(list: Seq<Seq<char>>, separator: Seq<char>, text: Seq<char>)
    ensures
        joined(Seq::<Seq<char>>::empty(), separator) == Seq::<char>::empty(),
        joined(seq![text], separator) == text,
        list.len() > 0 ==> joined(list.push(text), separator) == joined(list, separator) + separator
            + text,
{
    lemma_joined_upto(list, list.push(text), separator, list.len());
}

/// A number in decimal notation is its last digit after the rest of it; a single digit stands for
/// itself. So there are no leading zeros.
pub proof fn law_decimal(n: nat, d: nat)
    requires
        d < 10,
    ensures
        decimal(d) == seq![(48 + d) as char],
        n > 0 ==> decimal(10 * n + d) == decimal(n) + seq![(48 + d) as char],
        n > 0 ==> decimal(n)[0] != '0',
    decreases n,
{
    if n > 0 {
        assert((10 * n + d) / 10 == n && (10 * n + d) % 10 == d);
        assert(decimal(10 * n + d) =~= decimal(n) + seq![(48 + d) as char]);
        lemma_decimal(n);
        if n >= 10 {
            law_decimal(n / 10, n % 10);
            lemma_decimal(n / 10);
            assert(decimal(n)[0] == decimal(n / 10)[0]);
        }
    }
}

proof fn lemma_number_of_zero(text: Seq<char>)
    ensures
        number(seq!['0'] + text) == number(text),
    decreases text.len(),
{
    let all = seq!['0'] + text;
    if text.len() == 0 {
        assert(all.drop_last() =~= text);
        assert(number(text) == 0);
    } else {
        assert(all.drop_last() =~= seq!['0'] + text.drop_last());
        lemma_number_of_zero(text.drop_last());
    }
}

/// Which texts are read as a port: nothing but decimal digits, at least one, that may follow a
/// plus sign and may begin with zeros, and no number that takes more than 16 bits.
pub proof fn law_port_of(n: nat, text: Seq<char>, i: int)
    requires
        0 <= i < text.len(),
    ensures
        n > 0xffff ==> port_of(decimal(n)) is None,
        port_of(Seq::<char>::empty()) is None,
        port_of(seq!['+']) is None,
        !('0' <= text[i] && text[i] <= '9') && !(i == 0 && text[0] == '+') ==> port_of(
            text,
        ) is None,
        text[0] != '+' ==> port_of(seq!['+'] + text) == port_of(text),
        text[0] != '+' ==> port_of(seq!['0'] + text) == port_of(text),
{
    lemma_decimal(n);
    assert(is_digit(decimal(n)[0]));
    assert(unsigned_digits(seq!['+']) =~= Seq::<char>::empty());
    if text[0] != '+' {
        assert((seq!['+'] + text).skip(1) =~= text);
        let more = seq!['0'] + text;
        assert(more[0] == '0');
        lemma_number_of_zero(text);
        assert(is_digit('0'));
        if forall|k: int| 0 <= k < text.len() ==> is_digit(text[k]) {
            assert forall|k: int| 0 <= k < more.len() implies is_digit(more[k]) by {
                if k > 0 {
                    assert(more[k] == text[k - 1]);
                }
            }
        } else {
            let k = choose|k: int| 0 <= k < text.len() && !is_digit(text[k]);
            assert(more[k + 1] == text[k]);
        }
    }
    let digits = unsigned_digits(text);
    if !('0' <= text[i] && text[i] <= '9') && !(i == 0 && text[0] == '+') {
        if text[0] == '+' {
            assert(digits[i - 1] == text[i]);
        } else {
            assert(digits[i] == text[i]);
        }
    }
}

/// What follows the last occurrence of a pattern goes on to the end of the text. Where the pattern
/// does not occur, nothing follows it.
pub proof fn law_after_last(front: Seq<char>, pattern: Seq<char>, rest: Seq<char>)
    ensures
        ({
            let text = front + pattern + rest;
            (forall|at: int|
                front.len() < at && at + pattern.len() <= text.len() ==> #[trigger] text.subrange(
                    at,
                    at + pattern.len(),
                ) != pattern) ==> after_last(text, pattern) == Some(rest)
        }),
        (forall|at: int|
            0 <= at && at + pattern.len() <= front.len() ==> #[trigger] front.subrange(
                at,
                at + pattern.len(),
            ) != pattern) ==> after_last(front, pattern) is None,
{
    let text = front + pattern + rest;
    let n = front.len() as int;
    assert(text.subrange(n, n + pattern.len()) =~= pattern);
    if forall|at: int|
        n < at && at + pattern.len() <= text.len() ==> #[trigger] text.subrange(
            at,
            at + pattern.len(),
        ) != pattern {
        lemma_last_at(text, pattern, n, text.len() as int);
        assert(text.skip(n + pattern.len()) =~= rest);
    }
    if forall|at: int|
        0 <= at && at + pattern.len() <= front.len() ==> #[trigger] front.subrange(
            at,
            at + pattern.len(),
        ) != pattern {
        lemma_last_nowhere(front, pattern, front.len() as int);
    }
}

proof fn lemma_last_at(text: Seq<char>, pattern: Seq<char>, at: int, from: int)
    requires
        0 <= at <= from,
        occurs_at(text, pattern, at),
        forall|later: int| at < later ==> !occurs_at(text, pattern, later),
    ensures
        last_occurrence_upto(text, pattern, from) == Some(at),
    decreases from,
{
    if at < from {
        lemma_last_at(text, pattern, at, from - 1);
    }
}

proof fn lemma_last_nowhere(text: Seq<char>, pattern: Seq<char>, from: int)
    requires
        forall|at: int| !occurs_at(text, pattern, at),
    ensures
        last_occurrence_upto(text, pattern, from) is None,
    decreases from + 1,
{
    if from >= 0 {
        lemma_last_nowhere(text, pattern, from - 1);
    }
}

/// Beyond ASCII, white space is the next-line character and the spaces and separators of Unicode,
/// and nothing else.
pub proof fn law_other_white_space(c: char)
    requires
        c as int > 127,
    ensures
        white_space(c) <==> c == '\u{85}' || c == '\u{a0}' || c == '\u{1680}' || ('\u{2000}' <= c
            && c <= '\u{200a}') || c == '\u{2028}' || c == '\u{2029}' || c == '\u{202f}' || c
            == '\u{205f}' || c == '\u{3000}',
{
}

/// A text holds whatever stands somewhere in it, and begins with what it begins with.
pub proof fn law_occurs(front: Seq<char>, pattern: Seq<char>, back: Seq<char>)
    ensures
        occurs(front + pattern + back, pattern),
        begins_with(pattern + back, pattern),
        begins_with(front, pattern) ==> pattern.len() <= front.len() && front.take(
            pattern.len() as int,
        ) == pattern,
        (forall|at: int|
            0 <= at && at + pattern.len() <= front.len() ==> #[trigger] front.subrange(
                at,
                at + pattern.len(),
            ) != pattern) ==> !occurs(front, pattern),
{
    let n = front.len() as int;
    let text = front + pattern + back;
    assert(text.subrange(n, n + pattern.len()) =~= pattern);
    assert(occurs_at(text, pattern, n));
    assert((pattern + back).subrange(0, pattern.len() as int) =~= pattern);
    if begins_with(front, pattern) {
        assert(front.take(pattern.len() as int) =~= front.subrange(0, pattern.len() as int));
    }
    if occurs(front, pattern) {
        let at = choose|at: int| occurs_at(front, pattern, at);
        assert(front.subrange(at, at + pattern.len()) == pattern);
    }
}

}
