//! Tables that hold one value per peer, in the order in which the peers came.

use crate::text::same_text;
use vstd::prelude::*;

verus! {

/// The position of the first row of `key`, or the number of rows if it has none.
pub open spec fn position<V>(rows: Seq<(Seq<char>, V)>, key: Seq<char>) -> int
    decreases rows.len(),
{
    if rows.len() == 0 || rows[0].0 == key {
        0
    } else {
        1 + position(rows.skip(1), key)
    }
}

/// Whether `key` has a row.
pub open spec fn holds<V>(rows: Seq<(Seq<char>, V)>, key: Seq<char>) -> bool {
    position(rows, key) < rows.len()
}

/// The value of `key`, if it has a row.
pub open spec fn lookup<V>(rows: Seq<(Seq<char>, V)>, key: Seq<char>) -> Option<V> {
    if holds(rows, key) {
        Some(rows[position(rows, key)].1)
    } else {
        None
    }
}

/// The rows once `key` has been given a value: its row keeps its place, a new one comes last.
pub open spec fn with<V>(rows: Seq<(Seq<char>, V)>, key: Seq<char>, value: V) -> Seq<
    (Seq<char>, V),
> {
    if holds(rows, key) {
        rows.update(position(rows, key), (key, value))
    } else {
        rows.push((key, value))
    }
}

/// The rows without that of `key`.
pub open spec fn without<V>(rows: Seq<(Seq<char>, V)>, key: Seq<char>) -> Seq<(Seq<char>, V)> {
    if holds(rows, key) {
        rows.remove(position(rows, key))
    } else {
        rows
    }
}

/// Whether no key has two rows.
pub open spec fn distinct<V>(rows: Seq<(Seq<char>, V)>) -> bool {
    forall|i: int, j: int| 0 <= i < j < rows.len() ==> (#[trigger] rows[i]).0 != (#[trigger] rows[j]).0
}

/// `position` is that of the first row of the key.
pub proof fn lemma_position<V>(rows: Seq<(Seq<char>, V)>, key: Seq<char>)
    ensures
        0 <= position(rows, key) <= rows.len(),
        holds(rows, key) ==> rows[position(rows, key)].0 == key,
        forall|i: int| 0 <= i < position(rows, key) ==> (#[trigger] rows[i]).0 != key,
    decreases rows.len(),
{
    if rows.len() > 0 && rows[0].0 != key {
        let rest = rows.skip(1);
        lemma_position(rest, key);
        assert forall|i: int| 0 <= i < position(rows, key) implies (#[trigger] rows[i]).0 != key by {
            if i > 0 {
                assert(rows[i] == rest[i - 1]);
            }
        }
        if holds(rows, key) {
            assert(rows[position(rows, key)] == rest[position(rest, key)]);
        }
    }
}

/// `position` is the only number with what `lemma_position` says of it.
pub proof fn lemma_position_is<V>(rows: Seq<(Seq<char>, V)>, key: Seq<char>, n: int)
    requires
        0 <= n <= rows.len(),
        n < rows.len() ==> rows[n].0 == key,
        forall|i: int| 0 <= i < n ==> (#[trigger] rows[i]).0 != key,
    ensures
        position(rows, key) == n,
{
    lemma_position(rows, key);
    let p = position(rows, key);
    if p < n {
        assert(rows[p].0 != key);
    }
    if n < p {
        assert(rows[n].0 != key);
    }
}

/// A key whose value was set has that value; every other key keeps its own; and no key gets a
/// second row.
pub proof fn law_with<V>(rows: Seq<(Seq<char>, V)>, key: Seq<char>, value: V)
    ensures
        lookup(with(rows, key, value), key) == Some(value),
        forall|other: Seq<char>|
            other != key ==> #[trigger] lookup(with(rows, key, value), other) == lookup(rows, other),
        forall|other: Seq<char>| #[trigger]
            holds(with(rows, key, value), other) == (other == key || holds(rows, other)),
        distinct(rows) ==> distinct(with(rows, key, value)),
{
    let now = with(rows, key, value);
    lemma_position(rows, key);
    let p = position(rows, key);
    assert forall|i: int| 0 <= i < p implies (#[trigger] now[i]).0 != key by {
        assert(rows[i].0 != key);
    }
    lemma_position_is(now, key, p);
    assert forall|other: Seq<char>| other != key implies #[trigger] lookup(now, other) == lookup(
        rows,
        other,
    ) && holds(now, other) == holds(rows, other) by {
        lemma_position(rows, other);
        let q = position(rows, other);
        assert forall|i: int| 0 <= i < q implies (#[trigger] now[i]).0 != other by {
            assert(rows[i].0 != other);
        }
        if holds(rows, other) {
            lemma_position_is(now, other, q);
        } else {
            lemma_position_is(now, other, now.len() as int);
        }
    }
    assert forall|other: Seq<char>| #[trigger] holds(now, other) == (other == key || holds(
        rows,
        other,
    )) by {
        if other != key {
            assert(lookup(now, other) == lookup(rows, other));
        }
    }
    if distinct(rows) {
        assert forall|i: int, j: int| 0 <= i < j < now.len() implies (#[trigger] now[i]).0 != (
        #[trigger] now[j]).0 by {
            if j < rows.len() {
                assert(rows[i].0 != rows[j].0);
            } else {
                assert(rows[i].0 != key);
            }
        }
    }
}

/// In a table without two rows for one key, a key whose row was removed has none, and every
/// other key keeps its value.
pub proof fn law_without<V>(rows: Seq<(Seq<char>, V)>, key: Seq<char>)
    requires
        distinct(rows),
    ensures
        !holds(without(rows, key), key),
        forall|other: Seq<char>|
            other != key ==> #[trigger] lookup(without(rows, key), other) == lookup(rows, other),
        forall|other: Seq<char>| #[trigger]
            holds(without(rows, key), other) == (other != key && holds(rows, other)),
        distinct(without(rows, key)),
{
    let now = without(rows, key);
    lemma_position(rows, key);
    let p = position(rows, key);
    assert forall|i: int| 0 <= i < now.len() implies (#[trigger] now[i]).0 != key by {
        if i < p {
            assert(rows[i].0 != key);
        } else {
            assert(now[i] == rows[i + 1]);
            assert(rows[p].0 != rows[i + 1].0);
        }
    }
    lemma_position_is(now, key, now.len() as int);
    assert forall|other: Seq<char>| other != key implies #[trigger] lookup(now, other) == lookup(
        rows,
        other,
    ) && holds(now, other) == holds(rows, other) by {
        lemma_position(rows, other);
        let q = position(rows, other);
        if holds(rows, key) {
            let there = if q < p {
                q
            } else {
                q - 1
            };
            assert forall|i: int| 0 <= i < there implies (#[trigger] now[i]).0 != other by {
                if i < p {
                    assert(rows[i].0 != other);
                } else {
                    assert(rows[i + 1].0 != other);
                }
            }
            lemma_position_is(now, other, there);
        }
    }
    assert forall|other: Seq<char>| #[trigger] holds(now, other) == (other != key && holds(
        rows,
        other,
    )) by {
        if other != key {
            assert(lookup(now, other) == lookup(rows, other));
        }
    }
    assert forall|i: int, j: int| 0 <= i < j < now.len() implies (#[trigger] now[i]).0 != (
    #[trigger] now[j]).0 by {
        if holds(rows, key) {
            let a = if i < p {
                i
            } else {
                i + 1
            };
            let b = if j < p {
                j
            } else {
                j + 1
            };
            assert(now[i] == rows[a] && now[j] == rows[b]);
        }
    }
}

/// One value per peer, in the order in which the peers came.
pub struct PeerTable<V: View> {
    rows: Vec<(String, V)>,
}

impl<V: View> View for PeerTable<V> {
    type V = Seq<(Seq<char>, V::V)>;

    closed spec fn view(&self) -> Seq<(Seq<char>, V::V)> {
        Seq::new(self.rows@.len(), |i: int| (self.rows@[i].0@, self.rows@[i].1@))
    }
}

impl<V: View> PeerTable<V> {
    /// A table without rows.
    pub fn new() -> (r: Self)
        ensures
            r@ == Seq::<(Seq<char>, V::V)>::empty(),
    {
        let r = PeerTable { rows: Vec::new() };
        assert(r@ =~= Seq::<(Seq<char>, V::V)>::empty());
        r
    }

    /// The number of rows.
    pub fn len(&self) -> (r: usize)
        ensures
            r == self@.len(),
    {
        self.rows.len()
    }

    /// The peer of a row.
    pub fn peer(&self, i: usize) -> (r: &String)
        requires
            i < self@.len(),
        ensures
            r@ == self@[i as int].0,
    {
        &self.rows[i].0
    }

    /// The value of a row.
    pub fn value(&self, i: usize) -> (r: &V)
        requires
            i < self@.len(),
        ensures
            r@ == self@[i as int].1,
    {
        &self.rows[i].1
    }

    fn find(&self, peer: &str) -> (r: usize)
        ensures
            r == position(self@, peer@),
            r <= self.rows@.len(),
    {
        let mut i: usize = 0;
        while i < self.rows.len()
            invariant
                i <= self.rows@.len(),
                forall|k: int| 0 <= k < i ==> (#[trigger] self@[k]).0 != peer@,
            decreases self.rows@.len() - i,
        {
            assert(self@[i as int].0 == self.rows@[i as int].0@);
            if same_text(self.rows[i].0.as_str(), peer) {
                proof {
                    lemma_position_is(self@, peer@, i as int);
                }
                return i;
            }
            i = i + 1;
        }
        proof {
            lemma_position_is(self@, peer@, i as int);
        }
        i
    }

    /// Tells whether a peer has a row.
    pub fn contains(&self, peer: &str) -> (r: bool)
        ensures
            r == holds(self@, peer@),
    {
        self.find(peer) < self.rows.len()
    }

    /// The value of a peer.
    pub fn get(&self, peer: &str) -> (r: Option<&V>)
        ensures
            match r {
                Some(value) => lookup(self@, peer@) == Some(value@),
                None => lookup(self@, peer@) is None,
            },
    {
        let i: usize = self.find(peer);
        if i < self.rows.len() {
            Some(&self.rows[i].1)
        } else {
            None
        }
    }

    /// Gives a peer a value.
    pub fn insert(&mut self, peer: String, value: V)
        ensures
            final(self)@ == with(old(self)@, peer@, value@),
    {
        let i: usize = self.find(peer.as_str());
        let ghost key = peer@;
        let ghost new_value = value@;
        let ghost before = self@;
        if i < self.rows.len() {
            self.rows[i] = (peer, value);
            assert(self@ =~= before.update(i as int, (key, new_value)));
        } else {
            self.rows.push((peer, value));
            assert(self@ =~= before.push((key, new_value)));
        }
    }

    /// Removes the row of a peer and returns its value.
    pub fn remove(&mut self, peer: &str) -> (r: Option<V>)
        ensures
            final(self)@ == without(old(self)@, peer@),
            match r {
                Some(value) => lookup(old(self)@, peer@) == Some(value@),
                None => lookup(old(self)@, peer@) is None,
            },
    {
        let i: usize = self.find(peer);
        let ghost before = self@;
        if i < self.rows.len() {
            let (_, value) = self.rows.remove(i);
            assert(self@ =~= before.remove(i as int));
            Some(value)
        } else {
            None
        }
    }

    /// Removes the last row and returns it.
    pub fn pop(&mut self) -> (r: Option<(String, V)>)
        ensures
            match r {
                Some((peer, value)) => old(self)@.len() > 0 && old(self)@.last() == (peer@, value@)
                    && final(self)@ == old(self)@.drop_last(),
                None => old(self)@.len() == 0 && final(self)@ == old(self)@,
            },
    {
        let ghost before = self@;
        let r = self.rows.pop();
        proof {
            if before.len() > 0 {
                assert(self@ =~= before.drop_last());
            } else {
                assert(self@ =~= before);
            }
        }
        r
    }
}

/// A row is found by its key, and a key without a row is not found.
pub proof fn law_rows_are_found<V>(rows: Seq<(Seq<char>, V)>, key: Seq<char>, i: int)
    requires
        distinct(rows),
    ensures
        0 <= i < rows.len() && rows[i].0 == key ==> holds(rows, key) && lookup(rows, key) == Some(
            rows[i].1,
        ),
        (forall|k: int| 0 <= k < rows.len() ==> (#[trigger] rows[k]).0 != key) ==> !holds(rows, key)
            && lookup(rows, key) is None,
{
    if 0 <= i < rows.len() && rows[i].0 == key {
        assert forall|k: int| 0 <= k < i implies (#[trigger] rows[k]).0 != key by {
            assert(rows[k].0 != rows[i].0);
        }
        lemma_position_is(rows, key, i);
    }
    if forall|k: int| 0 <= k < rows.len() ==> (#[trigger] rows[k]).0 != key {
        lemma_position_is(rows, key, rows.len() as int);
    }
}

/// Rows keep their places: a key that has a row gets its new value there, a new key comes last,
/// and taking a row away leaves those before and after it in order.
pub proof fn law_rows_keep_their_places<V>(
    before: Seq<(Seq<char>, V)>,
    key: Seq<char>,
    value: V,
    after: Seq<(Seq<char>, V)>,
    new: V,
)
    requires
        forall|k: int| 0 <= k < before.len() ==> (#[trigger] before[k]).0 != key,
        forall|k: int| 0 <= k < after.len() ==> (#[trigger] after[k]).0 != key,
    ensures
        with(before, key, new) == before + seq![(key, new)],
        with(before + seq![(key, value)] + after, key, new) == before + seq![(key, new)] + after,
        without(before, key) == before,
        without(before + seq![(key, value)] + after, key) == before + after,
{
    lemma_position_is(before, key, before.len() as int);
    assert(with(before, key, new) =~= before + seq![(key, new)]);
    let all = before + seq![(key, value)] + after;
    let n = before.len() as int;
    assert forall|k: int| 0 <= k < n implies (#[trigger] all[k]).0 != key by {
        assert(all[k] == before[k]);
    }
    lemma_position_is(all, key, n);
    assert(with(all, key, new) =~= before + seq![(key, new)] + after);
    assert(without(all, key) =~= before + after);
}

}
