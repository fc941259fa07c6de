//! The persistent map layer: a key-ordered map from 64-bit ids to records.
//!
//! The model of a map is the sequence of its entries in ascending key order.
//! `lookup`, `upsert` and `erase` say what reading, writing and deleting a key
//! mean on that model; the executable operations are proved against them.

use crate::address::{block_address, ContentAddress, IPLD_RAW};
use crate::codec::{
    decode_word, encode_word, lemma_word_round_trip, word_decoding, word_encoding, Record,
};
use crate::store::{get_answered, get_block, put_answered, put_block, Blockstore, StorageError};
use vstd::prelude::*;

verus! {

/// The keys of `s` are strictly increasing.
pub open spec fn ascending<M>(s: Seq<(u64, M)>) -> bool {
    forall|i: int, j: int| #![trigger s[i], s[j]] 0 <= i < j < s.len() ==> s[i].0 < s[j].0
}

/// Index of the first entry whose key is not below `k` (the length if there is none).
pub open spec fn slot<M>(s: Seq<(u64, M)>, k: u64) -> int
    decreases s.len(),
{
    if s.len() == 0 || s[0].0 >= k {
        0
    } else {
        1 + slot(s.skip(1), k)
    }
}

/// `s` has an entry for `k` at the place where one belongs.
pub open spec fn binds<M>(s: Seq<(u64, M)>, k: u64) -> bool {
    slot(s, k) < s.len() && s[slot(s, k)].0 == k
}

/// The value stored under `k`, if any.
pub open spec fn lookup<M>(s: Seq<(u64, M)>, k: u64) -> Option<M> {
    if binds(s, k) {
        Some(s[slot(s, k)].1)
    } else {
        None
    }
}

/// `s` with `k` bound to `v`: the entry is replaced in place, or inserted where it belongs.
pub open spec fn upsert<M>(s: Seq<(u64, M)>, k: u64, v: M) -> Seq<(u64, M)> {
    if binds(s, k) {
        s.update(slot(s, k), (k, v))
    } else {
        s.insert(slot(s, k), (k, v))
    }
}

/// `s` without the entry for `k`.
pub open spec fn erase<M>(s: Seq<(u64, M)>, k: u64) -> Seq<(u64, M)> {
    if binds(s, k) {
        s.remove(slot(s, k))
    } else {
        s
    }
}

/// `slot` lies within bounds, every entry before it has a smaller key, and the
/// entry at it (if any) does not.
pub proof fn lemma_slot<M>(s: Seq<(u64, M)>, k: u64)
    ensures
        0 <= slot(s, k) <= s.len(),
        forall|j: int| 0 <= j < slot(s, k) ==> (#[trigger] s[j]).0 < k,
        slot(s, k) < s.len() ==> s[slot(s, k)].0 >= k,
    decreases s.len(),
{
    if s.len() == 0 || s[0].0 >= k {
    } else {
        let t = s.skip(1);
        lemma_slot(t, k);
        assert forall|j: int| 0 <= j < slot(s, k) implies (#[trigger] s[j]).0 < k by {
            if j > 0 {
                assert(s[j] == t[j - 1]);
            }
        }
    }
}

/// Any index with the two properties of `lemma_slot` is the slot.
pub proof fn lemma_slot_is<M>(s: Seq<(u64, M)>, k: u64, p: int)
    requires
        0 <= p <= s.len(),
        forall|j: int| 0 <= j < p ==> (#[trigger] s[j]).0 < k,
        p < s.len() ==> s[p].0 >= k,
    ensures
        slot(s, k) == p,
    decreases s.len(),
{
    if s.len() == 0 {
    } else if s[0].0 >= k {
        if p > 0 {
            assert(s[0].0 < k);
        }
    } else {
        let t = s.skip(1);
        assert(p > 0);
        assert forall|j: int| 0 <= j < p - 1 implies (#[trigger] t[j]).0 < k by {
            assert(t[j] == s[j + 1]);
        }
        lemma_slot_is(t, k, p - 1);
    }
}

/// In an empty map nothing is found.
pub proof fn lemma_lookup_empty<M>(k: u64)
    ensures
        lookup(Seq::<(u64, M)>::empty(), k) is None,
{
}

/// An entry of an ascending sequence is found under its key.
pub proof fn lemma_lookup_at<M>(s: Seq<(u64, M)>, i: int)
    requires
        ascending(s),
        0 <= i < s.len(),
    ensures
        slot(s, s[i].0) == i,
        lookup(s, s[i].0) == Some(s[i].1),
{
    lemma_slot_is(s, s[i].0, i);
}

/// A key that is found sits at some index.
pub proof fn lemma_lookup_index<M>(s: Seq<(u64, M)>, k: u64)
    requires
        binds(s, k),
    ensures
        0 <= slot(s, k) < s.len(),
        s[slot(s, k)] == (k, lookup(s, k).unwrap()),
{
    lemma_slot(s, k);
}

/// Writing keeps the order, binds the key, and leaves every other key as it was.
pub proof fn lemma_upsert<M>(s: Seq<(u64, M)>, k: u64, v: M)
    requires
        ascending(s),
    ensures
        ascending(upsert(s, k, v)),
        lookup(upsert(s, k, v), k) == Some(v),
        forall|k2: u64| k2 != k ==> #[trigger] lookup(upsert(s, k, v), k2) == lookup(s, k2),
        upsert(s, k, v).len() == if binds(s, k) {
            s.len()
        } else {
            s.len() + 1
        },
{
    lemma_slot(s, k);
    let p = slot(s, k);
    let t = upsert(s, k, v);
    if binds(s, k) {
        assert forall|i: int, j: int| 0 <= i < j < t.len() implies (#[trigger] t[i]).0 < (
        #[trigger] t[j]).0 by {
            assert(t[i].0 == s[i].0 && t[j].0 == s[j].0);
        }
    } else {
        assert forall|i: int, j: int| 0 <= i < j < t.len() implies (#[trigger] t[i]).0 < (
        #[trigger] t[j]).0 by {
            if i < p && j > p {
                assert(s[i].0 < k);
                assert(s[p].0 >= k);
                assert(p < j - 1 ==> s[p].0 < s[j - 1].0);
            }
            if i == p {
                assert(t[i].0 == k);
                assert(s[p].0 > k);
                assert(p < j - 1 ==> s[p].0 < s[j - 1].0);
            }
            if j == p {
                assert(s[i].0 < k);
            }
        }
    }
    lemma_slot_is(t, k, p);
    assert forall|k2: u64| k2 != k implies #[trigger] lookup(t, k2) == lookup(s, k2) by {
        lemma_upsert_other(s, k, v, k2);
    }
}

proof fn lemma_upsert_other<M>(s: Seq<(u64, M)>, k: u64, v: M, k2: u64)
    requires
        k2 != k,
    ensures
        lookup(upsert(s, k, v), k2) == lookup(s, k2),
{
    lemma_slot(s, k);
    lemma_slot(s, k2);
    let p = slot(s, k);
    let q = slot(s, k2);
    let t = upsert(s, k, v);
    if binds(s, k) {
        assert forall|j: int| 0 <= j < q implies (#[trigger] t[j]).0 < k2 by {
            assert(t[j].0 == s[j].0);
        }
        lemma_slot_is(t, k2, q);
    } else if k2 < k {
        if q > p {
            assert(s[p].0 < k2);
        }
        assert forall|j: int| 0 <= j < q implies (#[trigger] t[j]).0 < k2 by {
            assert(t[j] == s[j]);
        }
        lemma_slot_is(t, k2, q);
    } else {
        if q < p {
            assert(s[q].0 < k);
        }
        assert forall|j: int| 0 <= j < q + 1 implies (#[trigger] t[j]).0 < k2 by {
            if j < p {
                assert(t[j] == s[j]);
            } else if j > p {
                assert(t[j] == s[j - 1]);
            }
        }
        lemma_slot_is(t, k2, q + 1);
    }
}

/// Deleting keeps the order, unbinds the key, and leaves every other key as it was.
pub proof fn lemma_erase<M>(s: Seq<(u64, M)>, k: u64)
    requires
        ascending(s),
    ensures
        ascending(erase(s, k)),
        lookup(erase(s, k), k) is None,
        forall|k2: u64| k2 != k ==> #[trigger] lookup(erase(s, k), k2) == lookup(s, k2),
{
    lemma_slot(s, k);
    let p = slot(s, k);
    let t = erase(s, k);
    if binds(s, k) {
        assert forall|i: int, j: int| 0 <= i < j < t.len() implies (#[trigger] t[i]).0 < (
        #[trigger] t[j]).0 by {
            let a = if i < p {
                i
            } else {
                i + 1
            };
            let b = if j < p {
                j
            } else {
                j + 1
            };
            assert(t[i] == s[a] && t[j] == s[b]);
            assert(s[a].0 < s[b].0);
        }
        assert forall|j: int| 0 <= j < p implies (#[trigger] t[j]).0 < k by {
            assert(t[j] == s[j]);
        }
        if p < t.len() {
            assert(t[p] == s[p + 1]);
            assert(s[p].0 < s[p + 1].0);
        }
        lemma_slot_is(t, k, p);
        assert forall|k2: u64| k2 != k implies #[trigger] lookup(t, k2) == lookup(s, k2) by {
            lemma_slot(s, k2);
            let q = slot(s, k2);
            if k2 < k {
                if q > p {
                    assert(s[p].0 < k2);
                }
                assert forall|j: int| 0 <= j < q implies (#[trigger] t[j]).0 < k2 by {
                    assert(t[j] == s[j]);
                }
                if q < t.len() {
                    if q == p {
                        assert(t[q] == s[p + 1]);
                        assert(s[p].0 < s[p + 1].0);
                    } else {
                        assert(t[q] == s[q]);
                    }
                }
                lemma_slot_is(t, k2, q);
            } else {
                if q <= p {
                    if q < p {
                        assert(s[q].0 < k);
                    }
                    assert(false);
                }
                assert forall|j: int| 0 <= j < q - 1 implies (#[trigger] t[j]).0 < k2 by {
                    if j < p {
                        assert(t[j] == s[j]);
                    } else {
                        assert(t[j] == s[j + 1]);
                    }
                }
                if q - 1 < t.len() {
                    assert(t[q - 1] == s[q]);
                }
                lemma_slot_is(t, k2, q - 1);
            }
        }
    }
}

/// Two ascending sequences in which every key is bound alike are equal.
pub proof fn lemma_same_lookups<M>(s: Seq<(u64, M)>, t: Seq<(u64, M)>)
    requires
        ascending(s),
        ascending(t),
        forall|k: u64| lookup(s, k) == lookup(t, k),
    ensures
        s == t,
    decreases s.len(),
{
    if s.len() == 0 {
        if t.len() > 0 {
            lemma_lookup_at(t, 0);
            assert(lookup(s, t[0].0) is None);
        }
        assert(s =~= t);
    } else {
        let n = s.len() - 1;
        lemma_lookup_at(s, n);
        let k = s[n].0;
        assert(lookup(t, k) == Some(s[n].1));
        lemma_slot(t, k);
        let q = slot(t, k);
        if q < t.len() - 1 {
            lemma_lookup_at(t, t.len() - 1);
            let k2 = t[t.len() - 1].0;
            assert(k2 > k);
            lemma_slot(s, k2);
            assert(lookup(s, k2) is None);
        }
        assert(q == t.len() - 1);
        let s1 = s.drop_last();
        let t1 = t.drop_last();
        assert forall|k3: u64| lookup(s1, k3) == lookup(t1, k3) by {
            lemma_slot(s, k3);
            lemma_slot(t, k3);
            lemma_slot(s1, k3);
            lemma_slot(t1, k3);
            assert(lookup(s, k3) == lookup(t, k3));
            if k3 < k {
                let a = slot(s, k3);
                if a > n {
                    assert(s[n].0 < k3);
                }
                assert forall|j: int| 0 <= j < a && j < s1.len() implies (#[trigger] s1[j]).0
                    < k3 by {
                    assert(s1[j] == s[j]);
                }
                if a == n {
                    lemma_slot_is(s1, k3, a);
                    assert(lookup(s1, k3) is None);
                    assert(lookup(s, k3) is None);
                } else {
                    assert(s1[a] == s[a]);
                    lemma_slot_is(s1, k3, a);
                }
                let b = slot(t, k3);
                if b > q {
                    assert(t[q].0 < k3);
                }
                assert forall|j: int| 0 <= j < b && j < t1.len() implies (#[trigger] t1[j]).0
                    < k3 by {
                    assert(t1[j] == t[j]);
                }
                if b == q {
                    lemma_slot_is(t1, k3, b);
                } else {
                    assert(t1[b] == t[b]);
                    lemma_slot_is(t1, k3, b);
                }
            } else {
                assert forall|j: int| 0 <= j < s1.len() implies (#[trigger] s1[j]).0 < k3 by {
                    assert(s1[j] == s[j]);
                    assert(s[j].0 < s[n].0);
                }
                lemma_slot_is(s1, k3, s1.len() as int);
                assert forall|j: int| 0 <= j < t1.len() implies (#[trigger] t1[j]).0 < k3 by {
                    assert(t1[j] == t[j]);
                    assert(t[j].0 < t[q].0);
                }
                lemma_slot_is(t1, k3, t1.len() as int);
            }
        }
        assert forall|i: int, j: int| 0 <= i < j < s1.len() implies (#[trigger] s1[i]).0 < (
        #[trigger] s1[j]).0 by {
            assert(s1[i] == s[i] && s1[j] == s[j]);
        }
        assert forall|i: int, j: int| 0 <= i < j < t1.len() implies (#[trigger] t1[i]).0 < (
        #[trigger] t1[j]).0 by {
            assert(t1[i] == t[i] && t1[j] == t[j]);
        }
        lemma_same_lookups(s1, t1);
        assert(t[q] == (k, s[n].1));
        assert(s =~= s1.push(s[n]));
        assert(t =~= t1.push(t[q]));
    }
}

/// Binding a key to the value it already has changes nothing.
pub proof fn lemma_upsert_same<M>(s: Seq<(u64, M)>, k: u64, v: M)
    requires
        lookup(s, k) == Some(v),
    ensures
        upsert(s, k, v) == s,
{
    lemma_lookup_index(s, k);
    assert(upsert(s, k, v) =~= s);
}

/// Writing a key after deleting it is writing it.
pub proof fn lemma_upsert_erased<M>(s: Seq<(u64, M)>, k: u64, v: M)
    requires
        ascending(s),
    ensures
        upsert(erase(s, k), k, v) == upsert(s, k, v),
{
    lemma_erase(s, k);
    lemma_upsert(erase(s, k), k, v);
    lemma_upsert(s, k, v);
    lemma_same_lookups(upsert(erase(s, k), k, v), upsert(s, k, v));
}

/// Deleting a key that is not bound changes nothing.
pub proof fn lemma_erase_absent<M>(s: Seq<(u64, M)>, k: u64)
    requires
        lookup(s, k) is None,
    ensures
        erase(s, k) == s,
{
}

/// Concatenated layouts of the entries of `s`: for each, the key as a word, then the value.
pub open spec fn entries_encoding<V: Record>(s: Seq<(u64, V::V)>) -> Seq<u8>
    decreases s.len(),
{
    if s.len() == 0 {
        Seq::empty()
    } else {
        entries_encoding::<V>(s.drop_last()) + word_encoding(s.last().0) + V::encoding(s.last().1)
    }
}

/// Reads `n` entries from the front of `b`, appending them to `acc`; fails
/// when the bytes run out or a key does not exceed the one before it.
pub open spec fn entries_decoding<V: Record>(b: Seq<u8>, n: nat, acc: Seq<(u64, V::V)>) -> Option<
    (Seq<(u64, V::V)>, Seq<u8>),
>
    decreases n,
{
    if n == 0 {
        Some((acc, b))
    } else {
        match word_decoding(b) {
            Some((k, b1)) => if acc.len() > 0 && acc.last().0 >= k {
                None
            } else {
                match V::decoding(b1) {
                    Some((v, b2)) => entries_decoding::<V>(b2, (n - 1) as nat, acc.push((k, v))),
                    None => None,
                }
            },
            None => None,
        }
    }
}

/// Layout of a map: the number of entries as a word, then the entries in key order.
pub open spec fn map_encoding<V: Record>(s: Seq<(u64, V::V)>) -> Seq<u8> {
    word_encoding(s.len() as u64) + entries_encoding::<V>(s)
}

/// Reads a map from the front of `b`.
pub open spec fn map_decoding<V: Record>(b: Seq<u8>) -> Option<(Seq<(u64, V::V)>, Seq<u8>)> {
    match word_decoding(b) {
        Some((n, rest)) => entries_decoding::<V>(rest, n as nat, Seq::empty()),
        None => None,
    }
}

/// The entry sequences that valid maps have.
pub open spec fn map_sound<V: Record>(s: Seq<(u64, V::V)>) -> bool {
    &&& s.len() <= u64::MAX
    &&& ascending(s)
    &&& forall|i: int| 0 <= i < s.len() ==> V::sound(#[trigger] s[i].1)
}

proof fn lemma_entries_front<V: Record>(s: Seq<(u64, V::V)>)
    requires
        s.len() > 0,
    ensures
        entries_encoding::<V>(s) == word_encoding(s[0].0) + V::encoding(s[0].1)
            + entries_encoding::<V>(s.skip(1)),
    decreases s.len(),
{
    if s.len() == 1 {
        assert(s.drop_last() =~= Seq::<(u64, V::V)>::empty());
        assert(s.skip(1) =~= Seq::<(u64, V::V)>::empty());
        assert(entries_encoding::<V>(s) =~= word_encoding(s[0].0) + V::encoding(s[0].1)
            + entries_encoding::<V>(s.skip(1)));
    } else {
        lemma_entries_front::<V>(s.drop_last());
        assert(s.drop_last().skip(1) =~= s.skip(1).drop_last());
        assert(s.skip(1).last() == s.last());
        assert(entries_encoding::<V>(s) =~= word_encoding(s[0].0) + V::encoding(s[0].1)
            + entries_encoding::<V>(s.skip(1)));
    }
}

proof fn lemma_entries_round_trip<V: Record>(
    s: Seq<(u64, V::V)>,
    rest: Seq<u8>,
    acc: Seq<(u64, V::V)>,
)
    requires
        ascending(acc + s),
        forall|i: int| 0 <= i < s.len() ==> V::sound(#[trigger] s[i].1),
    ensures
        entries_decoding::<V>(entries_encoding::<V>(s) + rest, s.len(), acc) == Some(
            (acc + s, rest),
        ),
    decreases s.len(),
{
    if s.len() == 0 {
        assert(entries_encoding::<V>(s) + rest =~= rest);
        assert(acc + s =~= acc);
    } else {
        lemma_entries_front::<V>(s);
        let tail = s.skip(1);
        let after_key = V::encoding(s[0].1) + (entries_encoding::<V>(tail) + rest);
        lemma_word_round_trip(s[0].0, after_key);
        assert(entries_encoding::<V>(s) + rest =~= word_encoding(s[0].0) + after_key);
        assert(V::sound(s[0].1));
        V::lemma_round_trip(s[0].1, entries_encoding::<V>(tail) + rest);
        if acc.len() > 0 {
            assert((acc + s)[acc.len() - 1] == acc.last());
            assert((acc + s)[acc.len() as int] == s[0]);
        }
        assert(acc.push(s[0]) + tail =~= acc + s);
        assert forall|i: int| 0 <= i < tail.len() implies V::sound(#[trigger] tail[i].1) by {
            assert(tail[i] == s[i + 1]);
        }
        lemma_entries_round_trip::<V>(tail, rest, acc.push(s[0]));
    }
}

/// Decoding inverts encoding for every sound entry sequence.
pub proof fn lemma_map_round_trip<V: Record>(s: Seq<(u64, V::V)>, rest: Seq<u8>)
    requires
        map_sound::<V>(s),
    ensures
        map_decoding::<V>(map_encoding::<V>(s) + rest) == Some((s, rest)),
{
    lemma_word_round_trip(s.len() as u64, entries_encoding::<V>(s) + rest);
    assert(map_encoding::<V>(s) + rest =~= word_encoding(s.len() as u64) + (entries_encoding::<V>(
        s,
    ) + rest));
    assert(Seq::<(u64, V::V)>::empty() + s =~= s);
    lemma_entries_round_trip::<V>(s, rest, Seq::empty());
}

/// A map from ids to records, kept in ascending key order.
pub struct IdMap<V: Record> {
    keys: Vec<u64>,
    vals: Vec<V>,
}

impl<V: Record> View for IdMap<V> {
    type V = Seq<(u64, V::V)>;

    closed spec fn view(&self) -> Seq<(u64, V::V)> {
        Seq::new(self.keys@.len(), |i: int| (self.keys@[i], self.vals@[i]@))
    }
}

impl<V: Record> IdMap<V> {
    /// The representation invariant: keys ascend and every value is valid.
    pub closed spec fn valid(&self) -> bool {
        &&& self.keys@.len() == self.vals@.len()
        &&& ascending(self@)
        &&& forall|i: int| 0 <= i < self.vals@.len() ==> (#[trigger] self.vals@[i]).valid()
    }

    /// The entries of a valid map form a sound sequence.
    pub proof fn lemma_valid_sound(&self)
        requires
            self.valid(),
        ensures
            map_sound::<V>(self@),
            ascending(self@),
    {
        assert(self@.len() == self.keys.len());
        assert forall|i: int| 0 <= i < self@.len() implies V::sound(#[trigger] self@[i].1) by {
            self.vals@[i].lemma_valid_sound();
        }
    }

    /// An empty map.
    pub fn new() -> (r: Self)
        ensures
            r.valid(),
            r@ == Seq::<(u64, V::V)>::empty(),
    {
        let r = IdMap { keys: Vec::new(), vals: Vec::new() };
        assert(r@ =~= Seq::<(u64, V::V)>::empty());
        r
    }

    /// The number of entries.
    pub fn len(&self) -> (r: usize)
        requires
            self.valid(),
        ensures
            r == self@.len(),
    {
        self.keys.len()
    }

    fn find(&self, key: u64) -> (p: usize)
        requires
            self.valid(),
        ensures
            p == slot(self@, key),
            p <= self.keys@.len(),
            p < self.keys@.len() ==> (self.keys@[p as int] == key <==> binds(self@, key)),
            p == self.keys@.len() ==> !binds(self@, key),
    {
        let mut lo: usize = 0;
        let mut hi: usize = self.keys.len();
        while lo < hi
            invariant
                self.valid(),
                lo <= hi <= self.keys@.len(),
                forall|j: int| 0 <= j < lo ==> (#[trigger] self@[j]).0 < key,
                forall|j: int| hi <= j < self.keys@.len() ==> (#[trigger] self@[j]).0 >= key,
            decreases hi - lo,
        {
            let mid = lo + (hi - lo) / 2;
            if self.keys[mid] < key {
                assert forall|j: int| 0 <= j < mid + 1 implies (#[trigger] self@[j]).0 < key by {
                    if j < mid {
                        assert(self@[j].0 < self@[mid as int].0);
                    }
                }
                lo = mid + 1;
            } else {
                assert forall|j: int| mid <= j < self.keys@.len() implies (#[trigger] self@[j]).0
                    >= key by {
                    if j > mid {
                        assert(self@[mid as int].0 < self@[j].0);
                    }
                }
                hi = mid;
            }
        }
        proof {
            lemma_slot_is(self@, key, lo as int);
        }
        lo
    }

    /// Whether `key` is bound.
    pub fn contains(&self, key: u64) -> (r: bool)
        requires
            self.valid(),
        ensures
            r == binds(self@, key),
    {
        let p = self.find(key);
        p < self.keys.len() && self.keys[p] == key
    }

    /// The value bound to `key`, if any.
    pub fn get(&self, key: u64) -> (r: Option<&V>)
        requires
            self.valid(),
        ensures
            match r {
                Some(v) => v.valid() && lookup(self@, key) == Some(v@),
                None => lookup(self@, key) is None,
            },
    {
        let p = self.find(key);
        if p < self.keys.len() && self.keys[p] == key {
            Some(&self.vals[p])
        } else {
            None
        }
    }

    /// Binds `key` to `value`, replacing any earlier binding.
    pub fn put(&mut self, key: u64, value: V)
        requires
            old(self).valid(),
            value.valid(),
        ensures
            final(self).valid(),
            final(self)@ == upsert(old(self)@, key, value@),
    {
        let p = self.find(key);
        proof {
            lemma_upsert(self@, key, value@);
        }
        if p < self.keys.len() && self.keys[p] == key {
            self.vals[p] = value;
        } else {
            self.keys.insert(p, key);
            self.vals.insert(p, value);
        }
        assert(self@ =~= upsert(old(self)@, key, value@));
    }

    /// Removes the binding of `key` and returns the value it had, if any.
    pub fn delete(&mut self, key: u64) -> (r: Option<V>)
        requires
            old(self).valid(),
        ensures
            final(self).valid(),
            final(self)@ == erase(old(self)@, key),
            match r {
                Some(v) => v.valid() && lookup(old(self)@, key) == Some(v@),
                None => lookup(old(self)@, key) is None,
            },
    {
        let p = self.find(key);
        proof {
            lemma_erase(self@, key);
        }
        if p < self.keys.len() && self.keys[p] == key {
            self.keys.remove(p);
            let v = self.vals.remove(p);
            assert(self@ =~= erase(old(self)@, key));
            Some(v)
        } else {
            None
        }
    }

    /// The key of the `i`-th entry in key order.
    pub fn key_at(&self, i: usize) -> (k: u64)
        requires
            self.valid(),
            i < self@.len(),
        ensures
            k == self@[i as int].0,
    {
        self.keys[i]
    }

    /// The value of the `i`-th entry in key order.
    pub fn value_at(&self, i: usize) -> (v: &V)
        requires
            self.valid(),
            i < self@.len(),
        ensures
            v.valid(),
            v@ == self@[i as int].1,
    {
        &self.vals[i]
    }

    /// An independent copy with the same entries.
    pub fn duplicate(&self) -> (r: Self)
        requires
            self.valid(),
        ensures
            r.valid(),
            r@ == self@,
    {
        let mut keys: Vec<u64> = Vec::new();
        let mut vals: Vec<V> = Vec::new();
        let mut i: usize = 0;
        while i < self.keys.len()
            invariant
                self.valid(),
                i <= self.keys@.len(),
                keys@ == self.keys@.take(i as int),
                vals@.len() == i,
                forall|j: int| 0 <= j < i ==> (#[trigger] vals@[j]).valid() && vals@[j]@ == self.vals@[j]@,
            decreases self.keys@.len() - i,
        {
            keys.push(self.keys[i]);
            vals.push(self.vals[i].duplicate());
            assert(self.keys@.take(i + 1) =~= self.keys@.take(i as int).push(self.keys@[i as int]));
            i = i + 1;
        }
        assert(self.keys@.take(i as int) =~= self.keys@);
        let r = IdMap { keys, vals };
        assert(r@ =~= self@);
        r
    }

    /// Appends the layout of the map to `out`.
    pub fn encode(&self, out: &mut Vec<u8>)
        requires
            self.valid(),
        ensures
            final(out)@ == old(out)@ + map_encoding::<V>(self@),
    {
        encode_word(self.keys.len() as u64, out);
        let mut i: usize = 0;
        assert(self@.take(0) =~= Seq::<(u64, V::V)>::empty());
        while i < self.keys.len()
            invariant
                self.valid(),
                i <= self.keys@.len(),
                out@ == old(out)@ + word_encoding(self@.len() as u64) + entries_encoding::<V>(
                    self@.take(i as int),
                ),
            decreases self.keys@.len() - i,
        {
            encode_word(self.keys[i], out);
            self.vals[i].encode(out);
            proof {
                assert(self@.take(i + 1).drop_last() =~= self@.take(i as int));
                assert(self@.take(i + 1).last() == self@[i as int]);
                assert(out@ =~= old(out)@ + word_encoding(self@.len() as u64)
                    + entries_encoding::<V>(self@.take(i + 1)));
            }
            i = i + 1;
        }
        assert(self@.take(i as int) =~= self@);
        assert(out@ =~= old(out)@ + map_encoding::<V>(self@));
    }

    /// Reads a map at offset `start`.
    pub fn decode(bytes: &[u8], start: usize) -> (r: Option<(Self, usize)>)
        requires
            start <= bytes@.len(),
        ensures
            match r {
                Some((m, end)) => m.valid() && start <= end <= bytes@.len() && map_decoding::<V>(
                    bytes@.skip(start as int),
                ) == Some((m@, bytes@.skip(end as int))),
                None => map_decoding::<V>(bytes@.skip(start as int)) is None,
            },
    {
        let (n, begin) = match decode_word(bytes, start) {
            Some(pair) => pair,
            None => {
                return None;
            },
        };
        let ghost whole = entries_decoding::<V>(bytes@.skip(begin as int), n as nat, Seq::empty());
        let mut m: IdMap<V> = IdMap::new();
        let mut pos: usize = begin;
        let mut i: u64 = 0;
        while i < n
            invariant
                i <= n,
                start <= begin <= pos <= bytes@.len(),
                m.valid(),
                map_decoding::<V>(bytes@.skip(start as int)) == whole,
                whole == entries_decoding::<V>(bytes@.skip(pos as int), (n - i) as nat, m@),
            decreases n - i,
        {
            let (key, after_key) = match decode_word(bytes, pos) {
                Some(pair) => pair,
                None => {
                    return None;
                },
            };
            let count = m.keys.len();
            if count > 0 && m.keys[count - 1] >= key {
                assert(m@.last().0 == m.keys@[count - 1]);
                return None;
            }
            let (value, end) = match V::decode(bytes, after_key) {
                Some(pair) => pair,
                None => {
                    return None;
                },
            };
            let ghost before = m@;
            m.keys.push(key);
            m.vals.push(value);
            proof {
                assert(m@ =~= before.push((key, value@)));
                assert forall|a: int, b: int| 0 <= a < b < m@.len() implies (#[trigger] m@[a]).0 < (
                #[trigger] m@[b]).0 by {
                    if b == before.len() {
                        assert(m@[a] == before[a]);
                        if a < before.len() - 1 {
                            assert(before[a].0 < before[before.len() - 1].0);
                        }
                    } else {
                        assert(m@[a] == before[a] && m@[b] == before[b]);
                    }
                }
            }
            pos = end;
            i = i + 1;
        }
        Some((m, pos))
    }
}

/// Reads a map from a whole block; fails where bytes are left over.
pub open spec fn map_block_decoding<V: Record>(b: Seq<u8>) -> Option<Seq<(u64, V::V)>> {
    match map_decoding::<V>(b) {
        Some((s, rest)) => if rest.len() == 0 {
            Some(s)
        } else {
            None
        },
        None => None,
    }
}

/// What loading a map from `address` gives, by what the store holds there:
/// `Missing` without a block, `Corrupt` for a block that is no layout of a
/// map, else the entries laid out in the block.
pub open spec fn map_loaded<V: Record>(blocks: Map<Seq<u8>, Seq<u8>>, address: Seq<u8>) -> Result<
    Seq<(u64, V::V)>,
    StorageError,
> {
    if !blocks.contains_key(address) {
        Err(StorageError::Missing)
    } else {
        match map_block_decoding::<V>(blocks[address]) {
            Some(s) => Ok(s),
            None => Err(StorageError::Corrupt),
        }
    }
}

/// A map that was flushed is loaded back unchanged from its address, and
/// flushing leaves every block under another address as it was: a map that
/// was flushed before can still be loaded as it was then.
pub proof fn lemma_flush_keeps_other_versions<V: Record>(
    blocks: Map<Seq<u8>, Seq<u8>>,
    s: Seq<(u64, V::V)>,
    address: Seq<u8>,
    other: Seq<u8>,
)
    requires
        map_sound::<V>(s),
    ensures
        map_loaded::<V>(blocks.insert(address, map_encoding::<V>(s)), address) == Ok::<
            Seq<(u64, V::V)>,
            StorageError,
        >(s),
        other != address ==> map_loaded::<V>(blocks.insert(address, map_encoding::<V>(s)), other)
            == map_loaded::<V>(blocks, other),
{
    lemma_map_round_trip::<V>(s, Seq::empty());
    assert(map_encoding::<V>(s) + Seq::<u8>::empty() =~= map_encoding::<V>(s));
}

/// What loading a map leaves, by what the store answers when asked for
/// the block under `address`: the error of the store; else what the store
/// holds there, as `map_loaded` says.
pub open spec fn map_load_outcome<V: Record, BS: Blockstore>(
    bs: &BS,
    address: Seq<u8>,
    r: Result<IdMap<V>, StorageError>,
) -> bool {
    exists|answer: Result<Option<Vec<u8>>, StorageError>|
        #[trigger] get_answered(bs, address, answer) && match answer {
            Err(e) => r is Err && r->Err_0 == e,
            Ok(_) => match map_loaded::<V>(bs.blocks(), address) {
                Ok(entries) => r is Ok && r->Ok_0.valid() && r->Ok_0@ == entries,
                Err(e) => r is Err && r->Err_0 == e,
            },
        }
}

impl<V: Record> IdMap<V> {
    /// Flushes the map to the store as one block and returns its content
    /// address. The store gains that block and is otherwise unchanged; when
    /// the store cannot be reached it is left as it was.
    pub fn flush<BS: Blockstore>(&self, bs: &mut BS) -> (r: Result<ContentAddress, StorageError>)
        requires
            self.valid(),
            old(bs).inv(),
        ensures
            final(bs).inv(),
            put_answered(*old(bs), map_encoding::<V>(self@), r),
            match r {
                Ok(address) => {
                    &&& address@ == block_address(IPLD_RAW, map_encoding::<V>(self@))
                    &&& final(bs).blocks() == old(bs).blocks().insert(
                        address@,
                        map_encoding::<V>(self@),
                    )
                    &&& map_loaded::<V>(final(bs).blocks(), address@) == Ok::<
                        Seq<(u64, V::V)>,
                        StorageError,
                    >(self@)
                },
                Err(e) => e == StorageError::Unavailable && final(bs).blocks() == old(bs).blocks(),
            },
    {
        let mut bytes: Vec<u8> = Vec::new();
        self.encode(&mut bytes);
        proof {
            self.lemma_valid_sound();
            assert(bytes@ =~= map_encoding::<V>(self@));
            lemma_flush_keeps_other_versions::<V>(
                bs.blocks(),
                self@,
                block_address(IPLD_RAW, bytes@),
                block_address(IPLD_RAW, bytes@),
            );
        }
        put_block(bs, bytes.as_slice())
    }

    /// Loads the map that was flushed to `address`, as `map_load_outcome`
    /// says.
    pub fn load<BS: Blockstore>(bs: &BS, address: &ContentAddress) -> (r: Result<Self, StorageError>)
        requires
            bs.inv(),
        ensures
            map_load_outcome::<V, BS>(bs, address@, r),
    {
        match get_block(bs, address) {
            Err(e) => Err(e),
            Ok(None) => Err(StorageError::Missing),
            Ok(Some(bytes)) => {
                assert(bytes@.skip(0) =~= bytes@);
                match IdMap::<V>::decode(bytes.as_slice(), 0) {
                    Some((m, end)) => if end == bytes.len() {
                        Ok(m)
                    } else {
                        Err(StorageError::Corrupt)
                    },
                    None => Err(StorageError::Corrupt),
                }
            },
        }
    }
}

} // verus!
