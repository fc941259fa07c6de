//! Byte layout of persisted records.
//!
//! Every persisted value is laid out as a concatenation of fixed-width
//! little-endian words and length-prefixed runs. Each layout comes as a pair
//! of spec functions (`*_encoding`, `*_decoding`), a proof that decoding
//! inverts encoding, and executable functions proved against the pair.

use vstd::bytes::*;
use vstd::prelude::*;
use vstd::slice::slice_subrange;

verus! {

/// Layout of one 64-bit word: eight bytes, least significant first.
pub open spec fn word_encoding(x: u64) -> Seq<u8> {
    spec_u64_to_le_bytes(x)
}

/// Reads one word from the front of `b`; `None` when fewer than eight bytes are left.
pub open spec fn word_decoding(b: Seq<u8>) -> Option<(u64, Seq<u8>)> {
    if b.len() >= 8 {
        Some((spec_u64_from_le_bytes(b.subrange(0, 8)), b.skip(8)))
    } else {
        None
    }
}

/// Decoding a word that is followed by arbitrary bytes yields the word and those bytes.
pub proof fn lemma_word_round_trip(x: u64, rest: Seq<u8>)
    ensures
        word_encoding(x).len() == 8,
        word_decoding(word_encoding(x) + rest) == Some((x, rest)),
{
    lemma_auto_spec_u64_to_from_le_bytes();
    let b = word_encoding(x) + rest;
    assert(b.subrange(0, 8) =~= word_encoding(x));
    assert(b.skip(8) =~= rest);
}

/// Appends the layout of `x` to `out`.
pub fn encode_word(x: u64, out: &mut Vec<u8>)
    ensures
        final(out)@ == old(out)@ + word_encoding(x),
{
    let mut b = u64_to_le_bytes(x);
    out.append(&mut b);
}

/// Reads one word at offset `start`.
pub fn decode_word(bytes: &[u8], start: usize) -> (r: Option<(u64, usize)>)
    requires
        start <= bytes@.len(),
    ensures
        match r {
            Some((x, end)) => start <= end <= bytes@.len() && word_decoding(bytes@.skip(start as int))
                == Some((x, bytes@.skip(end as int))),
            None => word_decoding(bytes@.skip(start as int)) is None,
        },
{
    if bytes.len() - start < 8 {
        return None;
    }
    let s = slice_subrange(bytes, start, start + 8);
    let x = u64_from_le_bytes(s);
    proof {
        assert(bytes@.skip(start as int).subrange(0, 8) =~= bytes@.subrange(
            start as int,
            start + 8,
        ));
        assert(bytes@.skip(start as int).skip(8) =~= bytes@.skip(start + 8));
    }
    Some((x, start + 8))
}

/// Layout of one 128-bit amount: sixteen bytes, least significant first.
pub open spec fn amount_encoding(x: u128) -> Seq<u8> {
    spec_u128_to_le_bytes(x)
}

/// Reads one amount from the front of `b`.
pub open spec fn amount_decoding(b: Seq<u8>) -> Option<(u128, Seq<u8>)> {
    if b.len() >= 16 {
        Some((spec_u128_from_le_bytes(b.subrange(0, 16)), b.skip(16)))
    } else {
        None
    }
}

/// Decoding an amount that is followed by arbitrary bytes yields the amount and those bytes.
pub proof fn lemma_amount_round_trip(x: u128, rest: Seq<u8>)
    ensures
        amount_encoding(x).len() == 16,
        amount_decoding(amount_encoding(x) + rest) == Some((x, rest)),
{
    lemma_auto_spec_u128_to_from_le_bytes();
    let b = amount_encoding(x) + rest;
    assert(b.subrange(0, 16) =~= amount_encoding(x));
    assert(b.skip(16) =~= rest);
}

/// Appends the layout of `x` to `out`.
pub fn encode_amount(x: u128, out: &mut Vec<u8>)
    ensures
        final(out)@ == old(out)@ + amount_encoding(x),
{
    let mut b = u128_to_le_bytes(x);
    out.append(&mut b);
}

/// Reads one amount at offset `start`.
pub fn decode_amount(bytes: &[u8], start: usize) -> (r: Option<(u128, usize)>)
    requires
        start <= bytes@.len(),
    ensures
        match r {
            Some((x, end)) => start <= end <= bytes@.len() && amount_decoding(
                bytes@.skip(start as int),
            ) == Some((x, bytes@.skip(end as int))),
            None => amount_decoding(bytes@.skip(start as int)) is None,
        },
{
    if bytes.len() - start < 16 {
        return None;
    }
    let s = slice_subrange(bytes, start, start + 16);
    let x = u128_from_le_bytes(s);
    proof {
        assert(bytes@.skip(start as int).subrange(0, 16) =~= bytes@.subrange(
            start as int,
            start + 16,
        ));
        assert(bytes@.skip(start as int).skip(16) =~= bytes@.skip(start + 16));
    }
    Some((x, start + 16))
}

/// Layout of a byte string: its length as a word, then the bytes.
pub open spec fn bytes_encoding(s: Seq<u8>) -> Seq<u8> {
    word_encoding(s.len() as u64) + s
}

/// Reads a length-prefixed byte string from the front of `b`.
pub open spec fn bytes_decoding(b: Seq<u8>) -> Option<(Seq<u8>, Seq<u8>)> {
    match word_decoding(b) {
        Some((n, rest)) => if n <= rest.len() {
            Some((rest.take(n as int), rest.skip(n as int)))
        } else {
            None
        },
        None => None,
    }
}

/// Decoding inverts encoding for every byte string whose length fits a word.
pub proof fn lemma_bytes_round_trip(s: Seq<u8>, rest: Seq<u8>)
    requires
        s.len() <= u64::MAX,
    ensures
        bytes_decoding(bytes_encoding(s) + rest) == Some((s, rest)),
{
    lemma_word_round_trip(s.len() as u64, s + rest);
    assert(bytes_encoding(s) + rest =~= word_encoding(s.len() as u64) + (s + rest));
    assert((s + rest).take(s.len() as int) =~= s);
    assert((s + rest).skip(s.len() as int) =~= rest);
}

/// Appends the layout of `s` to `out`.
pub fn encode_bytes(s: &Vec<u8>, out: &mut Vec<u8>)
    ensures
        final(out)@ == old(out)@ + bytes_encoding(s@),
{
    encode_word(s.len() as u64, out);
    let mut i: usize = 0;
    while i < s.len()
        invariant
            i <= s.len(),
            out@ == old(out)@ + word_encoding(s@.len() as u64) + s@.take(i as int),
        decreases s.len() - i,
    {
        out.push(s[i]);
        assert(s@.take(i + 1) =~= s@.take(i as int).push(s@[i as int]));
        i = i + 1;
        assert(out@ =~= old(out)@ + word_encoding(s@.len() as u64) + s@.take(i as int));
    }
    assert(s@.take(i as int) =~= s@);
    assert(out@ =~= old(out)@ + bytes_encoding(s@));
}

/// Reads a length-prefixed byte string at offset `start`.
pub fn decode_bytes(bytes: &[u8], start: usize) -> (r: Option<(Vec<u8>, usize)>)
    requires
        start <= bytes@.len(),
    ensures
        match r {
            Some((s, end)) => start <= end <= bytes@.len() && bytes_decoding(
                bytes@.skip(start as int),
            ) == Some((s@, bytes@.skip(end as int))),
            None => bytes_decoding(bytes@.skip(start as int)) is None,
        },
{
    let (n, begin) = match decode_word(bytes, start) {
        Some(pair) => pair,
        None => {
            return None;
        },
    };
    if n > (bytes.len() - begin) as u64 {
        return None;
    }
    let count: usize = n as usize;
    let ghost tail = bytes@.skip(begin as int);
    let mut s: Vec<u8> = Vec::new();
    let mut i: usize = 0;
    while i < count
        invariant
            i <= count,
            begin + count <= bytes.len(),
            tail == bytes@.skip(begin as int),
            s@ == tail.take(i as int),
        decreases count - i,
    {
        s.push(bytes[begin + i]);
        assert(tail.take(i + 1) =~= tail.take(i as int).push(tail[i as int]));
        i = i + 1;
    }
    assert(tail.skip(count as int) =~= bytes@.skip(begin + count));
    Some((s, begin + count))
}

/// Concatenated layouts of the words of `s`, in order.
pub open spec fn words_encoding(s: Seq<u64>) -> Seq<u8>
    decreases s.len(),
{
    if s.len() == 0 {
        Seq::empty()
    } else {
        words_encoding(s.drop_last()) + word_encoding(s.last())
    }
}

/// Reads `n` words from the front of `b`, appending them to `acc`.
pub open spec fn words_decoding(b: Seq<u8>, n: nat, acc: Seq<u64>) -> Option<(Seq<u64>, Seq<u8>)>
    decreases n,
{
    if n == 0 {
        Some((acc, b))
    } else {
        match word_decoding(b) {
            Some((x, rest)) => words_decoding(rest, (n - 1) as nat, acc.push(x)),
            None => None,
        }
    }
}

/// Layout of a list of ids: its length as a word, then each id as a word.
pub open spec fn list_encoding(s: Seq<u64>) -> Seq<u8> {
    word_encoding(s.len() as u64) + words_encoding(s)
}

/// Reads a length-prefixed list of ids from the front of `b`.
pub open spec fn list_decoding(b: Seq<u8>) -> Option<(Seq<u64>, Seq<u8>)> {
    match word_decoding(b) {
        Some((n, rest)) => words_decoding(rest, n as nat, Seq::empty()),
        None => None,
    }
}

proof fn lemma_words_front(s: Seq<u64>)
    requires
        s.len() > 0,
    ensures
        words_encoding(s) == word_encoding(s[0]) + words_encoding(s.skip(1)),
    decreases s.len(),
{
    if s.len() == 1 {
        assert(s.drop_last() =~= Seq::<u64>::empty());
        assert(s.skip(1) =~= Seq::<u64>::empty());
        assert(words_encoding(s) =~= word_encoding(s[0]) + words_encoding(s.skip(1)));
    } else {
        lemma_words_front(s.drop_last());
        assert(s.drop_last().skip(1) =~= s.skip(1).drop_last());
        assert(s.skip(1).last() == s.last());
        assert(words_encoding(s) =~= word_encoding(s[0]) + words_encoding(s.skip(1)));
    }
}

proof fn lemma_words_round_trip(s: Seq<u64>, rest: Seq<u8>, acc: Seq<u64>)
    ensures
        words_decoding(words_encoding(s) + rest, s.len(), acc) == Some((acc + s, rest)),
    decreases s.len(),
{
    if s.len() == 0 {
        assert(words_encoding(s) + rest =~= rest);
        assert(acc + s =~= acc);
    } else {
        lemma_words_front(s);
        let tail = s.skip(1);
        lemma_word_round_trip(s[0], words_encoding(tail) + rest);
        assert(words_encoding(s) + rest =~= word_encoding(s[0]) + (words_encoding(tail) + rest));
        lemma_words_round_trip(tail, rest, acc.push(s[0]));
        assert(acc.push(s[0]) + tail =~= acc + s);
    }
}

/// Decoding inverts encoding for every list whose length fits a word.
pub proof fn lemma_list_round_trip(s: Seq<u64>, rest: Seq<u8>)
    requires
        s.len() <= u64::MAX,
    ensures
        list_decoding(list_encoding(s) + rest) == Some((s, rest)),
{
    lemma_word_round_trip(s.len() as u64, words_encoding(s) + rest);
    assert(list_encoding(s) + rest =~= word_encoding(s.len() as u64) + (words_encoding(s) + rest));
    lemma_words_round_trip(s, rest, Seq::empty());
    assert(Seq::<u64>::empty() + s =~= s);
}

/// Appends the layout of `s` to `out`.
pub fn encode_list(s: &Vec<u64>, out: &mut Vec<u8>)
    ensures
        final(out)@ == old(out)@ + list_encoding(s@),
{
    encode_word(s.len() as u64, out);
    let mut i: usize = 0;
    assert(s@.take(0) =~= Seq::<u64>::empty());
    while i < s.len()
        invariant
            i <= s.len(),
            out@ == old(out)@ + word_encoding(s@.len() as u64) + words_encoding(s@.take(i as int)),
        decreases s.len() - i,
    {
        let ghost before = out@;
        encode_word(s[i], out);
        proof {
            assert(s@.take(i + 1).drop_last() =~= s@.take(i as int));
            assert(s@.take(i + 1).last() == s@[i as int]);
            assert(out@ =~= old(out)@ + word_encoding(s@.len() as u64) + words_encoding(
                s@.take(i + 1),
            ));
        }
        i = i + 1;
    }
    assert(s@.take(i as int) =~= s@);
    assert(out@ =~= old(out)@ + list_encoding(s@));
}

/// Reads a length-prefixed list of ids at offset `start`.
pub fn decode_list(bytes: &[u8], start: usize) -> (r: Option<(Vec<u64>, usize)>)
    requires
        start <= bytes@.len(),
    ensures
        match r {
            Some((s, end)) => start <= end <= bytes@.len() && list_decoding(
                bytes@.skip(start as int),
            ) == Some((s@, bytes@.skip(end as int))),
            None => list_decoding(bytes@.skip(start as int)) is None,
        },
{
    let (n, begin) = match decode_word(bytes, start) {
        Some(pair) => pair,
        None => {
            return None;
        },
    };
    let ghost whole = words_decoding(bytes@.skip(begin as int), n as nat, Seq::empty());
    let mut s: Vec<u64> = Vec::new();
    let mut pos: usize = begin;
    let mut i: u64 = 0;
    while i < n
        invariant
            i <= n,
            start <= begin <= pos <= bytes@.len(),
            list_decoding(bytes@.skip(start as int)) == whole,
            whole == words_decoding(bytes@.skip(pos as int), (n - i) as nat, s@),
        decreases n - i,
    {
        match decode_word(bytes, pos) {
            Some((x, end)) => {
                s.push(x);
                pos = end;
            },
            None => {
                return None;
            },
        }
        i = i + 1;
    }
    Some((s, pos))
}

/// A value that can be persisted: it has a mathematical view, a byte layout
/// of that view, and executable encoding, decoding and copying proved against them.
pub trait Record: View + Sized {
    /// The views that valid values have.
    spec fn sound(v: Self::V) -> bool;

    /// The layout of a view.
    spec fn encoding(v: Self::V) -> Seq<u8>;

    /// Reads one view from the front of `b`, returning it with the bytes that follow.
    spec fn decoding(b: Seq<u8>) -> Option<(Self::V, Seq<u8>)>;

    /// Decoding inverts encoding.
    proof fn lemma_round_trip(v: Self::V, rest: Seq<u8>)
        requires
            Self::sound(v),
        ensures
            Self::decoding(Self::encoding(v) + rest) == Some((v, rest)),
    ;

    /// The representation invariant of a value.
    spec fn valid(&self) -> bool;

    /// The view of a valid value is sound.
    proof fn lemma_valid_sound(&self)
        requires
            self.valid(),
        ensures
            Self::sound(self@),
    ;

    /// An independent copy with the same view.
    fn duplicate(&self) -> (r: Self)
        requires
            self.valid(),
        ensures
            r.valid(),
            r@ == self@,
    ;

    /// Appends the layout of `self` to `out`.
    fn encode(&self, out: &mut Vec<u8>)
        requires
            self.valid(),
        ensures
            final(out)@ == old(out)@ + Self::encoding(self@),
    ;

    /// Reads one value at offset `start`.
    fn decode(bytes: &[u8], start: usize) -> (r: Option<(Self, usize)>)
        requires
            start <= bytes@.len(),
        ensures
            match r {
                Some((v, end)) => v.valid() && start <= end <= bytes@.len() && Self::decoding(
                    bytes@.skip(start as int),
                ) == Some((v@, bytes@.skip(end as int))),
                None => Self::decoding(bytes@.skip(start as int)) is None,
            },
    ;
}

impl Record for u128 {
    open spec fn sound(v: u128) -> bool {
        true
    }

    open spec fn encoding(v: u128) -> Seq<u8> {
        amount_encoding(v)
    }

    open spec fn decoding(b: Seq<u8>) -> Option<(u128, Seq<u8>)> {
        amount_decoding(b)
    }

    proof fn lemma_round_trip(v: u128, rest: Seq<u8>) {
        lemma_amount_round_trip(v, rest);
    }

    open spec fn valid(&self) -> bool {
        true
    }

    proof fn lemma_valid_sound(&self) {
    }

    fn duplicate(&self) -> (r: Self) {
        *self
    }

    fn encode(&self, out: &mut Vec<u8>) {
        encode_amount(*self, out);
    }

    fn decode(bytes: &[u8], start: usize) -> (r: Option<(Self, usize)>) {
        decode_amount(bytes, start)
    }
}

} // verus!
