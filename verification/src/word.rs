//! Big-endian byte strings and the 256-bit words that contract storage is made of.
//!
//! Arithmetic on words is left to `alloy_primitives`; what its conversions do is stated over the
//! natural number that a byte string spells.

use alloy_primitives::{B256, U256};
use vstd::arithmetic::div_mod::{lemma_fundamental_div_mod_converse, lemma_small_mod};
use vstd::arithmetic::power::pow;
use vstd::prelude::*;

verus! {

/// The number that a byte string spells, most significant byte first.
pub open spec fn be_value(bytes: Seq<u8>) -> nat
    decreases bytes.len(),
{
    if bytes.len() == 0 {
        0
    } else {
        256 * be_value(bytes.drop_last()) + bytes.last() as nat
    }
}

/// The number that four 64-bit limbs spell, least significant limb first.
pub open spec fn limbs_value(limbs: Seq<u64>) -> nat {
    (limbs[0] + 0x1_0000_0000_0000_0000 * (limbs[1] + 0x1_0000_0000_0000_0000 * (limbs[2]
        + 0x1_0000_0000_0000_0000 * limbs[3]))) as nat
}

/// A 256-bit word of contract storage.
#[derive(Clone, Copy, Debug, PartialEq, Eq)]
pub struct Word {
    /// The word's limbs, least significant first.
    pub limbs: [u64; 4],
}

impl View for Word {
    type V = nat;

    open spec fn view(&self) -> nat {
        limbs_value(self.limbs@)
    }
}

/// Calls `B256::from_slice`, which copies a slice of exactly 32 bytes and panics on any other
/// length.
#[verifier::external_body]
fn hash_from_slice(src: &[u8]) -> (hash: [u8; 32])
    requires
        src@.len() == 32,
    ensures
        hash@ == src@,
{
    B256::from_slice(src).0
}

/// Calls the conversion from `B256` to `U256`, which reads the 32 bytes as a big-endian number.
#[verifier::external_body]
fn limbs_from_hash(hash: [u8; 32]) -> (limbs: [u64; 4])
    ensures
        limbs_value(limbs@) == be_value(hash@),
{
    let key: U256 = B256::new(hash).into();
    key.into_limbs()
}

/// Calls `U256::from_be_slice`, which reads a slice as a big-endian number. It panics on more
/// than 32 bytes.
#[verifier::external_body]
fn limbs_from_be_slice(bytes: &[u8]) -> (limbs: [u64; 4])
    requires
        bytes@.len() <= 32,
    ensures
        limbs_value(limbs@) == be_value(bytes@),
{
    U256::from_be_slice(bytes).into_limbs()
}

/// Calls `U256::to_be_bytes_vec`, which writes the number as exactly 32 big-endian bytes.
#[verifier::external_body]
fn limbs_to_be_bytes(limbs: [u64; 4]) -> (bytes: Vec<u8>)
    ensures
        bytes@.len() == 32,
        be_value(bytes@) == limbs_value(limbs@),
{
    U256::from_limbs(limbs).to_be_bytes_vec()
}

impl Word {
    /// The word zero.
    pub fn zero() -> (word: Word)
        ensures
            word@ == 0,
    {
        Word { limbs: [0, 0, 0, 0] }
    }

    /// The storage key that 32 bytes of guest memory name.
    pub fn from_key(key: &[u8; 32]) -> (word: Word)
        ensures
            word@ == be_value(key@),
    {
        Word { limbs: limbs_from_hash(hash_from_slice(key.as_slice())) }
    }

    /// The storage value that 32 bytes of guest memory spell.
    pub fn from_be_bytes(bytes: &[u8; 32]) -> (word: Word)
        ensures
            word@ == be_value(bytes@),
    {
        Word { limbs: limbs_from_be_slice(bytes.as_slice()) }
    }

    /// The word as 32 bytes, most significant first.
    pub fn to_be_bytes(&self) -> (bytes: [u8; 32])
        ensures
            be_value(bytes@) == self@,
    {
        let vec = limbs_to_be_bytes(self.limbs);
        let mut bytes: [u8; 32] = [0; 32];
        let mut i: usize = 0;
        while i < 32
            invariant
                i <= 32,
                vec@.len() == 32,
                forall|j: int| 0 <= j < i ==> bytes@[j] == vec@[j],
            decreases 32 - i,
        {
            bytes[i] = vec[i];
            i = i + 1;
        }
        assert(bytes@ =~= vec@);
        bytes
    }
}

/// Whether two byte strings are the same.
pub(crate) fn same_bytes(a: &[u8], b: &[u8]) -> (same: bool)
    ensures
        same == (a@ == b@),
{
    if a.len() != b.len() {
        return false;
    }
    let mut i: usize = 0;
    while i < a.len()
        invariant
            i <= a@.len() == b@.len(),
            forall|j: int| 0 <= j < i ==> a@[j] == b@[j],
        decreases a@.len() - i,
    {
        if a[i] != b[i] {
            return false;
        }
        i = i + 1;
    }
    assert(a@ =~= b@);
    true
}

/// The last 32 bytes of `bytes`, with zeros in front where there are fewer.
pub open spec fn low_word(bytes: Seq<u8>) -> Seq<u8> {
    if bytes.len() <= 32 {
        Seq::new((32 - bytes.len()) as nat, |i: int| 0u8) + bytes
    } else {
        bytes.skip(bytes.len() - 32)
    }
}

/// Aligns a byte string to one 32-byte word: zeros go in front of a shorter one, and of a longer
/// one the last 32 bytes stay.
pub fn align_to_word(bytes: &[u8]) -> (word: [u8; 32])
    ensures
        word@ == low_word(bytes@),
{
    let mut word: [u8; 32] = [0; 32];
    let len = bytes.len();
    let mut i: usize = 0;
    while i < 32
        invariant
            i <= 32,
            len == bytes@.len(),
            forall|j: int| 0 <= j < i ==> word@[j] == low_word(bytes@)[j],
        decreases 32 - i,
    {
        if len >= 32 {
            word[i] = bytes[len - 32 + i];
        } else if i >= 32 - len {
            word[i] = bytes[i - (32 - len)];
        } else {
            word[i] = 0;
        }
        i = i + 1;
    }
    assert(word@ =~= low_word(bytes@));
    word
}

/// Aligning keeps the number modulo `2^256` (that is `256^32`): a byte string of up to 32 bytes
/// spells the same number, and a longer one loses its high bytes only.
pub proof fn law_aligning_keeps_value(bytes: Seq<u8>)
    ensures
        low_word(bytes).len() == 32,
        be_value(low_word(bytes)) == be_value(bytes) as int % pow(256, 32),
{
    let n = bytes.len();
    if n <= 32 {
        let zeros = Seq::new((32 - n) as nat, |i: int| 0u8);
        lemma_be_value_zeros((32 - n) as nat);
        lemma_be_value_concat(zeros, bytes);
        let p = pow(256, n);
        assert(0 * p == 0) by (nonlinear_arith);
        assert(low_word(bytes) =~= zeros + bytes);
        lemma_be_value_bound(low_word(bytes));
        lemma_small_mod(be_value(bytes), pow(256, 32) as nat);
    } else {
        let head = bytes.take(n - 32);
        let tail = bytes.skip(n - 32);
        assert(bytes =~= head + tail);
        lemma_be_value_concat(head, tail);
        lemma_be_value_bound(tail);
        lemma_fundamental_div_mod_converse(
            be_value(bytes) as int,
            pow(256, 32),
            be_value(head) as int,
            be_value(tail) as int,
        );
    }
}

/// A byte string of `n` bytes spells a number below `256^n`.
pub proof fn lemma_be_value_bound(bytes: Seq<u8>)
    ensures
        be_value(bytes) < pow(256, bytes.len()),
    decreases bytes.len(),
{
    reveal(pow);
    if bytes.len() > 0 {
        lemma_be_value_bound(bytes.drop_last());
    }
}

/// Appending `tail` shifts the number up by its length in bytes.
pub proof fn lemma_be_value_concat(head: Seq<u8>, tail: Seq<u8>)
    ensures
        be_value(head + tail) == be_value(head) * pow(256, tail.len()) + be_value(tail),
    decreases tail.len(),
{
    reveal(pow);
    if tail.len() == 0 {
        assert(head + tail =~= head);
    } else {
        let rest = tail.drop_last();
        lemma_be_value_concat(head, rest);
        assert((head + tail).drop_last() =~= head + rest);
        assert((head + tail).last() == tail.last());
        let h = be_value(head) as int;
        let p = pow(256, rest.len());
        assert(256 * (h * p) == h * (256 * p)) by (nonlinear_arith);
    }
}

/// A byte string of zeros spells zero.
pub proof fn lemma_be_value_zeros(n: nat)
    ensures
        be_value(Seq::new(n, |i: int| 0u8)) == 0,
    decreases n,
{
    if n > 0 {
        lemma_be_value_zeros((n - 1) as nat);
        assert(Seq::new(n, |i: int| 0u8).drop_last() =~= Seq::new((n - 1) as nat, |i: int| 0u8));
    }
}

/// Byte strings of one length that spell the same number are the same.
pub proof fn law_be_value_injective(a: Seq<u8>, b: Seq<u8>)
    requires
        a.len() == b.len(),
        be_value(a) == be_value(b),
    ensures
        a == b,
    decreases a.len(),
{
    if a.len() > 0 {
        law_be_value_injective(a.drop_last(), b.drop_last());
        assert(a =~= a.drop_last().push(a.last()));
        assert(b =~= b.drop_last().push(b.last()));
    } else {
        assert(a =~= b);
    }
}

/// A number splits in one way only into a lowest limb and the limbs above it.
proof fn lemma_limb_split(a: u64, a_rest: nat, b: u64, b_rest: nat)
    requires
        a + 0x1_0000_0000_0000_0000 * a_rest == b + 0x1_0000_0000_0000_0000 * b_rest,
    ensures
        a == b,
        a_rest == b_rest,
{
    let base: int = 0x1_0000_0000_0000_0000;
    let n = a + base * a_rest;
    lemma_fundamental_div_mod_converse(n, base, a_rest as int, a as int);
    lemma_fundamental_div_mod_converse(n, base, b_rest as int, b as int);
}

/// Words of the same value are the same.
pub proof fn law_word_determined_by_value(a: Word, b: Word)
    requires
        a@ == b@,
    ensures
        a == b,
{
    let base: int = 0x1_0000_0000_0000_0000;
    let (x, y) = (a.limbs@, b.limbs@);
    let (x2, y2) = ((x[2] + base * x[3]) as nat, (y[2] + base * y[3]) as nat);
    let (x1, y1) = ((x[1] + base * x2) as nat, (y[1] + base * y2) as nat);
    lemma_limb_split(x[0], x1, y[0], y1);
    lemma_limb_split(x[1], x2, y[1], y2);
    lemma_limb_split(x[2], x[3] as nat, y[2], y[3] as nat);
    assert(a.limbs =~= b.limbs);
}

/// A single byte spells itself. With the law on concatenation this fixes the number that every
/// byte string spells.
pub proof fn law_be_value_of_byte(byte: u8)
    ensures
        be_value(seq![byte]) == byte,
        be_value(Seq::empty()) == 0,
{
    let one = seq![byte];
    assert(one.drop_last() =~= Seq::<u8>::empty());
    assert(be_value(one.drop_last()) == 0);
}

/// Appending a byte string shifts the number up by its length in bytes and adds the number that it
/// spells: the first byte of a string is the most significant one.
pub proof fn law_be_value_of_concatenation(head: Seq<u8>, tail: Seq<u8>)
    ensures
        be_value(head + tail) == be_value(head) * pow(256, tail.len()) + be_value(tail),
        be_value(tail) < pow(256, tail.len()),
{
    lemma_be_value_concat(head, tail);
    lemma_be_value_bound(tail);
}

/// Eight bytes fill one limb: appending them shifts the number up by a limb.
proof fn lemma_limb_of_bytes(head: Seq<u8>, tail: Seq<u8>)
    requires
        tail.len() == 8,
    ensures
        be_value(head + tail) == be_value(head) * 0x1_0000_0000_0000_0000 + be_value(tail),
        be_value(tail) < 0x1_0000_0000_0000_0000,
{
    law_be_value_of_concatenation(head, tail);
    assert(pow(256, 8) == 0x1_0000_0000_0000_0000) by {
        reveal_with_fuel(pow, 9);
    }
}

/// A word of the value that 32 bytes spell holds them eight to a limb, the last eight in the lowest
/// limb.
proof fn lemma_word_limbs(bytes: Seq<u8>, word: Word)
    requires
        bytes.len() == 32,
        word@ == be_value(bytes),
    ensures
        word.limbs@[0] == be_value(bytes.subrange(24, 32)),
        word.limbs@[1] == be_value(bytes.subrange(16, 24)),
        word.limbs@[2] == be_value(bytes.subrange(8, 16)),
        word.limbs@[3] == be_value(bytes.subrange(0, 8)),
{
    let s3 = bytes.subrange(0, 8);
    let s2 = bytes.subrange(8, 16);
    let s1 = bytes.subrange(16, 24);
    let s0 = bytes.subrange(24, 32);
    assert(bytes =~= ((s3 + s2) + s1) + s0);
    assert(Seq::<u8>::empty() + s3 =~= s3);
    lemma_limb_of_bytes(Seq::empty(), s3);
    lemma_limb_of_bytes(s3, s2);
    lemma_limb_of_bytes(s3 + s2, s1);
    lemma_limb_of_bytes((s3 + s2) + s1, s0);
    let spelled = Word {
        limbs: [be_value(s0) as u64, be_value(s1) as u64, be_value(s2) as u64, be_value(s3) as u64],
    };
    assert(spelled@ == be_value(bytes));
    law_word_determined_by_value(word, spelled);
}

/// A key and a value are read from 32 bytes alike: eight bytes to a limb, the last eight in the
/// lowest limb, and in each limb the first byte is the most significant.
pub proof fn law_word_holds_its_bytes(bytes: [u8; 32], key: Word, value: Word)
    requires
        call_ensures(Word::from_key, (&bytes,), key),
        call_ensures(Word::from_be_bytes, (&bytes,), value),
    ensures
        key == value,
        value.limbs@[0] == be_value(bytes@.subrange(24, 32)),
        value.limbs@[1] == be_value(bytes@.subrange(16, 24)),
        value.limbs@[2] == be_value(bytes@.subrange(8, 16)),
        value.limbs@[3] == be_value(bytes@.subrange(0, 8)),
{
    lemma_word_limbs(bytes@, value);
    law_word_determined_by_value(key, value);
}

/// Writing a word out and reading it back gives the word, and reading bytes and writing them out
/// gives the bytes.
pub proof fn law_word_bytes_round_trip(
    word: Word,
    written: [u8; 32],
    read: Word,
    rewritten: [u8; 32],
)
    requires
        call_ensures(Word::to_be_bytes, (&word,), written),
        call_ensures(Word::from_be_bytes, (&written,), read),
        call_ensures(Word::to_be_bytes, (&read,), rewritten),
    ensures
        read == word,
        rewritten == written,
{
    law_word_determined_by_value(read, word);
    law_be_value_injective(rewritten@, written@);
    assert(rewritten =~= written);
}

/// The word zero has no bit set, and writes as zeros.
pub proof fn law_zero_word(word: Word, written: [u8; 32])
    requires
        call_ensures(Word::zero, (), word),
        call_ensures(Word::to_be_bytes, (&word,), written),
    ensures
        forall|k: int| 0 <= k < 4 ==> #[trigger] word.limbs@[k] == 0,
        forall|k: int| 0 <= k < 32 ==> #[trigger] written@[k] == 0,
{
    let zeros = Seq::new(32, |i: int| 0u8);
    lemma_be_value_zeros(32);
    law_be_value_injective(written@, zeros);
    law_word_determined_by_value(word, Word { limbs: [0, 0, 0, 0] });
}

/// An aligned byte string ends in the same bytes as the string itself, as far as 32 bytes go, with
/// zeros in front of them; so it spells the same number modulo `256^32`.
pub proof fn law_aligned_word_ends_alike(bytes: &[u8], word: [u8; 32])
    requires
        call_ensures(align_to_word, (bytes,), word),
    ensures
        be_value(word@) == be_value(bytes@) as int % pow(256, 32),
        forall|k: int|
            0 <= k < 32 ==> #[trigger] word@[k] == (if k + bytes@.len() >= 32 {
                bytes@[k + bytes@.len() - 32]
            } else {
                0u8
            }),
{
    law_aligning_keeps_value(bytes@);
}

} // verus!
