//! Key expansion: from a key of `nk` four-byte words to the `nr + 1` round
//! keys, where `nr = nk + 6`.
use vstd::prelude::*;

use crate::tables::{rcon, RCON, SBOX};

verus! {

/// RotWord: the word rotated left by one byte.
pub open spec fn spec_rot_word(w: Seq<u8>) -> Seq<u8> {
    seq![w[1], w[2], w[3], w[0]]
}

/// SubWord: every byte of the word replaced through the substitution box.
pub open spec fn spec_sub_word(w: Seq<u8>) -> Seq<u8> {
    Seq::new(4, |k: int| SBOX@[w[k] as int])
}

/// The byte-wise XOR of two words.
pub open spec fn xor_word(a: Seq<u8>, b: Seq<u8>) -> Seq<u8> {
    Seq::new(4, |k: int| a[k] ^ b[k])
}

/// The word that is XORed into `W[i - nk]` to give `W[i]`, computed from
/// the previous word `prev = W[i - 1]`.
pub open spec fn schedule_temp(prev: Seq<u8>, nk: nat, i: nat) -> Seq<u8> {
    if i % nk == 0 {
        let t = spec_sub_word(spec_rot_word(prev));
        t.update(0, t[0] ^ rcon((i / nk - 1) as nat))
    } else if nk == 8 && i % nk == 4 {
        spec_sub_word(prev)
    } else {
        prev
    }
}

/// Word `W[i]` of the key schedule of `key`, which holds `nk` words.
#[verifier::opaque]
pub open spec fn key_word(key: Seq<u8>, nk: nat, i: nat) -> Seq<u8>
    decreases i,
{
    if nk == 0 || i < nk {
        key.subrange(4 * i as int, 4 * i as int + 4)
    } else {
        xor_word(
            key_word(key, nk, (i - nk) as nat),
            schedule_temp(key_word(key, nk, (i - 1) as nat), nk, i),
        )
    }
}

/// The number of rounds for a key of `key_len` bytes: 10, 12 or 14.
pub open spec fn rounds_for(key_len: nat) -> nat {
    key_len / 4 + 6
}

/// Whether `key_len` is the length of an AES key: 16, 24 or 32 bytes.
pub open spec fn valid_key_len(key_len: nat) -> bool {
    key_len == 16 || key_len == 24 || key_len == 32
}

/// The expanded key of `key`: the words `W[0] .. W[4 * (nr + 1) - 1]`, one
/// after another, which make the `nr + 1` round keys of 16 bytes.
pub open spec fn expand_key(key: Seq<u8>) -> Seq<u8> {
    Seq::new(
        16 * (rounds_for(key.len()) + 1),
        |j: int| key_word(key, key.len() / 4, (j / 4) as nat)[j % 4],
    )
}

/// Applies SubWord to the word.
pub fn sub_word(word: &mut [u8; 4])
    ensures
        final(word)@ == spec_sub_word(old(word)@),
{
    let ghost w0 = word@;
    let mut i: usize = 0;
    while i < 4
        invariant
            0 <= i <= 4,
            w0.len() == 4,
            forall|j: int| 0 <= j < i ==> word@[j] == SBOX@[w0[j] as int],
            forall|j: int| i <= j < 4 ==> word@[j] == w0[j],
        decreases 4 - i,
    {
        word[i] = SBOX[word[i] as usize];
        i += 1;
    }
    assert(word@ =~= spec_sub_word(w0));
}

/// Applies RotWord to the word.
pub fn rot_word(word: &mut [u8; 4])
    ensures
        final(word)@ == spec_rot_word(old(word)@),
{
    let first = word[0];
    word[0] = word[1];
    word[1] = word[2];
    word[2] = word[3];
    word[3] = first;
    assert(word@ =~= spec_rot_word(old(word)@));
}

/// The first `nk` words of the schedule are the key itself; each later
/// one is `W[i - nk]` XOR the word derived from `W[i - 1]`.
pub proof fn lemma_key_word_unfold(key: Seq<u8>, nk: nat, i: nat)
    requires
        nk > 0,
    ensures
        i < nk ==> key_word(key, nk, i) == key.subrange(4 * i as int, 4 * i as int + 4),
        i >= nk ==> key_word(key, nk, i) == xor_word(
            key_word(key, nk, (i - nk) as nat),
            schedule_temp(key_word(key, nk, (i - 1) as nat), nk, i),
        ),
{
    reveal(key_word);
}

/// Every word of the schedule has four bytes.
pub proof fn lemma_key_word_len(key: Seq<u8>, nk: nat, i: nat)
    requires
        nk > 0,
        key.len() == 4 * nk,
    ensures
        key_word(key, nk, i).len() == 4,
    decreases i,
{
    lemma_key_word_unfold(key, nk, i);
    if i >= nk {
        lemma_key_word_len(key, nk, (i - nk) as nat);
    }
}

/// The index of the round constant that word `i` reads lies in the table.
proof fn lemma_rcon_index(i: nat, nk: nat)
    requires
        nk == 4 || nk == 6 || nk == 8,
        nk <= i < 4 * (nk + 7),
    ensures
        1 <= i / nk <= 10,
{
    if nk == 4 {
        assert(1 <= i / 4 <= 10);
    } else if nk == 6 {
        assert(1 <= i / 6 <= 10);
    } else {
        assert(1 <= i / 8 <= 10);
    }
}

/// Writing word `i`, computed from the schedule prefix `e0` and the derived
/// word `temp`, extends the prefix by one word.
proof fn lemma_schedule_next_word(e0: Seq<u8>, e1: Seq<u8>, key: Seq<u8>, nk: nat, i: nat, temp: Seq<u8>)
    requires
        0 < nk <= i,
        e0.len() == e1.len(),
        e0.len() >= 4 * i + 4,
        schedule_prefix(e0, key, nk, 4 * i as int),
        temp == schedule_temp(key_word(key, nk, (i - 1) as nat), nk, i),
        forall|q: int| 0 <= q < 4 ==> e1[4 * i + q] == e0[4 * (i - nk) + q] ^ temp[q],
        forall|m: int| 0 <= m < 4 * i ==> e1[m] == e0[m],
    ensures
        schedule_prefix(e1, key, nk, 4 * i as int + 4),
{
    lemma_key_word_unfold(key, nk, i);
    assert forall|q: int| 0 <= q < 4 implies e1[4 * i + q] == key_word(key, nk, i)[q] by {
        let m = 4 * (i - nk) + q;
        assert(m / 4 == i - nk);
        assert(m % 4 == q);
        assert(e0[m] == key_word(key, nk, (m / 4) as nat)[m % 4]);
    }
    assert forall|m: int| 0 <= m < 4 * i implies e1[m] == #[trigger] key_word(
        key,
        nk,
        (m / 4) as nat,
    )[m % 4] by {
        assert(e0[m] == key_word(key, nk, (m / 4) as nat)[m % 4]);
    }
    lemma_schedule_prefix_extend(e1, key, nk, i);
}

/// The first `n` bytes of `e` are the first `n` bytes of the key schedule
/// of `key`.
pub open spec fn schedule_prefix(e: Seq<u8>, key: Seq<u8>, nk: nat, n: int) -> bool {
    forall|m: int| 0 <= m < n ==> e[m] == #[trigger] key_word(key, nk, (m / 4) as nat)[m % 4]
}

/// A prefix of the schedule grows by one word once the four bytes of the
/// next word are in place.
proof fn lemma_schedule_prefix_extend(e: Seq<u8>, key: Seq<u8>, nk: nat, i: nat)
    requires
        e.len() >= 4 * i + 4,
        schedule_prefix(e, key, nk, 4 * i as int),
        forall|q: int| 0 <= q < 4 ==> e[4 * i + q] == key_word(key, nk, i)[q],
    ensures
        schedule_prefix(e, key, nk, 4 * i as int + 4),
{
    assert forall|m: int| 0 <= m < 4 * i + 4 implies e[m] == #[trigger] key_word(
        key,
        nk,
        (m / 4) as nat,
    )[m % 4] by {
        if m >= 4 * i {
            assert(m / 4 == i);
            assert(4 * i + m % 4 == m);
        }
    }
}

/// Reads word `w` of the schedule out of a prefix that holds it.
proof fn lemma_schedule_prefix_word(e: Seq<u8>, key: Seq<u8>, nk: nat, w: nat, q: int)
    requires
        schedule_prefix(e, key, nk, 4 * w as int + 4),
        0 <= q < 4,
    ensures
        e[4 * w + q] == key_word(key, nk, w)[q],
{
    let m = 4 * w + q;
    assert(m / 4 == w);
    assert(m % 4 == q);
    assert(e[m] == key_word(key, nk, (m / 4) as nat)[m % 4]);
}

/// Turns word `W[i - 1]` of the schedule into the word that is XORed into
/// `W[i - nk]`: RotWord, SubWord and the round constant at the start of
/// every key-length stretch, SubWord alone halfway through one of AES-256.
pub fn derive_word(word: &mut [u8; 4], nk: usize, i: usize)
    requires
        nk == 4 || nk == 6 || nk == 8,
        nk <= i < 4 * (nk + 7),
    ensures
        final(word)@ == schedule_temp(old(word)@, nk as nat, i as nat),
{
    if i % nk == 0 {
        rot_word(word);
        sub_word(word);
        proof {
            lemma_rcon_index(i as nat, nk as nat);
            crate::tables::lemma_rcon_table((i / nk - 1) as nat);
        }
        word[0] = word[0] ^ RCON[i / nk - 1];
        assert(word@ =~= schedule_temp(old(word)@, nk as nat, i as nat));
    } else if nk == 8 && i % nk == 4 {
        sub_word(word);
    }
}

/// Copies word `w` out of the schedule under construction.
fn read_word<const N: usize>(expanded: &[u8; N], w: usize) -> (r: [u8; 4])
    requires
        4 * w + 4 <= N,
    ensures
        r@ == expanded@.subrange(4 * w as int, 4 * w as int + 4),
{
    let r = [expanded[4 * w], expanded[4 * w + 1], expanded[4 * w + 2], expanded[4 * w + 3]];
    assert(r@ =~= expanded@.subrange(4 * w as int, 4 * w as int + 4));
    r
}

/// Sets word `w` of the schedule under construction to word `back` XOR
/// `temp`.
fn xor_into_word<const N: usize>(expanded: &mut [u8; N], w: usize, back: usize, temp: &[u8; 4])
    requires
        back < w,
        4 * w + 4 <= N,
    ensures
        forall|q: int|
            0 <= q < 4 ==> #[trigger] final(expanded)@[4 * w + q] == old(expanded)@[4 * back + q]
                ^ temp@[q],
        forall|m: int| 0 <= m < 4 * w ==> #[trigger] final(expanded)@[m] == old(expanded)@[m],
        final(expanded)@.len() == N,
{
    expanded[4 * w] = expanded[4 * back] ^ temp[0];
    expanded[4 * w + 1] = expanded[4 * back + 1] ^ temp[1];
    expanded[4 * w + 2] = expanded[4 * back + 2] ^ temp[2];
    expanded[4 * w + 3] = expanded[4 * back + 3] ^ temp[3];
}

/// Writes the expanded key of `key` into `expanded`.
pub fn expand_key_into<const N: usize>(key: &[u8], expanded: &mut [u8; N])
    requires
        valid_key_len(key@.len()),
        N == 16 * (rounds_for(key@.len()) + 1),
    ensures
        final(expanded)@ == expand_key(key@),
{
    let ghost k = key@;
    let key_len = key.len();
    let nk = key_len / 4;
    let total = N / 4;
    let mut j: usize = 0;
    while j < key_len
        invariant
            0 <= j <= key_len,
            key_len == k.len(),
            k == key@,
            valid_key_len(k.len()),
            nk == k.len() / 4,
            N == 16 * (nk + 7),
            expanded@.len() == N,
            schedule_prefix(expanded@, k, nk as nat, j as int),
        decreases key_len - j,
    {
        let ghost w = (j / 4) as nat;
        let ghost e0 = expanded@;
        proof {
            lemma_key_word_unfold(k, nk as nat, w);
        }
        assert(4 * (j / 4) + j % 4 == j);
        expanded[j] = key[j];
        assert forall|m: int| 0 <= m < j + 1 implies expanded@[m] == #[trigger] key_word(
            k,
            nk as nat,
            (m / 4) as nat,
        )[m % 4] by {
            if m < j {
                assert(e0[m] == key_word(k, nk as nat, (m / 4) as nat)[m % 4]);
            }
        }
        j += 1;
    }
    let mut i: usize = nk;
    while i < total
        invariant
            nk <= i <= total,
            nk == 4 || nk == 6 || nk == 8,
            k.len() == 4 * nk,
            N == 16 * (nk + 7),
            total == 4 * (nk + 7),
            expanded@.len() == N,
            schedule_prefix(expanded@, k, nk as nat, 4 * i),
        decreases total - i,
    {
        let ghost prev = key_word(k, nk as nat, (i - 1) as nat);
        proof {
            lemma_key_word_len(k, nk as nat, (i - 1) as nat);
        }
        let mut temp = read_word(expanded, i - 1);
        assert(temp@ =~= prev) by {
            assert forall|q: int| 0 <= q < 4 implies temp@[q] == prev[q] by {
                lemma_schedule_prefix_word(expanded@, k, nk as nat, (i - 1) as nat, q);
            }
        }
        derive_word(&mut temp, nk, i);
        let ghost e0 = expanded@;
        xor_into_word(expanded, i, i - nk, &temp);
        proof {
            lemma_schedule_next_word(e0, expanded@, k, nk as nat, i as nat, temp@);
        }
        i += 1;
    }
    proof {
        assert forall|m: int| 0 <= m < N implies expanded@[m] == expand_key(k)[m] by {
            assert(expanded@[m] == key_word(k, nk as nat, (m / 4) as nat)[m % 4]);
        }
    }
    assert(expanded@ =~= expand_key(k));
}

} // verus!
