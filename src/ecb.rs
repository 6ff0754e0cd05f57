//! The whole-buffer codec: PKCS#7 padding, and every 16-byte block of the
//! buffer encrypted or decrypted on its own (ECB).
use vstd::prelude::*;

use crate::block::{
    cipher, decrypt_block_rounds, encrypt_block_rounds, inv_cipher,
    lemma_inv_cipher_undoes_cipher,
};

verus! {

/// The number of padding bytes PKCS#7 appends to a message of `len` bytes:
/// 1 to 16, so that the length becomes a multiple of 16.
pub open spec fn pkcs7_pad_len(len: nat) -> nat {
    (16 - len % 16) as nat
}

/// `m` followed by `k` copies of the byte `k`, where `k` is its padding
/// length.
pub open spec fn pkcs7_pad(m: Seq<u8>) -> Seq<u8> {
    m + Seq::new(pkcs7_pad_len(m.len()), |_i: int| pkcs7_pad_len(m.len()) as u8)
}

/// `d` without as many trailing bytes as its last byte says. The padding
/// bytes before the last one are not checked. An empty `d`, or one whose
/// last byte exceeds its length, stays as it is.
pub open spec fn pkcs7_unpad(d: Seq<u8>) -> Seq<u8> {
    if d.len() == 0 {
        d
    } else if d.last() as int <= d.len() {
        d.subrange(0, d.len() - d.last() as int)
    } else {
        d
    }
}

/// Block `b` of `d`: its bytes `16 * b .. 16 * b + 16`.
pub open spec fn block_of(d: Seq<u8>, b: int) -> Seq<u8> {
    d.subrange(16 * b, 16 * b + 16)
}

/// Every block of `d` encrypted with the expanded key `keys` over `nr`
/// rounds.
pub open spec fn ecb_encrypt(keys: Seq<u8>, nr: nat, d: Seq<u8>) -> Seq<u8> {
    Seq::new(d.len(), |i: int| cipher(keys, nr, block_of(d, i / 16))[i % 16])
}

/// Every block of `d` decrypted with the expanded key `keys` over `nr`
/// rounds.
pub open spec fn ecb_decrypt(keys: Seq<u8>, nr: nat, d: Seq<u8>) -> Seq<u8> {
    Seq::new(d.len(), |i: int| inv_cipher(keys, nr, block_of(d, i / 16))[i % 16])
}

/// Copies block `b` of the buffer out.
fn read_block(buffer: &Vec<u8>, b: usize) -> (r: [u8; 16])
    requires
        16 * b + 16 <= buffer@.len(),
    ensures
        r@ == block_of(buffer@, b as int),
{
    let mut r = [0u8; 16];
    let len = buffer.len();
    assert(16 * b + 16 <= len);
    let base = 16 * b;
    let mut i: usize = 0;
    while i < 16
        invariant
            0 <= i <= 16,
            base == 16 * b,
            base + 16 <= buffer@.len(),
            forall|j: int| 0 <= j < i ==> r@[j] == buffer@[base + j],
        decreases 16 - i,
    {
        r[i] = buffer[base + i];
        i += 1;
    }
    assert(r@ =~= block_of(buffer@, b as int));
    r
}

/// Overwrites block `b` of the buffer with `block`.
fn write_block(buffer: &mut Vec<u8>, b: usize, block: &[u8; 16])
    requires
        16 * b + 16 <= old(buffer)@.len(),
    ensures
        final(buffer)@.len() == old(buffer)@.len(),
        forall|i: int|
            0 <= i < old(buffer)@.len() ==> #[trigger] final(buffer)@[i] == if 16 * b <= i < 16 * b
                + 16 {
                block@[i - 16 * b]
            } else {
                old(buffer)@[i]
            },
{
    let len = buffer.len();
    assert(16 * b + 16 <= len);
    let base = 16 * b;
    let mut i: usize = 0;
    while i < 16
        invariant
            0 <= i <= 16,
            base == 16 * b,
            base + 16 <= buffer@.len(),
            buffer@.len() == old(buffer)@.len(),
            forall|j: int|
                0 <= j < buffer@.len() ==> #[trigger] buffer@[j] == if base <= j < base + i {
                    block@[j - base]
                } else {
                    old(buffer)@[j]
                },
        decreases 16 - i,
    {
        buffer.set(base + i, block[i]);
        i += 1;
    }
}

/// Encrypts every block of the buffer in place.
fn encrypt_blocks(round_keys: &[u8], rounds: usize, buffer: &mut Vec<u8>)
    requires
        rounds >= 1,
        round_keys@.len() == 16 * (rounds + 1),
        old(buffer)@.len() % 16 == 0,
    ensures
        final(buffer)@ == ecb_encrypt(round_keys@, rounds as nat, old(buffer)@),
{
    let ghost d = buffer@;
    let n = buffer.len() / 16;
    let mut b: usize = 0;
    while b < n
        invariant
            0 <= b <= n,
            n * 16 == d.len(),
            rounds >= 1,
            round_keys@.len() == 16 * (rounds + 1),
            buffer@.len() == d.len(),
            forall|i: int| 0 <= i < 16 * b ==> buffer@[i] == ecb_encrypt(round_keys@, rounds as nat, d)[i],
            forall|i: int| 16 * b <= i < d.len() ==> buffer@[i] == d[i],
        decreases n - b,
    {
        let mut block = read_block(buffer, b);
        assert(block@ =~= block_of(d, b as int));
        encrypt_block_rounds(round_keys, rounds, &mut block);
        write_block(buffer, b, &block);
        assert forall|i: int| 16 * b <= i < 16 * b + 16 implies buffer@[i] == ecb_encrypt(round_keys@, rounds as nat, d)[i] by {
            assert(i / 16 == b);
            assert(i % 16 == i - 16 * b);
        }
        b += 1;
    }
    assert(buffer@ =~= ecb_encrypt(round_keys@, rounds as nat, d));
}

/// Decrypts every block of the buffer in place.
fn decrypt_blocks(round_keys: &[u8], rounds: usize, buffer: &mut Vec<u8>)
    requires
        rounds >= 1,
        round_keys@.len() == 16 * (rounds + 1),
        old(buffer)@.len() % 16 == 0,
    ensures
        final(buffer)@ == ecb_decrypt(round_keys@, rounds as nat, old(buffer)@),
{
    let ghost d = buffer@;
    let n = buffer.len() / 16;
    let mut b: usize = 0;
    while b < n
        invariant
            0 <= b <= n,
            n * 16 == d.len(),
            rounds >= 1,
            round_keys@.len() == 16 * (rounds + 1),
            buffer@.len() == d.len(),
            forall|i: int| 0 <= i < 16 * b ==> buffer@[i] == ecb_decrypt(round_keys@, rounds as nat, d)[i],
            forall|i: int| 16 * b <= i < d.len() ==> buffer@[i] == d[i],
        decreases n - b,
    {
        let mut block = read_block(buffer, b);
        assert(block@ =~= block_of(d, b as int));
        decrypt_block_rounds(round_keys, rounds, &mut block);
        write_block(buffer, b, &block);
        assert forall|i: int| 16 * b <= i < 16 * b + 16 implies buffer@[i] == ecb_decrypt(round_keys@, rounds as nat, d)[i] by {
            assert(i / 16 == b);
            assert(i % 16 == i - 16 * b);
        }
        b += 1;
    }
    assert(buffer@ =~= ecb_decrypt(round_keys@, rounds as nat, d));
}

/// Pads the buffer with PKCS#7 and encrypts each of its blocks in place.
pub fn encrypt_buffer(round_keys: &[u8], rounds: usize, buffer: &mut Vec<u8>)
    requires
        rounds >= 1,
        round_keys@.len() == 16 * (rounds + 1),
        old(buffer)@.len() + 16 <= usize::MAX,
    ensures
        final(buffer)@ == ecb_encrypt(round_keys@, rounds as nat, pkcs7_pad(old(buffer)@)),
        final(buffer)@.len() % 16 == 0,
        old(buffer)@.len() < final(buffer)@.len() <= old(buffer)@.len() + 16,
{
    let ghost m = buffer@;
    let padding_len = 16 - buffer.len() % 16;
    let mut n: usize = 0;
    while n < padding_len
        invariant
            0 <= n <= padding_len,
            padding_len == pkcs7_pad_len(m.len()),
            buffer@ == m + Seq::new(n as nat, |_i: int| padding_len as u8),
        decreases padding_len - n,
    {
        buffer.push(padding_len as u8);
        n += 1;
        assert(buffer@ =~= m + Seq::new(n as nat, |_i: int| padding_len as u8));
    }
    assert(buffer@ =~= pkcs7_pad(m));
    encrypt_blocks(round_keys, rounds, buffer);
}

/// Decrypts each block of the buffer in place, then drops as many trailing
/// bytes as the last byte says.
pub fn decrypt_buffer(round_keys: &[u8], rounds: usize, buffer: &mut Vec<u8>)
    requires
        rounds >= 1,
        round_keys@.len() == 16 * (rounds + 1),
        old(buffer)@.len() % 16 == 0,
    ensures
        final(buffer)@ == pkcs7_unpad(ecb_decrypt(round_keys@, rounds as nat, old(buffer)@)),
{
    decrypt_blocks(round_keys, rounds, buffer);
    let len = buffer.len();
    if len > 0 {
        let padding_len = buffer[len - 1] as usize;
        if padding_len <= len {
            buffer.truncate(len - padding_len);
            assert(buffer@ =~= pkcs7_unpad(ecb_decrypt(round_keys@, rounds as nat, old(buffer)@)));
        }
    }
}

/// Padding makes the length a positive multiple of 16, longer than the
/// message by 1 to 16 bytes.
pub proof fn lemma_pkcs7_pad_len(m: Seq<u8>)
    ensures
        pkcs7_pad(m).len() % 16 == 0,
        m.len() < pkcs7_pad(m).len() <= m.len() + 16,
{
}

/// Removing the padding gives the message back.
pub proof fn lemma_pkcs7_unpad_undoes_pad(m: Seq<u8>)
    ensures
        pkcs7_unpad(pkcs7_pad(m)) == m,
{
    let p = pkcs7_pad(m);
    assert(p.last() == pkcs7_pad_len(m.len()) as u8);
    assert(p.subrange(0, m.len() as int) =~= m);
}

/// ECB decryption undoes ECB encryption on a whole number of blocks.
pub proof fn lemma_ecb_decrypt_undoes_encrypt(keys: Seq<u8>, nr: nat, d: Seq<u8>)
    requires
        nr >= 1,
        keys.len() == 16 * (nr + 1),
        d.len() % 16 == 0,
    ensures
        ecb_decrypt(keys, nr, ecb_encrypt(keys, nr, d)) == d,
{
    let e = ecb_encrypt(keys, nr, d);
    assert forall|i: int| 0 <= i < d.len() implies ecb_decrypt(keys, nr, e)[i] == d[i] by {
        let b = i / 16;
        assert(16 * b + 16 <= d.len());
        let x = block_of(d, b);
        assert(block_of(e, b) =~= cipher(keys, nr, x)) by {
            assert forall|j: int| 0 <= j < 16 implies block_of(e, b)[j] == cipher(keys, nr, x)[j] by {
                assert((16 * b + j) / 16 == b);
                assert((16 * b + j) % 16 == j);
            }
        }
        lemma_inv_cipher_undoes_cipher(keys, nr, x);
    }
    assert(ecb_decrypt(keys, nr, e) =~= d);
}

/// Decrypting what was encrypted gives the message back, whatever its
/// length.
pub proof fn lemma_buffer_round_trip(keys: Seq<u8>, nr: nat, m: Seq<u8>)
    requires
        nr >= 1,
        keys.len() == 16 * (nr + 1),
    ensures
        pkcs7_unpad(ecb_decrypt(keys, nr, ecb_encrypt(keys, nr, pkcs7_pad(m)))) == m,
{
    lemma_pkcs7_pad_len(m);
    lemma_ecb_decrypt_undoes_encrypt(keys, nr, pkcs7_pad(m));
    lemma_pkcs7_unpad_undoes_pad(m);
}

} // verus!
