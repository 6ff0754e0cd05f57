//! The block codec: one 16-byte block encrypted or decrypted in place with
//! an expanded key of `rounds + 1` round keys.
use vstd::prelude::*;

use crate::rounds::{
    add_round_key, inv_mix_columns, inv_shift_rows, inv_sub_bytes, mix_columns, shift_rows,
    spec_add_round_key, spec_inv_mix_columns, spec_inv_shift_rows, spec_inv_sub_bytes,
    spec_mix_columns, spec_shift_rows, spec_sub_bytes, sub_bytes, lemma_add_round_key_twice,
    lemma_inv_mix_columns_inverts, lemma_inv_shift_rows_inverts, lemma_inv_sub_bytes_inverts,
};

verus! {

/// The state after the first `k` full rounds (SubBytes, ShiftRows,
/// MixColumns, AddRoundKey with round key `1 ..= k`), starting from `s`.
pub open spec fn enc_rounds(s: Seq<u8>, keys: Seq<u8>, k: nat) -> Seq<u8>
    decreases k,
{
    if k == 0 {
        s
    } else {
        spec_add_round_key(
            spec_mix_columns(spec_shift_rows(spec_sub_bytes(enc_rounds(s, keys, (k - 1) as nat)))),
            keys,
            k,
        )
    }
}

/// The encryption of `block` over `nr` rounds: AddRoundKey with round key
/// 0, `nr - 1` full rounds, then a last round without MixColumns.
pub open spec fn cipher(keys: Seq<u8>, nr: nat, block: Seq<u8>) -> Seq<u8> {
    spec_add_round_key(
        spec_shift_rows(
            spec_sub_bytes(enc_rounds(spec_add_round_key(block, keys, 0), keys, (nr - 1) as nat)),
        ),
        keys,
        nr,
    )
}

/// The inverse rounds `k`, `k - 1`, ..., `1` applied to `s`, each one
/// InvShiftRows, InvSubBytes, AddRoundKey with its round key, then
/// InvMixColumns.
pub open spec fn dec_rounds(s: Seq<u8>, keys: Seq<u8>, k: nat) -> Seq<u8>
    decreases k,
{
    if k == 0 {
        s
    } else {
        dec_rounds(
            spec_inv_mix_columns(
                spec_add_round_key(spec_inv_sub_bytes(spec_inv_shift_rows(s)), keys, k),
            ),
            keys,
            (k - 1) as nat,
        )
    }
}

/// The decryption of `block` over `nr` rounds: AddRoundKey with round key
/// `nr`, the inverse rounds `nr - 1` down to 1, then InvShiftRows,
/// InvSubBytes and AddRoundKey with round key 0.
pub open spec fn inv_cipher(keys: Seq<u8>, nr: nat, block: Seq<u8>) -> Seq<u8> {
    spec_add_round_key(
        spec_inv_sub_bytes(
            spec_inv_shift_rows(
                dec_rounds(spec_add_round_key(block, keys, nr), keys, (nr - 1) as nat),
            ),
        ),
        keys,
        0,
    )
}

/// Encrypts `block` in place over `rounds` rounds with the expanded key
/// `round_keys`.
pub fn encrypt_block_rounds(round_keys: &[u8], rounds: usize, block: &mut [u8; 16])
    requires
        rounds >= 1,
        round_keys@.len() == 16 * (rounds + 1),
    ensures
        final(block)@ == cipher(round_keys@, rounds as nat, old(block)@),
{
    add_round_key(block, round_keys, 0);
    let ghost start = block@;
    let mut round: usize = 1;
    while round < rounds
        invariant
            1 <= round <= rounds,
            round_keys@.len() == 16 * (rounds + 1),
            block@ == enc_rounds(start, round_keys@, (round - 1) as nat),
        decreases rounds - round,
    {
        sub_bytes(block);
        shift_rows(block);
        mix_columns(block);
        add_round_key(block, round_keys, round);
        round += 1;
    }
    sub_bytes(block);
    shift_rows(block);
    add_round_key(block, round_keys, rounds);
}

/// Decrypts `block` in place over `rounds` rounds with the expanded key
/// `round_keys`.
pub fn decrypt_block_rounds(round_keys: &[u8], rounds: usize, block: &mut [u8; 16])
    requires
        rounds >= 1,
        round_keys@.len() == 16 * (rounds + 1),
    ensures
        final(block)@ == inv_cipher(round_keys@, rounds as nat, old(block)@),
{
    add_round_key(block, round_keys, rounds);
    let ghost goal = dec_rounds(block@, round_keys@, (rounds - 1) as nat);
    let mut round: usize = rounds - 1;
    while round > 0
        invariant
            round < rounds,
            round_keys@.len() == 16 * (rounds + 1),
            dec_rounds(block@, round_keys@, round as nat) == goal,
        decreases round,
    {
        inv_shift_rows(block);
        inv_sub_bytes(block);
        add_round_key(block, round_keys, round);
        inv_mix_columns(block);
        round -= 1;
    }
    inv_shift_rows(block);
    inv_sub_bytes(block);
    add_round_key(block, round_keys, 0);
}

/// The inverse rounds `k` down to 1 take the state that the first `k` full
/// rounds reached, after its SubBytes and ShiftRows, back to the start
/// after the same two steps.
proof fn lemma_dec_rounds_undo_enc_rounds(s: Seq<u8>, keys: Seq<u8>, k: nat)
    requires
        s.len() == 16,
    ensures
        enc_rounds(s, keys, k).len() == 16,
        dec_rounds(spec_shift_rows(spec_sub_bytes(enc_rounds(s, keys, k))), keys, k)
            == spec_shift_rows(spec_sub_bytes(s)),
    decreases k,
{
    if k > 0 {
        let prev = enc_rounds(s, keys, (k - 1) as nat);
        let e = enc_rounds(s, keys, k);
        lemma_dec_rounds_undo_enc_rounds(s, keys, (k - 1) as nat);
        let middle = spec_shift_rows(spec_sub_bytes(prev));
        lemma_add_round_key_twice(spec_mix_columns(middle), keys, k);
        lemma_inv_shift_rows_inverts(spec_sub_bytes(e));
        lemma_inv_sub_bytes_inverts(e);
        lemma_inv_mix_columns_inverts(middle);
    }
}

/// Decryption undoes encryption, for any expanded key of `nr + 1` round
/// keys.
pub proof fn lemma_inv_cipher_undoes_cipher(keys: Seq<u8>, nr: nat, block: Seq<u8>)
    requires
        nr >= 1,
        keys.len() == 16 * (nr + 1),
        block.len() == 16,
    ensures
        inv_cipher(keys, nr, cipher(keys, nr, block)) == block,
{
    let e0 = spec_add_round_key(block, keys, 0);
    let last = enc_rounds(e0, keys, (nr - 1) as nat);
    lemma_dec_rounds_undo_enc_rounds(e0, keys, (nr - 1) as nat);
    lemma_add_round_key_twice(spec_shift_rows(spec_sub_bytes(last)), keys, nr);
    lemma_inv_shift_rows_inverts(spec_sub_bytes(e0));
    lemma_inv_sub_bytes_inverts(e0);
    lemma_add_round_key_twice(block, keys, 0);
}

/// With a single round there is no MixColumns: encryption is AddRoundKey 0,
/// SubBytes, ShiftRows, AddRoundKey 1, and decryption is exactly the
/// inverse of those steps in reverse order, which gives the block back.
pub proof fn lemma_single_round(keys: Seq<u8>, block: Seq<u8>)
    requires
        keys.len() == 32,
        block.len() == 16,
    ensures
        cipher(keys, 1, block) == spec_add_round_key(
            spec_shift_rows(spec_sub_bytes(spec_add_round_key(block, keys, 0))),
            keys,
            1,
        ),
        inv_cipher(keys, 1, block) == spec_add_round_key(
            spec_inv_sub_bytes(spec_inv_shift_rows(spec_add_round_key(block, keys, 1))),
            keys,
            0,
        ),
        inv_cipher(keys, 1, cipher(keys, 1, block)) == block,
{
    lemma_inv_cipher_undoes_cipher(keys, 1, block);
}

} // verus!
