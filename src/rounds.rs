//! The round transformations. A state is a 16-byte block read as a 4x4
//! matrix in column-major order: row `r` of column `c` is byte `4 * c + r`.
use vstd::prelude::*;

use crate::gf::{gf_mul, mul_11, mul_13, mul_14, mul_2, mul_3, mul_9};
use crate::tables::{INVMIXMATRIX, INVSBOX, MIXMATRIX, SBOX};

verus! {

/// SubBytes: every byte replaced through the substitution box.
pub open spec fn spec_sub_bytes(s: Seq<u8>) -> Seq<u8> {
    Seq::new(16, |i: int| SBOX@[s[i] as int])
}

/// InvSubBytes: every byte replaced through the inverse substitution box.
pub open spec fn spec_inv_sub_bytes(s: Seq<u8>) -> Seq<u8> {
    Seq::new(16, |i: int| INVSBOX@[s[i] as int])
}

/// ShiftRows: row `r` rotated left by `r` places, so that the byte in
/// column `c` comes from column `c + r` (mod 4).
pub open spec fn spec_shift_rows(s: Seq<u8>) -> Seq<u8> {
    Seq::new(16, |i: int| s[4 * ((i / 4 + i % 4) % 4) + i % 4])
}

/// InvShiftRows: row `r` rotated right by `r` places, so that the byte in
/// column `c` comes from column `c - r` (mod 4).
pub open spec fn spec_inv_shift_rows(s: Seq<u8>) -> Seq<u8> {
    Seq::new(16, |i: int| s[4 * ((i / 4 + 4 - i % 4) % 4) + i % 4])
}

/// Row `r` of the row-major 4x4 matrix `m` times column `c` of the state,
/// in GF(2^8).
pub open spec fn matrix_times_column(m: Seq<u8>, s: Seq<u8>, c: int, r: int) -> u8 {
    gf_mul(s[4 * c], m[4 * r] as nat) ^ gf_mul(s[4 * c + 1], m[4 * r + 1] as nat) ^ gf_mul(
        s[4 * c + 2],
        m[4 * r + 2] as nat,
    ) ^ gf_mul(s[4 * c + 3], m[4 * r + 3] as nat)
}

/// MixColumns: every column multiplied by the MixColumns matrix.
pub open spec fn spec_mix_columns(s: Seq<u8>) -> Seq<u8> {
    Seq::new(16, |i: int| matrix_times_column(MIXMATRIX@, s, i / 4, i % 4))
}

/// InvMixColumns: every column multiplied by the InvMixColumns matrix.
pub open spec fn spec_inv_mix_columns(s: Seq<u8>) -> Seq<u8> {
    Seq::new(16, |i: int| matrix_times_column(INVMIXMATRIX@, s, i / 4, i % 4))
}

/// AddRoundKey: the state XORed with round key `round`, the 16 bytes of
/// `keys` that start at `16 * round`.
pub open spec fn spec_add_round_key(s: Seq<u8>, keys: Seq<u8>, round: nat) -> Seq<u8> {
    Seq::new(16, |i: int| s[i] ^ keys[16 * round + i])
}

/// Applies SubBytes to the state.
pub fn sub_bytes(state: &mut [u8; 16])
    ensures
        final(state)@ == spec_sub_bytes(old(state)@),
{
    let ghost s0 = state@;
    let mut i: usize = 0;
    while i < 16
        invariant
            0 <= i <= 16,
            s0.len() == 16,
            forall|j: int| 0 <= j < i ==> state@[j] == SBOX@[s0[j] as int],
            forall|j: int| i <= j < 16 ==> state@[j] == s0[j],
        decreases 16 - i,
    {
        state[i] = SBOX[state[i] as usize];
        i += 1;
    }
    assert(state@ =~= spec_sub_bytes(s0));
}

/// Applies InvSubBytes to the state.
pub fn inv_sub_bytes(state: &mut [u8; 16])
    ensures
        final(state)@ == spec_inv_sub_bytes(old(state)@),
{
    let ghost s0 = state@;
    let mut i: usize = 0;
    while i < 16
        invariant
            0 <= i <= 16,
            s0.len() == 16,
            forall|j: int| 0 <= j < i ==> state@[j] == INVSBOX@[s0[j] as int],
            forall|j: int| i <= j < 16 ==> state@[j] == s0[j],
        decreases 16 - i,
    {
        state[i] = INVSBOX[state[i] as usize];
        i += 1;
    }
    assert(state@ =~= spec_inv_sub_bytes(s0));
}

/// Applies ShiftRows to the state.
pub fn shift_rows(state: &mut [u8; 16])
    ensures
        final(state)@ == spec_shift_rows(old(state)@),
{
    let s: [u8; 16] = *state;
    let mut i: usize = 0;
    while i < 16
        invariant
            0 <= i <= 16,
            s@.len() == 16,
            forall|j: int| 0 <= j < i ==> state@[j] == spec_shift_rows(s@)[j],
        decreases 16 - i,
    {
        state[i] = s[4 * ((i / 4 + i % 4) % 4) + i % 4];
        i += 1;
    }
    assert(state@ =~= spec_shift_rows(s@));
}

/// Applies InvShiftRows to the state.
pub fn inv_shift_rows(state: &mut [u8; 16])
    ensures
        final(state)@ == spec_inv_shift_rows(old(state)@),
{
    let s: [u8; 16] = *state;
    let mut i: usize = 0;
    while i < 16
        invariant
            0 <= i <= 16,
            s@.len() == 16,
            forall|j: int| 0 <= j < i ==> state@[j] == spec_inv_shift_rows(s@)[j],
        decreases 16 - i,
    {
        state[i] = s[4 * ((i / 4 + 4 - i % 4) % 4) + i % 4];
        i += 1;
    }
    assert(state@ =~= spec_inv_shift_rows(s@));
}

/// Multiplying by 1 in GF(2^8) keeps the value.
proof fn lemma_gf_mul_one(a: u8)
    ensures
        gf_mul(a, 1) == a,
{
    assert(gf_mul(a, 1) == a) by (bit_vector);
}

/// Applies MixColumns to the state.
pub fn mix_columns(state: &mut [u8; 16])
    ensures
        final(state)@ == spec_mix_columns(old(state)@),
{
    let ghost s0 = state@;
    let mut c: usize = 0;
    while c < 4
        invariant
            0 <= c <= 4,
            s0.len() == 16,
            forall|j: int| 0 <= j < 4 * c ==> state@[j] == spec_mix_columns(s0)[j],
            forall|j: int| 4 * c <= j < 16 ==> state@[j] == s0[j],
        decreases 4 - c,
    {
        let a0 = state[4 * c];
        let a1 = state[4 * c + 1];
        let a2 = state[4 * c + 2];
        let a3 = state[4 * c + 3];
        state[4 * c] = mul_2(a0) ^ mul_3(a1) ^ a2 ^ a3;
        state[4 * c + 1] = a0 ^ mul_2(a1) ^ mul_3(a2) ^ a3;
        state[4 * c + 2] = a0 ^ a1 ^ mul_2(a2) ^ mul_3(a3);
        state[4 * c + 3] = mul_3(a0) ^ a1 ^ a2 ^ mul_2(a3);
        proof {
            lemma_gf_mul_one(a0);
            lemma_gf_mul_one(a1);
            lemma_gf_mul_one(a2);
            lemma_gf_mul_one(a3);
            assert forall|j: int| 0 <= j < 4 * (c + 1) implies state@[j] == spec_mix_columns(
                s0,
            )[j] by {
                if j >= 4 * c {
                    assert(j / 4 == c);
                }
            }
        }
        c += 1;
    }
    assert(state@ =~= spec_mix_columns(s0));
}

/// Applies InvMixColumns to the state.
pub fn inv_mix_columns(state: &mut [u8; 16])
    ensures
        final(state)@ == spec_inv_mix_columns(old(state)@),
{
    let ghost s0 = state@;
    let mut c: usize = 0;
    while c < 4
        invariant
            0 <= c <= 4,
            s0.len() == 16,
            forall|j: int| 0 <= j < 4 * c ==> state@[j] == spec_inv_mix_columns(s0)[j],
            forall|j: int| 4 * c <= j < 16 ==> state@[j] == s0[j],
        decreases 4 - c,
    {
        let a0 = state[4 * c];
        let a1 = state[4 * c + 1];
        let a2 = state[4 * c + 2];
        let a3 = state[4 * c + 3];
        state[4 * c] = mul_14(a0) ^ mul_11(a1) ^ mul_13(a2) ^ mul_9(a3);
        state[4 * c + 1] = mul_9(a0) ^ mul_14(a1) ^ mul_11(a2) ^ mul_13(a3);
        state[4 * c + 2] = mul_13(a0) ^ mul_9(a1) ^ mul_14(a2) ^ mul_11(a3);
        state[4 * c + 3] = mul_11(a0) ^ mul_13(a1) ^ mul_9(a2) ^ mul_14(a3);
        proof {
            assert forall|j: int| 0 <= j < 4 * (c + 1) implies state@[j]
                == spec_inv_mix_columns(s0)[j] by {
                if j >= 4 * c {
                    assert(j / 4 == c);
                }
            }
        }
        c += 1;
    }
    assert(state@ =~= spec_inv_mix_columns(s0));
}

/// XORs round key `round` of the expanded key `keys` into the state.
pub fn add_round_key(state: &mut [u8; 16], keys: &[u8], round: usize)
    requires
        16 * round + 16 <= keys@.len(),
    ensures
        final(state)@ == spec_add_round_key(old(state)@, keys@, round as nat),
{
    let ghost s0 = state@;
    let len = keys.len();
    assert(16 * round + 16 <= len);
    let base = 16 * round;
    let mut i: usize = 0;
    while i < 16
        invariant
            0 <= i <= 16,
            s0.len() == 16,
            base == 16 * round,
            base + 16 <= keys@.len(),
            forall|j: int| 0 <= j < i ==> state@[j] == s0[j] ^ keys@[base + j],
            forall|j: int| i <= j < 16 ==> state@[j] == s0[j],
        decreases 16 - i,
    {
        state[i] = state[i] ^ keys[base + i];
        i += 1;
    }
    assert(state@ =~= spec_add_round_key(s0, keys@, round as nat));
}

/// InvSubBytes undoes SubBytes.
pub proof fn lemma_inv_sub_bytes_inverts(s: Seq<u8>)
    requires
        s.len() == 16,
    ensures
        spec_inv_sub_bytes(spec_sub_bytes(s)) == s,
{
    assert forall|i: int| 0 <= i < 16 implies spec_inv_sub_bytes(spec_sub_bytes(s))[i] == s[i] by {
        crate::tables::lemma_inv_sbox_inverts_sbox(s[i]);
    }
    assert(spec_inv_sub_bytes(spec_sub_bytes(s)) =~= s);
}

/// InvShiftRows undoes ShiftRows.
pub proof fn lemma_inv_shift_rows_inverts(s: Seq<u8>)
    requires
        s.len() == 16,
    ensures
        spec_inv_shift_rows(spec_shift_rows(s)) == s,
{
    assert(spec_inv_shift_rows(spec_shift_rows(s)) =~= s);
}

/// One column: the InvMixColumns matrix times the MixColumns matrix is the
/// identity.
proof fn lemma_inv_mix_column(a0: u8, a1: u8, a2: u8, a3: u8, b0: u8, b1: u8, b2: u8, b3: u8)
    requires
        b0 == gf_mul(a0, 2) ^ gf_mul(a1, 3) ^ gf_mul(a2, 1) ^ gf_mul(a3, 1),
        b1 == gf_mul(a0, 1) ^ gf_mul(a1, 2) ^ gf_mul(a2, 3) ^ gf_mul(a3, 1),
        b2 == gf_mul(a0, 1) ^ gf_mul(a1, 1) ^ gf_mul(a2, 2) ^ gf_mul(a3, 3),
        b3 == gf_mul(a0, 3) ^ gf_mul(a1, 1) ^ gf_mul(a2, 1) ^ gf_mul(a3, 2),
    ensures
        gf_mul(b0, 14) ^ gf_mul(b1, 11) ^ gf_mul(b2, 13) ^ gf_mul(b3, 9) == a0,
        gf_mul(b0, 9) ^ gf_mul(b1, 14) ^ gf_mul(b2, 11) ^ gf_mul(b3, 13) == a1,
        gf_mul(b0, 13) ^ gf_mul(b1, 9) ^ gf_mul(b2, 14) ^ gf_mul(b3, 11) == a2,
        gf_mul(b0, 11) ^ gf_mul(b1, 13) ^ gf_mul(b2, 9) ^ gf_mul(b3, 14) == a3,
{
    assert(gf_mul(b0, 14) ^ gf_mul(b1, 11) ^ gf_mul(b2, 13) ^ gf_mul(b3, 9) == a0 && gf_mul(b0, 9)
        ^ gf_mul(b1, 14) ^ gf_mul(b2, 11) ^ gf_mul(b3, 13) == a1 && gf_mul(b0, 13) ^ gf_mul(b1, 9)
        ^ gf_mul(b2, 14) ^ gf_mul(b3, 11) == a2 && gf_mul(b0, 11) ^ gf_mul(b1, 13) ^ gf_mul(b2, 9)
        ^ gf_mul(b3, 14) == a3) by (bit_vector)
        requires
            b0 == gf_mul(a0, 2) ^ gf_mul(a1, 3) ^ gf_mul(a2, 1) ^ gf_mul(a3, 1),
            b1 == gf_mul(a0, 1) ^ gf_mul(a1, 2) ^ gf_mul(a2, 3) ^ gf_mul(a3, 1),
            b2 == gf_mul(a0, 1) ^ gf_mul(a1, 1) ^ gf_mul(a2, 2) ^ gf_mul(a3, 3),
            b3 == gf_mul(a0, 3) ^ gf_mul(a1, 1) ^ gf_mul(a2, 1) ^ gf_mul(a3, 2),
    ;
}

/// InvMixColumns undoes MixColumns.
pub proof fn lemma_inv_mix_columns_inverts(s: Seq<u8>)
    requires
        s.len() == 16,
    ensures
        spec_inv_mix_columns(spec_mix_columns(s)) == s,
{
    let m = spec_mix_columns(s);
    assert forall|i: int| 0 <= i < 16 implies spec_inv_mix_columns(m)[i] == s[i] by {
        let c = i / 4;
        lemma_inv_mix_column(
            s[4 * c],
            s[4 * c + 1],
            s[4 * c + 2],
            s[4 * c + 3],
            m[4 * c],
            m[4 * c + 1],
            m[4 * c + 2],
            m[4 * c + 3],
        );
    }
    assert(spec_inv_mix_columns(m) =~= s);
}

/// XOR with the same byte twice gives the byte back.
proof fn lemma_xor_twice()
    ensures
        forall|a: u8, b: u8| #[trigger] ((a ^ b) ^ b) == a,
{
    assert(forall|a: u8, b: u8| #[trigger] ((a ^ b) ^ b) == a) by (bit_vector);
}

/// AddRoundKey with the same round key twice gives the state back.
pub proof fn lemma_add_round_key_twice(s: Seq<u8>, keys: Seq<u8>, round: nat)
    requires
        s.len() == 16,
    ensures
        spec_add_round_key(spec_add_round_key(s, keys, round), keys, round) == s,
{
    lemma_xor_twice();
    assert(spec_add_round_key(spec_add_round_key(s, keys, round), keys, round) =~= s);
}

} // verus!
