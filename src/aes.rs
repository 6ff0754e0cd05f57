//! The three cipher handles, AES-128, AES-192 and AES-256, and the contract
//! they share.
use vstd::prelude::*;

use crate::block::{
    cipher, decrypt_block_rounds, encrypt_block_rounds, inv_cipher, lemma_inv_cipher_undoes_cipher,
};
use crate::ecb::{
    decrypt_buffer, ecb_decrypt, ecb_encrypt, encrypt_buffer, lemma_buffer_round_trip, pkcs7_pad,
    pkcs7_unpad,
};
use crate::key_schedule::{expand_key, expand_key_into, rounds_for, valid_key_len};

verus! {

/// The padding applied by the whole-buffer codec. Only PKCS#7 is applied;
/// the handles keep the tag they were made with.
#[derive(Clone, Copy, Debug, PartialEq, Eq, Structural)]
pub enum PaddingStrategy {
    /// Append `k` bytes of value `k`, `1 <= k <= 16`.
    PKCS7,
    /// Zero bytes up to the block boundary; a tag only.
    ZERO,
}

impl Default for PaddingStrategy {
    fn default() -> (r: Self)
        ensures
            r == PaddingStrategy::PKCS7,
    {
        PaddingStrategy::PKCS7
    }
}

/// A block cipher handle: single blocks and whole buffers, encrypted and
/// decrypted in place.
pub trait Cryptoprovider {
    /// The expanded key: round keys `0 ..= rounds()`, 16 bytes each.
    spec fn round_keys(&self) -> Seq<u8>;

    /// The number of rounds.
    spec fn rounds(&self) -> nat;

    /// Pads the buffer with PKCS#7 and encrypts every block of it.
    fn encrypt(&self, buffer: &mut Vec<u8>)
        requires
            old(buffer)@.len() + 16 <= usize::MAX,
        ensures
            final(buffer)@ == ecb_encrypt(self.round_keys(), self.rounds(), pkcs7_pad(old(buffer)@)),
            final(buffer)@.len() % 16 == 0,
            old(buffer)@.len() < final(buffer)@.len() <= old(buffer)@.len() + 16,
    ;

    /// Decrypts every block of the buffer, then drops as many trailing
    /// bytes as the last byte says (none if it exceeds the length).
    fn decrypt(&self, buffer: &mut Vec<u8>)
        requires
            old(buffer)@.len() % 16 == 0,
        ensures
            final(buffer)@ == pkcs7_unpad(ecb_decrypt(self.round_keys(), self.rounds(), old(buffer)@)),
    ;

    /// Encrypts one block in place.
    fn encrypt_block(&self, block: &mut [u8; 16])
        ensures
            final(block)@ == cipher(self.round_keys(), self.rounds(), old(block)@),
    ;

    /// Decrypts one block in place.
    fn decrypt_block(&self, block: &mut [u8; 16])
        ensures
            final(block)@ == inv_cipher(self.round_keys(), self.rounds(), old(block)@),
    ;
}

/// AES with a 128-bit key: 10 rounds.
pub struct Aes128 {
    expanded_key: [u8; 176],
    padding: PaddingStrategy,
}

/// AES with a 192-bit key: 12 rounds.
pub struct Aes192 {
    expanded_key: [u8; 208],
    padding: PaddingStrategy,
}

/// AES with a 256-bit key: 14 rounds.
pub struct Aes256 {
    expanded_key: [u8; 240],
    padding: PaddingStrategy,
}

impl Aes128 {
    /// The padding tag of the handle.
    pub closed spec fn padding_tag(&self) -> PaddingStrategy {
        self.padding
    }

    /// Makes a handle with PKCS#7 padding.
    pub fn new(key: &[u8; 16]) -> (r: Self)
        ensures
            r.round_keys() == expand_key(key@),
            r.padding_tag() == PaddingStrategy::PKCS7,
    {
        Self { expanded_key: Self::key_expansion(key), padding: PaddingStrategy::default() }
    }

    /// Makes a handle with the given padding tag.
    pub fn with_padding(key: &[u8; 16], padding: PaddingStrategy) -> (r: Self)
        ensures
            r.round_keys() == expand_key(key@),
            r.padding_tag() == padding,
    {
        Self { expanded_key: Self::key_expansion(key), padding }
    }

    fn key_expansion(key: &[u8; 16]) -> (r: [u8; 176])
        ensures
            r@ == expand_key(key@),
    {
        let mut expanded = [0u8; 176];
        expand_key_into(key.as_slice(), &mut expanded);
        expanded
    }

    /// The expanded key.
    pub fn expanded_key(&self) -> (r: &[u8; 176])
        ensures
            r@ == self.round_keys(),
    {
        &self.expanded_key
    }

    /// The padding tag.
    pub fn padding(&self) -> (r: PaddingStrategy)
        ensures
            r == self.padding_tag(),
    {
        self.padding
    }
}

impl Cryptoprovider for Aes128 {
    closed spec fn round_keys(&self) -> Seq<u8> {
        self.expanded_key@
    }

    open spec fn rounds(&self) -> nat {
        10
    }

    fn encrypt(&self, buffer: &mut Vec<u8>) {
        encrypt_buffer(self.expanded_key.as_slice(), 10, buffer);
    }

    fn decrypt(&self, buffer: &mut Vec<u8>) {
        decrypt_buffer(self.expanded_key.as_slice(), 10, buffer);
    }

    fn encrypt_block(&self, block: &mut [u8; 16]) {
        encrypt_block_rounds(self.expanded_key.as_slice(), 10, block);
    }

    fn decrypt_block(&self, block: &mut [u8; 16]) {
        decrypt_block_rounds(self.expanded_key.as_slice(), 10, block);
    }
}

impl Aes192 {
    /// The padding tag of the handle.
    pub closed spec fn padding_tag(&self) -> PaddingStrategy {
        self.padding
    }

    /// Makes a handle with PKCS#7 padding.
    pub fn new(key: &[u8; 24]) -> (r: Self)
        ensures
            r.round_keys() == expand_key(key@),
            r.padding_tag() == PaddingStrategy::PKCS7,
    {
        Self { expanded_key: Self::key_expansion(key), padding: PaddingStrategy::default() }
    }

    /// Makes a handle with the given padding tag.
    pub fn with_padding(key: &[u8; 24], padding: PaddingStrategy) -> (r: Self)
        ensures
            r.round_keys() == expand_key(key@),
            r.padding_tag() == padding,
    {
        Self { expanded_key: Self::key_expansion(key), padding }
    }

    fn key_expansion(key: &[u8; 24]) -> (r: [u8; 208])
        ensures
            r@ == expand_key(key@),
    {
        let mut expanded = [0u8; 208];
        expand_key_into(key.as_slice(), &mut expanded);
        expanded
    }

    /// The expanded key.
    pub fn expanded_key(&self) -> (r: &[u8; 208])
        ensures
            r@ == self.round_keys(),
    {
        &self.expanded_key
    }

    /// The padding tag.
    pub fn padding(&self) -> (r: PaddingStrategy)
        ensures
            r == self.padding_tag(),
    {
        self.padding
    }
}

impl Cryptoprovider for Aes192 {
    closed spec fn round_keys(&self) -> Seq<u8> {
        self.expanded_key@
    }

    open spec fn rounds(&self) -> nat {
        12
    }

    fn encrypt(&self, buffer: &mut Vec<u8>) {
        encrypt_buffer(self.expanded_key.as_slice(), 12, buffer);
    }

    fn decrypt(&self, buffer: &mut Vec<u8>) {
        decrypt_buffer(self.expanded_key.as_slice(), 12, buffer);
    }

    fn encrypt_block(&self, block: &mut [u8; 16]) {
        encrypt_block_rounds(self.expanded_key.as_slice(), 12, block);
    }

    fn decrypt_block(&self, block: &mut [u8; 16]) {
        decrypt_block_rounds(self.expanded_key.as_slice(), 12, block);
    }
}

impl Aes256 {
    /// The padding tag of the handle.
    pub closed spec fn padding_tag(&self) -> PaddingStrategy {
        self.padding
    }

    /// Makes a handle with PKCS#7 padding.
    pub fn new(key: &[u8; 32]) -> (r: Self)
        ensures
            r.round_keys() == expand_key(key@),
            r.padding_tag() == PaddingStrategy::PKCS7,
    {
        Self { expanded_key: Self::key_expansion(key), padding: PaddingStrategy::default() }
    }

    /// Makes a handle with the given padding tag.
    pub fn with_padding(key: &[u8; 32], padding: PaddingStrategy) -> (r: Self)
        ensures
            r.round_keys() == expand_key(key@),
            r.padding_tag() == padding,
    {
        Self { expanded_key: Self::key_expansion(key), padding }
    }

    fn key_expansion(key: &[u8; 32]) -> (r: [u8; 240])
        ensures
            r@ == expand_key(key@),
    {
        let mut expanded = [0u8; 240];
        expand_key_into(key.as_slice(), &mut expanded);
        expanded
    }

    /// The expanded key.
    pub fn expanded_key(&self) -> (r: &[u8; 240])
        ensures
            r@ == self.round_keys(),
    {
        &self.expanded_key
    }

    /// The padding tag.
    pub fn padding(&self) -> (r: PaddingStrategy)
        ensures
            r == self.padding_tag(),
    {
        self.padding
    }
}

impl Cryptoprovider for Aes256 {
    closed spec fn round_keys(&self) -> Seq<u8> {
        self.expanded_key@
    }

    open spec fn rounds(&self) -> nat {
        14
    }

    fn encrypt(&self, buffer: &mut Vec<u8>) {
        encrypt_buffer(self.expanded_key.as_slice(), 14, buffer);
    }

    fn decrypt(&self, buffer: &mut Vec<u8>) {
        decrypt_buffer(self.expanded_key.as_slice(), 14, buffer);
    }

    fn encrypt_block(&self, block: &mut [u8; 16]) {
        encrypt_block_rounds(self.expanded_key.as_slice(), 14, block);
    }

    fn decrypt_block(&self, block: &mut [u8; 16]) {
        decrypt_block_rounds(self.expanded_key.as_slice(), 14, block);
    }
}

/// The expanded key holds `nr + 1` round keys of 16 bytes: 176, 208 and
/// 240 bytes for keys of 16, 24 and 32 bytes.
pub proof fn lemma_expanded_key_len(key: Seq<u8>)
    requires
        valid_key_len(key.len()),
    ensures
        expand_key(key).len() == 16 * (rounds_for(key.len()) + 1),
        key.len() == 16 ==> expand_key(key).len() == 176 && rounds_for(key.len()) == 10,
        key.len() == 24 ==> expand_key(key).len() == 208 && rounds_for(key.len()) == 12,
        key.len() == 32 ==> expand_key(key).len() == 240 && rounds_for(key.len()) == 14,
{
}

/// For every key and every block, decrypting the encrypted block gives the
/// block back.
pub proof fn lemma_block_round_trip(key: Seq<u8>, block: Seq<u8>)
    requires
        valid_key_len(key.len()),
        block.len() == 16,
    ensures
        inv_cipher(
            expand_key(key),
            rounds_for(key.len()),
            cipher(expand_key(key), rounds_for(key.len()), block),
        ) == block,
{
    lemma_inv_cipher_undoes_cipher(expand_key(key), rounds_for(key.len()), block);
}

/// For every key and every message, of any length, decrypting the padded
/// and encrypted message gives the message back.
pub proof fn lemma_message_round_trip(key: Seq<u8>, m: Seq<u8>)
    requires
        valid_key_len(key.len()),
    ensures
        pkcs7_unpad(
            ecb_decrypt(
                expand_key(key),
                rounds_for(key.len()),
                ecb_encrypt(expand_key(key), rounds_for(key.len()), pkcs7_pad(m)),
            ),
        ) == m,
{
    lemma_buffer_round_trip(expand_key(key), rounds_for(key.len()), m);
}

} // verus!
