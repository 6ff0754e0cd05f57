//! AES block cipher (FIPS-197) for 128, 192 and 256 bit keys, with a
//! PKCS#7-padded ECB mode over whole buffers.
//!
//! Every executable function is verified against a model written as spec
//! functions: the round transformations in [`rounds`], the key schedule in
//! [`key_schedule`], the block codec in [`block`] and the buffer codec in
//! [`ecb`]. The handles in [`aes`] tie them to a key.
pub mod aes;
pub mod block;
pub mod ecb;
pub mod gf;
pub mod key_schedule;
pub mod rounds;
pub mod tables;

pub use aes::{Aes128, Aes192, Aes256, Cryptoprovider, PaddingStrategy};
