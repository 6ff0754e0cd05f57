use aes::Aes128;
use aes::Aes192;
use aes::Aes256;
use aes::Cryptoprovider;
use aes::PaddingStrategy;

fn seq_key<const N: usize>() -> [u8; N] {
    let mut k = [0u8; N];
    for (i, b) in k.iter_mut().enumerate() {
        *b = i as u8;
    }
    k
}

const PLAIN: [u8; 16] = [
    0x00, 0x11, 0x22, 0x33, 0x44, 0x55, 0x66, 0x77, 0x88, 0x99, 0xaa, 0xbb, 0xcc, 0xdd, 0xee, 0xff,
];

#[test]
fn aes128_key_expansion_first_and_last_words() {
    let key = [
        0x2b, 0x7e, 0x15, 0x16, 0x28, 0xae, 0xd2, 0xa6, 0xab, 0xf7, 0x15, 0x88, 0x09, 0xcf, 0x4f,
        0x3c,
    ];
    let aes = Aes128::new(&key);
    let e = aes.expanded_key();
    assert_eq!(e.len(), 176);
    assert_eq!(&e[..16], &key[..]);
    assert_eq!(&e[172..], &[0xb6, 0x63, 0x0c, 0xa6]);
}

#[test]
fn aes128_appendix_b_block() {
    let key = [
        0x2b, 0x7e, 0x15, 0x16, 0x28, 0xae, 0xd2, 0xa6, 0xab, 0xf7, 0x15, 0x88, 0x09, 0xcf, 0x4f,
        0x3c,
    ];
    let mut block = [
        0x32, 0x43, 0xf6, 0xa8, 0x88, 0x5a, 0x30, 0x8d, 0x31, 0x31, 0x98, 0xa2, 0xe0, 0x37, 0x07,
        0x34,
    ];
    let plain = block;
    let aes = Aes128::new(&key);
    aes.encrypt_block(&mut block);
    assert_eq!(
        block,
        [
            0x39, 0x25, 0x84, 0x1d, 0x02, 0xdc, 0x09, 0xfb, 0xdc, 0x11, 0x85, 0x97, 0x19, 0x6a,
            0x0b, 0x32
        ]
    );
    aes.decrypt_block(&mut block);
    assert_eq!(block, plain);
}

#[test]
fn aes128_appendix_c1_block() {
    let aes = Aes128::new(&seq_key::<16>());
    let mut block = PLAIN;
    aes.encrypt_block(&mut block);
    assert_eq!(
        block,
        [
            0x69, 0xc4, 0xe0, 0xd8, 0x6a, 0x7b, 0x04, 0x30, 0xd8, 0xcd, 0xb7, 0x80, 0x70, 0xb4,
            0xc5, 0x5a
        ]
    );
    aes.decrypt_block(&mut block);
    assert_eq!(block, PLAIN);
}

#[test]
fn aes192_appendix_c2_block() {
    let aes = Aes192::new(&seq_key::<24>());
    let mut block = PLAIN;
    aes.encrypt_block(&mut block);
    assert_eq!(
        block,
        [
            0xdd, 0xa9, 0x7c, 0xa4, 0x86, 0x4c, 0xdf, 0xe0, 0x6e, 0xaf, 0x70, 0xa0, 0xec, 0x0d,
            0x71, 0x91
        ]
    );
    aes.decrypt_block(&mut block);
    assert_eq!(block, PLAIN);
}

#[test]
fn aes256_appendix_c3_block() {
    let aes = Aes256::new(&seq_key::<32>());
    let mut block = PLAIN;
    aes.encrypt_block(&mut block);
    assert_eq!(
        block,
        [
            0x8e, 0xa2, 0xb7, 0xca, 0x51, 0x67, 0x45, 0xbf, 0xea, 0xfc, 0x49, 0x90, 0x4b, 0x49,
            0x60, 0x89
        ]
    );
    aes.decrypt_block(&mut block);
    assert_eq!(block, PLAIN);
}

#[test]
fn pkcs7_message_round_trip() {
    let aes = Aes128::new(b"TopSecretPasswor");
    let message = b"This is a super secret text that no one should read!".to_vec();
    assert_eq!(message.len(), 52);
    let mut buffer = message.clone();
    aes.encrypt(&mut buffer);
    assert_eq!(buffer.len(), 64);
    assert_ne!(&buffer[..52], &message[..]);
    aes.decrypt(&mut buffer);
    assert_eq!(buffer, message);
}

#[test]
fn pkcs7_padding_bytes() {
    let aes = Aes128::new(b"TopSecretPasswor");
    let message = b"This is a super secret text that no one should read!".to_vec();
    let mut buffer = message.clone();
    aes.encrypt(&mut buffer);
    // Decrypting block by block leaves the padding in place.
    for chunk in buffer.chunks_exact_mut(16) {
        let mut block = [0u8; 16];
        block.copy_from_slice(chunk);
        aes.decrypt_block(&mut block);
        chunk.copy_from_slice(&block);
    }
    assert_eq!(&buffer[..52], &message[..]);
    assert_eq!(&buffer[52..], &[0x0c; 12]);
}

#[test]
fn aligned_message_gets_a_full_padding_block() {
    let aes = Aes256::new(&seq_key::<32>());
    let message = PLAIN.to_vec();
    let mut buffer = message.clone();
    aes.encrypt(&mut buffer);
    assert_eq!(buffer.len(), 32);
    let mut first = [0u8; 16];
    first.copy_from_slice(&buffer[..16]);
    aes.decrypt_block(&mut first);
    assert_eq!(first, PLAIN);
    let mut second = [0u8; 16];
    second.copy_from_slice(&buffer[16..]);
    aes.decrypt_block(&mut second);
    assert_eq!(second, [0x10; 16]);
    aes.decrypt(&mut buffer);
    assert_eq!(buffer, message);
}

#[test]
fn empty_message_round_trip() {
    let aes = Aes192::new(&seq_key::<24>());
    let mut buffer: Vec<u8> = Vec::new();
    aes.encrypt(&mut buffer);
    assert_eq!(buffer.len(), 16);
    aes.decrypt(&mut buffer);
    assert!(buffer.is_empty());
}

#[test]
fn decrypt_of_empty_buffer_is_empty() {
    let aes = Aes128::new(&seq_key::<16>());
    let mut buffer: Vec<u8> = Vec::new();
    aes.decrypt(&mut buffer);
    assert!(buffer.is_empty());
}

#[test]
fn decrypt_keeps_everything_when_pad_byte_exceeds_length() {
    let aes = Aes128::new(&seq_key::<16>());
    let mut plain = PLAIN;
    plain[15] = 0xff;
    let mut block = plain;
    aes.encrypt_block(&mut block);
    let mut buffer = block.to_vec();
    aes.decrypt(&mut buffer);
    assert_eq!(buffer, plain.to_vec());
}

#[test]
fn decrypt_with_zero_pad_byte_keeps_everything() {
    let aes = Aes128::new(&seq_key::<16>());
    let mut plain = PLAIN;
    plain[15] = 0x00;
    let mut block = plain;
    aes.encrypt_block(&mut block);
    let mut buffer = block.to_vec();
    aes.decrypt(&mut buffer);
    assert_eq!(buffer, plain.to_vec());
}

#[test]
fn decrypt_does_not_check_padding_bytes() {
    let aes = Aes128::new(&seq_key::<16>());
    let mut plain = PLAIN;
    plain[15] = 0x03;
    let mut block = plain;
    aes.encrypt_block(&mut block);
    let mut buffer = block.to_vec();
    aes.decrypt(&mut buffer);
    assert_eq!(buffer, plain[..13].to_vec());
}

#[test]
fn padding_tag_is_kept() {
    let key = seq_key::<16>();
    assert_eq!(Aes128::new(&key).padding(), PaddingStrategy::PKCS7);
    assert_eq!(
        Aes128::with_padding(&key, PaddingStrategy::ZERO).padding(),
        PaddingStrategy::ZERO
    );
    assert_eq!(
        Aes192::with_padding(&seq_key::<24>(), PaddingStrategy::ZERO).padding(),
        PaddingStrategy::ZERO
    );
    assert_eq!(Aes256::new(&seq_key::<32>()).padding(), PaddingStrategy::PKCS7);
    assert_eq!(PaddingStrategy::default(), PaddingStrategy::PKCS7);
}

#[test]
fn with_padding_expands_the_same_key() {
    let key = seq_key::<32>();
    let a = Aes256::new(&key);
    let b = Aes256::with_padding(&key, PaddingStrategy::ZERO);
    assert_eq!(a.expanded_key(), b.expanded_key());
    let mut x = PLAIN;
    let mut y = PLAIN;
    a.encrypt_block(&mut x);
    b.encrypt_block(&mut y);
    assert_eq!(x, y);
}
