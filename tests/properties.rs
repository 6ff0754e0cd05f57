use aes::block::{decrypt_block_rounds, encrypt_block_rounds};
use aes::gf::{dbl, mul_11, mul_13, mul_14, mul_2, mul_3, mul_9};
use aes::rounds::{
    add_round_key, inv_mix_columns, inv_shift_rows, inv_sub_bytes, mix_columns, shift_rows,
    sub_bytes,
};
use aes::tables::{INVSBOX, SBOX};
use aes::{Aes128, Aes192, Aes256, Cryptoprovider};

fn sample_block(seed: u8) -> [u8; 16] {
    let mut b = [0u8; 16];
    for (i, x) in b.iter_mut().enumerate() {
        *x = seed.wrapping_mul(31).wrapping_add((i as u8).wrapping_mul(17)) ^ 0x5a;
    }
    b
}

#[test]
fn block_round_trip_every_key_size() {
    let k16 = sample_block(1);
    let mut k24 = [0u8; 24];
    k24[..16].copy_from_slice(&sample_block(2));
    k24[16..].copy_from_slice(&sample_block(3)[..8]);
    let mut k32 = [0u8; 32];
    k32[..16].copy_from_slice(&sample_block(4));
    k32[16..].copy_from_slice(&sample_block(5));
    let a = Aes128::new(&k16);
    let b = Aes192::new(&k24);
    let c = Aes256::new(&k32);
    for seed in 0..20u8 {
        let plain = sample_block(seed);
        let mut x = plain;
        a.encrypt_block(&mut x);
        assert_ne!(x, plain);
        a.decrypt_block(&mut x);
        assert_eq!(x, plain);
        let mut y = plain;
        b.encrypt_block(&mut y);
        b.decrypt_block(&mut y);
        assert_eq!(y, plain);
        let mut z = plain;
        c.encrypt_block(&mut z);
        c.decrypt_block(&mut z);
        assert_eq!(z, plain);
    }
}

#[test]
fn buffer_round_trip_and_padding_lengths() {
    let aes = Aes192::new(&[7u8; 24]);
    for len in 0..50usize {
        let message: Vec<u8> = (0..len).map(|i| (i * 13 + 5) as u8).collect();
        let mut buffer = message.clone();
        aes.encrypt(&mut buffer);
        assert_eq!(buffer.len() % 16, 0);
        assert!(buffer.len() > len);
        assert!(buffer.len() <= len + 16);
        aes.decrypt(&mut buffer);
        assert_eq!(buffer, message);
    }
}

#[test]
fn expanded_key_lengths() {
    assert_eq!(Aes128::new(&[0u8; 16]).expanded_key().len(), 176);
    assert_eq!(Aes192::new(&[0u8; 24]).expanded_key().len(), 208);
    assert_eq!(Aes256::new(&[0u8; 32]).expanded_key().len(), 240);
}

#[test]
fn inverse_sbox_undoes_sbox() {
    for x in 0..=255u8 {
        assert_eq!(INVSBOX[SBOX[x as usize] as usize], x);
        assert_eq!(SBOX[INVSBOX[x as usize] as usize], x);
    }
    assert_eq!(SBOX[0x00], 0x63);
    assert_eq!(SBOX[0x53], 0xed);
}

#[test]
fn dbl_is_xtime() {
    for x in 0..=255u8 {
        let expected = (x << 1) ^ if x & 0x80 != 0 { 0x1b } else { 0 };
        assert_eq!(dbl(x), expected);
    }
    assert_eq!(dbl(0x57), 0xae);
    assert_eq!(dbl(0xae), 0x47);
    assert_eq!(dbl(0x80), 0x1b);
}

#[test]
fn multiplications_by_constants() {
    assert_eq!(mul_2(0x57), 0xae);
    assert_eq!(mul_3(0x57), 0xf9);
    assert_eq!(mul_9(0x57), 0xd9);
    assert_eq!(mul_11(0x57), 0x77);
    assert_eq!(mul_13(0x57), 0x9e);
    assert_eq!(mul_14(0x57), 0x67);
    assert_eq!(mul_2(0xd4), 0xb3);
    assert_eq!(mul_3(0xd4), 0x67);
    assert_eq!(mul_9(0xd4), 0x2e);
    assert_eq!(mul_11(0xd4), 0x9d);
    assert_eq!(mul_13(0xd4), 0x53);
    assert_eq!(mul_14(0xd4), 0x34);
}

#[test]
fn single_round_has_no_mix_columns() {
    let keys: Vec<u8> = (0..32u8).map(|i| i.wrapping_mul(29) ^ 0xc3).collect();
    let crafted = sample_block(9);
    let mut encrypted = crafted;
    encrypt_block_rounds(&keys, 1, &mut encrypted);
    let mut by_hand = crafted;
    add_round_key(&mut by_hand, &keys, 0);
    sub_bytes(&mut by_hand);
    shift_rows(&mut by_hand);
    add_round_key(&mut by_hand, &keys, 1);
    assert_eq!(encrypted, by_hand);
    let mut undone = encrypted;
    add_round_key(&mut undone, &keys, 1);
    inv_shift_rows(&mut undone);
    inv_sub_bytes(&mut undone);
    add_round_key(&mut undone, &keys, 0);
    assert_eq!(undone, crafted);
    let mut decrypted = encrypted;
    decrypt_block_rounds(&keys, 1, &mut decrypted);
    assert_eq!(decrypted, crafted);
}

#[test]
fn shift_rows_rotates_rows_left() {
    let mut s: [u8; 16] = core::array::from_fn(|i| i as u8);
    shift_rows(&mut s);
    assert_eq!(s, [0, 5, 10, 15, 4, 9, 14, 3, 8, 13, 2, 7, 12, 1, 6, 11]);
    inv_shift_rows(&mut s);
    let id: [u8; 16] = core::array::from_fn(|i| i as u8);
    assert_eq!(s, id);
}

#[test]
fn mix_columns_known_column() {
    let mut s = [
        0xdb, 0x13, 0x53, 0x45, 0xf2, 0x0a, 0x22, 0x5c, 0x01, 0x01, 0x01, 0x01, 0xc6, 0xc6, 0xc6,
        0xc6,
    ];
    let original = s;
    mix_columns(&mut s);
    assert_eq!(
        s,
        [
            0x8e, 0x4d, 0xa1, 0xbc, 0x9f, 0xdc, 0x58, 0x9d, 0x01, 0x01, 0x01, 0x01, 0xc6, 0xc6,
            0xc6, 0xc6
        ]
    );
    inv_mix_columns(&mut s);
    assert_eq!(s, original);
}

#[test]
fn sub_bytes_and_add_round_key() {
    let mut s = [0u8; 16];
    s[1] = 0x53;
    sub_bytes(&mut s);
    assert_eq!(s[0], 0x63);
    assert_eq!(s[1], 0xed);
    inv_sub_bytes(&mut s);
    assert_eq!(s[1], 0x53);
    assert_eq!(s[0], 0x00);
    let keys: Vec<u8> = (0..32u8).collect();
    let mut t = [0xffu8; 16];
    add_round_key(&mut t, &keys, 1);
    let expected: [u8; 16] = core::array::from_fn(|i| 0xff ^ (16 + i as u8));
    assert_eq!(t, expected);
}
