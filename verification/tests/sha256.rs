use sj_probe::sha256::{sha256_hex, Sha256};

#[test]
fn sha256_empty_message() {
    assert_eq!(
        sha256_hex(b""),
        "e3b0c44298fc1c149afbf4c8996fb92427ae41e4649b934ca495991b7852b855"
    );
}

#[test]
fn sha256_abc() {
    assert_eq!(
        sha256_hex(b"abc"),
        "ba7816bf8f01cfea414140de5dae2223b00361a396177a9cb410ff61f20015ad"
    );
}

#[test]
fn sha256_two_block_message() {
    // 56 bytes: the padding does not fit in the first block.
    assert_eq!(
        sha256_hex(b"abcdbcdecdefdefgefghfghighijhijkijkljklmklmnlmnomnopnopq"),
        "248d6a61d20638b8e5c026930c3e6039a33ce45964ff2167f6ecedd419db06c1"
    );
}

#[test]
fn sha256_896_bit_message() {
    let msg = b"abcdefghbcdefghicdefghijdefghijkefghijklfghijklmghijklmnhijklmnoijklmnopjklmnopqklmnopqrlmnopqrsmnopqrstnopqrstu";
    assert_eq!(
        sha256_hex(msg),
        "cf5b16a778af8380036ce59e7b0492370b249b11e8f07a51afac45037afee9d1"
    );
}

#[test]
fn sha256_million_a_streamed() {
    let chunk = [b'a'; 1000];
    let mut h = Sha256::new();
    for _ in 0..1000 {
        h.update(&chunk);
    }
    assert_eq!(
        h.finalize_hex(),
        "cdc76e5c9914fb9281a1c7e284d73e67f1809a48a497200e046d39ccc7112cd0"
    );
}

#[test]
fn sha256_split_updates_match_one_shot() {
    let data: Vec<u8> = (0..300u32).map(|i| (i * 7 + 3) as u8).collect();
    let whole = sha256_hex(&data);
    for split in [0usize, 1, 55, 56, 63, 64, 65, 127, 128, 200, 300] {
        let mut h = Sha256::new();
        h.update(&data[..split]);
        h.update(&data[split..]);
        assert_eq!(h.finalize_hex(), whole, "split at {}", split);
    }
    let mut h = Sha256::new();
    for b in &data {
        h.update(std::slice::from_ref(b));
    }
    assert_eq!(h.finalize_hex(), whole);
}

#[test]
fn sha256_lengths_around_padding_boundary() {
    // 55 bytes fit with the length field in one block, 56 need a second.
    let a55 = vec![b'a'; 55];
    let a56 = vec![b'a'; 56];
    let a64 = vec![b'a'; 64];
    assert_eq!(
        sha256_hex(&a55),
        "9f4390f8d30c2dd92ec9f095b65e2b9ae9b0a925a5258e241c9f1e910f734318"
    );
    assert_eq!(
        sha256_hex(&a56),
        "b35439a4ac6f0948b6d6f9e3c6af0f5f590ce20f1bde7090ef7970686ec6738a"
    );
    assert_eq!(
        sha256_hex(&a64),
        "ffe054fe7ae0cb6dc65c3af9b61d5209f439851db43d0ba5997337df154668eb"
    );
}

#[test]
fn sha256_compress_single_block() {
    // The padded block of "abc" compressed from the initial value gives its digest.
    let mut block = [0u8; 64];
    block[0] = b'a';
    block[1] = b'b';
    block[2] = b'c';
    block[3] = 0x80;
    block[63] = 24;
    let mut h = [
        0x6a09e667u32, 0xbb67ae85, 0x3c6ef372, 0xa54ff53a, 0x510e527f, 0x9b05688c, 0x1f83d9ab,
        0x5be0cd19,
    ];
    Sha256::compress(&mut h, &block);
    assert_eq!(
        h,
        [
            0xba7816bf, 0x8f01cfea, 0x414140de, 0x5dae2223, 0xb00361a3, 0x96177a9c, 0xb410ff61,
            0xf20015ad
        ]
    );
}

#[test]
fn sha256_empty_updates_change_nothing() {
    let mut h = Sha256::new();
    h.update(b"");
    h.update(b"ab");
    h.update(b"");
    h.update(b"c");
    h.update(b"");
    assert_eq!(
        h.finalize_hex(),
        "ba7816bf8f01cfea414140de5dae2223b00361a396177a9cb410ff61f20015ad"
    );
}
