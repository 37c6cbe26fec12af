use chacha20::cipher::{KeyIvInit, StreamCipher};
use cpxy_ng::cipher_select::select_cipher_based_on_port;
use cpxy_ng::encrypt_stream::{
    CipherError, CipherState, CipherStream, Configuration, KEYSTREAM_LIMIT, WRITE_CHUNK,
};

const TEST_DATA: &[u8] = b"The quick brown fox jumps over the lazy dog";

fn reference_keystream(key: &[u8; 32], nonce: &[u8; 12], len: usize) -> Vec<u8> {
    let mut out = vec![0u8; len];
    let mut cipher = chacha20::ChaCha20::new(key.into(), nonce.into());
    cipher.apply_keystream(&mut out);
    out
}

/// Writes `data` through `writer` into a pipe that takes at most `accept`
/// bytes per write, then reads the pipe through `reader` in pieces of `read`.
fn pass_through(
    writer: &mut CipherStream<()>,
    reader: &mut CipherStream<()>,
    data: &[u8],
    accept: usize,
    read: usize,
) -> (Vec<u8>, Vec<u8>) {
    let mut wire = Vec::new();
    let mut rest = data;
    while !rest.is_empty() {
        let encrypted = writer.encrypt_for_write(rest).expect("encrypt");
        let taken = encrypted.len().min(accept);
        wire.extend_from_slice(&encrypted[..taken]);
        writer.commit_write(taken).expect("commit");
        rest = &rest[taken..];
    }
    let mut received = Vec::new();
    for piece in wire.chunks(read) {
        let mut buf = piece.to_vec();
        reader.decrypt_read(&mut buf).expect("decrypt");
        received.extend_from_slice(&buf);
    }
    (wire, received)
}

fn test_case(name: &str, client_send_config: Configuration, server_send_config: Configuration) {
    let mut client_stream = CipherStream::new((), &client_send_config, &server_send_config);
    let mut server_stream = CipherStream::new((), &server_send_config, &client_send_config);

    println!("Test case: {}", name);
    let (_, received_data) = pass_through(&mut client_stream, &mut server_stream, TEST_DATA, 32, 7);
    assert_eq!(TEST_DATA, &received_data[..], "Data mismatch in test case: {}", name);

    let (_, echoed) = pass_through(&mut server_stream, &mut client_stream, TEST_DATA, 5, 64);
    assert_eq!(TEST_DATA, &echoed[..], "Data mismatch on the way back in test case: {}", name);
}

#[test]
fn test_cipher_stream() {
    test_case(
        "Plaintext to Partial",
        Configuration::Plaintext,
        Configuration::random_partial(4),
    );

    test_case(
        "Plaintext to Full Encrypt",
        Configuration::Plaintext,
        Configuration::random_full(),
    );

    test_case(
        "Partial to Partial",
        Configuration::random_partial(128),
        Configuration::random_partial(16),
    );
}

#[test]
fn tls_like_ports_get_prefix_ciphers() {
    for port in [443u16, 465, 993, 5223] {
        let (client, server) = select_cipher_based_on_port(port);
        assert!(matches!(client, Configuration::PartialEncrypt { enc_size: 32, .. }));
        assert!(matches!(server, Configuration::PartialEncrypt { enc_size: 512, .. }));
    }
}

#[test]
fn other_ports_get_full_ciphers() {
    for port in [0u16, 80, 442, 444, 8080, 65535] {
        let (client, server) = select_cipher_based_on_port(port);
        assert!(matches!(client, Configuration::FullEncrypt { .. }));
        assert!(matches!(server, Configuration::FullEncrypt { .. }));
    }
}

#[test]
fn fresh_configurations_differ() {
    let a = Configuration::random_full();
    let b = Configuration::random_full();
    assert_ne!(a, b);
}

#[test]
fn full_encryption_is_the_chacha20_keystream() {
    let key = [7u8; 32];
    let nonce = [9u8; 12];
    let keystream = reference_keystream(&key, &nonce, 200);
    let mut state = CipherState::new(&Configuration::FullEncrypt { key, nonce });
    let mut first = vec![0u8; 70];
    state.apply(&mut first).unwrap();
    assert_eq!(first, &keystream[..70]);
    let mut second: Vec<u8> = (0..130).map(|i| i as u8).collect();
    state.apply(&mut second).unwrap();
    let expected: Vec<u8> = (0..130).map(|i| (i as u8) ^ keystream[70 + i]).collect();
    assert_eq!(second, expected);
    assert_eq!(state, CipherState::Full { key, nonce, position: 200 });
}

#[test]
fn prefix_encryption_stops_at_the_boundary() {
    let key = [1u8; 32];
    let nonce = [2u8; 12];
    let keystream = reference_keystream(&key, &nonce, 10);
    let config = Configuration::PartialEncrypt { key, nonce, enc_size: 10 };
    let plain: Vec<u8> = (100..140).collect();

    let mut whole = plain.clone();
    let mut state = CipherState::new(&config);
    state.apply(&mut whole).unwrap();
    assert_eq!(state, CipherState::Clear);
    for i in 0..plain.len() {
        if i < 10 {
            assert_eq!(whole[i], plain[i] ^ keystream[i], "byte {i}");
        } else {
            assert_eq!(whole[i], plain[i], "byte {i}");
        }
    }

    let mut pieces = plain.clone();
    let mut state = CipherState::new(&config);
    let (head, tail) = pieces.split_at_mut(4);
    state.apply(head).unwrap();
    assert_eq!(state, CipherState::Partial { remaining: 6, key, nonce, position: 4 });
    state.apply(tail).unwrap();
    assert_eq!(state, CipherState::Clear);
    assert_eq!(pieces, whole);
}

#[test]
fn plaintext_changes_nothing() {
    let mut state = CipherState::new(&Configuration::Plaintext);
    assert_eq!(state, CipherState::Clear);
    let mut data = TEST_DATA.to_vec();
    state.apply(&mut data).unwrap();
    assert_eq!(data, TEST_DATA);
    assert_eq!(state, CipherState::Clear);
}

#[test]
fn a_prefix_of_no_bytes_is_plaintext() {
    let config = Configuration::PartialEncrypt { key: [3; 32], nonce: [4; 12], enc_size: 0 };
    assert_eq!(CipherState::new(&config), CipherState::Clear);
}

#[test]
fn a_partial_write_winds_the_keystream_back() {
    let key = [5u8; 32];
    let nonce = [6u8; 12];
    let keystream = reference_keystream(&key, &nonce, 64);
    let config = Configuration::FullEncrypt { key, nonce };
    let mut stream = CipherStream::new((), &config, &Configuration::Plaintext);
    let data = [0u8; 40];

    let first = stream.encrypt_for_write(&data).unwrap();
    assert_eq!(first, &keystream[..40]);
    stream.commit_write(15).unwrap();

    let second = stream.encrypt_for_write(&data[15..]).unwrap();
    assert_eq!(second, &keystream[15..40]);
    stream.commit_write(0).unwrap();
    let again = stream.encrypt_for_write(&data[15..]).unwrap();
    assert_eq!(again, second);
}

#[test]
fn one_write_encrypts_at_most_a_chunk_and_at_most_the_prefix() {
    let full = Configuration::FullEncrypt { key: [8; 32], nonce: [9; 12] };
    let stream = CipherStream::new((), &full, &Configuration::Plaintext);
    let big = vec![0u8; WRITE_CHUNK + 100];
    assert_eq!(stream.encrypt_for_write(&big).unwrap().len(), WRITE_CHUNK);

    let partial = Configuration::PartialEncrypt { key: [8; 32], nonce: [9; 12], enc_size: 32 };
    let stream = CipherStream::new((), &partial, &Configuration::Plaintext);
    assert_eq!(stream.encrypt_for_write(&big).unwrap().len(), 32);

    let stream = CipherStream::new((), &Configuration::Plaintext, &Configuration::Plaintext);
    assert_eq!(stream.encrypt_for_write(&big).unwrap(), big);
}

#[test]
fn the_keystream_ends() {
    let key = [1u8; 32];
    let nonce = [1u8; 12];
    let mut state = CipherState::Full { key, nonce, position: KEYSTREAM_LIMIT - 3 };
    assert!(state.can_take(3));
    assert!(!state.can_take(4));
    let mut data = [1u8, 2, 3, 4];
    assert_eq!(state.apply(&mut data), Err(CipherError::KeystreamExhausted));
    assert_eq!(data, [1, 2, 3, 4]);
    assert_eq!(state, CipherState::Full { key, nonce, position: KEYSTREAM_LIMIT - 3 });
    let mut three = [1u8, 2, 3];
    assert_eq!(state.apply(&mut three), Ok(()));
    assert_ne!(three, [1, 2, 3]);
    assert_eq!(state, CipherState::Full { key, nonce, position: KEYSTREAM_LIMIT });
}

#[test]
fn cipher_stream_hands_its_stream_back() {
    let mut stream = CipherStream::new(5u8, &Configuration::Plaintext, &Configuration::Plaintext);
    assert_eq!(*stream.get_ref(), 5);
    *stream.get_mut() = 6;
    assert_eq!(stream.into_inner(), 6);
}

#[test]
fn a_byte_under_a_zero_keystream_byte_stays_as_it_is() {
    let key = [7u8; 32];
    let nonce = [0u8; 12];
    let keystream = reference_keystream(&key, &nonce, 32);
    assert_eq!(keystream[1], 0);
    let plain = [0x55u8; 40];
    let mut data = plain;
    CipherState::new(&Configuration::PartialEncrypt { key, nonce, enc_size: 32 })
        .apply(&mut data)
        .unwrap();
    for i in 0..40 {
        assert_eq!(data[i] != plain[i], i < 32 && keystream[i] != 0, "byte {i}");
    }
    assert_eq!(data[1], plain[1]);
    assert_ne!(data[0], plain[0]);
}

#[test]
fn the_last_block_of_the_keystream_can_be_used_up_from_its_middle() {
    let key = [1u8; 32];
    let nonce = [1u8; 12];
    let mut state = CipherState::Full { key, nonce, position: KEYSTREAM_LIMIT - 63 };
    let mut data = [0u8; 63];
    assert_eq!(state.apply(&mut data), Ok(()));
    assert_ne!(data, [0u8; 63]);
    assert_eq!(state, CipherState::Full { key, nonce, position: KEYSTREAM_LIMIT });
    let mut nothing: [u8; 0] = [];
    assert_eq!(state.apply(&mut nothing), Ok(()));
    let mut one = [9u8];
    assert_eq!(state.apply(&mut one), Err(CipherError::KeystreamExhausted));
    assert_eq!(one, [9]);

    let mut beyond = CipherState::Full { key, nonce, position: u64::MAX };
    assert!(!beyond.can_take(0));
    assert_eq!(beyond.apply(&mut nothing), Err(CipherError::KeystreamExhausted));
    let mut last = CipherState::Partial { remaining: 5, key, nonce, position: KEYSTREAM_LIMIT - 5 };
    let mut ten = [0u8; 10];
    assert_eq!(last.apply(&mut ten), Ok(()));
    assert_eq!(&ten[5..], &[0u8; 5]);
    assert_eq!(last, CipherState::Clear);
}
