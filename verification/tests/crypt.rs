use todo_kernel::crypt::judge;
use todo_kernel::crypt::open;
use todo_kernel::crypt::seal;
use todo_kernel::crypt::CryptoError;

#[test]
fn seal_gives_a_known_ciphertext() {
    let sealed = seal(b"http://magiclen.org", "magickey");
    assert_eq!(
        sealed,
        vec![
            13, 47, 246, 83, 202, 232, 200, 57, 201, 14, 35, 88, 218, 155, 55, 127, 166, 104, 77,
            186, 89, 163, 198, 109, 80, 102, 11, 24, 72, 240, 44, 52
        ]
    );
    assert_eq!(open(&sealed, "magickey"), Ok(b"http://magiclen.org".to_vec()));
}

#[test]
fn open_undoes_seal() {
    let keys = ["alice", "bob", "", "ключ", "a much longer key than one cipher block holds"];
    let mut plain = Vec::new();
    for len in 0..50usize {
        for key in keys {
            let sealed = seal(&plain, key);
            assert_eq!(sealed.len(), (len / 16 + 1) * 16);
            assert_ne!(sealed, plain);
            assert_eq!(open(&sealed, key), Ok(plain.clone()));
        }
        plain.push((len * 7 + 3) as u8);
    }
}

#[test]
fn seal_is_deterministic_and_keyed() {
    let plain = b"buy milk";
    assert_eq!(seal(plain, "alice"), seal(plain, "alice"));
    assert_ne!(seal(plain, "alice"), seal(plain, "bob"));
    assert_ne!(seal(plain, "alice"), seal(b"buy silk", "alice"));
}

#[test]
fn another_key_does_not_open() {
    let plains: [&[u8]; 3] = [b"", b"0123456789abcdef", b"a text of more than one block"];
    for plain in plains {
        let sealed = seal(plain, "alice");
        assert_eq!(open(&sealed, "bob"), Err(CryptoError::AuthenticationFailed));
        assert_eq!(open(&sealed, "Alice"), Err(CryptoError::AuthenticationFailed));
        assert_eq!(open(&sealed, ""), Err(CryptoError::AuthenticationFailed));
    }
}

#[test]
fn another_key_never_opens_to_the_plaintext() {
    // the cipher checks padding only, so a wrong key can pass: what comes out
    // then is not what was sealed
    let sealed = seal(b"buy milk", "alice");
    let opened = open(&sealed, "bob").unwrap();
    assert_eq!(opened.len(), 15);
    assert_ne!(opened, b"buy milk".to_vec());
    assert_eq!(open(&sealed, "alice"), Ok(b"buy milk".to_vec()));
}

#[test]
fn a_buffer_that_is_no_whole_number_of_blocks_is_malformed() {
    assert_eq!(open(&[], "alice"), Err(CryptoError::Malformed));
    assert_eq!(open(&[1, 2, 3], "alice"), Err(CryptoError::Malformed));
    let mut sealed = seal(b"buy milk", "alice");
    sealed.pop();
    assert_eq!(open(&sealed, "alice"), Err(CryptoError::Malformed));
    sealed.extend([0, 0]);
    assert_eq!(open(&sealed, "alice"), Err(CryptoError::Malformed));
}

#[test]
fn a_tampered_buffer_does_not_open_as_the_original() {
    let plain = b"buy milk".to_vec();
    let mut sealed = seal(&plain, "alice");
    let last = sealed.len() - 1;
    sealed[last] ^= 0x80;
    assert_ne!(open(&sealed, "alice"), Ok(plain));
}

#[test]
fn judge_decides_by_length_first() {
    assert_eq!(judge(0, None), Err(CryptoError::Malformed));
    assert_eq!(judge(0, Some(vec![1])), Err(CryptoError::Malformed));
    assert_eq!(judge(17, Some(vec![1])), Err(CryptoError::Malformed));
    assert_eq!(judge(16, None), Err(CryptoError::AuthenticationFailed));
    assert_eq!(judge(32, Some(vec![1, 2])), Ok(vec![1, 2]));
    assert_eq!(judge(16, Some(vec![])), Ok(vec![]));
}
