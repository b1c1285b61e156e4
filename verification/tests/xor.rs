use caverr::transformer::{transform, Transformer};
use caverr::xor::{XorCipher, XorError};

#[test]
fn seed_of_one_byte_is_accepted() {
    assert!(XorCipher::new(vec![0x5A]).is_ok());
}

#[test]
fn seed_of_another_length_is_refused() {
    match XorCipher::new(vec![]) {
        Err(XorError::InvalidSeedLength(len)) => assert_eq!(len, 0),
        _ => panic!("an empty seed was accepted"),
    }
    match XorCipher::new(vec![1, 2, 3]) {
        Err(XorError::InvalidSeedLength(len)) => assert_eq!(len, 3),
        _ => panic!("a seed of three bytes was accepted"),
    }
}

#[test]
fn error_says_the_length() {
    assert_eq!(XorError::InvalidSeedLength(3).message(), "invalid seed length 3, must be 1");
    assert_eq!(XorError::InvalidSeedLength(0).message(), "invalid seed length 0, must be 1");
    assert_eq!(XorError::InvalidSeedLength(120).message(), "invalid seed length 120, must be 1");
}

#[test]
fn update_xors_every_byte() {
    let mut cipher = XorCipher::new(vec![0x0F]).expect("a cipher");
    let out = cipher.update(vec![0x00, 0xFF, 0x0F, 0xA5]).expect("never fails");
    assert_eq!(out, vec![0x0F, 0xF0, 0x00, 0xAA]);
    let back = cipher.update(out).expect("never fails");
    assert_eq!(back, vec![0x00, 0xFF, 0x0F, 0xA5]);
    assert!(cipher.update(vec![]).expect("never fails").is_empty());
}

#[test]
fn finish_leaves_nothing_to_write() {
    let cipher = XorCipher::new(vec![1]).expect("a cipher");
    assert!(cipher.finish().expect("never fails").is_empty());
}

#[test]
fn transform_xors_the_file_whatever_the_block_size() {
    let source: Vec<u8> = (0..=255u8).cycle().take(1000).collect();
    let expected: Vec<u8> = source.iter().map(|b| b ^ 0x3C).collect();
    for size in [1usize, 7, 256, 1000, 4096] {
        let mut target = vec![0xEEu8, 0xEE];
        let cipher = XorCipher::new(vec![0x3C]).expect("a cipher");
        let written = transform(&source, cipher, size, &mut target).expect("never fails");
        assert_eq!(written, 1000);
        assert_eq!(&target[..2], &[0xEE, 0xEE]);
        assert_eq!(&target[2..], &expected[..]);
    }
}

#[test]
fn transform_twice_gives_the_file_back() {
    let source: Vec<u8> = (0..=255u8).cycle().take(3000).collect();
    let mut once = Vec::new();
    transform(&source, XorCipher::new(vec![0x77]).expect("a cipher"), 256, &mut once)
        .expect("never fails");
    assert_ne!(once, source);
    let mut twice = Vec::new();
    transform(&once, XorCipher::new(vec![0x77]).expect("a cipher"), 512, &mut twice)
        .expect("never fails");
    assert_eq!(twice, source);
}

#[test]
fn transform_of_nothing_writes_nothing() {
    let mut target = vec![1u8];
    let written = transform(&[], XorCipher::new(vec![9]).expect("a cipher"), 16, &mut target)
        .expect("never fails");
    assert_eq!(written, 0);
    assert_eq!(target, vec![1u8]);
}
