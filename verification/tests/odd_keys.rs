use caverr::worker::rsa::holder::{RsaHolder, RsaKey};
use caverr::worker::rsa::material::{PrivateKey, PublicKey};
use rsa::BigUint;

/// Numbers that look random and are the same in every run.
struct Numbers {
    state: u64,
}

impl Numbers {
    fn next(&mut self) -> u64 {
        self.state ^= self.state << 13;
        self.state ^= self.state >> 7;
        self.state ^= self.state << 17;
        self.state
    }

    fn below(&mut self, limit: usize) -> usize {
        (self.next() % (limit as u64)) as usize
    }

    fn bytes(&mut self, len: usize) -> Vec<u8> {
        (0..len).map(|_| (self.next() >> 24) as u8).collect()
    }
}

fn parts(numbers: &mut Numbers, round: usize) -> (Vec<u8>, Vec<u8>, Vec<u8>, Vec<Vec<u8>>) {
    let n_len = if round % 3 == 0 { numbers.below(12) } else { 60 + numbers.below(30) };
    let mut n = numbers.bytes(n_len);
    if round % 7 == 0 && !n.is_empty() {
        n[0] = 0;
    }
    let e = match round % 5 {
        0 => vec![3],
        1 => vec![1, 0, 1],
        2 => {
            let len = numbers.below(6);
            numbers.bytes(len)
        }
        3 => vec![2],
        _ => vec![0x40, 0, 0, 0],
    };
    let d_len = numbers.below(90);
    let d = numbers.bytes(d_len);
    let count = numbers.below(5);
    let size = 1 + numbers.below(44);
    let mut primes = Vec::new();
    for index in 0..count {
        let len = if index < 2 && round % 11 != 0 { size } else { numbers.below(45) };
        let mut prime = numbers.bytes(len);
        if let Some(first) = prime.first_mut() {
            *first |= 1;
        }
        match numbers.below(8) {
            0 => prime = vec![2],
            1 => prime = vec![0, 0, 3],
            2 => {
                if let Some(last) = prime.last_mut() {
                    *last &= 0xFE;
                }
            }
            _ => {}
        }
        primes.push(prime);
    }
    (n, e, d, primes)
}

/// Parts that stand the checks of a key, of numbers that need not be primes:
/// two factors of `size` bytes, or three, their product, and exponents that
/// undo each other modulo each factor.
fn checked_parts(
    numbers: &mut Numbers,
    size: usize,
    three: bool,
) -> (Vec<u8>, Vec<u8>, Vec<u8>, Vec<Vec<u8>>) {
    let one = BigUint::from(1u32);
    let count = if three { 3 } else { 2 };
    loop {
        let mut factors = Vec::new();
        for _ in 0..count {
            let mut bytes = numbers.bytes(size);
            bytes[0] |= 0x80;
            factors.push(BigUint::from_bytes_be(&bytes));
        }
        let mut n = BigUint::from(1u32);
        let mut all = BigUint::from(1u32);
        for factor in factors.iter() {
            n = n * factor;
            all = all * (factor - &one);
        }
        for e in [3u32, 5, 7, 17, 65537] {
            let e = BigUint::from(e);
            for k in 1u32..20 {
                let top = &one + BigUint::from(k) * &all;
                if &top % &e == BigUint::from(0u32) {
                    let d = &top / &e;
                    return (
                        n.to_bytes_be(),
                        e.to_bytes_be(),
                        d.to_bytes_be(),
                        factors.iter().map(|factor| factor.to_bytes_be()).collect(),
                    );
                }
            }
        }
    }
}

#[test]
fn odd_parts_are_refused_or_fail_in_time() {
    let mut numbers = Numbers { state: 0x9E37_79B9_7F4A_7C15 };
    for round in 0..600 {
        let (n, e, d, primes) = parts(&mut numbers, round);
        let public = PublicKey { n: n.clone(), e: e.clone() };
        let size = public.size();
        let has_text = public.to_pem().is_ok();
        let fits = e.iter().skip_while(|byte| **byte == 0).count() <= 4 && {
            let value = e.iter().fold(0u64, |value, byte| value * 256 + *byte as u64);
            2 <= value && value <= 0x4000_0000
        };
        assert_eq!(has_text, fits);
        let public = RsaKey::PublicKey(public);
        let message_len = numbers.below(30);
        let outcome = RsaHolder::new(&public).work(numbers.bytes(message_len));
        assert_eq!(outcome.is_ok(), fits && message_len + 66 <= size);
        if let Ok(ciphertext) = outcome {
            assert_eq!(ciphertext.len(), size);
        }
        assert!(PrivateKey::new(n, e, d, primes).is_none());
    }
}

#[test]
fn library_takes_the_parts_that_the_rsa_crate_finds_good() {
    let mut numbers = Numbers { state: 0x2545_F491_4F6C_DD1D };
    for round in 0..200 {
        let size = 1 + numbers.below(6);
        let (n, e, mut d, primes) = checked_parts(&mut numbers, size, round % 4 == 0);
        let spoil = round % 3;
        if spoil == 1 {
            let last = d.len() - 1;
            d[last] ^= 1;
        }
        let mut n = n;
        if spoil == 2 {
            let last = n.len() - 1;
            n[last] ^= 2;
        }
        let good = rsa::RsaPrivateKey::from_components(
            BigUint::from_bytes_be(&n),
            BigUint::from_bytes_be(&e),
            BigUint::from_bytes_be(&d),
            primes.iter().map(|prime| BigUint::from_bytes_be(prime)).collect(),
        )
        .validate()
        .is_ok();
        assert_eq!(good, spoil == 0);
        assert_eq!(PrivateKey::new(n, e, d, primes).is_some(), good);
    }
}

#[test]
fn checked_parts_of_numbers_that_are_no_primes_fail_in_time() {
    let mut numbers = Numbers { state: 0x1234_5678_9ABC_DEF1 };
    let mut taken_back = 0;
    for round in 0..40 {
        let size = 33 + numbers.below(12);
        let (n, e, d, primes) = checked_parts(&mut numbers, size, round % 5 == 0);
        let key = PrivateKey::new(n.clone(), e.clone(), d, primes).expect("parts that stand the checks");
        let size = key.size();
        let _ = key.to_pem();
        let private = RsaKey::PrivateKey(key);
        let public = RsaKey::PublicKey(PublicKey { n, e });
        for _ in 0..4 {
            let mut ciphertext = numbers.bytes(size);
            ciphertext[0] = 0;
            let _ = RsaHolder::new(&private).work(ciphertext);
        }
        let message = numbers.bytes(size - 66);
        let encrypted = RsaHolder::new(&public).work(message.clone()).expect("unable to encrypt");
        if let Ok(decrypted) = RsaHolder::new(&private).work(encrypted) {
            assert_eq!(decrypted, message);
            taken_back += 1;
        }
    }
    println!("{} of 40 keys took their message back", taken_back);
}
