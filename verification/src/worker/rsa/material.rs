//! Keys as numbers: every part of a key is a natural number, held as its
//! bytes with the most significant byte first.
//!
//! The work on blocks is that of the `rsa` crate. It is handed the numbers of
//! a key with each block and makes its own form of the key from them, so that
//! what it returns can be said in terms of the numbers.

use vstd::prelude::*;
use vstd::slice::slice_to_vec;
use crate::worker::rsa::OAEP_OVERHEAD;

verus! {

/// `rsa::errors::Error`, the failure of the RSA library. It is handed on as
/// it comes.
#[verifier::external_type_specification]
#[verifier::external_body]
pub struct ExRsaError(::rsa::errors::Error);

/// `rsa::pkcs8::Error`, the failure to put a key into its text form. It is
/// handed on as it comes.
#[verifier::external_type_specification]
#[verifier::external_body]
pub struct ExPkcs8Error(::rsa::pkcs8::Error);

/// A public key: the modulus and the public exponent.
#[derive(Debug)]
pub struct PublicKey {
    pub n: Vec<u8>,
    pub e: Vec<u8>,
}

/// A public key as contracts see it.
pub struct PublicKeyView {
    pub n: Seq<u8>,
    pub e: Seq<u8>,
}

/// A private key: modulus, public exponent, private exponent, and the prime
/// factors of the modulus. It holds two primes or more, each of them is a
/// number of 2 or more, the first two take the same number of bytes, they
/// multiply to the modulus, and the exponents undo each other.
pub struct PrivateKey {
    n: Vec<u8>,
    e: Vec<u8>,
    d: Vec<u8>,
    primes: Vec<Vec<u8>>,
}

/// A private key as contracts see it.
pub struct PrivateKeyView {
    pub n: Seq<u8>,
    pub e: Seq<u8>,
    pub d: Seq<u8>,
    pub primes: Seq<Seq<u8>>,
}

/// How many bytes the number takes that `bytes` holds: those from its first
/// byte that is not zero.
pub open spec fn significant_len(bytes: Seq<u8>) -> nat
    decreases bytes.len(),
{
    if bytes.len() == 0 {
        0
    } else if bytes[0] != 0 {
        bytes.len()
    } else {
        significant_len(bytes.skip(1))
    }
}

/// The number that `bytes` holds, most significant byte first.
pub open spec fn big_value(bytes: Seq<u8>) -> nat
    decreases bytes.len(),
{
    if bytes.len() == 0 {
        0
    } else {
        big_value(bytes.drop_last()) * 256 + bytes.last() as nat
    }
}

/// The public exponents that the RSA library works with: from 2 to 2 to the
/// power of 30.
pub open spec fn exponent_fits(e: Seq<u8>) -> bool {
    2 <= big_value(e) <= 0x4000_0000
}

/// The number that `bytes` holds is 2 or more: a byte is 2 or more, or a
/// byte before the last is not zero.
pub open spec fn at_least_two(bytes: Seq<u8>) -> bool {
    exists|i: int|
        0 <= i < bytes.len() && ((#[trigger] bytes[i]) >= 2 || (bytes[i] != 0 && i + 1
            < bytes.len()))
}

/// What RSA-OAEP decryption makes of `ciphertext` under the private key of
/// these parts, with SHA-256 for the label and SHA-1 for the mask: the
/// message, or nothing where it refuses the ciphertext.
pub uninterp spec fn oaep_decrypted(
    n: Seq<u8>,
    e: Seq<u8>,
    d: Seq<u8>,
    primes: Seq<Seq<u8>>,
    ciphertext: Seq<u8>,
) -> Option<Seq<u8>>;

/// The PEM text of the public key of these parts, as SubjectPublicKeyInfo
/// with CRLF line endings; nothing where the parts have no such text.
pub uninterp spec fn public_key_pem(n: Seq<u8>, e: Seq<u8>) -> Option<Seq<char>>;

/// The PEM text of the private key of these parts, as PKCS#8 with CRLF line
/// endings; nothing where the parts have no such text.
pub uninterp spec fn private_key_pem(
    n: Seq<u8>,
    e: Seq<u8>,
    d: Seq<u8>,
    primes: Seq<Seq<u8>>,
) -> Option<Seq<char>>;

/// There are two primes or more, each of them is 2 or more, and the first two
/// take the same number of bytes. The RSA library takes the parts of a key as
/// they are: it makes its form of a key, and checks one, only where the first
/// two hold, and without the third its decryption may add one prime to the
/// negative of the other for longer than anyone waits.
pub open spec fn valid_primes(primes: Seq<Seq<u8>>) -> bool {
    &&& primes.len() >= 2
    &&& forall|i: int| 0 <= i < primes.len() ==> at_least_two(#[trigger] primes[i])
    &&& significant_len(primes[0]) == significant_len(primes[1])
}

/// The product of the numbers that `parts` hold.
pub open spec fn product_value(parts: Seq<Seq<u8>>) -> nat
    decreases parts.len(),
{
    if parts.len() == 0 {
        1
    } else {
        product_value(parts.drop_last()) * big_value(parts.last())
    }
}

/// The exponents `e` and `d` undo each other modulo `prime`: their product
/// leaves 1 when divided by `prime - 1`.
pub open spec fn exponents_invert(e: Seq<u8>, d: Seq<u8>, prime: Seq<u8>) -> bool {
    ((big_value(e) * big_value(d)) as int) % (big_value(prime) - 1) == 1
}

/// What the RSA library checks of a key: the public exponent is one that it
/// works with, the primes multiply to the modulus, and the two exponents undo
/// each other modulo each prime. Decryption under such a key gives a number
/// below the modulus, which is what the library counts on when it lays the
/// number out in the bytes of the modulus.
pub open spec fn key_checks(n: Seq<u8>, e: Seq<u8>, d: Seq<u8>, primes: Seq<Seq<u8>>) -> bool {
    &&& exponent_fits(e)
    &&& product_value(primes) == big_value(n)
    &&& forall|i: int| 0 <= i < primes.len() ==> exponents_invert(e, d, #[trigger] primes[i])
}

/// The byte strings of `parts` as contracts see them.
pub open spec fn byte_views(parts: Seq<Vec<u8>>) -> Seq<Seq<u8>> {
    parts.map_values(|part: Vec<u8>| part@)
}

impl View for PublicKey {
    type V = PublicKeyView;

    open spec fn view(&self) -> PublicKeyView {
        PublicKeyView { n: self.n@, e: self.e@ }
    }
}

impl PrivateKeyView {
    /// The parts are a key: `valid_primes` holds of the primes, and the key
    /// stands the checks of the RSA library.
    pub open spec fn valid(self) -> bool {
        valid_primes(self.primes) && key_checks(self.n, self.e, self.d, self.primes)
    }

    /// The public half of the key.
    pub open spec fn public(self) -> PublicKeyView {
        PublicKeyView { n: self.n, e: self.e }
    }

    /// What decryption under this key makes of `ciphertext`.
    pub open spec fn decrypted(self, ciphertext: Seq<u8>) -> Option<Seq<u8>> {
        oaep_decrypted(self.n, self.e, self.d, self.primes, ciphertext)
    }
}

/// Whether the public key of modulus `n` and exponent `e` encrypts
/// `message`: the exponent is one that the RSA library works with, and the
/// message is shorter than the modulus by `OAEP_OVERHEAD` bytes or more.
pub open spec fn encrypt_accepts(n: Seq<u8>, e: Seq<u8>, message: Seq<u8>) -> bool {
    exponent_fits(e) && message.len() + OAEP_OVERHEAD <= significant_len(n)
}

impl PublicKeyView {
    /// Whether this key encrypts `message`.
    pub open spec fn accepts(self, message: Seq<u8>) -> bool {
        encrypt_accepts(self.n, self.e, message)
    }

    /// Whether encryption of `message` under this key may return `outcome`:
    /// it succeeds just where the key accepts the message, and a ciphertext
    /// is as long as the modulus.
    pub open spec fn may_encrypt(
        self,
        message: Seq<u8>,
        outcome: Result<Seq<u8>, ::rsa::errors::Error>,
    ) -> bool {
        &&& outcome is Ok <==> self.accepts(message)
        &&& outcome matches Ok(ciphertext) ==> ciphertext.len() == significant_len(self.n)
    }
}

/// What a block primitive returned, as contracts see it.
pub open spec fn block_view(outcome: Result<Vec<u8>, ::rsa::errors::Error>) -> Result<
    Seq<u8>,
    ::rsa::errors::Error,
> {
    match outcome {
        Ok(bytes) => Ok(bytes@),
        Err(error) => Err(error),
    }
}

impl View for PrivateKey {
    type V = PrivateKeyView;

    closed spec fn view(&self) -> PrivateKeyView {
        PrivateKeyView { n: self.n@, e: self.e@, d: self.d@, primes: byte_views(self.primes@) }
    }
}

/// Counts the bytes of the number in `bytes`.
pub fn count_significant(bytes: &Vec<u8>) -> (len: usize)
    ensures
        len == significant_len(bytes@),
{
    let mut i: usize = 0;
    assert(bytes@.skip(0) =~= bytes@);
    while i < bytes.len() && bytes[i] == 0
        invariant
            i <= bytes.len(),
            significant_len(bytes@) == significant_len(bytes@.skip(i as int)),
        decreases bytes.len() - i,
    {
        assert(bytes@.skip(i as int).skip(1) =~= bytes@.skip(i + 1));
        i += 1;
    }
    bytes.len() - i
}

fn is_at_least_two(bytes: &Vec<u8>) -> (yes: bool)
    ensures
        yes == at_least_two(bytes@),
{
    let mut i: usize = 0;
    while i < bytes.len()
        invariant
            i <= bytes.len(),
            forall|j: int|
                0 <= j < i ==> !((#[trigger] bytes@[j]) >= 2 || (bytes@[j] != 0 && j + 1
                    < bytes.len())),
        decreases bytes.len() - i,
    {
        if bytes[i] >= 2 || (bytes[i] != 0 && i + 1 < bytes.len()) {
            return true;
        }
        i += 1;
    }
    false
}

impl PublicKey {
    /// The size of the modulus in bytes. A ciphertext under this key is of
    /// this size.
    pub fn size(&self) -> (size: usize)
        ensures
            size == significant_len(self@.n),
    {
        count_significant(&self.n)
    }

    /// The key as PEM text.
    pub fn to_pem(&self) -> (text: Result<String, ::rsa::pkcs8::Error>)
        ensures
            match text {
                Ok(text) => public_key_pem(self@.n, self@.e) == Some(text@),
                Err(_) => public_key_pem(self@.n, self@.e) is None,
            },
    {
        encode_public_key(self.n.as_slice(), self.e.as_slice())
    }

    /// Encrypts one message. The ciphertext differs from call to call.
    pub fn encrypt(&self, message: &[u8]) -> (outcome: Result<Vec<u8>, ::rsa::errors::Error>)
        ensures
            self@.may_encrypt(message@, block_view(outcome)),
    {
        oaep_encrypt(self.n.as_slice(), self.e.as_slice(), message)
    }
}

impl PrivateKey {
    #[verifier::type_invariant]
    spec fn inv(self) -> bool {
        self@.valid()
    }

    /// A private key of these parts. Refused are parts with fewer than two
    /// primes, with a prime below 2, with first primes of which one takes
    /// more bytes than the other, and parts that do not stand the checks of
    /// the RSA library.
    pub fn new(n: Vec<u8>, e: Vec<u8>, d: Vec<u8>, primes: Vec<Vec<u8>>) -> (key: Option<Self>)
        ensures
            match key {
                Some(key) => key@ == (PrivateKeyView {
                    n: n@,
                    e: e@,
                    d: d@,
                    primes: byte_views(primes@),
                }) && key@.valid(),
                None => !(PrivateKeyView {
                    n: n@,
                    e: e@,
                    d: d@,
                    primes: byte_views(primes@),
                }).valid(),
            },
    {
        if primes.len() < 2 {
            return None;
        }
        let mut i: usize = 0;
        while i < primes.len()
            invariant
                i <= primes.len(),
                forall|j: int| 0 <= j < i ==> at_least_two(#[trigger] byte_views(primes@)[j]),
            decreases primes.len() - i,
        {
            if !is_at_least_two(&primes[i]) {
                assert(!at_least_two(byte_views(primes@)[i as int]));
                return None;
            }
            i += 1;
        }
        if count_significant(&primes[0]) != count_significant(&primes[1]) {
            return None;
        }
        if !validate_parts(n.as_slice(), e.as_slice(), d.as_slice(), &primes) {
            return None;
        }
        Some(PrivateKey { n, e, d, primes })
    }

    /// The public key of this key: its modulus and its public exponent.
    pub fn public_key(&self) -> (public: PublicKey)
        ensures
            public@ == self@.public(),
    {
        PublicKey { n: slice_to_vec(self.n.as_slice()), e: slice_to_vec(self.e.as_slice()) }
    }

    /// The size of the modulus in bytes. A ciphertext for this key is of this
    /// size.
    pub fn size(&self) -> (size: usize)
        ensures
            size == significant_len(self@.n),
    {
        count_significant(&self.n)
    }

    /// The key as PEM text.
    pub fn to_pem(&self) -> (text: Result<String, ::rsa::pkcs8::Error>)
        ensures
            match text {
                Ok(text) => private_key_pem(self@.n, self@.e, self@.d, self@.primes) == Some(text@),
                Err(_) => private_key_pem(self@.n, self@.e, self@.d, self@.primes) is None,
            },
    {
        proof {
            use_type_invariant(self);
        }
        encode_private_key(
            self.n.as_slice(),
            self.e.as_slice(),
            self.d.as_slice(),
            &self.primes,
        )
    }

    /// A new private key of `bits` bits with two primes, another with each call;
    /// nothing where the generator hands out parts that are no key of that size.
    pub(crate) fn generate(bits: usize) -> (key: Result<Option<Self>, ::rsa::errors::Error>)
        requires
            1024 <= bits <= 8192,
        ensures
            key matches Ok(Some(made)) ==> made@.valid() && significant_len(made@.n) * 8 == bits,
    {
        match generate_parts(bits) {
            Ok((n, e, d, primes)) => Ok(PrivateKey::with_size(bits, n, e, d, primes)),
            Err(error) => Err(error),
        }
    }

    /// A private key of these parts, where they are a key of `bits` bits:
    /// where `new` takes them, and the modulus takes `bits` bits in whole
    /// bytes.
    pub fn with_size(bits: usize, n: Vec<u8>, e: Vec<u8>, d: Vec<u8>, primes: Vec<Vec<u8>>) -> (key:
        Option<Self>)
        ensures
            match key {
                Some(key) => key@ == (PrivateKeyView {
                    n: n@,
                    e: e@,
                    d: d@,
                    primes: byte_views(primes@),
                }) && key@.valid() && significant_len(n@) * 8 == bits,
                None => !((PrivateKeyView {
                    n: n@,
                    e: e@,
                    d: d@,
                    primes: byte_views(primes@),
                }).valid() && significant_len(n@) * 8 == bits),
            },
    {
        if bits % 8 != 0 || count_significant(&n) != bits / 8 {
            return None;
        }
        PrivateKey::new(n, e, d, primes)
    }

    /// Decrypts one ciphertext. The same ciphertext gives the same message
    /// every time. A ciphertext that is accepted is as long as the modulus,
    /// and its message is shorter by `OAEP_OVERHEAD` bytes or more.
    pub fn decrypt(&self, ciphertext: &[u8]) -> (outcome: Result<Vec<u8>, ::rsa::errors::Error>)
        ensures
            match outcome {
                Ok(message) => self@.decrypted(ciphertext@) == Some(message@),
                Err(_) => self@.decrypted(ciphertext@) is None,
            },
            outcome matches Ok(message) ==> ciphertext@.len() == significant_len(self@.n)
                && message@.len() + OAEP_OVERHEAD <= ciphertext@.len(),
    {
        proof {
            use_type_invariant(self);
        }
        oaep_decrypt(
            self.n.as_slice(),
            self.e.as_slice(),
            self.d.as_slice(),
            &self.primes,
            ciphertext,
        )
    }
}

/// `rsa::PublicKey::encrypt` on the `rsa::RsaPublicKey` that
/// `rsa::RsaPublicKey::new` makes of the two numbers, with OAEP padding that
/// hashes the empty label with SHA-256 and masks with MGF1 over SHA-1, and
/// with the thread's random generator for the seed.
///
/// Believed of it: the call refuses an exponent below 2 or above 2 to the
/// power of 30, and a message that with two digests and two bytes is longer
/// than the modulus; it refuses nothing else, and a ciphertext has the size of
/// the modulus in bytes.
#[verifier::external_body]
fn oaep_encrypt(n: &[u8], e: &[u8], message: &[u8]) -> (outcome: Result<
    Vec<u8>,
    ::rsa::errors::Error,
>)
    ensures
        outcome is Ok <==> encrypt_accepts(n@, e@, message@),
        outcome matches Ok(ciphertext) ==> ciphertext@.len() == significant_len(n@),
{
    let n = ::rsa::BigUint::from_bytes_be(n);
    let e = ::rsa::BigUint::from_bytes_be(e);
    let key = ::rsa::RsaPublicKey::new(n, e)?;
    let padding = ::rsa::PaddingScheme::new_oaep_with_mgf_hash::<sha2::Sha256, sha1::Sha1>();
    ::rsa::PublicKey::encrypt(&key, &mut rand::thread_rng(), padding, message)
}

/// `rsa::RsaPrivateKey::decrypt` on the key that
/// `rsa::RsaPrivateKey::from_components` makes of the numbers, with the same
/// padding and without blinding.
///
/// Believed of it: the outcome is `oaep_decrypted` of the same numbers and
/// ciphertext; the call accepts only a ciphertext of the size of the modulus
/// in bytes, and the message is what follows two digests and two bytes or
/// more of the decrypted block. Left out are keys without `valid_primes`: the
/// making of a key stops on fewer than two primes and on a prime below 2, and
/// decryption adds the first prime to a number above the negative of the
/// second until it is positive. Left out are keys without `key_checks` too:
/// where the primes do not multiply to the modulus, the decrypted number may
/// take more bytes than the modulus, and laying it out stops.
#[verifier::external_body]
fn oaep_decrypt(n: &[u8], e: &[u8], d: &[u8], primes: &Vec<Vec<u8>>, ciphertext: &[u8]) -> (outcome:
    Result<Vec<u8>, ::rsa::errors::Error>)
    requires
        valid_primes(byte_views(primes@)),
        key_checks(n@, e@, d@, byte_views(primes@)),
    ensures
        match outcome {
            Ok(message) => oaep_decrypted(n@, e@, d@, byte_views(primes@), ciphertext@) == Some(
                message@,
            ),
            Err(_) => oaep_decrypted(n@, e@, d@, byte_views(primes@), ciphertext@) is None,
        },
        outcome matches Ok(message) ==> ciphertext@.len() == significant_len(n@) && message@.len()
            + OAEP_OVERHEAD <= ciphertext@.len(),
{
    let key = ::rsa::RsaPrivateKey::from_components(
        ::rsa::BigUint::from_bytes_be(n),
        ::rsa::BigUint::from_bytes_be(e),
        ::rsa::BigUint::from_bytes_be(d),
        primes.iter().map(|prime| ::rsa::BigUint::from_bytes_be(prime)).collect(),
    );
    let padding = ::rsa::PaddingScheme::new_oaep_with_mgf_hash::<sha2::Sha256, sha1::Sha1>();
    key.decrypt(padding, ciphertext)
}

/// `rsa::RsaPrivateKey::validate` on the key that
/// `rsa::RsaPrivateKey::from_components` makes of the numbers.
///
/// Believed of it: it finds the key good just where `key_checks` holds. It
/// refuses a public exponent below 2 or above 2 to the power of 30, primes
/// whose product is not the modulus, and exponents whose product does not
/// leave 1 when divided by each prime less one; it refuses nothing else.
/// Left out are keys without `valid_primes`: the making of a key stops on
/// fewer than two primes and on a prime below 2, and the check divides by
/// each prime less one.
#[verifier::external_body]
fn validate_parts(n: &[u8], e: &[u8], d: &[u8], primes: &Vec<Vec<u8>>) -> (valid: bool)
    requires
        valid_primes(byte_views(primes@)),
    ensures
        valid == key_checks(n@, e@, d@, byte_views(primes@)),
{
    let key = ::rsa::RsaPrivateKey::from_components(
        ::rsa::BigUint::from_bytes_be(n),
        ::rsa::BigUint::from_bytes_be(e),
        ::rsa::BigUint::from_bytes_be(d),
        primes.iter().map(|prime| ::rsa::BigUint::from_bytes_be(prime)).collect(),
    );
    key.validate().is_ok()
}

/// `rsa::RsaPrivateKey::new` with the thread's random generator: a new
/// private key with two primes. Handed out are its modulus, public exponent,
/// private exponent and primes as bytes, most significant first. Nothing is
/// claimed of them.
#[verifier::external_body]
fn generate_parts(bits: usize) -> (parts: Result<
    (Vec<u8>, Vec<u8>, Vec<u8>, Vec<Vec<u8>>),
    ::rsa::errors::Error,
>)
    requires
        1024 <= bits <= 8192,
{
    let key = ::rsa::RsaPrivateKey::new(&mut rand::thread_rng(), bits)?;
    let n = ::rsa::PublicKeyParts::n(&key).to_bytes_be();
    let e = ::rsa::PublicKeyParts::e(&key).to_bytes_be();
    let d = key.d().to_bytes_be();
    let primes = key.primes().iter().map(|prime| prime.to_bytes_be()).collect();
    Ok((n, e, d, primes))
}

/// `rsa::pkcs8::EncodePublicKey::to_public_key_pem` with CRLF line endings,
/// on the key that `rsa::RsaPublicKey::new` makes of the two numbers.
///
/// Believed of it: the outcome is `public_key_pem` of the same numbers.
#[verifier::external_body]
fn encode_public_key(n: &[u8], e: &[u8]) -> (text: Result<String, ::rsa::pkcs8::Error>)
    ensures
        match text {
            Ok(text) => public_key_pem(n@, e@) == Some(text@),
            Err(_) => public_key_pem(n@, e@) is None,
        },
{
    let n = ::rsa::BigUint::from_bytes_be(n);
    let e = ::rsa::BigUint::from_bytes_be(e);
    let key = ::rsa::RsaPublicKey::new(n, e).map_err(|_| ::rsa::pkcs8::Error::KeyMalformed)?;
    ::rsa::pkcs8::EncodePublicKey::to_public_key_pem(&key, ::rsa::pkcs8::LineEnding::CRLF)
        .map_err(::rsa::pkcs8::Error::PublicKey)
}

/// `rsa::pkcs8::EncodePrivateKey::to_pkcs8_pem` with CRLF line endings, on
/// the key that `rsa::RsaPrivateKey::from_components` makes of the numbers.
///
/// Believed of it: the outcome is `private_key_pem` of the same numbers. Left
/// out are keys without `valid_primes`: the making of a key stops on fewer
/// than two primes and on a prime below 2.
#[verifier::external_body]
fn encode_private_key(n: &[u8], e: &[u8], d: &[u8], primes: &Vec<Vec<u8>>) -> (text: Result<
    String,
    ::rsa::pkcs8::Error,
>)
    requires
        valid_primes(byte_views(primes@)),
        key_checks(n@, e@, d@, byte_views(primes@)),
    ensures
        match text {
            Ok(text) => private_key_pem(n@, e@, d@, byte_views(primes@)) == Some(text@),
            Err(_) => private_key_pem(n@, e@, d@, byte_views(primes@)) is None,
        },
{
    let key = ::rsa::RsaPrivateKey::from_components(
        ::rsa::BigUint::from_bytes_be(n),
        ::rsa::BigUint::from_bytes_be(e),
        ::rsa::BigUint::from_bytes_be(d),
        primes.iter().map(|prime| ::rsa::BigUint::from_bytes_be(prime)).collect(),
    );
    ::rsa::pkcs8::EncodePrivateKey::to_pkcs8_pem(&key, ::rsa::pkcs8::LineEnding::CRLF)
        .map(|text| text.to_string())
}

} // verus!
