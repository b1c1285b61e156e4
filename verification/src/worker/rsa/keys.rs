use vstd::prelude::*;
use crate::worker::rsa::material::{
    PrivateKey, PublicKey, private_key_pem, public_key_pem, significant_len,
};
use crate::worker::rsa::{DECRYPTION_MESSAGE_SIZE, KEY_BITS};

verus! {

/// Why no keys could be made.
#[derive(Debug)]
pub enum KeyGenError {
    /// The generator failed.
    Rsa(::rsa::errors::Error),
    /// The generator handed out parts that are no key of the size asked for.
    Invalid,
    /// Keys of the size asked for are not made.
    Size,
}

/// Why a key could not be written out.
#[derive(Debug)]
pub enum ShowKeyError<E> {
    /// The key has no text form.
    RsaError(::rsa::pkcs8::Error),
    /// The text could not be written.
    IOError(E),
}

/// `write`, called with a text that reads `text`, may return `outcome`.
pub open spec fn wrote<E, W: FnOnce(String) -> Result<(), E>>(
    write: W,
    text: Seq<char>,
    outcome: Result<(), E>,
) -> bool {
    exists|given: String| given@ == text && call_ensures(write, (given,), outcome)
}

/// `write`, called with a text that reads `text`, may succeed.
pub open spec fn wrote_it<E, W: FnOnce(String) -> Result<(), E>>(write: W, text: Seq<char>) -> bool {
    exists|written: Result<(), E>| written is Ok && #[trigger] wrote(write, text, written)
}

/// What writing a key, of which the text is `text` if it has one, may
/// return: without a text `RsaError`, and else what `write` makes of the
/// text, its failure as `IOError`.
pub open spec fn key_written<E, W: FnOnce(String) -> Result<(), E>>(
    write: W,
    text: Option<Seq<char>>,
    outcome: Result<(), ShowKeyError<E>>,
) -> bool {
    &&& text is None <==> outcome is Err && outcome->Err_0 is RsaError
    &&& outcome is Ok ==> wrote_it(write, text->Some_0)
    &&& outcome is Err && outcome->Err_0 is IOError ==> wrote(
        write,
        text->Some_0,
        Err(outcome->Err_0->IOError_0),
    )
}

/// The sizes of which keys are made: from 1024 to 8192 bits, in whole bytes.
pub open spec fn size_is_made(bits: usize) -> bool {
    1024 <= bits <= 8192 && bits % 8 == 0
}

/// Makes a pair of keys of `bits` bits: a private key, and the public key
/// that belongs to it. Their modulus takes `bits` bits.
///
/// Refused with `Size`, and only these, are sizes below 1024 bits, above
/// 8192 bits, and of a number of bits that is no whole number of bytes. For
/// the others the generator is asked, and `key_pair` says what becomes of
/// what it made.
pub fn generate_keys_of(bits: usize) -> (keys: Result<(PrivateKey, PublicKey), KeyGenError>)
    ensures
        keys matches Ok((private_key, public_key)) ==> public_key@ == private_key@.public()
            && private_key@.valid() && significant_len(public_key@.n) * 8 == bits,
        keys is Err && keys->Err_0 is Size <==> !size_is_made(bits),
{
    if bits < 1024 || bits > 8192 || bits % 8 != 0 {
        return Err(KeyGenError::Size);
    }
    key_pair(PrivateKey::generate(bits))
}

/// Makes a pair of keys of `KEY_BITS` bits: a private key, and the public
/// key that belongs to it. A ciphertext under them is one block of a file to
/// decrypt. The size is one of which keys are made, so that only the
/// generator can fail.
pub fn generate_keys() -> (keys: Result<(PrivateKey, PublicKey), KeyGenError>)
    ensures
        keys matches Ok((private_key, public_key)) ==> public_key@ == private_key@.public()
            && private_key@.valid() && significant_len(public_key@.n) == DECRYPTION_MESSAGE_SIZE,
        keys matches Err(error) ==> !(error is Size),
{
    generate_keys_of(KEY_BITS)
}

/// The pair of keys for what the generator made: the private key that it
/// made, with the public key that belongs to it. Where it made no key, that
/// is `Invalid`, and its failure is handed on as `Rsa`.
pub fn key_pair(made: Result<Option<PrivateKey>, ::rsa::errors::Error>) -> (keys: Result<
    (PrivateKey, PublicKey),
    KeyGenError,
>)
    ensures
        match made {
            Ok(Some(key)) => keys matches Ok((private_key, public_key)) && private_key == key
                && public_key@ == key@.public(),
            Ok(None) => keys is Err && keys->Err_0 is Invalid,
            Err(error) => keys is Err && keys->Err_0 == KeyGenError::Rsa(error),
        },
{
    match made {
        Ok(Some(private_key)) => {
            let public_key = private_key.public_key();
            Ok((private_key, public_key))
        },
        Ok(None) => Err(KeyGenError::Invalid),
        Err(error) => Err(KeyGenError::Rsa(error)),
    }
}

/// Writes `public_key` as PEM text, with `write`.
///
/// `write` is called once, with the text, unless the key has no text form.
pub fn write_public_key<E, W: FnOnce(String) -> Result<(), E>>(
    write: W,
    public_key: PublicKey,
) -> (outcome: Result<(), ShowKeyError<E>>)
    requires
        forall|text: String| call_requires(write, (text,)),
    ensures
        key_written(write, public_key_pem(public_key@.n, public_key@.e), outcome),
{
    match public_key.to_pem() {
        Ok(text) => {
            let written = write(text);
            assert(wrote(write, text@, written));
            match written {
                Ok(_) => Ok(()),
                Err(error) => Err(ShowKeyError::IOError(error)),
            }
        },
        Err(error) => Err(ShowKeyError::RsaError(error)),
    }
}

/// Writes `private_key` as PEM text, with `write`.
///
/// `write` is called once, with the text, unless the key has no text form.
pub fn write_private_key<E, W: FnOnce(String) -> Result<(), E>>(
    write: W,
    private_key: PrivateKey,
) -> (outcome: Result<(), ShowKeyError<E>>)
    requires
        forall|text: String| call_requires(write, (text,)),
    ensures
        key_written(
            write,
            private_key_pem(
                private_key@.n,
                private_key@.e,
                private_key@.d,
                private_key@.primes,
            ),
            outcome,
        ),
{
    match private_key.to_pem() {
        Ok(text) => {
            let written = write(text);
            assert(wrote(write, text@, written));
            match written {
                Ok(_) => Ok(()),
                Err(error) => Err(ShowKeyError::IOError(error)),
            }
        },
        Err(error) => Err(ShowKeyError::RsaError(error)),
    }
}

} // verus!
