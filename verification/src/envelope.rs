//! Sealed envelopes: a message under an authenticated cipher, carried as one
//! text that holds the nonce and the cipher's output.

use crate::failure::{Failure, FailureView};
use crate::text::{hex_bytes, hex_text, lemma_hex_canonical, lemma_hex_round_trip, push_hex, read_hex};
use crypto_secretbox::aead::rand_core::RngCore;
use crypto_secretbox::aead::{Aead, KeyInit};
use vstd::prelude::*;

verus! {

/// The length of a key, in bytes.
pub const KEY_LENGTH: usize = 32;

/// The length of a nonce, in bytes.
pub const NONCE_LENGTH: usize = 24;

/// By how many bytes the cipher's output is longer than the message: the
/// length of the authentication tag.
pub const TAG_LENGTH: usize = 16;

/// What `XSalsa20Poly1305::encrypt` of `crypto_secretbox` returns for a key
/// of 32 bytes, a nonce of 24 bytes and a message: the authentication tag
/// and the encrypted message, or nothing where it reports an error.
pub uninterp spec fn sealed_box(key: Seq<u8>, nonce: Seq<u8>, message: Seq<u8>) -> Option<Seq<u8>>;

/// What `XSalsa20Poly1305::decrypt` of `crypto_secretbox` returns for a key
/// of 32 bytes, a nonce of 24 bytes and the output of an encryption: the
/// message, or nothing where the tag does not authenticate the rest under
/// that key and nonce.
pub uninterp spec fn opened_box(key: Seq<u8>, nonce: Seq<u8>, boxed: Seq<u8>) -> Option<Seq<u8>>;

/// The bytes of an optional byte vector.
pub open spec fn bytes_of(found: Option<Vec<u8>>) -> Option<Seq<u8>> {
    match found {
        Some(bytes) => Some(bytes@),
        None => None,
    }
}

/// The text of an envelope: the hexadecimal text of the nonce followed by
/// the cipher's output.
pub open spec fn envelope_text(nonce: Seq<u8>, boxed: Seq<u8>) -> Seq<char> {
    hex_text(nonce + boxed)
}

/// The sealed text of a message under a key and a nonce. A key or a nonce
/// of the wrong length, and an error of the cipher, are sealing failures.
pub open spec fn sealed_text(key: Seq<u8>, nonce: Seq<u8>, message: Seq<u8>) -> Result<
    Seq<char>,
    FailureView,
> {
    if key.len() != KEY_LENGTH || nonce.len() != NONCE_LENGTH {
        Err(FailureView::Sealing)
    } else {
        match sealed_box(key, nonce, message) {
            Some(boxed) => Ok(envelope_text(nonce, boxed)),
            None => Err(FailureView::Sealing),
        }
    }
}

/// The message in a sealed text, under a key. It is a sealing failure where
/// the key has the wrong length, the text is no hexadecimal text of at
/// least a nonce, or the cipher does not authenticate what follows the
/// nonce.
pub open spec fn unsealed(key: Seq<u8>, text: Seq<char>) -> Result<Seq<u8>, FailureView> {
    if key.len() != KEY_LENGTH {
        Err(FailureView::Sealing)
    } else {
        match hex_bytes(text) {
            Some(bytes) => if bytes.len() < NONCE_LENGTH {
                Err(FailureView::Sealing)
            } else {
                match opened_box(
                    key,
                    bytes.subrange(0, NONCE_LENGTH as int),
                    bytes.subrange(NONCE_LENGTH as int, bytes.len() as int),
                ) {
                    Some(message) => Ok(message),
                    None => Err(FailureView::Sealing),
                }
            },
            None => Err(FailureView::Sealing),
        }
    }
}

/// Encrypts with `XSalsa20Poly1305::encrypt` of `crypto_secretbox`, under a
/// key built with `Key::from_slice` and a nonce built with
/// `Nonce::from_slice`. The contract names the result, and claims of an
/// output that it is the message's length and a tag long, and that
/// decryption under the same key and nonce gives the message back.
#[verifier::external_body]
fn box_seal(key: &Vec<u8>, nonce: &Vec<u8>, message: &Vec<u8>) -> (out: Option<Vec<u8>>)
    requires
        key.len() == KEY_LENGTH,
        nonce.len() == NONCE_LENGTH,
    ensures
        bytes_of(out) == sealed_box(key@, nonce@, message@),
        out is Some ==> out->0.len() == message.len() + TAG_LENGTH,
        out is Some ==> opened_box(key@, nonce@, out->0@) == Some(message@),
{
    let cipher = crypto_secretbox::XSalsa20Poly1305::new(crypto_secretbox::Key::from_slice(key));
    cipher.encrypt(crypto_secretbox::Nonce::from_slice(nonce), message.as_slice()).ok()
}

/// Decrypts with `XSalsa20Poly1305::decrypt` of `crypto_secretbox`. The
/// contract names the result, and claims of a message that it is a tag
/// shorter than what was decrypted.
#[verifier::external_body]
fn box_open(key: &Vec<u8>, nonce: &Vec<u8>, boxed: &Vec<u8>) -> (out: Option<Vec<u8>>)
    requires
        key.len() == KEY_LENGTH,
        nonce.len() == NONCE_LENGTH,
    ensures
        bytes_of(out) == opened_box(key@, nonce@, boxed@),
        out is Some ==> out->0.len() + TAG_LENGTH == boxed.len(),
{
    let cipher = crypto_secretbox::XSalsa20Poly1305::new(crypto_secretbox::Key::from_slice(key));
    cipher.decrypt(crypto_secretbox::Nonce::from_slice(nonce), boxed.as_slice()).ok()
}

/// Fills a buffer of the given length with `OsRng::try_fill_bytes`. The
/// contract claims the length of what comes back and nothing of its
/// bytes; `None` stands for an error of the random source.
#[verifier::external_body]
fn random_bytes(length: usize) -> (out: Option<Vec<u8>>)
    ensures
        out is Some ==> out->0.len() == length,
{
    let mut bytes = vec![0u8; length];
    match crypto_secretbox::aead::OsRng.try_fill_bytes(&mut bytes) {
        Ok(()) => Some(bytes),
        Err(_) => None,
    }
}

/// Seals a message under a key and a given nonce. The nonce must be used
/// for one message only.
pub fn seal_with_nonce(message: &Vec<u8>, key: &Vec<u8>, nonce: &Vec<u8>) -> (out: Result<
    String,
    Failure,
>)
    ensures
        match out {
            Ok(text) => sealed_text(key@, nonce@, message@) == Ok::<Seq<char>, FailureView>(
                text@,
            ) && unsealed(key@, text@) == Ok::<Seq<u8>, FailureView>(message@),
            Err(failure) => sealed_text(key@, nonce@, message@) == Err::<Seq<char>, FailureView>(
                failure@,
            ),
        },
{
    if key.len() != KEY_LENGTH || nonce.len() != NONCE_LENGTH {
        return Err(Failure::Sealing);
    }
    match box_seal(key, nonce, message) {
        Some(boxed) => {
            let mut text = String::new();
            push_hex(&mut text, nonce);
            push_hex(&mut text, &boxed);
            proof {
                lemma_sealed_opens(key@, nonce@, boxed@, message@);
                lemma_hex_append(nonce@, boxed@);
                assert(text@ =~= envelope_text(nonce@, boxed@));
            }
            Ok(text)
        },
        None => Err(Failure::Sealing),
    }
}

/// Seals a message under a key and a fresh random nonce. The result is the
/// sealed text under some nonce, and unsealing it under the same key gives
/// the message back; it is a sealing failure where the key has the wrong
/// length, the random source fails or the cipher reports an error.
pub fn seal(message: &Vec<u8>, key: &Vec<u8>) -> (out: Result<String, Failure>)
    ensures
        match out {
            Ok(text) => unsealed(key@, text@) == Ok::<Seq<u8>, FailureView>(message@) && exists|
                nonce: Seq<u8>,
            | #[trigger]
                sealed_text(key@, nonce, message@) == Ok::<Seq<char>, FailureView>(text@),
            Err(failure) => failure@ == FailureView::Sealing,
        },
        key.len() != KEY_LENGTH ==> out is Err,
{
    match random_bytes(NONCE_LENGTH) {
        Some(nonce) => {
            let out = seal_with_nonce(message, key, &nonce);
            out
        },
        None => Err(Failure::Sealing),
    }
}

/// Opens a sealed text under a key: the message, or a sealing failure.
pub fn unseal(text: &str, key: &Vec<u8>) -> (out: Result<Vec<u8>, Failure>)
    ensures
        match out {
            Ok(message) => unsealed(key@, text@) == Ok::<Seq<u8>, FailureView>(message@),
            Err(failure) => unsealed(key@, text@) == Err::<Seq<u8>, FailureView>(failure@),
        },
{
    if key.len() != KEY_LENGTH {
        return Err(Failure::Sealing);
    }
    let mut bytes = match read_hex(text) {
        Some(bytes) => bytes,
        None => {
            return Err(Failure::Sealing);
        },
    };
    if bytes.len() < NONCE_LENGTH {
        return Err(Failure::Sealing);
    }
    let boxed = bytes.split_off(NONCE_LENGTH);
    match box_open(key, &bytes, &boxed) {
        Some(message) => Ok(message),
        None => Err(Failure::Sealing),
    }
}

/// The hexadecimal text of two byte strings in a row is the text of the
/// first followed by the text of the second.
pub proof fn lemma_hex_append(front: Seq<u8>, back: Seq<u8>)
    ensures
        hex_text(front + back) == hex_text(front) + hex_text(back),
    decreases back.len(),
{
    if back.len() == 0 {
        assert(front + back =~= front);
        assert(hex_text(front) + hex_text(back) =~= hex_text(front));
    } else {
        lemma_hex_append(front, back.drop_last());
        assert((front + back).drop_last() =~= front + back.drop_last());
        assert(hex_text(front + back) =~= hex_text(front) + hex_text(back));
    }
}

/// An envelope whose cipher output opens to a message under a key and the
/// envelope's nonce unseals to that message.
pub proof fn lemma_sealed_opens(key: Seq<u8>, nonce: Seq<u8>, boxed: Seq<u8>, message: Seq<u8>)
    requires
        key.len() == KEY_LENGTH,
        nonce.len() == NONCE_LENGTH,
        opened_box(key, nonce, boxed) == Some(message),
    ensures
        unsealed(key, envelope_text(nonce, boxed)) == Ok::<Seq<u8>, FailureView>(message),
{
    let bytes = nonce + boxed;
    lemma_hex_round_trip(bytes);
    assert(bytes.subrange(0, NONCE_LENGTH as int) =~= nonce);
    assert(bytes.subrange(NONCE_LENGTH as int, bytes.len() as int) =~= boxed);
}

/// A text unseals to a message only where it is the envelope of a nonce and
/// a cipher output that the cipher opens to that message. Since an
/// envelope's text is decided by its bytes, a change anywhere in a sealed
/// text changes what the cipher is asked to authenticate, or leaves no
/// envelope at all.
pub proof fn lemma_unsealed_is_authentic(key: Seq<u8>, text: Seq<char>)
    requires
        unsealed(key, text) is Ok,
    ensures
        text == envelope_text(
            hex_bytes(text)->0.subrange(0, NONCE_LENGTH as int),
            hex_bytes(text)->0.subrange(NONCE_LENGTH as int, hex_bytes(text)->0.len() as int),
        ),
        opened_box(
            key,
            hex_bytes(text)->0.subrange(0, NONCE_LENGTH as int),
            hex_bytes(text)->0.subrange(NONCE_LENGTH as int, hex_bytes(text)->0.len() as int),
        ) == Some(unsealed(key, text)->Ok_0),
{
    let bytes = hex_bytes(text)->0;
    lemma_hex_canonical(text);
    assert(bytes.subrange(0, NONCE_LENGTH as int) + bytes.subrange(
        NONCE_LENGTH as int,
        bytes.len() as int,
    ) =~= bytes);
}

/// A changed text is opened only by a forgery: where a text differs from
/// the envelope of a nonce and a cipher output and still unseals under some
/// key, the cipher has authenticated, under that key, a nonce or an output
/// other than the envelope's.
pub proof fn lemma_changed_text_needs_forgery(
    key: Seq<u8>,
    nonce: Seq<u8>,
    boxed: Seq<u8>,
    changed: Seq<char>,
)
    requires
        nonce.len() == NONCE_LENGTH,
        changed != envelope_text(nonce, boxed),
        unsealed(key, changed) is Ok,
    ensures
        ({
            let bytes = hex_bytes(changed)->0;
            let other_nonce = bytes.subrange(0, NONCE_LENGTH as int);
            let other_boxed = bytes.subrange(NONCE_LENGTH as int, bytes.len() as int);
            &&& other_nonce != nonce || other_boxed != boxed
            &&& opened_box(key, other_nonce, other_boxed) is Some
        }),
{
    lemma_unsealed_is_authentic(key, changed);
}

} // verus!
