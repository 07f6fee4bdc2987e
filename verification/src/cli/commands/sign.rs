//! `signmessage`.
use crate::logging;
use crate::logging::{print_line, Message, MessageView};
use crate::table::Bytes32;
use bitcoin::secp256k1::SecretKey;
use vstd::prelude::*;

verus! {

/// The signature of a message with a secret key, if the bytes are a secret key: what
/// `lightning::util::message_signing::sign` gives.
pub uninterp spec fn signature_of(message: Seq<u8>, secret: Seq<u8>) -> Option<Seq<char>>;

/// Calls `bitcoin::secp256k1::SecretKey::from_slice` and, with the key,
/// `lightning::util::message_signing::sign`. The result is the one that `signature_of` names; bytes
/// that are no key give none.
#[verifier::external_body]
fn sign(message: &[u8], secret: &Bytes32) -> (r: Option<String>)
    ensures
        match r {
            Some(s) => signature_of(message@, secret@) == Some(s@),
            None => signature_of(message@, secret@) is None,
        },
{
    match SecretKey::from_slice(secret) {
        Ok(key) => Some(lightning::util::message_signing::sign(message, &key)),
        Err(_) => None,
    }
}

/// How a signature is shown: in quotes.
pub open spec fn signature_shown(signature: Seq<char>) -> MessageView {
    logging::print("\""@ + signature + "\""@)
}

/// Shows a signature.
pub fn signature_message(signature: &str) -> (r: Message)
    ensures
        r@ == signature_shown(signature@),
{
    let mut t = "\"".to_owned();
    t.append(signature);
    t.append("\"");
    print_line(t)
}

/// Signs a message with a secret key and shows the signature. Bytes that are no key give none.
pub fn sign_message(message: &[u8], secret: &Bytes32) -> (r: Option<Message>)
    ensures
        match signature_of(message@, secret@) {
            Some(s) => r matches Some(m) && m@ == signature_shown(s),
            None => r is None,
        },
{
    match sign(message, secret) {
        Some(s) => Some(signature_message(s.as_str())),
        None => None,
    }
}

} // verus!
