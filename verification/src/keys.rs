//! Node public keys.
use crate::hex_utils;
use crate::hex_utils::hex_str;
use std::str::FromStr;
use vstd::prelude::*;

verus! {

/// A public key of the curve secp256k1, as the 33 bytes of its compressed form.
#[derive(Clone, Copy, Debug, PartialEq, Eq)]
pub struct PublicKey {
    /// The compressed form.
    pub bytes: [u8; 33],
}

/// The compressed form of the key that `bytes` encode, if they encode one: what
/// `bitcoin::secp256k1::PublicKey::from_slice` makes of them.
pub uninterp spec fn parsed_key(bytes: Seq<u8>) -> Option<Seq<u8>>;

/// Calls `bitcoin::secp256k1::PublicKey::from_slice` and, on the key, `serialize`. The result is
/// the one that `parsed_key` names. Only 33 or 65 bytes encode a key, and 33 bytes that encode one
/// are its compressed form.
#[verifier::external_body]
fn parse_key(bytes: &[u8]) -> (r: Option<[u8; 33]>)
    ensures
        match r {
            Some(k) => parsed_key(bytes@) == Some(k@),
            None => parsed_key(bytes@) is None,
        },
        r is Some ==> bytes@.len() == 33 || bytes@.len() == 65,
        r matches Some(k) ==> bytes@.len() == 33 ==> k@ == bytes@,
{
    match bitcoin::secp256k1::PublicKey::from_slice(bytes) {
        Ok(key) => Some(key.serialize()),
        Err(_) => None,
    }
}

/// The compressed form of the key that a text stands for, or the message of the error. The text is
/// the hexadecimal form of 33 or 65 bytes that encode a key.
pub open spec fn key_of_text(text: Seq<char>) -> Result<Seq<u8>, Seq<char>> {
    let key = if hex_utils::all_hex(text) && (text.len() == 66 || text.len() == 130) {
        parsed_key(hex_utils::pairs(text))
    } else {
        None
    };
    match key {
        Some(k) => Ok(k),
        None => Err("malformed public key"@),
    }
}

/// Calls `bitcoin::secp256k1::PublicKey::from_str` and, on the key, `serialize`, or on the error,
/// `to_string`. The result is what `key_of_text` says of the text: the function reads the digits of
/// 33 or 65 bytes and goes on as `bitcoin::secp256k1::PublicKey::from_slice`, and has one error.
#[verifier::external_body]
fn parse_key_text(text: &str) -> (r: Result<[u8; 33], String>)
    ensures
        match r {
            Ok(k) => key_of_text(text@) == Ok::<Seq<u8>, Seq<char>>(k@),
            Err(e) => key_of_text(text@) == Err::<Seq<u8>, Seq<char>>(e@),
        },
{
    match bitcoin::secp256k1::PublicKey::from_str(text) {
        Ok(key) => Ok(key.serialize()),
        Err(e) => Err(e.to_string()),
    }
}

/// Whether two compressed forms are the same.
pub fn same_form(a: &[u8; 33], b: &[u8; 33]) -> (r: bool)
    ensures
        r == (a@ == b@),
{
    let mut i: usize = 0;
    while i < 33
        invariant
            i <= 33,
            forall|j: int| 0 <= j < i ==> a@[j] == b@[j],
        decreases 33 - i,
    {
        if a[i] != b[i] {
            assert(a@[i as int] != b@[i as int]);
            return false;
        }
        i = i + 1;
    }
    assert(a@ =~= b@);
    true
}

/// Whether two keys are the same.
pub fn same_key(a: &PublicKey, b: &PublicKey) -> (r: bool)
    ensures
        r == (*a == *b),
{
    let r = same_form(&a.bytes, &b.bytes);
    if r {
        assert(a.bytes =~= b.bytes);
    }
    r
}

/// Whether a key is one of `keys`.
pub fn is_among(key: &PublicKey, keys: &Vec<PublicKey>) -> (r: bool)
    ensures
        r == keys@.contains(*key),
{
    let n: usize = keys.len();
    let mut i: usize = 0;
    while i < n
        invariant
            n == keys@.len(),
            i <= n,
            forall|j: int| 0 <= j < i ==> #[trigger] keys@[j] != *key,
        decreases n - i,
    {
        if same_key(&keys[i], key) {
            return true;
        }
        i = i + 1;
    }
    false
}

impl View for PublicKey {
    type V = Seq<u8>;

    open spec fn view(&self) -> Seq<u8> {
        self.bytes@
    }
}

impl PublicKey {
    /// The key that `bytes` encode, in the compressed form of 33 bytes or the uncompressed form of
    /// 65 bytes.
    pub fn from_slice(bytes: &[u8]) -> (r: Option<PublicKey>)
        ensures
            match r {
                Some(k) => parsed_key(bytes@) == Some(k@),
                None => parsed_key(bytes@) is None,
            },
            r is Some ==> bytes@.len() == 33 || bytes@.len() == 65,
            r matches Some(k) ==> bytes@.len() == 33 ==> k@ == bytes@,
    {
        match parse_key(bytes) {
            Some(bytes) => Some(PublicKey { bytes }),
            None => None,
        }
    }

    /// The key that a hexadecimal text stands for, or the message of the error.
    pub fn from_text(text: &str) -> (r: Result<PublicKey, String>)
        ensures
            match r {
                Ok(k) => key_of_text(text@) == Ok::<Seq<u8>, Seq<char>>(k@),
                Err(e) => key_of_text(text@) == Err::<Seq<u8>, Seq<char>>(e@),
            },
    {
        match parse_key_text(text) {
            Ok(bytes) => Ok(PublicKey { bytes }),
            Err(e) => Err(e),
        }
    }

    /// The compressed form as hexadecimal text.
    pub fn to_text(&self) -> (r: String)
        ensures
            r@ == hex_utils::hex_of(self@),
    {
        hex_str(self.bytes.as_slice())
    }
}

/// A key is read from its own text: 33 or 65 bytes that encode a key are read as that key from their
/// hexadecimal form, and nothing else is.
pub proof fn law_keys_are_read_from_their_text(b: Seq<u8>, s: Seq<char>)
    ensures
        b.len() == 33 || b.len() == 65 ==> match parsed_key(b) {
            Some(k) => key_of_text(hex_utils::hex_of(b)) == Ok::<Seq<u8>, Seq<char>>(k),
            None => key_of_text(hex_utils::hex_of(b)) is Err,
        },
        b.len() != 33 && b.len() != 65 ==> key_of_text(hex_utils::hex_of(b)) is Err,
        key_of_text(s) is Ok ==> hex_utils::all_hex(s) && (s.len() == 66 || s.len() == 130),
{
    hex_utils::law_hex_round_trip(b);
}

} // verus!
