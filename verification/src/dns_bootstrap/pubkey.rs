//! The public key in the name of a host.
use crate::dns_bootstrap::error::{DnsBootstrapError, DnsErrorView};
use crate::keys;
use crate::keys::PublicKey;
use crate::text;
use crate::text::{same, split};
use vstd::prelude::*;

verus! {

/// A node, by the compressed form of its public key.
#[derive(Clone, Copy, Debug, PartialEq, Eq)]
pub struct NodeId {
    /// The compressed form.
    pub bytes: [u8; 33],
}

impl NodeId {
    /// The node with a public key.
    pub fn from_pubkey(pubkey: &PublicKey) -> (r: NodeId)
        ensures
            r.bytes@ == pubkey@,
    {
        NodeId { bytes: pubkey.bytes }
    }
}

/// The human-readable part and the groups of five bits that a text encodes, or the error as text:
/// what `bech32::decode` makes of it.
pub uninterp spec fn bech32_of(text: Seq<char>) -> Result<(Seq<char>, Seq<u8>), Seq<char>>;

/// Calls `bech32::decode`. The result is the one that `bech32_of` names.
#[verifier::external_body]
pub(crate) fn bech32_decode(text: &str) -> (r: Result<(String, Vec<u8>), String>)
    ensures
        decoded_view(r) == bech32_of(text@),
{
    match bech32::decode(text) {
        Ok((hrp, data, _)) => Ok((hrp, data.into_iter().map(|group| group.to_u8()).collect())),
        Err(e) => Err(e.to_string()),
    }
}

/// What was decoded, with sequences in place of texts and groups.
pub open spec fn decoded_view(r: Result<(String, Vec<u8>), String>) -> Result<
    (Seq<char>, Seq<u8>),
    Seq<char>,
> {
    match r {
        Ok((hrp, data)) => Ok((hrp@, data@)),
        Err(e) => Err(e@),
    }
}

/// The bit at `i` in groups of `from` bits one after the other, each from its highest bit on. Past
/// the end all bits are 0.
pub open spec fn bit_at(data: Seq<u8>, from: nat, i: nat) -> nat {
    if i / from < data.len() {
        (data[(i / from) as int] as nat / vstd::arithmetic::power2::pow2(
            (from - 1 - i % from) as nat,
        )) % 2
    } else {
        0
    }
}

/// The number that `count` bits from `start` on stand for, the highest bit first.
pub open spec fn bits_at(data: Seq<u8>, from: nat, start: nat, count: nat) -> nat
    decreases count,
{
    if count == 0 {
        0
    } else {
        2 * bits_at(data, from, start, (count - 1) as nat) + bit_at(
            data,
            from,
            (start + count - 1) as nat,
        )
    }
}

/// The first number that is not below `limit`, if there is one.
pub open spec fn first_over(data: Seq<u8>, limit: nat) -> Option<u8>
    decreases data.len(),
{
    if data.len() == 0 {
        None
    } else if data[0] >= limit {
        Some(data[0])
    } else {
        first_over(data.skip(1), limit)
    }
}

/// Groups of `from` bits put together to groups of `to` bits, or the error as text. What is left at
/// the end becomes a group too if `pad` says so, and is else left out, but must then be zeros and
/// fewer than one of the given groups.
pub open spec fn regrouped(data: Seq<u8>, from: u32, to: u32, pad: bool) -> Result<
    Seq<u8>,
    Seq<char>,
> {
    let bits: nat = data.len() * from as nat;
    let whole: nat = bits / to as nat;
    let left: nat = bits % to as nat;
    match first_over(data, vstd::arithmetic::power2::pow2(from as nat)) {
        Some(v) => Err("invalid data point ("@ + text::decimal(v as nat) + ")"@),
        None => if !pad && (left >= from || bits_at(data, from as nat, whole * to as nat, left)
            != 0) {
            Err("invalid padding"@)
        } else {
            let groups: nat = if pad && left > 0 {
                whole + 1
            } else {
                whole
            };
            Ok(
                Seq::new(
                    groups,
                    |j: int| bits_at(data, from as nat, (j * to) as nat, to as nat) as u8,
                ),
            )
        },
    }
}

/// Calls `bech32::convert_bits` and, on the error, `to_string`. The result is what `regrouped` says
/// of the groups.
#[verifier::external_body]
pub(crate) fn convert_bits(data: &[u8], from: u32, to: u32, pad: bool) -> (r: Result<
    Vec<u8>,
    String,
>)
    requires
        1 <= from <= 8,
        1 <= to <= 8,
    ensures
        bytes_view(r) == regrouped(data@, from, to, pad),
{
    match bech32::convert_bits(data, from, to, pad) {
        Ok(bytes) => Ok(bytes),
        Err(e) => Err(e.to_string()),
    }
}

/// Bytes or an error, with sequences in place of vectors and texts.
pub open spec fn bytes_view(r: Result<Vec<u8>, String>) -> Result<Seq<u8>, Seq<char>> {
    match r {
        Ok(b) => Ok(b@),
        Err(e) => Err(e@),
    }
}

/// How many bytes a label encodes: those of the compressed form of a key.
pub const KEY_LEN: usize = 33;

/// The public key that a host name holds, or why it holds none. `decoded` is what its first label
/// encodes, `bytes` are the groups of that put together, and `key` is the key that they encode. Only
/// the compressed form of a key is taken.
pub open spec fn hostname_key_from(
    hostname: Seq<char>,
    decoded: Result<(Seq<char>, Seq<u8>), Seq<char>>,
    bytes: Result<Seq<u8>, Seq<char>>,
    key: Option<Seq<u8>>,
) -> Result<Seq<u8>, DnsErrorView> {
    if text::split_of(hostname, '.')[0].len() == 0 {
        Err(DnsErrorView::InvalidBech32NodeId { hostname, reason: "empty first label"@ })
    } else {
        match decoded {
            Err(e) => Err(
                DnsErrorView::InvalidBech32NodeId {
                    hostname,
                    reason: "bech32 decode failed: "@ + e,
                },
            ),
            Ok((hrp, _)) => if hrp != "ln"@ {
                Err(
                    DnsErrorView::InvalidBech32NodeId {
                        hostname,
                        reason: "expected HRP 'ln', got '"@ + hrp + "'"@,
                    },
                )
            } else {
                match bytes {
                    Err(e) => Err(
                        DnsErrorView::InvalidBech32NodeId {
                            hostname,
                            reason: "bit conversion failed: "@ + e,
                        },
                    ),
                    Ok(b) => match key {
                        Some(k) if b.len() == KEY_LEN => Ok(k),
                        _ => Err(
                            DnsErrorView::InvalidPublicKey {
                                reason: "secp256k1 parse failed: malformed public key"@,
                            },
                        ),
                    },
                }
            },
        }
    }
}

/// The public key that a host name holds, or why it holds none: its first label encodes the
/// compressed form of the key, with the human-readable part `ln`.
pub open spec fn hostname_key(hostname: Seq<char>) -> Result<Seq<u8>, DnsErrorView> {
    let decoded = bech32_of(text::split_of(hostname, '.')[0]);
    let bytes = regrouped((decoded->Ok_0).1, 5, 8, false);
    hostname_key_from(hostname, decoded, bytes, keys::parsed_key(bytes->Ok_0))
}

/// A key or an error, with sequences in place of bytes and texts.
pub open spec fn key_view(r: Result<(PublicKey, NodeId), DnsBootstrapError>) -> Result<
    Seq<u8>,
    DnsErrorView,
> {
    match r {
        Ok((k, _)) => Ok(k@),
        Err(e) => Err(e@),
    }
}

fn bad_label(hostname: &str, what: &str, e: &str) -> (r: DnsBootstrapError)
    ensures
        r@ == (DnsErrorView::InvalidBech32NodeId { hostname: hostname@, reason: what@ + e@ }),
{
    let mut reason = what.to_owned();
    reason.append(e);
    DnsBootstrapError::InvalidBech32NodeId { hostname: hostname.to_owned(), reason }
}

/// The public key that a host name holds, where its first label encodes `decoded`, `bytes` are the
/// groups of that put together, and `key` is the key that they encode.
pub fn key_from_parts(
    hostname: &str,
    decoded: &Result<(String, Vec<u8>), String>,
    bytes: &Result<Vec<u8>, String>,
    key: Option<PublicKey>,
) -> (r: Result<(PublicKey, NodeId), DnsBootstrapError>)
    ensures
        key_view(r) == hostname_key_from(
            hostname@,
            decoded_view(*decoded),
            bytes_view(*bytes),
            match key {
                Some(k) => Some(k@),
                None => None,
            },
        ),
        r matches Ok((k, id)) ==> id.bytes@ == k@,
{
    let labels = split(hostname, '.');
    assert(text::texts(labels@)[0] == labels@[0]@);
    if labels[0].is_empty() {
        return Err(
            DnsBootstrapError::InvalidBech32NodeId {
                hostname: hostname.to_owned(),
                reason: "empty first label".to_owned(),
            },
        );
    }
    match decoded {
        Err(e) => Err(bad_label(hostname, "bech32 decode failed: ", e.as_str())),
        Ok((hrp, _)) => {
            if !same(hrp.as_str(), "ln") {
                let mut reason = "expected HRP 'ln', got '".to_owned();
                reason.append(hrp.as_str());
                reason.append("'");
                return Err(
                    DnsBootstrapError::InvalidBech32NodeId { hostname: hostname.to_owned(), reason },
                );
            }
            match bytes {
                Err(e) => Err(bad_label(hostname, "bit conversion failed: ", e.as_str())),
                Ok(b) => match key {
                    Some(k) if b.len() == KEY_LEN => Ok((k, NodeId::from_pubkey(&k))),
                    _ => Err(
                        DnsBootstrapError::InvalidPublicKey {
                            reason: "secp256k1 parse failed: malformed public key".to_owned(),
                        },
                    ),
                },
            }
        },
    }
}

/// The public key in the name of a host, such as
/// `ln1qwktpe6jxltmpphyl578eax6fcjc2m807qalr76a5gfmx7k9qqfjwy4mctz.nodes.lightning.wiki.`
pub fn decode_pubkey_from_hostname(hostname: &str) -> (r: Result<
    (PublicKey, NodeId),
    DnsBootstrapError,
>)
    ensures
        key_view(r) == hostname_key(hostname@),
        r matches Ok((k, id)) ==> id.bytes@ == k@,
{
    let labels = split(hostname, '.');
    assert(text::texts(labels@)[0] == labels@[0]@);
    let decoded = bech32_decode(labels[0]);
    let (bytes, key) = match &decoded {
        Ok((_, data)) => {
            let bytes = convert_bits(data.as_slice(), 5, 8, false);
            let key = match &bytes {
                Ok(b) => PublicKey::from_slice(b.as_slice()),
                Err(_) => None,
            };
            (bytes, key)
        },
        Err(_) => (Ok(Vec::new()), None),
    };
    key_from_parts(hostname, &decoded, &bytes, key)
}

/// A host name holds a key exactly if its first label is not empty and encodes, with the human-readable
/// part `ln`, 33 bytes that are a key; it is then that key.
pub proof fn law_host_names_hold_compressed_keys(
    hostname: Seq<char>,
    decoded: Result<(Seq<char>, Seq<u8>), Seq<char>>,
    bytes: Result<Seq<u8>, Seq<char>>,
    key: Option<Seq<u8>>,
)
    ensures
        hostname_key_from(hostname, decoded, bytes, key) is Ok <==> {
            &&& text::split_of(hostname, '.')[0].len() > 0
            &&& decoded matches Ok((hrp, _))
            &&& hrp == "ln"@
            &&& bytes matches Ok(b)
            &&& b.len() == 33
            &&& key is Some
        },
        hostname_key_from(hostname, decoded, bytes, key) matches Ok(k) ==> key == Some(k),
        hostname_key_from(hostname, decoded, bytes, key) matches Err(e) ==> (e is InvalidPublicKey
            <==> text::split_of(hostname, '.')[0].len() > 0 && bytes is Ok && (decoded matches Ok(
            (hrp, _),
        ) && hrp == "ln"@)),
{
}

/// Only the first label of a host name says what key it holds: what comes after the first dot has no
/// bearing on it.
pub proof fn law_first_label_holds_the_key(a: Seq<char>, b: Seq<char>, k: Seq<u8>)
    requires
        text::split_of(a, '.')[0] == text::split_of(b, '.')[0],
    ensures
        hostname_key(a) == Ok::<Seq<u8>, DnsErrorView>(k) ==> hostname_key(b) == Ok::<
            Seq<u8>,
            DnsErrorView,
        >(k),
{
}

} // verus!
