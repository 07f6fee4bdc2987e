//! Who is probed, and why a probe cannot be sent.
use crate::hex_utils;
use crate::hex_utils::to_vec;
use crate::keys;
use crate::keys::PublicKey;
use vstd::prelude::*;

verus! {

/// The delay of the last hop of a probe, in blocks.
pub const PROBE_FINAL_CLTV_DELTA: u32 = 144;

/// How many paths a probe may take.
pub const MAX_PROBE_PATHS: u8 = 1;

/// Why a probe was not sent.
#[derive(Debug)]
pub enum ProbeError {
    /// There is no route to the destination.
    NoRoute(String),
    /// The probe could not be sent along its route.
    SendFailed(String),
    /// The probe makes no sense.
    InvalidInput(String),
}

/// The reason, with its text as a sequence of characters.
pub enum ProbeErrorView {
    NoRoute(Seq<char>),
    SendFailed(Seq<char>),
    InvalidInput(Seq<char>),
}

impl View for ProbeError {
    type V = ProbeErrorView;

    open spec fn view(&self) -> ProbeErrorView {
        match self {
            ProbeError::NoRoute(m) => ProbeErrorView::NoRoute(m@),
            ProbeError::SendFailed(m) => ProbeErrorView::SendFailed(m@),
            ProbeError::InvalidInput(m) => ProbeErrorView::InvalidInput(m@),
        }
    }
}

impl ProbeError {
    /// The reason as text.
    pub fn to_text(&self) -> (r: String)
        ensures
            r@ == (match self@ {
                ProbeErrorView::NoRoute(m) => m,
                ProbeErrorView::SendFailed(m) => "probe send failed: "@ + m,
                ProbeErrorView::InvalidInput(m) => m,
            }),
    {
        match self {
            ProbeError::NoRoute(m) => m.clone(),
            ProbeError::SendFailed(m) => {
                let mut r = "probe send failed: ".to_owned();
                r.append(m.as_str());
                r
            },
            ProbeError::InvalidInput(m) => m.clone(),
        }
    }
}

/// The key to probe, or why there is none: the amount must be positive and the text a public key in
/// hexadecimal. `parsed` is the key that the bytes of the text encode.
pub open spec fn probe_target(
    pub_key_hex: Seq<char>,
    probe_amount: u64,
    parsed: Option<Seq<u8>>,
) -> Result<Seq<u8>, ProbeErrorView> {
    if probe_amount == 0 {
        Err(ProbeErrorView::InvalidInput("probe amount must be greater than 0"@))
    } else if hex_utils::hex_bytes(pub_key_hex) is None {
        Err(ProbeErrorView::InvalidInput("invalid peer pubkey hex"@))
    } else {
        match parsed {
            Some(k) => Ok(k),
            None => Err(ProbeErrorView::InvalidInput("invalid peer pubkey"@)),
        }
    }
}

/// The same with sequences in place of the key and the texts.
pub open spec fn target_view(r: Result<PublicKey, ProbeError>) -> Result<Seq<u8>, ProbeErrorView> {
    match r {
        Ok(k) => Ok(k@),
        Err(e) => Err(e@),
    }
}

/// The key to probe, where the text held a public key or did not.
pub fn parsed_target(parsed: Option<PublicKey>) -> (r: Result<PublicKey, ProbeError>)
    ensures
        match parsed {
            Some(k) => r == Ok::<PublicKey, ProbeError>(k),
            None => target_view(r) == Err::<Seq<u8>, ProbeErrorView>(
                ProbeErrorView::InvalidInput("invalid peer pubkey"@),
            ),
        },
{
    match parsed {
        Some(k) => Ok(k),
        None => Err(ProbeError::InvalidInput("invalid peer pubkey".to_owned())),
    }
}

/// The key to probe with `probe_amount`, given in hexadecimal.
pub fn prepare_probe(pub_key_hex: &str, probe_amount: u64) -> (r: Result<PublicKey, ProbeError>)
    ensures
        target_view(r) == probe_target(
            pub_key_hex@,
            probe_amount,
            keys::parsed_key(hex_utils::hex_bytes(pub_key_hex@)->0),
        ),
{
    if probe_amount == 0 {
        return Err(ProbeError::InvalidInput("probe amount must be greater than 0".to_owned()));
    }
    match to_vec(pub_key_hex) {
        Some(bytes) => parsed_target(PublicKey::from_slice(bytes.as_slice())),
        None => Err(ProbeError::InvalidInput("invalid peer pubkey hex".to_owned())),
    }
}

/// A probe is prepared exactly for a positive amount and a text that is the hexadecimal form of a key; it
/// then goes to that key. Every refusal says that the input is invalid.
pub proof fn law_probes_go_to_the_key(text: Seq<char>, amount: u64, parsed: Option<Seq<u8>>)
    ensures
        probe_target(text, amount, parsed) is Ok <==> amount > 0 && hex_utils::all_hex(text)
            && parsed is Some,
        probe_target(text, amount, parsed) matches Ok(k) ==> parsed == Some(k),
        probe_target(text, amount, parsed) matches Err(e) ==> e is InvalidInput,
{
}

} // verus!
