//! Tests of commands on peers.
use ldk_sample::cli::commands::peer::{parse_peer_info, peer_address};
use ldk_sample::cli::error::CliError;
use ldk_sample::keys::PublicKey;

/// Every address is found, and is held as its text.
fn parse(peer: &str) -> Result<(PublicKey, &str), CliError> {
    parse_peer_info(peer, peer_address(peer))
}

#[test]
fn parse_peer_info_accepts_valid_pubkey_and_socket() {
    let input =
        "02e89ca9e8da72b33d896bae51d20e7e1f0571cece852d1387b4e2f4ae48c80a85@127.0.0.1:9735";
    let parsed = parse(input);
    assert!(parsed.is_ok());
}

#[test]
fn parse_peer_info_rejects_missing_separator() {
    let input = "02e89ca9e8da72b33d896bae51d20e7e1f0571cece852d1387b4e2f4ae48c80a85";
    assert!(matches!(parse(input), Err(CliError::InvalidPeerInfoFormat)));
}

#[test]
fn parse_peer_info_rejects_invalid_pubkey() {
    let input = "zzzz@127.0.0.1:9735";
    assert!(matches!(parse(input), Err(CliError::InvalidPubkey)));
}
