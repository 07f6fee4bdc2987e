//! Tests of what bitcoind says and of what is asked of it.
use ldk_sample::bitcoind_client::{
    broadcast_failed_message, broadcast_method, estimate_smartfee, list_confirmed_utxos,
    poll_for_fee_estimates, rpc_credentials, utxo_kind, ConfirmationTarget, FeeReplies, FeeTable,
    Urgency, UtxoKind, TAPROOT_WEIGHT,
};
use ldk_sample::convert::{
    as_bool_field, as_i64_field, as_str_field, as_u64_field, get_new_address, BlockchainInfo,
    FeeResponse, FundedTx, Json, JsonNumber, ListUnspentResponse, MempoolMinFeeResponse, NewAddress,
    RawTx, SignedTx,
};
use ldk_sample::events::funding::{
    funding_created, funding_funded, funding_signed, funding_submitted,
    handle_funding_generation_ready, script_has_version, Funding,
};
use ldk_sample::hex_utils::{hex_str, to_vec};
use ldk_sample::network::Network;

const KEY_HASH_ADDRESS: &str = "bc1qw508d6qejxtdg4y5r3zarvary0c5xw7kv8f3t4";
const TAPROOT_ADDRESS: &str = "bc1p0xlxvlhemja6c4dqv22uapctqupfhlxm9h8z3k2e72q4k9hcz7vqzk5jj0";
const OLD_ADDRESS: &str = "1A1zP1eP5QGefi2DMPTfTL5SLmv7DivfNa";
const TXID: &str = "4a5e1e4baab89f3a32518a88c31bc87f618f76673e2cc77ab2127b7afdeda33b";
const BLOCK: &str = "000000000019d6689c085ae165831e934ff763ae46a2a6c172b3f1b60a8ce26f";
const TRANSACTION: &str = "01000000010000000000000000000000000000000000000000000000000000000000000000ffffffff4d04ffff001d0104455468652054696d65732030332f4a616e2f32303039204368616e63656c6c6f72206f6e206272696e6b206f66207365636f6e64206261696c6f757420666f722062616e6b73ffffffff0100f2052a01000000434104678afdb0fe5548271967f1a67130b7105cd6a828e03909a67962e0ea1f61deb649f6bc3f4cef38c4f35504e51ec112de5c384df7ba0b8d578a4c702b6bf11d5fac00000000";

fn text(s: &str) -> Json {
    Json::Text(s.to_string())
}

fn number(n: i64) -> Json {
    Json::Number(JsonNumber {
        unsigned: if n >= 0 { Some(n as u64) } else { None },
        signed: Some(n),
        sat_per_kw: n.unsigned_abs() as u32,
        sats: if n >= 0 { Ok(n as u64) } else { Err("negative".to_string()) },
    })
}

fn object(entries: Vec<(&str, Json)>) -> Json {
    Json::Object(entries.into_iter().map(|(k, v)| (k.to_string(), v)).collect())
}

#[test]
fn fields_have_types() {
    let json = object(vec![("a", text("x")), ("b", number(-2)), ("c", Json::Bool(true))]);
    assert_eq!(as_str_field(&json, "a").unwrap(), "x");
    assert_eq!(as_i64_field(&json, "b"), Ok(-2));
    assert_eq!(as_bool_field(&json, "c"), Ok(true));
    assert_eq!(
        as_u64_field(&json, "b").unwrap_err(),
        "invalid or missing field `b` in bitcoind response: expected unsigned integer"
    );
    assert_eq!(
        as_str_field(&json, "d").unwrap_err(),
        "invalid or missing field `d` in bitcoind response: expected string"
    );
    assert!(as_bool_field(&Json::Null, "c").is_err());
    assert!(as_i64_field(&json, "a").is_err());
}

#[test]
fn transactions_are_read() {
    let json = object(vec![("changepos", number(-1)), ("hex", text("00"))]);
    let funded = FundedTx::from_json(&json).unwrap();
    assert_eq!((funded.changepos, funded.hex.as_str()), (-1, "00"));
    assert!(FundedTx::from_json(&object(vec![("hex", text("00"))]))
        .unwrap_err()
        .contains("`changepos`"));
    assert_eq!(RawTx::from_json(&text("0a")).unwrap().0, "0a");
    assert!(RawTx::from_json(&Json::Null)
        .unwrap_err()
        .ends_with("expected raw transaction hex string"));
    let json = object(vec![("complete", Json::Bool(false)), ("hex", text("00"))]);
    assert!(!SignedTx::from_json(&json).unwrap().complete);
    assert!(SignedTx::from_json(&object(vec![("hex", text("00"))])).is_err());
}

#[test]
fn feerates_are_read() {
    let r = FeeResponse::from_json(&object(vec![("feerate", number(5)), ("errors", Json::Null)]));
    assert_eq!((r.feerate_sat_per_kw, r.errored), (Some(5), false));
    let r = FeeResponse::from_json(&object(vec![("errors", Json::Array(vec![]))]));
    assert_eq!((r.feerate_sat_per_kw, r.errored), (None, true));
    let r = MempoolMinFeeResponse::from_json(&object(vec![("mempoolminfee", number(7))]));
    assert_eq!((r.feerate_sat_per_kw, r.errored), (Some(7), false));
}

#[test]
fn addresses_belong_to_networks() {
    let address = NewAddress::from_json(&text(KEY_HASH_ADDRESS)).unwrap();
    let paid = get_new_address(&address, Network::Bitcoin).unwrap();
    assert_eq!(hex_str(&paid.script), "0014751e76e8199196d454941c45d1b3a323f1433bd6");
    assert_eq!(
        paid.witness,
        Some((0, to_vec("751e76e8199196d454941c45d1b3a323f1433bd6").unwrap()))
    );
    assert!(get_new_address(&address, Network::Regtest)
        .unwrap_err()
        .starts_with("bitcoind returned address for wrong network: "));
    assert!(get_new_address(&NewAddress("x".to_string()), Network::Regtest)
        .unwrap_err()
        .starts_with("bitcoind returned invalid address x: "));
    assert!(NewAddress::from_json(&Json::Null).is_err());
}

#[test]
fn chain_info_is_read() {
    let info = |hash: &str| {
        object(vec![
            ("blocks", number(7)),
            ("bestblockhash", text(hash)),
            ("chain", text("main")),
        ])
    };
    let read = BlockchainInfo::from_json(&info(BLOCK)).unwrap();
    assert_eq!((read.latest_height, read.chain.as_str()), (7, "main"));
    let mut hash = read.latest_blockhash.bytes;
    hash.reverse();
    assert_eq!(hex_str(&hash), BLOCK);
    let same = BlockchainInfo::from_json(&info(&BLOCK.to_uppercase())).unwrap();
    assert_eq!(same.latest_blockhash, read.latest_blockhash);
    assert_eq!(
        BlockchainInfo::from_json(&info("00")).unwrap_err(),
        "invalid field `bestblockhash` in bitcoind response: failed to parse hex"
    );
    for bad in ["g".repeat(64), "\u{e9}".repeat(32)] {
        assert_eq!(
            BlockchainInfo::from_json(&info(&bad)).unwrap_err(),
            "invalid field `bestblockhash` in bitcoind response: failed to parse hex digit"
        );
    }
    assert_eq!(
        BlockchainInfo::from_json(&info(&"\u{e9}".repeat(64))).unwrap_err(),
        "invalid field `bestblockhash` in bitcoind response: failed to parse hex"
    );
}

fn utxo(address: &str, vout: i64, amount: i64) -> Json {
    object(vec![
        ("txid", text(TXID)),
        ("vout", number(vout)),
        ("amount", number(amount)),
        ("address", text(address)),
    ])
}

#[test]
fn outputs_of_the_wallet_are_read() {
    let list = Json::Array(vec![
        utxo(KEY_HASH_ADDRESS, 1, 10),
        utxo(OLD_ADDRESS, 2, 20),
        utxo(TAPROOT_ADDRESS, 0x1_0000_0003, 30),
    ]);
    let utxos = ListUnspentResponse::from_json(&list).unwrap().0;
    assert_eq!(utxos.len(), 3);
    let mut txid = utxos[0].txid.bytes;
    txid.reverse();
    assert_eq!(hex_str(&txid), TXID);
    assert_eq!(utxos[2].vout, 3);
    assert_eq!(utxo_kind(&utxos[0]), Some(UtxoKind::KeyHash));
    assert_eq!(utxo_kind(&utxos[1]), None);
    assert_eq!(utxo_kind(&utxos[2]), Some(UtxoKind::Taproot));
    let spendable = list_confirmed_utxos(&utxos);
    assert_eq!(spendable.len(), 2);
    assert_eq!((spendable[0].amount, spendable[0].kind), (10, UtxoKind::KeyHash));
    assert_eq!((spendable[1].amount, spendable[1].kind), (30, UtxoKind::Taproot));
    assert_eq!(
        hex_str(&spendable[1].program),
        "79be667ef9dcbbac55a06295ce870b07029bfcdb2dce28d959f2815b16f81798"
    );
    assert_eq!(TAPROOT_WEIGHT, 70);
}

#[test]
fn the_first_bad_output_is_named() {
    let bad = Json::Array(vec![utxo(KEY_HASH_ADDRESS, 1, -1), Json::Null]);
    assert_eq!(
        ListUnspentResponse::from_json(&bad).unwrap_err(),
        "invalid field `amount` in listunspent response: negative"
    );
    let bad = Json::Array(vec![utxo("nowhere", 1, 1)]);
    assert!(ListUnspentResponse::from_json(&bad)
        .unwrap_err()
        .starts_with("invalid field `address` in listunspent response: "));
    let bad = Json::Array(vec![object(vec![("txid", text("00"))])]);
    assert_eq!(
        ListUnspentResponse::from_json(&bad).unwrap_err(),
        "invalid field `txid` in listunspent response: failed to parse hex"
    );
    let bad = Json::Array(vec![object(vec![("txid", text(&"x".repeat(64)))])]);
    assert_eq!(
        ListUnspentResponse::from_json(&bad).unwrap_err(),
        "invalid field `txid` in listunspent response: failed to parse hex digit"
    );
    assert!(ListUnspentResponse::from_json(&Json::Null)
        .unwrap_err()
        .ends_with("expected array of UTXOs"));
}

#[test]
fn credentials_are_encoded() {
    assert_eq!(rpc_credentials("user", "password"), "dXNlcjpwYXNzd29yZA==");
}

#[test]
fn feerates_follow_the_answers() {
    let mut fees = FeeTable::new();
    assert_eq!(fees.get_est_sat_per_1000_weight(ConfirmationTarget::MaximumFeeEstimate), 50000);
    let said = poll_for_fee_estimates(
        &mut fees,
        &FeeReplies {
            mempool: Ok(Some(300)),
            background: Ok(Some(600)),
            normal: Ok(None),
            high: Ok(Some(1)),
            very_high: Err("down".to_string()),
        },
    );
    assert_eq!(said.len(), 1);
    assert_eq!(
        said[0].text,
        "Fee polling very-high-priority estimatesmartfee failed: down. Keeping previous value."
    );
    let rates = [
        (ConfirmationTarget::MaximumFeeEstimate, 50000),
        (ConfirmationTarget::UrgentOnChainSweep, 253),
        (ConfirmationTarget::MinAllowedAnchorChannelRemoteFee, 300),
        (ConfirmationTarget::MinAllowedNonAnchorChannelRemoteFee, 350),
        (ConfirmationTarget::AnchorChannelFee, 600),
        (ConfirmationTarget::NonAnchorChannelFee, 2000),
        (ConfirmationTarget::ChannelCloseMinimum, 600),
        (ConfirmationTarget::OutputSpendingFee, 600),
    ];
    for (target, rate) in rates {
        assert_eq!(fees.get_est_sat_per_1000_weight(target), rate);
    }
    let before = fees;
    let down = || Err("down".to_string());
    let said = poll_for_fee_estimates(
        &mut fees,
        &FeeReplies {
            mempool: down(),
            background: down(),
            normal: down(),
            high: down(),
            very_high: down(),
        },
    );
    assert_eq!(said.len(), 5);
    assert_eq!(fees, before);
    assert_eq!(Urgency::Background.request(), (144, "ECONOMICAL"));
    assert_eq!(Urgency::VeryHigh.request(), (2, "CONSERVATIVE"));
    assert_eq!(estimate_smartfee(&fees, Urgency::High, &Ok(None)).0, 5000);
}

#[test]
fn transactions_are_broadcast_alone_or_together() {
    assert_eq!(broadcast_method(1), "sendrawtransaction");
    assert_eq!(broadcast_method(2), "submitpackage");
    assert_eq!(broadcast_method(0), "submitpackage");
    let hex = vec!["00".to_string(), "01".to_string()];
    let text = broadcast_failed_message("no", &hex).text;
    assert!(text.ends_with(&format!(": no\nTransactions: {:?}", hex)));
}

#[test]
fn a_channel_is_funded_step_by_step() {
    let script =
        to_vec("00201863143c14c5166804bd19203356da136c985678cd4d27a1b8c6329604903262").unwrap();
    assert!(script_has_version(&script));
    match handle_funding_generation_ready(250_000, &script, Network::Bitcoin) {
        Funding::Create { address, amount_sat } => {
            assert_eq!(address, "bc1qrp33g0q5c5txsp9arysrx4k6zdkfs4nce4xj0gdcccefvpysxf3qccfmv3");
            assert_eq!(amount_sat, 250_000);
        },
        _ => panic!("no address"),
    }
    assert!(matches!(
        handle_funding_generation_ready(1, &[1, 2], Network::Regtest),
        Funding::Failed(_)
    ));
    assert!(!script_has_version(&[0x40, 2, 0, 0]));
    assert!(matches!(funding_created(Ok("00".to_string())), Funding::Fund { .. }));
    assert!(matches!(funding_funded(Ok("00".to_string())), Funding::Sign { .. }));
    match funding_signed(Ok((true, TRANSACTION.to_string()))) {
        Funding::Submit { transaction } => assert_eq!(hex_str(&transaction), TRANSACTION),
        _ => panic!("no transaction"),
    }
    let failures = [
        (funding_created(Err("e".to_string())), "failed to create raw funding transaction: e"),
        (funding_funded(Err("e".to_string())), "failed to fund raw transaction: e"),
        (funding_signed(Err("e".to_string())), "failed to sign funding transaction: e"),
        (
            funding_signed(Ok((false, TRANSACTION.to_string()))),
            "Wallet returned incomplete funding transaction signature",
        ),
        (
            funding_signed(Ok((true, "zz".to_string()))),
            "Failed to decode signed funding transaction hex",
        ),
    ];
    for (step, text) in failures {
        match step {
            Funding::Failed(m) => assert_eq!(m.text, text),
            _ => panic!("{} does not fail", text),
        }
    }
    match funding_signed(Ok((true, "00".to_string()))) {
        Funding::Failed(m) => assert!(m
            .text
            .starts_with("Failed to deserialize signed funding transaction: ")),
        _ => panic!("not a transaction"),
    }
    assert!(funding_submitted(true).is_none());
    assert!(funding_submitted(false).unwrap().text.starts_with("Channel went away"));
}
