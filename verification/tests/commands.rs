//! Tests of the commands.
use ldk_sample::cli::commands::channel::{
    begin_opening, channel_request, close_channel_message, open_channel_message, peer_connected,
    peer_looked_up, unaddressed_peer_message, Opening,
};
use ldk_sample::cli::commands::payment::{
    advance_sending, begin_sending, choose_resolvers, confirm_prompt, get_invoice, invoice_choice,
    keysend_payment_id, name_choice, offer_amount, offer_choice, read_answer, read_payable, Answer,
    CreatedInvoice, OfferAmount, Payable, PaymentChoice, ResolverCandidate, SendKind, SendStep,
};
use ldk_sample::cli::commands::peer::{connected_message, disconnected_message, do_disconnect_peer};
use ldk_sample::cli::commands::sign::sign_message;
use ldk_sample::cli::display::{
    help, list_channels, list_claimable_balances, list_payments, list_peers, list_sweeper_outputs,
    node_info, BalanceInfo, BalanceKind, ChannelInfo, DescriptorKind, OutputInfo, SpendStatus,
};
use ldk_sample::cli::error::CliError;
use ldk_sample::cli::parse::{parse_command, Command};
use ldk_sample::hex_utils::hex_str;
use ldk_sample::keys::PublicKey;
use ldk_sample::logging::Level;
use ldk_sample::net::peer::ConnectError;
use ldk_sample::state::{HTLCStatus, InboundPaymentInfoStorage, OutboundPaymentInfoStorage};
use lightning::offers::offer::OfferBuilder;
use lightning_invoice::Bolt11Invoice;
use std::str::FromStr;

const KEY: &str = "02e89ca9e8da72b33d896bae51d20e7e1f0571cece852d1387b4e2f4ae48c80a85";
const ID: &str = "0101010101010101010101010101010101010101010101010101010101010101";
const INVOICE: &str = "lnbc100p1psj9jhxdqud3jxktt5w46x7unfv9kz6mn0v3jsnp4q0d3p2sfluzdx45tqcsh2pu5qc7lgq0xs578ngs6s0s68ua4h7cvspp5q6rmq35js88zp5dvwrv9m459tnk2zunwj5jalqtyxqulh0l5gflssp5nf55ny5gcrfl30xuhzj3nphgj27rstekmr9fw3ny5989s300gyus9qyysgqcqpcrzjqw2sxwe993h5pcm4dxzpvttgza8zhkqxpgffcrf5v25nwpr3cmfg7z54kuqq8rgqqqqqqqq2qqqqq9qq9qrzjqd0ylaqclj9424x9m8h2vcukcgnm6s56xfgu3j78zyqzhgs4hlpzvznlugqq9vsqqqqqqqlgqqqqqeqq9qrzjqwldmj9dha74df76zhx6l9we0vjdquygcdt3kssupehe64g6yyp5yz5rhuqqwccqqyqqqqlgqqqqjcqq9qrzjqf9e58aguqr0rcun0ajlvmzq3ek63cw2w282gv3z5uupmuwvgjtq2z55qsqqg6qqqyqqqrtnqqqzq3cqygrzjqvphmsywntrrhqjcraumvc4y6r8v4z5v593trte429v4hredj7ms5z52usqq9ngqqqqqqqlgqqqqqqgq9qrzjq2v0vp62g49p7569ev48cmulecsxe59lvaw3wlxm7r982zxa9zzj7z5l0cqqxusqqyqqqqlgqqqqqzsqygarl9fh38s0gyuxjjgux34w75dnc6xp2l35j7es3jd4ugt3lu0xzre26yg5m7ke54n2d5sym4xcmxtl8238xxvw5h5h5j5r6drg6k6zcqj0fcwg";

fn key() -> PublicKey {
    PublicKey::from_text(KEY).unwrap()
}

fn rejection(line: &str) -> String {
    match parse_command(line) {
        Command::Rejected(m) => m.text,
        _ => panic!("{} is accepted", line),
    }
}

fn refusal(choice: PaymentChoice) -> String {
    match choice {
        PaymentChoice::Reject(m) => m.text,
        _ => panic!("the payment is made"),
    }
}

#[test]
fn simple_commands_are_known_by_their_word() {
    assert!(matches!(parse_command("  "), Command::Empty));
    assert!(matches!(parse_command(" help me"), Command::Help));
    assert!(matches!(parse_command("quit"), Command::Quit));
    assert!(matches!(parse_command("exit"), Command::Quit));
    assert!(matches!(parse_command("nodeinfo"), Command::NodeInfo));
    assert!(matches!(parse_command("listpeers"), Command::ListPeers));
    assert!(matches!(parse_command("listchannels"), Command::ListChannels));
    assert!(matches!(parse_command("listpayments"), Command::ListPayments));
    assert!(matches!(parse_command("listclaimablebalances"), Command::ListClaimableBalances));
    assert!(matches!(parse_command("listsweeperoutputs"), Command::ListSweeperOutputs));
    assert_eq!(rejection("Help"), "Unknown command. See `\"help\" for available commands.");
}

#[test]
fn open_channel_takes_a_peer_and_an_amount() {
    match parse_command(&format!("openchannel {}@localhost:9735 5000 --public x", KEY)) {
        Command::OpenChannel { pubkey, peer, addressed, amount, flags } => {
            assert_eq!(pubkey, key());
            assert_eq!(peer, format!("{}@localhost:9735", KEY));
            assert!(addressed);
            assert_eq!(amount, "5000");
            assert_eq!(flags, vec!["--public".to_string(), "x".to_string()]);
        },
        _ => panic!("no channel"),
    }
    assert!(matches!(
        parse_command(&format!("openchannel {} 5000", KEY)),
        Command::OpenChannel { addressed: false, .. }
    ));
    assert_eq!(rejection("openchannel zz 1"), "unable to parse given pubkey for node");
    assert!(rejection("openchannel zz").starts_with("openchannel has 2 required arguments"));
}

#[test]
fn channel_flags_are_read_from_left_to_right() {
    let flags = |words: &[&str]| words.iter().map(|w| w.to_string()).collect::<Vec<_>>();
    let r = channel_request("10", &flags(&["--public", "--with-anchors=true"])).unwrap();
    assert_eq!((r.amount_sat, r.announce, r.with_anchors, r.complaints.len()), (10, true, true, 0));
    let r = channel_request("10", &flags(&["--public", "oops", "--public=false"])).unwrap();
    assert_eq!((r.announce, r.with_anchors), (false, false));
    assert_eq!(r.complaints.len(), 1);
    assert!(r.complaints[0].text.starts_with("invalid boolean flag format."));
    assert_eq!(
        channel_request("ten", &vec![]).err().unwrap().text,
        "channel amount must be a number"
    );
    assert_eq!(
        unaddressed_peer_message().text,
        "ERROR: Peer address not provided and peer is not connected"
    );
    assert_eq!(
        open_channel_message(&key(), Ok(())).text,
        format!("EVENT: initiated channel with peer {}. ", KEY)
    );
    assert_eq!(
        open_channel_message(&key(), Err("no".to_string())).text,
        "failed to open channel: no"
    );
    assert_eq!(close_channel_message(false, Ok(())).text, "EVENT: initiating channel close");
    assert_eq!(
        close_channel_message(true, Err("e".to_string())).text,
        "failed to force-close channel: e"
    );
}

#[test]
fn payments_need_an_argument() {
    assert!(matches!(
        parse_command("sendpayment lnbc"),
        Command::SendPayment { amount_msat: None, .. }
    ));
    assert!(matches!(
        parse_command("sendpayment lnbc 7"),
        Command::SendPayment { amount_msat: Some(7), .. }
    ));
    assert_eq!(
        rejection("sendpayment lnbc 7x"),
        "couldn't parse amount_msat: invalid digit found in string"
    );
    assert!(rejection("sendpayment").starts_with("sendpayment requires an invoice"));
    match parse_command(&format!("keysend {} 12", KEY)) {
        Command::Keysend { dest, amt_msat } => assert_eq!((dest, amt_msat), (key(), 12)),
        _ => panic!("no payment"),
    }
    assert!(rejection("keysend").starts_with("keysend requires a destination pubkey"));
    assert_eq!(rejection("keysend 02 1"), "couldn't parse destination pubkey");
    assert!(rejection(&format!("keysend {}", KEY)).starts_with("keysend requires an amount"));
    assert!(matches!(
        parse_command("getinvoice 5 3600"),
        Command::GetInvoice { amt_msat: 5, expiry_secs: 3600 }
    ));
    assert_eq!(rejection("getinvoice"), "getinvoice requires an amount in millisatoshis");
    assert_eq!(
        rejection("getinvoice x"),
        "getinvoice provided payment amount was not a number"
    );
    assert_eq!(rejection("getinvoice 5"), "getinvoice requires an expiry in seconds");
    assert_eq!(
        rejection("getinvoice 5 4294967296"),
        "getinvoice provided expiry was not a number"
    );
    assert!(matches!(parse_command("getoffer"), Command::GetOffer { amount: None }));
    assert!(matches!(parse_command("getoffer x"), Command::GetOffer { amount: Some(_) }));
}

#[test]
fn peers_and_channels_are_named() {
    assert!(matches!(parse_command("connectpeer x"), Command::ConnectPeer { .. }));
    assert!(rejection("connectpeer").starts_with("connectpeer requires peer connection info"));
    assert!(matches!(
        parse_command(&format!("disconnectpeer {}", KEY)),
        Command::DisconnectPeer { .. }
    ));
    let expected = bitcoin::secp256k1::PublicKey::from_str("02").unwrap_err().to_string();
    assert_eq!(rejection("disconnectpeer 02"), expected);
    assert!(rejection("disconnectpeer").starts_with("disconnectpeer requires peer public key"));
    match parse_command(&format!("closechannel {} {}", ID, KEY)) {
        Command::CloseChannel { channel_id, peer } => {
            assert_eq!((channel_id, peer), ([1; 32], key()))
        },
        _ => panic!("nothing is closed"),
    }
    assert!(matches!(
        parse_command(&format!("forceclosechannel {} {}", ID, KEY)),
        Command::ForceCloseChannel { .. }
    ));
    assert!(rejection("closechannel").starts_with("closechannel requires a channel ID"));
    assert_eq!(rejection("closechannel 01"), "couldn't parse channel_id");
    assert!(rejection(&format!("forceclosechannel {}", ID))
        .starts_with("forceclosechannel requires a peer pubkey"));
    assert_eq!(rejection(&format!("closechannel {} zz", ID)), "couldn't parse peer_pubkey");
    assert_eq!(rejection(&format!("closechannel {} 02", ID)), "couldn't parse peer_pubkey");
}

#[test]
fn messages_are_signed_as_they_are_written() {
    match parse_command("  signmessage  hello  world ") {
        Command::SignMessage { message } => assert_eq!(message, b" hello  world".to_vec()),
        _ => panic!("nothing is signed"),
    }
    assert_eq!(rejection("signmessage"), "signmsg requires a message");
    assert_eq!(rejection("signmessage "), "signmsg requires a message");
    let secret = [42; 32];
    let said = sign_message(b"hello", &secret).unwrap();
    let signature = said.text.trim_matches('"');
    let sk = bitcoin::secp256k1::SecretKey::from_slice(&secret).unwrap();
    let pk = bitcoin::secp256k1::PublicKey::from_secret_key(
        &bitcoin::secp256k1::Secp256k1::new(),
        &sk,
    );
    assert!(lightning::util::message_signing::verify(b"hello", signature, &pk));
    assert_eq!(said.text, format!("{:?}", signature));
    assert!(sign_message(b"hello", &[0; 32]).is_none());
}

#[test]
fn peers_with_channels_stay_connected() {
    assert!(matches!(
        do_disconnect_peer(key(), &vec![key()], true),
        Err(CliError::ActiveChannelWithPeer)
    ));
    let gone = do_disconnect_peer(key(), &vec![], false);
    assert!(matches!(gone, Err(CliError::PeerNotConnected(_))));
    let left = do_disconnect_peer(key(), &vec![], true);
    assert!(left.is_ok());
    assert_eq!(
        disconnected_message(&key(), &left).text,
        format!("SUCCESS: disconnected from peer {}", KEY)
    );
    assert_eq!(disconnected_message(&key(), &gone).level, Level::Error);
    assert_eq!(
        connected_message(&key(), Ok(())).text,
        format!("SUCCESS: connected to peer {}", KEY)
    );
    assert_eq!(
        connected_message(&key(), Err(ConnectError::ConnectionFailed)).text,
        CliError::PeerConnectionFailed.to_text()
    );
    assert_eq!(
        connected_message(&key(), Err(ConnectError::ConnectionClosed)).text,
        CliError::ConnectionClosed.to_text()
    );
}

#[test]
fn an_invoice_is_read() {
    let invoice = Bolt11Invoice::from_str(INVOICE).unwrap();
    match read_payable(INVOICE) {
        Payable::Invoice(info) => {
            assert_eq!(info.amount_msat, Some(10));
            assert_eq!(hex_str(&info.payment_hash), invoice.payment_hash().to_string());
            assert_eq!(info.payment_secret, invoice.payment_secret().0);
            assert_eq!(info.payee.to_text(), invoice.get_payee_pub_key().to_string());
        },
        _ => panic!("no invoice"),
    }
    assert!(matches!(read_payable("lnbc"), Payable::Invalid(_)));
}

#[test]
fn an_offer_is_read() {
    let bytes = ldk_sample::hex_utils::to_vec(KEY).unwrap();
    let signer = bitcoin::secp256k1::PublicKey::from_slice(&bytes).unwrap();
    let open = OfferBuilder::new(signer).build().unwrap().to_string();
    let fixed = OfferBuilder::new(signer)
        .description("x".to_string())
        .amount_msats(250)
        .build()
        .unwrap()
        .to_string();
    assert!(matches!(read_payable(&open), Payable::Offer(OfferAmount::Unset)));
    assert!(matches!(read_payable(&fixed), Payable::Offer(OfferAmount::Bitcoin(250))));
}

#[test]
fn a_name_is_read() {
    let longest = format!("a@{}", "b".repeat(230));
    for name in [
        "alice@example.com",
        "\u{20BF}alice@example.com",
        "alice@example.com.",
        "A_l-i.c3@b",
        longest.as_str(),
    ] {
        assert!(matches!(read_payable(name), Payable::Name));
    }
    let too_long = format!("a@{}", "b".repeat(231));
    for text in [
        "alice",
        "@example.com",
        "alice@",
        "alice@.",
        "alice@a@b",
        "al ice@b",
        "\u{e9}@b",
        "\u{20BF}\u{20BF}a@b",
        too_long.as_str(),
    ] {
        assert!(matches!(read_payable(text), Payable::Invalid(_)));
    }
}

#[test]
fn offers_are_paid_in_bitcoin() {
    let fixed = OfferAmount::Bitcoin(250);
    assert!(matches!(offer_choice(&fixed, None), PaymentChoice::Confirm(250)));
    assert!(matches!(offer_choice(&fixed, Some(250)), PaymentChoice::Pay(250)));
    assert_eq!(refusal(offer_choice(&fixed, Some(9))), "Amount didn't match offer of 250msat");
    assert!(matches!(offer_choice(&OfferAmount::Unset, Some(9)), PaymentChoice::Pay(9)));
    assert_eq!(
        refusal(offer_choice(&OfferAmount::Unset, None)),
        "Cannot process non-Bitcoin-denominated offer value None"
    );
    assert_eq!(
        refusal(offer_choice(&OfferAmount::Other("Currency".to_string()), None)),
        "Cannot process non-Bitcoin-denominated offer value Some(Currency)"
    );
    assert_eq!(confirm_prompt(250), "Paying offer for 250 msat. Continue (Y/N)? >");
    assert_eq!(read_answer("Yes"), Answer::Yes);
    assert_eq!(read_answer("No"), Answer::No);
    assert_eq!(read_answer("yes"), Answer::Unclear);
    assert_eq!(read_answer(""), Answer::Unclear);
}

#[test]
fn names_need_an_amount_and_resolvers() {
    assert_eq!(
        refusal(name_choice(None, 3)),
        "Can't pay to a human-readable-name without an amount"
    );
    assert_eq!(
        refusal(name_choice(Some(5), 0)),
        "Failed to find any DNS resolving nodes, check your network graph is synced"
    );
    assert!(matches!(name_choice(Some(5), 1), PaymentChoice::Pay(5)));
    let node = |i: u8, dns, om| ResolverCandidate {
        supports_dns: dns,
        supports_onion_messages: om,
        pubkey: Some(PublicKey { bytes: [i; 33] }),
    };
    let mut nodes = vec![node(0, true, false), node(1, false, true)];
    nodes.push(ResolverCandidate { pubkey: None, ..node(2, true, true) });
    for i in 3..20 {
        nodes.push(node(i, true, true));
    }
    let chosen: Vec<u8> = choose_resolvers(&nodes).iter().map(|k| k.bytes[0]).collect();
    assert_eq!(chosen, vec![3, 4, 5, 6, 7, 8]);
}

#[test]
fn invoices_are_paid_as_they_say() {
    assert!(matches!(invoice_choice(Some(5), None), PaymentChoice::Pay(5)));
    assert!(matches!(invoice_choice(Some(5), Some(5)), PaymentChoice::Pay(5)));
    assert!(matches!(invoice_choice(None, Some(6)), PaymentChoice::Pay(6)));
    assert_eq!(
        refusal(invoice_choice(Some(5), Some(6))),
        "Amount didn't match invoice value of 5msat"
    );
    assert_eq!(
        refusal(invoice_choice(None, None)),
        "Need an amount to pay an amountless invoice"
    );
}

#[test]
fn a_payment_without_an_invoice_is_known_by_its_hash() {
    assert_eq!(
        hex_str(&keysend_payment_id(&[0; 32])),
        "66687aadf862bd776c8fc18b8e9f8e20089714856ee233b3902a591d0d5f2925"
    );
}

#[test]
fn a_payment_is_written_down_before_it_is_paid() {
    let mut book = OutboundPaymentInfoStorage::new();
    let mut sending =
        begin_sending(&mut book, SendKind::Direct, [1; 32], Some([2; 32]), 50, Some(key()));
    assert_eq!(sending.step, SendStep::Persist);
    assert_eq!(book.payments.get(&[1; 32]).unwrap().status, HTLCStatus::Pending);
    assert!(advance_sending(&mut sending, &mut book, None).is_none());
    assert_eq!(sending.step, SendStep::Pay);
    let said = advance_sending(&mut sending, &mut book, Some("NoRoute".to_string())).unwrap();
    assert_eq!(said.text, "failed to send payment: NoRoute");
    assert_eq!(sending.step, SendStep::PersistFailure);
    assert_eq!(book.payments.get(&[1; 32]).unwrap().status, HTLCStatus::Failed);
    let said = advance_sending(&mut sending, &mut book, Some("disk".to_string())).unwrap();
    assert_eq!(said.text, "failed to persist outbound payments: disk");
    assert_eq!(sending.step, SendStep::Finished);

    let mut sending = begin_sending(&mut book, SendKind::Direct, [3; 32], None, 50, Some(key()));
    advance_sending(&mut sending, &mut book, None);
    let said = advance_sending(&mut sending, &mut book, None).unwrap();
    assert_eq!(said.text, format!("EVENT: initiated sending 50 msats to {}", KEY));

    let mut sending = begin_sending(&mut book, SendKind::Offer, [4; 32], None, 50, None);
    advance_sending(&mut sending, &mut book, None);
    let said = advance_sending(&mut sending, &mut book, Some("x".to_string())).unwrap();
    assert_eq!(said.text, "Failed to pay: x");
    assert_eq!(sending.step, SendStep::Finished);
    assert_eq!(book.payments.get(&[4; 32]).unwrap().status, HTLCStatus::Pending);

    let mut sending = begin_sending(&mut book, SendKind::Name, [5; 32], None, 50, None);
    let said = advance_sending(&mut sending, &mut book, Some("x".to_string())).unwrap();
    assert_eq!(said.text, "failed to persist outbound payments: x");
    assert_eq!(sending.step, SendStep::Finished);
}

#[test]
fn invoices_are_noted() {
    let mut book = InboundPaymentInfoStorage::new();
    let made = CreatedInvoice {
        text: "lnbc".to_string(),
        payment_hash: [1; 32],
        payment_secret: [2; 32],
    };
    assert_eq!(get_invoice(5, &mut book, &Ok(made)).text, "SUCCESS: generated invoice: lnbc");
    let noted = book.payments.get(&[1; 32]).unwrap();
    assert_eq!((noted.secret, noted.amt_msat.0), (Some([2; 32]), Some(5)));
    let failed = Err("x".to_string());
    assert_eq!(get_invoice(5, &mut book, &failed).text, "failed to create invoice: x");
    assert_eq!(book.payments.len(), 1);
    assert_eq!(offer_amount(&None).ok(), Some(None));
    assert_eq!(offer_amount(&Some("5".to_string())).ok(), Some(Some(5)));
    assert_eq!(
        offer_amount(&Some("x".to_string())).err().unwrap().text,
        "ERROR: getoffer provided payment amount was not a number"
    );
}

#[test]
fn errors_have_texts() {
    let with_key = CliError::PeerNotConnected(key()).to_text();
    assert!(with_key.contains(KEY));
    for e in [
        CliError::InvalidPeerInfoFormat,
        CliError::InvalidPubkey,
        CliError::ActiveChannelWithPeer,
        CliError::PeerConnectionFailed,
        CliError::ConnectionClosed,
    ] {
        assert!(!e.to_text().is_empty());
    }
    assert!(CliError::PeerAddressResolution("host:1".to_string()).to_text().contains("host:1"));
    assert!(CliError::ChannelOpenFailed("why".to_string()).to_text().contains("why"));
}

#[test]
fn help_lists_the_commands() {
    let text = help("ldk-sample", "1.0");
    assert!(text.starts_with("\nVERSION:\n  ldk-sample v1.0\n"));
    for command in ["openchannel", "keysend", "getoffer", "signmessage", "listsweeperoutputs"] {
        assert!(text.contains(command));
    }
}

#[test]
fn payments_are_listed() {
    let mut inbound = InboundPaymentInfoStorage::new();
    let mut outbound = OutboundPaymentInfoStorage::new();
    assert_eq!(list_payments(&inbound, &outbound), "[]\n");
    inbound.record_pending([1; 32], [2; 32], 5);
    outbound.record_pending([3; 32], None, 6);
    outbound.record_failed([3; 32]);
    let text = list_payments(&inbound, &outbound);
    assert_eq!(
        text,
        format!(
            "[\n\t{{\n\t\tamount_millisatoshis: 5,\n\t\tpayment_hash: {},\n\t\thtlc_direction: inbound,\n\t\thtlc_status: pending,\n\t}},\n\n\t{{\n\t\tamount_millisatoshis: 6,\n\t\tpayment_hash: {},\n\t\thtlc_direction: outbound,\n\t\thtlc_status: failed,\n\t}},\n]\n",
            "01".repeat(32),
            "03".repeat(32)
        )
    );
}

fn balance(claimable_sat: u64, kind: BalanceKind) -> BalanceInfo {
    BalanceInfo { claimable_sat, kind, details: "details".to_string() }
}

#[test]
fn balances_add_up() {
    assert_eq!(list_claimable_balances(&vec![]), "No claimable balances.\n");
    let balances = vec![
        balance(10, BalanceKind::OnChannelClose { fees_sat: vec![1, 2], confirmed: 1 }),
        balance(20, BalanceKind::MaybeTimeout { amount_sat: 7, outbound_payment: true }),
        balance(30, BalanceKind::MaybeTimeout { amount_sat: 8, outbound_payment: false }),
        balance(40, BalanceKind::Other),
    ];
    let text = list_claimable_balances(&balances);
    assert!(text.starts_with("Claimable balances: 4 (total=100 sats)\n[\n\t{\n"));
    let info = node_info(&key(), &vec![true, false, true], &balances, 2, 3, 4);
    assert_eq!(
        info,
        format!(
            "\t{{\n\t\t node_pubkey: {}\n\t\t num_channels: 3\n\t\t num_usable_channels: 2\n\t\t local_balance_sats: 100\n\t\t eventual_close_fees_sats: 2\n\t\t pending_outbound_payments_sats: 7\n\t\t num_peers: 2\n\t\t network_nodes: 3\n\t\t network_channels: 4\n\t}},\n",
            KEY
        )
    );
}

#[test]
fn outputs_are_listed() {
    assert_eq!(list_sweeper_outputs(&vec![]), "No tracked spendable outputs.\n");
    let output = |kind, channel_id, status| OutputInfo {
        kind,
        outpoint: "tx:0".to_string(),
        channel_id,
        status,
    };
    let text = list_sweeper_outputs(&vec![
        output(
            DescriptorKind::StaticOutput,
            None,
            SpendStatus::PendingInitialBroadcast { delayed_until_height: Some(5) },
        ),
        output(
            DescriptorKind::DelayedPaymentOutput,
            Some([1; 32]),
            SpendStatus::PendingFirstConfirmation { latest_broadcast_height: 6 },
        ),
        output(
            DescriptorKind::StaticPaymentOutput,
            None,
            SpendStatus::PendingThresholdConfirmations {
                latest_broadcast_height: 7,
                confirmation_height: 8,
            },
        ),
    ]);
    assert!(text.starts_with("Tracked spendable outputs: 3\n["));
    assert!(text.contains("descriptor_type: static_output,\n\t\toutpoint: tx:0,\n\t\tchannel_id: none,\n\t\tstatus: pending_initial_broadcast (delayed_until_height=5),"));
    assert!(text.contains("pending_first_confirmation (latest_broadcast_height=6)"));
    assert!(text.contains(
        "pending_threshold_confirmations (latest_broadcast_height=7, confirmation_height=8)"
    ));
}

#[test]
fn channels_and_peers_are_listed() {
    assert_eq!(list_channels(&vec![]), "[]\n");
    assert_eq!(list_peers(&vec![key()]), format!("\t{{\n\t\t pubkey: {}\n\t}},\n", KEY));
    let text = list_channels(&vec![ChannelInfo {
        channel_id: [1; 32],
        funding_txid: Some("tx".to_string()),
        counterparty: key(),
        peer_alias: Some("alice".to_string()),
        short_channel_id: Some(9),
        is_channel_ready: true,
        channel_value_satoshis: 1,
        outbound_capacity_msat: 2,
        inbound_capacity_msat: 3,
        is_usable: true,
        is_announced: false,
    }]);
    assert_eq!(
        text,
        format!(
            "[\n\t{{\n\t\tchannel_id: {},\n\t\tfunding_txid: tx,\n\t\tpeer_pubkey: {},\n\t\tpeer_alias: alice\n\t\tshort_channel_id: 9,\n\t\tis_channel_ready: true,\n\t\tchannel_value_satoshis: 1,\n\t\toutbound_capacity_msat: 2,\n\t\tavailable_balance_for_send_msat: 2,\n\t\tavailable_balance_for_recv_msat: 3,\n\t\tchannel_can_send_payments: true,\n\t\tpublic: false,\n\t}},\n]\n",
            ID, KEY
        )
    );
}

#[test]
fn a_channel_is_asked_for_once_the_peer_is_connected() {
    assert!(matches!(begin_opening::<u8>(false, KEY, None), Opening::Look));
    let rejected = |opening: Opening<u8>| match opening {
        Opening::Rejected(m) => m.text,
        _ => panic!("the channel is asked for"),
    };
    assert_eq!(
        rejected(peer_looked_up(false, "10", &vec![])),
        "ERROR: Peer address not provided and peer is not connected"
    );
    assert!(matches!(
        peer_looked_up::<u8>(true, "10", &vec![]),
        Opening::Create(c) if c.amount_sat == 10
    ));

    let peer = format!("{}@host:9735", KEY);
    assert_eq!(
        rejected(begin_opening(true, &peer, None)),
        "could not resolve `host:9735` to a socket address"
    );
    assert_eq!(
        rejected(begin_opening(true, KEY, Some(7))),
        "incorrectly formatted peer info, expected `pubkey@host:port`"
    );
    assert_eq!(
        rejected(begin_opening(true, "zz@host:9735", Some(7))),
        "unable to parse peer public key"
    );
    match begin_opening(true, &peer, Some(7u8)) {
        Opening::Connect { pubkey, addr } => {
            assert_eq!(pubkey.to_text(), KEY);
            assert_eq!(addr, 7);
        },
        _ => panic!("the peer is connected first"),
    }
    assert_eq!(
        rejected(peer_connected(Err(ConnectError::ConnectionFailed), "10", &vec![])),
        "failed to connect to peer"
    );
    assert_eq!(
        rejected(peer_connected(Err(ConnectError::ConnectionClosed), "10", &vec![])),
        "connection closed before peer handshake completed"
    );
    assert_eq!(
        rejected(peer_connected(Ok(()), "ten", &vec![])),
        "channel amount must be a number"
    );
    assert!(matches!(
        peer_connected::<u8>(Ok(()), "10", &vec!["--public".to_string()]),
        Opening::Create(c) if c.announce && !c.with_anchors
    ));
}
