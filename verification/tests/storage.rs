//! Tests of the files that hold payments, and of what they are made of.
use ldk_sample::disk::{
    log_date, log_entry, log_entry_at, log_file_path, logs_dir, read_inbound_payment_info,
    read_outbound_payment_info, rotated_log_path, unreadable_warning, FileSource,
};
use ldk_sample::hex_utils::{hex_str, to_compressed_pubkey, to_vec};
use ldk_sample::keys::{is_among, PublicKey};
use ldk_sample::logging::{
    log_debug, log_error, log_info, log_warn, print_line, user_err, user_out, user_warn, Level,
};
use ldk_sample::persist::{remap_scorer_key, SCORER_PERSISTENCE_FILE_NAME, SCORER_PERSISTENCE_KEY};
use ldk_sample::state::{
    HTLCStatus, InboundPaymentInfoStorage, MillisatAmount, OutboundPaymentInfoStorage, PaymentInfo,
};
use ldk_sample::table::Table;
use ldk_sample::text::{parse_number, split, trim, words, NumberError};
use ldk_sample::wire::{
    read_bigsize, read_count, read_frame, read_records, write_bigsize, write_count, write_frame,
    write_record,
};
use lightning::util::ser::{BigSize, Writeable};

const KEY: &str = "02e89ca9e8da72b33d896bae51d20e7e1f0571cece852d1387b4e2f4ae48c80a85";

fn pending(secret: Option<[u8; 32]>, amt: Option<u64>) -> PaymentInfo {
    PaymentInfo {
        preimage: None,
        secret,
        status: HTLCStatus::Pending,
        amt_msat: MillisatAmount(amt),
    }
}

#[test]
fn numbers_are_read_like_integers() {
    assert_eq!(parse_number("0", u64::MAX), Ok(0));
    assert_eq!(parse_number("+42", u64::MAX), Ok(42));
    assert_eq!(parse_number("18446744073709551615", u64::MAX), Ok(u64::MAX));
    assert_eq!(parse_number("18446744073709551616", u64::MAX), Err(NumberError::TooLarge));
    assert_eq!(parse_number("4294967296", u32::MAX as u64), Err(NumberError::TooLarge));
    assert_eq!(parse_number("", u64::MAX), Err(NumberError::Empty));
    assert_eq!(parse_number("12a", u64::MAX), Err(NumberError::InvalidDigit));
    assert_eq!(parse_number("-1", u64::MAX), Err(NumberError::InvalidDigit));
    for s in ["", "x", "-", "+", "99999999999999999999"] {
        let expected = s.parse::<u64>().unwrap_err().to_string();
        assert_eq!(parse_number(s, u64::MAX).unwrap_err().to_text(), expected);
    }
}

#[test]
fn texts_are_cut_like_strings() {
    assert_eq!(words("  a\tbc \n d "), vec!["a", "bc", "d"]);
    assert!(words(" \u{a0}\u{3000}").is_empty());
    assert_eq!(split("a@b@", '@'), vec!["a", "b", ""]);
    assert_eq!(split("", '@'), vec![""]);
    assert_eq!(trim("\u{2003} x y \r\n"), "x y");
}

#[test]
fn sizes_are_written_as_lightning_writes_them() {
    for n in [0, 1, 0xFC, 0xFD, 0xFFFF, 0x10000, 0xFFFF_FFFF, 0x1_0000_0000, u64::MAX] {
        let mut out = Vec::new();
        write_bigsize(&mut out, n);
        assert_eq!(out, BigSize(n).encode());
        out.push(7);
        assert_eq!(read_bigsize(&out, 0), Some((n, out.len() - 1)));
    }
    // Only the shortest form is a size.
    assert_eq!(read_bigsize(&[0xFD, 0x00, 0xFC], 0), None);
    assert_eq!(read_bigsize(&[0xFE, 0, 0, 0xFF, 0xFF], 0), None);
    assert_eq!(read_bigsize(&[], 0), None);
    assert_eq!(read_bigsize(&[0xFF, 1], 0), None);
}

#[test]
fn counts_are_written_as_lightning_writes_them() {
    for n in [0usize, 1, 0xFFFE, 0xFFFF, 0x10000] {
        let mut out = Vec::new();
        write_count(&mut out, n as u64);
        let bytes = vec![0u8; n];
        assert_eq!(out[..], bytes.encode()[..out.len()]);
        assert_eq!(read_count(&out), Some((n as u64, out.len())));
    }
}

#[test]
fn records_read_back_in_order() {
    let mut stream = Vec::new();
    write_record(&mut stream, 1, &vec![5, 6]);
    write_record(&mut stream, 300, &vec![]);
    assert_eq!(stream, vec![1, 2, 5, 6, 0xFD, 1, 44, 0]);
    assert_eq!(read_records(&stream), Some(vec![(1, vec![5, 6]), (300, vec![])]));
    let mut backwards = Vec::new();
    write_record(&mut backwards, 2, &vec![]);
    write_record(&mut backwards, 2, &vec![]);
    assert_eq!(read_records(&backwards), None);
    let mut framed = Vec::new();
    write_frame(&mut framed, &stream);
    framed.push(9);
    assert_eq!(read_frame(&framed, 0), Some((&stream[..], 9)));
    assert_eq!(read_frame(&[3, 1], 0), None);
}

#[test]
fn an_empty_file_of_payments_has_five_bytes() {
    let storage = InboundPaymentInfoStorage::new();
    assert_eq!(storage.encode(), vec![4, 0, 2, 0, 0]);
}

#[test]
fn a_payment_has_its_fields_in_order() {
    let mut storage = OutboundPaymentInfoStorage::new();
    storage.record_pending([1; 32], Some([7; 32]), 1000);
    let mut info = vec![0, 1, 0, 2, 33, 33];
    info.extend_from_slice(&[7; 32]);
    info.extend_from_slice(&[4, 2, 0, 0, 6, 9, 9, 0, 0, 0, 0, 0, 0, 3, 0xE8]);
    assert_eq!(info[5..38], Some([7u8; 32]).encode()[..]);
    assert_eq!(Some(1000u64).encode(), vec![9, 0, 0, 0, 0, 0, 0, 3, 0xE8]);
    let mut table = vec![0, 1];
    table.extend_from_slice(&[1; 32]);
    table.push(info.len() as u8);
    table.extend_from_slice(&info);
    let mut expected = vec![table.len() as u8 + 2, 0, table.len() as u8];
    expected.extend_from_slice(&table);
    assert_eq!(storage.encode(), expected);
}

#[test]
fn payments_read_back_as_they_were_written() {
    let mut storage = InboundPaymentInfoStorage::new();
    for i in 0..20u8 {
        storage.record_pending([i; 32], [i + 100; 32], i as u64 * 1000);
    }
    storage.record_claimed([3; 32], Some([9; 32]), None, 77);
    storage.record_claimed([200; 32], None, Some([8; 32]), 78);
    let read = InboundPaymentInfoStorage::decode(&storage.encode()).unwrap();
    assert_eq!(read.payments.len(), 21);
    for i in 0..21 {
        assert_eq!(read.payments.entry(i), storage.payments.entry(i));
    }
    let claimed = read.payments.get(&[3; 32]).unwrap();
    assert_eq!(claimed.status, HTLCStatus::Succeeded);
    assert_eq!(claimed.preimage, Some([9; 32]));
    assert_eq!(claimed.secret, None);
    assert_eq!(claimed.amt_msat, MillisatAmount(Some(3000)));
    assert_eq!(read.payments.get(&[200; 32]).unwrap().amt_msat, MillisatAmount(Some(78)));
}

#[test]
fn payments_without_an_amount_read_back() {
    let mut storage = OutboundPaymentInfoStorage::new();
    storage.payments.insert([4; 32], pending(None, None));
    let bytes = storage.encode();
    let read = OutboundPaymentInfoStorage::decode(&bytes).unwrap();
    assert_eq!(read.payments.get(&[4; 32]), Some(&pending(None, None)));
    assert_eq!(read.payments.get(&[4; 32]).unwrap().amt_msat.to_text(), "unknown");
    assert!(OutboundPaymentInfoStorage::decode(&bytes[..bytes.len() - 1]).is_none());
    assert!(OutboundPaymentInfoStorage::decode(&[]).is_none());
}

#[test]
fn a_file_with_a_key_twice_is_refused() {
    let mut storage = OutboundPaymentInfoStorage::new();
    storage.payments.insert([4; 32], pending(None, Some(1)));
    let one = storage.encode();
    let entry = &one[5..];
    let mut table = vec![0, 2];
    table.extend_from_slice(entry);
    table.extend_from_slice(entry);
    let mut file = vec![table.len() as u8 + 2, 0, table.len() as u8];
    file.extend_from_slice(&table);
    assert!(OutboundPaymentInfoStorage::decode(&one).is_some());
    assert!(OutboundPaymentInfoStorage::decode(&file).is_none());
}

#[test]
fn forgotten_payments_fail_on_restart() {
    let mut storage = OutboundPaymentInfoStorage::new();
    storage.record_pending([1; 32], None, 1);
    storage.record_pending([2; 32], None, 2);
    storage.record_pending([3; 32], None, 3);
    assert_eq!(storage.record_sent([3; 32], [9; 32]), Some(MillisatAmount(Some(3))));
    assert_eq!(storage.record_sent([4; 32], [9; 32]), None);
    storage.fail_forgotten(&vec![[2; 32]]);
    assert_eq!(storage.payments.get(&[1; 32]).unwrap().status, HTLCStatus::Failed);
    assert_eq!(storage.payments.get(&[2; 32]).unwrap().status, HTLCStatus::Pending);
    assert_eq!(storage.payments.get(&[3; 32]).unwrap().status, HTLCStatus::Succeeded);
    storage.record_failed([2; 32]);
    assert_eq!(storage.payments.get(&[2; 32]).unwrap().status, HTLCStatus::Failed);
}

#[test]
fn tables_hold_each_key_once() {
    let mut table: Table<u8> = Table::new();
    table.insert([1; 32], 1);
    table.insert([2; 32], 2);
    table.insert([1; 32], 3);
    assert_eq!(table.len(), 2);
    assert_eq!(table.get(&[1; 32]), Some(&3));
    assert_eq!(table.remove(&[1; 32]), Some(3));
    assert_eq!(table.remove(&[1; 32]), None);
    assert!(table.contains_key(&[2; 32]));
}

#[test]
fn hexadecimal_goes_both_ways() {
    assert_eq!(hex_str(&[0x00, 0xab, 0xff]), "00abff");
    assert_eq!(to_vec("00ABff"), Some(vec![0x00, 0xab, 0xff]));
    assert_eq!(to_vec("0"), Some(vec![]));
    assert_eq!(to_vec("0g"), None);
    assert_eq!(to_vec(&hex_str(&[1, 2, 3])), Some(vec![1, 2, 3]));
}

#[test]
fn keys_are_points_of_the_curve() {
    let key = to_compressed_pubkey(KEY).unwrap();
    assert_eq!(key.to_text(), KEY);
    assert!(to_compressed_pubkey("02abc123").is_none());
    assert!(PublicKey::from_slice(&[2; 33]).is_some());
    assert!(PublicKey::from_slice(&[5; 33]).is_none());
    assert_eq!(PublicKey::from_text(KEY), Ok(key));
    assert_eq!(PublicKey::from_text(&KEY.to_uppercase()), Ok(key));
    for text in ["zz", "", &KEY[..64], &KEY[..65], &format!("{}00", KEY), &"05".repeat(33)] {
        assert_eq!(PublicKey::from_text(text), Err("malformed public key".to_string()));
    }
    let bytes = to_vec(KEY).unwrap();
    let uncompressed =
        bitcoin::secp256k1::PublicKey::from_slice(&bytes).unwrap().serialize_uncompressed();
    assert_eq!(PublicKey::from_text(&hex_str(&uncompressed)), Ok(key));
    assert_eq!(PublicKey::from_slice(&uncompressed), Some(key));
    assert!(is_among(&key, &vec![PublicKey { bytes: [2; 33] }, key]));
    assert!(!is_among(&key, &vec![PublicKey { bytes: [2; 33] }]));
}

#[test]
fn missing_and_broken_files_give_no_payments() {
    let (none, said) = read_inbound_payment_info(&FileSource::Missing, "p");
    assert_eq!(none.payments.len(), 0);
    assert!(said.is_none());
    let (none, said) = read_inbound_payment_info(&FileSource::Unopenable, "p");
    assert_eq!(none.payments.len(), 0);
    assert_eq!(
        said.unwrap().text,
        "Failed to open inbound payment info at p. Starting with empty state."
    );
    let (none, said) = read_outbound_payment_info(&FileSource::Bytes(vec![1]), "q");
    assert_eq!(none.payments.len(), 0);
    assert_eq!(
        said.unwrap().text,
        "Failed to deserialize outbound payment info from q. Starting with empty state."
    );
    let mut storage = OutboundPaymentInfoStorage::new();
    storage.record_pending([1; 32], None, 1);
    let (one, said) = read_outbound_payment_info(&FileSource::Bytes(storage.encode()), "q");
    assert_eq!(one.payments.len(), 1);
    assert!(said.is_none());
    let warning = unreadable_warning(true, "network graph", "g", "an empty graph");
    assert_eq!(warning.level, Level::Warn);
    assert!(!warning.shown);
}

#[test]
fn log_entries_carry_time_and_place() {
    assert_eq!(log_date(0, 0).unwrap(), "1970-01-01");
    assert_eq!(log_date(1_700_000_000, 0).unwrap(), "2023-11-14");
    assert_eq!(log_date(i64::MAX, 0), None);
    assert_eq!(
        log_entry(1_700_000_000, 5_000_000, Level::Info, "ldk", 7, "hello").unwrap(),
        "2023-11-14 22:13:20.005 INFO  [ldk:7] hello\n"
    );
    assert_eq!(log_entry(0, 0, Level::Gossip, "ldk", 7, "hello"), None);
    assert_eq!(log_entry_at("now", Level::Error, "m", 1, "x"), "now ERROR [m:1] x\n");
    let dir = logs_dir("/data");
    assert_eq!(log_file_path(&dir, "2023-11-14"), "/data/logs/logs-2023-11-14.txt");
    assert_eq!(rotated_log_path(&dir, "2023-11-14", "2023-11-14"), None);
    assert_eq!(
        rotated_log_path(&dir, "2023-11-14", "2023-11-15").unwrap(),
        "/data/logs/logs-2023-11-15.txt"
    );
}

#[test]
fn messages_go_to_the_terminal_and_the_log() {
    assert_eq!(user_out("a".to_string()).terminal_text().unwrap(), "a");
    assert_eq!(user_warn("a".to_string()).terminal_text().unwrap(), "WARN: a");
    assert_eq!(user_err("a".to_string()).terminal_text().unwrap(), "\nERROR: a");
    assert!(user_err("a".to_string()).logged);
    assert!(!print_line("a".to_string()).logged);
    assert_eq!(print_line("a".to_string()).terminal_text().unwrap(), "a");
    for m in [
        log_debug("a".to_string()),
        log_info("a".to_string()),
        log_warn("a".to_string()),
        log_error("a".to_string()),
    ] {
        assert!(m.logged);
        assert_eq!(m.terminal_text(), None);
    }
    assert_eq!(Level::Debug.to_column(), "DEBUG");
}

#[test]
fn only_the_scorer_gets_another_key() {
    assert_eq!(remap_scorer_key("", "", SCORER_PERSISTENCE_KEY), SCORER_PERSISTENCE_FILE_NAME);
    assert_eq!(remap_scorer_key("", "", "manager"), "manager");
    assert_eq!(remap_scorer_key("monitors", "", SCORER_PERSISTENCE_KEY), SCORER_PERSISTENCE_KEY);
    assert_eq!(SCORER_PERSISTENCE_KEY, lightning::util::persist::SCORER_PERSISTENCE_KEY);
}
