//! What bitcoind answers.
use crate::hex_utils;
use crate::network::Network;
use crate::text::same;
use bitcoin::Address;
use bitcoin::BlockHash as BitcoinBlockHash;
use bitcoin::Network as BitcoinNetwork;
use bitcoin::Txid as BitcoinTxid;
use std::str::FromStr;
use vstd::prelude::*;

verus! {

/// A number in an answer, in each of the readings that are made of it.
#[derive(Debug)]
pub struct JsonNumber {
    /// As an unsigned integer, if it is one.
    pub unsigned: Option<u64>,
    /// As a signed integer, if it is one.
    pub signed: Option<i64>,
    /// As satoshis for a thousand weight units, where the number is in bitcoin for a thousand
    /// virtual bytes.
    pub sat_per_kw: u32,
    /// As satoshis, where the number is in bitcoin, or why it is no amount.
    pub sats: Result<u64, String>,
}

/// An answer, or a part of one.
#[derive(Debug)]
pub enum Json {
    /// Nothing.
    Null,
    /// A truth value.
    Bool(bool),
    /// A number.
    Number(JsonNumber),
    /// A text.
    Text(String),
    /// A list.
    Array(Vec<Json>),
    /// Named values. No name occurs twice.
    Object(Vec<(String, Json)>),
}

/// The value of the first entry with a name.
pub open spec fn entry_named(es: Seq<(String, Json)>, name: Seq<char>) -> Option<Json>
    decreases es.len(),
{
    if es.len() == 0 {
        None
    } else if es[0].0@ == name {
        Some(es[0].1)
    } else {
        entry_named(es.skip(1), name)
    }
}

impl Json {
    /// The value with a name; nothing if there is none.
    pub open spec fn at(self, name: Seq<char>) -> Json {
        match self {
            Json::Object(es) => match entry_named(es@, name) {
                Some(v) => v,
                None => Json::Null,
            },
            _ => Json::Null,
        }
    }

    /// The value with a name, if there is one.
    pub fn get(&self, name: &str) -> (r: Option<&Json>)
        ensures
            match r {
                Some(v) => self.at(name@) == *v,
                None => self.at(name@) == Json::Null,
            },
    {
        match self {
            Json::Object(es) => {
                let n: usize = es.len();
                let mut i: usize = 0;
                assert(es@.skip(0) == es@);
                while i < n
                    invariant
                        n == es@.len(),
                        i <= n,
                        *self == Json::Object(*es),
                        entry_named(es@, name@) == entry_named(es@.skip(i as int), name@),
                    decreases n - i,
                {
                    if same(es[i].0.as_str(), name) {
                        assert(es@.skip(i as int)[0] == es@[i as int]);
                        return Some(&es[i].1);
                    }
                    assert(es@.skip(i as int).skip(1) == es@.skip(i + 1));
                    i = i + 1;
                }
                None
            },
            _ => None,
        }
    }
}

/// The message about a field that is missing or of the wrong type.
pub open spec fn invalid(field: Seq<char>, message: Seq<char>) -> Seq<char> {
    "invalid or missing field `"@ + field + "` in bitcoind response: "@ + message
}

/// The message about a field that is missing or of the wrong type.
pub fn invalid_field(field: &str, message: &str) -> (r: String)
    ensures
        r@ == invalid(field@, message@),
{
    let mut t = "invalid or missing field `".to_owned();
    t.append(field);
    t.append("` in bitcoind response: ");
    t.append(message);
    t
}

/// The text in a field.
pub open spec fn text_at(json: Json, field: Seq<char>) -> Result<Seq<char>, Seq<char>> {
    match json.at(field) {
        Json::Text(t) => Ok(t@),
        _ => Err(invalid(field, "expected string"@)),
    }
}

/// The unsigned integer in a field.
pub open spec fn unsigned_at(json: Json, field: Seq<char>) -> Result<u64, Seq<char>> {
    match json.at(field) {
        Json::Number(n) => match n.unsigned {
            Some(u) => Ok(u),
            None => Err(invalid(field, "expected unsigned integer"@)),
        },
        _ => Err(invalid(field, "expected unsigned integer"@)),
    }
}

/// The signed integer in a field.
pub open spec fn signed_at(json: Json, field: Seq<char>) -> Result<i64, Seq<char>> {
    match json.at(field) {
        Json::Number(n) => match n.signed {
            Some(u) => Ok(u),
            None => Err(invalid(field, "expected signed integer"@)),
        },
        _ => Err(invalid(field, "expected signed integer"@)),
    }
}

/// The truth value in a field.
pub open spec fn bool_at(json: Json, field: Seq<char>) -> Result<bool, Seq<char>> {
    match json.at(field) {
        Json::Bool(b) => Ok(b),
        _ => Err(invalid(field, "expected boolean"@)),
    }
}

/// The text in a field.
pub fn as_str_field<'a>(json: &'a Json, field: &str) -> (r: Result<&'a String, String>)
    ensures
        match r {
            Ok(t) => text_at(*json, field@) == Ok::<Seq<char>, Seq<char>>(t@),
            Err(e) => text_at(*json, field@) == Err::<Seq<char>, Seq<char>>(e@),
        },
{
    match json.get(field) {
        Some(Json::Text(t)) => Ok(t),
        _ => Err(invalid_field(field, "expected string")),
    }
}

/// The unsigned integer in a field.
pub fn as_u64_field(json: &Json, field: &str) -> (r: Result<u64, String>)
    ensures
        match r {
            Ok(n) => unsigned_at(*json, field@) == Ok::<u64, Seq<char>>(n),
            Err(e) => unsigned_at(*json, field@) == Err::<u64, Seq<char>>(e@),
        },
{
    match json.get(field) {
        Some(Json::Number(n)) => match n.unsigned {
            Some(u) => Ok(u),
            None => Err(invalid_field(field, "expected unsigned integer")),
        },
        _ => Err(invalid_field(field, "expected unsigned integer")),
    }
}

/// The signed integer in a field.
pub fn as_i64_field(json: &Json, field: &str) -> (r: Result<i64, String>)
    ensures
        match r {
            Ok(n) => signed_at(*json, field@) == Ok::<i64, Seq<char>>(n),
            Err(e) => signed_at(*json, field@) == Err::<i64, Seq<char>>(e@),
        },
{
    match json.get(field) {
        Some(Json::Number(n)) => match n.signed {
            Some(u) => Ok(u),
            None => Err(invalid_field(field, "expected signed integer")),
        },
        _ => Err(invalid_field(field, "expected signed integer")),
    }
}

/// The truth value in a field.
pub fn as_bool_field(json: &Json, field: &str) -> (r: Result<bool, String>)
    ensures
        match r {
            Ok(b) => bool_at(*json, field@) == Ok::<bool, Seq<char>>(b),
            Err(e) => bool_at(*json, field@) == Err::<bool, Seq<char>>(e@),
        },
{
    match json.get(field) {
        Some(Json::Bool(b)) => Ok(*b),
        _ => Err(invalid_field(field, "expected boolean")),
    }
}

/// A transaction with inputs.
#[derive(Debug)]
pub struct FundedTx {
    /// The position of the change output.
    pub changepos: i64,
    /// The transaction.
    pub hex: String,
}

impl FundedTx {
    /// The transaction in an answer.
    pub fn from_json(json: &Json) -> (r: Result<FundedTx, String>)
        ensures
            match signed_at(*json, "changepos"@) {
                Err(e) => r matches Err(m) && m@ == e,
                Ok(pos) => match text_at(*json, "hex"@) {
                    Err(e) => r matches Err(m) && m@ == e,
                    Ok(t) => r matches Ok(f) && f.changepos == pos && f.hex@ == t,
                },
            },
    {
        match as_i64_field(json, "changepos") {
            Err(e) => Err(e),
            Ok(changepos) => match as_str_field(json, "hex") {
                Err(e) => Err(e),
                Ok(hex) => Ok(FundedTx { changepos, hex: hex.clone() }),
            },
        }
    }
}

/// A transaction.
#[derive(Debug)]
pub struct RawTx(pub String);

impl RawTx {
    /// The transaction in an answer.
    pub fn from_json(json: &Json) -> (r: Result<RawTx, String>)
        ensures
            match *json {
                Json::Text(t) => r matches Ok(x) && x.0@ == t@,
                _ => r matches Err(m) && m@ == invalid(
                    "<root>"@,
                    "expected raw transaction hex string"@,
                ),
            },
    {
        match json {
            Json::Text(t) => Ok(RawTx(t.clone())),
            _ => Err(invalid_field("<root>", "expected raw transaction hex string")),
        }
    }
}

/// A transaction with signatures.
#[derive(Debug)]
pub struct SignedTx {
    /// Whether no signature is missing.
    pub complete: bool,
    /// The transaction.
    pub hex: String,
}

impl SignedTx {
    /// The transaction in an answer.
    pub fn from_json(json: &Json) -> (r: Result<SignedTx, String>)
        ensures
            match text_at(*json, "hex"@) {
                Err(e) => r matches Err(m) && m@ == e,
                Ok(t) => match bool_at(*json, "complete"@) {
                    Err(e) => r matches Err(m) && m@ == e,
                    Ok(b) => r matches Ok(s) && s.complete == b && s.hex@ == t,
                },
            },
    {
        match as_str_field(json, "hex") {
            Err(e) => Err(e),
            Ok(hex) => match as_bool_field(json, "complete") {
                Err(e) => Err(e),
                Ok(complete) => Ok(SignedTx { complete, hex: hex.clone() }),
            },
        }
    }
}

/// A new address of bitcoind's wallet.
#[derive(Debug)]
pub struct NewAddress(pub String);

impl NewAddress {
    /// The address in an answer.
    pub fn from_json(json: &Json) -> (r: Result<NewAddress, String>)
        ensures
            match *json {
                Json::Text(t) => r matches Ok(x) && x.0@ == t@,
                _ => r matches Err(m) && m@ == invalid("<root>"@, "expected address string"@),
            },
    {
        match json {
            Json::Text(t) => Ok(NewAddress(t.clone())),
            _ => Err(invalid_field("<root>", "expected address string")),
        }
    }
}

/// The feerate in a field, if it holds a number.
pub open spec fn feerate_at(json: Json, field: Seq<char>) -> Option<u32> {
    match json.at(field) {
        Json::Number(n) => Some(n.sat_per_kw),
        _ => None,
    }
}

fn feerate_field(json: &Json, field: &str) -> (r: Option<u32>)
    ensures
        r == feerate_at(*json, field@),
{
    match json.get(field) {
        Some(Json::Number(n)) => Some(n.sat_per_kw),
        _ => None,
    }
}

fn has_errors(json: &Json) -> (r: bool)
    ensures
        r == !(json.at("errors"@) is Null),
{
    match json.get("errors") {
        Some(Json::Null) => false,
        Some(_) => true,
        None => false,
    }
}

/// An estimate of the feerate.
#[derive(Debug)]
pub struct FeeResponse {
    /// The feerate, if there is an estimate.
    pub feerate_sat_per_kw: Option<u32>,
    /// Whether there were errors.
    pub errored: bool,
}

impl FeeResponse {
    /// The estimate in an answer.
    pub fn from_json(json: &Json) -> (r: FeeResponse)
        ensures
            r.feerate_sat_per_kw == feerate_at(*json, "feerate"@),
            r.errored == !(json.at("errors"@) is Null),
            (r.feerate_sat_per_kw, r.errored) == estimated(*json, "feerate"@),
    {
        FeeResponse {
            feerate_sat_per_kw: feerate_field(json, "feerate"),
            errored: has_errors(json),
        }
    }
}

/// The least feerate that bitcoind's mempool accepts.
#[derive(Debug)]
pub struct MempoolMinFeeResponse {
    /// The feerate, if it is known.
    pub feerate_sat_per_kw: Option<u32>,
    /// Whether there were errors.
    pub errored: bool,
}

impl MempoolMinFeeResponse {
    /// The feerate in an answer.
    pub fn from_json(json: &Json) -> (r: MempoolMinFeeResponse)
        ensures
            r.feerate_sat_per_kw == feerate_at(*json, "mempoolminfee"@),
            r.errored == !(json.at("errors"@) is Null),
            (r.feerate_sat_per_kw, r.errored) == estimated(*json, "mempoolminfee"@),
    {
        MempoolMinFeeResponse {
            feerate_sat_per_kw: feerate_field(json, "mempoolminfee"),
            errored: has_errors(json),
        }
    }
}

/// The hash of a block, in the order in which it is hashed on.
#[derive(Clone, Copy, Debug, PartialEq, Eq)]
pub struct BlockHash {
    /// The bytes.
    pub bytes: [u8; 32],
}

/// The hash of a transaction, in the order in which it is hashed on.
#[derive(Clone, Copy, Debug, PartialEq, Eq)]
pub struct Txid {
    /// The bytes.
    pub bytes: [u8; 32],
}

/// The bytes of the hash that a text stands for, or the error as text. A hash is written as 64
/// hexadecimal digits, the last byte first. A text of another length in UTF-8 is refused for that,
/// and one of that length for what is not a digit in it.
pub open spec fn hash_of(text: Seq<char>) -> Result<Seq<u8>, Seq<char>> {
    if text.len() == 64 && hex_utils::all_hex(text) {
        Ok(hex_utils::pairs(text).reverse())
    } else if vstd::utf8::encode_utf8(text).len() == 64 {
        Err("failed to parse hex digit"@)
    } else {
        Err("failed to parse hex"@)
    }
}

/// Calls `bitcoin::BlockHash::from_str` and, on the hash, `to_byte_array`, or on the error,
/// `to_string`. The result is what `hash_of` says of the text.
#[verifier::external_body]
fn parse_block_hash(text: &str) -> (r: Result<[u8; 32], String>)
    ensures
        match r {
            Ok(b) => hash_of(text@) == Ok::<Seq<u8>, Seq<char>>(b@),
            Err(e) => hash_of(text@) == Err::<Seq<u8>, Seq<char>>(e@),
        },
{
    match BitcoinBlockHash::from_str(text) {
        Ok(hash) => Ok(bitcoin::hashes::Hash::to_byte_array(hash)),
        Err(e) => Err(e.to_string()),
    }
}

/// Calls `bitcoin::Txid::from_str` and, on the hash, `to_byte_array`, or on the error, `to_string`.
/// The result is what `hash_of` says of the text.
#[verifier::external_body]
fn parse_txid(text: &str) -> (r: Result<[u8; 32], String>)
    ensures
        match r {
            Ok(b) => hash_of(text@) == Ok::<Seq<u8>, Seq<char>>(b@),
            Err(e) => hash_of(text@) == Err::<Seq<u8>, Seq<char>>(e@),
        },
{
    match BitcoinTxid::from_str(text) {
        Ok(hash) => Ok(bitcoin::hashes::Hash::to_byte_array(hash)),
        Err(e) => Err(e.to_string()),
    }
}

/// What an address pays to.
#[derive(Debug)]
pub struct PaymentAddress {
    /// The output script.
    pub script: Vec<u8>,
    /// The version and the program of the witness, if the address has them.
    pub witness: Option<(u8, Vec<u8>)>,
}

/// What an address pays to, with sequences in place of vectors.
pub struct PaymentAddressView {
    /// The output script.
    pub script: Seq<u8>,
    /// The version and the program of the witness, if the address has them.
    pub witness: Option<(u8, Seq<u8>)>,
}

impl View for PaymentAddress {
    type V = PaymentAddressView;

    open spec fn view(&self) -> PaymentAddressView {
        PaymentAddressView {
            script: self.script@,
            witness: match self.witness {
                Some((v, p)) => Some((v, p@)),
                None => None,
            },
        }
    }
}

/// What the address of a text pays to, or the error as text: what `bitcoin::Address::from_str`,
/// `script_pubkey` and `witness_program` make of it.
pub uninterp spec fn payment_address_of(text: Seq<char>) -> Result<PaymentAddressView, Seq<char>>;

/// Calls `bitcoin::Address::from_str` and, on the address, `script_pubkey` and `witness_program`.
/// The result is the one that `payment_address_of` names.
#[verifier::external_body]
fn parse_payment_address(text: &str) -> (r: Result<PaymentAddress, String>)
    ensures
        match r {
            Ok(a) => payment_address_of(text@) == Ok::<PaymentAddressView, Seq<char>>(a@),
            Err(e) => payment_address_of(text@) == Err::<PaymentAddressView, Seq<char>>(e@),
        },
{
    match Address::from_str(text) {
        Ok(unchecked) => {
            let address = unchecked.assume_checked();
            let witness = match address.witness_program() {
                Some(p) => Some((p.version().to_num(), p.program().as_bytes().to_vec())),
                None => None,
            };
            Ok(PaymentAddress { script: address.script_pubkey().to_bytes(), witness })
        },
        Err(e) => Err(e.to_string()),
    }
}

/// Why the address of a text is not one of a network, if it is not: the error, as text, of
/// `bitcoin::Address::require_network`.
pub uninterp spec fn wrong_network(text: Seq<char>, network: Network) -> Option<Seq<char>>;

/// Calls `bitcoin::Address::require_network` on the address of a text. The result is the one that
/// `wrong_network` names; a text that is no address gets none.
#[verifier::external_body]
fn check_network(text: &str, network: Network) -> (r: Option<String>)
    ensures
        match r {
            Some(e) => wrong_network(text@, network) == Some(e@),
            None => wrong_network(text@, network) is None,
        },
{
    let required = match network {
        Network::Bitcoin => BitcoinNetwork::Bitcoin,
        Network::Testnet => BitcoinNetwork::Testnet,
        Network::Regtest => BitcoinNetwork::Regtest,
        Network::Signet => BitcoinNetwork::Signet,
    };
    match Address::from_str(text) {
        Ok(address) => match address.require_network(required) {
            Ok(_) => None,
            Err(e) => Some(e.to_string()),
        },
        Err(_) => None,
    }
}

/// The address that bitcoind answered with, or what is wrong with it.
pub open spec fn new_address_of(
    text: Seq<char>,
    address: Result<PaymentAddressView, Seq<char>>,
    problem: Option<Seq<char>>,
) -> Result<PaymentAddressView, Seq<char>> {
    match address {
        Err(e) => Err("bitcoind returned invalid address "@ + text + ": "@ + e),
        Ok(a) => match problem {
            Some(e) => Err("bitcoind returned address for wrong network: "@ + e),
            None => Ok(a),
        },
    }
}

/// The address of a text, where it was read or could not be, and where its network was wrong or not.
pub fn usable_address(
    text: &str,
    address: Result<PaymentAddress, String>,
    problem: Option<String>,
) -> (r: Result<PaymentAddress, String>)
    ensures
        address_view(r) == new_address_of(
            text@,
            address_view(address),
            match problem {
                Some(e) => Some(e@),
                None => None,
            },
        ),
{
    match address {
        Err(e) => {
            let mut t = "bitcoind returned invalid address ".to_owned();
            t.append(text);
            t.append(": ");
            t.append(e.as_str());
            Err(t)
        },
        Ok(a) => match problem {
            Some(e) => {
                let mut t = "bitcoind returned address for wrong network: ".to_owned();
                t.append(e.as_str());
                Err(t)
            },
            None => Ok(a),
        },
    }
}

/// An address or an error, with sequences in place of vectors and texts.
pub open spec fn address_view(r: Result<PaymentAddress, String>) -> Result<
    PaymentAddressView,
    Seq<char>,
> {
    match r {
        Ok(a) => Ok(a@),
        Err(e) => Err(e@),
    }
}

/// The address that bitcoind answered with, if it is one of the network.
pub fn get_new_address(addr: &NewAddress, network: Network) -> (r: Result<PaymentAddress, String>)
    ensures
        address_view(r) == new_address_of(
            addr.0@,
            payment_address_of(addr.0@),
            wrong_network(addr.0@, network),
        ),
{
    usable_address(
        addr.0.as_str(),
        parse_payment_address(addr.0.as_str()),
        check_network(addr.0.as_str(), network),
    )
}

/// What bitcoind knows of its chain.
#[derive(Debug)]
pub struct BlockchainInfo {
    /// The height of the best block.
    pub latest_height: usize,
    /// The hash of the best block.
    pub latest_blockhash: BlockHash,
    /// The name of the chain.
    pub chain: String,
}

/// A block hash that was read, or the message that it could not be.
pub fn best_block_hash(hash: Result<[u8; 32], String>) -> (r: Result<BlockHash, String>)
    ensures
        match hash {
            Ok(b) => r == Ok::<BlockHash, String>(BlockHash { bytes: b }),
            Err(e) => r matches Err(m) && m@
                == "invalid field `bestblockhash` in bitcoind response: "@ + e@,
        },
{
    match hash {
        Ok(bytes) => Ok(BlockHash { bytes }),
        Err(e) => {
            let mut t = "invalid field `bestblockhash` in bitcoind response: ".to_owned();
            t.append(e.as_str());
            Err(t)
        },
    }
}

impl BlockchainInfo {
    /// The knowledge in an answer.
    pub fn from_json(json: &Json) -> (r: Result<BlockchainInfo, String>)
        ensures
            match unsigned_at(*json, "blocks"@) {
                Err(e) => r matches Err(m) && m@ == e,
                Ok(height) => match text_at(*json, "bestblockhash"@) {
                    Err(e) => r matches Err(m) && m@ == e,
                    Ok(t) => match hash_of(t) {
                        Err(e) => r matches Err(m) && m@
                            == "invalid field `bestblockhash` in bitcoind response: "@ + e,
                        Ok(b) => match text_at(*json, "chain"@) {
                            Err(e) => r matches Err(m) && m@ == e,
                            Ok(c) => r matches Ok(i) && i.latest_height == height as usize
                                && i.latest_blockhash.bytes@ == b && i.chain@ == c,
                        },
                    },
                },
            },
    {
        let latest_height: usize = match as_u64_field(json, "blocks") {
            Ok(n) => #[verifier::truncate] (n as usize),
            Err(e) => {
                return Err(e);
            },
        };
        let text = match as_str_field(json, "bestblockhash") {
            Ok(t) => t,
            Err(e) => {
                return Err(e);
            },
        };
        let latest_blockhash = match best_block_hash(parse_block_hash(text.as_str())) {
            Ok(h) => h,
            Err(e) => {
                return Err(e);
            },
        };
        match as_str_field(json, "chain") {
            Ok(chain) => Ok(BlockchainInfo { latest_height, latest_blockhash, chain: chain.clone() }),
            Err(e) => Err(e),
        }
    }
}

/// An output of bitcoind's wallet that can be spent.
#[derive(Debug)]
pub struct ListUnspentUtxo {
    /// The transaction that it is in.
    pub txid: Txid,
    /// Its position in the transaction.
    pub vout: u32,
    /// Its value in satoshis.
    pub amount: u64,
    /// Its address.
    pub address: PaymentAddress,
}

/// The outputs of bitcoind's wallet that can be spent.
#[derive(Debug)]
pub struct ListUnspentResponse(pub Vec<ListUnspentUtxo>);

/// An output, with sequences in place of bytes.
pub struct UtxoView {
    /// The transaction that it is in.
    pub txid: Seq<u8>,
    /// Its position in the transaction.
    pub vout: u32,
    /// Its value in satoshis.
    pub amount: u64,
    /// Its address.
    pub address: PaymentAddressView,
}

impl View for ListUnspentUtxo {
    type V = UtxoView;

    open spec fn view(&self) -> UtxoView {
        UtxoView {
            txid: self.txid.bytes@,
            vout: self.vout,
            amount: self.amount,
            address: self.address@,
        }
    }
}

/// The message about a field of an output that cannot be read.
pub open spec fn bad_utxo_field(field: Seq<char>, e: Seq<char>) -> Seq<char> {
    "invalid field `"@ + field + "` in listunspent response: "@ + e
}

/// The position that a number stands for: its low 32 bits.
pub open spec fn vout_of(n: u64) -> u32 {
    (n % 0x1_0000_0000) as u32
}

fn low_half(n: u64) -> (r: u32)
    ensures
        r == vout_of(n),
{
    (n % 0x1_0000_0000) as u32
}

/// The amount in the field `amount`.
pub open spec fn amount_at(json: Json) -> Result<u64, Seq<char>> {
    match json.at("amount"@) {
        Json::Number(n) => match n.sats {
            Ok(s) => Ok(s),
            Err(e) => Err(bad_utxo_field("amount"@, e@)),
        },
        _ => Err(invalid("amount"@, "expected number"@)),
    }
}

/// The output that a part of an answer holds, or the first thing that is wrong with it. `txid` is
/// what the text in `txid` stands for, and `address` what the text in `address` does.
pub open spec fn utxo_from(
    json: Json,
    txid: Result<Seq<u8>, Seq<char>>,
    address: Result<PaymentAddressView, Seq<char>>,
) -> Result<UtxoView, Seq<char>> {
    match text_at(json, "txid"@) {
        Err(e) => Err(e),
        Ok(_) => match txid {
            Err(e) => Err(bad_utxo_field("txid"@, e)),
            Ok(txid) => match unsigned_at(json, "vout"@) {
                Err(e) => Err(e),
                Ok(vout) => match amount_at(json) {
                    Err(e) => Err(e),
                    Ok(amount) => match text_at(json, "address"@) {
                        Err(e) => Err(e),
                        Ok(_) => match address {
                            Err(e) => Err(bad_utxo_field("address"@, e)),
                            Ok(address) => Ok(
                                UtxoView { txid, vout: vout_of(vout), amount, address },
                            ),
                        },
                    },
                },
            },
        },
    }
}

/// The output that a part of an answer holds, or the first thing that is wrong with it.
pub open spec fn utxo_of(json: Json) -> Result<UtxoView, Seq<char>> {
    utxo_from(
        json,
        hash_of(text_at(json, "txid"@)->Ok_0),
        payment_address_of(text_at(json, "address"@)->Ok_0),
    )
}

/// The outputs that a list holds, or the first thing that is wrong with the first bad one.
pub open spec fn utxos_of(s: Seq<Json>) -> Result<Seq<UtxoView>, Seq<char>>
    decreases s.len(),
{
    if s.len() == 0 {
        Ok(Seq::empty())
    } else {
        match utxos_of(s.drop_last()) {
            Err(e) => Err(e),
            Ok(us) => match utxo_of(s.last()) {
                Err(e) => Err(e),
                Ok(u) => Ok(us.push(u)),
            },
        }
    }
}

fn bad_field(field: &str, e: &str) -> (r: String)
    ensures
        r@ == bad_utxo_field(field@, e@),
{
    let mut t = "invalid field `".to_owned();
    t.append(field);
    t.append("` in listunspent response: ");
    t.append(e);
    t
}

fn read_amount(json: &Json) -> (r: Result<u64, String>)
    ensures
        match r {
            Ok(n) => amount_at(*json) == Ok::<u64, Seq<char>>(n),
            Err(e) => amount_at(*json) == Err::<u64, Seq<char>>(e@),
        },
{
    match json.get("amount") {
        Some(Json::Number(n)) => match &n.sats {
            Ok(s) => Ok(*s),
            Err(e) => Err(bad_field("amount", e.as_str())),
        },
        _ => Err(invalid_field("amount", "expected number")),
    }
}

/// An output or an error, with sequences in place of bytes and texts.
pub open spec fn utxo_view(r: Result<ListUnspentUtxo, String>) -> Result<UtxoView, Seq<char>> {
    match r {
        Ok(u) => Ok(u@),
        Err(e) => Err(e@),
    }
}

/// The output that a part of an answer holds. `txid` is what the text in `txid` stands for, and
/// `address` what the text in `address` does.
pub fn assemble_utxo(
    json: &Json,
    txid: Result<[u8; 32], String>,
    address: Result<PaymentAddress, String>,
) -> (r: Result<ListUnspentUtxo, String>)
    ensures
        utxo_view(r) == utxo_from(
            *json,
            match txid {
                Ok(b) => Ok(b@),
                Err(e) => Err(e@),
            },
            address_view(address),
        ),
{
    match as_str_field(json, "txid") {
        Ok(_) => {},
        Err(e) => {
            return Err(e);
        },
    }
    let txid = match txid {
        Ok(bytes) => Txid { bytes },
        Err(e) => {
            return Err(bad_field("txid", e.as_str()));
        },
    };
    let vout: u64 = match as_u64_field(json, "vout") {
        Ok(n) => n,
        Err(e) => {
            return Err(e);
        },
    };
    let amount: u64 = match read_amount(json) {
        Ok(n) => n,
        Err(e) => {
            return Err(e);
        },
    };
    match as_str_field(json, "address") {
        Ok(_) => {},
        Err(e) => {
            return Err(e);
        },
    }
    match address {
        Ok(address) => Ok(
            ListUnspentUtxo { txid, vout: low_half(vout), amount, address },
        ),
        Err(e) => Err(bad_field("address", e.as_str())),
    }
}

fn read_utxo(json: &Json) -> (r: Result<ListUnspentUtxo, String>)
    ensures
        utxo_view(r) == utxo_of(*json),
{
    let txid = match as_str_field(json, "txid") {
        Ok(t) => parse_txid(t.as_str()),
        Err(e) => Err(e),
    };
    let address = match as_str_field(json, "address") {
        Ok(t) => parse_payment_address(t.as_str()),
        Err(e) => Err(e),
    };
    assemble_utxo(json, txid, address)
}

/// The outputs, each as its view.
pub open spec fn utxo_views(s: Seq<ListUnspentUtxo>) -> Seq<UtxoView> {
    Seq::new(s.len(), |i: int| s[i]@)
}

proof fn lemma_utxos_fail(s: Seq<Json>, n: int)
    requires
        0 <= n <= s.len(),
        utxos_of(s.take(n)) is Err,
    ensures
        utxos_of(s) == utxos_of(s.take(n)),
    decreases s.len(),
{
    if n < s.len() {
        assert(s.drop_last().take(n) == s.take(n));
        lemma_utxos_fail(s.drop_last(), n);
    } else {
        assert(s.take(n) == s);
    }
}

impl ListUnspentResponse {
    /// The outputs in an answer.
    pub fn from_json(json: &Json) -> (r: Result<ListUnspentResponse, String>)
        ensures
            match *json {
                Json::Array(es) => match utxos_of(es@) {
                    Ok(us) => r matches Ok(l) && utxo_views(l.0@) == us,
                    Err(e) => r matches Err(m) && m@ == e,
                },
                _ => r matches Err(m) && m@ == invalid("<root>"@, "expected array of UTXOs"@),
            },
    {
        match json {
            Json::Array(es) => {
                let n: usize = es.len();
                let mut utxos: Vec<ListUnspentUtxo> = Vec::new();
                let mut i: usize = 0;
                assert(utxo_views(utxos@) =~= Seq::<UtxoView>::empty());
                while i < n
                    invariant
                        n == es@.len(),
                        i <= n,
                        *json == Json::Array(*es),
                        utxos_of(es@.take(i as int)) == Ok::<Seq<UtxoView>, Seq<char>>(
                            utxo_views(utxos@),
                        ),
                    decreases n - i,
                {
                    let ghost before = utxos@;
                    assert(es@.take(i + 1).drop_last() == es@.take(i as int));
                    match read_utxo(&es[i]) {
                        Ok(u) => {
                            utxos.push(u);
                            assert(utxo_views(utxos@) =~= utxo_views(before).push(u@));
                        },
                        Err(e) => {
                            proof {
                                lemma_utxos_fail(es@, i + 1);
                            }
                            return Err(e);
                        },
                    }
                    i = i + 1;
                }
                assert(es@.take(n as int) == es@);
                Ok(ListUnspentResponse(utxos))
            },
            _ => Err(invalid_field("<root>", "expected array of UTXOs")),
        }
    }
}

/// The feerate in a field of an answer, if there is one, and whether the answer tells of errors.
pub open spec fn estimated(json: Json, field: Seq<char>) -> (Option<u32>, bool) {
    (feerate_at(json, field), !(json.at("errors"@) is Null))
}

proof fn lemma_entry_named(es: Seq<(String, Json)>, name: Seq<char>, i: int)
    requires
        0 <= i < es.len(),
        es[i].0@ == name,
        forall|j: int| 0 <= j < i ==> (#[trigger] es[j]).0@ != name,
    ensures
        entry_named(es, name) == Some(es[i].1),
    decreases es.len(),
{
    if i > 0 {
        assert(es[0].0@ != name);
        let rest = es.skip(1);
        assert(rest[i - 1] == es[i]);
        assert forall|j: int| 0 <= j < i - 1 implies (#[trigger] rest[j]).0@ != name by {
            assert(rest[j] == es[j + 1]);
        }
        lemma_entry_named(rest, name, i - 1);
    }
}

proof fn lemma_no_entry_named(es: Seq<(String, Json)>, name: Seq<char>)
    requires
        forall|j: int| 0 <= j < es.len() ==> (#[trigger] es[j]).0@ != name,
    ensures
        entry_named(es, name) is None,
    decreases es.len(),
{
    if es.len() > 0 {
        assert(es[0].0@ != name);
        let rest = es.skip(1);
        assert forall|j: int| 0 <= j < rest.len() implies (#[trigger] rest[j]).0@ != name by {
            assert(rest[j] == es[j + 1]);
        }
        lemma_no_entry_named(rest, name);
    }
}

/// A value is found under its own name and under no other: the entry at `i`, the first of its name, is
/// the value of that name, and a name that no entry has, has none.
pub proof fn law_values_are_found_by_name(json: Json, es: Vec<(String, Json)>, i: int, name: Seq<char>)
    requires
        json == Json::Object(es),
        0 <= i < es@.len(),
        forall|j: int| 0 <= j < i ==> (#[trigger] es@[j]).0@ != es@[i].0@,
    ensures
        json.at(es@[i].0@) == es@[i].1,
        (forall|j: int| 0 <= j < es@.len() ==> (#[trigger] es@[j]).0@ != name) ==> json.at(name)
            is Null,
{
    lemma_entry_named(es@, es@[i].0@, i);
    if forall|j: int| 0 <= j < es@.len() ==> (#[trigger] es@[j]).0@ != name {
        lemma_no_entry_named(es@, name);
    }
}

/// A field is read exactly if its value is of the type that is asked for, and what is read is the value.
pub proof fn law_fields_are_read_by_type(json: Json, field: Seq<char>)
    ensures
        text_at(json, field) is Ok <==> json.at(field) is Text,
        bool_at(json, field) is Ok <==> json.at(field) is Bool,
        unsigned_at(json, field) is Ok <==> (json.at(field) matches Json::Number(n)
            && n.unsigned is Some),
        signed_at(json, field) is Ok <==> (json.at(field) matches Json::Number(n)
            && n.signed is Some),
        feerate_at(json, field) is Some <==> json.at(field) is Number,
        json.at(field) matches Json::Text(t) ==> text_at(json, field) == Ok::<Seq<char>, Seq<char>>(
            t@,
        ),
        json.at(field) matches Json::Bool(b) ==> bool_at(json, field) == Ok::<bool, Seq<char>>(b),
        json.at(field) matches Json::Number(n) ==> {
            &&& n.unsigned matches Some(u) ==> unsigned_at(json, field) == Ok::<u64, Seq<char>>(u)
            &&& n.signed matches Some(u) ==> signed_at(json, field) == Ok::<i64, Seq<char>>(u)
            &&& feerate_at(json, field) == Some(n.sat_per_kw)
        },
        text_at(json, field) matches Err(e) ==> e == invalid(field, "expected string"@),
        bool_at(json, field) matches Err(e) ==> e == invalid(field, "expected boolean"@),
        unsigned_at(json, field) matches Err(e) ==> e == invalid(
            field,
            "expected unsigned integer"@,
        ),
        signed_at(json, field) matches Err(e) ==> e == invalid(field, "expected signed integer"@),
{
}

/// An answer tells of errors exactly if it holds anything under `errors`, and that has no bearing on the
/// feerate, which is the one in the field.
pub proof fn law_errors_do_not_hide_the_feerate(json: Json, field: Seq<char>)
    ensures
        json.at("errors"@) is Null ==> !estimated(json, field).1,
        !(json.at("errors"@) is Null) ==> estimated(json, field).1,
        json.at(field) matches Json::Number(n) ==> estimated(json, field).0 == Some(n.sat_per_kw),
        !(json.at(field) is Number) ==> estimated(json, field).0 is None,
{
}

/// A hash is written with its last byte first, and read that way; nothing but 64 hexadecimal digits is
/// a hash, and two hashes are never written alike.
pub proof fn law_hashes_are_written_backwards(b: Seq<u8>, text: Seq<char>)
    ensures
        b.len() == 32 ==> hash_of(hex_utils::hex_of(b)) == Ok::<Seq<u8>, Seq<char>>(b.reverse()),
        hash_of(text) is Ok <==> text.len() == 64 && hex_utils::all_hex(text),
        hash_of(text) matches Ok(h) ==> h.len() == 32,
{
    hex_utils::law_hex_round_trip(b);
}

/// An output is read exactly if each of its five parts can be, and then has each of them.
pub proof fn law_outputs_are_read_whole(
    json: Json,
    txid: Result<Seq<u8>, Seq<char>>,
    address: Result<PaymentAddressView, Seq<char>>,
)
    ensures
        utxo_from(json, txid, address) is Ok <==> json.at("txid"@) is Text && txid is Ok && json.at(
            "address"@,
        ) is Text && address is Ok && (json.at("vout"@) matches Json::Number(n)
            && n.unsigned is Some) && (json.at("amount"@) matches Json::Number(n) && n.sats is Ok),
        utxo_from(json, txid, address) matches Ok(u) ==> {
            &&& txid == Ok::<Seq<u8>, Seq<char>>(u.txid)
            &&& address == Ok::<PaymentAddressView, Seq<char>>(u.address)
            &&& json.at("amount"@) matches Json::Number(n)
            &&& n.sats == Ok::<u64, String>(u.amount)
            &&& json.at("vout"@) matches Json::Number(m)
            &&& m.unsigned matches Some(v)
            &&& v <= u32::MAX ==> u.vout == v
        },
{
}

/// A list of outputs is read exactly if each of them is, and then holds them in their order.
pub proof fn law_every_output_is_read(s: Seq<Json>)
    ensures
        utxos_of(s) is Ok <==> forall|i: int| 0 <= i < s.len() ==> utxo_of(#[trigger] s[i]) is Ok,
        utxos_of(s) matches Ok(us) ==> us.len() == s.len() && forall|i: int|
            0 <= i < s.len() ==> utxo_of(s[i]) == Ok::<UtxoView, Seq<char>>(#[trigger] us[i]),
    decreases s.len(),
{
    if s.len() > 0 {
        let t = s.drop_last();
        law_every_output_is_read(t);
        assert(forall|i: int| 0 <= i < t.len() ==> t[i] == s[i]);
        if utxos_of(s) is Ok {
            assert forall|i: int| 0 <= i < s.len() implies utxo_of(#[trigger] s[i]) is Ok by {
                if i < t.len() {
                    assert(utxo_of(t[i]) is Ok);
                }
            }
        }
        if forall|i: int| 0 <= i < s.len() ==> utxo_of(#[trigger] s[i]) is Ok {
            assert forall|i: int| 0 <= i < t.len() implies utxo_of(#[trigger] t[i]) is Ok by {
                assert(utxo_of(s[i]) is Ok);
            }
            assert(utxo_of(s[s.len() - 1]) is Ok);
        }
    }
}

/// An address can be used exactly if it was read and is one of the network, and is then the one read.
pub proof fn law_only_addresses_of_the_network_are_used(
    text: Seq<char>,
    address: Result<PaymentAddressView, Seq<char>>,
    problem: Option<Seq<char>>,
)
    ensures
        new_address_of(text, address, problem) is Ok <==> address is Ok && problem is None,
        new_address_of(text, address, problem) is Ok ==> new_address_of(text, address, problem)
            == address,
        new_address_of(text, address, problem) matches Err(m) ==> {
            &&& address matches Err(e) ==> m == "bitcoind returned invalid address "@ + text + ": "@
                + e
            &&& address is Ok ==> m == "bitcoind returned address for wrong network: "@ + problem->0
        },
{
}

} // verus!
