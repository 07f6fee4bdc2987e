//! Funding a channel with a transaction of bitcoind's wallet.
use crate::hex_utils;
use crate::hex_utils::to_vec;
use crate::logging;
use crate::logging::{user_err, Message, MessageView};
use crate::network::Network;
use bitcoin::consensus::encode::deserialize;
use bitcoin::Transaction;
use bitcoin_bech32::constants::Network as AddressNetwork;
use bitcoin_bech32::WitnessProgram;
use vstd::prelude::*;

verus! {

/// The address of an output script on a network, or the error as text: what
/// `bitcoin_bech32::WitnessProgram::from_scriptpubkey` and `to_address` make of it.
pub uninterp spec fn script_address(script: Seq<u8>, network: Network) -> Result<
    Seq<char>,
    Seq<char>,
>;

/// Whether the version of a script can be read: a script whose length is right has a version of at
/// most 31, written as it is or as an opcode.
pub open spec fn has_version(script: Seq<u8>) -> bool {
    script.len() >= 4 && script.len() == 2 + script[1] ==> script[0] <= 31 || 0x51 <= script[0]
        <= 0x6f
}

/// Calls `bitcoin_bech32::WitnessProgram::from_scriptpubkey` and, on the program, `to_address`. The
/// result is the one that `script_address` names. The outside function panics on a script whose
/// version cannot be read.
#[verifier::external_body]
fn derive_address(script: &[u8], network: Network) -> (r: Result<String, String>)
    requires
        has_version(script@),
    ensures
        match r {
            Ok(a) => script_address(script@, network) == Ok::<Seq<char>, Seq<char>>(a@),
            Err(e) => script_address(script@, network) == Err::<Seq<char>, Seq<char>>(e@),
        },
{
    let network = match network {
        Network::Bitcoin => AddressNetwork::Bitcoin,
        Network::Regtest => AddressNetwork::Regtest,
        Network::Signet => AddressNetwork::Signet,
        Network::Testnet => AddressNetwork::Testnet,
    };
    match WitnessProgram::from_scriptpubkey(script, network) {
        Ok(program) => Ok(program.to_address()),
        Err(e) => Err(e.to_string()),
    }
}

/// Why some bytes are not one whole transaction, if they are not: the error, as text, of
/// `bitcoin::consensus::encode::deserialize`.
pub uninterp spec fn transaction_problem(bytes: Seq<u8>) -> Option<Seq<char>>;

/// Calls `bitcoin::consensus::encode::deserialize` for a transaction. The result is the one that
/// `transaction_problem` names.
#[verifier::external_body]
fn check_transaction(bytes: &[u8]) -> (r: Option<String>)
    ensures
        match r {
            Some(e) => transaction_problem(bytes@) == Some(e@),
            None => transaction_problem(bytes@) is None,
        },
{
    match deserialize::<Transaction>(bytes) {
        Ok(_) => None,
        Err(e) => Some(e.to_string()),
    }
}

/// Where the funding of a channel stands.
pub enum Funding {
    /// Have bitcoind make a transaction that pays so many satoshis to this address.
    Create { address: String, amount_sat: u64 },
    /// Have bitcoind add inputs to this transaction.
    Fund { raw_tx: String },
    /// Have bitcoind sign this transaction.
    Sign { tx: String },
    /// Fund the channel with this transaction.
    Submit { transaction: Vec<u8> },
    /// The channel cannot be funded.
    Failed(Message),
}

/// Where the funding of a channel stands, with sequences in place of texts and bytes.
pub enum FundingView {
    Create { address: Seq<char>, amount_sat: u64 },
    Fund { raw_tx: Seq<char> },
    Sign { tx: Seq<char> },
    Submit { transaction: Seq<u8> },
    Failed(MessageView),
}

impl View for Funding {
    type V = FundingView;

    open spec fn view(&self) -> FundingView {
        match self {
            Funding::Create { address, amount_sat } => FundingView::Create {
                address: address@,
                amount_sat: *amount_sat,
            },
            Funding::Fund { raw_tx } => FundingView::Fund { raw_tx: raw_tx@ },
            Funding::Sign { tx } => FundingView::Sign { tx: tx@ },
            Funding::Submit { transaction } => FundingView::Submit { transaction: transaction@ },
            Funding::Failed(m) => FundingView::Failed(m@),
        }
    }
}

fn fail(what: &str, e: &str) -> (r: Funding)
    ensures
        r@ == FundingView::Failed(logging::err(what@ + e@)),
{
    let mut t = what.to_owned();
    t.append(e);
    Funding::Failed(user_err(t))
}

/// The step that follows the derivation of the address: the channel's whole value is paid to it.
pub open spec fn addressed(
    address: Result<Seq<char>, Seq<char>>,
    channel_value_satoshis: u64,
) -> FundingView {
    match address {
        Ok(a) => FundingView::Create { address: a, amount_sat: channel_value_satoshis },
        Err(e) => FundingView::Failed(
            logging::err("failed to derive funding address from script: "@ + e),
        ),
    }
}

/// The step that follows the derivation of the address, or the error of it.
pub fn funding_addressed(address: Result<String, String>, channel_value_satoshis: u64) -> (r:
    Funding)
    ensures
        r@ == addressed(
            match address {
                Ok(a) => Ok(a@),
                Err(e) => Err(e@),
            },
            channel_value_satoshis,
        ),
{
    match address {
        Ok(address) => Funding::Create { address, amount_sat: channel_value_satoshis },
        Err(e) => fail("failed to derive funding address from script: ", e.as_str()),
    }
}

/// Whether the version of a script can be read.
pub fn script_has_version(script: &[u8]) -> (r: bool)
    ensures
        r == has_version(script@),
{
    if script.len() >= 4 && script.len() == 2 + script[1] as usize {
        script[0] <= 31 || (0x51 <= script[0] && script[0] <= 0x6f)
    } else {
        true
    }
}

/// Begins to fund a channel whose funding output has this value and the script `output_script`.
pub fn handle_funding_generation_ready(
    channel_value_satoshis: u64,
    output_script: &[u8],
    network: Network,
) -> (r: Funding)
    requires
        has_version(output_script@),
    ensures
        r@ == addressed(script_address(output_script@, network), channel_value_satoshis),
{
    funding_addressed(derive_address(output_script, network), channel_value_satoshis)
}

/// The step that follows the transaction that bitcoind has made, or the error of it.
pub open spec fn created(outcome: Result<Seq<char>, Seq<char>>) -> FundingView {
    match outcome {
        Ok(raw_tx) => FundingView::Fund { raw_tx },
        Err(e) => FundingView::Failed(
            logging::err("failed to create raw funding transaction: "@ + e),
        ),
    }
}

/// The step that follows the inputs that bitcoind has added, or the error of it.
pub open spec fn funded(outcome: Result<Seq<char>, Seq<char>>) -> FundingView {
    match outcome {
        Ok(tx) => FundingView::Sign { tx },
        Err(e) => FundingView::Failed(logging::err("failed to fund raw transaction: "@ + e)),
    }
}

/// Goes on once bitcoind has made the transaction, or has failed to.
pub fn funding_created(outcome: Result<String, String>) -> (r: Funding)
    ensures
        r@ == created(
            match outcome {
                Ok(t) => Ok(t@),
                Err(e) => Err(e@),
            },
        ),
        r@ == (match outcome {
            Ok(raw_tx) => FundingView::Fund { raw_tx: raw_tx@ },
            Err(e) => FundingView::Failed(
                logging::err("failed to create raw funding transaction: "@ + e@),
            ),
        }),
{
    match outcome {
        Ok(raw_tx) => Funding::Fund { raw_tx },
        Err(e) => fail("failed to create raw funding transaction: ", e.as_str()),
    }
}

/// Goes on once bitcoind has added inputs, or has failed to.
pub fn funding_funded(outcome: Result<String, String>) -> (r: Funding)
    ensures
        r@ == funded(
            match outcome {
                Ok(t) => Ok(t@),
                Err(e) => Err(e@),
            },
        ),
        r@ == (match outcome {
            Ok(tx) => FundingView::Sign { tx: tx@ },
            Err(e) => FundingView::Failed(
                logging::err("failed to fund raw transaction: "@ + e@),
            ),
        }),
{
    match outcome {
        Ok(tx) => Funding::Sign { tx },
        Err(e) => fail("failed to fund raw transaction: ", e.as_str()),
    }
}

/// The step that follows the signature. `problem` says why the bytes of the signed transaction are
/// not a transaction, if they are not.
pub open spec fn signed(
    complete: bool,
    hex: Seq<char>,
    problem: Option<Seq<char>>,
) -> FundingView {
    if !complete {
        FundingView::Failed(
            logging::err("Wallet returned incomplete funding transaction signature"@),
        )
    } else {
        match hex_utils::hex_bytes(hex) {
            None => FundingView::Failed(
                logging::err("Failed to decode signed funding transaction hex"@),
            ),
            Some(transaction) => match problem {
                Some(e) => FundingView::Failed(
                    logging::err("Failed to deserialize signed funding transaction: "@ + e),
                ),
                None => FundingView::Submit { transaction },
            },
        }
    }
}

/// The step that follows the check of the signed transaction, where `problem` says what is wrong
/// with it.
pub fn funding_checked(transaction: Vec<u8>, problem: Option<String>) -> (r: Funding)
    ensures
        r@ == (match problem {
            Some(e) => FundingView::Failed(
                logging::err("Failed to deserialize signed funding transaction: "@ + e@),
            ),
            None => FundingView::Submit { transaction: transaction@ },
        }),
{
    match problem {
        Some(e) => fail("Failed to deserialize signed funding transaction: ", e.as_str()),
        None => Funding::Submit { transaction },
    }
}

/// Goes on once bitcoind has signed the transaction, wholly or in part, or has failed to.
pub fn funding_signed(outcome: Result<(bool, String), String>) -> (r: Funding)
    ensures
        r@ == (match outcome {
            Ok((complete, hex)) => signed(
                complete,
                hex@,
                transaction_problem(hex_utils::hex_bytes(hex@)->0),
            ),
            Err(e) => FundingView::Failed(
                logging::err("failed to sign funding transaction: "@ + e@),
            ),
        }),
{
    match outcome {
        Ok((complete, hex)) => {
            if !complete {
                return Funding::Failed(
                    user_err("Wallet returned incomplete funding transaction signature".to_owned()),
                );
            }
            match to_vec(hex.as_str()) {
                None => Funding::Failed(
                    user_err("Failed to decode signed funding transaction hex".to_owned()),
                ),
                Some(transaction) => {
                    let problem = check_transaction(transaction.as_slice());
                    funding_checked(transaction, problem)
                },
            }
        },
        Err(e) => fail("failed to sign funding transaction: ", e.as_str()),
    }
}

/// What is said once the transaction was handed over, if the channel is gone.
pub fn funding_submitted(accepted: bool) -> (r: Option<Message>)
    ensures
        match r {
            None => accepted,
            Some(m) => !accepted && m@ == logging::err(
                "Channel went away before we could fund it. The peer disconnected or refused the channel."@,
            ),
        },
{
    if accepted {
        None
    } else {
        Some(
            user_err(
                "Channel went away before we could fund it. The peer disconnected or refused the channel.".to_owned(),
            ),
        )
    }
}

/// A channel is funded in four steps, each on what the one before gave: the whole value is paid to the
/// channel's address, that transaction gets inputs, that one is signed, and the signed one funds the
/// channel.
pub proof fn law_funding_goes_step_by_step(
    address: Seq<char>,
    value: u64,
    raw_tx: Seq<char>,
    tx: Seq<char>,
    hex: Seq<char>,
    bytes: Seq<u8>,
)
    ensures
        addressed(Ok(address), value) == (FundingView::Create { address, amount_sat: value }),
        created(Ok(raw_tx)) == (FundingView::Fund { raw_tx }),
        funded(Ok(tx)) == (FundingView::Sign { tx }),
        hex_utils::hex_bytes(hex) == Some(bytes) ==> signed(true, hex, None) == (
        FundingView::Submit { transaction: bytes }),
        signed(true, hex_utils::hex_of(bytes), None) == (FundingView::Submit {
            transaction: bytes,
        }),
{
    hex_utils::law_hex_round_trip(bytes);
}

/// Only a completely signed transaction that can be read funds a channel. Every failure ends the funding
/// and is said as an error.
pub proof fn law_only_whole_transactions_fund(
    complete: bool,
    hex: Seq<char>,
    problem: Option<Seq<char>>,
    value: u64,
    e: Seq<char>,
)
    ensures
        signed(complete, hex, problem) is Submit <==> complete && hex_utils::hex_bytes(hex) is Some
            && problem is None,
        signed(complete, hex, problem) is Submit || (signed(
            complete,
            hex,
            problem,
        ) matches FundingView::Failed(m) && m.level == logging::Level::Error),
        addressed(Err(e), value) matches FundingView::Failed(m) && m.level
            == logging::Level::Error,
        created(Err(e)) matches FundingView::Failed(m) && m.level == logging::Level::Error,
        funded(Err(e)) matches FundingView::Failed(m) && m.level == logging::Level::Error,
{
}

} // verus!
