//! Talking to bitcoind: credentials, feerates, and the outputs of its wallet.
use crate::convert;
use crate::convert::{ListUnspentUtxo, PaymentAddressView, Txid, UtxoView};
use crate::logging;
use crate::logging::{log_error, log_warn, Level, Message, MessageView};
use vstd::prelude::*;

verus! {

/// The base64 encoding of the bytes of a text: what `base64::encode` gives.
pub uninterp spec fn base64_of(text: Seq<char>) -> Seq<char>;

/// Calls `base64::encode`. The result is the one that `base64_of` names.
#[verifier::external_body]
fn base64_encode(text: &str) -> (r: String)
    ensures
        r@ == base64_of(text@),
{
    base64::encode(text)
}

/// The credentials of a user and a password.
pub fn rpc_credentials(rpc_user: &str, rpc_password: &str) -> (r: String)
    ensures
        r@ == base64_of(rpc_user@ + ":"@ + rpc_password@),
{
    let mut t = rpc_user.to_owned();
    t.append(":");
    t.append(rpc_password);
    base64_encode(t.as_str())
}

/// The least feerate that may be used, in satoshis for a thousand weight units.
pub const MIN_FEERATE: u32 = 253;

/// How many seconds pass between two polls for feerates.
pub const FEE_POLL_SECS: u64 = 60;

/// What a feerate is used for.
#[derive(Clone, Copy, Debug, PartialEq, Eq, Structural)]
pub enum ConfirmationTarget {
    /// The largest feerate that a peer may ask for.
    MaximumFeeEstimate,
    /// Claiming what would be lost otherwise.
    UrgentOnChainSweep,
    /// The least feerate that a peer may ask for, in a channel with anchors.
    MinAllowedAnchorChannelRemoteFee,
    /// The least feerate that a peer may ask for, in a channel without anchors.
    MinAllowedNonAnchorChannelRemoteFee,
    /// The feerate of a channel with anchors.
    AnchorChannelFee,
    /// The feerate of a channel without anchors.
    NonAnchorChannelFee,
    /// The least feerate for closing a channel.
    ChannelCloseMinimum,
    /// Spending outputs in no hurry.
    OutputSpendingFee,
}

/// The feerates.
#[derive(Clone, Copy, Debug, PartialEq, Eq)]
pub struct FeeTable {
    pub maximum_fee_estimate: u32,
    pub urgent_on_chain_sweep: u32,
    pub min_allowed_anchor_channel_remote_fee: u32,
    pub min_allowed_non_anchor_channel_remote_fee: u32,
    pub anchor_channel_fee: u32,
    pub non_anchor_channel_fee: u32,
    pub channel_close_minimum: u32,
    pub output_spending_fee: u32,
}

/// Whether every feerate is the one that is used where bitcoind has no estimate.
pub open spec fn initial(fees: FeeTable) -> bool {
    forall|u: Urgency| fees.feerate(#[trigger] u.kept()) == u.fallback()
}

/// Before bitcoind was asked, a poll that gives no estimate at all changes no feerate of an estimate.
pub proof fn law_fallbacks_are_the_first_feerates(
    fees: FeeTable,
    replies: FeeReplies,
    urgency: Urgency,
)
    requires
        initial(fees),
        !(replies.background matches Ok(Some(_))),
        !(replies.normal matches Ok(Some(_))),
        !(replies.high matches Ok(Some(_))),
        !(replies.very_high matches Ok(Some(_))),
    ensures
        polled(fees, replies).feerate(urgency.kept()) == fees.feerate(urgency.kept()),
{
    law_urgencies_have_their_uses(fees, replies, urgency);
    assert(fees.feerate(urgency.kept()) == urgency.fallback());
}

impl FeeTable {
    /// The feerate for a use.
    pub open spec fn feerate(self, target: ConfirmationTarget) -> u32 {
        match target {
            ConfirmationTarget::MaximumFeeEstimate => self.maximum_fee_estimate,
            ConfirmationTarget::UrgentOnChainSweep => self.urgent_on_chain_sweep,
            ConfirmationTarget::MinAllowedAnchorChannelRemoteFee =>
                self.min_allowed_anchor_channel_remote_fee,
            ConfirmationTarget::MinAllowedNonAnchorChannelRemoteFee =>
                self.min_allowed_non_anchor_channel_remote_fee,
            ConfirmationTarget::AnchorChannelFee => self.anchor_channel_fee,
            ConfirmationTarget::NonAnchorChannelFee => self.non_anchor_channel_fee,
            ConfirmationTarget::ChannelCloseMinimum => self.channel_close_minimum,
            ConfirmationTarget::OutputSpendingFee => self.output_spending_fee,
        }
    }

    /// The feerates before bitcoind was asked.
    pub fn new() -> (r: FeeTable)
        ensures
            r == (FeeTable {
                maximum_fee_estimate: 50000,
                urgent_on_chain_sweep: 5000,
                min_allowed_anchor_channel_remote_fee: MIN_FEERATE,
                min_allowed_non_anchor_channel_remote_fee: MIN_FEERATE,
                anchor_channel_fee: MIN_FEERATE,
                non_anchor_channel_fee: 2000,
                channel_close_minimum: MIN_FEERATE,
                output_spending_fee: MIN_FEERATE,
            }),
            initial(r),
    {
        FeeTable {
            maximum_fee_estimate: 50000,
            urgent_on_chain_sweep: 5000,
            min_allowed_anchor_channel_remote_fee: MIN_FEERATE,
            min_allowed_non_anchor_channel_remote_fee: MIN_FEERATE,
            anchor_channel_fee: MIN_FEERATE,
            non_anchor_channel_fee: 2000,
            channel_close_minimum: MIN_FEERATE,
            output_spending_fee: MIN_FEERATE,
        }
    }

    /// The feerate for a use.
    pub fn get_est_sat_per_1000_weight(&self, confirmation_target: ConfirmationTarget) -> (r: u32)
        ensures
            r == self.feerate(confirmation_target),
    {
        match confirmation_target {
            ConfirmationTarget::MaximumFeeEstimate => self.maximum_fee_estimate,
            ConfirmationTarget::UrgentOnChainSweep => self.urgent_on_chain_sweep,
            ConfirmationTarget::MinAllowedAnchorChannelRemoteFee =>
                self.min_allowed_anchor_channel_remote_fee,
            ConfirmationTarget::MinAllowedNonAnchorChannelRemoteFee =>
                self.min_allowed_non_anchor_channel_remote_fee,
            ConfirmationTarget::AnchorChannelFee => self.anchor_channel_fee,
            ConfirmationTarget::NonAnchorChannelFee => self.non_anchor_channel_fee,
            ConfirmationTarget::ChannelCloseMinimum => self.channel_close_minimum,
            ConfirmationTarget::OutputSpendingFee => self.output_spending_fee,
        }
    }
}

/// How urgent an estimate is.
#[derive(Clone, Copy, Debug, PartialEq, Eq, Structural)]
pub enum Urgency {
    /// Not at all.
    Background,
    /// Somewhat.
    Normal,
    /// Very.
    High,
    /// Extremely.
    VeryHigh,
}

impl Urgency {
    /// In how many blocks a transaction should confirm.
    pub open spec fn blocks(self) -> u32 {
        match self {
            Urgency::Background => 144,
            Urgency::Normal => 18,
            Urgency::High => 6,
            Urgency::VeryHigh => 2,
        }
    }

    /// How careful the estimate should be.
    pub open spec fn mode(self) -> Seq<char> {
        match self {
            Urgency::Background => "ECONOMICAL"@,
            Urgency::Normal => "ECONOMICAL"@,
            Urgency::High => "CONSERVATIVE"@,
            Urgency::VeryHigh => "CONSERVATIVE"@,
        }
    }

    /// The feerate where bitcoind has no estimate.
    pub open spec fn fallback(self) -> u32 {
        match self {
            Urgency::Background => MIN_FEERATE,
            Urgency::Normal => 2000,
            Urgency::High => 5000,
            Urgency::VeryHigh => 50000,
        }
    }

    /// The use whose feerate is kept where bitcoind does not answer.
    pub open spec fn kept(self) -> ConfirmationTarget {
        match self {
            Urgency::Background => ConfirmationTarget::AnchorChannelFee,
            Urgency::Normal => ConfirmationTarget::NonAnchorChannelFee,
            Urgency::High => ConfirmationTarget::UrgentOnChainSweep,
            Urgency::VeryHigh => ConfirmationTarget::MaximumFeeEstimate,
        }
    }

    /// The name in messages.
    pub open spec fn label(self) -> Seq<char> {
        match self {
            Urgency::Background => "background"@,
            Urgency::Normal => "normal"@,
            Urgency::High => "high-priority"@,
            Urgency::VeryHigh => "very-high-priority"@,
        }
    }

    /// The arguments of the question for an estimate: the number of blocks and the mode.
    pub fn request(&self) -> (r: (u32, &'static str))
        ensures
            r.0 == self.blocks(),
            r.1@ == self.mode(),
    {
        match self {
            Urgency::Background => (144, "ECONOMICAL"),
            Urgency::Normal => (18, "ECONOMICAL"),
            Urgency::High => (6, "CONSERVATIVE"),
            Urgency::VeryHigh => (2, "CONSERVATIVE"),
        }
    }

    fn get_fallback(&self) -> (r: u32)
        ensures
            r == self.fallback(),
    {
        match self {
            Urgency::Background => MIN_FEERATE,
            Urgency::Normal => 2000,
            Urgency::High => 5000,
            Urgency::VeryHigh => 50000,
        }
    }

    fn get_kept(&self) -> (r: ConfirmationTarget)
        ensures
            r == self.kept(),
    {
        match self {
            Urgency::Background => ConfirmationTarget::AnchorChannelFee,
            Urgency::Normal => ConfirmationTarget::NonAnchorChannelFee,
            Urgency::High => ConfirmationTarget::UrgentOnChainSweep,
            Urgency::VeryHigh => ConfirmationTarget::MaximumFeeEstimate,
        }
    }

    fn get_label(&self) -> (r: &'static str)
        ensures
            r@ == self.label(),
    {
        match self {
            Urgency::Background => "background",
            Urgency::Normal => "normal",
            Urgency::High => "high-priority",
            Urgency::VeryHigh => "very-high-priority",
        }
    }
}

/// At least the least feerate.
pub open spec fn floored(feerate: u32) -> u32 {
    if feerate < MIN_FEERATE {
        MIN_FEERATE
    } else {
        feerate
    }
}

fn floor_feerate(feerate: u32) -> (r: u32)
    ensures
        r == floored(feerate),
{
    if feerate < MIN_FEERATE {
        MIN_FEERATE
    } else {
        feerate
    }
}

/// What bitcoind answered to a question for a feerate: perhaps one, or an error.
pub type FeeReply = Result<Option<u32>, String>;

/// The feerate that follows from an answer: what bitcoind says, but not too little; the fallback if
/// it has none; the previous one if it did not answer.
pub open spec fn estimate(reply: FeeReply, fallback: u32, previous: u32) -> u32 {
    match reply {
        Ok(Some(feerate)) => floored(feerate),
        Ok(None) => fallback,
        Err(_) => previous,
    }
}

/// What is said about an answer: that it failed, if it did.
pub open spec fn failure(reply: FeeReply, question: Seq<char>) -> Seq<MessageView> {
    match reply {
        Ok(_) => Seq::empty(),
        Err(e) => seq![
            logging::log(
                Level::Warn,
                "Fee polling "@ + question + " failed: "@ + e@ + ". Keeping previous value."@,
            ),
        ],
    }
}

fn failure_message(question: &str, e: &str) -> (r: Message)
    ensures
        r@ == logging::log(
            Level::Warn,
            "Fee polling "@ + question@ + " failed: "@ + e@ + ". Keeping previous value."@,
        ),
{
    let mut t = "Fee polling ".to_owned();
    t.append(question);
    t.append(" failed: ");
    t.append(e);
    t.append(". Keeping previous value.");
    log_warn(t)
}

/// The feerate of an urgency that follows from bitcoind's answer to `estimatesmartfee`.
pub fn estimate_smartfee(fees: &FeeTable, urgency: Urgency, reply: &FeeReply) -> (r: (
    u32,
    Option<Message>,
))
    ensures
        r.0 == estimate(*reply, urgency.fallback(), fees.feerate(urgency.kept())),
        match r.1 {
            None => failure(*reply, urgency.label() + " estimatesmartfee"@).len() == 0,
            Some(m) => failure(*reply, urgency.label() + " estimatesmartfee"@) == seq![m@],
        },
{
    match reply {
        Ok(Some(feerate)) => (floor_feerate(*feerate), None),
        Ok(None) => (urgency.get_fallback(), None),
        Err(e) => {
            let mut question = urgency.get_label().to_owned();
            question.append(" estimatesmartfee");
            (
                fees.get_est_sat_per_1000_weight(urgency.get_kept()),
                Some(failure_message(question.as_str(), e.as_str())),
            )
        },
    }
}

/// The least feerate of the mempool that follows from bitcoind's answer to `getmempoolinfo`.
pub fn estimate_mempool_minimum(fees: &FeeTable, reply: &FeeReply) -> (r: (u32, Option<Message>))
    ensures
        r.0 == estimate(*reply, MIN_FEERATE, fees.min_allowed_anchor_channel_remote_fee),
        match r.1 {
            None => failure(*reply, "getmempoolinfo"@).len() == 0,
            Some(m) => failure(*reply, "getmempoolinfo"@) == seq![m@],
        },
{
    match reply {
        Ok(Some(feerate)) => (floor_feerate(*feerate), None),
        Ok(None) => (MIN_FEERATE, None),
        Err(e) => (
            fees.min_allowed_anchor_channel_remote_fee,
            Some(failure_message("getmempoolinfo", e.as_str())),
        ),
    }
}

/// The answers of one poll.
pub struct FeeReplies {
    /// The least feerate of the mempool.
    pub mempool: FeeReply,
    /// The estimate that is not urgent.
    pub background: FeeReply,
    /// The estimate that is somewhat urgent.
    pub normal: FeeReply,
    /// The urgent estimate.
    pub high: FeeReply,
    /// The most urgent estimate.
    pub very_high: FeeReply,
}

/// How far a peer in a channel without anchors may fall below the estimate.
pub const REMOTE_FEE_SLACK: u32 = 250;

/// The feerates after a poll.
pub open spec fn polled(fees: FeeTable, replies: FeeReplies) -> FeeTable {
    let background = estimate(replies.background, MIN_FEERATE, fees.anchor_channel_fee);
    FeeTable {
        maximum_fee_estimate: estimate(replies.very_high, 50000, fees.maximum_fee_estimate),
        urgent_on_chain_sweep: estimate(replies.high, 5000, fees.urgent_on_chain_sweep),
        min_allowed_anchor_channel_remote_fee: estimate(
            replies.mempool,
            MIN_FEERATE,
            fees.min_allowed_anchor_channel_remote_fee,
        ),
        min_allowed_non_anchor_channel_remote_fee: if background >= REMOTE_FEE_SLACK {
            (background - REMOTE_FEE_SLACK) as u32
        } else {
            0
        },
        anchor_channel_fee: background,
        non_anchor_channel_fee: estimate(replies.normal, 2000, fees.non_anchor_channel_fee),
        channel_close_minimum: background,
        output_spending_fee: background,
    }
}

/// What is said about a poll: each answer that failed, in the order of the questions.
pub open spec fn poll_said(replies: FeeReplies) -> Seq<MessageView> {
    failure(replies.mempool, "getmempoolinfo"@) + failure(
        replies.background,
        Urgency::Background.label() + " estimatesmartfee"@,
    ) + failure(replies.normal, Urgency::Normal.label() + " estimatesmartfee"@) + failure(
        replies.high,
        Urgency::High.label() + " estimatesmartfee"@,
    ) + failure(replies.very_high, Urgency::VeryHigh.label() + " estimatesmartfee"@)
}

fn say(messages: &mut Vec<Message>, m: Option<Message>)
    ensures
        logging::message_views(final(messages)@) == logging::message_views(old(messages)@) + (
        match m {
            Some(m) => seq![m@],
            None => Seq::empty(),
        }),
{
    match m {
        Some(m) => {
            messages.push(m);
            assert(logging::message_views(messages@) =~= logging::message_views(
                old(messages)@,
            ) + seq![m@]);
        },
        None => {
            assert(logging::message_views(messages@) + Seq::<MessageView>::empty()
                =~= logging::message_views(messages@));
        },
    }
}

/// Takes the answers of a poll into the feerates. The result is what is said about them.
pub fn poll_for_fee_estimates(fees: &mut FeeTable, replies: &FeeReplies) -> (r: Vec<Message>)
    ensures
        *final(fees) == polled(*old(fees), *replies),
        logging::message_views(r@) == poll_said(*replies),
{
    let (mempool_minimum, m0): (u32, Option<Message>) = estimate_mempool_minimum(
        fees,
        &replies.mempool,
    );
    let (background, m1): (u32, Option<Message>) = estimate_smartfee(
        fees,
        Urgency::Background,
        &replies.background,
    );
    let (normal, m2): (u32, Option<Message>) = estimate_smartfee(
        fees,
        Urgency::Normal,
        &replies.normal,
    );
    let (high, m3): (u32, Option<Message>) = estimate_smartfee(fees, Urgency::High, &replies.high);
    let (very_high, m4): (u32, Option<Message>) = estimate_smartfee(
        fees,
        Urgency::VeryHigh,
        &replies.very_high,
    );
    fees.maximum_fee_estimate = very_high;
    fees.urgent_on_chain_sweep = high;
    fees.min_allowed_anchor_channel_remote_fee = mempool_minimum;
    fees.min_allowed_non_anchor_channel_remote_fee = if background >= REMOTE_FEE_SLACK {
        background - REMOTE_FEE_SLACK
    } else {
        0
    };
    fees.anchor_channel_fee = background;
    fees.non_anchor_channel_fee = normal;
    fees.channel_close_minimum = background;
    fees.output_spending_fee = background;
    let mut messages: Vec<Message> = Vec::new();
    assert(logging::message_views(messages@) =~= Seq::<MessageView>::empty());
    say(&mut messages, m0);
    say(&mut messages, m1);
    say(&mut messages, m2);
    say(&mut messages, m3);
    say(&mut messages, m4);
    assert(logging::message_views(messages@) =~= poll_said(*replies));
    messages
}

/// Whether every feerate but the slack one is at least the least feerate.
pub open spec fn above_floor(fees: FeeTable) -> bool {
    forall|t: ConfirmationTarget|
        t != ConfirmationTarget::MinAllowedNonAnchorChannelRemoteFee ==> #[trigger] fees.feerate(t)
            >= MIN_FEERATE
}

/// Whatever bitcoind answers, a poll keeps every feerate but the slack one at the least feerate or
/// above; and a poll without answers changes no feerate but the slack one and those that follow the
/// estimate for channels with anchors.
pub proof fn law_polls_keep_the_floor(fees: FeeTable, replies: FeeReplies)
    requires
        above_floor(fees),
    ensures
        above_floor(polled(fees, replies)),
        polled(fees, replies).min_allowed_non_anchor_channel_remote_fee >= 3,
        replies.mempool is Err && replies.background is Err && replies.normal is Err
            && replies.high is Err && replies.very_high is Err ==> {
            let p = polled(fees, replies);
            &&& p.maximum_fee_estimate == fees.maximum_fee_estimate
            &&& p.urgent_on_chain_sweep == fees.urgent_on_chain_sweep
            &&& p.min_allowed_anchor_channel_remote_fee
                == fees.min_allowed_anchor_channel_remote_fee
            &&& p.anchor_channel_fee == fees.anchor_channel_fee
            &&& p.non_anchor_channel_fee == fees.non_anchor_channel_fee
        },
{
    assert(fees.feerate(ConfirmationTarget::MaximumFeeEstimate) >= MIN_FEERATE);
    assert(fees.feerate(ConfirmationTarget::UrgentOnChainSweep) >= MIN_FEERATE);
    assert(fees.feerate(ConfirmationTarget::MinAllowedAnchorChannelRemoteFee) >= MIN_FEERATE);
    assert(fees.feerate(ConfirmationTarget::AnchorChannelFee) >= MIN_FEERATE);
    assert(fees.feerate(ConfirmationTarget::NonAnchorChannelFee) >= MIN_FEERATE);
}

/// The method by which transactions are broadcast.
pub open spec fn broadcast_by(transactions: nat) -> Seq<char> {
    if transactions == 1 {
        "sendrawtransaction"@
    } else {
        "submitpackage"@
    }
}

/// A single transaction is sent on its own, and several are never sent that way.
pub proof fn law_packages_are_for_several(transactions: nat)
    ensures
        broadcast_by(transactions) == "sendrawtransaction"@ <==> transactions == 1,
        broadcast_by(transactions) == "submitpackage"@ <==> transactions != 1,
{
    reveal_strlit("sendrawtransaction");
    reveal_strlit("submitpackage");
    assert("sendrawtransaction"@[1] == 'e' && "submitpackage"@[1] == 'u');
}

/// The method by which transactions are broadcast: a single one on its own, more as a package.
pub fn broadcast_method(transactions: usize) -> (r: &'static str)
    ensures
        r@ == broadcast_by(transactions as nat),
        r@ == (if transactions == 1 {
            "sendrawtransaction"@
        } else {
            "submitpackage"@
        }),
{
    if transactions == 1 {
        "sendrawtransaction"
    } else {
        "submitpackage"
    }
}

/// Texts in quotes, with commas between them.
pub open spec fn quoted(s: Seq<String>) -> Seq<char>
    decreases s.len(),
{
    if s.len() == 0 {
        Seq::empty()
    } else if s.len() == 1 {
        "\""@ + s[0]@ + "\""@
    } else {
        quoted(s.drop_last()) + ", \""@ + s.last()@ + "\""@
    }
}

fn quoted_string(s: &Vec<String>) -> (r: String)
    ensures
        r@ == quoted(s@),
{
    let n: usize = s.len();
    let mut r = String::new();
    let mut i: usize = 0;
    assert(r@ =~= quoted(s@.take(0)));
    while i < n
        invariant
            n == s@.len(),
            i <= n,
            r@ == quoted(s@.take(i as int)),
        decreases n - i,
    {
        let ghost before = r@;
        assert(s@.take(i + 1).drop_last() == s@.take(i as int));
        if i == 0 {
            r.append("\"");
        } else {
            r.append(", \"");
        }
        r.append(s[i].as_str());
        r.append("\"");
        proof {
            if i == 0 {
                assert(before =~= Seq::<char>::empty());
                assert(r@ =~= "\""@ + s@[0]@ + "\""@);
            }
        }
        i = i + 1;
    }
    assert(s@.take(n as int) == s@);
    r
}

/// What is said when transactions, given in hexadecimal, could not be broadcast.
pub fn broadcast_failed_message(e: &str, transactions: &Vec<String>) -> (r: Message)
    ensures
        r@ == logging::log(
            Level::Error,
            "Warning, failed to broadcast a transaction, this is likely okay but may indicate an error: "@
                + e@ + "\nTransactions: ["@ + quoted(transactions@) + "]"@,
        ),
{
    let mut t =
        "Warning, failed to broadcast a transaction, this is likely okay but may indicate an error: ".to_owned();
    t.append(e);
    t.append("\nTransactions: [");
    t.append(quoted_string(transactions).as_str());
    t.append("]");
    log_error(t)
}

/// Whether 32 bytes are the key of a taproot output: whether `bitcoin::key::XOnlyPublicKey::from_slice`
/// accepts them.
pub uninterp spec fn is_taproot_key(bytes: Seq<u8>) -> bool;

/// Calls `bitcoin::key::XOnlyPublicKey::from_slice` and says whether it accepts the bytes, as
/// `is_taproot_key` names it.
#[verifier::external_body]
fn check_taproot_key(bytes: &[u8]) -> (r: bool)
    ensures
        r == is_taproot_key(bytes@),
{
    bitcoin::key::XOnlyPublicKey::from_slice(bytes).is_ok()
}

/// The weight of what spends a taproot output: an empty script, the number of items, the length of
/// the signature, and the signature.
pub const TAPROOT_WEIGHT: u64 = 70;

/// How an output of the wallet is spent.
#[derive(Clone, Copy, Debug, PartialEq, Eq, Structural)]
pub enum UtxoKind {
    /// With a signature for the key whose hash the output holds.
    KeyHash,
    /// With a signature for the key that the output holds.
    Taproot,
}

/// How an output to an address is spent, if the node can spend it. `taproot` says whether the
/// program is the key of a taproot output.
pub open spec fn spendable_as(a: PaymentAddressView, taproot: bool) -> Option<UtxoKind> {
    match a.witness {
        None => None,
        Some((version, program)) => if version == 0 && program.len() == 20 {
            Some(UtxoKind::KeyHash)
        } else if version == 1 && program.len() == 32 && taproot {
            Some(UtxoKind::Taproot)
        } else {
            None
        },
    }
}

/// How an output of the wallet is spent, if the node can spend it, where `taproot` says whether the
/// program is the key of a taproot output.
pub fn utxo_kind_with(utxo: &ListUnspentUtxo, taproot: bool) -> (r: Option<UtxoKind>)
    ensures
        r == spendable_as(utxo.address@, taproot),
{
    match &utxo.address.witness {
        None => None,
        Some((version, program)) => if *version == 0 && program.len() == 20 {
            Some(UtxoKind::KeyHash)
        } else if *version == 1 && program.len() == 32 && taproot {
            Some(UtxoKind::Taproot)
        } else {
            None
        },
    }
}

/// How an output of the wallet is spent, if the node can spend it.
pub fn utxo_kind(utxo: &ListUnspentUtxo) -> (r: Option<UtxoKind>)
    ensures
        r == spendable_as(
            utxo.address@,
            utxo.address@.witness matches Some((_, program)) && is_taproot_key(program),
        ),
{
    let taproot = match &utxo.address.witness {
        None => false,
        Some((_, program)) => check_taproot_key(program.as_slice()),
    };
    utxo_kind_with(utxo, taproot)
}

/// An output of the wallet that the node can spend.
#[derive(Debug)]
pub struct ConfirmedUtxo {
    /// The transaction that it is in.
    pub txid: Txid,
    /// Its position in the transaction.
    pub vout: u32,
    /// Its value in satoshis.
    pub amount: u64,
    /// Its script.
    pub script: Vec<u8>,
    /// The key, or the hash of the key, that it is spent with.
    pub program: Vec<u8>,
    /// How it is spent.
    pub kind: UtxoKind,
}

/// An output that the node can spend, with sequences in place of bytes.
pub struct ConfirmedView {
    /// The transaction that it is in.
    pub txid: Seq<u8>,
    /// Its position in the transaction.
    pub vout: u32,
    /// Its value in satoshis.
    pub amount: u64,
    /// Its script.
    pub script: Seq<u8>,
    /// The key, or the hash of the key, that it is spent with.
    pub program: Seq<u8>,
    /// How it is spent.
    pub kind: UtxoKind,
}

impl View for ConfirmedUtxo {
    type V = ConfirmedView;

    open spec fn view(&self) -> ConfirmedView {
        ConfirmedView {
            txid: self.txid.bytes@,
            vout: self.vout,
            amount: self.amount,
            script: self.script@,
            program: self.program@,
            kind: self.kind,
        }
    }
}

/// How an output of the wallet is spent, if the node can spend it.
pub open spec fn kind_of(u: UtxoView) -> Option<UtxoKind> {
    spendable_as(
        u.address,
        u.address.witness matches Some((_, program)) && is_taproot_key(program),
    )
}

/// The outputs that the node can spend, in order.
pub open spec fn confirmed_of(s: Seq<UtxoView>) -> Seq<ConfirmedView>
    decreases s.len(),
{
    if s.len() == 0 {
        Seq::empty()
    } else {
        let before = confirmed_of(s.drop_last());
        let u = s.last();
        match kind_of(u) {
            None => before,
            Some(kind) => before.push(
                ConfirmedView {
                    txid: u.txid,
                    vout: u.vout,
                    amount: u.amount,
                    script: u.address.script,
                    program: (u.address.witness->0).1,
                    kind,
                },
            ),
        }
    }
}

/// The outputs, each as its view.
pub open spec fn confirmed_views(s: Seq<ConfirmedUtxo>) -> Seq<ConfirmedView> {
    Seq::new(s.len(), |i: int| s[i]@)
}

fn copy_bytes(b: &Vec<u8>) -> (r: Vec<u8>)
    ensures
        r@ == b@,
{
    let mut r: Vec<u8> = Vec::new();
    r.extend_from_slice(b.as_slice());
    assert(r@ =~= b@);
    r
}

/// The outputs of the wallet that the node can spend, in order.
pub fn list_confirmed_utxos(utxos: &Vec<ListUnspentUtxo>) -> (r: Vec<ConfirmedUtxo>)
    ensures
        confirmed_views(r@) == confirmed_of(convert::utxo_views(utxos@)),
{
    let n: usize = utxos.len();
    let ghost all = convert::utxo_views(utxos@);
    let mut r: Vec<ConfirmedUtxo> = Vec::new();
    let mut i: usize = 0;
    assert(confirmed_views(r@) =~= confirmed_of(all.take(0)));
    while i < n
        invariant
            n == utxos@.len(),
            i <= n,
            all == convert::utxo_views(utxos@),
            confirmed_views(r@) == confirmed_of(all.take(i as int)),
        decreases n - i,
    {
        let ghost before = r@;
        assert(all.take(i + 1).drop_last() =~= all.take(i as int));
        assert(all.take(i + 1).last() == utxos@[i as int]@);
        let utxo = &utxos[i];
        match (utxo_kind(utxo), &utxo.address.witness) {
            (Some(kind), Some((_, program))) => {
                let confirmed = ConfirmedUtxo {
                    txid: utxo.txid,
                    vout: utxo.vout,
                    amount: utxo.amount,
                    script: copy_bytes(&utxo.address.script),
                    program: copy_bytes(program),
                    kind,
                };
                r.push(confirmed);
                assert(confirmed_views(r@) =~= confirmed_views(before).push(confirmed@));
            },
            _ => {},
        }
        i = i + 1;
    }
    assert(all.take(n as int) =~= all);
    r
}

/// A feerate that bitcoind answers with is used, unless it is below 253, which is then used: the
/// normal estimate for channels without anchors, the high one for urgent sweeps, the very high one as
/// the maximum, the mempool's minimum as the least for channels with anchors, and the background one
/// for channels with anchors, for closing and for spending outputs.
pub proof fn law_answers_become_feerates(fees: FeeTable, replies: FeeReplies, f: u32)
    ensures
        replies.normal == Ok::<Option<u32>, String>(Some(f)) ==> polled(fees, replies).feerate(
            ConfirmationTarget::NonAnchorChannelFee,
        ) == (if f < 253 { 253 } else { f }),
        replies.high == Ok::<Option<u32>, String>(Some(f)) ==> polled(fees, replies).feerate(
            ConfirmationTarget::UrgentOnChainSweep,
        ) == (if f < 253 { 253 } else { f }),
        replies.very_high == Ok::<Option<u32>, String>(Some(f)) ==> polled(fees, replies).feerate(
            ConfirmationTarget::MaximumFeeEstimate,
        ) == (if f < 253 { 253 } else { f }),
        replies.mempool == Ok::<Option<u32>, String>(Some(f)) ==> polled(fees, replies).feerate(
            ConfirmationTarget::MinAllowedAnchorChannelRemoteFee,
        ) == (if f < 253 { 253 } else { f }),
        replies.background == Ok::<Option<u32>, String>(Some(f)) ==> polled(fees, replies).feerate(
            ConfirmationTarget::AnchorChannelFee,
        ) == (if f < 253 { 253 } else { f }),
{
}

/// Where bitcoind has no estimate the feerate is a fixed one, and where it does not answer the feerate
/// stays.
pub proof fn law_feerates_without_answers(fees: FeeTable, replies: FeeReplies)
    ensures
        ({
            let p = polled(fees, replies);
            let none = Ok::<Option<u32>, String>(None);
            &&& replies.normal == none ==> p.feerate(ConfirmationTarget::NonAnchorChannelFee)
                == 2000
            &&& replies.high == none ==> p.feerate(ConfirmationTarget::UrgentOnChainSweep) == 5000
            &&& replies.very_high == none ==> p.feerate(ConfirmationTarget::MaximumFeeEstimate)
                == 50000
            &&& replies.mempool == none ==> p.feerate(
                ConfirmationTarget::MinAllowedAnchorChannelRemoteFee,
            ) == 253
            &&& replies.background == none ==> p.feerate(ConfirmationTarget::AnchorChannelFee)
                == 253
            &&& replies.normal is Err ==> p.feerate(ConfirmationTarget::NonAnchorChannelFee)
                == fees.feerate(ConfirmationTarget::NonAnchorChannelFee)
            &&& replies.high is Err ==> p.feerate(ConfirmationTarget::UrgentOnChainSweep)
                == fees.feerate(ConfirmationTarget::UrgentOnChainSweep)
            &&& replies.very_high is Err ==> p.feerate(ConfirmationTarget::MaximumFeeEstimate)
                == fees.feerate(ConfirmationTarget::MaximumFeeEstimate)
            &&& replies.mempool is Err ==> p.feerate(
                ConfirmationTarget::MinAllowedAnchorChannelRemoteFee,
            ) == fees.feerate(ConfirmationTarget::MinAllowedAnchorChannelRemoteFee)
            &&& replies.background is Err ==> p.feerate(ConfirmationTarget::AnchorChannelFee)
                == fees.feerate(ConfirmationTarget::AnchorChannelFee)
        }),
{
}

/// After a poll closing and spending cost what a channel with anchors does, and the least for channels
/// without anchors is 250 below that, but not below nothing.
pub proof fn law_background_feerates_agree(fees: FeeTable, replies: FeeReplies)
    ensures
        ({
            let p = polled(fees, replies);
            let background = p.feerate(ConfirmationTarget::AnchorChannelFee);
            &&& p.feerate(ConfirmationTarget::ChannelCloseMinimum) == background
            &&& p.feerate(ConfirmationTarget::OutputSpendingFee) == background
            &&& background >= 250 ==> p.feerate(
                ConfirmationTarget::MinAllowedNonAnchorChannelRemoteFee,
            ) == background - 250
            &&& background < 250 ==> p.feerate(
                ConfirmationTarget::MinAllowedNonAnchorChannelRemoteFee,
            ) == 0
        }),
{
}

/// An answer settles its own feerates alone: two polls that differ in no other answer give the same
/// feerates for the uses of the others.
pub proof fn law_each_answer_has_its_uses(fees: FeeTable, a: FeeReplies, b: FeeReplies)
    ensures
        a.normal == b.normal ==> polled(fees, a).feerate(ConfirmationTarget::NonAnchorChannelFee)
            == polled(fees, b).feerate(ConfirmationTarget::NonAnchorChannelFee),
        a.high == b.high ==> polled(fees, a).feerate(ConfirmationTarget::UrgentOnChainSweep)
            == polled(fees, b).feerate(ConfirmationTarget::UrgentOnChainSweep),
        a.very_high == b.very_high ==> polled(fees, a).feerate(
            ConfirmationTarget::MaximumFeeEstimate,
        ) == polled(fees, b).feerate(ConfirmationTarget::MaximumFeeEstimate),
        a.mempool == b.mempool ==> polled(fees, a).feerate(
            ConfirmationTarget::MinAllowedAnchorChannelRemoteFee,
        ) == polled(fees, b).feerate(ConfirmationTarget::MinAllowedAnchorChannelRemoteFee),
        a.background == b.background ==> polled(fees, a).feerate(
            ConfirmationTarget::AnchorChannelFee,
        ) == polled(fees, b).feerate(ConfirmationTarget::AnchorChannelFee),
{
}

/// Something is said about a poll for each answer that failed, as a warning, and about no other.
pub proof fn law_failed_answers_are_said(replies: FeeReplies)
    ensures
        poll_said(replies).len() == (if replies.mempool is Err {
            1int
        } else {
            0
        }) + (if replies.background is Err {
            1int
        } else {
            0
        }) + (if replies.normal is Err {
            1int
        } else {
            0
        }) + (if replies.high is Err {
            1int
        } else {
            0
        }) + (if replies.very_high is Err {
            1int
        } else {
            0
        }),
        forall|i: int|
            0 <= i < poll_said(replies).len() ==> (#[trigger] poll_said(replies)[i]).level
                == Level::Warn && poll_said(replies)[i].logged && !poll_said(replies)[i].shown,
{
}

/// The more urgent an estimate is, the fewer blocks it may take and the more is paid where there is
/// none: two blocks at the most urgent and a day of them at the least. Only estimates for at most six
/// blocks are conservative.
pub proof fn law_urgent_means_soon(a: Urgency, b: Urgency)
    ensures
        a == Urgency::VeryHigh <==> a.blocks() == 2,
        a == Urgency::High <==> a.blocks() == 6,
        a == Urgency::Normal <==> a.blocks() == 18,
        a == Urgency::Background <==> a.blocks() == 144,
        a.blocks() < b.blocks() <==> a.fallback() > b.fallback(),
        a.blocks() <= 6 <==> a.mode() == "CONSERVATIVE"@,
        a.blocks() > 6 <==> a.mode() == "ECONOMICAL"@,
        a.kept() == b.kept() ==> a == b,
        a.label() == b.label() ==> a == b,
{
    reveal_strlit("CONSERVATIVE");
    reveal_strlit("ECONOMICAL");
    assert("CONSERVATIVE"@[0] == 'C' && "ECONOMICAL"@[0] == 'E');
    reveal_strlit("background");
    reveal_strlit("normal");
    reveal_strlit("high-priority");
    reveal_strlit("very-high-priority");
    assert("background"@[0] == 'b' && "normal"@[0] == 'n' && "high-priority"@[0] == 'h'
        && "very-high-priority"@[0] == 'v');
}

/// The estimate of an urgency is the feerate of one use after a poll, and it is the feerate of that use
/// that stays where bitcoind does not answer.
pub proof fn law_urgencies_have_their_uses(fees: FeeTable, replies: FeeReplies, urgency: Urgency)
    ensures
        ({
            let reply = match urgency {
                Urgency::Background => replies.background,
                Urgency::Normal => replies.normal,
                Urgency::High => replies.high,
                Urgency::VeryHigh => replies.very_high,
            };
            polled(fees, replies).feerate(urgency.kept()) == estimate(
                reply,
                urgency.fallback(),
                fees.feerate(urgency.kept()),
            )
        }),
{
}

/// An output can be spent if it is to the hash of a key or to a taproot key, and not otherwise: not if
/// it is to a script, has no witness program, or has one of a later version.
pub proof fn law_only_key_outputs_are_spendable(a: PaymentAddressView, taproot: bool)
    ensures
        a.witness is None ==> spendable_as(a, taproot) is None,
        spendable_as(a, taproot) == Some(UtxoKind::KeyHash) <==> (a.witness matches Some((v, p))
            && v == 0 && p.len() == 20),
        spendable_as(a, taproot) == Some(UtxoKind::Taproot) <==> (a.witness matches Some((v, p))
            && v == 1 && p.len() == 32 && taproot),
{
}

/// The outputs that the node can spend are all those of the wallet that it can, in order, each with its
/// transaction, position, value, script and program: one more output of the wallet is added at the end
/// if it can be spent, and is left out otherwise.
pub proof fn law_spendable_outputs_are_listed(s: Seq<UtxoView>, u: UtxoView)
    ensures
        confirmed_of(Seq::<UtxoView>::empty()).len() == 0,
        kind_of(u) is None ==> confirmed_of(s.push(u)) == confirmed_of(s),
        kind_of(u) matches Some(kind) ==> {
            let all = confirmed_of(s.push(u));
            &&& all.drop_last() == confirmed_of(s)
            &&& all.last().txid == u.txid
            &&& all.last().vout == u.vout
            &&& all.last().amount == u.amount
            &&& all.last().script == u.address.script
            &&& u.address.witness matches Some((_, program)) && all.last().program == program
            &&& all.last().kind == kind
        },
        (u.address.witness matches Some((v, p)) && v == 0 && p.len() == 20) ==> kind_of(u)
            == Some(UtxoKind::KeyHash),
        (u.address.witness matches Some((v, p)) && v == 1 && p.len() == 32 && is_taproot_key(p))
            <==> kind_of(u) == Some(UtxoKind::Taproot),
{
    assert(s.push(u).drop_last() =~= s);
    if kind_of(u) is Some {
        assert(confirmed_of(s.push(u)).drop_last() =~= confirmed_of(s));
    }
}

} // verus!
