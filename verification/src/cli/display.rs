//! What the listing commands show.
use crate::hex_utils;
use crate::hex_utils::hex_str;
use crate::keys::PublicKey;
use crate::state::{
    HTLCStatus, InboundPaymentInfoStorage, OutboundPaymentInfoStorage, PaymentInfo,
};
use crate::table::{Bytes32, Table};
use crate::text;
use crate::text::number;
use vstd::prelude::*;

verus! {

/// The commands, below the name and the version of the program.
pub const COMMANDS: &'static str = "

USAGE:
  Command [arguments]

COMMANDS:
  help\tShows a list of commands.
  quit\tClose the application.

  Channels:
      openchannel pubkey@[host:port] <amt_satoshis> [--public] [--with-anchors]
      closechannel <channel_id> <peer_pubkey>
      forceclosechannel <channel_id> <peer_pubkey>
      listchannels

  Peers:
      connectpeer pubkey@host:port
      disconnectpeer <peer_pubkey>
      listpeers

  Payments:
      sendpayment <invoice|offer|human readable name> [<amount_msat>]
      keysend <dest_pubkey> <amt_msats>
      listpayments

  Invoices:
      getinvoice <amt_msats> <expiry_secs>
      getoffer [<amt_msats>]

  Other:
      signmessage <message>
      nodeinfo
      listclaimablebalances
      listsweeperoutputs
";

/// The help for the program of this name and version.
pub fn help(package_name: &str, package_version: &str) -> (r: String)
    ensures
        r@ == "\nVERSION:\n  "@ + package_name@ + " v"@ + package_version@ + COMMANDS@,
{
    let mut t = "\nVERSION:\n  ".to_owned();
    t.append(package_name);
    t.append(" v");
    t.append(package_version);
    t.append(COMMANDS);
    t
}

/// The name of a status.
pub open spec fn status_name(s: HTLCStatus) -> Seq<char> {
    match s {
        HTLCStatus::Pending => "pending"@,
        HTLCStatus::Succeeded => "succeeded"@,
        HTLCStatus::Failed => "failed"@,
    }
}

fn status_str(s: HTLCStatus) -> (r: &'static str)
    ensures
        r@ == status_name(s),
{
    match s {
        HTLCStatus::Pending => "pending",
        HTLCStatus::Succeeded => "succeeded",
        HTLCStatus::Failed => "failed",
    }
}

/// The text about one payment.
pub open spec fn payment_text(k: Bytes32, p: PaymentInfo, direction: Seq<char>) -> Seq<char> {
    "\n\t{\n\t\tamount_millisatoshis: "@ + p.amt_msat.shown() + ",\n\t\tpayment_hash: "@
        + hex_utils::hex_of(k@) + ",\n\t\thtlc_direction: "@ + direction
        + ",\n\t\thtlc_status: "@ + status_name(p.status) + ",\n\t},\n"@
}

/// The texts about payments, one after the other.
pub open spec fn payments_text(s: Seq<(Bytes32, PaymentInfo)>, direction: Seq<char>) -> Seq<char>
    decreases s.len(),
{
    if s.len() == 0 {
        Seq::empty()
    } else {
        payments_text(s.drop_last(), direction) + payment_text(s.last().0, s.last().1, direction)
    }
}

fn payment_string(k: &Bytes32, p: &PaymentInfo, direction: &str) -> (r: String)
    ensures
        r@ == payment_text(*k, *p, direction@),
{
    let mut t = "\n\t{\n\t\tamount_millisatoshis: ".to_owned();
    t.append(p.amt_msat.to_text().as_str());
    t.append(",\n\t\tpayment_hash: ");
    t.append(hex_str(k.as_slice()).as_str());
    t.append(",\n\t\thtlc_direction: ");
    t.append(direction);
    t.append(",\n\t\thtlc_status: ");
    t.append(status_str(p.status));
    t.append(",\n\t},\n");
    t
}

fn payments_string(table: &Table<PaymentInfo>, direction: &str) -> (r: String)
    requires
        table.wf(),
    ensures
        r@ == payments_text(table.listed(), direction@),
{
    let n: usize = table.len();
    let mut t = String::new();
    let mut i: usize = 0;
    assert(t@ =~= payments_text(table.listed().take(0), direction@));
    while i < n
        invariant
            n == table.listed().len(),
            i <= n,
            t@ == payments_text(table.listed().take(i as int), direction@),
        decreases n - i,
    {
        let e = table.entry(i);
        t.append(payment_string(&e.0, e.1, direction).as_str());
        assert(table.listed().take(i + 1).drop_last() == table.listed().take(i as int));
        i = i + 1;
    }
    assert(table.listed().take(n as int) == table.listed());
    t
}

/// The payments to and by this node, in the order in which they came up.
pub fn list_payments(
    inbound_payments: &InboundPaymentInfoStorage,
    outbound_payments: &OutboundPaymentInfoStorage,
) -> (r: String)
    requires
        inbound_payments.payments.wf(),
        outbound_payments.payments.wf(),
    ensures
        r@ == "["@ + payments_text(inbound_payments.payments.listed(), "inbound"@) + payments_text(
            outbound_payments.payments.listed(),
            "outbound"@,
        ) + "]\n"@,
{
    let mut t = "[".to_owned();
    t.append(payments_string(&inbound_payments.payments, "inbound").as_str());
    t.append(payments_string(&outbound_payments.payments, "outbound").as_str());
    t.append("]\n");
    t
}

/// What a balance may still become.
#[derive(Debug)]
pub enum BalanceKind {
    /// What is due when the channel closes: the fee of each closing transaction that may confirm,
    /// and the position of the one that counts.
    OnChannelClose { fees_sat: Vec<u64>, confirmed: usize },
    /// What is due if a payment times out.
    MaybeTimeout { amount_sat: u64, outbound_payment: bool },
    /// Anything else.
    Other,
}

/// A balance that can be claimed on chain.
#[derive(Debug)]
pub struct BalanceInfo {
    /// How much can be claimed.
    pub claimable_sat: u64,
    /// What it may still become.
    pub kind: BalanceKind,
    /// All that is known of it, as text.
    pub details: String,
}

impl BalanceInfo {
    /// The closing transaction that counts is one of those that may confirm.
    pub open spec fn wf(&self) -> bool {
        match self.kind {
            BalanceKind::OnChannelClose { fees_sat, confirmed } => confirmed < fees_sat@.len(),
            _ => true,
        }
    }

    /// The fee that closing the channel will cost.
    pub open spec fn close_fee(&self) -> u64 {
        match self.kind {
            BalanceKind::OnChannelClose { fees_sat, confirmed } => fees_sat@[confirmed as int],
            _ => 0,
        }
    }

    /// What is on its way in a payment by this node.
    pub open spec fn pending_outbound(&self) -> u64 {
        match self.kind {
            BalanceKind::MaybeTimeout { amount_sat, outbound_payment } => if outbound_payment {
                amount_sat
            } else {
                0
            },
            _ => 0,
        }
    }

    fn get_close_fee(&self) -> (r: u64)
        requires
            self.wf(),
        ensures
            r == self.close_fee(),
    {
        match &self.kind {
            BalanceKind::OnChannelClose { fees_sat, confirmed } => fees_sat[*confirmed],
            _ => 0,
        }
    }

    fn get_pending_outbound(&self) -> (r: u64)
        ensures
            r == self.pending_outbound(),
    {
        match &self.kind {
            BalanceKind::MaybeTimeout { amount_sat, outbound_payment } => if *outbound_payment {
                *amount_sat
            } else {
                0
            },
            _ => 0,
        }
    }
}

/// The sum of the claimable amounts.
pub open spec fn total_claimable(s: Seq<BalanceInfo>) -> nat
    decreases s.len(),
{
    if s.len() == 0 {
        0
    } else {
        total_claimable(s.drop_last()) + s.last().claimable_sat as nat
    }
}

/// The sum of the closing fees.
pub open spec fn total_close_fees(s: Seq<BalanceInfo>) -> nat
    decreases s.len(),
{
    if s.len() == 0 {
        0
    } else {
        total_close_fees(s.drop_last()) + s.last().close_fee() as nat
    }
}

/// The sum of what is on its way in payments by this node.
pub open spec fn total_pending_outbound(s: Seq<BalanceInfo>) -> nat
    decreases s.len(),
{
    if s.len() == 0 {
        0
    } else {
        total_pending_outbound(s.drop_last()) + s.last().pending_outbound() as nat
    }
}

proof fn lemma_totals_grow(s: Seq<BalanceInfo>, n: int)
    requires
        0 <= n <= s.len(),
    ensures
        total_claimable(s.take(n)) <= total_claimable(s),
        total_close_fees(s.take(n)) <= total_close_fees(s),
        total_pending_outbound(s.take(n)) <= total_pending_outbound(s),
    decreases s.len(),
{
    if n == s.len() {
        assert(s.take(n) == s);
    } else {
        lemma_totals_grow(s.drop_last(), n);
        assert(s.drop_last().take(n) == s.take(n));
    }
}

fn claimable_total(balances: &Vec<BalanceInfo>) -> (r: u64)
    requires
        total_claimable(balances@) <= u64::MAX,
    ensures
        r == total_claimable(balances@),
{
    let n: usize = balances.len();
    let mut r: u64 = 0;
    let mut i: usize = 0;
    while i < n
        invariant
            n == balances@.len(),
            i <= n,
            total_claimable(balances@) <= u64::MAX,
            r == total_claimable(balances@.take(i as int)),
        decreases n - i,
    {
        proof {
            lemma_totals_grow(balances@, i + 1);
            assert(balances@.take(i + 1).drop_last() == balances@.take(i as int));
        }
        r = r + balances[i].claimable_sat;
        i = i + 1;
    }
    assert(balances@.take(n as int) == balances@);
    r
}

/// Whether every sum over the balances fits.
pub open spec fn totals_fit(s: Seq<BalanceInfo>) -> bool {
    total_claimable(s) <= u64::MAX && total_close_fees(s) <= u64::MAX && total_pending_outbound(s)
        <= u64::MAX
}

fn balance_totals(balances: &Vec<BalanceInfo>) -> (r: (u64, u64, u64))
    requires
        totals_fit(balances@),
        forall|i: int| 0 <= i < balances@.len() ==> (#[trigger] balances@[i]).wf(),
    ensures
        r.0 == total_claimable(balances@),
        r.1 == total_close_fees(balances@),
        r.2 == total_pending_outbound(balances@),
{
    let n: usize = balances.len();
    let mut claimable: u64 = 0;
    let mut fees: u64 = 0;
    let mut pending: u64 = 0;
    let mut i: usize = 0;
    while i < n
        invariant
            n == balances@.len(),
            i <= n,
            totals_fit(balances@),
            forall|j: int| 0 <= j < balances@.len() ==> (#[trigger] balances@[j]).wf(),
            claimable == total_claimable(balances@.take(i as int)),
            fees == total_close_fees(balances@.take(i as int)),
            pending == total_pending_outbound(balances@.take(i as int)),
        decreases n - i,
    {
        proof {
            lemma_totals_grow(balances@, i + 1);
            assert(balances@.take(i + 1).drop_last() == balances@.take(i as int));
        }
        claimable = claimable + balances[i].claimable_sat;
        fees = fees + balances[i].get_close_fee();
        pending = pending + balances[i].get_pending_outbound();
        i = i + 1;
    }
    assert(balances@.take(n as int) == balances@);
    (claimable, fees, pending)
}

/// The text about one balance.
pub open spec fn balance_text(b: BalanceInfo) -> Seq<char> {
    "\n\t{\n\t\tclaimable_amount_satoshis: "@ + text::decimal(b.claimable_sat as nat)
        + ",\n\t\tdetails: "@ + b.details@ + ",\n\t},\n"@
}

/// The texts about balances, one after the other.
pub open spec fn balances_text(s: Seq<BalanceInfo>) -> Seq<char>
    decreases s.len(),
{
    if s.len() == 0 {
        Seq::empty()
    } else {
        balances_text(s.drop_last()) + balance_text(s.last())
    }
}

/// The balances that can be claimed, with their sum.
pub fn list_claimable_balances(balances: &Vec<BalanceInfo>) -> (r: String)
    requires
        total_claimable(balances@) <= u64::MAX,
    ensures
        r@ == (if balances@.len() == 0 {
            "No claimable balances.\n"@
        } else {
            "Claimable balances: "@ + text::decimal(balances@.len()) + " (total="@ + text::decimal(
                total_claimable(balances@),
            ) + " sats)\n["@ + balances_text(balances@) + "]\n"@
        }),
{
    let n: usize = balances.len();
    if n == 0 {
        return "No claimable balances.\n".to_owned();
    }
    let mut list = String::new();
    let mut i: usize = 0;
    assert(list@ =~= balances_text(balances@.take(0)));
    while i < n
        invariant
            n == balances@.len(),
            i <= n,
            list@ == balances_text(balances@.take(i as int)),
        decreases n - i,
    {
        let b = &balances[i];
        let mut t = "\n\t{\n\t\tclaimable_amount_satoshis: ".to_owned();
        t.append(number(b.claimable_sat).as_str());
        t.append(",\n\t\tdetails: ");
        t.append(b.details.as_str());
        t.append(",\n\t},\n");
        list.append(t.as_str());
        assert(balances@.take(i + 1).drop_last() == balances@.take(i as int));
        i = i + 1;
    }
    assert(balances@.take(n as int) == balances@);
    let mut t = "Claimable balances: ".to_owned();
    t.append(number(n as u64).as_str());
    t.append(" (total=");
    t.append(number(claimable_total(balances)).as_str());
    t.append(" sats)\n[");
    t.append(list.as_str());
    t.append("]\n");
    t
}

/// What kind of output is being swept.
#[derive(Clone, Copy, Debug, PartialEq, Eq, Structural)]
pub enum DescriptorKind {
    /// One that can be spent at once.
    StaticOutput,
    /// One that can be spent after a delay.
    DelayedPaymentOutput,
    /// One that the counterparty's closing transaction pays.
    StaticPaymentOutput,
}

/// How far the sweep of an output has got.
#[derive(Clone, Copy, Debug, PartialEq, Eq)]
pub enum SpendStatus {
    /// It was not broadcast yet, and may have to wait for a height.
    PendingInitialBroadcast { delayed_until_height: Option<u32> },
    /// It was broadcast.
    PendingFirstConfirmation { latest_broadcast_height: u32 },
    /// It was confirmed, but not often enough.
    PendingThresholdConfirmations { latest_broadcast_height: u32, confirmation_height: u32 },
}

/// An output that is being swept.
#[derive(Debug)]
pub struct OutputInfo {
    /// Its kind.
    pub kind: DescriptorKind,
    /// Where it is, as text.
    pub outpoint: String,
    /// The channel that it comes from, if known.
    pub channel_id: Option<Bytes32>,
    /// How far its sweep has got.
    pub status: SpendStatus,
}

/// The name of a kind of output.
pub open spec fn descriptor_name(k: DescriptorKind) -> Seq<char> {
    match k {
        DescriptorKind::StaticOutput => "static_output"@,
        DescriptorKind::DelayedPaymentOutput => "delayed_payment_output"@,
        DescriptorKind::StaticPaymentOutput => "static_payment_output"@,
    }
}

/// The name of a kind of output.
pub fn descriptor_kind(k: DescriptorKind) -> (r: &'static str)
    ensures
        r@ == descriptor_name(k),
{
    match k {
        DescriptorKind::StaticOutput => "static_output",
        DescriptorKind::DelayedPaymentOutput => "delayed_payment_output",
        DescriptorKind::StaticPaymentOutput => "static_payment_output",
    }
}

/// The text about how far a sweep has got.
pub open spec fn spend_status_text(s: SpendStatus) -> Seq<char> {
    match s {
        SpendStatus::PendingInitialBroadcast { delayed_until_height } =>
            match delayed_until_height {
            Some(h) => "pending_initial_broadcast (delayed_until_height="@ + text::decimal(h as nat)
                + ")"@,
            None => "pending_initial_broadcast"@,
        },
        SpendStatus::PendingFirstConfirmation { latest_broadcast_height } =>
            "pending_first_confirmation (latest_broadcast_height="@ + text::decimal(
            latest_broadcast_height as nat,
        ) + ")"@,
        SpendStatus::PendingThresholdConfirmations { latest_broadcast_height, confirmation_height }
            => "pending_threshold_confirmations (latest_broadcast_height="@ + text::decimal(
            latest_broadcast_height as nat,
        ) + ", confirmation_height="@ + text::decimal(confirmation_height as nat) + ")"@,
    }
}

/// How far a sweep has got, as text.
pub fn output_spend_status_string(status: &SpendStatus) -> (r: String)
    ensures
        r@ == spend_status_text(*status),
{
    match status {
        SpendStatus::PendingInitialBroadcast { delayed_until_height } =>
            match delayed_until_height {
            Some(h) => {
                let mut t = "pending_initial_broadcast (delayed_until_height=".to_owned();
                t.append(number(*h as u64).as_str());
                t.append(")");
                t
            },
            None => "pending_initial_broadcast".to_owned(),
        },
        SpendStatus::PendingFirstConfirmation { latest_broadcast_height } => {
            let mut t = "pending_first_confirmation (latest_broadcast_height=".to_owned();
            t.append(number(*latest_broadcast_height as u64).as_str());
            t.append(")");
            t
        },
        SpendStatus::PendingThresholdConfirmations { latest_broadcast_height, confirmation_height }
            => {
            let mut t = "pending_threshold_confirmations (latest_broadcast_height=".to_owned();
            t.append(number(*latest_broadcast_height as u64).as_str());
            t.append(", confirmation_height=");
            t.append(number(*confirmation_height as u64).as_str());
            t.append(")");
            t
        },
    }
}

/// The text about one output.
pub open spec fn output_text(o: OutputInfo) -> Seq<char> {
    "\n\t{\n\t\tdescriptor_type: "@ + descriptor_name(o.kind) + ",\n\t\toutpoint: "@ + o.outpoint@
        + ",\n\t\tchannel_id: "@ + (match o.channel_id {
        Some(id) => hex_utils::hex_of(id@),
        None => "none"@,
    }) + ",\n\t\tstatus: "@ + spend_status_text(o.status) + ",\n\t},\n"@
}

/// The texts about outputs, one after the other.
pub open spec fn outputs_text(s: Seq<OutputInfo>) -> Seq<char>
    decreases s.len(),
{
    if s.len() == 0 {
        Seq::empty()
    } else {
        outputs_text(s.drop_last()) + output_text(s.last())
    }
}

fn output_string(o: &OutputInfo) -> (r: String)
    ensures
        r@ == output_text(*o),
{
    let mut t = "\n\t{\n\t\tdescriptor_type: ".to_owned();
    t.append(descriptor_kind(o.kind));
    t.append(",\n\t\toutpoint: ");
    t.append(o.outpoint.as_str());
    t.append(",\n\t\tchannel_id: ");
    match &o.channel_id {
        Some(id) => {
            t.append(hex_str(id.as_slice()).as_str());
        },
        None => {
            t.append("none");
        },
    }
    t.append(",\n\t\tstatus: ");
    t.append(output_spend_status_string(&o.status).as_str());
    t.append(",\n\t},\n");
    t
}

/// The outputs that are being swept.
pub fn list_sweeper_outputs(outputs: &Vec<OutputInfo>) -> (r: String)
    ensures
        r@ == (if outputs@.len() == 0 {
            "No tracked spendable outputs.\n"@
        } else {
            "Tracked spendable outputs: "@ + text::decimal(outputs@.len()) + "\n["@ + outputs_text(
                outputs@,
            ) + "]\n"@
        }),
{
    let n: usize = outputs.len();
    if n == 0 {
        return "No tracked spendable outputs.\n".to_owned();
    }
    let mut list = String::new();
    let mut i: usize = 0;
    assert(list@ =~= outputs_text(outputs@.take(0)));
    while i < n
        invariant
            n == outputs@.len(),
            i <= n,
            list@ == outputs_text(outputs@.take(i as int)),
        decreases n - i,
    {
        list.append(output_string(&outputs[i]).as_str());
        assert(outputs@.take(i + 1).drop_last() == outputs@.take(i as int));
        i = i + 1;
    }
    assert(outputs@.take(n as int) == outputs@);
    let mut t = "Tracked spendable outputs: ".to_owned();
    t.append(number(n as u64).as_str());
    t.append("\n[");
    t.append(list.as_str());
    t.append("]\n");
    t
}

/// A channel.
#[derive(Debug)]
pub struct ChannelInfo {
    /// Its id.
    pub channel_id: Bytes32,
    /// The transaction that funds it, as text, if there is one.
    pub funding_txid: Option<String>,
    /// The node at its other end.
    pub counterparty: PublicKey,
    /// The name that the node announced, if it did.
    pub peer_alias: Option<String>,
    /// Its short id, if it has one.
    pub short_channel_id: Option<u64>,
    /// Whether it is confirmed.
    pub is_channel_ready: bool,
    /// Its value.
    pub channel_value_satoshis: u64,
    /// How much can be sent over it.
    pub outbound_capacity_msat: u64,
    /// How much can be received over it.
    pub inbound_capacity_msat: u64,
    /// Whether it can be used now.
    pub is_usable: bool,
    /// Whether it is announced.
    pub is_announced: bool,
}

/// `true` or `false`.
pub open spec fn flag_text(b: bool) -> Seq<char> {
    if b {
        "true"@
    } else {
        "false"@
    }
}

fn flag_str(b: bool) -> (r: &'static str)
    ensures
        r@ == flag_text(b),
{
    if b {
        "true"
    } else {
        "false"
    }
}

/// The text about one channel.
pub open spec fn channel_info_text(c: ChannelInfo) -> Seq<char> {
    "\n\t{\n\t\tchannel_id: "@ + hex_utils::hex_of(c.channel_id@) + ",\n"@ + (
    match c.funding_txid {
        Some(t) => "\t\tfunding_txid: "@ + t@ + ",\n"@,
        None => Seq::empty(),
    }) + "\t\tpeer_pubkey: "@ + hex_utils::hex_of(c.counterparty@) + ",\n"@ + (
    match c.peer_alias {
        Some(a) => "\t\tpeer_alias: "@ + a@ + "\n"@,
        None => Seq::empty(),
    }) + (match c.short_channel_id {
        Some(id) => "\t\tshort_channel_id: "@ + text::decimal(id as nat) + ",\n"@,
        None => Seq::empty(),
    }) + "\t\tis_channel_ready: "@ + flag_text(c.is_channel_ready)
        + ",\n\t\tchannel_value_satoshis: "@ + text::decimal(c.channel_value_satoshis as nat)
        + ",\n\t\toutbound_capacity_msat: "@ + text::decimal(c.outbound_capacity_msat as nat)
        + ",\n"@ + (if c.is_usable {
        "\t\tavailable_balance_for_send_msat: "@ + text::decimal(c.outbound_capacity_msat as nat)
            + ",\n\t\tavailable_balance_for_recv_msat: "@ + text::decimal(
            c.inbound_capacity_msat as nat,
        ) + ",\n"@
    } else {
        Seq::empty()
    }) + "\t\tchannel_can_send_payments: "@ + flag_text(c.is_usable) + ",\n\t\tpublic: "@
        + flag_text(c.is_announced) + ",\n\t},\n"@
}

/// The texts about channels, one after the other.
pub open spec fn channels_text(s: Seq<ChannelInfo>) -> Seq<char>
    decreases s.len(),
{
    if s.len() == 0 {
        Seq::empty()
    } else {
        channels_text(s.drop_last()) + channel_info_text(s.last())
    }
}

fn optional_line(before: &str, value: &Option<String>, after: &str) -> (r: String)
    ensures
        r@ == (match *value {
            Some(v) => before@ + v@ + after@,
            None => Seq::empty(),
        }),
{
    match value {
        Some(v) => {
            let mut t = before.to_owned();
            t.append(v.as_str());
            t.append(after);
            t
        },
        None => String::new(),
    }
}

fn short_id_line(id: &Option<u64>) -> (r: String)
    ensures
        r@ == (match *id {
            Some(id) => "\t\tshort_channel_id: "@ + text::decimal(id as nat) + ",\n"@,
            None => Seq::empty(),
        }),
{
    match id {
        Some(id) => {
            let mut t = "\t\tshort_channel_id: ".to_owned();
            t.append(number(*id).as_str());
            t.append(",\n");
            t
        },
        None => String::new(),
    }
}

fn capacity_lines(c: &ChannelInfo) -> (r: String)
    ensures
        r@ == (if c.is_usable {
            "\t\tavailable_balance_for_send_msat: "@ + text::decimal(
                c.outbound_capacity_msat as nat,
            ) + ",\n\t\tavailable_balance_for_recv_msat: "@ + text::decimal(
                c.inbound_capacity_msat as nat,
            ) + ",\n"@
        } else {
            Seq::empty()
        }),
{
    if c.is_usable {
        let mut t = "\t\tavailable_balance_for_send_msat: ".to_owned();
        t.append(number(c.outbound_capacity_msat).as_str());
        t.append(",\n\t\tavailable_balance_for_recv_msat: ");
        t.append(number(c.inbound_capacity_msat).as_str());
        t.append(",\n");
        t
    } else {
        String::new()
    }
}

fn channel_info_string(c: &ChannelInfo) -> (r: String)
    ensures
        r@ == channel_info_text(*c),
{
    let mut t = "\n\t{\n\t\tchannel_id: ".to_owned();
    t.append(hex_str(c.channel_id.as_slice()).as_str());
    t.append(",\n");
    t.append(optional_line("\t\tfunding_txid: ", &c.funding_txid, ",\n").as_str());
    t.append("\t\tpeer_pubkey: ");
    t.append(c.counterparty.to_text().as_str());
    t.append(",\n");
    t.append(optional_line("\t\tpeer_alias: ", &c.peer_alias, "\n").as_str());
    t.append(short_id_line(&c.short_channel_id).as_str());
    t.append("\t\tis_channel_ready: ");
    t.append(flag_str(c.is_channel_ready));
    t.append(",\n\t\tchannel_value_satoshis: ");
    t.append(number(c.channel_value_satoshis).as_str());
    t.append(",\n\t\toutbound_capacity_msat: ");
    t.append(number(c.outbound_capacity_msat).as_str());
    t.append(",\n");
    t.append(capacity_lines(c).as_str());
    t.append("\t\tchannel_can_send_payments: ");
    t.append(flag_str(c.is_usable));
    t.append(",\n\t\tpublic: ");
    t.append(flag_str(c.is_announced));
    t.append(",\n\t},\n");
    t
}

/// The channels.
pub fn list_channels(channels: &Vec<ChannelInfo>) -> (r: String)
    ensures
        r@ == "["@ + channels_text(channels@) + "]\n"@,
{
    let n: usize = channels.len();
    let mut list = String::new();
    let mut i: usize = 0;
    assert(list@ =~= channels_text(channels@.take(0)));
    while i < n
        invariant
            n == channels@.len(),
            i <= n,
            list@ == channels_text(channels@.take(i as int)),
        decreases n - i,
    {
        list.append(channel_info_string(&channels[i]).as_str());
        assert(channels@.take(i + 1).drop_last() == channels@.take(i as int));
        i = i + 1;
    }
    assert(channels@.take(n as int) == channels@);
    let mut t = "[".to_owned();
    t.append(list.as_str());
    t.append("]\n");
    t
}

/// The texts about peers, one after the other.
pub open spec fn peers_text(s: Seq<PublicKey>) -> Seq<char>
    decreases s.len(),
{
    if s.len() == 0 {
        Seq::empty()
    } else {
        peers_text(s.drop_last()) + "\t\t pubkey: "@ + hex_utils::hex_of(s.last()@) + "\n"@
    }
}

/// The peers.
pub fn list_peers(peers: &Vec<PublicKey>) -> (r: String)
    ensures
        r@ == "\t{\n"@ + peers_text(peers@) + "\t},\n"@,
{
    let n: usize = peers.len();
    let mut list = String::new();
    let mut i: usize = 0;
    assert(list@ =~= peers_text(peers@.take(0)));
    while i < n
        invariant
            n == peers@.len(),
            i <= n,
            list@ == peers_text(peers@.take(i as int)),
        decreases n - i,
    {
        list.append("\t\t pubkey: ");
        list.append(peers[i].to_text().as_str());
        list.append("\n");
        assert(peers@.take(i + 1).drop_last() == peers@.take(i as int));
        i = i + 1;
    }
    assert(peers@.take(n as int) == peers@);
    let mut t = "\t{\n".to_owned();
    t.append(list.as_str());
    t.append("\t},\n");
    t
}

/// How many of the channels can be used.
pub open spec fn usable_count(usable: Seq<bool>) -> nat
    decreases usable.len(),
{
    if usable.len() == 0 {
        0
    } else {
        usable_count(usable.drop_last()) + (if usable.last() {
            1nat
        } else {
            0
        })
    }
}

fn count_usable(usable: &Vec<bool>) -> (r: u64)
    ensures
        r == usable_count(usable@),
{
    let n: usize = usable.len();
    let mut r: u64 = 0;
    let mut i: usize = 0;
    while i < n
        invariant
            n == usable@.len(),
            i <= n,
            r <= i,
            r == usable_count(usable@.take(i as int)),
        decreases n - i,
    {
        assert(usable@.take(i + 1).drop_last() == usable@.take(i as int));
        if usable[i] {
            r = r + 1;
        }
        i = i + 1;
    }
    assert(usable@.take(n as int) == usable@);
    r
}

/// What is known of the node. `channels` says of each channel whether it can be used.
pub fn node_info(
    node_id: &PublicKey,
    channels: &Vec<bool>,
    balances: &Vec<BalanceInfo>,
    num_peers: usize,
    network_nodes: usize,
    network_channels: usize,
) -> (r: String)
    requires
        totals_fit(balances@),
        forall|i: int| 0 <= i < balances@.len() ==> (#[trigger] balances@[i]).wf(),
    ensures
        r@ == "\t{\n\t\t node_pubkey: "@ + hex_utils::hex_of(node_id@) + "\n\t\t num_channels: "@
            + text::decimal(channels@.len()) + "\n\t\t num_usable_channels: "@ + text::decimal(
            usable_count(channels@),
        ) + "\n\t\t local_balance_sats: "@ + text::decimal(total_claimable(balances@))
            + "\n\t\t eventual_close_fees_sats: "@ + text::decimal(total_close_fees(balances@))
            + "\n\t\t pending_outbound_payments_sats: "@ + text::decimal(
            total_pending_outbound(balances@),
        ) + "\n\t\t num_peers: "@ + text::decimal(num_peers as nat) + "\n\t\t network_nodes: "@
            + text::decimal(network_nodes as nat) + "\n\t\t network_channels: "@ + text::decimal(
            network_channels as nat,
        ) + "\n\t},\n"@,
{
    let (claimable, fees, pending) = balance_totals(balances);
    let mut t = "\t{\n\t\t node_pubkey: ".to_owned();
    t.append(node_id.to_text().as_str());
    t.append("\n\t\t num_channels: ");
    t.append(number(channels.len() as u64).as_str());
    t.append("\n\t\t num_usable_channels: ");
    t.append(number(count_usable(channels)).as_str());
    t.append("\n\t\t local_balance_sats: ");
    t.append(number(claimable).as_str());
    t.append("\n\t\t eventual_close_fees_sats: ");
    t.append(number(fees).as_str());
    t.append("\n\t\t pending_outbound_payments_sats: ");
    t.append(number(pending).as_str());
    t.append("\n\t\t num_peers: ");
    t.append(number(num_peers as u64).as_str());
    t.append("\n\t\t network_nodes: ");
    t.append(number(network_nodes as u64).as_str());
    t.append("\n\t\t network_channels: ");
    t.append(number(network_channels as u64).as_str());
    t.append("\n\t},\n");
    t
}

/// The names of the states of a payment, of the kinds of outputs and of truth values tell them apart.
pub proof fn law_names_tell_apart(
    a: HTLCStatus,
    b: HTLCStatus,
    k: DescriptorKind,
    l: DescriptorKind,
    x: bool,
    y: bool,
)
    ensures
        status_name(a) == status_name(b) ==> a == b,
        descriptor_name(k) == descriptor_name(l) ==> k == l,
        flag_text(x) == flag_text(y) ==> x == y,
        a is Pending ==> status_name(a) == "pending"@,
        a is Succeeded ==> status_name(a) == "succeeded"@,
        a is Failed ==> status_name(a) == "failed"@,
        k is StaticOutput ==> descriptor_name(k) == "static_output"@,
        k is StaticPaymentOutput ==> descriptor_name(k) == "static_payment_output"@,
        k is DelayedPaymentOutput ==> descriptor_name(k) == "delayed_payment_output"@,
        x ==> flag_text(x) == "true"@,
        !x ==> flag_text(x) == "false"@,
{
    reveal_strlit("pending");
    reveal_strlit("succeeded");
    reveal_strlit("failed");
    reveal_strlit("static_output");
    reveal_strlit("delayed_payment_output");
    reveal_strlit("static_payment_output");
    reveal_strlit("true");
    reveal_strlit("false");
    assert("pending"@.len() == 7 && "succeeded"@.len() == 9 && "failed"@.len() == 6);
    assert("static_output"@.len() == 13 && "delayed_payment_output"@.len() == 22
        && "static_payment_output"@.len() == 21);
    assert("true"@.len() == 4 && "false"@.len() == 5);
}

/// Every balance counts towards the claimable sum; only that of a channel that will close costs its
/// closing fee, that of the transaction that counts; and only a payment by this node that may time out
/// is on its way.
pub proof fn law_balances_add_up(s: Seq<BalanceInfo>, b: BalanceInfo)
    ensures
        total_claimable(Seq::empty()) == 0,
        total_close_fees(Seq::empty()) == 0,
        total_pending_outbound(Seq::empty()) == 0,
        total_claimable(s.push(b)) == total_claimable(s) + b.claimable_sat,
        match b.kind {
            BalanceKind::OnChannelClose { fees_sat, confirmed } => {
                &&& total_close_fees(s.push(b)) == total_close_fees(s) + fees_sat@[confirmed as int]
                &&& total_pending_outbound(s.push(b)) == total_pending_outbound(s)
            },
            BalanceKind::MaybeTimeout { amount_sat, outbound_payment } => {
                &&& total_close_fees(s.push(b)) == total_close_fees(s)
                &&& total_pending_outbound(s.push(b)) - total_pending_outbound(s) == if outbound_payment {
                    amount_sat as int
                } else {
                    0
                }
            },
            BalanceKind::Other => {
                &&& total_close_fees(s.push(b)) == total_close_fees(s)
                &&& total_pending_outbound(s.push(b)) == total_pending_outbound(s)
            },
        },
{
    assert(s.push(b).drop_last() =~= s);
}

/// The channels that can be used are those that say so: each one more counts for one exactly if it does,
/// wherever it stands, so that none counts for more than one.
pub proof fn law_usable_channels_are_counted(s: Seq<bool>, usable: bool)
    ensures
        usable_count(Seq::empty()) == 0,
        usable_count(s.push(usable)) - usable_count(s) == if usable {
            1int
        } else {
            0
        },
        usable_count(s) <= s.len(),
        (forall|i: int| 0 <= i < s.len() ==> #[trigger] s[i]) ==> usable_count(s) == s.len(),
        (forall|i: int| 0 <= i < s.len() ==> !#[trigger] s[i]) ==> usable_count(s) == 0,
    decreases s.len(),
{
    assert(s.push(usable).drop_last() =~= s);
    if s.len() > 0 {
        law_usable_channels_are_counted(s.drop_last(), usable);
        assert(forall|i: int| 0 <= i < s.len() - 1 ==> s.drop_last()[i] == s[i]);
    }
}

/// The lists name each payment, balance, output, channel and peer once, in order: one more is added at
/// the end, below what is there.
pub proof fn law_lists_grow_at_the_end(
    payments: Seq<(Bytes32, PaymentInfo)>,
    payment: (Bytes32, PaymentInfo),
    direction: Seq<char>,
    peers: Seq<PublicKey>,
    peer: PublicKey,
)
    ensures
        payments_text(payments, direction).is_prefix_of(
            payments_text(payments.push(payment), direction),
        ),
        ("\n\t{\n\t\tamount_millisatoshis: "@ + payment.1.amt_msat.shown()
            + ",\n\t\tpayment_hash: "@ + hex_utils::hex_of(payment.0@) + ",\n\t\thtlc_direction: "@
            + direction + ",\n\t\thtlc_status: "@ + status_name(payment.1.status)
            + ",\n\t},\n"@).is_suffix_of(payments_text(payments.push(payment), direction)),
        payments_text(seq![payment], direction) == payment_text(payment.0, payment.1, direction),
        peers_text(peers).is_prefix_of(peers_text(peers.push(peer))),
        ("\t\t pubkey: "@ + hex_utils::hex_of(peer@) + "\n"@).is_suffix_of(
            peers_text(peers.push(peer)),
        ),
{
    assert(payments.push(payment).drop_last() =~= payments);
    assert(peers.push(peer).drop_last() =~= peers);
    assert(seq![payment].drop_last() =~= Seq::<(Bytes32, PaymentInfo)>::empty());
    let before = payments_text(payments, direction);
    let text = payment_text(payment.0, payment.1, direction);
    let after = payments_text(payments.push(payment), direction);
    assert(after == before + text);
    assert(after.take(before.len() as int) =~= before);
    assert(after.skip(before.len() as int) =~= text);
    assert(payments_text(seq![payment].drop_last(), direction) =~= Seq::<char>::empty());
    assert(seq![payment].last() == payment);
    assert(payments_text(seq![payment], direction) =~= text);
    let known = peers_text(peers);
    let line = "\t\t pubkey: "@ + hex_utils::hex_of(peer@) + "\n"@;
    let longer = peers_text(peers.push(peer));
    assert(longer =~= known + line);
    assert(longer.take(known.len() as int) =~= known);
    assert(longer.skip(known.len() as int) =~= line);
}

} // verus!
