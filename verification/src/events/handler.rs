//! What each event changes in the books, what is said about it, and what is to be done.
use crate::hex_utils;
use crate::hex_utils::hex_str;
use crate::keys::PublicKey;
use crate::logging;
use crate::logging::{user_err, user_out, user_warn, Message, MessageView};
use crate::probing::tracker::ProbeOutcome;
use crate::state;
use crate::state::{InboundPaymentInfoStorage, OutboundPaymentInfoStorage, PaymentInfo};
use crate::table::Bytes32;
use crate::text;
use crate::text::number;
use vstd::prelude::*;

verus! {

/// What a payment to this node is for.
#[derive(Clone, Copy, Debug)]
pub enum PaymentPurpose {
    /// An invoice.
    Bolt11Invoice { preimage: Option<Bytes32>, secret: Bytes32 },
    /// An offer.
    Bolt12Offer { preimage: Option<Bytes32>, secret: Bytes32 },
    /// A refund.
    Bolt12Refund { preimage: Option<Bytes32>, secret: Bytes32 },
    /// Nothing that this node asked for.
    Spontaneous(Bytes32),
}

impl PaymentPurpose {
    /// The preimage of the payment, if it is known.
    pub open spec fn preimage_of(self) -> Option<Bytes32> {
        match self {
            PaymentPurpose::Bolt11Invoice { preimage, .. } => preimage,
            PaymentPurpose::Bolt12Offer { preimage, .. } => preimage,
            PaymentPurpose::Bolt12Refund { preimage, .. } => preimage,
            PaymentPurpose::Spontaneous(preimage) => Some(preimage),
        }
    }

    /// The secret of the payment, if it has one.
    pub open spec fn secret_of(self) -> Option<Bytes32> {
        match self {
            PaymentPurpose::Bolt11Invoice { secret, .. } => Some(secret),
            PaymentPurpose::Bolt12Offer { secret, .. } => Some(secret),
            PaymentPurpose::Bolt12Refund { secret, .. } => Some(secret),
            PaymentPurpose::Spontaneous(_) => None,
        }
    }

    fn parts(&self) -> (r: (Option<Bytes32>, Option<Bytes32>))
        ensures
            r.0 == self.preimage_of(),
            r.1 == self.secret_of(),
    {
        match *self {
            PaymentPurpose::Bolt11Invoice { preimage, secret } => (preimage, Some(secret)),
            PaymentPurpose::Bolt12Offer { preimage, secret } => (preimage, Some(secret)),
            PaymentPurpose::Bolt12Refund { preimage, secret } => (preimage, Some(secret)),
            PaymentPurpose::Spontaneous(preimage) => (Some(preimage), None),
        }
    }
}

/// What is known of the node at the other end of a channel.
#[derive(Debug)]
pub enum HopNode {
    /// The channel is not known.
    NoChannel,
    /// The node is not in the network graph.
    Private,
    /// The node has not announced itself.
    Unnamed,
    /// The node has announced this name.
    Named(String),
}

/// A channel that a payment was forwarded over.
#[derive(Debug)]
pub struct Hop {
    /// The channel.
    pub channel_id: Bytes32,
    /// The node at its other end.
    pub node: HopNode,
}

/// An event.
pub enum NodeEvent {
    /// A channel waits for its funding transaction.
    FundingGenerationReady,
    /// A payment can be claimed.
    PaymentClaimable { payment_hash: Bytes32, purpose: PaymentPurpose, amount_msat: u64 },
    /// A payment was claimed.
    PaymentClaimed { payment_hash: Bytes32, purpose: PaymentPurpose, amount_msat: u64 },
    /// A payment was sent.
    PaymentSent {
        sent_id: Option<Bytes32>,
        payment_hash: Bytes32,
        payment_preimage: Bytes32,
        fee_paid_msat: Option<u64>,
    },
    /// A payment failed, for the reason in the text.
    PaymentFailed { payment_id: Bytes32, failed_hash: Option<Bytes32>, reason: Option<String> },
    /// A payment was forwarded.
    PaymentForwarded {
        prev: Option<Hop>,
        next: Option<Hop>,
        total_fee_earned_msat: Option<u64>,
        claim_from_onchain_tx: bool,
        outbound_amount_forwarded_msat: Option<u64>,
    },
    /// A peer wants to open a channel.
    OpenChannelRequest,
    /// A probe reached its destination.
    ProbeSuccessful { payment_hash: Bytes32 },
    /// A probe did not reach its destination.
    ProbeFailed { payment_hash: Bytes32 },
    /// Outputs can be spent.
    SpendableOutputs,
    /// A channel waits for confirmations.
    ChannelPending { channel_id: Bytes32, counterparty: PublicKey },
    /// A channel can be used.
    ChannelReady { channel_id: Bytes32, counterparty: PublicKey },
    /// A channel was closed, for the reason in the text.
    ChannelClosed { channel_id: Bytes32, closed_by: Option<PublicKey>, cause: String },
    /// The fee of a transaction must be raised.
    BumpTransaction,
    /// A peer must be connected.
    ConnectionNeeded,
    /// Anything else.
    Other,
}

/// What is to be done about an event.
#[derive(Clone, Copy, Debug)]
pub enum EventAction {
    /// Nothing.
    Nothing,
    /// Fund the channel.
    FundChannel,
    /// Claim the payment with this preimage.
    ClaimFunds(Bytes32),
    /// Write down the payments made to this node.
    PersistInbound,
    /// Write down the payments made by this node.
    PersistOutbound,
    /// Accept the channel.
    AcceptChannel,
    /// Note how the probe ended.
    CompleteProbe { payment_hash: Bytes32, outcome: ProbeOutcome },
    /// Have the outputs swept.
    TrackOutputs,
    /// Raise the fee.
    BumpTransaction,
    /// Connect to the peer.
    Connect,
}

/// What is said and done about an event. The prompt is shown again after each message if `prompt` is
/// set.
pub struct EventResponse {
    /// What is said.
    pub messages: Vec<Message>,
    /// Whether the prompt is shown again after each message.
    pub prompt: bool,
    /// What is to be done.
    pub action: EventAction,
}

/// What is said and done about an event, with the messages as their views.
pub struct ResponseView {
    /// What is said.
    pub messages: Seq<MessageView>,
    /// Whether the prompt is shown again after each message.
    pub prompt: bool,
    /// What is to be done.
    pub action: EventAction,
}

impl View for EventResponse {
    type V = ResponseView;

    open spec fn view(&self) -> ResponseView {
        ResponseView {
            messages: logging::message_views(self.messages@),
            prompt: self.prompt,
            action: self.action,
        }
    }
}

/// The text about a payment that was received or claimed.
pub open spec fn received_text(what: Seq<char>, payment_hash: Bytes32, amount_msat: u64) -> Seq<
    char,
> {
    "\nEVENT: "@ + what + " payment from payment hash "@ + hex_utils::hex_of(payment_hash@)
        + " of "@ + text::decimal(amount_msat as nat) + " millisatoshis"@
}

fn received(what: &str, payment_hash: &Bytes32, amount_msat: u64) -> (r: Message)
    ensures
        r@ == logging::out(received_text(what@, *payment_hash, amount_msat)),
{
    let mut t = "\nEVENT: ".to_owned();
    t.append(what);
    t.append(" payment from payment hash ");
    t.append(hex_str(payment_hash.as_slice()).as_str());
    t.append(" of ");
    t.append(number(amount_msat).as_str());
    t.append(" millisatoshis");
    user_out(t)
}

/// The text about a payment that was sent.
pub open spec fn sent_text(
    amount: state::MillisatAmount,
    fee_paid_msat: Option<u64>,
    payment_hash: Bytes32,
    payment_preimage: Bytes32,
) -> Seq<char> {
    "\nEVENT: successfully sent payment of "@ + amount.shown() + " millisatoshis"@ + fee_text(
        fee_paid_msat,
    ) + " from payment hash "@ + hex_utils::hex_of(payment_hash@) + " with preimage "@
        + hex_utils::hex_of(payment_preimage@)
}

/// The text about the fee of a payment, if it is known.
pub open spec fn fee_text(fee_paid_msat: Option<u64>) -> Seq<char> {
    match fee_paid_msat {
        Some(fee) => " (fee "@ + text::decimal(fee as nat) + " msat)"@,
        None => Seq::empty(),
    }
}

fn fee_string(fee_paid_msat: Option<u64>) -> (r: String)
    ensures
        r@ == fee_text(fee_paid_msat),
{
    match fee_paid_msat {
        Some(fee) => {
            let mut t = " (fee ".to_owned();
            t.append(number(fee).as_str());
            t.append(" msat)");
            t
        },
        None => String::new(),
    }
}

fn sent_message(
    amount: &state::MillisatAmount,
    fee_paid_msat: Option<u64>,
    payment_hash: &Bytes32,
    payment_preimage: &Bytes32,
) -> (r: Message)
    ensures
        r@ == logging::out(sent_text(*amount, fee_paid_msat, *payment_hash, *payment_preimage)),
{
    let mut t = "\nEVENT: successfully sent payment of ".to_owned();
    t.append(amount.to_text().as_str());
    t.append(" millisatoshis");
    t.append(fee_string(fee_paid_msat).as_str());
    t.append(" from payment hash ");
    t.append(hex_str(payment_hash.as_slice()).as_str());
    t.append(" with preimage ");
    t.append(hex_str(payment_preimage.as_slice()).as_str());
    user_out(t)
}

/// The text about a payment that failed. A payment without a hash never got an invoice.
pub open spec fn failed_text(
    payment_id: Bytes32,
    payment_hash: Option<Bytes32>,
    reason: Option<String>,
) -> Seq<char> {
    (match payment_hash {
        Some(h) => "\nEVENT: Failed to send payment to payment ID "@ + hex_utils::hex_of(
            payment_id@,
        ) + ", payment hash "@ + hex_utils::hex_of(h@),
        None => "\nEVENT: Failed fetch invoice for payment ID "@ + hex_utils::hex_of(payment_id@),
    }) + ": "@ + (match reason {
        Some(r) => r@,
        None => "RetriesExhausted"@,
    })
}

fn failed_message(payment_id: &Bytes32, payment_hash: &Option<Bytes32>, reason: &Option<String>) -> (r:
    Message)
    ensures
        r@ == logging::out(failed_text(*payment_id, *payment_hash, *reason)),
{
    let mut t = match payment_hash {
        Some(h) => {
            let mut t = "\nEVENT: Failed to send payment to payment ID ".to_owned();
            t.append(hex_str(payment_id.as_slice()).as_str());
            t.append(", payment hash ");
            t.append(hex_str(h.as_slice()).as_str());
            t
        },
        None => {
            let mut t = "\nEVENT: Failed fetch invoice for payment ID ".to_owned();
            t.append(hex_str(payment_id.as_slice()).as_str());
            t
        },
    };
    t.append(": ");
    match reason {
        Some(r) => {
            t.append(r.as_str());
        },
        None => {
            t.append("RetriesExhausted");
        },
    }
    user_out(t)
}

/// The text about the node at the other end of a channel.
pub open spec fn node_text(hop: Option<Hop>) -> Seq<char> {
    match hop {
        None => Seq::empty(),
        Some(h) => match h.node {
            HopNode::NoChannel => Seq::empty(),
            HopNode::Private => "private node"@,
            HopNode::Unnamed => "unnamed node"@,
            HopNode::Named(alias) => "node "@ + alias@,
        },
    }
}

/// The text about a channel.
pub open spec fn channel_text(hop: Option<Hop>) -> Seq<char> {
    match hop {
        None => Seq::empty(),
        Some(h) => " with channel "@ + hex_utils::hex_of(h.channel_id@),
    }
}

fn node_string(hop: &Option<Hop>) -> (r: String)
    ensures
        r@ == node_text(*hop),
{
    match hop {
        None => String::new(),
        Some(h) => match &h.node {
            HopNode::NoChannel => String::new(),
            HopNode::Private => "private node".to_owned(),
            HopNode::Unnamed => "unnamed node".to_owned(),
            HopNode::Named(alias) => {
                let mut t = "node ".to_owned();
                t.append(alias.as_str());
                t
            },
        },
    }
}

fn channel_string(hop: &Option<Hop>) -> (r: String)
    ensures
        r@ == channel_text(*hop),
{
    match hop {
        None => String::new(),
        Some(h) => {
            let mut t = " with channel ".to_owned();
            t.append(hex_str(h.channel_id.as_slice()).as_str());
            t
        },
    }
}

/// The text about a payment that was forwarded.
pub open spec fn forwarded_text(
    prev: Option<Hop>,
    next: Option<Hop>,
    total_fee_earned_msat: Option<u64>,
    claim_from_onchain_tx: bool,
    outbound_amount_forwarded_msat: Option<u64>,
) -> Seq<char> {
    "\nEVENT: Forwarded payment for "@ + (match outbound_amount_forwarded_msat {
        Some(v) => text::decimal(v as nat),
        None => "?"@,
    }) + " msat"@ + " from "@ + node_text(prev) + channel_text(prev) + " to "@ + node_text(next)
        + channel_text(next) + (match total_fee_earned_msat {
        Some(fee) => ", earning "@ + text::decimal(fee as nat) + " msat "@,
        None => ", claiming onchain "@,
    }) + (if claim_from_onchain_tx {
        "from onchain downstream claim"@
    } else {
        "from HTLC fulfill message"@
    })
}

fn forwarded_message(
    prev: &Option<Hop>,
    next: &Option<Hop>,
    total_fee_earned_msat: Option<u64>,
    claim_from_onchain_tx: bool,
    outbound_amount_forwarded_msat: Option<u64>,
) -> (r: Message)
    ensures
        r@ == logging::out(
            forwarded_text(
                *prev,
                *next,
                total_fee_earned_msat,
                claim_from_onchain_tx,
                outbound_amount_forwarded_msat,
            ),
        ),
{
    let mut t = "\nEVENT: Forwarded payment for ".to_owned();
    match outbound_amount_forwarded_msat {
        Some(v) => {
            t.append(number(v).as_str());
        },
        None => {
            t.append("?");
        },
    }
    t.append(" msat");
    t.append(" from ");
    t.append(node_string(prev).as_str());
    t.append(channel_string(prev).as_str());
    t.append(" to ");
    t.append(node_string(next).as_str());
    t.append(channel_string(next).as_str());
    match total_fee_earned_msat {
        Some(fee) => {
            let mut f = ", earning ".to_owned();
            f.append(number(fee).as_str());
            f.append(" msat ");
            t.append(f.as_str());
        },
        None => {
            t.append(", claiming onchain ");
        },
    }
    if claim_from_onchain_tx {
        t.append("from onchain downstream claim");
    } else {
        t.append("from HTLC fulfill message");
    }
    user_out(t)
}

/// The text about a channel that is pending or ready.
pub open spec fn channel_state_text(
    channel_id: Bytes32,
    counterparty: PublicKey,
    state: Seq<char>,
) -> Seq<char> {
    "\nEVENT: Channel "@ + hex_utils::hex_of(channel_id@) + " with peer "@ + hex_utils::hex_of(
        counterparty@,
    ) + state
}

fn channel_state_message(channel_id: &Bytes32, counterparty: &PublicKey, state: &str) -> (r:
    Message)
    ensures
        r@ == logging::out(channel_state_text(*channel_id, *counterparty, state@)),
{
    let mut t = "\nEVENT: Channel ".to_owned();
    t.append(hex_str(channel_id.as_slice()).as_str());
    t.append(" with peer ");
    t.append(counterparty.to_text().as_str());
    t.append(state);
    user_out(t)
}

/// The text about a channel that was closed.
pub open spec fn closed_text(
    channel_id: Bytes32,
    counterparty: Option<PublicKey>,
    reason: Seq<char>,
) -> Seq<char> {
    "\nEVENT: Channel "@ + hex_utils::hex_of(channel_id@) + " with counterparty "@ + (
    match counterparty {
        Some(k) => hex_utils::hex_of(k@),
        None => Seq::empty(),
    }) + " closed due to: "@ + reason
}

fn closed_message(channel_id: &Bytes32, counterparty: &Option<PublicKey>, reason: &str) -> (r:
    Message)
    ensures
        r@ == logging::out(closed_text(*channel_id, *counterparty, reason@)),
{
    let mut t = "\nEVENT: Channel ".to_owned();
    t.append(hex_str(channel_id.as_slice()).as_str());
    t.append(" with counterparty ");
    let who = match counterparty {
        Some(k) => k.to_text(),
        None => String::new(),
    };
    t.append(who.as_str());
    t.append(" closed due to: ");
    t.append(reason);
    user_out(t)
}

/// What is said and done about an event, given the payments made by this node.
pub open spec fn response_to(event: NodeEvent, outbound: Map<Bytes32, PaymentInfo>) -> ResponseView {
    let silent = |action: EventAction|
        ResponseView { messages: Seq::<MessageView>::empty(), prompt: false, action };
    let say = |text: Seq<char>, action: EventAction|
        ResponseView { messages: seq![logging::out(text)], prompt: true, action };
    match event {
        NodeEvent::FundingGenerationReady => silent(EventAction::FundChannel),
        NodeEvent::PaymentClaimable { payment_hash, purpose, amount_msat } => {
            let text = received_text("received"@, payment_hash, amount_msat);
            match purpose.preimage_of() {
                Some(preimage) => say(text, EventAction::ClaimFunds(preimage)),
                None => ResponseView {
                    messages: seq![
                        logging::out(text),
                        logging::err("PaymentClaimable event missing payment preimage"@),
                    ],
                    prompt: true,
                    action: EventAction::Nothing,
                },
            }
        },
        NodeEvent::PaymentClaimed { payment_hash, amount_msat, .. } => say(
            received_text("claimed"@, payment_hash, amount_msat),
            EventAction::PersistInbound,
        ),
        NodeEvent::PaymentSent { sent_id, payment_hash, payment_preimage, fee_paid_msat } =>
            match sent_id {
            None => ResponseView {
                messages: seq![logging::warn("PaymentSent event missing payment_id"@)],
                prompt: false,
                action: EventAction::Nothing,
            },
            Some(id) => if outbound.contains_key(id) {
                say(
                    sent_text(outbound[id].amt_msat, fee_paid_msat, payment_hash, payment_preimage),
                    EventAction::PersistOutbound,
                )
            } else {
                silent(EventAction::PersistOutbound)
            },
        },
        NodeEvent::PaymentFailed { payment_id, failed_hash, reason } => say(
            failed_text(payment_id, failed_hash, reason),
            EventAction::PersistOutbound,
        ),
        NodeEvent::PaymentForwarded {
            prev,
            next,
            total_fee_earned_msat,
            claim_from_onchain_tx,
            outbound_amount_forwarded_msat,
        } => say(
            forwarded_text(
                prev,
                next,
                total_fee_earned_msat,
                claim_from_onchain_tx,
                outbound_amount_forwarded_msat,
            ),
            EventAction::Nothing,
        ),
        NodeEvent::OpenChannelRequest => silent(EventAction::AcceptChannel),
        NodeEvent::ProbeSuccessful { payment_hash } => silent(
            EventAction::CompleteProbe { payment_hash, outcome: ProbeOutcome::Success },
        ),
        NodeEvent::ProbeFailed { payment_hash } => silent(
            EventAction::CompleteProbe { payment_hash, outcome: ProbeOutcome::Failed },
        ),
        NodeEvent::SpendableOutputs => silent(EventAction::TrackOutputs),
        NodeEvent::ChannelPending { channel_id, counterparty } => say(
            channel_state_text(
                channel_id,
                counterparty,
                " is pending awaiting funding lock-in!"@,
            ),
            EventAction::Nothing,
        ),
        NodeEvent::ChannelReady { channel_id, counterparty } => say(
            channel_state_text(channel_id, counterparty, " is ready to be used!"@),
            EventAction::Nothing,
        ),
        NodeEvent::ChannelClosed { channel_id, closed_by, cause } => say(
            closed_text(channel_id, closed_by, cause@),
            EventAction::Nothing,
        ),
        NodeEvent::BumpTransaction => silent(EventAction::BumpTransaction),
        NodeEvent::ConnectionNeeded => silent(EventAction::Connect),
        NodeEvent::Other => silent(EventAction::Nothing),
    }
}

/// The payments made to this node after an event.
pub open spec fn inbound_after(event: NodeEvent, m: Map<Bytes32, PaymentInfo>) -> Map<
    Bytes32,
    PaymentInfo,
> {
    match event {
        NodeEvent::PaymentClaimed { payment_hash, purpose, amount_msat } => state::claimed(
            m,
            payment_hash,
            purpose.preimage_of(),
            purpose.secret_of(),
            amount_msat,
        ),
        _ => m,
    }
}

/// The payments made by this node after an event.
pub open spec fn outbound_after(event: NodeEvent, m: Map<Bytes32, PaymentInfo>) -> Map<
    Bytes32,
    PaymentInfo,
> {
    match event {
        NodeEvent::PaymentSent { sent_id: Some(id), payment_preimage, .. } => state::sent(
            m,
            id,
            payment_preimage,
        ),
        NodeEvent::PaymentFailed { payment_id, .. } => state::failed(m, payment_id),
        _ => m,
    }
}

fn quiet(action: EventAction) -> (r: EventResponse)
    ensures
        r@ == (ResponseView { messages: Seq::<MessageView>::empty(), prompt: false, action }),
{
    let r = EventResponse { messages: Vec::new(), prompt: false, action };
    assert(r@.messages =~= Seq::<MessageView>::empty());
    r
}

fn saying(m: Message, action: EventAction) -> (r: EventResponse)
    ensures
        r@ == (ResponseView { messages: seq![m@], prompt: true, action }),
{
    let mut messages: Vec<Message> = Vec::new();
    messages.push(m);
    let r = EventResponse { messages, prompt: true, action };
    assert(r@.messages =~= seq![m@]);
    r
}

/// Notes an event in the books, and says what is said and done about it.
pub fn handle_ldk_events(
    inbound: &mut InboundPaymentInfoStorage,
    outbound: &mut OutboundPaymentInfoStorage,
    event: &NodeEvent,
) -> (r: EventResponse)
    requires
        old(inbound).payments.wf(),
        old(outbound).payments.wf(),
    ensures
        final(inbound).payments.wf(),
        final(outbound).payments.wf(),
        final(inbound).payments@ == inbound_after(*event, old(inbound).payments@),
        final(outbound).payments@ == outbound_after(*event, old(outbound).payments@),
        r@ == response_to(*event, old(outbound).payments@),
{
    match event {
        NodeEvent::FundingGenerationReady => quiet(EventAction::FundChannel),
        NodeEvent::PaymentClaimable { payment_hash, purpose, amount_msat } => {
            let m = received("received", payment_hash, *amount_msat);
            match purpose.parts().0 {
                Some(preimage) => saying(m, EventAction::ClaimFunds(preimage)),
                None => {
                    let mut messages: Vec<Message> = Vec::new();
                    messages.push(m);
                    messages.push(
                        user_err("PaymentClaimable event missing payment preimage".to_owned()),
                    );
                    assert(logging::message_views(messages@) =~= seq![
                        m@,
                        logging::err("PaymentClaimable event missing payment preimage"@),
                    ]);
                    EventResponse { messages, prompt: true, action: EventAction::Nothing }
                },
            }
        },
        NodeEvent::PaymentClaimed { payment_hash, purpose, amount_msat } => {
            let (preimage, secret) = purpose.parts();
            inbound.record_claimed(*payment_hash, preimage, secret, *amount_msat);
            saying(
                received("claimed", payment_hash, *amount_msat),
                EventAction::PersistInbound,
            )
        },
        NodeEvent::PaymentSent { sent_id, payment_hash, payment_preimage, fee_paid_msat } =>
            match sent_id {
            None => {
                let mut r = saying(
                    user_warn("PaymentSent event missing payment_id".to_owned()),
                    EventAction::Nothing,
                );
                r.prompt = false;
                r
            },
            Some(id) => match outbound.record_sent(*id, *payment_preimage) {
                Some(amount) => saying(
                    sent_message(&amount, *fee_paid_msat, payment_hash, payment_preimage),
                    EventAction::PersistOutbound,
                ),
                None => quiet(EventAction::PersistOutbound),
            },
        },
        NodeEvent::PaymentFailed { payment_id, failed_hash, reason } => {
            outbound.record_failed(*payment_id);
            saying(failed_message(payment_id, failed_hash, reason), EventAction::PersistOutbound)
        },
        NodeEvent::PaymentForwarded {
            prev,
            next,
            total_fee_earned_msat,
            claim_from_onchain_tx,
            outbound_amount_forwarded_msat,
        } => saying(
            forwarded_message(
                prev,
                next,
                *total_fee_earned_msat,
                *claim_from_onchain_tx,
                *outbound_amount_forwarded_msat,
            ),
            EventAction::Nothing,
        ),
        NodeEvent::OpenChannelRequest => quiet(EventAction::AcceptChannel),
        NodeEvent::ProbeSuccessful { payment_hash } => quiet(
            EventAction::CompleteProbe {
                payment_hash: *payment_hash,
                outcome: ProbeOutcome::Success,
            },
        ),
        NodeEvent::ProbeFailed { payment_hash } => quiet(
            EventAction::CompleteProbe {
                payment_hash: *payment_hash,
                outcome: ProbeOutcome::Failed,
            },
        ),
        NodeEvent::SpendableOutputs => quiet(EventAction::TrackOutputs),
        NodeEvent::ChannelPending { channel_id, counterparty } => saying(
            channel_state_message(
                channel_id,
                counterparty,
                " is pending awaiting funding lock-in!",
            ),
            EventAction::Nothing,
        ),
        NodeEvent::ChannelReady { channel_id, counterparty } => saying(
            channel_state_message(channel_id, counterparty, " is ready to be used!"),
            EventAction::Nothing,
        ),
        NodeEvent::ChannelClosed { channel_id, closed_by, cause } => saying(
            closed_message(channel_id, closed_by, cause.as_str()),
            EventAction::Nothing,
        ),
        NodeEvent::BumpTransaction => quiet(EventAction::BumpTransaction),
        NodeEvent::ConnectionNeeded => quiet(EventAction::Connect),
        NodeEvent::Other => quiet(EventAction::Nothing),
    }
}

/// No event takes a payment off the books, and each touches at most one.
pub proof fn law_events_keep_payments(
    event: NodeEvent,
    inbound: Map<Bytes32, PaymentInfo>,
    outbound: Map<Bytes32, PaymentInfo>,
    j: Bytes32,
    k: Bytes32,
)
    ensures
        inbound.contains_key(k) ==> inbound_after(event, inbound).contains_key(k),
        outbound_after(event, outbound).dom() == outbound.dom(),
        j != k && inbound_after(event, inbound)[j] != inbound[j] ==> inbound_after(
            event,
            inbound,
        )[k] == inbound[k],
        j != k && outbound_after(event, outbound)[j] != outbound[j] ==> outbound_after(
            event,
            outbound,
        )[k] == outbound[k],
{
    assert(outbound_after(event, outbound).dom() =~= outbound.dom());
}

/// A claimed payment has succeeded, and a payment that was sent or failed has the status that the
/// event says, if it is on the books.
pub proof fn law_events_settle_payments(
    event: NodeEvent,
    inbound: Map<Bytes32, PaymentInfo>,
    outbound: Map<Bytes32, PaymentInfo>,
)
    ensures
        event matches NodeEvent::PaymentClaimed { payment_hash, .. } ==> inbound_after(
            event,
            inbound,
        )[payment_hash].status == state::HTLCStatus::Succeeded,
        event matches NodeEvent::PaymentSent { sent_id: Some(id), payment_preimage, .. }
            ==> outbound.contains_key(id) ==> outbound_after(event, outbound)[id].status
            == state::HTLCStatus::Succeeded && outbound_after(event, outbound)[id].preimage == Some(
            payment_preimage,
        ),
        event matches NodeEvent::PaymentFailed { payment_id, .. } ==> outbound.contains_key(
            payment_id,
        ) ==> outbound_after(event, outbound)[payment_id].status == state::HTLCStatus::Failed,
{
}

/// What is said once a channel was accepted, or could not be, for the reason in the text.
pub fn accepted_channel_message(
    temporary_channel_id: &Bytes32,
    counterparty: &PublicKey,
    failure: &Option<String>,
) -> (r: Message)
    ensures
        r@ == (match *failure {
            Some(e) => logging::err(
                "Failed to accept inbound channel ("@ + hex_utils::hex_of(temporary_channel_id@)
                    + ") from "@ + hex_utils::hex_of(counterparty@) + ": "@ + e@,
            ),
            None => logging::out(
                "\nEVENT: Accepted inbound channel ("@ + hex_utils::hex_of(temporary_channel_id@)
                    + ") from "@ + hex_utils::hex_of(counterparty@),
            ),
        }),
{
    match failure {
        Some(e) => {
            let mut t = "Failed to accept inbound channel (".to_owned();
            t.append(hex_str(temporary_channel_id.as_slice()).as_str());
            t.append(") from ");
            t.append(counterparty.to_text().as_str());
            t.append(": ");
            t.append(e.as_str());
            user_err(t)
        },
        None => {
            let mut t = "\nEVENT: Accepted inbound channel (".to_owned();
            t.append(hex_str(temporary_channel_id.as_slice()).as_str());
            t.append(") from ");
            t.append(counterparty.to_text().as_str());
            user_out(t)
        },
    }
}

/// What went wrong when something was to be written down.
#[derive(Clone, Copy, Debug, PartialEq, Eq, Structural)]
pub enum Unsaved {
    /// The payments made to this node.
    Inbound,
    /// The payments made by this node, after one was sent.
    Sent,
    /// The payments made by this node, after one failed.
    Failed,
    /// The outputs to sweep.
    Outputs,
}

/// What may go wrong when an event has something written down.
pub open spec fn unsaved_after(event: NodeEvent) -> Option<Unsaved> {
    match event {
        NodeEvent::PaymentClaimed { .. } => Some(Unsaved::Inbound),
        NodeEvent::PaymentSent { .. } => Some(Unsaved::Sent),
        NodeEvent::PaymentFailed { .. } => Some(Unsaved::Failed),
        NodeEvent::SpendableOutputs => Some(Unsaved::Outputs),
        _ => None,
    }
}

/// What may go wrong when `event` has something written down.
pub fn unsaved_by(event: &NodeEvent) -> (r: Option<Unsaved>)
    ensures
        r == unsaved_after(*event),
{
    match event {
        NodeEvent::PaymentClaimed { .. } => Some(Unsaved::Inbound),
        NodeEvent::PaymentSent { .. } => Some(Unsaved::Sent),
        NodeEvent::PaymentFailed { .. } => Some(Unsaved::Failed),
        NodeEvent::SpendableOutputs => Some(Unsaved::Outputs),
        _ => None,
    }
}

/// Whenever something is written down after an event, there is something to say if that fails.
pub proof fn law_every_write_can_fail(event: NodeEvent, outbound: Map<Bytes32, PaymentInfo>)
    ensures
        response_to(event, outbound).action is PersistInbound ==> unsaved_after(event) == Some(
            Unsaved::Inbound,
        ),
        response_to(event, outbound).action is PersistOutbound ==> unsaved_after(event) == Some(
            Unsaved::Sent,
        ) || unsaved_after(event) == Some(Unsaved::Failed),
        response_to(event, outbound).action is TrackOutputs ==> unsaved_after(event) == Some(
            Unsaved::Outputs,
        ),
{
}

/// What is said when something could not be written down.
pub fn unsaved_message(what: Unsaved, e: &str) -> (r: Message)
    ensures
        r@ == logging::err(
            (match what {
                Unsaved::Inbound => "failed to persist inbound payment state: "@,
                Unsaved::Sent => "failed to persist outbound payment state: "@,
                Unsaved::Failed => "failed to persist outbound payment failure state: "@,
                Unsaved::Outputs => "failed to track spendable outputs: "@,
            }) + e@,
        ),
{
    let mut t = match what {
        Unsaved::Inbound => "failed to persist inbound payment state: ".to_owned(),
        Unsaved::Sent => "failed to persist outbound payment state: ".to_owned(),
        Unsaved::Failed => "failed to persist outbound payment failure state: ".to_owned(),
        Unsaved::Outputs => "failed to track spendable outputs: ".to_owned(),
    };
    t.append(e);
    user_err(t)
}

/// A payment that can be claimed is claimed with the preimage that comes with it, whatever it is for,
/// and only where none comes with it is nothing done and that said as an error.
pub proof fn law_claimable_payments_are_claimed(
    payment_hash: Bytes32,
    purpose: PaymentPurpose,
    amount_msat: u64,
    outbound: Map<Bytes32, PaymentInfo>,
    p: Bytes32,
)
    ensures
        ({
            let r = response_to(
                NodeEvent::PaymentClaimable { payment_hash, purpose, amount_msat },
                outbound,
            );
            &&& purpose == PaymentPurpose::Spontaneous(p) ==> r.action
                == EventAction::ClaimFunds(p)
            &&& (purpose matches PaymentPurpose::Bolt11Invoice { preimage: Some(q), .. } && q == p)
                ==> r.action == EventAction::ClaimFunds(p)
            &&& (purpose matches PaymentPurpose::Bolt12Offer { preimage: Some(q), .. } && q == p)
                ==> r.action == EventAction::ClaimFunds(p)
            &&& (purpose matches PaymentPurpose::Bolt12Refund { preimage: Some(q), .. } && q == p)
                ==> r.action == EventAction::ClaimFunds(p)
            &&& r.action is ClaimFunds || r.action is Nothing
            &&& r.action is Nothing <==> {
                ||| purpose matches PaymentPurpose::Bolt11Invoice { preimage: None, .. }
                ||| purpose matches PaymentPurpose::Bolt12Offer { preimage: None, .. }
                ||| purpose matches PaymentPurpose::Bolt12Refund { preimage: None, .. }
            }
            &&& r.action is ClaimFunds ==> r.messages.len() == 1
            &&& r.action is Nothing ==> r.messages.len() == 2 && r.messages[1].level
                == logging::Level::Error
            &&& r.messages[0] == logging::out(received_text("received"@, payment_hash, amount_msat))
        }),
{
}

/// Each event is answered with its own action, and no event with that of another: a channel that waits
/// for its transaction is funded, a request accepted, and so on. Settled payments are written down on
/// the side they are on.
pub proof fn law_each_event_has_its_action(event: NodeEvent, outbound: Map<Bytes32, PaymentInfo>)
    ensures
        ({
            let action = response_to(event, outbound).action;
            &&& action is FundChannel <==> event is FundingGenerationReady
            &&& action is AcceptChannel <==> event is OpenChannelRequest
            &&& action is TrackOutputs <==> event is SpendableOutputs
            &&& action is BumpTransaction <==> event is BumpTransaction
            &&& action is Connect <==> event is ConnectionNeeded
            &&& action is PersistInbound <==> event is PaymentClaimed
            &&& action is PersistOutbound <==> event is PaymentFailed || (
            event matches NodeEvent::PaymentSent { sent_id: Some(_), .. })
            &&& action is ClaimFunds ==> event is PaymentClaimable
            &&& action is CompleteProbe <==> event is ProbeSuccessful || event is ProbeFailed
            &&& event matches NodeEvent::ProbeSuccessful { payment_hash: h } ==> action == (
            EventAction::CompleteProbe { payment_hash: h, outcome: ProbeOutcome::Success })
            &&& event matches NodeEvent::ProbeFailed { payment_hash: h } ==> action == (
            EventAction::CompleteProbe { payment_hash: h, outcome: ProbeOutcome::Failed })
        }),
{
}

/// A claimed payment is on the books with its preimage and its secret. Its amount is the one that was
/// asked for, or the one that was claimed if none was.
pub proof fn law_claimed_payments_keep_their_amount(
    payment_hash: Bytes32,
    purpose: PaymentPurpose,
    amount_msat: u64,
    inbound: Map<Bytes32, PaymentInfo>,
    outbound: Map<Bytes32, PaymentInfo>,
)
    ensures
        ({
            let event = NodeEvent::PaymentClaimed { payment_hash, purpose, amount_msat };
            let p = inbound_after(event, inbound)[payment_hash];
            &&& inbound_after(event, inbound).contains_key(payment_hash)
            &&& p.status == state::HTLCStatus::Succeeded
            &&& inbound.contains_key(payment_hash) ==> p.amt_msat
                == inbound[payment_hash].amt_msat
            &&& !inbound.contains_key(payment_hash) ==> p.amt_msat.0 == Some(amount_msat)
            &&& outbound_after(event, outbound) == outbound
            &&& match purpose {
                PaymentPurpose::Spontaneous(preimage) => p.preimage == Some(preimage) && p.secret
                    is None,
                PaymentPurpose::Bolt11Invoice { preimage, secret } => p.preimage == preimage
                    && p.secret == Some(secret),
                PaymentPurpose::Bolt12Offer { preimage, secret } => p.preimage == preimage
                    && p.secret == Some(secret),
                PaymentPurpose::Bolt12Refund { preimage, secret } => p.preimage == preimage
                    && p.secret == Some(secret),
            }
        }),
{
}

/// The books change only where a payment is settled: payments to this node by a claim, payments by it
/// by having been sent or having failed. A payment by this node keeps its secret and amount, and one
/// that failed its preimage too.
pub proof fn law_only_settled_payments_change(
    event: NodeEvent,
    inbound: Map<Bytes32, PaymentInfo>,
    outbound: Map<Bytes32, PaymentInfo>,
    k: Bytes32,
)
    ensures
        !(event is PaymentClaimed) ==> inbound_after(event, inbound) == inbound,
        !(event is PaymentSent || event is PaymentFailed) ==> outbound_after(event, outbound)
            == outbound,
        outbound.contains_key(k) ==> {
            let p = outbound_after(event, outbound)[k];
            &&& p.secret == outbound[k].secret
            &&& p.amt_msat == outbound[k].amt_msat
            &&& p.status == outbound[k].status || p.status == state::HTLCStatus::Succeeded
                || p.status == state::HTLCStatus::Failed
            &&& event is PaymentFailed ==> p.preimage == outbound[k].preimage
        },
        event matches NodeEvent::PaymentSent { sent_id: None, .. } ==> outbound_after(
            event,
            outbound,
        ) == outbound && response_to(event, outbound).action is Nothing,
{
}

/// What is said of a payment that was sent is its own amount, and nothing is said of a payment that is
/// not on the books.
pub proof fn law_sent_payments_are_said(
    id: Bytes32,
    payment_hash: Bytes32,
    payment_preimage: Bytes32,
    fee_paid_msat: Option<u64>,
    outbound: Map<Bytes32, PaymentInfo>,
)
    ensures
        ({
            let r = response_to(
                NodeEvent::PaymentSent {
                    sent_id: Some(id),
                    payment_hash,
                    payment_preimage,
                    fee_paid_msat,
                },
                outbound,
            );
            &&& r.messages.len() > 0 <==> outbound.contains_key(id)
            &&& outbound.contains_key(id) ==> r.prompt && r.messages[0].text
                == "\nEVENT: successfully sent payment of "@ + outbound[id].amt_msat.shown()
                + " millisatoshis"@ + fee_text(fee_paid_msat) + " from payment hash "@
                + hex_utils::hex_of(payment_hash@) + " with preimage "@ + hex_utils::hex_of(
                payment_preimage@,
            )
        }),
{
}

/// A payment that was forwarded is said to come from the previous channel and go to the next, with the
/// amount and the fee where they are known; the two directions are not confused.
pub proof fn law_forwarding_has_a_direction(
    prev: Option<Hop>,
    next: Option<Hop>,
    fee: Option<u64>,
    onchain: bool,
    amount: Option<u64>,
    outbound: Map<Bytes32, PaymentInfo>,
)
    ensures
        ({
            let event = NodeEvent::PaymentForwarded {
                prev,
                next,
                total_fee_earned_msat: fee,
                claim_from_onchain_tx: onchain,
                outbound_amount_forwarded_msat: amount,
            };
            let r = response_to(event, outbound);
            let from = node_text(prev) + channel_text(prev);
            let to = node_text(next) + channel_text(next);
            let paid = match amount {
                Some(v) => text::decimal(v as nat),
                None => "?"@,
            };
            let head = "\nEVENT: Forwarded payment for "@ + paid + " msat from "@ + from + " to "@
                + to;
            &&& r.action is Nothing
            &&& r.messages.len() == 1
            &&& head.is_prefix_of(r.messages[0].text)
            &&& onchain ==> "from onchain downstream claim"@.is_suffix_of(r.messages[0].text)
            &&& !onchain ==> "from HTLC fulfill message"@.is_suffix_of(r.messages[0].text)
        }),
{
    let event = NodeEvent::PaymentForwarded {
        prev,
        next,
        total_fee_earned_msat: fee,
        claim_from_onchain_tx: onchain,
        outbound_amount_forwarded_msat: amount,
    };
    let said = response_to(event, outbound).messages[0].text;
    let from = node_text(prev) + channel_text(prev);
    let to = node_text(next) + channel_text(next);
    let paid = match amount {
        Some(v) => text::decimal(v as nat),
        None => "?"@,
    };
    let head = "\nEVENT: Forwarded payment for "@ + paid + " msat from "@ + from + " to "@ + to;
    reveal_strlit(" msat");
    reveal_strlit(" from ");
    reveal_strlit(" msat from ");
    assert(" msat from "@ =~= " msat"@ + " from "@);
    assert(said.take(head.len() as int) =~= head);
}

/// Only events that a user waits for are said on the terminal: the others are answered in silence.
pub proof fn law_silent_events_are_silent(event: NodeEvent, outbound: Map<Bytes32, PaymentInfo>)
    ensures
        ({
            let r = response_to(event, outbound);
            &&& event is FundingGenerationReady || event is OpenChannelRequest
                || event is ProbeSuccessful || event is ProbeFailed || event is SpendableOutputs
                || event is BumpTransaction || event is ConnectionNeeded || event is Other
                ==> r.messages.len() == 0
            &&& event is PaymentClaimable || event is PaymentClaimed || event is PaymentFailed
                || event is PaymentForwarded || event is ChannelPending || event is ChannelReady
                || event is ChannelClosed ==> r.messages.len() > 0 && r.prompt
                && r.messages[0].shown && r.messages[0].logged
        }),
{
}

} // verus!
