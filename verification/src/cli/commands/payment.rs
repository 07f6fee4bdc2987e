//! `sendpayment`, `keysend`, `getinvoice` and `getoffer`.
use crate::hex_utils;
use crate::keys::PublicKey;
use crate::logging;
use crate::logging::{print_line, user_err, user_out, Message, MessageView};
use crate::state;
use crate::state::{InboundPaymentInfoStorage, OutboundPaymentInfoStorage, PaymentInfo};
use crate::table::Bytes32;
use crate::text;
use crate::text::{number, parse_number};
use lightning::offers::offer::{Amount, Offer};
use lightning::onion_message::dns_resolution::HumanReadableName;
use lightning_invoice::Bolt11Invoice;
use std::str::FromStr;
use vstd::prelude::*;
use vstd::string::StrSliceExecFns;

verus! {

/// Seconds for which a payment is tried again.
pub const RETRY_SECS: u64 = 10;

/// The last hop's delay of a payment without an invoice, in blocks.
pub const KEYSEND_FINAL_CLTV_DELTA: u32 = 40;

/// How many nodes are asked to resolve a name.
pub const MAX_RESOLVERS: usize = 6;

/// The amount that an offer asks for.
#[derive(Debug)]
pub enum OfferAmount {
    /// It leaves the amount open.
    Unset,
    /// So many millisatoshis.
    Bitcoin(u64),
    /// An amount in another currency, as text.
    Other(String),
}

/// The amount that an offer asks for, with its text as a sequence of characters.
pub enum OfferAmountView {
    Unset,
    Bitcoin(u64),
    Other(Seq<char>),
}

impl View for OfferAmount {
    type V = OfferAmountView;

    open spec fn view(&self) -> OfferAmountView {
        match self {
            OfferAmount::Unset => OfferAmountView::Unset,
            OfferAmount::Bitcoin(a) => OfferAmountView::Bitcoin(*a),
            OfferAmount::Other(t) => OfferAmountView::Other(t@),
        }
    }
}

/// What an invoice says.
#[derive(Clone, Copy, Debug)]
pub struct InvoiceInfo {
    /// The hash that the payment is known by.
    pub payment_hash: Bytes32,
    /// What the payer must show.
    pub payment_secret: Bytes32,
    /// The amount in millisatoshis, if it is fixed.
    pub amount_msat: Option<u64>,
    /// Who is paid.
    pub payee: PublicKey,
}

/// The amount of the offer that `text` encodes, if it encodes one: what
/// `lightning::offers::offer::Offer::from_str` and `amount` make of it.
pub uninterp spec fn offer_of(text: Seq<char>) -> Option<OfferAmountView>;

/// Calls `lightning::offers::offer::Offer::from_str` and, on the offer, `amount`. The result is the
/// one that `offer_of` names.
#[verifier::external_body]
fn read_offer(text: &str) -> (r: Option<OfferAmount>)
    ensures
        match r {
            Some(a) => offer_of(text@) == Some(a@),
            None => offer_of(text@) is None,
        },
{
    match Offer::from_str(text) {
        Ok(offer) => match offer.amount() {
            None => Some(OfferAmount::Unset),
            Some(Amount::Bitcoin { amount_msats }) => Some(OfferAmount::Bitcoin(amount_msats)),
            Some(other) => Some(OfferAmount::Other(format!("{:?}", other))),
        },
        Err(_) => None,
    }
}

/// Whether every character is a letter, a digit, a dot, an underscore or a hyphen, all of ASCII.
pub open spec fn is_host_text(s: Seq<char>) -> bool {
    forall|i: int|
        0 <= i < s.len() ==> {
            let c = #[trigger] s[i];
            'a' <= c <= 'z' || 'A' <= c <= 'Z' || '0' <= c <= '9' || c == '.' || c == '_' || c
                == '-'
        }
}

/// How long the two parts of a name can be together.
pub const MAX_NAME_LEN: usize = 231;

/// Whether `text` is a name that a payment can be made to: a user and a domain with `@` between them,
/// both of them not empty, made of letters, digits, `.`, `_` and `-`, and not too long together. A
/// bitcoin sign (U+20BF) in front of the name and a dot behind it do not count.
pub open spec fn is_payable_name(text: Seq<char>) -> bool {
    let name = if text.len() > 0 && text[0] == '\u{20BF}' {
        text.skip(1)
    } else {
        text
    };
    let at = text::find(name, '@') as int;
    let user = name.take(at);
    let host = name.skip(at + 1);
    let domain = if host.len() > 0 && host.last() == '.' {
        host.drop_last()
    } else {
        host
    };
    &&& at < name.len()
    &&& user.len() > 0
    &&& domain.len() > 0
    &&& is_host_text(user)
    &&& is_host_text(domain)
    &&& user.len() + domain.len() <= MAX_NAME_LEN
}

/// Calls `lightning::onion_message::dns_resolution::HumanReadableName::from_encoded` and says
/// whether it accepts the text: it does if `is_payable_name` holds of it.
#[verifier::external_body]
fn read_name(text: &str) -> (r: bool)
    ensures
        r == is_payable_name(text@),
{
    HumanReadableName::from_encoded(text).is_ok()
}

/// The invoice that `text` encodes, or the error as text: what
/// `lightning_invoice::Bolt11Invoice::from_str` makes of it.
pub uninterp spec fn invoice_of(text: Seq<char>) -> Result<InvoiceInfo, Seq<char>>;

/// Calls `lightning_invoice::Bolt11Invoice::from_str` and, on the invoice, `payment_hash`,
/// `payment_secret`, `amount_milli_satoshis` and `recover_payee_pub_key`. The result is the one that
/// `invoice_of` names.
#[verifier::external_body]
fn read_invoice(text: &str) -> (r: Result<InvoiceInfo, String>)
    ensures
        match r {
            Ok(i) => invoice_of(text@) == Ok::<InvoiceInfo, Seq<char>>(i),
            Err(e) => invoice_of(text@) == Err::<InvoiceInfo, Seq<char>>(e@),
        },
{
    match Bolt11Invoice::from_str(text) {
        Ok(invoice) => Ok(
            InvoiceInfo {
                payment_hash: bitcoin::hashes::Hash::to_byte_array(*invoice.payment_hash()),
                payment_secret: invoice.payment_secret().0,
                amount_msat: invoice.amount_milli_satoshis(),
                payee: PublicKey { bytes: invoice.recover_payee_pub_key().serialize() },
            },
        ),
        Err(e) => Err(format!("{:?}", e)),
    }
}

/// The SHA-256 hash of `bytes`, as `bitcoin::hashes::sha256::Hash::hash` computes it.
pub uninterp spec fn sha256_of(bytes: Seq<u8>) -> Seq<u8>;

/// Calls `bitcoin::hashes::sha256::Hash::hash`. The result is the one that `sha256_of` names.
#[verifier::external_body]
fn sha256(bytes: &[u8]) -> (r: [u8; 32])
    ensures
        r@ == sha256_of(bytes@),
{
    let hash = <bitcoin::hashes::sha256::Hash as bitcoin::hashes::Hash>::hash(bytes);
    bitcoin::hashes::Hash::to_byte_array(hash)
}

/// What can be paid.
pub enum Payable {
    /// An offer.
    Offer(OfferAmount),
    /// A name that stands for an offer.
    Name,
    /// An invoice.
    Invoice(InvoiceInfo),
    /// Nothing, for this reason.
    Invalid(String),
}

/// What can be paid, with sequences in place of texts.
pub enum PayableView {
    Offer(OfferAmountView),
    Name,
    Invoice(InvoiceInfo),
    Invalid(Seq<char>),
}

impl View for Payable {
    type V = PayableView;

    open spec fn view(&self) -> PayableView {
        match self {
            Payable::Offer(a) => PayableView::Offer(a@),
            Payable::Name => PayableView::Name,
            Payable::Invoice(i) => PayableView::Invoice(*i),
            Payable::Invalid(e) => PayableView::Invalid(e@),
        }
    }
}

/// What a text is: an offer if it is one, else a name if it is one, else an invoice or an error.
pub open spec fn payable_of(
    offer: Option<OfferAmountView>,
    name: bool,
    invoice: Result<InvoiceInfo, Seq<char>>,
) -> PayableView {
    match offer {
        Some(a) => PayableView::Offer(a),
        None => if name {
            PayableView::Name
        } else {
            match invoice {
                Ok(i) => PayableView::Invoice(i),
                Err(e) => PayableView::Invalid(e),
            }
        },
    }
}

/// What a text is that came as an invoice or as the error of reading one.
pub fn invoice_payable(invoice: Result<InvoiceInfo, String>) -> (r: Payable)
    ensures
        r@ == (match invoice {
            Ok(i) => PayableView::Invoice(i),
            Err(e) => PayableView::Invalid(e@),
        }),
{
    match invoice {
        Ok(i) => Payable::Invoice(i),
        Err(e) => Payable::Invalid(e),
    }
}

/// What the argument of `sendpayment` is.
pub fn read_payable(text: &str) -> (r: Payable)
    ensures
        r@ == payable_of(offer_of(text@), is_payable_name(text@), invoice_of(text@)),
{
    match read_offer(text) {
        Some(a) => Payable::Offer(a),
        None => if read_name(text) {
            Payable::Name
        } else {
            invoice_payable(read_invoice(text))
        },
    }
}

/// What is said about a text that cannot be paid.
pub fn invalid_invoice_message(e: &str) -> (r: Message)
    ensures
        r@ == logging::err("invalid invoice: "@ + e@),
{
    let mut t = "invalid invoice: ".to_owned();
    t.append(e);
    user_err(t)
}

/// What is done about a payment.
pub enum PaymentChoice {
    /// It is refused.
    Reject(Message),
    /// The user is asked whether to pay this amount.
    Confirm(u64),
    /// This amount is paid.
    Pay(u64),
}

/// What is done about a payment, with the message as its view.
pub enum PaymentChoiceView {
    Reject(MessageView),
    Confirm(u64),
    Pay(u64),
}

impl View for PaymentChoice {
    type V = PaymentChoiceView;

    open spec fn view(&self) -> PaymentChoiceView {
        match self {
            PaymentChoice::Reject(m) => PaymentChoiceView::Reject(m@),
            PaymentChoice::Confirm(a) => PaymentChoiceView::Confirm(*a),
            PaymentChoice::Pay(a) => PaymentChoiceView::Pay(*a),
        }
    }
}

/// The amount of an offer as it is shown where it cannot be paid.
pub open spec fn offer_amount_shown(a: OfferAmountView) -> Seq<char> {
    match a {
        OfferAmountView::Other(t) => "Some("@ + t + ")"@,
        _ => "None"@,
    }
}

/// What is done about an offer: an amount in bitcoin is paid, else the user's; an amount given by
/// the user must agree with the offer's, and none has to be confirmed.
pub open spec fn offer_choice_of(amount: OfferAmountView, user: Option<u64>) -> PaymentChoiceView {
    match (amount, user) {
        (OfferAmountView::Bitcoin(a), None) => PaymentChoiceView::Confirm(a),
        (OfferAmountView::Bitcoin(a), Some(u)) => if u != a {
            PaymentChoiceView::Reject(
                logging::print(
                    "Amount didn't match offer of "@ + text::decimal(a as nat) + "msat"@,
                ),
            )
        } else {
            PaymentChoiceView::Pay(a)
        },
        (_, Some(u)) => PaymentChoiceView::Pay(u),
        (other, None) => PaymentChoiceView::Reject(
            logging::err(
                "Cannot process non-Bitcoin-denominated offer value "@ + offer_amount_shown(other),
            ),
        ),
    }
}

/// What is done about an offer.
pub fn offer_choice(amount: &OfferAmount, user_provided_amt: Option<u64>) -> (r: PaymentChoice)
    ensures
        r@ == offer_choice_of(amount@, user_provided_amt),
{
    match (amount, user_provided_amt) {
        (OfferAmount::Bitcoin(a), None) => PaymentChoice::Confirm(*a),
        (OfferAmount::Bitcoin(a), Some(u)) => if u != *a {
            let mut t = "Amount didn't match offer of ".to_owned();
            t.append(number(*a).as_str());
            t.append("msat");
            PaymentChoice::Reject(print_line(t))
        } else {
            PaymentChoice::Pay(*a)
        },
        (_, Some(u)) => PaymentChoice::Pay(u),
        (OfferAmount::Unset, None) => {
            let mut t = "Cannot process non-Bitcoin-denominated offer value ".to_owned();
            t.append("None");
            PaymentChoice::Reject(user_err(t))
        },
        (OfferAmount::Other(o), None) => {
            let mut shown = "Some(".to_owned();
            shown.append(o.as_str());
            shown.append(")");
            let mut t = "Cannot process non-Bitcoin-denominated offer value ".to_owned();
            t.append(shown.as_str());
            PaymentChoice::Reject(user_err(t))
        },
    }
}

/// What the user is asked before an offer is paid.
pub fn confirm_prompt(amt_msat: u64) -> (r: String)
    ensures
        r@ == "Paying offer for "@ + text::decimal(amt_msat as nat)
            + " msat. Continue (Y/N)? >"@,
{
    let mut t = "Paying offer for ".to_owned();
    t.append(number(amt_msat).as_str());
    t.append(" msat. Continue (Y/N)? >");
    t
}

/// What the user answers.
#[derive(Clone, Copy, Debug, PartialEq, Eq, Structural)]
pub enum Answer {
    /// Pay.
    Yes,
    /// Do not pay.
    No,
    /// Neither: ask again.
    Unclear,
}

/// The answer in a line of input.
pub open spec fn answer_of(line: Seq<char>) -> Answer {
    if line.len() > 0 && line[0] == 'Y' {
        Answer::Yes
    } else if line.len() > 0 && line[0] == 'N' {
        Answer::No
    } else {
        Answer::Unclear
    }
}

/// Only the first letter of an answer counts: `Y` pays, `N` does not, and anything else, an empty line
/// too, is asked about again.
pub proof fn law_first_letter_decides(line: Seq<char>, rest: Seq<char>, c: char)
    ensures
        answer_of(seq!['Y'] + rest) == Answer::Yes,
        answer_of(seq!['N'] + rest) == Answer::No,
        answer_of(line) == Answer::Yes ==> line.len() > 0 && line[0] == 'Y',
        c != 'Y' && c != 'N' ==> answer_of(seq![c] + rest) == Answer::Unclear,
        answer_of(Seq::<char>::empty()) == Answer::Unclear,
{
}

/// The answer in a line of input: its first letter decides.
pub fn read_answer(line: &str) -> (r: Answer)
    ensures
        r == answer_of(line@),
        r == (if line@.len() > 0 && line@[0] == 'Y' {
            Answer::Yes
        } else if line@.len() > 0 && line@[0] == 'N' {
            Answer::No
        } else {
            Answer::Unclear
        }),
{
    if line.is_empty() {
        return Answer::Unclear;
    }
    let c = line.get_char(0);
    if c == 'Y' {
        Answer::Yes
    } else if c == 'N' {
        Answer::No
    } else {
        Answer::Unclear
    }
}

/// What is known of a node that may resolve names.
#[derive(Clone, Copy, Debug)]
pub struct ResolverCandidate {
    /// Whether it says that it resolves names.
    pub supports_dns: bool,
    /// Whether it passes on onion messages.
    pub supports_onion_messages: bool,
    /// Its key, if it has a valid one.
    pub pubkey: Option<PublicKey>,
}

/// The keys of the nodes that both resolve names and pass on onion messages, in order.
pub open spec fn resolvers_of(s: Seq<ResolverCandidate>) -> Seq<PublicKey>
    decreases s.len(),
{
    if s.len() == 0 {
        Seq::empty()
    } else {
        match s.last().pubkey {
            Some(k) => if s.last().supports_dns && s.last().supports_onion_messages {
                resolvers_of(s.drop_last()).push(k)
            } else {
                resolvers_of(s.drop_last())
            },
            None => resolvers_of(s.drop_last()),
        }
    }
}

proof fn lemma_resolvers_prefix(s: Seq<ResolverCandidate>, n: int)
    requires
        0 <= n <= s.len(),
    ensures
        resolvers_of(s.take(n)).len() <= resolvers_of(s).len(),
        resolvers_of(s).take(resolvers_of(s.take(n)).len() as int) == resolvers_of(s.take(n)),
    decreases s.len(),
{
    if n == s.len() {
        assert(s.take(n) == s);
        assert(resolvers_of(s).take(resolvers_of(s).len() as int) == resolvers_of(s));
    } else {
        lemma_resolvers_prefix(s.drop_last(), n);
        assert(s.drop_last().take(n) == s.take(n));
        let k = resolvers_of(s.take(n)).len() as int;
        assert(resolvers_of(s).take(k) == resolvers_of(s.drop_last()).take(k));
    }
}

/// The nodes that are asked to resolve a name.
pub open spec fn asked_of(s: Seq<ResolverCandidate>) -> Seq<PublicKey> {
    if resolvers_of(s).len() <= 6 {
        resolvers_of(s)
    } else {
        resolvers_of(s).take(6)
    }
}

/// A node that resolves names, passes on onion messages and has a key is asked to resolve a name, as long
/// as fewer than six before it are; no other node is.
pub proof fn law_resolvers_can_resolve(s: Seq<ResolverCandidate>, next: ResolverCandidate)
    ensures
        asked_of(Seq::<ResolverCandidate>::empty()).len() == 0,
        asked_of(s).len() <= 6,
        next.supports_dns && next.supports_onion_messages && asked_of(s).len() < 6 ==> (
        next.pubkey matches Some(k) ==> asked_of(s.push(next)) == asked_of(s).push(k)),
        !next.supports_dns || !next.supports_onion_messages || next.pubkey is None
            || asked_of(s).len() == 6 ==> asked_of(s.push(next)) == asked_of(s),
{
    assert(s.push(next).drop_last() =~= s);
    if let Some(k) = next.pubkey {
        if resolvers_of(s).len() >= 6 {
            assert(resolvers_of(s).push(k).take(6) =~= resolvers_of(s).take(6));
            assert(resolvers_of(s).len() == 6 ==> resolvers_of(s).take(6) =~= resolvers_of(s));
        }
    }
}

/// The nodes that are asked to resolve a name: the first few that can.
pub fn choose_resolvers(nodes: &Vec<ResolverCandidate>) -> (r: Vec<PublicKey>)
    ensures
        r@ == (if resolvers_of(nodes@).len() <= MAX_RESOLVERS {
            resolvers_of(nodes@)
        } else {
            resolvers_of(nodes@).take(MAX_RESOLVERS as int)
        }),
        r@ == asked_of(nodes@),
{
    let n: usize = nodes.len();
    let mut r: Vec<PublicKey> = Vec::new();
    let mut i: usize = 0;
    assert(r@ =~= resolvers_of(nodes@.take(0)));
    while i < n && r.len() < MAX_RESOLVERS
        invariant
            n == nodes@.len(),
            i <= n,
            r@ == resolvers_of(nodes@.take(i as int)),
            r@.len() <= MAX_RESOLVERS,
        decreases n - i,
    {
        assert(nodes@.take(i + 1).drop_last() == nodes@.take(i as int));
        let node = nodes[i];
        match node.pubkey {
            Some(k) => if node.supports_dns && node.supports_onion_messages {
                r.push(k);
            },
            None => {},
        }
        i = i + 1;
    }
    proof {
        lemma_resolvers_prefix(nodes@, i as int);
        if i == n {
            assert(nodes@.take(n as int) == nodes@);
        }
        assert(resolvers_of(nodes@).take(resolvers_of(nodes@).len() as int) == resolvers_of(
            nodes@,
        ));
    }
    r
}

/// What is done about a payment to a name, with so many nodes that resolve names.
pub open spec fn name_choice_of(user: Option<u64>, resolvers: nat) -> PaymentChoiceView {
    match user {
        None => PaymentChoiceView::Reject(
            logging::print("Can't pay to a human-readable-name without an amount"@),
        ),
        Some(a) => if resolvers == 0 {
            PaymentChoiceView::Reject(
                logging::print(
                    "Failed to find any DNS resolving nodes, check your network graph is synced"@,
                ),
            )
        } else {
            PaymentChoiceView::Pay(a)
        },
    }
}

/// What is done about a payment to a name: the user must give the amount, and there must be nodes
/// that resolve names.
pub fn name_choice(user_provided_amt: Option<u64>, resolvers: usize) -> (r: PaymentChoice)
    ensures
        r@ == (match user_provided_amt {
            None => PaymentChoiceView::Reject(
                logging::print("Can't pay to a human-readable-name without an amount"@),
            ),
            Some(a) => if resolvers == 0 {
                PaymentChoiceView::Reject(
                    logging::print(
                        "Failed to find any DNS resolving nodes, check your network graph is synced"@,
                    ),
                )
            } else {
                PaymentChoiceView::Pay(a)
            },
        }),
        r@ == name_choice_of(user_provided_amt, resolvers as nat),
{
    match user_provided_amt {
        None => PaymentChoice::Reject(
            print_line("Can't pay to a human-readable-name without an amount".to_owned()),
        ),
        Some(a) => if resolvers == 0 {
            PaymentChoice::Reject(
                print_line(
                    "Failed to find any DNS resolving nodes, check your network graph is synced".to_owned(),
                ),
            )
        } else {
            PaymentChoice::Pay(a)
        },
    }
}

/// What is done about an invoice: amounts given by both the invoice and the user must agree, and
/// one of them must be given.
pub open spec fn invoice_choice_of(invoice: Option<u64>, user: Option<u64>) -> PaymentChoiceView {
    match (invoice, user) {
        (Some(i), Some(u)) => if i != u {
            PaymentChoiceView::Reject(
                logging::err(
                    "Amount didn't match invoice value of "@ + text::decimal(i as nat) + "msat"@,
                ),
            )
        } else {
            PaymentChoiceView::Pay(i)
        },
        (Some(i), None) => PaymentChoiceView::Pay(i),
        (None, Some(u)) => PaymentChoiceView::Pay(u),
        (None, None) => PaymentChoiceView::Reject(
            logging::err("Need an amount to pay an amountless invoice"@),
        ),
    }
}

/// What is done about an invoice.
pub fn invoice_choice(invoice_amount: Option<u64>, required_amount_msat: Option<u64>) -> (r:
    PaymentChoice)
    ensures
        r@ == invoice_choice_of(invoice_amount, required_amount_msat),
{
    match (invoice_amount, required_amount_msat) {
        (Some(i), Some(u)) => if i != u {
            let mut t = "Amount didn't match invoice value of ".to_owned();
            t.append(number(i).as_str());
            t.append("msat");
            PaymentChoice::Reject(user_err(t))
        } else {
            PaymentChoice::Pay(i)
        },
        (Some(i), None) => PaymentChoice::Pay(i),
        (None, Some(u)) => PaymentChoice::Pay(u),
        (None, None) => PaymentChoice::Reject(
            user_err("Need an amount to pay an amountless invoice".to_owned()),
        ),
    }
}

/// The id of a payment without an invoice: the hash of its preimage.
pub fn keysend_payment_id(payment_preimage: &Bytes32) -> (r: Bytes32)
    ensures
        r@ == sha256_of(payment_preimage@),
{
    sha256(payment_preimage.as_slice())
}

/// How a payment is sent.
#[derive(Clone, Copy, Debug, PartialEq, Eq, Structural)]
pub enum SendKind {
    /// For an invoice, or without one.
    Direct,
    /// For an offer.
    Offer,
    /// For a name.
    Name,
}

/// Where the sending of a payment stands.
#[derive(Clone, Copy, Debug, PartialEq, Eq, Structural)]
pub enum SendStep {
    /// Write down that the payment is pending.
    Persist,
    /// Pay.
    Pay,
    /// Write down that the payment failed.
    PersistFailure,
    /// Nothing is left to do.
    Finished,
}

/// A payment that is being sent.
#[derive(Clone, Copy, Debug)]
pub struct Sending {
    /// How it is sent.
    pub kind: SendKind,
    /// Its id.
    pub payment_id: Bytes32,
    /// Its amount in millisatoshis.
    pub amt_msat: u64,
    /// Who is paid, where it is known.
    pub payee: Option<PublicKey>,
    /// Where it stands.
    pub step: SendStep,
}

/// Begins to send a payment: it is noted as pending, and is to be written down before it is paid.
pub fn begin_sending(
    outbound: &mut OutboundPaymentInfoStorage,
    kind: SendKind,
    payment_id: Bytes32,
    secret: Option<Bytes32>,
    amt_msat: u64,
    payee: Option<PublicKey>,
) -> (r: Sending)
    requires
        old(outbound).payments.wf(),
    ensures
        final(outbound).payments.wf(),
        final(outbound).payments@ == old(outbound).payments@.insert(
            payment_id,
            state::begun(secret, amt_msat),
        ),
        r == (Sending { kind, payment_id, amt_msat, payee, step: SendStep::Persist }),
{
    outbound.record_pending(payment_id, secret, amt_msat);
    Sending { kind, payment_id, amt_msat, payee, step: SendStep::Persist }
}

/// The step after the current one has ended with `failed`: a payment that cannot be written down is
/// not paid, and only a direct one that cannot be paid is written down as failed.
pub open spec fn next_send_step(step: SendStep, kind: SendKind, failed: bool) -> SendStep {
    match step {
        SendStep::Persist => if failed {
            SendStep::Finished
        } else {
            SendStep::Pay
        },
        SendStep::Pay => if failed && kind == SendKind::Direct {
            SendStep::PersistFailure
        } else {
            SendStep::Finished
        },
        SendStep::PersistFailure => SendStep::Finished,
        SendStep::Finished => SendStep::Finished,
    }
}

/// The payments after the current step has ended with `failed`: a direct payment that cannot be paid
/// has failed.
pub open spec fn sent_payments(
    m: Map<Bytes32, PaymentInfo>,
    s: Sending,
    failed: bool,
) -> Map<Bytes32, PaymentInfo> {
    if s.step == SendStep::Pay && s.kind == SendKind::Direct && failed {
        state::failed(m, s.payment_id)
    } else {
        m
    }
}

/// What is said when the current step has ended, `failure` being the error if it failed.
pub open spec fn send_said(s: Sending, failure: Option<Seq<char>>) -> Option<MessageView> {
    match (s.step, failure) {
        (SendStep::Finished, _) => None,
        (SendStep::Pay, None) => match (s.kind, s.payee) {
            (SendKind::Direct, Some(k)) => Some(
                logging::out(
                    "EVENT: initiated sending "@ + text::decimal(s.amt_msat as nat) + " msats to "@
                        + hex_utils::hex_of(k@),
                ),
            ),
            _ => Some(logging::print("Payment in flight"@)),
        },
        (_, None) => None,
        (SendStep::Pay, Some(e)) => Some(
            logging::err(
                match s.kind {
                    SendKind::Direct => "failed to send payment: "@ + e,
                    SendKind::Offer => "Failed to pay: "@ + e,
                    SendKind::Name => "Failed to pay"@,
                },
            ),
        ),
        (_, Some(e)) => Some(logging::err("failed to persist outbound payments: "@ + e)),
    }
}

/// Goes on with a payment whose current step has ended, `failure` being the error if it failed. The
/// result is what is said about it.
pub fn advance_sending(
    sending: &mut Sending,
    outbound: &mut OutboundPaymentInfoStorage,
    failure: Option<String>,
) -> (r: Option<Message>)
    requires
        old(outbound).payments.wf(),
    ensures
        final(outbound).payments.wf(),
        final(outbound).payments@ == sent_payments(
            old(outbound).payments@,
            *old(sending),
            failure is Some,
        ),
        *final(sending) == (Sending {
            step: next_send_step(old(sending).step, old(sending).kind, failure is Some),
            ..*old(sending)
        }),
        ({
            let said = send_said(
                *old(sending),
                match failure {
                    Some(e) => Some(e@),
                    None => None,
                },
            );
            match r {
                Some(m) => said == Some(m@),
                None => said is None,
            }
        }),
{
    match sending.step {
        SendStep::Finished => None,
        SendStep::Persist => match failure {
            None => {
                sending.step = SendStep::Pay;
                None
            },
            Some(e) => {
                sending.step = SendStep::Finished;
                Some(not_persisted(e.as_str()))
            },
        },
        SendStep::PersistFailure => {
            sending.step = SendStep::Finished;
            match failure {
                None => None,
                Some(e) => Some(not_persisted(e.as_str())),
            }
        },
        SendStep::Pay => match failure {
            None => {
                sending.step = SendStep::Finished;
                match (sending.kind, sending.payee) {
                    (SendKind::Direct, Some(k)) => {
                        let mut t = "EVENT: initiated sending ".to_owned();
                        t.append(number(sending.amt_msat).as_str());
                        t.append(" msats to ");
                        t.append(k.to_text().as_str());
                        Some(user_out(t))
                    },
                    _ => Some(print_line("Payment in flight".to_owned())),
                }
            },
            Some(e) => match sending.kind {
                SendKind::Direct => {
                    sending.step = SendStep::PersistFailure;
                    outbound.record_failed(sending.payment_id);
                    let mut t = "failed to send payment: ".to_owned();
                    t.append(e.as_str());
                    Some(user_err(t))
                },
                SendKind::Offer => {
                    sending.step = SendStep::Finished;
                    let mut t = "Failed to pay: ".to_owned();
                    t.append(e.as_str());
                    Some(user_err(t))
                },
                SendKind::Name => {
                    sending.step = SendStep::Finished;
                    Some(user_err("Failed to pay".to_owned()))
                },
            },
        },
    }
}

fn not_persisted(e: &str) -> (r: Message)
    ensures
        r@ == logging::err("failed to persist outbound payments: "@ + e@),
{
    let mut t = "failed to persist outbound payments: ".to_owned();
    t.append(e);
    user_err(t)
}

/// A payment is noted as pending before it is paid; if it is sent directly and cannot be paid, it is
/// noted as failed. No other payment is touched.
pub proof fn law_sending_keeps_the_book(
    before: Map<Bytes32, PaymentInfo>,
    s: Sending,
    secret: Option<Bytes32>,
)
    requires
        s.step == SendStep::Pay,
    ensures
        ({
            let begun = before.insert(s.payment_id, state::begun(secret, s.amt_msat));
            let lost = sent_payments(begun, s, true);
            let paid = sent_payments(begun, s, false);
            &&& begun[s.payment_id].status == state::HTLCStatus::Pending
            &&& paid == begun
            &&& s.kind == SendKind::Direct ==> lost[s.payment_id].status
                == state::HTLCStatus::Failed
            &&& s.kind != SendKind::Direct ==> lost == begun
            &&& forall|k: Bytes32|
                k != s.payment_id ==> #[trigger] lost.contains_key(k) == before.contains_key(k)
                    && lost[k] == before[k]
        }),
{
}

/// Whether `r` is the amount of the offer that `getoffer` makes when it is given this text or none.
pub open spec fn offers(r: Result<Option<u64>, Message>, amount: Option<Seq<char>>) -> bool {
    match amount {
        None => r matches Ok(None),
        Some(a) => match text::number_of(a, u64::MAX as nat) {
            Ok(n) => r matches Ok(Some(m)) && m == n,
            Err(_) => r is Err,
        },
    }
}

/// An offer leaves the amount open exactly if none is given; a number that is given is its amount, as it
/// is written.
pub proof fn law_offers_are_for_the_given_amount(r: Result<Option<u64>, Message>, n: u64)
    ensures
        offers(r, None) ==> r matches Ok(None),
        offers(r, Some(text::decimal(n as nat))) ==> (r matches Ok(Some(m)) && m == n),
        offers(r, Some(Seq::<char>::empty())) ==> r is Err,
{
    text::law_decimal_round_trip(n as nat, u64::MAX as nat);
}

/// The amount that `getoffer` is given: none, a number, or something else.
pub fn offer_amount(amount: &Option<String>) -> (r: Result<Option<u64>, Message>)
    ensures
        match *amount {
            None => r == Ok::<Option<u64>, Message>(None),
            Some(a) => match text::number_of(a@, u64::MAX as nat) {
                Ok(n) => r matches Ok(Some(m)) && m == n,
                Err(_) => r matches Err(m) && m@ == logging::print(
                    "ERROR: getoffer provided payment amount was not a number"@,
                ),
            },
        },
        offers(r, match *amount {
            Some(a) => Some(a@),
            None => None,
        }),
{
    match amount {
        None => Ok(None),
        Some(a) => match parse_number(a.as_str(), u64::MAX) {
            Ok(n) => Ok(Some(n)),
            Err(_) => Err(
                print_line("ERROR: getoffer provided payment amount was not a number".to_owned()),
            ),
        },
    }
}

/// An invoice that was made.
#[derive(Debug)]
pub struct CreatedInvoice {
    /// Its text.
    pub text: String,
    /// The hash that the payment is known by.
    pub payment_hash: Bytes32,
    /// What the payer must show.
    pub payment_secret: Bytes32,
}

/// The payments to this node after an invoice for an amount was made, with this hash and secret, or could
/// not be.
pub open spec fn invoiced(
    m: Map<Bytes32, PaymentInfo>,
    amt_msat: u64,
    made: Option<(Bytes32, Bytes32)>,
) -> Map<Bytes32, PaymentInfo> {
    match made {
        Some((payment_hash, payment_secret)) => m.insert(
            payment_hash,
            state::begun(Some(payment_secret), amt_msat),
        ),
        None => m,
    }
}

/// An invoice that was made is waited for under its hash, as a pending payment of its amount with its
/// secret, and when it is paid the payment succeeds with that amount. Other payments stay as they were,
/// and all do if no invoice was made.
pub proof fn law_invoices_are_waited_for(
    m: Map<Bytes32, PaymentInfo>,
    amt_msat: u64,
    payment_hash: Bytes32,
    payment_secret: Bytes32,
    preimage: Bytes32,
    amount_paid: u64,
    other: Bytes32,
)
    ensures
        invoiced(m, amt_msat, None) == m,
        ({
            let waiting = invoiced(m, amt_msat, Some((payment_hash, payment_secret)));
            let paid = state::claimed(
                waiting,
                payment_hash,
                Some(preimage),
                Some(payment_secret),
                amount_paid,
            );
            &&& waiting.contains_key(payment_hash)
            &&& waiting[payment_hash].status == state::HTLCStatus::Pending
            &&& waiting[payment_hash].secret == Some(payment_secret)
            &&& waiting[payment_hash].amt_msat.0 == Some(amt_msat)
            &&& paid[payment_hash].status == state::HTLCStatus::Succeeded
            &&& paid[payment_hash].amt_msat.0 == Some(amt_msat)
            &&& paid[payment_hash].preimage == Some(preimage)
            &&& other != payment_hash ==> waiting.contains_key(other) == m.contains_key(other)
                && waiting[other] == m[other]
        }),
{
}

/// What follows from an invoice that was made, or could not be: the payment that it asks for is noted
/// as pending, and the result is said.
pub fn get_invoice(
    amt_msat: u64,
    inbound_payments: &mut InboundPaymentInfoStorage,
    outcome: &Result<CreatedInvoice, String>,
) -> (r: Message)
    requires
        old(inbound_payments).payments.wf(),
    ensures
        final(inbound_payments).payments.wf(),
        final(inbound_payments).payments@ == invoiced(
            old(inbound_payments).payments@,
            amt_msat,
            match *outcome {
                Ok(i) => Some((i.payment_hash, i.payment_secret)),
                Err(_) => None,
            },
        ),
        match *outcome {
            Ok(i) => {
                &&& final(inbound_payments).payments@ == old(inbound_payments).payments@.insert(
                    i.payment_hash,
                    state::begun(Some(i.payment_secret), amt_msat),
                )
                &&& r@ == logging::out("SUCCESS: generated invoice: "@ + i.text@)
            },
            Err(e) => {
                &&& final(inbound_payments).payments@ == old(inbound_payments).payments@
                &&& r@ == logging::err("failed to create invoice: "@ + e@)
            },
        },
{
    match outcome {
        Ok(i) => {
            inbound_payments.record_pending(i.payment_hash, i.payment_secret, amt_msat);
            let mut t = "SUCCESS: generated invoice: ".to_owned();
            t.append(i.text.as_str());
            user_out(t)
        },
        Err(e) => {
            let mut t = "failed to create invoice: ".to_owned();
            t.append(e.as_str());
            user_err(t)
        },
    }
}

/// An offer is never paid with another amount than its own or the user's: an amount in bitcoin that the
/// user does not confirm by naming it is asked about, one that the user contradicts is refused, and an
/// offer without an amount in bitcoin is paid with what the user names, and only with that.
pub proof fn law_offers_are_paid_as_agreed(amount: OfferAmountView, user: Option<u64>, paid: u64)
    ensures
        offer_choice_of(amount, user) == PaymentChoiceView::Pay(paid) <==> user == Some(paid) && (
        amount matches OfferAmountView::Bitcoin(a) ==> a == paid),
        offer_choice_of(amount, user) == PaymentChoiceView::Confirm(paid) <==> user is None && amount
            == OfferAmountView::Bitcoin(paid),
        offer_choice_of(amount, user) is Reject <==> (user is None && !(amount is Bitcoin)) || (
        amount matches OfferAmountView::Bitcoin(a) && user matches Some(u) && u != a),
{
}

/// An invoice is paid with its own amount or, if it has none, with the user's; where both are given they
/// must agree, and where none is, it is not paid. The user is not asked.
pub proof fn law_invoices_are_paid_as_agreed(invoice: Option<u64>, user: Option<u64>, paid: u64)
    ensures
        invoice_choice_of(invoice, user) == PaymentChoiceView::Pay(paid) <==> (invoice == Some(paid)
            || user == Some(paid)) && (invoice is Some ==> invoice == Some(paid)) && (user is Some
            ==> user == Some(paid)),
        invoice_choice_of(invoice, user) is Reject <==> invoice is None && user is None || invoice
            is Some && user is Some && invoice != user,
        !(invoice_choice_of(invoice, user) is Confirm),
{
}

/// A name is paid exactly with the amount that the user gives, and only if some node can resolve it.
pub proof fn law_names_are_paid_as_asked(user: Option<u64>, resolvers: nat, paid: u64)
    ensures
        name_choice_of(user, resolvers) == PaymentChoiceView::Pay(paid) <==> user == Some(paid)
            && resolvers > 0,
        name_choice_of(user, resolvers) is Reject <==> user is None || resolvers == 0,
{
}

/// A text that is an offer is paid as one, whatever else it may be; one that is a name is not read as an
/// invoice; and an invoice is paid as it reads.
pub proof fn law_offers_come_first(
    offer: Option<OfferAmountView>,
    name: bool,
    invoice: Result<InvoiceInfo, Seq<char>>,
)
    ensures
        offer matches Some(a) ==> payable_of(offer, name, invoice) == PayableView::Offer(a),
        offer is None && name ==> payable_of(offer, name, invoice) == PayableView::Name,
        offer is None && !name ==> (invoice matches Ok(i) ==> payable_of(offer, name, invoice)
            == PayableView::Invoice(i)),
        payable_of(offer, name, invoice) is Invalid <==> offer is None && !name && invoice is Err,
{
}

/// A payment is written down before it is paid, and not paid if that fails. Whatever comes of paying it,
/// it is not paid again; only if a direct payment cannot be paid is that written down, and then the
/// sending is over.
pub proof fn law_payments_are_written_down_first(step: SendStep, kind: SendKind, failed: bool)
    ensures
        next_send_step(step, kind, failed) == SendStep::Pay <==> step == SendStep::Persist
            && !failed,
        next_send_step(step, kind, failed) == SendStep::PersistFailure <==> step == SendStep::Pay
            && failed && kind == SendKind::Direct,
        next_send_step(step, kind, failed) != SendStep::Persist,
        step == SendStep::Persist && failed ==> next_send_step(step, kind, failed)
            == SendStep::Finished,
        step == SendStep::Pay && !failed ==> next_send_step(step, kind, failed)
            == SendStep::Finished,
        step == SendStep::PersistFailure || step == SendStep::Finished ==> next_send_step(
            step,
            kind,
            failed,
        ) == SendStep::Finished,
{
}

/// Every failure of a step is said as an error, and a payment that is under way is said to be; a payment
/// that was only written down is not spoken of.
pub proof fn law_failed_steps_are_said(s: Sending, e: Seq<char>)
    ensures
        s.step != SendStep::Finished ==> (send_said(s, Some(e)) matches Some(m) && m.level
            == logging::Level::Error && m.shown),
        s.step == SendStep::Pay ==> (send_said(s, None) matches Some(m) && m.shown && m.level
            == logging::Level::Info),
        s.step == SendStep::Persist || s.step == SendStep::PersistFailure ==> send_said(s, None)
            is None,
        s.step == SendStep::Finished ==> send_said(s, None) is None && send_said(s, Some(e)) is None,
{
}

} // verus!
