//! What the node remembers of its payments, and the bytes it is kept in on disk.
use crate::table;
use crate::table::{same_bytes, take32, write32, Bytes32, Table};
use crate::text;
use crate::text::number;
use crate::wire;
use crate::wire::{
    read_be, read_bigsize, read_count, read_frame, read_records, write_be, write_count, write_frame,
    write_record,
};
use vstd::prelude::*;
use vstd::slice::slice_subrange;

verus! {

/// Where a payment stands.
#[derive(Clone, Copy, Debug, PartialEq, Eq, Structural)]
pub enum HTLCStatus {
    /// Not settled yet.
    Pending,
    /// Settled.
    Succeeded,
    /// Given up.
    Failed,
}

/// An amount in millisatoshis, where it is known.
#[derive(Clone, Copy, Debug, PartialEq, Eq)]
pub struct MillisatAmount(pub Option<u64>);

impl MillisatAmount {
    /// The amount as it is shown.
    pub open spec fn shown(self) -> Seq<char> {
        match self.0 {
            Some(amt) => text::decimal(amt as nat),
            None => "unknown"@,
        }
    }

    /// The amount in decimal digits, or `unknown`.
    pub fn to_text(&self) -> (r: String)
        ensures
            r@ == self.shown(),
    {
        match self.0 {
            Some(amt) => number(amt),
            None => "unknown".to_owned(),
        }
    }
}

/// What is known of one payment.
#[derive(Clone, Copy, Debug, PartialEq, Eq)]
pub struct PaymentInfo {
    /// What proves that the payment was made.
    pub preimage: Option<Bytes32>,
    /// What a payer must know besides the hash.
    pub secret: Option<Bytes32>,
    /// Where the payment stands.
    pub status: HTLCStatus,
    /// How much is paid.
    pub amt_msat: MillisatAmount,
}

/// The payments made to this node, by payment hash.
pub struct InboundPaymentInfoStorage {
    /// The payments.
    pub payments: Table<PaymentInfo>,
}

/// The payments made by this node, by payment id.
pub struct OutboundPaymentInfoStorage {
    /// The payments.
    pub payments: Table<PaymentInfo>,
}

/// An optional identifier: `0`, or `33` and the 32 bytes.
pub open spec fn optional32_bytes(o: Option<Bytes32>) -> Seq<u8> {
    match o {
        None => seq![0u8],
        Some(a) => seq![33u8] + a@,
    }
}

/// The optional identifier that the whole of `v` holds.
pub open spec fn optional32_of(v: Seq<u8>) -> Option<Option<Bytes32>> {
    match wire::bigsize_at(v) {
        None => None,
        Some((n, k)) => if n == 0 {
            if v.len() == k {
                Some(None)
            } else {
                None
            }
        } else if n < 33 || v.len() != k + 32 {
            None
        } else {
            Some(Some(table::array32(v.subrange(k as int, k as int + 32))))
        },
    }
}

fn encode_optional32(o: &Option<Bytes32>) -> (r: Vec<u8>)
    ensures
        r@ == optional32_bytes(*o),
{
    let mut out: Vec<u8> = Vec::new();
    match o {
        None => {
            out.push(0);
            assert(out@ == seq![0u8]);
        },
        Some(a) => {
            out.push(33);
            assert(out@ == seq![33u8]);
            write32(&mut out, a);
        },
    }
    out
}

fn decode_optional32(v: &[u8]) -> (r: Option<Option<Bytes32>>)
    ensures
        r == optional32_of(v@),
{
    let total: usize = v.len();
    assert(v@.skip(0) == v@);
    match read_bigsize(v, 0) {
        None => None,
        Some((n, k)) => if n == 0 {
            if total == k {
                Some(None)
            } else {
                None
            }
        } else if n < 33 || total - k != 32 {
            None
        } else {
            Some(Some(take32(v, k)))
        },
    }
}

proof fn lemma_optional32_round_trip(o: Option<Bytes32>)
    ensures
        optional32_of(optional32_bytes(o)) == Some(o),
        optional32_bytes(o).len() <= 33,
{
    let v = optional32_bytes(o);
    if let Some(a) = o {
        assert(v.subrange(1, 33) == a@);
        table::lemma_array32(a);
    }
}

/// An optional amount: `0`, or `9` and eight bytes.
pub open spec fn optional_amount_bytes(o: Option<u64>) -> Seq<u8> {
    match o {
        None => seq![0u8],
        Some(n) => seq![9u8] + wire::be_bytes(n as nat, 8),
    }
}

/// The optional amount that the whole of `v` holds.
pub open spec fn optional_amount_of(v: Seq<u8>) -> Option<Option<u64>> {
    match wire::bigsize_at(v) {
        None => None,
        Some((n, k)) => if n == 0 {
            if v.len() == k {
                Some(None)
            } else {
                None
            }
        } else if n < 9 || v.len() != k + 8 {
            None
        } else {
            Some(Some(wire::be_value(v.subrange(k as int, k as int + 8)) as u64))
        },
    }
}

fn encode_optional_amount(o: &Option<u64>) -> (r: Vec<u8>)
    ensures
        r@ == optional_amount_bytes(*o),
{
    let mut out: Vec<u8> = Vec::new();
    match o {
        None => {
            out.push(0);
            assert(out@ == seq![0u8]);
        },
        Some(n) => {
            out.push(9);
            assert(out@ == seq![9u8]);
            write_be(&mut out, *n, 8);
        },
    }
    out
}

fn decode_optional_amount(v: &[u8]) -> (r: Option<Option<u64>>)
    ensures
        r == optional_amount_of(v@),
{
    let total: usize = v.len();
    assert(v@.skip(0) == v@);
    match read_bigsize(v, 0) {
        None => None,
        Some((n, k)) => if n == 0 {
            if total == k {
                Some(None)
            } else {
                None
            }
        } else if n < 9 || total - k != 8 {
            None
        } else {
            Some(Some(read_be(v, k, 8)))
        },
    }
}

proof fn lemma_optional_amount_round_trip(o: Option<u64>)
    ensures
        optional_amount_of(optional_amount_bytes(o)) == Some(o),
        optional_amount_bytes(o).len() <= 9,
{
    let v = optional_amount_bytes(o);
    if let Some(n) = o {
        wire::lemma_byte_limits();
        wire::lemma_be_round_trip(n as nat, 8);
        assert(v.subrange(1, 9) == wire::be_bytes(n as nat, 8));
    }
}

/// The first record of type `t`.
pub open spec fn field_of(r: Seq<(nat, Seq<u8>)>, t: nat) -> Option<Seq<u8>>
    decreases r.len(),
{
    if r.len() == 0 {
        None
    } else if r[0].0 == t {
        Some(r[0].1)
    } else {
        field_of(r.skip(1), t)
    }
}

/// Whether every record either may be skipped, its type being odd, or is below `limit`.
pub open spec fn understood(r: Seq<(nat, Seq<u8>)>, limit: nat) -> bool {
    forall|i: int| 0 <= i < r.len() ==> (#[trigger] r[i]).0 % 2 == 1 || r[i].0 < limit
}

fn find_field(r: &Vec<(u64, Vec<u8>)>, t: u64) -> (v: Option<&Vec<u8>>)
    ensures
        match v {
            Some(v) => field_of(wire::record_view(r@), t as nat) == Some(v@),
            None => field_of(wire::record_view(r@), t as nat) is None,
        },
{
    let n: usize = r.len();
    let ghost all = wire::record_view(r@);
    let mut i: usize = 0;
    assert(all.skip(0) == all);
    while i < n
        invariant
            n == r@.len(),
            i <= n,
            all == wire::record_view(r@),
            field_of(all, t as nat) == field_of(all.skip(i as int), t as nat),
        decreases n - i,
    {
        if r[i].0 == t {
            assert(all.skip(i as int)[0] == all[i as int]);
            return Some(&r[i].1);
        }
        assert(all.skip(i as int).skip(1) == all.skip(i + 1));
        i = i + 1;
    }
    None
}

fn all_understood(r: &Vec<(u64, Vec<u8>)>, limit: u64) -> (b: bool)
    ensures
        b == understood(wire::record_view(r@), limit as nat),
{
    let n: usize = r.len();
    let ghost all = wire::record_view(r@);
    let mut i: usize = 0;
    while i < n
        invariant
            n == r@.len(),
            i <= n,
            all == wire::record_view(r@),
            forall|j: int| 0 <= j < i ==> (#[trigger] all[j]).0 % 2 == 1 || all[j].0 < limit,
        decreases n - i,
    {
        if r[i].0 % 2 == 0 && r[i].0 >= limit {
            assert(all[i as int].0 == r[i as int].0);
            return false;
        }
        i = i + 1;
    }
    true
}

impl HTLCStatus {
    /// The number that stands for the status.
    pub open spec fn id(self) -> u8 {
        match self {
            HTLCStatus::Pending => 0,
            HTLCStatus::Succeeded => 1,
            HTLCStatus::Failed => 2,
        }
    }

    fn to_id(&self) -> (r: u8)
        ensures
            r == self.id(),
    {
        match self {
            HTLCStatus::Pending => 0,
            HTLCStatus::Succeeded => 1,
            HTLCStatus::Failed => 2,
        }
    }
}

/// The status that a number stands for.
pub open spec fn status_of_id(id: u8) -> Option<HTLCStatus> {
    if id == 0 {
        Some(HTLCStatus::Pending)
    } else if id == 1 {
        Some(HTLCStatus::Succeeded)
    } else if id == 2 {
        Some(HTLCStatus::Failed)
    } else {
        None
    }
}

/// A status: its number and an empty stream of records.
pub open spec fn status_bytes(s: HTLCStatus) -> Seq<u8> {
    seq![s.id(), 0u8]
}

/// The status that the whole of `v` holds.
pub open spec fn status_of(v: Seq<u8>) -> Option<HTLCStatus> {
    if v.len() == 0 {
        None
    } else {
        match wire::framed_at(v.skip(1)) {
            None => None,
            Some((body, n)) => match wire::records_of(body, None) {
                None => None,
                Some(r) => if 1 + n != v.len() || !understood(r, 0) {
                    None
                } else {
                    status_of_id(v[0])
                },
            },
        }
    }
}

fn encode_status(s: &HTLCStatus) -> (r: Vec<u8>)
    ensures
        r@ == status_bytes(*s),
{
    let mut out: Vec<u8> = Vec::new();
    out.push(s.to_id());
    out.push(0);
    assert(out@ == status_bytes(*s));
    out
}

fn decode_status(v: &[u8]) -> (r: Option<HTLCStatus>)
    ensures
        r == status_of(v@),
{
    let total: usize = v.len();
    if total == 0 {
        return None;
    }
    let (body, n): (&[u8], usize) = match read_frame(v, 1) {
        Some(p) => p,
        None => {
            return None;
        },
    };
    let r = match read_records(body) {
        Some(r) => r,
        None => {
            return None;
        },
    };
    if total - n != 1 || !all_understood(&r, 0) {
        return None;
    }
    if v[0] == 0 {
        Some(HTLCStatus::Pending)
    } else if v[0] == 1 {
        Some(HTLCStatus::Succeeded)
    } else if v[0] == 2 {
        Some(HTLCStatus::Failed)
    } else {
        None
    }
}

proof fn lemma_status_round_trip(s: HTLCStatus)
    ensures
        status_of(status_bytes(s)) == Some(s),
{
    let v = status_bytes(s);
    assert(v.skip(1).subrange(1, 1) == Seq::<u8>::empty());
    assert(wire::framed_at(v.skip(1)) == Some((Seq::<u8>::empty(), 1nat)));
    assert(wire::records_of(Seq::<u8>::empty(), None) == Some(Seq::<(nat, Seq<u8>)>::empty()));
}

/// The records of a payment.
pub open spec fn info_body(p: PaymentInfo) -> Seq<u8> {
    wire::record_bytes(0, optional32_bytes(p.preimage)) + wire::record_bytes(2, optional32_bytes(p.secret))
        + wire::record_bytes(4, status_bytes(p.status)) + wire::record_bytes(
        6,
        optional_amount_bytes(p.amt_msat.0),
    )
}

/// The bytes of a payment.
#[verifier::opaque]
pub open spec fn info_bytes(p: PaymentInfo) -> Seq<u8> {
    wire::frame_bytes(info_body(p))
}

/// The payment that the records `r` hold.
pub open spec fn info_of(r: Seq<(nat, Seq<u8>)>) -> Option<PaymentInfo> {
    if !understood(r, 8) {
        None
    } else {
        match (field_of(r, 0), field_of(r, 2), field_of(r, 4), field_of(r, 6)) {
            (Some(a), Some(b), Some(c), Some(d)) => match (
                optional32_of(a),
                optional32_of(b),
                status_of(c),
                optional_amount_of(d),
            ) {
                (Some(preimage), Some(secret), Some(status), Some(amt)) => Some(
                    PaymentInfo { preimage, secret, status, amt_msat: MillisatAmount(amt) },
                ),
                _ => None,
            },
            _ => None,
        }
    }
}

/// The payment that `s` starts with, and how many bytes it takes.
#[verifier::opaque]
pub open spec fn info_at(s: Seq<u8>) -> Option<(PaymentInfo, nat)> {
    match wire::framed_at(s) {
        None => None,
        Some((body, n)) => match wire::records_of(body, None) {
            None => None,
            Some(r) => match info_of(r) {
                None => None,
                Some(p) => Some((p, n)),
            },
        },
    }
}

fn write_info(out: &mut Vec<u8>, p: &PaymentInfo)
    ensures
        final(out)@ == old(out)@ + info_bytes(*p),
{
    let mut body: Vec<u8> = Vec::new();
    write_record(&mut body, 0, &encode_optional32(&p.preimage));
    write_record(&mut body, 2, &encode_optional32(&p.secret));
    write_record(&mut body, 4, &encode_status(&p.status));
    write_record(&mut body, 6, &encode_optional_amount(&p.amt_msat.0));
    assert(body@ == info_body(*p));
    reveal(info_bytes);
    write_frame(out, &body);
}

fn decode_info(r: &Vec<(u64, Vec<u8>)>) -> (p: Option<PaymentInfo>)
    ensures
        p == info_of(wire::record_view(r@)),
{
    if !all_understood(r, 8) {
        return None;
    }
    match (find_field(r, 0), find_field(r, 2), find_field(r, 4), find_field(r, 6)) {
        (Some(a), Some(b), Some(c), Some(d)) => {
            let preimage = decode_optional32(a.as_slice());
            let secret = decode_optional32(b.as_slice());
            let status = decode_status(c.as_slice());
            let amt = decode_optional_amount(d.as_slice());
            match (preimage, secret, status, amt) {
                (Some(preimage), Some(secret), Some(status), Some(amt)) => Some(
                    PaymentInfo { preimage, secret, status, amt_msat: MillisatAmount(amt) },
                ),
                _ => None,
            }
        },
        _ => None,
    }
}

fn read_info(s: &[u8], at: usize) -> (r: Option<(PaymentInfo, usize)>)
    requires
        at <= s@.len(),
    ensures
        match r {
            Some((p, n)) => info_at(s@.skip(at as int)) == Some((p, n as nat)) && n > 0 && at + n
                <= s@.len(),
            None => info_at(s@.skip(at as int)) is None,
        },
{
    reveal(info_at);
    match read_frame(s, at) {
        None => None,
        Some((body, n)) => match read_records(body) {
            None => None,
            Some(r) => match decode_info(&r) {
                None => None,
                Some(p) => Some((p, n)),
            },
        },
    }
}

proof fn lemma_info_records(p: PaymentInfo)
    ensures
        wire::records_of(info_body(p), None) == Some(
            seq![
                (0nat, optional32_bytes(p.preimage)),
                (2nat, optional32_bytes(p.secret)),
                (4nat, status_bytes(p.status)),
                (6nat, optional_amount_bytes(p.amt_msat.0)),
            ],
        ),
        info_body(p).len() < 200,
{
    let a = optional32_bytes(p.preimage);
    let b = optional32_bytes(p.secret);
    let c = status_bytes(p.status);
    let d = optional_amount_bytes(p.amt_msat.0);
    lemma_optional32_round_trip(p.preimage);
    lemma_optional32_round_trip(p.secret);
    lemma_optional_amount_round_trip(p.amt_msat.0);
    let none = Seq::<u8>::empty();
    let s3 = wire::record_bytes(6, d) + none;
    wire::law_record_round_trip(6, d, Some(4), none);
    let s2 = wire::record_bytes(4, c) + s3;
    wire::law_record_round_trip(4, c, Some(2), s3);
    let s1 = wire::record_bytes(2, b) + s2;
    wire::law_record_round_trip(2, b, Some(0), s2);
    wire::law_record_round_trip(0, a, None, s1);
    assert(info_body(p) == wire::record_bytes(0, a) + s1);
    assert(seq![(0nat, a)] + (seq![(2nat, b)] + (seq![(4nat, c)] + (seq![(6nat, d)] + Seq::<
        (nat, Seq<u8>),
    >::empty()))) == seq![(0nat, a), (2nat, b), (4nat, c), (6nat, d)]);
}

proof fn lemma_info_fields(p: PaymentInfo)
    ensures
        info_of(
            seq![
                (0nat, optional32_bytes(p.preimage)),
                (2nat, optional32_bytes(p.secret)),
                (4nat, status_bytes(p.status)),
                (6nat, optional_amount_bytes(p.amt_msat.0)),
            ],
        ) == Some(p),
{
    let a = optional32_bytes(p.preimage);
    let b = optional32_bytes(p.secret);
    let c = status_bytes(p.status);
    let d = optional_amount_bytes(p.amt_msat.0);
    let r = seq![(0nat, a), (2nat, b), (4nat, c), (6nat, d)];
    assert(field_of(r, 0) == Some(a) && field_of(r, 2) == Some(b) && field_of(r, 4) == Some(c)
        && field_of(r, 6) == Some(d)) by {
        reveal_with_fuel(field_of, 5);
        assert(r.skip(1) == seq![(2nat, b), (4nat, c), (6nat, d)]);
        assert(r.skip(1).skip(1) == seq![(4nat, c), (6nat, d)]);
        assert(r.skip(1).skip(1).skip(1) == seq![(6nat, d)]);
    }
    assert(optional32_of(a) == Some(p.preimage)) by {
        lemma_optional32_round_trip(p.preimage);
    }
    assert(optional32_of(b) == Some(p.secret)) by {
        lemma_optional32_round_trip(p.secret);
    }
    assert(status_of(c) == Some(p.status)) by {
        lemma_status_round_trip(p.status);
    }
    assert(optional_amount_of(d) == Some(p.amt_msat.0)) by {
        lemma_optional_amount_round_trip(p.amt_msat.0);
    }
    assert(understood(r, 8));
}

/// A payment reads back as itself, whatever follows it.
pub proof fn law_info_round_trip(p: PaymentInfo, rest: Seq<u8>)
    ensures
        info_at(info_bytes(p) + rest) == Some((p, info_bytes(p).len())),
{
    reveal(info_bytes);
    reveal(info_at);
    lemma_info_records(p);
    wire::law_frame_round_trip(info_body(p), rest);
    lemma_info_fields(p);
}

/// The bytes of a list of payments.
pub open spec fn entries_bytes(es: Seq<(Bytes32, PaymentInfo)>) -> Seq<u8>
    decreases es.len(),
{
    if es.len() == 0 {
        Seq::empty()
    } else {
        entries_bytes(es.drop_last()) + es.last().0@ + info_bytes(es.last().1)
    }
}

/// The `n` payments that `s` starts with, and how many bytes they take.
pub open spec fn entries_at(s: Seq<u8>, n: nat) -> Option<(Seq<(Bytes32, PaymentInfo)>, nat)>
    decreases n,
{
    if n == 0 {
        Some((Seq::empty(), 0))
    } else {
        match entries_at(s, (n - 1) as nat) {
            None => None,
            Some((es, k)) => if s.len() < k + 32 {
                None
            } else {
                match info_at(s.skip(k as int + 32)) {
                    None => None,
                    Some((p, j)) => Some(
                        (
                            es.push((table::array32(s.subrange(k as int, k as int + 32)), p)),
                            (k + 32 + j) as nat,
                        ),
                    ),
                }
            },
        }
    }
}

/// The bytes of all payments: their number, and each.
pub open spec fn table_bytes(es: Seq<(Bytes32, PaymentInfo)>) -> Seq<u8> {
    wire::count_bytes(es.len()) + entries_bytes(es)
}

/// The payments that the whole of `v` holds. No key may occur twice.
pub open spec fn table_of(v: Seq<u8>) -> Option<Seq<(Bytes32, PaymentInfo)>> {
    match wire::count_at(v) {
        None => None,
        Some((n, k)) => match entries_at(v.skip(k as int), n) {
            None => None,
            Some((es, j)) => if k + j != v.len() || !table::distinct_keys(es) {
                None
            } else {
                Some(es)
            },
        },
    }
}

/// The file that holds the payments.
pub open spec fn storage_bytes(es: Seq<(Bytes32, PaymentInfo)>) -> Seq<u8> {
    wire::frame_bytes(wire::record_bytes(0, table_bytes(es)))
}

/// The payments that a file holds. Bytes behind the last one are ignored.
pub open spec fn storage_of(s: Seq<u8>) -> Option<Seq<(Bytes32, PaymentInfo)>> {
    match wire::framed_at(s) {
        None => None,
        Some((body, _)) => match wire::records_of(body, None) {
            None => None,
            Some(r) => if !understood(r, 1) {
                None
            } else {
                match field_of(r, 0) {
                    None => None,
                    Some(v) => table_of(v),
                }
            },
        },
    }
}

proof fn lemma_entries_prefix(es: Seq<(Bytes32, PaymentInfo)>, rest: Seq<u8>)
    ensures
        entries_at(entries_bytes(es) + rest, es.len()) == Some((es, entries_bytes(es).len())),
    decreases es.len(),
{
    if es.len() > 0 {
        let before = es.drop_last();
        let key = es.last().0;
        let p = es.last().1;
        let k = entries_bytes(before).len() as int;
        let s = entries_bytes(es) + rest;
        lemma_entries_prefix(before, key@ + info_bytes(p) + rest);
        assert(s == entries_bytes(before) + (key@ + info_bytes(p) + rest));
        assert(s.subrange(k, k + 32) == key@);
        table::lemma_array32(key);
        law_info_round_trip(p, rest);
        assert(s.skip(k + 32) == info_bytes(p) + rest);
        assert(before.push((key, p)) == es);
    } else {
        assert(es == Seq::<(Bytes32, PaymentInfo)>::empty());
    }
}

/// What is written to a file of payments is what is read from it.
pub proof fn law_storage_round_trip(es: Seq<(Bytes32, PaymentInfo)>)
    requires
        table::distinct_keys(es),
        storage_bytes(es).len() <= u64::MAX,
    ensures
        storage_of(storage_bytes(es)) == Some(es),
{
    let v = table_bytes(es);
    let none = Seq::<u8>::empty();
    lemma_entries_count(es);
    wire::law_count_round_trip(es.len(), entries_bytes(es));
    lemma_entries_prefix(es, none);
    assert(entries_bytes(es) + none == entries_bytes(es));
    assert(v.skip(wire::count_bytes(es.len()).len() as int) == entries_bytes(es));
    assert(table_of(v) == Some(es));
    wire::law_record_round_trip(0, v, None, none);
    assert(wire::record_bytes(0, v) + none == wire::record_bytes(0, v));
    let r = seq![(0nat, v)] + Seq::<(nat, Seq<u8>)>::empty();
    assert(r == seq![(0nat, v)]);
    wire::law_frame_round_trip(wire::record_bytes(0, v), none);
    assert(storage_bytes(es) + none == storage_bytes(es));
    assert(understood(r, 1));
    assert(field_of(r, 0) == Some(v));
}

proof fn lemma_entries_count(es: Seq<(Bytes32, PaymentInfo)>)
    ensures
        es.len() <= entries_bytes(es).len(),
    decreases es.len(),
{
    if es.len() > 0 {
        lemma_entries_count(es.drop_last());
    }
}

fn encode_table(t: &Table<PaymentInfo>) -> (r: Vec<u8>)
    requires
        t.wf(),
    ensures
        r@ == storage_bytes(t.listed()),
{
    let n: usize = t.len();
    let mut v: Vec<u8> = Vec::new();
    write_count(&mut v, n as u64);
    let ghost head = v@;
    let mut i: usize = 0;
    assert(head + Seq::<u8>::empty() == head);
    assert(t.listed().take(0) == Seq::<(Bytes32, PaymentInfo)>::empty());
    while i < n
        invariant
            n == t.listed().len(),
            i <= n,
            v@ == head + entries_bytes(t.listed().take(i as int)),
        decreases n - i,
    {
        let e = t.entry(i);
        write32(&mut v, &e.0);
        write_info(&mut v, e.1);
        proof {
            let next = t.listed().take(i + 1);
            assert(next.drop_last() == t.listed().take(i as int));
            assert(head + entries_bytes(next) == head + entries_bytes(t.listed().take(i as int))
                + e.0@ + info_bytes(*e.1));
        }
        i = i + 1;
    }
    assert(t.listed().take(n as int) == t.listed());
    assert(Seq::<u8>::empty() + head == head);
    let mut body: Vec<u8> = Vec::new();
    write_record(&mut body, 0, &v);
    let mut out: Vec<u8> = Vec::new();
    write_frame(&mut out, &body);
    assert(body@ == wire::record_bytes(0, v@));
    out
}

proof fn lemma_more_entries(s: Seq<u8>, m: nat, n: nat)
    requires
        m <= n,
        entries_at(s, m) is None,
    ensures
        entries_at(s, n) is None,
    decreases n,
{
    if m < n {
        lemma_more_entries(s, m, (n - 1) as nat);
    }
}

proof fn lemma_entries_stay(s: Seq<u8>, m: nat, n: nat)
    requires
        m <= n,
        entries_at(s, n) is Some,
    ensures
        entries_at(s, m) is Some,
        (entries_at(s, m)->0).0.len() == m,
        (entries_at(s, n)->0).0.len() == n,
        (entries_at(s, n)->0).0.take(m as int) == (entries_at(s, m)->0).0,
    decreases n,
{
    if m < n {
        lemma_entries_stay(s, m, (n - 1) as nat);
        assert((entries_at(s, n)->0).0.take(m as int) == (entries_at(s, (n - 1) as nat)->0).0.take(
            m as int,
        ));
    } else if n > 0 {
        lemma_entries_stay(s, (n - 1) as nat, (n - 1) as nat);
        assert((entries_at(s, n)->0).0.take(m as int) == (entries_at(s, n)->0).0);
    }
}

fn decode_entries(s: &[u8], n: u64) -> (r: Option<(Table<PaymentInfo>, usize)>)
    ensures
        match r {
            Some((t, k)) => t.wf() && entries_at(s@, n as nat) == Some((t.listed(), k as nat))
                && table::distinct_keys(t.listed()) && k <= s@.len(),
            None => entries_at(s@, n as nat) is None || !table::distinct_keys(
                (entries_at(s@, n as nat)->0).0,
            ),
        },
{
    let total: usize = s.len();
    let mut t: Table<PaymentInfo> = Table::new();
    let mut at: usize = 0;
    let mut i: u64 = 0;
    while i < n
        invariant
            total == s@.len(),
            i <= n,
            at <= total,
            t.wf(),
            entries_at(s@, i as nat) == Some((t.listed(), at as nat)),
        decreases n - i,
    {
        proof {
            if entries_at(s@, i as nat + 1) is None {
                lemma_more_entries(s@, i as nat + 1, n as nat);
            }
        }
        if total - at < 32 {
            return None;
        }
        let key = take32(s, at);
        let (p, k): (PaymentInfo, usize) = match read_info(s, at + 32) {
            Some(p) => p,
            None => {
                return None;
            },
        };
        proof {
            t.lemma_listed();
        }
        if t.get(&key).is_some() {
            proof {
                let before = t.listed();
                let j = table::lemma_key_has_entry(before, key);
                if entries_at(s@, n as nat) is Some {
                    lemma_entries_stay(s@, i as nat + 1, n as nat);
                    let all = (entries_at(s@, n as nat)->0).0;
                    let now = before.push((key, p));
                    assert(all.take(i + 1) == now);
                    lemma_entries_stay(s@, i as nat, i as nat);
                    assert(all[j] == now[j]);
                    assert(all[i as int] == now[i as int]);
                }
            }
            return None;
        }
        t.insert(key, p);
        at = at + 32 + k;
        i = i + 1;
    }
    proof {
        t.lemma_listed();
    }
    Some((t, at))
}

fn decode_table(s: &[u8]) -> (r: Option<Table<PaymentInfo>>)
    ensures
        match r {
            Some(t) => t.wf() && storage_of(s@) == Some(t.listed()),
            None => storage_of(s@) is None,
        },
{
    assert(s@.skip(0) == s@);
    let (body, _) = match read_frame(s, 0) {
        Some(p) => p,
        None => {
            return None;
        },
    };
    let r = match read_records(body) {
        Some(r) => r,
        None => {
            return None;
        },
    };
    if !all_understood(&r, 1) {
        return None;
    }
    let v = match find_field(&r, 0) {
        Some(v) => v.as_slice(),
        None => {
            return None;
        },
    };
    let (n, k): (u64, usize) = match read_count(v) {
        Some(p) => p,
        None => {
            return None;
        },
    };
    let rest = slice_subrange(v, k, v.len());
    assert(rest@ == v@.skip(k as int));
    match decode_entries(rest, n) {
        None => None,
        Some((t, j)) => if j != rest.len() {
            None
        } else {
            Some(t)
        },
    }
}

/// A payment that has begun.
pub open spec fn begun(secret: Option<Bytes32>, amt_msat: u64) -> PaymentInfo {
    PaymentInfo {
        preimage: None,
        secret,
        status: HTLCStatus::Pending,
        amt_msat: MillisatAmount(Some(amt_msat)),
    }
}

fn begin(t: &mut Table<PaymentInfo>, k: Bytes32, secret: Option<Bytes32>, amt_msat: u64)
    requires
        old(t).wf(),
    ensures
        final(t).wf(),
        final(t)@ == old(t)@.insert(k, begun(secret, amt_msat)),
{
    t.insert(
        k,
        PaymentInfo {
            preimage: None,
            secret,
            status: HTLCStatus::Pending,
            amt_msat: MillisatAmount(Some(amt_msat)),
        },
    );
}

/// The payments to this node after the payment `k` was claimed: it has succeeded, with its preimage
/// and secret. One that was not known has the amount claimed.
pub open spec fn claimed(
    m: Map<Bytes32, PaymentInfo>,
    k: Bytes32,
    preimage: Option<Bytes32>,
    secret: Option<Bytes32>,
    amount_msat: u64,
) -> Map<Bytes32, PaymentInfo> {
    m.insert(
        k,
        PaymentInfo {
            preimage,
            secret,
            status: HTLCStatus::Succeeded,
            amt_msat: if m.contains_key(k) {
                m[k].amt_msat
            } else {
                MillisatAmount(Some(amount_msat))
            },
        },
    )
}

/// The payments by this node after the payment `k` was sent: if it is known, it has succeeded, with
/// its preimage.
pub open spec fn sent(m: Map<Bytes32, PaymentInfo>, k: Bytes32, preimage: Bytes32) -> Map<
    Bytes32,
    PaymentInfo,
> {
    if m.contains_key(k) {
        m.insert(
            k,
            PaymentInfo { preimage: Some(preimage), status: HTLCStatus::Succeeded, ..m[k] },
        )
    } else {
        m
    }
}

/// The payments by this node after the payment `k` failed.
pub open spec fn failed(m: Map<Bytes32, PaymentInfo>, k: Bytes32) -> Map<Bytes32, PaymentInfo> {
    if m.contains_key(k) {
        m.insert(k, PaymentInfo { status: HTLCStatus::Failed, ..m[k] })
    } else {
        m
    }
}

/// A payment after a restart: given up if it was pending and nothing is known of it any more.
pub open spec fn restarted(p: PaymentInfo, known: bool) -> PaymentInfo {
    if p.status == HTLCStatus::Pending && !known {
        PaymentInfo { status: HTLCStatus::Failed, ..p }
    } else {
        p
    }
}

fn contains_id(ids: &Vec<Bytes32>, k: &Bytes32) -> (r: bool)
    ensures
        r == ids@.contains(*k),
{
    let n: usize = ids.len();
    let mut i: usize = 0;
    while i < n
        invariant
            n == ids@.len(),
            i <= n,
            forall|j: int| 0 <= j < i ==> #[trigger] ids@[j] != *k,
        decreases n - i,
    {
        if same_bytes(&ids[i], k) {
            return true;
        }
        i = i + 1;
    }
    false
}

impl InboundPaymentInfoStorage {
    /// Notes a payment that may come in.
    pub fn record_pending(&mut self, payment_hash: Bytes32, secret: Bytes32, amt_msat: u64)
        requires
            old(self).payments.wf(),
        ensures
            final(self).payments.wf(),
            final(self).payments@ == old(self).payments@.insert(
                payment_hash,
                begun(Some(secret), amt_msat),
            ),
    {
        begin(&mut self.payments, payment_hash, Some(secret), amt_msat);
    }

    /// Notes that a payment was claimed.
    pub fn record_claimed(
        &mut self,
        payment_hash: Bytes32,
        preimage: Option<Bytes32>,
        secret: Option<Bytes32>,
        amount_msat: u64,
    )
        requires
            old(self).payments.wf(),
        ensures
            final(self).payments.wf(),
            final(self).payments@ == claimed(
                old(self).payments@,
                payment_hash,
                preimage,
                secret,
                amount_msat,
            ),
    {
        let amt_msat = match self.payments.get(&payment_hash) {
            Some(p) => p.amt_msat,
            None => MillisatAmount(Some(amount_msat)),
        };
        self.payments.insert(
            payment_hash,
            PaymentInfo { preimage, secret, status: HTLCStatus::Succeeded, amt_msat },
        );
    }

    /// No payments.
    pub fn new() -> (r: Self)
        ensures
            r.payments.wf(),
            r.payments@ == Map::<Bytes32, PaymentInfo>::empty(),
            r.payments.listed().len() == 0,
    {
        InboundPaymentInfoStorage { payments: Table::new() }
    }

    /// The bytes that keep the payments.
    pub fn encode(&self) -> (r: Vec<u8>)
        requires
            self.payments.wf(),
        ensures
            r@ == storage_bytes(self.payments.listed()),
    {
        encode_table(&self.payments)
    }

    /// The payments kept in `s`, if it is well-formed.
    pub fn decode(s: &[u8]) -> (r: Option<Self>)
        ensures
            match r {
                Some(t) => t.payments.wf() && storage_of(s@) == Some(t.payments.listed()),
                None => storage_of(s@) is None,
            },
    {
        match decode_table(s) {
            Some(payments) => Some(InboundPaymentInfoStorage { payments }),
            None => None,
        }
    }
}

impl OutboundPaymentInfoStorage {
    /// Notes a payment that is about to be sent.
    pub fn record_pending(&mut self, payment_id: Bytes32, secret: Option<Bytes32>, amt_msat: u64)
        requires
            old(self).payments.wf(),
        ensures
            final(self).payments.wf(),
            final(self).payments@ == old(self).payments@.insert(payment_id, begun(secret, amt_msat)),
    {
        begin(&mut self.payments, payment_id, secret, amt_msat);
    }

    /// Notes that a payment was sent. The result is its amount, if it is known.
    pub fn record_sent(&mut self, payment_id: Bytes32, preimage: Bytes32) -> (r: Option<
        MillisatAmount,
    >)
        requires
            old(self).payments.wf(),
        ensures
            final(self).payments.wf(),
            final(self).payments@ == sent(old(self).payments@, payment_id, preimage),
            r == (if old(self).payments@.contains_key(payment_id) {
                Some(old(self).payments@[payment_id].amt_msat)
            } else {
                None
            }),
    {
        match self.payments.get(&payment_id) {
            Some(p) => {
                let p: PaymentInfo = *p;
                self.payments.insert(
                    payment_id,
                    PaymentInfo {
                        preimage: Some(preimage),
                        secret: p.secret,
                        status: HTLCStatus::Succeeded,
                        amt_msat: p.amt_msat,
                    },
                );
                Some(p.amt_msat)
            },
            None => None,
        }
    }

    /// Notes that a payment failed.
    pub fn record_failed(&mut self, payment_id: Bytes32)
        requires
            old(self).payments.wf(),
        ensures
            final(self).payments.wf(),
            final(self).payments@ == failed(old(self).payments@, payment_id),
    {
        match self.payments.get(&payment_id) {
            Some(p) => {
                let p: PaymentInfo = *p;
                self.payments.insert(
                    payment_id,
                    PaymentInfo {
                        preimage: p.preimage,
                        secret: p.secret,
                        status: HTLCStatus::Failed,
                        amt_msat: p.amt_msat,
                    },
                );
            },
            None => {},
        }
    }

    /// Gives up, after a restart, the pending payments that are not among the `recent` ones.
    pub fn fail_forgotten(&mut self, recent: &Vec<Bytes32>)
        requires
            old(self).payments.wf(),
        ensures
            final(self).payments.wf(),
            final(self).payments@.dom() == old(self).payments@.dom(),
            forall|k: Bytes32| #[trigger]
                old(self).payments@.contains_key(k) ==> final(self).payments@[k] == restarted(
                    old(self).payments@[k],
                    recent@.contains(k),
                ),
    {
        let ghost before = self.payments@;
        let n: usize = self.payments.len();
        let ghost listed = self.payments.listed();
        let mut i: usize = 0;
        proof {
            self.payments.lemma_listed();
        }
        while i < n
            invariant
                n == listed.len(),
                i <= n,
                self.payments.wf(),
                self.payments.listed().len() == n,
                before == table::map_of(listed),
                table::distinct_keys(listed),
                self.payments@.dom() == before.dom(),
                forall|j: int| 0 <= j < n ==> (#[trigger] self.payments.listed()[j]).0 == listed[j].0,
                forall|j: int|
                    i <= j < n ==> (#[trigger] self.payments.listed()[j]) == listed[j],
                forall|j: int|
                    0 <= j < i ==> (#[trigger] self.payments.listed()[j]).1 == restarted(
                        listed[j].1,
                        recent@.contains(listed[j].0),
                    ),
            decreases n - i,
        {
            let e = self.payments.entry(i);
            let k: Bytes32 = e.0;
            let p: PaymentInfo = *e.1;
            let ghost now = self.payments.listed();
            proof {
                self.payments.lemma_listed();
                table::lemma_entry_in_map(now, i as int);
            }
            if p.status == HTLCStatus::Pending && !contains_id(recent, &k) {
                self.payments.set_at(
                    i,
                    PaymentInfo {
                        preimage: p.preimage,
                        secret: p.secret,
                        status: HTLCStatus::Failed,
                        amt_msat: p.amt_msat,
                    },
                );
                proof {
                    assert(self.payments@.dom() =~= before.dom());
                    assert forall|j: int| 0 <= j < n implies (
                    #[trigger] self.payments.listed()[j]).0 == listed[j].0 by {
                        assert(now[j].0 == listed[j].0);
                    }
                    assert forall|j: int| i < j < n implies (#[trigger] self.payments.listed()[j])
                        == listed[j] by {
                        assert(now[j] == listed[j]);
                    }
                    assert forall|j: int| 0 <= j < i implies (
                    #[trigger] self.payments.listed()[j]).1 == restarted(
                        listed[j].1,
                        recent@.contains(listed[j].0),
                    ) by {
                        assert(now[j].0 == listed[j].0);
                    }
                }
            }
            i = i + 1;
        }
        proof {
            self.payments.lemma_listed();
            assert forall|k: Bytes32| #[trigger] before.contains_key(k) implies self.payments@[k]
                == restarted(before[k], recent@.contains(k)) by {
                let j = table::lemma_key_has_entry(listed, k);
                table::lemma_entry_in_map(listed, j);
                table::lemma_entry_in_map(self.payments.listed(), j);
                assert(self.payments.listed()[j].0 == listed[j].0);
            }
        }
    }

    /// No payments.
    pub fn new() -> (r: Self)
        ensures
            r.payments.wf(),
            r.payments@ == Map::<Bytes32, PaymentInfo>::empty(),
            r.payments.listed().len() == 0,
    {
        OutboundPaymentInfoStorage { payments: Table::new() }
    }

    /// The bytes that keep the payments.
    pub fn encode(&self) -> (r: Vec<u8>)
        requires
            self.payments.wf(),
        ensures
            r@ == storage_bytes(self.payments.listed()),
    {
        encode_table(&self.payments)
    }

    /// The payments kept in `s`, if it is well-formed.
    pub fn decode(s: &[u8]) -> (r: Option<Self>)
        ensures
            match r {
                Some(t) => t.payments.wf() && storage_of(s@) == Some(t.payments.listed()),
                None => storage_of(s@) is None,
            },
    {
        match decode_table(s) {
            Some(payments) => Some(OutboundPaymentInfoStorage { payments }),
            None => None,
        }
    }
}

/// A payment begins as pending, with its secret and amount and without a preimage. When it is claimed it
/// has succeeded, under the amount that it began with; no other payment changes.
pub proof fn law_begun_payments_are_claimed_as_begun(
    m: Map<Bytes32, PaymentInfo>,
    k: Bytes32,
    other: Bytes32,
    secret: Option<Bytes32>,
    amt_msat: u64,
    preimage: Option<Bytes32>,
    claimed_secret: Option<Bytes32>,
    amount_msat: u64,
)
    ensures
        ({
            let p = begun(secret, amt_msat);
            let after = claimed(m.insert(k, p), k, preimage, claimed_secret, amount_msat);
            &&& p.status == HTLCStatus::Pending
            &&& p.preimage is None
            &&& p.secret == secret
            &&& p.amt_msat.0 == Some(amt_msat)
            &&& after[k].status == HTLCStatus::Succeeded
            &&& after[k].amt_msat.0 == Some(amt_msat)
            &&& after[k].preimage == preimage
            &&& after[k].secret == claimed_secret
            &&& other != k ==> after.contains_key(other) == m.contains_key(other) && after[other]
                == m[other]
        }),
{
}

/// A payment that was sent has succeeded with its preimage, one that failed has failed; both keep the
/// secret and the amount, and a payment that is not on the books is not put there.
pub proof fn law_settling_keeps_secret_and_amount(
    m: Map<Bytes32, PaymentInfo>,
    k: Bytes32,
    preimage: Bytes32,
)
    ensures
        sent(m, k, preimage).dom() == m.dom(),
        failed(m, k).dom() == m.dom(),
        m.contains_key(k) ==> {
            let s = sent(m, k, preimage)[k];
            let f = failed(m, k)[k];
            &&& s.status == HTLCStatus::Succeeded && f.status == HTLCStatus::Failed
            &&& s.preimage == Some(preimage) && f.preimage == m[k].preimage
            &&& s.secret == m[k].secret && f.secret == m[k].secret
            &&& s.amt_msat == m[k].amt_msat && f.amt_msat == m[k].amt_msat
        },
        !m.contains_key(k) ==> sent(m, k, preimage) == m && failed(m, k) == m,
{
    if m.contains_key(k) {
        assert(sent(m, k, preimage).dom() =~= m.dom());
        assert(failed(m, k).dom() =~= m.dom());
    }
}

/// After a restart exactly the pending payments that nothing is known of any more have failed; a payment
/// that was settled or is still known stays as it was.
pub proof fn law_restart_fails_forgotten_payments(p: PaymentInfo, known: bool)
    ensures
        known ==> restarted(p, known) == p,
        p.status != HTLCStatus::Pending ==> restarted(p, known) == p,
        p.status == HTLCStatus::Pending && !known ==> restarted(p, known).status
            == HTLCStatus::Failed,
        restarted(p, known).preimage == p.preimage && restarted(p, known).secret == p.secret
            && restarted(p, known).amt_msat == p.amt_msat,
        !known ==> restarted(p, known).status != HTLCStatus::Pending,
{
}

/// A payment is kept in four records, of the types 0, 2, 4 and 6: the preimage, the secret, the status
/// and the amount. The status is 0 while pending, 1 after success and 2 after failure; what is not known
/// is a single 0.
pub proof fn law_payment_records(p: PaymentInfo)
    ensures
        ({
            let r = wire::records_of(info_body(p), None);
            &&& r is Some
            &&& (r->0).len() == 4
            &&& (r->0)[0].0 == 0 && (r->0)[1].0 == 2 && (r->0)[2].0 == 4 && (r->0)[3].0 == 6
            &&& p.preimage is None ==> (r->0)[0].1 == seq![0u8]
            &&& p.preimage matches Some(h) ==> (r->0)[0].1 == seq![33u8] + h@
            &&& p.secret is None ==> (r->0)[1].1 == seq![0u8]
            &&& p.secret matches Some(h) ==> (r->0)[1].1 == seq![33u8] + h@
            &&& p.status == HTLCStatus::Pending ==> (r->0)[2].1 == seq![0u8, 0u8]
            &&& p.status == HTLCStatus::Succeeded ==> (r->0)[2].1 == seq![1u8, 0u8]
            &&& p.status == HTLCStatus::Failed ==> (r->0)[2].1 == seq![2u8, 0u8]
            &&& p.amt_msat.0 is None ==> (r->0)[3].1 == seq![0u8]
            &&& p.amt_msat.0 matches Some(n) ==> (r->0)[3].1 == seq![9u8] + wire::be_bytes(
                n as nat,
                8,
            )
        }),
{
    lemma_info_records(p);
}

/// A payment with a record that has to be understood and is not, or without one of its four, is not
/// read.
pub proof fn law_incomplete_payments_are_refused(r: Seq<(nat, Seq<u8>)>, i: int)
    ensures
        info_of(r) is Some ==> field_of(r, 0) is Some && field_of(r, 2) is Some && field_of(r, 4)
            is Some && field_of(r, 6) is Some,
        0 <= i < r.len() && r[i].0 % 2 == 0 && r[i].0 >= 8 ==> info_of(r) is None,
{
}

} // verus!
