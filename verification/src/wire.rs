//! The building blocks of the node's files: big-endian integers, variable-length integers, and
//! streams of type-length-value records.
use vstd::prelude::*;
use vstd::slice::slice_subrange;
use vstd::slice::slice_to_vec;

verus! {

/// The `k` low bytes of `n`, most significant first.
pub open spec fn be_bytes(n: nat, k: nat) -> Seq<u8>
    decreases k,
{
    if k == 0 {
        Seq::empty()
    } else {
        be_bytes(n / 256, (k - 1) as nat).push((n % 256) as u8)
    }
}

/// The number whose big-endian bytes are `s`.
pub open spec fn be_value(s: Seq<u8>) -> nat
    decreases s.len(),
{
    if s.len() == 0 {
        0
    } else {
        be_value(s.drop_last()) * 256 + s.last() as nat
    }
}

/// The first number that does not fit in `k` bytes.
pub open spec fn byte_limit(k: nat) -> nat
    decreases k,
{
    if k == 0 {
        1
    } else {
        256 * byte_limit((k - 1) as nat)
    }
}

/// The limits of the integer widths in use.
pub proof fn lemma_byte_limits()
    ensures
        byte_limit(2) == 0x1_0000,
        byte_limit(4) == 0x1_0000_0000,
        byte_limit(8) == 0x1_0000_0000_0000_0000,
{
    reveal_with_fuel(byte_limit, 9);
}

/// Big-endian bytes have the length asked for and read back as the number.
pub proof fn lemma_be_round_trip(n: nat, k: nat)
    requires
        n < byte_limit(k),
    ensures
        be_bytes(n, k).len() == k,
        be_value(be_bytes(n, k)) == n,
    decreases k,
{
    if k > 0 {
        lemma_be_round_trip(n / 256, (k - 1) as nat);
        assert(be_bytes(n, k).drop_last() == be_bytes(n / 256, (k - 1) as nat));
    }
}

proof fn lemma_be_bound(s: Seq<u8>)
    ensures
        be_value(s) < byte_limit(s.len()),
    decreases s.len(),
{
    if s.len() > 0 {
        lemma_be_bound(s.drop_last());
    }
}

proof fn lemma_byte_limit_grows(a: nat, b: nat)
    requires
        a <= b,
    ensures
        byte_limit(a) <= byte_limit(b),
        byte_limit(a) > 0,
    decreases b,
{
    if b > a {
        lemma_byte_limit_grows(a, (b - 1) as nat);
    } else if a > 0 {
        lemma_byte_limit_grows((a - 1) as nat, (a - 1) as nat);
    }
}

/// Appends the `k` low bytes of `n`, most significant first.
pub fn write_be(out: &mut Vec<u8>, n: u64, k: usize)
    ensures
        final(out)@ == old(out)@ + be_bytes(n as nat, k as nat),
    decreases k,
{
    if k > 0 {
        write_be(out, n / 256, k - 1);
        out.push((n % 256) as u8);
        proof {
            assert(old(out)@ + be_bytes(n as nat, k as nat) == (old(out)@ + be_bytes(
                (n / 256) as nat,
                (k - 1) as nat,
            )).push((n % 256) as u8));
        }
    } else {
        assert(old(out)@ + Seq::<u8>::empty() == old(out)@);
    }
}

/// Reads `k` bytes at `at` as a big-endian number.
pub fn read_be(s: &[u8], at: usize, k: usize) -> (r: u64)
    requires
        k <= 8,
        at + k <= s@.len(),
    ensures
        r == be_value(s@.subrange(at as int, at + k)),
        r < byte_limit(k as nat),
{
    let total: usize = s.len();
    let mut r: u64 = 0;
    let mut i: usize = 0;
    while i < k
        invariant
            i <= k <= 8,
            total == s@.len(),
            at + k <= total,
            r == be_value(s@.subrange(at as int, at + i)),
        decreases k - i,
    {
        proof {
            let before = s@.subrange(at as int, at + i);
            assert(s@.subrange(at as int, at + i + 1).drop_last() == before);
            lemma_be_bound(before);
            lemma_byte_limit_grows(i as nat, 7);
            assert(byte_limit(7) == 0x100_0000_0000_0000) by {
                reveal_with_fuel(byte_limit, 8);
            }
        }
        r = r * 256 + s[at + i] as u64;
        i = i + 1;
    }
    proof {
        lemma_be_bound(s@.subrange(at as int, at + k));
    }
    r
}

/// The variable-length encoding of `n`: one byte below 253, else a marker byte and two, four or
/// eight bytes.
pub open spec fn bigsize_bytes(n: nat) -> Seq<u8> {
    if n <= 0xFC {
        seq![n as u8]
    } else if n <= 0xFFFF {
        seq![0xFDu8] + be_bytes(n, 2)
    } else if n <= 0xFFFF_FFFF {
        seq![0xFEu8] + be_bytes(n, 4)
    } else {
        seq![0xFFu8] + be_bytes(n, 8)
    }
}

/// A fixed-width number behind a marker byte, refused where a shorter encoding exists.
pub open spec fn bigsize_wide(s: Seq<u8>, k: nat, least: nat) -> Option<(nat, nat)> {
    if s.len() < 1 + k || be_value(s.subrange(1, 1 + k as int)) < least {
        None
    } else {
        Some((be_value(s.subrange(1, 1 + k as int)), 1 + k))
    }
}

/// The variable-length number that `s` starts with, and how many bytes it takes. Only the shortest
/// encoding of a number is accepted.
pub open spec fn bigsize_at(s: Seq<u8>) -> Option<(nat, nat)> {
    if s.len() == 0 {
        None
    } else if s[0] == 0xFF {
        bigsize_wide(s, 8, 0x1_0000_0000)
    } else if s[0] == 0xFE {
        bigsize_wide(s, 4, 0x1_0000)
    } else if s[0] == 0xFD {
        bigsize_wide(s, 2, 0xFD)
    } else {
        Some((s[0] as nat, 1))
    }
}

/// A variable-length number reads back as itself, whatever follows it.
pub proof fn law_bigsize_round_trip(n: nat, rest: Seq<u8>)
    requires
        n <= u64::MAX,
    ensures
        bigsize_at(bigsize_bytes(n) + rest) == Some((n, bigsize_bytes(n).len())),
        1 <= bigsize_bytes(n).len() <= 9,
{
    lemma_byte_limits();
    let s = bigsize_bytes(n) + rest;
    if n <= 0xFC {
    } else if n <= 0xFFFF {
        lemma_be_round_trip(n, 2);
        assert(s.subrange(1, 3) == be_bytes(n, 2));
    } else if n <= 0xFFFF_FFFF {
        lemma_be_round_trip(n, 4);
        assert(s.subrange(1, 5) == be_bytes(n, 4));
    } else {
        lemma_be_round_trip(n, 8);
        assert(s.subrange(1, 9) == be_bytes(n, 8));
    }
}

/// Appends the variable-length encoding of `n`.
pub fn write_bigsize(out: &mut Vec<u8>, n: u64)
    ensures
        final(out)@ == old(out)@ + bigsize_bytes(n as nat),
{
    let ghost before = out@;
    if n <= 0xFC {
        out.push(n as u8);
        assert(out@ == before + seq![n as u8]);
    } else if n <= 0xFFFF {
        out.push(0xFD);
        write_be(out, n, 2);
        assert(out@ == before + (seq![0xFDu8] + be_bytes(n as nat, 2)));
    } else if n <= 0xFFFF_FFFF {
        out.push(0xFE);
        write_be(out, n, 4);
        assert(out@ == before + (seq![0xFEu8] + be_bytes(n as nat, 4)));
    } else {
        out.push(0xFF);
        write_be(out, n, 8);
        assert(out@ == before + (seq![0xFFu8] + be_bytes(n as nat, 8)));
    }
}

/// The same pair with machine integers for numbers.
pub open spec fn as_sizes(r: Option<(u64, usize)>) -> Option<(nat, nat)> {
    match r {
        Some((n, k)) => Some((n as nat, k as nat)),
        None => None,
    }
}

/// Reads the variable-length number at `at`, and how many bytes it takes.
pub fn read_bigsize(s: &[u8], at: usize) -> (r: Option<(u64, usize)>)
    requires
        at <= s@.len(),
    ensures
        as_sizes(r) == bigsize_at(s@.skip(at as int)),
        r matches Some((_, k)) ==> 1 <= k <= 9 && at + k <= s@.len(),
{
    let ghost rest = s@.skip(at as int);
    let left: usize = s.len() - at;
    if left == 0 {
        return None;
    }
    let (k, least): (usize, u64) = if s[at] == 0xFF {
        (8, 0x1_0000_0000)
    } else if s[at] == 0xFE {
        (4, 0x1_0000)
    } else if s[at] == 0xFD {
        (2, 0xFD)
    } else {
        return Some((s[at] as u64, 1));
    };
    assert(bigsize_at(rest) == bigsize_wide(rest, k as nat, least as nat));
    if left < 1 + k {
        return None;
    }
    let n = read_be(s, at + 1, k);
    assert(rest.subrange(1, 1 + k as int) == s@.subrange(at + 1, at + 1 + k));
    if n < least {
        None
    } else {
        Some((n, 1 + k))
    }
}

/// The length that `s` starts with: two bytes, or eight more behind `0xffff`.
pub open spec fn count_at(s: Seq<u8>) -> Option<(nat, nat)> {
    if s.len() < 2 {
        None
    } else if be_value(s.subrange(0, 2)) != 0xffff {
        Some((be_value(s.subrange(0, 2)), 2))
    } else if s.len() < 10 || be_value(s.subrange(2, 10)) + 0xffff > u64::MAX {
        None
    } else {
        Some((be_value(s.subrange(2, 10)) + 0xffff, 10))
    }
}

/// The bytes of the length of a collection.
pub open spec fn count_bytes(n: nat) -> Seq<u8> {
    if n < 0xffff {
        be_bytes(n, 2)
    } else {
        be_bytes(0xffff, 2) + be_bytes((n - 0xffff) as nat, 8)
    }
}

/// The length of a collection reads back as itself, whatever follows it.
pub proof fn law_count_round_trip(n: nat, rest: Seq<u8>)
    requires
        n <= u64::MAX,
    ensures
        count_at(count_bytes(n) + rest) == Some((n, count_bytes(n).len())),
        2 <= count_bytes(n).len() <= 10,
{
    lemma_byte_limits();
    let s = count_bytes(n) + rest;
    if n < 0xffff {
        lemma_be_round_trip(n, 2);
        assert(s.subrange(0, 2) == be_bytes(n, 2));
    } else {
        lemma_be_round_trip(0xffff, 2);
        lemma_be_round_trip((n - 0xffff) as nat, 8);
        assert(s.subrange(0, 2) == be_bytes(0xffff, 2));
        assert(s.subrange(2, 10) == be_bytes((n - 0xffff) as nat, 8));
    }
}

/// Appends the length of a collection.
pub fn write_count(out: &mut Vec<u8>, n: u64)
    ensures
        final(out)@ == old(out)@ + count_bytes(n as nat),
{
    let ghost before = out@;
    if n < 0xffff {
        write_be(out, n, 2);
    } else {
        write_be(out, 0xffff, 2);
        write_be(out, n - 0xffff, 8);
        assert(out@ == before + (be_bytes(0xffff, 2) + be_bytes((n - 0xffff) as nat, 8)));
    }
}

/// Reads the length of a collection, and how many bytes it takes.
pub fn read_count(s: &[u8]) -> (r: Option<(u64, usize)>)
    ensures
        as_sizes(r) == count_at(s@),
        r matches Some((_, k)) ==> k <= s@.len(),
{
    if s.len() < 2 {
        return None;
    }
    let n = read_be(s, 0, 2);
    if n != 0xffff {
        return Some((n, 2));
    }
    if s.len() < 10 {
        return None;
    }
    let m = read_be(s, 2, 8);
    if m > u64::MAX - 0xffff {
        None
    } else {
        Some((m + 0xffff, 10))
    }
}

/// The record that `s` starts with: a type above `last`, a length and as many bytes; and how many
/// bytes the record takes.
pub open spec fn record_at(s: Seq<u8>, last: Option<nat>) -> Option<(nat, Seq<u8>, nat)> {
    match bigsize_at(s) {
        None => None,
        Some((t, j)) => match bigsize_at(s.skip(j as int)) {
            None => None,
            Some((n, k)) => if (last matches Some(l) && t <= l) || j + k + n > s.len() {
                None
            } else {
                Some((t, s.subrange((j + k) as int, (j + k + n) as int), j + k + n))
            },
        },
    }
}

/// The records of a stream, with their types in strictly increasing order. `last` is the type of
/// the record before.
pub open spec fn records_of(s: Seq<u8>, last: Option<nat>) -> Option<Seq<(nat, Seq<u8>)>>
    decreases s.len(),
{
    if s.len() == 0 {
        Some(Seq::empty())
    } else {
        match record_at(s, last) {
            None => None,
            Some((t, value, n)) => match records_of(s.skip(n as int), Some(t)) {
                None => None,
                Some(rest) => Some(seq![(t, value)] + rest),
            },
        }
    }
}

/// The bytes of one record.
pub open spec fn record_bytes(t: nat, value: Seq<u8>) -> Seq<u8> {
    bigsize_bytes(t) + bigsize_bytes(value.len()) + value
}

proof fn lemma_pieces(a: Seq<u8>, b: Seq<u8>, v: Seq<u8>, rest: Seq<u8>)
    ensures
        (a + b + v) + rest == a + (b + v + rest),
        ((a + b + v) + rest).skip(a.len() as int) == b + (v + rest),
        ((a + b + v) + rest).subrange(
            (a.len() + b.len()) as int,
            (a.len() + b.len() + v.len()) as int,
        ) == v,
        ((a + b + v) + rest).skip((a.len() + b.len() + v.len()) as int) == rest,
{
    let s = (a + b + v) + rest;
    assert(s =~= a + (b + v + rest));
    assert(s.skip(a.len() as int) =~= b + (v + rest));
    assert(s.subrange((a.len() + b.len()) as int, (a.len() + b.len() + v.len()) as int) =~= v);
    assert(s.skip((a.len() + b.len() + v.len()) as int) =~= rest);
}

proof fn lemma_record_front(t: nat, value: Seq<u8>, last: Option<nat>, rest: Seq<u8>)
    requires
        t <= u64::MAX,
        value.len() <= u64::MAX,
        last matches Some(l) ==> l < t,
    ensures
        record_at(record_bytes(t, value) + rest, last) == Some(
            (t, value, record_bytes(t, value).len()),
        ),
        (record_bytes(t, value) + rest).skip(record_bytes(t, value).len() as int) == rest,
        record_bytes(t, value).len() > 0,
{
    let a = bigsize_bytes(t);
    let b = bigsize_bytes(value.len());
    law_bigsize_round_trip(t, b + value + rest);
    law_bigsize_round_trip(value.len(), value + rest);
    lemma_pieces(a, b, value, rest);
}

/// A record at the front of a stream reads back, before the records that follow it.
pub proof fn law_record_round_trip(t: nat, value: Seq<u8>, last: Option<nat>, rest: Seq<u8>)
    requires
        t <= u64::MAX,
        value.len() <= u64::MAX,
        last matches Some(l) ==> l < t,
        records_of(rest, Some(t)) is Some,
    ensures
        records_of(record_bytes(t, value) + rest, last) == Some(
            seq![(t, value)] + records_of(rest, Some(t))->0,
        ),
{
    lemma_record_front(t, value, last, rest);
}

/// Appends one record.
pub fn write_record(out: &mut Vec<u8>, t: u64, value: &Vec<u8>)
    ensures
        final(out)@ == old(out)@ + record_bytes(t as nat, value@),
{
    let ghost before = out@;
    write_bigsize(out, t);
    write_bigsize(out, value.len() as u64);
    let mut tail = value.clone();
    assert(tail@ =~= value@);
    out.append(&mut tail);
    assert(out@ == before + record_bytes(t as nat, value@));
}

/// The records read into vectors.
pub open spec fn record_view(v: Seq<(u64, Vec<u8>)>) -> Seq<(nat, Seq<u8>)> {
    Seq::new(v.len(), |i: int| (v[i].0 as nat, v[i].1@))
}

/// The type of the record before, as a number.
pub open spec fn as_type(last: Option<u64>) -> Option<nat> {
    match last {
        Some(l) => Some(l as nat),
        None => None,
    }
}

/// Reads the record at `at`, and how many bytes it takes.
pub fn read_record(s: &[u8], at: usize, last: Option<u64>) -> (r: Option<(u64, Vec<u8>, usize)>)
    requires
        at <= s@.len(),
    ensures
        match r {
            Some((t, value, n)) => record_at(s@.skip(at as int), as_type(last)) == Some(
                (t as nat, value@, n as nat),
            ) && n > 0 && at + n <= s@.len(),
            None => record_at(s@.skip(at as int), as_type(last)) is None,
        },
{
    let total: usize = s.len();
    let ghost here = s@.skip(at as int);
    let (t, j): (u64, usize) = match read_bigsize(s, at) {
        Some(p) => p,
        None => {
            return None;
        },
    };
    assert(here.skip(j as int) == s@.skip(at + j));
    let (n, k): (u64, usize) = match read_bigsize(s, at + j) {
        Some(p) => p,
        None => {
            return None;
        },
    };
    let start: usize = at + j + k;
    if let Some(l) = last {
        if t <= l {
            return None;
        }
    }
    if n > (total - start) as u64 {
        return None;
    }
    let end: usize = start + n as usize;
    let value = slice_to_vec(slice_subrange(s, start, end));
    assert(here.subrange((j + k) as int, (j + k + n) as int) == value@);
    Some((t, value, end - at))
}

/// Reads all records of a stream.
pub fn read_records(s: &[u8]) -> (r: Option<Vec<(u64, Vec<u8>)>>)
    ensures
        match r {
            Some(v) => records_of(s@, None) == Some(record_view(v@)),
            None => records_of(s@, None) is None,
        },
{
    let mut out: Vec<(u64, Vec<u8>)> = Vec::new();
    let mut at: usize = 0;
    let mut last: Option<u64> = None;
    let total: usize = s.len();
    proof {
        assert(s@.skip(0) == s@);
        if let Some(rest) = records_of(s@, None) {
            assert(record_view(out@) + rest == rest);
        }
    }
    while at < total
        invariant
            total == s@.len(),
            at <= total,
            match records_of(s@.skip(at as int), as_type(last)) {
                Some(rest) => records_of(s@, None) == Some(record_view(out@) + rest),
                None => records_of(s@, None) is None,
            },
        decreases total - at,
    {
        let ghost here = s@.skip(at as int);
        let (t, value, n): (u64, Vec<u8>, usize) = match read_record(s, at, last) {
            Some(p) => p,
            None => {
                return None;
            },
        };
        let ghost before = record_view(out@);
        out.push((t, value));
        last = Some(t);
        at = at + n;
        proof {
            assert(here.skip(n as int) == s@.skip(at as int));
            assert(record_view(out@) == before.push((t as nat, value@)));
            if let Some(rest) = records_of(s@.skip(at as int), Some(t as nat)) {
                assert(before + (seq![(t as nat, value@)] + rest) == record_view(out@) + rest);
            }
        }
    }
    proof {
        assert(s@.skip(at as int).len() == 0);
        assert(record_view(out@) + Seq::<(nat, Seq<u8>)>::empty() == record_view(out@));
    }
    Some(out)
}

/// The bytes behind a length prefix, and how many bytes both take.
pub open spec fn framed_at(s: Seq<u8>) -> Option<(Seq<u8>, nat)> {
    match bigsize_at(s) {
        None => None,
        Some((n, k)) => if k + n > s.len() {
            None
        } else {
            Some((s.subrange(k as int, (k + n) as int), k + n))
        },
    }
}

/// The bytes of a length prefix and what it counts.
pub open spec fn frame_bytes(body: Seq<u8>) -> Seq<u8> {
    bigsize_bytes(body.len()) + body
}

/// A framed body reads back as itself, whatever follows it.
pub proof fn law_frame_round_trip(body: Seq<u8>, rest: Seq<u8>)
    requires
        body.len() <= u64::MAX,
    ensures
        framed_at(frame_bytes(body) + rest) == Some((body, frame_bytes(body).len())),
{
    let s = frame_bytes(body) + rest;
    let k = bigsize_bytes(body.len()).len();
    law_bigsize_round_trip(body.len(), body + rest);
    assert(s == bigsize_bytes(body.len()) + (body + rest));
    assert(s.subrange(k as int, (k + body.len()) as int) == body);
}

/// Appends a length prefix and `body`.
pub fn write_frame(out: &mut Vec<u8>, body: &Vec<u8>)
    ensures
        final(out)@ == old(out)@ + frame_bytes(body@),
{
    let ghost before = out@;
    write_bigsize(out, body.len() as u64);
    let mut tail = body.clone();
    assert(tail@ =~= body@);
    out.append(&mut tail);
    assert(out@ == before + frame_bytes(body@));
}

/// Reads the bytes behind the length prefix at `at`, and how many bytes both take.
pub fn read_frame<'a>(s: &'a [u8], at: usize) -> (r: Option<(&'a [u8], usize)>)
    requires
        at <= s@.len(),
    ensures
        match r {
            Some((body, n)) => framed_at(s@.skip(at as int)) == Some((body@, n as nat)) && n > 0
                && at + n <= s@.len(),
            None => framed_at(s@.skip(at as int)) is None,
        },
{
    let total: usize = s.len();
    let ghost here = s@.skip(at as int);
    match read_bigsize(s, at) {
        None => None,
        Some((n, k)) => {
            let start: usize = at + k;
            if n > (total - start) as u64 {
                None
            } else {
                let end: usize = start + n as usize;
                assert(here.subrange(k as int, (k + n) as int) == s@.subrange(
                    start as int,
                    end as int,
                ));
                Some((slice_subrange(s, start, end), end - at))
            }
        },
    }
}

/// Numbers are written with the most significant byte first, and read that way.
pub proof fn law_most_significant_byte_comes_first(s: Seq<u8>, a: u8, b: u8, n: nat, k: nat)
    ensures
        be_value(Seq::<u8>::empty()) == 0,
        be_value(s.push(a)) == be_value(s) * 256 + a,
        be_value(seq![a, b]) == a * 256 + b,
        k > 0 ==> be_bytes(n, k).last() == n % 256,
        be_bytes(n, k).len() == k,
    decreases k,
{
    assert(s.push(a).drop_last() =~= s);
    assert(seq![a, b].drop_last() =~= seq![a]);
    assert(seq![a].drop_last() =~= Seq::<u8>::empty());
    assert(be_value(seq![a]) == be_value(seq![a].drop_last()) * 256 + a);
    if k > 0 {
        law_most_significant_byte_comes_first(s, a, b, n / 256, (k - 1) as nat);
    }
}

/// A variable-length number takes one byte below 253, and else three, five or nine, marked by the first
/// one; the shortest form is the only one that is read.
pub proof fn law_small_numbers_take_one_byte(n: nat, s: Seq<u8>)
    requires
        n <= u64::MAX,
    ensures
        n < 253 ==> bigsize_bytes(n) == seq![n as u8],
        253 <= n < 0x1_0000 ==> bigsize_bytes(n).len() == 3 && bigsize_bytes(n)[0] == 253,
        0x1_0000 <= n < 0x1_0000_0000 ==> bigsize_bytes(n).len() == 5 && bigsize_bytes(n)[0] == 254,
        0x1_0000_0000 <= n ==> bigsize_bytes(n).len() == 9 && bigsize_bytes(n)[0] == 255,
        bigsize_at(s) matches Some((v, k)) ==> {
            &&& k <= s.len()
            &&& k == 1 || k == 3 || k == 5 || k == 9
            &&& k == 1 ==> v < 253
            &&& k == 3 ==> 253 <= v
            &&& k == 5 ==> 0x1_0000 <= v
            &&& k == 9 ==> 0x1_0000_0000 <= v
        },
{
    law_most_significant_byte_comes_first(s, 0, 0, n, 2);
    law_most_significant_byte_comes_first(s, 0, 0, n, 4);
    law_most_significant_byte_comes_first(s, 0, 0, n, 8);
}

/// A record is its type, the length of its value and the value; the types of a stream rise from record to
/// record, and one that does not is refused.
pub proof fn law_record_types_rise(t: nat, value: Seq<u8>, last: nat, rest: Seq<u8>)
    requires
        t <= u64::MAX,
        value.len() <= u64::MAX,
    ensures
        record_bytes(t, value) == bigsize_bytes(t) + bigsize_bytes(value.len()) + value,
        t <= last ==> records_of(record_bytes(t, value) + rest, Some(last)) is None,
{
    lemma_record_front(t, value, None, rest);
    let s = record_bytes(t, value) + rest;
    assert(s.len() > 0);
    if t <= last {
        assert(record_at(s, None) is Some);
        assert(record_at(s, Some(last)) is None);
    }
}

} // verus!
