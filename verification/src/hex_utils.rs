//! Hexadecimal text.
use crate::keys;
use crate::keys::PublicKey;
use crate::text::characters;
use vstd::prelude::*;

verus! {

/// The value of a hexadecimal digit of either case.
pub open spec fn nibble(c: char) -> Option<u8> {
    if '0' <= c <= '9' {
        Some((c as u32 - '0' as u32) as u8)
    } else if 'a' <= c <= 'f' {
        Some((c as u32 - 'a' as u32 + 10) as u8)
    } else if 'A' <= c <= 'F' {
        Some((c as u32 - 'A' as u32 + 10) as u8)
    } else {
        None
    }
}

/// The lower-case hexadecimal digit of a value below 16.
pub open spec fn hex_digit(n: u8) -> char {
    if n < 10 {
        ('0' as u32 + n) as char
    } else {
        ('a' as u32 + n - 10) as char
    }
}

/// Whether every character is a hexadecimal digit.
pub open spec fn all_hex(s: Seq<char>) -> bool {
    forall|i: int| 0 <= i < s.len() ==> nibble(#[trigger] s[i]) is Some
}

/// The bytes that pairs of digits stand for. The last digit of an odd number of them is dropped.
pub open spec fn pairs(s: Seq<char>) -> Seq<u8> {
    Seq::new(s.len() / 2, |i: int| (nibble(s[2 * i])->0 * 16 + nibble(s[2 * i + 1])->0) as u8)
}

/// The bytes of a hexadecimal text.
pub open spec fn hex_bytes(s: Seq<char>) -> Option<Seq<u8>> {
    if all_hex(s) {
        Some(pairs(s))
    } else {
        None
    }
}

/// The lower-case hexadecimal text of some bytes: two digits for each.
pub open spec fn hex_of(b: Seq<u8>) -> Seq<char> {
    Seq::new(
        2 * b.len(),
        |i: int|
            if i % 2 == 0 {
                hex_digit(b[i / 2] / 16)
            } else {
                hex_digit(b[i / 2] % 16)
            },
    )
}

/// The hexadecimal text of some bytes reads back as these bytes.
pub proof fn law_hex_round_trip(b: Seq<u8>)
    ensures
        hex_bytes(hex_of(b)) == Some(b),
{
    let s = hex_of(b);
    assert forall|i: int| 0 <= i < s.len() implies nibble(#[trigger] s[i]) is Some by {}
    assert(pairs(s) =~= b);
}

fn digit_value(c: char) -> (r: Option<u8>)
    ensures
        r == nibble(c),
{
    if '0' <= c && c <= '9' {
        Some((c as u32 - '0' as u32) as u8)
    } else if 'a' <= c && c <= 'f' {
        Some((c as u32 - 'a' as u32 + 10) as u8)
    } else if 'A' <= c && c <= 'F' {
        Some((c as u32 - 'A' as u32 + 10) as u8)
    } else {
        None
    }
}

/// The bytes of a hexadecimal text, or nothing where a character is not a hexadecimal digit.
pub fn to_vec(hex: &str) -> (r: Option<Vec<u8>>)
    ensures
        match r {
            Some(v) => hex_bytes(hex@) == Some(v@),
            None => hex_bytes(hex@) is None,
        },
{
    let cs = characters(hex);
    let n: usize = cs.len();
    let mut out: Vec<u8> = Vec::new();
    let mut high: u8 = 0;
    let mut i: usize = 0;
    while i < n
        invariant
            n == cs@.len(),
            cs@ == hex@,
            i <= n,
            all_hex(hex@.take(i as int)),
            out@ == pairs(hex@.take(i as int)),
            i % 2 == 1 ==> nibble(hex@[i - 1]) == Some(high),
            high < 16,
        decreases n - i,
    {
        let ghost before = hex@.take(i as int);
        let ghost now = hex@.take(i + 1);
        match digit_value(cs[i]) {
            Some(v) => {
                assert forall|j: int| 0 <= j < now.len() implies nibble(#[trigger] now[j]) is Some by {
                    if j < i {
                        assert(before[j] == now[j]);
                    }
                }
                if i % 2 == 1 {
                    out.push(high * 16 + v);
                    assert(out@ =~= pairs(now));
                } else {
                    high = v;
                    assert(out@ =~= pairs(now));
                }
            },
            None => {
                return None;
            },
        }
        i = i + 1;
    }
    assert(hex@.take(n as int) == hex@);
    Some(out)
}

fn digit_str(n: u8) -> (r: &'static str)
    requires
        n < 16,
    ensures
        r@ == seq![hex_digit(n)],
{
    let all = "0123456789abcdef";
    proof {
        reveal_strlit("0123456789abcdef");
    }
    let r = all.substring_char(n as usize, n as usize + 1);
    assert(r@ == seq![hex_digit(n)]);
    r
}

/// The lower-case hexadecimal text of some bytes.
pub fn hex_str(value: &[u8]) -> (r: String)
    ensures
        r@ == hex_of(value@),
{
    let n: usize = value.len();
    let mut r = String::new();
    let mut i: usize = 0;
    assert(r@ =~= hex_of(value@.take(0)));
    while i < n
        invariant
            n == value@.len(),
            i <= n,
            r@ == hex_of(value@.take(i as int)),
        decreases n - i,
    {
        let ghost before = r@;
        r.append(digit_str(value[i] / 16));
        r.append(digit_str(value[i] % 16));
        assert(r@ =~= hex_of(value@.take(i + 1)));
        i = i + 1;
    }
    assert(value@.take(n as int) == value@);
    r
}

/// The key that 66 hexadecimal digits stand for.
pub open spec fn compressed_pubkey(s: Seq<char>) -> Option<Seq<u8>> {
    if s.len() != 66 {
        None
    } else {
        match hex_bytes(s) {
            Some(b) => keys::parsed_key(b),
            None => None,
        }
    }
}

/// The key of a text of 66 hexadecimal digits.
pub fn to_compressed_pubkey(hex: &str) -> (r: Option<PublicKey>)
    ensures
        match r {
            Some(k) => compressed_pubkey(hex@) == Some(k@),
            None => compressed_pubkey(hex@) is None,
        },
{
    if hex.unicode_len() != 66 {
        return None;
    }
    match to_vec(hex) {
        Some(data) => PublicKey::from_slice(data.as_slice()),
        None => None,
    }
}

/// A hexadecimal text reads the same in either case, two digits for each byte, the first the higher; a
/// character that is no digit makes it none.
pub proof fn law_hexadecimal_reads_in_pairs(s: Seq<char>, a: char, b: char)
    ensures
        hex_bytes(s) is Some <==> forall|i: int|
            0 <= i < s.len() ==> ('0' <= #[trigger] s[i] <= '9' || 'a' <= s[i] <= 'f' || 'A' <= s[i]
                <= 'F'),
        hex_bytes(Seq::<char>::empty()) == Some(Seq::<u8>::empty()),
        hex_bytes(s) is Some && s.len() % 2 == 0 ==> (nibble(a) matches Some(h) ==> (nibble(
            b,
        ) matches Some(l) ==> hex_bytes(s.push(a).push(b)) == Some(
            (hex_bytes(s)->0).push((h * 16 + l) as u8),
        ))),
        '0' <= a <= '9' ==> nibble(a) == Some((a as u32 - '0' as u32) as u8),
        'a' <= a <= 'f' ==> nibble(a) == Some((a as u32 - 'a' as u32 + 10) as u8),
        'A' <= a <= 'F' ==> nibble(a) == Some((a as u32 - 'A' as u32 + 10) as u8),
{
    assert(hex_bytes(Seq::<char>::empty())->0 =~= Seq::<u8>::empty());
    if all_hex(s) && s.len() % 2 == 0 && nibble(a) is Some && nibble(b) is Some {
        let t = s.push(a).push(b);
        assert(all_hex(t)) by {
            assert forall|i: int| 0 <= i < t.len() implies nibble(#[trigger] t[i]) is Some by {
                if i < s.len() {
                    assert(t[i] == s[i]);
                }
            }
        }
        let h = nibble(a)->0;
        let l = nibble(b)->0;
        assert(pairs(t) =~= pairs(s).push((h * 16 + l) as u8));
    }
    if all_hex(s) {
        assert forall|i: int| 0 <= i < s.len() implies ('0' <= #[trigger] s[i] <= '9' || 'a' <= s[i]
            <= 'f' || 'A' <= s[i] <= 'F') by {
            assert(nibble(s[i]) is Some);
        }
    }
}

/// Bytes are written in hexadecimal with two digits each, in lower case.
pub proof fn law_hexadecimal_is_written_in_lower_case(b: Seq<u8>, i: int)
    requires
        0 <= i < hex_of(b).len(),
    ensures
        hex_of(b).len() == 2 * b.len(),
        '0' <= hex_of(b)[i] <= '9' || 'a' <= hex_of(b)[i] <= 'f',
{
}

/// Only 66 hexadecimal digits stand for a compressed key, and then for the key of the 33 bytes that they
/// write.
pub proof fn law_compressed_keys_have_66_digits(s: Seq<char>, b: Seq<u8>)
    ensures
        compressed_pubkey(s) is Some ==> s.len() == 66 && all_hex(s),
        b.len() == 33 ==> compressed_pubkey(hex_of(b)) == keys::parsed_key(b),
        b.len() != 33 ==> compressed_pubkey(hex_of(b)) is None,
{
    law_hex_round_trip(b);
}

} // verus!
