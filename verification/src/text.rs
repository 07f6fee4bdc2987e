//! Text handling shared by the other modules: whitespace, words, and decimal numbers.
use vstd::prelude::*;

verus! {

/// The characters with the Unicode `White_Space` property.
pub open spec fn is_whitespace(c: char) -> bool {
    ||| '\u{9}' <= c <= '\u{d}'
    ||| c == '\u{20}'
    ||| c == '\u{85}'
    ||| c == '\u{a0}'
    ||| c == '\u{1680}'
    ||| '\u{2000}' <= c <= '\u{200a}'
    ||| c == '\u{2028}'
    ||| c == '\u{2029}'
    ||| c == '\u{202f}'
    ||| c == '\u{205f}'
    ||| c == '\u{3000}'
}

/// Whether `c` has the Unicode `White_Space` property.
pub fn whitespace(c: char) -> (r: bool)
    ensures
        r == is_whitespace(c),
{
    ('\u{9}' <= c && c <= '\u{d}') || c == '\u{20}' || c == '\u{85}' || c == '\u{a0}' || c
        == '\u{1680}' || ('\u{2000}' <= c && c <= '\u{200a}') || c == '\u{2028}' || c
        == '\u{2029}' || c == '\u{202f}' || c == '\u{205f}' || c == '\u{3000}'
}

/// Whether two texts are the same.
pub fn same(a: &str, b: &str) -> (r: bool)
    ensures
        r == (a@ == b@),
{
    a.to_owned() == b.to_owned()
}

/// The characters of `s`, in order.
pub fn characters(s: &str) -> (r: Vec<char>)
    ensures
        r@ == s@,
{
    let mut r: Vec<char> = Vec::new();
    for c in it: s.chars()
        invariant
            it.seq() == s@,
            r@ == s@.take(it.index() as int),
    {
        proof {
            assert(s@.take(it.index() + 1) == s@.take(it.index() as int).push(s@[it.index() as int]));
        }
        r.push(c);
    }
    assert(s@.take(s@.len() as int) == s@);
    r
}

/// `s` without its leading whitespace.
pub open spec fn trim_start_of(s: Seq<char>) -> Seq<char>
    decreases s.len(),
{
    if s.len() > 0 && is_whitespace(s[0]) {
        trim_start_of(s.drop_first())
    } else {
        s
    }
}

/// `s` without its trailing whitespace.
pub open spec fn trim_end_of(s: Seq<char>) -> Seq<char>
    decreases s.len(),
{
    if s.len() > 0 && is_whitespace(s.last()) {
        trim_end_of(s.drop_last())
    } else {
        s
    }
}

/// `s` without leading and trailing whitespace.
pub open spec fn trimmed(s: Seq<char>) -> Seq<char> {
    trim_end_of(trim_start_of(s))
}

/// Removes leading and trailing whitespace.
pub fn trim<'a>(s: &'a str) -> (r: &'a str)
    ensures
        r@ == trimmed(s@),
{
    let cs = characters(s);
    let n: usize = cs.len();
    let mut from: usize = 0;
    assert(s@.skip(0) == s@);
    while from < n && whitespace(cs[from])
        invariant
            cs@ == s@,
            n == cs@.len(),
            from <= n,
            trim_start_of(s@) == trim_start_of(s@.skip(from as int)),
        decreases n - from,
    {
        proof {
            assert(s@.skip(from as int).drop_first() == s@.skip(from + 1));
        }
        from = from + 1;
    }
    let mut to: usize = n;
    assert(s@.skip(from as int) == s@.subrange(from as int, n as int));
    while to > from && whitespace(cs[to - 1])
        invariant
            cs@ == s@,
            n == cs@.len(),
            from <= to <= n,
            trimmed(s@) == trim_end_of(s@.subrange(from as int, to as int)),
        decreases to,
    {
        proof {
            assert(s@.subrange(from as int, to as int).drop_last() == s@.subrange(
                from as int,
                to - 1,
            ));
        }
        to = to - 1;
    }
    s.substring_char(from, to)
}

/// How many characters of `s` come before its first whitespace.
pub open spec fn word_len(s: Seq<char>) -> nat
    decreases s.len(),
{
    if s.len() == 0 || is_whitespace(s[0]) {
        0
    } else {
        1 + word_len(s.drop_first())
    }
}

/// The maximal runs of non-whitespace in `s`, in order.
pub open spec fn words_of(s: Seq<char>) -> Seq<Seq<char>>
    decreases s.len(),
{
    let t = trim_start_of(s);
    let n = word_len(t);
    if t.len() == 0 {
        Seq::empty()
    } else {
        proof {
            lemma_trim_start(s);
            lemma_word_len(t);
        }
        seq![t.take(n as int)] + words_of(t.skip(n as int))
    }
}

/// Trimming removes characters and stops at a character that is no whitespace.
pub proof fn lemma_trim_start(s: Seq<char>)
    ensures
        trim_start_of(s).len() <= s.len(),
        trim_start_of(s).len() > 0 ==> !is_whitespace(trim_start_of(s)[0]),
    decreases s.len(),
{
    if s.len() > 0 && is_whitespace(s[0]) {
        lemma_trim_start(s.drop_first());
    }
}

/// A word is no longer than the text, and is not empty where the text starts with one.
pub proof fn lemma_word_len(s: Seq<char>)
    ensures
        word_len(s) <= s.len(),
        s.len() > 0 && !is_whitespace(s[0]) ==> word_len(s) > 0,
    decreases s.len(),
{
    if s.len() > 0 && !is_whitespace(s[0]) {
        lemma_word_len(s.drop_first());
    }
}

/// The texts of a sequence of string slices.
pub open spec fn texts(v: Seq<&str>) -> Seq<Seq<char>> {
    Seq::new(v.len(), |i: int| v[i]@)
}

/// Splits `s` into its words: the maximal runs of non-whitespace.
pub fn words<'a>(s: &'a str) -> (r: Vec<&'a str>)
    ensures
        texts(r@) == words_of(s@),
{
    let cs = characters(s);
    let n: usize = cs.len();
    let mut r: Vec<&'a str> = Vec::new();
    let mut at: usize = 0;
    assert(s@.skip(0) == s@);
    while at < n
        invariant
            cs@ == s@,
            n == cs@.len(),
            at <= n,
            texts(r@) + words_of(s@.skip(at as int)) == words_of(s@),
        decreases n - at,
    {
        let mut from: usize = at;
        while from < n && whitespace(cs[from])
            invariant
                cs@ == s@,
                n == cs@.len(),
                at <= from <= n,
                trim_start_of(s@.skip(at as int)) == trim_start_of(s@.skip(from as int)),
            decreases n - from,
        {
            proof {
                assert(s@.skip(from as int).drop_first() == s@.skip(from + 1));
            }
            from = from + 1;
        }
        let ghost t = s@.skip(from as int);
        assert(trim_start_of(s@.skip(at as int)) == t);
        if from == n {
            proof {
                assert(t.len() == 0);
                assert(words_of(s@.skip(at as int)) == Seq::<Seq<char>>::empty());
                assert(s@.skip(n as int).len() == 0);
                assert(words_of(s@.skip(n as int)) == Seq::<Seq<char>>::empty());
            }
            at = n;
        } else {
            let mut to: usize = from;
            while to < n && !whitespace(cs[to])
                invariant
                    cs@ == s@,
                    n == cs@.len(),
                    from <= to <= n,
                    word_len(s@.skip(from as int)) == (to - from) + word_len(s@.skip(to as int)),
                decreases n - to,
            {
                proof {
                    assert(s@.skip(to as int).drop_first() == s@.skip(to + 1));
                }
                to = to + 1;
            }
            let w = s.substring_char(from, to);
            let ghost before = texts(r@);
            r.push(w);
            proof {
                let k = word_len(t);
                assert(k == to - from);
                assert(w@ == t.take(k as int));
                assert(t.skip(k as int) == s@.skip(to as int));
                assert(words_of(s@.skip(at as int)) == seq![t.take(k as int)] + words_of(
                    s@.skip(to as int),
                ));
                assert(texts(r@) == before.push(w@));
                assert(texts(r@) + words_of(s@.skip(to as int)) == before + (seq![w@] + words_of(
                    s@.skip(to as int),
                )));
                lemma_word_len(t);
            }
            at = to;
        }
    }
    proof {
        assert(s@.skip(n as int).len() == 0);
        assert(words_of(s@.skip(n as int)) == Seq::<Seq<char>>::empty());
        assert(texts(r@) + Seq::<Seq<char>>::empty() == texts(r@));
    }
    r
}

/// The position of the first `c` in `s`, or the length of `s` where there is none.
pub open spec fn find(s: Seq<char>, c: char) -> nat
    decreases s.len(),
{
    if s.len() == 0 || s[0] == c {
        0
    } else {
        1 + find(s.drop_first(), c)
    }
}

/// What `find` finds.
pub proof fn lemma_find(s: Seq<char>, c: char)
    ensures
        find(s, c) <= s.len(),
        find(s, c) < s.len() ==> s[find(s, c) as int] == c,
        forall|i: int| 0 <= i < find(s, c) ==> s[i] != c,
    decreases s.len(),
{
    if s.len() > 0 && s[0] != c {
        lemma_find(s.drop_first(), c);
        assert forall|i: int| 0 <= i < find(s, c) implies s[i] != c by {
            if i > 0 {
                assert(s[i] == s.drop_first()[i - 1]);
            }
        }
    }
}

/// The pieces of `s` between the occurrences of `c`.
pub open spec fn split_of(s: Seq<char>, c: char) -> Seq<Seq<char>>
    decreases s.len(),
{
    let n = find(s, c);
    if n < s.len() {
        seq![s.take(n as int)] + split_of(s.skip(n as int + 1), c)
    } else {
        seq![s]
    }
}

/// Splits `s` at every `c`.
pub fn split<'a>(s: &'a str, c: char) -> (r: Vec<&'a str>)
    ensures
        r@.len() > 0,
        texts(r@) == split_of(s@, c),
{
    let cs = characters(s);
    let n: usize = cs.len();
    let mut r: Vec<&'a str> = Vec::new();
    let mut from: usize = 0;
    let mut at: usize = 0;
    assert(s@.skip(0) == s@);
    while at < n
        invariant
            cs@ == s@,
            n == cs@.len(),
            from <= at <= n,
            find(s@.skip(from as int), c) == (at - from) + find(s@.skip(at as int), c),
            texts(r@) + split_of(s@.skip(from as int), c) == split_of(s@, c),
        decreases n - at,
    {
        if cs[at] == c {
            let w = s.substring_char(from, at);
            let ghost before = texts(r@);
            let ghost rest = s@.skip(from as int);
            r.push(w);
            proof {
                let k = at - from;
                assert(find(s@.skip(at as int), c) == 0);
                assert(w@ == rest.take(k));
                assert(rest.skip(k + 1) == s@.skip(at + 1));
                assert(texts(r@) == before.push(w@));
                assert(texts(r@) + split_of(s@.skip(at + 1), c) == before + (seq![w@] + split_of(
                    s@.skip(at + 1),
                    c,
                )));
            }
            at = at + 1;
            from = at;
        } else {
            proof {
                assert(s@.skip(at as int).drop_first() == s@.skip(at + 1));
            }
            at = at + 1;
        }
    }
    let w = s.substring_char(from, n);
    let ghost before = texts(r@);
    r.push(w);
    proof {
        let rest = s@.skip(from as int);
        assert(s@.skip(n as int).len() == 0);
        assert(w@ == rest);
        assert(split_of(rest, c) == seq![rest]);
        assert(texts(r@) == before + seq![w@]);
    }
    r
}

/// The character of a decimal digit.
pub open spec fn digit_char(d: nat) -> char {
    (('0' as u32) + d) as char
}

/// The decimal digits of `n`, without leading zeros.
pub open spec fn decimal(n: nat) -> Seq<char>
    decreases n,
{
    if n < 10 {
        seq![digit_char(n)]
    } else {
        decimal(n / 10).push(digit_char(n % 10))
    }
}

fn digit_str(d: u64) -> (r: &'static str)
    requires
        d < 10,
    ensures
        r@ == seq![digit_char(d as nat)],
{
    proof {
        reveal_strlit("0");
        reveal_strlit("1");
        reveal_strlit("2");
        reveal_strlit("3");
        reveal_strlit("4");
        reveal_strlit("5");
        reveal_strlit("6");
        reveal_strlit("7");
        reveal_strlit("8");
        reveal_strlit("9");
    }
    match d {
        0 => "0",
        1 => "1",
        2 => "2",
        3 => "3",
        4 => "4",
        5 => "5",
        6 => "6",
        7 => "7",
        8 => "8",
        _ => "9",
    }
}

/// Writes `n` in decimal.
pub fn number(n: u64) -> (r: String)
    ensures
        r@ == decimal(n as nat),
    decreases n,
{
    if n < 10 {
        digit_str(n).to_owned()
    } else {
        let mut r = number(n / 10);
        r.append(digit_str(n % 10));
        proof {
            assert(r@ == decimal((n / 10) as nat).push(digit_char((n % 10) as nat)));
        }
        r
    }
}

/// Why a text is not a number.
#[derive(Clone, Copy, Debug, PartialEq, Eq, Structural)]
pub enum NumberError {
    /// There is no character at all.
    Empty,
    /// A character is not a decimal digit.
    InvalidDigit,
    /// The number is larger than the type allows.
    TooLarge,
}

impl NumberError {
    pub open spec fn message(self) -> Seq<char> {
        match self {
            NumberError::Empty => "cannot parse integer from empty string"@,
            NumberError::InvalidDigit => "invalid digit found in string"@,
            NumberError::TooLarge => "number too large to fit in target type"@,
        }
    }

    /// The message shown to the user.
    pub fn to_text(self) -> (r: String)
        ensures
            r@ == self.message(),
    {
        match self {
            NumberError::Empty => "cannot parse integer from empty string".to_owned(),
            NumberError::InvalidDigit => "invalid digit found in string".to_owned(),
            NumberError::TooLarge => "number too large to fit in target type".to_owned(),
        }
    }
}

pub open spec fn is_digit(c: char) -> bool {
    '0' <= c <= '9'
}

pub open spec fn digit_value(c: char) -> nat {
    (c as u32 - '0' as u32) as nat
}

/// Reads the digits of `s` from the left, after the value `acc` of the digits already read. The
/// first character that is not a digit, or that takes the value above `max`, decides the error.
pub open spec fn read_digits(s: Seq<char>, acc: nat, max: nat) -> Result<nat, NumberError>
    decreases s.len(),
{
    if s.len() == 0 {
        Ok(acc)
    } else if !is_digit(s[0]) {
        Err(NumberError::InvalidDigit)
    } else if acc * 10 + digit_value(s[0]) > max {
        Err(NumberError::TooLarge)
    } else {
        read_digits(s.drop_first(), acc * 10 + digit_value(s[0]), max)
    }
}

/// The number that `s` writes: decimal digits, with at most one plus sign before them.
pub open spec fn number_of(s: Seq<char>, max: nat) -> Result<nat, NumberError> {
    if s.len() == 0 {
        Err(NumberError::Empty)
    } else if s[0] == '+' && s.len() > 1 {
        read_digits(s.drop_first(), 0, max)
    } else {
        read_digits(s, 0, max)
    }
}

/// The same result with the value as a machine integer.
pub open spec fn as_number(r: Result<u64, NumberError>) -> Result<nat, NumberError> {
    match r {
        Ok(n) => Ok(n as nat),
        Err(e) => Err(e),
    }
}

/// Reads a decimal number that is at most `max`.
pub fn parse_number(s: &str, max: u64) -> (r: Result<u64, NumberError>)
    ensures
        as_number(r) == number_of(s@, max as nat),
{
    let cs = characters(s);
    let n: usize = cs.len();
    if n == 0 {
        return Err(NumberError::Empty);
    }
    let mut at: usize = if cs[0] == '+' && n > 1 {
        1
    } else {
        0
    };
    let mut acc: u64 = 0;
    assert(s@.skip(0) == s@);
    assert(s@.skip(1) == s@.drop_first());
    while at < n
        invariant
            cs@ == s@,
            n == cs@.len(),
            at <= n,
            acc <= max,
            number_of(s@, max as nat) == read_digits(s@.skip(at as int), acc as nat, max as nat),
        decreases n - at,
    {
        let c = cs[at];
        let ghost rest = s@.skip(at as int);
        assert(rest[0] == c);
        assert(rest.drop_first() == s@.skip(at + 1));
        if !('0' <= c && c <= '9') {
            return Err(NumberError::InvalidDigit);
        }
        let d: u64 = (c as u32 - '0' as u32) as u64;
        if d > max || acc > max / 10 || acc * 10 > max - d {
            proof {
                assert(acc * 10 + d > max) by (nonlinear_arith)
                    requires
                        d > max || acc > max / 10 || acc * 10 > max - d,
                ;
            }
            return Err(NumberError::TooLarge);
        }
        acc = acc * 10 + d;
        at = at + 1;
    }
    assert(s@.skip(n as int).len() == 0);
    Ok(acc)
}

/// A number that was read is at most the limit.
pub proof fn lemma_number_bound(s: Seq<char>, max: nat)
    ensures
        number_of(s, max) matches Ok(n) ==> n <= max,
{
    lemma_read_bound(s, 0, max);
    lemma_read_bound(s.drop_first(), 0, max);
}

proof fn lemma_read_bound(s: Seq<char>, acc: nat, max: nat)
    requires
        acc <= max,
    ensures
        read_digits(s, acc, max) matches Ok(n) ==> n <= max,
    decreases s.len(),
{
    if s.len() > 0 && is_digit(s[0]) && acc * 10 + digit_value(s[0]) <= max {
        lemma_read_bound(s.drop_first(), acc * 10 + digit_value(s[0]), max);
    }
}

proof fn lemma_read_push(s: Seq<char>, c: char, acc: nat, max: nat)
    requires
        is_digit(c),
        read_digits(s, acc, max) is Ok,
        read_digits(s, acc, max)->Ok_0 * 10 + digit_value(c) <= max,
    ensures
        read_digits(s.push(c), acc, max) == Ok::<nat, NumberError>(
            read_digits(s, acc, max)->Ok_0 * 10 + digit_value(c),
        ),
    decreases s.len(),
{
    if s.len() == 0 {
        assert(s.push(c).drop_first() == s);
        reveal_with_fuel(read_digits, 2);
    } else {
        assert(s.push(c).drop_first() == s.drop_first().push(c));
        lemma_read_push(s.drop_first(), c, acc * 10 + digit_value(s[0]), max);
    }
}

/// The decimal digits of a number are digits, at least one.
pub proof fn lemma_decimal_digits(n: nat)
    ensures
        decimal(n).len() > 0,
        forall|i: int| 0 <= i < decimal(n).len() ==> is_digit(#[trigger] decimal(n)[i]),
    decreases n,
{
    if n >= 10 {
        lemma_decimal_digits(n / 10);
    }
}

proof fn lemma_read_decimal(n: nat, max: nat)
    requires
        n <= max,
    ensures
        read_digits(decimal(n), 0, max) == Ok::<nat, NumberError>(n),
    decreases n,
{
    if n < 10 {
        reveal_with_fuel(read_digits, 2);
        assert(decimal(n).drop_first().len() == 0);
    } else {
        lemma_read_decimal(n / 10, max);
        lemma_read_push(decimal(n / 10), digit_char(n % 10), 0, max);
    }
}

/// Reading back a number that was written in decimal gives that number.
pub proof fn law_decimal_round_trip(n: nat, max: nat)
    requires
        n <= max,
    ensures
        number_of(decimal(n), max) == Ok::<nat, NumberError>(n),
{
    lemma_read_decimal(n, max);
    lemma_decimal_digits(n);
    assert(is_digit(decimal(n)[0]));
}

/// A text without the separator is one piece; what stands before the first separator is the first piece,
/// and the pieces of the rest follow.
pub proof fn law_split_at_the_first(a: Seq<char>, b: Seq<char>, c: char)
    requires
        !a.contains(c),
    ensures
        split_of(a, c) == seq![a],
        split_of(a + seq![c] + b, c) == seq![a] + split_of(b, c),
{
    lemma_find(a, c);
    if find(a, c) < a.len() {
        assert(a.contains(a[find(a, c) as int]));
    }
    let s = a + seq![c] + b;
    lemma_find(s, c);
    assert(s[a.len() as int] == c);
    if find(s, c) < a.len() {
        assert(s[find(s, c) as int] == a[find(s, c) as int]);
        assert(a.contains(a[find(s, c) as int]));
    }
    assert(find(s, c) == a.len()) by {
        if find(s, c) > a.len() {
            assert(s[a.len() as int] != c);
        }
    }
    assert(s.take(a.len() as int) =~= a);
    assert(s.skip(a.len() as int + 1) =~= b);
}

/// Spaces, tabs and line ends are whitespace; the visible characters of ASCII are not.
pub proof fn law_visible_characters_are_no_whitespace(c: char)
    ensures
        c == ' ' || c == '\t' || c == '\n' || c == '\r' ==> is_whitespace(c),
        '!' <= c <= '~' ==> !is_whitespace(c),
{
}

/// The words of a text are cut at its whitespace and nowhere else: whitespace in front does not matter,
/// and a run of other characters that ends at whitespace or at the end is the first word.
pub proof fn law_words_are_cut_at_whitespace(w: Seq<char>, rest: Seq<char>, c: char, s: Seq<char>)
    requires
        w.len() > 0,
        forall|i: int| 0 <= i < w.len() ==> !is_whitespace(#[trigger] w[i]),
        rest.len() > 0 ==> is_whitespace(rest[0]),
        is_whitespace(c),
    ensures
        words_of(Seq::<char>::empty()).len() == 0,
        words_of(seq![c] + s) == words_of(s),
        words_of(w + rest) == seq![w] + words_of(rest),
{
    assert((seq![c] + s).drop_first() =~= s);
    let t = w + rest;
    assert(t[0] == w[0]);
    assert(trim_start_of(t) == t);
    lemma_word_at_front(w, rest);
    assert(t.take(w.len() as int) =~= w);
    assert(t.skip(w.len() as int) =~= rest);
}

proof fn lemma_word_at_front(w: Seq<char>, rest: Seq<char>)
    requires
        forall|i: int| 0 <= i < w.len() ==> !is_whitespace(#[trigger] w[i]),
        rest.len() > 0 ==> is_whitespace(rest[0]),
    ensures
        word_len(w + rest) == w.len(),
    decreases w.len(),
{
    let t = w + rest;
    if w.len() == 0 {
        assert(t =~= rest);
    } else {
        assert(t[0] == w[0]);
        let v = w.drop_first();
        assert forall|i: int| 0 <= i < v.len() implies !is_whitespace(#[trigger] v[i]) by {
            assert(v[i] == w[i + 1]);
        }
        lemma_word_at_front(v, rest);
        assert(t.drop_first() =~= v + rest);
    }
}

/// Whitespace at either end of a text does not matter once it is trimmed, and a text that has none at its
/// ends stays as it is.
pub proof fn law_trimming_takes_whitespace_off(s: Seq<char>, c: char)
    requires
        is_whitespace(c),
    ensures
        trimmed(seq![c] + s) == trimmed(s),
        trimmed(s.push(c)) == trimmed(s),
        s.len() > 0 && !is_whitespace(s[0]) && !is_whitespace(s.last()) ==> trimmed(s) == s,
        trimmed(Seq::<char>::empty()).len() == 0,
{
    assert((seq![c] + s).drop_first() =~= s);
    lemma_trim_start_push(s, c);
    let t = trim_start_of(s);
    if t.len() > 0 {
        assert(t.push(c).drop_last() =~= t);
    }
}

proof fn lemma_trim_start_push(s: Seq<char>, c: char)
    requires
        is_whitespace(c),
    ensures
        trim_start_of(s).len() > 0 ==> trim_start_of(s.push(c)) == trim_start_of(s).push(c),
        trim_start_of(s).len() == 0 ==> trim_start_of(s.push(c)).len() == 0,
    decreases s.len(),
{
    if s.len() == 0 {
        assert(s.push(c)[0] == c);
        assert(trim_start_of(s.push(c).drop_first()).len() == 0);
    } else if is_whitespace(s[0]) {
        lemma_trim_start_push(s.drop_first(), c);
        assert(s.push(c).drop_first() =~= s.drop_first().push(c));
    } else {
        assert(s.push(c)[0] == s[0]);
    }
}

/// A number is read digit by digit: one more digit makes it ten times as large and adds the digit, unless
/// it gets too large; anything else than a digit makes it no number. A plus sign in front does not
/// matter, and no character at all is no number.
pub proof fn law_numbers_are_read_in_decimal(s: Seq<char>, c: char, max: nat)
    ensures
        number_of(Seq::<char>::empty(), max) == Err::<nat, NumberError>(NumberError::Empty),
        '0' <= c <= '9' && c as u32 - '0' as u32 <= max ==> number_of(seq![c], max) == Ok::<
            nat,
            NumberError,
        >((c as u32 - '0' as u32) as nat),
        number_of(s, max) matches Ok(n) ==> {
            &&& n <= max
            &&& '0' <= c <= '9' && n * 10 + (c as u32 - '0' as u32) <= max ==> number_of(
                s.push(c),
                max,
            ) == Ok::<nat, NumberError>((n * 10 + (c as u32 - '0' as u32)) as nat)
            &&& '0' <= c <= '9' && n * 10 + (c as u32 - '0' as u32) > max ==> number_of(
                s.push(c),
                max,
            ) == Err::<nat, NumberError>(NumberError::TooLarge)
            &&& !('0' <= c <= '9') ==> number_of(s.push(c), max) == Err::<nat, NumberError>(
                NumberError::InvalidDigit,
            )
        },
        s.len() > 0 && s[0] != '+' ==> number_of(seq!['+'] + s, max) == number_of(s, max),
{
    lemma_number_bound(s, max);
    assert((seq!['+'] + s).drop_first() =~= s);
    if '0' <= c <= '9' && c as u32 - '0' as u32 <= max {
        assert(seq![c].drop_first().len() == 0);
        assert(read_digits(seq![c].drop_first(), digit_value(c), max) == Ok::<nat, NumberError>(
            digit_value(c),
        ));
        assert(0 * 10 + digit_value(c) == digit_value(c));
    }
    if number_of(s, max) is Ok {
        let t = if s[0] == '+' && s.len() > 1 {
            s.drop_first()
        } else {
            s
        };
        assert(s.push(c)[0] == s[0]);
        if s[0] == '+' {
            assert(s.len() > 1);
            assert(s.push(c).drop_first() =~= t.push(c));
        }
        lemma_read_one_more(t, c, 0, max);
    }
}

proof fn lemma_read_one_more(s: Seq<char>, c: char, acc: nat, max: nat)
    requires
        read_digits(s, acc, max) is Ok,
    ensures
        ({
            let n = read_digits(s, acc, max)->Ok_0;
            let r = read_digits(s.push(c), acc, max);
            &&& is_digit(c) && n * 10 + digit_value(c) <= max ==> r == Ok::<nat, NumberError>(
                n * 10 + digit_value(c),
            )
            &&& is_digit(c) && n * 10 + digit_value(c) > max ==> r == Err::<nat, NumberError>(
                NumberError::TooLarge,
            )
            &&& !is_digit(c) ==> r == Err::<nat, NumberError>(NumberError::InvalidDigit)
        }),
    decreases s.len(),
{
    if s.len() == 0 {
        assert(s.push(c)[0] == c);
        assert(s.push(c).drop_first().len() == 0);
        assert(read_digits(s.push(c).drop_first(), acc * 10 + digit_value(c), max) == Ok::<
            nat,
            NumberError,
        >(acc * 10 + digit_value(c)));
    } else {
        assert(s.push(c)[0] == s[0]);
        assert(s.push(c).drop_first() =~= s.drop_first().push(c));
        lemma_read_one_more(s.drop_first(), c, acc * 10 + digit_value(s[0]), max);
    }
}

} // verus!
