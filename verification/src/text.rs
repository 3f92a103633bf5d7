//! Text helpers shared by the installer and the interface: decimal rendering
//! of numbers, substring tests, prefix stripping, whitespace trimming and the
//! parsing of unsigned integers.
use vstd::prelude::*;

verus! {

/// The character of a decimal digit.
pub open spec fn digit_char(d: nat) -> char
    recommends
        d < 10,
{
    (d + 48) as char
}

/// The decimal representation of `n`, without sign or leading zeros.
pub open spec fn decimal(n: nat) -> Seq<char>
    decreases n,
{
    if n < 10 {
        seq![digit_char(n)]
    } else {
        decimal(n / 10).push(digit_char(n % 10))
    }
}

fn digit_str(d: u64) -> (s: &'static str)
    requires
        d < 10,
    ensures
        s@ == seq![digit_char(d as nat)],
{
    proof {
        reveal_strlit("0");
        reveal_strlit("1");
        reveal_strlit("2");
        reveal_strlit("3");
        reveal_strlit("4");
        reveal_strlit("5");
        reveal_strlit("6");
        reveal_strlit("7");
        reveal_strlit("8");
        reveal_strlit("9");
    }
    match d {
        0 => "0",
        1 => "1",
        2 => "2",
        3 => "3",
        4 => "4",
        5 => "5",
        6 => "6",
        7 => "7",
        8 => "8",
        _ => "9",
    }
}

/// Renders `n` in decimal, as `to_string` does.
pub fn u64_to_decimal(n: u64) -> (s: String)
    ensures
        s@ == decimal(n as nat),
    decreases n,
{
    if n < 10 {
        String::from_str(digit_str(n))
    } else {
        let mut s = u64_to_decimal(n / 10);
        s.append(digit_str(n % 10));
        s
    }
}

/// Whether `pat` occurs in `s` at position `i`.
pub open spec fn occurs_at(s: Seq<char>, pat: Seq<char>, i: int) -> bool {
    0 <= i && i + pat.len() <= s.len() && s.subrange(i, i + pat.len()) == pat
}

/// Whether `pat` occurs anywhere in `s`.
pub open spec fn contains_seq(s: Seq<char>, pat: Seq<char>) -> bool {
    exists|i: int| occurs_at(s, pat, i)
}

/// Whether `pat` occurs in `s` at `i`, checked character by character.
fn matches_at(s: &str, pat: &str, i: usize) -> (b: bool)
    requires
        i + pat@.len() <= s@.len(),
    ensures
        b == occurs_at(s@, pat@, i as int),
{
    let n = pat.unicode_len();
    let total = s.unicode_len();
    let mut k: usize = 0;
    while k < n
        invariant
            n == pat@.len(),
            total == s@.len(),
            i + n <= s@.len(),
            k <= n,
            forall|j: int| 0 <= j < k ==> s@[i + j] == pat@[j],
        decreases n - k,
    {
        if s.get_char(i + k) != pat.get_char(k) {
            assert(s@.subrange(i as int, i + n)[k as int] != pat@[k as int]);
            return false;
        }
        k = k + 1;
    }
    assert(s@.subrange(i as int, i + n) =~= pat@);
    true
}

/// Whether `pat` occurs in `s`, as `str::contains` answers for a string pattern.
pub fn contains_str(s: &str, pat: &str) -> (b: bool)
    ensures
        b == contains_seq(s@, pat@),
{
    let n = s.unicode_len();
    let m = pat.unicode_len();
    if m > n {
        assert forall|i: int| !occurs_at(s@, pat@, i) by {}
        return false;
    }
    if m == 0 {
        assert(occurs_at(s@, pat@, 0)) by {
            assert(s@.subrange(0, 0) =~= pat@);
        }
        return true;
    }
    let mut i: usize = 0;
    while i <= n - m
        invariant
            n == s@.len(),
            m == pat@.len(),
            0 < m <= n,
            i <= n - m + 1,
            forall|j: int| 0 <= j < i ==> !occurs_at(s@, pat@, j),
        decreases n - m + 1 - i,
    {
        if matches_at(s, pat, i) {
            return true;
        }
        i = i + 1;
    }
    assert forall|j: int| !occurs_at(s@, pat@, j) by {
        if 0 <= j && j + m <= n {
            assert(j < i);
        }
    }
    false
}

/// Whether two texts are equal, character by character.
pub fn str_eq(a: &str, b: &str) -> (r: bool)
    ensures
        r == (a@ == b@),
{
    if a.unicode_len() != b.unicode_len() {
        return false;
    }
    let r = matches_at(a, b, 0);
    assert(a@.subrange(0, a@.len() as int) =~= a@);
    r
}

/// Whether `s` begins with the character `c`.
pub fn starts_with_char(s: &str, c: char) -> (b: bool)
    ensures
        b == (s@.len() > 0 && s@[0] == c),
{
    if s.unicode_len() == 0 {
        false
    } else {
        s.get_char(0) == c
    }
}

/// `s` with every leading repetition of `pat` removed, as `str::trim_start_matches`
/// does with a string pattern.
pub open spec fn strip_prefixes(s: Seq<char>, pat: Seq<char>) -> Seq<char>
    decreases s.len(),
{
    if pat.len() > 0 && occurs_at(s, pat, 0) {
        strip_prefixes(s.subrange(pat.len() as int, s.len() as int), pat)
    } else {
        s
    }
}

proof fn lemma_strip_prefixes_from(s: Seq<char>, pat: Seq<char>, i: int)
    requires
        pat.len() > 0,
        0 <= i <= s.len(),
        strip_prefixes(s, pat) == strip_prefixes(s.subrange(i, s.len() as int), pat),
        occurs_at(s, pat, i),
    ensures
        strip_prefixes(s, pat) == strip_prefixes(s.subrange(i + pat.len(), s.len() as int), pat),
{
    let t = s.subrange(i, s.len() as int);
    assert(t.subrange(0, pat.len() as int) =~= s.subrange(i, i + pat.len()));
    assert(t.subrange(pat.len() as int, t.len() as int) =~= s.subrange(i + pat.len(), s.len() as int));
}

/// Removes every leading repetition of `pat` from `s`.
pub fn strip_prefixes_str<'a>(s: &'a str, pat: &str) -> (r: &'a str)
    ensures
        r@ == strip_prefixes(s@, pat@),
{
    let n = s.unicode_len();
    let m = pat.unicode_len();
    if m == 0 {
        return s;
    }
    let mut i: usize = 0;
    assert(s@.subrange(0, n as int) =~= s@);
    while m <= n - i && matches_at(s, pat, i)
        invariant
            n == s@.len(),
            m == pat@.len(),
            m > 0,
            i <= n,
            strip_prefixes(s@, pat@) == strip_prefixes(s@.subrange(i as int, n as int), pat@),
        decreases n - i,
    {
        proof {
            lemma_strip_prefixes_from(s@, pat@, i as int);
        }
        i = i + m;
    }
    let r = s.substring_char(i, n);
    proof {
        let t = s@.subrange(i as int, n as int);
        if i + m <= n {
            assert(t.subrange(0, m as int) =~= s@.subrange(i as int, i + m));
        }
    }
    r
}

/// Whether `c` has the Unicode `White_Space` property, as `char::is_whitespace` tells.
pub open spec fn is_whitespace(c: char) -> bool {
    ||| '\u{9}' <= c <= '\u{d}'
    ||| c == ' '
    ||| c == '\u{85}'
    ||| c == '\u{a0}'
    ||| c == '\u{1680}'
    ||| '\u{2000}' <= c <= '\u{200a}'
    ||| c == '\u{2028}'
    ||| c == '\u{2029}'
    ||| c == '\u{202f}'
    ||| c == '\u{205f}'
    ||| c == '\u{3000}'
}

/// Decides `is_whitespace`.
pub fn char_is_whitespace(c: char) -> (b: bool)
    ensures
        b == is_whitespace(c),
{
    ('\u{9}' <= c && c <= '\u{d}') || c == ' ' || c == '\u{85}' || c == '\u{a0}'
        || c == '\u{1680}' || ('\u{2000}' <= c && c <= '\u{200a}') || c == '\u{2028}'
        || c == '\u{2029}' || c == '\u{202f}' || c == '\u{205f}' || c == '\u{3000}'
}

/// `s` without its leading whitespace.
pub open spec fn trim_start(s: Seq<char>) -> Seq<char>
    decreases s.len(),
{
    if s.len() > 0 && is_whitespace(s[0]) {
        trim_start(s.drop_first())
    } else {
        s
    }
}

/// `s` without its trailing whitespace.
pub open spec fn trim_end(s: Seq<char>) -> Seq<char>
    decreases s.len(),
{
    if s.len() > 0 && is_whitespace(s.last()) {
        trim_end(s.drop_last())
    } else {
        s
    }
}

/// `s` without leading and trailing whitespace, as `str::trim` gives it.
pub open spec fn trim(s: Seq<char>) -> Seq<char> {
    trim_end(trim_start(s))
}

proof fn lemma_trim_start_at(s: Seq<char>, i: int)
    requires
        0 <= i <= s.len(),
        forall|j: int| 0 <= j < i ==> is_whitespace(s[j]),
        i == s.len() || !is_whitespace(s[i]),
    ensures
        trim_start(s) == s.subrange(i, s.len() as int),
    decreases i,
{
    if i == 0 {
        assert(s.subrange(0, s.len() as int) =~= s);
    } else {
        let t = s.drop_first();
        assert forall|j: int| 0 <= j < i - 1 implies is_whitespace(t[j]) by {
            assert(t[j] == s[j + 1]);
        }
        if i < s.len() {
            assert(t[i - 1] == s[i]);
        }
        lemma_trim_start_at(t, i - 1);
        assert(t.subrange(i - 1, t.len() as int) =~= s.subrange(i, s.len() as int));
    }
}

proof fn lemma_trim_end_at(s: Seq<char>, k: int)
    requires
        0 <= k <= s.len(),
        forall|j: int| k <= j < s.len() ==> is_whitespace(s[j]),
        k == 0 || !is_whitespace(s[k - 1]),
    ensures
        trim_end(s) == s.subrange(0, k),
    decreases s.len() - k,
{
    if k == s.len() {
        assert(s.subrange(0, k) =~= s);
    } else {
        let t = s.drop_last();
        assert forall|j: int| k <= j < t.len() implies is_whitespace(t[j]) by {
            assert(t[j] == s[j]);
        }
        if k > 0 {
            assert(t[k - 1] == s[k - 1]);
        }
        lemma_trim_end_at(t, k);
        assert(t.subrange(0, k) =~= s.subrange(0, k));
    }
}

/// Removes leading and trailing whitespace.
pub fn trim_str<'a>(s: &'a str) -> (r: &'a str)
    ensures
        r@ == trim(s@),
{
    let n = s.unicode_len();
    let mut i: usize = 0;
    while i < n && char_is_whitespace(s.get_char(i))
        invariant
            n == s@.len(),
            i <= n,
            forall|j: int| 0 <= j < i ==> is_whitespace(s@[j]),
        decreases n - i,
    {
        i = i + 1;
    }
    proof {
        lemma_trim_start_at(s@, i as int);
    }
    let mut k: usize = n;
    while k > i && char_is_whitespace(s.get_char(k - 1))
        invariant
            n == s@.len(),
            i <= k <= n,
            forall|j: int| k <= j < n ==> is_whitespace(s@[j]),
        decreases k,
    {
        k = k - 1;
    }
    let ghost t = s@.subrange(i as int, n as int);
    proof {
        assert forall|j: int| k - i <= j < t.len() implies is_whitespace(t[j]) by {
            assert(t[j] == s@[i + j]);
        }
        if k > i {
            assert(t[k - i - 1] == s@[k - 1]);
        }
        lemma_trim_end_at(t, k - i);
        assert(t.subrange(0, k - i) =~= s@.subrange(i as int, k as int));
    }
    s.substring_char(i, k)
}

/// Why a text is not an unsigned integer, in the order in which `u64::from_str` reports it.
#[derive(Debug, Clone, Copy, PartialEq, Eq, Structural)]
pub enum IntErrorKind {
    /// Nothing to parse.
    Empty,
    /// A character that is not a decimal digit.
    InvalidDigit,
    /// The digits name a number above `u64::MAX`.
    PosOverflow,
}

impl IntErrorKind {
    /// The message that `ParseIntError` displays for this kind.
    pub fn message(&self) -> (m: &'static str)
        ensures
            m@ == int_error_message(*self),
    {
        match self {
            IntErrorKind::Empty => "cannot parse integer from empty string",
            IntErrorKind::InvalidDigit => "invalid digit found in string",
            IntErrorKind::PosOverflow => "number too large to fit in target type",
        }
    }
}

/// The message of each kind of integer parse error.
pub open spec fn int_error_message(kind: IntErrorKind) -> Seq<char> {
    match kind {
        IntErrorKind::Empty => "cannot parse integer from empty string"@,
        IntErrorKind::InvalidDigit => "invalid digit found in string"@,
        IntErrorKind::PosOverflow => "number too large to fit in target type"@,
    }
}

/// Whether `c` is a decimal digit.
pub open spec fn is_digit(c: char) -> bool {
    '0' <= c <= '9'
}

/// Whether every character of `d` is a decimal digit.
pub open spec fn all_digits(d: Seq<char>) -> bool {
    forall|j: int| 0 <= j < d.len() ==> is_digit(#[trigger] d[j])
}

/// The number that a string of decimal digits names.
pub open spec fn digits_value(d: Seq<char>) -> int
    decreases d.len(),
{
    if d.len() == 0 {
        0
    } else {
        digits_value(d.drop_last()) * 10 + (d.last() as int - 48)
    }
}

/// The length of the longest prefix of `d` made of decimal digits.
pub open spec fn digit_run(d: Seq<char>) -> nat
    decreases d.len(),
{
    if d.len() == 0 || all_digits(d) {
        d.len()
    } else {
        digit_run(d.drop_last())
    }
}

/// What `u64::from_str` gives for a text: an optional `+`, then digits; the
/// first fault met from left to right decides the error.
pub open spec fn parse_u64(s: Seq<char>) -> Result<u64, IntErrorKind> {
    if s.len() == 0 {
        Err(IntErrorKind::Empty)
    } else if s.len() == 1 && (s[0] == '+' || s[0] == '-') {
        Err(IntErrorKind::InvalidDigit)
    } else {
        let d = if s[0] == '+' { s.drop_first() } else { s };
        let k = digit_run(d);
        if digits_value(d.take(k as int)) > u64::MAX {
            Err(IntErrorKind::PosOverflow)
        } else if k < d.len() {
            Err(IntErrorKind::InvalidDigit)
        } else {
            Ok(digits_value(d) as u64)
        }
    }
}

proof fn lemma_digit_run_prefix(d: Seq<char>)
    ensures
        digit_run(d) <= d.len(),
        all_digits(d.take(digit_run(d) as int)),
        digit_run(d) < d.len() ==> !is_digit(d[digit_run(d) as int]),
    decreases d.len(),
{
    if d.len() == 0 || all_digits(d) {
        assert(d.take(d.len() as int) =~= d);
    } else {
        let t = d.drop_last();
        lemma_digit_run_prefix(t);
        let k = digit_run(t);
        assert(t.take(k as int) =~= d.take(k as int));
        if k == t.len() {
            assert forall|j: int| 0 <= j < t.len() implies is_digit(d[j]) by {
                assert(t.take(k as int)[j] == d[j]);
            }
            if is_digit(d[k as int]) {
                assert forall|j: int| 0 <= j < d.len() implies is_digit(#[trigger] d[j]) by {
                    if j < t.len() {
                        assert(is_digit(d[j]));
                    }
                }
            }
        } else {
            assert(t[k as int] == d[k as int]);
        }
    }
}

proof fn lemma_digit_run_at_least(d: Seq<char>, j: int)
    requires
        0 <= j <= d.len(),
        all_digits(d.take(j)),
    ensures
        j <= digit_run(d),
    decreases d.len(),
{
    if d.len() == 0 || all_digits(d) {
    } else {
        if j == d.len() {
            assert(d.take(j) =~= d);
        }
        let t = d.drop_last();
        assert(t.take(j) =~= d.take(j));
        lemma_digit_run_at_least(t, j);
    }
}

proof fn lemma_digit_run_exact(d: Seq<char>, j: int)
    requires
        0 <= j < d.len(),
        all_digits(d.take(j)),
        !is_digit(d[j]),
    ensures
        digit_run(d) == j,
{
    lemma_digit_run_at_least(d, j);
    lemma_digit_run_prefix(d);
    if digit_run(d) > j {
        assert(d.take(digit_run(d) as int)[j] == d[j]);
    }
}

proof fn lemma_digits_value_monotone(d: Seq<char>, j: int, k: int)
    requires
        0 <= j <= k <= d.len(),
        all_digits(d.take(k)),
    ensures
        0 <= digits_value(d.take(j)) <= digits_value(d.take(k)),
    decreases k,
{
    if k == 0 {
        assert(d.take(j) =~= d.take(k));
    } else {
        assert(d.take(k).drop_last() =~= d.take(k - 1));
        assert(is_digit(d.take(k)[k - 1]));
        assert(d.take(k - 1) =~= d.take(k).take(k - 1));
        if j == k {
            lemma_digits_value_monotone(d, j - 1, k - 1);
        } else {
            lemma_digits_value_monotone(d, j, k - 1);
            lemma_digits_value_monotone(d, k - 1, k - 1);
        }
    }
}

/// Parses an unsigned integer as `u64::from_str` does.
pub fn parse_u64_str(s: &str) -> (r: Result<u64, IntErrorKind>)
    ensures
        r == parse_u64(s@),
{
    let n = s.unicode_len();
    if n == 0 {
        return Err(IntErrorKind::Empty);
    }
    let c0 = s.get_char(0);
    if n == 1 && (c0 == '+' || c0 == '-') {
        return Err(IntErrorKind::InvalidDigit);
    }
    let start: usize = if c0 == '+' { 1 } else { 0 };
    let ghost d = s@.subrange(start as int, n as int);
    assert(d =~= (if s@[0] == '+' { s@.drop_first() } else { s@ }));
    let mut acc: u64 = 0;
    let mut i: usize = start;
    assert(d.take(0) =~= Seq::<char>::empty());
    while i < n
        invariant
            n == s@.len(),
            start <= i <= n,
            start <= 1,
            d == s@.subrange(start as int, n as int),
            d == (if s@[0] == '+' { s@.drop_first() } else { s@ }),
            n > 0,
            !(n == 1 && (s@[0] == '+' || s@[0] == '-')),
            all_digits(d.take(i - start)),
            acc == digits_value(d.take(i - start)),
        decreases n - i,
    {
        let c = s.get_char(i);
        let ghost j = i - start;
        assert(d[j] == c);
        if !('0' <= c && c <= '9') {
            proof {
                lemma_digit_run_exact(d, j);
            }
            return Err(IntErrorKind::InvalidDigit);
        }
        let x: u64 = (c as u32 - 48) as u64;
        assert(d.take(j + 1).drop_last() =~= d.take(j));
        assert(all_digits(d.take(j + 1))) by {
            assert forall|q: int| 0 <= q < j + 1 implies is_digit(#[trigger] d.take(j + 1)[q]) by {
                if q < j {
                    assert(d.take(j + 1)[q] == d.take(j)[q]);
                }
            }
        }
        if acc > (u64::MAX - x) / 10 {
            proof {
                assert(digits_value(d.take(j + 1)) == acc * 10 + x);
                assert(acc * 10 + x > u64::MAX) by (nonlinear_arith)
                    requires
                        acc > (u64::MAX - x) / 10,
                        x <= 9,
                ;
                lemma_digit_run_at_least(d, j + 1);
                lemma_digit_run_prefix(d);
                lemma_digits_value_monotone(d, j + 1, digit_run(d) as int);
            }
            return Err(IntErrorKind::PosOverflow);
        }
        assert(acc * 10 + x <= u64::MAX) by (nonlinear_arith)
            requires
                acc <= (u64::MAX - x) / 10,
                x <= 9,
        ;
        acc = acc * 10 + x;
        i = i + 1;
    }
    proof {
        assert(d.take(d.len() as int) =~= d);
        assert(all_digits(d));
    }
    Ok(acc)
}

proof fn lemma_decimal_digits(n: nat)
    ensures
        decimal(n).len() > 0,
        all_digits(decimal(n)),
        digits_value(decimal(n)) == n,
    decreases n,
{
    if n >= 10 {
        lemma_decimal_digits(n / 10);
        let s = decimal(n);
        assert(s.drop_last() =~= decimal(n / 10));
        assert forall|j: int| 0 <= j < s.len() implies is_digit(#[trigger] s[j]) by {
            if j < s.len() - 1 {
                assert(s[j] == decimal(n / 10)[j]);
            }
        }
        assert((n / 10) * 10 + n % 10 == n) by (nonlinear_arith);
        assert(s.last() as int == n % 10 + 48);
        assert(digits_value(s) == digits_value(s.drop_last()) * 10 + (s.last() as int - 48));
        assert(digits_value(s.drop_last()) == n / 10);
    } else {
        let s = decimal(n);
        assert(s.drop_last() =~= Seq::<char>::empty());
        assert(s.last() as int == n + 48);
        assert(digits_value(s) == digits_value(s.drop_last()) * 10 + (s.last() as int - 48));
        assert(digits_value(Seq::<char>::empty()) == 0);
    }
}

/// Reading back a number written in decimal gives the number: `parse_u64`
/// undoes `decimal`, also after trimming.
pub proof fn lemma_parse_decimal(n: u64)
    ensures
        decimal(n as nat).len() > 0,
        !is_whitespace(decimal(n as nat)[0]),
        trim(decimal(n as nat)) == decimal(n as nat),
        parse_u64(decimal(n as nat)) == Ok::<u64, IntErrorKind>(n),
{
    let s = decimal(n as nat);
    lemma_decimal_digits(n as nat);
    assert(is_digit(s[0]));
    assert(is_digit(s.last()));
    assert(trim_start(s) == s);
    assert(trim_end(s) == s);
    assert(s.take(s.len() as int) =~= s);
}

} // verus!
