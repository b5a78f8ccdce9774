//! Character-level text utilities: character classes, scanning, trimming,
//! decimal numbers and substring counting, all over `Seq<char>` models.
use vstd::prelude::*;

verus! {

/// Unicode `White_Space` characters, the set that `char::is_whitespace` accepts.
pub open spec fn is_ws(c: char) -> bool {
    let v = c as u32;
    ||| 0x09 <= v <= 0x0D
    ||| v == 0x20
    ||| v == 0x85
    ||| v == 0xA0
    ||| v == 0x1680
    ||| 0x2000 <= v <= 0x200A
    ||| v == 0x2028
    ||| v == 0x2029
    ||| v == 0x202F
    ||| v == 0x205F
    ||| v == 0x3000
}

/// Severity glyphs that a diff-risk report puts in front of a finding.
pub open spec fn is_marker(c: char) -> bool {
    ||| c == '\u{1F6A8}'
    ||| c == '\u{26A0}'
    ||| c == '\u{FE0F}'
    ||| c == '\u{1F7E1}'
    ||| c == '\u{1F535}'
    ||| c == '\u{2705}'
    ||| c == '\u{1F525}'
}

pub open spec fn is_digit(c: char) -> bool {
    '0' <= c && c <= '9'
}

/// The classes of characters that the scanners below look for.
#[derive(Clone, Copy, PartialEq, Eq, Structural)]
pub enum CharClass {
    Whitespace,
    WhitespaceOrMarker,
    Digit,
    Newline,
    CloseBracket,
    Colon,
    ColonOrWhitespace,
}

pub open spec fn in_class(c: char, k: CharClass) -> bool {
    match k {
        CharClass::Whitespace => is_ws(c),
        CharClass::WhitespaceOrMarker => is_ws(c) || is_marker(c),
        CharClass::Digit => is_digit(c),
        CharClass::Newline => c == '\n',
        CharClass::CloseBracket => c == ']',
        CharClass::Colon => c == ':',
        CharClass::ColonOrWhitespace => c == ':' || is_ws(c),
    }
}

pub fn char_in_class(c: char, k: CharClass) -> (res: bool)
    ensures
        res == in_class(c, k),
{
    match k {
        CharClass::Whitespace => is_whitespace_char(c),
        CharClass::WhitespaceOrMarker => is_whitespace_char(c) || c == '\u{1F6A8}' || c == '\u{26A0}'
            || c == '\u{FE0F}' || c == '\u{1F7E1}' || c == '\u{1F535}' || c == '\u{2705}' || c
            == '\u{1F525}',
        CharClass::Digit => '0' <= c && c <= '9',
        CharClass::Newline => c == '\n',
        CharClass::CloseBracket => c == ']',
        CharClass::Colon => c == ':',
        CharClass::ColonOrWhitespace => c == ':' || is_whitespace_char(c),
    }
}

pub fn is_whitespace_char(c: char) -> (res: bool)
    ensures
        res == is_ws(c),
{
    let v = c as u32;
    (0x09 <= v && v <= 0x0D) || v == 0x20 || v == 0x85 || v == 0xA0 || v == 0x1680 || (0x2000 <= v
        && v <= 0x200A) || v == 0x2028 || v == 0x2029 || v == 0x202F || v == 0x205F || v == 0x3000
}

/// Number of leading characters of `s` whose membership in class `k` equals `want`.
/// With `want == true` this is the length of the leading run of class members; with
/// `want == false` it is the index of the first member (or `s.len()` when there is none).
pub open spec fn lead(s: Seq<char>, k: CharClass, want: bool) -> nat
    decreases s.len(),
{
    if s.len() > 0 && in_class(s[0], k) == want {
        1 + lead(s.drop_first(), k, want)
    } else {
        0
    }
}

/// Number of trailing whitespace characters of `s`.
pub open spec fn trail_ws(s: Seq<char>) -> nat
    decreases s.len(),
{
    if s.len() > 0 && is_ws(s.last()) {
        1 + trail_ws(s.drop_last())
    } else {
        0
    }
}

/// `s` without leading and trailing whitespace (`str::trim`).
pub open spec fn trim(s: Seq<char>) -> Seq<char> {
    let a = s.skip(lead(s, CharClass::Whitespace, true) as int);
    a.take(a.len() - trail_ws(a))
}

pub open spec fn starts_with(s: Seq<char>, p: Seq<char>) -> bool {
    p.len() <= s.len() && s.take(p.len() as int) == p
}

pub proof fn lemma_lead(s: Seq<char>, k: CharClass, want: bool, n: int)
    requires
        0 <= n <= s.len(),
        forall|j: int| 0 <= j < n ==> in_class(#[trigger] s[j], k) == want,
        n == s.len() || in_class(s[n], k) != want,
    ensures
        lead(s, k, want) == n,
    decreases n,
{
    if n > 0 {
        assert forall|j: int| 0 <= j < n - 1 implies in_class(
            #[trigger] s.drop_first()[j],
            k,
        ) == want by {
            assert(s.drop_first()[j] == s[j + 1]);
        }
        lemma_lead(s.drop_first(), k, want, n - 1);
    }
}

pub proof fn lemma_lead_bound(s: Seq<char>, k: CharClass, want: bool)
    ensures
        lead(s, k, want) <= s.len(),
        forall|j: int| 0 <= j < lead(s, k, want) ==> in_class(#[trigger] s[j], k) == want,
        lead(s, k, want) < s.len() ==> in_class(s[lead(s, k, want) as int], k) != want,
    decreases s.len(),
{
    if s.len() > 0 && in_class(s[0], k) == want {
        lemma_lead_bound(s.drop_first(), k, want);
        assert forall|j: int| 0 <= j < lead(s, k, want) implies in_class(#[trigger] s[j], k)
            == want by {
            if j > 0 {
                assert(s[j] == s.drop_first()[j - 1]);
            }
        }
    }
}

pub proof fn lemma_trail(s: Seq<char>, n: int)
    requires
        0 <= n <= s.len(),
        forall|j: int| s.len() - n <= j < s.len() ==> is_ws(#[trigger] s[j]),
        n == s.len() || !is_ws(s[s.len() - 1 - n]),
    ensures
        trail_ws(s) == n,
    decreases n,
{
    if n > 0 {
        let d = s.drop_last();
        assert forall|j: int| d.len() - (n - 1) <= j < d.len() implies is_ws(#[trigger] d[j]) by {
            assert(d[j] == s[j]);
        }
        if n - 1 < d.len() {
            assert(d[d.len() - 1 - (n - 1)] == s[s.len() - 1 - n]);
        }
        lemma_trail(d, n - 1);
    }
}

/// A leading run that covers all of `a` continues into `b`.
pub proof fn lemma_lead_all(a: Seq<char>, b: Seq<char>, k: CharClass, want: bool)
    requires
        forall|j: int| 0 <= j < a.len() ==> in_class(#[trigger] a[j], k) == want,
    ensures
        lead(a + b, k, want) == a.len() + lead(b, k, want),
{
    lemma_lead_bound(b, k, want);
    let s = a + b;
    let n = a.len() + lead(b, k, want);
    assert forall|j: int| 0 <= j < n implies in_class(#[trigger] s[j], k) == want by {
        if j < a.len() {
            assert(s[j] == a[j]);
        } else {
            assert(s[j] == b[j - a.len()]);
        }
    }
    if n < s.len() {
        assert(s[n as int] == b[lead(b, k, want) as int]);
    }
    lemma_lead(s, k, want, n as int);
}

pub open spec fn all_ws(s: Seq<char>) -> bool {
    forall|j: int| 0 <= j < s.len() ==> is_ws(#[trigger] s[j])
}

/// Text that neither starts nor ends with whitespace is its own trim.
pub proof fn lemma_trim_plain(x: Seq<char>)
    requires
        x.len() == 0 || (!is_ws(x[0]) && !is_ws(x.last())),
    ensures
        trim(x) == x,
{
    lemma_lead(x, CharClass::Whitespace, true, 0);
    assert(x.skip(0) =~= x);
    lemma_trail(x, 0);
    assert(x.take(x.len() as int) =~= x);
}

/// Leading whitespace is trimmed away.
pub proof fn lemma_trim_leading_ws(w: Seq<char>, x: Seq<char>)
    requires
        all_ws(w),
        x.len() == 0 || (!is_ws(x[0]) && !is_ws(x.last())),
    ensures
        trim(w + x) == x,
{
    lemma_lead_all(w, x, CharClass::Whitespace, true);
    lemma_lead(x, CharClass::Whitespace, true, 0);
    assert((w + x).skip(w.len() as int) =~= x);
    lemma_trail(x, 0);
    assert(x.take(x.len() as int) =~= x);
}

/// Trailing whitespace is trimmed away.
pub proof fn lemma_trim_trailing_ws(x: Seq<char>, w: Seq<char>)
    requires
        x.len() > 0,
        !is_ws(x[0]),
        !is_ws(x.last()),
        all_ws(w),
    ensures
        trim(x + w) == x,
{
    let s = x + w;
    assert(s[0] == x[0]);
    lemma_lead(s, CharClass::Whitespace, true, 0);
    assert(s.skip(0) =~= s);
    assert forall|j: int| s.len() - w.len() <= j < s.len() implies is_ws(#[trigger] s[j]) by {
        assert(s[j] == w[j - x.len()]);
    }
    assert(s[s.len() - 1 - w.len()] == x.last());
    lemma_trail(s, w.len() as int);
    assert(s.take(s.len() - w.len()) =~= x);
}

pub proof fn lemma_trail_bound(s: Seq<char>)
    ensures
        trail_ws(s) <= s.len(),
    decreases s.len(),
{
    if s.len() > 0 && is_ws(s.last()) {
        lemma_trail_bound(s.drop_last());
    }
}

/// Trimmed, non-empty text starts and ends with a non-whitespace character.
pub proof fn lemma_trimmed_ends(s: Seq<char>)
    requires
        trim(s) == s,
        s.len() > 0,
    ensures
        !is_ws(s[0]),
        !is_ws(s.last()),
{
    lemma_lead_bound(s, CharClass::Whitespace, true);
    let l = lead(s, CharClass::Whitespace, true);
    let a = s.skip(l as int);
    lemma_trail_bound(a);
    if is_ws(s[0]) {
        assert(l >= 1);
        assert(trim(s).len() < s.len());
    }
    if is_ws(s.last()) && l < s.len() {
        assert(a.last() == s.last());
        assert(trail_ws(a) >= 1);
        assert(trim(s).len() < s.len());
    }
}

/// Scans `cs[lo..hi]` for its leading run of characters whose class membership is `want`.
pub fn lead_in(cs: &Vec<char>, lo: usize, hi: usize, k: CharClass, want: bool) -> (r: usize)
    requires
        lo <= hi <= cs@.len(),
    ensures
        lo <= r <= hi,
        r - lo == lead(cs@.subrange(lo as int, hi as int), k, want),
{
    let ghost s = cs@.subrange(lo as int, hi as int);
    let mut i = lo;
    while i < hi
        invariant
            lo <= i <= hi <= cs@.len(),
            s == cs@.subrange(lo as int, hi as int),
            forall|j: int| 0 <= j < i - lo ==> in_class(#[trigger] s[j], k) == want,
        decreases hi - i,
    {
        if char_in_class(cs[i], k) != want {
            proof {
                assert(s[i - lo] == cs@[i as int]);
                lemma_lead(s, k, want, i - lo);
            }
            return i;
        }
        assert(s[i - lo] == cs@[i as int]);
        i = i + 1;
    }
    proof {
        lemma_lead(s, k, want, i - lo);
    }
    i
}

/// Start of the trailing whitespace run of `cs[lo..hi]`.
pub fn trail_in(cs: &Vec<char>, lo: usize, hi: usize) -> (r: usize)
    requires
        lo <= hi <= cs@.len(),
    ensures
        lo <= r <= hi,
        hi - r == trail_ws(cs@.subrange(lo as int, hi as int)),
{
    let ghost s = cs@.subrange(lo as int, hi as int);
    let mut i = hi;
    while i > lo
        invariant
            lo <= i <= hi <= cs@.len(),
            s == cs@.subrange(lo as int, hi as int),
            forall|j: int| i - lo <= j < s.len() ==> is_ws(#[trigger] s[j]),
        decreases i - lo,
    {
        if !is_whitespace_char(cs[i - 1]) {
            proof {
                assert(s[i - 1 - lo] == cs@[i - 1]);
                lemma_trail(s, (hi - i) as int);
            }
            return i;
        }
        assert(s[i - 1 - lo] == cs@[i - 1]);
        i = i - 1;
    }
    proof {
        lemma_trail(s, (hi - i) as int);
    }
    i
}

/// `cs[lo..hi]` without surrounding whitespace, as a subrange `cs[a..b]`.
pub fn trim_in(cs: &Vec<char>, lo: usize, hi: usize) -> (r: (usize, usize))
    requires
        lo <= hi <= cs@.len(),
    ensures
        lo <= r.0 <= r.1 <= hi,
        cs@.subrange(r.0 as int, r.1 as int) == trim(cs@.subrange(lo as int, hi as int)),
{
    let a = lead_in(cs, lo, hi, CharClass::Whitespace, true);
    let b = trail_in(cs, a, hi);
    proof {
        let s = cs@.subrange(lo as int, hi as int);
        let t = s.skip(lead(s, CharClass::Whitespace, true) as int);
        assert(t =~= cs@.subrange(a as int, hi as int));
        assert(t.take(t.len() - trail_ws(t)) =~= cs@.subrange(a as int, b as int));
    }
    (a, b)
}

/// Whether `cs[lo..hi]` begins with `p`.
pub fn starts_with_in(cs: &Vec<char>, lo: usize, hi: usize, p: &Vec<char>) -> (res: bool)
    requires
        lo <= hi <= cs@.len(),
    ensures
        res == starts_with(cs@.subrange(lo as int, hi as int), p@),
{
    let ghost s = cs@.subrange(lo as int, hi as int);
    if p.len() > hi - lo {
        return false;
    }
    let mut i: usize = 0;
    while i < p.len()
        invariant
            p@.len() <= hi - lo,
            lo <= hi <= cs@.len(),
            s == cs@.subrange(lo as int, hi as int),
            i <= p@.len(),
            forall|j: int| 0 <= j < i ==> s[j] == p@[j],
        decreases p@.len() - i,
    {
        if cs[lo + i] != p[i] {
            assert(s.take(p@.len() as int)[i as int] != p@[i as int]);
            return false;
        }
        i = i + 1;
    }
    assert(s.take(p@.len() as int) =~= p@);
    true
}

/// Whether `cs[lo..hi]` equals `p`.
pub fn equals_in(cs: &Vec<char>, lo: usize, hi: usize, p: &Vec<char>) -> (res: bool)
    requires
        lo <= hi <= cs@.len(),
    ensures
        res == (cs@.subrange(lo as int, hi as int) == p@),
{
    let b = starts_with_in(cs, lo, hi, p);
    proof {
        let s = cs@.subrange(lo as int, hi as int);
        if s == p@ {
            assert(s.take(p@.len() as int) =~= s);
        }
        if b && p@.len() == s.len() {
            assert(s.take(p@.len() as int) =~= s);
        }
    }
    b && p.len() == hi - lo
}

/// The characters of `s`.
pub fn chars_of(s: &str) -> (res: Vec<char>)
    ensures
        res@ == s@,
{
    let mut v: Vec<char> = Vec::new();
    for c in it: s.chars()
        invariant
            v@ == it.seq().take(it.index() as int),
    {
        v.push(c);
    }
    v
}

/// The text of `cs[lo..hi]` as a `String`, where `cs` holds the characters of `text`.
pub fn slice_string(text: &str, cs: &Vec<char>, lo: usize, hi: usize) -> (res: String)
    requires
        cs@ == text@,
        lo <= hi <= cs@.len(),
    ensures
        res@ == cs@.subrange(lo as int, hi as int),
{
    String::from_str(text.substring_char(lo, hi))
}

// ---- decimal numbers ----
pub open spec fn digit_value(c: char) -> int {
    c as int - '0' as int
}

/// The number that a run of decimal digits denotes.
pub open spec fn digits_value(s: Seq<char>) -> nat
    decreases s.len(),
{
    if s.len() == 0 {
        0
    } else {
        (digits_value(s.drop_last()) * 10 + digit_value(s.last())) as nat
    }
}

pub open spec fn all_digits(s: Seq<char>) -> bool {
    forall|j: int| 0 <= j < s.len() ==> is_digit(#[trigger] s[j])
}

/// The line number that a run of digits gives: its value, or 1 when the run is empty or
/// does not fit in a `u32` (`str::parse::<u32>().unwrap_or(1)`).
pub open spec fn line_number(s: Seq<char>) -> u32 {
    if s.len() == 0 || digits_value(s) > u32::MAX {
        1
    } else {
        digits_value(s) as u32
    }
}

pub open spec fn digit_char(d: nat) -> char {
    if d == 0 {
        '0'
    } else if d == 1 {
        '1'
    } else if d == 2 {
        '2'
    } else if d == 3 {
        '3'
    } else if d == 4 {
        '4'
    } else if d == 5 {
        '5'
    } else if d == 6 {
        '6'
    } else if d == 7 {
        '7'
    } else if d == 8 {
        '8'
    } else {
        '9'
    }
}

/// Decimal representation of `n`, without leading zeros.
pub open spec fn decimal(n: nat) -> Seq<char>
    decreases n,
{
    if n < 10 {
        seq![digit_char(n)]
    } else {
        decimal(n / 10).push(digit_char(n % 10))
    }
}

pub proof fn lemma_digits_value_monotone(s: Seq<char>)
    requires
        s.len() > 0,
        all_digits(s),
    ensures
        digits_value(s) >= digits_value(s.drop_last()),
{
    assert(is_digit(s[s.len() - 1]));
}

pub proof fn lemma_digits_value_prefix(s: Seq<char>, m: int)
    requires
        0 <= m <= s.len(),
        all_digits(s),
    ensures
        digits_value(s) >= digits_value(s.take(m)),
    decreases s.len() - m,
{
    if m < s.len() {
        let u = s.take(m + 1);
        assert(u.drop_last() =~= s.take(m));
        assert forall|j: int| 0 <= j < u.len() implies is_digit(#[trigger] u[j]) by {
            assert(u[j] == s[j]);
        }
        lemma_digits_value_monotone(u);
        lemma_digits_value_prefix(s, m + 1);
    } else {
        assert(s.take(m) =~= s);
    }
}

pub proof fn lemma_digit_char(d: nat)
    requires
        d < 10,
    ensures
        digit_value(digit_char(d)) == d,
        is_digit(digit_char(d)),
{
}

/// Reading back a number's decimal form gives the number.
pub proof fn law_decimal_reads_back(n: nat)
    ensures
        digits_value(decimal(n)) == n,
        all_digits(decimal(n)),
        decimal(n).len() > 0,
    decreases n,
{
    lemma_digit_char(n % 10);
    if n < 10 {
        assert(decimal(n).drop_last() =~= Seq::<char>::empty());
        assert(decimal(n).last() == digit_char(n));
        assert(digits_value(decimal(n)) == digits_value(decimal(n).drop_last()) * 10 + digit_value(decimal(n).last()));
    } else {
        law_decimal_reads_back(n / 10);
        let d = decimal(n);
        assert(d.drop_last() =~= decimal(n / 10));
        assert(d.last() == digit_char(n % 10));
        assert(n == (n / 10) * 10 + n % 10);
        assert(digits_value(d.drop_last()) == n / 10);
        assert(digit_value(d.last()) == n % 10);
        assert(digits_value(d) == digits_value(d.drop_last()) * 10 + digit_value(d.last()));
        assert forall|j: int| 0 <= j < d.len() implies is_digit(#[trigger] d[j]) by {
            if j < d.len() - 1 {
                assert(d[j] == decimal(n / 10)[j]);
            }
        }
    }
}

/// A line number printed in decimal (as a report line shows it) is read back as the
/// same line number.
pub proof fn law_line_number_reads_back(n: u32)
    ensures
        line_number(decimal(n as nat)) == n,
{
    law_decimal_reads_back(n as nat);
}

/// Value of the digit run `cs[lo..hi]` as a line number (see `line_number`).
pub fn line_number_in(cs: &Vec<char>, lo: usize, hi: usize) -> (res: u32)
    requires
        lo <= hi <= cs@.len(),
        all_digits(cs@.subrange(lo as int, hi as int)),
    ensures
        res == line_number(cs@.subrange(lo as int, hi as int)),
{
    let ghost s = cs@.subrange(lo as int, hi as int);
    if lo == hi {
        return 1;
    }
    let mut value: u64 = 0;
    let mut i = lo;
    while i < hi
        invariant
            lo <= i <= hi <= cs@.len(),
            s == cs@.subrange(lo as int, hi as int),
            all_digits(s),
            value == digits_value(s.take(i - lo)),
            value <= u32::MAX,
        decreases hi - i,
    {
        let c = cs[i];
        assert(s[i - lo] == c);
        assert(is_digit(s[i - lo]));
        let d = (c as u32 - '0' as u32) as u64;
        let ghost t = s.take(i - lo + 1);
        assert(t.drop_last() =~= s.take(i - lo));
        assert(t.last() == c);
        let next = value * 10 + d;
        assert(next == digits_value(t));
        if next > 0xFFFF_FFFF {
            proof {
                lemma_digits_value_prefix(s, i - lo + 1);
                assert(s.take(s.len() as int) =~= s);
            }
            return 1;
        }
        value = next;
        i = i + 1;
    }
    assert(s.take(hi - lo) =~= s);
    value as u32
}

fn digit_str(d: u64) -> (res: &'static str)
    requires
        d < 10,
    ensures
        res@ == seq![digit_char(d as nat)],
{
    proof {
        reveal_strlit("0");
        reveal_strlit("1");
        reveal_strlit("2");
        reveal_strlit("3");
        reveal_strlit("4");
        reveal_strlit("5");
        reveal_strlit("6");
        reveal_strlit("7");
        reveal_strlit("8");
        reveal_strlit("9");
    }
    if d == 0 {
        assert("0"@ =~= seq![digit_char(0)]);
        "0"
    } else if d == 1 {
        assert("1"@ =~= seq![digit_char(1)]);
        "1"
    } else if d == 2 {
        assert("2"@ =~= seq![digit_char(2)]);
        "2"
    } else if d == 3 {
        assert("3"@ =~= seq![digit_char(3)]);
        "3"
    } else if d == 4 {
        assert("4"@ =~= seq![digit_char(4)]);
        "4"
    } else if d == 5 {
        assert("5"@ =~= seq![digit_char(5)]);
        "5"
    } else if d == 6 {
        assert("6"@ =~= seq![digit_char(6)]);
        "6"
    } else if d == 7 {
        assert("7"@ =~= seq![digit_char(7)]);
        "7"
    } else if d == 8 {
        assert("8"@ =~= seq![digit_char(8)]);
        "8"
    } else {
        assert("9"@ =~= seq![digit_char(9)]);
        "9"
    }
}

/// Appends the decimal form of `n` to `out`.
pub fn push_decimal(out: &mut String, n: u64)
    ensures
        final(out)@ == old(out)@ + decimal(n as nat),
    decreases n,
{
    if n < 10 {
        out.append(digit_str(n));
    } else {
        push_decimal(out, n / 10);
        out.append(digit_str(n % 10));
        assert(decimal(n as nat) =~= decimal((n / 10) as nat).push(digit_char((n % 10) as nat)));
    }
}

/// The decimal form of `n` (`n.to_string()`).
pub fn decimal_string(n: u64) -> (res: String)
    ensures
        res@ == decimal(n as nat),
{
    let mut s = String::new();
    push_decimal(&mut s, n);
    assert(s@ =~= decimal(n as nat));
    s
}

// ---- counting occurrences ----
/// Number of non-overlapping occurrences of `p` in `s`, found from the left (`str::matches`).
pub open spec fn count_matches(s: Seq<char>, p: Seq<char>) -> nat
    decreases s.len(),
{
    if p.len() == 0 || s.len() < p.len() {
        0
    } else if s.take(p.len() as int) == p {
        1 + count_matches(s.skip(p.len() as int), p)
    } else {
        count_matches(s.drop_first(), p)
    }
}

pub fn count_matches_in(cs: &Vec<char>, p: &Vec<char>) -> (res: usize)
    requires
        p@.len() > 0,
    ensures
        res == count_matches(cs@, p@),
{
    let mut i: usize = 0;
    let mut count: usize = 0;
    assert(cs@.skip(0) =~= cs@);
    while i < cs.len()
        invariant
            0 < p@.len(),
            i <= cs@.len(),
            count <= i,
            count + count_matches(cs@.skip(i as int), p@) == count_matches(cs@, p@),
        decreases cs@.len() - i,
    {
        let ghost rest = cs@.skip(i as int);
        if cs.len() - i < p.len() {
            assert(count_matches(rest, p@) == 0);
            return count;
        }
        if starts_with_in(cs, i, cs.len(), p) {
            assert(cs@.subrange(i as int, cs@.len() as int) =~= rest);
            assert(rest.skip(p@.len() as int) =~= cs@.skip(i + p@.len()));
            count = count + 1;
            i = i + p.len();
        } else {
            assert(cs@.subrange(i as int, cs@.len() as int) =~= rest);
            assert(rest.drop_first() =~= cs@.skip(i + 1));
            i = i + 1;
        }
    }
    assert(count_matches(cs@.skip(i as int), p@) == 0);
    count
}

} // verus!
