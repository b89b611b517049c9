//! Character-level text handling: decimal numerals (printing and parsing),
//! whitespace trimming and substring search.
use vstd::prelude::*;

verus! {

// ---------------------------------------------------------------------------
// Decimal digits
// ---------------------------------------------------------------------------

/// `c` is one of the ASCII digits `0`..=`9`.
pub open spec fn is_ascii_digit(c: char) -> bool {
    48 <= c as int <= 57
}

/// The value of an ASCII digit.
pub open spec fn digit_value(c: char) -> int {
    c as int - 48
}

/// The ASCII digit for a value below ten.
pub open spec fn digit_char(d: int) -> char {
    if d == 0 {
        '0'
    } else if d == 1 {
        '1'
    } else if d == 2 {
        '2'
    } else if d == 3 {
        '3'
    } else if d == 4 {
        '4'
    } else if d == 5 {
        '5'
    } else if d == 6 {
        '6'
    } else if d == 7 {
        '7'
    } else if d == 8 {
        '8'
    } else {
        '9'
    }
}

/// Every character of `s` is an ASCII digit.
pub open spec fn all_digits(s: Seq<char>) -> bool {
    forall|i: int| 0 <= i < s.len() ==> #[trigger] is_ascii_digit(s[i])
}

/// The number that a string of digits denotes, most significant digit first.
pub open spec fn digits_value(s: Seq<char>) -> nat
    decreases s.len(),
{
    if s.len() == 0 {
        0
    } else {
        (digits_value(s.drop_last()) * 10 + digit_value(s.last())) as nat
    }
}

/// The shortest decimal numeral of `n`.
pub open spec fn decimal(n: nat) -> Seq<char>
    decreases n,
{
    if n < 10 {
        seq![digit_char(n as int)]
    } else {
        decimal(n / 10).push(digit_char((n % 10) as int))
    }
}

/// `n` written in decimal and filled with leading zeros up to `width` characters
/// (the numeral itself is never cut).
pub open spec fn zero_padded(n: nat, width: nat) -> Seq<char> {
    let d = decimal(n);
    if d.len() < width {
        Seq::new((width - d.len()) as nat, |i: int| '0') + d
    } else {
        d
    }
}

/// A signed integer in decimal, with a leading `-` when negative.
pub open spec fn signed_decimal(n: int) -> Seq<char> {
    if n < 0 {
        seq!['-'] + decimal((-n) as nat)
    } else {
        decimal(n as nat)
    }
}

/// The digits of a numeral for an unsigned integer: an optional leading `+` is dropped.
pub open spec fn unsigned_body(s: Seq<char>) -> Seq<char> {
    if s.len() > 0 && s[0] == '+' {
        s.drop_first()
    } else {
        s
    }
}

/// What parsing `s` as an unsigned integer of at most `max` gives: an optional
/// `+`, then one or more ASCII digits whose value does not exceed `max`.
/// Anything else (empty text, a sign alone, `-`, spaces, other characters,
/// an overflowing value) is rejected.
pub open spec fn parse_unsigned(s: Seq<char>, max: nat) -> Option<nat> {
    let d = unsigned_body(s);
    if d.len() > 0 && all_digits(d) && digits_value(d) <= max {
        Some(digits_value(d))
    } else {
        None
    }
}

proof fn lemma_digit_char(d: int)
    requires
        0 <= d < 10,
    ensures
        is_ascii_digit(digit_char(d)),
        digit_value(digit_char(d)) == d,
        digit_char(d) != '+',
{
}

/// The numeral of `n` is a nonempty string of digits whose value is `n`.
pub proof fn lemma_decimal(n: nat)
    ensures
        decimal(n).len() > 0,
        all_digits(decimal(n)),
        digits_value(decimal(n)) == n,
        decimal(n)[0] != '+',
    decreases n,
{
    if n < 10 {
        lemma_digit_char(n as int);
        assert(decimal(n).drop_last() =~= Seq::<char>::empty());
        assert(digits_value(decimal(n).drop_last()) == 0);
    } else {
        lemma_decimal(n / 10);
        lemma_digit_char((n % 10) as int);
        assert((n / 10) * 10 + n % 10 == n) by (nonlinear_arith);
        let d = decimal(n);
        assert(d.drop_last() =~= decimal(n / 10));
        assert(d.last() == digit_char((n % 10) as int));
        assert(digits_value(d) == digits_value(decimal(n / 10)) * 10 + (n % 10));
        assert forall|i: int| 0 <= i < d.len() implies #[trigger] is_ascii_digit(d[i]) by {
            if i < d.len() - 1 {
                assert(d[i] == decimal(n / 10)[i]);
            }
        }
    }
}

/// Reading back the numeral of `n` gives `n`, for every bound that `n` respects.
pub proof fn lemma_parse_decimal(n: nat, max: nat)
    requires
        n <= max,
    ensures
        parse_unsigned(decimal(n), max) == Some(n),
{
    lemma_decimal(n);
}

proof fn lemma_zeros_value(k: nat)
    ensures
        all_digits(Seq::new(k, |i: int| '0')),
        digits_value(Seq::new(k, |i: int| '0')) == 0,
    decreases k,
{
    if k > 0 {
        lemma_zeros_value((k - 1) as nat);
        assert(Seq::new(k, |i: int| '0').drop_last() =~= Seq::new((k - 1) as nat, |i: int| '0'));
    }
}

proof fn lemma_leading_zeros_value(k: nat, s: Seq<char>)
    ensures
        digits_value(Seq::new(k, |i: int| '0') + s) == digits_value(s),
    decreases s.len(),
{
    let z = Seq::new(k, |i: int| '0');
    if s.len() == 0 {
        assert(z + s =~= z);
        lemma_zeros_value(k);
    } else {
        lemma_leading_zeros_value(k, s.drop_last());
        assert((z + s).drop_last() =~= z + s.drop_last());
    }
}

/// A zero-padded numeral is a string of digits that still denotes `n`.
pub proof fn lemma_zero_padded(n: nat, width: nat)
    ensures
        all_digits(zero_padded(n, width)),
        digits_value(zero_padded(n, width)) == n,
        zero_padded(n, width).len() == if decimal(n).len() < width {
            width as int
        } else {
            decimal(n).len() as int
        },
{
    lemma_decimal(n);
    let d = decimal(n);
    if d.len() < width {
        let z = Seq::new((width - d.len()) as nat, |i: int| '0');
        lemma_leading_zeros_value((width - d.len()) as nat, d);
        assert forall|i: int| 0 <= i < (z + d).len() implies #[trigger] is_ascii_digit(
            (z + d)[i],
        ) by {
            if i >= z.len() {
                assert((z + d)[i] == d[i - z.len()]);
            }
        }
    }
}

/// A numeral of `n` has at most `k` characters when `n` is below `10^k`; stated
/// here for the small widths that fixed-width fields use.
pub proof fn lemma_decimal_len_bound(n: nat)
    ensures
        n < 10 ==> decimal(n).len() == 1,
        10 <= n < 100 ==> decimal(n).len() == 2,
        100 <= n < 1000 ==> decimal(n).len() == 3,
        1000 <= n < 10000 ==> decimal(n).len() == 4,
    decreases n,
{
    if n >= 10 {
        lemma_decimal_len_bound(n / 10);
    }
}

/// A number below `10^k` has a numeral of at most `k` characters.
pub proof fn lemma_decimal_len_le(n: nat, k: nat)
    requires
        k >= 1,
        n < pow10(k),
    ensures
        decimal(n).len() <= k,
    decreases k,
{
    if n >= 10 {
        if k == 1 {
            assert(pow10(1) == 10 * pow10(0));
        } else {
            assert(pow10(k) == 10 * pow10((k - 1) as nat));
            assert(n / 10 < pow10((k - 1) as nat)) by (nonlinear_arith)
                requires
                    n < 10 * pow10((k - 1) as nat),
            ;
            lemma_decimal_len_le(n / 10, (k - 1) as nat);
        }
    }
}

proof fn lemma_value_grows(t: Seq<char>, k: int)
    requires
        0 <= k <= t.len(),
        all_digits(t),
    ensures
        digits_value(t) >= digits_value(t.take(k)),
    decreases t.len() - k,
{
    if k < t.len() {
        let u = t.drop_last();
        assert(all_digits(u)) by {
            assert forall|i: int| 0 <= i < u.len() implies #[trigger] is_ascii_digit(u[i]) by {
                assert(u[i] == t[i]);
            }
        }
        lemma_value_grows(u, k);
        assert(u.take(k) =~= t.take(k));
        assert(is_ascii_digit(t[t.len() - 1]));
    } else {
        assert(t.take(k) =~= t);
    }
}


// ---------------------------------------------------------------------------
// Text order
// ---------------------------------------------------------------------------

/// `a` sorts before `b` or equals it, comparing character by character as
/// text comparison does (a proper prefix sorts first).
pub open spec fn text_le(a: Seq<char>, b: Seq<char>) -> bool {
    exists|i: int|
        0 <= i <= a.len() && i <= b.len() && #[trigger] a.take(i) == b.take(i) && (i == a.len() || (
        i < b.len() && (a[i] as int) < (b[i] as int)))
}

/// `x` and `y` first differ at a position inside both, where `x` has the
/// smaller character.
pub open spec fn differs_lower(x: Seq<char>, y: Seq<char>) -> bool {
    exists|j: int|
        0 <= j < x.len() && j < y.len() && #[trigger] x.take(j) == y.take(j) && (x[j] as int) < (
        y[j] as int)
}

/// A text is ordered with itself.
pub proof fn lemma_text_le_refl(a: Seq<char>)
    ensures
        text_le(a, a),
{
    assert(a.take(a.len() as int) == a.take(a.len() as int));
}

/// A difference inside the first parts decides the order of longer texts.
pub proof fn lemma_differs_lower_extend(x: Seq<char>, y: Seq<char>, u: Seq<char>, v: Seq<char>)
    requires
        differs_lower(x, y),
    ensures
        differs_lower(x + u, y + v),
        text_le(x + u, y + v),
{
    let j = choose|j: int|
        0 <= j < x.len() && j < y.len() && #[trigger] x.take(j) == y.take(j) && (x[j] as int) < (
        y[j] as int);
    assert((x + u).take(j) =~= x.take(j));
    assert((y + v).take(j) =~= y.take(j));
    assert((x + u)[j] == x[j]);
    assert((y + v)[j] == y[j]);
}

/// A common beginning keeps the order of what follows it.
pub proof fn lemma_text_le_prepend(x: Seq<char>, u: Seq<char>, v: Seq<char>)
    requires
        text_le(u, v),
    ensures
        text_le(x + u, x + v),
{
    let i = choose|i: int|
        0 <= i <= u.len() && i <= v.len() && #[trigger] u.take(i) == v.take(i) && (i == u.len() || (
        i < v.len() && (u[i] as int) < (v[i] as int)));
    let k = x.len() + i;
    assert((x + u).take(k) =~= x + u.take(i));
    assert((x + v).take(k) =~= x + v.take(i));
    if i < u.len() {
        assert((x + u)[k] == u[i]);
        assert((x + v)[k] == v[i]);
    }
}

proof fn lemma_digits_drop_last(a: Seq<char>)
    requires
        a.len() > 0,
        all_digits(a),
    ensures
        all_digits(a.drop_last()),
        is_ascii_digit(a.last()),
{
    assert forall|i: int| 0 <= i < a.drop_last().len() implies #[trigger] is_ascii_digit(
        a.drop_last()[i],
    ) by {
        assert(a.drop_last()[i] == a[i]);
    }
    assert(is_ascii_digit(a[a.len() - 1]));
}

/// For digit strings of one length, a smaller value is a smaller text, and
/// equal values are equal texts.
pub proof fn lemma_digits_order(a: Seq<char>, b: Seq<char>)
    requires
        a.len() == b.len(),
        all_digits(a),
        all_digits(b),
    ensures
        digits_value(a) < digits_value(b) ==> differs_lower(a, b),
        digits_value(a) == digits_value(b) ==> a == b,
    decreases a.len(),
{
    if a.len() == 0 {
        assert(a =~= b);
    } else {
        let a1 = a.drop_last();
        let b1 = b.drop_last();
        lemma_digits_drop_last(a);
        lemma_digits_drop_last(b);
        lemma_digits_order(a1, b1);
        let n = a.len() - 1;
        let da = digit_value(a.last());
        let db = digit_value(b.last());
        assert(digits_value(a) == digits_value(a1) * 10 + da);
        assert(digits_value(b) == digits_value(b1) * 10 + db);
        if digits_value(a1) < digits_value(b1) {
            let j = choose|j: int|
                0 <= j < a1.len() && j < b1.len() && #[trigger] a1.take(j) == b1.take(j) && (
                a1[j] as int) < (b1[j] as int);
            assert(a.take(j) =~= a1.take(j));
            assert(b.take(j) =~= b1.take(j));
            assert(a[j] == a1[j]);
            assert(b[j] == b1[j]);
            assert(digits_value(a) < digits_value(b));
        } else if digits_value(a1) == digits_value(b1) {
            assert(a1 == b1);
            if da < db {
                assert(a.take(n) =~= a1);
                assert(b.take(n) =~= b1);
                assert(a.take(n) == b.take(n));
            } else if da == db {
                assert(a.last() == b.last());
                assert(a =~= b) by {
                    assert forall|i: int| 0 <= i < a.len() implies a[i] == b[i] by {
                        if i < n {
                            assert(a[i] == a1[i]);
                            assert(b[i] == b1[i]);
                        }
                    }
                }
            } else {
                assert(digits_value(a) > digits_value(b));
            }
        } else {
            assert(digits_value(a) > digits_value(b));
        }
    }
}

// ---------------------------------------------------------------------------
// Reading characters and numbers
// ---------------------------------------------------------------------------

/// The characters of `s`, in order.
pub fn chars_of(s: &str) -> (v: Vec<char>)
    ensures
        v@ == s@,
{
    let mut v: Vec<char> = Vec::new();
    for c in it: s.chars()
        invariant
            v@ == it.seq().take(it.index() as int),
            it.seq() == s@,
    {
        v.push(c);
    }
    v
}

fn is_digit(c: char) -> (b: bool)
    ensures
        b == is_ascii_digit(c),
{
    let x = c as u32;
    48 <= x && x <= 57
}

/// Parses `chars[start..end]` as an unsigned integer no larger than `max`.
pub fn parse_unsigned_range(chars: &Vec<char>, start: usize, end: usize, max: u64) -> (r: Option<
    u64,
>)
    requires
        start <= end <= chars@.len(),
    ensures
        match r {
            Some(v) => parse_unsigned(chars@.subrange(start as int, end as int), max as nat)
                == Some(v as nat),
            None => parse_unsigned(chars@.subrange(start as int, end as int), max as nat) is None,
        },
{
    let ghost s = chars@.subrange(start as int, end as int);
    let mut i = start;
    if i < end && chars[i] == '+' {
        i = i + 1;
    }
    let first = i;
    let ghost body = chars@.subrange(first as int, end as int);
    assert(body =~= unsigned_body(s));
    if i == end {
        return None;
    }
    let mut acc: u64 = 0;
    assert(chars@.subrange(first as int, first as int) =~= Seq::<char>::empty());
    while i < end
        invariant
            start <= first <= i <= end <= chars@.len(),
            first < end,
            body == chars@.subrange(first as int, end as int),
            body == unsigned_body(s),
            s == chars@.subrange(start as int, end as int),
            all_digits(chars@.subrange(first as int, i as int)),
            acc as nat == digits_value(chars@.subrange(first as int, i as int)),
            acc <= max,
        decreases end - i,
    {
        let c = chars[i];
        let ghost done = chars@.subrange(first as int, i as int);
        let ghost next = chars@.subrange(first as int, i + 1);
        assert(next.drop_last() =~= done);
        assert(next.last() == c);
        if !is_digit(c) {
            assert(body[i - first] == c);
            return None;
        }
        let d = (c as u32 - 48) as u64;
        let grown = if acc <= u64::MAX / 10 {
            let m = acc * 10;
            if m <= u64::MAX - d {
                Some(m + d)
            } else {
                None
            }
        } else {
            None
        };
        let fits = match grown {
            Some(v) => v <= max,
            None => false,
        };
        if !fits {
            assert(acc * 10 + d > max) by (nonlinear_arith)
                requires
                    grown is None ==> (acc > u64::MAX / 10 || acc * 10 > u64::MAX - d),
                    grown matches Some(v) ==> v == acc * 10 + d && v > max,
                    max <= u64::MAX,
            ;
            proof {
                if all_digits(body) {
                    assert(body.take(i + 1 - first) =~= next);
                    lemma_value_grows(body, i + 1 - first);
                }
            }
            return None;
        }
        acc = match grown {
            Some(v) => v,
            None => acc,
        };
        proof {
            assert forall|j: int| 0 <= j < next.len() implies #[trigger] is_ascii_digit(next[j]) by {
                if j < next.len() - 1 {
                    assert(next[j] == done[j]);
                }
            }
        }
        i = i + 1;
    }
    assert(chars@.subrange(first as int, i as int) =~= body);
    Some(acc)
}

// ---------------------------------------------------------------------------
// Whitespace
// ---------------------------------------------------------------------------

/// Unicode `White_Space`, the set that `str::trim` removes.
pub open spec fn is_whitespace(c: char) -> bool {
    let x = c as int;
    ||| 9 <= x <= 13
    ||| x == 32
    ||| x == 0x85
    ||| x == 0xA0
    ||| x == 0x1680
    ||| 0x2000 <= x <= 0x200A
    ||| x == 0x2028
    ||| x == 0x2029
    ||| x == 0x202F
    ||| x == 0x205F
    ||| x == 0x3000
}

/// `s` without its leading whitespace.
pub open spec fn trim_start(s: Seq<char>) -> Seq<char>
    decreases s.len(),
{
    if s.len() > 0 && is_whitespace(s[0]) {
        trim_start(s.drop_first())
    } else {
        s
    }
}

/// `s` without its trailing whitespace.
pub open spec fn trim_end(s: Seq<char>) -> Seq<char>
    decreases s.len(),
{
    if s.len() > 0 && is_whitespace(s.last()) {
        trim_end(s.drop_last())
    } else {
        s
    }
}

/// `s` without leading and trailing whitespace.
pub open spec fn trim(s: Seq<char>) -> Seq<char> {
    trim_end(trim_start(s))
}

fn is_space(c: char) -> (b: bool)
    ensures
        b == is_whitespace(c),
{
    let x = c as u32;
    (9 <= x && x <= 13) || x == 32 || x == 0x85 || x == 0xA0 || x == 0x1680 || (0x2000 <= x && x
        <= 0x200A) || x == 0x2028 || x == 0x2029 || x == 0x202F || x == 0x205F || x == 0x3000
}

proof fn lemma_trim_start_skip(s: Seq<char>, a: int)
    requires
        0 <= a <= s.len(),
        forall|j: int| 0 <= j < a ==> #[trigger] is_whitespace(s[j]),
        a == s.len() || !is_whitespace(s[a]),
    ensures
        trim_start(s) == s.skip(a),
    decreases a,
{
    if a == 0 {
        assert(s.skip(0) =~= s);
    } else {
        let t = s.drop_first();
        assert forall|j: int| 0 <= j < a - 1 implies #[trigger] is_whitespace(t[j]) by {
            assert(t[j] == s[j + 1]);
        }
        assert(is_whitespace(s[0]));
        lemma_trim_start_skip(t, a - 1);
        assert(t.skip(a - 1) =~= s.skip(a));
    }
}

proof fn lemma_trim_end_take(t: Seq<char>, k: int)
    requires
        0 <= k <= t.len(),
        forall|j: int| k <= j < t.len() ==> #[trigger] is_whitespace(t[j]),
        k == 0 || !is_whitespace(t[k - 1]),
    ensures
        trim_end(t) == t.take(k),
    decreases t.len() - k,
{
    if k == t.len() {
        assert(t.take(k) =~= t);
    } else {
        let u = t.drop_last();
        assert(is_whitespace(t[t.len() - 1]));
        assert forall|j: int| k <= j < u.len() implies #[trigger] is_whitespace(u[j]) by {
            assert(u[j] == t[j]);
        }
        if k > 0 {
            assert(u[k - 1] == t[k - 1]);
        }
        lemma_trim_end_take(u, k);
        assert(u.take(k) =~= t.take(k));
    }
}

/// Trimming text that is `s` between runs of whitespace gives `s`, when `s`
/// neither starts nor ends with whitespace.
pub proof fn lemma_trim_around(before: Seq<char>, s: Seq<char>, after: Seq<char>)
    requires
        s.len() > 0,
        !is_whitespace(s[0]),
        !is_whitespace(s.last()),
        forall|i: int| 0 <= i < before.len() ==> #[trigger] is_whitespace(before[i]),
        forall|i: int| 0 <= i < after.len() ==> #[trigger] is_whitespace(after[i]),
    ensures
        trim(before + s + after) == s,
{
    let t = before + s + after;
    assert forall|j: int| 0 <= j < before.len() implies #[trigger] is_whitespace(t[j]) by {
        assert(t[j] == before[j]);
    }
    assert(t[before.len() as int] == s[0]);
    lemma_trim_start_skip(t, before.len() as int);
    let u = s + after;
    assert(t.skip(before.len() as int) =~= u);
    assert forall|j: int| s.len() <= j < u.len() implies #[trigger] is_whitespace(u[j]) by {
        assert(u[j] == after[j - s.len()]);
    }
    assert(u[s.len() - 1] == s.last());
    lemma_trim_end_take(u, s.len() as int);
    assert(u.take(s.len() as int) =~= s);
}

/// The bounds of `chars` once leading and trailing whitespace is left out.
pub fn trim_bounds(chars: &Vec<char>) -> (r: (usize, usize))
    ensures
        r.0 <= r.1 <= chars@.len(),
        chars@.subrange(r.0 as int, r.1 as int) == trim(chars@),
{
    let n = chars.len();
    let mut a: usize = 0;
    while a < n && is_space(chars[a])
        invariant
            a <= n == chars@.len(),
            forall|j: int| 0 <= j < a ==> #[trigger] is_whitespace(chars@[j]),
        decreases n - a,
    {
        a = a + 1;
    }
    let mut b: usize = n;
    while b > a && is_space(chars[b - 1])
        invariant
            a <= b <= n == chars@.len(),
            forall|j: int| b <= j < n ==> #[trigger] is_whitespace(chars@[j]),
        decreases b,
    {
        b = b - 1;
    }
    proof {
        let s = chars@;
        lemma_trim_start_skip(s, a as int);
        let t = s.skip(a as int);
        assert forall|j: int| b - a <= j < t.len() implies #[trigger] is_whitespace(t[j]) by {
            assert(t[j] == s[j + a]);
        }
        if b > a {
            assert(t[b - a - 1] == s[b - 1]);
        }
        lemma_trim_end_take(t, b - a);
        assert(t.take(b - a) =~= s.subrange(a as int, b as int));
    }
    (a, b)
}

// ---------------------------------------------------------------------------
// Substrings and letter case
// ---------------------------------------------------------------------------

/// `needle` occurs in `hay` as a contiguous run (the empty text occurs everywhere).
pub open spec fn contains_seq(hay: Seq<char>, needle: Seq<char>) -> bool {
    exists|i: int|
        0 <= i && i + needle.len() <= hay.len() && #[trigger] hay.subrange(i, i + needle.len())
            == needle
}

/// Whether `needle` occurs in `hay`, as `str::contains` decides it for a text pattern.
pub fn contains_text(hay: &str, needle: &str) -> (r: bool)
    ensures
        r == contains_seq(hay@, needle@),
{
    let h = chars_of(hay);
    let n = chars_of(needle);
    let hl = h.len();
    let nl = n.len();
    if nl > hl {
        return false;
    }
    let mut i: usize = 0;
    while i <= hl - nl
        invariant
            h@ == hay@,
            n@ == needle@,
            hl == h@.len(),
            nl == n@.len(),
            nl <= hl,
            i <= hl - nl + 1,
            forall|k: int| 0 <= k < i ==> #[trigger] h@.subrange(k, k + nl) != n@,
        decreases hl - nl + 1 - i,
    {
        let mut j: usize = 0;
        while j < nl && h[i + j] == n[j]
            invariant
                i + nl <= hl == h@.len(),
                nl == n@.len(),
                j <= nl,
                forall|m: int| 0 <= m < j ==> h@[i + m] == n@[m],
            decreases nl - j,
        {
            j = j + 1;
        }
        if j == nl {
            assert(h@.subrange(i as int, i + nl) =~= n@);
            return true;
        }
        assert(h@.subrange(i as int, i + nl)[j as int] != n@[j as int]);
        i = i + 1;
    }
    assert forall|k: int| 0 <= k && k + needle@.len() <= hay@.len() implies #[trigger] hay@.subrange(
        k,
        k + needle@.len(),
    ) != needle@ by {
        assert(h@.subrange(k, k + nl) != n@);
    }
    false
}

/// What `str::to_lowercase` gives for a text: its full Unicode lowercase mapping.
pub uninterp spec fn lowercase(s: Seq<char>) -> Seq<char>;

/// Calls `str::to_lowercase`; its contract says only that the result is
/// `lowercase` of the argument, a function of the argument alone (Unicode's
/// case tables as std has them).
#[verifier::external_body]
fn to_lowercase(s: &str) -> (r: String)
    ensures
        r@ == lowercase(s@),
{
    s.to_lowercase()
}

/// Whether `title` contains `filter` when both are compared in lowercase:
/// the partial, case-insensitive title match that window selection uses.
pub fn matches_ignoring_case(title: &str, filter: &str) -> (r: bool)
    ensures
        r == contains_seq(lowercase(title@), lowercase(filter@)),
{
    let t = to_lowercase(title);
    let f = to_lowercase(filter);
    contains_text(t.as_str(), f.as_str())
}

// ---------------------------------------------------------------------------
// Writing numbers
// ---------------------------------------------------------------------------

fn digit_str(d: u64) -> (s: &'static str)
    requires
        d < 10,
    ensures
        s@ == seq![digit_char(d as int)],
{
    proof {
        reveal_strlit("0");
        reveal_strlit("1");
        reveal_strlit("2");
        reveal_strlit("3");
        reveal_strlit("4");
        reveal_strlit("5");
        reveal_strlit("6");
        reveal_strlit("7");
        reveal_strlit("8");
        reveal_strlit("9");
    }
    if d == 0 {
        "0"
    } else if d == 1 {
        "1"
    } else if d == 2 {
        "2"
    } else if d == 3 {
        "3"
    } else if d == 4 {
        "4"
    } else if d == 5 {
        "5"
    } else if d == 6 {
        "6"
    } else if d == 7 {
        "7"
    } else if d == 8 {
        "8"
    } else {
        "9"
    }
}

/// Appends the decimal numeral of `n`.
pub fn push_decimal(out: &mut String, n: u64)
    ensures
        final(out)@ == old(out)@ + decimal(n as nat),
    decreases n,
{
    if n >= 10 {
        push_decimal(out, n / 10);
    }
    out.append(digit_str(n % 10));
    proof {
        if n >= 10 {
            assert(decimal(n as nat) == decimal((n / 10) as nat).push(digit_char((n % 10) as int)));
        }
    }
    assert(out@ =~= old(out)@ + decimal(n as nat)) by {
        if n < 10 {
            assert(decimal(n as nat) == seq![digit_char(n as int)]);
        }
    }
}

/// The number of characters in the decimal numeral of `n`.
pub fn decimal_len(n: u64) -> (r: usize)
    ensures
        r as nat == decimal(n as nat).len(),
        r <= 20,
    decreases n,
{
    if n < 10 {
        1
    } else {
        let k = decimal_len(n / 10);
        proof {
            reveal_with_fuel(pow10, 21);
            assert(pow10(20) == 100_000_000_000_000_000_000);
            lemma_decimal_len_le(n as nat, 20);
        }
        k + 1
    }
}

/// Ten to the power `k`.
pub open spec fn pow10(k: nat) -> nat
    decreases k,
{
    if k == 0 {
        1
    } else {
        10 * pow10((k - 1) as nat)
    }
}

/// Appends `n` in decimal, filled with leading zeros up to `width` characters.
pub fn push_zero_padded(out: &mut String, n: u64, width: usize)
    ensures
        final(out)@ == old(out)@ + zero_padded(n as nat, width as nat),
{
    let len = decimal_len(n);
    let ghost start = out@;
    if len < width {
        let fill = width - len;
        let mut k: usize = 0;
        while k < fill
            invariant
                k <= fill,
                out@ == start + Seq::new(k as nat, |i: int| '0'),
            decreases fill - k,
        {
            proof {
                reveal_strlit("0");
            }
            out.append("0");
            assert(out@ =~= start + Seq::new((k + 1) as nat, |i: int| '0'));
            k = k + 1;
        }
        push_decimal(out, n);
        assert(out@ =~= start + zero_padded(n as nat, width as nat));
    } else {
        push_decimal(out, n);
    }
}

/// Appends a signed number in decimal.
pub fn push_signed(out: &mut String, n: i32)
    ensures
        final(out)@ == old(out)@ + signed_decimal(n as int),
{
    if n < 0 {
        proof {
            reveal_strlit("-");
        }
        out.append("-");
        let m: i64 = -(n as i64);
        push_decimal(out, m as u64);
        assert(out@ =~= old(out)@ + signed_decimal(n as int));
    } else {
        push_decimal(out, n as u64);
    }
}

} // verus!
