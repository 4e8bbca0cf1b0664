use vstd::prelude::*;

verus! {

/// The characters that `str::split_ascii_whitespace` splits on.
pub open spec fn is_ascii_ws(c: char) -> bool {
    c == ' ' || c == '\t' || c == '\n' || c == '\x0C' || c == '\r'
}

pub open spec fn is_digit(c: char) -> bool {
    '0' <= c && c <= '9'
}

pub open spec fn digit_value(c: char) -> nat {
    (c as nat - '0' as nat) as nat
}

pub open spec fn all_digits(s: Seq<char>) -> bool {
    forall|i: int| 0 <= i < s.len() ==> #[trigger] is_digit(s[i])
}

/// The number written by the decimal digits `s` (most significant first).
pub open spec fn digits_value(s: Seq<char>) -> nat
    decreases s.len(),
{
    if s.len() == 0 {
        0
    } else {
        digits_value(s.drop_last()) * 10 + digit_value(s.last())
    }
}

/// Values at or above this bound are all treated alike by the capped parsers.
pub open spec fn value_cap() -> nat {
    0x1_0000_0000
}

pub fn is_ascii_whitespace_char(c: char) -> (r: bool)
    ensures
        r == is_ascii_ws(c),
{
    c == ' ' || c == '\t' || c == '\n' || c == '\x0C' || c == '\r'
}

/// The characters of `s`, one per element.
pub fn chars_of(s: &str) -> (r: Vec<char>)
    ensures
        r@ == s@,
{
    let n = s.unicode_len();
    let mut r: Vec<char> = Vec::new();
    let mut i: usize = 0;
    while i < n
        invariant
            n == s@.len(),
            i <= n,
            r@ == s@.subrange(0, i as int),
        decreases n - i,
    {
        r.push(s.get_char(i));
        i = i + 1;
        assert(r@ =~= s@.subrange(0, i as int));
    }
    assert(r@ =~= s@);
    r
}

/// Whether `a` and `b` hold the same characters.
pub fn same_text(a: &str, b: &str) -> (r: bool)
    ensures
        r == (a@ == b@),
{
    let n = a.unicode_len();
    let m = b.unicode_len();
    if n != m {
        return false;
    }
    let mut i: usize = 0;
    while i < n
        invariant
            n == a@.len(),
            m == b@.len(),
            n == m,
            i <= n,
            forall|j: int| 0 <= j < i ==> a@[j] == b@[j],
        decreases n - i,
    {
        if a.get_char(i) != b.get_char(i) {
            return false;
        }
        i = i + 1;
    }
    assert(a@ =~= b@);
    true
}

/// The value of the digits `cs[lo..hi]`, capped at `value_cap()`.
pub fn capped_digits_value(cs: &Vec<char>, lo: usize, hi: usize) -> (r: u64)
    requires
        lo <= hi <= cs@.len(),
        all_digits(cs@.subrange(lo as int, hi as int)),
    ensures
        r == if digits_value(cs@.subrange(lo as int, hi as int)) < value_cap() {
            digits_value(cs@.subrange(lo as int, hi as int))
        } else {
            value_cap()
        },
{
    let cap: u64 = 0x1_0000_0000;
    let mut acc: u64 = 0;
    let mut i: usize = lo;
    while i < hi
        invariant
            lo <= i <= hi <= cs@.len(),
            all_digits(cs@.subrange(lo as int, hi as int)),
            cap == value_cap(),
            acc == if digits_value(cs@.subrange(lo as int, i as int)) < value_cap() {
                digits_value(cs@.subrange(lo as int, i as int))
            } else {
                value_cap()
            },
        decreases hi - i,
    {
        let c = cs[i];
        assert(is_digit(cs@.subrange(lo as int, hi as int)[i - lo]));
        let d = (c as u32 - '0' as u32) as u64;
        let ghost prev = cs@.subrange(lo as int, i as int);
        let ghost next = cs@.subrange(lo as int, i + 1);
        assert(next.drop_last() =~= prev);
        assert(digits_value(next) == digits_value(prev) * 10 + d);
        let grown = acc * 10 + d;
        if grown < cap {
            acc = grown;
        } else {
            acc = cap;
        }
        proof {
            if digits_value(prev) >= value_cap() {
                assert(digits_value(prev) * 10 + d >= value_cap()) by (nonlinear_arith)
                    requires digits_value(prev) >= value_cap();
            }
        }
        i = i + 1;
    }
    acc
}

/// What `str::parse::<u32>` accepts: an optional `+` and at least one
/// decimal digit, whose value fits in a `u32`.
pub open spec fn u32_of_text(s: Seq<char>) -> Option<u32> {
    let d = if s.len() > 0 && s[0] == '+' {
        s.drop_first()
    } else {
        s
    };
    if d.len() > 0 && all_digits(d) && digits_value(d) <= u32::MAX {
        Some(digits_value(d) as u32)
    } else {
        None
    }
}

/// Parses the characters `cs` as an unsigned 32-bit decimal number.
pub fn parse_u32_chars(cs: &Vec<char>) -> (r: Option<u32>)
    ensures
        r == u32_of_text(cs@),
{
    let n = cs.len();
    let lo: usize = if n > 0 && cs[0] == '+' {
        1
    } else {
        0
    };
    let ghost d = cs@.subrange(lo as int, n as int);
    assert(d =~= if cs@.len() > 0 && cs@[0] == '+' {
        cs@.drop_first()
    } else {
        cs@
    });
    if lo == n {
        return None;
    }
    let mut i: usize = lo;
    while i < n
        invariant
            lo <= i <= n == cs@.len(),
            d == cs@.subrange(lo as int, n as int),
            d == if cs@.len() > 0 && cs@[0] == '+' {
                cs@.drop_first()
            } else {
                cs@
            },
            forall|j: int| lo <= j < i ==> is_digit(cs@[j]),
        decreases n - i,
    {
        if !('0' <= cs[i] && cs[i] <= '9') {
            let ghost k = i - lo;
            assert(d[k] == cs@[i as int]);
            assert(!is_digit(d[k]));
            return None;
        }
        i = i + 1;
    }
    assert(all_digits(d)) by {
        assert forall|j: int| 0 <= j < d.len() implies #[trigger] is_digit(d[j]) by {
            assert(d[j] == cs@[lo + j]);
        }
    }
    let v = capped_digits_value(cs, lo, n);
    if v <= 0xFFFF_FFFF {
        Some(v as u32)
    } else {
        None
    }
}

/// Parses `s` as an unsigned 32-bit decimal number.
pub fn parse_u32(s: &str) -> (r: Option<u32>)
    ensures
        r == u32_of_text(s@),
{
    let cs = chars_of(s);
    parse_u32_chars(&cs)
}

/// `s` without its commas.
pub open spec fn without_commas(s: Seq<char>) -> Seq<char>
    decreases s.len(),
{
    if s.len() == 0 {
        s
    } else if s.last() == ',' {
        without_commas(s.drop_last())
    } else {
        without_commas(s.drop_last()).push(s.last())
    }
}

/// The characters of `s` with every comma left out.
pub fn strip_commas(s: &str) -> (r: Vec<char>)
    ensures
        r@ == without_commas(s@),
{
    let cs = chars_of(s);
    let mut r: Vec<char> = Vec::new();
    let mut i: usize = 0;
    while i < cs.len()
        invariant
            i <= cs@.len(),
            cs@ == s@,
            r@ == without_commas(cs@.subrange(0, i as int)),
        decreases cs.len() - i,
    {
        assert(cs@.subrange(0, i + 1).drop_last() =~= cs@.subrange(0, i as int));
        if cs[i] != ',' {
            r.push(cs[i]);
        }
        i = i + 1;
    }
    assert(cs@.subrange(0, cs@.len() as int) =~= cs@);
    r
}

/// Whether `p` occurs in `s` as a contiguous run of characters.
pub open spec fn text_contains(s: Seq<char>, p: Seq<char>) -> bool {
    exists|i: int| 0 <= i && i + p.len() <= s.len() && #[trigger] s.subrange(i, i + p.len()) == p
}

/// Whether `p` occurs in `s`.
pub fn contains_text(s: &str, p: &str) -> (r: bool)
    ensures
        r == text_contains(s@, p@),
{
    let a = chars_of(s);
    let b = chars_of(p);
    let n = a.len();
    let m = b.len();
    if m > n {
        assert forall|i: int| 0 <= i && i + p@.len() <= s@.len() implies #[trigger] s@.subrange(
            i,
            i + p@.len(),
        ) != p@ by {}
        return false;
    }
    let mut i: usize = 0;
    while i <= n - m
        invariant
            a@ == s@,
            b@ == p@,
            n == a@.len(),
            m == b@.len(),
            m <= n,
            i <= n - m + 1,
            forall|k: int| 0 <= k < i ==> #[trigger] s@.subrange(k, k + p@.len()) != p@,
        decreases n - m + 1 - i,
    {
        let mut j: usize = 0;
        let mut same = true;
        while j < m
            invariant
                a@ == s@,
                b@ == p@,
                n == a@.len(),
                m == b@.len(),
                i + m <= n,
                j <= m,
                same == (forall|t: int| 0 <= t < j ==> a@[i + t] == b@[t]),
            decreases m - j,
        {
            if a[i + j] != b[j] {
                same = false;
            }
            j = j + 1;
        }
        if same {
            assert(s@.subrange(i as int, i + p@.len()) =~= p@);
            return true;
        }
        assert(s@.subrange(i as int, i + p@.len()) != p@) by {
            let t = choose|t: int| 0 <= t < m && a@[i + t] != b@[t];
            assert(s@.subrange(i as int, i + p@.len())[t] == a@[i + t]);
        }
        i = i + 1;
    }
    assert forall|k: int| 0 <= k && k + p@.len() <= s@.len() implies #[trigger] s@.subrange(
        k,
        k + p@.len(),
    ) != p@ by {
        assert(k < i);
    }
    false
}

/// `s[k]` is the decimal point of a number with digits on both sides of it.
pub open spec fn is_point_at(s: Seq<char>, k: int) -> bool {
    &&& 0 < k < s.len() - 1
    &&& s[k] == '.'
    &&& all_digits(s.subrange(0, k))
    &&& all_digits(s.subrange(k + 1, s.len() as int))
}

/// Ten times the number `whole.frac`, rounded to the nearest integer (a half
/// rounds up).
pub open spec fn rounded_tenths(whole: nat, frac: Seq<char>) -> nat {
    whole * 10 + (if frac.len() > 0 {
        digit_value(frac[0])
    } else {
        0
    }) + (if frac.len() > 1 && digit_value(frac[1]) >= 5 {
        1nat
    } else {
        0nat
    })
}

/// Ten times the decimal number written in `s` (digits, optionally followed
/// by a point and more digits), rounded to the nearest integer; `None` where
/// `s` is no such number.
pub open spec fn decimal_tenths(s: Seq<char>) -> Option<nat> {
    if s.len() > 0 && all_digits(s) {
        Some(rounded_tenths(digits_value(s), Seq::empty()))
    } else if exists|k: int| is_point_at(s, k) {
        let k = choose|k: int| is_point_at(s, k);
        Some(rounded_tenths(digits_value(s.subrange(0, k)), s.subrange(k + 1, s.len() as int)))
    } else {
        None
    }
}

/// A number has at most one decimal point.
pub proof fn lemma_point_unique(s: Seq<char>, k: int, j: int)
    requires
        is_point_at(s, k),
        is_point_at(s, j),
    ensures
        k == j,
{
    if j < k {
        assert(s.subrange(0, k)[j] == s[j]);
        assert(is_digit(s.subrange(0, k)[j]));
    } else if k < j {
        assert(s.subrange(0, j)[k] == s[k]);
        assert(is_digit(s.subrange(0, j)[k]));
    }
}

/// Parses a decimal number and returns ten times its value, rounded to the
/// nearest integer, where that is at most `limit`.
pub fn parse_tenths(s: &str, limit: u32) -> (r: Option<u32>)
    ensures
        r == match decimal_tenths(s@) {
            Some(t) => if t <= limit {
                Some(t as u32)
            } else {
                None::<u32>
            },
            None => None::<u32>,
        },
{
    let cs = chars_of(s);
    let n = cs.len();
    let mut k: usize = 0;
    while k < n && '0' <= cs[k] && cs[k] <= '9'
        invariant
            k <= n == cs@.len(),
            cs@ == s@,
            all_digits(cs@.subrange(0, k as int)),
        decreases n - k,
    {
        assert(cs@.subrange(0, k + 1) =~= cs@.subrange(0, k as int).push(cs@[k as int]));
        k = k + 1;
    }
    let ghost sv = s@;
    if k == 0 {
        assert(!(sv.len() > 0 && all_digits(sv))) by {
            if sv.len() > 0 && all_digits(sv) {
                assert(is_digit(sv[0]));
            }
        }
        assert forall|j: int| !is_point_at(sv, j) by {
            if is_point_at(sv, j) {
                assert(sv.subrange(0, j)[0] == sv[0]);
                assert(is_digit(sv.subrange(0, j)[0]));
            }
        }
        return None;
    }
    if k == n {
        assert(cs@.subrange(0, n as int) =~= sv);
        let whole = capped_digits_value(&cs, 0, n);
        let t = whole * 10;
        if t > limit as u64 {
            return None;
        }
        return Some(t as u32);
    }
    // The first character after the leading digits is not a digit.
    assert(!is_digit(sv[k as int]));
    assert(!all_digits(sv));
    if cs[k] != '.' || k + 1 == n {
        assert forall|j: int| !is_point_at(sv, j) by {
            if is_point_at(sv, j) {
                if j > k {
                    assert(sv.subrange(0, j)[k as int] == sv[k as int]);
                    assert(is_digit(sv.subrange(0, j)[k as int]));
                } else if j < k {
                    assert(cs@.subrange(0, k as int)[j] == sv[j]);
                    assert(is_digit(cs@.subrange(0, k as int)[j]));
                }
            }
        }
        return None;
    }
    let mut i: usize = k + 1;
    while i < n
        invariant
            k + 1 <= i <= n == cs@.len(),
            cs@ == sv,
            sv == s@,
            all_digits(cs@.subrange(0, k as int)),
            !is_digit(sv[k as int]),
            sv[k as int] == '.',
            !all_digits(sv),
            all_digits(cs@.subrange(k + 1, i as int)),
        decreases n - i,
    {
        if !('0' <= cs[i] && cs[i] <= '9') {
            assert forall|j: int| !is_point_at(sv, j) by {
                if is_point_at(sv, j) {
                    if j > k {
                        assert(sv.subrange(0, j)[k as int] == sv[k as int]);
                        assert(is_digit(sv.subrange(0, j)[k as int]));
                    } else if j < k {
                        assert(cs@.subrange(0, k as int)[j] == sv[j]);
                        assert(is_digit(cs@.subrange(0, k as int)[j]));
                    } else {
                        assert(sv.subrange(j + 1, sv.len() as int)[i - j - 1] == sv[i as int]);
                        assert(is_digit(sv.subrange(j + 1, sv.len() as int)[i - j - 1]));
                    }
                }
            }
            return None;
        }
        assert(cs@.subrange(k + 1, i + 1) =~= cs@.subrange(k + 1, i as int).push(cs@[i as int]));
        i = i + 1;
    }
    assert(is_point_at(sv, k as int));
    proof {
        let c = choose|j: int| is_point_at(sv, j);
        lemma_point_unique(sv, k as int, c);
    }
    let whole = capped_digits_value(&cs, 0, k);
    let ghost frac = sv.subrange(k + 1, sv.len() as int);
    assert(frac[0] == cs@[k + 1]);
    assert(is_digit(frac[0]));
    let first = (cs[k + 1] as u32 - '0' as u32) as u64;
    let round_up: u64 = if k + 2 < n && cs[k + 2] >= '5' {
        1
    } else {
        0
    };
    assert(frac.len() > 1 ==> frac[1] == cs@[k + 2]);
    assert(frac.len() > 1 ==> is_digit(frac[1]));
    let t = whole * 10 + first + round_up;
    if t > limit as u64 {
        return None;
    }
    Some(t as u32)
}

/// The words of `s`: its maximal runs of characters other than ASCII
/// whitespace, in order.
pub open spec fn words(s: Seq<char>) -> Seq<Seq<char>>
    decreases s.len(),
{
    if s.len() == 0 {
        Seq::empty()
    } else {
        let prev = words(s.drop_last());
        let c = s.last();
        if is_ascii_ws(c) {
            prev
        } else if s.len() > 1 && !is_ascii_ws(s[s.len() - 2]) {
            prev.update(prev.len() - 1, prev.last().push(c))
        } else {
            prev.push(seq![c])
        }
    }
}

/// Splits `s` at ASCII whitespace, as `str::split_ascii_whitespace` does.
pub fn split_words(s: &str) -> (r: Vec<String>)
    ensures
        r@.len() == words(s@).len(),
        forall|k: int| 0 <= k < r@.len() ==> #[trigger] r@[k]@ == words(s@)[k],
{
    let cs = chars_of(s);
    let n = cs.len();
    let mut r: Vec<String> = Vec::new();
    let mut start: usize = 0;
    let mut in_word = false;
    let mut i: usize = 0;
    while i < n
        invariant
            i <= n == cs@.len(),
            cs@ == s@,
            in_word ==> start < i,
            in_word == (i > 0 && !is_ascii_ws(cs@[i - 1])),
            in_word ==> forall|j: int| start <= j < i ==> !is_ascii_ws(#[trigger] cs@[j]),
            words(cs@.subrange(0, i as int)).len() == r@.len() + (if in_word {
                1int
            } else {
                0
            }),
            forall|k: int|
                0 <= k < r@.len() ==> #[trigger] r@[k]@ == words(cs@.subrange(0, i as int))[k],
            in_word ==> words(cs@.subrange(0, i as int)).last() == cs@.subrange(
                start as int,
                i as int,
            ),
        decreases n - i,
    {
        let ghost pre = cs@.subrange(0, i as int);
        let ghost post = cs@.subrange(0, i + 1);
        assert(post.drop_last() =~= pre);
        assert(post.last() == cs@[i as int]);
        let c = cs[i];
        if is_ascii_whitespace_char(c) {
            if in_word {
                let w = s.substring_char(start, i);
                r.push(String::from_str(w));
            }
            in_word = false;
        } else {
            if in_word {
                assert(post.len() > 1 && post[post.len() - 2] == cs@[i - 1]);
                assert(cs@.subrange(start as int, i + 1) =~= cs@.subrange(
                    start as int,
                    i as int,
                ).push(c));
            } else {
                start = i;
                assert(cs@.subrange(start as int, i + 1) =~= seq![c]);
                assert(i > 0 ==> post[post.len() - 2] == cs@[i - 1]);
            }
            in_word = true;
        }
        i = i + 1;
    }
    assert(cs@.subrange(0, n as int) =~= s@);
    if in_word {
        let w = s.substring_char(start, n);
        r.push(String::from_str(w));
    }
    r
}

pub open spec fn pow10(m: nat) -> nat
    decreases m,
{
    if m == 0 {
        1
    } else {
        10 * pow10((m - 1) as nat)
    }
}

proof fn lemma_pow10_positive(m: nat)
    ensures
        pow10(m) >= 1,
    decreases m,
{
    if m > 0 {
        lemma_pow10_positive((m - 1) as nat);
    }
}

/// The value of digits written after others is shifted by their number.
proof fn lemma_digits_value_concat(a: Seq<char>, b: Seq<char>)
    ensures
        digits_value(a + b) == digits_value(a) * pow10(b.len()) + digits_value(b),
    decreases b.len(),
{
    if b.len() == 0 {
        assert(a + b =~= a);
        assert(pow10(0) == 1);
        assert(digits_value(b) == 0);
        assert(digits_value(a) * 1 == digits_value(a));
    } else {
        let b1 = b.drop_last();
        assert((a + b).drop_last() =~= a + b1);
        assert((a + b).last() == b.last());
        lemma_digits_value_concat(a, b1);
        let p = pow10(b1.len());
        let d = digit_value(b.last());
        assert(digits_value(a + b) == (digits_value(a) * p + digits_value(b1)) * 10 + d);
        assert(digits_value(b) == digits_value(b1) * 10 + d);
        assert(pow10(b.len()) == 10 * p);
        let va = digits_value(a);
        let vb1 = digits_value(b1);
        assert((va * p + vb1) * 10 + d == va * (10 * p) + (vb1 * 10 + d)) by (nonlinear_arith);
    }
}

/// `m` digits write a number below `10^m`.
proof fn lemma_digits_value_bound(s: Seq<char>)
    requires
        all_digits(s),
    ensures
        digits_value(s) < pow10(s.len()),
    decreases s.len(),
{
    if s.len() > 0 {
        let s1 = s.drop_last();
        assert(all_digits(s1)) by {
            assert forall|i: int| 0 <= i < s1.len() implies #[trigger] is_digit(s1[i]) by {
                assert(s1[i] == s[i]);
            }
        }
        assert(is_digit(s[s.len() - 1]));
        lemma_digits_value_bound(s1);
        let v = digits_value(s1);
        let p = pow10(s1.len());
        let d = digit_value(s.last());
        assert(d <= 9);
        assert(v * 10 + d < 10 * p) by (nonlinear_arith)
            requires
                v < p,
                d <= 9,
        ;
    }
}

proof fn lemma_tail_digits(s: Seq<char>, i: int)
    requires
        all_digits(s),
        0 <= i <= s.len(),
    ensures
        all_digits(s.subrange(i, s.len() as int)),
{
    assert forall|j: int| 0 <= j < s.len() - i implies #[trigger] is_digit(
        s.subrange(i, s.len() as int)[j],
    ) by {
        assert(s.subrange(i, s.len() as int)[j] == s[i + j]);
    }
}

/// What `decimal_tenths` reads from `w.f` is ten times its value rounded to
/// the nearest integer, a half rounding up: with `n` the number written by
/// all the digits and `m` the number of digits after the point, the result
/// `t` is the integer with `t <= 10 * n / 10^m + 1/2 < t + 1`.
pub proof fn lemma_decimal_tenths_rounds(w: Seq<char>, f: Seq<char>)
    requires
        w.len() > 0,
        f.len() > 0,
        all_digits(w),
        all_digits(f),
    ensures
        decimal_tenths(w + seq!['.'] + f) matches Some(t) && 2 * t * pow10(f.len()) <= 20
            * digits_value(w + f) + pow10(f.len()) < 2 * (t + 1) * pow10(f.len()),
{
    let s = w + seq!['.'] + f;
    let k = w.len() as int;
    assert(s[k] == '.');
    assert(!all_digits(s)) by {
        assert(!is_digit(s[k]));
    }
    assert(s.subrange(0, k) =~= w);
    assert(s.subrange(k + 1, s.len() as int) =~= f);
    assert(is_point_at(s, k));
    let c = choose|j: int| is_point_at(s, j);
    lemma_point_unique(s, k, c);
    let m = f.len();
    let f1 = seq![f[0]];
    let g = f.subrange(1, m as int);
    assert(f =~= f1 + g);
    assert(is_digit(f[0]));
    lemma_tail_digits(f, 1);
    lemma_digits_value_concat(w, f);
    lemma_digits_value_concat(f1, g);
    assert(f1.drop_last() =~= Seq::<char>::empty());
    assert(f1.last() == f[0]);
    assert(digits_value(f1) == digits_value(f1.drop_last()) * 10 + digit_value(f[0]));
    assert(digits_value(f1) == digit_value(f[0]));
    lemma_digits_value_bound(g);
    let big = pow10(m);
    let pp = pow10(g.len());
    assert(big == 10 * pp);
    let n = digits_value(w + f);
    let dw = digits_value(w);
    let d1 = digit_value(f[0]);
    let dg = digits_value(g);
    let r: nat = if m > 1 && digit_value(f[1]) >= 5 {
        1
    } else {
        0
    };
    let t = dw * 10 + d1 + r;
    assert(n == dw * big + d1 * pp + dg);
    lemma_pow10_positive(g.len());
    // Enough to place `2 * dg + pp` between `2 * r * pp` and `2 * (r + 1) * pp`.
    assert(2 * r * pp <= 2 * dg + pp < 2 * (r + 1) * pp) by {
        if m == 1 {
            assert(g.len() == 0);
            assert(pp == 1);
            assert(dg == 0);
            assert(r == 0);
            assert(2 * r * pp == 0) by (nonlinear_arith)
                requires
                    r == 0,
            ;
            assert(2 * (r + 1) * pp == 2);
            assert(2 * dg + pp == 1);
        } else {
            let f2 = seq![g[0]];
            let h = g.subrange(1, g.len() as int);
            assert(g =~= f2 + h);
            assert(g[0] == f[1]);
            assert(is_digit(g[0]));
            lemma_tail_digits(g, 1);
            lemma_digits_value_concat(f2, h);
            assert(f2.drop_last() =~= Seq::<char>::empty());
            assert(f2.last() == g[0]);
            assert(digits_value(f2) == digits_value(f2.drop_last()) * 10 + digit_value(g[0]));
            lemma_digits_value_bound(h);
            let q = pow10(h.len());
            let d2 = digit_value(f[1]);
            let dh = digits_value(h);
            assert(pp == 10 * q);
            assert(dg == d2 * q + dh);
            assert(d2 <= 9);
            if d2 >= 5 {
                assert(2 * pp <= 2 * dg + pp < 4 * pp) by (nonlinear_arith)
                    requires
                        pp == 10 * q,
                        dg == d2 * q + dh,
                        5 <= d2 <= 9,
                        dh < q,
                ;
                assert(r == 1);
                assert(2 * r * pp == 2 * pp);
                assert(2 * (r + 1) * pp == 4 * pp);
                assert(2 * r * pp <= 2 * dg + pp);
                assert(2 * dg + pp < 2 * (r + 1) * pp);
            } else {
                assert(2 * dg + pp < 2 * pp) by (nonlinear_arith)
                    requires
                        pp == 10 * q,
                        dg == d2 * q + dh,
                        d2 <= 4,
                        dh < q,
                ;
                assert(r == 0);
                assert(2 * (r + 1) * pp == 2 * pp);
                assert(2 * r * pp == 0) by (nonlinear_arith)
                requires
                    r == 0,
            ;
                assert(2 * dg + pp < 2 * (r + 1) * pp);
            }
        }
    }
    assert(2 * t * big <= 20 * n + big < 2 * (t + 1) * big) by (nonlinear_arith)
        requires
            big == 10 * pp,
            n == dw * big + d1 * pp + dg,
            t == dw * 10 + d1 + r,
            2 * r * pp <= 2 * dg + pp < 2 * (r + 1) * pp,
    ;
}

} // verus!
