//! Character-sequence helpers with exact specifications: searching,
//! prefix tests, decimal parsing and decimal formatting.

use vstd::prelude::*;

verus! {

/// Index of the first `c` in `s` at or after position `i`, or -1.
pub open spec fn find_from(s: Seq<char>, c: char, i: int) -> int
    decreases s.len() - i,
{
    if i < 0 || i >= s.len() {
        -1
    } else if s[i] == c {
        i
    } else {
        find_from(s, c, i + 1)
    }
}

/// Index of the first `c` in `s`, or -1 when `s` holds none.
pub open spec fn find_first(s: Seq<char>, c: char) -> int {
    find_from(s, c, 0)
}

/// Index of the last `c` among the first `k` characters of `s`, or -1.
pub open spec fn find_last_before(s: Seq<char>, c: char, k: int) -> int
    decreases k,
{
    if k <= 0 {
        -1
    } else if s[k - 1] == c {
        k - 1
    } else {
        find_last_before(s, c, k - 1)
    }
}

/// Index of the last `c` in `s`, or -1 when `s` holds none.
pub open spec fn find_last(s: Seq<char>, c: char) -> int {
    find_last_before(s, c, s.len() as int)
}

/// What [`find_from`] returns: the first match at or after `i`, or -1 when
/// there is none.
pub proof fn lemma_find_from(s: Seq<char>, c: char, i: int)
    requires
        0 <= i,
    ensures
        find_from(s, c, i) == -1 || (i <= find_from(s, c, i) < s.len() && s[find_from(
            s,
            c,
            i,
        )] == c),
        forall|j: int| i <= j < s.len() && (find_from(s, c, i) == -1 || j < find_from(s, c, i)) ==> s[j] != c,
    decreases s.len() - i,
{
    if i < s.len() && s[i] != c {
        lemma_find_from(s, c, i + 1);
    }
}

/// What [`find_last_before`] returns: the last match before `k`, or -1 when
/// there is none.
pub proof fn lemma_find_last_before(s: Seq<char>, c: char, k: int)
    requires
        k <= s.len(),
    ensures
        find_last_before(s, c, k) == -1 || (0 <= find_last_before(s, c, k) < k && s[find_last_before(
            s,
            c,
            k,
        )] == c),
        forall|j: int| 0 <= j < k && find_last_before(s, c, k) < j ==> s[j] != c,
    decreases k,
{
    if k > 0 && s[k - 1] != c {
        lemma_find_last_before(s, c, k - 1);
    }
}

/// Skipping characters other than `c` does not change where the next `c` is.
pub proof fn lemma_find_from_skip(s: Seq<char>, c: char, i: int, k: int)
    requires
        0 <= i <= k <= s.len(),
        forall|j: int| i <= j < k ==> s[j] != c,
    ensures
        find_from(s, c, i) == find_from(s, c, k),
    decreases k - i,
{
    if i < k {
        lemma_find_from_skip(s, c, i + 1, k);
    }
}

/// Characters other than `c` at the end do not change where the last `c` is.
pub proof fn lemma_find_last_skip(s: Seq<char>, c: char, k: int, m: int)
    requires
        0 <= k <= m <= s.len(),
        forall|j: int| k <= j < m ==> s[j] != c,
    ensures
        find_last_before(s, c, m) == find_last_before(s, c, k),
    decreases m - k,
{
    if k < m {
        lemma_find_last_skip(s, c, k, m - 1);
    }
}

/// `s` holds no `c`.
pub open spec fn lacks(s: Seq<char>, c: char) -> bool {
    forall|j: int| 0 <= j < s.len() ==> #[trigger] s[j] != c
}

/// `p` is a prefix of `s`.
pub open spec fn starts_with(s: Seq<char>, p: Seq<char>) -> bool {
    p.len() <= s.len() && s.subrange(0, p.len() as int) == p
}

/// `p` is a suffix of `s`.
pub open spec fn ends_with(s: Seq<char>, p: Seq<char>) -> bool {
    p.len() <= s.len() && s.subrange(s.len() - p.len(), s.len() as int) == p
}

/// `needle` occurs in `hay` as a contiguous run.
pub open spec fn contains_seq<T>(hay: Seq<T>, needle: Seq<T>) -> bool {
    exists|i: int|
        0 <= i && i + needle.len() <= hay.len() && #[trigger] hay.subrange(
            i,
            i + needle.len(),
        ) == needle
}

pub open spec fn is_digit(c: char) -> bool {
    '0' <= c && c <= '9'
}

pub open spec fn digit_value(c: char) -> int {
    (c as int) - ('0' as int)
}

pub open spec fn all_digits(s: Seq<char>) -> bool {
    forall|i: int| 0 <= i < s.len() ==> is_digit(#[trigger] s[i])
}

/// The number that the decimal digits `s` denote.
pub open spec fn digits_value(s: Seq<char>) -> int
    decreases s.len(),
{
    if s.len() == 0 {
        0
    } else {
        digits_value(s.drop_last()) * 10 + digit_value(s.last())
    }
}

/// `s` without one leading `+`, as std's integer parsing reads it.
pub open spec fn without_plus(s: Seq<char>) -> Seq<char> {
    if s.len() > 0 && s[0] == '+' {
        s.drop_first()
    } else {
        s
    }
}

/// The value of `s` read as an unsigned decimal number no larger than `max`:
/// an optional `+` and then at least one ASCII digit.
pub open spec fn parse_decimal(s: Seq<char>, max: int) -> Option<int> {
    let d = without_plus(s);
    if d.len() > 0 && all_digits(d) && digits_value(d) <= max {
        Some(digits_value(d))
    } else {
        None
    }
}

pub open spec fn digit_char(d: int) -> char {
    if d == 0 {
        '0'
    } else if d == 1 {
        '1'
    } else if d == 2 {
        '2'
    } else if d == 3 {
        '3'
    } else if d == 4 {
        '4'
    } else if d == 5 {
        '5'
    } else if d == 6 {
        '6'
    } else if d == 7 {
        '7'
    } else if d == 8 {
        '8'
    } else {
        '9'
    }
}

/// Decimal digits of `n`, without leading zeros.
pub open spec fn decimal(n: nat) -> Seq<char>
    decreases n,
{
    if n < 10 {
        seq![digit_char(n as int)]
    } else {
        decimal(n / 10).push(digit_char((n % 10) as int))
    }
}

/// Decimal text of an integer, with a leading `-` when it is negative.
pub open spec fn signed_decimal(n: int) -> Seq<char> {
    if n < 0 {
        seq!['-'] + decimal((-n) as nat)
    } else {
        decimal(n as nat)
    }
}

/// Each digit character stands for its digit.
pub proof fn lemma_digit_char(k: int)
    requires
        0 <= k < 10,
    ensures
        is_digit(digit_char(k)),
        digit_value(digit_char(k)) == k,
{
    if k == 0 {
        assert(digit_char(k) == '0');
    } else if k == 1 {
        assert(('1' as int) == 49);
    } else if k == 2 {
        assert(('2' as int) == 50);
    } else if k == 3 {
        assert(('3' as int) == 51);
    } else if k == 4 {
        assert(('4' as int) == 52);
    } else if k == 5 {
        assert(('5' as int) == 53);
    } else if k == 6 {
        assert(('6' as int) == 54);
    } else if k == 7 {
        assert(('7' as int) == 55);
    } else if k == 8 {
        assert(('8' as int) == 56);
    } else {
        assert(('9' as int) == 57);
    }
}

/// The digits of `decimal(n)` denote `n`.
pub proof fn lemma_decimal_digits(n: nat)
    ensures
        decimal(n).len() > 0,
        all_digits(decimal(n)),
        digits_value(decimal(n)) == n,
    decreases n,
{
    if n < 10 {
        lemma_digit_char(n as int);
        let d = decimal(n);
        assert(d == seq![digit_char(n as int)]);
        assert(d.drop_last() =~= Seq::<char>::empty());
        assert(d.last() == digit_char(n as int));
        assert(digits_value(d.drop_last()) == 0);
        assert(is_digit(d[0]));
    } else {
        lemma_decimal_digits(n / 10);
        lemma_digit_char((n % 10) as int);
        let d = decimal(n);
        let p = decimal(n / 10);
        assert(d == p.push(digit_char((n % 10) as int)));
        assert(d.drop_last() =~= p);
        assert(d.last() == digit_char((n % 10) as int));
        assert((n / 10) * 10 + n % 10 == n) by (nonlinear_arith);
        assert forall|i: int| 0 <= i < d.len() implies is_digit(#[trigger] d[i]) by {
            if i < p.len() {
                assert(d[i] == p[i]);
            }
        }
    }
}

/// Decimal text holds only digits, so no other character.
pub proof fn lemma_decimal_lacks(n: nat, c: char)
    requires
        !is_digit(c),
    ensures
        forall|j: int| 0 <= j < decimal(n).len() ==> decimal(n)[j] != c,
{
    lemma_decimal_digits(n);
    assert forall|j: int| 0 <= j < decimal(n).len() implies decimal(n)[j] != c by {
        assert(is_digit(decimal(n)[j]));
    }
}

/// Reading back what [`decimal`] writes gives the number again, for any
/// bound that the number meets.
pub proof fn law_decimal_round_trip(n: nat, max: int)
    requires
        n <= max,
    ensures
        parse_decimal(decimal(n), max) == Some(n as int),
{
    lemma_decimal_digits(n);
    let d = decimal(n);
    assert(is_digit(d[0]));
    assert(without_plus(d) == d);
}

/// Appends one character to a string.
#[verifier::external_body]
pub(crate) fn push_char(s: &mut String, c: char)
    ensures
        final(s)@ == old(s)@.push(c),
{
    s.push(c);
}

/// The characters of `s`, one element each.
pub fn chars_of(s: &str) -> (r: Vec<char>)
    ensures
        r@ == s@,
{
    let n = s.unicode_len();
    let mut v: Vec<char> = Vec::new();
    let mut i: usize = 0;
    while i < n
        invariant
            n == s@.len(),
            i <= n,
            v@ == s@.take(i as int),
        decreases n - i,
    {
        let c = s.get_char(i);
        v.push(c);
        i = i + 1;
        assert(v@ =~= s@.take(i as int));
    }
    assert(v@ =~= s@);
    v
}

/// The string made of `v[from..to]`.
pub fn string_of(v: &Vec<char>, from: usize, to: usize) -> (r: String)
    requires
        from <= to <= v@.len(),
    ensures
        r@ == v@.subrange(from as int, to as int),
{
    let mut s = String::new();
    let mut i = from;
    while i < to
        invariant
            from <= i <= to <= v@.len(),
            s@ == v@.subrange(from as int, i as int),
        decreases to - i,
    {
        push_char(&mut s, v[i]);
        i = i + 1;
        assert(s@ =~= v@.subrange(from as int, i as int));
    }
    s
}

/// A copy of `v[from..to]`.
pub fn sub_chars(v: &Vec<char>, from: usize, to: usize) -> (r: Vec<char>)
    requires
        from <= to <= v@.len(),
    ensures
        r@ == v@.subrange(from as int, to as int),
{
    let mut out: Vec<char> = Vec::new();
    let mut i = from;
    while i < to
        invariant
            from <= i <= to <= v@.len(),
            out@ == v@.subrange(from as int, i as int),
        decreases to - i,
    {
        out.push(v[i]);
        i = i + 1;
        assert(out@ =~= v@.subrange(from as int, i as int));
    }
    out
}

/// Position of the first `c` in `v`.
pub fn find_char(v: &Vec<char>, c: char) -> (r: Option<usize>)
    ensures
        match r {
            Some(i) => i as int == find_first(v@, c) && i < v@.len() && v@[i as int] == c,
            None => find_first(v@, c) == -1,
        },
{
    let mut i: usize = 0;
    while i < v.len()
        invariant
            i <= v@.len(),
            find_from(v@, c, i as int) == find_first(v@, c),
        decreases v@.len() - i,
    {
        if v[i] == c {
            return Some(i);
        }
        i = i + 1;
    }
    None
}

/// Position of the last `c` in `v`.
pub fn rfind_char(v: &Vec<char>, c: char) -> (r: Option<usize>)
    ensures
        match r {
            Some(i) => i as int == find_last(v@, c) && i < v@.len() && v@[i as int] == c,
            None => find_last(v@, c) == -1,
        },
{
    let mut k: usize = v.len();
    while k > 0
        invariant
            k <= v@.len(),
            find_last_before(v@, c, k as int) == find_last(v@, c),
        decreases k,
    {
        if v[k - 1] == c {
            return Some(k - 1);
        }
        k = k - 1;
    }
    None
}

/// A longer run of digits never denotes a smaller number than its prefix.
pub proof fn lemma_digits_value_prefix(s: Seq<char>, k: int)
    requires
        0 <= k <= s.len(),
        all_digits(s),
    ensures
        0 <= digits_value(s.take(k)) <= digits_value(s),
    decreases s.len(),
{
    if s.len() > 0 {
        let t = s.drop_last();
        assert(all_digits(t)) by {
            assert forall|i: int| 0 <= i < t.len() implies is_digit(#[trigger] t[i]) by {
                assert(t[i] == s[i]);
            }
        }
        assert(is_digit(s[s.len() - 1]));
        if k == s.len() {
            assert(s.take(k) =~= s);
            lemma_digits_value_prefix(t, t.len() as int);
            assert(t.take(t.len() as int) =~= t);
        } else {
            lemma_digits_value_prefix(t, k);
            assert(t.take(k) =~= s.take(k));
            lemma_digits_value_prefix(t, t.len() as int);
            assert(t.take(t.len() as int) =~= t);
        }
    }
}

/// Reads `v[from..to]` as an unsigned decimal number no larger than `max`,
/// as std's `from_str` for unsigned integers does.
pub fn parse_decimal_range(v: &Vec<char>, from: usize, to: usize, max: u32) -> (r: Option<u32>)
    requires
        from <= to <= v@.len(),
    ensures
        match r {
            Some(k) => parse_decimal(v@.subrange(from as int, to as int), max as int) == Some(
                k as int,
            ),
            None => parse_decimal(v@.subrange(from as int, to as int), max as int) is None,
        },
{
    let ghost s = v@.subrange(from as int, to as int);
    let mut i = from;
    if i < to && v[i] == '+' {
        i = i + 1;
    }
    let start = i;
    let ghost d = v@.subrange(start as int, to as int);
    assert(d =~= without_plus(s));
    if start == to {
        return None;
    }
    let mut acc: u64 = 0;
    while i < to
        invariant
            from <= start <= i <= to <= v@.len(),
            d == v@.subrange(start as int, to as int),
            d == without_plus(v@.subrange(from as int, to as int)),
            all_digits(d.take(i - start)),
            acc as int == digits_value(d.take(i - start)),
            acc <= max,
        decreases to - i,
    {
        let c = v[i];
        if !('0' <= c && c <= '9') {
            assert(d[i - start] == c);
            assert(!is_digit(d[i - start]));
            return None;
        }
        let dv: u64 = (c as u64) - ('0' as u64);
        let ghost prev = d.take(i - start);
        let ghost next = d.take(i + 1 - start);
        assert(next.drop_last() =~= prev);
        assert(next.last() == c);
        assert(dv as int == digit_value(c));
        assert(digits_value(next) == digits_value(prev) * 10 + digit_value(c));
        acc = acc * 10 + dv;
        i = i + 1;
        assert(acc as int == digits_value(next));
        assert(all_digits(next)) by {
            assert forall|j: int| 0 <= j < next.len() implies is_digit(#[trigger] next[j]) by {
                if j < prev.len() {
                    assert(next[j] == prev[j]);
                }
            }
        }
        if acc > max as u64 {
            proof {
                if all_digits(d) {
                    lemma_digits_value_prefix(d, i - start);
                    assert(digits_value(d) > max);
                }
            }
            return None;
        }
    }
    assert(d.take(i - start) =~= d);
    Some(acc as u32)
}

/// Appends the decimal digits of `n` to `s`.
pub fn push_decimal(s: &mut String, n: u64)
    ensures
        final(s)@ == old(s)@ + decimal(n as nat),
    decreases n,
{
    if n >= 10 {
        push_decimal(s, n / 10);
    }
    let d = n % 10;
    let c = if d == 0 {
        '0'
    } else if d == 1 {
        '1'
    } else if d == 2 {
        '2'
    } else if d == 3 {
        '3'
    } else if d == 4 {
        '4'
    } else if d == 5 {
        '5'
    } else if d == 6 {
        '6'
    } else if d == 7 {
        '7'
    } else if d == 8 {
        '8'
    } else {
        '9'
    };
    push_char(s, c);
    if n >= 10 {
        assert(final(s)@ =~= old(s)@ + decimal(n as nat)) by {
            assert(decimal(n as nat) == decimal((n / 10) as nat).push(digit_char((n % 10) as int)));
        }
    } else {
        assert(decimal(n as nat) == seq![digit_char(n as int)]);
        assert(final(s)@ =~= old(s)@ + decimal(n as nat));
    }
}

/// Appends the decimal text of `n` to `s`, with a `-` for a negative number.
pub fn push_signed_decimal(s: &mut String, n: i64)
    ensures
        final(s)@ == old(s)@ + signed_decimal(n as int),
{
    if n < 0 {
        push_char(s, '-');
        let m: u64 = if n == i64::MIN { 9223372036854775808u64 } else { (-n) as u64 };
        push_decimal(s, m);
        assert(final(s)@ =~= old(s)@ + signed_decimal(n as int));
    } else {
        push_decimal(s, n as u64);
    }
}

/// Whether `v[at..]` begins with the characters of `p`.
pub fn has_prefix_at(v: &Vec<char>, at: usize, p: &Vec<char>) -> (r: bool)
    requires
        at <= v@.len(),
    ensures
        r == starts_with(v@.subrange(at as int, v@.len() as int), p@),
{
    let ghost s = v@.subrange(at as int, v@.len() as int);
    if p.len() > v.len() - at {
        return false;
    }
    let n = v.len();
    let mut i: usize = 0;
    while i < p.len()
        invariant
            n == v@.len(),
            at + p@.len() <= v@.len(),
            s == v@.subrange(at as int, v@.len() as int),
            i <= p@.len(),
            forall|j: int| 0 <= j < i ==> v@[at + j] == p@[j],
        decreases p@.len() - i,
    {
        let idx = at + i;
        if v[idx] != p[i] {
            assert(s.subrange(0, p@.len() as int)[i as int] != p@[i as int]);
            return false;
        }
        i = i + 1;
    }
    assert(s.subrange(0, p@.len() as int) =~= p@);
    true
}

/// Whether `needle` occurs in `hay`.
pub fn contains_chars(hay: &Vec<char>, needle: &Vec<char>) -> (r: bool)
    ensures
        r == contains_seq(hay@, needle@),
{
    if needle.len() > hay.len() {
        return false;
    }
    let last = hay.len() - needle.len();
    let mut i: usize = 0;
    while i <= last
        invariant
            last + needle@.len() == hay@.len(),
            i <= last + 1,
            forall|j: int|
                0 <= j < i ==> #[trigger] hay@.subrange(j, j + needle@.len()) != needle@,
        decreases last + 1 - i,
    {
        if has_prefix_at(hay, i, needle) {
            assert(hay@.subrange(i as int, i + needle@.len()) =~= hay@.subrange(
                i as int,
                hay@.len() as int,
            ).subrange(0, needle@.len() as int));
            return true;
        }
        assert(hay@.subrange(i as int, i + needle@.len()) =~= hay@.subrange(
            i as int,
            hay@.len() as int,
        ).subrange(0, needle@.len() as int));
        if i == last {
            return false;
        }
        i = i + 1;
    }
    false
}

/// Whether two character runs are equal.
pub fn same_chars(a: &Vec<char>, b: &Vec<char>) -> (r: bool)
    ensures
        r == (a@ == b@),
{
    if a.len() != b.len() {
        return false;
    }
    let mut i: usize = 0;
    while i < a.len()
        invariant
            a@.len() == b@.len(),
            i <= a@.len(),
            forall|j: int| 0 <= j < i ==> a@[j] == b@[j],
        decreases a@.len() - i,
    {
        if a[i] != b[i] {
            return false;
        }
        i = i + 1;
    }
    assert(a@ =~= b@);
    true
}

/// Whether two strings hold the same characters.
pub fn str_eq(a: &str, b: &str) -> (r: bool)
    ensures
        r == (a@ == b@),
{
    let x = chars_of(a);
    let y = chars_of(b);
    same_chars(&x, &y)
}

} // verus!
