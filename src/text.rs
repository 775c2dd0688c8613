//! Decimal numbers as text: writing them, padding them, reading them.

use vstd::prelude::*;

verus! {

/// The ASCII digit for `d` (below ten).
pub open spec fn digit_char(d: nat) -> char {
    if d == 0 {
        '0'
    } else if d == 1 {
        '1'
    } else if d == 2 {
        '2'
    } else if d == 3 {
        '3'
    } else if d == 4 {
        '4'
    } else if d == 5 {
        '5'
    } else if d == 6 {
        '6'
    } else if d == 7 {
        '7'
    } else if d == 8 {
        '8'
    } else {
        '9'
    }
}

/// `n` in decimal, without leading zeros.
pub open spec fn decimal(n: nat) -> Seq<char>
    decreases n,
{
    if n < 10 {
        seq![digit_char(n)]
    } else {
        decimal(n / 10) + seq![digit_char(n % 10)]
    }
}

/// `n` in decimal, at least two digits wide, padded with a zero.
pub open spec fn padded2(n: nat) -> Seq<char> {
    if n < 10 {
        seq!['0'] + decimal(n)
    } else {
        decimal(n)
    }
}

fn digit_text(d: u64) -> (r: &'static str)
    requires
        d < 10,
    ensures
        r@ == seq![digit_char(d as nat)],
{
    proof {
        reveal_strlit("0");
        reveal_strlit("1");
        reveal_strlit("2");
        reveal_strlit("3");
        reveal_strlit("4");
        reveal_strlit("5");
        reveal_strlit("6");
        reveal_strlit("7");
        reveal_strlit("8");
        reveal_strlit("9");
    }
    if d == 0 {
        "0"
    } else if d == 1 {
        "1"
    } else if d == 2 {
        "2"
    } else if d == 3 {
        "3"
    } else if d == 4 {
        "4"
    } else if d == 5 {
        "5"
    } else if d == 6 {
        "6"
    } else if d == 7 {
        "7"
    } else if d == 8 {
        "8"
    } else {
        "9"
    }
}

/// Appends `n` in decimal.
pub fn push_decimal(s: &mut String, n: u64)
    ensures
        final(s)@ == old(s)@ + decimal(n as nat),
    decreases n,
{
    if n >= 10 {
        push_decimal(s, n / 10);
    }
    s.append(digit_text(n % 10));
    assert(decimal(n as nat) == (if n < 10 {
        seq![digit_char(n as nat)]
    } else {
        decimal((n / 10) as nat) + seq![digit_char((n % 10) as nat)]
    }));
}

/// Appends `n` in decimal, padded to two digits.
pub fn push_padded2(s: &mut String, n: u64)
    ensures
        final(s)@ == old(s)@ + padded2(n as nat),
{
    if n < 10 {
        s.append("0");
        proof {
            reveal_strlit("0");
        }
    }
    push_decimal(s, n);
    proof {
        if n < 10 {
            assert(final(s)@ =~= old(s)@ + padded2(n as nat));
        }
    }
}


pub open spec fn is_digit(c: char) -> bool {
    '0' <= c <= '9'
}

pub open spec fn digit_value(c: char) -> nat {
    (c as int - '0' as int) as nat
}

/// The number that a string of digits reads as in decimal (0 when empty).
pub open spec fn digits_value(s: Seq<char>) -> nat
    decreases s.len(),
{
    if s.len() == 0 {
        0
    } else {
        digits_value(s.drop_last()) * 10 + digit_value(s.last())
    }
}

pub open spec fn all_digits(s: Seq<char>) -> bool {
    forall|i: int| 0 <= i < s.len() ==> is_digit(#[trigger] s[i])
}

/// What `u16::from_str` accepts: an optional `+`, then one digit or more,
/// worth at most 65535.
pub open spec fn parse_u16(s: Seq<char>) -> Option<nat> {
    let ds = if s.len() > 0 && s[0] == '+' {
        s.drop_first()
    } else {
        s
    };
    if ds.len() > 0 && all_digits(ds) && digits_value(ds) <= 65535 {
        Some(digits_value(ds))
    } else {
        None
    }
}

/// Index of the first `/` at or after `from`, or the length when there is none.
pub open spec fn next_slash(s: Seq<char>, from: int) -> int
    decreases s.len() - from,
{
    if from >= s.len() {
        s.len() as int
    } else if s[from] == '/' {
        from
    } else {
        next_slash(s, from + 1)
    }
}

proof fn lemma_digits_step(s: Seq<char>, lo: int, i: int)
    requires
        0 <= lo <= i < s.len(),
    ensures
        digits_value(s.subrange(lo, i + 1)) == digits_value(s.subrange(lo, i)) * 10
            + digit_value(s[i]),
{
    assert(s.subrange(lo, i + 1).drop_last() =~= s.subrange(lo, i));
}

proof fn lemma_digits_prefix_le(t: Seq<char>, k: int)
    requires
        0 <= k <= t.len(),
    ensures
        digits_value(t.subrange(0, k)) <= digits_value(t),
    decreases t.len(),
{
    if k < t.len() {
        let u = t.drop_last();
        lemma_digits_prefix_le(u, k);
        assert(u.subrange(0, k) =~= t.subrange(0, k));
    } else {
        assert(t.subrange(0, k) =~= t);
    }
}

fn digit_at(s: &str, i: usize) -> (r: Option<u32>)
    requires
        i < s@.len(),
    ensures
        r == (if is_digit(s@[i as int]) {
            Some(digit_value(s@[i as int]) as u32)
        } else {
            None
        }),
{
    let c = s.get_char(i);
    if '0' <= c && c <= '9' {
        Some((c as u32) - ('0' as u32))
    } else {
        None
    }
}

/// Reads `s[lo..hi]` as `u16::from_str` does.
pub fn parse_u16_range(s: &str, lo: usize, hi: usize) -> (r: Option<u16>)
    requires
        lo <= hi <= s@.len(),
    ensures
        r == (match parse_u16(s@.subrange(lo as int, hi as int)) {
            Some(v) => Some(v as u16),
            None => None,
        }),
{
    let ghost t = s@.subrange(lo as int, hi as int);
    let mut start = lo;
    if lo < hi && s.get_char(lo) == '+' {
        start = lo + 1;
    }
    let ghost ds = s@.subrange(start as int, hi as int);
    assert(ds =~= (if t.len() > 0 && t[0] == '+' {
        t.drop_first()
    } else {
        t
    }));
    if start == hi {
        return None;
    }
    let mut acc: u32 = 0;
    let mut i = start;
    while i < hi
        invariant
            lo <= start <= i <= hi <= s@.len(),
            ds == s@.subrange(start as int, hi as int),
            t == s@.subrange(lo as int, hi as int),
            ds == (if t.len() > 0 && t[0] == '+' {
                t.drop_first()
            } else {
                t
            }),
            ds.len() > 0,
            acc == digits_value(s@.subrange(start as int, i as int)),
            acc <= 65535,
            forall|j: int| start <= j < i ==> is_digit(#[trigger] s@[j]),
        decreases hi - i,
    {
        match digit_at(s, i) {
            None => {
                assert(ds[i - start] == s@[i as int]);
                assert(!all_digits(ds));
                assert(parse_u16(t) is None);
                return None;
            },
            Some(d) => {
                proof {
                    lemma_digits_step(s@, start as int, i as int);
                }
                acc = acc * 10 + d;
                if acc > 65535 {
                    proof {
                        if all_digits(ds) {
                            assert(ds.subrange(0, i + 1 - start) =~= s@.subrange(
                                start as int,
                                i + 1,
                            ));
                            lemma_digits_prefix_le(ds, i + 1 - start);
                            assert(digits_value(ds) > 65535);
                        }
                        assert(parse_u16(t) is None);
                    }
                    return None;
                }
                i = i + 1;
            },
        }
    }
    assert(s@.subrange(start as int, i as int) =~= ds);
    assert(all_digits(ds));
    Some(acc as u16)
}

/// Index of the first `/` at or after `from`, or the length when there is none.
pub fn find_slash(s: &str, from: usize) -> (r: usize)
    requires
        from <= s@.len(),
    ensures
        r == next_slash(s@, from as int),
        from <= r <= s@.len(),
{
    let n = s.unicode_len();
    let mut i = from;
    while i < n
        invariant
            from <= i <= n == s@.len(),
            next_slash(s@, from as int) == next_slash(s@, i as int),
        decreases n - i,
    {
        if s.get_char(i) == '/' {
            return i;
        }
        i = i + 1;
    }
    i
}


pub open spec fn pow10(k: nat) -> nat
    decreases k,
{
    if k == 0 {
        1
    } else {
        10 * pow10((k - 1) as nat)
    }
}

/// The number written as the year, then the month and the day padded to two
/// digits each, read back in decimal (2024-03-07 gives 20240307).
pub open spec fn date_id(year: nat, month: nat, day: nat) -> nat {
    digits_value(decimal(year) + padded2(month) + padded2(day))
}

/// The three numbers of a `a/b/c` text, each read as `u16::from_str` reads it;
/// `None` unless the text splits at its first two `/` into three such numbers.
pub open spec fn slash_triple(s: Seq<char>) -> Option<(nat, nat, nat)> {
    let p1 = next_slash(s, 0);
    let p2 = next_slash(s, p1 + 1);
    if p1 < s.len() && p2 < s.len() {
        match (
            parse_u16(s.subrange(0, p1)),
            parse_u16(s.subrange(p1 + 1, p2)),
            parse_u16(s.subrange(p2 + 1, s.len() as int)),
        ) {
            (Some(a), Some(b), Some(c)) => Some((a, b, c)),
            _ => None,
        }
    } else {
        None
    }
}

/// A hijri date `d/m/y` of three numbers written `DD/MM/Y`; any other text
/// as it is.
pub open spec fn hijri_text(s: Seq<char>) -> Seq<char> {
    match slash_triple(s) {
        Some((a, b, c)) => padded2(a) + seq!['/'] + padded2(b) + seq!['/'] + decimal(c),
        None => s,
    }
}

pub proof fn lemma_digits_concat(a: Seq<char>, b: Seq<char>)
    ensures
        digits_value(a + b) == digits_value(a) * pow10(b.len()) + digits_value(b),
    decreases b.len(),
{
    if b.len() == 0 {
        assert(a + b =~= a);
        assert(pow10(0) == 1);
        assert(digits_value(a) * 1 == digits_value(a));
    } else {
        let c = b.drop_last();
        lemma_digits_concat(a, c);
        assert((a + b).drop_last() =~= a + c);
        assert((a + b).last() == b.last());
        let x = digits_value(a);
        let y = digits_value(c);
        let p = pow10(c.len());
        let l = digit_value(b.last());
        assert(pow10(b.len()) == 10 * p);
        assert(digits_value(a + b) == digits_value(a + c) * 10 + l);
        assert(b.drop_last() =~= c);
        assert(digits_value(b) == y * 10 + l);
        assert((x * p + y) * 10 + l == x * (10 * p) + (y * 10 + l)) by (nonlinear_arith);
        assert(digits_value(a + b) == x * pow10(b.len()) + digits_value(b));
    }
}

proof fn lemma_digit_char(d: nat)
    requires
        d < 10,
    ensures
        digit_value(digit_char(d)) == d,
        is_digit(digit_char(d)),
{
}

pub proof fn lemma_decimal_value(n: nat)
    ensures
        digits_value(decimal(n)) == n,
        all_digits(decimal(n)),
        decimal(n).len() >= 1,
    decreases n,
{
    if n < 10 {
        lemma_digit_char(n);
        assert(seq![digit_char(n)].drop_last() =~= Seq::<char>::empty());
        assert(digits_value(Seq::<char>::empty()) == 0);
        assert(digits_value(decimal(n)) == digits_value(Seq::<char>::empty()) * 10 + digit_value(
            digit_char(n),
        ));
    } else {
        lemma_decimal_value(n / 10);
        lemma_digit_char(n % 10);
        let s = decimal(n);
        assert(s.drop_last() =~= decimal(n / 10));
        assert(s.last() == digit_char(n % 10));
        assert(digits_value(s) == digits_value(decimal(n / 10)) * 10 + digit_value(
            digit_char(n % 10),
        ));
        assert forall|i: int| 0 <= i < s.len() implies is_digit(#[trigger] s[i]) by {
            if i < s.len() - 1 {
                assert(s[i] == decimal(n / 10)[i]);
            }
        }
    }
}

pub proof fn lemma_padded2_value(n: nat)
    ensures
        digits_value(padded2(n)) == n,
        all_digits(padded2(n)),
{
    lemma_decimal_value(n);
    if n < 10 {
        lemma_digits_concat(seq!['0'], decimal(n));
        assert(seq!['0'].drop_last() =~= Seq::<char>::empty());
        assert(digits_value(Seq::<char>::empty()) == 0);
        assert(digits_value(seq!['0']) == 0);
        assert(padded2(n) == seq!['0'] + decimal(n));
        assert(digits_value(padded2(n)) == 0 * pow10(decimal(n).len()) + n);
        let s = padded2(n);
        assert forall|i: int| 0 <= i < s.len() implies is_digit(#[trigger] s[i]) by {
            if i > 0 {
                assert(s[i] == decimal(n)[i - 1]);
            }
        }
    }
}

pub proof fn lemma_decimal_len(n: nat)
    ensures
        n < 10 ==> decimal(n).len() == 1,
        10 <= n < 100 ==> decimal(n).len() == 2,
        100 <= n < 1000 ==> decimal(n).len() == 3,
        1000 <= n < 10000 ==> decimal(n).len() == 4,
        10000 <= n < 100000 ==> decimal(n).len() == 5,
    decreases n,
{
    if n >= 10 {
        lemma_decimal_len(n / 10);
    }
}

/// For a month and a day below 100 the id is `year * 10000 + month * 100 + day`.
pub proof fn lemma_date_id_value(year: nat, month: nat, day: nat)
    requires
        month < 100,
        day < 100,
    ensures
        date_id(year, month, day) == year * 10000 + month * 100 + day,
{
    lemma_decimal_value(year);
    lemma_padded2_value(month);
    lemma_padded2_value(day);
    lemma_decimal_len(month);
    lemma_decimal_len(day);
    lemma_digits_concat(decimal(year), padded2(month));
    lemma_digits_concat(decimal(year) + padded2(month), padded2(day));
    reveal_with_fuel(pow10, 3);
    assert(padded2(month).len() == 2);
    assert(padded2(day).len() == 2);
    assert(pow10(2) == 100);
    assert(digits_value(decimal(year) + padded2(month)) == year * 100 + month);
    assert((year * 100 + month) * 100 + day == year * 10000 + month * 100 + day) by (nonlinear_arith);
}

/// Length of `padded2(n)` and the matching power of ten.
fn padded2_scale(n: u64) -> (r: u64)
    requires
        n < 100000,
    ensures
        r == pow10(padded2(n as nat).len()),
        r <= 100000,
{
    proof {
        lemma_decimal_len(n as nat);
        reveal_with_fuel(pow10, 6);
    }
    if n < 100 {
        100
    } else if n < 1000 {
        1000
    } else if n < 10000 {
        10000
    } else {
        100000
    }
}

/// The decimal id `YYYYMMDD` of a date.
pub fn date_id_of(year: u16, month: u8, day: u16) -> (r: u64)
    ensures
        r == date_id(year as nat, month as nat, day as nat),
{
    let pm = padded2_scale(month as u64);
    let pd = padded2_scale(day as u64);
    proof {
        lemma_decimal_value(year as nat);
        lemma_padded2_value(month as nat);
        lemma_padded2_value(day as nat);
        lemma_digits_concat(decimal(year as nat), padded2(month as nat));
        lemma_digits_concat(decimal(year as nat) + padded2(month as nat), padded2(day as nat));
        assert((year as u64) * pm + (month as u64) <= 65535 * 100000 + 255) by (nonlinear_arith)
            requires
                year <= 65535,
                pm <= 100000,
                month <= 255,
        ;
        let a = (year as u64) * pm + (month as u64);
        assert(a * pd + (day as u64) <= (65535 * 100000 + 255) * 100000 + 65535)
            by (nonlinear_arith)
            requires
                a <= 65535 * 100000 + 255,
                pd <= 100000,
                day <= 65535,
        ;
    }
    ((year as u64) * pm + (month as u64)) * pd + (day as u64)
}

/// The hijri date `d/m/y` written `DD/MM/Y`; any other text unchanged.
pub fn reformat_hijri(s: &String) -> (r: String)
    ensures
        r@ == hijri_text(s@),
{
    let t = s.as_str();
    let n = t.unicode_len();
    let p1 = find_slash(t, 0);
    if p1 < n {
        let p2 = find_slash(t, p1 + 1);
        if p2 < n {
            let a = parse_u16_range(t, 0, p1);
            let b = parse_u16_range(t, p1 + 1, p2);
            let c = parse_u16_range(t, p2 + 1, n);
            match (a, b, c) {
                (Some(a), Some(b), Some(c)) => {
                    let mut r = String::new();
                    push_padded2(&mut r, a as u64);
                    r.append("/");
                    push_padded2(&mut r, b as u64);
                    r.append("/");
                    push_decimal(&mut r, c as u64);
                    proof {
                        reveal_strlit("/");
                    }
                    return r;
                },
                _ => {},
            }
        }
    }
    s.clone()
}

} // verus!
