//! Reading and writing decimal numbers.
use vstd::prelude::*;
use crate::text::{chars_of, decimal, decimal_string, digit_char, digit_of, is_digit, char_is_digit};

verus! {

/// The value of a digit character.
pub open spec fn digit_value(c: char) -> nat {
    ((c as u32) - ('0' as u32)) as nat
}

/// Whether every character of `s` is an ASCII digit.
pub open spec fn all_digits(s: Seq<char>) -> bool {
    forall|i: int| 0 <= i < s.len() ==> is_digit(#[trigger] s[i])
}

/// The value of a string of digits.
pub open spec fn digits_value(s: Seq<char>) -> nat
    decreases s.len(),
{
    if s.len() == 0 {
        0
    } else {
        digits_value(s.drop_last()) * 10 + digit_value(s.last())
    }
}

/// `s` without a leading `+`.
pub open spec fn unsigned_body(s: Seq<char>) -> Seq<char> {
    if s.len() > 0 && s[0] == '+' {
        s.subrange(1, s.len() as int)
    } else {
        s
    }
}

/// The `u32` that `str::parse::<u32>` reads from `s`: an optional `+` and at
/// least one digit, with a value that fits.
pub open spec fn u32_spec(s: Seq<char>) -> Option<nat> {
    let b = unsigned_body(s);
    if b.len() > 0 && all_digits(b) && digits_value(b) <= u32::MAX {
        Some(digits_value(b))
    } else {
        None
    }
}

/// The `i32` that `str::parse::<i32>` reads from `s`: an optional sign and at
/// least one digit, with a value that fits.
pub open spec fn i32_spec(s: Seq<char>) -> Option<int> {
    if s.len() > 0 && s[0] == '-' {
        let b = s.subrange(1, s.len() as int);
        if b.len() > 0 && all_digits(b) && digits_value(b) <= 0x8000_0000 {
            Some(-(digits_value(b) as int))
        } else {
            None
        }
    } else {
        let b = unsigned_body(s);
        if b.len() > 0 && all_digits(b) && digits_value(b) <= 0x7fff_ffff {
            Some(digits_value(b) as int)
        } else {
            None
        }
    }
}

proof fn lemma_digits_value_step(s: Seq<char>, i: int)
    requires
        0 <= i < s.len(),
    ensures
        digits_value(s.subrange(0, i + 1)) == digits_value(s.subrange(0, i)) * 10 + digit_value(s[i]),
{
    assert(s.subrange(0, i + 1).drop_last() =~= s.subrange(0, i));
}

proof fn lemma_digits_value_monotone(s: Seq<char>, i: int, j: int)
    requires
        0 <= i <= j <= s.len(),
    ensures
        digits_value(s.subrange(0, i)) <= digits_value(s.subrange(0, j)),
    decreases j - i,
{
    if i < j {
        lemma_digits_value_monotone(s, i, j - 1);
        lemma_digits_value_step(s, j - 1);
    }
}

/// The value of the digits `v[from..]`, when all are digits and the value is at most `bound`.
fn read_digits(v: &Vec<char>, from: usize, bound: u64) -> (r: Option<u64>)
    requires
        from <= v@.len(),
        bound <= 0x1_0000_0000,
    ensures
        ({
            let b = v@.subrange(from as int, v@.len() as int);
            r is Some <==> (all_digits(b) && digits_value(b) <= bound)
        }),
        r matches Some(x) ==> x == digits_value(v@.subrange(from as int, v@.len() as int)),
{
    let ghost b = v@.subrange(from as int, v@.len() as int);
    let mut acc: u64 = 0;
    let mut i = from;
    while i < v.len()
        invariant
            from <= i <= v@.len(),
            b == v@.subrange(from as int, v@.len() as int),
            bound <= 0x1_0000_0000,
            acc <= bound,
            forall|j: int| from <= j < i ==> is_digit(v@[j]),
            acc == digits_value(b.subrange(0, i - from)),
        decreases v@.len() - i,
    {
        let c = v[i];
        if !char_is_digit(c) {
            assert(!is_digit(b[i - from]));
            return None;
        }
        proof {
            lemma_digits_value_step(b, i - from);
        }
        let d = ((c as u32) - ('0' as u32)) as u64;
        let next = acc * 10 + d;
        if next > bound {
            proof {
                lemma_digits_value_monotone(b, i - from + 1, b.len() as int);
                assert(b.subrange(0, b.len() as int) =~= b);
            }
            return None;
        }
        acc = next;
        i = i + 1;
    }
    assert(b.subrange(0, b.len() as int) =~= b);
    Some(acc)
}

/// Reads a `u32` as `str::parse::<u32>` does.
pub fn parse_u32(s: &str) -> (r: Option<u32>)
    ensures
        match r {
            Some(x) => u32_spec(s@) == Some(x as nat),
            None => u32_spec(s@) is None,
        },
{
    let v = chars_of(s);
    let start: usize = if v.len() > 0 && v[0] == '+' {
        1
    } else {
        0
    };
    proof {
        assert(unsigned_body(s@) =~= v@.subrange(start as int, v@.len() as int));
    }
    if start >= v.len() {
        return None;
    }
    match read_digits(&v, start, 0xffff_ffff) {
        Some(x) => Some(x as u32),
        None => None,
    }
}

/// Reads an `i32` as `str::parse::<i32>` does.
pub fn parse_i32(s: &str) -> (r: Option<i32>)
    ensures
        match r {
            Some(x) => i32_spec(s@) == Some(x as int),
            None => i32_spec(s@) is None,
        },
{
    let v = chars_of(s);
    if v.len() > 0 && v[0] == '-' {
        if v.len() < 2 {
            return None;
        }
        match read_digits(&v, 1, 0x8000_0000) {
            Some(x) => {
                let y = (0i64 - (x as i64)) as i32;
                Some(y)
            },
            None => None,
        }
    } else {
        let start: usize = if v.len() > 0 && v[0] == '+' {
            1
        } else {
            0
        };
        proof {
            assert(unsigned_body(s@) =~= v@.subrange(start as int, v@.len() as int));
        }
        if start >= v.len() {
            return None;
        }
        match read_digits(&v, start, 0x7fff_ffff) {
            Some(x) => Some(x as i32),
            None => None,
        }
    }
}

// ── Fixed-point decimals ────────────────────────────────────────────────────

pub open spec fn pow10(e: nat) -> nat
    decreases e,
{
    if e == 0 {
        1
    } else {
        10 * pow10((e - 1) as nat)
    }
}

/// The `e` low digits of `m`, most significant first, with leading zeros.
pub open spec fn padded_digits(m: nat, e: nat) -> Seq<char>
    decreases e,
{
    if e == 0 {
        seq![]
    } else {
        padded_digits(m / 10, (e - 1) as nat).push(digit_char(m % 10))
    }
}

/// `s` without trailing `0` characters.
pub open spec fn strip_trailing_zeros(s: Seq<char>) -> Seq<char>
    decreases s.len(),
{
    if s.len() > 0 && s.last() == '0' {
        strip_trailing_zeros(s.drop_last())
    } else {
        s
    }
}

/// The shortest decimal text of `m / 10^e`: the integer part, then a point and
/// the fractional digits when they are not all zero.
pub open spec fn fixed_point(m: nat, e: nat) -> Seq<char> {
    let ip = m / pow10(e);
    let frac = strip_trailing_zeros(padded_digits(m % pow10(e), e));
    if frac.len() == 0 {
        decimal(ip)
    } else {
        decimal(ip) + "."@ + frac
    }
}

pub proof fn lemma_pow10_pos(e: nat)
    ensures
        pow10(e) >= 1,
    decreases e,
{
    if e > 0 {
        lemma_pow10_pos((e - 1) as nat);
    }
}

/// `10^e`.
pub fn pow10_exec(e: usize) -> (r: u128)
    requires
        e <= 30,
    ensures
        r == pow10(e as nat),
    decreases e,
{
    if e == 0 {
        1
    } else {
        let p = pow10_exec(e - 1);
        proof {
            lemma_pow10_bound((e - 1) as nat);
        }
        10 * p
    }
}

pub proof fn lemma_pow10_bound(e: nat)
    requires
        e <= 30,
    ensures
        pow10(e) <= 1_000_000_000_000_000_000_000_000_000_000,
{
    lemma_pow10_mono(e, 30);
    reveal_with_fuel(pow10, 31);
}

pub proof fn lemma_pow10_mono(a: nat, b: nat)
    requires
        a <= b,
    ensures
        pow10(a) <= pow10(b),
    decreases b - a,
{
    if a < b {
        lemma_pow10_mono(a, (b - 1) as nat);
        lemma_pow10_pos((b - 1) as nat);
    }
}

/// The shortest decimal text of `m / 10^e`.
pub fn fixed_point_string(m: u128, e: usize) -> (r: String)
    requires
        e <= 30,
    ensures
        r@ == fixed_point(m as nat, e as nat),
{
    let p = pow10_exec(e);
    proof {
        lemma_pow10_pos(e as nat);
    }
    let ip = m / p;
    let fp = m % p;
    let mut digits: Vec<char> = Vec::new();
    let mut k: usize = 0;
    let mut rest = fp;
    let ghost full = padded_digits(fp as nat, e as nat);
    while k < e
        invariant
            k <= e,
            e <= 30,
            digits@.len() == k,
            padded_digits(fp as nat, e as nat) == padded_digits(rest as nat, (e - k) as nat) + digits@,
        decreases e - k,
    {
        let d = (rest % 10) as usize;
        proof {
            let pd = padded_digits(rest as nat, (e - k) as nat);
            assert(pd == padded_digits((rest / 10) as nat, (e - k - 1) as nat).push(digit_char((rest % 10) as nat)));
        }
        let ghost old_digits = digits@;
        digits.insert(0, digit_of(d));
        proof {
            assert(digits@ =~= seq![digit_char(d as nat)] + old_digits);
            assert(padded_digits((rest / 10) as nat, (e - k - 1) as nat).push(digit_char((rest % 10) as nat)) + old_digits
                =~= padded_digits((rest / 10) as nat, (e - k - 1) as nat) + digits@);
        }
        rest = rest / 10;
        k = k + 1;
    }
    assert(padded_digits(rest as nat, 0) =~= Seq::<char>::empty());
    assert(digits@ =~= full);
    let mut end = digits.len();
    assert(digits@.subrange(0, end as int) =~= digits@);
    while end > 0 && digits[end - 1] == '0'
        invariant
            end <= digits@.len(),
            strip_trailing_zeros(digits@.subrange(0, end as int)) == strip_trailing_zeros(full),
            digits@ == full,
        decreases end,
    {
        proof {
            assert(digits@.subrange(0, end as int).drop_last() =~= digits@.subrange(0, end - 1));
        }
        end = end - 1;
    }
    proof {
        assert(digits@.subrange(0, digits@.len() as int) =~= digits@);
    }
    let mut out = decimal_u128(ip);
    if end > 0 {
        out.push('.');
        let mut i: usize = 0;
        let ghost base = out@;
        while i < end
            invariant
                i <= end,
                end <= digits@.len(),
                out@ == base + digits@.subrange(0, i as int),
            decreases end - i,
        {
            out.push(digits[i]);
            i = i + 1;
            assert(out@ =~= base + digits@.subrange(0, i as int));
        }
        proof {
            reveal_strlit(".");
            assert(out@ =~= decimal(ip as nat) + "."@ + digits@.subrange(0, end as int));
        }
    }
    out
}

/// The decimal numeral of a `u128`.
pub fn decimal_u128(n: u128) -> (r: String)
    ensures
        r@ == decimal(n as nat),
    decreases n,
{
    if n < 10 {
        let mut out = String::new();
        out.push(digit_of(n as usize));
        assert(out@ =~= seq![digit_char(n as nat)]);
        out
    } else {
        let mut out = decimal_u128(n / 10);
        out.push(digit_of((n % 10) as usize));
        out
    }
}

// ── Decimal numerals ────────────────────────────────────────────────────────

/// A decimal numeral: an optional sign, digits with an optional point, and at
/// least one digit, at most 19 digits in all. Gives the sign, the digits as a
/// number, and the number of digits after the point.
pub open spec fn numeral_spec(s: Seq<char>) -> Option<(bool, nat, nat)> {
    let neg = s.len() > 0 && s[0] == '-';
    let b = if s.len() > 0 && (s[0] == '-' || s[0] == '+') {
        s.subrange(1, s.len() as int)
    } else {
        s
    };
    let dot = crate::text::index_of_from(b, '.', 0);
    let ip = b.subrange(0, dot);
    let fp = if dot < b.len() {
        b.subrange(dot + 1, b.len() as int)
    } else {
        seq![]
    };
    if all_digits(ip) && all_digits(fp) && ip.len() + fp.len() >= 1 && ip.len() + fp.len() <= 19 {
        Some((neg, digits_value(ip + fp), fp.len()))
    } else {
        None
    }
}

proof fn lemma_digits_value_bound(s: Seq<char>)
    requires
        all_digits(s),
    ensures
        digits_value(s) < pow10(s.len()),
    decreases s.len(),
{
    if s.len() > 0 {
        lemma_digits_value_bound(s.drop_last());
        assert(is_digit(s[s.len() - 1]));
    }
}

proof fn lemma_pow10_19()
    ensures
        pow10(19) == 10_000_000_000_000_000_000,
{
    reveal_with_fuel(pow10, 20);
}

/// Reads a decimal numeral.
pub fn parse_numeral(s: &str) -> (r: Option<(bool, u64, usize)>)
    ensures
        match r {
            Some((neg, n, f)) => numeral_spec(s@) == Some((neg, n as nat, f as nat)),
            None => numeral_spec(s@) is None,
        },
{
    let v = chars_of(s);
    let neg = v.len() > 0 && v[0] == '-';
    let start: usize = if v.len() > 0 && (v[0] == '-' || v[0] == '+') {
        1
    } else {
        0
    };
    let ghost b = v@.subrange(start as int, v@.len() as int);
    let dot = crate::text::index_of_from_vec(&v, '.', start);
    proof {
        crate::text::lemma_index_of_from_spec(v@, '.', start as int);
        crate::text::lemma_index_of_from_spec(b, '.', 0);
        let d2 = crate::text::index_of_from(b, '.', 0);
        if d2 + start < dot {
            assert(b[d2] == v@[d2 + start]);
        }
        if dot - start < d2 {
            assert(b[dot - start] == v@[dot as int]);
        }
        assert(d2 == dot - start);
    }
    let int_len = dot - start;
    let frac_start = if dot < v.len() {
        dot + 1
    } else {
        v.len()
    };
    let frac_len = v.len() - frac_start;
    if int_len + frac_len < 1 || int_len + frac_len > 19 {
        return None;
    }
    let ghost ip = v@.subrange(start as int, dot as int);
    let ghost fp = v@.subrange(frac_start as int, v@.len() as int);
    proof {
        assert(b.subrange(0, dot - start) =~= ip);
        if dot < v@.len() {
            assert(b.subrange(dot - start + 1, b.len() as int) =~= fp);
        } else {
            assert(fp =~= Seq::<char>::empty());
        }
        assert(!all_digits(ip) || !all_digits(fp) ==> numeral_spec(s@) is None);
    }
    let mut acc: u64 = 0;
    let mut digits: Vec<char> = Vec::new();
    let mut i = start;
    while i < v.len()
        invariant
            ip == v@.subrange(start as int, dot as int),
            fp == v@.subrange(frac_start as int, v@.len() as int),
            !all_digits(ip) || !all_digits(fp) ==> numeral_spec(s@) is None,
            digits@.len() + (if i <= dot {
                (dot - i) + frac_len
            } else {
                v@.len() - i
            }) == int_len + frac_len,
            start <= i <= v@.len(),
            frac_start <= v@.len(),
            dot < v@.len() ==> frac_start == dot + 1,
            dot >= v@.len() ==> frac_start == v@.len(),
            start <= dot <= v@.len(),
            int_len == dot - start,
            frac_len == v@.len() - frac_start,
            int_len + frac_len <= 19,
            i <= dot || i >= frac_start,
            digits@ == (if i <= dot {
                v@.subrange(start as int, i as int)
            } else {
                v@.subrange(start as int, dot as int) + v@.subrange(frac_start as int, i as int)
            }),
            all_digits(digits@),
            acc == digits_value(digits@),
            digits@.len() <= 19,
        decreases v@.len() - i,
    {
        if i == dot {
            i = frac_start;
            assert(v@.subrange(frac_start as int, frac_start as int) =~= Seq::<char>::empty());
            assert(digits@ =~= v@.subrange(start as int, dot as int) + v@.subrange(frac_start as int, i as int));
        } else {
            let c = v[i];
            if !char_is_digit(c) {
                proof {
                    if i < dot {
                        assert(ip[i - start] == c);
                        assert(!all_digits(ip));
                    } else {
                        assert(fp[i - frac_start] == c);
                        assert(!all_digits(fp));
                    }
                }
                return None;
            }
            proof {
                lemma_digits_value_bound(digits@);
                lemma_pow10_19();
                lemma_pow10_mono(digits@.len(), 18);
                reveal_with_fuel(pow10, 20);
                let nd = digits@.push(c);
                assert(nd.drop_last() =~= digits@);
            }
            acc = acc * 10 + ((c as u32) - ('0' as u32)) as u64;
            digits.push(c);
            i = i + 1;
            proof {
                if i <= dot {
                    assert(digits@ =~= v@.subrange(start as int, i as int));
                } else {
                    assert(digits@ =~= v@.subrange(start as int, dot as int) + v@.subrange(frac_start as int, i as int));
                }
            }
        }
    }
    proof {
        if dot < v@.len() {
            assert(digits@ =~= ip + fp);
        } else {
            assert(digits@ =~= ip + fp);
        }
        assert(all_digits(ip)) by {
            assert forall|j: int| 0 <= j < ip.len() implies is_digit(#[trigger] ip[j]) by {
                assert(ip[j] == digits@[j]);
            }
        }
        assert(all_digits(fp)) by {
            assert forall|j: int| 0 <= j < fp.len() implies is_digit(#[trigger] fp[j]) by {
                assert(fp[j] == digits@[ip.len() + j]);
            }
        }
    }
    Some((neg, acc, frac_len))
}


} // verus!
