//! Text helpers: decimal rendering of clock components and parsing of
//! signed decimal fields, both with exact character-level specifications.

use vstd::prelude::*;
use vstd::string::StringExecFns;

verus! {

/// The character for a single decimal digit.
pub open spec fn digit_to_char(d: int) -> char {
    if d == 0 { '0' }
    else if d == 1 { '1' }
    else if d == 2 { '2' }
    else if d == 3 { '3' }
    else if d == 4 { '4' }
    else if d == 5 { '5' }
    else if d == 6 { '6' }
    else if d == 7 { '7' }
    else if d == 8 { '8' }
    else { '9' }
}

/// The decimal digit characters of `n`, most significant first, no leading
/// zeros (a single `'0'` for zero).
pub open spec fn dec_digits(n: nat) -> Seq<char>
    decreases n,
{
    if n < 10 {
        seq![digit_to_char(n as int)]
    } else {
        dec_digits(n / 10) + seq![digit_to_char((n % 10) as int)]
    }
}

/// `s` left-padded with `'0'` to a width of at least two characters.
pub open spec fn pad2(s: Seq<char>) -> Seq<char> {
    if s.len() >= 2 { s } else { seq!['0'] + s }
}

proof fn lemma_dec_digits_len_ge1(n: nat)
    ensures
        dec_digits(n).len() >= 1,
    decreases n,
{
    if n >= 10 {
        lemma_dec_digits_len_ge1(n / 10);
    }
}

proof fn lemma_pad2_two(n: nat)
    requires
        n < 100,
    ensures
        pad2(dec_digits(n)) =~= seq![digit_to_char(n as int / 10), digit_to_char(n as int % 10)],
{
    if n < 10 {
        assert(dec_digits(n) =~= seq![digit_to_char(n as int)]);
        assert(n as int / 10 == 0);
        assert(n as int % 10 == n as int);
    } else {
        assert(10 <= n / 10 * 10 <= n) by (nonlinear_arith)
            requires 10 <= n < 100;
        assert(n / 10 < 10) by (nonlinear_arith)
            requires n < 100;
        assert(dec_digits(n / 10) =~= seq![digit_to_char(n as int / 10)]);
    }
}

proof fn lemma_dec_digits_len_ge3(n: nat)
    requires
        n >= 100,
    ensures
        dec_digits(n).len() >= 3,
{
    assert(n / 10 >= 10);
    assert(dec_digits(n) == dec_digits(n / 10) + seq![digit_to_char((n % 10) as int)]);
    assert(dec_digits(n / 10) == dec_digits(n / 10 / 10) + seq![
        digit_to_char((n / 10 % 10) as int),
    ]);
    lemma_dec_digits_len_ge1(n / 10 / 10);
}

/// The one-character string for a digit value, as executable code.
pub fn digit_str(d: u64) -> (r: &'static str)
    requires
        d < 10,
    ensures
        r@ =~= seq![digit_to_char(d as int)],
{
    proof {
        reveal_strlit("0");
        reveal_strlit("1");
        reveal_strlit("2");
        reveal_strlit("3");
        reveal_strlit("4");
        reveal_strlit("5");
        reveal_strlit("6");
        reveal_strlit("7");
        reveal_strlit("8");
        reveal_strlit("9");
    }
    if d == 0 { "0" }
    else if d == 1 { "1" }
    else if d == 2 { "2" }
    else if d == 3 { "3" }
    else if d == 4 { "4" }
    else if d == 5 { "5" }
    else if d == 6 { "6" }
    else if d == 7 { "7" }
    else if d == 8 { "8" }
    else { "9" }
}

/// Appends the decimal digits of `n` to `s`.
pub fn append_dec(n: u64, s: &mut String)
    ensures
        final(s)@ == old(s)@ + dec_digits(n as nat),
    decreases n,
{
    if n < 10 {
        s.append(digit_str(n));
        assert(s@ =~= old(s)@ + dec_digits(n as nat));
    } else {
        append_dec(n / 10, s);
        s.append(digit_str(n % 10));
        assert(s@ =~= old(s)@ + dec_digits(n as nat));
    }
}

/// Appends exactly two decimal digits (zero-padded) to `s`.
pub fn append_two_digits(n: u64, s: &mut String)
    requires
        n < 100,
    ensures
        final(s)@ == old(s)@ + pad2(dec_digits(n as nat)),
{
    s.append(digit_str(n / 10));
    s.append(digit_str(n % 10));
    proof {
        lemma_pad2_two(n as nat);
        assert(s@ =~= old(s)@ + pad2(dec_digits(n as nat)));
    }
}

/// Appends the decimal digits of `n`, zero-padded to at least two, to `s`.
pub fn append_padded_dec(n: u64, s: &mut String)
    ensures
        final(s)@ == old(s)@ + pad2(dec_digits(n as nat)),
{
    if n < 100 {
        append_two_digits(n, s);
    } else {
        proof {
            lemma_dec_digits_len_ge3(n as nat);
        }
        append_dec(n, s);
    }
}

/// Collects the characters of `s` into a vector.
pub fn str_chars(s: &str) -> (v: Vec<char>)
    ensures
        v@ == s@,
{
    let n = s.unicode_len();
    let mut v: Vec<char> = Vec::new();
    let mut i: usize = 0;
    while i < n
        invariant
            i <= n,
            n == s@.len(),
            v@ == s@.take(i as int),
        decreases n - i,
    {
        let c = s.get_char(i);
        v.push(c);
        assert(v@ =~= s@.take(i as int + 1));
        i = i + 1;
    }
    assert(v@ =~= s@);
    v
}

/// Whether `c` is a decimal digit.
pub open spec fn is_digit(c: char) -> bool {
    '0' <= c && c <= '9'
}

/// The numeric value of a digit character.
pub open spec fn digit_val(c: char) -> int {
    c as u32 - '0' as u32
}

/// Whether `f` is one or more decimal digits.
pub open spec fn is_digits(f: Seq<char>) -> bool {
    f.len() > 0 && forall|i: int| 0 <= i < f.len() ==> is_digit(#[trigger] f[i])
}

/// The value of a sequence of digit characters.
pub open spec fn digits_val(f: Seq<char>) -> int
    decreases f.len(),
{
    if f.len() == 0 {
        0
    } else {
        digits_val(f.drop_last()) * 10 + digit_val(f.last())
    }
}

/// Whether `f` parses as an `i64`: an optional sign, then digits, with the
/// value in range.
pub open spec fn field_ok(f: Seq<char>) -> bool {
    if f.len() > 0 && (f[0] == '+' || f[0] == '-') {
        is_digits(f.skip(1)) && (if f[0] == '-' {
            digits_val(f.skip(1)) <= 0x8000_0000_0000_0000
        } else {
            digits_val(f.skip(1)) <= i64::MAX
        })
    } else {
        is_digits(f) && digits_val(f) <= i64::MAX
    }
}

/// The signed value of a parsed field.
pub open spec fn field_val(f: Seq<char>) -> int {
    if f.len() > 0 && f[0] == '-' {
        -digits_val(f.skip(1))
    } else if f.len() > 0 && f[0] == '+' {
        digits_val(f.skip(1))
    } else {
        digits_val(f)
    }
}

proof fn lemma_digits_val_nonneg(f: Seq<char>)
    requires
        forall|i: int| 0 <= i < f.len() ==> is_digit(#[trigger] f[i]),
    ensures
        digits_val(f) >= 0,
    decreases f.len(),
{
    if f.len() > 0 {
        lemma_digits_val_nonneg(f.drop_last());
    }
}

proof fn lemma_digits_val_prefix_le(f: Seq<char>, k: int)
    requires
        0 <= k <= f.len(),
        forall|i: int| 0 <= i < f.len() ==> is_digit(#[trigger] f[i]),
    ensures
        digits_val(f.take(k)) <= digits_val(f),
    decreases f.len() - k,
{
    if k < f.len() {
        lemma_digits_val_prefix_le(f, k + 1);
        let g = f.take(k + 1);
        assert(g.drop_last() =~= f.take(k));
        lemma_digits_val_nonneg(f.take(k));
        assert(digits_val(g) >= digits_val(f.take(k)));
    } else {
        assert(f.take(k) =~= f);
    }
}

/// Parses `cs[start..end]` as a signed 64-bit decimal integer.
///
/// Returns `None` exactly when that slice is not a valid in-range integer
/// (empty digits, a non-digit character, or a value outside `i64`).
#[verifier::loop_isolation(false)]
pub fn parse_field(cs: &Vec<char>, start: usize, end: usize) -> (r: Option<i64>)
    requires
        start <= end <= cs@.len(),
    ensures
        ({
            let f = cs@.subrange(start as int, end as int);
            match r {
                Some(v) => field_ok(f) && v as int == field_val(f),
                None => !field_ok(f),
            }
        }),
{
    let ghost f = cs@.subrange(start as int, end as int);
    let mut i: usize = start;
    let mut neg = false;
    let mut signed = false;
    if i < end && (cs[i] == '+' || cs[i] == '-') {
        neg = cs[i] == '-';
        signed = true;
        i = i + 1;
    }
    let ghost dstart = i as int;
    let ghost digits = cs@.subrange(dstart, end as int);
    proof {
        if signed {
            assert(f[0] == cs@[start as int]);
            assert(digits =~= f.skip(1));
        } else {
            assert(digits =~= f);
        }
    }
    if i == end {
        // no digits at all
        return None;
    }
    // the largest admissible magnitude, split as 10 * lim_div + lim_mod
    let lim_div: u64 = 922337203685477580;
    let lim_mod: u64 = if neg { 8 } else { 7 };
    let ghost limit = 10 * lim_div + lim_mod;
    let mut mag: u64 = 0;
    while i < end
        invariant
            dstart <= i as int <= end,
            mag <= limit,
            forall|j: int| dstart <= j < i as int ==> is_digit(#[trigger] cs@[j]),
            mag as int == digits_val(cs@.subrange(dstart, i as int)),
        decreases end - i,
    {
        let c = cs[i];
        if !(c >= '0' && c <= '9') {
            proof {
                assert(digits[i - dstart] == cs@[i as int]);
                assert(!is_digits(digits));
            }
            return None;
        }
        let d: u64 = (c as u32 - '0' as u32) as u64;
        let ghost prev = cs@.subrange(dstart, i as int);
        let ghost cur = cs@.subrange(dstart, i as int + 1);
        proof {
            assert(cur.drop_last() =~= prev);
            assert(cur.last() == cs@[i as int]);
        }
        if mag > lim_div || (mag == lim_div && d > lim_mod) {
            // the value can only grow from here: out of range
            proof {
                assert(digits_val(cur) == mag * 10 + d);
                assert(mag * 10 + d > limit);
                if is_digits(digits) {
                    assert(cur =~= digits.take(i - dstart + 1));
                    lemma_digits_val_prefix_le(digits, i - dstart + 1);
                    assert(digits_val(digits) > limit);
                }
                assert(!field_ok(f));
            }
            return None;
        }
        mag = mag * 10 + d;
        i = i + 1;
    }
    proof {
        assert(cs@.subrange(dstart, i as int) =~= digits);
        assert(is_digits(digits));
        assert(field_ok(f));
    }
    if neg {
        if mag == 0x8000_0000_0000_0000 {
            Some(i64::MIN)
        } else {
            Some(-(mag as i64))
        }
    } else {
        Some(mag as i64)
    }
}

/// The position of the first `':'` in `s`, or `-1` if there is none.
pub open spec fn find_colon(s: Seq<char>) -> int
    decreases s.len(),
{
    if s.len() == 0 {
        -1
    } else if s[0] == ':' {
        0
    } else {
        let r = find_colon(s.drop_first());
        if r < 0 { -1 } else { r + 1 }
    }
}

pub proof fn lemma_find_colon_range(s: Seq<char>)
    ensures
        -1 <= find_colon(s) < s.len(),
        find_colon(s) >= 0 ==> s[find_colon(s)] == ':',
        forall|m: int| 0 <= m < find_colon(s) ==> s[m] != ':',
        find_colon(s) == -1 ==> forall|m: int| 0 <= m < s.len() ==> s[m] != ':',
    decreases s.len(),
{
    if s.len() > 0 && s[0] != ':' {
        let t = s.drop_first();
        lemma_find_colon_range(t);
        assert forall|m: int| 0 <= m < find_colon(s) implies s[m] != ':' by {
            if m > 0 {
                assert(s[m] == t[m - 1]);
            }
        }
        if find_colon(s) == -1 {
            assert forall|m: int| 0 <= m < s.len() implies s[m] != ':' by {
                if m > 0 {
                    assert(s[m] == t[m - 1]);
                }
            }
        }
    }
}

/// Pins `find_colon` down from a scan: if no `':'` occurs before `k`, and `k`
/// is either the end or a `':'`, then `k` is where `find_colon` points.
pub proof fn lemma_find_colon_at(s: Seq<char>, k: int)
    requires
        0 <= k <= s.len(),
        forall|m: int| 0 <= m < k ==> s[m] != ':',
        k == s.len() || s[k] == ':',
    ensures
        find_colon(s) == if k == s.len() { -1 as int } else { k },
    decreases s.len(),
{
    if s.len() == 0 {
    } else if s[0] == ':' {
        assert(k == 0);
    } else {
        assert(k >= 1);
        let t = s.drop_first();
        assert(forall|m: int| 0 <= m < k - 1 ==> #[trigger] t[m] == s[m + 1]);
        lemma_find_colon_at(t, k - 1);
    }
}

#[via_fn]
proof fn parse_sum_dec(s: Seq<char>, acc: int) {
    lemma_find_colon_range(s);
}

/// The left-to-right checked sum of the colon-separated integer fields of
/// `s`, starting from `acc`: `None` if any field is not a valid `i64` or any
/// partial sum leaves the `i64` range, else the total.
pub open spec fn parse_sum(s: Seq<char>, acc: int) -> Option<int>
    decreases s.len(),
        via parse_sum_dec
{
    let j = find_colon(s);
    let f = if j < 0 { s } else { s.take(j) };
    if !field_ok(f) {
        None
    } else {
        let a2 = acc + field_val(f);
        if a2 < i64::MIN || a2 > i64::MAX {
            None
        } else if j < 0 {
            Some(a2)
        } else {
            parse_sum(s.skip(j + 1), a2)
        }
    }
}

} // verus!
