//! The line grammar shared by the devices: a keyword, white space and a
//! decimal number, read into thousandths of a unit, and the texts that write
//! such a number back.
use vstd::prelude::*;
use vstd::string::*;
use crate::text::{
    all_digits, chars_of, decimal_run_end, digit_char, digit_of, digit_value, digits_value,
    is_decimal, is_decimal_char, is_digit, is_digit_char, is_space, is_space_char,
    lemma_decimal_run_end, lemma_decimal_run_end_at, lemma_digit_char, lemma_digits_value_prefix,
    lemma_digits_value_push, lemma_nat_digits, lemma_space_run_end_at, nat_digits, push_digits,
    space_run_end,
};

verus! {

broadcast use crate::text::lemma_decimal_char;

/// Why a line is not a reading of a device.
#[derive(Debug, Clone, Copy, PartialEq, Eq, Structural)]
pub enum DecodeError {
    /// The line does not start with the device's keyword, white space and a number.
    NoMatch,
    /// The line has the shape of a reading, but its number cannot be read: it
    /// holds digits other than ASCII ones, or is too large to be held.
    InvalidNumber,
}

/// The digit runs of the number that `s` carries after `keyword`: the whole
/// part and the fraction (empty where there is none). The runs take decimal
/// digits of any script.
pub open spec fn line_number(keyword: Seq<char>, s: Seq<char>) -> Option<(Seq<char>, Seq<char>)> {
    let k = keyword.len() as int;
    if k < s.len() && s.subrange(0, k) == keyword && is_space_char(s[k]) {
        let p = space_run_end(s, k);
        let q = decimal_run_end(s, p);
        if p < q {
            if q + 1 < s.len() && s[q] == '.' && is_decimal_char(s[q + 1]) {
                Some((s.subrange(p, q), s.subrange(q + 1, decimal_run_end(s, q + 1))))
            } else {
                Some((s.subrange(p, q), Seq::<char>::empty()))
            }
        } else {
            None
        }
    } else {
        None
    }
}

/// The `k`-th digit of a fraction, zero past its end.
pub open spec fn fraction_digit(f: Seq<char>, k: int) -> nat {
    if 0 <= k < f.len() {
        digit_of(f[k])
    } else {
        0
    }
}

/// The value in thousandths of the number with the given whole and fraction
/// digits; fraction digits past the third are dropped.
pub open spec fn literal_thousandths(whole: Seq<char>, fraction: Seq<char>) -> nat {
    digits_value(whole) * 1000 + fraction_digit(fraction, 0) * 100 + fraction_digit(fraction, 1)
        * 10 + fraction_digit(fraction, 2)
}

/// What the line `s` reads as for the device that writes `keyword`.
pub open spec fn decode_line(keyword: Seq<char>, s: Seq<char>) -> Result<int, DecodeError> {
    match line_number(keyword, s) {
        None => Err(DecodeError::NoMatch),
        Some((whole, fraction)) => if all_digits(whole) && all_digits(fraction) && literal_thousandths(whole, fraction) <= i64::MAX {
            Ok(literal_thousandths(whole, fraction) as int)
        } else {
            Err(DecodeError::InvalidNumber)
        },
    }
}

/// A decoded value seen as an integer.
pub open spec fn int_result(r: Result<i64, DecodeError>) -> Result<int, DecodeError> {
    match r {
        Ok(v) => Ok(v as int),
        Err(e) => Err(e),
    }
}

/// The largest whole part whose thousandths fit in an `i64`.
const WHOLE_LIMIT: u64 = 9_223_372_036_854_775;

/// Reads the number that `s` carries after `keyword`, in thousandths.
#[verifier::rlimit(40)]
pub fn parse_line(keyword: &str, s: &str) -> (r: Result<i64, DecodeError>)
    ensures
        int_result(r) == decode_line(keyword@, s@),
{
    let cs = chars_of(s);
    let kw = chars_of(keyword);
    let n = cs.len();
    let k = kw.len();
    if k >= n {
        return Err(DecodeError::NoMatch);
    }
    let mut i: usize = 0;
    while i < k
        invariant
            cs@ == s@,
            kw@ == keyword@,
            k == kw@.len(),
            k < n == cs@.len(),
            i <= k,
            cs@.subrange(0, i as int) =~= kw@.subrange(0, i as int),
        decreases k - i,
    {
        if cs[i] != kw[i] {
            assert(cs@.subrange(0, k as int)[i as int] == cs@[i as int]);
            assert(cs@.subrange(0, k as int) != kw@);
            return Err(DecodeError::NoMatch);
        }
        i = i + 1;
    }
    assert(cs@.subrange(0, k as int) =~= kw@);
    if !is_space(cs[k]) {
        return Err(DecodeError::NoMatch);
    }
    let mut p: usize = k;
    while p < n && is_space(cs[p])
        invariant
            cs@ == s@,
            kw@ == keyword@,
            k == kw@.len(),
            k < n == cs@.len(),
            cs@.subrange(0, k as int) == kw@,
            is_space_char(cs@[k as int]),
            k <= p <= n,
            forall|j: int| k <= j < p ==> is_space_char(#[trigger] cs@[j]),
        decreases n - p,
    {
        p = p + 1;
    }
    proof {
        lemma_space_run_end_at(cs@, k as int, p as int);
        lemma_decimal_run_end(cs@, p as int);
    }
    let ghost end = decimal_run_end(cs@, p as int);
    let mut q: usize = p;
    let mut whole: u64 = 0;
    while q < n && is_decimal(cs[q])
        invariant
            cs@ == s@,
            kw@ == keyword@,
            k == kw@.len(),
            k < n == cs@.len(),
            cs@.subrange(0, k as int) == kw@,
            is_space_char(cs@[k as int]),
            space_run_end(cs@, k as int) == p,
            k <= p <= q <= n,
            end == decimal_run_end(cs@, p as int),
            forall|j: int| p <= j < q ==> is_digit_char(#[trigger] cs@[j]),
            whole == digits_value(cs@.subrange(p as int, q as int)),
            whole <= WHOLE_LIMIT,
            p < end ==> q <= end,
            forall|j: int| p <= j < end ==> is_decimal_char(#[trigger] cs@[j]),
            end == n || !is_decimal_char(cs@[end]),
            p <= end <= n,
        decreases n - q,
    {
        assert(q + 1 <= end);
        if !is_digit(cs[q]) {
            proof {
                let w = cs@.subrange(p as int, end);
                assert(w[q - p] == cs@[q as int]);
                assert((line_number(kw@, cs@)->0).0 == w);
            }
            return Err(DecodeError::InvalidNumber);
        }
        let d = digit_value(cs[q]);
        let next = whole * 10 + d;
        proof {
            assert(cs@.subrange(p as int, q + 1) =~= cs@.subrange(p as int, q as int).push(
                cs@[q as int],
            ));
            lemma_digits_value_push(cs@.subrange(p as int, q as int), cs@[q as int]);
        }
        if next > WHOLE_LIMIT {
            proof {
                let w = cs@.subrange(p as int, end);
                lemma_digits_value_prefix(w, q + 1 - p);
                assert(w.subrange(0, q + 1 - p) =~= cs@.subrange(p as int, q + 1));
                assert(digits_value(w) * 1000 >= next * 1000) by (nonlinear_arith)
                    requires
                        digits_value(w) >= next,
                ;
                assert((line_number(kw@, cs@)->0).0 == w);
            }
            return Err(DecodeError::InvalidNumber);
        }
        whole = next;
        q = q + 1;
    }
    proof {
        lemma_decimal_run_end_at(cs@, p as int, q as int);
    }
    if q == p {
        return Err(DecodeError::NoMatch);
    }
    let ghost w = cs@.subrange(p as int, q as int);
    assert(all_digits(w));
    let mut fraction: u64 = 0;
    if q < n - 1 && cs[q] == '.' && is_decimal(cs[q + 1]) {
        let start = q + 1;
        proof {
            lemma_decimal_run_end(cs@, start as int);
        }
        let ghost fend = decimal_run_end(cs@, start as int);
        let mut r: usize = start;
        let mut f0: u64 = 0;
        let mut f1: u64 = 0;
        let mut f2: u64 = 0;
        while r < n && is_decimal(cs[r])
            invariant
                cs@ == s@,
                kw@ == keyword@,
                k == kw@.len(),
                k < n == cs@.len(),
                cs@.subrange(0, k as int) == kw@,
                is_space_char(cs@[k as int]),
                space_run_end(cs@, k as int) == p,
                decimal_run_end(cs@, p as int) == q,
                k <= p < q,
                start == q + 1,
                cs@[q as int] == '.',
                start < n,
                is_decimal_char(cs@[start as int]),
                start <= r <= n,
                fend == decimal_run_end(cs@, start as int),
                start <= fend <= n,
                forall|j: int| start <= j < fend ==> is_decimal_char(#[trigger] cs@[j]),
                fend == n || !is_decimal_char(cs@[fend]),
                r <= fend,
                forall|j: int| start <= j < r ==> is_digit_char(#[trigger] cs@[j]),
                f0 == fraction_digit(cs@.subrange(start as int, r as int), 0),
                f1 == fraction_digit(cs@.subrange(start as int, r as int), 1),
                f2 == fraction_digit(cs@.subrange(start as int, r as int), 2),
                f0 < 10 && f1 < 10 && f2 < 10,
            decreases n - r,
        {
            assert(r + 1 <= fend);
            if !is_digit(cs[r]) {
                proof {
                    let f = cs@.subrange(start as int, fend);
                    assert(f[r - start] == cs@[r as int]);
                    assert(!all_digits(f));
                    assert((line_number(kw@, cs@)->0).1 == f);
                }
                return Err(DecodeError::InvalidNumber);
            }
            let d = digit_value(cs[r]);
            let ghost before = cs@.subrange(start as int, r as int);
            let ghost after = cs@.subrange(start as int, r + 1);
            assert(after.len() == before.len() + 1);
            assert(forall|j: int| 0 <= j < before.len() ==> after[j] == before[j]);
            assert(after[before.len() as int] == cs@[r as int]);
            if r - start == 0 {
                f0 = d;
            } else if r - start == 1 {
                f1 = d;
            } else if r - start == 2 {
                f2 = d;
            }
            r = r + 1;
        }
        proof {
            lemma_decimal_run_end_at(cs@, start as int, r as int);
            assert(all_digits(cs@.subrange(start as int, r as int)));
        }
        fraction = f0 * 100 + f1 * 10 + f2;
    }
    let total = whole * 1000 + fraction;
    if total > i64::MAX as u64 {
        Err(DecodeError::InvalidNumber)
    } else {
        Ok(total as i64)
    }
}

/// `-` before a negative number.
pub open spec fn sign_text(v: int) -> Seq<char> {
    if v < 0 {
        seq!['-']
    } else {
        Seq::<char>::empty()
    }
}

/// The three digits of a fraction in thousandths.
pub open spec fn fixed_fraction(f: nat) -> Seq<char> {
    seq![digit_char(f / 100), digit_char(f / 10 % 10), digit_char(f % 10)]
}

/// The digits of a fraction in thousandths without trailing zeros.
pub open spec fn plain_fraction(f: nat) -> Seq<char> {
    if f == 0 {
        Seq::<char>::empty()
    } else if f % 100 == 0 {
        fixed_fraction(f).take(1)
    } else if f % 10 == 0 {
        fixed_fraction(f).take(2)
    } else {
        fixed_fraction(f)
    }
}

/// A decimal point and the fraction digits, or nothing where there are none.
pub open spec fn point_text(fd: Seq<char>) -> Seq<char> {
    if fd.len() == 0 {
        Seq::<char>::empty()
    } else {
        seq!['.'] + fd
    }
}

/// A value in thousandths written with exactly three decimals (`21.500`).
pub open spec fn fixed_text(v: int) -> Seq<char> {
    let a = if v < 0 {
        -v
    } else {
        v
    };
    sign_text(v) + nat_digits((a / 1000) as nat) + seq!['.'] + fixed_fraction((a % 1000) as nat)
}

/// A value in thousandths written with no more decimals than it has (`21.5`, `1500`).
pub open spec fn plain_text(v: int) -> Seq<char> {
    let a = if v < 0 {
        -v
    } else {
        v
    };
    sign_text(v) + nat_digits((a / 1000) as nat) + point_text(plain_fraction((a % 1000) as nat))
}

fn magnitude(v: i64) -> (r: u64)
    ensures
        r as int == if v < 0 {
            -v
        } else {
            v as int
        },
{
    if v < 0 {
        (0i128 - v as i128) as u64
    } else {
        v as u64
    }
}

fn push_sign(out: &mut String, v: i64)
    ensures
        final(out)@ == old(out)@ + sign_text(v as int),
{
    if v < 0 {
        proof {
            reveal_strlit("-");
        }
        out.append("-");
    } else {
        assert(old(out)@ + sign_text(v as int) =~= old(out)@);
    }
}

fn push_point(out: &mut String)
    ensures
        final(out)@ == old(out)@ + seq!['.'],
{
    proof {
        reveal_strlit(".");
    }
    out.append(".");
}

/// Appends a value in thousandths with exactly three decimals.
pub fn push_fixed(out: &mut String, v: i64)
    ensures
        final(out)@ == old(out)@ + fixed_text(v as int),
{
    let a = magnitude(v);
    push_sign(out, v);
    push_digits(out, a / 1000);
    push_point(out);
    let f = a % 1000;
    push_digits(out, f / 100);
    push_digits(out, f / 10 % 10);
    push_digits(out, f % 10);
    assert(final(out)@ =~= old(out)@ + fixed_text(v as int));
}

/// Appends a value in thousandths with no more decimals than it has.
pub fn push_plain(out: &mut String, v: i64)
    ensures
        final(out)@ == old(out)@ + plain_text(v as int),
{
    let a = magnitude(v);
    push_sign(out, v);
    push_digits(out, a / 1000);
    let f = a % 1000;
    if f == 0 {
    } else if f % 100 == 0 {
        push_point(out);
        push_digits(out, f / 100);
    } else if f % 10 == 0 {
        push_point(out);
        push_digits(out, f / 100);
        push_digits(out, f / 10 % 10);
    } else {
        push_point(out);
        push_digits(out, f / 100);
        push_digits(out, f / 10 % 10);
        push_digits(out, f % 10);
    }
    assert(final(out)@ =~= old(out)@ + plain_text(v as int));
}

/// A character that ends a number without extending it.
pub open spec fn ends_number(tail: Seq<char>) -> bool {
    tail.len() == 0 || (!is_decimal_char(tail[0]) && tail[0] != '.')
}

/// A line of the keyword, one space, whole digits, an optional fraction and a
/// tail that ends the number carries exactly those digits.
#[verifier::rlimit(40)]
pub proof fn lemma_line_number_of(kw: Seq<char>, whole: nat, fd: Seq<char>, tail: Seq<char>)
    requires
        all_digits(fd),
        ends_number(tail),
    ensures
        line_number(kw, kw + seq![' '] + nat_digits(whole) + point_text(fd) + tail) == Some(
            (nat_digits(whole), fd),
        ),
{
    let d = nat_digits(whole);
    lemma_nat_digits(whole);
    let a = kw + seq![' '];
    let b = a + d;
    let c = b + point_text(fd);
    let s = c + tail;
    let k = kw.len() as int;
    let q = k + 1 + d.len();
    assert(s.subrange(0, k) =~= kw);
    assert(s[k] == ' ');
    assert(s[k + 1] == d[0]);
    lemma_space_run_end_at(s, k, k + 1);
    assert forall|j: int| k + 1 <= j < q implies is_decimal_char(#[trigger] s[j]) by {
        assert(s[j] == d[j - k - 1]);
    }
    if fd.len() == 0 {
        assert(c =~= b);
        lemma_decimal_run_end_at(s, k + 1, q);
    } else {
        assert(s[q] == '.');
        lemma_decimal_run_end_at(s, k + 1, q);
        let r = q + 1 + fd.len();
        assert forall|j: int| q + 1 <= j < r implies is_decimal_char(#[trigger] s[j]) by {
            assert(s[j] == fd[j - q - 1]);
        }
        assert(s[q + 1] == fd[0]);
        lemma_decimal_run_end_at(s, q + 1, r);
        assert(s.subrange(q + 1, r) =~= fd);
    }
    assert(s.subrange(k + 1, q) =~= d);
}

/// The three fraction digits of `f` read back as `f`.
pub proof fn lemma_fixed_fraction(f: nat)
    requires
        f < 1000,
    ensures
        all_digits(fixed_fraction(f)),
        fraction_digit(fixed_fraction(f), 0) * 100 + fraction_digit(fixed_fraction(f), 1) * 10
            + fraction_digit(fixed_fraction(f), 2) == f,
{
    lemma_digit_char(f / 100);
    lemma_digit_char(f / 10 % 10);
    lemma_digit_char(f % 10);
}

/// The shortest fraction digits of `f` read back as `f`.
pub proof fn lemma_plain_fraction(f: nat)
    requires
        f < 1000,
    ensures
        all_digits(plain_fraction(f)),
        fraction_digit(plain_fraction(f), 0) * 100 + fraction_digit(plain_fraction(f), 1) * 10
            + fraction_digit(plain_fraction(f), 2) == f,
{
    lemma_fixed_fraction(f);
}

/// A non-negative value with three decimals is its whole digits, a point and
/// its three fraction digits.
pub proof fn lemma_fixed_text_parts(v: int)
    requires
        0 <= v,
    ensures
        fixed_text(v) == nat_digits((v / 1000) as nat) + point_text(fixed_fraction((v % 1000) as nat)),
{
    assert(sign_text(v) =~= Seq::<char>::empty());
    assert(fixed_text(v) =~= nat_digits((v / 1000) as nat) + point_text(
        fixed_fraction((v % 1000) as nat),
    ));
}

/// Writing a non-negative value with three decimals after the keyword and a
/// space, then reading the line, gives the value back.
#[verifier::rlimit(40)]
pub proof fn lemma_fixed_round_trip(kw: Seq<char>, v: int, tail: Seq<char>)
    requires
        0 <= v <= i64::MAX,
        ends_number(tail),
    ensures
        decode_line(kw, kw + seq![' '] + fixed_text(v) + tail) == Ok::<int, DecodeError>(v),
{
    let w = (v / 1000) as nat;
    let f = (v % 1000) as nat;
    lemma_fixed_fraction(f);
    lemma_nat_digits(w);
    lemma_fixed_text_parts(v);
    lemma_line_number_of(kw, w, fixed_fraction(f), tail);
    let head = kw + seq![' '];
    let line = head + fixed_text(v) + tail;
    assert(line == head + nat_digits(w) + point_text(fixed_fraction(f)) + tail);
    assert(line_number(kw, line) == Some((nat_digits(w), fixed_fraction(f))));
    assert(literal_thousandths(nat_digits(w), fixed_fraction(f)) == w * 1000 + f);
    assert(w * 1000 + f == v);
}

/// A non-negative value with no more decimals than it has is its whole
/// digits, then a point and its fraction digits where it has any.
pub proof fn lemma_plain_text_parts(v: int)
    requires
        0 <= v,
    ensures
        plain_text(v) == nat_digits((v / 1000) as nat) + point_text(plain_fraction((v % 1000) as nat)),
{
    assert(sign_text(v) =~= Seq::<char>::empty());
    assert(plain_text(v) =~= nat_digits((v / 1000) as nat) + point_text(
        plain_fraction((v % 1000) as nat),
    ));
}

/// Writing a non-negative value with no more decimals than it has after the
/// keyword and a space, then reading the line, gives the value back.
#[verifier::rlimit(40)]
pub proof fn lemma_plain_round_trip(kw: Seq<char>, v: int, tail: Seq<char>)
    requires
        0 <= v <= i64::MAX,
        ends_number(tail),
    ensures
        decode_line(kw, kw + seq![' '] + plain_text(v) + tail) == Ok::<int, DecodeError>(v),
{
    let w = (v / 1000) as nat;
    let f = (v % 1000) as nat;
    lemma_plain_fraction(f);
    lemma_nat_digits(w);
    lemma_plain_text_parts(v);
    lemma_line_number_of(kw, w, plain_fraction(f), tail);
    let head = kw + seq![' '];
    let line = head + plain_text(v) + tail;
    assert(line == head + nat_digits(w) + point_text(plain_fraction(f)) + tail);
    assert(line_number(kw, line) == Some((nat_digits(w), plain_fraction(f))));
    assert(literal_thousandths(nat_digits(w), plain_fraction(f)) == w * 1000 + f);
    assert(w * 1000 + f == v);
}

} // verus!
