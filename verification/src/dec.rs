//! Fixed-precision decimal values: every price and quantity on the wire is
//! carried as a scaled integer, never as floating point. The textual form is
//! the canonical fixed-point notation (`-12.50`), and parsing is proved to
//! invert formatting.

use vstd::prelude::*;
use crate::numfmt::{
    digit_char, digit_str, digit_val, digits_val, is_digit, is_digits, lemma_digits_val_nonneg,
    lemma_digits_val_prefix_le, lemma_digits_val_step, lemma_fmt_nat_ok, spec_fmt_nat,
};

verus! {

/// A decimal number `mantissa / 10^scale`.
#[derive(Clone, Copy, PartialEq, Eq, Structural, Debug)]
pub struct Dec {
    pub mantissa: i128,
    pub scale: u32,
}

/// Largest magnitude a mantissa may have: `2^96 - 1`, the range of a
/// 96-bit fixed-point decimal.
pub open spec fn max_mantissa() -> int {
    79228162514264337593543950335
}

impl Dec {
    pub open spec fn wf(self) -> bool {
        self.scale <= 28 && -max_mantissa() <= self.mantissa <= max_mantissa()
    }

    /// The value of this decimal, expressed at the common denominator
    /// `10^28`.
    pub open spec fn val28(self) -> int {
        self.mantissa * pow10((28 - self.scale) as nat)
    }

    pub open spec fn is_zero(self) -> bool {
        self.mantissa == 0
    }

    pub fn new(mantissa: i128, scale: u32) -> (r: Option<Dec>)
        ensures
            ({
                let d = Dec { mantissa, scale };
                match r {
                    Some(x) => x == d && d.wf(),
                    None => !d.wf(),
                }
            }),
    {
        if scale <= 28 && -79228162514264337593543950335i128 <= mantissa
            && mantissa <= 79228162514264337593543950335i128 {
            Some(Dec { mantissa, scale })
        } else {
            None
        }
    }
}

pub open spec fn pow10(k: nat) -> nat
    decreases k,
{
    if k == 0 {
        1
    } else {
        10 * pow10((k - 1) as nat)
    }
}

pub proof fn lemma_pow10_pos(k: nat)
    ensures
        pow10(k) >= 1,
    decreases k,
{
    if k > 0 {
        lemma_pow10_pos((k - 1) as nat);
    }
}

pub proof fn lemma_pow10_le(a: nat, b: nat)
    requires
        a <= b,
    ensures
        pow10(a) <= pow10(b),
    decreases b,
{
    if a < b {
        lemma_pow10_le(a, (b - 1) as nat);
        lemma_pow10_pos((b - 1) as nat);
    }
}

pub proof fn lemma_pow10_28()
    ensures
        pow10(28) == 10000000000000000000000000000,
{
    reveal_with_fuel(pow10, 29);
}

/// Compute `10^k`.
pub fn pow10_u128(k: u32) -> (r: u128)
    requires
        k <= 28,
    ensures
        r == pow10(k as nat),
{
    let mut r: u128 = 1;
    let mut i: u32 = 0;
    proof {
        lemma_pow10_28();
    }
    while i < k
        invariant
            i <= k <= 28,
            r == pow10(i as nat),
            pow10(28) == 10000000000000000000000000000,
        decreases k - i,
    {
        proof {
            lemma_pow10_le((i + 1) as nat, 28);
        }
        r = r * 10;
        i = i + 1;
    }
    r
}

/// Splitting a digit string splits its value positionally.
pub proof fn lemma_digits_val_concat(a: Seq<char>, b: Seq<char>)
    ensures
        digits_val(a + b) == digits_val(a) * pow10(b.len()) + digits_val(b),
    decreases b.len(),
{
    if b.len() == 0 {
        assert(a + b =~= a);
        assert(digits_val(b) == 0);
        assert(pow10(b.len()) == 1);
    } else {
        lemma_digits_val_concat(a, b.drop_last());
        let s = a + b;
        assert(s.drop_last() =~= a + b.drop_last());
        assert(s.last() == b.last());
        assert(digits_val(s) == digits_val(a + b.drop_last()) * 10 + digit_val(b.last()));
        let va = digits_val(a);
        let vd = digits_val(b.drop_last());
        let p1 = pow10((b.len() - 1) as nat);
        assert(digits_val(a + b.drop_last()) == va * p1 + vd);
        assert((va * p1 + vd) * 10 == va * (10 * p1) + vd * 10) by (nonlinear_arith);
        assert(pow10(b.len()) == 10 * p1);
        assert(digits_val(b) == vd * 10 + digit_val(b.last()));
    }
}

pub open spec fn zeros(k: nat) -> Seq<char> {
    Seq::new(k, |i: int| '0')
}

pub proof fn lemma_zeros_val(k: nat)
    ensures
        digits_val(zeros(k)) == 0,
        forall|i: int| 0 <= i < k ==> is_digit(#[trigger] zeros(k)[i]),
    decreases k,
{
    if k > 0 {
        lemma_zeros_val((k - 1) as nat);
        assert(zeros(k).drop_last() =~= zeros((k - 1) as nat));
    }
}

/// A digit string left-padded with zeros to at least `w` characters.
pub open spec fn spec_pad(d: Seq<char>, w: nat) -> Seq<char> {
    if d.len() >= w {
        d
    } else {
        zeros((w - d.len()) as nat) + d
    }
}

pub proof fn lemma_pad_ok(d: Seq<char>, w: nat)
    requires
        is_digits(d),
    ensures
        is_digits(spec_pad(d, w)),
        spec_pad(d, w).len() >= w,
        spec_pad(d, w).len() >= d.len(),
        digits_val(spec_pad(d, w)) == digits_val(d),
{
    if d.len() < w {
        let k = (w - d.len()) as nat;
        lemma_zeros_val(k);
        lemma_digits_val_concat(zeros(k), d);
    }
}

/// Index of the first `.` in a string, or `-1` when there is none.
pub open spec fn first_dot(s: Seq<char>) -> int
    decreases s.len(),
{
    if s.len() == 0 {
        -1
    } else if s[0] == '.' {
        0
    } else {
        let r = first_dot(s.skip(1));
        if r < 0 {
            -1
        } else {
            r + 1
        }
    }
}

/// In `x + "." + y` with `x` dot-free, the first dot stands at `x.len()`.
pub proof fn lemma_first_dot_concat(x: Seq<char>, y: Seq<char>)
    requires
        forall|i: int| 0 <= i < x.len() ==> x[i] != '.',
    ensures
        first_dot(x + seq!['.'] + y) == x.len(),
    decreases x.len(),
{
    let s = x + seq!['.'] + y;
    if x.len() == 0 {
        assert(s[0] == '.');
    } else {
        assert(s[0] == x[0]);
        lemma_first_dot_concat(x.skip(1), y);
        assert(s.skip(1) =~= x.skip(1) + seq!['.'] + y);
    }
}

/// Digit characters are never `.` or `-`.
pub proof fn lemma_digits_not_special(d: Seq<char>)
    requires
        is_digits(d),
    ensures
        forall|i: int| 0 <= i < d.len() ==> d[i] != '.' && d[i] != '-' && d[i] != '\0',
{
}

/// What a decimal field of the wire denotes: an optional minus sign, digits,
/// and at most one point with at most 28 fractional digits; the mantissa
/// must fit the 96-bit range.
pub open spec fn spec_parse_dec(s: Seq<char>) -> Option<Dec> {
    let neg = s.len() >= 1 && s[0] == '-';
    let b = if neg { s.skip(1) } else { s };
    let i = first_dot(b);
    if i < 0 {
        if is_digits(b) && digits_val(b) <= max_mantissa() {
            Some(Dec { mantissa: (if neg { -digits_val(b) } else { digits_val(b) }) as i128, scale: 0 })
        } else {
            None
        }
    } else {
        let l = b.subrange(0, i);
        let r = b.subrange(i + 1, b.len() as int);
        let a = digits_val(l) * pow10(r.len()) + digits_val(r);
        if is_digits(l) && is_digits(r) && r.len() <= 28 && a <= max_mantissa() {
            Some(Dec { mantissa: (if neg { -a } else { a }) as i128, scale: r.len() as u32 })
        } else {
            None
        }
    }
}

/// The canonical text of a decimal: the mantissa's digits with a point
/// placed `scale` digits from the right, zero-padded so that at least one
/// digit stands before the point.
pub open spec fn spec_fmt_dec(d: Dec) -> Seq<char> {
    let a = (if d.mantissa < 0 { -(d.mantissa as int) } else { d.mantissa as int }) as nat;
    let dg = spec_pad(spec_fmt_nat(a), (d.scale + 1) as nat);
    let body = if d.scale == 0 {
        dg
    } else {
        dg.subrange(0, dg.len() - d.scale) + seq!['.'] + dg.subrange(
            dg.len() - d.scale,
            dg.len() as int,
        )
    };
    if d.mantissa < 0 {
        seq!['-'] + body
    } else {
        body
    }
}

/// Parse `s[from..to)` as an unsigned digit string into a `u128`.
pub fn parse_digits128_range(s: &str, from: usize, to: usize) -> (r: Option<u128>)
    requires
        from <= to <= s@.len(),
    ensures
        ({
            let f = s@.subrange(from as int, to as int);
            match r {
                Some(v) => is_digits(f) && digits_val(f) == v,
                None => !(is_digits(f) && digits_val(f) <= u128::MAX),
            }
        }),
{
    let ghost f = s@.subrange(from as int, to as int);
    if from == to {
        return None;
    }
    let mut acc: u128 = 0;
    let mut i: usize = from;
    while i < to
        invariant
            from <= i <= to <= s@.len(),
            f == s@.subrange(from as int, to as int),
            f.len() > 0,
            forall|j: int| 0 <= j < i - from ==> is_digit(#[trigger] f[j]),
            acc == digits_val(f.subrange(0, i - from)),
        decreases to - i,
    {
        let c = s.get_char(i);
        assert(c == f[i - from]);
        if !('0' <= c && c <= '9') {
            return None;
        }
        let d: u128 = (c as u32 as u128) - 48;
        assert(d == digit_val(c));
        proof {
            lemma_digits_val_step(f, i - from);
        }
        if acc > (u128::MAX - d) / 10 {
            proof {
                assert(digits_val(f.subrange(0, i - from + 1)) == acc * 10 + d > u128::MAX);
                if is_digits(f) {
                    lemma_digits_val_prefix_le(f, i - from + 1);
                    assert(digits_val(f) > u128::MAX);
                }
            }
            return None;
        }
        acc = acc * 10 + d;
        i = i + 1;
    }
    assert(f.subrange(0, (to - from) as int) =~= f);
    Some(acc)
}

/// When every char before `i` differs from `.` and `s[i] == '.'`, the first
/// dot is at `i`.
pub proof fn lemma_first_dot_prefix(s: Seq<char>, i: int)
    requires
        0 <= i < s.len(),
        s[i] == '.',
        forall|j: int| 0 <= j < i ==> s[j] != '.',
    ensures
        first_dot(s) == i,
    decreases i,
{
    if i > 0 {
        lemma_first_dot_prefix(s.skip(1), i - 1);
        assert(forall|j: int| 0 <= j < s.len() - 1 ==> s.skip(1)[j] == s[j + 1]);
    }
}

pub proof fn lemma_first_dot_none(s: Seq<char>)
    requires
        forall|j: int| 0 <= j < s.len() ==> s[j] != '.',
    ensures
        first_dot(s) < 0,
    decreases s.len(),
{
    if s.len() > 0 {
        lemma_first_dot_none(s.skip(1));
        assert(forall|j: int| 0 <= j < s.len() - 1 ==> s.skip(1)[j] == s[j + 1]);
    }
}

/// Parse a decimal field.
pub fn parse_dec(s: &str) -> (r: Option<Dec>)
    ensures
        r == spec_parse_dec(s@),
        r is Some ==> r->0.wf(),
{
    let n = s.unicode_len();
    let neg = n >= 1 && s.get_char(0) == '-';
    let start: usize = if neg { 1 } else { 0 };
    let ghost b = if neg { s@.skip(1) } else { s@ };
    proof {
        assert(b =~= s@.subrange(start as int, n as int));
    }
    let dot = match find_dot_range(s, start, n) {
        Some(i) => i,
        None => {
            // no fractional part
            match parse_digits128_range(s, start, n) {
                Some(v) => {
                    if v <= 79228162514264337593543950335u128 {
                        let m: i128 = if neg {
                            -(v as i128)
                        } else {
                            v as i128
                        };
                        return Some(Dec { mantissa: m, scale: 0 });
                    } else {
                        return None;
                    }
                },
                None => {
                    return None;
                },
            }
        },
    };
    // dot is an absolute index into s; fractional digits follow it
    let ghost l = b.subrange(0, first_dot(b));
    let ghost rr = b.subrange(first_dot(b) + 1, b.len() as int);
    proof {
        assert(l =~= s@.subrange(start as int, dot as int));
        assert(rr =~= s@.subrange(dot as int + 1, n as int));
        lemma_pow10_pos(rr.len());
    }
    let scale: usize = n - dot - 1;
    if scale > 28 {
        return None;
    }
    let lv = match parse_digits128_range(s, start, dot) {
        Some(v) => v,
        None => {
            proof {
                if is_digits(l) && is_digits(rr) {
                    // the integer part alone already exceeds the bound
                    lemma_digits_val_nonneg(rr);
                    vstd::arithmetic::mul::lemma_mul_inequality(
                        1,
                        pow10(rr.len()) as int,
                        digits_val(l),
                    );
                    assert(digits_val(l) * 1 <= digits_val(l) * pow10(rr.len()))
                        by (nonlinear_arith)
                        requires
                            pow10(rr.len()) >= 1,
                            digits_val(l) > u128::MAX,
                    ;
                }
            }
            return None;
        },
    };
    let rv = match parse_digits128_range(s, dot + 1, n) {
        Some(v) => v,
        None => {
            proof {
                if is_digits(l) && is_digits(rr) {
                    lemma_digits_val_nonneg(l);
                    assert(digits_val(l) * pow10(rr.len()) >= 0) by (nonlinear_arith)
                        requires
                            pow10(rr.len()) >= 1,
                            digits_val(l) >= 0,
                    ;
                }
            }
            return None;
        },
    };
    proof {
        lemma_digits_val_nonneg(l);
        lemma_digits_val_nonneg(rr);
        lemma_pow10_28();
        lemma_pow10_le(rr.len(), 28);
    }
    let p = pow10_u128(scale as u32);
    // lv * p + rv overflows u128 only when past the mantissa bound
    let bound: u128 = 79228162514264337593543950335u128;
    let ghost q: int = bound as int / p as int;
    let ghost md: int = bound as int % p as int;
    proof {
        vstd::arithmetic::div_mod::lemma_fundamental_div_mod(bound as int, p as int);
        vstd::arithmetic::div_mod::lemma_mod_bound(bound as int, p as int);
        assert(bound as int == (p as int) * q + md);
        assert(0 <= md < p as int);
    }
    if lv > bound / p {
        proof {
            assert(lv * (p as int) > bound as int) by (nonlinear_arith)
                requires
                    lv as int >= q + 1,
                    bound as int == (p as int) * q + md,
                    0 <= md < p as int,
            ;
            assert(lv * (p as int) > max_mantissa());
        }
        return None;
    }
    proof {
        assert(lv * (p as int) <= bound as int) by (nonlinear_arith)
            requires
                0 <= lv as int <= q,
                bound as int == (p as int) * q + md,
                0 <= md < p as int,
                p as int >= 1,
        ;
        assert(lv * (p as int) <= max_mantissa());
    }
    let hi = lv * p;
    if rv > u128::MAX - hi {
        return None;
    }
    let a = hi + rv;
    if a > bound {
        return None;
    }
    let m: i128 = if neg {
        -(a as i128)
    } else {
        a as i128
    };
    Some(Dec { mantissa: m, scale: scale as u32 })
}

/// Find the first `.` in `s[from..to)`, as an absolute index.
fn find_dot_range(s: &str, from: usize, to: usize) -> (r: Option<usize>)
    requires
        from <= to <= s@.len(),
    ensures
        ({
            let f = s@.subrange(from as int, to as int);
            match r {
                Some(i) => from <= i < to && first_dot(f) == i - from,
                None => first_dot(f) < 0,
            }
        }),
{
    let ghost f = s@.subrange(from as int, to as int);
    let mut i: usize = from;
    while i < to
        invariant
            from <= i <= to <= s@.len(),
            f == s@.subrange(from as int, to as int),
            forall|j: int| 0 <= j < i - from ==> f[j] != '.',
        decreases to - i,
    {
        if s.get_char(i) == '.' {
            proof {
                lemma_first_dot_prefix(f, i - from);
            }
            return Some(i);
        }
        i = i + 1;
    }
    proof {
        lemma_first_dot_none(f);
    }
    None
}

/// Format a natural number (up to `u128`) as its canonical digit string.
pub fn fmt_u128(n: u128) -> (r: String)
    ensures
        r@ == spec_fmt_nat(n as nat),
    decreases n,
{
    if n < 10 {
        let mut s = String::new();
        s.append(digit_str(n as u64));
        proof {
            assert(s@ =~= seq![digit_char(n as int)]);
        }
        s
    } else {
        let mut s = fmt_u128(n / 10);
        s.append(digit_str((n % 10) as u64));
        proof {
            assert(s@ =~= spec_fmt_nat((n / 10) as nat).push(digit_char((n % 10) as int)));
        }
        s
    }
}

/// Format a decimal value in its canonical fixed-point text.
pub fn fmt_dec(d: &Dec) -> (r: String)
    requires
        d.wf(),
    ensures
        r@ == spec_fmt_dec(*d),
{
    let a: u128 = if d.mantissa < 0 {
        (-(d.mantissa)) as u128
    } else {
        d.mantissa as u128
    };
    let digits = fmt_u128(a);
    proof {
        lemma_fmt_nat_ok(a as nat);
    }
    let dlen = digits.as_str().unicode_len();
    // left-pad with zeros to scale + 1 characters
    let width = (d.scale as usize) + 1;
    let mut padded = String::new();
    let mut k: usize = dlen;
    while k < width
        invariant
            padded@ =~= zeros((k - dlen) as nat),
            dlen <= k,
            dlen >= width ==> k == dlen,
            dlen < width ==> k <= width,
            dlen == digits@.len(),
        decreases width - k,
    {
        padded.append("0");
        proof {
            reveal_strlit("0");
            assert(padded@ =~= zeros((k + 1 - dlen) as nat));
        }
        k = k + 1;
    }
    padded.append(digits.as_str());
    proof {
        assert(padded@ =~= spec_pad(spec_fmt_nat(a as nat), (d.scale + 1) as nat));
    }
    let plen = padded.as_str().unicode_len();
    let mut out = String::new();
    if d.mantissa < 0 {
        out.append("-");
        proof {
            reveal_strlit("-");
            assert(out@ =~= seq!['-']);
        }
    }
    if d.scale == 0 {
        out.append(padded.as_str());
    } else {
        let cut = plen - (d.scale as usize);
        let left = padded.as_str().substring_char(0, cut);
        let right = padded.as_str().substring_char(cut, plen);
        out.append(left);
        out.append(".");
        out.append(right);
        proof {
            reveal_strlit(".");
        }
    }
    proof {
        assert(out@ =~= spec_fmt_dec(*d));
    }
    out
}

/// Formatting a well-formed decimal and parsing the text gives the same
/// decimal back: the decimal codec round-trips.
pub proof fn lemma_dec_round_trip(d: Dec)
    requires
        d.wf(),
    ensures
        spec_parse_dec(spec_fmt_dec(d)) == Some(d),
{
    let a = (if d.mantissa < 0 { -(d.mantissa as int) } else { d.mantissa as int }) as nat;
    lemma_fmt_nat_ok(a);
    let fd = spec_fmt_nat(a);
    let dg = spec_pad(fd, (d.scale + 1) as nat);
    lemma_pad_ok(fd, (d.scale + 1) as nat);
    lemma_digits_not_special(dg);
    let s = spec_fmt_dec(d);
    if d.scale == 0 {
        // text is just the (possibly signed) digits
        if d.mantissa < 0 {
            assert(s =~= seq!['-'] + dg);
            assert(s[0] == '-');
            assert(s.skip(1) =~= dg);
            lemma_first_dot_none(dg);
        } else {
            assert(s =~= dg);
            assert(s.len() >= 1 && s[0] != '-');
            lemma_first_dot_none(dg);
        }
    } else {
        let cut = dg.len() - d.scale;
        let l = dg.subrange(0, cut);
        let rr = dg.subrange(cut, dg.len() as int);
        assert(dg =~= l + rr);
        lemma_digits_val_concat(l, rr);
        let body = l + seq!['.'] + rr;
        assert(forall|i: int| 0 <= i < l.len() ==> l[i] == dg[i] && l[i] != '.');
        lemma_first_dot_concat(l, rr);
        assert(first_dot(body) == l.len());
        assert(body.subrange(0, l.len() as int) =~= l);
        assert(body.subrange(l.len() as int + 1, body.len() as int) =~= rr);
        assert(rr.len() == d.scale);
        assert(digits_val(l) * pow10(rr.len()) + digits_val(rr) == digits_val(dg) == a);
        if d.mantissa < 0 {
            assert(s =~= seq!['-'] + body);
            assert(s[0] == '-');
            assert(s.skip(1) =~= body);
        } else {
            assert(s =~= body);
            assert(s.len() >= 1 && s[0] != '-');
        }
    }
}

} // verus!
