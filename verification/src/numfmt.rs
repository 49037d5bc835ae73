//! Decimal digit strings: the textual form of the integers that travel in
//! wire fields, with parsing and formatting proved inverse to each other.

use vstd::prelude::*;

verus! {

pub open spec fn is_digit(c: char) -> bool {
    '0' <= c && c <= '9'
}

pub open spec fn digit_val(c: char) -> int {
    c as int - '0' as int
}

pub open spec fn digit_char(d: int) -> char {
    (('0' as int) + d) as char
}

pub open spec fn is_digits(s: Seq<char>) -> bool {
    s.len() >= 1 && forall|i: int| 0 <= i < s.len() ==> is_digit(#[trigger] s[i])
}

/// Numeric value of a digit string, most significant digit first.
pub open spec fn digits_val(s: Seq<char>) -> int
    decreases s.len(),
{
    if s.len() == 0 {
        0
    } else {
        digits_val(s.drop_last()) * 10 + digit_val(s.last())
    }
}

/// The canonical digit string of a natural number: no leading zeros.
pub open spec fn spec_fmt_nat(n: nat) -> Seq<char>
    decreases n,
{
    if n < 10 {
        seq![digit_char(n as int)]
    } else {
        spec_fmt_nat((n / 10) as nat).push(digit_char((n % 10) as int))
    }
}

/// A signed integer formats as its digits, with a leading minus when negative.
pub open spec fn spec_fmt_int(n: int) -> Seq<char> {
    if n < 0 {
        seq!['-'] + spec_fmt_nat((-n) as nat)
    } else {
        spec_fmt_nat(n as nat)
    }
}

/// A valid integer field: digits, optionally preceded by a minus sign.
pub open spec fn is_int_str(s: Seq<char>) -> bool {
    is_digits(s) || (s.len() >= 2 && s[0] == '-' && is_digits(s.skip(1)))
}

pub open spec fn int_str_val(s: Seq<char>) -> int {
    if s.len() >= 1 && s[0] == '-' {
        -digits_val(s.skip(1))
    } else {
        digits_val(s)
    }
}

pub proof fn lemma_digits_val_nonneg(s: Seq<char>)
    requires
        forall|i: int| 0 <= i < s.len() ==> is_digit(#[trigger] s[i]),
    ensures
        digits_val(s) >= 0,
    decreases s.len(),
{
    if s.len() > 0 {
        lemma_digits_val_nonneg(s.drop_last());
    }
}

/// Extending a digit string on the right multiplies its value by ten.
pub proof fn lemma_digits_val_step(s: Seq<char>, i: int)
    requires
        0 <= i < s.len(),
    ensures
        digits_val(s.subrange(0, i + 1)) == digits_val(s.subrange(0, i)) * 10 + digit_val(s[i]),
{
    let t = s.subrange(0, i + 1);
    assert(t.drop_last() =~= s.subrange(0, i));
    assert(t.last() == s[i]);
}

/// A digit prefix never exceeds the value of the whole string.
pub proof fn lemma_digits_val_prefix_le(s: Seq<char>, i: int)
    requires
        forall|j: int| 0 <= j < s.len() ==> is_digit(#[trigger] s[j]),
        0 <= i <= s.len(),
    ensures
        digits_val(s.subrange(0, i)) <= digits_val(s),
    decreases s.len() - i,
{
    if i == s.len() {
        assert(s.subrange(0, i) =~= s);
    } else {
        lemma_digits_val_step(s, i);
        let p = s.subrange(0, i);
        assert(forall|j: int| 0 <= j < p.len() ==> is_digit(#[trigger] p[j]));
        lemma_digits_val_nonneg(p);
        assert(digit_val(s[i]) >= 0);
        assert(digits_val(s.subrange(0, i + 1)) >= digits_val(p));
        lemma_digits_val_prefix_le(s, i + 1);
    }
}

/// The canonical digit string really denotes the number it was built from.
pub proof fn lemma_fmt_nat_ok(n: nat)
    ensures
        is_digits(spec_fmt_nat(n)),
        digits_val(spec_fmt_nat(n)) == n,
        n >= 10 ==> spec_fmt_nat(n)[0] == spec_fmt_nat((n / 10) as nat)[0],
        spec_fmt_nat(n)[0] == '0' ==> n == 0,
    decreases n,
{
    if n < 10 {
        let s = seq![digit_char(n as int)];
        assert(spec_fmt_nat(n) =~= s);
        assert(s.drop_last() =~= Seq::<char>::empty());
        assert(digits_val(Seq::<char>::empty()) == 0);
        assert(is_digit(digit_char(n as int)));
        assert(digit_val(digit_char(n as int)) == n);
        assert(digits_val(s) == digits_val(s.drop_last()) * 10 + digit_val(s.last()));
        assert(digits_val(s) == n);
    } else {
        lemma_fmt_nat_ok((n / 10) as nat);
        let p = spec_fmt_nat((n / 10) as nat);
        let s = p.push(digit_char((n % 10) as int));
        assert(spec_fmt_nat(n) =~= s);
        assert(s.drop_last() =~= p);
        assert(s.last() == digit_char((n % 10) as int));
        assert(digit_val(digit_char((n % 10) as int)) == n % 10);
        assert(digits_val(s) == digits_val(p) * 10 + n % 10);
        assert(forall|i: int| 0 <= i < s.len() ==> is_digit(#[trigger] s[i]));
    }
}

pub proof fn lemma_fmt_int_ok(n: int)
    ensures
        is_int_str(spec_fmt_int(n)),
        int_str_val(spec_fmt_int(n)) == n,
{
    if n < 0 {
        lemma_fmt_nat_ok((-n) as nat);
        let d = spec_fmt_nat((-n) as nat);
        let s = seq!['-'] + d;
        assert(spec_fmt_int(n) =~= s);
        assert(s.skip(1) =~= d);
        assert(s[0] == '-');
        assert(!is_digit('-'));
        assert(!is_digits(s));
    } else {
        lemma_fmt_nat_ok(n as nat);
        let s = spec_fmt_nat(n as nat);
        assert(s[0] != '-');
    }
}

/// Parse `s[from..to)` as an unsigned decimal number.
/// Returns the value exactly when the range is a non-empty digit string
/// whose value fits in a `u64`.
pub fn parse_digits_range(s: &str, from: usize, to: usize) -> (r: Option<u64>)
    requires
        from <= to <= s@.len(),
    ensures
        ({
            let f = s@.subrange(from as int, to as int);
            match r {
                Some(v) => is_digits(f) && digits_val(f) == v,
                None => !(is_digits(f) && digits_val(f) <= u64::MAX),
            }
        }),
{
    let ghost f = s@.subrange(from as int, to as int);
    if from == to {
        return None;
    }
    let mut acc: u64 = 0;
    let mut i: usize = from;
    while i < to
        invariant
            from <= i <= to <= s@.len(),
            f == s@.subrange(from as int, to as int),
            f.len() > 0,
            forall|j: int| 0 <= j < i - from ==> is_digit(#[trigger] f[j]),
            acc == digits_val(f.subrange(0, i - from)),
        decreases to - i,
    {
        let c = s.get_char(i);
        assert(c == f[i - from]);
        if !('0' <= c && c <= '9') {
            return None;
        }
        let d: u64 = (c as u32 as u64) - 48;
        assert(d == digit_val(c));
        proof {
            lemma_digits_val_step(f, i - from);
        }
        if acc > (u64::MAX - d) / 10 {
            proof {
                assert(digits_val(f.subrange(0, i - from + 1)) == acc * 10 + d > u64::MAX);
                if is_digits(f) {
                    lemma_digits_val_prefix_le(f, i - from + 1);
                    assert(digits_val(f) > u64::MAX);
                }
            }
            return None;
        }
        acc = acc * 10 + d;
        i = i + 1;
    }
    assert(f.subrange(0, (to - from) as int) =~= f);
    Some(acc)
}

/// Parse `s[from..to)` as a signed decimal number.
/// Returns the value exactly when the range is a valid integer field whose
/// value fits in an `i64`.
pub fn parse_int_range(s: &str, from: usize, to: usize) -> (r: Option<i64>)
    requires
        from <= to <= s@.len(),
    ensures
        ({
            let f = s@.subrange(from as int, to as int);
            match r {
                Some(v) => is_int_str(f) && int_str_val(f) == v,
                None => !(is_int_str(f) && i64::MIN <= int_str_val(f) <= i64::MAX),
            }
        }),
{
    let ghost f = s@.subrange(from as int, to as int);
    if from == to {
        return None;
    }
    let c0 = s.get_char(from);
    assert(c0 == f[0]);
    if c0 == '-' {
        proof {
            assert(!is_digit('-'));
            assert(f.skip(1) =~= s@.subrange(from + 1, to as int));
            if f.len() >= 1 && is_digits(f.skip(1)) {
                lemma_digits_val_nonneg(f.skip(1));
            }
        }
        match parse_digits_range(s, from + 1, to) {
            Some(v) => {
                if v <= 9223372036854775808u64 {
                    let r: i64 = if v == 9223372036854775808u64 {
                        i64::MIN
                    } else {
                        -(v as i64)
                    };
                    Some(r)
                } else {
                    None
                }
            },
            None => None,
        }
    } else {
        proof {
            if is_digits(f) {
                lemma_digits_val_nonneg(f);
                assert(int_str_val(f) == digits_val(f));
            }
            assert(f.len() >= 1 && f[0] != '-');
        }
        match parse_digits_range(s, from, to) {
            Some(v) => {
                if v <= i64::MAX as u64 {
                    Some(v as i64)
                } else {
                    None
                }
            },
            None => None,
        }
    }
}

/// Parse a whole string as a signed integer.
pub fn parse_int(s: &str) -> (r: Option<i64>)
    ensures
        match r {
            Some(v) => is_int_str(s@) && int_str_val(s@) == v,
            None => !(is_int_str(s@) && i64::MIN <= int_str_val(s@) <= i64::MAX),
        },
{
    let n = s.unicode_len();
    let r = parse_int_range(s, 0, n);
    proof {
        assert(s@.subrange(0, n as int) =~= s@);
    }
    r
}

/// The single-character string of one decimal digit.
pub fn digit_str(d: u64) -> (r: &'static str)
    requires
        d < 10,
    ensures
        r@ =~= seq![digit_char(d as int)],
{
    proof {
        reveal_strlit("0");
        reveal_strlit("1");
        reveal_strlit("2");
        reveal_strlit("3");
        reveal_strlit("4");
        reveal_strlit("5");
        reveal_strlit("6");
        reveal_strlit("7");
        reveal_strlit("8");
        reveal_strlit("9");
    }
    match d {
        0 => "0",
        1 => "1",
        2 => "2",
        3 => "3",
        4 => "4",
        5 => "5",
        6 => "6",
        7 => "7",
        8 => "8",
        _ => "9",
    }
}

/// Format a natural number as its canonical digit string.
pub fn fmt_u64(n: u64) -> (r: String)
    ensures
        r@ == spec_fmt_nat(n as nat),
    decreases n,
{
    if n < 10 {
        digit_str(n).to_owned()
    } else {
        let mut s = fmt_u64(n / 10);
        s.append(digit_str(n % 10));
        proof {
            assert(s@ =~= spec_fmt_nat((n / 10) as nat).push(digit_char((n % 10) as int)));
        }
        s
    }
}

/// Format a signed integer, minus sign included.
pub fn fmt_i64(n: i64) -> (r: String)
    ensures
        r@ == spec_fmt_int(n as int),
{
    if n < 0 {
        let m: u64 = ((-(n as i128)) as u64);
        let mut s = String::new();
        s.append("-");
        proof {
            reveal_strlit("-");
            assert(s@ =~= seq!['-']);
        }
        let d = fmt_u64(m);
        s.append(d.as_str());
        proof {
            assert(s@ =~= seq!['-'] + spec_fmt_nat(m as nat));
        }
        s
    } else {
        fmt_u64(n as u64)
    }
}

} // verus!
