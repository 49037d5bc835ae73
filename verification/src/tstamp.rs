//! Timestamps as plain calendar fields. The wire carries them in the fixed
//! seventeen-character form `YYYYMMDD HH:MM:SS`; parsing is proved to invert
//! formatting, and an order key makes bar series comparable.

use vstd::prelude::*;
use crate::numfmt::{digits_val, is_digits, lemma_fmt_nat_ok, spec_fmt_nat, digit_char, digit_str};
use crate::dec::{lemma_pad_ok, lemma_zeros_val, pow10, spec_pad, zeros};

verus! {

/// A calendar timestamp, second precision. Conversion between this and a
/// timezone-aware datetime is the caller's business; the wire format is
/// zone-free.
#[derive(Clone, Copy, PartialEq, Eq, Structural, Debug)]
pub struct TimeStamp {
    pub year: u32,
    pub month: u32,
    pub day: u32,
    pub hour: u32,
    pub minute: u32,
    pub second: u32,
}

impl TimeStamp {
    pub open spec fn wf(self) -> bool {
        &&& 1 <= self.year <= 9999
        &&& 1 <= self.month <= 12
        &&& 1 <= self.day <= 31
        &&& self.hour <= 23
        &&& self.minute <= 59
        &&& self.second <= 59
    }

    /// A strictly monotone key: timestamps compare as their fields do,
    /// most significant first.
    pub open spec fn key(self) -> int {
        ((((self.year * 12 + self.month) * 31 + self.day) * 24 + self.hour) * 60 + self.minute)
            * 60 + self.second
    }
}

pub open spec fn spec_fmt_ts(t: TimeStamp) -> Seq<char> {
    spec_pad(spec_fmt_nat(t.year as nat), 4) + spec_pad(spec_fmt_nat(t.month as nat), 2)
        + spec_pad(spec_fmt_nat(t.day as nat), 2) + seq![' '] + spec_pad(
        spec_fmt_nat(t.hour as nat),
        2,
    ) + seq![':'] + spec_pad(spec_fmt_nat(t.minute as nat), 2) + seq![':'] + spec_pad(
        spec_fmt_nat(t.second as nat),
        2,
    )
}

pub open spec fn ts_group(s: Seq<char>, a: int, b: int) -> int {
    digits_val(s.subrange(a, b))
}

pub open spec fn ts_group_ok(s: Seq<char>, a: int, b: int) -> bool {
    is_digits(s.subrange(a, b))
}

/// What a timestamp field of the wire denotes.
pub open spec fn spec_parse_ts(s: Seq<char>) -> Option<TimeStamp> {
    if s.len() == 17 && s[8] == ' ' && s[11] == ':' && s[14] == ':' && ts_group_ok(s, 0, 4)
        && ts_group_ok(s, 4, 6) && ts_group_ok(s, 6, 8) && ts_group_ok(s, 9, 11) && ts_group_ok(
        s,
        12,
        14,
    ) && ts_group_ok(s, 15, 17) {
        let t = TimeStamp {
            year: ts_group(s, 0, 4) as u32,
            month: ts_group(s, 4, 6) as u32,
            day: ts_group(s, 6, 8) as u32,
            hour: ts_group(s, 9, 11) as u32,
            minute: ts_group(s, 12, 14) as u32,
            second: ts_group(s, 15, 17) as u32,
        };
        if t.wf() {
            Some(t)
        } else {
            None
        }
    } else {
        None
    }
}

/// Digit strings of bounded value have bounded length.
pub proof fn lemma_fmt_nat_len(n: nat, k: nat)
    requires
        k >= 1,
        n < pow10(k),
    ensures
        spec_fmt_nat(n).len() <= k,
    decreases k,
{
    if n < 10 {
    } else {
        assert(pow10(k) == 10 * pow10((k - 1) as nat));
        lemma_fmt_nat_len((n / 10) as nat, (k - 1) as nat);
    }
}

/// Format a number zero-padded to at least `w` digits.
pub fn pad_u64(n: u64, w: usize) -> (r: String)
    ensures
        r@ == spec_pad(spec_fmt_nat(n as nat), w as nat),
{
    let digits = crate::numfmt::fmt_u64(n);
    let dlen = digits.as_str().unicode_len();
    let mut out = String::new();
    let mut k: usize = dlen;
    while k < w
        invariant
            out@ =~= zeros((k - dlen) as nat),
            dlen <= k,
            dlen >= w ==> k == dlen,
            dlen < w ==> k <= w,
            dlen == digits@.len(),
        decreases w - k,
    {
        out.append("0");
        proof {
            reveal_strlit("0");
            assert(out@ =~= zeros((k + 1 - dlen) as nat));
        }
        k = k + 1;
    }
    out.append(digits.as_str());
    proof {
        assert(out@ =~= spec_pad(spec_fmt_nat(n as nat), w as nat));
    }
    out
}

/// Format a timestamp as `YYYYMMDD HH:MM:SS`.
pub fn fmt_ts(t: &TimeStamp) -> (r: String)
    requires
        t.wf(),
    ensures
        r@ == spec_fmt_ts(*t),
{
    let mut out = pad_u64(t.year as u64, 4);
    let p_month = pad_u64(t.month as u64, 2);
    out.append(p_month.as_str());
    let p_day = pad_u64(t.day as u64, 2);
    out.append(p_day.as_str());
    out.append(" ");
    let p_hour = pad_u64(t.hour as u64, 2);
    out.append(p_hour.as_str());
    out.append(":");
    let p_min = pad_u64(t.minute as u64, 2);
    out.append(p_min.as_str());
    out.append(":");
    let p_sec = pad_u64(t.second as u64, 2);
    out.append(p_sec.as_str());
    proof {
        reveal_strlit(" ");
        reveal_strlit(":");
        assert(out@ =~= spec_fmt_ts(*t));
    }
    out
}

/// Parse a `YYYYMMDD HH:MM:SS` field.
pub fn parse_ts(s: &str) -> (r: Option<TimeStamp>)
    ensures
        r == spec_parse_ts(s@),
        r is Some ==> r->0.wf(),
{
    let n = s.unicode_len();
    if n != 17 {
        return None;
    }
    if !(s.get_char(8) == ' ' && s.get_char(11) == ':' && s.get_char(14) == ':') {
        return None;
    }
    let year = match crate::numfmt::parse_digits_range(s, 0, 4) {
        Some(v) => v,
        None => {
            proof {
                lemma_group_small(s@, 0, 4);
            }
            return None;
        },
    };
    let month = match crate::numfmt::parse_digits_range(s, 4, 6) {
        Some(v) => v,
        None => {
            proof {
                lemma_group_small(s@, 4, 6);
            }
            return None;
        },
    };
    let day = match crate::numfmt::parse_digits_range(s, 6, 8) {
        Some(v) => v,
        None => {
            proof {
                lemma_group_small(s@, 6, 8);
            }
            return None;
        },
    };
    let hour = match crate::numfmt::parse_digits_range(s, 9, 11) {
        Some(v) => v,
        None => {
            proof {
                lemma_group_small(s@, 9, 11);
            }
            return None;
        },
    };
    let minute = match crate::numfmt::parse_digits_range(s, 12, 14) {
        Some(v) => v,
        None => {
            proof {
                lemma_group_small(s@, 12, 14);
            }
            return None;
        },
    };
    let second = match crate::numfmt::parse_digits_range(s, 15, 17) {
        Some(v) => v,
        None => {
            proof {
                lemma_group_small(s@, 15, 17);
            }
            return None;
        },
    };
    proof {
        lemma_group_small(s@, 0, 4);
        lemma_group_small(s@, 4, 6);
        lemma_group_small(s@, 6, 8);
        lemma_group_small(s@, 9, 11);
        lemma_group_small(s@, 12, 14);
        lemma_group_small(s@, 15, 17);
    }
    if 1 <= year && year <= 9999 && 1 <= month && month <= 12 && 1 <= day && day <= 31 && hour
        <= 23 && minute <= 59 && second <= 59 {
        Some(
            TimeStamp {
                year: year as u32,
                month: month as u32,
                day: day as u32,
                hour: hour as u32,
                minute: minute as u32,
                second: second as u32,
            },
        )
    } else {
        None
    }
}

/// A digit group of at most four characters stays far below `u64::MAX`.
proof fn lemma_group_small(s: Seq<char>, a: int, b: int)
    requires
        0 <= a <= b <= s.len(),
        b - a <= 4,
    ensures
        is_digits(s.subrange(a, b)) ==> 0 <= digits_val(s.subrange(a, b)) < 100000,
{
    let g = s.subrange(a, b);
    if is_digits(g) {
        lemma_digits_val_upper(g);
        assert(pow10(g.len()) <= pow10(4)) by {
            crate::dec::lemma_pow10_le(g.len(), 4);
        }
        assert(pow10(4) == 10000) by {
            reveal_with_fuel(pow10, 5);
        }
    }
}

/// A digit string's value is below `10^len`.
pub proof fn lemma_digits_val_upper(s: Seq<char>)
    requires
        forall|i: int| 0 <= i < s.len() ==> crate::numfmt::is_digit(#[trigger] s[i]),
    ensures
        0 <= digits_val(s) < pow10(s.len()),
    decreases s.len(),
{
    if s.len() == 0 {
    } else {
        lemma_digits_val_upper(s.drop_last());
        assert(pow10(s.len()) == 10 * pow10((s.len() - 1) as nat));
        assert(crate::numfmt::digit_val(s.last()) <= 9);
    }
}

/// Formatting a well-formed timestamp and parsing the text gives the same
/// timestamp back.
pub proof fn lemma_ts_round_trip(t: TimeStamp)
    requires
        t.wf(),
    ensures
        spec_parse_ts(spec_fmt_ts(t)) == Some(t),
{
    reveal_with_fuel(pow10, 5);
    lemma_fmt_nat_ok(t.year as nat);
    lemma_fmt_nat_ok(t.month as nat);
    lemma_fmt_nat_ok(t.day as nat);
    lemma_fmt_nat_ok(t.hour as nat);
    lemma_fmt_nat_ok(t.minute as nat);
    lemma_fmt_nat_ok(t.second as nat);
    lemma_fmt_nat_len(t.year as nat, 4);
    lemma_fmt_nat_len(t.month as nat, 2);
    lemma_fmt_nat_len(t.day as nat, 2);
    lemma_fmt_nat_len(t.hour as nat, 2);
    lemma_fmt_nat_len(t.minute as nat, 2);
    lemma_fmt_nat_len(t.second as nat, 2);
    let py = spec_pad(spec_fmt_nat(t.year as nat), 4);
    let pmo = spec_pad(spec_fmt_nat(t.month as nat), 2);
    let pd = spec_pad(spec_fmt_nat(t.day as nat), 2);
    let ph = spec_pad(spec_fmt_nat(t.hour as nat), 2);
    let pmi = spec_pad(spec_fmt_nat(t.minute as nat), 2);
    let ps = spec_pad(spec_fmt_nat(t.second as nat), 2);
    lemma_pad_ok(spec_fmt_nat(t.year as nat), 4);
    lemma_pad_ok(spec_fmt_nat(t.month as nat), 2);
    lemma_pad_ok(spec_fmt_nat(t.day as nat), 2);
    lemma_pad_ok(spec_fmt_nat(t.hour as nat), 2);
    lemma_pad_ok(spec_fmt_nat(t.minute as nat), 2);
    lemma_pad_ok(spec_fmt_nat(t.second as nat), 2);
    assert(py.len() == 4);
    assert(pmo.len() == 2);
    assert(pd.len() == 2);
    assert(ph.len() == 2);
    assert(pmi.len() == 2);
    assert(ps.len() == 2);
    let s = spec_fmt_ts(t);
    assert(s.len() == 17);
    assert(s.subrange(0, 4) =~= py);
    assert(s.subrange(4, 6) =~= pmo);
    assert(s.subrange(6, 8) =~= pd);
    assert(s[8] == ' ');
    assert(s.subrange(9, 11) =~= ph);
    assert(s[11] == ':');
    assert(s.subrange(12, 14) =~= pmi);
    assert(s[14] == ':');
    assert(s.subrange(15, 17) =~= ps);
}

/// Compare two timestamps by their order key.
pub fn ts_le(a: &TimeStamp, b: &TimeStamp) -> (r: bool)
    requires
        a.wf(),
        b.wf(),
    ensures
        r == (a.key() <= b.key()),
{
    let ka: u64 = ((((a.year as u64 * 12 + a.month as u64) * 31 + a.day as u64) * 24
        + a.hour as u64) * 60 + a.minute as u64) * 60 + a.second as u64;
    let kb: u64 = ((((b.year as u64 * 12 + b.month as u64) * 31 + b.day as u64) * 24
        + b.hour as u64) * 60 + b.minute as u64) * 60 + b.second as u64;
    ka <= kb
}

} // verus!
