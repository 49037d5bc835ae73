//! Null-delimited field framing: a payload is a sequence of textual fields,
//! each terminated by a single null byte, and the whole payload travels
//! behind a four-byte big-endian length prefix.

use vstd::prelude::*;
use crate::numfmt::{int_str_val, is_int_str};

verus! {

/// A field may not contain the delimiter.
pub open spec fn no_nul(s: Seq<char>) -> bool {
    forall|i: int| 0 <= i < s.len() ==> s[i] != '\0'
}

/// One encoded field: the text followed by the delimiter.
pub open spec fn field(s: Seq<char>) -> Seq<char> {
    s + seq!['\0']
}

/// A payload: every field encoded in order.
pub open spec fn spec_join(fields: Seq<Seq<char>>) -> Seq<char>
    decreases fields.len(),
{
    if fields.len() == 0 {
        Seq::empty()
    } else {
        field(fields[0]) + spec_join(fields.skip(1))
    }
}

/// Index of the first delimiter, or `-1` when there is none.
pub open spec fn first_nul(s: Seq<char>) -> int
    decreases s.len(),
{
    if s.len() == 0 {
        -1
    } else if s[0] == '\0' {
        0
    } else {
        let r = first_nul(s.skip(1));
        if r < 0 {
            -1
        } else {
            r + 1
        }
    }
}

/// The fields a payload denotes. A trailing piece without a delimiter
/// counts as one final field.
pub open spec fn spec_split(s: Seq<char>) -> Seq<Seq<char>>
    decreases s.len(),
{
    if s.len() == 0 {
        Seq::empty()
    } else {
        let i = first_nul(s);
        if i < 0 || i >= s.len() {
            seq![s]
        } else {
            seq![s.subrange(0, i)] + spec_split(s.subrange(i + 1, s.len() as int))
        }
    }
}

pub proof fn lemma_first_nul_prefix(s: Seq<char>, i: int)
    requires
        0 <= i < s.len(),
        s[i] == '\0',
        forall|j: int| 0 <= j < i ==> s[j] != '\0',
    ensures
        first_nul(s) == i,
    decreases i,
{
    if i > 0 {
        lemma_first_nul_prefix(s.skip(1), i - 1);
        assert(forall|j: int| 0 <= j < s.len() - 1 ==> s.skip(1)[j] == s[j + 1]);
    }
}

pub proof fn lemma_first_nul_none(s: Seq<char>)
    requires
        no_nul(s),
    ensures
        first_nul(s) < 0,
    decreases s.len(),
{
    if s.len() > 0 {
        lemma_first_nul_none(s.skip(1));
        assert(forall|j: int| 0 <= j < s.len() - 1 ==> s.skip(1)[j] == s[j + 1]);
    }
}

/// In `x + "\0" + y` with `x` delimiter-free, the first delimiter stands at
/// `x.len()`.
pub proof fn lemma_first_nul_concat(x: Seq<char>, y: Seq<char>)
    requires
        no_nul(x),
    ensures
        first_nul(x + seq!['\0'] + y) == x.len(),
    decreases x.len(),
{
    let s = x + seq!['\0'] + y;
    if x.len() == 0 {
        assert(s[0] == '\0');
    } else {
        assert(s[0] == x[0]);
        lemma_first_nul_concat(x.skip(1), y);
        assert(s.skip(1) =~= x.skip(1) + seq!['\0'] + y);
    }
}

/// Splitting inverts joining: the field framing round-trips for every
/// sequence of delimiter-free fields.
pub proof fn lemma_split_join(fields: Seq<Seq<char>>)
    requires
        forall|i: int| 0 <= i < fields.len() ==> no_nul(#[trigger] fields[i]),
    ensures
        spec_split(spec_join(fields)) == fields,
    decreases fields.len(),
{
    if fields.len() == 0 {
        assert(spec_split(spec_join(fields)) =~= fields);
    } else {
        let f0 = fields[0];
        let rest = fields.skip(1);
        lemma_split_join(rest);
        let s = spec_join(fields);
        assert(s =~= f0 + seq!['\0'] + spec_join(rest));
        lemma_first_nul_concat(f0, spec_join(rest));
        assert(s.len() > 0);
        assert(first_nul(s) == f0.len());
        assert(s.subrange(0, f0.len() as int) =~= f0);
        assert(s.subrange(f0.len() as int + 1, s.len() as int) =~= spec_join(rest));
        assert(spec_split(s) =~= seq![f0] + spec_split(spec_join(rest)));
        assert(seq![f0] + rest =~= fields);
    }
}

/// Split a payload into its fields.
pub fn split_fields(s: &str) -> (r: Vec<String>)
    ensures
        r.deep_view() == spec_split(s@),
{
    let n = s.unicode_len();
    let mut out: Vec<String> = Vec::new();
    let mut pos: usize = 0;
    proof {
        assert(s@.subrange(0, n as int) =~= s@);
        assert(out.deep_view() =~= Seq::<Seq<char>>::empty());
        assert(Seq::<Seq<char>>::empty() + spec_split(s@) =~= spec_split(s@));
    }
    while pos < n
        invariant
            pos <= n == s@.len(),
            spec_split(s@) == out.deep_view() + spec_split(s@.subrange(pos as int, n as int)),
        decreases n - pos,
    {
        let ghost rem = s@.subrange(pos as int, n as int);
        // scan for the next delimiter
        let mut j: usize = pos;
        loop
            invariant
                pos <= j <= n == s@.len(),
                rem == s@.subrange(pos as int, n as int),
                forall|k: int| 0 <= k < j - pos ==> rem[k] != '\0',
            ensures
                pos <= j <= n,
                j < n ==> s@[j as int] == '\0' && first_nul(rem) == j - pos,
                j == n ==> first_nul(rem) < 0,
            decreases n - j,
        {
            if j == n {
                proof {
                    lemma_first_nul_none(rem);
                }
                break;
            }
            if s.get_char(j) == '\0' {
                proof {
                    lemma_first_nul_prefix(rem, j - pos);
                }
                break;
            }
            j = j + 1;
        }
        let piece = s.substring_char(pos, j).to_owned();
        proof {
            assert(piece@ =~= rem.subrange(0, j - pos));
        }
        let ghost prev = out.deep_view();
        out.push(piece);
        proof {
            assert(out.deep_view() =~= prev.push(piece@));
        }
        if j == n {
            proof {
                assert(piece@ =~= rem);
                assert(spec_split(rem) =~= seq![rem]);
                assert(prev.push(piece@) =~= prev + seq![rem]);
                assert(s@.subrange(n as int, n as int) =~= Seq::<char>::empty());
                assert(prev + spec_split(rem) =~= prev.push(piece@) + spec_split(
                    Seq::<char>::empty(),
                ));
            }
            pos = n;
        } else {
            proof {
                let tail = rem.subrange(j - pos + 1, rem.len() as int);
                assert(spec_split(rem) =~= seq![rem.subrange(0, j - pos)] + spec_split(tail));
                assert(tail =~= s@.subrange(j as int + 1, n as int));
                assert(prev + spec_split(rem) =~= prev.push(piece@) + spec_split(tail));
            }
            pos = j + 1;
        }
    }
    proof {
        assert(s@.subrange(n as int, n as int) =~= Seq::<char>::empty());
        assert(spec_split(Seq::<char>::empty()) =~= Seq::<Seq<char>>::empty());
        assert(out.deep_view() + Seq::<Seq<char>>::empty() =~= out.deep_view());
    }
    out
}

/// Append one field and its delimiter to a payload under construction.
pub fn push_field(out: &mut String, text: &str)
    ensures
        final(out)@ == old(out)@ + field(text@),
{
    out.append(text);
    out.append("\0");
    proof {
        reveal_strlit("\0");
        assert(old(out)@ + text@ + "\0"@ =~= old(out)@ + field(text@));
    }
}

/// Join fields into one payload.
pub fn join_fields(fields: &Vec<String>) -> (r: String)
    ensures
        r@ == spec_join(fields.deep_view()),
{
    let mut out = String::new();
    let mut i: usize = 0;
    while i < fields.len()
        invariant
            i <= fields.len(),
            out@ == spec_join(fields.deep_view().subrange(0, i as int)),
        decreases fields.len() - i,
    {
        push_field(&mut out, fields[i].as_str());
        proof {
            lemma_join_push(fields.deep_view().subrange(0, i as int), fields.deep_view()[i as int]);
            assert(fields.deep_view().subrange(0, i as int).push(fields.deep_view()[i as int])
                =~= fields.deep_view().subrange(0, i + 1));
        }
        i = i + 1;
    }
    proof {
        assert(fields.deep_view().subrange(0, fields.deep_view().len() as int) =~= fields.deep_view());
    }
    out
}

/// Joining one more field appends its encoding.
pub proof fn lemma_join_push(fields: Seq<Seq<char>>, f: Seq<char>)
    ensures
        spec_join(fields.push(f)) == spec_join(fields) + field(f),
    decreases fields.len(),
{
    if fields.len() == 0 {
        assert(fields.push(f)[0] == f);
        assert(fields.push(f).skip(1) =~= Seq::<Seq<char>>::empty());
        assert(spec_join(fields.push(f).skip(1)) =~= Seq::<char>::empty());
        assert(spec_join(fields.push(f)) =~= field(f));
        assert(spec_join(fields) + field(f) =~= field(f));
    } else {
        lemma_join_push(fields.skip(1), f);
        assert(fields.push(f).skip(1) =~= fields.skip(1).push(f));
        assert(fields.push(f)[0] == fields[0]);
        assert(spec_join(fields.push(f)) =~= field(fields[0]) + spec_join(fields.skip(1).push(f)));
        assert(field(fields[0]) + (spec_join(fields.skip(1)) + field(f)) =~= (field(fields[0])
            + spec_join(fields.skip(1))) + field(f));
    }
}

/// The four-byte big-endian length prefix of a payload: most significant
/// byte first.
pub open spec fn spec_len_prefix(n: u32) -> Seq<u8> {
    seq![(n >> 24) as u8, (n >> 16) as u8, (n >> 8) as u8, n as u8]
}

/// Encode a frame length as its prefix bytes.
pub fn encode_len_prefix(n: u32) -> (r: Vec<u8>)
    ensures
        r@ == spec_len_prefix(n),
{
    let mut v: Vec<u8> = Vec::new();
    v.push((n >> 24) as u8);
    v.push((n >> 16) as u8);
    v.push((n >> 8) as u8);
    v.push(n as u8);
    proof {
        assert(v@ =~= spec_len_prefix(n));
    }
    v
}

/// Decode a length prefix: the inverse of `encode_len_prefix`.
pub fn decode_len_prefix(b: &[u8]) -> (r: Option<u32>)
    ensures
        match r {
            Some(n) => b@.len() == 4 && spec_len_prefix(n) == b@,
            None => b@.len() != 4,
        },
{
    if b.len() != 4 {
        return None;
    }
    let b0 = b[0];
    let b1 = b[1];
    let b2 = b[2];
    let b3 = b[3];
    let n: u32 = ((b0 as u32) << 24) | ((b1 as u32) << 16) | ((b2 as u32) << 8) | (b3 as u32);
    proof {
        let m = ((b0 as u32) << 24) | ((b1 as u32) << 16) | ((b2 as u32) << 8) | (b3 as u32);
        assert((m >> 24) as u8 == b0 && (m >> 16) as u8 == b1 && (m >> 8) as u8 == b2 && m as u8
            == b3) by (bit_vector)
            requires
                m == ((b0 as u32) << 24) | ((b1 as u32) << 16) | ((b2 as u32) << 8) | (b3 as u32),
        ;
        assert(spec_len_prefix(n) =~= b@);
    }
    Some(n)
}

/// Parse a field as an `i32` request or order ID.
pub open spec fn spec_parse_i32(s: Seq<char>) -> Option<i32> {
    if is_int_str(s) && -0x80000000 <= int_str_val(s) <= 0x7fffffff {
        Some(int_str_val(s) as i32)
    } else {
        None
    }
}

pub fn parse_i32(s: &str) -> (r: Option<i32>)
    ensures
        r == spec_parse_i32(s@),
{
    match crate::numfmt::parse_int(s) {
        Some(v) => {
            if -2147483648i64 <= v && v <= 2147483647i64 {
                Some(v as i32)
            } else {
                None
            }
        },
        None => None,
    }
}

/// Parse a field as an `i64`.
pub open spec fn spec_parse_i64(s: Seq<char>) -> Option<i64> {
    if is_int_str(s) && i64::MIN <= int_str_val(s) <= i64::MAX {
        Some(int_str_val(s) as i64)
    } else {
        None
    }
}

pub fn parse_i64(s: &str) -> (r: Option<i64>)
    ensures
        r == spec_parse_i64(s@),
{
    crate::numfmt::parse_int(s)
}

} // verus!
