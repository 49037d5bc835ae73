//! The executable frame encoder and the codec's round-trip law: parsing the
//! encoding of any well-formed frame (other than `Error` and `Other`) gives
//! the frame back.

use vstd::prelude::*;
use crate::dec::{
    fmt_dec, lemma_dec_round_trip, lemma_pad_ok, spec_fmt_dec, spec_pad,
    spec_parse_dec, Dec,
};
use crate::frame::{
    sd, si, sod, spec_enc_bar, spec_enc_bars, spec_encode_frame, spec_parse_bars,
    spec_parse_frame, spec_parse_opt_dec, Frame, FrameV,
};
use crate::numfmt::{
    digit_val, fmt_i64, fmt_u64, is_digit, is_digits, is_int_str, lemma_fmt_int_ok,
    lemma_fmt_nat_ok, spec_fmt_int, spec_fmt_nat,
};
use crate::tstamp::{fmt_ts, lemma_ts_round_trip, spec_fmt_ts, TimeStamp};
use crate::types::Bar;
use crate::wire::{
    join_fields, lemma_split_join, no_nul, spec_join, spec_parse_i32, spec_parse_i64, spec_split,
};

verus! {

/// Format an `i32` field.
pub fn fmt_i32(n: i32) -> (r: String)
    ensures
        r@ == spec_fmt_int(n as int),
{
    fmt_i64(n as i64)
}

/// Format an optional decimal field: absent encodes as the empty field.
pub fn fmt_opt_dec(o: &Option<Dec>) -> (r: String)
    requires
        match o {
            Some(d) => d.wf(),
            None => true,
        },
    ensures
        r@ == sod(*o),
{
    match o {
        Some(d) => fmt_dec(d),
        None => {
            let s = String::new();
            proof {
                assert(s@ =~= sod(None::<Dec>));
            }
            s
        },
    }
}

/// Integer fields never contain the delimiter.
pub proof fn lemma_no_nul_int(n: int)
    ensures
        no_nul(spec_fmt_int(n)),
{
    if n < 0 {
        lemma_fmt_nat_ok((-n) as nat);
        let d = spec_fmt_nat((-n) as nat);
        let s = seq!['-'] + d;
        assert(spec_fmt_int(n) =~= s);
        assert forall|i: int| 0 <= i < s.len() implies s[i] != '\0' by {
            if i > 0 {
                assert(is_digit(d[i - 1]));
            }
        }
    } else {
        lemma_fmt_nat_ok(n as nat);
        let d = spec_fmt_nat(n as nat);
        assert forall|i: int| 0 <= i < d.len() implies d[i] != '\0' by {
            assert(is_digit(d[i]));
        }
    }
}

/// Decimal fields never contain the delimiter.
pub proof fn lemma_no_nul_dec(d: Dec)
    requires
        d.wf(),
    ensures
        no_nul(spec_fmt_dec(d)),
{
    let a = (if d.mantissa < 0 { -(d.mantissa as int) } else { d.mantissa as int }) as nat;
    lemma_fmt_nat_ok(a);
    lemma_pad_ok(spec_fmt_nat(a), (d.scale + 1) as nat);
    let dg = spec_pad(spec_fmt_nat(a), (d.scale + 1) as nat);
    let s = spec_fmt_dec(d);
    if d.scale == 0 {
        if d.mantissa < 0 {
            assert(s =~= seq!['-'] + dg);
            assert forall|i: int| 0 <= i < s.len() implies s[i] != '\0' by {
                if i > 0 {
                    assert(is_digit(dg[i - 1]));
                }
            }
        } else {
            assert(s =~= dg);
            assert forall|i: int| 0 <= i < s.len() implies s[i] != '\0' by {
                assert(is_digit(dg[i]));
            }
        }
    } else {
        let cut = dg.len() - d.scale;
        let body = dg.subrange(0, cut) + seq!['.'] + dg.subrange(cut, dg.len() as int);
        assert forall|i: int| 0 <= i < body.len() implies body[i] != '\0' by {
            if i < cut {
                assert(body[i] == dg[i]);
                assert(is_digit(dg[i]));
            } else if i == cut {
                assert(body[i] == '.');
            } else {
                assert(body[i] == dg[i - 1]);
                assert(is_digit(dg[i - 1]));
            }
        }
        if d.mantissa < 0 {
            assert(s =~= seq!['-'] + body);
            assert forall|i: int| 0 <= i < s.len() implies s[i] != '\0' by {
                if i > 0 {
                    assert(body[i - 1] != '\0');
                }
            }
        } else {
            assert(s =~= body);
        }
    }
}

/// Optional decimal fields never contain the delimiter.
pub proof fn lemma_no_nul_opt_dec(o: Option<Dec>)
    requires
        match o {
            Some(d) => d.wf(),
            None => true,
        },
    ensures
        no_nul(sod(o)),
{
    match o {
        Some(d) => lemma_no_nul_dec(d),
        None => {},
    }
}

/// Timestamp fields never contain the delimiter.
pub proof fn lemma_no_nul_ts(t: TimeStamp)
    requires
        t.wf(),
    ensures
        no_nul(spec_fmt_ts(t)),
{
    lemma_pad_no_nul(t.year as nat, 4);
    lemma_pad_no_nul(t.month as nat, 2);
    lemma_pad_no_nul(t.day as nat, 2);
    lemma_pad_no_nul(t.hour as nat, 2);
    lemma_pad_no_nul(t.minute as nat, 2);
    lemma_pad_no_nul(t.second as nat, 2);
    let s = spec_fmt_ts(t);
    let py = spec_pad(spec_fmt_nat(t.year as nat), 4);
    let pmo = spec_pad(spec_fmt_nat(t.month as nat), 2);
    let pd = spec_pad(spec_fmt_nat(t.day as nat), 2);
    let ph = spec_pad(spec_fmt_nat(t.hour as nat), 2);
    let pmi = spec_pad(spec_fmt_nat(t.minute as nat), 2);
    let ps = spec_pad(spec_fmt_nat(t.second as nat), 2);
    assert(s =~= py + pmo + pd + seq![' '] + ph + seq![':'] + pmi + seq![':'] + ps);
    lemma_no_nul_concat(py, pmo);
    lemma_no_nul_concat(py + pmo, pd);
    lemma_no_nul_concat(py + pmo + pd, seq![' ']);
    lemma_no_nul_concat(py + pmo + pd + seq![' '], ph);
    lemma_no_nul_concat(py + pmo + pd + seq![' '] + ph, seq![':']);
    lemma_no_nul_concat(py + pmo + pd + seq![' '] + ph + seq![':'], pmi);
    lemma_no_nul_concat(py + pmo + pd + seq![' '] + ph + seq![':'] + pmi, seq![':']);
    lemma_no_nul_concat(py + pmo + pd + seq![' '] + ph + seq![':'] + pmi + seq![':'], ps);
}

proof fn lemma_pad_no_nul(n: nat, w: nat)
    ensures
        no_nul(spec_pad(spec_fmt_nat(n), w)),
{
    lemma_fmt_nat_ok(n);
    lemma_pad_ok(spec_fmt_nat(n), w);
    let p = spec_pad(spec_fmt_nat(n), w);
    assert forall|i: int| 0 <= i < p.len() implies p[i] != '\0' by {
        assert(is_digit(p[i]));
    }
}

pub proof fn lemma_no_nul_concat(a: Seq<char>, b: Seq<char>)
    requires
        no_nul(a),
        no_nul(b),
    ensures
        no_nul(a + b),
{
    assert forall|i: int| 0 <= i < (a + b).len() implies (a + b)[i] != '\0' by {
        if i < a.len() {
            assert((a + b)[i] == a[i]);
        } else {
            assert((a + b)[i] == b[i - a.len()]);
        }
    }
}

/// Absent-or-present decimal fields round-trip.
pub proof fn lemma_opt_dec_round_trip(o: Option<Dec>)
    requires
        match o {
            Some(d) => d.wf(),
            None => true,
        },
    ensures
        spec_parse_opt_dec(sod(o)) == Some(o),
{
    match o {
        Some(d) => {
            lemma_dec_round_trip(d);
            let a = (if d.mantissa < 0 {
                -(d.mantissa as int)
            } else {
                d.mantissa as int
            }) as nat;
            lemma_fmt_nat_ok(a);
            lemma_pad_ok(spec_fmt_nat(a), (d.scale + 1) as nat);
            assert(spec_fmt_dec(d).len() > 0);
        },
        None => {},
    }
}

/// Appending one bar appends its six fields.
pub proof fn lemma_enc_bars_push(bars: Seq<Bar>, b: Bar)
    ensures
        spec_enc_bars(bars.push(b)) == spec_enc_bars(bars) + spec_enc_bar(b),
    decreases bars.len(),
{
    if bars.len() == 0 {
        assert(bars.push(b)[0] == b);
        assert(bars.push(b).skip(1) =~= Seq::<Bar>::empty());
        assert(spec_enc_bars(bars.push(b).skip(1)) =~= Seq::<Seq<char>>::empty());
        assert(spec_enc_bars(bars.push(b)) =~= spec_enc_bar(b));
        assert(spec_enc_bars(bars) + spec_enc_bar(b) =~= spec_enc_bar(b));
    } else {
        lemma_enc_bars_push(bars.skip(1), b);
        assert(bars.push(b).skip(1) =~= bars.skip(1).push(b));
        assert(bars.push(b)[0] == bars[0]);
        assert(spec_enc_bars(bars.push(b)) =~= spec_enc_bar(bars[0]) + spec_enc_bars(
            bars.skip(1).push(b),
        ));
        assert(spec_enc_bar(bars[0]) + (spec_enc_bars(bars.skip(1)) + spec_enc_bar(b)) =~= (
        spec_enc_bar(bars[0]) + spec_enc_bars(bars.skip(1))) + spec_enc_bar(b));
    }
}

/// A bar run encodes to six fields per bar.
pub proof fn lemma_enc_bars_len(bars: Seq<Bar>)
    ensures
        spec_enc_bars(bars).len() == 6 * bars.len(),
    decreases bars.len(),
{
    if bars.len() > 0 {
        lemma_enc_bars_len(bars.skip(1));
    }
}

/// Parsing a run of encoded bars gives the bars back.
#[verifier::rlimit(60)]
pub proof fn lemma_parse_enc_bars(fields: Seq<Seq<char>>, start: int, bars: Seq<Bar>)
    requires
        0 <= start,
        start + 6 * bars.len() <= fields.len(),
        forall|i: int| 0 <= i < 6 * bars.len() ==> fields[start + i] == #[trigger] spec_enc_bars(
            bars,
        )[i],
        forall|i: int| 0 <= i < bars.len() ==> (#[trigger] bars[i]).wf(),
    ensures
        spec_parse_bars(fields, start, bars.len()) == Some(bars),
    decreases bars.len(),
{
    lemma_enc_bars_len(bars);
    if bars.len() == 0 {
        assert(spec_parse_bars(fields, start, 0) == Some(Seq::<Bar>::empty()));
        assert(bars =~= Seq::<Bar>::empty());
    } else {
        let b0 = bars[0];
        assert(b0.wf());
        let rest = bars.skip(1);
        assert(spec_enc_bars(bars) =~= spec_enc_bar(b0) + spec_enc_bars(rest));
        lemma_ts_round_trip(b0.t);
        lemma_dec_round_trip(b0.open);
        lemma_dec_round_trip(b0.high);
        lemma_dec_round_trip(b0.low);
        lemma_dec_round_trip(b0.close);
        lemma_dec_round_trip(b0.volume);
        assert(spec_enc_bars(bars)[0] == spec_fmt_ts(b0.t));
        assert(spec_enc_bars(bars)[1] == sd(b0.open));
        assert(spec_enc_bars(bars)[2] == sd(b0.high));
        assert(spec_enc_bars(bars)[3] == sd(b0.low));
        assert(spec_enc_bars(bars)[4] == sd(b0.close));
        assert(spec_enc_bars(bars)[5] == sd(b0.volume));
        assert(fields[start + 0] == spec_enc_bars(bars)[0]);
        assert(fields[start + 1] == spec_enc_bars(bars)[1]);
        assert(fields[start + 2] == spec_enc_bars(bars)[2]);
        assert(fields[start + 3] == spec_enc_bars(bars)[3]);
        assert(fields[start + 4] == spec_enc_bars(bars)[4]);
        assert(fields[start + 5] == spec_enc_bars(bars)[5]);
        assert(fields[start] == spec_fmt_ts(b0.t));
        assert(fields[start + 1] == sd(b0.open));
        assert(fields[start + 2] == sd(b0.high));
        assert(fields[start + 3] == sd(b0.low));
        assert(fields[start + 4] == sd(b0.close));
        assert(fields[start + 5] == sd(b0.volume));
        lemma_enc_bars_len(rest);
        assert forall|i: int| 0 <= i < 6 * rest.len() implies fields[start + 6 + i]
            == #[trigger] spec_enc_bars(rest)[i] by {
            assert(spec_enc_bars(bars)[6 + i] == spec_enc_bars(rest)[i]);
            assert(fields[start + (6 + i)] == spec_enc_bars(bars)[6 + i]);
        }
        assert(forall|i: int| 0 <= i < rest.len() ==> (#[trigger] rest[i]).wf());
        lemma_parse_enc_bars(fields, start + 6, rest);
        assert(seq![b0] + rest =~= bars);
    }
}

/// Every field of an encoded frame is delimiter-free.
pub proof fn lemma_enc_no_nul(f: FrameV)
    requires
        f.wf(),
    ensures
        forall|i: int| 0 <= i < spec_encode_frame(f).len() ==> no_nul(
            #[trigger] spec_encode_frame(f)[i],
        ),
{
    reveal_strlit("AccountCode");
    reveal_strlit("AccountType");
    reveal_strlit("CashBalance");
    reveal_strlit("EquityWithLoanValue");
    reveal_strlit("ExcessLiquidity");
    reveal_strlit("NetLiquidation");
    reveal_strlit("UnrealizedPnL");
    reveal_strlit("RealizedPnL");
    reveal_strlit("TotalCashBalance");
    match f {
        FrameV::AccountCode(_) => lemma_no_nul_int(6),
        FrameV::AccountType(_) => lemma_no_nul_int(6),
        FrameV::AccountUpdateTime(_) => lemma_no_nul_int(8),
        FrameV::CashBalance(d) => {
            lemma_no_nul_int(6);
            lemma_no_nul_dec(d);
        },
        FrameV::EquityWithLoanValue(d) => {
            lemma_no_nul_int(6);
            lemma_no_nul_dec(d);
        },
        FrameV::ExcessLiquidity(d) => {
            lemma_no_nul_int(6);
            lemma_no_nul_dec(d);
        },
        FrameV::NetLiquidation(d) => {
            lemma_no_nul_int(6);
            lemma_no_nul_dec(d);
        },
        FrameV::UnrealizedPnL(d) => {
            lemma_no_nul_int(6);
            lemma_no_nul_dec(d);
        },
        FrameV::RealizedPnL(d) => {
            lemma_no_nul_int(6);
            lemma_no_nul_dec(d);
        },
        FrameV::TotalCashBalance(d) => {
            lemma_no_nul_int(6);
            lemma_no_nul_dec(d);
        },
        FrameV::PortfolioValue(p) => {
            lemma_no_nul_int(7);
            lemma_no_nul_dec(p.position);
            lemma_no_nul_dec(p.market_price);
            lemma_no_nul_dec(p.market_value);
        },
        FrameV::AccountUpdateEnd(_) => lemma_no_nul_int(54),
        FrameV::CurrentTime(t) => {
            lemma_no_nul_int(49);
            lemma_no_nul_int(t as int);
        },
        FrameV::NextValidOrderID(id) => {
            lemma_no_nul_int(9);
            lemma_no_nul_int(id as int);
        },
        FrameV::ContractDetailsData { req_id, .. } => {
            lemma_no_nul_int(10);
            lemma_no_nul_int(req_id as int);
        },
        FrameV::ContractDetailsEnd { req_id } => {
            lemma_no_nul_int(52);
            lemma_no_nul_int(req_id as int);
        },
        FrameV::OpenOrder { order, state } => {
            lemma_no_nul_int(5);
            lemma_no_nul_int(order.order_id as int);
            lemma_no_nul_dec(order.quantity);
            lemma_no_nul_opt_dec(order.limit_price);
            lemma_no_nul_opt_dec(state.commission);
        },
        FrameV::OrderStatus(o) => {
            lemma_no_nul_int(3);
            lemma_no_nul_int(o.order_id as int);
            lemma_no_nul_dec(o.filled);
            lemma_no_nul_dec(o.remaining);
            lemma_no_nul_dec(o.avg_fill_price);
        },
        FrameV::Execution(e) => {
            lemma_no_nul_int(11);
            lemma_no_nul_int(e.order_id as int);
            lemma_no_nul_dec(e.shares);
            lemma_no_nul_dec(e.price);
        },
        FrameV::CommissionReport(c) => {
            lemma_no_nul_int(59);
            lemma_no_nul_dec(c.commission);
        },
        FrameV::PriceTick { req_id, kind, price, size } => {
            lemma_no_nul_int(1);
            lemma_no_nul_int(req_id as int);
            lemma_no_nul_int(kind as int);
            lemma_no_nul_dec(price);
            lemma_no_nul_dec(size);
        },
        FrameV::SizeTick { req_id, kind, size } => {
            lemma_no_nul_int(2);
            lemma_no_nul_int(req_id as int);
            lemma_no_nul_int(kind as int);
            lemma_no_nul_dec(size);
        },
        FrameV::GenericTick { req_id, kind, value } => {
            lemma_no_nul_int(45);
            lemma_no_nul_int(req_id as int);
            lemma_no_nul_int(kind as int);
            lemma_no_nul_dec(value);
        },
        FrameV::Bars { req_id, series } => {
            lemma_no_nul_int(17);
            lemma_no_nul_int(req_id as int);
            lemma_no_nul_int(series.len() as int);
            lemma_enc_bars_no_nul(series);
            lemma_enc_bars_len(series);
            let head = seq![si(17), si(req_id as int), si(series.len() as int)];
            let enc = spec_encode_frame(f);
            assert(enc =~= head + spec_enc_bars(series));
            assert forall|i: int| 0 <= i < enc.len() implies no_nul(#[trigger] enc[i]) by {
                if i >= 3 {
                    assert(enc[i] == spec_enc_bars(series)[i - 3]);
                }
            }
        },
        FrameV::Error { req_id, code, .. } => {
            lemma_no_nul_int(4);
            lemma_no_nul_int(req_id as int);
            lemma_no_nul_int(code as int);
        },
        FrameV::Other => {
            lemma_no_nul_int(-1);
        },
    }
}

proof fn lemma_enc_bars_no_nul(bars: Seq<Bar>)
    requires
        forall|i: int| 0 <= i < bars.len() ==> (#[trigger] bars[i]).wf(),
    ensures
        forall|i: int| 0 <= i < spec_enc_bars(bars).len() ==> no_nul(
            #[trigger] spec_enc_bars(bars)[i],
        ),
    decreases bars.len(),
{
    if bars.len() > 0 {
        let b0 = bars[0];
        assert(b0.wf());
        lemma_no_nul_ts(b0.t);
        lemma_no_nul_dec(b0.open);
        lemma_no_nul_dec(b0.high);
        lemma_no_nul_dec(b0.low);
        lemma_no_nul_dec(b0.close);
        lemma_no_nul_dec(b0.volume);
        assert(forall|i: int| 0 <= i < bars.skip(1).len() ==> (#[trigger] bars.skip(1)[i]).wf());
        lemma_enc_bars_no_nul(bars.skip(1));
        let enc = spec_enc_bars(bars);
        assert(enc =~= spec_enc_bar(b0) + spec_enc_bars(bars.skip(1)));
        assert forall|i: int| 0 <= i < enc.len() implies no_nul(#[trigger] enc[i]) by {
            if i < 6 {
                assert(enc[i] == spec_enc_bar(b0)[i]);
            } else {
                assert(enc[i] == spec_enc_bars(bars.skip(1))[i - 6]);
            }
        }
    }
}

/// The account-value keys are pairwise distinct.
proof fn lemma_account_keys_distinct()
    ensures
        "AccountCode"@ != "AccountType"@,
        "AccountCode"@ != "CashBalance"@,
        "AccountCode"@ != "EquityWithLoanValue"@,
        "AccountCode"@ != "ExcessLiquidity"@,
        "AccountCode"@ != "NetLiquidation"@,
        "AccountCode"@ != "UnrealizedPnL"@,
        "AccountCode"@ != "RealizedPnL"@,
        "AccountCode"@ != "TotalCashBalance"@,
        "AccountType"@ != "CashBalance"@,
        "AccountType"@ != "EquityWithLoanValue"@,
        "AccountType"@ != "ExcessLiquidity"@,
        "AccountType"@ != "NetLiquidation"@,
        "AccountType"@ != "UnrealizedPnL"@,
        "AccountType"@ != "RealizedPnL"@,
        "AccountType"@ != "TotalCashBalance"@,
        "CashBalance"@ != "EquityWithLoanValue"@,
        "CashBalance"@ != "ExcessLiquidity"@,
        "CashBalance"@ != "NetLiquidation"@,
        "CashBalance"@ != "UnrealizedPnL"@,
        "CashBalance"@ != "RealizedPnL"@,
        "CashBalance"@ != "TotalCashBalance"@,
        "EquityWithLoanValue"@ != "ExcessLiquidity"@,
        "EquityWithLoanValue"@ != "NetLiquidation"@,
        "EquityWithLoanValue"@ != "UnrealizedPnL"@,
        "EquityWithLoanValue"@ != "RealizedPnL"@,
        "EquityWithLoanValue"@ != "TotalCashBalance"@,
        "ExcessLiquidity"@ != "NetLiquidation"@,
        "ExcessLiquidity"@ != "UnrealizedPnL"@,
        "ExcessLiquidity"@ != "RealizedPnL"@,
        "ExcessLiquidity"@ != "TotalCashBalance"@,
        "NetLiquidation"@ != "UnrealizedPnL"@,
        "NetLiquidation"@ != "RealizedPnL"@,
        "NetLiquidation"@ != "TotalCashBalance"@,
        "UnrealizedPnL"@ != "RealizedPnL"@,
        "UnrealizedPnL"@ != "TotalCashBalance"@,
        "RealizedPnL"@ != "TotalCashBalance"@,
{
    reveal_strlit("AccountCode");
    reveal_strlit("AccountType");
    reveal_strlit("CashBalance");
    reveal_strlit("EquityWithLoanValue");
    reveal_strlit("ExcessLiquidity");
    reveal_strlit("NetLiquidation");
    reveal_strlit("UnrealizedPnL");
    reveal_strlit("RealizedPnL");
    reveal_strlit("TotalCashBalance");
    assert("AccountCode"@.len() == 11);
    assert("AccountType"@.len() == 11);
    assert("CashBalance"@.len() == 11);
    assert("EquityWithLoanValue"@.len() == 19);
    assert("ExcessLiquidity"@.len() == 15);
    assert("NetLiquidation"@.len() == 14);
    assert("UnrealizedPnL"@.len() == 13);
    assert("RealizedPnL"@.len() == 11);
    assert("TotalCashBalance"@.len() == 16);
    assert("AccountCode"@[7] == 'C');
    assert("AccountType"@[7] == 'T');
    assert("CashBalance"@[0] == 'C');
    assert("AccountCode"@[0] == 'A');
    assert("AccountType"@[0] == 'A');
    assert("RealizedPnL"@[0] == 'R');
}

/// Encoding a frame and parsing the payload gives the frame back, for
/// every well-formed frame of a supported kind.
pub proof fn lemma_frame_round_trip(f: FrameV)
    requires
        f.wf(),
        !(f is Error),
        !(f is Other),
    ensures
        spec_parse_frame(spec_split(spec_join(spec_encode_frame(f)))) == f,
{
    match f {
        FrameV::AccountCode(_s) => lemma_rt_account_code(f),
        FrameV::AccountType(_s) => lemma_rt_account_type(f),
        FrameV::AccountUpdateTime(_s) => lemma_rt_account_update_time(f),
        FrameV::CashBalance(d) => lemma_rt_cash_balance(f),
        FrameV::EquityWithLoanValue(d) => lemma_rt_equity_with_loan(f),
        FrameV::ExcessLiquidity(d) => lemma_rt_excess_liquidity(f),
        FrameV::NetLiquidation(d) => lemma_rt_net_liquidation(f),
        FrameV::UnrealizedPnL(d) => lemma_rt_unrealized_pnl(f),
        FrameV::RealizedPnL(d) => lemma_rt_realized_pnl(f),
        FrameV::TotalCashBalance(d) => lemma_rt_total_cash_balance(f),
        FrameV::PortfolioValue(p) => lemma_rt_portfolio_value(f),
        FrameV::AccountUpdateEnd(_s) => lemma_rt_account_update_end(f),
        FrameV::CurrentTime(t) => lemma_rt_current_time(f),
        FrameV::NextValidOrderID(id) => lemma_rt_next_valid_order_id(f),
        FrameV::ContractDetailsData { req_id, .. } => lemma_rt_contract_details(f),
        FrameV::ContractDetailsEnd { req_id } => lemma_rt_contract_details_end(f),
        FrameV::OpenOrder { order, state } => lemma_rt_open_order(f),
        FrameV::OrderStatus(o) => lemma_rt_order_status(f),
        FrameV::Execution(e) => lemma_rt_execution(f),
        FrameV::CommissionReport(c) => lemma_rt_commission_report(f),
        FrameV::PriceTick { req_id, kind, price, size } => lemma_rt_price_tick(f),
        FrameV::SizeTick { req_id, kind, size } => lemma_rt_size_tick(f),
        FrameV::GenericTick { req_id, kind, value } => lemma_rt_generic_tick(f),
        FrameV::Bars { req_id, series } => lemma_rt_bars(f),
        FrameV::Error { .. } => {},
        FrameV::Other => {},
    }
}

proof fn lemma_rt_account_code(f: FrameV)
    requires
        f.wf(),
        f is AccountCode,
    ensures
        spec_parse_frame(spec_split(spec_join(spec_encode_frame(f)))) == f,
{
    reveal_strlit("AccountCode");
    reveal_strlit("AccountType");
    reveal_strlit("CashBalance");
    reveal_strlit("EquityWithLoanValue");
    reveal_strlit("ExcessLiquidity");
    reveal_strlit("NetLiquidation");
    reveal_strlit("UnrealizedPnL");
    reveal_strlit("RealizedPnL");
    reveal_strlit("TotalCashBalance");
    lemma_account_keys_distinct();
    let enc = spec_encode_frame(f);
    lemma_enc_no_nul(f);
    lemma_split_join(enc);
    match f {
        FrameV::AccountCode(_s) => {
            lemma_fmt_int_ok(6);
        },
        _ => {},
    }
}

proof fn lemma_rt_account_type(f: FrameV)
    requires
        f.wf(),
        f is AccountType,
    ensures
        spec_parse_frame(spec_split(spec_join(spec_encode_frame(f)))) == f,
{
    reveal_strlit("AccountCode");
    reveal_strlit("AccountType");
    reveal_strlit("CashBalance");
    reveal_strlit("EquityWithLoanValue");
    reveal_strlit("ExcessLiquidity");
    reveal_strlit("NetLiquidation");
    reveal_strlit("UnrealizedPnL");
    reveal_strlit("RealizedPnL");
    reveal_strlit("TotalCashBalance");
    lemma_account_keys_distinct();
    let enc = spec_encode_frame(f);
    lemma_enc_no_nul(f);
    lemma_split_join(enc);
    match f {
        FrameV::AccountType(_s) => {
            lemma_fmt_int_ok(6);
        },
        _ => {},
    }
}

proof fn lemma_rt_account_update_time(f: FrameV)
    requires
        f.wf(),
        f is AccountUpdateTime,
    ensures
        spec_parse_frame(spec_split(spec_join(spec_encode_frame(f)))) == f,
{
    reveal_strlit("AccountCode");
    reveal_strlit("AccountType");
    reveal_strlit("CashBalance");
    reveal_strlit("EquityWithLoanValue");
    reveal_strlit("ExcessLiquidity");
    reveal_strlit("NetLiquidation");
    reveal_strlit("UnrealizedPnL");
    reveal_strlit("RealizedPnL");
    reveal_strlit("TotalCashBalance");
    let enc = spec_encode_frame(f);
    lemma_enc_no_nul(f);
    lemma_split_join(enc);
    match f {
        FrameV::AccountUpdateTime(_s) => {
            lemma_fmt_int_ok(8);
        },
        _ => {},
    }
}

proof fn lemma_rt_cash_balance(f: FrameV)
    requires
        f.wf(),
        f is CashBalance,
    ensures
        spec_parse_frame(spec_split(spec_join(spec_encode_frame(f)))) == f,
{
    reveal_strlit("AccountCode");
    reveal_strlit("AccountType");
    reveal_strlit("CashBalance");
    reveal_strlit("EquityWithLoanValue");
    reveal_strlit("ExcessLiquidity");
    reveal_strlit("NetLiquidation");
    reveal_strlit("UnrealizedPnL");
    reveal_strlit("RealizedPnL");
    reveal_strlit("TotalCashBalance");
    lemma_account_keys_distinct();
    let enc = spec_encode_frame(f);
    lemma_enc_no_nul(f);
    lemma_split_join(enc);
    match f {
        FrameV::CashBalance(d) => {
            lemma_fmt_int_ok(6);
            lemma_dec_round_trip(d);
        },
        _ => {},
    }
}

proof fn lemma_rt_equity_with_loan(f: FrameV)
    requires
        f.wf(),
        f is EquityWithLoanValue,
    ensures
        spec_parse_frame(spec_split(spec_join(spec_encode_frame(f)))) == f,
{
    reveal_strlit("AccountCode");
    reveal_strlit("AccountType");
    reveal_strlit("CashBalance");
    reveal_strlit("EquityWithLoanValue");
    reveal_strlit("ExcessLiquidity");
    reveal_strlit("NetLiquidation");
    reveal_strlit("UnrealizedPnL");
    reveal_strlit("RealizedPnL");
    reveal_strlit("TotalCashBalance");
    lemma_account_keys_distinct();
    let enc = spec_encode_frame(f);
    lemma_enc_no_nul(f);
    lemma_split_join(enc);
    match f {
        FrameV::EquityWithLoanValue(d) => {
            lemma_fmt_int_ok(6);
            lemma_dec_round_trip(d);
        },
        _ => {},
    }
}

proof fn lemma_rt_excess_liquidity(f: FrameV)
    requires
        f.wf(),
        f is ExcessLiquidity,
    ensures
        spec_parse_frame(spec_split(spec_join(spec_encode_frame(f)))) == f,
{
    reveal_strlit("AccountCode");
    reveal_strlit("AccountType");
    reveal_strlit("CashBalance");
    reveal_strlit("EquityWithLoanValue");
    reveal_strlit("ExcessLiquidity");
    reveal_strlit("NetLiquidation");
    reveal_strlit("UnrealizedPnL");
    reveal_strlit("RealizedPnL");
    reveal_strlit("TotalCashBalance");
    lemma_account_keys_distinct();
    let enc = spec_encode_frame(f);
    lemma_enc_no_nul(f);
    lemma_split_join(enc);
    match f {
        FrameV::ExcessLiquidity(d) => {
            lemma_fmt_int_ok(6);
            lemma_dec_round_trip(d);
        },
        _ => {},
    }
}

proof fn lemma_rt_net_liquidation(f: FrameV)
    requires
        f.wf(),
        f is NetLiquidation,
    ensures
        spec_parse_frame(spec_split(spec_join(spec_encode_frame(f)))) == f,
{
    reveal_strlit("AccountCode");
    reveal_strlit("AccountType");
    reveal_strlit("CashBalance");
    reveal_strlit("EquityWithLoanValue");
    reveal_strlit("ExcessLiquidity");
    reveal_strlit("NetLiquidation");
    reveal_strlit("UnrealizedPnL");
    reveal_strlit("RealizedPnL");
    reveal_strlit("TotalCashBalance");
    lemma_account_keys_distinct();
    let enc = spec_encode_frame(f);
    lemma_enc_no_nul(f);
    lemma_split_join(enc);
    match f {
        FrameV::NetLiquidation(d) => {
            lemma_fmt_int_ok(6);
            lemma_dec_round_trip(d);
        },
        _ => {},
    }
}

proof fn lemma_rt_unrealized_pnl(f: FrameV)
    requires
        f.wf(),
        f is UnrealizedPnL,
    ensures
        spec_parse_frame(spec_split(spec_join(spec_encode_frame(f)))) == f,
{
    reveal_strlit("AccountCode");
    reveal_strlit("AccountType");
    reveal_strlit("CashBalance");
    reveal_strlit("EquityWithLoanValue");
    reveal_strlit("ExcessLiquidity");
    reveal_strlit("NetLiquidation");
    reveal_strlit("UnrealizedPnL");
    reveal_strlit("RealizedPnL");
    reveal_strlit("TotalCashBalance");
    lemma_account_keys_distinct();
    let enc = spec_encode_frame(f);
    lemma_enc_no_nul(f);
    lemma_split_join(enc);
    match f {
        FrameV::UnrealizedPnL(d) => {
            lemma_fmt_int_ok(6);
            lemma_dec_round_trip(d);
        },
        _ => {},
    }
}

proof fn lemma_rt_realized_pnl(f: FrameV)
    requires
        f.wf(),
        f is RealizedPnL,
    ensures
        spec_parse_frame(spec_split(spec_join(spec_encode_frame(f)))) == f,
{
    reveal_strlit("AccountCode");
    reveal_strlit("AccountType");
    reveal_strlit("CashBalance");
    reveal_strlit("EquityWithLoanValue");
    reveal_strlit("ExcessLiquidity");
    reveal_strlit("NetLiquidation");
    reveal_strlit("UnrealizedPnL");
    reveal_strlit("RealizedPnL");
    reveal_strlit("TotalCashBalance");
    lemma_account_keys_distinct();
    let enc = spec_encode_frame(f);
    lemma_enc_no_nul(f);
    lemma_split_join(enc);
    match f {
        FrameV::RealizedPnL(d) => {
            lemma_fmt_int_ok(6);
            lemma_dec_round_trip(d);
        },
        _ => {},
    }
}

proof fn lemma_rt_total_cash_balance(f: FrameV)
    requires
        f.wf(),
        f is TotalCashBalance,
    ensures
        spec_parse_frame(spec_split(spec_join(spec_encode_frame(f)))) == f,
{
    reveal_strlit("AccountCode");
    reveal_strlit("AccountType");
    reveal_strlit("CashBalance");
    reveal_strlit("EquityWithLoanValue");
    reveal_strlit("ExcessLiquidity");
    reveal_strlit("NetLiquidation");
    reveal_strlit("UnrealizedPnL");
    reveal_strlit("RealizedPnL");
    reveal_strlit("TotalCashBalance");
    lemma_account_keys_distinct();
    let enc = spec_encode_frame(f);
    lemma_enc_no_nul(f);
    lemma_split_join(enc);
    match f {
        FrameV::TotalCashBalance(d) => {
            lemma_fmt_int_ok(6);
            lemma_dec_round_trip(d);
        },
        _ => {},
    }
}

proof fn lemma_rt_portfolio_value(f: FrameV)
    requires
        f.wf(),
        f is PortfolioValue,
    ensures
        spec_parse_frame(spec_split(spec_join(spec_encode_frame(f)))) == f,
{
    reveal_strlit("AccountCode");
    reveal_strlit("AccountType");
    reveal_strlit("CashBalance");
    reveal_strlit("EquityWithLoanValue");
    reveal_strlit("ExcessLiquidity");
    reveal_strlit("NetLiquidation");
    reveal_strlit("UnrealizedPnL");
    reveal_strlit("RealizedPnL");
    reveal_strlit("TotalCashBalance");
    let enc = spec_encode_frame(f);
    lemma_enc_no_nul(f);
    lemma_split_join(enc);
    match f {
        FrameV::PortfolioValue(p) => {
            lemma_fmt_int_ok(7);
            lemma_dec_round_trip(p.position);
            lemma_dec_round_trip(p.market_price);
            lemma_dec_round_trip(p.market_value);
        },
        _ => {},
    }
}

proof fn lemma_rt_account_update_end(f: FrameV)
    requires
        f.wf(),
        f is AccountUpdateEnd,
    ensures
        spec_parse_frame(spec_split(spec_join(spec_encode_frame(f)))) == f,
{
    reveal_strlit("AccountCode");
    reveal_strlit("AccountType");
    reveal_strlit("CashBalance");
    reveal_strlit("EquityWithLoanValue");
    reveal_strlit("ExcessLiquidity");
    reveal_strlit("NetLiquidation");
    reveal_strlit("UnrealizedPnL");
    reveal_strlit("RealizedPnL");
    reveal_strlit("TotalCashBalance");
    let enc = spec_encode_frame(f);
    lemma_enc_no_nul(f);
    lemma_split_join(enc);
    match f {
        FrameV::AccountUpdateEnd(_s) => {
            lemma_fmt_int_ok(54);
        },
        _ => {},
    }
}

proof fn lemma_rt_current_time(f: FrameV)
    requires
        f.wf(),
        f is CurrentTime,
    ensures
        spec_parse_frame(spec_split(spec_join(spec_encode_frame(f)))) == f,
{
    reveal_strlit("AccountCode");
    reveal_strlit("AccountType");
    reveal_strlit("CashBalance");
    reveal_strlit("EquityWithLoanValue");
    reveal_strlit("ExcessLiquidity");
    reveal_strlit("NetLiquidation");
    reveal_strlit("UnrealizedPnL");
    reveal_strlit("RealizedPnL");
    reveal_strlit("TotalCashBalance");
    let enc = spec_encode_frame(f);
    lemma_enc_no_nul(f);
    lemma_split_join(enc);
    match f {
        FrameV::CurrentTime(t) => {
            lemma_fmt_int_ok(49);
            lemma_fmt_int_ok(t as int);
        },
        _ => {},
    }
}

proof fn lemma_rt_next_valid_order_id(f: FrameV)
    requires
        f.wf(),
        f is NextValidOrderID,
    ensures
        spec_parse_frame(spec_split(spec_join(spec_encode_frame(f)))) == f,
{
    reveal_strlit("AccountCode");
    reveal_strlit("AccountType");
    reveal_strlit("CashBalance");
    reveal_strlit("EquityWithLoanValue");
    reveal_strlit("ExcessLiquidity");
    reveal_strlit("NetLiquidation");
    reveal_strlit("UnrealizedPnL");
    reveal_strlit("RealizedPnL");
    reveal_strlit("TotalCashBalance");
    let enc = spec_encode_frame(f);
    lemma_enc_no_nul(f);
    lemma_split_join(enc);
    match f {
        FrameV::NextValidOrderID(id) => {
            lemma_fmt_int_ok(9);
            lemma_fmt_int_ok(id as int);
        },
        _ => {},
    }
}

proof fn lemma_rt_contract_details(f: FrameV)
    requires
        f.wf(),
        f is ContractDetailsData,
    ensures
        spec_parse_frame(spec_split(spec_join(spec_encode_frame(f)))) == f,
{
    reveal_strlit("AccountCode");
    reveal_strlit("AccountType");
    reveal_strlit("CashBalance");
    reveal_strlit("EquityWithLoanValue");
    reveal_strlit("ExcessLiquidity");
    reveal_strlit("NetLiquidation");
    reveal_strlit("UnrealizedPnL");
    reveal_strlit("RealizedPnL");
    reveal_strlit("TotalCashBalance");
    let enc = spec_encode_frame(f);
    lemma_enc_no_nul(f);
    lemma_split_join(enc);
    match f {
        FrameV::ContractDetailsData { req_id, .. } => {
            lemma_fmt_int_ok(10);
            lemma_fmt_int_ok(req_id as int);
        },
        _ => {},
    }
}

proof fn lemma_rt_contract_details_end(f: FrameV)
    requires
        f.wf(),
        f is ContractDetailsEnd,
    ensures
        spec_parse_frame(spec_split(spec_join(spec_encode_frame(f)))) == f,
{
    reveal_strlit("AccountCode");
    reveal_strlit("AccountType");
    reveal_strlit("CashBalance");
    reveal_strlit("EquityWithLoanValue");
    reveal_strlit("ExcessLiquidity");
    reveal_strlit("NetLiquidation");
    reveal_strlit("UnrealizedPnL");
    reveal_strlit("RealizedPnL");
    reveal_strlit("TotalCashBalance");
    let enc = spec_encode_frame(f);
    lemma_enc_no_nul(f);
    lemma_split_join(enc);
    match f {
        FrameV::ContractDetailsEnd { req_id } => {
            lemma_fmt_int_ok(52);
            lemma_fmt_int_ok(req_id as int);
        },
        _ => {},
    }
}

proof fn lemma_rt_open_order(f: FrameV)
    requires
        f.wf(),
        f is OpenOrder,
    ensures
        spec_parse_frame(spec_split(spec_join(spec_encode_frame(f)))) == f,
{
    reveal_strlit("AccountCode");
    reveal_strlit("AccountType");
    reveal_strlit("CashBalance");
    reveal_strlit("EquityWithLoanValue");
    reveal_strlit("ExcessLiquidity");
    reveal_strlit("NetLiquidation");
    reveal_strlit("UnrealizedPnL");
    reveal_strlit("RealizedPnL");
    reveal_strlit("TotalCashBalance");
    let enc = spec_encode_frame(f);
    lemma_enc_no_nul(f);
    lemma_split_join(enc);
    match f {
        FrameV::OpenOrder { order, state } => {
            lemma_fmt_int_ok(5);
            lemma_fmt_int_ok(order.order_id as int);
            lemma_dec_round_trip(order.quantity);
            lemma_opt_dec_round_trip(order.limit_price);
            lemma_opt_dec_round_trip(state.commission);
        },
        _ => {},
    }
}

proof fn lemma_rt_order_status(f: FrameV)
    requires
        f.wf(),
        f is OrderStatus,
    ensures
        spec_parse_frame(spec_split(spec_join(spec_encode_frame(f)))) == f,
{
    reveal_strlit("AccountCode");
    reveal_strlit("AccountType");
    reveal_strlit("CashBalance");
    reveal_strlit("EquityWithLoanValue");
    reveal_strlit("ExcessLiquidity");
    reveal_strlit("NetLiquidation");
    reveal_strlit("UnrealizedPnL");
    reveal_strlit("RealizedPnL");
    reveal_strlit("TotalCashBalance");
    let enc = spec_encode_frame(f);
    lemma_enc_no_nul(f);
    lemma_split_join(enc);
    match f {
        FrameV::OrderStatus(o) => {
            lemma_fmt_int_ok(3);
            lemma_fmt_int_ok(o.order_id as int);
            lemma_dec_round_trip(o.filled);
            lemma_dec_round_trip(o.remaining);
            lemma_dec_round_trip(o.avg_fill_price);
        },
        _ => {},
    }
}

proof fn lemma_rt_execution(f: FrameV)
    requires
        f.wf(),
        f is Execution,
    ensures
        spec_parse_frame(spec_split(spec_join(spec_encode_frame(f)))) == f,
{
    reveal_strlit("AccountCode");
    reveal_strlit("AccountType");
    reveal_strlit("CashBalance");
    reveal_strlit("EquityWithLoanValue");
    reveal_strlit("ExcessLiquidity");
    reveal_strlit("NetLiquidation");
    reveal_strlit("UnrealizedPnL");
    reveal_strlit("RealizedPnL");
    reveal_strlit("TotalCashBalance");
    let enc = spec_encode_frame(f);
    lemma_enc_no_nul(f);
    lemma_split_join(enc);
    match f {
        FrameV::Execution(e) => {
            lemma_fmt_int_ok(11);
            lemma_fmt_int_ok(e.order_id as int);
            lemma_dec_round_trip(e.shares);
            lemma_dec_round_trip(e.price);
        },
        _ => {},
    }
}

proof fn lemma_rt_commission_report(f: FrameV)
    requires
        f.wf(),
        f is CommissionReport,
    ensures
        spec_parse_frame(spec_split(spec_join(spec_encode_frame(f)))) == f,
{
    reveal_strlit("AccountCode");
    reveal_strlit("AccountType");
    reveal_strlit("CashBalance");
    reveal_strlit("EquityWithLoanValue");
    reveal_strlit("ExcessLiquidity");
    reveal_strlit("NetLiquidation");
    reveal_strlit("UnrealizedPnL");
    reveal_strlit("RealizedPnL");
    reveal_strlit("TotalCashBalance");
    let enc = spec_encode_frame(f);
    lemma_enc_no_nul(f);
    lemma_split_join(enc);
    match f {
        FrameV::CommissionReport(c) => {
            lemma_fmt_int_ok(59);
            lemma_dec_round_trip(c.commission);
        },
        _ => {},
    }
}

proof fn lemma_rt_price_tick(f: FrameV)
    requires
        f.wf(),
        f is PriceTick,
    ensures
        spec_parse_frame(spec_split(spec_join(spec_encode_frame(f)))) == f,
{
    reveal_strlit("AccountCode");
    reveal_strlit("AccountType");
    reveal_strlit("CashBalance");
    reveal_strlit("EquityWithLoanValue");
    reveal_strlit("ExcessLiquidity");
    reveal_strlit("NetLiquidation");
    reveal_strlit("UnrealizedPnL");
    reveal_strlit("RealizedPnL");
    reveal_strlit("TotalCashBalance");
    let enc = spec_encode_frame(f);
    lemma_enc_no_nul(f);
    lemma_split_join(enc);
    match f {
        FrameV::PriceTick { req_id, kind, price, size } => {
            lemma_fmt_int_ok(1);
            lemma_fmt_int_ok(req_id as int);
            lemma_fmt_int_ok(kind as int);
            lemma_dec_round_trip(price);
            lemma_dec_round_trip(size);
        },
        _ => {},
    }
}

proof fn lemma_rt_size_tick(f: FrameV)
    requires
        f.wf(),
        f is SizeTick,
    ensures
        spec_parse_frame(spec_split(spec_join(spec_encode_frame(f)))) == f,
{
    reveal_strlit("AccountCode");
    reveal_strlit("AccountType");
    reveal_strlit("CashBalance");
    reveal_strlit("EquityWithLoanValue");
    reveal_strlit("ExcessLiquidity");
    reveal_strlit("NetLiquidation");
    reveal_strlit("UnrealizedPnL");
    reveal_strlit("RealizedPnL");
    reveal_strlit("TotalCashBalance");
    let enc = spec_encode_frame(f);
    lemma_enc_no_nul(f);
    lemma_split_join(enc);
    match f {
        FrameV::SizeTick { req_id, kind, size } => {
            lemma_fmt_int_ok(2);
            lemma_fmt_int_ok(req_id as int);
            lemma_fmt_int_ok(kind as int);
            lemma_dec_round_trip(size);
        },
        _ => {},
    }
}

proof fn lemma_rt_generic_tick(f: FrameV)
    requires
        f.wf(),
        f is GenericTick,
    ensures
        spec_parse_frame(spec_split(spec_join(spec_encode_frame(f)))) == f,
{
    reveal_strlit("AccountCode");
    reveal_strlit("AccountType");
    reveal_strlit("CashBalance");
    reveal_strlit("EquityWithLoanValue");
    reveal_strlit("ExcessLiquidity");
    reveal_strlit("NetLiquidation");
    reveal_strlit("UnrealizedPnL");
    reveal_strlit("RealizedPnL");
    reveal_strlit("TotalCashBalance");
    let enc = spec_encode_frame(f);
    lemma_enc_no_nul(f);
    lemma_split_join(enc);
    match f {
        FrameV::GenericTick { req_id, kind, value } => {
            lemma_fmt_int_ok(45);
            lemma_fmt_int_ok(req_id as int);
            lemma_fmt_int_ok(kind as int);
            lemma_dec_round_trip(value);
        },
        _ => {},
    }
}

proof fn lemma_rt_bars(f: FrameV)
    requires
        f.wf(),
        f is Bars,
    ensures
        spec_parse_frame(spec_split(spec_join(spec_encode_frame(f)))) == f,
{
    reveal_strlit("AccountCode");
    reveal_strlit("AccountType");
    reveal_strlit("CashBalance");
    reveal_strlit("EquityWithLoanValue");
    reveal_strlit("ExcessLiquidity");
    reveal_strlit("NetLiquidation");
    reveal_strlit("UnrealizedPnL");
    reveal_strlit("RealizedPnL");
    reveal_strlit("TotalCashBalance");
    let enc = spec_encode_frame(f);
    lemma_enc_no_nul(f);
    lemma_split_join(enc);
    match f {
        FrameV::Bars { req_id, series } => {
            lemma_fmt_int_ok(17);
            lemma_fmt_int_ok(req_id as int);
            lemma_fmt_int_ok(series.len() as int);
            lemma_enc_bars_len(series);
            let head = seq![si(17), si(req_id as int), si(series.len() as int)];
            assert(enc =~= head + spec_enc_bars(series));
            assert forall|i: int| 0 <= i < 6 * series.len() implies enc[3 + i] == #[trigger] spec_enc_bars(series)[i] by {}
            lemma_parse_enc_bars(enc, 3, series);
        },
        _ => {},
    }
}

/// Encode a frame into its fields.
#[verifier::rlimit(100)]
pub fn encode_fields(f: &Frame) -> (r: Vec<String>)
    requires
        f@.wf(),
    ensures
        r.deep_view() == spec_encode_frame(f@),
{
    let mut v: Vec<String> = Vec::new();
    match f {
        Frame::AccountCode(s) => {
            v.push(fmt_i64(6));
            v.push("AccountCode".to_owned());
            v.push(s.clone());
        },
        Frame::AccountType(s) => {
            v.push(fmt_i64(6));
            v.push("AccountType".to_owned());
            v.push(s.clone());
        },
        Frame::AccountUpdateTime(s) => {
            v.push(fmt_i64(8));
            v.push(s.clone());
        },
        Frame::CashBalance(d) => {
            v.push(fmt_i64(6));
            v.push("CashBalance".to_owned());
            v.push(fmt_dec(d));
        },
        Frame::EquityWithLoanValue(d) => {
            v.push(fmt_i64(6));
            v.push("EquityWithLoanValue".to_owned());
            v.push(fmt_dec(d));
        },
        Frame::ExcessLiquidity(d) => {
            v.push(fmt_i64(6));
            v.push("ExcessLiquidity".to_owned());
            v.push(fmt_dec(d));
        },
        Frame::NetLiquidation(d) => {
            v.push(fmt_i64(6));
            v.push("NetLiquidation".to_owned());
            v.push(fmt_dec(d));
        },
        Frame::UnrealizedPnL(d) => {
            v.push(fmt_i64(6));
            v.push("UnrealizedPnL".to_owned());
            v.push(fmt_dec(d));
        },
        Frame::RealizedPnL(d) => {
            v.push(fmt_i64(6));
            v.push("RealizedPnL".to_owned());
            v.push(fmt_dec(d));
        },
        Frame::TotalCashBalance(d) => {
            v.push(fmt_i64(6));
            v.push("TotalCashBalance".to_owned());
            v.push(fmt_dec(d));
        },
        Frame::PortfolioValue(p) => {
            v.push(fmt_i64(7));
            v.push(p.contract.symbol.clone());
            v.push(p.contract.sec_type.clone());
            v.push(p.contract.exchange.clone());
            v.push(p.contract.currency.clone());
            v.push(fmt_dec(&p.position));
            v.push(fmt_dec(&p.market_price));
            v.push(fmt_dec(&p.market_value));
        },
        Frame::AccountUpdateEnd(s) => {
            v.push(fmt_i64(54));
            v.push(s.clone());
        },
        Frame::CurrentTime(t) => {
            v.push(fmt_i64(49));
            v.push(fmt_i64(*t));
        },
        Frame::NextValidOrderID(id) => {
            v.push(fmt_i64(9));
            v.push(fmt_i32(*id));
        },
        Frame::ContractDetailsData { req_id, details } => {
            v.push(fmt_i64(10));
            v.push(fmt_i32(*req_id));
            v.push(details.contract.symbol.clone());
            v.push(details.contract.sec_type.clone());
            v.push(details.contract.exchange.clone());
            v.push(details.contract.currency.clone());
            v.push(details.long_name.clone());
        },
        Frame::ContractDetailsEnd { req_id } => {
            v.push(fmt_i64(52));
            v.push(fmt_i32(*req_id));
        },
        Frame::OpenOrder { order, state } => {
            v.push(fmt_i64(5));
            v.push(fmt_i32(order.order_id));
            v.push(order.action.clone());
            v.push(fmt_dec(&order.quantity));
            v.push(order.order_type.clone());
            v.push(fmt_opt_dec(&order.limit_price));
            v.push(state.status.clone());
            v.push(fmt_opt_dec(&state.commission));
        },
        Frame::OrderStatus(o) => {
            v.push(fmt_i64(3));
            v.push(fmt_i32(o.order_id));
            v.push(o.status.clone());
            v.push(fmt_dec(&o.filled));
            v.push(fmt_dec(&o.remaining));
            v.push(fmt_dec(&o.avg_fill_price));
        },
        Frame::Execution(e) => {
            v.push(fmt_i64(11));
            v.push(fmt_i32(e.order_id));
            v.push(e.exec_id.clone());
            v.push(fmt_dec(&e.shares));
            v.push(fmt_dec(&e.price));
        },
        Frame::CommissionReport(c) => {
            v.push(fmt_i64(59));
            v.push(c.exec_id.clone());
            v.push(fmt_dec(&c.commission));
        },
        Frame::PriceTick { req_id, kind, price, size } => {
            v.push(fmt_i64(1));
            v.push(fmt_i32(*req_id));
            v.push(fmt_i64(*kind));
            v.push(fmt_dec(price));
            v.push(fmt_dec(size));
        },
        Frame::SizeTick { req_id, kind, size } => {
            v.push(fmt_i64(2));
            v.push(fmt_i32(*req_id));
            v.push(fmt_i64(*kind));
            v.push(fmt_dec(size));
        },
        Frame::GenericTick { req_id, kind, value } => {
            v.push(fmt_i64(45));
            v.push(fmt_i32(*req_id));
            v.push(fmt_i64(*kind));
            v.push(fmt_dec(value));
        },
        Frame::Bars { req_id, series } => {
            v.push(fmt_i64(17));
            v.push(fmt_i32(*req_id));
            v.push(fmt_u64(series.bars.len() as u64));
            proof {
                assert(spec_fmt_nat(series.bars.len() as nat) == si(series@.len() as int));
                assert(v.deep_view() =~= seq![
                    si(17),
                    si(*req_id as int),
                    si(series@.len() as int),
                ]);
            }
            let ghost head = v.deep_view();
            let mut i: usize = 0;
            while i < series.bars.len()
                invariant
                    i <= series.bars.len(),
                    forall|k: int| 0 <= k < series@.len() ==> (#[trigger] series@[k]).wf(),
                    v.deep_view() =~= head + spec_enc_bars(series@.subrange(0, i as int)),
                decreases series.bars.len() - i,
            {
                let b = series.bars[i];
                proof {
                    assert(series@[i as int].wf());
                }
                let ghost before = v.deep_view();
                v.push(fmt_ts(&b.t));
                v.push(fmt_dec(&b.open));
                v.push(fmt_dec(&b.high));
                v.push(fmt_dec(&b.low));
                v.push(fmt_dec(&b.close));
                v.push(fmt_dec(&b.volume));
                proof {
                    assert(v.deep_view() =~= before + spec_enc_bar(series@[i as int]));
                    lemma_enc_bars_push(series@.subrange(0, i as int), series@[i as int]);
                    assert(series@.subrange(0, i as int).push(series@[i as int]) =~= series@
                        .subrange(0, i + 1));
                }
                i = i + 1;
            }
            proof {
                assert(series@.subrange(0, series@.len() as int) =~= series@);
                assert(v.deep_view() =~= spec_encode_frame(f@));
            }
        },
        Frame::Error { req_id, code, message } => {
            v.push(fmt_i64(4));
            v.push(fmt_i32(*req_id));
            v.push(fmt_i32(*code));
            v.push(message.clone());
        },
        Frame::Other => {
            v.push(fmt_i64(-1));
        },
    }
    proof {
        assert(v.deep_view() =~= spec_encode_frame(f@));
    }
    v
}

/// Encode a frame into one payload.
pub fn encode_frame(f: &Frame) -> (r: String)
    requires
        f@.wf(),
    ensures
        r@ == spec_join(spec_encode_frame(f@)),
{
    let fields = encode_fields(f);
    join_fields(&fields)
}

} // verus!
