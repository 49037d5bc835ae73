//! The executable frame codec: parsing a payload into a `Frame` and
//! encoding a `Frame` back into a payload, each proved against the spec
//! functions of `frame`, together with the round-trip law.

use vstd::prelude::*;
use crate::dec::{parse_dec, Dec};
use crate::frame::{
    spec_enc_bar, spec_enc_bars, spec_encode_frame, spec_parse_bars, spec_parse_frame,
    spec_parse_opt_dec, sod, Frame, FrameV,
};
use crate::tstamp::parse_ts;
use crate::types::{
    Bar, BarSeries, CommissionReport, Contract, ContractDetails, Execution, Order, OrderState,
    OrderStatusData, Position,
};
use crate::wire::{first_nul, no_nul, spec_split, split_fields, parse_i32, parse_i64};

verus! {

/// Where the first delimiter sits, nothing before it is a delimiter.
proof fn lemma_first_nul_char(s: Seq<char>)
    ensures
        first_nul(s) >= 0 ==> 0 <= first_nul(s) < s.len() && forall|j: int|
            0 <= j < first_nul(s) ==> s[j] != '\0',
        first_nul(s) < 0 ==> no_nul(s),
    decreases s.len(),
{
    if s.len() > 0 && s[0] != '\0' {
        lemma_first_nul_char(s.skip(1));
        assert(forall|j: int| 0 <= j < s.len() - 1 ==> s.skip(1)[j] == s[j + 1]);
        let r = first_nul(s.skip(1));
        if r >= 0 {
            assert(first_nul(s) == r + 1);
            assert forall|j: int| 0 <= j < first_nul(s) implies s[j] != '\0' by {
                if j > 0 {
                    assert(s.skip(1)[j - 1] != '\0');
                }
            }
        } else {
            assert forall|j: int| 0 <= j < s.len() implies s[j] != '\0' by {
                if j > 0 {
                    assert(s.skip(1)[j - 1] != '\0');
                }
            }
        }
    }
}

/// Every piece of a split payload is delimiter-free.
pub proof fn lemma_split_no_nul(s: Seq<char>)
    ensures
        forall|i: int| 0 <= i < spec_split(s).len() ==> no_nul(#[trigger] spec_split(s)[i]),
    decreases s.len(),
{
    if s.len() > 0 {
        lemma_first_nul_char(s);
        let i = first_nul(s);
        if i < 0 || i >= s.len() {
            assert(no_nul(s));
            assert(spec_split(s) =~= seq![s]);
        } else {
            lemma_split_no_nul(s.subrange(i + 1, s.len() as int));
            assert(no_nul(s.subrange(0, i)));
            let rest = spec_split(s.subrange(i + 1, s.len() as int));
            assert(spec_split(s) =~= seq![s.subrange(0, i)] + rest);
            assert forall|j: int| 0 <= j < spec_split(s).len() implies no_nul(
                #[trigger] spec_split(s)[j],
            ) by {
                if j > 0 {
                    assert(spec_split(s)[j] == rest[j - 1]);
                    assert(no_nul(rest[j - 1]));
                }
            }
        }
    }
}

/// Compare a parsed field against a protocol keyword.
fn str_is(a: &String, lit: &str) -> (r: bool)
    ensures
        r == (a@ == lit@),
{
    let l: String = lit.to_owned();
    String::eq(a, &l)
}

/// Parse an optional decimal field: the empty field means absent.
pub fn parse_opt_dec(s: &str) -> (r: Option<Option<Dec>>)
    ensures
        r == spec_parse_opt_dec(s@),
        match r {
            Some(Some(d)) => d.wf(),
            _ => true,
        },
{
    if s.unicode_len() == 0 {
        Some(None)
    } else {
        match parse_dec(s) {
            Some(d) => Some(Some(d)),
            None => None,
        }
    }
}

/// Parse a run of `n` bar records beginning at `start`.
fn parse_bars_rec(fields: &Vec<String>, start: usize, n: u32) -> (r: Option<Vec<Bar>>)
    ensures
        ({
            let sp = spec_parse_bars(fields.deep_view(), start as int, n as nat);
            match r {
                Some(v) => sp == Some(v@) && v@.len() == n && forall|i: int| 0 <= i < v@.len()
                    ==> (#[trigger] v@[i]).wf(),
                None => sp is None,
            }
        }),
    decreases n,
{
    if n == 0 {
        let v: Vec<Bar> = Vec::new();
        proof {
            assert(v@ =~= Seq::<Bar>::empty());
        }
        return Some(v);
    }
    if !(fields.len() >= 6 && start <= fields.len() - 6) {
        return None;
    }
    let t = match parse_ts(fields[start].as_str()) {
        Some(x) => x,
        None => {
            return None;
        },
    };
    let o = match parse_dec(fields[start + 1].as_str()) {
        Some(x) => x,
        None => {
            return None;
        },
    };
    let h = match parse_dec(fields[start + 2].as_str()) {
        Some(x) => x,
        None => {
            return None;
        },
    };
    let l = match parse_dec(fields[start + 3].as_str()) {
        Some(x) => x,
        None => {
            return None;
        },
    };
    let c = match parse_dec(fields[start + 4].as_str()) {
        Some(x) => x,
        None => {
            return None;
        },
    };
    let v = match parse_dec(fields[start + 5].as_str()) {
        Some(x) => x,
        None => {
            return None;
        },
    };
    let bar = Bar { t, open: o, high: h, low: l, close: c, volume: v };
    match parse_bars_rec(fields, start + 6, n - 1) {
        Some(mut rest) => {
            rest.insert(0, bar);
            proof {
                assert(rest@ =~= seq![bar] + rest@.skip(1));
            }
            Some(rest)
        },
        None => None,
    }
}

/// Parse one payload into a frame. Malformed or unknown input parses as
/// `Frame::Other`; nothing is fatal.
pub fn parse_frame(payload: &str) -> (r: Frame)
    ensures
        r@ == spec_parse_frame(spec_split(payload@)),
        r@.wf(),
{
    let fields = split_fields(payload);
    proof {
        lemma_split_no_nul(payload@);
    }
    parse_fields(&fields)
}

/// Parse a frame from its already-split fields.
#[verifier::rlimit(100)]
pub fn parse_fields(fields: &Vec<String>) -> (r: Frame)
    requires
        forall|i: int| 0 <= i < fields.deep_view().len() ==> no_nul(
            #[trigger] fields.deep_view()[i],
        ),
    ensures
        r@ == spec_parse_frame(fields.deep_view()),
        r@.wf(),
{
    if fields.len() < 1 {
        return Frame::Other;
    }
    let k = match parse_i64(fields[0].as_str()) {
        Some(k) => k,
        None => {
            return Frame::Other;
        },
    };
    if k == 1 {
        if fields.len() >= 5 {
            let req_id = parse_i32(fields[1].as_str());
            let kind = parse_i64(fields[2].as_str());
            let price = parse_dec(fields[3].as_str());
            let size = parse_dec(fields[4].as_str());
            if req_id.is_some() && kind.is_some() && price.is_some() && size.is_some() {
                return Frame::PriceTick {
                    req_id: req_id.unwrap(),
                    kind: kind.unwrap(),
                    price: price.unwrap(),
                    size: size.unwrap(),
                };
            }
        }
        Frame::Other
    } else if k == 2 {
        if fields.len() >= 4 {
            let req_id = parse_i32(fields[1].as_str());
            let kind = parse_i64(fields[2].as_str());
            let size = parse_dec(fields[3].as_str());
            if req_id.is_some() && kind.is_some() && size.is_some() {
                return Frame::SizeTick {
                    req_id: req_id.unwrap(),
                    kind: kind.unwrap(),
                    size: size.unwrap(),
                };
            }
        }
        Frame::Other
    } else if k == 3 {
        if fields.len() >= 6 {
            let order_id = parse_i32(fields[1].as_str());
            let filled = parse_dec(fields[3].as_str());
            let remaining = parse_dec(fields[4].as_str());
            let avg = parse_dec(fields[5].as_str());
            if order_id.is_some() && filled.is_some() && remaining.is_some() && avg.is_some() {
                return Frame::OrderStatus(
                    OrderStatusData {
                        order_id: order_id.unwrap(),
                        status: fields[2].clone(),
                        filled: filled.unwrap(),
                        remaining: remaining.unwrap(),
                        avg_fill_price: avg.unwrap(),
                    },
                );
            }
        }
        Frame::Other
    } else if k == 4 {
        if fields.len() >= 4 {
            let req_id = parse_i32(fields[1].as_str());
            let code = parse_i32(fields[2].as_str());
            if req_id.is_some() && code.is_some() {
                return Frame::Error {
                    req_id: req_id.unwrap(),
                    code: code.unwrap(),
                    message: fields[3].clone(),
                };
            }
        }
        Frame::Other
    } else if k == 5 {
        if fields.len() >= 8 {
            let order_id = parse_i32(fields[1].as_str());
            let quantity = parse_dec(fields[3].as_str());
            let limit = parse_opt_dec(fields[5].as_str());
            let commission = parse_opt_dec(fields[7].as_str());
            if order_id.is_some() && quantity.is_some() && limit.is_some()
                && commission.is_some() {
                return Frame::OpenOrder {
                    order: Order {
                        order_id: order_id.unwrap(),
                        action: fields[2].clone(),
                        quantity: quantity.unwrap(),
                        order_type: fields[4].clone(),
                        limit_price: limit.unwrap(),
                    },
                    state: OrderState {
                        status: fields[6].clone(),
                        commission: commission.unwrap(),
                    },
                };
            }
        }
        Frame::Other
    } else if k == 6 {
        if fields.len() >= 3 {
            if str_is(&fields[1], "AccountCode") {
                return Frame::AccountCode(fields[2].clone());
            }
            if str_is(&fields[1], "AccountType") {
                return Frame::AccountType(fields[2].clone());
            }
            if str_is(&fields[1], "CashBalance") {
                return match parse_dec(fields[2].as_str()) {
                    Some(d) => Frame::CashBalance(d),
                    None => Frame::Other,
                };
            }
            if str_is(&fields[1], "EquityWithLoanValue") {
                return match parse_dec(fields[2].as_str()) {
                    Some(d) => Frame::EquityWithLoanValue(d),
                    None => Frame::Other,
                };
            }
            if str_is(&fields[1], "ExcessLiquidity") {
                return match parse_dec(fields[2].as_str()) {
                    Some(d) => Frame::ExcessLiquidity(d),
                    None => Frame::Other,
                };
            }
            if str_is(&fields[1], "NetLiquidation") {
                return match parse_dec(fields[2].as_str()) {
                    Some(d) => Frame::NetLiquidation(d),
                    None => Frame::Other,
                };
            }
            if str_is(&fields[1], "UnrealizedPnL") {
                return match parse_dec(fields[2].as_str()) {
                    Some(d) => Frame::UnrealizedPnL(d),
                    None => Frame::Other,
                };
            }
            if str_is(&fields[1], "RealizedPnL") {
                return match parse_dec(fields[2].as_str()) {
                    Some(d) => Frame::RealizedPnL(d),
                    None => Frame::Other,
                };
            }
            if str_is(&fields[1], "TotalCashBalance") {
                return match parse_dec(fields[2].as_str()) {
                    Some(d) => Frame::TotalCashBalance(d),
                    None => Frame::Other,
                };
            }
        }
        Frame::Other
    } else if k == 7 {
        if fields.len() >= 8 {
            let position = parse_dec(fields[5].as_str());
            let market_price = parse_dec(fields[6].as_str());
            let market_value = parse_dec(fields[7].as_str());
            if position.is_some() && market_price.is_some() && market_value.is_some() {
                return Frame::PortfolioValue(
                    Position {
                        contract: Contract {
                            symbol: fields[1].clone(),
                            sec_type: fields[2].clone(),
                            exchange: fields[3].clone(),
                            currency: fields[4].clone(),
                        },
                        position: position.unwrap(),
                        market_price: market_price.unwrap(),
                        market_value: market_value.unwrap(),
                    },
                );
            }
        }
        Frame::Other
    } else if k == 8 {
        if fields.len() >= 2 {
            return Frame::AccountUpdateTime(fields[1].clone());
        }
        Frame::Other
    } else if k == 9 {
        if fields.len() >= 2 {
            if let Some(id) = parse_i32(fields[1].as_str()) {
                return Frame::NextValidOrderID(id);
            }
        }
        Frame::Other
    } else if k == 10 {
        if fields.len() >= 7 {
            if let Some(req_id) = parse_i32(fields[1].as_str()) {
                return Frame::ContractDetailsData {
                    req_id,
                    details: ContractDetails {
                        contract: Contract {
                            symbol: fields[2].clone(),
                            sec_type: fields[3].clone(),
                            exchange: fields[4].clone(),
                            currency: fields[5].clone(),
                        },
                        long_name: fields[6].clone(),
                    },
                };
            }
        }
        Frame::Other
    } else if k == 11 {
        if fields.len() >= 5 {
            let order_id = parse_i32(fields[1].as_str());
            let shares = parse_dec(fields[3].as_str());
            let price = parse_dec(fields[4].as_str());
            if order_id.is_some() && shares.is_some() && price.is_some() {
                return Frame::Execution(
                    Execution {
                        order_id: order_id.unwrap(),
                        exec_id: fields[2].clone(),
                        shares: shares.unwrap(),
                        price: price.unwrap(),
                    },
                );
            }
        }
        Frame::Other
    } else if k == 17 {
        if fields.len() >= 3 {
            let req_id = parse_i32(fields[1].as_str());
            let count = parse_i64(fields[2].as_str());
            if req_id.is_some() && count.is_some() {
                let n = count.unwrap();
                if n >= 0 && n <= 0x7fffffff {
                    if let Some(bars) = parse_bars_rec(fields, 3, n as u32) {
                        return Frame::Bars {
                            req_id: req_id.unwrap(),
                            series: BarSeries { bars },
                        };
                    }
                    return Frame::Other;
                }
            }
        }
        Frame::Other
    } else if k == 45 {
        if fields.len() >= 4 {
            let req_id = parse_i32(fields[1].as_str());
            let kind = parse_i64(fields[2].as_str());
            let value = parse_dec(fields[3].as_str());
            if req_id.is_some() && kind.is_some() && value.is_some() {
                return Frame::GenericTick {
                    req_id: req_id.unwrap(),
                    kind: kind.unwrap(),
                    value: value.unwrap(),
                };
            }
        }
        Frame::Other
    } else if k == 49 {
        if fields.len() >= 2 {
            if let Some(t) = parse_i64(fields[1].as_str()) {
                return Frame::CurrentTime(t);
            }
        }
        Frame::Other
    } else if k == 52 {
        if fields.len() >= 2 {
            if let Some(req_id) = parse_i32(fields[1].as_str()) {
                return Frame::ContractDetailsEnd { req_id };
            }
        }
        Frame::Other
    } else if k == 54 {
        if fields.len() >= 2 {
            return Frame::AccountUpdateEnd(fields[1].clone());
        }
        Frame::Other
    } else if k == 59 {
        if fields.len() >= 3 {
            if let Some(commission) = parse_dec(fields[2].as_str()) {
                return Frame::CommissionReport(
                    CommissionReport { exec_id: fields[1].clone(), commission },
                );
            }
        }
        Frame::Other
    } else {
        Frame::Other
    }
}

} // verus!
