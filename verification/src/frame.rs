//! The inbound frame family and its codec. A payload is a sequence of
//! fields whose first field is the message-kind integer; the parser turns it
//! into a tagged `Frame`, converting every textual field to a typed value.
//! Encoding a frame and parsing the text is proved to give the frame back
//! for every supported kind.

use vstd::prelude::*;
use crate::dec::{spec_fmt_dec, spec_parse_dec, Dec};
use crate::tstamp::{spec_fmt_ts, spec_parse_ts, TimeStamp};
use crate::types::{
    Bar, BarSeries, CommissionReport, CommissionReportV, Contract, ContractDetails,
    ContractDetailsV, ContractV, Execution, ExecutionV, Order, OrderState, OrderStateV,
    OrderStatusData, OrderStatusDataV, OrderV, Position, PositionV,
};
use crate::wire::{
    field, no_nul, spec_join, spec_parse_i32, spec_parse_i64, spec_split, split_fields,
};
use crate::numfmt::{is_digits, is_int_str, spec_fmt_int};

verus! {

/// One parsed inbound message.
pub enum Frame {
    AccountCode(String),
    AccountType(String),
    AccountUpdateTime(String),
    CashBalance(Dec),
    EquityWithLoanValue(Dec),
    ExcessLiquidity(Dec),
    NetLiquidation(Dec),
    UnrealizedPnL(Dec),
    RealizedPnL(Dec),
    TotalCashBalance(Dec),
    PortfolioValue(Position),
    AccountUpdateEnd(String),
    CurrentTime(i64),
    NextValidOrderID(i32),
    ContractDetailsData { req_id: i32, details: ContractDetails },
    ContractDetailsEnd { req_id: i32 },
    OpenOrder { order: Order, state: OrderState },
    OrderStatus(OrderStatusData),
    Execution(Execution),
    CommissionReport(CommissionReport),
    PriceTick { req_id: i32, kind: i64, price: Dec, size: Dec },
    SizeTick { req_id: i32, kind: i64, size: Dec },
    GenericTick { req_id: i32, kind: i64, value: Dec },
    Bars { req_id: i32, series: BarSeries },
    Error { req_id: i32, code: i32, message: String },
    Other,
}

/// The spec-level mirror of `Frame`, over sequences.
pub enum FrameV {
    AccountCode(Seq<char>),
    AccountType(Seq<char>),
    AccountUpdateTime(Seq<char>),
    CashBalance(Dec),
    EquityWithLoanValue(Dec),
    ExcessLiquidity(Dec),
    NetLiquidation(Dec),
    UnrealizedPnL(Dec),
    RealizedPnL(Dec),
    TotalCashBalance(Dec),
    PortfolioValue(PositionV),
    AccountUpdateEnd(Seq<char>),
    CurrentTime(i64),
    NextValidOrderID(i32),
    ContractDetailsData { req_id: i32, details: ContractDetailsV },
    ContractDetailsEnd { req_id: i32 },
    OpenOrder { order: OrderV, state: OrderStateV },
    OrderStatus(OrderStatusDataV),
    Execution(ExecutionV),
    CommissionReport(CommissionReportV),
    PriceTick { req_id: i32, kind: i64, price: Dec, size: Dec },
    SizeTick { req_id: i32, kind: i64, size: Dec },
    GenericTick { req_id: i32, kind: i64, value: Dec },
    Bars { req_id: i32, series: Seq<Bar> },
    Error { req_id: i32, code: i32, message: Seq<char> },
    Other,
}

impl View for Frame {
    type V = FrameV;

    open spec fn view(&self) -> FrameV {
        match self {
            Frame::AccountCode(s) => FrameV::AccountCode(s@),
            Frame::AccountType(s) => FrameV::AccountType(s@),
            Frame::AccountUpdateTime(s) => FrameV::AccountUpdateTime(s@),
            Frame::CashBalance(d) => FrameV::CashBalance(*d),
            Frame::EquityWithLoanValue(d) => FrameV::EquityWithLoanValue(*d),
            Frame::ExcessLiquidity(d) => FrameV::ExcessLiquidity(*d),
            Frame::NetLiquidation(d) => FrameV::NetLiquidation(*d),
            Frame::UnrealizedPnL(d) => FrameV::UnrealizedPnL(*d),
            Frame::RealizedPnL(d) => FrameV::RealizedPnL(*d),
            Frame::TotalCashBalance(d) => FrameV::TotalCashBalance(*d),
            Frame::PortfolioValue(p) => FrameV::PortfolioValue(p@),
            Frame::AccountUpdateEnd(s) => FrameV::AccountUpdateEnd(s@),
            Frame::CurrentTime(t) => FrameV::CurrentTime(*t),
            Frame::NextValidOrderID(id) => FrameV::NextValidOrderID(*id),
            Frame::ContractDetailsData { req_id, details } => FrameV::ContractDetailsData {
                req_id: *req_id,
                details: details@,
            },
            Frame::ContractDetailsEnd { req_id } => FrameV::ContractDetailsEnd { req_id: *req_id },
            Frame::OpenOrder { order, state } => FrameV::OpenOrder {
                order: order@,
                state: state@,
            },
            Frame::OrderStatus(o) => FrameV::OrderStatus(o@),
            Frame::Execution(e) => FrameV::Execution(e@),
            Frame::CommissionReport(c) => FrameV::CommissionReport(c@),
            Frame::PriceTick { req_id, kind, price, size } => FrameV::PriceTick {
                req_id: *req_id,
                kind: *kind,
                price: *price,
                size: *size,
            },
            Frame::SizeTick { req_id, kind, size } => FrameV::SizeTick {
                req_id: *req_id,
                kind: *kind,
                size: *size,
            },
            Frame::GenericTick { req_id, kind, value } => FrameV::GenericTick {
                req_id: *req_id,
                kind: *kind,
                value: *value,
            },
            Frame::Bars { req_id, series } => FrameV::Bars { req_id: *req_id, series: series@ },
            Frame::Error { req_id, code, message } => FrameV::Error {
                req_id: *req_id,
                code: *code,
                message: message@,
            },
            Frame::Other => FrameV::Other,
        }
    }
}

impl FrameV {
    /// Well-formed frame contents: text fields free of the delimiter,
    /// decimals and timestamps in range.
    pub open spec fn wf(self) -> bool {
        match self {
            FrameV::AccountCode(s) => no_nul(s),
            FrameV::AccountType(s) => no_nul(s),
            FrameV::AccountUpdateTime(s) => no_nul(s),
            FrameV::CashBalance(d) => d.wf(),
            FrameV::EquityWithLoanValue(d) => d.wf(),
            FrameV::ExcessLiquidity(d) => d.wf(),
            FrameV::NetLiquidation(d) => d.wf(),
            FrameV::UnrealizedPnL(d) => d.wf(),
            FrameV::RealizedPnL(d) => d.wf(),
            FrameV::TotalCashBalance(d) => d.wf(),
            FrameV::PortfolioValue(p) => p.wf(),
            FrameV::AccountUpdateEnd(s) => no_nul(s),
            FrameV::CurrentTime(_) => true,
            FrameV::NextValidOrderID(_) => true,
            FrameV::ContractDetailsData { details, .. } => details.wf(),
            FrameV::ContractDetailsEnd { .. } => true,
            FrameV::OpenOrder { order, state } => order.wf() && state.wf(),
            FrameV::OrderStatus(o) => o.wf(),
            FrameV::Execution(e) => e.wf(),
            FrameV::CommissionReport(c) => c.wf(),
            FrameV::PriceTick { price, size, .. } => price.wf() && size.wf(),
            FrameV::SizeTick { size, .. } => size.wf(),
            FrameV::GenericTick { value, .. } => value.wf(),
            FrameV::Bars { series, .. } => series.len() <= 0x7fffffff && forall|i: int|
                0 <= i < series.len() ==> (#[trigger] series[i]).wf(),
            FrameV::Error { message, .. } => no_nul(message),
            FrameV::Other => true,
        }
    }
}

/// Shorthand: the text of an integer field.
pub open spec fn si(n: int) -> Seq<char> {
    spec_fmt_int(n)
}

/// Shorthand: the text of a decimal field.
pub open spec fn sd(d: Dec) -> Seq<char> {
    spec_fmt_dec(d)
}

/// The text of an optional decimal field: absent encodes as the empty
/// field.
pub open spec fn sod(d: Option<Dec>) -> Seq<char> {
    match d {
        Some(x) => spec_fmt_dec(x),
        None => Seq::empty(),
    }
}

/// What an optional decimal field denotes.
pub open spec fn spec_parse_opt_dec(s: Seq<char>) -> Option<Option<Dec>> {
    if s.len() == 0 {
        Some(None)
    } else {
        match spec_parse_dec(s) {
            Some(d) => Some(Some(d)),
            None => None,
        }
    }
}

/// The per-bar fields of one historical bar record.
pub open spec fn spec_enc_bar(b: Bar) -> Seq<Seq<char>> {
    seq![spec_fmt_ts(b.t), sd(b.open), sd(b.high), sd(b.low), sd(b.close), sd(b.volume)]
}

/// The bar records of a series, flattened.
pub open spec fn spec_enc_bars(bars: Seq<Bar>) -> Seq<Seq<char>>
    decreases bars.len(),
{
    if bars.len() == 0 {
        Seq::empty()
    } else {
        spec_enc_bar(bars[0]) + spec_enc_bars(bars.skip(1))
    }
}

/// The fields of the encoded form of a frame.
pub open spec fn spec_encode_frame(f: FrameV) -> Seq<Seq<char>> {
    match f {
        FrameV::AccountCode(s) => seq![si(6), "AccountCode"@, s],
        FrameV::AccountType(s) => seq![si(6), "AccountType"@, s],
        FrameV::AccountUpdateTime(s) => seq![si(8), s],
        FrameV::CashBalance(d) => seq![si(6), "CashBalance"@, sd(d)],
        FrameV::EquityWithLoanValue(d) => seq![si(6), "EquityWithLoanValue"@, sd(d)],
        FrameV::ExcessLiquidity(d) => seq![si(6), "ExcessLiquidity"@, sd(d)],
        FrameV::NetLiquidation(d) => seq![si(6), "NetLiquidation"@, sd(d)],
        FrameV::UnrealizedPnL(d) => seq![si(6), "UnrealizedPnL"@, sd(d)],
        FrameV::RealizedPnL(d) => seq![si(6), "RealizedPnL"@, sd(d)],
        FrameV::TotalCashBalance(d) => seq![si(6), "TotalCashBalance"@, sd(d)],
        FrameV::PortfolioValue(p) => seq![
            si(7),
            p.contract.symbol,
            p.contract.sec_type,
            p.contract.exchange,
            p.contract.currency,
            sd(p.position),
            sd(p.market_price),
            sd(p.market_value),
        ],
        FrameV::AccountUpdateEnd(s) => seq![si(54), s],
        FrameV::CurrentTime(t) => seq![si(49), si(t as int)],
        FrameV::NextValidOrderID(id) => seq![si(9), si(id as int)],
        FrameV::ContractDetailsData { req_id, details } => seq![
            si(10),
            si(req_id as int),
            details.contract.symbol,
            details.contract.sec_type,
            details.contract.exchange,
            details.contract.currency,
            details.long_name,
        ],
        FrameV::ContractDetailsEnd { req_id } => seq![si(52), si(req_id as int)],
        FrameV::OpenOrder { order, state } => seq![
            si(5),
            si(order.order_id as int),
            order.action,
            sd(order.quantity),
            order.order_type,
            sod(order.limit_price),
            state.status,
            sod(state.commission),
        ],
        FrameV::OrderStatus(o) => seq![
            si(3),
            si(o.order_id as int),
            o.status,
            sd(o.filled),
            sd(o.remaining),
            sd(o.avg_fill_price),
        ],
        FrameV::Execution(e) => seq![
            si(11),
            si(e.order_id as int),
            e.exec_id,
            sd(e.shares),
            sd(e.price),
        ],
        FrameV::CommissionReport(c) => seq![si(59), c.exec_id, sd(c.commission)],
        FrameV::PriceTick { req_id, kind, price, size } => seq![
            si(1),
            si(req_id as int),
            si(kind as int),
            sd(price),
            sd(size),
        ],
        FrameV::SizeTick { req_id, kind, size } => seq![
            si(2),
            si(req_id as int),
            si(kind as int),
            sd(size),
        ],
        FrameV::GenericTick { req_id, kind, value } => seq![
            si(45),
            si(req_id as int),
            si(kind as int),
            sd(value),
        ],
        FrameV::Bars { req_id, series } => seq![
            si(17),
            si(req_id as int),
            si(series.len() as int),
        ] + spec_enc_bars(series),
        FrameV::Error { req_id, code, message } => seq![
            si(4),
            si(req_id as int),
            si(code as int),
            message,
        ],
        FrameV::Other => seq![si(-1)],
    }
}

/// What a run of bar records denotes.
pub open spec fn spec_parse_bars(fields: Seq<Seq<char>>, start: int, n: nat) -> Option<Seq<Bar>>
    decreases n,
{
    if n == 0 {
        Some(Seq::empty())
    } else if 0 <= start && start + 6 <= fields.len() {
        let t = spec_parse_ts(fields[start]);
        let o = spec_parse_dec(fields[start + 1]);
        let h = spec_parse_dec(fields[start + 2]);
        let l = spec_parse_dec(fields[start + 3]);
        let c = spec_parse_dec(fields[start + 4]);
        let v = spec_parse_dec(fields[start + 5]);
        if t is Some && o is Some && h is Some && l is Some && c is Some && v is Some {
            match spec_parse_bars(fields, start + 6, (n - 1) as nat) {
                Some(rest) => Some(
                    seq![
                        Bar {
                            t: t->0,
                            open: o->0,
                            high: h->0,
                            low: l->0,
                            close: c->0,
                            volume: v->0,
                        },
                    ] + rest,
                ),
                None => None,
            }
        } else {
            None
        }
    } else {
        None
    }
}

/// What a field sequence denotes as a frame. Anything malformed or of an
/// unknown kind denotes `Other`: a bad frame is skipped, never fatal.
pub open spec fn spec_parse_frame(fields: Seq<Seq<char>>) -> FrameV {
    if fields.len() < 1 {
        FrameV::Other
    } else {
        match spec_parse_i64(fields[0]) {
            None => FrameV::Other,
            Some(k) => {
                if k == 1 {
                    spec_parse_price_tick(fields)
                } else if k == 2 {
                    spec_parse_size_tick(fields)
                } else if k == 3 {
                    spec_parse_order_status(fields)
                } else if k == 4 {
                    spec_parse_error(fields)
                } else if k == 5 {
                    spec_parse_open_order(fields)
                } else if k == 6 {
                    spec_parse_account_value(fields)
                } else if k == 7 {
                    spec_parse_portfolio_value(fields)
                } else if k == 8 {
                    if fields.len() >= 2 {
                        FrameV::AccountUpdateTime(fields[1])
                    } else {
                        FrameV::Other
                    }
                } else if k == 9 {
                    if fields.len() >= 2 && spec_parse_i32(fields[1]) is Some {
                        FrameV::NextValidOrderID(spec_parse_i32(fields[1])->0)
                    } else {
                        FrameV::Other
                    }
                } else if k == 10 {
                    spec_parse_contract_details(fields)
                } else if k == 11 {
                    spec_parse_execution(fields)
                } else if k == 17 {
                    spec_parse_bars_frame(fields)
                } else if k == 45 {
                    spec_parse_generic_tick(fields)
                } else if k == 49 {
                    if fields.len() >= 2 && spec_parse_i64(fields[1]) is Some {
                        FrameV::CurrentTime(spec_parse_i64(fields[1])->0)
                    } else {
                        FrameV::Other
                    }
                } else if k == 52 {
                    if fields.len() >= 2 && spec_parse_i32(fields[1]) is Some {
                        FrameV::ContractDetailsEnd { req_id: spec_parse_i32(fields[1])->0 }
                    } else {
                        FrameV::Other
                    }
                } else if k == 54 {
                    if fields.len() >= 2 {
                        FrameV::AccountUpdateEnd(fields[1])
                    } else {
                        FrameV::Other
                    }
                } else if k == 59 {
                    if fields.len() >= 3 && spec_parse_dec(fields[2]) is Some {
                        FrameV::CommissionReport(
                            CommissionReportV {
                                exec_id: fields[1],
                                commission: spec_parse_dec(fields[2])->0,
                            },
                        )
                    } else {
                        FrameV::Other
                    }
                } else {
                    FrameV::Other
                }
            },
        }
    }
}

pub open spec fn spec_parse_price_tick(fields: Seq<Seq<char>>) -> FrameV {
    if fields.len() >= 5 && spec_parse_i32(fields[1]) is Some && spec_parse_i64(fields[2]) is Some
        && spec_parse_dec(fields[3]) is Some && spec_parse_dec(fields[4]) is Some {
        FrameV::PriceTick {
            req_id: spec_parse_i32(fields[1])->0,
            kind: spec_parse_i64(fields[2])->0,
            price: spec_parse_dec(fields[3])->0,
            size: spec_parse_dec(fields[4])->0,
        }
    } else {
        FrameV::Other
    }
}

pub open spec fn spec_parse_size_tick(fields: Seq<Seq<char>>) -> FrameV {
    if fields.len() >= 4 && spec_parse_i32(fields[1]) is Some && spec_parse_i64(fields[2]) is Some
        && spec_parse_dec(fields[3]) is Some {
        FrameV::SizeTick {
            req_id: spec_parse_i32(fields[1])->0,
            kind: spec_parse_i64(fields[2])->0,
            size: spec_parse_dec(fields[3])->0,
        }
    } else {
        FrameV::Other
    }
}

pub open spec fn spec_parse_generic_tick(fields: Seq<Seq<char>>) -> FrameV {
    if fields.len() >= 4 && spec_parse_i32(fields[1]) is Some && spec_parse_i64(fields[2]) is Some
        && spec_parse_dec(fields[3]) is Some {
        FrameV::GenericTick {
            req_id: spec_parse_i32(fields[1])->0,
            kind: spec_parse_i64(fields[2])->0,
            value: spec_parse_dec(fields[3])->0,
        }
    } else {
        FrameV::Other
    }
}

pub open spec fn spec_parse_order_status(fields: Seq<Seq<char>>) -> FrameV {
    if fields.len() >= 6 && spec_parse_i32(fields[1]) is Some && spec_parse_dec(fields[3]) is Some
        && spec_parse_dec(fields[4]) is Some && spec_parse_dec(fields[5]) is Some {
        FrameV::OrderStatus(
            OrderStatusDataV {
                order_id: spec_parse_i32(fields[1])->0,
                status: fields[2],
                filled: spec_parse_dec(fields[3])->0,
                remaining: spec_parse_dec(fields[4])->0,
                avg_fill_price: spec_parse_dec(fields[5])->0,
            },
        )
    } else {
        FrameV::Other
    }
}

pub open spec fn spec_parse_error(fields: Seq<Seq<char>>) -> FrameV {
    if fields.len() >= 4 && spec_parse_i32(fields[1]) is Some && spec_parse_i32(fields[2]) is Some {
        FrameV::Error {
            req_id: spec_parse_i32(fields[1])->0,
            code: spec_parse_i32(fields[2])->0,
            message: fields[3],
        }
    } else {
        FrameV::Other
    }
}

pub open spec fn spec_parse_open_order(fields: Seq<Seq<char>>) -> FrameV {
    if fields.len() >= 8 && spec_parse_i32(fields[1]) is Some && spec_parse_dec(fields[3]) is Some
        && spec_parse_opt_dec(fields[5]) is Some && spec_parse_opt_dec(fields[7]) is Some {
        FrameV::OpenOrder {
            order: OrderV {
                order_id: spec_parse_i32(fields[1])->0,
                action: fields[2],
                quantity: spec_parse_dec(fields[3])->0,
                order_type: fields[4],
                limit_price: spec_parse_opt_dec(fields[5])->0,
            },
            state: OrderStateV { status: fields[6], commission: spec_parse_opt_dec(fields[7])->0 },
        }
    } else {
        FrameV::Other
    }
}

pub open spec fn spec_parse_account_value(fields: Seq<Seq<char>>) -> FrameV {
    if fields.len() >= 3 {
        let key = fields[1];
        let v = fields[2];
        if key == "AccountCode"@ {
            FrameV::AccountCode(v)
        } else if key == "AccountType"@ {
            FrameV::AccountType(v)
        } else if key == "CashBalance"@ {
            spec_money(spec_parse_dec(v), |d: Dec| FrameV::CashBalance(d))
        } else if key == "EquityWithLoanValue"@ {
            spec_money(spec_parse_dec(v), |d: Dec| FrameV::EquityWithLoanValue(d))
        } else if key == "ExcessLiquidity"@ {
            spec_money(spec_parse_dec(v), |d: Dec| FrameV::ExcessLiquidity(d))
        } else if key == "NetLiquidation"@ {
            spec_money(spec_parse_dec(v), |d: Dec| FrameV::NetLiquidation(d))
        } else if key == "UnrealizedPnL"@ {
            spec_money(spec_parse_dec(v), |d: Dec| FrameV::UnrealizedPnL(d))
        } else if key == "RealizedPnL"@ {
            spec_money(spec_parse_dec(v), |d: Dec| FrameV::RealizedPnL(d))
        } else if key == "TotalCashBalance"@ {
            spec_money(spec_parse_dec(v), |d: Dec| FrameV::TotalCashBalance(d))
        } else {
            FrameV::Other
        }
    } else {
        FrameV::Other
    }
}

pub open spec fn spec_money(d: Option<Dec>, f: spec_fn(Dec) -> FrameV) -> FrameV {
    match d {
        Some(x) => f(x),
        None => FrameV::Other,
    }
}

pub open spec fn spec_parse_portfolio_value(fields: Seq<Seq<char>>) -> FrameV {
    if fields.len() >= 8 && spec_parse_dec(fields[5]) is Some && spec_parse_dec(fields[6]) is Some
        && spec_parse_dec(fields[7]) is Some {
        FrameV::PortfolioValue(
            PositionV {
                contract: ContractV {
                    symbol: fields[1],
                    sec_type: fields[2],
                    exchange: fields[3],
                    currency: fields[4],
                },
                position: spec_parse_dec(fields[5])->0,
                market_price: spec_parse_dec(fields[6])->0,
                market_value: spec_parse_dec(fields[7])->0,
            },
        )
    } else {
        FrameV::Other
    }
}

pub open spec fn spec_parse_contract_details(fields: Seq<Seq<char>>) -> FrameV {
    if fields.len() >= 7 && spec_parse_i32(fields[1]) is Some {
        FrameV::ContractDetailsData {
            req_id: spec_parse_i32(fields[1])->0,
            details: ContractDetailsV {
                contract: ContractV {
                    symbol: fields[2],
                    sec_type: fields[3],
                    exchange: fields[4],
                    currency: fields[5],
                },
                long_name: fields[6],
            },
        }
    } else {
        FrameV::Other
    }
}

pub open spec fn spec_parse_execution(fields: Seq<Seq<char>>) -> FrameV {
    if fields.len() >= 5 && spec_parse_i32(fields[1]) is Some && spec_parse_dec(fields[3]) is Some
        && spec_parse_dec(fields[4]) is Some {
        FrameV::Execution(
            ExecutionV {
                order_id: spec_parse_i32(fields[1])->0,
                exec_id: fields[2],
                shares: spec_parse_dec(fields[3])->0,
                price: spec_parse_dec(fields[4])->0,
            },
        )
    } else {
        FrameV::Other
    }
}

pub open spec fn spec_parse_bars_frame(fields: Seq<Seq<char>>) -> FrameV {
    if fields.len() >= 3 && spec_parse_i32(fields[1]) is Some && spec_parse_i64(fields[2]) is Some
        && 0 <= spec_parse_i64(fields[2])->0 <= 0x7fffffff && spec_parse_bars(
        fields,
        3,
        spec_parse_i64(fields[2])->0 as nat,
    ) is Some {
        FrameV::Bars {
            req_id: spec_parse_i32(fields[1])->0,
            series: spec_parse_bars(fields, 3, spec_parse_i64(fields[2])->0 as nat)->0,
        }
    } else {
        FrameV::Other
    }
}

} // verus!
