//! Per-request sinks: the latest-value state of a market-data subscription,
//! the evolving state of a tracked order, and the account view. The router
//! owns the authoritative copies; the I/O shell mirrors them to callers.

use vstd::prelude::*;
use crate::dec::{max_mantissa, pow10, Dec};
use crate::types::{CommissionReport, Execution, Order, OrderState, OrderStatusData, Position};

verus! {

/// Tick kind codes of the wire protocol.
pub const TICK_BID_SIZE: i64 = 0;

pub const TICK_BID: i64 = 1;

pub const TICK_ASK: i64 = 2;

pub const TICK_ASK_SIZE: i64 = 3;

pub const TICK_LAST: i64 = 4;

pub const TICK_LAST_SIZE: i64 = 5;

pub const TICK_SHORTABLE: i64 = 46;

pub const TICK_DELAYED_BID: i64 = 66;

pub const TICK_DELAYED_ASK: i64 = 67;

pub const TICK_DELAYED_LAST: i64 = 68;

pub const TICK_DELAYED_BID_SIZE: i64 = 69;

pub const TICK_DELAYED_ASK_SIZE: i64 = 70;

pub const TICK_DELAYED_LAST_SIZE: i64 = 71;

pub const TICK_SHORTABLE_SHARES: i64 = 89;

/// How hard a contract is to short, derived from the shortable tick value:
/// at least 2.5 means shares are available, at least 1.5 means they can be
/// located, below that nothing is available.
#[derive(Clone, Copy, PartialEq, Eq, Structural, Debug)]
pub enum ShortAvailability {
    Available,
    Locatable,
    NotAvailable,
}

/// The availability class a shortable tick value denotes.
pub open spec fn spec_short_availability(v: Dec) -> ShortAvailability {
    if 2 * v.mantissa >= 5 * pow10(v.scale as nat) {
        ShortAvailability::Available
    } else if 2 * v.mantissa >= 3 * pow10(v.scale as nat) {
        ShortAvailability::Locatable
    } else {
        ShortAvailability::NotAvailable
    }
}

/// Classify a shortable tick value.
pub fn short_availability_of(v: &Dec) -> (r: ShortAvailability)
    requires
        v.wf(),
    ensures
        r == spec_short_availability(*v),
{
    proof {
        crate::dec::lemma_pow10_28();
        crate::dec::lemma_pow10_le(v.scale as nat, 28);
        crate::dec::lemma_pow10_pos(v.scale as nat);
    }
    let p = crate::dec::pow10_u128(v.scale) as i128;
    if 2 * v.mantissa >= 5 * p {
        ShortAvailability::Available
    } else if 2 * v.mantissa >= 3 * p {
        ShortAvailability::Locatable
    } else {
        ShortAvailability::NotAvailable
    }
}

/// The latest-value fields of one market-data subscription. Every field is
/// absent until its first update.
#[derive(Clone, Debug)]
pub struct TickerState {
    pub bid: Option<Dec>,
    pub ask: Option<Dec>,
    pub last: Option<Dec>,
    pub bid_size: Option<Dec>,
    pub ask_size: Option<Dec>,
    pub last_size: Option<Dec>,
    pub shortable_shares: Option<Dec>,
    pub short_availability: Option<ShortAvailability>,
}

pub open spec fn opt_dec_wf(o: Option<Dec>) -> bool {
    match o {
        Some(d) => d.wf(),
        None => true,
    }
}

/// The state of a subscription before any tick arrived: every field
/// absent.
pub open spec fn spec_init_ticker() -> TickerState {
    TickerState {
        bid: None,
        ask: None,
        last: None,
        bid_size: None,
        ask_size: None,
        last_size: None,
        shortable_shares: None,
        short_availability: None,
    }
}

impl TickerState {
    pub open spec fn wf(self) -> bool {
        opt_dec_wf(self.bid) && opt_dec_wf(self.ask) && opt_dec_wf(self.last) && opt_dec_wf(
            self.bid_size,
        ) && opt_dec_wf(self.ask_size) && opt_dec_wf(self.last_size) && opt_dec_wf(
            self.shortable_shares,
        )
    }

    /// A fresh subscription: every field absent.
    pub fn new() -> (r: TickerState)
        ensures
            r == spec_init_ticker(),
            r.wf(),
    {
        TickerState {
            bid: None,
            ask: None,
            last: None,
            bid_size: None,
            ask_size: None,
            last_size: None,
            shortable_shares: None,
            short_availability: None,
        }
    }

    /// The midpoint of bid and ask, once both are present with a common
    /// scale and the arithmetic stays in range.
    pub fn midpoint(&self) -> (r: Option<Dec>)
        requires
            self.wf(),
        ensures
            match r {
                Some(m) => self.bid is Some && self.ask is Some && m.wf() && 2 * m.val28()
                    == self.bid->0.val28() + self.ask->0.val28(),
                None => true,
            },
            (self.bid is Some && self.ask is Some && self.bid->0.scale == self.ask->0.scale
                && self.bid->0.scale <= 27 && -1000000000000000000
                <= self.bid->0.mantissa <= 1000000000000000000
                && -1000000000000000000 <= self.ask->0.mantissa
                <= 1000000000000000000) ==> r is Some,
    {
        let b = match &self.bid {
            Some(x) => *x,
            None => {
                return None;
            },
        };
        let a = match &self.ask {
            Some(x) => *x,
            None => {
                return None;
            },
        };
        proof {
            assert(b == self.bid->0);
            assert(a == self.ask->0);
        }
        if !(b.scale == a.scale && b.scale <= 27) {
            proof {
                assert(!(self.bid->0.scale == self.ask->0.scale && self.bid->0.scale <= 27));
            }
            return None;
        }
        let sum: i128 = b.mantissa + a.mantissa;
        let ghost s = b.scale as nat;
        proof {
            crate::dec::lemma_pow10_pos(s);
        }
        if sum % 2 == 0 {
            let m = Dec { mantissa: sum / 2, scale: b.scale };
            proof {
                assert(2 * (sum / 2) == sum);
                assert(2 * ((sum / 2) * pow10((28 - b.scale) as nat)) == sum * pow10(
                    (28 - b.scale) as nat,
                )) by (nonlinear_arith)
                    requires
                        2 * (sum / 2) == sum,
                ;
                assert(sum * pow10((28 - b.scale) as nat) == b.mantissa * pow10(
                    (28 - b.scale) as nat,
                ) + a.mantissa * pow10((28 - b.scale) as nat)) by (nonlinear_arith)
                    requires
                        sum == b.mantissa + a.mantissa,
                ;
            }
            Some(m)
        } else {
            if -15845632502852839518708790067i128 <= sum && sum
                <= 15845632502852839518708790067i128 {
                let m = Dec { mantissa: sum * 5, scale: b.scale + 1 };
                proof {
                    let p27 = pow10((28 - b.scale - 1) as nat);
                    let p28 = pow10((28 - b.scale) as nat);
                    assert(p28 == 10 * p27);
                    assert(2 * ((sum * 5) * p27) == sum * (10 * p27)) by (nonlinear_arith);
                    assert(sum * p28 == b.mantissa * p28 + a.mantissa * p28)
                        by (nonlinear_arith)
                        requires
                            sum == b.mantissa + a.mantissa,
                    ;
                }
                Some(m)
            } else {
                None
            }
        }
    }
}

/// The evolving state of one tracked order: latest snapshot, latest broker
/// state, latest status, and append-only runs of executions and commission
/// reports.
#[derive(Clone, Debug)]
pub struct TrackerState {
    pub order: Order,
    pub order_state: OrderState,
    pub status: Option<OrderStatusData>,
    pub executions: Vec<Execution>,
    pub commission_reports: Vec<CommissionReport>,
}

impl TrackerState {
    /// A fresh tracker, created on the first open-order frame.
    pub fn new(order: Order, order_state: OrderState) -> (r: TrackerState)
        ensures
            r.order == order,
            r.order_state == order_state,
            r.status is None,
            r.executions@.len() == 0,
            r.commission_reports@.len() == 0,
    {
        TrackerState {
            order,
            order_state,
            status: None,
            executions: Vec::new(),
            commission_reports: Vec::new(),
        }
    }
}

/// The account view: latest-value cells for the account scalars and the
/// portfolio snapshot.
#[derive(Clone, Debug)]
pub struct AccountState {
    pub account_code: Option<String>,
    pub account_type: Option<String>,
    pub update_time: Option<String>,
    pub cash_balance: Option<Dec>,
    pub equity_with_loan_value: Option<Dec>,
    pub excess_liquidity: Option<Dec>,
    pub net_liquidation: Option<Dec>,
    pub unrealized_pnl: Option<Dec>,
    pub realized_pnl: Option<Dec>,
    pub total_cash_balance: Option<Dec>,
    pub portfolio: Option<Vec<Position>>,
}

impl AccountState {
    /// An account view with every cell absent.
    pub fn new() -> (r: AccountState)
        ensures
            r.net_liquidation is None,
            r.cash_balance is None,
            r.excess_liquidity is None,
            r.portfolio is None,
    {
        AccountState {
            account_code: None,
            account_type: None,
            update_time: None,
            cash_balance: None,
            equity_with_loan_value: None,
            excess_liquidity: None,
            net_liquidation: None,
            unrealized_pnl: None,
            realized_pnl: None,
            total_cash_balance: None,
            portfolio: None,
        }
    }

    /// The latest net liquidation value, if one has arrived.
    pub fn net_liquidation_value(&self) -> (r: Option<Dec>)
        ensures
            r == self.net_liquidation,
    {
        self.net_liquidation
    }

    /// The latest cash balance, if one has arrived.
    pub fn cash_balance(&self) -> (r: Option<Dec>)
        ensures
            r == self.cash_balance,
    {
        self.cash_balance
    }

    /// The latest excess liquidity, if one has arrived.
    pub fn excess_liquidity(&self) -> (r: Option<Dec>)
        ensures
            r == self.excess_liquidity,
    {
        self.excess_liquidity
    }
}

} // verus!
