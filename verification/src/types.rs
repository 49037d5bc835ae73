//! The typed values that frames carry: contracts, orders, executions,
//! commission reports, bars and portfolio positions. Each type with text
//! fields has a spec-level mirror over `Seq<char>` as its view.

use vstd::prelude::*;
use crate::dec::Dec;
use crate::tstamp::TimeStamp;
use crate::wire::no_nul;

verus! {

/// A tradable instrument, by its route: symbol, security type, exchange and
/// currency.
#[derive(Clone, Debug)]
pub struct Contract {
    pub symbol: String,
    pub sec_type: String,
    pub exchange: String,
    pub currency: String,
}

pub struct ContractV {
    pub symbol: Seq<char>,
    pub sec_type: Seq<char>,
    pub exchange: Seq<char>,
    pub currency: Seq<char>,
}

impl View for Contract {
    type V = ContractV;

    open spec fn view(&self) -> ContractV {
        ContractV {
            symbol: self.symbol@,
            sec_type: self.sec_type@,
            exchange: self.exchange@,
            currency: self.currency@,
        }
    }
}

impl ContractV {
    pub open spec fn wf(self) -> bool {
        no_nul(self.symbol) && no_nul(self.sec_type) && no_nul(self.exchange) && no_nul(
            self.currency,
        )
    }
}

/// The gateway's detail record for one contract.
#[derive(Clone, Debug)]
pub struct ContractDetails {
    pub contract: Contract,
    pub long_name: String,
}

pub struct ContractDetailsV {
    pub contract: ContractV,
    pub long_name: Seq<char>,
}

impl View for ContractDetails {
    type V = ContractDetailsV;

    open spec fn view(&self) -> ContractDetailsV {
        ContractDetailsV { contract: self.contract@, long_name: self.long_name@ }
    }
}

impl ContractDetailsV {
    pub open spec fn wf(self) -> bool {
        self.contract.wf() && no_nul(self.long_name)
    }
}

/// An order as the caller states it: side, quantity, type and optional
/// limit price.
#[derive(Clone, Debug)]
pub struct Order {
    pub order_id: i32,
    pub action: String,
    pub quantity: Dec,
    pub order_type: String,
    pub limit_price: Option<Dec>,
}

pub struct OrderV {
    pub order_id: i32,
    pub action: Seq<char>,
    pub quantity: Dec,
    pub order_type: Seq<char>,
    pub limit_price: Option<Dec>,
}

impl View for Order {
    type V = OrderV;

    open spec fn view(&self) -> OrderV {
        OrderV {
            order_id: self.order_id,
            action: self.action@,
            quantity: self.quantity,
            order_type: self.order_type@,
            limit_price: self.limit_price,
        }
    }
}

impl OrderV {
    pub open spec fn wf(self) -> bool {
        &&& no_nul(self.action)
        &&& no_nul(self.order_type)
        &&& self.quantity.wf()
        &&& match self.limit_price {
            Some(p) => p.wf(),
            None => true,
        }
    }
}

/// The broker-side state of an open order.
#[derive(Clone, Debug)]
pub struct OrderState {
    pub status: String,
    pub commission: Option<Dec>,
}

pub struct OrderStateV {
    pub status: Seq<char>,
    pub commission: Option<Dec>,
}

impl View for OrderState {
    type V = OrderStateV;

    open spec fn view(&self) -> OrderStateV {
        OrderStateV { status: self.status@, commission: self.commission }
    }
}

impl OrderStateV {
    pub open spec fn wf(self) -> bool {
        no_nul(self.status) && match self.commission {
            Some(c) => c.wf(),
            None => true,
        }
    }
}

/// A progress report for an order: status text, filled and remaining
/// quantity, average fill price.
#[derive(Clone, Debug)]
pub struct OrderStatusData {
    pub order_id: i32,
    pub status: String,
    pub filled: Dec,
    pub remaining: Dec,
    pub avg_fill_price: Dec,
}

pub struct OrderStatusDataV {
    pub order_id: i32,
    pub status: Seq<char>,
    pub filled: Dec,
    pub remaining: Dec,
    pub avg_fill_price: Dec,
}

impl View for OrderStatusData {
    type V = OrderStatusDataV;

    open spec fn view(&self) -> OrderStatusDataV {
        OrderStatusDataV {
            order_id: self.order_id,
            status: self.status@,
            filled: self.filled,
            remaining: self.remaining,
            avg_fill_price: self.avg_fill_price,
        }
    }
}

impl OrderStatusDataV {
    pub open spec fn wf(self) -> bool {
        no_nul(self.status) && self.filled.wf() && self.remaining.wf() && self.avg_fill_price.wf()
    }
}

/// One fill of an order.
#[derive(Clone, Debug)]
pub struct Execution {
    pub order_id: i32,
    pub exec_id: String,
    pub shares: Dec,
    pub price: Dec,
}

pub struct ExecutionV {
    pub order_id: i32,
    pub exec_id: Seq<char>,
    pub shares: Dec,
    pub price: Dec,
}

impl View for Execution {
    type V = ExecutionV;

    open spec fn view(&self) -> ExecutionV {
        ExecutionV {
            order_id: self.order_id,
            exec_id: self.exec_id@,
            shares: self.shares,
            price: self.price,
        }
    }
}

impl ExecutionV {
    pub open spec fn wf(self) -> bool {
        no_nul(self.exec_id) && self.shares.wf() && self.price.wf()
    }
}

/// The commission charged for one execution, correlated by `exec_id`.
#[derive(Clone, Debug)]
pub struct CommissionReport {
    pub exec_id: String,
    pub commission: Dec,
}

pub struct CommissionReportV {
    pub exec_id: Seq<char>,
    pub commission: Dec,
}

impl View for CommissionReport {
    type V = CommissionReportV;

    open spec fn view(&self) -> CommissionReportV {
        CommissionReportV { exec_id: self.exec_id@, commission: self.commission }
    }
}

impl CommissionReportV {
    pub open spec fn wf(self) -> bool {
        no_nul(self.exec_id) && self.commission.wf()
    }
}

/// One historical bar.
#[derive(Clone, Copy, PartialEq, Eq, Structural, Debug)]
pub struct Bar {
    pub t: TimeStamp,
    pub open: Dec,
    pub high: Dec,
    pub low: Dec,
    pub close: Dec,
    pub volume: Dec,
}

impl Bar {
    pub open spec fn wf(self) -> bool {
        self.t.wf() && self.open.wf() && self.high.wf() && self.low.wf() && self.close.wf()
            && self.volume.wf()
    }
}

/// A complete batch of historical bars, delivered once per request.
#[derive(Clone, Debug)]
pub struct BarSeries {
    pub bars: Vec<Bar>,
}

impl View for BarSeries {
    type V = Seq<Bar>;

    open spec fn view(&self) -> Seq<Bar> {
        self.bars@
    }
}

/// Bars sorted by timestamp, ascending.
pub open spec fn bars_sorted(bars: Seq<Bar>) -> bool {
    forall|i: int, j: int| 0 <= i < j < bars.len() ==> #[trigger] bars[i].t.key()
        <= #[trigger] bars[j].t.key()
}

impl BarSeries {
    /// Number of bars in the batch.
    pub fn count(&self) -> (r: usize)
        ensures
            r == self@.len(),
    {
        self.bars.len()
    }

    /// Whether the batch is sorted by timestamp ascending.
    pub fn is_sorted(&self) -> (r: bool)
        requires
            forall|i: int| 0 <= i < self@.len() ==> (#[trigger] self@[i]).wf(),
        ensures
            r == bars_sorted(self@),
    {
        let mut i: usize = 1;
        while i < self.bars.len()
            invariant
                1 <= i,
                forall|k: int| 0 <= k < self@.len() ==> (#[trigger] self@[k]).wf(),
                forall|p: int, q: int| 0 <= p < q < i && q < self@.len()
                    ==> #[trigger] self@[p].t.key() <= #[trigger] self@[q].t.key(),
                forall|p: int, q: int| 0 <= p < q <= i - 1 && q < self@.len()
                    ==> self@[p].t.key() <= self@[q].t.key(),
            decreases self.bars.len() - i,
        {
            let a = self.bars[i - 1];
            let b = self.bars[i];
            proof {
                assert(self@[i - 1].wf());
                assert(self@[i as int].wf());
            }
            if !crate::tstamp::ts_le(&a.t, &b.t) {
                return false;
            }
            proof {
                assert forall|p: int, q: int| 0 <= p < q < i + 1 && q < self@.len() implies
                    #[trigger] self@[p].t.key() <= #[trigger] self@[q].t.key() by {
                    if q == i {
                        assert(self@[q - 1].t.key() <= self@[q].t.key());
                        if p < q - 1 {
                            assert(self@[p].t.key() <= self@[q - 1].t.key());
                        }
                    }
                }
            }
            i = i + 1;
        }
        true
    }
}

/// One portfolio position, as the account stream reports it.
#[derive(Clone, Debug)]
pub struct Position {
    pub contract: Contract,
    pub position: Dec,
    pub market_price: Dec,
    pub market_value: Dec,
}

pub struct PositionV {
    pub contract: ContractV,
    pub position: Dec,
    pub market_price: Dec,
    pub market_value: Dec,
}

impl View for Position {
    type V = PositionV;

    open spec fn view(&self) -> PositionV {
        PositionV {
            contract: self.contract@,
            position: self.position,
            market_price: self.market_price,
            market_value: self.market_value,
        }
    }
}

impl PositionV {
    pub open spec fn wf(self) -> bool {
        self.contract.wf() && self.position.wf() && self.market_price.wf()
            && self.market_value.wf()
    }
}

} // verus!
