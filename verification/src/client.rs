//! The façade's verified core: request-ID and order-ID allocation, the
//! encoders for every outbound request, the narrowing of one-shot replies,
//! and the registration-before-send rule modelled over the two queues the
//! façade shares with the router.

use vstd::prelude::*;
use crate::encode::{fmt_i32, fmt_opt_dec};
use crate::numfmt::fmt_i64;
use crate::dec::fmt_dec;
use crate::frame::{sd, si, sod};
use crate::tstamp::{fmt_ts, spec_fmt_ts, TimeStamp};
use crate::types::{BarSeries, Contract, ContractDetails, Order};
use crate::wire::{join_fields, spec_join};

verus! {

/// The generic tick kind that asks for shortable data.
pub const GENERIC_TICK_SHORTABLE_DATA: i64 = 236;

/// Market data delivery settings.
#[derive(Clone, Copy, PartialEq, Eq, Structural, Debug)]
pub enum MarketDataType {
    RealTime,
    Frozen,
    Delayed,
    DelayedFrozen,
}

pub open spec fn market_data_type_code(m: MarketDataType) -> int {
    match m {
        MarketDataType::RealTime => 1,
        MarketDataType::Frozen => 2,
        MarketDataType::Delayed => 3,
        MarketDataType::DelayedFrozen => 4,
    }
}

/// What a completed one-shot carries back to the façade.
pub enum Response {
    ContractDetailsBatch(Vec<ContractDetails>),
    OrderTrackerReady(i32),
    TickerReady(i32),
    Bars(BarSeries),
    Empty,
}

/// The two errors a correlated request can end in.
#[derive(Clone, Copy, PartialEq, Eq, Structural, Debug)]
pub enum RequestError {
    /// The reply was of the wrong variant for the awaiting caller.
    ProtocolMismatch,
    /// The connection died before the reply arrived.
    Cancelled,
}

/// Narrow a reply to a contract-details batch.
pub fn narrow_contract_details(r: Response) -> (out: Result<Vec<ContractDetails>, RequestError>)
    ensures
        match r {
            Response::ContractDetailsBatch(_) => out is Ok && (r matches
            Response::ContractDetailsBatch(v) ==> out == Ok::<_, RequestError>(v)),
            _ => out == Err::<Vec<ContractDetails>, _>(RequestError::ProtocolMismatch),
        },
{
    match r {
        Response::ContractDetailsBatch(v) => Ok(v),
        _ => Err(RequestError::ProtocolMismatch),
    }
}

/// Narrow a reply to a bar series.
pub fn narrow_bars(r: Response) -> (out: Result<BarSeries, RequestError>)
    ensures
        match r {
            Response::Bars(_) => out is Ok && (r matches Response::Bars(v) ==> out == Ok::<
                _,
                RequestError,
            >(v)),
            _ => out == Err::<BarSeries, _>(RequestError::ProtocolMismatch),
        },
{
    match r {
        Response::Bars(v) => Ok(v),
        _ => Err(RequestError::ProtocolMismatch),
    }
}

/// Narrow a reply to a ready order tracker, named by its order ID.
pub fn narrow_order_tracker(r: Response) -> (out: Result<i32, RequestError>)
    ensures
        match r {
            Response::OrderTrackerReady(id) => out == Ok::<_, RequestError>(id),
            _ => out == Err::<i32, _>(RequestError::ProtocolMismatch),
        },
{
    match r {
        Response::OrderTrackerReady(id) => Ok(id),
        _ => Err(RequestError::ProtocolMismatch),
    }
}

/// Narrow a reply to a ready ticker, named by its request ID.
pub fn narrow_ticker(r: Response) -> (out: Result<i32, RequestError>)
    ensures
        match r {
            Response::TickerReady(id) => out == Ok::<_, RequestError>(id),
            _ => out == Err::<i32, _>(RequestError::ProtocolMismatch),
        },
{
    match r {
        Response::TickerReady(id) => Ok(id),
        _ => Err(RequestError::ProtocolMismatch),
    }
}

/// The two queues between façade and router. Registrations and outbound
/// bytes travel on separate channels; this models their contents.
pub struct Links {
    /// Request IDs whose registration has been enqueued, in order.
    pub registrations: Vec<i32>,
    /// Encoded request payloads enqueued for the writer, in order.
    pub outbound: Vec<String>,
}

impl Links {
    pub fn new() -> (r: Links)
        ensures
            r.registrations@.len() == 0,
            r.outbound@.len() == 0,
    {
        Links { registrations: Vec::new(), outbound: Vec::new() }
    }

    /// Registration before send: the registration for an ID is enqueued
    /// strictly before the request bytes, so when the send returns the
    /// registration is already in the router's queue.
    pub fn submit(&mut self, id: i32, msg: String)
        ensures
            final(self).registrations@ == old(self).registrations@.push(id),
            final(self).outbound@ == old(self).outbound@.push(msg),
            final(self).registrations@.contains(id),
    {
        self.registrations.push(id);
        self.outbound.push(msg);
        proof {
            assert(final(self).registrations@[final(self).registrations@.len() - 1] == id);
        }
    }
}

/// The client façade's counters and settings. The sockets, tasks and
/// channels around it are the I/O shell's; everything it sends and expects
/// is computed here.
pub struct ClientCore {
    pub client_id: i32,
    pub server_version: i32,
    pub next_req_id: i32,
    pub next_order_id: i32,
    pub mkt_data_setting: MarketDataType,
}

/// The raw bootstrap token, written without a length prefix.
pub open spec fn spec_api_prelude() -> Seq<char> {
    "API"@ + seq!['\0']
}

/// The version banner `v<MIN>..<MAX>` naming the supported protocol range.
pub open spec fn spec_version_banner(min: int, max: int) -> Seq<char> {
    "v"@ + si(min) + ".."@ + si(max)
}

/// Build the bootstrap token.
pub fn api_prelude() -> (r: String)
    ensures
        r@ == spec_api_prelude(),
{
    let mut s = String::new();
    s.append("API");
    s.append("\0");
    proof {
        reveal_strlit("API");
        reveal_strlit("\0");
        assert(s@ =~= spec_api_prelude());
    }
    s
}

/// Build the version banner.
pub fn version_banner(min: i32, max: i32) -> (r: String)
    ensures
        r@ == spec_version_banner(min as int, max as int),
{
    let mut s = String::new();
    s.append("v");
    let mn = fmt_i32(min);
    s.append(mn.as_str());
    s.append("..");
    let mx = fmt_i32(max);
    s.append(mx.as_str());
    proof {
        reveal_strlit("v");
        reveal_strlit("..");
        assert(s@ =~= spec_version_banner(min as int, max as int));
    }
    s
}

/// The comma-separated form of a generic tick list; the empty list encodes
/// as the empty text, which travels as a bare null field.
pub open spec fn spec_tick_list(l: Seq<i64>) -> Seq<char>
    decreases l.len(),
{
    if l.len() == 0 {
        Seq::empty()
    } else if l.len() == 1 {
        si(l[0] as int)
    } else {
        si(l[0] as int) + ","@ + spec_tick_list(l.skip(1))
    }
}

/// Encode a generic tick list.
pub fn tick_list(l: &[i64]) -> (r: String)
    ensures
        r@ == spec_tick_list(l@),
    decreases l@.len(),
{
    if l.len() == 0 {
        let s = String::new();
        proof {
            assert(s@ =~= spec_tick_list(l@));
        }
        s
    } else if l.len() == 1 {
        fmt_i64(l[0])
    } else {
        let mut s = fmt_i64(l[0]);
        s.append(",");
        let rest = tick_list(slice_tail(l));
        s.append(rest.as_str());
        proof {
            reveal_strlit(",");
            assert(s@ =~= spec_tick_list(l@));
        }
        s
    }
}

/// The slice without its first element.
fn slice_tail(l: &[i64]) -> (r: &[i64])
    requires
        l@.len() >= 1,
    ensures
        r@ == l@.skip(1),
{
    let n = l.len();
    let r = vstd::slice::slice_subrange(l, 1, n);
    proof {
        assert(r@ =~= l@.skip(1));
    }
    r
}

impl ClientCore {
    /// A fresh façade core, made after the handshake settled the server
    /// version; the first order ID comes from the gateway.
    pub fn new(client_id: i32, server_version: i32) -> (r: ClientCore)
        ensures
            r.client_id == client_id,
            r.server_version == server_version,
            r.next_req_id == 0,
            r.next_order_id == 0,
            r.mkt_data_setting == MarketDataType::RealTime,
    {
        ClientCore {
            client_id,
            server_version,
            next_req_id: 0,
            next_order_id: 0,
            mkt_data_setting: MarketDataType::RealTime,
        }
    }

    /// Allocate the next request ID.
    pub fn get_next_req_id(&mut self) -> (r: i32)
        requires
            old(self).next_req_id < i32::MAX,
        ensures
            r == old(self).next_req_id + 1,
            final(self).next_req_id == r,
            final(self).next_order_id == old(self).next_order_id,
            final(self).client_id == old(self).client_id,
    {
        self.next_req_id = self.next_req_id + 1;
        self.next_req_id
    }

    /// Allocate the next order ID.
    pub fn get_next_order_id(&mut self) -> (r: i32)
        requires
            old(self).next_order_id < i32::MAX,
        ensures
            r == old(self).next_order_id + 1,
            final(self).next_order_id == r,
            final(self).next_req_id == old(self).next_req_id,
            final(self).client_id == old(self).client_id,
    {
        self.next_order_id = self.next_order_id + 1;
        self.next_order_id
    }

    /// The start-api request sent right after the banner exchange.
    pub fn start_api_msg(&self, capabilities: &str) -> (r: String)
        ensures
            r@ == spec_join(
                seq![si(71), si(2), si(self.client_id as int), capabilities@],
            ),
    {
        let mut v: Vec<String> = Vec::new();
        v.push(fmt_i64(71));
        v.push(fmt_i64(2));
        v.push(fmt_i32(self.client_id));
        v.push(capabilities.to_owned());
        proof {
            assert(v.deep_view() =~= seq![si(71), si(2), si(self.client_id as int), capabilities@]);
        }
        join_fields(&v)
    }

    /// The heartbeat request: ask the gateway for the current time.
    pub fn req_current_time_msg(&self) -> (r: String)
        ensures
            r@ == spec_join(seq![si(49), si(1)]),
    {
        let mut v: Vec<String> = Vec::new();
        v.push(fmt_i64(49));
        v.push(fmt_i64(1));
        proof {
            assert(v.deep_view() =~= seq![si(49), si(1)]);
        }
        join_fields(&v)
    }

    /// Subscribe to account updates.
    pub fn req_account_data_msg(&self) -> (r: String)
        ensures
            r@ == spec_join(seq![si(6), si(2), si(1), Seq::empty()]),
    {
        let mut v: Vec<String> = Vec::new();
        v.push(fmt_i64(6));
        v.push(fmt_i64(2));
        v.push(fmt_i64(1));
        v.push(String::new());
        proof {
            assert(v.deep_view() =~= seq![si(6), si(2), si(1), Seq::<char>::empty()]);
        }
        join_fields(&v)
    }

    /// Ask for the next valid order ID.
    pub fn req_ids_msg(&self) -> (r: String)
        ensures
            r@ == spec_join(seq![si(8), si(1), si(1)]),
    {
        let mut v: Vec<String> = Vec::new();
        v.push(fmt_i64(8));
        v.push(fmt_i64(1));
        v.push(fmt_i64(1));
        proof {
            assert(v.deep_view() =~= seq![si(8), si(1), si(1)]);
        }
        join_fields(&v)
    }

    /// Request the detail records for a contract: allocates a fresh request
    /// ID and encodes the query.
    pub fn req_contract_details(&mut self, contract: &Contract) -> (r: (i32, String))
        requires
            old(self).next_req_id < i32::MAX,
        ensures
            r.0 == old(self).next_req_id + 1,
            final(self).next_req_id == r.0,
            final(self).next_order_id == old(self).next_order_id,
            r.1@ == spec_join(
                seq![
                    si(9),
                    si(8),
                    si(r.0 as int),
                    contract@.symbol,
                    contract@.sec_type,
                    contract@.exchange,
                    contract@.currency,
                ],
            ),
    {
        let id = self.get_next_req_id();
        let mut v: Vec<String> = Vec::new();
        v.push(fmt_i64(9));
        v.push(fmt_i64(8));
        v.push(fmt_i32(id));
        v.push(contract.symbol.clone());
        v.push(contract.sec_type.clone());
        v.push(contract.exchange.clone());
        v.push(contract.currency.clone());
        proof {
            assert(v.deep_view() =~= seq![
                si(9),
                si(8),
                si(id as int),
                contract@.symbol,
                contract@.sec_type,
                contract@.exchange,
                contract@.currency,
            ]);
        }
        (id, join_fields(&v))
    }

    /// Place an order: allocates a fresh order ID and encodes the request.
    pub fn place_order(&mut self, contract: &Contract, order: &Order) -> (r: (i32, String))
        requires
            old(self).next_order_id < i32::MAX,
            order@.quantity.wf(),
            match order@.limit_price {
                Some(p) => p.wf(),
                None => true,
            },
        ensures
            r.0 == old(self).next_order_id + 1,
            final(self).next_order_id == r.0,
            final(self).next_req_id == old(self).next_req_id,
            r.1@ == spec_join(
                seq![
                    si(3),
                    si(r.0 as int),
                    contract@.symbol,
                    contract@.sec_type,
                    contract@.exchange,
                    contract@.currency,
                    order@.action,
                    sd(order@.quantity),
                    order@.order_type,
                    sod(order@.limit_price),
                ],
            ),
    {
        let id = self.get_next_order_id();
        let mut v: Vec<String> = Vec::new();
        v.push(fmt_i64(3));
        v.push(fmt_i32(id));
        v.push(contract.symbol.clone());
        v.push(contract.sec_type.clone());
        v.push(contract.exchange.clone());
        v.push(contract.currency.clone());
        v.push(order.action.clone());
        v.push(fmt_dec(&order.quantity));
        v.push(order.order_type.clone());
        v.push(fmt_opt_dec(&order.limit_price));
        proof {
            assert(v.deep_view() =~= seq![
                si(3),
                si(id as int),
                contract@.symbol,
                contract@.sec_type,
                contract@.exchange,
                contract@.currency,
                order@.action,
                sd(order@.quantity),
                order@.order_type,
                sod(order@.limit_price),
            ]);
        }
        (id, join_fields(&v))
    }

    /// Request streaming market data: allocates a fresh request ID and
    /// encodes the subscription, extra generic tick kinds included.
    pub fn req_market_data(
        &mut self,
        contract: &Contract,
        snapshot: bool,
        regulatory: bool,
        additional_data: &[i64],
    ) -> (r: (i32, String))
        requires
            old(self).next_req_id < i32::MAX,
        ensures
            r.0 == old(self).next_req_id + 1,
            final(self).next_req_id == r.0,
            final(self).next_order_id == old(self).next_order_id,
            r.1@ == spec_join(
                seq![
                    si(1),
                    si(11),
                    si(r.0 as int),
                    contract@.symbol,
                    contract@.sec_type,
                    contract@.exchange,
                    contract@.currency,
                    si(0),
                    spec_tick_list(additional_data@),
                    si(if snapshot { 1int } else { 0int }),
                    si(if regulatory { 1int } else { 0int }),
                    Seq::empty(),
                ],
            ),
    {
        let id = self.get_next_req_id();
        let mut v: Vec<String> = Vec::new();
        v.push(fmt_i64(1));
        v.push(fmt_i64(11));
        v.push(fmt_i32(id));
        v.push(contract.symbol.clone());
        v.push(contract.sec_type.clone());
        v.push(contract.exchange.clone());
        v.push(contract.currency.clone());
        v.push(fmt_i64(0));
        v.push(tick_list(additional_data));
        v.push(fmt_i64(if snapshot { 1 } else { 0 }));
        v.push(fmt_i64(if regulatory { 1 } else { 0 }));
        v.push(String::new());
        proof {
            assert(v.deep_view() =~= seq![
                si(1),
                si(11),
                si(id as int),
                contract@.symbol,
                contract@.sec_type,
                contract@.exchange,
                contract@.currency,
                si(0),
                spec_tick_list(additional_data@),
                si(if snapshot { 1int } else { 0int }),
                si(if regulatory { 1int } else { 0int }),
                Seq::<char>::empty(),
            ]);
        }
        (id, join_fields(&v))
    }

    /// Request a batch of historical bars up to an end timestamp.
    pub fn req_historical_data(
        &mut self,
        contract: &Contract,
        end_date_time: &TimeStamp,
        duration: &str,
        bar_period: &str,
        what_to_show: &str,
        use_rth: bool,
    ) -> (r: (i32, String))
        requires
            old(self).next_req_id < i32::MAX,
            end_date_time.wf(),
        ensures
            r.0 == old(self).next_req_id + 1,
            final(self).next_req_id == r.0,
            final(self).next_order_id == old(self).next_order_id,
            r.1@ == spec_join(
                seq![
                    si(20),
                    si(r.0 as int),
                    contract@.symbol,
                    contract@.sec_type,
                    contract@.exchange,
                    contract@.currency,
                    spec_fmt_ts(*end_date_time),
                    bar_period@,
                    duration@,
                    si(if use_rth { 1int } else { 0int }),
                    what_to_show@,
                    si(1),
                    si(0),
                    Seq::empty(),
                ],
            ),
    {
        let id = self.get_next_req_id();
        let mut v: Vec<String> = Vec::new();
        v.push(fmt_i64(20));
        v.push(fmt_i32(id));
        v.push(contract.symbol.clone());
        v.push(contract.sec_type.clone());
        v.push(contract.exchange.clone());
        v.push(contract.currency.clone());
        v.push(fmt_ts(end_date_time));
        v.push(bar_period.to_owned());
        v.push(duration.to_owned());
        v.push(fmt_i64(if use_rth { 1 } else { 0 }));
        v.push(what_to_show.to_owned());
        v.push(fmt_i64(1));
        v.push(fmt_i64(0));
        v.push(String::new());
        proof {
            assert(v.deep_view() =~= seq![
                si(20),
                si(id as int),
                contract@.symbol,
                contract@.sec_type,
                contract@.exchange,
                contract@.currency,
                spec_fmt_ts(*end_date_time),
                bar_period@,
                duration@,
                si(if use_rth { 1int } else { 0int }),
                what_to_show@,
                si(1),
                si(0),
                Seq::<char>::empty(),
            ]);
        }
        (id, join_fields(&v))
    }

    /// Request dividend-adjusted historical bars: same query with an empty
    /// end timestamp and the adjusted-last data type.
    pub fn req_adj_historical_data(
        &mut self,
        contract: &Contract,
        duration: &str,
        bar_period: &str,
        use_rth: bool,
    ) -> (r: (i32, String))
        requires
            old(self).next_req_id < i32::MAX,
        ensures
            r.0 == old(self).next_req_id + 1,
            final(self).next_req_id == r.0,
            final(self).next_order_id == old(self).next_order_id,
            r.1@ == spec_join(
                seq![
                    si(20),
                    si(r.0 as int),
                    contract@.symbol,
                    contract@.sec_type,
                    contract@.exchange,
                    contract@.currency,
                    Seq::empty(),
                    bar_period@,
                    duration@,
                    si(if use_rth { 1int } else { 0int }),
                    "ADJUSTED_LAST"@,
                    si(1),
                    si(0),
                    Seq::empty(),
                ],
            ),
    {
        let id = self.get_next_req_id();
        let mut v: Vec<String> = Vec::new();
        v.push(fmt_i64(20));
        v.push(fmt_i32(id));
        v.push(contract.symbol.clone());
        v.push(contract.sec_type.clone());
        v.push(contract.exchange.clone());
        v.push(contract.currency.clone());
        v.push(String::new());
        v.push(bar_period.to_owned());
        v.push(duration.to_owned());
        v.push(fmt_i64(if use_rth { 1 } else { 0 }));
        v.push("ADJUSTED_LAST".to_owned());
        v.push(fmt_i64(1));
        v.push(fmt_i64(0));
        v.push(String::new());
        proof {
            assert(v.deep_view() =~= seq![
                si(20),
                si(id as int),
                contract@.symbol,
                contract@.sec_type,
                contract@.exchange,
                contract@.currency,
                Seq::<char>::empty(),
                bar_period@,
                duration@,
                si(if use_rth { 1int } else { 0int }),
                "ADJUSTED_LAST"@,
                si(1),
                si(0),
                Seq::<char>::empty(),
            ]);
        }
        (id, join_fields(&v))
    }

    /// The request that switches the market data delivery setting.
    pub fn req_market_data_type_msg(&self, t: MarketDataType) -> (r: String)
        ensures
            r@ == spec_join(seq![si(59), si(1), si(market_data_type_code(t))]),
    {
        let code: i64 = match t {
            MarketDataType::RealTime => 1,
            MarketDataType::Frozen => 2,
            MarketDataType::Delayed => 3,
            MarketDataType::DelayedFrozen => 4,
        };
        let mut v: Vec<String> = Vec::new();
        v.push(fmt_i64(59));
        v.push(fmt_i64(1));
        v.push(fmt_i64(code));
        proof {
            assert(v.deep_view() =~= seq![si(59), si(1), si(market_data_type_code(t))]);
        }
        join_fields(&v)
    }

    /// Record the delivery setting, once the switch request went out.
    pub fn note_mkt_data_setting(&mut self, t: MarketDataType)
        ensures
            final(self).mkt_data_setting == t,
            final(self).next_req_id == old(self).next_req_id,
            final(self).next_order_id == old(self).next_order_id,
            final(self).client_id == old(self).client_id,
            final(self).server_version == old(self).server_version,
    {
        self.mkt_data_setting = t;
    }

    /// Switch to delayed market data: the request to send, with the new
    /// setting recorded.
    pub fn set_mkt_data_delayed(&mut self) -> (r: String)
        ensures
            final(self).mkt_data_setting == MarketDataType::Delayed,
            final(self).next_req_id == old(self).next_req_id,
            final(self).next_order_id == old(self).next_order_id,
            r@ == spec_join(
                seq![si(59), si(1), si(market_data_type_code(MarketDataType::Delayed))],
            ),
    {
        self.note_mkt_data_setting(MarketDataType::Delayed);
        self.req_market_data_type_msg(MarketDataType::Delayed)
    }

    /// Switch to real-time market data: the request to send, with the new
    /// setting recorded.
    pub fn set_mkt_data_real_time(&mut self) -> (r: String)
        ensures
            final(self).mkt_data_setting == MarketDataType::RealTime,
            final(self).next_req_id == old(self).next_req_id,
            final(self).next_order_id == old(self).next_order_id,
            r@ == spec_join(
                seq![si(59), si(1), si(market_data_type_code(MarketDataType::RealTime))],
            ),
    {
        self.note_mkt_data_setting(MarketDataType::RealTime);
        self.req_market_data_type_msg(MarketDataType::RealTime)
    }
}

} // verus!
