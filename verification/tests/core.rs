use ib_core::client::{ClientCore, Links, MarketDataType, Response, RequestError, narrow_bars,
    narrow_contract_details, narrow_order_tracker, narrow_ticker, api_prelude, version_banner,
    tick_list, GENERIC_TICK_SHORTABLE_DATA};
use ib_core::codec::{parse_frame, parse_opt_dec};
use ib_core::dec::{fmt_dec, parse_dec, Dec};
use ib_core::encode::encode_frame;
use ib_core::frame::Frame;
use ib_core::numfmt::{fmt_i64, parse_int};
use ib_core::router::{Action, Router};
use ib_core::sinks::{short_availability_of, ShortAvailability, TickerState, TICK_ASK, TICK_BID,
    TICK_SHORTABLE};
use ib_core::tstamp::{fmt_ts, parse_ts, ts_le, TimeStamp};
use ib_core::types::{Bar, BarSeries, CommissionReport, Contract, ContractDetails, Execution,
    Order, OrderState, OrderStatusData};
use ib_core::wire::{decode_len_prefix, encode_len_prefix, join_fields, split_fields};

fn dec(m: i128, s: u32) -> Dec {
    Dec { mantissa: m, scale: s }
}

fn aapl() -> Contract {
    Contract {
        symbol: "AAPL".to_string(),
        sec_type: "STK".to_string(),
        exchange: "SMART".to_string(),
        currency: "USD".to_string(),
    }
}

fn ts(y: u32, mo: u32, d: u32, h: u32, mi: u32, se: u32) -> TimeStamp {
    TimeStamp { year: y, month: mo, day: d, hour: h, minute: mi, second: se }
}

#[test]
fn int_round_trip() {
    assert_eq!(fmt_i64(0).as_str(), "0");
    assert_eq!(fmt_i64(-1205).as_str(), "-1205");
    assert_eq!(parse_int("-1205"), Some(-1205));
    assert_eq!(parse_int(""), None);
    assert_eq!(parse_int("12a"), None);
}

#[test]
fn dec_round_trip() {
    let d = dec(-1250, 2);
    let t = fmt_dec(&d);
    assert_eq!(t.as_str(), "-12.50");
    assert_eq!(parse_dec(&t), Some(d));
    assert_eq!(parse_dec("0.05"), Some(dec(5, 2)));
    assert_eq!(fmt_dec(&dec(5, 2)).as_str(), "0.05");
    assert_eq!(parse_dec("265"), Some(dec(265, 0)));
    assert_eq!(parse_dec("2.6.5"), None);
    assert_eq!(parse_dec(""), None);
}

#[test]
fn ts_round_trip() {
    let t = ts(2020, 3, 1, 0, 0, 0);
    let s = fmt_ts(&t);
    assert_eq!(s.as_str(), "20200301 00:00:00");
    assert_eq!(parse_ts(&s), Some(t));
    assert_eq!(parse_ts("20200301"), None);
    assert!(ts_le(&ts(2020, 2, 28, 0, 0, 0), &t));
    assert!(!ts_le(&t, &ts(2020, 2, 28, 0, 0, 0)));
}

#[test]
fn len_prefix_round_trip() {
    let b = encode_len_prefix(0x01020304);
    assert_eq!(b, vec![1u8, 2, 3, 4]);
    assert_eq!(decode_len_prefix(&b), Some(0x01020304));
    assert_eq!(decode_len_prefix(&[1u8, 2, 3]), None);
}

#[test]
fn field_split_join() {
    let fields = vec!["10".to_string(), "".to_string(), "AAPL".to_string()];
    let joined = join_fields(&fields);
    assert_eq!(joined.as_str(), "10\0\0AAPL\0");
    assert_eq!(split_fields(&joined), fields);
}

#[test]
fn frame_round_trips() {
    let frames = vec![
        Frame::NetLiquidation(dec(1234567, 2)),
        Frame::AccountCode("DU1234".to_string()),
        Frame::CurrentTime(1583020800),
        Frame::NextValidOrderID(7),
        Frame::ContractDetailsEnd { req_id: 3 },
        Frame::PriceTick { req_id: 4, kind: TICK_BID, price: dec(26530, 2), size: dec(100, 0) },
        Frame::CommissionReport {
            0: CommissionReport { exec_id: "0001.abc".to_string(), commission: dec(95, 2) },
        },
        Frame::Bars {
            req_id: 9,
            series: BarSeries {
                bars: vec![
                    Bar {
                        t: ts(2020, 2, 3, 0, 0, 0),
                        open: dec(30000, 2),
                        high: dec(30500, 2),
                        low: dec(29900, 2),
                        close: dec(30250, 2),
                        volume: dec(1000, 0),
                    },
                ],
            },
        },
    ];
    for f in frames {
        let payload = encode_frame(&f);
        let back = parse_frame(&payload);
        let again = encode_frame(&back);
        assert_eq!(payload, again);
    }
}

#[test]
fn parser_is_lenient() {
    assert!(matches!(parse_frame(""), Frame::Other));
    assert!(matches!(parse_frame("999\0x\0"), Frame::Other));
    assert!(matches!(parse_frame("1\0nope\0"), Frame::Other));
    assert!(matches!(parse_opt_dec(""), Some(None)));
    assert!(matches!(parse_opt_dec("1.5"), Some(Some(_))));
    assert!(parse_opt_dec("x").is_none());
}

#[test]
fn contract_details() {
    // request, accumulate two records, then the end frame delivers the batch
    let mut core = ClientCore::new(1, 151);
    let contract = aapl();
    let (id, msg) = core.req_contract_details(&contract);
    assert_eq!(id, 1);
    assert!(msg.contains("AAPL\0"));
    let mut router = Router::new();
    let mut links = Links::new();
    assert!(router.register_request(id));
    links.submit(id, msg);
    let details = ContractDetails { contract: aapl(), long_name: "Apple Inc.".to_string() };
    router.on_contract_details(id, details.clone());
    router.on_contract_details(id, details);
    match router.on_contract_details_end(id) {
        Some(Action::DeliverContractDetails { req_id, details }) => {
            assert_eq!(req_id, id);
            assert_eq!(details.len(), 2);
            let batch = narrow_contract_details(Response::ContractDetailsBatch(details)).unwrap();
            assert_eq!(batch[0].contract.symbol, "AAPL");
        },
        _ => panic!("no delivery"),
    }
    // a second end frame for the same ID delivers nothing
    assert!(router.on_contract_details_end(id).is_none());
}

#[test]
fn place_market_order() {
    let mut core = ClientCore::new(2, 151);
    let order = Order {
        order_id: 0,
        action: "BUY".to_string(),
        quantity: dec(10, 0),
        order_type: "MKT".to_string(),
        limit_price: None,
    };
    let (oid, msg) = core.place_order(&aapl(), &order);
    assert_eq!(oid, 1);
    assert!(msg.starts_with("3\0"));
    let mut router = Router::new();
    assert!(router.register_request(oid));
    let placed = Order { order_id: oid, ..order };
    // first open-order frame creates the tracker once
    let a = router.on_open_order(
        placed.clone(),
        OrderState { status: "Submitted".to_string(), commission: None },
    );
    assert!(matches!(a, Some(Action::TrackerCreated { order_id }) if order_id == oid));
    // a repeated frame updates, it does not create again
    let b = router.on_open_order(
        placed,
        OrderState { status: "Filled".to_string(), commission: Some(dec(95, 2)) },
    );
    assert!(matches!(b, Some(Action::TrackerUpdated { order_id }) if order_id == oid));
    router.on_order_status(OrderStatusData {
        order_id: oid,
        status: "Filled".to_string(),
        filled: dec(10, 0),
        remaining: dec(0, 0),
        avg_fill_price: dec(26530, 2),
    });
    let tracker = router.trackers.get(&oid).unwrap();
    assert_eq!(tracker.status.as_ref().unwrap().status, "Filled");
}

#[test]
fn commission_routed_to_same_tracker() {
    // an execution records its exec ID; the commission follows it and the
    // entry is erased
    let mut router = Router::new();
    let oid = 5;
    assert!(router.register_request(oid));
    router.on_open_order(
        Order {
            order_id: oid,
            action: "BUY".to_string(),
            quantity: dec(10, 0),
            order_type: "MKT".to_string(),
            limit_price: None,
        },
        OrderState { status: "Submitted".to_string(), commission: None },
    );
    router.on_execution(Execution {
        order_id: oid,
        exec_id: "00a.1".to_string(),
        shares: dec(10, 0),
        price: dec(26530, 2),
    });
    assert_eq!(router.executions_by_exec_id.len(), 1);
    let r = router.on_commission_report(CommissionReport {
        exec_id: "00a.1".to_string(),
        commission: dec(95, 2),
    });
    assert!(matches!(r, Some(Action::TrackerUpdated { order_id }) if order_id == oid));
    assert_eq!(router.executions_by_exec_id.len(), 0);
    let t = router.trackers.get(&oid).unwrap();
    assert_eq!(t.executions.len(), 1);
    assert_eq!(t.commission_reports.len(), 1);
}

#[test]
fn orphan_exec_id_leaks_nothing() {
    // an execution for an unknown order and its commission are both dropped
    let mut router = Router::new();
    let r = router.on_execution(Execution {
        order_id: 99,
        exec_id: "x.1".to_string(),
        shares: dec(1, 0),
        price: dec(100, 0),
    });
    assert!(r.is_none());
    assert_eq!(router.executions_by_exec_id.len(), 0);
    let c = router.on_commission_report(CommissionReport {
        exec_id: "x.1".to_string(),
        commission: dec(1, 0),
    });
    assert!(c.is_none());
    assert_eq!(router.executions_by_exec_id.len(), 0);
    assert!(router.trackers.is_empty());
}

#[test]
fn market_data() {
    let mut core = ClientCore::new(3, 151);
    let (id, msg) = core.req_market_data(&aapl(), false, false, &[GENERIC_TICK_SHORTABLE_DATA]);
    assert!(msg.contains("236\0"));
    let mut router = Router::new();
    assert!(router.register_request(id));
    let first = router.on_tick(&Frame::PriceTick {
        req_id: id,
        kind: TICK_BID,
        price: dec(26520, 2),
        size: dec(300, 0),
    });
    assert!(matches!(first, Some(Action::TickerCreated { req_id }) if req_id == id));
    let second = router.on_tick(&Frame::PriceTick {
        req_id: id,
        kind: TICK_ASK,
        price: dec(26540, 2),
        size: dec(200, 0),
    });
    assert!(matches!(second, Some(Action::TickerUpdated { req_id }) if req_id == id));
    router.on_tick(&Frame::GenericTick { req_id: id, kind: TICK_SHORTABLE, value: dec(30, 1) });
    let t = router.tickers.get(&id).unwrap();
    // midpoint is defined once bid and ask have arrived
    assert_eq!(t.midpoint(), Some(dec(26530, 2)));
    assert_eq!(t.short_availability, Some(ShortAvailability::Available));
}

#[test]
fn dead_ticker_evicted() {
    // after the receiver is dropped, the failed publish evicts the entry
    let mut router = Router::new();
    assert!(router.register_request(11));
    router.on_tick(&Frame::PriceTick {
        req_id: 11,
        kind: TICK_BID,
        price: dec(1, 0),
        size: dec(1, 0),
    });
    assert!(router.tickers.contains_key(&11));
    router.ticker_dead(11);
    assert!(!router.tickers.contains_key(&11));
    // further ticks for the dead ID are dropped
    let r = router.on_tick(&Frame::PriceTick {
        req_id: 11,
        kind: TICK_BID,
        price: dec(2, 0),
        size: dec(1, 0),
    });
    assert!(r.is_none());
}

#[test]
fn historical_data() {
    let mut core = ClientCore::new(4, 151);
    let end = ts(2020, 3, 1, 0, 0, 0);
    let (id, msg) = core.req_historical_data(&aapl(), &end, "1 M", "1 day", "MIDPOINT", true);
    assert!(msg.contains("20200301 00:00:00\0"));
    assert!(msg.contains("MIDPOINT\0"));
    let mut router = Router::new();
    assert!(router.register_request(id));
    let mk = |d: u32, c: i128| Bar {
        t: ts(2020, 2, d, 0, 0, 0),
        open: dec(c - 10, 2),
        high: dec(c + 20, 2),
        low: dec(c - 30, 2),
        close: dec(c, 2),
        volume: dec(1000, 0),
    };
    let series = BarSeries { bars: vec![mk(3, 30000), mk(4, 30100), mk(5, 30200)] };
    match router.on_bars(id, series) {
        Some(Action::DeliverBars { req_id, series }) => {
            assert_eq!(req_id, id);
            let bars = narrow_bars(Response::Bars(series)).unwrap();
            assert!(bars.count() > 0);
            assert!(bars.is_sorted());
        },
        _ => panic!("no bars delivered"),
    }
    // kind mismatch surfaces as a protocol error
    assert_eq!(
        narrow_bars(Response::Empty).unwrap_err(),
        RequestError::ProtocolMismatch
    );
}

#[test]
fn account_update_cycle() {
    let mut router = Router::new();
    let f = parse_frame("6\0NetLiquidation\01000000.50\0");
    assert!(matches!(f, Frame::NetLiquidation(_)));
    assert!(matches!(router.on_account_frame(f), Some(Action::AccountChanged)));
    assert_eq!(router.account.net_liquidation_value(), Some(dec(100000050, 2)));
    let g = parse_frame("6\0CashBalance\0250.00\0");
    router.on_account_frame(g);
    assert_eq!(router.account.cash_balance(), Some(dec(25000, 2)));
    // the other cells kept their values
    assert_eq!(router.account.net_liquidation_value(), Some(dec(100000050, 2)));
    router.on_account_update_end();
    assert_eq!(router.account.portfolio.as_ref().unwrap().len(), 0);
}

#[test]
fn duplicate_exec_id_replaced() {
    // a second execution with the same exec ID replaces the stale entry,
    // so its report routes once and the ID is then gone
    let mut router = Router::new();
    for oid in [5, 6] {
        assert!(router.register_request(oid));
        router.on_open_order(
            Order {
                order_id: oid,
                action: "BUY".to_string(),
                quantity: dec(1, 0),
                order_type: "MKT".to_string(),
                limit_price: None,
            },
            OrderState { status: "Submitted".to_string(), commission: None },
        );
    }
    let mk = |oid: i32| Execution {
        order_id: oid,
        exec_id: "dup.1".to_string(),
        shares: dec(1, 0),
        price: dec(10, 0),
    };
    router.on_execution(mk(5));
    router.on_execution(mk(6));
    assert_eq!(router.executions_by_exec_id.len(), 1);
    let r = router.on_commission_report(CommissionReport {
        exec_id: "dup.1".to_string(),
        commission: dec(1, 0),
    });
    assert!(matches!(r, Some(Action::TrackerUpdated { order_id: 6 })));
    assert_eq!(router.executions_by_exec_id.len(), 0);
    // a second report for the same exec ID is dropped
    let again = router.on_commission_report(CommissionReport {
        exec_id: "dup.1".to_string(),
        commission: dec(1, 0),
    });
    assert!(again.is_none());
}

#[test]
fn empty_details_batch_delivered() {
    // an end frame with nothing accumulated delivers an empty batch
    let mut router = Router::new();
    assert!(router.register_request(4));
    match router.on_contract_details_end(4) {
        Some(Action::DeliverContractDetails { req_id, details }) => {
            assert_eq!(req_id, 4);
            assert!(details.is_empty());
        },
        _ => panic!("no delivery"),
    }
}

#[test]
fn error_frame_fails_pending() {
    let mut router = Router::new();
    assert!(router.register_request(8));
    match router.on_error(8, 200, "No security definition".to_string()) {
        Some(Action::FailPending { req_id, code, message }) => {
            assert_eq!(req_id, 8);
            assert_eq!(code, 200);
            assert_eq!(message, "No security definition");
        },
        _ => panic!("pending request not failed"),
    }
    // without a pending request the error is only logged
    assert!(router.on_error(8, 200, "again".to_string()).is_none());
}

#[test]
fn narrowing_rejects_wrong_variants() {
    assert_eq!(narrow_order_tracker(Response::OrderTrackerReady(3)), Ok(3));
    assert_eq!(
        narrow_order_tracker(Response::Empty).unwrap_err(),
        RequestError::ProtocolMismatch
    );
    assert_eq!(narrow_ticker(Response::TickerReady(9)), Ok(9));
    assert_eq!(
        narrow_ticker(Response::OrderTrackerReady(9)).unwrap_err(),
        RequestError::ProtocolMismatch
    );
}

#[test]
fn market_data_type_switch() {
    let mut core = ClientCore::new(5, 151);
    let msg = core.req_market_data_type_msg(MarketDataType::Delayed);
    assert_eq!(msg.as_str(), "59\01\03\0");
    core.note_mkt_data_setting(MarketDataType::Delayed);
    assert_eq!(core.mkt_data_setting, MarketDataType::Delayed);
    let back = core.set_mkt_data_real_time();
    assert_eq!(back.as_str(), "59\01\01\0");
    assert_eq!(core.mkt_data_setting, MarketDataType::RealTime);
}

#[test]
fn registration_before_send() {
    // once submit returns, the registration is already queued
    let mut links = Links::new();
    links.submit(7, "payload".to_string());
    assert_eq!(links.registrations, vec![7]);
    assert_eq!(links.outbound.len(), 1);
}

#[test]
fn handshake_pieces() {
    assert_eq!(api_prelude().as_str(), "API\0");
    assert_eq!(version_banner(100, 151).as_str(), "v100..151");
    assert_eq!(tick_list(&[]).as_str(), "");
    assert_eq!(tick_list(&[236, 233]).as_str(), "236,233");
    let sa = short_availability_of(&dec(15, 1));
    assert_eq!(sa, ShortAvailability::Locatable);
    assert_eq!(short_availability_of(&dec(5, 1)), ShortAvailability::NotAvailable);
}

#[test]
fn order_id_fifo() {
    let mut router = Router::new();
    assert!(router.on_order_id(10).is_none());
    router.register_order_id_request();
    match router.on_order_id(10) {
        Some(Action::DeliverOrderId { id }) => assert_eq!(id, 10),
        _ => panic!("order id not delivered"),
    }
    assert!(router.on_order_id(11).is_none());
}
