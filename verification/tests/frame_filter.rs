use market_data_link::codec::{Bbo, MarketStatus, OrderBook, Trade, SNAPSHOT_MESSAGE_TYPE};
use market_data_link::float64::Float64;
use market_data_link::frame_filter::{
    price_moved_bps, FrameFilter, BBO_REFRESH_INTERVAL,
};
use market_data_link::protocol::{ControlRequest, SubscriptionArg, SubscriptionKey};

fn number(value: f64) -> Float64 {
    Float64::from_bits(value.to_bits())
}

fn value(number: Float64) -> f64 {
    f64::from_bits(number.to_bits())
}

fn reaches(previous: Float64, current: Float64, threshold_bps: Float64) -> bool {
    let (previous, current) = (value(previous), value(current));
    ((current - previous).abs() / previous.abs()) * 10_000.0 >= value(threshold_bps)
}

fn bbo(market_id: i32, bid: f64, ask: f64) -> Vec<u8> {
    Bbo {
        market_id,
        timestamp_mdp_in: 1,
        bid: number(bid),
        bid_volume: number(2.0),
        ask: number(ask),
        ask_volume: number(3.0),
        event_id: 4,
        ts_mono_mdp_out: 5,
    }
    .encode_le()
    .to_vec()
}

fn trade(market_id: i32, price: f64) -> Vec<u8> {
    Trade {
        market_id,
        timestamp_mdp_in: 1,
        price: number(price),
        quantity: number(1.0),
        side: 1,
        event_id: 4,
        ts_mono_mdp_out: 5,
    }
    .encode_le()
    .to_vec()
}

fn filtered(id: Vec<i32>, stream: &str, threshold: f64) -> ControlRequest {
    ControlRequest::subscribe(vec![SubscriptionArg {
        id,
        stream: stream.to_string(),
        noise_filter_bps: Some(number(threshold)),
    }])
}

const MILLIS: u128 = 1_000_000;
const START: u128 = 5_000_000_000;

#[test]
fn shared_stream_frames_are_filtered_per_client_and_noise_threshold() {
    let mut filter = FrameFilter::new();
    filter.apply(&filtered(vec![101], "bbo", 10.0));

    assert!(filter.accepts_at(&bbo(101, 100.0, 101.0), START, &reaches));
    assert!(!filter.accepts_at(&bbo(101, 100.05, 101.05), START + 10 * MILLIS, &reaches));
    assert!(filter.accepts_at(&bbo(101, 100.2, 101.2), START + 20 * MILLIS, &reaches));
    assert!(!filter.accepts_at(&bbo(202, 100.0, 101.0), START + 30 * MILLIS, &reaches));
    assert!(!filter.accepts(&[1, 101, 0, 0, 0], START, &reaches));
    assert!(!filter.accepts(&[99, 1, 2, 3], START, &reaches));
}

#[test]
fn market_status_is_delivered_by_market_and_resets_noise_state() {
    let mut filter = FrameFilter::new();
    filter.apply(&filtered(vec![101], "bbo", 10.0));
    assert!(filter.accepts(&bbo(101, 100.0, 101.0), START, &reaches));
    assert!(!filter.accepts(&bbo(101, 100.01, 101.01), START, &reaches));

    let status = MarketStatus {
        market_id: 101,
        timestamp_mdp_in: 2,
        state: 3,
        event_id: 4,
        ts_mono_mdp_out: 5,
    }
    .encode_le();
    assert!(filter.accepts(&status, START, &reaches));
    assert!(filter.accepts(&bbo(101, 100.01, 101.01), START, &reaches));
}

#[test]
fn quotes_are_refreshed_after_the_interval() {
    let mut filter = FrameFilter::new();
    filter.apply(&filtered(vec![101], "bbo", 10.0));
    let frame = bbo(101, 100.0, 101.0);
    assert!(filter.accepts(&frame, START, &reaches));
    assert!(!filter.accepts(&frame, START + BBO_REFRESH_INTERVAL - 1, &reaches));
    assert!(filter.accepts(&frame, START + BBO_REFRESH_INTERVAL, &reaches));
    assert!(!filter.accepts(&frame, START + BBO_REFRESH_INTERVAL + 1, &reaches));
}

#[test]
fn trades_are_not_refreshed() {
    let mut filter = FrameFilter::new();
    filter.apply(&filtered(vec![5], "trades", 10.0));
    assert!(filter.accepts(&trade(5, 100.0), START, &reaches));
    assert!(!filter.accepts(&trade(5, 100.0), START + 10 * BBO_REFRESH_INTERVAL, &reaches));
    assert!(filter.accepts(&trade(5, 101.0), START + 10 * BBO_REFRESH_INTERVAL, &reaches));
}

#[test]
fn order_books_are_routed_by_depth() {
    let book = OrderBook {
        message_type: SNAPSHOT_MESSAGE_TYPE,
        depth: 10,
        market_id: 7,
        update_id: 8,
        timestamp_mdp_in: 9,
        timestamp_matching_engine: 10,
        timestamp: 11,
        event_id: 12,
        timestamp_mdp_out: 13,
        bids: vec![(number(1.0), number(1.0)); 10],
        asks: vec![(number(2.0), number(1.0)); 10],
    }
    .encode_le()
    .unwrap();
    let mut filter = FrameFilter::new();
    filter.apply(&ControlRequest::subscribe(vec![SubscriptionArg::new(vec![7], "orderbook.1")]));
    assert!(!filter.accepts(&book, START, &reaches));
    filter.apply(&ControlRequest::subscribe(vec![SubscriptionArg::new(vec![7], "orderbook.10")]));
    assert!(filter.accepts(&book, START, &reaches));
}

#[test]
fn the_highest_threshold_of_a_request_counts() {
    let mut filter = FrameFilter::new();
    let mut request = filtered(vec![1], "trades", 1.0);
    request.args.push(SubscriptionArg::new(vec![1], "trades"));
    request.args.push(filtered(vec![1], "trades", 1000.0).args[0].clone());
    filter.apply(&request);
    assert!(filter.accepts(&trade(1, 100.0), START, &reaches));
    assert!(!filter.accepts(&trade(1, 101.0), START, &reaches));
    filter.apply(&ControlRequest::subscribe(vec![SubscriptionArg::new(vec![1], "trades")]));
    assert!(filter.accepts(&trade(1, 101.0), START, &reaches));
    assert!(filter.accepts(&trade(1, 101.0), START, &reaches));
}

#[test]
fn unsubscribing_drops_the_route_at_any_threshold() {
    let mut filter = FrameFilter::new();
    filter.apply(&filtered(vec![1, 2], "trades", 1.0));
    filter.apply(&ControlRequest::unsubscribe(vec![SubscriptionArg::new(vec![1], "trades")]));
    assert!(!filter.accepts(&trade(1, 100.0), START, &reaches));
    assert!(filter.accepts(&trade(2, 100.0), START, &reaches));
    filter.apply(&ControlRequest::refetch_bbo(vec![2]));
    filter.replace_subscriptions(&vec![SubscriptionKey::new(1, "trades")]);
    assert!(filter.accepts(&trade(1, 100.0), START, &reaches));
    assert!(!filter.accepts(&trade(2, 100.0), START, &reaches));
}

#[test]
fn moves_without_a_ratio_count() {
    let moved = |previous: f64, current: f64, threshold: f64| {
        price_moved_bps(number(previous), number(current), number(threshold), &reaches)
    };
    assert!(moved(100.0, 100.0, 0.0));
    assert!(moved(100.0, 100.0, -0.0));
    assert!(!moved(100.0, 100.0, 0.1));
    assert!(!moved(0.0, -0.0, 0.1));
    assert!(moved(0.0, 1.0, 1e9));
    assert!(moved(f64::NAN, 1.0, 1e9));
    assert!(moved(f64::NAN, f64::NAN, 1e9));
    assert!(moved(1.0, f64::INFINITY, 1e9));
    assert!(moved(100.0, 100.5, 50.0));
    assert!(!moved(100.0, 100.5, 51.0));
    assert!(moved(-100.0, -101.0, 100.0));
}
