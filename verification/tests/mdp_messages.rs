use market_data_link::float64::Float64;
use market_data_link::mdp_messages::{
    Bbo, CodecError, Level, MarketStatus, OrderBook, OrderBookView, Trade, WireMessage,
    BBO_WIRE_LEN, ORDER_BOOK_HEADER_LEN, ORDER_BOOK_LEVEL_LEN, SNAPSHOT_MESSAGE_TYPE,
    STATUS_MESSAGE_TYPE, STATUS_WIRE_LEN, TRADE_MESSAGE_TYPE, TRADE_WIRE_LEN,
};

fn number(value: f64) -> Float64 {
    Float64::from_bits(value.to_bits())
}

fn level(price: f64, volume: f64) -> Level {
    (number(price), number(volume))
}

fn book() -> OrderBook {
    OrderBook {
        message_type: SNAPSHOT_MESSAGE_TYPE,
        depth: 1,
        market_id: 7,
        update_id: 8,
        timestamp_mdp_in: 9,
        timestamp_matching_engine: 10,
        timestamp: 11,
        event_id: 12,
        timestamp_mdp_out: 13,
        bids: vec![level(100.0, 2.0)],
        asks: vec![level(101.0, 3.0)],
    }
}

#[test]
fn bbo_golden_vector_and_round_trip() {
    let bbo = Bbo {
        market_id: 42,
        timestamp_mdp_in: 1,
        bid: number(100.0),
        bid_volume: number(2.0),
        ask: number(101.0),
        ask_volume: number(3.0),
        event_id: 9,
        ts_mono_mdp_out: 10,
    };
    let encoded = bbo.encode_le();
    assert_eq!(&encoded[..5], &[1, 42, 0, 0, 0]);
    assert_eq!(Bbo::decode_le(&encoded).unwrap(), bbo);
}

#[test]
fn bbo_fields_stand_at_their_offsets() {
    let encoded = Bbo {
        market_id: -2,
        timestamp_mdp_in: 0x0102030405060708,
        bid: number(1.0),
        bid_volume: number(2.0),
        ask: number(-1.0),
        ask_volume: number(0.5),
        event_id: u64::MAX,
        ts_mono_mdp_out: -1,
    }
    .encode_le();
    let mut expected = vec![1u8, 0xfe, 0xff, 0xff, 0xff];
    expected.extend_from_slice(&0x0102030405060708i64.to_le_bytes());
    expected.extend_from_slice(&1.0f64.to_le_bytes());
    expected.extend_from_slice(&2.0f64.to_le_bytes());
    expected.extend_from_slice(&(-1.0f64).to_le_bytes());
    expected.extend_from_slice(&0.5f64.to_le_bytes());
    expected.extend_from_slice(&u64::MAX.to_le_bytes());
    expected.extend_from_slice(&(-1i64).to_le_bytes());
    assert_eq!(encoded.to_vec(), expected);
    assert_eq!(encoded.len(), BBO_WIRE_LEN);
}

#[test]
fn trade_and_status_golden_vectors_round_trip() {
    let trade = Trade {
        market_id: 42,
        timestamp_mdp_in: 1,
        price: number(100.0),
        quantity: number(2.0),
        side: -1,
        event_id: 9,
        ts_mono_mdp_out: 10,
    };
    let trade_bytes = trade.encode_le();
    assert_eq!(&trade_bytes[..5], &[TRADE_MESSAGE_TYPE, 42, 0, 0, 0]);
    assert_eq!(trade_bytes[29], u8::MAX);
    assert_eq!(Trade::decode_le(&trade_bytes).unwrap(), trade);
    assert_eq!(trade_bytes.len(), TRADE_WIRE_LEN);

    let status = MarketStatus {
        market_id: 7,
        timestamp_mdp_in: 11,
        state: 2,
        event_id: 12,
        ts_mono_mdp_out: 13,
    };
    let status_bytes = status.encode_le();
    assert_eq!(&status_bytes[..5], &[STATUS_MESSAGE_TYPE, 7, 0, 0, 0]);
    assert_eq!(MarketStatus::decode_le(&status_bytes).unwrap(), status);
    assert_eq!(status_bytes.len(), STATUS_WIRE_LEN);
}

#[test]
fn mdp_messages_order_book_round_trip_and_depth_validation() {
    let book = book();
    let encoded = book.encode_le().unwrap();
    assert_eq!(encoded.len(), ORDER_BOOK_HEADER_LEN + ORDER_BOOK_LEVEL_LEN);
    assert_eq!(OrderBook::decode_le(&encoded).unwrap(), book);

    let mut mismatched = book.clone();
    mismatched.asks.clear();
    assert_eq!(mismatched.encode_le(), Err(CodecError::DepthMismatch));

    let truncated = &encoded[..encoded.len() - 1];
    assert_eq!(
        OrderBook::decode_le(truncated),
        Err(CodecError::InvalidLength { expected: encoded.len(), actual: truncated.len() })
    );
}

#[test]
fn empty_order_books_are_headers() {
    let mut empty = book();
    empty.depth = 0;
    empty.bids.clear();
    empty.asks.clear();
    let encoded = empty.encode_le().unwrap();
    assert_eq!(encoded.len(), ORDER_BOOK_HEADER_LEN);
    assert_eq!(OrderBook::decode_le(&encoded).unwrap(), empty);
}

#[test]
fn order_book_buffers_are_left_alone_on_errors() {
    let levels = [level(1.0, 1.0)];
    let view = OrderBookView {
        message_type: SNAPSHOT_MESSAGE_TYPE,
        depth: 2,
        market_id: 1,
        update_id: 1,
        timestamp_mdp_in: 1,
        timestamp_matching_engine: 1,
        timestamp: 1,
        event_id: 1,
        timestamp_mdp_out: 1,
        bids: &levels,
        asks: &levels,
    };
    let mut buffer = vec![1, 2, 3];
    assert_eq!(view.encode_le_into(&mut buffer), Err(CodecError::DepthMismatch));
}

#[test]
fn fixed_codecs_reject_wrong_markers_and_lengths() {
    let mut bbo = Bbo {
        market_id: 1,
        timestamp_mdp_in: 2,
        bid: number(3.0),
        bid_volume: number(4.0),
        ask: number(5.0),
        ask_volume: number(6.0),
        event_id: 7,
        ts_mono_mdp_out: 8,
    }
    .encode_le();
    bbo[0] = TRADE_MESSAGE_TYPE;
    assert_eq!(Bbo::decode_le(&bbo), Err(CodecError::UnexpectedType(TRADE_MESSAGE_TYPE)));
    assert_eq!(
        Bbo::decode_le(&bbo[..BBO_WIRE_LEN - 1]),
        Err(CodecError::InvalidLength { expected: BBO_WIRE_LEN, actual: BBO_WIRE_LEN - 1 })
    );
}

#[test]
fn errors_are_not_data_messages() {
    assert_eq!(WireMessage::decode(&[5]).unwrap(), WireMessage::Other(vec![5]));
}

#[test]
fn nothing_is_no_message() {
    assert_eq!(WireMessage::decode(&[]), Err(CodecError::Empty));
}
