use market_data_link::codec::{
    Bbo, CodecError, FeatureBbo, Level, MarketStatus, OrderBook, OrderBookView, Trade, WireMessage,
    BBO_WIRE_LEN, FEATURE_BBO_WIRE_LEN, ORDER_BOOK_HEADER_LEN, ORDER_BOOK_LEVEL_LEN,
    SNAPSHOT_MESSAGE_TYPE, STATUS_WIRE_LEN,
};
use market_data_link::float64::Float64;
use market_data_link::protocol::{
    AeronChannel, AeronConfig, ClientTransportConfig, ControlOperation, ControlReply,
    ControlRequest, ProtocolError, SelectTransport, SelectTransportOperation, SocketAddress,
    SubscriptionArg, SubscriptionKey, TransportSelection,
};
use market_data_link::server_messages::{ControlEvent, StreamError};

fn number(value: f64) -> Float64 {
    Float64::from_bits(value.to_bits())
}

fn level(price: f64, volume: f64) -> Level {
    (number(price), number(volume))
}

fn with_threshold(id: Vec<i32>, stream: &str, threshold: f64) -> SubscriptionArg {
    let mut arg = SubscriptionArg::new(id, stream);
    arg.noise_filter_bps = Some(number(threshold));
    arg
}

#[test]
fn canonical_feature_subscription() {
    let request = ControlRequest::subscribe(vec![SubscriptionArg::new(vec![101], "feature")]);
    assert_eq!(request.op, ControlOperation::Subscribe);
    assert_eq!(request.args[0].id, vec![101]);
    assert_eq!(request.args[0].stream, "feature");
    assert!(request.validate().is_ok());
    assert_eq!(request.clone(), request);
}

#[test]
fn protocol_validation_rejects_empty_and_invalid_values() {
    assert!(ControlRequest::subscribe(vec![SubscriptionArg::new(vec![], "bbo")])
        .validate()
        .is_err());
    assert!(ControlRequest::subscribe(vec![SubscriptionArg::new(vec![1], "")])
        .validate()
        .is_err());
    let mut arg = SubscriptionArg::new(vec![1], "bbo");
    arg.noise_filter_bps = Some(number(f64::NAN));
    assert!(ControlRequest::subscribe(vec![arg]).validate().is_err());
}

#[test]
fn invalid_subscriptions_are_rejected() {
    assert_eq!(ControlRequest::subscribe(Vec::new()).validate(), Err(ProtocolError::EmptyArgs));
    assert_eq!(
        SubscriptionArg::new(vec![], "bbo").validate(),
        Err(ProtocolError::EmptyIds)
    );
}

#[test]
fn each_rule_has_its_error() {
    assert_eq!(
        SubscriptionArg::new(vec![1], " \t\u{3000}").validate(),
        Err(ProtocolError::EmptyStream)
    );
    for threshold in [f64::NAN, f64::INFINITY, -1.0, -f64::MIN_POSITIVE] {
        assert_eq!(
            with_threshold(vec![1], "bbo", threshold).validate(),
            Err(ProtocolError::InvalidNoiseFilter)
        );
    }
    for threshold in [0.0, -0.0, 5.0, f64::MAX] {
        assert_eq!(with_threshold(vec![1], "bbo", threshold).validate(), Ok(()));
    }
    assert_eq!(
        ControlRequest {
            op: ControlOperation::RefetchBbo,
            args: vec![
                SubscriptionArg::new(vec![1], "bbo"),
                SubscriptionArg::new(vec![1], "trades"),
            ],
        }
        .validate(),
        Err(ProtocolError::InvalidRefetchStream)
    );
    assert_eq!(ControlRequest::refetch_bbo(vec![1, 2]).validate(), Ok(()));
    assert_eq!(
        ProtocolError::InvalidNoiseFilter.message(),
        "noise_filter_bps must be finite and non-negative"
    );
    assert_eq!(ProtocolError::EmptyArgs.message(), "control request args cannot be empty");
    assert_eq!(ProtocolError::EmptyIds.message(), "subscription ids cannot be empty");
    assert_eq!(ProtocolError::EmptyStream.message(), "subscription stream cannot be empty");
    assert_eq!(
        ProtocolError::InvalidRefetchStream.message(),
        "refetch_bbo only supports the bbo stream"
    );
}

#[test]
fn keys_are_sorted_and_named_once() {
    let request = ControlRequest::subscribe(vec![
        SubscriptionArg::new(vec![2, 1, 2], "bbo"),
        with_threshold(vec![1], "bbo", 1.0),
        SubscriptionArg::new(vec![1], "b"),
    ]);
    let keys = request.keys();
    let mut sorted = keys.clone();
    sorted.sort();
    sorted.dedup();
    assert_eq!(keys, sorted);
    assert_eq!(
        keys,
        vec![
            SubscriptionKey::new(1, "b"),
            SubscriptionKey::new(1, "bbo"),
            SubscriptionKey {
                id: 1,
                stream: "bbo".to_string(),
                noise_filter_bps_bits: Some(1.0f64.to_bits()),
            },
            SubscriptionKey::new(2, "bbo"),
        ]
    );
    assert_eq!(keys[2].noise_filter_bps(), Some(number(1.0)));
    assert_eq!(keys[2].as_arg().keys(), vec![keys[2].clone()]);
}

#[test]
fn granted_requests_are_echoed() {
    let args = vec![SubscriptionArg::new(vec![1], "bbo")];
    assert_eq!(
        ControlReply::for_request(&ControlRequest::subscribe(args.clone())),
        ControlReply::Subscribed { args: args.clone() }
    );
    assert_eq!(
        ControlReply::for_request(&ControlRequest::unsubscribe(args.clone())),
        ControlReply::Unsubscribed { args: args.clone() }
    );
    assert_eq!(
        ControlReply::for_request(&ControlRequest::refetch_bbo(vec![1])),
        ControlReply::Refetched { args }
    );
    assert_eq!(ControlReply::error("no"), ControlReply::Error { message: "no".to_string() });
}

#[test]
fn channels_are_written_in_aeron_notation() {
    assert_eq!(AeronChannel::ipc().to_channel_string(), "aeron:ipc");
    assert_eq!(
        AeronChannel::udp("127.0.0.1", 40101).to_channel_string(),
        "aeron:udp?endpoint=127.0.0.1:40101"
    );
    assert_eq!(AeronChannel::udp("h", 0).to_channel_string(), "aeron:udp?endpoint=h:0");
}

#[test]
fn aeron_transports_have_a_configuration() {
    let endpoint = SocketAddress::new("10.0.0.1", 9000);
    let config = AeronConfig {
        aeron_channel: AeronChannel::udp("10.0.0.1", 9000),
        stream_id: 7,
    };
    let transport = ClientTransportConfig::AeronUdp { endpoint: endpoint.clone(), stream_id: 7 };
    assert!(transport.is_aeron());
    assert_eq!(transport.aeron_config(), Some(config.clone()));
    let selection = TransportSelection::AeronUdp { endpoint, stream_id: 7 };
    assert_eq!(selection.aeron_config(), Some(config));
    assert_eq!(
        ClientTransportConfig::AeronIpc { stream_id: 3 }.aeron_config(),
        Some(AeronConfig { aeron_channel: AeronChannel::Ipc, stream_id: 3 })
    );
    assert_eq!(ClientTransportConfig::WebSocket.aeron_config(), None);
    assert!(!ClientTransportConfig::Udp.is_aeron());
    assert_eq!(TransportSelection::Udp { client_port: 4000 }.aeron_config(), None);
    assert_eq!(
        SelectTransport::new(TransportSelection::WebSocket).op,
        SelectTransportOperation::SelectTransport
    );
}

#[test]
fn runtime_stream_errors_are_distinct_from_request_errors() {
    let error = StreamError {
        id: Some(42),
        stream: Some("bbo".to_string()),
        severity: 3,
        message: "exchange disconnected".to_string(),
        timestamp: 123,
    };
    assert_eq!(ControlEvent::stream_error(error.clone()).into_stream_error(), error);
}

#[test]
fn bbo_round_trip_matches_wire_layout() {
    let value = Bbo {
        market_id: 42,
        timestamp_mdp_in: 123,
        bid: number(10.0),
        bid_volume: number(2.0),
        ask: number(11.0),
        ask_volume: number(3.0),
        event_id: 99,
        ts_mono_mdp_out: 456,
    };
    let encoded = value.encode_le();
    assert_eq!(encoded.len(), BBO_WIRE_LEN);
    assert_eq!(Bbo::decode_le(&encoded).unwrap(), value);
    assert_eq!(WireMessage::decode(&encoded).unwrap(), WireMessage::Bbo(value));
}

#[test]
fn trade_round_trip_matches_wire_layout() {
    let value = Trade {
        market_id: 8,
        timestamp_mdp_in: 123,
        price: number(10.5),
        quantity: number(7.0),
        side: -1,
        event_id: 100,
        ts_mono_mdp_out: 789,
    };
    assert_eq!(Trade::decode_le(&value.encode_le()).unwrap(), value);
}

#[test]
fn protocol_and_codecs_order_book_round_trip_and_depth_validation() {
    let value = OrderBook {
        message_type: 3,
        depth: 1,
        market_id: 9,
        update_id: 10,
        timestamp_mdp_in: 11,
        timestamp_matching_engine: 12,
        timestamp: 13,
        event_id: 14,
        timestamp_mdp_out: 15,
        bids: vec![level(100.0, 2.0)],
        asks: vec![level(101.0, 3.0)],
    };
    let encoded = value.encode_le().unwrap();
    assert_eq!(OrderBook::decode_le(&encoded).unwrap(), value);

    let mut invalid = value;
    invalid.depth = 5;
    assert_eq!(invalid.encode_le().unwrap_err(), CodecError::DepthMismatch);
}

#[test]
fn order_book_view_reuses_caller_owned_encoding_buffer() {
    let bids = [level(100.0, 2.0), level(99.0, 3.0)];
    let asks = [level(101.0, 4.0), level(102.0, 5.0)];
    let view = OrderBookView {
        message_type: SNAPSHOT_MESSAGE_TYPE,
        depth: 2,
        market_id: 42,
        update_id: 9,
        timestamp_mdp_in: 10,
        timestamp_matching_engine: 11,
        timestamp: 12,
        event_id: 13,
        timestamp_mdp_out: 14,
        bids: &bids,
        asks: &asks,
    };
    let mut buffer = Vec::with_capacity(ORDER_BOOK_HEADER_LEN + 2 * ORDER_BOOK_LEVEL_LEN);
    view.encode_le_into(&mut buffer).unwrap();
    let allocation = buffer.as_ptr();
    view.encode_le_into(&mut buffer).unwrap();

    assert_eq!(buffer.as_ptr(), allocation);
    assert_eq!(OrderBook::decode_le(&buffer).unwrap().bids, bids);
}

#[test]
fn feature_bbo_round_trip_matches_te_layout() {
    let value = FeatureBbo {
        feature_id: 101,
        market_id: 42,
        timestamp_mdp_in: 1,
        bid: number(2.0),
        bid_volume: number(3.0),
        ask: number(4.0),
        ask_volume: number(5.0),
        event_id: 6,
        ts_mono_mdp_out: 7,
        mdp_received_ts_ns: 8,
        feature_start_ts_ns: 9,
        feature_done_ts_ns: 10,
        signal_bps: number(11.0),
    };
    let encoded = value.encode_le();
    assert_eq!(encoded.len(), FEATURE_BBO_WIRE_LEN);
    assert_eq!(FeatureBbo::decode_le(&encoded).unwrap(), value);
    assert_eq!(WireMessage::decode(&encoded).unwrap(), WireMessage::FeatureBbo(value));
}

#[test]
fn malformed_fixed_width_messages_are_rejected() {
    assert!(matches!(Bbo::decode_le(&[1; 12]), Err(CodecError::InvalidLength { .. })));
    assert!(WireMessage::decode(&[]).is_err());
    assert_eq!(
        WireMessage::decode(&[6, 1]),
        Err(CodecError::InvalidLength { expected: FEATURE_BBO_WIRE_LEN, actual: 2 })
    );
}

#[test]
fn market_status_round_trip_preserves_reset_event_context() {
    let value = MarketStatus {
        market_id: 42,
        timestamp_mdp_in: 1_700_000_000_000_000,
        state: 0x4000,
        event_id: 77,
        ts_mono_mdp_out: 99,
    };
    let encoded = value.encode_le();
    assert_eq!(encoded.len(), STATUS_WIRE_LEN);
    assert_eq!(MarketStatus::decode_le(&encoded).unwrap(), value);
    assert_eq!(WireMessage::decode(&encoded).unwrap(), WireMessage::Status(value));

    let neutral = FeatureBbo::neutral_for_status(101, &value, 100, 101, 102, 103);
    assert_eq!(neutral.feature_id, 101);
    assert_eq!(neutral.market_id, 42);
    assert_eq!((neutral.bid, neutral.ask), (number(1.0), number(1.0)));
    assert_eq!(neutral.signal_bps, number(0.0));
    assert_eq!(neutral.event_id, value.event_id);
}

#[test]
fn mock_market_status_resets_fm_and_propagates_neutral_feature_to_te() {
    let status = MarketStatus {
        market_id: 42,
        timestamp_mdp_in: 10,
        state: 0x4000,
        event_id: 11,
        ts_mono_mdp_out: 12,
    };
    assert!(matches!(
        WireMessage::decode(&status.encode_le()).unwrap(),
        WireMessage::Status(decoded) if decoded.market_id == 42
    ));

    let neutral = FeatureBbo::neutral_for_status(101, &status, 13, 14, 15, 16);
    assert_eq!((neutral.bid, neutral.ask), (number(1.0), number(1.0)));

    let bytes = neutral.encode_le();
    assert!(matches!(
        WireMessage::decode(&bytes).unwrap(),
        WireMessage::FeatureBbo(feature)
            if feature.feature_id == 101
                && feature.market_id == 42
                && feature.bid == number(1.0)
                && feature.ask == number(1.0)
    ));
}
