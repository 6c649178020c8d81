use market_data_link::feature_messages::{CodecError, FeatureBbo, FEATURE_BBO_WIRE_LEN};
use market_data_link::float64::Float64;

fn number(value: f64) -> Float64 {
    Float64::from_bits(value.to_bits())
}

#[test]
fn feature_bbo_golden_vector_and_round_trip() {
    let message = FeatureBbo {
        feature_id: 7,
        market_id: 42,
        timestamp_mdp_in: 1,
        bid: number(100.0),
        bid_volume: number(2.0),
        ask: number(101.0),
        ask_volume: number(3.0),
        event_id: 9,
        ts_mono_mdp_out: 10,
        mdp_received_ts_ns: 11,
        feature_start_ts_ns: 12,
        feature_done_ts_ns: 13,
        signal_bps: number(4.0),
    };
    let encoded = message.encode_le();
    assert_eq!(&encoded[..9], &[6, 7, 0, 0, 0, 42, 0, 0, 0]);
    assert_eq!(FeatureBbo::decode_le(&encoded).unwrap(), message);
}

#[test]
fn feature_bbo_rejects_wrong_marker_and_length() {
    let mut encoded = FeatureBbo {
        feature_id: 1,
        market_id: 2,
        timestamp_mdp_in: 3,
        bid: number(4.0),
        bid_volume: number(5.0),
        ask: number(6.0),
        ask_volume: number(7.0),
        event_id: 8,
        ts_mono_mdp_out: 9,
        mdp_received_ts_ns: 10,
        feature_start_ts_ns: 11,
        feature_done_ts_ns: 12,
        signal_bps: number(13.0),
    }
    .encode_le();
    encoded[0] = 1;
    assert_eq!(FeatureBbo::decode_le(&encoded), Err(CodecError::UnexpectedType(1)));
    assert_eq!(
        FeatureBbo::decode_le(&encoded[..FEATURE_BBO_WIRE_LEN - 1]),
        Err(CodecError::InvalidLength {
            expected: FEATURE_BBO_WIRE_LEN,
            actual: FEATURE_BBO_WIRE_LEN - 1,
        })
    );
}
