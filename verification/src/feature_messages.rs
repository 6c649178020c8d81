//! Binary feature message: a best bid and offer with the signal computed from it.
use vstd::prelude::*;
use crate::float64::{Float64, ONE_BITS};
use crate::mdp_messages::MarketStatus;
use crate::wire::{
    i32_at, i32_le, i64_at, i64_le, le_i32, le_i64, le_u64, lemma_u32_bytes, lemma_u64_bytes, put,
    take, u64_at, u64_le,
};

verus! {

pub const FEATURE_BBO_MESSAGE_TYPE: u8 = 6;

pub const FEATURE_BBO_WIRE_LEN: usize = 97;

/// Why a message could not be decoded.
#[derive(Debug, Clone, Copy, PartialEq, Eq, Structural)]
pub enum CodecError {
    UnexpectedType(u8),
    InvalidLength { expected: usize, actual: usize },
}

/// The verdict on the length and the type byte of a fixed-width message: the
/// length is judged first.
pub open spec fn fixed_width_error(bytes: Seq<u8>, message_type: u8, expected: usize) -> Option<
    CodecError,
> {
    if bytes.len() != expected {
        Some(CodecError::InvalidLength { expected, actual: bytes.len() as usize })
    } else if bytes[0] != message_type {
        Some(CodecError::UnexpectedType(bytes[0]))
    } else {
        None
    }
}

/// Checks the length and the type byte of a fixed-width message.
pub fn require_type_and_len(bytes: &[u8], message_type: u8, expected: usize) -> (result: Result<
    (),
    CodecError,
>)
    requires
        expected > 0,
    ensures
        result == match fixed_width_error(bytes@, message_type, expected) {
            Some(error) => Err(error),
            None => Ok(()),
        },
{
    if bytes.len() != expected {
        return Err(CodecError::InvalidLength { expected, actual: bytes.len() });
    }
    if bytes[0] != message_type {
        return Err(CodecError::UnexpectedType(bytes[0]));
    }
    Ok(())
}

/// The `N` bytes from `offset` on, or the length that would have held them.
pub fn read<const N: usize>(bytes: &[u8], offset: usize) -> (result: Result<[u8; N], CodecError>)
    requires
        offset + N <= usize::MAX,
    ensures
        match result {
            Ok(value) => offset + N <= bytes@.len() && forall|i: int|
                0 <= i < N ==> #[trigger] value@[i] == bytes@[offset + i],
            Err(error) => bytes@.len() < offset + N && error == (CodecError::InvalidLength {
                expected: (offset + N) as usize,
                actual: bytes@.len() as usize,
            }),
        },
{
    let end: usize = offset + N;
    if bytes.len() < end {
        return Err(CodecError::InvalidLength { expected: end, actual: bytes.len() });
    }
    Ok(take(bytes, offset))
}

/// Best bid and offer of a feature, with the times at which it was computed.
#[derive(Debug, Clone, Copy, PartialEq, Eq, Structural)]
pub struct FeatureBbo {
    pub feature_id: i32,
    pub market_id: i32,
    pub timestamp_mdp_in: i64,
    pub bid: Float64,
    pub bid_volume: Float64,
    pub ask: Float64,
    pub ask_volume: Float64,
    pub event_id: u64,
    pub ts_mono_mdp_out: i64,
    pub mdp_received_ts_ns: u64,
    pub feature_start_ts_ns: u64,
    pub feature_done_ts_ns: u64,
    pub signal_bps: Float64,
}

impl FeatureBbo {
    /// The bytes carry the type byte and every field at its offset.
    pub open spec fn wire_form(self, bytes: Seq<u8>) -> bool {
        &&& bytes.len() == FEATURE_BBO_WIRE_LEN
        &&& bytes[0] == FEATURE_BBO_MESSAGE_TYPE
        &&& i32_at(bytes, 1) == self.feature_id
        &&& i32_at(bytes, 5) == self.market_id
        &&& i64_at(bytes, 9) == self.timestamp_mdp_in
        &&& u64_at(bytes, 17) == self.bid.bits
        &&& u64_at(bytes, 25) == self.bid_volume.bits
        &&& u64_at(bytes, 33) == self.ask.bits
        &&& u64_at(bytes, 41) == self.ask_volume.bits
        &&& u64_at(bytes, 49) == self.event_id
        &&& i64_at(bytes, 57) == self.ts_mono_mdp_out
        &&& u64_at(bytes, 65) == self.mdp_received_ts_ns
        &&& u64_at(bytes, 73) == self.feature_start_ts_ns
        &&& u64_at(bytes, 81) == self.feature_done_ts_ns
        &&& u64_at(bytes, 89) == self.signal_bps.bits
    }

    /// What decoding gives: an error by length, then by type byte, else the fields at
    /// their offsets.
    pub open spec fn decoded(bytes: Seq<u8>) -> Result<FeatureBbo, CodecError> {
        match fixed_width_error(bytes, FEATURE_BBO_MESSAGE_TYPE, FEATURE_BBO_WIRE_LEN) {
            Some(error) => Err(error),
            None => Ok(
                FeatureBbo {
                    feature_id: i32_at(bytes, 1) as i32,
                    market_id: i32_at(bytes, 5) as i32,
                    timestamp_mdp_in: i64_at(bytes, 9) as i64,
                    bid: Float64 { bits: u64_at(bytes, 17) as u64 },
                    bid_volume: Float64 { bits: u64_at(bytes, 25) as u64 },
                    ask: Float64 { bits: u64_at(bytes, 33) as u64 },
                    ask_volume: Float64 { bits: u64_at(bytes, 41) as u64 },
                    event_id: u64_at(bytes, 49) as u64,
                    ts_mono_mdp_out: i64_at(bytes, 57) as i64,
                    mdp_received_ts_ns: u64_at(bytes, 65) as u64,
                    feature_start_ts_ns: u64_at(bytes, 73) as u64,
                    feature_done_ts_ns: u64_at(bytes, 81) as u64,
                    signal_bps: Float64 { bits: u64_at(bytes, 89) as u64 },
                },
            ),
        }
    }

    /// Writes the wire form.
    pub fn encode_le(&self) -> (bytes: [u8; FEATURE_BBO_WIRE_LEN])
        ensures
            self.wire_form(bytes@),
            FeatureBbo::decoded(bytes@) == Ok::<FeatureBbo, CodecError>(*self),
    {
        let mut bytes: [u8; FEATURE_BBO_WIRE_LEN] = [0; FEATURE_BBO_WIRE_LEN];
        bytes[0] = FEATURE_BBO_MESSAGE_TYPE;
        put(&mut bytes, 1, i32_le(self.feature_id));
        put(&mut bytes, 5, i32_le(self.market_id));
        put(&mut bytes, 9, i64_le(self.timestamp_mdp_in));
        put(&mut bytes, 17, u64_le(self.bid.bits));
        put(&mut bytes, 25, u64_le(self.bid_volume.bits));
        put(&mut bytes, 33, u64_le(self.ask.bits));
        put(&mut bytes, 41, u64_le(self.ask_volume.bits));
        put(&mut bytes, 49, u64_le(self.event_id));
        put(&mut bytes, 57, i64_le(self.ts_mono_mdp_out));
        put(&mut bytes, 65, u64_le(self.mdp_received_ts_ns));
        put(&mut bytes, 73, u64_le(self.feature_start_ts_ns));
        put(&mut bytes, 81, u64_le(self.feature_done_ts_ns));
        put(&mut bytes, 89, u64_le(self.signal_bps.bits));
        bytes
    }

    /// Reads the wire form.
    pub fn decode_le(bytes: &[u8]) -> (result: Result<FeatureBbo, CodecError>)
        ensures
            result == FeatureBbo::decoded(bytes@),
    {
        require_type_and_len(bytes, FEATURE_BBO_MESSAGE_TYPE, FEATURE_BBO_WIRE_LEN)?;
        Ok(
            FeatureBbo {
                feature_id: le_i32(read(bytes, 1)?),
                market_id: le_i32(read(bytes, 5)?),
                timestamp_mdp_in: le_i64(read(bytes, 9)?),
                bid: Float64::from_bits(le_u64(read(bytes, 17)?)),
                bid_volume: Float64::from_bits(le_u64(read(bytes, 25)?)),
                ask: Float64::from_bits(le_u64(read(bytes, 33)?)),
                ask_volume: Float64::from_bits(le_u64(read(bytes, 41)?)),
                event_id: le_u64(read(bytes, 49)?),
                ts_mono_mdp_out: le_i64(read(bytes, 57)?),
                mdp_received_ts_ns: le_u64(read(bytes, 65)?),
                feature_start_ts_ns: le_u64(read(bytes, 73)?),
                feature_done_ts_ns: le_u64(read(bytes, 81)?),
                signal_bps: Float64::from_bits(le_u64(read(bytes, 89)?)),
            },
        )
    }

    /// The neutral quote that follows a status change of the market: bid and ask stand
    /// at one with no volume behind them, and the signal is zero. The event keeps its
    /// identifier and its arrival time.
    pub fn neutral_for_status(
        feature_id: i32,
        status: &MarketStatus,
        ts_mono_mdp_out: i64,
        mdp_received_ts_ns: u64,
        feature_start_ts_ns: u64,
        feature_done_ts_ns: u64,
    ) -> (neutral: FeatureBbo)
        ensures
            neutral == (FeatureBbo {
                feature_id,
                market_id: status.market_id,
                timestamp_mdp_in: status.timestamp_mdp_in,
                bid: Float64 { bits: ONE_BITS },
                bid_volume: Float64 { bits: 0 },
                ask: Float64 { bits: ONE_BITS },
                ask_volume: Float64 { bits: 0 },
                event_id: status.event_id,
                ts_mono_mdp_out,
                mdp_received_ts_ns,
                feature_start_ts_ns,
                feature_done_ts_ns,
                signal_bps: Float64 { bits: 0 },
            }),
    {
        FeatureBbo {
            feature_id,
            market_id: status.market_id,
            timestamp_mdp_in: status.timestamp_mdp_in,
            bid: Float64::from_bits(ONE_BITS),
            bid_volume: Float64::from_bits(0),
            ask: Float64::from_bits(ONE_BITS),
            ask_volume: Float64::from_bits(0),
            event_id: status.event_id,
            ts_mono_mdp_out,
            mdp_received_ts_ns,
            feature_start_ts_ns,
            feature_done_ts_ns,
            signal_bps: Float64::from_bits(0),
        }
    }
}

/// The codec of FeatureBbo loses nothing: bytes are the wire form of a message exactly
/// when decoding them gives that message back.
pub proof fn law_feature_bbo_round_trip(message: FeatureBbo, bytes: Seq<u8>)
    ensures
        message.wire_form(bytes) <==> FeatureBbo::decoded(bytes) == Ok::<FeatureBbo, CodecError>(message),
{
}

/// A FeatureBbo has one wire form only.
pub proof fn law_feature_bbo_wire_form_is_unique(message: FeatureBbo, left: Seq<u8>, right: Seq<u8>)
    requires
        message.wire_form(left),
        message.wire_form(right),
    ensures
        left == right,
{
    lemma_u32_bytes(left, right, 1);
    lemma_u32_bytes(left, right, 5);
    lemma_u64_bytes(left, right, 9);
    lemma_u64_bytes(left, right, 17);
    lemma_u64_bytes(left, right, 25);
    lemma_u64_bytes(left, right, 33);
    lemma_u64_bytes(left, right, 41);
    lemma_u64_bytes(left, right, 49);
    lemma_u64_bytes(left, right, 57);
    lemma_u64_bytes(left, right, 65);
    lemma_u64_bytes(left, right, 73);
    lemma_u64_bytes(left, right, 81);
    lemma_u64_bytes(left, right, 89);
    assert(left =~= right);
}

} // verus!
