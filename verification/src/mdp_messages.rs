//! Binary market-data messages.
//!
//! Every message starts with a type byte; all integers are little-endian and
//! prices travel as the bits of doubles.
use vstd::prelude::*;
use vstd::slice::slice_to_vec;
use crate::float64::Float64;
use crate::wire::{
    i32_at, i32_le, i64_at, i64_le, i8_at, i8_le, le_i32, le_i64, le_i8, le_u16, le_u64,
    lemma_u16_bytes, lemma_u32_bytes, lemma_u64_bytes, put, take, u16_at, u16_le, u64_at, u64_le,
};

verus! {

pub const STATUS_MESSAGE_TYPE: u8 = 0;

pub const BBO_MESSAGE_TYPE: u8 = 1;

pub const TRADE_MESSAGE_TYPE: u8 = 2;

pub const SNAPSHOT_MESSAGE_TYPE: u8 = 3;

pub const DEPTH_UPDATE_MESSAGE_TYPE: u8 = 4;

pub const BBO_WIRE_LEN: usize = 61;

pub const TRADE_WIRE_LEN: usize = 46;

pub const ORDER_BOOK_HEADER_LEN: usize = 55;

pub const ORDER_BOOK_LEVEL_LEN: usize = 32;

pub const STATUS_WIRE_LEN: usize = 31;

/// Why a message could not be encoded or decoded.
#[derive(Debug, Clone, Copy, PartialEq, Eq, Structural)]
pub enum CodecError {
    Empty,
    UnexpectedType(u8),
    InvalidLength { expected: usize, actual: usize },
    DepthMismatch,
}

/// The verdict on the length and the type byte of a fixed-width message: the
/// length is judged first.
pub open spec fn fixed_width_error(bytes: Seq<u8>, message_type: u8, expected: usize) -> Option<
    CodecError,
> {
    if bytes.len() != expected {
        Some(CodecError::InvalidLength { expected, actual: bytes.len() as usize })
    } else if bytes[0] != message_type {
        Some(CodecError::UnexpectedType(bytes[0]))
    } else {
        None
    }
}

/// Checks the length and the type byte of a fixed-width message.
pub fn require_type_and_len(bytes: &[u8], message_type: u8, expected: usize) -> (result: Result<
    (),
    CodecError,
>)
    requires
        expected > 0,
    ensures
        result == match fixed_width_error(bytes@, message_type, expected) {
            Some(error) => Err(error),
            None => Ok(()),
        },
{
    if bytes.len() != expected {
        return Err(CodecError::InvalidLength { expected, actual: bytes.len() });
    }
    if bytes[0] != message_type {
        return Err(CodecError::UnexpectedType(bytes[0]));
    }
    Ok(())
}

/// The `N` bytes from `offset` on, or the length that would have held them.
pub fn read<const N: usize>(bytes: &[u8], offset: usize) -> (result: Result<[u8; N], CodecError>)
    requires
        offset + N <= usize::MAX,
    ensures
        match result {
            Ok(value) => offset + N <= bytes@.len() && forall|i: int|
                0 <= i < N ==> #[trigger] value@[i] == bytes@[offset + i],
            Err(error) => bytes@.len() < offset + N && error == (CodecError::InvalidLength {
                expected: (offset + N) as usize,
                actual: bytes@.len() as usize,
            }),
        },
{
    let end: usize = offset + N;
    if bytes.len() < end {
        return Err(CodecError::InvalidLength { expected: end, actual: bytes.len() });
    }
    Ok(take(bytes, offset))
}

/// Best bid and offer of a market.
#[derive(Debug, Clone, Copy, PartialEq, Eq, Structural)]
pub struct Bbo {
    pub market_id: i32,
    pub timestamp_mdp_in: i64,
    pub bid: Float64,
    pub bid_volume: Float64,
    pub ask: Float64,
    pub ask_volume: Float64,
    pub event_id: u64,
    pub ts_mono_mdp_out: i64,
}

impl Bbo {
    /// The bytes carry the type byte and every field at its offset.
    pub open spec fn wire_form(self, bytes: Seq<u8>) -> bool {
        &&& bytes.len() == BBO_WIRE_LEN
        &&& bytes[0] == BBO_MESSAGE_TYPE
        &&& i32_at(bytes, 1) == self.market_id
        &&& i64_at(bytes, 5) == self.timestamp_mdp_in
        &&& u64_at(bytes, 13) == self.bid.bits
        &&& u64_at(bytes, 21) == self.bid_volume.bits
        &&& u64_at(bytes, 29) == self.ask.bits
        &&& u64_at(bytes, 37) == self.ask_volume.bits
        &&& u64_at(bytes, 45) == self.event_id
        &&& i64_at(bytes, 53) == self.ts_mono_mdp_out
    }

    /// What decoding gives: an error by length, then by type byte, else the fields at
    /// their offsets.
    pub open spec fn decoded(bytes: Seq<u8>) -> Result<Bbo, CodecError> {
        match fixed_width_error(bytes, BBO_MESSAGE_TYPE, BBO_WIRE_LEN) {
            Some(error) => Err(error),
            None => Ok(
                Bbo {
                    market_id: i32_at(bytes, 1) as i32,
                    timestamp_mdp_in: i64_at(bytes, 5) as i64,
                    bid: Float64 { bits: u64_at(bytes, 13) as u64 },
                    bid_volume: Float64 { bits: u64_at(bytes, 21) as u64 },
                    ask: Float64 { bits: u64_at(bytes, 29) as u64 },
                    ask_volume: Float64 { bits: u64_at(bytes, 37) as u64 },
                    event_id: u64_at(bytes, 45) as u64,
                    ts_mono_mdp_out: i64_at(bytes, 53) as i64,
                },
            ),
        }
    }

    /// Writes the wire form.
    pub fn encode_le(&self) -> (bytes: [u8; BBO_WIRE_LEN])
        ensures
            self.wire_form(bytes@),
            Bbo::decoded(bytes@) == Ok::<Bbo, CodecError>(*self),
    {
        let mut bytes: [u8; BBO_WIRE_LEN] = [0; BBO_WIRE_LEN];
        bytes[0] = BBO_MESSAGE_TYPE;
        put(&mut bytes, 1, i32_le(self.market_id));
        put(&mut bytes, 5, i64_le(self.timestamp_mdp_in));
        put(&mut bytes, 13, u64_le(self.bid.bits));
        put(&mut bytes, 21, u64_le(self.bid_volume.bits));
        put(&mut bytes, 29, u64_le(self.ask.bits));
        put(&mut bytes, 37, u64_le(self.ask_volume.bits));
        put(&mut bytes, 45, u64_le(self.event_id));
        put(&mut bytes, 53, i64_le(self.ts_mono_mdp_out));
        bytes
    }

    /// Reads the wire form.
    pub fn decode_le(bytes: &[u8]) -> (result: Result<Bbo, CodecError>)
        ensures
            result == Bbo::decoded(bytes@),
    {
        require_type_and_len(bytes, BBO_MESSAGE_TYPE, BBO_WIRE_LEN)?;
        Ok(
            Bbo {
                market_id: le_i32(read(bytes, 1)?),
                timestamp_mdp_in: le_i64(read(bytes, 5)?),
                bid: Float64::from_bits(le_u64(read(bytes, 13)?)),
                bid_volume: Float64::from_bits(le_u64(read(bytes, 21)?)),
                ask: Float64::from_bits(le_u64(read(bytes, 29)?)),
                ask_volume: Float64::from_bits(le_u64(read(bytes, 37)?)),
                event_id: le_u64(read(bytes, 45)?),
                ts_mono_mdp_out: le_i64(read(bytes, 53)?),
            },
        )
    }
}

/// The codec of Bbo loses nothing: bytes are the wire form of a message exactly
/// when decoding them gives that message back.
pub proof fn law_bbo_round_trip(message: Bbo, bytes: Seq<u8>)
    ensures
        message.wire_form(bytes) <==> Bbo::decoded(bytes) == Ok::<Bbo, CodecError>(message),
{
}

/// A Bbo has one wire form only.
pub proof fn law_bbo_wire_form_is_unique(message: Bbo, left: Seq<u8>, right: Seq<u8>)
    requires
        message.wire_form(left),
        message.wire_form(right),
    ensures
        left == right,
{
    lemma_u32_bytes(left, right, 1);
    lemma_u64_bytes(left, right, 5);
    lemma_u64_bytes(left, right, 13);
    lemma_u64_bytes(left, right, 21);
    lemma_u64_bytes(left, right, 29);
    lemma_u64_bytes(left, right, 37);
    lemma_u64_bytes(left, right, 45);
    lemma_u64_bytes(left, right, 53);
    assert(left =~= right);
}

/// One trade of a market; `side` is signed.
#[derive(Debug, Clone, Copy, PartialEq, Eq, Structural)]
pub struct Trade {
    pub market_id: i32,
    pub timestamp_mdp_in: i64,
    pub price: Float64,
    pub quantity: Float64,
    pub side: i8,
    pub event_id: u64,
    pub ts_mono_mdp_out: i64,
}

impl Trade {
    /// The bytes carry the type byte and every field at its offset.
    pub open spec fn wire_form(self, bytes: Seq<u8>) -> bool {
        &&& bytes.len() == TRADE_WIRE_LEN
        &&& bytes[0] == TRADE_MESSAGE_TYPE
        &&& i32_at(bytes, 1) == self.market_id
        &&& i64_at(bytes, 5) == self.timestamp_mdp_in
        &&& u64_at(bytes, 13) == self.price.bits
        &&& u64_at(bytes, 21) == self.quantity.bits
        &&& i8_at(bytes, 29) == self.side
        &&& u64_at(bytes, 30) == self.event_id
        &&& i64_at(bytes, 38) == self.ts_mono_mdp_out
    }

    /// What decoding gives: an error by length, then by type byte, else the fields at
    /// their offsets.
    pub open spec fn decoded(bytes: Seq<u8>) -> Result<Trade, CodecError> {
        match fixed_width_error(bytes, TRADE_MESSAGE_TYPE, TRADE_WIRE_LEN) {
            Some(error) => Err(error),
            None => Ok(
                Trade {
                    market_id: i32_at(bytes, 1) as i32,
                    timestamp_mdp_in: i64_at(bytes, 5) as i64,
                    price: Float64 { bits: u64_at(bytes, 13) as u64 },
                    quantity: Float64 { bits: u64_at(bytes, 21) as u64 },
                    side: i8_at(bytes, 29) as i8,
                    event_id: u64_at(bytes, 30) as u64,
                    ts_mono_mdp_out: i64_at(bytes, 38) as i64,
                },
            ),
        }
    }

    /// Writes the wire form.
    pub fn encode_le(&self) -> (bytes: [u8; TRADE_WIRE_LEN])
        ensures
            self.wire_form(bytes@),
            Trade::decoded(bytes@) == Ok::<Trade, CodecError>(*self),
    {
        let mut bytes: [u8; TRADE_WIRE_LEN] = [0; TRADE_WIRE_LEN];
        bytes[0] = TRADE_MESSAGE_TYPE;
        put(&mut bytes, 1, i32_le(self.market_id));
        put(&mut bytes, 5, i64_le(self.timestamp_mdp_in));
        put(&mut bytes, 13, u64_le(self.price.bits));
        put(&mut bytes, 21, u64_le(self.quantity.bits));
        bytes[29] = i8_le(self.side);
        put(&mut bytes, 30, u64_le(self.event_id));
        put(&mut bytes, 38, i64_le(self.ts_mono_mdp_out));
        bytes
    }

    /// Reads the wire form.
    pub fn decode_le(bytes: &[u8]) -> (result: Result<Trade, CodecError>)
        ensures
            result == Trade::decoded(bytes@),
    {
        require_type_and_len(bytes, TRADE_MESSAGE_TYPE, TRADE_WIRE_LEN)?;
        Ok(
            Trade {
                market_id: le_i32(read(bytes, 1)?),
                timestamp_mdp_in: le_i64(read(bytes, 5)?),
                price: Float64::from_bits(le_u64(read(bytes, 13)?)),
                quantity: Float64::from_bits(le_u64(read(bytes, 21)?)),
                side: le_i8(bytes[29]),
                event_id: le_u64(read(bytes, 30)?),
                ts_mono_mdp_out: le_i64(read(bytes, 38)?),
            },
        )
    }
}

/// The codec of Trade loses nothing: bytes are the wire form of a message exactly
/// when decoding them gives that message back.
pub proof fn law_trade_round_trip(message: Trade, bytes: Seq<u8>)
    ensures
        message.wire_form(bytes) <==> Trade::decoded(bytes) == Ok::<Trade, CodecError>(message),
{
}

/// A Trade has one wire form only.
pub proof fn law_trade_wire_form_is_unique(message: Trade, left: Seq<u8>, right: Seq<u8>)
    requires
        message.wire_form(left),
        message.wire_form(right),
    ensures
        left == right,
{
    lemma_u32_bytes(left, right, 1);
    lemma_u64_bytes(left, right, 5);
    lemma_u64_bytes(left, right, 13);
    lemma_u64_bytes(left, right, 21);
    lemma_u64_bytes(left, right, 30);
    lemma_u64_bytes(left, right, 38);
    assert(left =~= right);
}

/// State change of a market.
#[derive(Debug, Clone, Copy, PartialEq, Eq, Structural)]
pub struct MarketStatus {
    pub market_id: i32,
    pub timestamp_mdp_in: i64,
    pub state: u16,
    pub event_id: u64,
    pub ts_mono_mdp_out: i64,
}

impl MarketStatus {
    /// The bytes carry the type byte and every field at its offset.
    pub open spec fn wire_form(self, bytes: Seq<u8>) -> bool {
        &&& bytes.len() == STATUS_WIRE_LEN
        &&& bytes[0] == STATUS_MESSAGE_TYPE
        &&& i32_at(bytes, 1) == self.market_id
        &&& i64_at(bytes, 5) == self.timestamp_mdp_in
        &&& u16_at(bytes, 13) == self.state
        &&& u64_at(bytes, 15) == self.event_id
        &&& i64_at(bytes, 23) == self.ts_mono_mdp_out
    }

    /// What decoding gives: an error by length, then by type byte, else the fields at
    /// their offsets.
    pub open spec fn decoded(bytes: Seq<u8>) -> Result<MarketStatus, CodecError> {
        match fixed_width_error(bytes, STATUS_MESSAGE_TYPE, STATUS_WIRE_LEN) {
            Some(error) => Err(error),
            None => Ok(
                MarketStatus {
                    market_id: i32_at(bytes, 1) as i32,
                    timestamp_mdp_in: i64_at(bytes, 5) as i64,
                    state: u16_at(bytes, 13) as u16,
                    event_id: u64_at(bytes, 15) as u64,
                    ts_mono_mdp_out: i64_at(bytes, 23) as i64,
                },
            ),
        }
    }

    /// Writes the wire form.
    pub fn encode_le(&self) -> (bytes: [u8; STATUS_WIRE_LEN])
        ensures
            self.wire_form(bytes@),
            MarketStatus::decoded(bytes@) == Ok::<MarketStatus, CodecError>(*self),
    {
        let mut bytes: [u8; STATUS_WIRE_LEN] = [0; STATUS_WIRE_LEN];
        bytes[0] = STATUS_MESSAGE_TYPE;
        put(&mut bytes, 1, i32_le(self.market_id));
        put(&mut bytes, 5, i64_le(self.timestamp_mdp_in));
        put(&mut bytes, 13, u16_le(self.state));
        put(&mut bytes, 15, u64_le(self.event_id));
        put(&mut bytes, 23, i64_le(self.ts_mono_mdp_out));
        bytes
    }

    /// Reads the wire form.
    pub fn decode_le(bytes: &[u8]) -> (result: Result<MarketStatus, CodecError>)
        ensures
            result == MarketStatus::decoded(bytes@),
    {
        require_type_and_len(bytes, STATUS_MESSAGE_TYPE, STATUS_WIRE_LEN)?;
        Ok(
            MarketStatus {
                market_id: le_i32(read(bytes, 1)?),
                timestamp_mdp_in: le_i64(read(bytes, 5)?),
                state: le_u16(read(bytes, 13)?),
                event_id: le_u64(read(bytes, 15)?),
                ts_mono_mdp_out: le_i64(read(bytes, 23)?),
            },
        )
    }
}

/// The codec of MarketStatus loses nothing: bytes are the wire form of a message exactly
/// when decoding them gives that message back.
pub proof fn law_status_round_trip(message: MarketStatus, bytes: Seq<u8>)
    ensures
        message.wire_form(bytes) <==> MarketStatus::decoded(bytes) == Ok::<MarketStatus, CodecError>(message),
{
}

/// A MarketStatus has one wire form only.
pub proof fn law_status_wire_form_is_unique(message: MarketStatus, left: Seq<u8>, right: Seq<u8>)
    requires
        message.wire_form(left),
        message.wire_form(right),
    ensures
        left == right,
{
    lemma_u32_bytes(left, right, 1);
    lemma_u64_bytes(left, right, 5);
    lemma_u16_bytes(left, right, 13);
    lemma_u64_bytes(left, right, 15);
    lemma_u64_bytes(left, right, 23);
    assert(left =~= right);
}

/// A price level: price and volume.
pub type Level = (Float64, Float64);

/// An order book with as many bids as asks.
#[derive(Debug, Clone, PartialEq, Eq)]
pub struct OrderBook {
    pub message_type: u8,
    pub depth: u16,
    pub market_id: i32,
    pub update_id: i64,
    pub timestamp_mdp_in: i64,
    pub timestamp_matching_engine: i64,
    pub timestamp: i64,
    pub event_id: u64,
    pub timestamp_mdp_out: i64,
    pub bids: Vec<Level>,
    pub asks: Vec<Level>,
}

/// An order book whose levels are borrowed from the caller.
#[derive(Debug, Clone, Copy)]
pub struct OrderBookView<'a> {
    pub message_type: u8,
    pub depth: u16,
    pub market_id: i32,
    pub update_id: i64,
    pub timestamp_mdp_in: i64,
    pub timestamp_matching_engine: i64,
    pub timestamp: i64,
    pub event_id: u64,
    pub timestamp_mdp_out: i64,
    pub bids: &'a [Level],
    pub asks: &'a [Level],
}

/// The contents of an order book.
#[verifier::ext_equal]
pub struct OrderBookModel {
    pub message_type: u8,
    pub depth: u16,
    pub market_id: i32,
    pub update_id: i64,
    pub timestamp_mdp_in: i64,
    pub timestamp_matching_engine: i64,
    pub timestamp: i64,
    pub event_id: u64,
    pub timestamp_mdp_out: i64,
    pub bids: Seq<Level>,
    pub asks: Seq<Level>,
}

impl View for OrderBook {
    type V = OrderBookModel;

    open spec fn view(&self) -> OrderBookModel {
        OrderBookModel {
            message_type: self.message_type,
            depth: self.depth,
            market_id: self.market_id,
            update_id: self.update_id,
            timestamp_mdp_in: self.timestamp_mdp_in,
            timestamp_matching_engine: self.timestamp_matching_engine,
            timestamp: self.timestamp,
            event_id: self.event_id,
            timestamp_mdp_out: self.timestamp_mdp_out,
            bids: self.bids@,
            asks: self.asks@,
        }
    }
}

impl<'a> View for OrderBookView<'a> {
    type V = OrderBookModel;

    open spec fn view(&self) -> OrderBookModel {
        OrderBookModel {
            message_type: self.message_type,
            depth: self.depth,
            market_id: self.market_id,
            update_id: self.update_id,
            timestamp_mdp_in: self.timestamp_mdp_in,
            timestamp_matching_engine: self.timestamp_matching_engine,
            timestamp: self.timestamp,
            event_id: self.event_id,
            timestamp_mdp_out: self.timestamp_mdp_out,
            bids: self.bids@,
            asks: self.asks@,
        }
    }
}

/// The two message types that carry an order book.
pub open spec fn order_book_type(message_type: u8) -> bool {
    message_type == SNAPSHOT_MESSAGE_TYPE || message_type == DEPTH_UPDATE_MESSAGE_TYPE
}

/// The length of an order book with `depth` levels on each side.
pub open spec fn order_book_len(depth: int) -> int {
    ORDER_BOOK_HEADER_LEN + depth * ORDER_BOOK_LEVEL_LEN
}

/// Where the pair of levels number `index` starts.
pub open spec fn level_at(index: int) -> int {
    ORDER_BOOK_HEADER_LEN + index * ORDER_BOOK_LEVEL_LEN
}

/// The bid number `index` of an encoded order book.
pub open spec fn bid_at(bytes: Seq<u8>, index: int) -> Level {
    (
        Float64 { bits: u64_at(bytes, level_at(index)) as u64 },
        Float64 { bits: u64_at(bytes, level_at(index) + 8) as u64 },
    )
}

/// The ask number `index` of an encoded order book.
pub open spec fn ask_at(bytes: Seq<u8>, index: int) -> Level {
    (
        Float64 { bits: u64_at(bytes, level_at(index) + 16) as u64 },
        Float64 { bits: u64_at(bytes, level_at(index) + 24) as u64 },
    )
}

impl OrderBookModel {
    /// Why this order book has no wire form.
    pub open spec fn encode_error(self) -> Option<CodecError> {
        if !order_book_type(self.message_type) {
            Some(CodecError::UnexpectedType(self.message_type))
        } else if self.bids.len() != self.depth || self.asks.len() != self.depth {
            Some(CodecError::DepthMismatch)
        } else {
            None
        }
    }

    /// The bytes carry every header field at its offset, then the levels, each bid
    /// next to the ask of the same rank.
    pub open spec fn wire_form(self, bytes: Seq<u8>) -> bool {
        &&& self.encode_error() is None
        &&& bytes.len() == order_book_len(self.depth as int)
        &&& bytes[0] == self.message_type
        &&& u16_at(bytes, 1) == self.depth
        &&& i32_at(bytes, 3) == self.market_id
        &&& i64_at(bytes, 7) == self.update_id
        &&& i64_at(bytes, 15) == self.timestamp_mdp_in
        &&& i64_at(bytes, 23) == self.timestamp_matching_engine
        &&& i64_at(bytes, 31) == self.timestamp
        &&& u64_at(bytes, 39) == self.event_id
        &&& i64_at(bytes, 47) == self.timestamp_mdp_out
        &&& forall|i: int| 0 <= i < self.depth ==> #[trigger] self.bids[i] == bid_at(bytes, i)
        &&& forall|i: int| 0 <= i < self.depth ==> #[trigger] self.asks[i] == ask_at(bytes, i)
    }

    /// What decoding gives: an error for a short header, then for the type byte, then
    /// for a length that does not fit the depth, else the fields and levels.
    pub open spec fn decoded(bytes: Seq<u8>) -> Result<OrderBookModel, CodecError> {
        if bytes.len() < ORDER_BOOK_HEADER_LEN {
            Err(
                CodecError::InvalidLength {
                    expected: ORDER_BOOK_HEADER_LEN,
                    actual: bytes.len() as usize,
                },
            )
        } else if !order_book_type(bytes[0]) {
            Err(CodecError::UnexpectedType(bytes[0]))
        } else if bytes.len() != order_book_len(u16_at(bytes, 1)) {
            Err(
                CodecError::InvalidLength {
                    expected: order_book_len(u16_at(bytes, 1)) as usize,
                    actual: bytes.len() as usize,
                },
            )
        } else {
            Ok(
                OrderBookModel {
                    message_type: bytes[0],
                    depth: u16_at(bytes, 1) as u16,
                    market_id: i32_at(bytes, 3) as i32,
                    update_id: i64_at(bytes, 7) as i64,
                    timestamp_mdp_in: i64_at(bytes, 15) as i64,
                    timestamp_matching_engine: i64_at(bytes, 23) as i64,
                    timestamp: i64_at(bytes, 31) as i64,
                    event_id: u64_at(bytes, 39) as u64,
                    timestamp_mdp_out: i64_at(bytes, 47) as i64,
                    bids: Seq::new(u16_at(bytes, 1) as nat, |i: int| bid_at(bytes, i)),
                    asks: Seq::new(u16_at(bytes, 1) as nat, |i: int| ask_at(bytes, i)),
                },
            )
        }
    }
}

/// The codec of order books loses nothing: bytes are the wire form of an order book
/// exactly when decoding them gives that order book back.
pub proof fn law_order_book_round_trip(book: OrderBookModel, bytes: Seq<u8>)
    ensures
        book.wire_form(bytes) <==> OrderBookModel::decoded(bytes) == Ok::<
            OrderBookModel,
            CodecError,
        >(book),
{
    if book.wire_form(bytes) {
        let decoded = OrderBookModel::decoded(bytes);
        assert(decoded is Ok);
        assert(decoded->Ok_0 =~= book);
    }
}

/// An order book has one wire form only.
pub proof fn law_order_book_wire_form_is_unique(
    book: OrderBookModel,
    left: Seq<u8>,
    right: Seq<u8>,
)
    requires
        book.wire_form(left),
        book.wire_form(right),
    ensures
        left == right,
{
    lemma_u16_bytes(left, right, 1);
    lemma_u32_bytes(left, right, 3);
    lemma_u64_bytes(left, right, 7);
    lemma_u64_bytes(left, right, 15);
    lemma_u64_bytes(left, right, 23);
    lemma_u64_bytes(left, right, 31);
    lemma_u64_bytes(left, right, 39);
    lemma_u64_bytes(left, right, 47);
    assert forall|i: int| 0 <= i < left.len() implies left[i] == right[i] by {
        if i >= ORDER_BOOK_HEADER_LEN {
            let rank = (i - ORDER_BOOK_HEADER_LEN) / (ORDER_BOOK_LEVEL_LEN as int);
            let at = level_at(rank);
            assert(at <= i < at + ORDER_BOOK_LEVEL_LEN);
            assert(book.bids[rank] == bid_at(left, rank));
            assert(book.asks[rank] == ask_at(left, rank));
            lemma_u64_bytes(left, right, at);
            lemma_u64_bytes(left, right, at + 8);
            lemma_u64_bytes(left, right, at + 16);
            lemma_u64_bytes(left, right, at + 24);
        }
    }
    assert(left =~= right);
}

/// Writes a bid and the ask of the same rank at `offset`.
fn put_level(bytes: &mut [u8], offset: usize, bid: Level, ask: Level)
    requires
        offset + ORDER_BOOK_LEVEL_LEN <= old(bytes)@.len(),
        offset + ORDER_BOOK_LEVEL_LEN <= usize::MAX,
    ensures
        final(bytes)@.len() == old(bytes)@.len(),
        forall|i: int|
            0 <= i < final(bytes)@.len() && !(offset <= i < offset + ORDER_BOOK_LEVEL_LEN)
                ==> final(bytes)@[i] == old(bytes)@[i],
        u64_at(final(bytes)@, offset as int) == bid.0.bits,
        u64_at(final(bytes)@, offset + 8) == bid.1.bits,
        u64_at(final(bytes)@, offset + 16) == ask.0.bits,
        u64_at(final(bytes)@, offset + 24) == ask.1.bits,
{
    put(bytes, offset, u64_le(bid.0.bits));
    put(bytes, offset + 8, u64_le(bid.1.bits));
    put(bytes, offset + 16, u64_le(ask.0.bits));
    put(bytes, offset + 24, u64_le(ask.1.bits));
}

impl<'a> OrderBookView<'a> {
    /// Replaces the contents of `bytes` by the wire form of this order book and gives
    /// them back; on an error `bytes` keeps its contents.
    pub fn encode_le_into<'b>(&self, bytes: &'b mut Vec<u8>) -> (result: Result<
        &'b [u8],
        CodecError,
    >)
        ensures
            match result {
                Ok(encoded) => self@.wire_form(final(bytes)@) && encoded@ == final(bytes)@,
                Err(error) => self@.encode_error() == Some(error) && final(bytes)@ == old(
                    bytes,
                )@,
            },
            result is Ok <==> self@.encode_error() is None,
            result is Ok <==> (self.message_type == 3 || self.message_type == 4) && self.bids@.len()
                == self.depth && self.asks@.len() == self.depth,
    {
        if self.message_type != SNAPSHOT_MESSAGE_TYPE && self.message_type
            != DEPTH_UPDATE_MESSAGE_TYPE {
            return Err(CodecError::UnexpectedType(self.message_type));
        }
        if self.bids.len() != self.depth as usize || self.asks.len() != self.depth as usize {
            return Err(CodecError::DepthMismatch);
        }
        bytes.resize(ORDER_BOOK_HEADER_LEN + self.depth as usize * ORDER_BOOK_LEVEL_LEN, 0);
        bytes[0] = self.message_type;
        put(bytes, 1, u16_le(self.depth));
        put(bytes, 3, i32_le(self.market_id));
        put(bytes, 7, i64_le(self.update_id));
        put(bytes, 15, i64_le(self.timestamp_mdp_in));
        put(bytes, 23, i64_le(self.timestamp_matching_engine));
        put(bytes, 31, i64_le(self.timestamp));
        put(bytes, 39, u64_le(self.event_id));
        put(bytes, 47, i64_le(self.timestamp_mdp_out));
        let ghost header = bytes@;
        assert(header.len() == order_book_len(self.depth as int));
        assert(u16_at(header, 1) == self.depth);
        let mut rank: usize = 0;
        let mut offset: usize = ORDER_BOOK_HEADER_LEN;
        while rank < self.depth as usize
            invariant
                rank <= self.depth,
                offset == level_at(rank as int),
                self.bids@.len() == self.depth,
                self.asks@.len() == self.depth,
                bytes@.len() == order_book_len(self.depth as int),
                forall|i: int| 0 <= i < ORDER_BOOK_HEADER_LEN ==> #[trigger] bytes@[i] == header[i],
                forall|i: int| 0 <= i < rank ==> #[trigger] self.bids@[i] == bid_at(bytes@, i),
                forall|i: int| 0 <= i < rank ==> #[trigger] self.asks@[i] == ask_at(bytes@, i),
            decreases self.depth - rank,
        {
            let ghost before = bytes@;
            put_level(bytes, offset, self.bids[rank], self.asks[rank]);
            proof {
                assert forall|i: int| 0 <= i < rank implies bid_at(bytes@, i) == bid_at(before, i)
                    && ask_at(bytes@, i) == ask_at(before, i) by {
                    assert(level_at(i) + ORDER_BOOK_LEVEL_LEN <= offset);
                }
            }
            rank += 1;
            offset += ORDER_BOOK_LEVEL_LEN;
        }
        assert(self@.wire_form(bytes@));
        Ok(bytes.as_slice())
    }
}

impl OrderBook {
    /// Writes the wire form.
    pub fn encode_le(&self) -> (result: Result<Vec<u8>, CodecError>)
        ensures
            match result {
                Ok(bytes) => self@.wire_form(bytes@) && OrderBookModel::decoded(bytes@) == Ok::<
                    OrderBookModel,
                    CodecError,
                >(self@),
                Err(error) => self@.encode_error() == Some(error),
            },
            result is Ok <==> self@.encode_error() is None,
            result is Ok <==> (self.message_type == 3 || self.message_type == 4) && self.bids@.len()
                == self.depth && self.asks@.len() == self.depth,
    {
        let mut bytes: Vec<u8> = Vec::with_capacity(
            ORDER_BOOK_HEADER_LEN + self.depth as usize * ORDER_BOOK_LEVEL_LEN,
        );
        let view = OrderBookView {
            message_type: self.message_type,
            depth: self.depth,
            market_id: self.market_id,
            update_id: self.update_id,
            timestamp_mdp_in: self.timestamp_mdp_in,
            timestamp_matching_engine: self.timestamp_matching_engine,
            timestamp: self.timestamp,
            event_id: self.event_id,
            timestamp_mdp_out: self.timestamp_mdp_out,
            bids: self.bids.as_slice(),
            asks: self.asks.as_slice(),
        };
        match view.encode_le_into(&mut bytes) {
            Ok(_) => {},
            Err(error) => {
                return Err(error);
            },
        }
        proof {
            law_order_book_round_trip(self@, bytes@);
        }
        Ok(bytes)
    }

    /// Reads the wire form.
    pub fn decode_le(bytes: &[u8]) -> (result: Result<OrderBook, CodecError>)
        ensures
            match result {
                Ok(book) => OrderBookModel::decoded(bytes@) == Ok::<OrderBookModel, CodecError>(
                    book@,
                ),
                Err(error) => OrderBookModel::decoded(bytes@) == Err::<
                    OrderBookModel,
                    CodecError,
                >(error),
            },
    {
        if bytes.len() < ORDER_BOOK_HEADER_LEN {
            return Err(
                CodecError::InvalidLength { expected: ORDER_BOOK_HEADER_LEN, actual: bytes.len() },
            );
        }
        let message_type: u8 = bytes[0];
        if message_type != SNAPSHOT_MESSAGE_TYPE && message_type != DEPTH_UPDATE_MESSAGE_TYPE {
            return Err(CodecError::UnexpectedType(message_type));
        }
        let depth: u16 = le_u16(read(bytes, 1)?);
        let expected: usize = ORDER_BOOK_HEADER_LEN + depth as usize * ORDER_BOOK_LEVEL_LEN;
        if bytes.len() != expected {
            return Err(CodecError::InvalidLength { expected, actual: bytes.len() });
        }
        let mut bids: Vec<Level> = Vec::with_capacity(depth as usize);
        let mut asks: Vec<Level> = Vec::with_capacity(depth as usize);
        let mut rank: usize = 0;
        let mut offset: usize = ORDER_BOOK_HEADER_LEN;
        while rank < depth as usize
            invariant
                rank <= depth,
                offset == level_at(rank as int),
                bytes@.len() == order_book_len(depth as int),
                bids@.len() == rank,
                asks@.len() == rank,
                forall|i: int| 0 <= i < rank ==> #[trigger] bids@[i] == bid_at(bytes@, i),
                forall|i: int| 0 <= i < rank ==> #[trigger] asks@[i] == ask_at(bytes@, i),
            decreases depth - rank,
        {
            bids.push(
                (
                    Float64::from_bits(le_u64(take(bytes, offset))),
                    Float64::from_bits(le_u64(take(bytes, offset + 8))),
                ),
            );
            asks.push(
                (
                    Float64::from_bits(le_u64(take(bytes, offset + 16))),
                    Float64::from_bits(le_u64(take(bytes, offset + 24))),
                ),
            );
            rank += 1;
            offset += ORDER_BOOK_LEVEL_LEN;
        }
        let book = OrderBook {
            message_type,
            depth,
            market_id: le_i32(read(bytes, 3)?),
            update_id: le_i64(read(bytes, 7)?),
            timestamp_mdp_in: le_i64(read(bytes, 15)?),
            timestamp_matching_engine: le_i64(read(bytes, 23)?),
            timestamp: le_i64(read(bytes, 31)?),
            event_id: le_u64(read(bytes, 39)?),
            timestamp_mdp_out: le_i64(read(bytes, 47)?),
            bids,
            asks,
        };
        proof {
            assert(OrderBookModel::decoded(bytes@) is Ok);
            assert(OrderBookModel::decoded(bytes@)->Ok_0 =~= book@);
        }
        Ok(book)
    }
}

/// A decoded message of any type; a type byte that no market message carries is kept
/// as raw bytes.
#[derive(Debug, Clone, PartialEq, Eq)]
pub enum WireMessage {
    Status(MarketStatus),
    Bbo(Bbo),
    Trade(Trade),
    OrderBook(OrderBook),
    Other(Vec<u8>),
}

/// The contents of a decoded message.
pub enum WireMessageModel {
    Status(MarketStatus),
    Bbo(Bbo),
    Trade(Trade),
    OrderBook(OrderBookModel),
    Other(Seq<u8>),
}

impl View for WireMessage {
    type V = WireMessageModel;

    open spec fn view(&self) -> WireMessageModel {
        match self {
            WireMessage::Status(status) => WireMessageModel::Status(*status),
            WireMessage::Bbo(bbo) => WireMessageModel::Bbo(*bbo),
            WireMessage::Trade(trade) => WireMessageModel::Trade(*trade),
            WireMessage::OrderBook(book) => WireMessageModel::OrderBook(book@),
            WireMessage::Other(bytes) => WireMessageModel::Other(bytes@),
        }
    }
}

impl WireMessageModel {
    /// What decoding gives: the type byte picks the codec, and no bytes at all are an
    /// error.
    pub open spec fn decoded(bytes: Seq<u8>) -> Result<WireMessageModel, CodecError> {
        if bytes.len() == 0 {
            Err(CodecError::Empty)
        } else if bytes[0] == STATUS_MESSAGE_TYPE {
            match MarketStatus::decoded(bytes) {
                Ok(status) => Ok(WireMessageModel::Status(status)),
                Err(error) => Err(error),
            }
        } else if bytes[0] == BBO_MESSAGE_TYPE {
            match Bbo::decoded(bytes) {
                Ok(bbo) => Ok(WireMessageModel::Bbo(bbo)),
                Err(error) => Err(error),
            }
        } else if bytes[0] == TRADE_MESSAGE_TYPE {
            match Trade::decoded(bytes) {
                Ok(trade) => Ok(WireMessageModel::Trade(trade)),
                Err(error) => Err(error),
            }
        } else if order_book_type(bytes[0]) {
            match OrderBookModel::decoded(bytes) {
                Ok(book) => Ok(WireMessageModel::OrderBook(book)),
                Err(error) => Err(error),
            }
        } else {
            Ok(WireMessageModel::Other(bytes))
        }
    }
}

impl WireMessage {
    /// Reads a message of any type.
    pub fn decode(bytes: &[u8]) -> (result: Result<WireMessage, CodecError>)
        ensures
            match result {
                Ok(message) => WireMessageModel::decoded(bytes@) == Ok::<
                    WireMessageModel,
                    CodecError,
                >(message@),
                Err(error) => WireMessageModel::decoded(bytes@) == Err::<
                    WireMessageModel,
                    CodecError,
                >(error),
            },
            result matches Ok(message) ==> {
                &&& message is OrderBook <==> bytes@[0] == 3 || bytes@[0] == 4
                &&& message is Other <==> bytes@[0] > 4
            },
    {
        if bytes.len() == 0 {
            return Err(CodecError::Empty);
        }
        match bytes[0] {
            STATUS_MESSAGE_TYPE => match MarketStatus::decode_le(bytes) {
                Ok(status) => Ok(WireMessage::Status(status)),
                Err(error) => Err(error),
            },
            BBO_MESSAGE_TYPE => match Bbo::decode_le(bytes) {
                Ok(bbo) => Ok(WireMessage::Bbo(bbo)),
                Err(error) => Err(error),
            },
            TRADE_MESSAGE_TYPE => match Trade::decode_le(bytes) {
                Ok(trade) => Ok(WireMessage::Trade(trade)),
                Err(error) => Err(error),
            },
            SNAPSHOT_MESSAGE_TYPE | DEPTH_UPDATE_MESSAGE_TYPE => match OrderBook::decode_le(bytes) {
                Ok(book) => Ok(WireMessage::OrderBook(book)),
                Err(error) => Err(error),
            },
            _ => Ok(WireMessage::Other(slice_to_vec(bytes))),
        }
    }
}

} // verus!
