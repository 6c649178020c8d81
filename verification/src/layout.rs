//! Where every field of a binary message stands, byte by byte.
use vstd::prelude::*;
use crate::codec::{
    Bbo, CodecError, FeatureBbo, MarketStatus, OrderBook, OrderBookModel, OrderBookView, Trade,
    WireMessage, WireMessageModel, BBO_WIRE_LEN, FEATURE_BBO_WIRE_LEN, STATUS_WIRE_LEN,
    TRADE_WIRE_LEN,
};
use crate::feature_messages;
use crate::mdp_messages;
use crate::wire::{i32_at, i64_at, i8_at, u16_at, u32_at, u64_at};

verus! {

/// Integers travel with their low byte first, and signed ones in two's complement.
pub proof fn law_integers_travel_low_byte_first(bytes: Seq<u8>, at: int)
    ensures
        u16_at(bytes, at) == bytes[at] + 0x100 * bytes[at + 1],
        u32_at(bytes, at) == bytes[at] + 0x100 * bytes[at + 1] + 0x1_0000 * bytes[at + 2]
            + 0x100_0000 * bytes[at + 3],
        u64_at(bytes, at) == bytes[at] + 0x100 * bytes[at + 1] + 0x1_0000 * bytes[at + 2]
            + 0x100_0000 * bytes[at + 3] + 0x1_0000_0000 * bytes[at + 4] + 0x100_0000_0000
            * bytes[at + 5] + 0x1_0000_0000_0000 * bytes[at + 6] + 0x100_0000_0000_0000
            * bytes[at + 7],
        -0x80 <= i8_at(bytes, at) < 0x80,
        i8_at(bytes, at) == bytes[at] || i8_at(bytes, at) + 0x100 == bytes[at],
        -0x8000_0000 <= i32_at(bytes, at) < 0x8000_0000,
        i32_at(bytes, at) == u32_at(bytes, at) || i32_at(bytes, at) + 0x1_0000_0000 == u32_at(
            bytes,
            at,
        ),
        -0x8000_0000_0000_0000 <= i64_at(bytes, at) < 0x8000_0000_0000_0000,
        i64_at(bytes, at) == u64_at(bytes, at) || i64_at(bytes, at) + 0x1_0000_0000_0000_0000
            == u64_at(bytes, at),
{
}

/// A market status takes 31 bytes: type 0, market, time of arrival, state, event and time
/// of departure. Bytes of that length and type always hold one, and no others do.
pub proof fn law_status_layout(bytes: Seq<u8>, status: MarketStatus)
    ensures
        MarketStatus::decoded(bytes) is Ok <==> bytes.len() == 31 && bytes[0] == 0,
        status.wire_form(bytes) || MarketStatus::decoded(bytes) == Ok::<_, CodecError>(status)
            <==> {
            &&& bytes.len() == 31 && bytes[0] == 0
            &&& status.market_id == i32_at(bytes, 1)
            &&& status.timestamp_mdp_in == i64_at(bytes, 5)
            &&& status.state == u16_at(bytes, 13)
            &&& status.event_id == u64_at(bytes, 15)
            &&& status.ts_mono_mdp_out == i64_at(bytes, 23)
        },
        status.wire_form(bytes) <==> MarketStatus::decoded(bytes) == Ok::<_, CodecError>(status),
        MarketStatus::decoded(bytes) matches Err(error) ==> error == if bytes.len() == 31 {
            CodecError::UnexpectedType(bytes[0])
        } else {
            CodecError::InvalidLength { expected: 31, actual: bytes.len() as usize }
        },
{
}

/// A best bid and offer takes 61 bytes: type 1, market, time of arrival, bid and its
/// volume, ask and its volume, event and time of departure.
pub proof fn law_bbo_layout(bytes: Seq<u8>, bbo: Bbo)
    ensures
        Bbo::decoded(bytes) is Ok <==> bytes.len() == 61 && bytes[0] == 1,
        bbo.wire_form(bytes) || Bbo::decoded(bytes) == Ok::<_, CodecError>(bbo) <==> {
            &&& bytes.len() == 61 && bytes[0] == 1
            &&& bbo.market_id == i32_at(bytes, 1)
            &&& bbo.timestamp_mdp_in == i64_at(bytes, 5)
            &&& bbo.bid.bits == u64_at(bytes, 13)
            &&& bbo.bid_volume.bits == u64_at(bytes, 21)
            &&& bbo.ask.bits == u64_at(bytes, 29)
            &&& bbo.ask_volume.bits == u64_at(bytes, 37)
            &&& bbo.event_id == u64_at(bytes, 45)
            &&& bbo.ts_mono_mdp_out == i64_at(bytes, 53)
        },
        bbo.wire_form(bytes) <==> Bbo::decoded(bytes) == Ok::<_, CodecError>(bbo),
        Bbo::decoded(bytes) matches Err(error) ==> error == if bytes.len() == 61 {
            CodecError::UnexpectedType(bytes[0])
        } else {
            CodecError::InvalidLength { expected: 61, actual: bytes.len() as usize }
        },
{
}

/// A trade takes 46 bytes: type 2, market, time of arrival, price, quantity, side, event
/// and time of departure.
pub proof fn law_trade_layout(bytes: Seq<u8>, trade: Trade)
    ensures
        Trade::decoded(bytes) is Ok <==> bytes.len() == 46 && bytes[0] == 2,
        trade.wire_form(bytes) || Trade::decoded(bytes) == Ok::<_, CodecError>(trade) <==> {
            &&& bytes.len() == 46 && bytes[0] == 2
            &&& trade.market_id == i32_at(bytes, 1)
            &&& trade.timestamp_mdp_in == i64_at(bytes, 5)
            &&& trade.price.bits == u64_at(bytes, 13)
            &&& trade.quantity.bits == u64_at(bytes, 21)
            &&& trade.side == i8_at(bytes, 29)
            &&& trade.event_id == u64_at(bytes, 30)
            &&& trade.ts_mono_mdp_out == i64_at(bytes, 38)
        },
        trade.wire_form(bytes) <==> Trade::decoded(bytes) == Ok::<_, CodecError>(trade),
        Trade::decoded(bytes) matches Err(error) ==> error == if bytes.len() == 46 {
            CodecError::UnexpectedType(bytes[0])
        } else {
            CodecError::InvalidLength { expected: 46, actual: bytes.len() as usize }
        },
{
}

/// A feature takes 97 bytes: type 6, feature, market, time of arrival, bid and its volume,
/// ask and its volume, event, time of departure, three times of the feature and its signal.
pub proof fn law_feature_layout(bytes: Seq<u8>, feature: FeatureBbo)
    ensures
        FeatureBbo::decoded(bytes) is Ok <==> bytes.len() == 97 && bytes[0] == 6,
        feature.wire_form(bytes) || FeatureBbo::decoded(bytes) == Ok::<
            _,
            feature_messages::CodecError,
        >(feature) <==> {
            &&& bytes.len() == 97 && bytes[0] == 6
            &&& feature.feature_id == i32_at(bytes, 1)
            &&& feature.market_id == i32_at(bytes, 5)
            &&& feature.timestamp_mdp_in == i64_at(bytes, 9)
            &&& feature.bid.bits == u64_at(bytes, 17)
            &&& feature.bid_volume.bits == u64_at(bytes, 25)
            &&& feature.ask.bits == u64_at(bytes, 33)
            &&& feature.ask_volume.bits == u64_at(bytes, 41)
            &&& feature.event_id == u64_at(bytes, 49)
            &&& feature.ts_mono_mdp_out == i64_at(bytes, 57)
            &&& feature.mdp_received_ts_ns == u64_at(bytes, 65)
            &&& feature.feature_start_ts_ns == u64_at(bytes, 73)
            &&& feature.feature_done_ts_ns == u64_at(bytes, 81)
            &&& feature.signal_bps.bits == u64_at(bytes, 89)
        },
        feature.wire_form(bytes) <==> FeatureBbo::decoded(bytes) == Ok::<
            _,
            feature_messages::CodecError,
        >(feature),
        FeatureBbo::decoded(bytes) matches Err(error) ==> error == if bytes.len() == 97 {
            feature_messages::CodecError::UnexpectedType(bytes[0])
        } else {
            feature_messages::CodecError::InvalidLength {
                expected: 97,
                actual: bytes.len() as usize,
            }
        },
{
}

/// A snapshot, type 3, and a depth update, type 4, are order books alike: a header of 55
/// bytes, then 32 bytes for each pair of a bid and an ask, as many as the depth says.
pub proof fn law_order_book_layout(bytes: Seq<u8>, book: OrderBookModel)
    ensures
        OrderBookModel::decoded(bytes) is Ok <==> bytes.len() >= 55 && (bytes[0] == 3 || bytes[0]
            == 4) && bytes.len() == 55 + 32 * u16_at(bytes, 1),
        book.wire_form(bytes) <==> OrderBookModel::decoded(bytes) == Ok::<_, CodecError>(book),
        book.wire_form(bytes) <==> {
            &&& book.message_type == 3 || book.message_type == 4
            &&& book.bids.len() == book.depth && book.asks.len() == book.depth
            &&& bytes.len() == 55 + 32 * book.depth
            &&& bytes[0] == book.message_type
            &&& book.depth == u16_at(bytes, 1)
            &&& book.market_id == i32_at(bytes, 3)
            &&& book.update_id == i64_at(bytes, 7)
            &&& book.timestamp_mdp_in == i64_at(bytes, 15)
            &&& book.timestamp_matching_engine == i64_at(bytes, 23)
            &&& book.timestamp == i64_at(bytes, 31)
            &&& book.event_id == u64_at(bytes, 39)
            &&& book.timestamp_mdp_out == i64_at(bytes, 47)
            &&& forall|i: int|
                0 <= i < book.depth ==> (#[trigger] book.bids[i]).0.bits == u64_at(
                    bytes,
                    55 + 32 * i,
                ) && book.bids[i].1.bits == u64_at(bytes, 63 + 32 * i)
            &&& forall|i: int|
                0 <= i < book.depth ==> (#[trigger] book.asks[i]).0.bits == u64_at(
                    bytes,
                    71 + 32 * i,
                ) && book.asks[i].1.bits == u64_at(bytes, 79 + 32 * i)
        },
        OrderBookModel::decoded(bytes) matches Err(error) ==> error == if bytes.len() < 55 {
            CodecError::InvalidLength { expected: 55, actual: bytes.len() as usize }
        } else if bytes[0] != 3 && bytes[0] != 4 {
            CodecError::UnexpectedType(bytes[0])
        } else {
            CodecError::InvalidLength {
                expected: (55 + 32 * u16_at(bytes, 1)) as usize,
                actual: bytes.len() as usize,
            }
        },
{
    mdp_messages::law_order_book_round_trip(book, bytes);
    if book.wire_form(bytes) {
        assert forall|i: int| 0 <= i < book.depth implies (#[trigger] book.bids[i]).0.bits
            == u64_at(bytes, 55 + 32 * i) && book.bids[i].1.bits == u64_at(bytes, 63 + 32 * i) by {
            assert(book.bids[i] == mdp_messages::bid_at(bytes, i));
            lemma_u64_fits(bytes, 55 + 32 * i);
            lemma_u64_fits(bytes, 63 + 32 * i);
        }
        assert forall|i: int| 0 <= i < book.depth implies (#[trigger] book.asks[i]).0.bits
            == u64_at(bytes, 71 + 32 * i) && book.asks[i].1.bits == u64_at(bytes, 79 + 32 * i) by {
            assert(book.asks[i] == mdp_messages::ask_at(bytes, i));
            lemma_u64_fits(bytes, 71 + 32 * i);
            lemma_u64_fits(bytes, 79 + 32 * i);
        }
    }
}

proof fn lemma_u64_fits(bytes: Seq<u8>, at: int)
    ensures
        0 <= u64_at(bytes, at) <= u64::MAX,
{
}

/// Which order books have a wire form: snapshots and depth updates with as many bids and
/// as many asks as their depth. A wrong type is told before a wrong depth.
pub proof fn law_order_books_with_a_wire_form(book: OrderBookModel)
    ensures
        book.encode_error() is None <==> (book.message_type == 3 || book.message_type == 4)
            && book.bids.len() == book.depth && book.asks.len() == book.depth,
        book.encode_error() matches Some(error) ==> error == if book.message_type != 3
            && book.message_type != 4 {
            CodecError::UnexpectedType(book.message_type)
        } else {
            CodecError::DepthMismatch
        },
{
}

/// The type byte alone decides what bytes can hold: 0 a status, 1 a best bid and offer, 2 a
/// trade, 3 and 4 an order book, 6 a feature. Every other type is kept as it came, and no
/// bytes at all are an error.
pub proof fn law_type_bytes_decide(bytes: Seq<u8>)
    ensures
        bytes.len() == 0 ==> WireMessageModel::decoded(bytes) == Err::<WireMessageModel, _>(
            CodecError::Empty,
        ),
        WireMessageModel::decoded(bytes) matches Ok(message) ==> {
            &&& bytes.len() > 0
            &&& message is Status <==> bytes[0] == 0
            &&& message is Bbo <==> bytes[0] == 1
            &&& message is Trade <==> bytes[0] == 2
            &&& message is OrderBook <==> bytes[0] == 3 || bytes[0] == 4
            &&& message is FeatureBbo <==> bytes[0] == 6
            &&& message matches WireMessageModel::Other(other) ==> other == bytes
            &&& message matches WireMessageModel::OrderBook(book) ==> book.message_type
                == bytes[0]
        },
        bytes.len() > 0 && (bytes[0] == 5 || bytes[0] > 6) ==> WireMessageModel::decoded(bytes)
            is Ok,
        mdp_messages::WireMessageModel::decoded(bytes) matches Ok(message) ==> {
            &&& bytes.len() > 0
            &&& message is Status <==> bytes[0] == 0
            &&& message is Bbo <==> bytes[0] == 1
            &&& message is Trade <==> bytes[0] == 2
            &&& message is OrderBook <==> bytes[0] == 3 || bytes[0] == 4
            &&& message matches mdp_messages::WireMessageModel::Other(other) ==> other == bytes
        },
        bytes.len() > 0 && bytes[0] > 4 ==> mdp_messages::WireMessageModel::decoded(bytes) is Ok,
        bytes.len() == 0 ==> mdp_messages::WireMessageModel::decoded(bytes) == Err::<
            mdp_messages::WireMessageModel,
            _,
        >(CodecError::Empty),
{
}

/// A message of a known type comes out of the decoder as its own codec reads it, faults
/// and all.
pub proof fn law_decoders_agree(bytes: Seq<u8>)
    requires
        bytes.len() > 0,
    ensures
        bytes[0] == 0 ==> match MarketStatus::decoded(bytes) {
            Ok(status) => WireMessageModel::decoded(bytes) == Ok::<_, CodecError>(
                WireMessageModel::Status(status),
            ),
            Err(error) => WireMessageModel::decoded(bytes) == Err::<WireMessageModel, _>(error),
        },
        bytes[0] == 1 ==> match Bbo::decoded(bytes) {
            Ok(bbo) => WireMessageModel::decoded(bytes) == Ok::<_, CodecError>(
                WireMessageModel::Bbo(bbo),
            ),
            Err(error) => WireMessageModel::decoded(bytes) == Err::<WireMessageModel, _>(error),
        },
        bytes[0] == 2 ==> match Trade::decoded(bytes) {
            Ok(trade) => WireMessageModel::decoded(bytes) == Ok::<_, CodecError>(
                WireMessageModel::Trade(trade),
            ),
            Err(error) => WireMessageModel::decoded(bytes) == Err::<WireMessageModel, _>(error),
        },
        bytes[0] == 3 || bytes[0] == 4 ==> match OrderBookModel::decoded(bytes) {
            Ok(book) => WireMessageModel::decoded(bytes) == Ok::<_, CodecError>(
                WireMessageModel::OrderBook(book),
            ),
            Err(error) => WireMessageModel::decoded(bytes) == Err::<WireMessageModel, _>(error),
        },
        bytes[0] == 6 && bytes.len() == 97 ==> FeatureBbo::decoded(bytes) is Ok
            && WireMessageModel::decoded(bytes) == Ok::<_, CodecError>(
            WireMessageModel::FeatureBbo(FeatureBbo::decoded(bytes)->Ok_0),
        ),
        bytes[0] == 6 && bytes.len() != 97 ==> WireMessageModel::decoded(bytes) == Err::<
            WireMessageModel,
            _,
        >(CodecError::InvalidLength { expected: 97, actual: bytes.len() as usize }),
{
}

/// An order book of either type with as many bids and asks as its depth comes back from
/// every decoder as itself.
pub proof fn law_order_books_come_back(book: OrderBookModel, bytes: Seq<u8>)
    requires
        book.wire_form(bytes),
    ensures
        book.message_type == 3 || book.message_type == 4,
        OrderBookModel::decoded(bytes) == Ok::<_, CodecError>(book),
        mdp_messages::WireMessageModel::decoded(bytes) == Ok::<_, CodecError>(
            mdp_messages::WireMessageModel::OrderBook(book),
        ),
        WireMessageModel::decoded(bytes) == Ok::<_, CodecError>(WireMessageModel::OrderBook(book)),
{
    mdp_messages::law_order_book_round_trip(book, bytes);
}

/// A market status that is encoded comes back as itself from its own decoder and from the one of
/// all messages.
pub proof fn law_encoded_statuses_decode(
    status: &MarketStatus,
    bytes: [u8; STATUS_WIRE_LEN],
    copy: &[u8],
    own: Result<MarketStatus, CodecError>,
    any: Result<WireMessage, CodecError>,
)
    requires
        call_ensures(MarketStatus::encode_le, (status,), bytes),
        copy@ == bytes@,
        call_ensures(MarketStatus::decode_le, (copy,), own),
        call_ensures(WireMessage::decode, (copy,), any),
    ensures
        bytes@[0] == 0,
        own == Ok::<MarketStatus, CodecError>(*status),
        any matches Ok(WireMessage::Status(message)) && message == *status,
{
    law_status_layout(bytes@, *status);
    law_decoders_agree(bytes@);
}

/// A best bid and offer that is encoded comes back as itself from its own decoder and the one of
/// all messages.
pub proof fn law_encoded_bbos_decode(
    bbo: &Bbo,
    bytes: [u8; BBO_WIRE_LEN],
    copy: &[u8],
    own: Result<Bbo, CodecError>,
    any: Result<WireMessage, CodecError>,
)
    requires
        call_ensures(Bbo::encode_le, (bbo,), bytes),
        copy@ == bytes@,
        call_ensures(Bbo::decode_le, (copy,), own),
        call_ensures(WireMessage::decode, (copy,), any),
    ensures
        bytes@[0] == 1,
        own == Ok::<Bbo, CodecError>(*bbo),
        any matches Ok(WireMessage::Bbo(message)) && message == *bbo,
{
    law_bbo_layout(bytes@, *bbo);
    law_decoders_agree(bytes@);
}

/// A trade that is encoded comes back as itself from its own decoder and from the decoder of
/// all messages.
pub proof fn law_encoded_trades_decode(
    trade: &Trade,
    bytes: [u8; TRADE_WIRE_LEN],
    copy: &[u8],
    own: Result<Trade, CodecError>,
    any: Result<WireMessage, CodecError>,
)
    requires
        call_ensures(Trade::encode_le, (trade,), bytes),
        copy@ == bytes@,
        call_ensures(Trade::decode_le, (copy,), own),
        call_ensures(WireMessage::decode, (copy,), any),
    ensures
        bytes@[0] == 2,
        own == Ok::<Trade, CodecError>(*trade),
        any matches Ok(WireMessage::Trade(message)) && message == *trade,
{
    law_trade_layout(bytes@, *trade);
    law_decoders_agree(bytes@);
}

/// A feature that is encoded comes back as itself from its own decoder and from the decoder of
/// all messages.
pub proof fn law_encoded_features_decode(
    feature: &FeatureBbo,
    bytes: [u8; FEATURE_BBO_WIRE_LEN],
    copy: &[u8],
    own: Result<FeatureBbo, feature_messages::CodecError>,
    any: Result<WireMessage, CodecError>,
)
    requires
        call_ensures(FeatureBbo::encode_le, (feature,), bytes),
        copy@ == bytes@,
        call_ensures(FeatureBbo::decode_le, (copy,), own),
        call_ensures(WireMessage::decode, (copy,), any),
    ensures
        bytes@[0] == 6,
        own == Ok::<FeatureBbo, feature_messages::CodecError>(*feature),
        any matches Ok(WireMessage::FeatureBbo(message)) && message == *feature,
{
    law_feature_layout(bytes@, *feature);
    law_decoders_agree(bytes@);
}

/// An order book is encoded exactly where it is a snapshot or a depth update with as many
/// bids and asks as its depth. It then comes back as itself from its own decoder and from the
/// decoder of all messages.
pub proof fn law_encoded_order_books_decode(
    book: &OrderBook,
    result: Result<Vec<u8>, CodecError>,
    copy: &[u8],
    own: Result<OrderBook, CodecError>,
    any: Result<WireMessage, CodecError>,
)
    requires
        call_ensures(OrderBook::encode_le, (book,), result),
        result is Ok ==> copy@ == result->Ok_0@,
        call_ensures(OrderBook::decode_le, (copy,), own),
        call_ensures(WireMessage::decode, (copy,), any),
    ensures
        result is Ok <==> (book.message_type == 3 || book.message_type == 4) && book.bids@.len()
            == book.depth && book.asks@.len() == book.depth,
        book.message_type != 3 && book.message_type != 4 ==> result == Err::<Vec<u8>, _>(
            CodecError::UnexpectedType(book.message_type),
        ),
        result is Ok ==> {
            &&& copy@.len() == 55 + 32 * book.depth
            &&& copy@[0] == book.message_type
            &&& own is Ok && own->Ok_0@ == book@
            &&& any matches Ok(WireMessage::OrderBook(message)) && message@ == book@
        },
{
    law_order_books_with_a_wire_form(book@);
    if result is Ok {
        law_order_books_come_back(book@, copy@);
        law_order_book_layout(copy@, book@);
    }
}

/// An order book that is encoded into a buffer replaces what was there, and leaves it alone
/// where it has no wire form.
pub proof fn law_order_books_replace_the_buffer<'a, 'b>(
    book: &OrderBookView<'a>,
    buffer: &'b mut Vec<u8>,
    result: Result<&'b [u8], CodecError>,
)
    requires
        call_ensures(OrderBookView::<'a>::encode_le_into, (book, buffer), result),
    ensures
        result is Ok <==> (book.message_type == 3 || book.message_type == 4) && book.bids@.len()
            == book.depth && book.asks@.len() == book.depth,
        result is Ok ==> final(buffer)@.len() == 55 + 32 * book.depth && result->Ok_0@
            == final(buffer)@,
        result is Err ==> final(buffer)@ == old(buffer)@,
{
}

/// The decoder of all messages, as it is called: the type byte alone says which message it
/// can be, and a type that no message has is kept as it came.
pub proof fn law_decode_goes_by_the_type_byte(
    bytes: &[u8],
    result: Result<WireMessage, CodecError>,
)
    requires
        call_ensures(WireMessage::decode, (bytes,), result),
    ensures
        bytes@.len() == 0 ==> result == Err::<WireMessage, _>(CodecError::Empty),
        result matches Ok(message) ==> {
            &&& bytes@.len() > 0
            &&& message is Status <==> bytes@[0] == 0
            &&& message is Bbo <==> bytes@[0] == 1
            &&& message is Trade <==> bytes@[0] == 2
            &&& message is OrderBook <==> bytes@[0] == 3 || bytes@[0] == 4
            &&& message is FeatureBbo <==> bytes@[0] == 6
            &&& message is Other <==> bytes@[0] == 5 || bytes@[0] > 6
            &&& message matches WireMessage::Other(other) ==> other@ == bytes@
        },
        bytes@.len() > 0 && (bytes@[0] == 5 || bytes@[0] > 6) ==> result is Ok,
        bytes@.len() == 31 && bytes@[0] == 0 ==> result is Ok,
        bytes@.len() == 61 && bytes@[0] == 1 ==> result is Ok,
        bytes@.len() == 46 && bytes@[0] == 2 ==> result is Ok,
        bytes@.len() == 97 && bytes@[0] == 6 ==> result is Ok,
        bytes@.len() >= 55 && (bytes@[0] == 3 || bytes@[0] == 4) ==> (result is Ok
            <==> bytes@.len() == 55 + 32 * (bytes@[1] + 0x100 * bytes@[2])),
{
    law_type_bytes_decide(bytes@);
    if bytes@.len() > 0 {
        law_decoders_agree(bytes@);
    }
}

/// The decoder of market messages, as it is called, keeps the types that it does not know.
pub proof fn law_market_decode_goes_by_the_type_byte(
    bytes: &[u8],
    result: Result<mdp_messages::WireMessage, CodecError>,
)
    requires
        call_ensures(mdp_messages::WireMessage::decode, (bytes,), result),
    ensures
        bytes@.len() == 0 ==> result == Err::<mdp_messages::WireMessage, _>(CodecError::Empty),
        result matches Ok(message) ==> {
            &&& bytes@.len() > 0
            &&& message is Status <==> bytes@[0] == 0
            &&& message is Bbo <==> bytes@[0] == 1
            &&& message is Trade <==> bytes@[0] == 2
            &&& message is OrderBook <==> bytes@[0] == 3 || bytes@[0] == 4
            &&& message is Other <==> bytes@[0] > 4
            &&& message matches mdp_messages::WireMessage::Other(other) ==> other@ == bytes@
        },
        bytes@.len() > 0 && bytes@[0] > 4 ==> result is Ok,
        bytes@.len() >= 55 && (bytes@[0] == 3 || bytes@[0] == 4) ==> (result is Ok
            <==> bytes@.len() == 55 + 32 * (bytes@[1] + 0x100 * bytes@[2])),
{
    law_type_bytes_decide(bytes@);
}

/// The quote that follows a status, as it is asked for: it carries the market, the event and
/// the arrival of the status, bid and ask at one, and no volume and no signal.
pub proof fn law_neutral_quotes_say_nothing(
    feature_id: i32,
    status: &MarketStatus,
    ts_mono_mdp_out: i64,
    mdp_received_ts_ns: u64,
    feature_start_ts_ns: u64,
    feature_done_ts_ns: u64,
    neutral: FeatureBbo,
)
    requires
        call_ensures(
            FeatureBbo::neutral_for_status,
            (
                feature_id,
                status,
                ts_mono_mdp_out,
                mdp_received_ts_ns,
                feature_start_ts_ns,
                feature_done_ts_ns,
            ),
            neutral,
        ),
    ensures
        neutral.feature_id == feature_id,
        neutral.market_id == status.market_id,
        neutral.event_id == status.event_id,
        neutral.timestamp_mdp_in == status.timestamp_mdp_in,
        neutral.ts_mono_mdp_out == ts_mono_mdp_out,
        neutral.mdp_received_ts_ns == mdp_received_ts_ns,
        neutral.feature_start_ts_ns == feature_start_ts_ns,
        neutral.feature_done_ts_ns == feature_done_ts_ns,
        neutral.bid.bits == 0x3ff0_0000_0000_0000 && neutral.ask.bits == 0x3ff0_0000_0000_0000,
        neutral.bid_volume.bits == 0 && neutral.ask_volume.bits == 0,
        neutral.signal_bps.bits == 0,
{
}

/// Lengths and types of fixed-width messages, as they are checked: the length first.
pub proof fn law_lengths_are_checked_before_types(
    bytes: &[u8],
    message_type: u8,
    expected: usize,
    market: Result<(), CodecError>,
)
    requires
        expected > 0,
        call_ensures(
            mdp_messages::require_type_and_len,
            (bytes, message_type, expected),
            market,
        ),
    ensures
        market is Ok <==> bytes@.len() == expected && bytes@[0] == message_type,
        bytes@.len() != expected ==> (market matches Err(
            CodecError::InvalidLength { expected: wanted, actual },
        ) && wanted == expected && actual == bytes@.len()),
        bytes@.len() == expected && bytes@[0] != message_type ==> market == Err::<(), _>(
            CodecError::UnexpectedType(bytes@[0]),
        ),
{
    vstd::slice::axiom_spec_len(bytes);
}

} // verus!
