//! Every binary message of the link behind one decoder.
use vstd::prelude::*;
use crate::feature_messages;

pub use crate::feature_messages::{FeatureBbo, FEATURE_BBO_MESSAGE_TYPE, FEATURE_BBO_WIRE_LEN};
pub use crate::mdp_messages::{
    Bbo, CodecError, Level, MarketStatus, OrderBook, OrderBookModel, OrderBookView, Trade,
    BBO_MESSAGE_TYPE, BBO_WIRE_LEN, DEPTH_UPDATE_MESSAGE_TYPE, ORDER_BOOK_HEADER_LEN,
    ORDER_BOOK_LEVEL_LEN, SNAPSHOT_MESSAGE_TYPE, STATUS_MESSAGE_TYPE, STATUS_WIRE_LEN,
    TRADE_MESSAGE_TYPE, TRADE_WIRE_LEN,
};
use crate::mdp_messages;

verus! {

/// A decoded message of the link; a type byte that no message carries is kept as raw
/// bytes.
#[derive(Debug, Clone, PartialEq, Eq)]
pub enum WireMessage {
    Status(MarketStatus),
    Bbo(Bbo),
    Trade(Trade),
    OrderBook(OrderBook),
    FeatureBbo(FeatureBbo),
    Other(Vec<u8>),
}

/// The contents of a decoded message.
pub enum WireMessageModel {
    Status(MarketStatus),
    Bbo(Bbo),
    Trade(Trade),
    OrderBook(OrderBookModel),
    FeatureBbo(FeatureBbo),
    Other(Seq<u8>),
}

impl View for WireMessage {
    type V = WireMessageModel;

    open spec fn view(&self) -> WireMessageModel {
        match self {
            WireMessage::Status(status) => WireMessageModel::Status(*status),
            WireMessage::Bbo(bbo) => WireMessageModel::Bbo(*bbo),
            WireMessage::Trade(trade) => WireMessageModel::Trade(*trade),
            WireMessage::OrderBook(book) => WireMessageModel::OrderBook(book@),
            WireMessage::FeatureBbo(feature) => WireMessageModel::FeatureBbo(*feature),
            WireMessage::Other(bytes) => WireMessageModel::Other(bytes@),
        }
    }
}

/// An error of the feature codec among the errors of the link.
pub open spec fn feature_error(error: feature_messages::CodecError) -> CodecError {
    match error {
        feature_messages::CodecError::UnexpectedType(message_type) => CodecError::UnexpectedType(
            message_type,
        ),
        feature_messages::CodecError::InvalidLength { expected, actual } =>
            CodecError::InvalidLength { expected, actual },
    }
}

impl WireMessageModel {
    /// A market message as a message of the link.
    pub open spec fn of_market(message: mdp_messages::WireMessageModel) -> WireMessageModel {
        match message {
            mdp_messages::WireMessageModel::Status(status) => WireMessageModel::Status(status),
            mdp_messages::WireMessageModel::Bbo(bbo) => WireMessageModel::Bbo(bbo),
            mdp_messages::WireMessageModel::Trade(trade) => WireMessageModel::Trade(trade),
            mdp_messages::WireMessageModel::OrderBook(book) => WireMessageModel::OrderBook(book),
            mdp_messages::WireMessageModel::Other(bytes) => WireMessageModel::Other(bytes),
        }
    }

    /// What decoding gives: the feature codec for its own type byte, else what the
    /// market codecs make of the bytes.
    pub open spec fn decoded(bytes: Seq<u8>) -> Result<WireMessageModel, CodecError> {
        if bytes.len() > 0 && bytes[0] == FEATURE_BBO_MESSAGE_TYPE {
            match FeatureBbo::decoded(bytes) {
                Ok(feature) => Ok(WireMessageModel::FeatureBbo(feature)),
                Err(error) => Err(feature_error(error)),
            }
        } else {
            match mdp_messages::WireMessageModel::decoded(bytes) {
                Ok(message) => Ok(WireMessageModel::of_market(message)),
                Err(error) => Err(error),
            }
        }
    }
}

impl WireMessage {
    /// Reads a message of any type.
    pub fn decode(bytes: &[u8]) -> (result: Result<WireMessage, CodecError>)
        ensures
            match result {
                Ok(message) => WireMessageModel::decoded(bytes@) == Ok::<
                    WireMessageModel,
                    CodecError,
                >(message@),
                Err(error) => WireMessageModel::decoded(bytes@) == Err::<
                    WireMessageModel,
                    CodecError,
                >(error),
            },
            result matches Ok(message) ==> {
                &&& message is OrderBook <==> bytes@[0] == 3 || bytes@[0] == 4
                &&& message is FeatureBbo <==> bytes@[0] == 6
                &&& message is Other <==> bytes@[0] == 5 || bytes@[0] > 6
            },
    {
        if bytes.len() > 0 && bytes[0] == FEATURE_BBO_MESSAGE_TYPE {
            return match FeatureBbo::decode_le(bytes) {
                Ok(feature) => Ok(WireMessage::FeatureBbo(feature)),
                Err(feature_messages::CodecError::UnexpectedType(message_type)) => Err(
                    CodecError::UnexpectedType(message_type),
                ),
                Err(feature_messages::CodecError::InvalidLength { expected, actual }) => Err(
                    CodecError::InvalidLength { expected, actual },
                ),
            };
        }
        match mdp_messages::WireMessage::decode(bytes) {
            Ok(mdp_messages::WireMessage::Status(status)) => Ok(WireMessage::Status(status)),
            Ok(mdp_messages::WireMessage::Bbo(bbo)) => Ok(WireMessage::Bbo(bbo)),
            Ok(mdp_messages::WireMessage::Trade(trade)) => Ok(WireMessage::Trade(trade)),
            Ok(mdp_messages::WireMessage::OrderBook(book)) => Ok(WireMessage::OrderBook(book)),
            Ok(mdp_messages::WireMessage::Other(other)) => Ok(WireMessage::Other(other)),
            Err(error) => Err(error),
        }
    }
}

/// Every message that a producer encodes comes out of the decoder as itself.
pub proof fn law_wire_message_round_trip(
    status: MarketStatus,
    bbo: Bbo,
    trade: Trade,
    book: OrderBookModel,
    feature: FeatureBbo,
    bytes: Seq<u8>,
)
    ensures
        status.wire_form(bytes) ==> WireMessageModel::decoded(bytes) == Ok::<
            WireMessageModel,
            CodecError,
        >(WireMessageModel::Status(status)),
        bbo.wire_form(bytes) ==> WireMessageModel::decoded(bytes) == Ok::<
            WireMessageModel,
            CodecError,
        >(WireMessageModel::Bbo(bbo)),
        trade.wire_form(bytes) ==> WireMessageModel::decoded(bytes) == Ok::<
            WireMessageModel,
            CodecError,
        >(WireMessageModel::Trade(trade)),
        book.wire_form(bytes) ==> WireMessageModel::decoded(bytes) == Ok::<
            WireMessageModel,
            CodecError,
        >(WireMessageModel::OrderBook(book)),
        feature.wire_form(bytes) ==> WireMessageModel::decoded(bytes) == Ok::<
            WireMessageModel,
            CodecError,
        >(WireMessageModel::FeatureBbo(feature)),
{
    mdp_messages::law_order_book_round_trip(book, bytes);
}

/// Bytes with a type byte that no message carries never pass for data.
pub proof fn law_unknown_types_are_not_data(bytes: Seq<u8>)
    requires
        bytes.len() > 0,
        bytes[0] > DEPTH_UPDATE_MESSAGE_TYPE,
        bytes[0] != FEATURE_BBO_MESSAGE_TYPE,
    ensures
        WireMessageModel::decoded(bytes) == Ok::<WireMessageModel, CodecError>(
            WireMessageModel::Other(bytes),
        ),
{
}

} // verus!
