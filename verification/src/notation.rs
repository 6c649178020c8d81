//! Numbers and channels as texts.
use vstd::prelude::*;
use crate::aeron_hub::HubError;
use crate::aeron_publisher::JoinError;
use crate::float64::Float64;
use crate::link_client::LinkError;
use crate::protocol::{ChannelModel, ProtocolError};
use crate::server::UnknownClient;
use crate::text::{
    decimal, decimal_text, digit, find_first, first_of, has_prefix, signed_decimal,
    signed_decimal_text, starts_with, text_less, white_space, without_prefix,
};
use crate::transport::{endpoint_in, parameters};

verus! {

/// The number that decimal digits stand for.
pub open spec fn digits_value(text: Seq<char>) -> nat
    decreases text.len(),
{
    if text.len() == 0 {
        0
    } else {
        10 * digits_value(text.drop_last()) + (text.last() as nat - '0' as nat) as nat
    }
}

/// A number in decimal reads back as itself. It is made of digits alone, and has no leading
/// zero unless it is zero.
pub proof fn law_decimals_read_back(number: nat)
    ensures
        digits_value(decimal(number)) == number,
        decimal(number).len() > 0,
        forall|i: int| 0 <= i < decimal(number).len()
            ==> '0' <= #[trigger] decimal(number)[i] <= '9',
        number > 0 ==> decimal(number)[0] != '0',
        number == 0 ==> decimal(number) == seq!['0'],
    decreases number,
{
    if number < 10 {
        assert(decimal(number) =~= seq![digit(number)]);
        assert(decimal(number).drop_last() =~= Seq::<char>::empty());
        assert(digits_value(Seq::<char>::empty()) == 0);
        assert(decimal(number).last() == digit(number));
    } else {
        let fewer = decimal(number / 10);
        law_decimals_read_back(number / 10);
        assert(decimal(number).drop_last() =~= fewer);
        assert(decimal(number).last() == digit(number % 10));
        assert forall|i: int| 0 <= i < decimal(number).len() implies '0'
            <= #[trigger] decimal(number)[i] <= '9' by {
            if i < fewer.len() {
                assert(decimal(number)[i] == fewer[i]);
            }
        }
    }
}

/// Different numbers have different decimals, so that no two depths share a stream.
pub proof fn law_decimals_tell_numbers_apart(left: nat, right: nat)
    ensures
        decimal(left) == decimal(right) <==> left == right,
{
    law_decimals_read_back(left);
    law_decimals_read_back(right);
}

/// A negative number is the decimal of its magnitude after a minus sign; others are their
/// decimal.
pub proof fn law_signs_come_first(number: nat)
    ensures
        signed_decimal(number as int) == decimal(number),
        number > 0 ==> signed_decimal(-number) == seq!['-'] + decimal(number),
{
    reveal_strlit("-");
    assert("-"@ =~= seq!['-']);
}

/// The first place of a character is one where it stands, with none before it; a text
/// without it is passed to its end.
pub proof fn law_first_places_are_first(text: Seq<char>, wanted: char, at: int)
    ensures
        0 <= first_of(text, wanted) <= text.len(),
        first_of(text, wanted) < text.len() ==> text[first_of(text, wanted)] == wanted,
        0 <= at < first_of(text, wanted) ==> text[at] != wanted,
    decreases text.len(),
{
    if text.len() > 0 && text[0] != wanted {
        law_first_places_are_first(text.skip(1), wanted, at - 1);
        if 0 < at < first_of(text, wanted) {
            assert(text.skip(1)[at - 1] == text[at]);
        }
    }
}

proof fn lemma_first_place(before: Seq<char>, wanted: char, after: Seq<char>)
    requires
        !before.contains(wanted),
    ensures
        first_of(before + seq![wanted] + after, wanted) == before.len(),
        first_of(before, wanted) == before.len(),
{
    let text = before + seq![wanted] + after;
    law_first_places_are_first(text, wanted, before.len() as int);
    law_first_places_are_first(before, wanted, 0);
    let at = first_of(text, wanted);
    assert(text[before.len() as int] == wanted);
    if at < before.len() {
        assert(text[at] == before[at]);
        assert(before.contains(wanted));
    }
    if first_of(before, wanted) < before.len() {
        assert(before.contains(before[first_of(before, wanted)]));
    }
}

/// Texts are ordered by the first character in which they differ, and a text comes before
/// those that go on from it.
pub proof fn law_texts_are_ordered_by_their_first_difference(
    common: Seq<char>,
    left: char,
    right: char,
    left_rest: Seq<char>,
    right_rest: Seq<char>,
)
    ensures
        left < right ==> text_less(
            common + seq![left] + left_rest,
            common + seq![right] + right_rest,
        ),
        left > right ==> !text_less(
            common + seq![left] + left_rest,
            common + seq![right] + right_rest,
        ),
        text_less(common, common + seq![right] + right_rest),
        !text_less(common + seq![left] + left_rest, common),
    decreases common.len(),
{
    let l = common + seq![left] + left_rest;
    let r = common + seq![right] + right_rest;
    if common.len() == 0 {
        assert(l[0] == left);
        assert(r[0] == right);
    } else {
        let rest = common.skip(1);
        assert(l.skip(1) =~= rest + seq![left] + left_rest);
        assert(r.skip(1) =~= rest + seq![right] + right_rest);
        assert(l[0] == common[0]);
        assert(r[0] == common[0]);
        law_texts_are_ordered_by_their_first_difference(rest, left, right, left_rest, right_rest);
    }
}

/// The parameters of a channel are what follows its first question mark.
pub proof fn law_parameters_follow_the_question_mark(before: Seq<char>, after: Seq<char>)
    requires
        !before.contains('?'),
    ensures
        parameters(before + seq!['?'] + after) == after,
        parameters(before) == before,
{
    lemma_first_place(before, '?', after);
    let text = before + seq!['?'] + after;
    assert(text.skip(before.len() as int + 1) =~= after);
}

/// The endpoint is the value of the first parameter that is named so; other parameters
/// before it are passed over, and what follows it does not matter.
pub proof fn law_first_endpoint_counts(value: Seq<char>, other: Seq<char>, rest: Seq<char>)
    requires
        !value.contains('|'),
        !other.contains('|'),
        !starts_with(other, "endpoint="@),
    ensures
        endpoint_in("endpoint="@ + value) == Some(value),
        endpoint_in("endpoint="@ + value + seq!['|'] + rest) == Some(value),
        endpoint_in(other + seq!['|'] + rest) == endpoint_in(rest),
        endpoint_in(other) is None,
{
    reveal_strlit("endpoint=");
    let named = "endpoint="@ + value;
    assert(!named.contains('|')) by {
        if named.contains('|') {
            let i = choose|i: int| 0 <= i < named.len() && named[i] == '|';
            if i >= 9 {
                assert(value[i - 9] == '|');
                assert(value.contains('|'));
            }
        }
    }
    lemma_first_place(named, '|', rest);
    lemma_first_place(other, '|', rest);
    assert(named.take(named.len() as int) =~= named);
    assert(named.take(9) =~= "endpoint="@);
    assert(named.skip(9) =~= value);
    let long = named + seq!['|'] + rest;
    assert(long.take(named.len() as int) =~= named);
    assert(other.take(other.len() as int) =~= other);
    let longer = other + seq!['|'] + rest;
    assert(longer.take(other.len() as int) =~= other);
    assert(longer.skip(other.len() as int + 1) =~= rest);
}

/// The endpoint of a UDP channel is found again in its own notation, and shared memory has
/// none.
pub proof fn law_channels_show_their_endpoint(host: Seq<char>, port: u16)
    requires
        !host.contains('|'),
    ensures
        endpoint_in(parameters((ChannelModel::Udp { host, port }).text())) == Some(
            host + ":"@ + decimal(port as nat),
        ),
        endpoint_in(parameters(ChannelModel::Ipc.text())) is None,
{
    reveal_strlit("aeron:udp?endpoint=");
    reveal_strlit("aeron:udp");
    reveal_strlit("endpoint=");
    reveal_strlit("aeron:ipc");
    reveal_strlit(":");
    let value = host + ":"@ + decimal(port as nat);
    law_decimals_read_back(port as nat);
    assert(!value.contains('|')) by {
        if value.contains('|') {
            let i = choose|i: int| 0 <= i < value.len() && value[i] == '|';
            if i < host.len() {
                assert(host[i] == '|');
                assert(host.contains('|'));
            } else if i > host.len() {
                assert(decimal(port as nat)[i - host.len() - 1] == '|');
            }
        }
    }
    let text = (ChannelModel::Udp { host, port }).text();
    assert(text =~= "aeron:udp"@ + seq!['?'] + ("endpoint="@ + value));
    law_parameters_follow_the_question_mark("aeron:udp"@, "endpoint="@ + value);
    law_parameters_follow_the_question_mark("aeron:ipc"@, Seq::empty());
    let ipc = "aeron:ipc"@;
    assert(!starts_with(ipc, "endpoint="@)) by {
        assert(ipc.take(9)[0] == 'a');
        assert("endpoint="@[0] == 'e');
    }
    law_first_endpoint_counts(value, ipc, Seq::empty());
}

/// The characters that count as white space, by their codes.
pub proof fn law_white_space_has_these_codes(c: char)
    ensures
        ({
            let code = c as u32;
            white_space(c) <==> 9 <= code <= 13 || code == 0x20 || code == 0x85 || code == 0xa0
                || code == 0x1680 || 0x2000 <= code <= 0x200a || code == 0x2028 || code == 0x2029
                || code == 0x202f || code == 0x205f || code == 0x3000
        }),
{
}

/// Numbers, as they are written: their decimals read back.
pub proof fn law_decimal_text_reads_back(
    number: u64,
    text: String,
    signed: i32,
    signed_text: String,
)
    requires
        call_ensures(decimal_text, (number,), text),
        call_ensures(signed_decimal_text, (signed,), signed_text),
    ensures
        digits_value(text@) == number,
        signed >= 0 ==> digits_value(signed_text@) == signed,
        signed < 0 ==> signed_text@[0] == '-' && digits_value(signed_text@.skip(1)) == -signed,
{
    law_decimals_read_back(number as nat);
    if signed >= 0 {
        law_decimals_read_back(signed as nat);
    } else {
        let size = (-signed) as nat;
        law_decimals_read_back(size);
        law_signs_come_first(size);
        assert(signed_text@.skip(1) =~= decimal(size));
    }
}

/// Texts, as they are searched and taken apart.
pub proof fn law_texts_are_taken_apart(
    text: &str,
    prefix: &str,
    wanted: char,
    found: usize,
    has: bool,
    rest: Option<&str>,
)
    requires
        call_ensures(find_first, (text, wanted), found),
        call_ensures(has_prefix, (text, prefix), has),
        call_ensures(without_prefix, (text, prefix), rest),
    ensures
        found <= text@.len(),
        found < text@.len() ==> text@[found as int] == wanted,
        forall|i: int| 0 <= i < found ==> #[trigger] text@[i] != wanted,
        has <==> rest is Some,
        rest is Some ==> text@ == prefix@ + rest->0@,
        has <==> prefix@.len() <= text@.len() && forall|i: int|
            0 <= i < prefix@.len() ==> #[trigger] text@[i] == prefix@[i],
{
    law_first_places_are_first(text@, wanted, 0);
    assert forall|i: int| 0 <= i < found implies #[trigger] text@[i] != wanted by {
        law_first_places_are_first(text@, wanted, i);
    }
    if prefix@.len() <= text@.len() {
        let head = text@.take(prefix@.len() as int);
        if forall|i: int| 0 <= i < prefix@.len() ==> #[trigger] text@[i] == prefix@[i] {
            assert(head =~= prefix@);
        }
        if has {
            assert forall|i: int| 0 <= i < prefix@.len() implies #[trigger] text@[i]
                == prefix@[i] by {
                assert(head[i] == prefix@[i]);
            }
        }
    }
    if rest is Some {
        assert(text@ =~= prefix@ + rest->0@);
    }
}

/// What the rules of requests are called when they are broken.
pub proof fn law_protocol_errors_say_why(error: &ProtocolError, message: String)
    requires
        call_ensures(ProtocolError::message, (error,), message),
    ensures
        error is EmptyArgs ==> message@ == "control request args cannot be empty"@,
        error is EmptyIds ==> message@ == "subscription ids cannot be empty"@,
        error is EmptyStream ==> message@ == "subscription stream cannot be empty"@,
        error is InvalidNoiseFilter ==> message@
            == "noise_filter_bps must be finite and non-negative"@,
        error is InvalidRefetchStream ==> message@ == "refetch_bbo only supports the bbo stream"@,
{
}

/// What hubs, publishers, routers and clients say when they refuse.
pub proof fn law_refusals_say_why(
    hub: &HubError,
    join: &JoinError,
    unknown: &UnknownClient,
    link: &LinkError,
    hub_message: String,
    join_message: String,
    unknown_message: String,
    link_message: String,
)
    requires
        call_ensures(HubError::message, (hub,), hub_message),
        call_ensures(JoinError::message, (join,), join_message),
        call_ensures(UnknownClient::message, (unknown,), unknown_message),
        call_ensures(LinkError::message, (link,), link_message),
    ensures
        hub is Disabled ==> hub_message@ == "Aeron support is disabled"@,
        hub is WorkerStopped ==> hub_message@ == "Aeron publisher thread stopped"@,
        hub is ReplyDropped ==> hub_message@ == "Aeron publisher thread dropped join reply"@,
        hub is QueueFull ==> hub_message@ == "Aeron publisher queue is full"@,
        hub matches HubError::AnotherStream { client_id } ==> hub_message@ == "client "@ + decimal(
            *client_id as nat,
        ) + " has already selected another Aeron stream"@,
        hub matches HubError::Publication { message } ==> hub_message@ == message@,
        join is Disabled ==> join_message@ == "Aeron support is disabled"@,
        join matches JoinError::AnotherStream { client_id } ==> join_message@ == "client "@
            + decimal(*client_id as nat) + " has already selected another Aeron stream"@,
        join matches JoinError::Registration { message } ==> join_message@ == message@,
        unknown_message@ == "unknown link client "@ + decimal(unknown.client_id as nat),
        link is AeronDisabled ==> link_message@
            == "Aeron transport selected while [aeron].enabled is false"@,
        link is NotReady ==> link_message@ == "data transport is not ready"@,
        link is Ended ==> link_message@ == "control WebSocket closed"@,
        link matches LinkError::Closed(reason) ==> link_message@ == "control WebSocket closed: "@
            + reason@,
        link matches LinkError::Protocol(error) ==> link_message@ == error.text(),
{
}

/// Numbers with a point, as they are asked about: what the bits say.
pub proof fn law_numbers_answer_by_their_bits(
    number: &Float64,
    nan: bool,
    finite: bool,
    zero: bool,
    below: bool,
)
    requires
        call_ensures(Float64::is_nan, (number,), nan),
        call_ensures(Float64::is_finite, (number,), finite),
        call_ensures(Float64::is_zero, (number,), zero),
        call_ensures(Float64::is_below_zero, (number,), below),
    ensures
        zero <==> number.bits == 0 || number.bits == 0x8000_0000_0000_0000,
        finite <==> number.bits < 0x7ff0_0000_0000_0000 || 0x8000_0000_0000_0000 <= number.bits
            < 0xfff0_0000_0000_0000,
        nan <==> 0x7ff0_0000_0000_0000 < number.bits < 0x8000_0000_0000_0000 || number.bits
            > 0xfff0_0000_0000_0000,
        below <==> 0x8000_0000_0000_0000 < number.bits <= 0xfff0_0000_0000_0000,
{
}

/// Two numbers with a point, as they are compared.
pub proof fn law_numbers_compare(
    left: &Float64,
    right: &Float64,
    equal: bool,
    less: bool,
    greater: bool,
    least: Float64,
)
    requires
        call_ensures(Float64::equals, (left, right), equal),
        call_ensures(Float64::less_than, (left, right), less),
        call_ensures(Float64::less_than, (right, left), greater),
        call_ensures(Float64::lesser, (left, right), least),
    ensures
        left.nan() || right.nan() ==> !equal && !less && !greater,
        !left.nan() && !right.nan() ==> (equal || less || greater) && !(equal && less) && !(equal
            && greater) && !(less && greater),
        left.bits < right.bits <= 0x7ff0_0000_0000_0000 ==> less,
        less ==> least == *left,
        greater ==> least == *right,
        left.nan() ==> least == *right,
        right.nan() && !left.nan() ==> least == *left,
{
}

} // verus!
