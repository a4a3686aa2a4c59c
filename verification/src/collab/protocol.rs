//! The outermost layer: the version that a client speaks, and the frames in which it does.

use vstd::prelude::*;
use vstd::string::*;

use crate::strings::{decimal, law_decimal_round_trip, number_value, parse_u32, to_decimal};

verus! {

/// The name of the header that holds the version that a client speaks.
pub fn protocol_version_header() -> (name: &'static str)
    ensures
        name@ == "x-zed-protocol-version"@,
{
    "x-zed-protocol-version"
}

/// A header value of `http`: an opaque value.
#[verifier::external_type_specification]
#[verifier::external_body]
pub struct ExHeaderValue(axum::http::HeaderValue);

/// The text that a header value holds, if it holds nothing but visible ASCII.
pub uninterp spec fn header_text(value: axum::http::HeaderValue) -> Option<Seq<char>>;

/// Calls `axum::http::HeaderValue::to_str`, which returns the text of a header value, and
/// fails where it holds anything but visible ASCII.
#[verifier::external_body]
fn value_text(value: &axum::http::HeaderValue) -> (text: Option<&str>)
    ensures
        match text {
            Some(text) => header_text(*value) == Some(text@),
            None => header_text(*value) is None,
        },
{
    value.to_str().ok()
}

/// Whether a text holds nothing but decimal digits.
pub open spec fn only_digits(text: Seq<char>) -> bool {
    forall|index: int| 0 <= index < text.len() ==> '0' <= #[trigger] text[index] <= '9'
}

/// Calls `axum::http::HeaderValue::from_str`, which makes a header value that holds a text. It
/// cannot fail on a text of digits. Not stated: what it makes of other texts.
#[verifier::external_body]
fn value_of(text: &str) -> (value: Option<axum::http::HeaderValue>)
    ensures
        only_digits(text@) ==> (value matches Some(value) && header_text(value) == Some(text@)),
{
    axum::http::HeaderValue::from_str(text).ok()
}

/// The version that a client speaks.
#[derive(Clone, Copy, Debug, PartialEq, Eq, Structural)]
pub struct ProtocolVersion(pub u32);

/// A header that does not hold what it should.
#[derive(Clone, Copy, Debug, PartialEq, Eq, Structural)]
pub struct InvalidHeader;

/// The version that some header values give: the first of them has to be a number of at most
/// 32 bits.
pub open spec fn version_in(values: Seq<axum::http::HeaderValue>) -> Option<u32> {
    if values.len() == 0 {
        None
    } else {
        match header_text(values[0]) {
            Some(text) => match number_value(text) {
                Some(number) => if number <= u32::MAX {
                    Some(number as u32)
                } else {
                    None
                },
                None => None,
            },
            None => None,
        }
    }
}

impl ProtocolVersion {
    /// Reads the version from the values of its header.
    pub fn decode(values: &[axum::http::HeaderValue]) -> (version: Result<
        ProtocolVersion,
        InvalidHeader,
    >)
        ensures
            version == (match version_in(values@) {
                Some(number) => Ok(ProtocolVersion(number)),
                None => Err(InvalidHeader),
            }),
    {
        if values.len() == 0 {
            return Err(InvalidHeader);
        }
        match value_text(&values[0]) {
            Some(text) => match parse_u32(text) {
                Some(number) => Ok(ProtocolVersion(number)),
                None => Err(InvalidHeader),
            },
            None => Err(InvalidHeader),
        }
    }

    /// Adds the value of the header that holds the version.
    pub fn encode(&self, values: &mut Vec<axum::http::HeaderValue>)
        ensures
            final(values)@.len() == old(values)@.len() + 1,
            final(values)@.drop_last() == old(values)@,
            header_text(final(values)@.last()) == Some(decimal(self.0 as nat)),
    {
        let text: String = to_decimal(self.0 as u64);
        proof {
            lemma_decimal_is_digits(self.0 as nat);
        }
        match value_of(text.as_str()) {
            Some(value) => values.push(value),
            None => vstd::pervasive::unreached(),
        }
        assert(values@.drop_last() =~= old(values)@);
    }

    /// Whether a client that speaks this version can be served.
    pub fn check(&self, served: u32) -> (outcome: Result<(), UpgradeRequired>)
        ensures
            outcome == (if self.0 == served {
                Ok(())
            } else {
                Err(UpgradeRequired)
            }),
    {
        if self.0 == served {
            Ok(())
        } else {
            Err(UpgradeRequired)
        }
    }
}

/// A number in decimal holds nothing but digits.
proof fn lemma_decimal_is_digits(value: nat)
    ensures
        only_digits(decimal(value)),
    decreases value,
{
    if value >= 10 {
        lemma_decimal_is_digits(value / 10);
        let high = decimal(value / 10);
        let all = decimal(value);
        assert forall|index: int| 0 <= index < all.len() implies '0' <= #[trigger] all[index]
            <= '9' by {
            if index < high.len() {
                assert(all[index] == high[index]);
            }
        }
    }
}

/// A version that was written to a header is read back from it.
pub proof fn law_version_round_trip(version: u32, value: axum::http::HeaderValue)
    requires
        header_text(value) == Some(decimal(version as nat)),
    ensures
        version_in(seq![value]) == Some(version),
{
    law_decimal_round_trip(version as nat);
}

/// The client speaks another version.
#[derive(Clone, Copy, Debug, PartialEq, Eq, Structural)]
pub struct UpgradeRequired;

/// The status of the answer to a client that speaks another version.
pub const UPGRADE_REQUIRED_STATUS: u16 = 426;

impl UpgradeRequired {
    /// What the client is told.
    pub fn text(&self) -> (text: &'static str)
        ensures
            text@ == "client must be upgraded"@,
    {
        "client must be upgraded"
    }
}

/// The status of an answer that holds what was asked for.
pub const OK_STATUS: u16 = 200;

/// The status of an answer where something went wrong in the server.
pub const INTERNAL_ERROR_STATUS: u16 = 500;

/// The answer to someone who asks for the numbers that are watched: the numbers, or what went
/// wrong with writing them down.
pub fn metrics_response(encoded: Result<String, String>) -> (response: (u16, String))
    ensures
        match encoded {
            Ok(text) => response == (OK_STATUS, text),
            Err(error) => response.0 == INTERNAL_ERROR_STATUS && response.1@
                == "failed to encode metrics "@ + error@,
        },
{
    match encoded {
        Ok(text) => (OK_STATUS, text),
        Err(error) => {
            let mut text: String = "failed to encode metrics ".to_string();
            text.append(error.as_str());
            (INTERNAL_ERROR_STATUS, text)
        },
    }
}

/// A close code of `tungstenite`: an opaque value.
#[verifier::external_type_specification]
#[verifier::external_body]
pub struct ExCloseCode(
    async_tungstenite::tungstenite::protocol::frame::coding::CloseCode,
);

/// The number of a close code.
pub uninterp spec fn close_number(
    code: async_tungstenite::tungstenite::protocol::frame::coding::CloseCode,
) -> u16;

/// Calls the conversion of a `tungstenite` close code to its number.
#[verifier::external_body]
fn number_of_code(
    code: async_tungstenite::tungstenite::protocol::frame::coding::CloseCode,
) -> (number: u16)
    ensures
        number == close_number(code),
{
    u16::from(code)
}

/// Calls the conversion of a number to the `tungstenite` close code that has it. Every number
/// has one, and keeps it when it is converted back.
#[verifier::external_body]
fn code_of_number(number: u16) -> (code:
    async_tungstenite::tungstenite::protocol::frame::coding::CloseCode)
    ensures
        close_number(code) == number,
{
    async_tungstenite::tungstenite::protocol::frame::coding::CloseCode::from(number)
}

/// Why a connection is closed: with a code of type `C`, and in words.
#[derive(Debug)]
pub struct CloseFrame<C> {
    pub code: C,
    pub reason: String,
}

/// A frame of a web socket, in which close codes are of type `C`.
#[derive(Debug)]
pub enum Frame<C> {
    Text(String),
    Binary(Vec<u8>),
    Ping(Vec<u8>),
    Pong(Vec<u8>),
    Close(Option<CloseFrame<C>>),
}

/// Whether two frames are the same but for the form of their close codes.
pub open spec fn same_frame(
    numbered: Frame<u16>,
    coded: Frame<async_tungstenite::tungstenite::protocol::frame::coding::CloseCode>,
) -> bool {
    match (numbered, coded) {
        (Frame::Text(left), Frame::Text(right)) => left == right,
        (Frame::Binary(left), Frame::Binary(right)) => left == right,
        (Frame::Ping(left), Frame::Ping(right)) => left == right,
        (Frame::Pong(left), Frame::Pong(right)) => left == right,
        (Frame::Close(None), Frame::Close(None)) => true,
        (Frame::Close(Some(left)), Frame::Close(Some(right))) => left.code == close_number(
            right.code,
        ) && left.reason == right.reason,
        _ => false,
    }
}

/// Turns a frame into one whose close code is a number.
pub fn to_axum_message(
    message: Frame<async_tungstenite::tungstenite::protocol::frame::coding::CloseCode>,
) -> (frame: Frame<u16>)
    ensures
        same_frame(frame, message),
{
    match message {
        Frame::Text(payload) => Frame::Text(payload),
        Frame::Binary(payload) => Frame::Binary(payload),
        Frame::Ping(payload) => Frame::Ping(payload),
        Frame::Pong(payload) => Frame::Pong(payload),
        Frame::Close(Some(frame)) => Frame::Close(
            Some(CloseFrame { code: number_of_code(frame.code), reason: frame.reason }),
        ),
        Frame::Close(None) => Frame::Close(None),
    }
}

/// Turns a frame whose close code is a number into one with the code itself.
pub fn to_tungstenite_message(message: Frame<u16>) -> (frame: Frame<
    async_tungstenite::tungstenite::protocol::frame::coding::CloseCode,
>)
    ensures
        same_frame(message, frame),
{
    match message {
        Frame::Text(payload) => Frame::Text(payload),
        Frame::Binary(payload) => Frame::Binary(payload),
        Frame::Ping(payload) => Frame::Ping(payload),
        Frame::Pong(payload) => Frame::Pong(payload),
        Frame::Close(Some(frame)) => Frame::Close(
            Some(CloseFrame { code: code_of_number(frame.code), reason: frame.reason }),
        ),
        Frame::Close(None) => Frame::Close(None),
    }
}

/// A frame that is turned into the other form and back is what it was.
pub proof fn law_frames_come_back(
    first: Frame<u16>,
    coded: Frame<async_tungstenite::tungstenite::protocol::frame::coding::CloseCode>,
    second: Frame<u16>,
)
    requires
        same_frame(first, coded),
        same_frame(second, coded),
    ensures
        first == second,
{
}

/// The first value of the header counts, whatever follows it, and there has to be one that is a
/// number of at most 32 bits.
pub proof fn law_the_first_value_counts(
    value: axum::http::HeaderValue,
    rest: Seq<axum::http::HeaderValue>,
)
    ensures
        version_in(seq![value] + rest) == version_in(seq![value]),
        version_in(Seq::<axum::http::HeaderValue>::empty()) is None,
        header_text(value) is None ==> version_in(seq![value]) is None,
        header_text(value) matches Some(text) ==> match number_value(text) {
            Some(number) => if number <= 0xffff_ffff {
                version_in(seq![value]) matches Some(version) && version == number
            } else {
                version_in(seq![value]) is None
            },
            None => version_in(seq![value]) is None,
        },
{
    assert((seq![value] + rest)[0] == value);
}

/// Frames of both forms are of the same kind and hold the same, and a close code is the same number.
pub proof fn law_frames_keep_what_they_hold(
    numbered: Frame<u16>,
    coded: Frame<async_tungstenite::tungstenite::protocol::frame::coding::CloseCode>,
)
    requires
        same_frame(numbered, coded),
    ensures
        numbered is Text <==> coded is Text,
        numbered is Binary <==> coded is Binary,
        numbered is Ping <==> coded is Ping,
        numbered is Pong <==> coded is Pong,
        numbered is Close <==> coded is Close,
        numbered matches Frame::Text(text) ==> (coded matches Frame::Text(same) && same
            == text),
        numbered matches Frame::Binary(payload) ==> (coded matches Frame::Binary(same) && same
            == payload),
        numbered matches Frame::Ping(payload) ==> (coded matches Frame::Ping(same) && same
            == payload),
        numbered matches Frame::Pong(payload) ==> (coded matches Frame::Pong(same) && same
            == payload),
        numbered matches Frame::Close(Some(left)) ==> (coded matches Frame::Close(Some(right))
            && left.reason == right.reason && left.code == close_number(right.code)),
{
}

} // verus!
