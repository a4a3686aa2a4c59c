use async_tungstenite::tungstenite::protocol::frame::coding::CloseCode;
use axum::http::HeaderValue;
use collaboration::collab::executor::ResultExt;
use collaboration::collab::protocol::{
    metrics_response, protocol_version_header, to_axum_message, to_tungstenite_message, CloseFrame,
    Frame, InvalidHeader, ProtocolVersion, UpgradeRequired,
};

#[test]
fn versions_are_written_and_read_back() {
    let mut values = vec![HeaderValue::from_static("before")];
    ProtocolVersion(39).encode(&mut values);
    assert_eq!(values[0], "before");
    assert_eq!(values[1], "39");
    assert_eq!(
        ProtocolVersion::decode(&values[1..]),
        Ok(ProtocolVersion(39))
    );
    assert_eq!(protocol_version_header(), "x-zed-protocol-version");
}

#[test]
fn headers_without_a_number_are_refused() {
    let decode = |bytes: &[u8]| {
        ProtocolVersion::decode(&[
            HeaderValue::from_bytes(bytes).unwrap(),
            HeaderValue::from_static("1"),
        ])
    };
    assert_eq!(decode(b"12"), Ok(ProtocolVersion(12)));
    assert_eq!(decode(b"x"), Err(InvalidHeader));
    assert_eq!(decode(b""), Err(InvalidHeader));
    assert_eq!(decode(b"1 "), Err(InvalidHeader));
    assert_eq!(decode(b"4294967296"), Err(InvalidHeader));
    assert_eq!(decode(&[0xff, b'1']), Err(InvalidHeader));
    assert_eq!(ProtocolVersion::decode(&[]), Err(InvalidHeader));
}

#[test]
fn other_versions_must_be_upgraded() {
    assert_eq!(ProtocolVersion(3).check(3), Ok(()));
    assert_eq!(ProtocolVersion(2).check(3), Err(UpgradeRequired));
    assert_eq!(UpgradeRequired.text(), "client must be upgraded");
}

#[test]
fn close_codes_keep_their_numbers() {
    for number in [0u16, 999, 1000, 1001, 1004, 1014, 1015, 1016, 2999, 3000, 4000, 5000, u16::MAX] {
        let frame = to_tungstenite_message(Frame::Close(Some(CloseFrame {
            code: number,
            reason: "why".to_string(),
        })));
        match to_axum_message(frame) {
            Frame::Close(Some(close)) => {
                assert_eq!(close.code, number);
                assert_eq!(close.reason, "why");
            }
            _ => unreachable!(),
        }
    }
    let frame = to_axum_message(Frame::Close(Some(CloseFrame {
        code: CloseCode::Away,
        reason: String::new(),
    })));
    assert!(matches!(frame, Frame::Close(Some(CloseFrame { code: 1001, .. }))));
}

#[test]
fn frames_keep_their_contents() {
    assert!(matches!(
        to_axum_message(Frame::Text("a".to_string())),
        Frame::Text(text) if text == "a"
    ));
    assert!(matches!(
        to_tungstenite_message(Frame::Binary(vec![1])),
        Frame::Binary(bytes) if bytes == [1]
    ));
    assert!(matches!(
        to_tungstenite_message(Frame::Ping(vec![2])),
        Frame::Ping(bytes) if bytes == [2]
    ));
    assert!(matches!(
        to_tungstenite_message(Frame::Pong(vec![3])),
        Frame::Pong(bytes) if bytes == [3]
    ));
    assert!(matches!(to_axum_message(Frame::Close(None)), Frame::Close(None)));
    assert!(matches!(
        to_tungstenite_message(Frame::Close(None)),
        Frame::Close(None)
    ));
}

#[test]
fn errors_are_traced_away() {
    let fine: Result<u8, String> = Ok(1);
    let wrong: Result<u8, String> = Err("no".to_string());
    assert_eq!(fine.trace_err(), Some(1));
    assert_eq!(wrong.trace_err(), None);
}

#[test]
fn metrics_are_handed_out_or_the_fault_is() {
    assert_eq!(
        metrics_response(Ok("connections 3".to_string())),
        (200, "connections 3".to_string())
    );
    assert_eq!(
        metrics_response(Err("Msg(\"bad\")".to_string())),
        (500, "failed to encode metrics Msg(\"bad\")".to_string())
    );
}
