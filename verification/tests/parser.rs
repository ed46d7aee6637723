use moqt::message::message_parser::{MessageParser, MessageParserEvent, ParserErrorCode};
use moqt::message::object::{ObjectForwardingPreference, ObjectHeader, ObjectStatus};
use moqt::message::ControlMessage;

const K_RAW_QUIC: bool = false;
const K_WEB_TRANS: bool = true;

enum MessageStructuredData {
    Control(ControlMessage),
    Object(ObjectHeader),
}

struct TestParserVisitor {
    object_payload: Option<Vec<u8>>,
    end_of_message: bool,
    parsing_error: Option<String>,
    parsing_error_code: ParserErrorCode,
    messages_received: u64,
    last_message: Option<MessageStructuredData>,
}

impl TestParserVisitor {
    fn new() -> Self {
        Self {
            object_payload: None,
            end_of_message: false,
            parsing_error: None,
            parsing_error_code: ParserErrorCode::NoError,
            messages_received: 0,
            last_message: None,
        }
    }

    fn handle_event(&mut self, event: MessageParserEvent) {
        match event {
            MessageParserEvent::ParsingError(code, reason) => {
                self.parsing_error = Some(reason);
                self.parsing_error_code = code;
            }
            MessageParserEvent::ObjectMessage(message, payload, end_of_message) => {
                self.object_payload = Some(payload);
                self.end_of_message = end_of_message;
                self.messages_received += 1;
                self.last_message = Some(MessageStructuredData::Object(message));
            }
            MessageParserEvent::ControlMessage(message) => {
                self.end_of_message = true;
                self.messages_received += 1;
                self.last_message = Some(MessageStructuredData::Control(message));
            }
        }
    }

    fn drain(&mut self, parser: &mut MessageParser) {
        while let Some(event) = parser.poll_event() {
            self.handle_event(event);
        }
    }

    fn last_object(&self) -> Option<ObjectHeader> {
        match self.last_message.as_ref() {
            Some(MessageStructuredData::Object(h)) => Some(*h),
            _ => None,
        }
    }
}

/// The header that the object stream below carries.
fn object_stream_header() -> ObjectHeader {
    ObjectHeader {
        subscribe_id: 3,
        track_alias: 4,
        group_id: 5,
        object_id: 6,
        object_send_order: 7,
        object_status: ObjectStatus::Normal,
        object_forwarding_preference: ObjectForwardingPreference::Object,
        object_payload_length: None,
    }
}

fn object_stream_packet() -> Vec<u8> {
    vec![
        0x00, 0x03, 0x04, 0x05, 0x06, 0x07, 0x00, // varints
        0x66, 0x6f, 0x6f, // payload = "foo"
    ]
}

#[test]
fn test_object_stream_separate_fin() {
    let mut tester = TestParserVisitor::new();
    // OBJECT can return on an unknown-length message even without receiving a
    // FIN.
    let mut parser = MessageParser::new(K_RAW_QUIC);
    parser.process_data(&object_stream_packet(), false);
    tester.drain(&mut parser);
    assert_eq!(tester.messages_received, 1);
    assert_eq!(tester.last_object(), Some(object_stream_header()));
    assert_eq!(tester.object_payload, Some(b"foo".to_vec()));
    assert!(!tester.end_of_message);

    let empty: Vec<u8> = vec![];
    parser.process_data(&empty, true); // send the FIN
    tester.drain(&mut parser);
    assert_eq!(tester.messages_received, 2);
    assert_eq!(tester.last_object(), Some(object_stream_header()));
    assert_eq!(tester.object_payload, Some(b"".to_vec()));
    assert!(tester.end_of_message);
    assert!(tester.parsing_error.is_none());
}

// Send the header + some payload, pure payload, then pure payload to end the
// message.
#[test]
fn test_three_part_object() {
    let mut tester = TestParserVisitor::new();
    let mut parser = MessageParser::new(K_RAW_QUIC);
    parser.process_data(&object_stream_packet(), false);
    tester.drain(&mut parser);
    assert_eq!(tester.messages_received, 1);
    assert_eq!(tester.last_object(), Some(object_stream_header()));
    assert!(!tester.end_of_message);
    assert_eq!(tester.object_payload, Some(b"foo".to_vec()));

    // second part
    parser.process_data(b"bar", false);
    tester.drain(&mut parser);
    assert_eq!(tester.messages_received, 2);
    assert_eq!(tester.last_object(), Some(object_stream_header()));
    assert!(!tester.end_of_message);
    assert_eq!(tester.object_payload, Some(b"bar".to_vec()));

    // third part includes FIN
    parser.process_data(b"deadbeef", true);
    tester.drain(&mut parser);
    assert_eq!(tester.messages_received, 3);
    assert_eq!(tester.last_object(), Some(object_stream_header()));
    assert!(tester.end_of_message);
    assert_eq!(tester.object_payload, Some(b"deadbeef".to_vec()));
    assert!(tester.parsing_error.is_none());
}

// Send the part of header, rest of header + payload, plus payload.
#[test]
fn test_three_part_object_first_incomplete() {
    let mut tester = TestParserVisitor::new();
    let mut parser = MessageParser::new(K_RAW_QUIC);
    let mut packet = object_stream_packet();

    // first part
    parser.process_data(&packet[0..4], false);
    tester.drain(&mut parser);
    assert_eq!(tester.messages_received, 0);

    // second part. Add padding to it.
    packet.resize(100, 0);
    parser.process_data(&packet[4..100], false);
    tester.drain(&mut parser);
    assert_eq!(tester.messages_received, 1);
    assert_eq!(tester.last_object(), Some(object_stream_header()));
    assert!(!tester.end_of_message);
    // The value "93" is the overall wire image size of 100 minus the non-payload
    // part of the message.
    assert_eq!(tester.object_payload.as_ref().unwrap().len(), 93);

    // third part includes FIN
    parser.process_data(b"bar", true);
    tester.drain(&mut parser);
    assert_eq!(tester.messages_received, 2);
    assert_eq!(tester.last_object(), Some(object_stream_header()));
    assert!(tester.end_of_message);
    assert_eq!(tester.object_payload, Some(b"bar".to_vec()));
    assert!(tester.parsing_error.is_none());
}

fn stream_header(pref: ObjectForwardingPreference, object_id: u64) -> ObjectHeader {
    ObjectHeader {
        subscribe_id: 3,
        track_alias: 4,
        group_id: 5,
        object_id,
        object_send_order: 7,
        object_status: ObjectStatus::Normal,
        object_forwarding_preference: pref,
        object_payload_length: Some(3),
    }
}

#[test]
fn test_stream_header_group_follow_on() {
    let mut tester = TestParserVisitor::new();
    let mut parser = MessageParser::new(K_RAW_QUIC);
    // first part
    let message1: Vec<u8> = vec![0x40, 0x51, 0x03, 0x04, 0x05, 0x07, 0x06, 0x03, 0x66, 0x6f, 0x6f];
    parser.process_data(&message1, false);
    tester.drain(&mut parser);
    assert_eq!(tester.messages_received, 1);
    assert_eq!(tester.last_object(), Some(stream_header(ObjectForwardingPreference::Group, 6)));
    assert!(tester.end_of_message);
    assert_eq!(tester.object_payload, Some(b"foo".to_vec()));
    assert!(tester.parsing_error.is_none());
    // second part
    let message2: Vec<u8> = vec![0x09, 0x03, 0x62, 0x61, 0x72];
    parser.process_data(&message2, false);
    tester.drain(&mut parser);
    assert_eq!(tester.messages_received, 2);
    assert_eq!(tester.last_object(), Some(stream_header(ObjectForwardingPreference::Group, 9)));
    assert!(tester.end_of_message);
    assert_eq!(tester.object_payload, Some(b"bar".to_vec()));
    assert!(tester.parsing_error.is_none());
}

#[test]
fn test_stream_header_track_follow_on() {
    let mut tester = TestParserVisitor::new();
    let mut parser = MessageParser::new(K_RAW_QUIC);
    // first part
    let message1: Vec<u8> = vec![0x40, 0x50, 0x03, 0x04, 0x07, 0x05, 0x06, 0x03, 0x66, 0x6f, 0x6f];
    parser.process_data(&message1, false);
    tester.drain(&mut parser);
    assert_eq!(tester.messages_received, 1);
    assert_eq!(tester.last_object(), Some(stream_header(ObjectForwardingPreference::Track, 6)));
    assert!(tester.end_of_message);
    assert_eq!(tester.object_payload, Some(b"foo".to_vec()));
    assert!(tester.parsing_error.is_none());
    // second part
    let message2: Vec<u8> = vec![0x05, 0x09, 0x03, 0x62, 0x61, 0x72];
    parser.process_data(&message2, false);
    tester.drain(&mut parser);
    assert_eq!(tester.messages_received, 2);
    assert_eq!(tester.last_object(), Some(stream_header(ObjectForwardingPreference::Track, 9)));
    assert!(tester.end_of_message);
    assert_eq!(tester.object_payload, Some(b"bar".to_vec()));
    assert!(tester.parsing_error.is_none());
}

fn expect_error(uses_web_transport: bool, packet: &[u8], reason: &str, code: ParserErrorCode) {
    let mut tester = TestParserVisitor::new();
    let mut parser = MessageParser::new(uses_web_transport);
    parser.process_data(packet, false);
    tester.drain(&mut parser);
    assert_eq!(tester.messages_received, 0);
    assert!(tester.parsing_error.is_some());
    assert_eq!(tester.parsing_error, Some(reason.to_string()));
    assert_eq!(tester.parsing_error_code, code);
}

#[test]
fn test_client_setup_role_is_invalid() {
    let setup = vec![
        0x40, 0x40, 0x02, 0x01, 0x02, // versions
        0x02, // 2 params
        0x00, 0x01, 0x04, // role = invalid
        0x01, 0x03, 0x66, 0x6f, 0x6f, // path = "foo"
    ];
    expect_error(K_RAW_QUIC, &setup, "Invalid ROLE parameter", ParserErrorCode::ProtocolViolation);
}

#[test]
fn test_server_setup_role_is_invalid() {
    let setup = vec![
        0x40, 0x41, 0x01, 0x02, // 2 param
        0x00, 0x01, 0x04, // role = invalid
        0x01, 0x03, 0x66, 0x6f, 0x6f, // path = "foo"
    ];
    expect_error(K_RAW_QUIC, &setup, "Invalid ROLE parameter", ParserErrorCode::ProtocolViolation);
}

#[test]
fn test_setup_role_appears_twice() {
    let setup = vec![
        0x40, 0x40, 0x02, 0x01, 0x02, // versions
        0x03, // 3 params
        0x00, 0x01, 0x03, // role = PubSub
        0x00, 0x01, 0x03, // role = PubSub
        0x01, 0x03, 0x66, 0x6f, 0x6f, // path = "foo"
    ];
    expect_error(
        K_RAW_QUIC,
        &setup,
        "ROLE parameter appears twice in SETUP",
        ParserErrorCode::ProtocolViolation,
    );
}

#[test]
fn test_client_setup_role_is_missing() {
    let setup = vec![
        0x40, 0x40, 0x02, 0x01, 0x02, // versions = 1, 2
        0x01, // 1 param
        0x01, 0x03, 0x66, 0x6f, 0x6f, // path = "foo"
    ];
    expect_error(
        K_RAW_QUIC,
        &setup,
        "ROLE parameter missing from CLIENT_SETUP message",
        ParserErrorCode::ProtocolViolation,
    );
}

#[test]
fn test_server_setup_role_is_missing() {
    let setup = vec![
        0x40, 0x41, 0x01, 0x00, // 1 param
    ];
    expect_error(
        K_RAW_QUIC,
        &setup,
        "ROLE parameter missing from SERVER_SETUP message",
        ParserErrorCode::ProtocolViolation,
    );
}

#[test]
fn test_setup_role_varint_length_is_wrong() {
    let setup = vec![
        0x40, 0x40, // type
        0x02, 0x01, 0x02, // versions
        0x02, // 2 parameters
        0x00, 0x02, 0x03, // role = PubSub, but length is 2
        0x01, 0x03, 0x66, 0x6f, 0x6f, // path = "foo"
    ];
    expect_error(
        K_RAW_QUIC,
        &setup,
        "Parameter length does not match varint encoding",
        ParserErrorCode::ParameterLengthMismatch,
    );
}

#[test]
fn test_setup_path_from_server() {
    let setup = vec![
        0x40, 0x41, 0x01, // version = 1
        0x01, // 1 param
        0x01, 0x03, 0x66, 0x6f, 0x6f, // path = "foo"
    ];
    expect_error(
        K_RAW_QUIC,
        &setup,
        "PATH parameter in SERVER_SETUP",
        ParserErrorCode::ProtocolViolation,
    );
}

#[test]
fn test_setup_path_appears_twice() {
    let setup = vec![
        0x40, 0x40, 0x02, 0x01, 0x02, // versions = 1, 2
        0x03, // 3 params
        0x00, 0x01, 0x03, // role = PubSub
        0x01, 0x03, 0x66, 0x6f, 0x6f, // path = "foo"
        0x01, 0x03, 0x66, 0x6f, 0x6f, // path = "foo"
    ];
    expect_error(
        K_RAW_QUIC,
        &setup,
        "PATH parameter appears twice in CLIENT_SETUP",
        ParserErrorCode::ProtocolViolation,
    );
}

#[test]
fn test_setup_path_over_webtrans() {
    let setup = vec![
        0x40, 0x40, 0x02, 0x01, 0x02, // versions = 1, 2
        0x02, // 2 params
        0x00, 0x01, 0x03, // role = PubSub
        0x01, 0x03, 0x66, 0x6f, 0x6f, // path = "foo"
    ];
    expect_error(
        K_WEB_TRANS,
        &setup,
        "WebTransport connection is using PATH parameter in SETUP",
        ParserErrorCode::ProtocolViolation,
    );
}

#[test]
fn test_setup_path_missing() {
    let setup = vec![
        0x40, 0x40, 0x02, 0x01, 0x02, // versions = 1, 2
        0x01, // 1 param
        0x00, 0x01, 0x03, // role = PubSub
    ];
    expect_error(
        K_RAW_QUIC,
        &setup,
        "PATH SETUP parameter missing from Client message over QUIC",
        ParserErrorCode::ProtocolViolation,
    );
}

#[test]
fn test_subscribe_authorization_info_twice() {
    let subscribe = vec![
        0x03, 0x01, 0x02, 0x03, 0x66, 0x6f, 0x6f, // track_namespace = "foo"
        0x04, 0x61, 0x62, 0x63, 0x64, // track_name = "abcd"
        0x02, // filter_type = kLatestObject
        0x02, // two params
        0x02, 0x03, 0x62, 0x61, 0x72, // authorization_info = "bar"
        0x02, 0x03, 0x62, 0x61, 0x72, // authorization_info = "bar"
    ];
    expect_error(
        K_WEB_TRANS,
        &subscribe,
        "AUTHORIZATION_INFO parameter appears twice in SUBSCRIBE",
        ParserErrorCode::ProtocolViolation,
    );
}

#[test]
fn test_subscribe_update_authorization_info_twice() {
    let subscribe_update = vec![
        0x02, 0x02, 0x03, 0x01, 0x05, 0x06, // start and end sequences
        0x02, // 2 parameters
        0x02, 0x03, 0x62, 0x61, 0x72, // authorization_info = "bar"
        0x02, 0x03, 0x62, 0x61, 0x72, // authorization_info = "bar"
    ];
    expect_error(
        K_WEB_TRANS,
        &subscribe_update,
        "AUTHORIZATION_INFO parameter appears twice in SUBSCRIBE_UPDATE",
        ParserErrorCode::ProtocolViolation,
    );
}
