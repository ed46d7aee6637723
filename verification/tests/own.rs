use moqt::protocol::{Config, EventIn, EventOut, Perspective, ReadInput, SessionCore, WriteOutput};
use moqt::error::ErrorCode;
use moqt::message::fetch::{Fetch, FetchTarget, FetchType, JoiningFetch, StandaloneFetch};
use moqt::message::message_framer::MessageFramer;
use moqt::message::message_parser::{MessageParser, MessageParserEvent};
use moqt::message::object::group::GroupObject;
use moqt::message::object::stream::StreamObject;
use moqt::message::object::track::TrackObject;
use moqt::message::object::{ObjectForwardingPreference, ObjectHeader, ObjectStatus};
use moqt::message::subscribe::Subscribe;
use moqt::message::unsubscribe::UnSubscribe;
use moqt::message::{ControlMessage, FilterType, FullSequence, FullTrackName, MessageType};
use moqt::moqt_priority::{
    kMoqtControlStreamSendOrder, send_order_for_stream, update_send_order_for_subscriber_priority,
    MoqtDeliveryOrder,
};
use moqt::serde::varint::{read_var_int, write_var_int};
use moqt::serde::{read_string, Deserializer, Serializer};
use moqt::session::local_track::LocalTrack;
use moqt::session::subscribe_window::SubscribeWindow;
use moqt::Error;

fn seq(group_id: u64, object_id: u64) -> FullSequence {
    FullSequence { group_id, object_id }
}

#[test]
fn var_int_lengths_at_each_boundary() {
    let cases: Vec<(u64, Vec<u8>)> = vec![
        (0, vec![0x00]),
        (63, vec![0x3f]),
        (64, vec![0x40, 0x40]),
        (16383, vec![0x7f, 0xff]),
        (16384, vec![0x80, 0x00, 0x40, 0x00]),
        (0x3fff_ffff, vec![0xbf, 0xff, 0xff, 0xff]),
        (0x4000_0000, vec![0xc0, 0, 0, 0, 0x40, 0, 0, 0]),
        (0x3fff_ffff_ffff_ffff, vec![0xff, 0xff, 0xff, 0xff, 0xff, 0xff, 0xff, 0xff]),
    ];
    for (v, bytes) in cases {
        let mut w = vec![];
        assert_eq!(write_var_int(v, &mut w), Ok(bytes.len()));
        assert_eq!(w, bytes);
        assert_eq!(read_var_int(&w, 0), Ok((v, bytes.len())));
    }
}

#[test]
fn var_int_too_large_is_refused_and_writes_nothing() {
    let mut w = vec![0xaa];
    assert_eq!(write_var_int(0x4000_0000_0000_0000, &mut w), Err(Error::ErrVarIntBoundsExceeded));
    assert_eq!(w, vec![0xaa]);
}

#[test]
fn var_int_truncated_input() {
    assert_eq!(read_var_int(&[], 0), Err(Error::ErrUnexpectedEnd));
    assert_eq!(read_var_int(&[0x40], 0), Err(Error::ErrUnexpectedEnd));
    assert_eq!(read_var_int(&[0xc0, 0, 0], 0), Err(Error::ErrUnexpectedEnd));
}

#[test]
fn var_int_reads_at_an_offset() {
    assert_eq!(read_var_int(&[0xff, 0x40, 0x25], 1), Ok((0x25, 3)));
}

#[test]
fn string_is_length_prefixed_and_read_back() {
    let mut w = vec![];
    assert_eq!("foo".to_string().serialize(&mut w), Ok(4));
    assert_eq!(w, vec![0x03, 0x66, 0x6f, 0x6f]);
    assert_eq!(read_string(&w, 0), Ok(("foo".to_string(), 4)));
}

#[test]
fn string_with_invalid_utf8_is_refused() {
    let r = read_string(&[0x02, 0xc3, 0x28], 0);
    assert!(matches!(r, Err(Error::ErrInvalidString(_))));
}

#[test]
fn string_longer_than_buffer_is_refused() {
    assert_eq!(read_string(&[0x05, 0x61], 0), Err(Error::ErrBufferTooShort));
}

#[test]
fn bool_values() {
    assert_eq!(bool::deserialize(&[0x01]), Ok((true, 1)));
    assert_eq!(bool::deserialize(&[0x00]), Ok((false, 1)));
    assert_eq!(bool::deserialize(&[0x02]), Err(Error::ErrInvalidBooleanValue(2)));
}

#[test]
fn unknown_message_type_names_it_in_hex() {
    assert_eq!(
        MessageType::try_from(0x2a),
        Err(Error::ErrParseError(
            ErrorCode::ProtocolViolation,
            "Unknown message type 0x2a".to_string()
        ))
    );
    assert_eq!(MessageType::try_from(0x51), Ok(MessageType::StreamHeaderGroup));
}

#[test]
fn invalid_fetch_type_names_it_in_decimal() {
    assert_eq!(
        FetchType::try_from(19),
        Err(Error::ErrParseError(
            ErrorCode::ProtocolViolation,
            "Invalid FETCH type 19".to_string()
        ))
    );
    assert_eq!(FetchType::try_from(2), Ok(FetchType::RelativeJoining));
}

#[test]
fn fetch_written_and_read_back() -> moqt::Result<()> {
    let fetches = vec![
        Fetch {
            request_id: 1,
            target: FetchTarget::Standalone(StandaloneFetch {
                full_track_name: FullTrackName {
                    track_namespace: "foo".to_string(),
                    track_name: "bar".to_string(),
                },
                start: seq(1, 2),
                end: seq(5, 7),
            }),
            authorization_info: Some("baz".to_string()),
        },
        Fetch {
            request_id: 9,
            target: FetchTarget::RelativeJoining(JoiningFetch { joining_request_id: 3, joining_start: 4 }),
            authorization_info: None,
        },
        Fetch {
            request_id: 10,
            target: FetchTarget::AbsoluteJoining(JoiningFetch { joining_request_id: 300, joining_start: 0 }),
            authorization_info: None,
        },
    ];
    for f in fetches {
        let mut w = vec![];
        let n = f.serialize(&mut w)?;
        assert_eq!(n, w.len());
        let (back, m) = Fetch::deserialize(&w)?;
        assert_eq!(back, f);
        assert_eq!(m, w.len());
    }
    Ok(())
}

#[test]
fn fetch_with_end_before_start_is_refused() {
    let f = Fetch {
        request_id: 1,
        target: FetchTarget::Standalone(StandaloneFetch {
            full_track_name: FullTrackName::default(),
            start: seq(5, 2),
            end: seq(4, 9),
        }),
        authorization_info: None,
    };
    let mut w = vec![];
    assert!(f.serialize(&mut w).is_err());
}

#[test]
fn control_message_framed_then_parsed_gives_one_event() -> moqt::Result<()> {
    let message = ControlMessage::Subscribe(Subscribe {
        subscribe_id: 12,
        track_alias: 4,
        track_namespace: "ns".to_string(),
        track_name: "name".to_string(),
        filter_type: FilterType::LatestGroup,
        authorization_info: Some("tok".to_string()),
    });
    let mut w = vec![];
    let n = MessageFramer::serialize_control_message(message.clone(), &mut w)?;
    assert_eq!(n, w.len());
    let mut parser = MessageParser::new(false);
    parser.process_data(&w, false);
    match parser.poll_event() {
        Some(MessageParserEvent::ControlMessage(m)) => assert_eq!(m, message),
        _ => panic!("expected a control message"),
    }
    assert!(parser.poll_event().is_none());
    Ok(())
}

#[test]
fn control_message_split_in_two_reads() -> moqt::Result<()> {
    let message = ControlMessage::UnSubscribe(UnSubscribe { subscribe_id: 300 });
    let mut w = vec![];
    MessageFramer::serialize_control_message(message.clone(), &mut w)?;
    let mut parser = MessageParser::new(false);
    parser.process_data(&w[..1], false);
    assert!(parser.poll_event().is_none());
    parser.process_data(&w[1..], false);
    match parser.poll_event() {
        Some(MessageParserEvent::ControlMessage(m)) => assert_eq!(m, message),
        _ => panic!("expected a control message"),
    }
    Ok(())
}

#[test]
fn datagram_framed_then_read_back() -> moqt::Result<()> {
    let header = ObjectHeader {
        subscribe_id: 3,
        track_alias: 4,
        group_id: 5,
        object_id: 6,
        object_send_order: 7,
        object_status: ObjectStatus::Normal,
        object_forwarding_preference: ObjectForwardingPreference::Datagram,
        object_payload_length: None,
    };
    let mut w = vec![];
    MessageFramer::serialize_object_datagram(header, b"payload", &mut w)?;
    let (back, payload) = MessageParser::process_datagram(&w)?;
    assert_eq!(back, header);
    assert_eq!(payload, b"payload".to_vec());
    Ok(())
}

#[test]
fn priority_update_matches_fresh_computation() {
    for (old_sub, new_sub) in [(0x81u8, 0x10u8), (0x10, 0x20), (0x7f, 0x7f), (0x01, 0x00)] {
        let before = send_order_for_stream(old_sub, 0x40, 17, Some(3), MoqtDeliveryOrder::kAscending);
        assert_eq!(
            update_send_order_for_subscriber_priority(before, new_sub),
            send_order_for_stream(new_sub, 0x40, 17, Some(3), MoqtDeliveryOrder::kAscending)
        );
    }
}

#[test]
fn priority_update_from_even_to_odd() {
    let before = send_order_for_stream(0x80, 0x80, 0, None, MoqtDeliveryOrder::kAscending);
    assert_eq!(
        update_send_order_for_subscriber_priority(before, 0x11),
        send_order_for_stream(0x11, 0x80, 0, None, MoqtDeliveryOrder::kAscending)
    );
}

#[test]
fn priority_fields_keep_to_their_bits() {
    // One stream per group: the group id takes bits 0 to 45 only.
    let r = send_order_for_stream(0x10, 0x81, 1u64 << 46, None, MoqtDeliveryOrder::kDescending);
    assert_eq!((r >> 54) & 0xff, 0xff - 0x10);
    assert_eq!((r >> 46) & 0xff, 0xff - 0x81);
    assert_eq!(r & ((1i64 << 46) - 1), 0);
    let a = send_order_for_stream(0x10, 0x81, (1u64 << 46) + 5, None, MoqtDeliveryOrder::kAscending);
    assert_eq!(a & ((1i64 << 46) - 1), (1i64 << 46) - 1 - 5);
    // One stream per subgroup: group in bits 20 to 45, subgroup in bits 0 to 19.
    let s = send_order_for_stream(0x10, 0x81, (1u64 << 26) + 3, Some((1u64 << 20) + 2), MoqtDeliveryOrder::kDescending);
    assert_eq!((s >> 46) & 0xff, 0xff - 0x81);
    assert_eq!((s >> 20) & ((1i64 << 26) - 1), 3);
    assert_eq!(s & ((1i64 << 20) - 1), (1i64 << 20) - 1 - 2);
}

#[test]
fn priority_groups_in_both_orders() {
    let g1 = send_order_for_stream(0x80, 0x80, 1, None, MoqtDeliveryOrder::kAscending);
    let g2 = send_order_for_stream(0x80, 0x80, 2, None, MoqtDeliveryOrder::kAscending);
    assert!(g1 > g2);
    let d1 = send_order_for_stream(0x80, 0x80, 1, None, MoqtDeliveryOrder::kDescending);
    let d2 = send_order_for_stream(0x80, 0x80, 2, None, MoqtDeliveryOrder::kDescending);
    assert!(d2 > d1);
    assert!(kMoqtControlStreamSendOrder > g1);
}

#[test]
fn window_update_cannot_widen() {
    let mut w = SubscribeWindow::new(
        1,
        ObjectForwardingPreference::Group,
        seq(10, 0),
        seq(5, 0),
        Some(seq(20, 0)),
    );
    assert!(!w.update_start_end(seq(4, 0), Some(seq(20, 0))));
    assert!(!w.update_start_end(seq(5, 0), Some(seq(21, 0))));
    assert!(!w.update_start_end(seq(5, 0), None));
    assert!(w.update_start_end(seq(6, 0), Some(seq(19, 0))));
    assert!(!w.in_window(seq(5, 0)));
    assert!(w.in_window(seq(6, 0)));
    assert!(w.in_window(seq(19, 0)));
    assert!(!w.in_window(seq(19, 1)));
}

#[test]
fn window_largest_delivered_grows() {
    let mut w = SubscribeWindow::new(1, ObjectForwardingPreference::Group, seq(0, 0), seq(0, 0), None);
    assert_eq!(w.largest_delivered(), None);
    w.on_object_sent(seq(3, 4), ObjectStatus::Normal);
    assert_eq!(w.largest_delivered(), Some(seq(3, 4)));
    w.on_object_sent(seq(2, 9), ObjectStatus::Normal);
    assert_eq!(w.largest_delivered(), Some(seq(3, 4)));
    w.on_object_sent(seq(3, 5), ObjectStatus::Normal);
    assert_eq!(w.largest_delivered(), Some(seq(3, 5)));
}

#[test]
fn local_track_next_sequence_moves_forward_only() {
    let name = FullTrackName { track_namespace: "a".to_string(), track_name: "b".to_string() };
    let mut t = LocalTrack::new(name, ObjectForwardingPreference::Group, None);
    assert_eq!(*t.next_sequence(), seq(0, 0));
    t.sent_sequence(seq(2, 3), ObjectStatus::Normal);
    assert_eq!(*t.next_sequence(), seq(2, 4));
    t.sent_sequence(seq(1, 0), ObjectStatus::Normal);
    assert_eq!(*t.next_sequence(), seq(2, 4));
    t.sent_sequence(seq(2, 4), ObjectStatus::EndOfGroup);
    assert_eq!(*t.next_sequence(), seq(3, 0));
}

#[test]
fn session_settings_carry_over_to_the_core() {
    let settings = moqt::session::config::Config {
        version: moqt::message::Version::Draft04,
        perspective: moqt::session::config::Perspective::Client,
        use_web_transport: true,
        path: "/moq".to_string(),
        deliver_partial_objects: true,
    };
    let core: moqt::protocol::Config = settings.into();
    assert_eq!(core.version, moqt::message::Version::Draft04);
    assert_eq!(core.perspective, moqt::protocol::Perspective::Client);
    assert!(core.use_web_transport);
    assert_eq!(core.path, "/moq".to_string());
    assert!(core.deliver_partial_objects);
}

#[test]
fn group_object_with_payload_and_with_status() -> moqt::Result<()> {
    let with_payload = GroupObject {
        object_id: 6,
        object_payload_length: 3,
        object_status: None,
        object_payload: b"foo".to_vec(),
    };
    let mut w = vec![];
    assert_eq!(with_payload.serialize(&mut w)?, 5);
    assert_eq!(w, vec![0x06, 0x03, 0x66, 0x6f, 0x6f]);
    assert_eq!(GroupObject::deserialize(&w)?, (with_payload, 5));

    let empty = GroupObject {
        object_id: 7,
        object_payload_length: 0,
        object_status: Some(3),
        object_payload: vec![],
    };
    let mut w = vec![];
    assert_eq!(empty.serialize(&mut w)?, 3);
    assert_eq!(w, vec![0x07, 0x00, 0x03]);
    assert_eq!(GroupObject::deserialize(&w)?, (empty, 3));
    Ok(())
}

#[test]
fn track_object_encoded_and_decoded() -> moqt::Result<()> {
    let object = TrackObject {
        group_id: 5,
        object_id: 9,
        object_payload_length: 3,
        object_status: None,
        object_payload: b"bar".to_vec(),
    };
    let mut w = vec![];
    assert_eq!(object.encode(&mut w)?, 6);
    assert_eq!(w, vec![0x05, 0x09, 0x03, 0x62, 0x61, 0x72]);
    assert_eq!(TrackObject::decode(&w)?, (object, 6));
    assert_eq!(TrackObject::decode(&[0x05, 0x09]), Err(moqt::Error::ErrUnexpectedEnd));
    Ok(())
}

#[test]
fn stream_object_payload_runs_to_the_end() -> moqt::Result<()> {
    let (object, n) = StreamObject::deserialize(&[0x00, 0x61, 0x62])?;
    assert_eq!(n, 3);
    assert_eq!(object, StreamObject { object_status: 0, object_payload: b"ab".to_vec() });
    let mut w = vec![];
    assert_eq!(object.serialize(&mut w)?, 3);
    assert_eq!(w, vec![0x00, 0x61, 0x62]);
    Ok(())
}

#[test]
fn client_and_server_cores_complete_the_setup() -> moqt::Result<()> {
    let config = |perspective| Config {
        version: moqt::message::Version::Draft04,
        perspective,
        use_web_transport: false,
        path: "/moq".to_string(),
        deliver_partial_objects: false,
    };
    let mut client = SessionCore::new(config(Perspective::Client));
    let mut server = SessionCore::new(config(Perspective::Server));

    client.handle_event(EventIn::StreamOpened { stream_id: 4, bidi: true, local: true })?;
    let Some(WriteOutput::SendStream { stream_id: 4, bytes: client_bytes, fin: true }) = client.poll_write()
    else {
        panic!("expected the client setup");
    };
    server.handle_read(ReadInput::StreamData { stream_id: 4, data: client_bytes, fin: false })?;
    let Some(WriteOutput::SendStream { stream_id: 4, bytes: server_bytes, fin: true }) = server.poll_write()
    else {
        panic!("expected the server setup");
    };
    assert_eq!(
        server.poll_event(),
        Some(EventOut::SessionEstablished {
            peer_role: Some(moqt::message::Role::PubSub),
            path: Some("/moq".to_string())
        })
    );
    client.handle_read(ReadInput::StreamData { stream_id: 4, data: server_bytes, fin: false })?;
    assert_eq!(
        client.poll_event(),
        Some(EventOut::SessionEstablished { peer_role: Some(moqt::message::Role::PubSub), path: None })
    );
    assert_eq!(client.poll_write(), None);
    Ok(())
}

#[test]
fn first_stream_object_framed_then_parsed() -> moqt::Result<()> {
    for pref in [ObjectForwardingPreference::Track, ObjectForwardingPreference::Group] {
        let header = ObjectHeader {
            subscribe_id: 3,
            track_alias: 4,
            group_id: 5,
            object_id: 6,
            object_send_order: 7,
            object_status: ObjectStatus::Normal,
            object_forwarding_preference: pref,
            object_payload_length: None,
        };
        let mut w = vec![];
        MessageFramer::serialize_object(header, true, b"hello", &mut w)?;
        let mut parser = MessageParser::new(false);
        parser.process_data(&w, false);
        match parser.poll_event() {
            Some(MessageParserEvent::ObjectMessage(h, payload, fin)) => {
                assert_eq!(h, ObjectHeader { object_payload_length: Some(5), ..header });
                assert_eq!(payload, b"hello".to_vec());
                assert!(fin);
            }
            _ => panic!("expected an object"),
        }
        assert!(parser.poll_event().is_none());
    }
    Ok(())
}

#[test]
fn later_stream_object_framed_then_parsed() -> moqt::Result<()> {
    let first = ObjectHeader {
        subscribe_id: 3,
        track_alias: 4,
        group_id: 5,
        object_id: 6,
        object_send_order: 7,
        object_status: ObjectStatus::Normal,
        object_forwarding_preference: ObjectForwardingPreference::Track,
        object_payload_length: None,
    };
    let second = ObjectHeader { group_id: 8, object_id: 0, ..first };
    let mut w1 = vec![];
    MessageFramer::serialize_object(first, true, b"foo", &mut w1)?;
    let mut w2 = vec![];
    MessageFramer::serialize_object(second, false, b"", &mut w2)?;
    assert_eq!(w2, vec![0x08, 0x00, 0x00, 0x00]);
    let mut parser = MessageParser::new(false);
    parser.process_data(&w1, false);
    parser.process_data(&w2, false);
    let mut events = vec![];
    while let Some(e) = parser.poll_event() {
        events.push(e);
    }
    assert_eq!(events.len(), 2);
    match &events[1] {
        MessageParserEvent::ObjectMessage(h, payload, fin) => {
            assert_eq!(*h, ObjectHeader { object_payload_length: Some(0), ..second });
            assert!(payload.is_empty());
            assert!(*fin);
        }
        _ => panic!("expected an object"),
    }
    Ok(())
}

#[test]
fn fetch_objects_framed_then_read_back() -> moqt::Result<()> {
    let first = ObjectHeader {
        subscribe_id: 9,
        track_alias: 9,
        group_id: 2,
        object_id: 5,
        object_send_order: 7,
        object_status: ObjectStatus::Normal,
        object_forwarding_preference: ObjectForwardingPreference::Track,
        object_payload_length: None,
    };
    let second = ObjectHeader { object_id: 6, ..first };
    let mut w = vec![];
    MessageFramer::serialize_fetch_object(first, true, b"", b"abc", &mut w)?;
    let (h1, n1) = moqt::message::message_parser::parse_fetch_header(&w, 0, None)?;
    assert_eq!(h1, ObjectHeader { object_payload_length: Some(3), ..first });
    assert_eq!(&w[n1..], b"abc");

    let mut w2 = vec![];
    MessageFramer::serialize_fetch_object_with_previous(second, Some(first), b"x", b"de", &mut w2)?;
    let (h2, n2) = moqt::message::message_parser::parse_fetch_header(&w2, 0, Some(first))?;
    assert_eq!(h2, ObjectHeader { object_payload_length: Some(2), ..second });
    assert_eq!(&w2[n2..], b"de");
    Ok(())
}

#[test]
fn data_after_fin_is_reported_and_ignored() {
    let mut parser = MessageParser::new(false);
    parser.process_data(&[], true);
    assert!(parser.poll_event().is_none());
    let mut w = vec![];
    MessageFramer::serialize_control_message(ControlMessage::UnSubscribe(UnSubscribe { subscribe_id: 3 }), &mut w)
        .unwrap();
    parser.process_data(&w, false);
    match parser.poll_event() {
        Some(MessageParserEvent::ParsingError(code, reason)) => {
            assert_eq!(code, moqt::message::message_parser::ParserErrorCode::ProtocolViolation);
            assert_eq!(reason, "Data after end of stream".to_string());
        }
        _ => panic!("expected a parsing error"),
    }
    assert!(parser.poll_event().is_none());
    parser.process_data(&w, false);
    assert!(parser.poll_event().is_none());
}

#[test]
fn windows_come_last_added_first() {
    let name = FullTrackName { track_namespace: "a".to_string(), track_name: "b".to_string() };
    let mut t = LocalTrack::new(name, ObjectForwardingPreference::Group, None);
    t.add_window(1, seq(0, 0), None, None);
    t.add_window(2, seq(0, 0), None, None);
    t.add_window(3, seq(5, 0), None, None);
    let ids = |t: &LocalTrack, q: FullSequence| -> Vec<u64> {
        t.should_send(q).iter().map(|w| w.subscribe_id()).collect()
    };
    assert_eq!(ids(&t, seq(6, 0)), vec![3, 2, 1]);
    assert_eq!(ids(&t, seq(1, 0)), vec![2, 1]);
    t.add_window(1, seq(0, 0), None, None);
    assert_eq!(ids(&t, seq(6, 0)), vec![1, 3, 2]);
    t.delete_window(3);
    assert_eq!(ids(&t, seq(6, 0)), vec![1, 2]);
}
