use moqt::message::message_framer::MessageFramer;
use moqt::message::object::{ObjectForwardingPreference, ObjectHeader, ObjectStatus};
use moqt::message::subscribe::Subscribe;
use moqt::message::subscribe_update::SubscribeUpdate;
use moqt::message::{ControlMessage, FilterType, FullSequence};
use moqt::Result;

fn object_header(pref: ObjectForwardingPreference, object_id: u64, length: Option<u64>) -> ObjectHeader {
    ObjectHeader {
        subscribe_id: 3,
        track_alias: 4,
        group_id: 5,
        object_id,
        object_send_order: 7,
        object_status: ObjectStatus::Normal,
        object_forwarding_preference: pref,
        object_payload_length: length,
    }
}

#[test]
fn test_group_middler() -> Result<()> {
    let header = object_header(ObjectForwardingPreference::Group, 6, Some(3));
    let expected1: Vec<u8> = vec![
        0x40, 0x51, 0x03, 0x04, 0x05, 0x07, // type, subscribe id, track alias, group, send order
        0x06, 0x03, // object id, payload length
        0x66, 0x6f, 0x6f, // payload = "foo"
    ];
    let mut buffer1 = vec![];
    let buffer1_size = MessageFramer::serialize_object(header, true, b"foo", &mut buffer1)?;
    assert_eq!(buffer1_size, buffer1.len());
    assert_eq!(buffer1.len(), expected1.len());
    assert_eq!(&buffer1[..], &expected1[..]);

    let middler = object_header(ObjectForwardingPreference::Group, 9, Some(3));
    let expected2: Vec<u8> = vec![0x09, 0x03, 0x62, 0x61, 0x72];
    let mut buffer2 = vec![];
    let buffer2_size = MessageFramer::serialize_object(middler, false, b"bar", &mut buffer2)?;
    assert_eq!(buffer2_size, buffer2.len());
    assert_eq!(buffer2.len(), expected2.len());
    assert_eq!(&buffer2[..], &expected2[..]);
    Ok(())
}

#[test]
fn test_track_middler() -> Result<()> {
    let header = object_header(ObjectForwardingPreference::Track, 6, Some(3));
    let expected1: Vec<u8> = vec![
        0x40, 0x50, 0x03, 0x04, 0x07, // type, subscribe id, track alias, send order
        0x05, 0x06, 0x03, // group, object id, payload length
        0x66, 0x6f, 0x6f, // payload = "foo"
    ];
    let mut buffer1 = vec![];
    let buffer1_size = MessageFramer::serialize_object(header, true, b"foo", &mut buffer1)?;
    assert_eq!(buffer1_size, buffer1.len());
    assert_eq!(buffer1.len(), expected1.len());
    assert_eq!(&buffer1[..], &expected1[..]);

    let middler = object_header(ObjectForwardingPreference::Track, 9, Some(3));
    let expected2: Vec<u8> = vec![0x05, 0x09, 0x03, 0x62, 0x61, 0x72];
    let mut buffer2 = vec![];
    let buffer2_size = MessageFramer::serialize_object(middler, false, b"bar", &mut buffer2)?;
    assert_eq!(buffer2_size, buffer2.len());
    assert_eq!(buffer2.len(), expected2.len());
    assert_eq!(&buffer2[..], &expected2[..]);
    Ok(())
}

#[test]
fn test_bad_object_input() -> Result<()> {
    let mut object = ObjectHeader {
        subscribe_id: 3,
        track_alias: 4,
        group_id: 5,
        object_id: 6,
        object_send_order: 7,
        object_status: ObjectStatus::Normal,
        object_forwarding_preference: ObjectForwardingPreference::Object,
        object_payload_length: None,
    };
    let mut buffer = vec![];
    object.object_forwarding_preference = ObjectForwardingPreference::Datagram;
    assert!(
        MessageFramer::serialize_object_header(object, false, &mut buffer).is_err(),
        "must be first"
    );
    buffer.clear();
    object.object_forwarding_preference = ObjectForwardingPreference::Group;
    assert!(
        MessageFramer::serialize_object_header(object, false, &mut buffer).is_err(),
        "requires knowing the object length"
    );
    buffer.clear();
    object.object_payload_length = Some(5);
    object.object_status = ObjectStatus::EndOfGroup;
    assert!(
        MessageFramer::serialize_object_header(object, false, &mut buffer).is_err(),
        "Object status must be kNormal if payload is non-empty"
    );
    buffer.clear();
    Ok(())
}

#[test]
fn test_datagram() -> Result<()> {
    let expected: Vec<u8> = vec![
        0x01, 0x03, 0x04, 0x05, 0x06, 0x07, 0x00, // varints
        0x66, 0x6f, 0x6f, // payload = "foo"
    ];
    let object = ObjectHeader {
        subscribe_id: 3,
        track_alias: 4,
        group_id: 5,
        object_id: 6,
        object_send_order: 7,
        object_status: ObjectStatus::Normal,
        object_forwarding_preference: ObjectForwardingPreference::Object,
        object_payload_length: None,
    };
    let payload = b"foo";
    let mut buffer = vec![];
    let buffer_size = MessageFramer::serialize_object_datagram(object, payload, &mut buffer)?;
    assert_eq!(buffer.len(), buffer_size);
    assert_eq!(buffer.len(), expected.len());
    assert_eq!(&buffer[..], &expected[..]);
    Ok(())
}

#[test]
fn test_all_subscribe_inputs() -> Result<()> {
    for start_group in [None, Some(4)] {
        for start_object in [None, Some(0)] {
            for end_group in [None, Some(7)] {
                for end_object in [None, Some(3)] {
                    let expected_filter_type;
                    if !start_group.is_some()
                        && !start_object.is_some()
                        && !end_group.is_some()
                        && !end_object.is_some()
                    {
                        expected_filter_type = FilterType::LatestObject;
                    } else if !start_group.is_some()
                        && start_object.is_some()
                        && *start_object.as_ref().unwrap() == 0
                        && !end_group.is_some()
                        && !end_object.is_some()
                    {
                        expected_filter_type = FilterType::LatestGroup;
                    } else if start_group.is_some()
                        && start_object.is_some()
                        && !end_group.is_some()
                        && !end_object.is_some()
                    {
                        expected_filter_type = FilterType::AbsoluteStart(FullSequence {
                            group_id: start_group.unwrap(),
                            object_id: start_object.unwrap(),
                        });
                    } else if start_group.is_some() && start_object.is_some() && end_group.is_some()
                    {
                        if let Some(&end_object) = end_object.as_ref() {
                            expected_filter_type = FilterType::AbsoluteRange(
                                FullSequence {
                                    group_id: start_group.unwrap(),
                                    object_id: start_object.unwrap(),
                                },
                                FullSequence {
                                    group_id: end_group.unwrap(),
                                    object_id: end_object,
                                },
                            );
                        } else {
                            expected_filter_type = FilterType::AbsoluteRange(
                                FullSequence {
                                    group_id: start_group.unwrap(),
                                    object_id: start_object.unwrap(),
                                },
                                FullSequence {
                                    group_id: end_group.unwrap(),
                                    object_id: u64::MAX,
                                },
                            );
                        }
                    } else {
                        continue;
                    }

                    let subscribe = Subscribe {
                        subscribe_id: 3,
                        track_alias: 4,
                        track_namespace: "foo".to_string(),
                        track_name: "abcd".to_string(),
                        filter_type: expected_filter_type,
                        authorization_info: None,
                    };
                    let mut buffer = vec![];
                    let _ = MessageFramer::serialize_control_message(
                        ControlMessage::Subscribe(subscribe),
                        &mut buffer,
                    )?;
                    // Go to the filter type.
                    let read = buffer[12];
                    assert_eq!(read, expected_filter_type.value());
                    assert!(!buffer.is_empty());
                    if let FilterType::AbsoluteRange(_, _) = expected_filter_type {
                        if let Some(&end_object) = end_object.as_ref() {
                            let object_id = buffer[12 + 4] as u64;
                            assert_eq!(object_id, end_object + 1);
                        }
                    }
                }
            }
        }
    }
    Ok(())
}

#[test]
fn test_subscribe_end_before_start() -> Result<()> {
    let mut subscribe = Subscribe {
        subscribe_id: 3,
        track_alias: 4,
        track_namespace: "foo".to_string(),
        track_name: "abcd".to_string(),
        filter_type: FilterType::AbsoluteRange(
            FullSequence {
                group_id: 4,
                object_id: 4,
            },
            FullSequence {
                group_id: 3,
                object_id: u64::MAX,
            },
        ),
        authorization_info: Some("bar".to_string()),
    };
    let mut buffer = vec![];
    assert!(
        MessageFramer::serialize_control_message(
            ControlMessage::Subscribe(subscribe.clone()),
            &mut buffer,
        )
        .is_err(),
        "Invalid object range"
    );
    buffer.clear();
    subscribe.filter_type = FilterType::AbsoluteRange(
        FullSequence {
            group_id: 4,
            object_id: 4,
        },
        FullSequence {
            group_id: 4,
            object_id: 1,
        },
    );
    assert!(
        MessageFramer::serialize_control_message(ControlMessage::Subscribe(subscribe), &mut buffer)
            .is_err(),
        "Invalid object range"
    );
    buffer.clear();
    Ok(())
}

#[test]
fn test_subscribe_latest_group_nonzero_object() -> Result<()> {
    let subscribe = Subscribe {
        subscribe_id: 3,
        track_alias: 4,
        track_namespace: "foo".to_string(),
        track_name: "abcd".to_string(),
        filter_type: FilterType::AbsoluteStart(FullSequence {
            group_id: u64::MAX,
            object_id: 3,
        }),
        authorization_info: Some("bar".to_string()),
    };
    let mut buffer = vec![];
    assert!(
        MessageFramer::serialize_control_message(ControlMessage::Subscribe(subscribe), &mut buffer)
            .is_err(),
        "Invalid object range"
    );
    Ok(())
}

#[test]
fn test_subscribe_update_end_group_only() -> Result<()> {
    let subscribe_update = SubscribeUpdate {
        subscribe_id: 3,
        start_group_object: FullSequence {
            group_id: 4,
            object_id: 3,
        },
        end_group_object: Some(FullSequence {
            group_id: 4,
            object_id: u64::MAX,
        }),
        authorization_info: Some("bar".to_string()),
    };
    let mut buffer = vec![];
    let _ = MessageFramer::serialize_control_message(
        ControlMessage::SubscribeUpdate(subscribe_update),
        &mut buffer,
    )?;
    assert!(!buffer.is_empty());
    let end_group = buffer[4];
    assert_eq!(end_group, 5);
    let end_object = buffer[4 + 1];
    assert_eq!(end_object, 0);
    Ok(())
}

#[test]
fn test_subscribe_update_increments_end() -> Result<()> {
    let subscribe_update = SubscribeUpdate {
        subscribe_id: 3,
        start_group_object: FullSequence {
            group_id: 4,
            object_id: 3,
        },
        end_group_object: Some(FullSequence {
            group_id: 4,
            object_id: 6,
        }),
        authorization_info: Some("bar".to_string()),
    };
    let mut buffer = vec![];
    let _ = MessageFramer::serialize_control_message(
        ControlMessage::SubscribeUpdate(subscribe_update),
        &mut buffer,
    )?;
    assert!(!buffer.is_empty());
    let end_group = buffer[4];
    assert_eq!(end_group, 5);
    let end_object = buffer[4 + 1];
    assert_eq!(end_object, 7);
    Ok(())
}

#[test]
fn test_subscribe_update_invalid_range() -> Result<()> {
    let subscribe_update = SubscribeUpdate {
        subscribe_id: 3,
        start_group_object: FullSequence {
            group_id: 4,
            object_id: 3,
        },
        end_group_object: Some(FullSequence {
            group_id: u64::MAX,
            object_id: 6,
        }),
        authorization_info: Some("bar".to_string()),
    };
    let mut buffer = vec![];
    assert!(
        MessageFramer::serialize_control_message(
            ControlMessage::SubscribeUpdate(subscribe_update),
            &mut buffer,
        )
        .is_err(),
        "Invalid object range"
    );
    Ok(())
}
