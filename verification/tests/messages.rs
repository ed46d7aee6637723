use moqt::message::announce::Announce;
use moqt::message::announce_error::AnnounceError;
use moqt::message::client_setup::ClientSetup;
use moqt::message::go_away::GoAway;
use moqt::message::server_setup::ServerSetup;
use moqt::message::subscribe_done::SubscribeDone;
use moqt::message::subscribe_error::{SubscribeError, SubscribeErrorCode};
use moqt::message::subscribe_ok::SubscribeOk;
use moqt::message::subscribe_update::SubscribeUpdate;
use moqt::message::track_status::{TrackStatus, TrackStatusCode};
use moqt::message::track_status_request::TrackStatusRequest;
use moqt::message::unsubscribe::UnSubscribe;
use moqt::message::{ControlMessage, FullSequence, Role, Version};
use moqt::serde::parameters::{ParameterKey, Parameters};
use moqt::serde::{Deserializer, Serializer};
use moqt::Result;

fn check_roundtrip(expected_packet: Vec<u8>, expected_message: ControlMessage) -> Result<()> {
    let (actual_message, actual_len) = ControlMessage::deserialize(&expected_packet[..])?;
    assert_eq!(expected_message, actual_message);
    assert_eq!(expected_packet.len(), actual_len);

    let mut actual_packet = vec![];
    let _ = expected_message.serialize(&mut actual_packet)?;
    assert_eq!(expected_packet, actual_packet);
    Ok(())
}

#[test]
fn test_announce() -> Result<()> {
    let expected_packet: Vec<u8> = vec![
        0x06, 0x03, 0x66, 0x6f, 0x6f, // track_namespace = "foo"
        0x01, // 1 parameter
        0x02, 0x03, 0x62, 0x61, 0x72, // authorization_info = "bar"
    ];
    let expected_message = ControlMessage::Announce(Announce {
        track_namespace: "foo".to_string(),
        authorization_info: Some("bar".to_string()),
    });
    check_roundtrip(expected_packet, expected_message)
}

#[test]
fn test_announce_error() -> Result<()> {
    let expected_packet: Vec<u8> = vec![
        0x08, 0x03, 0x66, 0x6f, 0x6f, // track_namespace = "foo"
        0x01, // error_code = 1
        0x03, 0x62, 0x61, 0x72, // reason_phrase = "bar"
    ];
    let expected_message = ControlMessage::AnnounceError(AnnounceError {
        track_namespace: "foo".to_string(),
        error_code: 1,
        reason_phrase: "bar".to_string(),
    });
    check_roundtrip(expected_packet, expected_message)
}

#[test]
fn test_client_setup() -> Result<()> {
    let tests: Vec<(Vec<u8>, ControlMessage)> = vec![
        (
            vec![
                0x40, 0x40, // type
                0x02, // versions
                192, 0, 0, 0, 255, 0, 0, 1, // Draft01
                192, 0, 0, 0, 255, 0, 0, 2, // Draft02
                0x02, // 2 parameters
                0x00, 0x01, 0x03, // role = PubSub
                0x01, 0x03, 0x66, 0x6f, 0x6f, // path = "foo"
            ],
            ControlMessage::ClientSetup(ClientSetup {
                supported_versions: vec![Version::Draft01, Version::Draft02],
                role: Some(Role::PubSub),
                path: Some("foo".to_string()),
                uses_web_transport: false,
            }),
        ),
        (
            vec![
                0x40, 0x40, 0x01, 0xc0, 0x00, 0x00, 0x00, 0xff, 0x00, 0x00, 0x00,
                0x02, // 2 parameters
                0x00, 0x01, 0x03, // role = PubSub
                0x01, 0x01, 0x65, // path = "e"
            ],
            ControlMessage::ClientSetup(ClientSetup {
                supported_versions: vec![Version::Draft00],
                role: Some(Role::PubSub),
                path: Some("e".to_string()),
                uses_web_transport: false,
            }),
        ),
    ];
    for (expected_packet, expected_message) in tests {
        check_roundtrip(expected_packet, expected_message)?;
    }
    Ok(())
}

#[test]
fn test_go_away() -> Result<()> {
    let expected_packet: Vec<u8> = vec![0x10, 0x03, 0x66, 0x6f, 0x6f];
    let expected_message = ControlMessage::GoAway(GoAway {
        new_session_uri: "foo".to_string(),
    });
    check_roundtrip(expected_packet, expected_message)
}

#[test]
fn test_server_setup() -> Result<()> {
    let expected_packet: Vec<u8> = vec![
        0x40, 0x41, // type
        192, 0, 0, 0, 255, 0, 0, 1, // version Draft01
        0x01, // one param
        0x00, 0x01, 0x03, // role = PubSub
    ];
    let expected_message = ControlMessage::ServerSetup(ServerSetup {
        supported_version: Version::Draft01,
        role: Some(Role::PubSub),
    });
    check_roundtrip(expected_packet, expected_message)
}

#[test]
fn test_subscribe_done() -> Result<()> {
    let expected_packet: Vec<u8> = vec![
        0x0b, 0x02, 0x03, // subscribe_id = 2, error_code = 3,
        0x02, 0x68, 0x69, // reason_phrase = "hi"
        0x01, 0x08, 0x0c, // final_id = (8,12)
    ];
    let expected_message = ControlMessage::SubscribeDone(SubscribeDone {
        subscribe_id: 2,
        status_code: 3,
        reason_phrase: "hi".to_string(),
        final_group_object: Some(FullSequence {
            group_id: 8,
            object_id: 12,
        }),
    });
    check_roundtrip(expected_packet, expected_message)
}

#[test]
fn test_subscribe_error() -> Result<()> {
    let expected_packet: Vec<u8> = vec![
        0x05, 0x02, // subscribe_id = 2
        0x01, // error_code = 1
        0x03, 0x62, 0x61, 0x72, // reason_phrase = "bar"
        0x04, // track_alias = 4,
    ];
    let expected_message = ControlMessage::SubscribeError(SubscribeError {
        subscribe_id: 2,
        error_code: SubscribeErrorCode::InvalidRange.value(),
        reason_phrase: "bar".to_string(),
        track_alias: 4,
    });
    check_roundtrip(expected_packet, expected_message)
}

#[test]
fn test_subscribe_ok() -> Result<()> {
    let expected_packet: Vec<u8> = vec![
        0x04, 0x01, 0x03, // subscribe_id = 1, expires = 3
        0x01, 0x0c, 0x14, // largest_group_id = 12, largest_object_id = 20,
    ];
    let expected_message = ControlMessage::SubscribeOk(SubscribeOk {
        subscribe_id: 1,
        expires: 3,
        largest_group_object: Some(FullSequence {
            group_id: 12,
            object_id: 20,
        }),
    });
    check_roundtrip(expected_packet, expected_message)
}

#[test]
fn test_subscribe_update() -> Result<()> {
    let expected_packet: Vec<u8> = vec![
        0x02, 0x02, 0x03, 0x01, 0x05, 0x06, // start and end sequences
        0x01, // 1 parameter
        0x02, 0x03, 0x62, 0x61, 0x72, // authorization_info = "bar"
    ];
    let expected_message = ControlMessage::SubscribeUpdate(SubscribeUpdate {
        subscribe_id: 2,
        start_group_object: FullSequence {
            group_id: 3,
            object_id: 1,
        },
        end_group_object: Some(FullSequence {
            group_id: 4,
            object_id: 5,
        }),
        authorization_info: Some("bar".to_string()),
    });
    check_roundtrip(expected_packet, expected_message)
}

#[test]
fn test_track_status() -> Result<()> {
    let expected_packet: Vec<u8> = vec![
        0x0e, 0x03, 0x66, 0x6f, 0x6f, // track_namespace = "foo"
        0x04, 0x61, 0x62, 0x63, 0x64, // track_name = "abcd"
        0x00, 0x0c, 0x14, // status, last_group, last_object
    ];
    let expected_message = ControlMessage::TrackStatus(TrackStatus {
        track_namespace: "foo".to_string(),
        track_name: "abcd".to_string(),
        status_code: TrackStatusCode::InProgress.value(),
        last_group_object: FullSequence {
            group_id: 12,
            object_id: 20,
        },
    });
    check_roundtrip(expected_packet, expected_message)
}

#[test]
fn test_track_status_request() -> Result<()> {
    let expected_packet: Vec<u8> = vec![
        0x0d, 0x03, 0x66, 0x6f, 0x6f, // track_namespace = "foo"
        0x04, 0x61, 0x62, 0x63, 0x64, // track_name = "abcd"
    ];
    let expected_message = ControlMessage::TrackStatusRequest(TrackStatusRequest {
        track_namespace: "foo".to_string(),
        track_name: "abcd".to_string(),
    });
    check_roundtrip(expected_packet, expected_message)
}

#[test]
fn test_unsubscribe() -> Result<()> {
    let expected_packet: Vec<u8> = vec![
        0x0a, 0x03, // subscribe_id = 3
    ];
    let expected_message = ControlMessage::UnSubscribe(UnSubscribe { subscribe_id: 3 });
    check_roundtrip(expected_packet, expected_message)
}

#[test]
fn test_params() -> Result<()> {
    let mut params = Parameters::new();

    params.insert(ParameterKey::Role, Role::PubSub)?;
    params.insert(ParameterKey::Path, "/moq/1".to_string())?;

    assert!(!params.contains(ParameterKey::AuthorizationInfo));
    params.insert(ParameterKey::AuthorizationInfo, "password".to_string())?;

    let result = params.insert(ParameterKey::Path, "/moq/2".to_string());
    assert!(result.is_err());

    assert!(params.contains(ParameterKey::Role));
    assert!(params.contains(ParameterKey::Path));
    assert!(params.contains(ParameterKey::AuthorizationInfo));

    assert_eq!(Some(Role::PubSub), params.remove(ParameterKey::Role)?);
    assert_eq!(
        Some("/moq/1".to_string()),
        params.remove(ParameterKey::Path)?
    );
    assert_eq!(
        Some("password".to_string()),
        params.remove(ParameterKey::AuthorizationInfo)?
    );
    Ok(())
}
