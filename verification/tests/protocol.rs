use moqt::message::client_setup::ClientSetup;
use moqt::message::message_framer::MessageFramer;
use moqt::message::message_parser::{MessageParser, MessageParserEvent};
use moqt::message::server_setup::ServerSetup;
use moqt::message::{ControlMessage, Role, Version};
use moqt::protocol::{
    Config, EventIn, EventOut, Perspective, ReadInput, SessionCore, StreamPurpose, WriteOutput,
};
use moqt::Result;

fn client_config(use_web_transport: bool) -> Config {
    Config {
        version: Version::Draft04,
        perspective: Perspective::Client,
        use_web_transport,
        path: "/moq".to_string(),
        deliver_partial_objects: false,
    }
}

fn server_config(use_web_transport: bool) -> Config {
    Config {
        version: Version::Draft04,
        perspective: Perspective::Server,
        use_web_transport,
        path: "/moq".to_string(),
        deliver_partial_objects: false,
    }
}

#[test]
fn client_transport_connected_opens_control_stream() -> Result<()> {
    let mut protocol = SessionCore::new(client_config(true));

    protocol.handle_event(EventIn::TransportConnected)?;

    assert_eq!(
        protocol.poll_write(),
        Some(WriteOutput::OpenBiStream {
            purpose: StreamPurpose::Control
        })
    );
    assert_eq!(protocol.poll_write(), None);
    Ok(())
}

#[test]
fn client_stream_opened_sends_client_setup_for_webtransport() -> Result<()> {
    let mut protocol = SessionCore::new(client_config(true));

    protocol.handle_event(EventIn::StreamOpened {
        stream_id: 7,
        bidi: true,
        local: true,
    })?;

    let Some(WriteOutput::SendStream {
        stream_id,
        bytes,
        fin,
    }) = protocol.poll_write()
    else {
        panic!("expected setup bytes");
    };
    assert_eq!(stream_id, 7);
    assert!(fin);

    let mut parser = MessageParser::new(true);
    parser.process_data(&bytes, true);
    let event = parser.poll_event().expect("control event");
    match event {
        MessageParserEvent::ControlMessage(ControlMessage::ClientSetup(client_setup)) => {
            assert_eq!(client_setup.supported_versions, vec![Version::Draft04]);
            assert_eq!(client_setup.role, Some(Role::PubSub));
            assert_eq!(client_setup.path, None);
            assert!(client_setup.uses_web_transport);
        }
        _ => panic!("unexpected parser event"),
    }
    Ok(())
}

#[test]
fn client_stream_opened_sends_client_setup_for_raw_quic() -> Result<()> {
    let mut protocol = SessionCore::new(client_config(false));

    protocol.handle_event(EventIn::StreamOpened {
        stream_id: 9,
        bidi: true,
        local: true,
    })?;

    let Some(WriteOutput::SendStream { bytes, .. }) = protocol.poll_write() else {
        panic!("expected setup bytes");
    };

    let mut parser = MessageParser::new(false);
    parser.process_data(&bytes, true);
    let event = parser.poll_event().expect("control event");
    match event {
        MessageParserEvent::ControlMessage(ControlMessage::ClientSetup(client_setup)) => {
            assert_eq!(client_setup.path, Some("/moq".to_string()));
            assert!(!client_setup.uses_web_transport);
        }
        _ => panic!("unexpected parser event"),
    }
    Ok(())
}

#[test]
fn server_receives_client_setup_and_replies_with_server_setup() -> Result<()> {
    let mut client_setup_bytes = Vec::new();
    let _ = MessageFramer::serialize_control_message(
        ControlMessage::ClientSetup(ClientSetup {
            supported_versions: vec![Version::Draft04],
            role: Some(Role::PubSub),
            path: Some("/moq".to_string()),
            uses_web_transport: false,
        }),
        &mut client_setup_bytes,
    )?;

    let mut protocol = SessionCore::new(server_config(false));
    protocol.handle_read(ReadInput::StreamData {
        stream_id: 11,
        data: client_setup_bytes,
        fin: true,
    })?;

    let Some(WriteOutput::SendStream {
        stream_id, bytes, ..
    }) = protocol.poll_write()
    else {
        panic!("expected server setup response");
    };
    assert_eq!(stream_id, 11);

    let mut parser = MessageParser::new(false);
    parser.process_data(&bytes, true);
    let event = parser.poll_event().expect("control event");
    match event {
        MessageParserEvent::ControlMessage(ControlMessage::ServerSetup(server_setup)) => {
            assert_eq!(server_setup.supported_version, Version::Draft04);
            assert_eq!(server_setup.role, Some(Role::PubSub));
        }
        _ => panic!("unexpected parser event"),
    }

    assert_eq!(
        protocol.poll_event(),
        Some(EventOut::SessionEstablished {
            peer_role: Some(Role::PubSub),
            path: Some("/moq".to_string())
        })
    );
    Ok(())
}

#[test]
fn client_receives_server_setup_and_establishes_session() -> Result<()> {
    let mut server_setup_bytes = Vec::new();
    let _ = MessageFramer::serialize_control_message(
        ControlMessage::ServerSetup(ServerSetup {
            supported_version: Version::Draft04,
            role: Some(Role::PubSub),
        }),
        &mut server_setup_bytes,
    )?;

    let mut protocol = SessionCore::new(client_config(true));
    protocol.handle_read(ReadInput::StreamData {
        stream_id: 13,
        data: server_setup_bytes,
        fin: true,
    })?;

    assert_eq!(
        protocol.poll_event(),
        Some(EventOut::SessionEstablished {
            peer_role: Some(Role::PubSub),
            path: None
        })
    );
    Ok(())
}
