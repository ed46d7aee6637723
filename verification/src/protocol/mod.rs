//! The session core without I/O: it takes what the transport read and what
//! happened to it, and queues what to write, what was read for the
//! application, and session events.
use crate::error::Error;
use crate::message::client_setup::{ClientSetup, ClientSetupView};
use crate::message::message_framer::MessageFramer;
use crate::message::message_parser::{
    delivered, lemma_control_message_delivered, EventView, MessageParser, MessageParserEvent,
    ParserView, fresh_parser,
};
use crate::message::server_setup::ServerSetup;
use crate::message::{fits, ControlMessage, ControlMessageView, Role, Version};
use crate::serde::parameters::opt_view;
use crate::text::{decimal_digits, decimal_text, join, text};
use crate::webtransport::StreamId;
use std::collections::VecDeque;
use vstd::prelude::*;
use vstd::utf8::encode_utf8;

verus! {

/// Which end of the session this endpoint is.
#[derive(Default, Debug, Copy, Clone, Eq, PartialEq, Structural)]
pub enum Perspective {
    #[default]
    Server,
    Client,
}

/// The settings of the session core.
#[derive(Default, Debug, Clone, Eq, PartialEq)]
pub struct Config {
    pub version: Version,
    pub perspective: Perspective,
    pub use_web_transport: bool,
    pub path: String,
    pub deliver_partial_objects: bool,
}

/// The content of a [`Config`].
pub struct ConfigView {
    pub version: Version,
    pub perspective: Perspective,
    pub use_web_transport: bool,
    pub path: Seq<char>,
    pub deliver_partial_objects: bool,
}

impl View for Config {
    type V = ConfigView;

    open spec fn view(&self) -> ConfigView {
        ConfigView {
            version: self.version,
            perspective: self.perspective,
            use_web_transport: self.use_web_transport,
            path: self.path@,
            deliver_partial_objects: self.deliver_partial_objects,
        }
    }
}

/// What a stream is for.
#[derive(Debug, Clone, Copy, Eq, PartialEq, Structural)]
pub enum StreamPurpose {
    Control,
    Data,
}

/// What the transport read.
#[derive(Debug, Clone, Eq, PartialEq)]
pub enum ReadInput {
    StreamData { stream_id: StreamId, data: Vec<u8>, fin: bool },
    Datagram(Vec<u8>),
}

/// What is handed on to the application.
#[derive(Debug, Clone, Eq, PartialEq)]
pub enum ReadOutput {
    StreamData { stream_id: StreamId, data: Vec<u8>, fin: bool },
    Datagram(Vec<u8>),
}

/// The content of a [`ReadOutput`].
pub enum ReadOutputView {
    StreamData { stream_id: StreamId, data: Seq<u8>, fin: bool },
    Datagram(Seq<u8>),
}

impl View for ReadOutput {
    type V = ReadOutputView;

    open spec fn view(&self) -> ReadOutputView {
        match self {
            ReadOutput::StreamData { stream_id, data, fin } => ReadOutputView::StreamData {
                stream_id: *stream_id,
                data: data@,
                fin: *fin,
            },
            ReadOutput::Datagram(d) => ReadOutputView::Datagram(d@),
        }
    }
}

/// What the application asks for.
#[derive(Debug, Clone, Eq, PartialEq)]
pub enum Command {
    Close { code: u64, reason: String },
}

/// What happened to the transport.
#[derive(Debug, Clone, Eq, PartialEq)]
pub enum EventIn {
    TransportConnected,
    TransportClosed,
    StreamOpened { stream_id: StreamId, bidi: bool, local: bool },
    StreamClosed { stream_id: StreamId },
}

/// What happened to the session.
#[derive(Debug, Clone, Eq, PartialEq)]
pub enum EventOut {
    SessionEstablished { peer_role: Option<Role>, path: Option<String> },
    SessionTerminated,
}

/// The content of an [`EventOut`].
pub enum EventOutView {
    SessionEstablished { peer_role: Option<Role>, path: Option<Seq<char>> },
    SessionTerminated,
}

impl View for EventOut {
    type V = EventOutView;

    open spec fn view(&self) -> EventOutView {
        match self {
            EventOut::SessionEstablished { peer_role, path } => EventOutView::SessionEstablished {
                peer_role: *peer_role,
                path: opt_view(*path),
            },
            EventOut::SessionTerminated => EventOutView::SessionTerminated,
        }
    }
}

/// What the transport is asked to do.
#[derive(Debug, Clone, Eq, PartialEq)]
pub enum WriteOutput {
    OpenBiStream { purpose: StreamPurpose },
    SendStream { stream_id: StreamId, bytes: Vec<u8>, fin: bool },
    SendDatagram(Vec<u8>),
    Close { code: u64, reason: String },
}

/// The content of a [`WriteOutput`].
pub enum WriteOutputView {
    OpenBiStream { purpose: StreamPurpose },
    SendStream { stream_id: StreamId, bytes: Seq<u8>, fin: bool },
    SendDatagram(Seq<u8>),
    Close { code: u64, reason: Seq<char> },
}

impl View for WriteOutput {
    type V = WriteOutputView;

    open spec fn view(&self) -> WriteOutputView {
        match self {
            WriteOutput::OpenBiStream { purpose } => WriteOutputView::OpenBiStream {
                purpose: *purpose,
            },
            WriteOutput::SendStream { stream_id, bytes, fin } => WriteOutputView::SendStream {
                stream_id: *stream_id,
                bytes: bytes@,
                fin: *fin,
            },
            WriteOutput::SendDatagram(d) => WriteOutputView::SendDatagram(d@),
            WriteOutput::Close { code, reason } => WriteOutputView::Close {
                code: *code,
                reason: reason@,
            },
        }
    }
}

/// The views of a queue.
pub open spec fn queue_view<T: View>(q: Seq<T>) -> Seq<T::V> {
    q.map_values(|x: T| x@)
}

/// The name of a version as `Debug` writes it.
pub open spec fn version_name(v: Version) -> Seq<char> {
    match v {
        Version::Draft00 => "Draft00"@,
        Version::Draft01 => "Draft01"@,
        Version::Draft02 => "Draft02"@,
        Version::Draft03 => "Draft03"@,
        Version::Draft04 => "Draft04"@,
        Version::Unsupported(n) => "Unsupported("@ + decimal_digits(n as nat) + ")"@,
    }
}

fn version_text(v: Version) -> (s: String)
    ensures
        s@ == version_name(v),
{
    match v {
        Version::Draft00 => text("Draft00"),
        Version::Draft01 => text("Draft01"),
        Version::Draft02 => text("Draft02"),
        Version::Draft03 => text("Draft03"),
        Version::Draft04 => text("Draft04"),
        Version::Unsupported(n) => {
            let head = join("Unsupported(", &decimal_text(n as u64));
            let close = text(")");
            let s = head.concat(close.as_str());
            s
        },
    }
}

/// The content of a [`SessionCore`].
pub struct CoreView {
    pub config: ConfigView,
    pub control_stream_id: Option<StreamId>,
    pub control_parser: Option<ParserView>,
    pub routs: Seq<ReadOutputView>,
    pub wouts: Seq<WriteOutputView>,
    pub eouts: Seq<EventOutView>,
}

/// The client setup a client sends: its version, the role of both
/// publisher and subscriber, and over raw QUIC the path.
pub open spec fn client_setup_of(c: ConfigView) -> ControlMessageView {
    ControlMessageView::ClientSetup(
        ClientSetupView {
            supported_versions: seq![c.version],
            role: Some(Role::PubSub),
            path: if c.use_web_transport {
                None
            } else {
                Some(c.path)
            },
            uses_web_transport: c.use_web_transport,
        },
    )
}

/// The server setup a server answers with.
pub open spec fn server_setup_of(c: ConfigView) -> ControlMessageView {
    ControlMessageView::ServerSetup(
        ServerSetup { supported_version: c.version, role: Some(Role::PubSub) },
    )
}

/// A close with code 1 and a reason.
pub open spec fn close(reason: Seq<char>) -> WriteOutputView {
    WriteOutputView::Close { code: 1, reason }
}

impl CoreView {
    /// What a control message does: a setup from the peer of the other
    /// perspective with a matching version answers (a server) and establishes
    /// the session; any other setup closes the session with the reason; other
    /// messages are handed on as a marker datagram.
    pub open spec fn spec_on_control_message(self, cm: ControlMessageView) -> CoreView {
        match cm {
            ControlMessageView::ClientSetup(cs) => if self.config.perspective != Perspective::Server {
                CoreView {
                    wouts: self.wouts.push(close("received CLIENT_SETUP as client"@)),
                    ..self
                }
            } else if !cs.supported_versions.contains(self.config.version) {
                CoreView {
                    wouts: self.wouts.push(
                        close("version mismatch: expected "@ + version_name(self.config.version)),
                    ),
                    ..self
                }
            } else {
                CoreView {
                    wouts: self.wouts.push(
                        WriteOutputView::SendStream {
                            stream_id: self.control_stream_id->Some_0,
                            bytes: ControlMessage::spec_wire(server_setup_of(self.config))->Ok_0,
                            fin: true,
                        },
                    ),
                    eouts: self.eouts.push(
                        EventOutView::SessionEstablished { peer_role: cs.role, path: cs.path },
                    ),
                    ..self
                }
            },
            ControlMessageView::ServerSetup(ss) => if self.config.perspective != Perspective::Client {
                CoreView {
                    wouts: self.wouts.push(close("received SERVER_SETUP as server"@)),
                    ..self
                }
            } else if ss.supported_version != self.config.version {
                CoreView {
                    wouts: self.wouts.push(
                        close("version mismatch: expected "@ + version_name(self.config.version)),
                    ),
                    ..self
                }
            } else {
                CoreView {
                    eouts: self.eouts.push(
                        EventOutView::SessionEstablished { peer_role: ss.role, path: None },
                    ),
                    ..self
                }
            },
            _ => CoreView {
                routs: self.routs.push(
                    ReadOutputView::Datagram(encode_utf8("unhandled-control-message"@)),
                ),
                ..self
            },
        }
    }

    /// What one event of the control parser does: a control message is
    /// handled, and a parse error or an object closes the session.
    #[verifier::opaque]
    pub open spec fn spec_on_parser_event(self, e: EventView) -> CoreView {
        match e {
            EventView::ControlMessage(cm) => self.spec_on_control_message(cm),
            EventView::ParsingError(_, reason) => CoreView { wouts: self.wouts.push(close(reason)), ..self },
            EventView::ObjectMessage(_, _, _) => CoreView {
                wouts: self.wouts.push(close("received object on control stream"@)),
                ..self
            },
        }
    }

    /// The events of the control parser, handled in order.
    pub open spec fn spec_on_parser_events(self, es: Seq<EventView>) -> CoreView
        decreases es.len(),
    {
        if es.len() == 0 {
            self
        } else {
            self.spec_on_parser_events(es.drop_last()).spec_on_parser_event(es.last())
        }
    }

    /// The stream becomes the control stream where there is none yet, and a
    /// control parser is made where there is none.
    pub open spec fn spec_ensure_control_stream(self, stream_id: StreamId) -> CoreView {
        CoreView {
            control_stream_id: if self.control_stream_id is None {
                Some(stream_id)
            } else {
                self.control_stream_id
            },
            control_parser: if self.control_parser is None {
                Some(fresh_parser(self.config.use_web_transport, false))
            } else {
                self.control_parser
            },
            ..self
        }
    }

    /// The state the core keeps: a control parser keeps its own invariant
    /// and holds no event, since every read hands its events on.
    pub open spec fn wf(self) -> bool {
        self.control_parser matches Some(p) ==> p.wf() && p.events.len() == 0
    }

    /// What reading does: bytes of the control stream go through the control
    /// parser, whose events are handled; bytes of other streams and
    /// datagrams are handed on.
    pub open spec fn spec_handle_read(self, stream_id: Option<StreamId>, data: Seq<u8>, fin: bool) -> CoreView {
        match stream_id {
            Some(id) => {
                let st = self.spec_ensure_control_stream(id);
                if st.control_stream_id == Some(id) {
                    let p = st.control_parser->Some_0.spec_process_data(data, fin);
                    CoreView {
                        control_parser: Some(ParserView { events: Seq::empty(), ..p }),
                        ..st
                    }.spec_on_parser_events(p.events)
                } else {
                    CoreView {
                        routs: st.routs.push(
                            ReadOutputView::StreamData { stream_id: id, data, fin },
                        ),
                        ..st
                    }
                }
            },
            None => CoreView { routs: self.routs.push(ReadOutputView::Datagram(data)), ..self },
        }
    }
}

/// The session core.
pub struct SessionCore {
    config: Config,
    control_stream_id: Option<StreamId>,
    control_parser: Option<MessageParser>,
    routs: VecDeque<ReadOutput>,
    wouts: VecDeque<WriteOutput>,
    eouts: VecDeque<EventOut>,
}

/// The view of an optional parser.
pub open spec fn parser_view(p: Option<MessageParser>) -> Option<ParserView> {
    match p {
        Some(x) => Some(x@),
        None => None,
    }
}

impl View for SessionCore {
    type V = CoreView;

    closed spec fn view(&self) -> CoreView {
        CoreView {
            config: self.config@,
            control_stream_id: self.control_stream_id,
            control_parser: parser_view(self.control_parser),
            routs: queue_view(self.routs@),
            wouts: queue_view(self.wouts@),
            eouts: queue_view(self.eouts@),
        }
    }
}

impl SessionCore {
    pub fn new(config: Config) -> (c: SessionCore)
        ensures
            c@ == (CoreView {
                config: config@,
                control_stream_id: None,
                control_parser: None,
                routs: Seq::empty(),
                wouts: Seq::empty(),
                eouts: Seq::empty(),
            }),
    {
        let c = SessionCore {
            config,
            control_stream_id: None,
            control_parser: None,
            routs: VecDeque::new(),
            wouts: VecDeque::new(),
            eouts: VecDeque::new(),
        };
        assert(queue_view(c.routs@) =~= Seq::<ReadOutputView>::empty());
        assert(queue_view(c.wouts@) =~= Seq::<WriteOutputView>::empty());
        assert(queue_view(c.eouts@) =~= Seq::<EventOutView>::empty());
        c
    }

    fn push_wout(&mut self, w: WriteOutput)
        ensures
            final(self)@ == (CoreView { wouts: old(self)@.wouts.push(w@), ..old(self)@ }),
    {
        let ghost before = self.wouts@;
        self.wouts.push_back(w);
        assert(queue_view(self.wouts@) =~= queue_view(before).push(w@));
    }

    fn push_rout(&mut self, r: ReadOutput)
        ensures
            final(self)@ == (CoreView { routs: old(self)@.routs.push(r@), ..old(self)@ }),
    {
        let ghost before = self.routs@;
        self.routs.push_back(r);
        assert(queue_view(self.routs@) =~= queue_view(before).push(r@));
    }

    fn push_eout(&mut self, e: EventOut)
        ensures
            final(self)@ == (CoreView { eouts: old(self)@.eouts.push(e@), ..old(self)@ }),
    {
        let ghost before = self.eouts@;
        self.eouts.push_back(e);
        assert(queue_view(self.eouts@) =~= queue_view(before).push(e@));
    }

    /// Sends the client setup on the stream, which ends with it.
    fn send_client_setup(&mut self, stream_id: StreamId) -> (res: Result<(), Error>)
        ensures
            match ControlMessage::spec_wire(client_setup_of(old(self)@.config)) {
                Ok(b) => res is Ok && final(self)@ == (CoreView {
                    wouts: old(self)@.wouts.push(
                        WriteOutputView::SendStream { stream_id, bytes: b, fin: true },
                    ),
                    ..old(self)@
                }),
                Err(e) => res matches Err(x) && x@ == e && final(self)@ == old(self)@,
            },
    {
        let mut versions: Vec<Version> = Vec::new();
        versions.push(self.config.version);
        let path = if !self.config.use_web_transport {
            Some(self.config.path.clone())
        } else {
            None
        };
        let client_setup = ClientSetup {
            supported_versions: versions,
            role: Some(Role::PubSub),
            path,
            uses_web_transport: self.config.use_web_transport,
        };
        proof {
            assert(client_setup@.supported_versions =~= seq![self.config.version]);
        }
        let mut bytes: Vec<u8> = Vec::new();
        match MessageFramer::serialize_control_message(ControlMessage::ClientSetup(client_setup), &mut bytes) {
            Ok(_) => {},
            Err(e) => return Err(e),
        }
        proof {
            assert(bytes@ =~= Seq::<u8>::empty() + bytes@);
        }
        self.push_wout(WriteOutput::SendStream { stream_id, bytes, fin: true });
        Ok(())
    }

    /// Sends the server setup on the stream, which ends with it.
    fn send_server_setup(&mut self, stream_id: StreamId)
        ensures
            ControlMessage::spec_wire(server_setup_of(old(self)@.config)) is Ok,
            final(self)@ == (CoreView {
                wouts: old(self)@.wouts.push(
                    WriteOutputView::SendStream {
                        stream_id,
                        bytes: ControlMessage::spec_wire(server_setup_of(old(self)@.config))->Ok_0,
                        fin: true,
                    },
                ),
                ..old(self)@
            }),
    {
        let server_setup = ServerSetup { supported_version: self.config.version, role: Some(Role::PubSub) };
        let mut bytes: Vec<u8> = Vec::new();
        proof {
            crate::serde::varint::lemma_var_int_len(self.config.version.code());
            lemma_server_setup_wire_ok(self.config.version);
        }
        let r = MessageFramer::serialize_control_message(ControlMessage::ServerSetup(server_setup), &mut bytes);
        proof {
            assert(bytes@ =~= Seq::<u8>::empty() + bytes@);
        }
        self.push_wout(WriteOutput::SendStream { stream_id, bytes, fin: true });
    }

    fn ensure_control_stream(&mut self, stream_id: StreamId)
        requires
            old(self)@.wf(),
        ensures
            final(self)@ == old(self)@.spec_ensure_control_stream(stream_id),
            final(self)@.wf(),
    {
        if self.control_stream_id.is_none() {
            self.control_stream_id = Some(stream_id);
        }
        if self.control_parser.is_none() {
            self.control_parser = Some(MessageParser::new(self.config.use_web_transport));
        }
    }

    fn version_listed(versions: &Vec<Version>, version: Version) -> (b: bool)
        ensures
            b == versions@.contains(version),
    {
        let mut i: usize = 0;
        while i < versions.len()
            invariant
                i <= versions@.len(),
                forall|j: int| 0 <= j < i ==> versions@[j] != version,
            decreases versions@.len() - i,
        {
            if versions[i] == version {
                assert(versions@[i as int] == version);
                return true;
            }
            i = i + 1;
        }
        false
    }

    fn on_control_message(&mut self, control_message: ControlMessage)
        requires
            old(self)@.control_stream_id is Some,
        ensures
            final(self)@ == old(self)@.spec_on_control_message(control_message@),
    {
        match control_message {
            ControlMessage::ClientSetup(client_setup) => {
                if self.config.perspective != Perspective::Server {
                    self.push_wout(
                        WriteOutput::Close { code: 1, reason: text("received CLIENT_SETUP as client") },
                    );
                    return;
                }
                if !SessionCore::version_listed(&client_setup.supported_versions, self.config.version) {
                    let reason = join("version mismatch: expected ", &version_text(self.config.version));
                    self.push_wout(WriteOutput::Close { code: 1, reason });
                    return;
                }
                let stream_id = match self.control_stream_id {
                    Some(id) => id,
                    None => 0,
                };
                self.send_server_setup(stream_id);
                self.push_eout(
                    EventOut::SessionEstablished { peer_role: client_setup.role, path: client_setup.path },
                );
            },
            ControlMessage::ServerSetup(server_setup) => {
                if self.config.perspective != Perspective::Client {
                    self.push_wout(
                        WriteOutput::Close { code: 1, reason: text("received SERVER_SETUP as server") },
                    );
                    return;
                }
                if server_setup.supported_version != self.config.version {
                    let reason = join("version mismatch: expected ", &version_text(self.config.version));
                    self.push_wout(WriteOutput::Close { code: 1, reason });
                    return;
                }
                self.push_eout(EventOut::SessionEstablished { peer_role: server_setup.role, path: None });
            },
            _ => {
                let marker = "unhandled-control-message";
                let bytes = marker.as_bytes();
                let mut data: Vec<u8> = Vec::new();
                crate::serde::append_bytes(bytes, &mut data);
                proof {
                    assert(data@ =~= encode_utf8(marker@));
                }
                self.push_rout(ReadOutput::Datagram(data));
            },
        }
    }

    fn on_parser_event(&mut self, event: MessageParserEvent)
        requires
            old(self)@.control_stream_id is Some,
        ensures
            final(self)@ == old(self)@.spec_on_parser_event(event@),
            final(self)@.control_stream_id == old(self)@.control_stream_id,
            final(self)@.control_parser == old(self)@.control_parser,
    {
        proof {
            reveal(CoreView::spec_on_parser_event);
        }
        match event {
            MessageParserEvent::ControlMessage(control_message) => {
                self.on_control_message(control_message);
            },
            MessageParserEvent::ParsingError(_, reason) => {
                self.push_wout(WriteOutput::Close { code: 1, reason });
            },
            MessageParserEvent::ObjectMessage(_, _, _) => {
                self.push_wout(
                    WriteOutput::Close { code: 1, reason: text("received object on control stream") },
                );
            },
        }
    }

    /// Bytes of the control stream go through the control parser, whose
    /// events are handled in order.
    #[verifier::spinoff_prover]
    fn read_control(&mut self, stream_id: StreamId, data: Vec<u8>, fin: bool)
        requires
            old(self)@.wf(),
            old(self)@.control_stream_id == Some(stream_id),
            old(self)@.control_parser is Some,
        ensures
            final(self)@.wf(),
            final(self)@ == ({
                let p = old(self)@.control_parser->Some_0.spec_process_data(data@, fin);
                CoreView {
                    control_parser: Some(ParserView { events: Seq::empty(), ..p }),
                    ..old(self)@
                }.spec_on_parser_events(p.events)
            }),
    {
        let ghost base = self@;
        let mut parser = match self.control_parser.take() {
            Some(p) => p,
            None => MessageParser::new(self.config.use_web_transport),
        };
        parser.process_data(data.as_slice(), fin);
        let ghost processed = parser@;
        let ghost done = CoreView {
            control_parser: Some(ParserView { events: Seq::empty(), ..processed }),
            ..base
        };
        proof {
            assert(processed.events.take(0) =~= Seq::<EventView>::empty());
            assert(self@ == (CoreView { control_parser: None, ..done }));
        }
        loop
            invariant
                parser@.wf(),
                parser@ == (ParserView { events: parser@.events, ..processed }),
                parser@.events.len() <= processed.events.len(),
                parser@.events == processed.events.subrange(
                    processed.events.len() - parser@.events.len(),
                    processed.events.len() as int,
                ),
                self@.control_stream_id == Some(stream_id),
                self@ == (CoreView {
                    control_parser: None,
                    ..done.spec_on_parser_events(
                        processed.events.take(processed.events.len() - parser@.events.len()),
                    )
                }),
            ensures
                parser@.wf(),
                parser@ == (ParserView { events: Seq::empty(), ..processed }),
                self@ == (CoreView { control_parser: None, ..done.spec_on_parser_events(processed.events) }),
            decreases parser@.events.len(),
        {
            let ghost k = processed.events.len() - parser@.events.len();
            match parser.poll_event() {
                Some(event) => {
                    proof {
                        assert(event@ == processed.events[k]);
                        assert(processed.events.take(k + 1).drop_last() =~= processed.events.take(k));
                        assert(processed.events.take(k + 1).last() == event@);
                        lemma_parser_irrelevant(
                            done.spec_on_parser_events(processed.events.take(k)),
                            event@,
                        );
                        assert(parser@.events =~= processed.events.subrange(
                            processed.events.len() - parser@.events.len(),
                            processed.events.len() as int,
                        ));
                    }
                    self.on_parser_event(event);
                },
                None => {
                    proof {
                        assert(parser@.events =~= Seq::<EventView>::empty());
                        assert(processed.events.take(processed.events.len() as int) =~= processed.events);
                    }
                    break;
                },
            }
        }
        proof {
            lemma_fold_keeps_parser(done, processed.events);
        }
        self.control_parser = Some(parser);
    }

    #[verifier::spinoff_prover]
    pub fn handle_read(&mut self, msg: ReadInput) -> (res: Result<(), Error>)
        requires
            old(self)@.wf(),
        ensures
            res is Ok,
            final(self)@.wf(),
            final(self)@ == match msg {
                ReadInput::StreamData { stream_id, data, fin } => old(self)@.spec_handle_read(
                    Some(stream_id),
                    data@,
                    fin,
                ),
                ReadInput::Datagram(d) => old(self)@.spec_handle_read(None, d@, false),
            },
    {
        match msg {
            ReadInput::StreamData { stream_id, data, fin } => {
                self.ensure_control_stream(stream_id);
                if self.control_stream_id == Some(stream_id) {
                    self.read_control(stream_id, data, fin);
                } else {
                    self.push_rout(ReadOutput::StreamData { stream_id, data, fin });
                }
            },
            ReadInput::Datagram(bytes) => {
                self.push_rout(ReadOutput::Datagram(bytes));
            },
        }
        Ok(())
    }

    pub fn poll_read(&mut self) -> (r: Option<ReadOutput>)
        ensures
            match r {
                Some(x) => old(self)@.routs.len() > 0 && x@ == old(self)@.routs[0] && final(self)@
                    == (CoreView { routs: old(self)@.routs.drop_first(), ..old(self)@ }),
                None => old(self)@.routs.len() == 0 && final(self)@ == old(self)@,
            },
    {
        let ghost before = self.routs@;
        let r = self.routs.pop_front();
        proof {
            if r is Some {
                assert(queue_view(self.routs@) =~= queue_view(before).drop_first());
            }
        }
        r
    }

    pub fn handle_write(&mut self, msg: Command) -> (res: Result<(), Error>)
        ensures
            res is Ok,
            match msg {
                Command::Close { code, reason } => final(self)@ == (CoreView {
                    wouts: old(self)@.wouts.push(WriteOutputView::Close { code, reason: reason@ }),
                    ..old(self)@
                }),
            },
    {
        match msg {
            Command::Close { code, reason } => {
                self.push_wout(WriteOutput::Close { code, reason });
            },
        }
        Ok(())
    }

    pub fn poll_write(&mut self) -> (w: Option<WriteOutput>)
        ensures
            match w {
                Some(x) => old(self)@.wouts.len() > 0 && x@ == old(self)@.wouts[0] && final(self)@
                    == (CoreView { wouts: old(self)@.wouts.drop_first(), ..old(self)@ }),
                None => old(self)@.wouts.len() == 0 && final(self)@ == old(self)@,
            },
    {
        let ghost before = self.wouts@;
        let w = self.wouts.pop_front();
        proof {
            if w is Some {
                assert(queue_view(self.wouts@) =~= queue_view(before).drop_first());
            }
        }
        w
    }

    #[verifier::spinoff_prover]
    pub fn handle_event(&mut self, evt: EventIn) -> (res: Result<(), Error>)
        requires
            old(self)@.wf(),
        ensures
            final(self)@.wf(),
            match evt {
                EventIn::TransportConnected => res is Ok && final(self)@ == if old(self)@.config.perspective
                    == Perspective::Client && old(self)@.control_stream_id is None {
                    CoreView {
                        wouts: old(self)@.wouts.push(
                            WriteOutputView::OpenBiStream { purpose: StreamPurpose::Control },
                        ),
                        ..old(self)@
                    }
                } else {
                    old(self)@
                },
                EventIn::TransportClosed => res is Ok && final(self)@ == (CoreView {
                    control_stream_id: None,
                    control_parser: None,
                    eouts: old(self)@.eouts.push(EventOutView::SessionTerminated),
                    ..old(self)@
                }),
                EventIn::StreamOpened { stream_id, bidi, local } => if old(self)@.config.perspective
                    == Perspective::Client && local && bidi && old(self)@.control_stream_id is None {
                    let st = old(self)@.spec_ensure_control_stream(stream_id);
                    match ControlMessage::spec_wire(client_setup_of(old(self)@.config)) {
                        Ok(b) => res is Ok && final(self)@ == (CoreView {
                            wouts: st.wouts.push(
                                WriteOutputView::SendStream { stream_id, bytes: b, fin: true },
                            ),
                            ..st
                        }),
                        Err(e) => res matches Err(x) && x@ == e && final(self)@ == st,
                    }
                } else {
                    res is Ok && final(self)@ == old(self)@
                },
                EventIn::StreamClosed { stream_id } => res is Ok && final(self)@ == if old(
                    self,
                )@.control_stream_id == Some(stream_id) {
                    CoreView { control_stream_id: None, control_parser: None, ..old(self)@ }
                } else {
                    old(self)@
                },
            },
    {
        match evt {
            EventIn::TransportConnected => {
                if self.config.perspective == Perspective::Client && self.control_stream_id.is_none() {
                    self.push_wout(WriteOutput::OpenBiStream { purpose: StreamPurpose::Control });
                }
            },
            EventIn::TransportClosed => {
                self.control_stream_id = None;
                self.control_parser = None;
                self.push_eout(EventOut::SessionTerminated);
            },
            EventIn::StreamOpened { stream_id, bidi, local } => {
                if self.config.perspective == Perspective::Client && local && bidi
                    && self.control_stream_id.is_none() {
                    self.ensure_control_stream(stream_id);
                    return self.send_client_setup(stream_id);
                }
            },
            EventIn::StreamClosed { stream_id } => {
                if self.control_stream_id == Some(stream_id) {
                    self.control_stream_id = None;
                    self.control_parser = None;
                }
            },
        }
        Ok(())
    }

    pub fn poll_event(&mut self) -> (e: Option<EventOut>)
        ensures
            match e {
                Some(x) => old(self)@.eouts.len() > 0 && x@ == old(self)@.eouts[0] && final(self)@
                    == (CoreView { eouts: old(self)@.eouts.drop_first(), ..old(self)@ }),
                None => old(self)@.eouts.len() == 0 && final(self)@ == old(self)@,
            },
    {
        let ghost before = self.eouts@;
        let e = self.eouts.pop_front();
        proof {
            if e is Some {
                assert(queue_view(self.eouts@) =~= queue_view(before).drop_first());
            }
        }
        e
    }
}

/// Handling a parser event leaves the control stream and parser as they
/// are, and does not depend on the parser.
proof fn lemma_parser_irrelevant(st: CoreView, e: EventView)
    ensures
        (CoreView { control_parser: None, ..st }).spec_on_parser_event(e) == (CoreView {
            control_parser: None,
            ..st.spec_on_parser_event(e)
        }),
        st.spec_on_parser_event(e).control_parser == st.control_parser,
        st.spec_on_parser_event(e).control_stream_id == st.control_stream_id,
{
    reveal(CoreView::spec_on_parser_event);
}

/// Handling parser events leaves the control stream and parser as they
/// are.
proof fn lemma_fold_keeps_parser(st: CoreView, es: Seq<EventView>)
    ensures
        st.spec_on_parser_events(es).control_parser == st.control_parser,
        st.spec_on_parser_events(es).control_stream_id == st.control_stream_id,
    decreases es.len(),
{
    if es.len() > 0 {
        lemma_fold_keeps_parser(st, es.drop_last());
        lemma_parser_irrelevant(st.spec_on_parser_events(es.drop_last()), es.last());
    }
}

/// A server setup can always be written.
proof fn lemma_server_setup_wire_ok(version: Version)
    ensures
        ServerSetup::spec_wire(ServerSetup { supported_version: version, role: Some(Role::PubSub) }) is Ok,
{
    crate::serde::varint::lemma_var_int_len(version.code());
    crate::serde::parameters::lemma_wire_one(0, Role::spec_wire(Role::PubSub)->Ok_0);
}

/// Reading bytes of the control stream that the control parser turns into
/// one event is handling that event.
proof fn lemma_read_one_event(c: CoreView, id: StreamId, data: Seq<u8>, fin: bool, e: EventView)
    requires
        c.spec_ensure_control_stream(id).control_stream_id == Some(id),
        c.spec_ensure_control_stream(id).control_parser->Some_0.spec_process_data(data, fin).events
            == seq![e],
    ensures
        ({
            let st = c.spec_ensure_control_stream(id);
            let p = st.control_parser->Some_0.spec_process_data(data, fin);
            c.spec_handle_read(Some(id), data, fin) == (CoreView {
                control_parser: Some(ParserView { events: Seq::empty(), ..p }),
                ..st
            }).spec_on_parser_event(e)
        }),
{
    let st = c.spec_ensure_control_stream(id);
    let p = st.control_parser->Some_0.spec_process_data(data, fin);
    let base = CoreView { control_parser: Some(ParserView { events: Seq::empty(), ..p }), ..st };
    assert(seq![e].drop_last() =~= Seq::<EventView>::empty());
    assert(base.spec_on_parser_events(Seq::<EventView>::empty()) == base);
    assert(base.spec_on_parser_events(seq![e]) == base.spec_on_parser_event(e));
}

/// A client's setup, read by a new parser of its transport, is one event
/// that holds that setup.
proof fn lemma_client_setup_parsed(client: ConfigView)
    requires
        client.version.is_canonical(),
        !client.use_web_transport ==> fits(client.path),
        ControlMessage::spec_wire(client_setup_of(client)) is Ok,
    ensures
        fresh_parser(client.use_web_transport, false).spec_process_data(
            ControlMessage::spec_wire(client_setup_of(client))->Ok_0,
            false,
        ).events == seq![EventView::ControlMessage(client_setup_of(client))],
{
    let wt = client.use_web_transport;
    let v = client_setup_of(client);
    let cs = v->ClientSetup_0;
    let v0 = ControlMessageView::ClientSetup(ClientSetupView { uses_web_transport: false, ..cs });
    assert(ControlMessage::spec_wire(v0) == ControlMessage::spec_wire(v));
    assert(cs.supported_versions[0] == client.version);
    lemma_control_message_delivered(v0, wt);
    assert(delivered(v0, wt) == v);
}

/// A server's setup, read by a new parser, is one event that holds that
/// setup.
proof fn lemma_server_setup_parsed(server: ConfigView, uses_web_transport: bool)
    requires
        server.version.is_canonical(),
    ensures
        ControlMessage::spec_wire(server_setup_of(server)) is Ok,
        fresh_parser(uses_web_transport, false).spec_process_data(
            ControlMessage::spec_wire(server_setup_of(server))->Ok_0,
            false,
        ).events == seq![EventView::ControlMessage(server_setup_of(server))],
{
    lemma_server_setup_wire_ok(server.version);
    lemma_control_message_delivered(server_setup_of(server), uses_web_transport);
}

/// A server of the client's version that reads, on a new control stream, the
/// setup the client sends answers with its own setup on that stream, and
/// reports the session established with the client's role and, over raw
/// QUIC, the client's path.
pub proof fn lemma_server_accepts_client_setup(client: ConfigView, server: CoreView, id: StreamId)
    requires
        server.config.perspective == Perspective::Server,
        server.config.version == client.version,
        server.config.use_web_transport == client.use_web_transport,
        client.version.is_canonical(),
        !client.use_web_transport ==> fits(client.path),
        ControlMessage::spec_wire(client_setup_of(client)) is Ok,
        server.control_stream_id is None,
        server.control_parser is None,
    ensures
        ({
            let after = server.spec_handle_read(
                Some(id),
                ControlMessage::spec_wire(client_setup_of(client))->Ok_0,
                false,
            );
            &&& after.wouts == server.wouts.push(
                WriteOutputView::SendStream {
                    stream_id: id,
                    bytes: ControlMessage::spec_wire(server_setup_of(server.config))->Ok_0,
                    fin: true,
                },
            )
            &&& after.eouts == server.eouts.push(
                EventOutView::SessionEstablished {
                    peer_role: Some(Role::PubSub),
                    path: if client.use_web_transport {
                        None
                    } else {
                        Some(client.path)
                    },
                },
            )
            &&& after.routs == server.routs
            &&& after.control_stream_id == Some(id)
        }),
{
    let v = client_setup_of(client);
    let bytes = ControlMessage::spec_wire(v)->Ok_0;
    lemma_client_setup_parsed(client);
    lemma_read_one_event(server, id, bytes, false, EventView::ControlMessage(v));
    reveal(CoreView::spec_on_parser_event);
    assert(v->ClientSetup_0.supported_versions[0] == client.version);
}

/// A client that reads, on its control stream, the setup that a server of
/// its version answers with reports the session established with the
/// server's role, and sends nothing.
pub proof fn lemma_client_accepts_server_setup(server: ConfigView, client: CoreView, id: StreamId)
    requires
        client.config.perspective == Perspective::Client,
        client.config.version == server.version,
        server.version.is_canonical(),
        client.control_stream_id == Some(id),
        client.control_parser == Some(fresh_parser(client.config.use_web_transport, false)),
    ensures
        ControlMessage::spec_wire(server_setup_of(server)) is Ok,
        ({
            let after = client.spec_handle_read(
                Some(id),
                ControlMessage::spec_wire(server_setup_of(server))->Ok_0,
                false,
            );
            &&& after.eouts == client.eouts.push(
                EventOutView::SessionEstablished { peer_role: Some(Role::PubSub), path: None },
            )
            &&& after.wouts == client.wouts
            &&& after.routs == client.routs
        }),
{
    let v = server_setup_of(server);
    lemma_server_setup_parsed(server, client.config.use_web_transport);
    let bytes = ControlMessage::spec_wire(v)->Ok_0;
    lemma_read_one_event(client, id, bytes, false, EventView::ControlMessage(v));
    reveal(CoreView::spec_on_parser_event);
}

/// A server answers a client setup that lists its version at any place in the
/// list of supported versions: it sends its own setup (its version, the
/// publisher-and-subscriber role) on the control stream and closes that
/// side, and reports the session established with the client's role and
/// path; nothing else is queued.
pub proof fn lemma_version_listed_anywhere_accepted(c: CoreView, cs: ClientSetupView, id: StreamId, i: int)
    requires
        c.config.perspective == Perspective::Server,
        c.control_stream_id == Some(id),
        0 <= i < cs.supported_versions.len(),
        cs.supported_versions[i] == c.config.version,
    ensures
        ({
            let after = c.spec_on_control_message(ControlMessageView::ClientSetup(cs));
            &&& after.wouts == c.wouts.push(
                WriteOutputView::SendStream {
                    stream_id: id,
                    bytes: ControlMessage::spec_wire(
                        ControlMessageView::ServerSetup(
                            ServerSetup { supported_version: c.config.version, role: Some(Role::PubSub) },
                        ),
                    )->Ok_0,
                    fin: true,
                },
            )
            &&& after.eouts == c.eouts.push(
                EventOutView::SessionEstablished { peer_role: cs.role, path: cs.path },
            )
            &&& after.routs == c.routs
            &&& after.control_stream_id == c.control_stream_id
            &&& after.control_parser == c.control_parser
        }),
{
    assert(cs.supported_versions.contains(c.config.version));
}

/// A server refuses a client setup whose list of supported versions holds its
/// version nowhere: it closes the session with code 1 and a reason that names
/// the version it expected, and reports nothing.
pub proof fn lemma_version_unlisted_refused(c: CoreView, cs: ClientSetupView)
    requires
        c.config.perspective == Perspective::Server,
        forall|i: int| 0 <= i < cs.supported_versions.len() ==> cs.supported_versions[i] != c.config.version,
    ensures
        ({
            let after = c.spec_on_control_message(ControlMessageView::ClientSetup(cs));
            &&& after.wouts == c.wouts.push(
                WriteOutputView::Close {
                    code: 1,
                    reason: "version mismatch: expected "@ + version_name(c.config.version),
                },
            )
            &&& after.eouts == c.eouts
            &&& after.routs == c.routs
        }),
{
}

} // verus!
