use gcast::back::net::transport::{Action, Readiness, Transport};
use gcast::back::net::Io;
use gcast::back::protocol::message::{EndpointName, Message, MessageKind};
use gcast::back::protocol::namespace;
use gcast::back::protocol::wire::{CastMessage, PayloadType, ProtocolVersion};
use gcast::back::Connection;
use gcast::{DeviceInfo, Error, ErrorKind, SessionId};

fn info() -> DeviceInfo {
    DeviceInfo { ip_addr: 0x0a00_0001, uuid: 1 }
}

fn ping() -> Message {
    Message {
        source: EndpointName("sender-0".to_owned()),
        destination: EndpointName("receiver-0".to_owned()),
        namespace: namespace::heartbeat(),
        kind: MessageKind::Ping,
    }
}

fn framed(body: &[u8]) -> Vec<u8> {
    let mut frame = (body.len() as u32).to_be_bytes().to_vec();
    frame.extend_from_slice(body);
    frame
}

/// A connection whose TLS session is up.
fn connected() -> Connection {
    let mut io = Io::new().unwrap();
    let mut connection = Connection::connect_to(&info(), &mut io).unwrap();
    let event = Readiness {
        token: connection.transport.token(),
        readable: false,
        writable: true,
        hup: false,
    };
    assert_eq!(connection.handle_event(event, &[]), Action::Handshake);
    connection
}

/// The messages that the connection gives out, or the error in their place.
fn received(connection: &mut Connection) -> Result<Vec<Message>, Error> {
    connection.receive().map(|messages| messages.collect())
}

fn readable(connection: &Connection) -> Readiness {
    Readiness { token: connection.transport.token(), readable: true, writable: false, hup: false }
}

fn writable(connection: &Connection) -> Readiness {
    Readiness { token: connection.transport.token(), readable: false, writable: true, hup: false }
}

#[test]
fn a_connection_goes_to_the_cast_port_of_the_device() {
    let mut io = Io::new().unwrap();
    let connection = Connection::connect_to(&info(), &mut io).unwrap();

    assert_eq!(connection.transport.peer(), (0x0a00_0001, 8009));
    assert!(!connection.transport.is_connected());
}

#[test]
fn a_message_that_is_sent_goes_out_as_the_frame_of_its_bytes() {
    let mut connection = connected();

    connection.send(&ping()).unwrap();

    let event = writable(&connection);
    assert_eq!(
        connection.handle_event(event, &[]),
        Action::Send(framed(&ping().as_raw_bytes().unwrap()))
    );
    assert_eq!(connection.handle_event(event, &[]), Action::Idle);
}

#[test]
fn the_bytes_of_a_message_are_its_envelope() {
    let envelope = CastMessage {
        protocol_version: ProtocolVersion::CASTV2_1_0,
        source_id: "sender-0".to_owned(),
        destination_id: "receiver-0".to_owned(),
        namespace: "urn:x-cast:com.google.cast.tp.heartbeat".to_owned(),
        payload_type: PayloadType::STRING,
        payload_utf8: Some("{\"type\":\"PING\"}".to_owned()),
        payload_binary: None,
    };

    assert_eq!(ping().as_wire_message(), envelope);
    assert_eq!(ping().as_raw_bytes().unwrap(), envelope.write_to_bytes());
    assert_eq!(ping().kind.payload_text(), "{\"type\":\"PING\"}");
    assert_eq!(
        MessageKind::Stop { session_id: SessionId(1) }.payload_text(),
        "{\"type\":\"STOP\",\"sessionId\":\"00000000-0000-0000-0000-000000000001\"}"
    );
}

#[test]
fn messages_that_arrive_are_given_out_in_order() {
    let mut connection = connected();
    let mut stop = ping();
    stop.kind = MessageKind::Stop { session_id: SessionId(7) };
    let mut incoming = framed(&ping().as_raw_bytes().unwrap());
    incoming.extend(framed(&stop.as_raw_bytes().unwrap()));
    incoming.extend(framed(&ping().as_raw_bytes().unwrap()));

    let event = readable(&connection);
    assert_eq!(connection.handle_event(event, &incoming), Action::Idle);

    assert_eq!(received(&mut connection), Ok(vec![ping(), stop, ping()]));
    assert_eq!(received(&mut connection), Ok(vec![]));
}

#[test]
fn a_frame_that_holds_no_message_fails_the_whole_batch() {
    let mut connection = connected();
    let mut incoming = framed(&ping().as_raw_bytes().unwrap());
    incoming.extend(framed(&[0xff, 0xff]));
    incoming.extend(framed(&ping().as_raw_bytes().unwrap()));

    let event = readable(&connection);
    connection.handle_event(event, &incoming);

    assert_eq!(received(&mut connection), Err(Error(ErrorKind::Protobuf)));
    assert_eq!(received(&mut connection), Ok(vec![]));
}

#[test]
fn the_first_frame_that_fails_gives_the_error() {
    let mut connection = connected();
    let mut unknown = ping().as_wire_message();
    unknown.payload_utf8 = Some("{\"type\":\"WHATEVER\"}".to_owned());
    let mut incoming = framed(&unknown.write_to_bytes());
    incoming.extend(framed(&[0xff, 0xff]));

    let event = readable(&connection);
    connection.handle_event(event, &incoming);

    assert_eq!(
        received(&mut connection),
        Err(Error(ErrorKind::UnknownMessageType("WHATEVER".to_owned())))
    );
}

#[test]
fn a_transport_can_be_used_without_a_connection() {
    let mut io = Io::new().unwrap();
    let transport = Transport::new((1, 2), &mut io).unwrap();
    let connection = Connection { transport };

    assert_eq!(connection.transport.peer(), (1, 2));
}
