use std::collections::VecDeque;

use gcast::back::net::transport::{Action, Readiness, Reader};
use gcast::back::net::{Io, Token};
use gcast::back::protocol::message::{EndpointName, Message, MessageKind, Namespace};
use gcast::back::protocol::namespace;
use gcast::back::protocol::wire::{CastMessage, PayloadType, ProtocolVersion};
use gcast::back::Connection;
use gcast::{
    ApplicationId, Device, DeviceInfo, Error, ErrorKind, Event, SessionId, VolumeLevel,
};

const STATUS: &str = "{\"type\":\"RECEIVER_STATUS\",\"status\":{\"volume\":{\"controlType\":\"attenuation\",\"level\":0.85,\"muted\":true,\"stepInterval\":0.125},\"applications\":[{\"appId\":\"YouTube\",\"displayName\":\"YouTube\",\"isIdleScreen\":false,\"sessionId\":\"e32a8e92-29cd-4afb-9d2b-6314040022d8\",\"statusText\":\"YouTube TV\"}]}}";

fn info() -> DeviceInfo {
    DeviceInfo { ip_addr: 0xc0a8_0166, uuid: 0xd7288042_190b_5974_aa3b_2558f1cb0c0e }
}

fn writable(device: &Device) -> Readiness {
    Readiness { token: device.token(), readable: false, writable: true, hup: false }
}

fn readable(device: &Device) -> Readiness {
    Readiness { token: device.token(), readable: true, writable: false, hup: false }
}

/// The frame in which the receiver sends `payload` over `namespace`.
fn inbound(namespace: &Namespace, payload: &str) -> Vec<u8> {
    let body = CastMessage {
        protocol_version: ProtocolVersion::CASTV2_1_0,
        source_id: "receiver-0".to_owned(),
        destination_id: "sender-0".to_owned(),
        namespace: namespace.0.clone(),
        payload_type: PayloadType::STRING,
        payload_utf8: Some(payload.to_owned()),
        payload_binary: None,
    }
    .write_to_bytes();
    let mut frame = (body.len() as u32).to_be_bytes().to_vec();
    frame.extend_from_slice(&body);
    frame
}

/// Uses the moments to write until the queue is empty, and decodes what the
/// host was told to send.
fn drain_outbound(device: &mut Device) -> Vec<Message> {
    let mut wire = Vec::new();
    loop {
        let event = writable(device);
        match device.handle_io(event, &[]) {
            (Action::Send(bytes), result) => {
                assert_eq!(result, Ok(()));
                wire.extend_from_slice(&bytes);
            }
            (Action::Handshake, result) => assert_eq!(result, Ok(())),
            (Action::Idle, result) => {
                assert_eq!(result, Ok(()));
                break;
            }
        }
    }
    let mut packets = Vec::new();
    let mut reader = Reader::new();
    reader.read(&wire, &mut packets).unwrap();
    assert_eq!(reader, Reader::ReadingSize { bytes: vec![] });
    packets.iter().map(|packet| Message::from_raw_bytes(packet).unwrap()).collect()
}

/// A device whose connection is up and whose queue is empty.
fn connected() -> Device {
    let mut io = Io::new().unwrap();
    let mut device = Device::connect(info(), &mut io).unwrap();
    assert_eq!(drain_outbound(&mut device).len(), 1);
    device
}

fn from_sender(namespace: Namespace, kind: MessageKind) -> Message {
    Message {
        source: EndpointName("sender-0".to_owned()),
        destination: EndpointName("sender-0".to_owned()),
        namespace,
        kind,
    }
}

#[test]
fn a_device_has_sent_one_connect_when_it_is_made() {
    let mut io = Io::new().unwrap();
    let mut device = Device::connect(info(), &mut io).unwrap();

    assert_eq!(device.info(), &info());
    assert_eq!(device.peer(), (0xc0a8_0166, 8009));
    assert_eq!(device.token(), Token(0));
    assert_eq!(device.status(), None);
    assert_eq!(device.events(), VecDeque::new());

    let event = writable(&device);
    assert_eq!(device.handle_io(event, &[]), (Action::Handshake, Ok(())));
    assert_eq!(
        drain_outbound(&mut device),
        vec![from_sender(namespace::connection(), MessageKind::Connect)]
    );
}

#[test]
fn a_device_made_by_hand_has_sent_nothing() {
    let mut io = Io::new().unwrap();
    let connection = Connection::connect_to(&info(), &mut io).unwrap();
    let mut device = Device::new(info(), connection);

    assert_eq!(device.status(), None);
    assert_eq!(drain_outbound(&mut device), vec![]);
    assert_eq!(device.events(), VecDeque::new());
}

#[test]
fn a_ping_is_answered_with_a_pong_that_goes_back_the_same_way() {
    let mut device = connected();
    let event = readable(&device);
    assert!(device.wants_input(event));

    let outcome = device.handle_io(event, &inbound(&namespace::heartbeat(), "{\"type\":\"PING\"}"));
    assert_eq!(outcome, (Action::Idle, Ok(())));

    assert_eq!(drain_outbound(&mut device), vec![Message {
        source: EndpointName("sender-0".to_owned()),
        destination: EndpointName("receiver-0".to_owned()),
        namespace: namespace::heartbeat(),
        kind: MessageKind::Pong,
    }]);
    assert_eq!(device.events(), VecDeque::new());
    assert_eq!(device.status(), None);
}

#[test]
fn pings_are_answered_in_order() {
    let mut device = connected();
    let mut incoming = inbound(&namespace::heartbeat(), "{\"type\":\"PING\"}");
    incoming.extend(inbound(&namespace::receiver(), "{\"type\":\"PING\"}"));
    incoming.extend(inbound(&namespace::connection(), "{\"type\":\"CLOSE\"}"));
    incoming.extend(inbound(&namespace::connection(), "{\"type\":\"PING\"}"));

    let event = readable(&device);
    assert_eq!(device.handle_io(event, &incoming), (Action::Idle, Ok(())));

    let namespaces: Vec<Namespace> =
        drain_outbound(&mut device).into_iter().map(|pong| pong.namespace).collect();
    assert_eq!(namespaces, vec![
        namespace::heartbeat(),
        namespace::receiver(),
        namespace::connection(),
    ]);
}

#[test]
fn a_receiver_status_is_kept_and_reported() {
    let mut device = connected();
    let event = readable(&device);

    let outcome = device.handle_io(event, &inbound(&namespace::receiver(), STATUS));
    assert_eq!(outcome, (Action::Idle, Ok(())));

    let status = device.status().unwrap();
    assert_eq!(status.volume.level, VolumeLevel::from_parts(true, 85, -2));
    assert!(status.volume.muted);
    assert_eq!(status.applications.len(), 1);
    assert_eq!(status.applications[0].id, ApplicationId("YouTube".to_owned()));
    assert_eq!(device.events(), VecDeque::from(vec![Event::StatusUpdated]));
    assert_eq!(drain_outbound(&mut device), vec![]);
}

#[test]
fn the_last_status_is_the_one_that_is_kept() {
    let mut device = connected();
    let mut incoming = inbound(&namespace::receiver(), STATUS);
    incoming.extend(inbound(
        &namespace::receiver(),
        "{\"type\":\"RECEIVER_STATUS\",\"status\":{\"volume\":{\"controlType\":\"attenuation\",\"level\":1,\"muted\":false,\"stepInterval\":0.125}}}",
    ));

    let event = readable(&device);
    assert_eq!(device.handle_io(event, &incoming), (Action::Idle, Ok(())));

    let status = device.status().unwrap();
    assert_eq!(status.volume.level, VolumeLevel::max());
    assert!(!status.volume.muted);
    assert_eq!(status.applications, vec![]);
    assert_eq!(device.events(), VecDeque::from(vec![Event::StatusUpdated, Event::StatusUpdated]));
}

#[test]
fn a_status_that_arrives_in_pieces_is_reported_once_it_is_whole() {
    let mut device = connected();
    let incoming = inbound(&namespace::receiver(), STATUS);
    let (begin, end) = incoming.split_at(incoming.len() / 2);

    let event = readable(&device);
    assert_eq!(device.handle_io(event, begin), (Action::Idle, Ok(())));
    assert_eq!(device.status(), None);
    assert_eq!(device.events(), VecDeque::new());

    assert_eq!(device.handle_io(event, end), (Action::Idle, Ok(())));
    assert!(device.status().is_some());
    assert_eq!(device.events(), VecDeque::from(vec![Event::StatusUpdated]));
}

#[test]
fn a_launch_goes_out_over_the_receiver_namespace() {
    let mut device = connected();

    device.launch(ApplicationId("YouTube".to_owned())).unwrap();

    let event = writable(&device);
    let (action, result) = device.handle_io(event, &[]);
    assert_eq!(result, Ok(()));
    let frame = match action {
        Action::Send(frame) => frame,
        other => panic!("no frame: {:?}", other),
    };
    let envelope = CastMessage::parse_from_bytes(&frame[4..]).unwrap();
    assert_eq!(&frame[..4], &((frame.len() - 4) as u32).to_be_bytes());
    assert_eq!(envelope.namespace, "urn:x-cast:com.google.cast.receiver");
    assert_eq!(envelope.source_id, "sender-0");
    assert_eq!(envelope.destination_id, "sender-0");
    assert_eq!(envelope.payload_type, PayloadType::STRING);
    assert_eq!(envelope.payload_binary, None);
    let payload = json::parse(&envelope.payload_utf8.unwrap()).unwrap();
    let mut expected = json::JsonValue::new_object();
    expected["type"] = "LAUNCH".into();
    expected["appId"] = "YouTube".into();
    expected["requestId"] = 1.into();
    assert_eq!(payload, expected);
    assert_eq!(device.handle_io(event, &[]), (Action::Idle, Ok(())));
}

#[test]
fn a_set_volume_goes_out_with_the_fields_that_are_given() {
    let mut device = connected();

    device.set_volume(None, Some(true)).unwrap();

    let event = writable(&device);
    let frame = match device.handle_io(event, &[]) {
        (Action::Send(frame), Ok(())) => frame,
        other => panic!("no frame: {:?}", other),
    };
    let envelope = CastMessage::parse_from_bytes(&frame[4..]).unwrap();
    assert_eq!(envelope.namespace, "urn:x-cast:com.google.cast.receiver");
    assert_eq!(
        envelope.payload_utf8,
        Some("{\"type\":\"SET_VOLUME\",\"volume\":{\"muted\":true}}".to_owned())
    );
}

#[test]
fn each_command_sends_one_message() {
    let mut device = connected();
    let session = SessionId(0xe32a8e92_29cd_4afb_9d2b_6314040022d8);
    let half = VolumeLevel::from_parts(true, 5, -1);

    device.update_status().unwrap();
    device.launch(gcast::apps::mirroring()).unwrap();
    device.stop(session).unwrap();
    device.set_volume(Some(half), None).unwrap();

    let event = writable(&device);
    let mut payloads = Vec::new();
    while let (Action::Send(frame), Ok(())) = device.handle_io(event, &[]) {
        let envelope = CastMessage::parse_from_bytes(&frame[4..]).unwrap();
        assert_eq!(envelope.namespace, "urn:x-cast:com.google.cast.receiver");
        assert_eq!(envelope.source_id, "sender-0");
        assert_eq!(envelope.destination_id, "sender-0");
        payloads.push(envelope.payload_utf8.unwrap());
    }
    assert_eq!(payloads, vec![
        "{\"type\":\"GET_STATUS\"}",
        "{\"type\":\"LAUNCH\",\"appId\":\"0F5096E8\",\"requestId\":1}",
        "{\"type\":\"STOP\",\"sessionId\":\"e32a8e92-29cd-4afb-9d2b-6314040022d8\"}",
        "{\"type\":\"SET_VOLUME\",\"volume\":{\"level\":0.5}}",
    ]);
}

#[test]
fn an_unknown_type_fails_the_event() {
    let mut device = connected();
    let event = readable(&device);

    let outcome = device.handle_io(event, &inbound(&namespace::receiver(), "{\"type\":\"WHATEVER\"}"));

    assert_eq!(
        outcome,
        (Action::Idle, Err(Error(ErrorKind::UnknownMessageType("WHATEVER".to_owned()))))
    );
    assert_eq!(device.events(), VecDeque::new());
    assert_eq!(device.status(), None);
}

#[test]
fn a_frame_that_cannot_be_decoded_fails_the_whole_batch_and_no_more() {
    let mut device = connected();
    let mut incoming = inbound(&namespace::heartbeat(), "{\"type\":\"PING\"}");
    incoming.extend(inbound(&namespace::receiver(), STATUS));
    incoming.extend(inbound(&namespace::receiver(), "{\"type\":\"WHATEVER\"}"));
    incoming.extend(inbound(&namespace::receiver(), "no json"));

    let event = readable(&device);
    let outcome = device.handle_io(event, &incoming);

    assert_eq!(
        outcome,
        (Action::Idle, Err(Error(ErrorKind::UnknownMessageType("WHATEVER".to_owned()))))
    );
    assert_eq!(device.status(), None);
    assert_eq!(device.events(), VecDeque::new());
    assert_eq!(drain_outbound(&mut device), vec![]);

    // The transport goes on with the frames that follow.
    let outcome = device.handle_io(event, &inbound(&namespace::receiver(), STATUS));
    assert_eq!(outcome, (Action::Idle, Ok(())));
    assert_eq!(device.events(), VecDeque::from(vec![Event::StatusUpdated]));
}

#[test]
fn a_frame_goes_out_even_when_what_arrived_cannot_be_decoded() {
    let mut device = connected();
    device.update_status().unwrap();

    let event = Readiness { token: device.token(), readable: true, writable: true, hup: false };
    let (action, result) = device.handle_io(event, &inbound(&namespace::receiver(), "{}"));

    assert_eq!(result, Err(Error(ErrorKind::Protobuf)));
    match action {
        Action::Send(frame) => {
            let envelope = CastMessage::parse_from_bytes(&frame[4..]).unwrap();
            assert_eq!(envelope.payload_utf8, Some("{\"type\":\"GET_STATUS\"}".to_owned()));
        }
        other => panic!("no frame: {:?}", other),
    }
}

#[test]
fn there_is_no_event_without_a_receiver_status() {
    let mut device = connected();
    let mut incoming = Vec::new();
    for payload in [
        "{\"type\":\"PING\"}",
        "{\"type\":\"PONG\"}",
        "{\"type\":\"CONNECT\"}",
        "{\"type\":\"CLOSE\"}",
        "{\"type\":\"GET_STATUS\"}",
        "{\"type\":\"LAUNCH\"}",
        "{\"type\":\"SET_VOLUME\"}",
        "{\"type\":\"STOP\",\"sessionId\":\"e32a8e92-29cd-4afb-9d2b-6314040022d8\"}",
    ] {
        incoming.extend(inbound(&namespace::receiver(), payload));
    }

    let event = readable(&device);
    assert_eq!(device.handle_io(event, &incoming), (Action::Idle, Ok(())));
    device.update_status().unwrap();
    device.launch(gcast::apps::youtube()).unwrap();

    assert_eq!(device.events(), VecDeque::new());
    assert_eq!(device.status(), None);
}

#[test]
fn events_that_were_taken_are_gone() {
    let mut device = connected();
    let event = readable(&device);
    device.handle_io(event, &inbound(&namespace::receiver(), STATUS)).1.unwrap();

    assert_eq!(device.events().len(), 1);
    assert_eq!(device.events().len(), 0);
    assert_eq!(device.events().len(), 0);
    assert!(device.status().is_some());
}

#[test]
fn the_queue_holds_at_most_500_events() {
    let mut device = connected();
    let event = readable(&device);
    let status = inbound(&namespace::receiver(), STATUS);

    for _ in 0..499 {
        device.handle_io(event, &status).1.unwrap();
    }
    assert_eq!(device.events().len(), 499);

    for _ in 0..500 {
        device.handle_io(event, &status).1.unwrap();
    }
    assert_eq!(device.events().len(), 500);

    for _ in 0..501 {
        device.handle_io(event, &status).1.unwrap();
    }
    assert_eq!(device.events().len(), 500);

    let mut many = Vec::new();
    for _ in 0..1200 {
        many.extend_from_slice(&status);
    }
    device.handle_io(event, &many).1.unwrap();
    assert_eq!(device.events().len(), 500);
    assert_eq!(device.events().len(), 0);
}

#[test]
fn an_event_that_is_added_waits_in_the_queue() {
    let mut device = connected();

    device.add_event(Event::StatusUpdated);
    device.add_event(Event::StatusUpdated);

    assert_eq!(device.events(), VecDeque::from(vec![Event::StatusUpdated, Event::StatusUpdated]));
    assert_eq!(device.events(), VecDeque::new());
}

#[test]
fn the_oldest_event_leaves_for_event_501() {
    let mut device = connected();

    for count in 1..=500 {
        device.add_event(Event::StatusUpdated);
        let event = readable(&device);
        device.handle_io(event, &[]).1.unwrap();
        assert!(count <= 500);
    }
    device.add_event(Event::StatusUpdated);
    assert_eq!(device.events().len(), 500);

    for _ in 0..1000 {
        device.add_event(Event::StatusUpdated);
    }
    assert_eq!(device.events(), VecDeque::from(vec![Event::StatusUpdated; 500]));
}

#[test]
fn an_unknown_type_leaves_the_status_and_the_events_as_they_were() {
    let mut device = connected();
    let event = readable(&device);
    device.handle_io(event, &inbound(&namespace::receiver(), STATUS)).1.unwrap();
    let status = device.status().cloned();
    assert!(status.is_some());

    let outcome = device.handle_io(event, &inbound(&namespace::receiver(), "{\"type\":\"WHATEVER\"}"));

    assert_eq!(
        outcome,
        (Action::Idle, Err(Error(ErrorKind::UnknownMessageType("WHATEVER".to_owned()))))
    );
    assert_eq!(device.status().cloned(), status);
    assert_eq!(device.events(), VecDeque::from(vec![Event::StatusUpdated]));
}
