use gcast::back::net::transport::{Action, Readiness, Reader, Transport, CAST_PORT};
use gcast::back::net::{Io, Token};
use gcast::DeviceInfo;

const ADDRESS: u32 = 0xc0a8_0166;

fn device() -> DeviceInfo {
    DeviceInfo { ip_addr: ADDRESS, uuid: 0xd7288042_190b_5974_aa3b_2558f1cb0c0e }
}

fn event(token: Token, readable: bool, writable: bool) -> Readiness {
    Readiness { token, readable, writable, hup: false }
}

/// A transport whose connection is up.
fn connected() -> Transport {
    let mut io = Io::new().unwrap();
    let mut transport = Transport::connect_to(&device(), &mut io).unwrap();
    let token = transport.token();
    assert_eq!(transport.handle_event(event(token, false, true), &[]), Action::Handshake);
    transport
}

#[test]
fn a_transport_goes_to_the_cast_port_of_the_device() {
    let mut io = Io::new().unwrap();
    let transport = Transport::connect_to(&device(), &mut io).unwrap();

    assert_eq!(CAST_PORT, 8009);
    assert_eq!(transport.peer(), (ADDRESS, 8009));
    assert!(!transport.is_connected());
}

#[test]
fn each_transport_has_a_token_of_its_own() {
    let mut io = Io::new().unwrap();
    let first = Transport::connect_to(&device(), &mut io).unwrap();
    let second = Transport::new((ADDRESS, 1), &mut io).unwrap();
    let third = Transport::connect_to(&device(), &mut io).unwrap();

    assert_eq!(first.token(), Token(0));
    assert_eq!(second.token(), Token(1));
    assert_eq!(third.token(), Token(2));
    assert_eq!(second.peer(), (ADDRESS, 1));
    assert_eq!(io.create_token(), Token(3));
    assert_eq!(io.create_token(), Token(4));
}

#[test]
fn the_first_moment_to_write_is_for_the_handshake() {
    let mut io = Io::new().unwrap();
    let mut transport = Transport::connect_to(&device(), &mut io).unwrap();
    let token = transport.token();
    transport.send(b"first".to_vec()).unwrap();

    assert_eq!(transport.handle_event(event(token, false, false), &[]), Action::Idle);
    assert!(!transport.is_connected());
    assert_eq!(transport.handle_event(event(token, true, false), &[]), Action::Idle);
    assert!(!transport.is_connected());

    assert_eq!(transport.handle_event(event(token, false, true), &[]), Action::Handshake);
    assert!(transport.is_connected());

    assert_eq!(
        transport.handle_event(event(token, false, true), &[]),
        Action::Send(b"\x00\x00\x00\x05first".to_vec())
    );
    assert_eq!(transport.handle_event(event(token, false, true), &[]), Action::Idle);
}

#[test]
fn what_arrives_on_a_pending_connection_is_left_aside() {
    let mut io = Io::new().unwrap();
    let mut transport = Transport::connect_to(&device(), &mut io).unwrap();
    let token = transport.token();

    assert!(!transport.wants_input(event(token, true, true)));
    assert_eq!(
        transport.handle_event(event(token, true, true), b"\x00\x00\x00\x01a"),
        Action::Handshake
    );
    assert_eq!(transport.receive(), Vec::<Vec<u8>>::new());

    assert!(transport.wants_input(event(token, true, false)));
    assert!(!transport.wants_input(event(token, false, true)));
    transport.handle_event(event(token, true, false), b"\x00\x00\x00\x01b");
    assert_eq!(transport.receive(), vec![b"b".to_vec()]);
}

#[test]
fn a_frame_is_its_length_and_its_body() {
    let mut transport = connected();
    let token = transport.token();
    transport.send(Vec::new()).unwrap();
    transport.send(vec![7; 0x0102]).unwrap();

    assert_eq!(
        transport.handle_event(event(token, false, true), &[]),
        Action::Send(vec![0, 0, 0, 0])
    );
    let mut expected = vec![0, 0, 0x01, 0x02];
    expected.extend_from_slice(&[7; 0x0102]);
    assert_eq!(transport.handle_event(event(token, false, true), &[]), Action::Send(expected));
}

#[test]
fn one_frame_goes_out_at_each_moment_to_write() {
    let mut transport = connected();
    let token = transport.token();
    transport.send(b"a".to_vec()).unwrap();
    transport.send(b"b".to_vec()).unwrap();

    assert_eq!(transport.handle_event(event(token, false, false), &[]), Action::Idle);
    assert_eq!(
        transport.handle_event(event(token, false, true), &[]),
        Action::Send(b"\x00\x00\x00\x01a".to_vec())
    );
    assert_eq!(transport.handle_event(event(token, true, false), &[]), Action::Idle);
    assert_eq!(
        transport.handle_event(event(token, true, true), &[]),
        Action::Send(b"\x00\x00\x00\x01b".to_vec())
    );
    assert_eq!(transport.handle_event(event(token, false, true), &[]), Action::Idle);
}

#[test]
fn frames_go_out_in_the_order_of_the_sends_however_they_interleave() {
    let bodies: Vec<Vec<u8>> = (0u8..6).map(|i| vec![i; i as usize]).collect();

    // Each pattern says, before each send, how many moments to write there are.
    for pattern in [[0, 0, 0, 0, 0, 0], [1, 1, 1, 1, 1, 1], [3, 0, 2, 0, 0, 1], [0, 5, 0, 0, 4, 0]] {
        let mut transport = connected();
        let token = transport.token();
        let mut wire: Vec<u8> = Vec::new();
        let mut frames = 0;
        let mut write = |transport: &mut Transport, wire: &mut Vec<u8>, frames: &mut usize| {
            match transport.handle_event(event(token, false, true), &[]) {
                Action::Send(bytes) => {
                    wire.extend_from_slice(&bytes);
                    *frames += 1;
                    true
                }
                Action::Idle => false,
                Action::Handshake => panic!("the connection is up"),
            }
        };
        for (body, moments) in bodies.iter().zip(pattern) {
            for _ in 0..moments {
                write(&mut transport, &mut wire, &mut frames);
            }
            transport.send(body.clone()).unwrap();
        }
        while write(&mut transport, &mut wire, &mut frames) {}

        assert_eq!(frames, bodies.len());
        let mut reader = Reader::new();
        let mut packets = Vec::new();
        reader.read(&wire, &mut packets).unwrap();
        assert_eq!(packets, bodies);
        assert_eq!(reader, Reader::ReadingSize { bytes: vec![] });
    }
}

#[test]
fn frames_that_arrive_are_kept_until_they_are_taken() {
    let mut transport = connected();
    let token = transport.token();

    transport.handle_event(event(token, true, false), b"\x00\x00\x00\x02hi\x00\x00");
    transport.handle_event(event(token, true, false), b"\x00\x03you\x00");

    assert_eq!(transport.receive(), vec![b"hi".to_vec(), b"you".to_vec()]);
    assert_eq!(transport.receive(), Vec::<Vec<u8>>::new());

    transport.handle_event(event(token, true, false), b"\x00\x00\x01!");
    assert_eq!(transport.receive(), vec![b"!".to_vec()]);
}

#[test]
fn bytes_are_taken_in_only_when_the_socket_was_readable() {
    let mut transport = connected();
    let token = transport.token();

    transport.handle_event(event(token, false, true), b"\x00\x00\x00\x01a");
    assert_eq!(transport.receive(), Vec::<Vec<u8>>::new());

    transport.handle_event(event(token, true, true), b"\x00\x00\x00\x01b");
    assert_eq!(transport.receive(), vec![b"b".to_vec()]);
}

#[test]
fn an_update_takes_bytes_in_on_a_connection_that_is_up() {
    let mut io = Io::new().unwrap();
    let mut transport = Transport::connect_to(&device(), &mut io).unwrap();
    let token = transport.token();

    transport.update(b"\x00\x00\x00\x01a");
    assert_eq!(transport.receive(), Vec::<Vec<u8>>::new());

    transport.handle_event(event(token, false, true), &[]);
    transport.update(b"\x00\x00\x00\x01b\x00");
    transport.update(b"\x00\x00\x01c");
    assert_eq!(transport.receive(), vec![b"b".to_vec(), b"c".to_vec()]);
}

#[test]
fn reading_and_writing_happen_in_one_event() {
    let mut transport = connected();
    let token = transport.token();
    transport.send(b"out".to_vec()).unwrap();

    assert_eq!(
        transport.handle_event(event(token, true, true), b"\x00\x00\x00\x02in"),
        Action::Send(b"\x00\x00\x00\x03out".to_vec())
    );
    assert_eq!(transport.receive(), vec![b"in".to_vec()]);
}
