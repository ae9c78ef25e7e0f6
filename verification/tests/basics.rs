use gcast::back::net::{Io, Token};
use gcast::text::same_text;
use gcast::{apps, ApplicationId, Error, ErrorKind, Event};

#[test]
fn the_known_applications() {
    assert_eq!(apps::youtube(), ApplicationId("YouTube".to_owned()));
    assert_eq!(apps::mirroring(), ApplicationId("0F5096E8".to_owned()));
}

#[test]
fn tokens_are_handed_out_once_each() {
    let mut io = Io::new().unwrap();
    let mut other = Io::new().unwrap();

    assert_eq!(io.create_token(), Token(0));
    assert_eq!(io.create_token(), Token(1));
    assert_eq!(io.create_token(), Token(2));
    assert_eq!(other.create_token(), Token(0));
    assert_eq!(io.create_token(), Token(3));
    assert!(io.has_token_left());
}

#[test]
fn each_kind_of_error_has_its_description() {
    let described = |kind: ErrorKind| Error(kind).description().to_owned();

    assert_eq!(described(ErrorKind::Dns), "mDNS discovery failed");
    assert_eq!(described(ErrorKind::Io), "I/O error");
    assert_eq!(described(ErrorKind::TlsHandshake), "TLS handshake failed");
    assert_eq!(described(ErrorKind::Protobuf), "message could not be decoded");
    assert_eq!(described(ErrorKind::UnknownMessageType("X".to_owned())), "unknown message type");
    assert_eq!(described(ErrorKind::UuidParse), "invalid UUID");
    assert_eq!(Error(ErrorKind::UuidParse).kind(), &ErrorKind::UuidParse);
}

#[test]
fn texts_are_the_same_when_their_characters_are() {
    assert!(same_text("", ""));
    assert!(same_text("PING", "PING"));
    assert!(!same_text("PING", "PONG"));
    assert!(!same_text("PING", "PIN"));
    assert!(!same_text("PIN", "PING"));
    assert!(same_text("\u{e9}\u{1F600}", "\u{e9}\u{1F600}"));
    assert!(!same_text("\u{e9}", "e"));
}

#[test]
fn the_one_event_is_a_status_update() {
    assert_eq!(Event::StatusUpdated, Event::StatusUpdated.clone());
}
