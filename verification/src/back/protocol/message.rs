//! CASTV2 messages: what they are, and how they travel as the JSON payload of
//! an envelope.

use vstd::prelude::*;
use vstd::utf8::encode_utf8;

use super::document::{
    as_str, boolean_value, check_short_numbers, has_short_numbers, insert, json_model, json_parse, json_text, lemma_position_of,
    lemma_with_fresh_field, member, new_object, number_value, parse, stringify, text_value,
    trimmed, JsonDoc,
};
use super::status::{level_model, text_of, Decimal, Status, StatusModel, VolumeLevel};
use super::uuids::{hyphenated, parse_uuid, uuid_parse, uuid_text};
use super::wire::{
    lemma_envelope_round_trip, CastMessage, Envelope, PayloadType, ProtocolVersion,
};
use super::{ApplicationId, SessionId};
use crate::errors::{Error, ErrorKind, ErrorModel};
use crate::text::same_text;

verus! {

/// The namespace a message is send over.
#[derive(Clone, Debug, PartialEq, Eq)]
pub struct Namespace(pub String);

/// A sender/receive ID.
/// Examples:
/// * `receiver-0`
/// * `sender-0`
#[derive(Clone, Debug, PartialEq, Eq)]
pub struct EndpointName(pub String);

/// A CASTV2 message.
#[derive(Clone, Debug, PartialEq, Eq)]
pub struct Message {
    /// The sender ID of the message.
    pub source: EndpointName,
    pub destination: EndpointName,
    pub namespace: Namespace,
    pub kind: MessageKind,
}

/// A message variant.
#[derive(Clone, Debug, PartialEq, Eq)]
pub enum MessageKind {
    /// Create a virtual connection.
    Connect,
    /// Close the virtual connection.
    Close,
    /// Ask for a pong message to be sent pack.
    Ping,
    /// Response to a ping message
    Pong,
    /// Get the current receiver status.
    GetStatus,
    /// Tell the Cast device to launch an application.
    Launch {
        /// An application identifier.
        app_id: ApplicationId,
        /// A request identifier.
        request_id: i64,
    },
    /// Stop a running instance of an application.
    Stop {
        /// The ID of the session.
        session_id: SessionId,
    },
    /// Set the volume, the mute switch, or both.
    SetVolume { level: Option<VolumeLevel>, muted: Option<bool> },
    /// Tell the sender about the current receiver status.
    ReceiverStatus(Status),
}

/// The mathematical value of a [`MessageKind`].
pub enum KindModel {
    Connect,
    Close,
    Ping,
    Pong,
    GetStatus,
    Launch { app_id: Seq<char>, request_id: i64 },
    Stop { session_id: u128 },
    SetVolume { level: Option<Decimal>, muted: Option<bool> },
    ReceiverStatus(StatusModel),
}

/// The mathematical value of a [`Message`].
pub struct MessageModel {
    pub source: Seq<char>,
    pub destination: Seq<char>,
    pub namespace: Seq<char>,
    pub kind: KindModel,
}

impl View for Namespace {
    type V = Seq<char>;

    open spec fn view(&self) -> Seq<char> {
        self.0@
    }
}

impl View for EndpointName {
    type V = Seq<char>;

    open spec fn view(&self) -> Seq<char> {
        self.0@
    }
}

impl View for MessageKind {
    type V = KindModel;

    open spec fn view(&self) -> KindModel {
        match *self {
            MessageKind::Connect => KindModel::Connect,
            MessageKind::Close => KindModel::Close,
            MessageKind::Ping => KindModel::Ping,
            MessageKind::Pong => KindModel::Pong,
            MessageKind::GetStatus => KindModel::GetStatus,
            MessageKind::Launch { app_id, request_id } => KindModel::Launch {
                app_id: app_id@,
                request_id,
            },
            MessageKind::Stop { session_id } => KindModel::Stop { session_id: session_id.0 },
            MessageKind::SetVolume { level, muted } => KindModel::SetVolume {
                level: level_model(level),
                muted,
            },
            MessageKind::ReceiverStatus(status) => KindModel::ReceiverStatus(status@),
        }
    }
}

impl View for Message {
    type V = MessageModel;

    open spec fn view(&self) -> MessageModel {
        MessageModel {
            source: self.source@,
            destination: self.destination@,
            namespace: self.namespace@,
            kind: self.kind@,
        }
    }
}

/// The entries of a payload that holds its type tag and nothing else.
pub open spec fn tagged(tag: Seq<char>) -> Seq<(Seq<char>, JsonDoc)> {
    seq![("type"@, JsonDoc::Text(tag))]
}

/// The whole number `n` as a JSON number.
pub open spec fn integer(n: i64) -> JsonDoc {
    JsonDoc::Number {
        positive: n >= 0,
        mantissa: (if n >= 0 {
            n as int
        } else {
            -(n as int)
        }) as u64,
        exponent: 0,
    }
}

/// The entries of the `volume` member of a `SET_VOLUME` payload: the level
/// and then the mute switch, each only where it is given.
pub open spec fn volume_entries(level: Option<Decimal>, muted: Option<bool>) -> Seq<
    (Seq<char>, JsonDoc),
> {
    let with_level = match level {
        Some(level) => Seq::empty().push(
            ("level"@, JsonDoc::number(level.positive, level.mantissa, level.exponent)),
        ),
        None => Seq::empty(),
    };
    match muted {
        Some(muted) => with_level.push(("muted"@, JsonDoc::Boolean(muted))),
        None => with_level,
    }
}

impl KindModel {
    /// The JSON document that carries a message of this kind. A receiver
    /// status is never sent: for it the document is a null.
    pub open spec fn payload(self) -> JsonDoc {
        match self {
            KindModel::Connect => JsonDoc::Object(tagged("CONNECT"@)),
            KindModel::Close => JsonDoc::Object(tagged("CLOSE"@)),
            KindModel::Ping => JsonDoc::Object(tagged("PING"@)),
            KindModel::Pong => JsonDoc::Object(tagged("PONG"@)),
            KindModel::GetStatus => JsonDoc::Object(tagged("GET_STATUS"@)),
            KindModel::Launch { app_id, request_id } => JsonDoc::Object(
                tagged("LAUNCH"@).push(("appId"@, JsonDoc::Text(app_id))).push(
                    ("requestId"@, integer(request_id)),
                ),
            ),
            KindModel::Stop { session_id } => JsonDoc::Object(
                tagged("STOP"@).push(("sessionId"@, JsonDoc::Text(hyphenated(session_id)))),
            ),
            KindModel::SetVolume { level, muted } => JsonDoc::Object(
                tagged("SET_VOLUME"@).push(
                    ("volume"@, JsonDoc::Object(volume_entries(level, muted))),
                ),
            ),
            KindModel::ReceiverStatus(_) => JsonDoc::Null,
        }
    }

    /// The text of the payload of a message of this kind. The kinds without
    /// fields have a fixed text; for the others it is the compact text of
    /// their document.
    pub open spec fn payload_text(self) -> Seq<char> {
        match self {
            KindModel::Connect => "{\"type\":\"CONNECT\"}"@,
            KindModel::Close => "{\"type\":\"CLOSE\"}"@,
            KindModel::Ping => "{\"type\":\"PING\"}"@,
            KindModel::Pong => "{\"type\":\"PONG\"}"@,
            KindModel::GetStatus => "{\"type\":\"GET_STATUS\"}"@,
            _ => json_text(self.payload()),
        }
    }

    /// The kind of message that a JSON document carries.
    ///
    /// The member `type` decides. The fields of a `LAUNCH` or a `SET_VOLUME`
    /// are not read: such a message comes back without an application, with
    /// request 0, and with neither level nor mute switch. A document without a
    /// type is a decoding error, and a type that is none of the nine is
    /// unknown.
    pub open spec fn decode(document: JsonDoc) -> Result<KindModel, ErrorModel> {
        match document.field("type"@) {
            JsonDoc::Text(tag) => if tag == "CONNECT"@ {
                Ok(KindModel::Connect)
            } else if tag == "CLOSE"@ {
                Ok(KindModel::Close)
            } else if tag == "PING"@ {
                Ok(KindModel::Ping)
            } else if tag == "PONG"@ {
                Ok(KindModel::Pong)
            } else if tag == "GET_STATUS"@ {
                Ok(KindModel::GetStatus)
            } else if tag == "LAUNCH"@ {
                Ok(KindModel::Launch { app_id: Seq::empty(), request_id: 0 })
            } else if tag == "STOP"@ {
                match text_of(document.field("sessionId"@)) {
                    Some(text) => match uuid_parse(text) {
                        Some(session_id) => Ok(KindModel::Stop { session_id }),
                        None => Err(ErrorModel::UuidParse),
                    },
                    None => Err(ErrorModel::UuidParse),
                }
            } else if tag == "SET_VOLUME"@ {
                Ok(KindModel::SetVolume { level: None, muted: None })
            } else if tag == "RECEIVER_STATUS"@ {
                match StatusModel::decode(document.field("status"@)) {
                    Ok(status) => Ok(KindModel::ReceiverStatus(status)),
                    Err(error) => Err(error),
                }
            } else {
                Err(ErrorModel::UnknownMessageType(tag))
            },
            _ => Err(ErrorModel::Protobuf),
        }
    }

    /// The kinds whose payload says all there is to the message, so that
    /// decoding it gives the message back.
    pub open spec fn round_trips(self) -> bool {
        self is Connect || self is Close || self is Ping || self is Pong || self is GetStatus
            || self is Stop
    }
}

impl MessageModel {
    /// The envelope of a message: version 2.1.0, the addressing of the
    /// message, and the text of its payload.
    pub open spec fn to_wire(self) -> Envelope {
        Envelope {
            protocol_version: ProtocolVersion::CASTV2_1_0,
            source_id: self.source,
            destination_id: self.destination,
            namespace: self.namespace,
            payload_type: PayloadType::STRING,
            payload_utf8: Some(self.kind.payload_text()),
            payload_binary: None,
        }
    }

    /// The message of an envelope, given what the JSON parser made of its
    /// text payload. A binary payload is an unknown message type, and a text
    /// that is no JSON is a decoding error.
    pub open spec fn from_parsed(wire: Envelope, parsed: Option<JsonDoc>) -> Result<
        MessageModel,
        ErrorModel,
    > {
        match wire.payload_type {
            PayloadType::BINARY => Err(ErrorModel::UnknownMessageType("binary message"@)),
            PayloadType::STRING => match parsed {
                None => Err(ErrorModel::Protobuf),
                Some(document) => match KindModel::decode(document) {
                    Err(error) => Err(error),
                    Ok(kind) => Ok(
                        MessageModel {
                            source: wire.source_id,
                            destination: wire.destination_id,
                            namespace: wire.namespace,
                            kind,
                        },
                    ),
                },
            },
        }
    }

    /// The message of an envelope. A text payload with more than
    /// [`MAX_DIGITS`](super::document::MAX_DIGITS) digits in a row is not
    /// handed to the JSON parser: it is a decoding error.
    pub open spec fn from_wire(wire: Envelope) -> Result<MessageModel, ErrorModel> {
        if wire.payload_type == PayloadType::STRING && !has_short_numbers(
            encode_utf8(wire.text()),
        ) {
            Err(ErrorModel::Protobuf)
        } else {
            Self::from_parsed(wire, json_parse(wire.text()))
        }
    }

    /// The bytes of a message: its envelope on the wire.
    pub open spec fn to_bytes(self) -> Seq<u8> {
        self.to_wire().encode()
    }

    /// The message that `bytes` hold. Bytes that hold no envelope are a
    /// decoding error.
    pub open spec fn from_bytes(bytes: Seq<u8>) -> Result<MessageModel, ErrorModel> {
        match Envelope::decode(bytes) {
            Some(wire) => Self::from_wire(wire),
            None => Err(ErrorModel::Protobuf),
        }
    }
}

/// The names of the members of a payload differ from each other.
proof fn lemma_keys_differ()
    ensures
        "type"@ != "appId"@,
        "type"@ != "requestId"@,
        "appId"@ != "requestId"@,
        "type"@ != "sessionId"@,
        "type"@ != "volume"@,
        "level"@ != "muted"@,
{
    reveal_strlit("type");
    reveal_strlit("appId");
    reveal_strlit("requestId");
    reveal_strlit("sessionId");
    reveal_strlit("volume");
    reveal_strlit("level");
    reveal_strlit("muted");
    assert("type"@.len() == 4);
    assert("appId"@.len() == 5);
    assert("requestId"@.len() == 9);
    assert("sessionId"@.len() == 9);
    assert("volume"@.len() == 6);
    assert("level"@[0] != "muted"@[0]);
}

/// The type tags differ from each other.
proof fn lemma_tags_differ()
    ensures
        "CLOSE"@ != "CONNECT"@,
        "PING"@ != "CONNECT"@,
        "PING"@ != "CLOSE"@,
        "PONG"@ != "CONNECT"@,
        "PONG"@ != "CLOSE"@,
        "PONG"@ != "PING"@,
        "GET_STATUS"@ != "CONNECT"@,
        "GET_STATUS"@ != "CLOSE"@,
        "GET_STATUS"@ != "PING"@,
        "GET_STATUS"@ != "PONG"@,
        "STOP"@ != "CONNECT"@,
        "STOP"@ != "CLOSE"@,
        "STOP"@ != "PING"@,
        "STOP"@ != "PONG"@,
        "STOP"@ != "GET_STATUS"@,
        "STOP"@ != "LAUNCH"@,
{
    reveal_strlit("CONNECT");
    reveal_strlit("CLOSE");
    reveal_strlit("PING");
    reveal_strlit("PONG");
    reveal_strlit("GET_STATUS");
    reveal_strlit("LAUNCH");
    reveal_strlit("STOP");
    assert("CONNECT"@.len() == 7);
    assert("CLOSE"@.len() == 5);
    assert("PING"@.len() == 4);
    assert("PONG"@.len() == 4);
    assert("GET_STATUS"@.len() == 10);
    assert("LAUNCH"@.len() == 6);
    assert("STOP"@.len() == 4);
    assert("PONG"@[1] != "PING"@[1]);
    assert("STOP"@[0] != "PING"@[0]);
    assert("STOP"@[0] != "PONG"@[0]);
}

/// Whether `tag` is one of the nine types of message.
pub open spec fn is_known_type(tag: Seq<char>) -> bool {
    tag == "CONNECT"@ || tag == "CLOSE"@ || tag == "PING"@ || tag == "PONG"@ || tag
        == "GET_STATUS"@ || tag == "LAUNCH"@ || tag == "STOP"@ || tag == "SET_VOLUME"@ || tag
        == "RECEIVER_STATUS"@
}

/// A document whose type is a text that is none of the nine types is an
/// unknown message type, reported by that text; and so is the text envelope
/// whose payload the JSON parser reads as such a document.
pub proof fn lemma_unknown_type_is_reported(wire: Envelope, document: JsonDoc, tag: Seq<char>)
    requires
        document.field("type"@) == JsonDoc::Text(tag),
        !is_known_type(tag),
    ensures
        KindModel::decode(document) == Err::<KindModel, ErrorModel>(
            ErrorModel::UnknownMessageType(tag),
        ),
        wire.payload_type == PayloadType::STRING ==> MessageModel::from_parsed(
            wire,
            Some(document),
        ) == Err::<MessageModel, ErrorModel>(ErrorModel::UnknownMessageType(tag)),
{
}

/// Decoding the payload of a message gives its kind back, for the kinds that
/// round-trip; for a `STOP`, wherever the UUID parser reads back the text that
/// stands for the session.
pub proof fn lemma_payload_round_trip(kind: KindModel)
    requires
        kind.round_trips(),
    ensures
        (kind matches KindModel::Stop { session_id } ==> uuid_parse(hyphenated(session_id))
            == Some(session_id)) ==> KindModel::decode(kind.payload()) == Ok::<
            KindModel,
            ErrorModel,
        >(kind),
{
    lemma_tags_differ();
    lemma_keys_differ();
    let entries = kind.payload()->Object_0;
    lemma_position_of(entries, "type"@, 0);
    if kind is Stop {
        lemma_position_of(entries, "sessionId"@, 1);
    }
}

/// Decoding the envelope of a message gives the message back, for the kinds
/// that round-trip, wherever the text of the payload has no more digits in a
/// row than the JSON parser takes, the parser reads it as the document of the
/// kind and, for a `STOP`, the UUID parser reads back the text that stands
/// for the session.
pub proof fn lemma_wire_round_trip(message: MessageModel)
    requires
        message.kind.round_trips(),
    ensures
        has_short_numbers(encode_utf8(message.kind.payload_text())) && json_parse(
            message.kind.payload_text(),
        ) == Some(message.kind.payload()) && (
        message.kind matches KindModel::Stop { session_id } ==> uuid_parse(hyphenated(session_id))
            == Some(session_id)) ==> MessageModel::from_wire(message.to_wire()) == Ok::<
            MessageModel,
            ErrorModel,
        >(message),
{
    lemma_payload_round_trip(message.kind);
}

/// Decoding the bytes of a message gives the message back, for the kinds that
/// round-trip and texts of a length that fits in memory, wherever the text of
/// the payload has no more digits in a row than the JSON parser takes, the
/// parser reads it as the document of the kind and, for a `STOP`, the UUID
/// parser reads back the text that stands for the session.
pub proof fn lemma_bytes_round_trip(message: MessageModel)
    requires
        message.kind.round_trips(),
        message.to_wire().fits(),
    ensures
        has_short_numbers(encode_utf8(message.kind.payload_text())) && json_parse(
            message.kind.payload_text(),
        ) == Some(message.kind.payload()) && (
        message.kind matches KindModel::Stop { session_id } ==> uuid_parse(hyphenated(session_id))
            == Some(session_id)) ==> MessageModel::from_bytes(message.to_bytes()) == Ok::<
            MessageModel,
            ErrorModel,
        >(message),
{
    lemma_envelope_round_trip(message.to_wire());
    lemma_wire_round_trip(message);
}

/// An object that holds the type tag `tag` and nothing else.
fn tagged_object(tag: &str) -> (object: json::JsonValue)
    ensures
        json_model(object) == JsonDoc::Object(tagged(tag@)),
{
    let mut object = new_object();
    proof {
        lemma_with_fresh_field(Seq::empty(), "type"@, JsonDoc::Text(tag@));
    }
    insert(&mut object, "type", text_value(tag));
    assert(Seq::<(Seq<char>, JsonDoc)>::empty().push(("type"@, JsonDoc::Text(tag@))) == tagged(
        tag@,
    ));
    object
}

/// Stores `value` under `key` in an object that has no entry under that key.
fn append(object: &mut json::JsonValue, key: &str, value: json::JsonValue)
    requires
        json_model(*old(object)) is Object,
        forall|i: int|
            0 <= i < json_model(*old(object))->Object_0.len() ==> (
            #[trigger] json_model(*old(object))->Object_0[i]).0 != key@,
    ensures
        json_model(*final(object)) == JsonDoc::Object(
            json_model(*old(object))->Object_0.push((key@, json_model(value))),
        ),
{
    proof {
        lemma_with_fresh_field(json_model(*object)->Object_0, key@, json_model(value));
    }
    insert(object, key, value);
}

/// The size of `n` without its sign.
fn magnitude(n: i64) -> (size: u64)
    ensures
        size == if n >= 0 {
            n as int
        } else {
            -(n as int)
        },
{
    if n >= 0 {
        n as u64
    } else {
        (-(n + 1)) as u64 + 1
    }
}

impl MessageKind {
    /// Builds the JSON document that carries a message of this kind.
    ///
    /// A receiver status is never sent, and has no such document. For the
    /// kinds that round-trip, the document decodes to this kind again.
    pub fn to_json(&self) -> (document: json::JsonValue)
        requires
            !(self is ReceiverStatus),
        ensures
            json_model(document) == self@.payload(),
            self@.round_trips() ==> KindModel::decode(json_model(document)) == Ok::<
                KindModel,
                ErrorModel,
            >(self@),
    {
        proof {
            lemma_keys_differ();
            if self@.round_trips() && !(self is Stop) {
                lemma_payload_round_trip(self@);
            }
        }
        match self {
            MessageKind::Connect => tagged_object("CONNECT"),
            MessageKind::Close => tagged_object("CLOSE"),
            MessageKind::Ping => tagged_object("PING"),
            MessageKind::Pong => tagged_object("PONG"),
            MessageKind::GetStatus => tagged_object("GET_STATUS"),
            MessageKind::Launch { app_id, request_id } => {
                let mut object = tagged_object("LAUNCH");
                append(&mut object, "appId", text_value(app_id.0.as_str()));
                let size = magnitude(*request_id);
                assert(trimmed(size, 0) == (size, 0i16));
                append(&mut object, "requestId", number_value(*request_id >= 0, size, 0));
                object
            },
            MessageKind::Stop { session_id } => {
                let mut object = tagged_object("STOP");
                let text = uuid_text(session_id.0);
                append(&mut object, "sessionId", text_value(text.as_str()));
                proof {
                    lemma_payload_round_trip(self@);
                }
                object
            },
            MessageKind::SetVolume { level, muted } => {
                let mut volume = new_object();
                if let Some(level) = level {
                    let (positive, mantissa, exponent) = level.as_parts();
                    append(&mut volume, "level", number_value(positive, mantissa, exponent));
                }
                if let Some(muted) = muted {
                    append(&mut volume, "muted", boolean_value(*muted));
                }
                let mut object = tagged_object("SET_VOLUME");
                append(&mut object, "volume", volume);
                object
            },
            MessageKind::ReceiverStatus(_) => vstd::pervasive::unreached(),
        }
    }

    /// Writes the payload of a message of this kind: a fixed text for the
    /// kinds without fields, and the compact text of the document for the
    /// others.
    ///
    /// A receiver status is never sent, and has no payload.
    pub fn payload_text(&self) -> (text: String)
        requires
            !(self is ReceiverStatus),
        ensures
            text@ == self@.payload_text(),
    {
        match self {
            MessageKind::Connect => "{\"type\":\"CONNECT\"}".to_owned(),
            MessageKind::Close => "{\"type\":\"CLOSE\"}".to_owned(),
            MessageKind::Ping => "{\"type\":\"PING\"}".to_owned(),
            MessageKind::Pong => "{\"type\":\"PONG\"}".to_owned(),
            MessageKind::GetStatus => "{\"type\":\"GET_STATUS\"}".to_owned(),
            _ => stringify(self.to_json()),
        }
    }

    /// Reads the kind of a message from the JSON document that carries it.
    pub fn from_json(document: &json::JsonValue) -> (r: Result<Self, Error>)
        ensures
            match r {
                Ok(kind) => KindModel::decode(json_model(*document)) == Ok::<
                    KindModel,
                    ErrorModel,
                >(kind@),
                Err(error) => KindModel::decode(json_model(*document)) == Err::<
                    KindModel,
                    ErrorModel,
                >(error@),
            },
    {
        let tag = match as_str(member(document, "type")) {
            Some(tag) => tag,
            None => return Err(Error(ErrorKind::Protobuf)),
        };
        if same_text(tag, "CONNECT") {
            Ok(MessageKind::Connect)
        } else if same_text(tag, "CLOSE") {
            Ok(MessageKind::Close)
        } else if same_text(tag, "PING") {
            Ok(MessageKind::Ping)
        } else if same_text(tag, "PONG") {
            Ok(MessageKind::Pong)
        } else if same_text(tag, "GET_STATUS") {
            Ok(MessageKind::GetStatus)
        } else if same_text(tag, "LAUNCH") {
            Ok(MessageKind::Launch { app_id: ApplicationId(String::new()), request_id: 0 })
        } else if same_text(tag, "STOP") {
            match as_str(member(document, "sessionId")) {
                Some(session_id_text) => match parse_uuid(session_id_text) {
                    Some(session_id) => Ok(MessageKind::Stop { session_id: SessionId(session_id) }),
                    None => Err(Error(ErrorKind::UuidParse)),
                },
                None => Err(Error(ErrorKind::UuidParse)),
            }
        } else if same_text(tag, "SET_VOLUME") {
            Ok(MessageKind::SetVolume { level: None, muted: None })
        } else if same_text(tag, "RECEIVER_STATUS") {
            match Status::from_json(member(document, "status")) {
                Ok(status) => Ok(MessageKind::ReceiverStatus(status)),
                Err(error) => Err(error),
            }
        } else {
            Err(Error(ErrorKind::UnknownMessageType(tag.to_owned())))
        }
    }
}

impl Message {
    /// Reads a message from a set of raw bytes that contain the message.
    pub fn from_raw_bytes(data: &[u8]) -> (r: Result<Self, Error>)
        ensures
            match r {
                Ok(read) => MessageModel::from_bytes(data@) == Ok::<MessageModel, ErrorModel>(
                    read@,
                ),
                Err(error) => MessageModel::from_bytes(data@) == Err::<
                    MessageModel,
                    ErrorModel,
                >(error@),
            },
    {
        match CastMessage::parse_from_bytes(data) {
            Ok(wire_message) => Message::from_wire_message(&wire_message),
            Err(error) => Err(error),
        }
    }

    /// Gets the raw bytes that represent the message. It never fails.
    ///
    /// A receiver status is never sent, and has no such bytes.
    pub fn as_raw_bytes(&self) -> (r: Result<Vec<u8>, Error>)
        requires
            !(self.kind is ReceiverStatus),
        ensures
            r matches Ok(bytes) && bytes@ == self@.to_bytes(),
    {
        Ok(self.as_wire_message().write_to_bytes())
    }

    /// Creates a message from a wire message.
    pub fn from_wire_message(message: &CastMessage) -> (r: Result<Self, Error>)
        ensures
            match r {
                Ok(read) => MessageModel::from_wire(message@) == Ok::<MessageModel, ErrorModel>(
                    read@,
                ),
                Err(error) => MessageModel::from_wire(message@) == Err::<
                    MessageModel,
                    ErrorModel,
                >(error@),
            },
    {
        let kind = match message.payload_type {
            PayloadType::STRING => {
                let text = match &message.payload_utf8 {
                    Some(text) => text.as_str(),
                    None => "",
                };
                proof {
                    reveal_strlit("");
                    assert(text@ == message@.text());
                }
                if !check_short_numbers(text) {
                    return Err(Error(ErrorKind::Protobuf));
                }
                let data = match parse(text) {
                    Some(data) => data,
                    None => return Err(Error(ErrorKind::Protobuf)),
                };
                match MessageKind::from_json(&data) {
                    Ok(kind) => kind,
                    Err(error) => return Err(error),
                }
            },
            PayloadType::BINARY => {
                return Err(Error(ErrorKind::UnknownMessageType("binary message".to_owned())));
            },
        };
        Ok(
            Message {
                source: EndpointName(message.source_id.clone()),
                destination: EndpointName(message.destination_id.clone()),
                namespace: Namespace(message.namespace.clone()),
                kind,
            },
        )
    }

    /// Builds a wire message.
    ///
    /// A receiver status is never sent, and has no wire message.
    pub fn as_wire_message(&self) -> (wire: CastMessage)
        requires
            !(self.kind is ReceiverStatus),
        ensures
            wire@ == self@.to_wire(),
    {
        let payload = self.kind.payload_text();
        CastMessage {
            protocol_version: ProtocolVersion::CASTV2_1_0,
            source_id: self.source.0.clone(),
            destination_id: self.destination.0.clone(),
            namespace: self.namespace.0.clone(),
            payload_type: PayloadType::STRING,
            payload_utf8: Some(payload),
            payload_binary: None,
        }
    }
}

impl EndpointName {
    /// Whether this names every endpoint at once.
    pub fn is_broadcast(&self) -> (yes: bool)
        ensures
            yes == (self@ == "*"@),
    {
        same_text(self.0.as_str(), "*")
    }
}

} // verus!
