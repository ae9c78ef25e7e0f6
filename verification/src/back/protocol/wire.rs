//! The CASTV2 envelope and its encoding on the wire.

use vstd::prelude::*;
use vstd::slice::{slice_subrange, slice_to_vec};
use vstd::utf8::{
    decode_utf8, encode_utf8, encode_utf8_decode_utf8, encode_utf8_valid_utf8, valid_utf8,
};

use super::varint::{lemma_varint_at_round_trip, read_varint, varint, varint_at, write_varint};
use crate::errors::{Error, ErrorKind, ErrorModel};

verus! {

/// The version of the protocol that an envelope speaks.
#[allow(non_camel_case_types)]
#[derive(Clone, Copy, Debug, PartialEq, Eq, Structural)]
pub enum ProtocolVersion {
    CASTV2_1_0,
}

/// Which of the two payload fields of an envelope is in use.
#[derive(Clone, Copy, Debug, PartialEq, Eq, Structural)]
pub enum PayloadType {
    STRING,
    BINARY,
}

/// The envelope that carries every CASTV2 message.
///
/// The first five fields are required on the wire; the two payload fields are
/// optional.
#[derive(Clone, Debug, PartialEq, Eq)]
pub struct CastMessage {
    pub protocol_version: ProtocolVersion,
    pub source_id: String,
    pub destination_id: String,
    pub namespace: String,
    pub payload_type: PayloadType,
    pub payload_utf8: Option<String>,
    pub payload_binary: Option<Vec<u8>>,
}

/// The mathematical value of a [`CastMessage`].
pub struct Envelope {
    pub protocol_version: ProtocolVersion,
    pub source_id: Seq<char>,
    pub destination_id: Seq<char>,
    pub namespace: Seq<char>,
    pub payload_type: PayloadType,
    pub payload_utf8: Option<Seq<char>>,
    pub payload_binary: Option<Seq<u8>>,
}

impl View for CastMessage {
    type V = Envelope;

    open spec fn view(&self) -> Envelope {
        Envelope {
            protocol_version: self.protocol_version,
            source_id: self.source_id@,
            destination_id: self.destination_id@,
            namespace: self.namespace@,
            payload_type: self.payload_type,
            payload_utf8: match self.payload_utf8 {
                Some(text) => Some(text@),
                None => None,
            },
            payload_binary: match self.payload_binary {
                Some(bytes) => Some(bytes@),
                None => None,
            },
        }
    }
}

impl Envelope {
    /// The text payload; empty where the field is not set.
    pub open spec fn text(self) -> Seq<char> {
        match self.payload_utf8 {
            Some(text) => text,
            None => Seq::empty(),
        }
    }
}

/// An envelope that is being read: each field is there once it was found.
pub struct Draft {
    pub protocol_version: Option<ProtocolVersion>,
    pub source_id: Option<Seq<char>>,
    pub destination_id: Option<Seq<char>>,
    pub namespace: Option<Seq<char>>,
    pub payload_type: Option<PayloadType>,
    pub payload_utf8: Option<Seq<char>>,
    pub payload_binary: Option<Seq<u8>>,
}

impl Draft {
    /// The draft in which no field was found yet.
    pub open spec fn empty() -> Draft {
        Draft {
            protocol_version: None,
            source_id: None,
            destination_id: None,
            namespace: None,
            payload_type: None,
            payload_utf8: None,
            payload_binary: None,
        }
    }

    /// The draft after a field that holds a number. Fields 1 and 5 are the
    /// protocol version and the payload type; a number that names no version
    /// or type is passed over. The text and bytes fields hold no number. A
    /// field that the envelope does not have is passed over.
    pub open spec fn with_number(self, field: nat, value: u64) -> Option<Draft> {
        if field == 1 {
            if value == 0 {
                Some(Draft { protocol_version: Some(ProtocolVersion::CASTV2_1_0), ..self })
            } else {
                Some(self)
            }
        } else if field == 5 {
            if value == 0 {
                Some(Draft { payload_type: Some(PayloadType::STRING), ..self })
            } else if value == 1 {
                Some(Draft { payload_type: Some(PayloadType::BINARY), ..self })
            } else {
                Some(self)
            }
        } else if 2 <= field <= 7 {
            None
        } else {
            Some(self)
        }
    }

    /// The draft after a field that holds bytes. Fields 2, 3, 4 and 6 are
    /// texts, which must be UTF-8; field 7 is the binary payload. The number
    /// fields hold no bytes. A field that the envelope does not have is
    /// passed over.
    pub open spec fn with_bytes(self, field: nat, content: Seq<u8>) -> Option<Draft> {
        if field == 1 || field == 5 {
            None
        } else if field == 7 {
            Some(Draft { payload_binary: Some(content), ..self })
        } else if 2 <= field <= 6 {
            if !valid_utf8(content) {
                None
            } else if field == 2 {
                Some(Draft { source_id: Some(decode_utf8(content)), ..self })
            } else if field == 3 {
                Some(Draft { destination_id: Some(decode_utf8(content)), ..self })
            } else if field == 4 {
                Some(Draft { namespace: Some(decode_utf8(content)), ..self })
            } else {
                Some(Draft { payload_utf8: Some(decode_utf8(content)), ..self })
            }
        } else {
            Some(self)
        }
    }

    /// The draft after a field of a fixed width, which no field of the
    /// envelope is.
    pub open spec fn with_fixed(self, field: nat) -> Option<Draft> {
        if 1 <= field <= 7 {
            None
        } else {
            Some(self)
        }
    }

    /// The envelope, once the five required fields were found.
    pub open spec fn finish(self) -> Option<Envelope> {
        if self.protocol_version is Some && self.source_id is Some && self.destination_id is Some
            && self.namespace is Some && self.payload_type is Some {
            Some(
                Envelope {
                    protocol_version: self.protocol_version->0,
                    source_id: self.source_id->0,
                    destination_id: self.destination_id->0,
                    namespace: self.namespace->0,
                    payload_type: self.payload_type->0,
                    payload_utf8: self.payload_utf8,
                    payload_binary: self.payload_binary,
                },
            )
        } else {
            None
        }
    }
}

/// A field that holds a number, on the wire.
pub open spec fn number_field(field: nat, value: nat) -> Seq<u8> {
    varint(field * 8) + varint(value)
}

/// A field that holds bytes, on the wire.
pub open spec fn bytes_field(field: nat, content: Seq<u8>) -> Seq<u8> {
    varint(field * 8 + 2) + (varint(content.len()) + content)
}

/// A field that may be absent, on the wire.
pub open spec fn optional_field(field: nat, content: Option<Seq<u8>>) -> Seq<u8> {
    match content {
        Some(content) => bytes_field(field, content),
        None => Seq::empty(),
    }
}

/// The field at the beginning of `bytes`: the draft after it, and the count
/// of bytes that the field takes; `None` where the field is malformed.
///
/// A field begins with a number that holds the field's number and, in its
/// lowest three bits, the way in which the field is laid out: as a number
/// (0), as eight bytes (1), as a length and that many bytes (2), or as four
/// bytes (5).
///
/// Some bytes are rejected here on purpose that the coded streams of the
/// `protobuf` crate read: a tag that does not fit in 32 bits and a length
/// beyond 32 bits, which that crate cuts down to their lowest 32 bits, and a
/// number that does not fit in 64 bits. No well-formed envelope holds any of
/// them. A number for the protocol version or the payload type counts as it
/// stands, not cut down to 32 bits.
pub open spec fn field_at(bytes: Seq<u8>, draft: Draft) -> Option<(Draft, nat)> {
    match varint_at(bytes) {
        None => None,
        Some((tag, tag_len)) => {
            let field = (tag / 8) as nat;
            let layout = tag % 8;
            let rest = bytes.skip(tag_len as int);
            if tag > u32::MAX || field == 0 {
                None
            } else if layout == 0 {
                match varint_at(rest) {
                    None => None,
                    Some((value, value_len)) => match draft.with_number(field, value) {
                        Some(next) => Some((next, tag_len + value_len)),
                        None => None,
                    },
                }
            } else if layout == 1 {
                if rest.len() >= 8 {
                    match draft.with_fixed(field) {
                        Some(next) => Some((next, tag_len + 8)),
                        None => None,
                    }
                } else {
                    None
                }
            } else if layout == 2 {
                match varint_at(rest) {
                    None => None,
                    Some((len, len_len)) => if len <= rest.len() - len_len {
                        match draft.with_bytes(
                            field,
                            rest.subrange(len_len as int, len_len + len),
                        ) {
                            Some(next) => Some((next, tag_len + len_len + len as nat)),
                            None => None,
                        }
                    } else {
                        None
                    },
                }
            } else if layout == 5 {
                if rest.len() >= 4 {
                    match draft.with_fixed(field) {
                        Some(next) => Some((next, tag_len + 4)),
                        None => None,
                    }
                } else {
                    None
                }
            } else {
                None
            }
        },
    }
}

/// The draft after all the fields of `bytes`.
pub open spec fn fields(bytes: Seq<u8>, draft: Draft) -> Option<Draft>
    decreases bytes.len(),
{
    if bytes.len() == 0 {
        Some(draft)
    } else {
        match field_at(bytes, draft) {
            Some((next, taken)) => if 0 < taken <= bytes.len() {
                fields(bytes.skip(taken as int), next)
            } else {
                None
            },
            None => None,
        }
    }
}

impl Envelope {
    /// The envelope on the wire: its fields in the order of their numbers,
    /// the two payload fields only where they are set.
    pub open spec fn encode(self) -> Seq<u8> {
        number_field(1, 0) + (bytes_field(2, encode_utf8(self.source_id)) + (bytes_field(
            3,
            encode_utf8(self.destination_id),
        ) + (bytes_field(4, encode_utf8(self.namespace)) + (number_field(
            5,
            match self.payload_type {
                PayloadType::STRING => 0,
                PayloadType::BINARY => 1,
            },
        ) + (optional_field(
            6,
            match self.payload_utf8 {
                Some(text) => Some(encode_utf8(text)),
                None => None,
            },
        ) + optional_field(7, self.payload_binary))))))
    }

    /// The envelope that `bytes` holds; `None` where they are malformed or a
    /// required field is missing.
    pub open spec fn decode(bytes: Seq<u8>) -> Option<Envelope> {
        match fields(bytes, Draft::empty()) {
            Some(draft) => draft.finish(),
            None => None,
        }
    }

    /// Every text and the binary payload have a length that fits in 64 bits,
    /// as anything in memory has.
    pub open spec fn fits(self) -> bool {
        &&& encode_utf8(self.source_id).len() <= u64::MAX
        &&& encode_utf8(self.destination_id).len() <= u64::MAX
        &&& encode_utf8(self.namespace).len() <= u64::MAX
        &&& self.payload_utf8 matches Some(text) ==> encode_utf8(text).len() <= u64::MAX
        &&& self.payload_binary matches Some(bytes) ==> bytes.len() <= u64::MAX
    }
}

/// A number field at the beginning of a stream is read as what it is.
pub proof fn lemma_number_field_at(field: nat, value: u64, rest: Seq<u8>, draft: Draft)
    requires
        1 <= field <= 0x1fff_ffff,
    ensures
        number_field(field, value as nat).len() > 0,
        field_at(number_field(field, value as nat) + rest, draft) == match draft.with_number(
            field,
            value,
        ) {
            Some(next) => Some((next, number_field(field, value as nat).len())),
            None => None,
        },
{
    let tag = (field * 8) as u64;
    let after = varint(value as nat) + rest;
    let all = number_field(field, value as nat) + rest;
    lemma_varint_at_round_trip(tag, after);
    lemma_varint_at_round_trip(value, rest);
    assert(all == varint(tag as nat) + after);
    assert(all.skip(varint(tag as nat).len() as int) == after);
}

/// A bytes field at the beginning of a stream is read as what it is.
pub proof fn lemma_bytes_field_at(field: nat, content: Seq<u8>, rest: Seq<u8>, draft: Draft)
    requires
        1 <= field <= 0x1fff_ffff,
        content.len() <= u64::MAX,
    ensures
        bytes_field(field, content).len() > 0,
        field_at(bytes_field(field, content) + rest, draft) == match draft.with_bytes(
            field,
            content,
        ) {
            Some(next) => Some((next, bytes_field(field, content).len())),
            None => None,
        },
{
    let tag = (field * 8 + 2) as u64;
    let len = content.len() as u64;
    let after_len = content + rest;
    let after_tag = varint(len as nat) + after_len;
    let all = bytes_field(field, content) + rest;
    lemma_varint_at_round_trip(tag, after_tag);
    lemma_varint_at_round_trip(len, after_len);
    assert(all == varint(tag as nat) + after_tag);
    assert(all.skip(varint(tag as nat).len() as int) == after_tag);
    let len_len = varint(len as nat).len();
    assert(after_tag.subrange(len_len as int, len_len + len) == content);
}

/// After a field that was read, the fields of a stream are those of what
/// follows the field.
pub proof fn lemma_fields_step(first: Seq<u8>, rest: Seq<u8>, draft: Draft, next: Draft)
    requires
        first.len() > 0,
        field_at(first + rest, draft) == Some((next, first.len())),
    ensures
        fields(first + rest, draft) == fields(rest, next),
{
    assert((first + rest).skip(first.len() as int) == rest);
}

/// The fields of a text field are those of what follows it, with the text in
/// the draft.
proof fn lemma_text_step(field: nat, text: Seq<char>, rest: Seq<u8>, draft: Draft)
    requires
        field == 2 || field == 3 || field == 4 || field == 6,
        encode_utf8(text).len() <= u64::MAX,
    ensures
        fields(bytes_field(field, encode_utf8(text)) + rest, draft) == fields(
            rest,
            draft.with_bytes(field, encode_utf8(text))->0,
        ),
        draft.with_bytes(field, encode_utf8(text)) is Some,
        valid_utf8(encode_utf8(text)),
        decode_utf8(encode_utf8(text)) == text,
{
    encode_utf8_valid_utf8(text);
    encode_utf8_decode_utf8(text);
    let content = encode_utf8(text);
    lemma_bytes_field_at(field, content, rest, draft);
    lemma_fields_step(
        bytes_field(field, content),
        rest,
        draft,
        draft.with_bytes(field, content)->0,
    );
}

/// Reading what was written gives the envelope back.
pub proof fn lemma_envelope_round_trip(envelope: Envelope)
    requires
        envelope.fits(),
    ensures
        Envelope::decode(envelope.encode()) == Some(envelope),
{
    let kind: u64 = match envelope.payload_type {
        PayloadType::STRING => 0,
        PayloadType::BINARY => 1,
    };
    let text = match envelope.payload_utf8 {
        Some(text) => Some(encode_utf8(text)),
        None => None,
    };
    let f7 = optional_field(7, envelope.payload_binary);
    let f6 = optional_field(6, text);
    let r6 = f6 + f7;
    let r5 = number_field(5, kind as nat) + r6;
    let r4 = bytes_field(4, encode_utf8(envelope.namespace)) + r5;
    let r3 = bytes_field(3, encode_utf8(envelope.destination_id)) + r4;
    let r2 = bytes_field(2, encode_utf8(envelope.source_id)) + r3;
    let d0 = Draft::empty();
    let d1 = Draft { protocol_version: Some(ProtocolVersion::CASTV2_1_0), ..d0 };
    let d2 = Draft { source_id: Some(envelope.source_id), ..d1 };
    let d3 = Draft { destination_id: Some(envelope.destination_id), ..d2 };
    let d4 = Draft { namespace: Some(envelope.namespace), ..d3 };
    let d5 = Draft { payload_type: Some(envelope.payload_type), ..d4 };
    let d6 = Draft { payload_utf8: envelope.payload_utf8, ..d5 };
    let d7 = Draft { payload_binary: envelope.payload_binary, ..d6 };
    lemma_number_field_at(1, 0, r2, d0);
    lemma_fields_step(number_field(1, 0), r2, d0, d1);
    lemma_text_step(2, envelope.source_id, r3, d1);
    lemma_text_step(3, envelope.destination_id, r4, d2);
    lemma_text_step(4, envelope.namespace, r5, d3);
    lemma_number_field_at(5, kind, r6, d4);
    lemma_fields_step(number_field(5, kind as nat), r6, d4, d5);
    assert(fields(envelope.encode(), d0) == fields(r6, d5));
    match envelope.payload_utf8 {
        Some(payload) => {
            lemma_text_step(6, payload, f7, d5);
        },
        None => {
            assert(r6 == f7);
        },
    }
    assert(fields(r6, d5) == fields(f7, d6));
    match envelope.payload_binary {
        Some(payload) => {
            lemma_bytes_field_at(7, payload, Seq::empty(), d6);
            lemma_fields_step(bytes_field(7, payload), Seq::empty(), d6, d7);
            assert(f7 + Seq::<u8>::empty() == f7);
        },
        None => {},
    }
    assert(fields(f7, d6) == Some(d7));
    assert(d7.finish() == Some(envelope));
}

/// The text that an optional string holds.
pub open spec fn text_model(text: Option<String>) -> Option<Seq<char>> {
    match text {
        Some(text) => Some(text@),
        None => None,
    }
}

/// The bytes that an optional vector holds.
pub open spec fn bytes_model(bytes: Option<Vec<u8>>) -> Option<Seq<u8>> {
    match bytes {
        Some(bytes) => Some(bytes@),
        None => None,
    }
}

/// An envelope that is being read.
struct Partial {
    protocol_version: Option<ProtocolVersion>,
    source_id: Option<String>,
    destination_id: Option<String>,
    namespace: Option<String>,
    payload_type: Option<PayloadType>,
    payload_utf8: Option<String>,
    payload_binary: Option<Vec<u8>>,
}

impl View for Partial {
    type V = Draft;

    closed spec fn view(&self) -> Draft {
        Draft {
            protocol_version: self.protocol_version,
            source_id: text_model(self.source_id),
            destination_id: text_model(self.destination_id),
            namespace: text_model(self.namespace),
            payload_type: self.payload_type,
            payload_utf8: text_model(self.payload_utf8),
            payload_binary: bytes_model(self.payload_binary),
        }
    }
}

/// `String::from_utf8`, with the error dropped: the string whose UTF-8
/// encoding is `bytes`, or `None` where the bytes are no UTF-8.
#[verifier::external_body]
fn text_from_utf8(bytes: Vec<u8>) -> (text: Option<String>)
    ensures
        match text {
            Some(text) => encode_utf8(text@) == bytes@,
            None => !valid_utf8(bytes@),
        },
{
    String::from_utf8(bytes).ok()
}

/// Appends `bytes` to `out`.
fn append_bytes(out: &mut Vec<u8>, bytes: &[u8])
    ensures
        final(out)@ == old(out)@ + bytes@,
{
    let mut i: usize = 0;
    while i < bytes.len()
        invariant
            i <= bytes.len(),
            out@ == old(out)@ + bytes@.take(i as int),
        decreases bytes.len() - i,
    {
        out.push(bytes[i]);
        i += 1;
    }
    assert(bytes@.take(bytes@.len() as int) == bytes@);
}

/// Appends a field that holds a number to `out`.
fn write_number_field(out: &mut Vec<u8>, field: u64, value: u64)
    requires
        field <= 0x1fff_ffff,
    ensures
        final(out)@ == old(out)@ + number_field(field as nat, value as nat),
{
    write_varint(out, field * 8);
    write_varint(out, value);
    assert(out@ == old(out)@ + number_field(field as nat, value as nat));
}

/// Appends a field that holds bytes to `out`.
fn write_bytes_field(out: &mut Vec<u8>, field: u64, content: &[u8])
    requires
        field <= 0x1fff_ffff,
    ensures
        final(out)@ == old(out)@ + bytes_field(field as nat, content@),
        content@.len() <= usize::MAX,
{
    write_varint(out, field * 8 + 2);
    write_varint(out, content.len() as u64);
    append_bytes(out, content);
    assert(out@ == old(out)@ + bytes_field(field as nat, content@));
}

impl Partial {
    /// Takes in a field that holds a number.
    fn put_number(&mut self, field: u64, value: u64) -> (ok: bool)
        ensures
            match old(self)@.with_number(field as nat, value) {
                Some(next) => ok && final(self)@ == next,
                None => !ok,
            },
    {
        if field == 1 {
            if value == 0 {
                self.protocol_version = Some(ProtocolVersion::CASTV2_1_0);
            }
            true
        } else if field == 5 {
            if value == 0 {
                self.payload_type = Some(PayloadType::STRING);
            } else if value == 1 {
                self.payload_type = Some(PayloadType::BINARY);
            }
            true
        } else {
            !(2 <= field && field <= 7)
        }
    }

    /// Takes in a field that holds bytes.
    fn put_bytes(&mut self, field: u64, content: Vec<u8>) -> (ok: bool)
        ensures
            match old(self)@.with_bytes(field as nat, content@) {
                Some(next) => ok && final(self)@ == next,
                None => !ok,
            },
    {
        if field == 1 || field == 5 {
            false
        } else if field == 7 {
            self.payload_binary = Some(content);
            true
        } else if 2 <= field && field <= 6 {
            match text_from_utf8(content) {
                Some(text) => {
                    proof {
                        encode_utf8_valid_utf8(text@);
                        encode_utf8_decode_utf8(text@);
                    }
                    if field == 2 {
                        self.source_id = Some(text);
                    } else if field == 3 {
                        self.destination_id = Some(text);
                    } else if field == 4 {
                        self.namespace = Some(text);
                    } else {
                        self.payload_utf8 = Some(text);
                    }
                    true
                },
                None => false,
            }
        } else {
            true
        }
    }

    /// Reads the field that begins at `start` and takes it in: the place
    /// where the field ends, or `None` where it is malformed.
    fn read_field(&mut self, bytes: &[u8], start: usize) -> (end: Option<usize>)
        requires
            start < bytes@.len(),
        ensures
            match field_at(bytes@.skip(start as int), old(self)@) {
                Some((next, taken)) => end == Some((start + taken) as usize) && final(self)@
                    == next && 0 < taken && start + taken <= bytes@.len(),
                None => end is None,
            },
    {
        let ghost all = bytes@.skip(start as int);
        let (tag, after_tag) = match read_varint(bytes, start) {
            Some(found) => found,
            None => return None,
        };
        let field = tag / 8;
        let layout = tag % 8;
        let ghost rest = all.skip(after_tag - start);
        assert(rest == bytes@.skip(after_tag as int));
        if tag > 0xffff_ffff || field == 0 {
            None
        } else if layout == 0 {
            let (value, after_value) = match read_varint(bytes, after_tag) {
                Some(found) => found,
                None => return None,
            };
            if self.put_number(field, value) {
                Some(after_value)
            } else {
                None
            }
        } else if layout == 1 {
            if bytes.len() - after_tag >= 8 && !(1 <= field && field <= 7) {
                Some(after_tag + 8)
            } else {
                None
            }
        } else if layout == 2 {
            let (len, after_len) = match read_varint(bytes, after_tag) {
                Some(found) => found,
                None => return None,
            };
            if len > (bytes.len() - after_len) as u64 {
                return None;
            }
            let end = after_len + len as usize;
            let content = slice_to_vec(slice_subrange(bytes, after_len, end));
            assert(content@ == rest.subrange(after_len - after_tag, after_len - after_tag + len));
            if self.put_bytes(field, content) {
                Some(end)
            } else {
                None
            }
        } else if layout == 5 {
            if bytes.len() - after_tag >= 4 && !(1 <= field && field <= 7) {
                Some(after_tag + 4)
            } else {
                None
            }
        } else {
            None
        }
    }
}

impl CastMessage {
    /// Writes the envelope out. What is written reads back as this envelope.
    pub fn write_to_bytes(&self) -> (bytes: Vec<u8>)
        ensures
            bytes@ == self@.encode(),
            Envelope::decode(bytes@) == Some(self@),
    {
        let mut out: Vec<u8> = Vec::new();
        write_number_field(&mut out, 1, 0);
        write_bytes_field(&mut out, 2, self.source_id.as_str().as_bytes());
        write_bytes_field(&mut out, 3, self.destination_id.as_str().as_bytes());
        write_bytes_field(&mut out, 4, self.namespace.as_str().as_bytes());
        let payload_type: u64 = match self.payload_type {
            PayloadType::STRING => 0,
            PayloadType::BINARY => 1,
        };
        write_number_field(&mut out, 5, payload_type);
        if let Some(text) = &self.payload_utf8 {
            write_bytes_field(&mut out, 6, text.as_str().as_bytes());
        }
        if let Some(payload) = &self.payload_binary {
            write_bytes_field(&mut out, 7, payload.as_slice());
        }
        assert(out@ =~= self@.encode());
        proof {
            lemma_envelope_round_trip(self@);
        }
        out
    }

    /// Reads an envelope. Bytes that are malformed, or that lack a required
    /// field, are a decoding error; see [`field_at`] for the bytes that are
    /// held to be malformed on purpose.
    pub fn parse_from_bytes(bytes: &[u8]) -> (r: Result<CastMessage, Error>)
        ensures
            match r {
                Ok(message) => Envelope::decode(bytes@) == Some(message@),
                Err(error) => Envelope::decode(bytes@) is None && error@ == ErrorModel::Protobuf,
            },
    {
        let mut partial = Partial {
            protocol_version: None,
            source_id: None,
            destination_id: None,
            namespace: None,
            payload_type: None,
            payload_utf8: None,
            payload_binary: None,
        };
        let mut at: usize = 0;
        assert(bytes@.skip(0) == bytes@);
        while at < bytes.len()
            invariant
                at <= bytes@.len(),
                fields(bytes@, Draft::empty()) == fields(bytes@.skip(at as int), partial@),
            decreases bytes.len() - at,
        {
            let ghost here = bytes@.skip(at as int);
            match partial.read_field(bytes, at) {
                Some(end) => {
                    assert(here.skip(end - at) == bytes@.skip(end as int));
                    at = end;
                },
                None => {
                    return Err(Error(ErrorKind::Protobuf));
                },
            }
        }
        match (
            partial.protocol_version,
            partial.source_id,
            partial.destination_id,
            partial.namespace,
            partial.payload_type,
        ) {
            (
                Some(protocol_version),
                Some(source_id),
                Some(destination_id),
                Some(namespace),
                Some(payload_type),
            ) => Ok(
                CastMessage {
                    protocol_version,
                    source_id,
                    destination_id,
                    namespace,
                    payload_type,
                    payload_utf8: partial.payload_utf8,
                    payload_binary: partial.payload_binary,
                },
            ),
            _ => Err(Error(ErrorKind::Protobuf)),
        }
    }
}

} // verus!
