//! The framed transport: a reader that puts frames together from the bytes
//! that arrive, and a queue of frames to send.

use std::collections::VecDeque;
use vstd::prelude::*;

use super::framing::{
    after_first, be32, first_body, frame, framed, frames, has_frame, joined,
    lemma_be32_of_value, lemma_framed_is_read_back, lemma_value_of_be32, lemma_value_of_prefix,
    read_u32, unread, write_u32,
};
use super::io::{Io, Token};
use crate::discovery::DeviceInfo;
use crate::errors::Error;

verus! {

/// The port on which a Cast device listens.
pub const CAST_PORT: u16 = 8009;

/// The body of one frame.
pub type RawPacket = Vec<u8>;

/// The bodies that a list of packets holds.
pub open spec fn bodies(packets: Seq<RawPacket>) -> Seq<Seq<u8>> {
    Seq::new(packets.len(), |i: int| packets[i]@)
}

/// Puts frames together from the bytes of a stream, however the stream is cut
/// into pieces.
#[derive(Debug, PartialEq, Eq)]
pub enum Reader {
    /// We are currently reading the size from the stream.
    ReadingSize {
        /// The bytes we have received so far of the size integer.
        bytes: Vec<u8>,
    },
    /// We are currently reading the body from the stream.
    ReadingBody {
        /// The bytes we have received so far.
        bytes: Vec<u8>,
        /// The total size of the body.
        size: usize,
    },
}

impl View for Reader {
    type V = Seq<u8>;

    /// The bytes of the frame in progress that the reader has seen: the part
    /// of the size that it holds, or the whole size and the part of the body
    /// that it holds.
    open spec fn view(&self) -> Seq<u8> {
        match *self {
            Reader::ReadingSize { bytes } => bytes@,
            Reader::ReadingBody { bytes, size } => be32(size as u32) + bytes@,
        }
    }
}

impl Reader {
    /// A reader holds less than a whole size, or a size that fits in 32 bits
    /// and less than a whole body.
    pub open spec fn wf(&self) -> bool {
        match *self {
            Reader::ReadingSize { bytes } => bytes@.len() < 4,
            Reader::ReadingBody { bytes, size } => bytes@.len() < size && size <= u32::MAX,
        }
    }

    /// A reader at the beginning of a frame.
    pub fn new() -> (reader: Self)
        ensures
            reader.wf(),
            reader@ == Seq::<u8>::empty(),
            reader matches Reader::ReadingSize { bytes } && bytes@.len() == 0,
    {
        Reader::ReadingSize { bytes: Vec::new() }
    }

    /// What a well-formed reader holds does not begin with a whole frame.
    pub proof fn lemma_holds_no_frame(&self)
        requires
            self.wf(),
        ensures
            !has_frame(self@),
    {
        match *self {
            Reader::ReadingSize { bytes } => {},
            Reader::ReadingBody { bytes, size } => {
                lemma_value_of_be32(size as u32);
                lemma_value_of_prefix(be32(size as u32), bytes@);
            },
        }
    }

    /// Takes the bytes of `data` in, and appends to `packets` the body of each
    /// frame that they complete.
    ///
    /// Together with what the reader held, the bytes are a stream: its whole
    /// frames go to `packets`, and the reader keeps what is left. It never
    /// fails.
    pub fn read(&mut self, data: &[u8], packets: &mut Vec<RawPacket>) -> (r: Result<(), Error>)
        requires
            old(self).wf(),
        ensures
            r is Ok,
            final(self).wf(),
            final(self)@ == unread(old(self)@ + data@),
            bodies(final(packets)@) == bodies(old(packets)@) + frames(old(self)@ + data@),
    {
        let mut state = Reader::new();
        core::mem::swap(self, &mut state);
        let mut in_body = false;
        let mut size: usize = 0;
        let mut bytes: Vec<u8> = Vec::new();
        match state {
            Reader::ReadingSize { bytes: held } => {
                bytes = held;
            },
            Reader::ReadingBody { bytes: held, size: total } => {
                bytes = held;
                size = total;
                in_body = true;
            },
        }
        let ghost stream = old(self)@ + data@;
        let ghost mut emitted: Seq<Seq<u8>> = Seq::empty();
        let ghost mut current: Seq<u8> = old(self)@;
        proof {
            old(self).lemma_holds_no_frame();
            assert(data@.skip(0) == data@);
        }
        let mut i: usize = 0;
        while i < data.len()
            invariant
                i <= data.len(),
                in_body ==> bytes@.len() < size && size <= u32::MAX,
                !in_body ==> bytes@.len() < 4,
                current == if in_body {
                    be32(size as u32) + bytes@
                } else {
                    bytes@
                },
                !has_frame(current),
                frames(stream) == emitted + frames(current + data@.skip(i as int)),
                unread(stream) == unread(current + data@.skip(i as int)),
                bodies(packets@) == bodies(old(packets)@) + emitted,
            decreases data.len() - i,
        {
            let ghost rest = data@.skip(i as int + 1);
            let ghost before = bodies(packets@);
            assert(current + data@.skip(i as int) == current.push(data@[i as int]) + rest);
            bytes.push(data[i]);
            i += 1;
            if !in_body {
                if bytes.len() == 4 {
                    let total = read_u32(bytes.as_slice());
                    proof {
                        lemma_be32_of_value(bytes@);
                        assert(bytes@.take(4) == bytes@);
                        lemma_value_of_prefix(bytes@, rest);
                    }
                    if total == 0 {
                        packets.push(Vec::new());
                        proof {
                            assert(has_frame(bytes@ + rest));
                            assert(first_body(bytes@ + rest) == Seq::<u8>::empty());
                            assert(after_first(bytes@ + rest) == rest);
                            assert(bodies(packets@) == before.push(Seq::<u8>::empty()));
                            emitted = emitted.push(Seq::empty());
                            current = Seq::empty();
                            assert(current + rest == rest);
                        }
                        bytes = Vec::new();
                    } else {
                        size = total as usize;
                        in_body = true;
                        bytes = Vec::new();
                        proof {
                            current = be32(size as u32) + bytes@;
                            assert(current == be32(total));
                            lemma_value_of_be32(total);
                        }
                    }
                } else {
                    proof {
                        current = bytes@;
                    }
                }
            } else {
                proof {
                    lemma_value_of_be32(size as u32);
                    lemma_value_of_prefix(be32(size as u32), bytes@);
                    lemma_value_of_prefix(be32(size as u32) + bytes@, rest);
                    assert(be32(size as u32) + bytes@ == current.push(data@[i - 1]));
                }
                if bytes.len() == size {
                    let ghost whole = be32(size as u32) + bytes@;
                    let ghost body = bytes@;
                    proof {
                        assert(has_frame(whole + rest));
                        assert(first_body(whole + rest) == bytes@);
                        assert(after_first(whole + rest) == rest);
                    }
                    packets.push(bytes);
                    proof {
                        assert(bodies(packets@) == before.push(body));
                        emitted = emitted.push(body);
                        current = Seq::empty();
                        assert(current + rest == rest);
                    }
                    bytes = Vec::new();
                    in_body = false;
                } else {
                    proof {
                        current = be32(size as u32) + bytes@;
                    }
                }
            }
        }
        proof {
            assert(current + data@.skip(i as int) == current);
        }
        if in_body {
            *self = Reader::ReadingBody { bytes, size };
        } else {
            *self = Reader::ReadingSize { bytes };
        }
        Ok(())
    }
}

/// What the host's poller reports of a socket.
#[derive(Clone, Copy, Debug, PartialEq, Eq, Structural)]
pub struct Readiness {
    /// The token under which the socket is registered.
    pub token: Token,
    /// There is something to read.
    pub readable: bool,
    /// There is room to write.
    pub writable: bool,
    /// The peer has closed the connection.
    pub hup: bool,
}

/// What the host is to do with the socket after an event.
#[derive(Debug, PartialEq, Eq)]
pub enum Action {
    /// Nothing.
    Idle,
    /// Perform the TLS handshake as a client, without server-name indication
    /// and without verifying the certificate.
    Handshake,
    /// Write these bytes, all of them.
    Send(Vec<u8>),
}

/// The mathematical value of an [`Action`].
pub enum ActionModel {
    Idle,
    Handshake,
    Send(Seq<u8>),
}

impl View for Action {
    type V = ActionModel;

    open spec fn view(&self) -> ActionModel {
        match *self {
            Action::Idle => ActionModel::Idle,
            Action::Handshake => ActionModel::Handshake,
            Action::Send(bytes) => ActionModel::Send(bytes@),
        }
    }
}

/// What the transport knows of its socket.
enum Stream {
    /// Waiting for the connection to be established.
    PendingConnected,
    /// The TLS session is up.
    Connected,
}

/// A framed transport to one device.
///
/// The transport has no socket of its own. The host opens one to
/// [`Transport::peer`], registers it under [`Transport::token`], and reports
/// each readiness event with [`Transport::handle_event`], together with the
/// bytes it read.
pub struct Transport {
    /// The address and port of the device.
    peer: (u32, u16),
    token: Token,
    stream: Stream,
    reader: Reader,
    /// The packets that we have received so far.
    received_packets: VecDeque<RawPacket>,
    /// The packets we need to send.
    queued_packets: VecDeque<RawPacket>,
}

/// The mathematical value of a [`Transport`].
pub struct TransportModel {
    /// The address and port of the device.
    pub peer: (u32, u16),
    /// The token of the socket.
    pub token: Token,
    /// Whether the TLS session is up.
    pub connected: bool,
    /// The bytes of a frame that has not arrived whole.
    pub pending: Seq<u8>,
    /// The bodies of the frames that have arrived and were not taken yet.
    pub received: Seq<Seq<u8>>,
    /// The bodies that wait to be sent, the oldest first.
    pub queued: Seq<Seq<u8>>,
}

impl TransportModel {
    /// Whether the host is to read from the socket before it reports `event`.
    pub open spec fn wants_input(self, event: Readiness) -> bool {
        event.readable && self.connected
    }

    /// The transport after `data` has arrived.
    pub open spec fn take_in(self, data: Seq<u8>) -> TransportModel {
        TransportModel {
            pending: unread(self.pending + data),
            received: self.received + frames(self.pending + data),
            ..self
        }
    }

    /// The transport with `body` at the end of its queue.
    pub open spec fn send(self, body: Seq<u8>) -> TransportModel {
        TransportModel { queued: self.queued.push(body), ..self }
    }

    /// The transport after a moment at which the socket could be written: a
    /// pending connection is now up, and a connection that was up has lost
    /// the oldest body of its queue.
    pub open spec fn after_writable(self) -> TransportModel {
        if !self.connected {
            TransportModel { connected: true, ..self }
        } else if self.queued.len() > 0 {
            TransportModel { queued: self.queued.skip(1), ..self }
        } else {
            self
        }
    }

    /// What the host is to do at a moment at which the socket can be written:
    /// shake hands on a pending connection, send the oldest body of the queue
    /// as a frame on one that is up, nothing where the queue is empty.
    pub open spec fn when_writable(self) -> ActionModel {
        if !self.connected {
            ActionModel::Handshake
        } else if self.queued.len() > 0 {
            ActionModel::Send(frame(self.queued[0]))
        } else {
            ActionModel::Idle
        }
    }

    /// The transport after `event`, where `incoming` is what the host read.
    /// What arrived is taken in first, and only on a connection that is up.
    pub open spec fn after_event(self, event: Readiness, incoming: Seq<u8>) -> TransportModel {
        let read = if self.wants_input(event) {
            self.take_in(incoming)
        } else {
            self
        };
        if event.writable {
            read.after_writable()
        } else {
            read
        }
    }

    /// What the host is to do after `event`.
    pub open spec fn action(self, event: Readiness) -> ActionModel {
        if event.writable {
            self.when_writable()
        } else {
            ActionModel::Idle
        }
    }
}

/// One thing that happens to the sending side of a transport.
pub enum Step {
    /// A body is handed over for sending.
    Send(Seq<u8>),
    /// The socket can be written.
    Writable,
}

/// The bodies that `steps` hand over, in order.
pub open spec fn handed_over(steps: Seq<Step>) -> Seq<Seq<u8>>
    decreases steps.len(),
{
    if steps.len() == 0 {
        Seq::empty()
    } else {
        match steps.last() {
            Step::Send(body) => handed_over(steps.drop_last()).push(body),
            Step::Writable => handed_over(steps.drop_last()),
        }
    }
}

/// The transport after `steps`.
pub open spec fn after_steps(start: TransportModel, steps: Seq<Step>) -> TransportModel
    decreases steps.len(),
{
    if steps.len() == 0 {
        start
    } else {
        let before = after_steps(start, steps.drop_last());
        match steps.last() {
            Step::Send(body) => before.send(body),
            Step::Writable => before.after_writable(),
        }
    }
}

/// What the host was told to put on the wire in the course of `steps`.
pub open spec fn put_on_wire(start: TransportModel, steps: Seq<Step>) -> Seq<Seq<u8>>
    decreases steps.len(),
{
    if steps.len() == 0 {
        Seq::empty()
    } else {
        let before = after_steps(start, steps.drop_last());
        let wire = put_on_wire(start, steps.drop_last());
        match steps.last() {
            Step::Send(_) => wire,
            Step::Writable => match before.when_writable() {
                ActionModel::Send(bytes) => wire.push(bytes),
                _ => wire,
            },
        }
    }
}

/// The frames of a list of bodies.
pub open spec fn as_frames(bodies: Seq<Seq<u8>>) -> Seq<Seq<u8>> {
    Seq::new(bodies.len(), |i: int| frame(bodies[i]))
}

/// Whatever the order in which bodies are handed over and the socket can be
/// written, what goes on the wire is the frames of the bodies that were
/// queued and handed over, in that order and each once, as far as the queue
/// was served; the rest is still in the queue.
pub proof fn lemma_sent_in_order(start: TransportModel, steps: Seq<Step>)
    ensures
        ({
            let all = start.queued + handed_over(steps);
            let wire = put_on_wire(start, steps);
            let end = after_steps(start, steps);
            &&& wire.len() <= all.len()
            &&& wire == as_frames(all.take(wire.len() as int))
            &&& end.queued == all.skip(wire.len() as int)
        }),
    decreases steps.len(),
{
    let all = start.queued + handed_over(steps);
    let wire = put_on_wire(start, steps);
    let end = after_steps(start, steps);
    if steps.len() == 0 {
        assert(all == start.queued);
        assert(wire == as_frames(all.take(0)));
        assert(end.queued == all.skip(0));
    } else {
        let earlier = steps.drop_last();
        lemma_sent_in_order(start, earlier);
        let all_before = start.queued + handed_over(earlier);
        let wire_before = put_on_wire(start, earlier);
        let before = after_steps(start, earlier);
        let k = wire_before.len() as int;
        match steps.last() {
            Step::Send(body) => {
                assert(all == all_before.push(body));
                assert(all.take(k) == all_before.take(k));
                assert(end.queued == all.skip(k));
            },
            Step::Writable => {
                assert(all == all_before);
                if before.connected && before.queued.len() > 0 {
                    assert(before.queued[0] == all[k]);
                    assert(all.take(k + 1) == all.take(k).push(all[k]));
                    assert(wire == as_frames(all.take(k + 1)));
                    assert(end.queued == all.skip(k + 1));
                }
            },
        }
    }
}

/// Once the queue is empty, every body that was queued or handed over has
/// gone on the wire as one frame, in the order in which they were handed over.
pub proof fn lemma_all_sent(start: TransportModel, steps: Seq<Step>)
    requires
        after_steps(start, steps).queued.len() == 0,
    ensures
        put_on_wire(start, steps) == as_frames(start.queued + handed_over(steps)),
{
    lemma_sent_in_order(start, steps);
    let all = start.queued + handed_over(steps);
    let wire = put_on_wire(start, steps);
    assert(all.skip(wire.len() as int).len() == 0);
    assert(all.take(wire.len() as int) == all);
}

/// The frames of a list of bodies, laid end to end, are the bodies as they go
/// on the wire.
pub proof fn lemma_frames_joined(bodies: Seq<Seq<u8>>)
    ensures
        joined(as_frames(bodies)) == framed(bodies),
    decreases bodies.len(),
{
    if bodies.len() > 0 {
        assert(as_frames(bodies)[0] == frame(bodies[0]));
        assert(as_frames(bodies).skip(1) == as_frames(bodies.skip(1)));
        lemma_frames_joined(bodies.skip(1));
    }
}

/// What one side has put on the wire by the time its queue is empty, the
/// reader of the other side puts together again: the bodies that were queued
/// and handed over, in order, with nothing left over; this where each body
/// has a length that fits in 32 bits.
pub proof fn lemma_sent_is_received(start: TransportModel, steps: Seq<Step>)
    requires
        after_steps(start, steps).queued.len() == 0,
        forall|i: int|
            0 <= i < (start.queued + handed_over(steps)).len() ==> (#[trigger] (start.queued
                + handed_over(steps))[i]).len() <= u32::MAX,
    ensures
        frames(joined(put_on_wire(start, steps))) == start.queued + handed_over(steps),
        unread(joined(put_on_wire(start, steps))) == Seq::<u8>::empty(),
{
    let all = start.queued + handed_over(steps);
    lemma_all_sent(start, steps);
    lemma_frames_joined(all);
    lemma_framed_is_read_back(all);
}

impl View for Transport {
    type V = TransportModel;

    closed spec fn view(&self) -> TransportModel {
        TransportModel {
            peer: self.peer,
            token: self.token,
            connected: self.stream is Connected,
            pending: self.reader@,
            received: bodies(self.received_packets@),
            queued: bodies(self.queued_packets@),
        }
    }
}

impl Transport {
    /// The reader of a transport is well formed.
    pub closed spec fn wf(&self) -> bool {
        self.reader.wf()
    }

    /// A transport holds no whole frame that it has not given out.
    pub proof fn lemma_pending_has_no_frame(&self)
        requires
            self.wf(),
        ensures
            !has_frame(self@.pending),
    {
        self.reader.lemma_holds_no_frame();
    }

    /// A transport to the device at `peer`, with a token of its own from
    /// `io`. Its connection is pending, and it holds nothing. It never fails.
    pub fn new(peer: (u32, u16), io: &mut Io) -> (r: Result<Self, Error>)
        requires
            old(io).issued() < usize::MAX,
        ensures
            final(io).issued() == old(io).issued() + 1,
            r matches Ok(transport) && transport.wf() && transport@ == (TransportModel {
                peer,
                token: Token(old(io).issued() as usize),
                connected: false,
                pending: Seq::empty(),
                received: Seq::empty(),
                queued: Seq::empty(),
            }),
    {
        let token = io.create_token();
        let transport = Transport {
            peer,
            token,
            stream: Stream::PendingConnected,
            reader: Reader::new(),
            received_packets: VecDeque::new(),
            queued_packets: VecDeque::new(),
        };
        assert(bodies(transport.received_packets@) == Seq::<Seq<u8>>::empty());
        assert(bodies(transport.queued_packets@) == Seq::<Seq<u8>>::empty());
        Ok(transport)
    }

    /// A transport to a Cast device that was discovered: to its address, on
    /// the Cast port. It never fails.
    pub fn connect_to(device: &DeviceInfo, io: &mut Io) -> (r: Result<Self, Error>)
        requires
            old(io).issued() < usize::MAX,
        ensures
            final(io).issued() == old(io).issued() + 1,
            r matches Ok(transport) && transport.wf() && transport@ == (TransportModel {
                peer: (device.ip_addr, 8009u16),
                token: Token(old(io).issued() as usize),
                connected: false,
                pending: Seq::empty(),
                received: Seq::empty(),
                queued: Seq::empty(),
            }),
    {
        Transport::new((device.ip_addr, CAST_PORT), io)
    }

    /// The address and port to which the host is to open the socket.
    pub fn peer(&self) -> (peer: (u32, u16))
        ensures
            peer == self@.peer,
    {
        self.peer
    }

    /// The token under which the host is to register the socket.
    pub fn token(&self) -> (token: Token)
        ensures
            token == self@.token,
    {
        self.token
    }

    /// Whether the TLS session is up.
    pub fn is_connected(&self) -> (connected: bool)
        ensures
            connected == self@.connected,
    {
        match self.stream {
            Stream::Connected => true,
            Stream::PendingConnected => false,
        }
    }

    /// Whether the host is to read what the socket has, until it would block,
    /// before it reports `event`.
    pub fn wants_input(&self, event: Readiness) -> (wanted: bool)
        ensures
            wanted == self@.wants_input(event),
    {
        event.readable && self.is_connected()
    }

    /// Queues a body for sending. It never fails.
    pub fn send(&mut self, data: Vec<u8>) -> (r: Result<(), Error>)
        requires
            old(self).wf(),
        ensures
            r is Ok,
            final(self).wf(),
            final(self)@ == old(self)@.send(data@),
    {
        let ghost before = bodies(self.queued_packets@);
        self.queued_packets.push_back(data);
        assert(bodies(self.queued_packets@) == before.push(data@));
        Ok(())
    }

    /// Takes the bodies of the frames that have arrived, in the order in
    /// which they arrived, and leaves none.
    pub fn receive(&mut self) -> (packets: VecDeque<RawPacket>)
        requires
            old(self).wf(),
        ensures
            final(self).wf(),
            bodies(packets@) == old(self)@.received,
            final(self)@ == (TransportModel { received: Seq::empty(), ..old(self)@ }),
    {
        let mut packets: VecDeque<RawPacket> = VecDeque::new();
        core::mem::swap(&mut self.received_packets, &mut packets);
        assert(bodies(self.received_packets@) == Seq::<Seq<u8>>::empty());
        packets
    }

    /// Takes in what arrived on a connection that is up; on a pending
    /// connection `incoming` is left aside.
    pub fn update(&mut self, incoming: &[u8])
        requires
            old(self).wf(),
        ensures
            final(self).wf(),
            final(self)@ == if old(self)@.connected {
                old(self)@.take_in(incoming@)
            } else {
                old(self)@
            },
    {
        if self.is_connected() {
            let mut packets: Vec<RawPacket> = Vec::new();
            let _ = self.reader.read(incoming, &mut packets);
            let ghost held = bodies(self.received_packets@);
            let ghost arrived = bodies(packets@);
            assert(held + arrived.take(0) == held);
            for packet in it: packets
                invariant
                    arrived.len() == it.seq().len(),
                    forall|k: int| 0 <= k < arrived.len() ==> arrived[k] == (#[trigger] it.seq()[k])@,
                    bodies(self.received_packets@) == held + arrived.take(it.index() as int),
                    self.peer == old(self).peer,
                    self.token == old(self).token,
                    self.stream == old(self).stream,
                    self.queued_packets == old(self).queued_packets,
                    self.reader.wf(),
                    self.reader@ == unread(old(self).reader@ + incoming@),
            {
                let ghost before = bodies(self.received_packets@);
                self.received_packets.push_back(packet);
                proof {
                    let done = it.index() as int;
                    assert(bodies(self.received_packets@) == before.push(packet@));
                    assert(arrived.take(done + 1) == arrived.take(done).push(packet@));
                }
            }
            assert(arrived.take(arrived.len() as int) == arrived);
        }
    }

    /// Handles a readiness event of the socket, where `incoming` is what the
    /// host read from it if [`Transport::wants_input`] asked for that.
    ///
    /// What arrived is taken in, and then the moment to write is used: for
    /// the handshake where the connection is pending, and for the oldest
    /// queued body where it is up. The host carries out the action that comes
    /// back. An event of another socket must not be reported here.
    pub fn handle_event(&mut self, event: Readiness, incoming: &[u8]) -> (action: Action)
        requires
            old(self).wf(),
            event.token == old(self)@.token,
        ensures
            final(self).wf(),
            final(self)@ == old(self)@.after_event(event, incoming@),
            action@ == old(self)@.action(event),
    {
        if event.readable {
            self.update(incoming);
        }
        if event.writable {
            match self.stream {
                Stream::PendingConnected => {
                    self.stream = Stream::Connected;
                    Action::Handshake
                },
                Stream::Connected => {
                    let ghost before = bodies(self.queued_packets@);
                    match self.queued_packets.pop_front() {
                        Some(raw_packet) => {
                            assert(bodies(self.queued_packets@) == before.skip(1));
                            assert(raw_packet@ == before[0]);
                            let size = (raw_packet.len() as u64 % 0x1_0000_0000u64) as u32;
                            let mut bytes = write_u32(size);
                            let mut raw_packet = raw_packet;
                            bytes.append(&mut raw_packet);
                            Action::Send(bytes)
                        },
                        None => Action::Idle,
                    }
                },
            }
        } else {
            Action::Idle
        }
    }
}

} // verus!
