//! A connection to a Cast device: the transport, and the codec on top of it.

use vstd::prelude::*;
use vstd::std_specs::iter::IteratorSpec;

use super::net::transport::{bodies, Action, Readiness, Transport, TransportModel};
use super::net::Io;
use super::protocol::message::{Message, MessageModel};
use crate::discovery::DeviceInfo;
use crate::errors::{Error, ErrorModel};

verus! {

/// A connection to a Cast device.
pub struct Connection {
    pub transport: Transport,
}

/// The mathematical values of a list of messages.
pub open spec fn message_models(messages: Seq<Message>) -> Seq<MessageModel> {
    Seq::new(messages.len(), |i: int| messages[i]@)
}

/// The messages that a list of frames holds, in order; the error of the first
/// frame that holds none.
pub open spec fn decode_frames(frames: Seq<Seq<u8>>) -> Result<Seq<MessageModel>, ErrorModel>
    decreases frames.len(),
{
    if frames.len() == 0 {
        Ok(Seq::empty())
    } else {
        match decode_frames(frames.drop_last()) {
            Err(error) => Err(error),
            Ok(before) => match MessageModel::from_bytes(frames.last()) {
                Err(error) => Err(error),
                Ok(message) => Ok(before.push(message)),
            },
        }
    }
}

/// Once a beginning of a list of frames fails to decode, the whole list fails
/// with the same error.
pub proof fn lemma_decode_frames_fails(frames: Seq<Seq<u8>>, i: int)
    requires
        0 <= i < frames.len(),
        decode_frames(frames.take(i + 1)) is Err,
    ensures
        decode_frames(frames) == decode_frames(frames.take(i + 1)),
    decreases frames.len() - i,
{
    if i + 1 < frames.len() {
        assert(frames.take(i + 2).drop_last() == frames.take(i + 1));
        lemma_decode_frames_fails(frames, i + 1);
    } else {
        assert(frames.take(i + 1) == frames);
    }
}

/// The first frame that holds no message gives the error of the whole list.
pub proof fn lemma_first_bad_frame_gives_the_error(frames: Seq<Seq<u8>>, bad: int)
    requires
        0 <= bad < frames.len(),
        forall|i: int| 0 <= i < bad ==> MessageModel::from_bytes(#[trigger] frames[i]) is Ok,
        MessageModel::from_bytes(frames[bad]) is Err,
    ensures
        decode_frames(frames) == Err::<Seq<MessageModel>, ErrorModel>(
            MessageModel::from_bytes(frames[bad])->Err_0,
        ),
{
    lemma_good_frames_decode(frames.take(bad));
    assert(frames.take(bad + 1).drop_last() == frames.take(bad));
    assert(frames.take(bad + 1).last() == frames[bad]);
    lemma_decode_frames_fails(frames, bad);
}

/// Frames that hold a message each decode to a list of as many messages.
pub proof fn lemma_good_frames_decode(frames: Seq<Seq<u8>>)
    requires
        forall|i: int| 0 <= i < frames.len() ==> MessageModel::from_bytes(#[trigger] frames[i]) is Ok,
    ensures
        decode_frames(frames) is Ok,
        decode_frames(frames)->Ok_0.len() == frames.len(),
        forall|i: int|
            0 <= i < frames.len() ==> MessageModel::from_bytes(frames[i]) == Ok::<
                MessageModel,
                ErrorModel,
            >(#[trigger] decode_frames(frames)->Ok_0[i]),
    decreases frames.len(),
{
    if frames.len() > 0 {
        let earlier = frames.drop_last();
        assert forall|i: int| 0 <= i < earlier.len() implies MessageModel::from_bytes(
            #[trigger] earlier[i],
        ) is Ok by {
            assert(earlier[i] == frames[i]);
        }
        lemma_good_frames_decode(earlier);
        assert(frames.last() == frames[frames.len() - 1]);
        assert forall|i: int| 0 <= i < frames.len() implies MessageModel::from_bytes(frames[i])
            == Ok::<MessageModel, ErrorModel>(#[trigger] decode_frames(frames)->Ok_0[i]) by {
            if i < earlier.len() {
                assert(earlier[i] == frames[i]);
                assert(decode_frames(frames)->Ok_0[i] == decode_frames(earlier)->Ok_0[i]);
            }
        }
    }
}

impl View for Connection {
    type V = TransportModel;

    open spec fn view(&self) -> TransportModel {
        self.transport@
    }
}

impl Connection {
    /// The transport of a connection is well formed.
    pub open spec fn wf(&self) -> bool {
        self.transport.wf()
    }

    /// A connection to a Cast device that was discovered. It never fails.
    pub fn connect_to(device: &DeviceInfo, io: &mut Io) -> (r: Result<Self, Error>)
        requires
            old(io).issued() < usize::MAX,
        ensures
            final(io).issued() == old(io).issued() + 1,
            r matches Ok(connection) && connection.wf() && connection@ == (TransportModel {
                peer: (device.ip_addr, 8009u16),
                token: crate::back::net::Token(old(io).issued() as usize),
                connected: false,
                pending: Seq::empty(),
                received: Seq::empty(),
                queued: Seq::empty(),
            }),
    {
        match Transport::connect_to(device, io) {
            Ok(transport) => Ok(Connection { transport }),
            Err(error) => Err(error),
        }
    }

    /// Sends a packet through the connection: queues the bytes of `message`.
    /// It never fails.
    ///
    /// A receiver status is never sent.
    pub fn send(&mut self, message: &Message) -> (r: Result<(), Error>)
        requires
            old(self).wf(),
            !(message.kind is ReceiverStatus),
        ensures
            r is Ok,
            final(self).wf(),
            final(self)@ == old(self)@.send(message@.to_bytes()),
    {
        let bytes = message.as_wire_message().write_to_bytes();
        self.transport.send(bytes)
    }

    /// Consumes all packets that have been received: the messages that they
    /// hold, in the order in which they arrived. Where a packet holds no
    /// message, its error comes back, and the packets are gone all the same.
    pub fn receive(&mut self) -> (r: Result<std::vec::IntoIter<Message>, Error>)
        requires
            old(self).wf(),
        ensures
            final(self).wf(),
            final(self)@ == (TransportModel { received: Seq::empty(), ..old(self)@ }),
            match r {
                Ok(messages) => decode_frames(old(self)@.received) == Ok::<
                    Seq<MessageModel>,
                    ErrorModel,
                >(message_models(IteratorSpec::remaining(&messages)))
                    && IteratorSpec::decrease(&messages) is Some
                    && IteratorSpec::initial_value_relation(&messages, &messages),
                Err(error) => decode_frames(old(self)@.received) == Err::<
                    Seq<MessageModel>,
                    ErrorModel,
                >(error@),
            },
    {
        let mut packets = self.transport.receive();
        let ghost frames = bodies(packets@);
        let ghost mut done: int = 0;
        let mut messages: Vec<Message> = Vec::new();
        assert(frames.take(0) == Seq::<Seq<u8>>::empty());
        assert(message_models(messages@) == Seq::<MessageModel>::empty());
        assert(frames.skip(0) == frames);
        while packets.len() > 0
            invariant
                0 <= done <= frames.len(),
                bodies(packets@) == frames.skip(done),
                frames == old(self)@.received,
                self.wf(),
                self@ == (TransportModel { received: Seq::empty(), ..old(self)@ }),
                decode_frames(frames.take(done)) == Ok::<Seq<MessageModel>, ErrorModel>(
                    message_models(messages@),
                ),
            decreases packets.len(),
        {
            let ghost before = message_models(messages@);
            let ghost left = bodies(packets@);
            assert(left.len() == packets@.len());
            assert(frames.skip(done).len() > 0);
            let raw_packet = match packets.pop_front() {
                Some(raw_packet) => raw_packet,
                None => vstd::pervasive::unreached(),
            };
            proof {
                assert(raw_packet@ == left[0]);
                assert(left[0] == frames[done]);
                assert(bodies(packets@) =~= left.skip(1));
                assert(left.skip(1) =~= frames.skip(done + 1));
                assert(frames.take(done + 1).drop_last() == frames.take(done));
                assert(frames.take(done + 1).last() == raw_packet@);
            }
            match Message::from_raw_bytes(raw_packet.as_slice()) {
                Ok(message) => {
                    messages.push(message);
                    assert(message_models(messages@) == before.push(message@));
                },
                Err(error) => {
                    proof {
                        lemma_decode_frames_fails(frames, done);
                    }
                    return Err(error);
                },
            }
            proof {
                done = done + 1;
            }
        }
        assert(bodies(packets@).len() == 0);
        assert(done == frames.len());
        assert(frames.take(frames.len() as int) == frames);
        let ghost held = messages@;
        proof {
            vstd::std_specs::vec::axiom_spec_into_iter(messages);
        }
        let list = messages.into_iter();
        assert(IteratorSpec::remaining(&list) == held);
        Ok(list)
    }

    /// Handles an IO event: see [`Transport::handle_event`].
    pub fn handle_event(&mut self, event: Readiness, incoming: &[u8]) -> (action: Action)
        requires
            old(self).wf(),
            event.token == old(self)@.token,
        ensures
            final(self).wf(),
            final(self)@ == old(self)@.after_event(event, incoming@),
            action@ == old(self)@.action(event),
    {
        self.transport.handle_event(event, incoming)
    }
}

} // verus!
