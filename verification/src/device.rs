//! The core `Device` type.

use std::collections::VecDeque;
use vstd::prelude::*;
use vstd::std_specs::iter::IteratorSpec;

use crate::back::connection::{decode_frames, message_models, Connection};
use crate::back::net::transport::{Action, Readiness, TransportModel};
use crate::back::net::{Io, Token};
use crate::back::protocol::message::{
    EndpointName, KindModel, Message, MessageKind, MessageModel, Namespace,
};
use crate::back::protocol::namespace;
use crate::back::protocol::status::{level_model, Status, StatusModel, VolumeLevel};
use crate::back::protocol::{ApplicationId, SessionId};
use crate::discovery::DeviceInfo;
use crate::errors::{Error, ErrorModel};
use crate::event::Event;

verus! {

/// If the internal event queue gets too big, truncate the oldest events.
pub const EVENT_QUEUE_MAXIMUM_COUNT: usize = 500;

/// The string we will use to identify ourselves in messages.
pub open spec fn sender_id() -> Seq<char> {
    "sender-0"@
}

/// The string we will use to identify the Cast device in messages.
pub open spec fn receiver_id() -> Seq<char> {
    "sender-0"@
}

/// A Cast device.
///
/// The device has no socket of its own: see
/// [`Transport`](crate::back::net::Transport) for what the host does.
pub struct Device {
    /// Information about how to connect to the device.
    info: DeviceInfo,
    /// The current status of the receiver.
    /// This will be set and updated upon receiving a
    /// `RECEIVER_STATUS` message.
    status: Option<Status>,
    /// The network connection.
    connection: Connection,
    /// A queue that holds the events that have occurred on this device.
    event_queue: VecDeque<Event>,
}

/// The mathematical value of a [`Device`].
pub struct DeviceModel {
    /// Which device this is.
    pub info: DeviceInfo,
    /// The status that the receiver reported last.
    pub status: Option<StatusModel>,
    /// The transport to the device.
    pub transport: TransportModel,
    /// The events that the host has not taken yet, the oldest first.
    pub events: Seq<Event>,
}

/// A queue of events after one more event: the event is the last, and of the
/// others the newest stay, so that there are no more than 500 in all.
pub open spec fn push_bounded(events: Seq<Event>, event: Event) -> Seq<Event> {
    let all = events.push(event);
    if all.len() > 500 {
        all.skip(all.len() - 500)
    } else {
        all
    }
}

impl DeviceModel {
    /// A message from this sender to the device.
    pub open spec fn message(namespace: Seq<char>, kind: KindModel) -> MessageModel {
        MessageModel { source: sender_id(), destination: receiver_id(), namespace, kind }
    }

    /// The device after a message of `kind` was queued for sending.
    pub open spec fn sent(self, namespace: Seq<char>, kind: KindModel) -> DeviceModel {
        DeviceModel {
            transport: self.transport.send(Self::message(namespace, kind).to_bytes()),
            ..self
        }
    }

    /// The answer to a `PING`: a `PONG` that goes back the way the `PING`
    /// came, over the same namespace.
    pub open spec fn pong(ping: MessageModel) -> MessageModel {
        MessageModel {
            source: ping.destination,
            destination: ping.source,
            namespace: ping.namespace,
            kind: KindModel::Pong,
        }
    }

    /// The device after `message` arrived: a `PING` is answered, a receiver
    /// status is kept and reported as an event, anything else is passed over.
    pub open spec fn absorb(self, message: MessageModel) -> DeviceModel {
        match message.kind {
            KindModel::Ping => DeviceModel {
                transport: self.transport.send(Self::pong(message).to_bytes()),
                ..self
            },
            KindModel::ReceiverStatus(status) => DeviceModel {
                status: Some(status),
                events: push_bounded(self.events, Event::StatusUpdated),
                ..self
            },
            _ => self,
        }
    }

    /// The device after `messages` arrived, in order.
    pub open spec fn absorb_all(self, messages: Seq<MessageModel>) -> DeviceModel
        decreases messages.len(),
    {
        if messages.len() == 0 {
            self
        } else {
            self.absorb_all(messages.drop_last()).absorb(messages.last())
        }
    }

    /// The device after a readiness event, and whether what arrived could be
    /// read. The transport handles the event first. Then the frames that it
    /// holds are taken from it and decoded, all of them: where one cannot be
    /// decoded, its error comes back and no message is processed; else the
    /// messages are processed in order.
    pub open spec fn after_io(self, event: Readiness, incoming: Seq<u8>) -> (
        DeviceModel,
        Result<(), ErrorModel>,
    ) {
        let arrived = self.transport.after_event(event, incoming);
        let taken = DeviceModel {
            transport: TransportModel { received: Seq::empty(), ..arrived },
            ..self
        };
        match decode_frames(arrived.received) {
            Err(error) => (taken, Err(error)),
            Ok(messages) => (taken.absorb_all(messages), Ok(())),
        }
    }

    /// The device after the host took its events, and the events it took.
    pub open spec fn drained(self) -> (DeviceModel, Seq<Event>) {
        (DeviceModel { events: Seq::empty(), ..self }, self.events)
    }
}

/// Every message that the device sends of its own accord names its source,
/// its destination and its namespace.
pub proof fn lemma_commands_are_addressed(kind: KindModel)
    ensures
        DeviceModel::message("urn:x-cast:com.google.cast.tp.connection"@, kind).source.len() > 0,
        DeviceModel::message("urn:x-cast:com.google.cast.tp.connection"@, kind).destination.len()
            > 0,
        "urn:x-cast:com.google.cast.tp.connection"@.len() > 0,
        "urn:x-cast:com.google.cast.receiver"@.len() > 0,
{
    reveal_strlit("sender-0");
    reveal_strlit("urn:x-cast:com.google.cast.tp.connection");
    reveal_strlit("urn:x-cast:com.google.cast.receiver");
}

/// A queue of at most 500 events has at most 500 after one more: below 500
/// the event is added, and at 500 the oldest event leaves for it.
pub proof fn lemma_queue_is_bounded(events: Seq<Event>, event: Event)
    requires
        events.len() <= 500,
    ensures
        push_bounded(events, event).len() <= 500,
        events.len() < 500 ==> push_bounded(events, event) == events.push(event),
        events.len() == 500 ==> push_bounded(events, event) == events.skip(1).push(event),
{
    if events.len() == 500 {
        assert(events.push(event).skip(1) == events.skip(1).push(event));
    }
}

/// Whatever arrives, the queue of events stays within its bound.
pub proof fn lemma_events_stay_bounded(device: DeviceModel, messages: Seq<MessageModel>)
    requires
        device.events.len() <= 500,
    ensures
        device.absorb_all(messages).events.len() <= 500,
    decreases messages.len(),
{
    if messages.len() > 0 {
        lemma_events_stay_bounded(device, messages.drop_last());
        lemma_queue_is_bounded(
            device.absorb_all(messages.drop_last()).events,
            Event::StatusUpdated,
        );
    }
}

/// Messages among which there is no receiver status leave the events, and
/// the status, as they were; so after the host took the events, a new event
/// means that a receiver status has arrived since.
pub proof fn lemma_events_need_status(device: DeviceModel, messages: Seq<MessageModel>)
    requires
        forall|i: int| 0 <= i < messages.len() ==> !((#[trigger] messages[i]).kind is ReceiverStatus),
    ensures
        device.absorb_all(messages).events == device.events,
        device.absorb_all(messages).status == device.status,
        device.drained().0.absorb_all(messages).events.len() == 0,
    decreases messages.len(),
{
    if messages.len() > 0 {
        let earlier = messages.drop_last();
        assert forall|i: int| 0 <= i < earlier.len() implies !((#[trigger] earlier[i]).kind
            is ReceiverStatus) by {
            assert(earlier[i] == messages[i]);
        }
        lemma_events_need_status(device, earlier);
        lemma_events_need_status(device.drained().0, earlier);
        assert(messages.last() == messages[messages.len() - 1]);
    }
}

/// An event at which something arrived that cannot be decoded fails with the
/// error of the first frame that cannot, takes the frames from the
/// transport, and leaves the status, the events and the queue of the
/// transport as the event itself left them: no message of the batch is
/// processed.
pub proof fn lemma_failed_event_processes_nothing(
    device: DeviceModel,
    event: Readiness,
    incoming: Seq<u8>,
)
    requires
        decode_frames(device.transport.after_event(event, incoming).received) is Err,
    ensures
        device.after_io(event, incoming).1 == Err::<(), ErrorModel>(
            decode_frames(device.transport.after_event(event, incoming).received)->Err_0,
        ),
        device.after_io(event, incoming).0.status == device.status,
        device.after_io(event, incoming).0.events == device.events,
        device.after_io(event, incoming).0.transport.queued == device.transport.after_event(
            event,
            incoming,
        ).queued,
        device.after_io(event, incoming).0.transport.received.len() == 0,
{
}

/// The host that takes the events twice in a row finds none the second time.
pub proof fn lemma_second_drain_is_empty(device: DeviceModel)
    ensures
        device.drained().0.drained().1 == Seq::<Event>::empty(),
{
}

impl View for Device {
    type V = DeviceModel;

    closed spec fn view(&self) -> DeviceModel {
        DeviceModel {
            info: self.info,
            status: match self.status {
                Some(status) => Some(status@),
                None => None,
            },
            transport: self.connection@,
            events: self.event_queue@,
        }
    }
}

impl Device {
    /// The queue of a device holds at most 500 events, and its connection is
    /// well formed.
    pub closed spec fn wf(&self) -> bool {
        self.event_queue@.len() <= 500 && self.connection.wf()
    }

    /// The queue of events of a device never has more than 500 events.
    pub proof fn lemma_events_bounded(&self)
        requires
            self.wf(),
        ensures
            self@.events.len() <= 500,
    {
    }

    /// Create a new device instance, without status or events.
    pub fn new(info: DeviceInfo, connection: Connection) -> (device: Self)
        requires
            connection.wf(),
        ensures
            device.wf(),
            device@ == (DeviceModel {
                info,
                status: None,
                transport: connection@,
                events: Seq::empty(),
            }),
    {
        Device { info, connection, status: None, event_queue: VecDeque::new() }
    }

    /// Connect to a receiver: a device with a connection of its own, on which
    /// one message waits to be sent, the `CONNECT` that opens the virtual
    /// connection. It never fails.
    pub fn connect(info: DeviceInfo, io: &mut Io) -> (r: Result<Self, Error>)
        requires
            old(io).issued() < usize::MAX,
        ensures
            final(io).issued() == old(io).issued() + 1,
            r matches Ok(device) && device.wf() && device@ == (DeviceModel {
                info,
                status: None,
                transport: TransportModel {
                    peer: (info.ip_addr, 8009u16),
                    token: Token(old(io).issued() as usize),
                    connected: false,
                    pending: Seq::empty(),
                    received: Seq::empty(),
                    queued: seq![
                        DeviceModel::message(
                            "urn:x-cast:com.google.cast.tp.connection"@,
                            KindModel::Connect,
                        ).to_bytes(),
                    ],
                },
                events: Seq::empty(),
            }),
    {
        let connection = match Connection::connect_to(&info, io) {
            Ok(connection) => connection,
            Err(error) => return Err(error),
        };
        let mut device = Device::new(info, connection);
        // Establish a virtual connection
        match device.send_message(namespace::connection(), MessageKind::Connect) {
            Ok(()) => {},
            Err(error) => return Err(error),
        }
        assert(device@.transport.queued == seq![
            DeviceModel::message(
                "urn:x-cast:com.google.cast.tp.connection"@,
                KindModel::Connect,
            ).to_bytes(),
        ]);
        Ok(device)
    }

    /// Asks the Chromecast for its current status. It never fails.
    pub fn update_status(&mut self) -> (r: Result<(), Error>)
        requires
            old(self).wf(),
        ensures
            r is Ok,
            final(self).wf(),
            final(self)@ == old(self)@.sent(
                "urn:x-cast:com.google.cast.receiver"@,
                KindModel::GetStatus,
            ),
    {
        self.send_message(namespace::receiver(), MessageKind::GetStatus)
    }

    /// Launch an application. It never fails.
    pub fn launch(&mut self, app_id: ApplicationId) -> (r: Result<(), Error>)
        requires
            old(self).wf(),
        ensures
            r is Ok,
            final(self).wf(),
            final(self)@ == old(self)@.sent(
                "urn:x-cast:com.google.cast.receiver"@,
                KindModel::Launch { app_id: app_id@, request_id: 1 },
            ),
    {
        self.send_message(namespace::receiver(), MessageKind::Launch { app_id, request_id: 1 })
    }

    /// Stop a running application. It never fails.
    ///
    /// Arguments:
    ///
    /// * `session_id` - The identifer of the session.
    pub fn stop(&mut self, session_id: SessionId) -> (r: Result<(), Error>)
        requires
            old(self).wf(),
        ensures
            r is Ok,
            final(self).wf(),
            final(self)@ == old(self)@.sent(
                "urn:x-cast:com.google.cast.receiver"@,
                KindModel::Stop { session_id: session_id.0 },
            ),
    {
        self.send_message(namespace::receiver(), MessageKind::Stop { session_id })
    }

    /// Sets the volume of the Cast device. It never fails.
    /// **NOTE**: This API is likely to change.
    pub fn set_volume(&mut self, level: Option<VolumeLevel>, muted: Option<bool>) -> (r: Result<
        (),
        Error,
    >)
        requires
            old(self).wf(),
        ensures
            r is Ok,
            final(self).wf(),
            final(self)@ == old(self)@.sent(
                "urn:x-cast:com.google.cast.receiver"@,
                KindModel::SetVolume { level: level_model(level), muted },
            ),
    {
        self.send_message(namespace::receiver(), MessageKind::SetVolume { level, muted })
    }

    /// Handle an IO event of the device's socket, where `incoming` is what
    /// the host read from it if [`Device::wants_input`] asked for that.
    ///
    /// The host carries out the action that comes back, whatever the result
    /// beside it says. An event of another socket must not be reported here.
    pub fn handle_io(&mut self, event: Readiness, incoming: &[u8]) -> (r: (
        Action,
        Result<(), Error>,
    ))
        requires
            old(self).wf(),
            event.token == old(self)@.transport.token,
        ensures
            final(self).wf(),
            r.0@ == old(self)@.transport.action(event),
            final(self)@ == old(self)@.after_io(event, incoming@).0,
            match r.1 {
                Ok(()) => old(self)@.after_io(event, incoming@).1 == Ok::<(), ErrorModel>(()),
                Err(error) => old(self)@.after_io(event, incoming@).1 == Err::<
                    (),
                    ErrorModel,
                >(error@),
            },
    {
        let action = self.connection.handle_event(event, incoming);
        let result = self.process_incoming();
        (action, result)
    }

    /// Consumes all of the events that have occurred on this device, the
    /// oldest first; there are never more than 500.
    pub fn events(&mut self) -> (events: VecDeque<Event>)
        requires
            old(self).wf(),
        ensures
            final(self).wf(),
            events@ == old(self)@.events,
            events@.len() <= 500,
            final(self)@ == old(self)@.drained().0,
    {
        let mut events: VecDeque<Event> = VecDeque::new();
        core::mem::swap(&mut self.event_queue, &mut events);
        events
    }

    /// Gets information about the Cast device.
    pub fn info(&self) -> (info: &DeviceInfo)
        ensures
            *info == self@.info,
    {
        &self.info
    }

    /// Get the current status of the receiver.
    pub fn status(&self) -> (status: Option<&Status>)
        ensures
            match status {
                Some(status) => self@.status == Some(status@),
                None => self@.status is None,
            },
    {
        self.status.as_ref()
    }

    /// The address and port to which the host is to open the socket.
    pub fn peer(&self) -> (peer: (u32, u16))
        ensures
            peer == self@.transport.peer,
    {
        self.connection.transport.peer()
    }

    /// The token under which the host is to register the socket.
    pub fn token(&self) -> (token: Token)
        ensures
            token == self@.transport.token,
    {
        self.connection.transport.token()
    }

    /// Whether the host is to read what the socket has, until it would block,
    /// before it reports `event`.
    pub fn wants_input(&self, event: Readiness) -> (wanted: bool)
        ensures
            wanted == self@.transport.wants_input(event),
    {
        self.connection.transport.wants_input(event)
    }

    /// Sends a message.
    fn send_message(&mut self, namespace: Namespace, kind: MessageKind) -> (r: Result<(), Error>)
        requires
            old(self).wf(),
            !(kind is ReceiverStatus),
        ensures
            r is Ok,
            final(self).wf(),
            final(self)@ == old(self)@.sent(namespace@, kind@),
    {
        self.connection.send(
            &Message {
                source: EndpointName("sender-0".to_owned()),
                destination: EndpointName("sender-0".to_owned()),
                namespace,
                kind,
            },
        )
    }

    /// Process all incoming messages.
    fn process_incoming(&mut self) -> (r: Result<(), Error>)
        requires
            old(self).wf(),
        ensures
            final(self).wf(),
            match decode_frames(old(self)@.transport.received) {
                Ok(messages) => r is Ok && final(self)@ == (DeviceModel {
                    transport: TransportModel {
                        received: Seq::empty(),
                        ..old(self)@.transport
                    },
                    ..old(self)@
                }).absorb_all(messages),
                Err(error) => r matches Err(e) && e@ == error && final(self)@ == (DeviceModel {
                    transport: TransportModel {
                        received: Seq::empty(),
                        ..old(self)@.transport
                    },
                    ..old(self)@
                }),
            },
    {
        let messages = match self.connection.receive() {
            Ok(messages) => messages,
            Err(error) => return Err(error),
        };
        let ghost start = self@;
        let ghost all = message_models(IteratorSpec::remaining(&messages));
        assert(all.take(0) == Seq::<MessageModel>::empty());
        for message in it: messages
            invariant
                all.len() == it.seq().len(),
                forall|k: int| 0 <= k < all.len() ==> all[k] == (#[trigger] it.seq()[k])@,
                self.wf(),
                self@ == start.absorb_all(all.take(it.index() as int)),
        {
            proof {
                let done = it.index() as int;
                assert(all.take(done + 1).drop_last() == all.take(done));
                assert(all.take(done + 1).last() == message@);
            }
            match message.kind {
                MessageKind::Ping => {
                    let pong = Message {
                        source: message.destination,
                        destination: message.source,
                        namespace: message.namespace,
                        kind: MessageKind::Pong,
                    };
                    let _ = self.connection.send(&pong);
                },
                MessageKind::ReceiverStatus(status) => {
                    self.status = Some(status);
                    self.add_event(Event::StatusUpdated);
                },
                _ => {},
            }
        }
        assert(all.take(all.len() as int) == all);
        Ok(())
    }

    /// Adds an event to the queue, and drops the oldest event where the queue
    /// would hold more than 500: below 500 events the queue grows by the
    /// event, and at 500 the oldest leaves and the others keep their order
    /// before the new one.
    pub fn add_event(&mut self, event: Event)
        requires
            old(self).wf(),
        ensures
            final(self).wf(),
            final(self)@ == (DeviceModel {
                events: push_bounded(old(self)@.events, event),
                ..old(self)@
            }),
            final(self)@.events.len() == if old(self)@.events.len() < 500 {
                old(self)@.events.len() + 1
            } else {
                500
            },
            old(self)@.events.len() < 500 ==> final(self)@.events == old(self)@.events.push(event),
            old(self)@.events.len() == 500 ==> final(self)@.events == old(self)@.events.skip(
                1,
            ).push(event),
    {
        proof {
            lemma_queue_is_bounded(self.event_queue@, event);
            let all = self.event_queue@.push(event);
            if all.len() > 500 {
                assert(all.skip(all.len() - 500) == all.subrange(1, all.len() as int));
            }
        }
        self.event_queue.push_back(event);
        if self.event_queue.len() > EVENT_QUEUE_MAXIMUM_COUNT {
            let _ = self.event_queue.pop_front();
        }
    }
}

} // verus!
