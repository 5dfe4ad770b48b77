//! The decisions of the client's event loop. The loop itself, the socket and
//! the channel that carries the events belong to the runtime that drives it;
//! this module says, for each event, what the client does.
use vstd::prelude::*;
use crate::channel::ChannelEnd;
use crate::packer::Packet;
use crate::{SendEvent, Sender};
use crate::transport::{frame_header_spec, frame_packet, Frame};

verus! {

/// An event on the client's channel.
pub enum Message {
    /// A request to connect to an ip and a port.
    Connect(String, i32),
    /// The connection was established.
    Connected,
    /// The client asks to close the connection.
    Disconnect,
    /// The connection was lost.
    Disconnected,
    /// A packet to send to the server.
    SendPacket(Packet),
    /// A packet received from the server.
    ReceivePacket(Packet),
}

/// What a message offered by a client sender asks of the connection: a
/// packet to send, or else the close.
pub open spec fn client_send_event(m: Message) -> SendEvent {
    match m {
        Message::SendPacket(p) => SendEvent::Packet(p.data()),
        _ => SendEvent::Close,
    }
}

/// Puts the client's calls on its event channel: a packet to send as
/// `SendPacket`, a close as `Disconnect`.
pub struct ClientSender {
    end: ChannelEnd<Message>,
}

impl ClientSender {
    /// The messages this sender offered to the client's channel, oldest
    /// first. Whether the channel took each one is not known here.
    pub closed spec fn offered(&self) -> Seq<Message> {
        self.end.offered()
    }

    pub fn new(sender: tokio::sync::mpsc::Sender<Message>) -> (s: Self)
        ensures
            s.offered() == Seq::<Message>::empty(),
            s.events() == Seq::<SendEvent>::empty(),
    {
        let s = ClientSender { end: ChannelEnd::new(sender) };
        assert(s.events() =~= Seq::<SendEvent>::empty());
        s
    }
}

impl Sender for ClientSender {
    /// The offered messages, read as what they ask of the connection.
    open spec fn events(&self) -> Seq<SendEvent> {
        self.offered().map_values(|m: Message| client_send_event(m))
    }

    /// A client has one destination, its server.
    open spec fn destination(&self) -> int {
        0
    }

    fn send(&mut self, packet: Packet)
        ensures
            final(self).offered() == old(self).offered().push(Message::SendPacket(packet)),
    {
        let ghost before = self.end.offered();
        let ghost m = Message::SendPacket(packet);
        let _taken = self.end.offer(Message::SendPacket(packet));
        assert(self.end.offered() == before.push(m));
        assert(self.events() =~= old(self).events().push(client_send_event(m)));
    }

    fn close(&mut self)
        ensures
            final(self).offered() == old(self).offered().push(Message::Disconnect),
    {
        let ghost before = self.end.offered();
        let _taken = self.end.offer(Message::Disconnect);
        assert(self.end.offered() == before.push(Message::Disconnect));
        assert(self.events() =~= old(self).events().push(client_send_event(Message::Disconnect)));
    }
}

/// What the client does for one event.
pub enum ClientAction {
    /// Tell the services that the connection is up.
    NotifyConnected,
    /// Write the frame to the server.
    Write(Frame),
    /// Tell the services that the connection is gone, drop the writer and
    /// close the channel.
    Close,
    /// Hand the packet to the dispatcher.
    Dispatch(Packet),
    /// Nothing to do.
    Ignore,
}

/// The state of the client that its decisions depend on: whether it holds a
/// connection to write to.
pub struct ClientCore {
    connected: bool,
}

impl ClientCore {
    /// Whether the client holds a connection.
    pub closed spec fn is_connected(&self) -> bool {
        self.connected
    }

    /// A client without a connection.
    pub fn new() -> (c: ClientCore)
        ensures
            !c.is_connected(),
    {
        ClientCore { connected: false }
    }

    /// Whether the client holds a connection.
    pub fn connected(&self) -> (b: bool)
        ensures
            b == self.is_connected(),
    {
        self.connected
    }

    /// A connection was opened (after any previous one was dropped).
    pub fn on_connect(&mut self)
        ensures
            final(self).is_connected(),
    {
        self.connected = true;
    }

    /// Whether polling should look at the channel: only with a connection.
    pub fn should_poll(&self) -> (b: bool)
        ensures
            b == self.is_connected(),
    {
        self.connected
    }

    /// The action for one event, and the state after it.
    pub fn dispatch_message(&mut self, msg: Message) -> (a: ClientAction)
        ensures
            match msg {
                Message::Connected => a is NotifyConnected && *final(self) == *old(self),
                Message::SendPacket(p) => if old(self).is_connected() {
                    &&& a matches ClientAction::Write(f)
                    &&& f.header@ == frame_header_spec(p.data().len())
                    &&& f.body@ == p.data()
                    &&& *final(self) == *old(self)
                } else {
                    a is Ignore && *final(self) == *old(self)
                },
                Message::Disconnect => a is Close && !final(self).is_connected(),
                Message::Disconnected => a is Close && !final(self).is_connected(),
                Message::ReceivePacket(p) => a == ClientAction::Dispatch(p) && *final(self)
                    == *old(self),
                Message::Connect(_, _) => a is Ignore && *final(self) == *old(self),
            },
            final(self).is_connected() == connected_after(old(self).is_connected(), msg),
            (a is Write) == writes_for(old(self).is_connected(), msg),
    {
        match msg {
            Message::Connected => ClientAction::NotifyConnected,
            Message::SendPacket(packet) => {
                if self.connected {
                    ClientAction::Write(frame_packet(packet))
                } else {
                    ClientAction::Ignore
                }
            },
            Message::Disconnect => {
                self.connected = false;
                ClientAction::Close
            },
            Message::Disconnected => {
                self.connected = false;
                ClientAction::Close
            },
            Message::ReceivePacket(packet) => ClientAction::Dispatch(packet),
            Message::Connect(_, _) => ClientAction::Ignore,
        }
    }
}

/// Whether the client holds a connection after `msg`, having held one or not
/// before.
pub open spec fn connected_after(connected: bool, msg: Message) -> bool {
    match msg {
        Message::Disconnect => false,
        Message::Disconnected => false,
        _ => connected,
    }
}

/// Whether the client writes for `msg`, holding a connection or not.
pub open spec fn writes_for(connected: bool, msg: Message) -> bool {
    msg is SendPacket && connected
}

/// Once the connection is closed, by either side, no packet is written until
/// the next connection.
pub proof fn law_close_stops_writes(connected: bool, close: Message, p: Packet)
    requires
        close is Disconnect || close is Disconnected,
    ensures
        !writes_for(connected_after(connected, close), Message::SendPacket(p)),
{
}

} // verus!
