//! The decisions of the server's event loop: which connections exist, where
//! a received packet goes and what is written for a packet to send. Accepting
//! connections, reading and writing sockets belong to the runtime that drives
//! the loop.
use vstd::prelude::*;
use std::collections::HashMap;
use crate::packer::Packet;
use crate::transport::{frame_header_spec, frame_packet, Frame};
use crate::channel::ChannelEnd;
use crate::{ConnectId, RpcDispatcher, SendEvent, Sender, CONNECT_ID_BEGIN};

verus! {

broadcast use vstd::std_specs::hash::group_hash_axioms;

/// An event on the server's channel; `C` is what the runtime knows of a new
/// connection.
pub enum Message<C> {
    /// A connection was accepted.
    Connected(C),
    /// The connection with this id was lost.
    Disconnected(ConnectId),
    /// A packet was received on this connection.
    ReceivePacket(ConnectId, Packet),
    /// A packet to send on this connection.
    SendPacket(ConnectId, Packet),
    /// The server side asks to close this connection.
    Close(ConnectId),
}

/// Whether `m` is a message that a sender for connection `id` offers: a
/// packet to send on `id`, or the close of `id`.
pub open spec fn addressed_to<C>(m: Message<C>, id: ConnectId) -> bool {
    match m {
        Message::SendPacket(i, _) => i == id,
        Message::Close(i) => i == id,
        _ => false,
    }
}

/// What a message offered by a server sender asks of the connection: a
/// packet to send, or else the close.
pub open spec fn server_send_event<C>(m: Message<C>) -> SendEvent {
    match m {
        Message::SendPacket(_, p) => SendEvent::Packet(p.data()),
        _ => SendEvent::Close,
    }
}

/// Puts a connection's outgoing calls on the server's event channel: a
/// packet to send as `SendPacket`, a close as `Close`, both with the
/// connection's id.
#[verifier::reject_recursive_types(C)]
pub struct ServerSender<C> {
    id: ConnectId,
    end: ChannelEnd<Message<C>>,
}

impl<C> ServerSender<C> {
    /// The id of the connection the calls go to.
    pub closed spec fn connect_id(&self) -> ConnectId {
        self.id
    }

    /// The messages this sender offered to the server's channel, oldest
    /// first. Whether the channel took each one is not known here.
    pub closed spec fn offered(&self) -> Seq<Message<C>> {
        self.end.offered()
    }

    /// Every message a sender offers names its own connection: a packet never
    /// goes to another one.
    #[verifier::type_invariant]
    pub open spec fn offers_only_to_own_connection(&self) -> bool {
        forall|i: int|
            0 <= i < self.offered().len() ==> #[trigger] addressed_to(
                self.offered()[i],
                self.connect_id(),
            )
    }

    pub fn new(id: ConnectId, sender: tokio::sync::mpsc::Sender<Message<C>>) -> (s: Self)
        ensures
            s.connect_id() == id,
            s.offered() == Seq::<Message<C>>::empty(),
            s.events() == Seq::<SendEvent>::empty(),
    {
        let s = ServerSender { id, end: ChannelEnd::new(sender) };
        assert(s.events() =~= Seq::<SendEvent>::empty());
        s
    }
}

impl<C> Sender for ServerSender<C> {
    /// The offered messages, read as what they ask of the connection.
    open spec fn events(&self) -> Seq<SendEvent> {
        self.offered().map_values(|m: Message<C>| server_send_event(m))
    }

    /// The connection the messages are for.
    open spec fn destination(&self) -> int {
        self.connect_id() as int
    }

    fn send(&mut self, packet: Packet)
        ensures
            final(self).connect_id() == old(self).connect_id(),
            final(self).offered() == old(self).offered().push(
                Message::SendPacket(old(self).connect_id(), packet),
            ),
    {
        proof {
            use_type_invariant(&*self);
        }
        let id = self.id;
        let ghost before = self.end.offered();
        let ghost m = Message::<C>::SendPacket(id, packet);
        assert(self.offered() == before && self.connect_id() == id);
        let _taken = self.end.offer(Message::SendPacket(id, packet));
        assert(self.end.offered() == before.push(m));
        assert(self.events() =~= old(self).events().push(server_send_event(m)));
    }

    fn close(&mut self)
        ensures
            final(self).connect_id() == old(self).connect_id(),
            final(self).offered() == old(self).offered().push(
                Message::Close(old(self).connect_id()),
            ),
    {
        proof {
            use_type_invariant(&*self);
        }
        let id = self.id;
        let ghost before = self.end.offered();
        let ghost m = Message::<C>::Close(id);
        assert(self.offered() == before && self.connect_id() == id);
        let _taken = self.end.offer(Message::Close(id));
        assert(self.end.offered() == before.push(m));
        assert(self.events() =~= old(self).events().push(server_send_event(m)));
    }
}

/// A connection and the dispatcher of its incoming calls.
pub struct ConnectionInfo<C, T: RpcDispatcher> {
    pub connection: C,
    pub dispatcher: T,
}

impl<C, T: RpcDispatcher> ConnectionInfo<C, T> {
    pub fn new(connection: C, dispatcher: T) -> (i: Self)
        ensures
            i.connection == connection,
            i.dispatcher == dispatcher,
    {
        ConnectionInfo { connection, dispatcher }
    }
}

impl<C, T: RpcDispatcher> RpcDispatcher for ConnectionInfo<C, T> {
    /// The packet goes to the dispatcher; the connection stays as it is.
    open spec fn dispatched(&self, data: Seq<u8>, pos: int, after: Self) -> bool {
        &&& self.dispatcher.dispatched(data, pos, after.dispatcher)
        &&& after.connection == self.connection
    }

    fn dispatch_rpc(&mut self, packet: Packet) {
        self.dispatcher.dispatch_rpc(packet);
    }
}

/// The connections of a server, by id.
pub struct ConnectionTable<V> {
    connections: HashMap<ConnectId, V>,
}

impl<V> View for ConnectionTable<V> {
    type V = Map<ConnectId, V>;

    closed spec fn view(&self) -> Map<ConnectId, V> {
        self.connections@
    }
}

impl<V> ConnectionTable<V> {
    /// A table without connections.
    pub fn new() -> (t: Self)
        ensures
            t@ == Map::<ConnectId, V>::empty(),
    {
        ConnectionTable { connections: HashMap::new() }
    }

    /// Records a new connection under its id; an entry under the same id is
    /// replaced.
    pub fn on_connected(&mut self, id: ConnectId, info: V)
        ensures
            final(self)@ == old(self)@.insert(id, info),
            table_step(old(self)@, final(self)@),
    {
        let ghost g = info;
        self.connections.insert(id, info);
        assert(self.connections@ == old(self)@.insert(id, g));
    }

    /// Whether a connection has this id.
    pub fn contains(&self, id: ConnectId) -> (b: bool)
        ensures
            b == self@.contains_key(id),
    {
        self.connections.contains_key(&id)
    }

    /// The connection with this id.
    pub fn get(&self, id: ConnectId) -> (r: Option<&V>)
        ensures
            match r {
                Some(v) => self@.contains_key(id) && *v == self@[id],
                None => !self@.contains_key(id),
            },
    {
        self.connections.get(&id)
    }

    /// Takes the connection with this id out of the table, when the server
    /// side closes it.
    pub fn on_close(&mut self, id: ConnectId) -> (r: Option<V>)
        ensures
            final(self)@ == old(self)@.remove(id),
            match r {
                Some(v) => old(self)@.contains_key(id) && v == old(self)@[id],
                None => !old(self)@.contains_key(id),
            },
    {
        self.connections.remove(&id)
    }

    /// The frame to write for a packet to send on connection `id`: none when no
    /// connection has that id.
    pub fn on_send_packet(&self, id: ConnectId, packet: Packet) -> (r: Option<Frame>)
        ensures
            match r {
                Some(f) => {
                    &&& self@.contains_key(id)
                    &&& f.header@ == frame_header_spec(packet.data().len())
                    &&& f.body@ == packet.data()
                },
                None => !self@.contains_key(id),
            },
    {
        if self.connections.contains_key(&id) {
            Some(frame_packet(packet))
        } else {
            None
        }
    }
}

impl<V: RpcDispatcher> ConnectionTable<V> {
    /// Hands a received packet to the dispatcher of connection `id`; tells
    /// whether there is one. That connection changes as its dispatcher's
    /// `dispatched` says; the others and the set of ids do not change, and the
    /// table does not change at all when there is no such connection.
    pub fn on_receive_packet(&mut self, id: ConnectId, packet: Packet) -> (dispatched: bool)
        ensures
            dispatched == old(self)@.contains_key(id),
            dispatched ==> old(self)@[id].dispatched(
                packet.data(),
                packet.read_index() as int,
                final(self)@[id],
            ),
            final(self)@.dom() == old(self)@.dom(),
            forall|k: ConnectId| k != id && old(self)@.contains_key(k) ==> #[trigger] final(self)@[k]
                == old(self)@[k],
            !dispatched ==> final(self)@ == old(self)@,
            table_step(old(self)@, final(self)@),
    {
        let ghost data = packet.data();
        let ghost pos = packet.read_index() as int;
        match self.connections.remove(&id) {
            Some(mut info) => {
                info.dispatch_rpc(packet);
                assert(old(self)@[id].dispatched(data, pos, info));
                self.connections.insert(id, info);
                assert(self.connections@.dom() =~= old(self)@.dom());
                true
            },
            None => false,
        }
    }
    /// The server's handling of one event on its channel. A received packet
    /// is dispatched here; what needs the services or a socket is returned as
    /// the action for the runtime to carry out.
    pub fn dispatch_message<C>(&mut self, msg: Message<C>) -> (a: ServerAction<C, V>)
        ensures
            match msg {
                Message::Connected(c) => a == ServerAction::<C, V>::Accept(c) && final(self)@
                    == old(self)@,
                Message::Disconnected(id) => a == ServerAction::<C, V>::Lost(id) && final(self)@
                    == old(self)@,
                Message::ReceivePacket(id, p) => if old(self)@.contains_key(id) {
                    &&& a is Dispatched
                    &&& old(self)@[id].dispatched(
                        p.data(),
                        p.read_index() as int,
                        final(self)@[id],
                    )
                    &&& final(self)@.dom() == old(self)@.dom()
                    &&& forall|k: ConnectId|
                        k != id && old(self)@.contains_key(k) ==> #[trigger] final(self)@[k]
                            == old(self)@[k]
                } else {
                    a == ServerAction::<C, V>::UnknownConnection(id) && final(self)@ == old(
                        self,
                    )@
                },
                Message::SendPacket(id, p) => {
                    &&& final(self)@ == old(self)@
                    &&& if old(self)@.contains_key(id) {
                        &&& a matches ServerAction::Write(i, f)
                        &&& i == id
                        &&& f.header@ == frame_header_spec(p.data().len())
                        &&& f.body@ == p.data()
                    } else {
                        a is Ignore
                    }
                },
                Message::Close(id) => {
                    &&& final(self)@ == old(self)@.remove(id)
                    &&& if old(self)@.contains_key(id) {
                        a == ServerAction::<C, V>::Closed(old(self)@[id])
                    } else {
                        a is Ignore
                    }
                },
            },
    {
        match msg {
            Message::Connected(c) => ServerAction::Accept(c),
            Message::Disconnected(id) => ServerAction::Lost(id),
            Message::ReceivePacket(id, p) => {
                if self.on_receive_packet(id, p) {
                    ServerAction::Dispatched
                } else {
                    ServerAction::UnknownConnection(id)
                }
            },
            Message::SendPacket(id, p) => match self.on_send_packet(id, p) {
                Some(f) => ServerAction::Write(id, f),
                None => ServerAction::Ignore,
            },
            Message::Close(id) => match self.on_close(id) {
                Some(info) => ServerAction::Closed(info),
                None => ServerAction::Ignore,
            },
        }
    }
}

/// What the server's runtime does after one event.
pub enum ServerAction<C, V> {
    /// Set up this new connection with the services, then record it.
    Accept(C),
    /// The connection with this id was lost; it stays recorded until it is
    /// closed.
    Lost(ConnectId),
    /// The packet was handed to its connection.
    Dispatched,
    /// A packet came for an id that no connection has.
    UnknownConnection(ConnectId),
    /// Write this frame on the connection with this id.
    Write(ConnectId, Frame),
    /// The connection was taken out of the table; tell the services.
    Closed(V),
    /// Nothing to do.
    Ignore,
}

/// Hands out connection ids in increasing order, from `CONNECT_ID_BEGIN`.
pub struct ConnectIdAllocator {
    next: ConnectId,
}

impl ConnectIdAllocator {
    /// The id the next connection gets.
    pub closed spec fn next_id(&self) -> nat {
        self.next as nat
    }

    pub fn new() -> (a: Self)
        ensures
            a.next_id() == CONNECT_ID_BEGIN,
    {
        ConnectIdAllocator { next: CONNECT_ID_BEGIN }
    }

    /// Whether another id can be given.
    pub fn has_next(&self) -> (b: bool)
        ensures
            b == (self.next_id() < usize::MAX),
    {
        self.next < usize::MAX
    }

    /// Gives the next id.
    pub fn allocate(&mut self) -> (id: ConnectId)
        requires
            old(self).next_id() < usize::MAX,
        ensures
            id == old(self).next_id(),
            final(self).next_id() == old(self).next_id() + 1,
    {
        let id = self.next;
        self.next = self.next + 1;
        id
    }
}

/// The `k`-th id given by an allocator fresh from `new` is
/// `CONNECT_ID_BEGIN + k`, so ids are distinct and increase.
pub proof fn law_kth_id(states: Seq<ConnectIdAllocator>, ids: Seq<ConnectId>)
    requires
        states.len() == ids.len() + 1,
        states[0].next_id() == CONNECT_ID_BEGIN,
        forall|k: int| 0 <= k < ids.len() ==> #[trigger] ids[k] == states[k].next_id() && states[k
            + 1].next_id() == states[k].next_id() + 1,
    ensures
        forall|k: int| 0 <= k < ids.len() ==> #[trigger] ids[k] == CONNECT_ID_BEGIN + k,
        forall|j: int, k: int| 0 <= j < k < ids.len() ==> ids[j] < ids[k],
    decreases ids.len(),
{
    if ids.len() > 0 {
        let n = ids.len() - 1;
        let s2 = states.drop_last();
        let i2 = ids.drop_last();
        assert forall|k: int| 0 <= k < i2.len() implies #[trigger] i2[k] == s2[k].next_id() && s2[k
            + 1].next_id() == s2[k].next_id() + 1 by {
            assert(ids[k] == states[k].next_id() && states[k + 1].next_id() == states[k].next_id()
                + 1);
        }
        law_kth_id(s2, i2);
        assert forall|k: int| 0 <= k < ids.len() implies #[trigger] ids[k] == CONNECT_ID_BEGIN + k by {
            if k < n {
                assert(i2[k] == ids[k]);
            } else {
                assert(ids[n] == states[n].next_id());
                if n > 0 {
                    assert(i2[n - 1] == ids[n - 1]);
                    assert(ids[n - 1] == states[n - 1].next_id() && states[n].next_id() == states[n
                        - 1].next_id() + 1);
                }
            }
        }
    }
}

/// Ids are never given twice: an id given before is below every id given
/// later.
pub proof fn law_ids_increase(a0: ConnectIdAllocator, a1: ConnectIdAllocator, a2: ConnectIdAllocator, id1: ConnectId, id2: ConnectId)
    requires
        id1 == a0.next_id(),
        a1.next_id() == a0.next_id() + 1,
        a2.next_id() >= a1.next_id(),
        id2 == a2.next_id(),
    ensures
        id1 < id2,
{
}

/// One step of a connection table: a connection recorded (`on_connected`) or
/// a packet handed to one (`on_receive_packet`), which keeps the set of ids.
pub open spec fn table_step<V>(before: Map<ConnectId, V>, after: Map<ConnectId, V>) -> bool {
    ||| after.dom() == before.dom()
    ||| exists|id: ConnectId, info: V| after == before.insert(id, info)
}

/// Receiving packets and recording connections never forget a connection:
/// through any run of such steps a recorded id stays recorded, so its packets
/// keep being dispatched and its outgoing packets keep being framed. Only
/// `on_close` takes a connection out.
pub proof fn law_connections_persist<V>(states: Seq<Map<ConnectId, V>>, id: ConnectId)
    requires
        states.len() >= 1,
        states[0].contains_key(id),
        forall|i: int| 0 <= i < states.len() - 1 ==> table_step(#[trigger] states[i], states[i + 1]),
    ensures
        forall|i: int| 0 <= i < states.len() ==> #[trigger] states[i].contains_key(id),
    decreases states.len(),
{
    if states.len() > 1 {
        let prefix = states.drop_last();
        assert forall|i: int| 0 <= i < prefix.len() - 1 implies table_step(
            #[trigger] prefix[i],
            prefix[i + 1],
        ) by {
            assert(prefix[i] == states[i]);
            assert(prefix[i + 1] == states[i + 1]);
        }
        law_connections_persist(prefix, id);
        let k = states.len() - 2;
        assert(prefix[k] == states[k]);
        assert(table_step(states[k], states[k + 1]));
        assert forall|i: int| 0 <= i < states.len() implies #[trigger] states[i].contains_key(id) by {
            if i < states.len() - 1 {
                assert(prefix[i] == states[i]);
            } else {
                if states[k + 1].dom() != states[k].dom() {
                    let (id2, info) = choose|id2: ConnectId, info: V| states[k + 1] == states[k].insert(
                        id2,
                        info,
                    );
                }
            }
        }
    }
}

} // verus!
