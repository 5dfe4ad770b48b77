//! A small RPC framework: a packet format, protocol codecs and the
//! decision logic of the client and server event loops.
use vstd::prelude::*;

pub mod channel;
pub mod wire;
pub mod packer;
pub mod protocols;
pub mod simple_server;
pub mod echo;
pub mod transport;
pub mod client_impl;
pub mod services_impl;
pub mod network;
pub mod server;
pub mod client;

pub use packer::{Packet, PackTo, UnpackFrom};

verus! {

/// Identifies a remote procedure within a protocol.
pub type RpcId = i32;

/// Identifies a connection on a server.
pub type ConnectId = usize;

/// Capacity of the event channels of the client and the server.
pub const CHANNEL_SIZE: usize = 512;

/// The id given to the first connection a server accepts.
pub const CONNECT_ID_BEGIN: usize = 100;

/// One thing a sender was asked to do.
pub ghost enum SendEvent {
    /// Send a packet with these bytes.
    Packet(Seq<u8>),
    /// Close the connection.
    Close,
}

/// Where a remote hands the packets of its calls.
pub trait Sender {
    /// What the sender was asked to do, in order.
    spec fn events(&self) -> Seq<SendEvent>;

    /// Where the sender's messages go; sending and closing keep it.
    spec fn destination(&self) -> int;

    fn send(&mut self, packet: Packet)
        ensures
            final(self).events() == old(self).events().push(SendEvent::Packet(packet.data())),
            final(self).destination() == old(self).destination(),
    ;

    fn close(&mut self)
        ensures
            final(self).events() == old(self).events().push(SendEvent::Close),
            final(self).destination() == old(self).destination(),
    ;
}

/// Receives the packets of incoming calls.
pub trait RpcDispatcher: Sized {
    /// How handling a packet holding `data`, read from `pos`, takes the
    /// dispatcher from `self` to `after`.
    spec fn dispatched(&self, data: Seq<u8>, pos: int, after: Self) -> bool;

    fn dispatch_rpc(&mut self, packet: Packet)
        ensures
            old(self).dispatched(packet.data(), packet.read_index() as int, *final(self)),
    ;
}

} // verus!
