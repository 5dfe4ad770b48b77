//! The echo server: it sends each message back and then closes the
//! connection.
use vstd::prelude::*;
use crate::echo::protocols::{
    decode_echo_server, decode_echo_server_spec, echo_client_bytes, echo_server_effect,
    EchoClient, EchoClientRequest, EchoClient_Remote, EchoServer, EchoServerCall,
};
use crate::echo::protocols::law_echo_server_echo_format;
use crate::packer::{packed_text, PackTo};
use vstd::utf8::encode_utf8;
use crate::{Packet, RpcDispatcher, SendEvent, Sender};

verus! {

/// The services of the echo server.
pub struct EchoServerServices {}

/// One client's connection on the echo server.
pub struct EchoConnection<S: Sender> {
    pub remote: EchoClient_Remote<S>,
}

impl<S: Sender> EchoServer for EchoConnection<S> {
    /// The message goes back to the client, and then the connection is closed.
    open spec fn on_echo(&self, msg: Seq<char>, after: Self) -> bool {
        &&& after.remote.sender.destination() == self.remote.sender.destination()
        &&& after.remote.sender.events() == self.remote.sender.events().push(
            SendEvent::Packet(echo_client_bytes(EchoClientRequest::EchoBack(msg))),
        ).push(SendEvent::Close)
    }

    fn echo(&mut self, msg: String) {
        self.remote.echo_back(msg);
        self.remote.close();
    }
}

impl<S: Sender> RpcDispatcher for EchoConnection<S> {
    /// The decoded call is made; a packet without one changes nothing.
    open spec fn dispatched(&self, data: Seq<u8>, pos: int, after: Self) -> bool {
        match decode_echo_server_spec(data, pos) {
            Some(r) => echo_server_effect(*self, r, after),
            None => after == *self,
        }
    }

    fn dispatch_rpc(&mut self, packet: Packet) {
        match decode_echo_server(packet) {
            Some(EchoServerCall::Echo(msg)) => self.echo(msg),
            None => {},
        }
    }
}


/// An echo call is answered by sending the same text back, as rpc id 1
/// packed as an `i32` followed by the text, and then closing the connection.
pub proof fn law_echo_sends_message_back<S: Sender>(
    c: EchoConnection<S>,
    msg: Seq<char>,
    after: EchoConnection<S>,
)
    requires
        c.on_echo(msg, after),
    ensures
        after.remote.sender.destination() == c.remote.sender.destination(),
        after.remote.sender.events() == c.remote.sender.events().push(
            SendEvent::Packet((1i32).packed() + packed_text(msg)),
        ).push(SendEvent::Close),
{
    assert(echo_client_bytes(EchoClientRequest::EchoBack(msg)) =~= (1i32).packed() + packed_text(msg));
}

/// A connection that receives a packet holding an echo call for `msg` (rpc id
/// 1 as an `i32`, then the text, then anything) sends `msg` back the same way
/// and closes the connection.
pub proof fn law_echo_packet_answered<S: Sender>(
    c: EchoConnection<S>,
    msg: Seq<char>,
    suffix: Seq<u8>,
    after: EchoConnection<S>,
)
    requires
        encode_utf8(msg).len() < 0x8000,
        c.dispatched((1i32).packed() + packed_text(msg) + suffix, 0, after),
    ensures
        after.remote.sender.destination() == c.remote.sender.destination(),
        after.remote.sender.events() == c.remote.sender.events().push(
            SendEvent::Packet((1i32).packed() + packed_text(msg)),
        ).push(SendEvent::Close),
{
    law_echo_server_echo_format(msg, suffix);
    law_echo_sends_message_back(c, msg, after);
}

} // verus!
