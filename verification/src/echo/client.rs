//! The echo client: it sends one message once connected.
use vstd::prelude::*;
use crate::echo::protocols::{
    decode_echo_client, decode_echo_client_spec, echo_client_effect, echo_server_bytes,
    EchoClient, EchoClientCall, EchoServer, EchoServerRequest, EchoServer_Remote,
};
use crate::packer::{packed_text, PackTo};
use crate::{Packet, RpcDispatcher, SendEvent, Sender};

verus! {

/// The message the echo client sends once connected.
pub open spec fn echo_message() -> Seq<char> {
    "some 中文 message"@
}

/// The services of the echo client.
pub struct EchoClientServices {}

impl EchoClientServices {
    /// Once connected, the client sends its message.
    pub fn on_connected<S: Sender>(&mut self, dispatcher: &mut EchoClientImpl<S>)
        ensures
            final(dispatcher).remote.sender.destination() == old(dispatcher).remote.sender.destination(),
            final(dispatcher).remote.sender.events() == old(dispatcher).remote.sender.events().push(
                SendEvent::Packet(echo_server_bytes(EchoServerRequest::Echo(echo_message()))),
            ),
            final(dispatcher).remote.sender.events() == old(dispatcher).remote.sender.events().push(
                SendEvent::Packet((1i32).packed() + packed_text("some 中文 message"@)),
            ),
    {
        dispatcher.remote.echo("some 中文 message".to_owned());
        assert(echo_server_bytes(EchoServerRequest::Echo(echo_message())) =~= (1i32).packed()
            + packed_text("some 中文 message"@));
    }
}

/// The echo client's handler of the server's calls.
pub struct EchoClientImpl<S: Sender> {
    pub remote: EchoServer_Remote<S>,
}

impl<S: Sender> EchoClient for EchoClientImpl<S> {
    /// The echoed message changes nothing.
    open spec fn on_echo_back(&self, msg: Seq<char>, after: Self) -> bool {
        after == *self
    }

    fn echo_back(&mut self, msg: String) {
    }
}

impl<S: Sender> RpcDispatcher for EchoClientImpl<S> {
    /// The decoded call is made; a packet without one changes nothing.
    open spec fn dispatched(&self, data: Seq<u8>, pos: int, after: Self) -> bool {
        match decode_echo_client_spec(data, pos) {
            Some(r) => echo_client_effect(*self, r, after),
            None => after == *self,
        }
    }

    fn dispatch_rpc(&mut self, packet: Packet) {
        match decode_echo_client(packet) {
            Some(EchoClientCall::EchoBack(msg)) => self.echo_back(msg),
            None => {},
        }
    }
}

} // verus!
