//! The demo login client: it says hello once connected and logs in when the
//! server greets it.
use vstd::prelude::*;
use crate::protocols::{
    decode_impl_in_client, decode_impl_in_client_spec, impl_in_client_effect,
    impl_in_server_bytes, ImplInClient, ImplInClientCall, ImplInServer, ImplInServerRequest,
    ImplInServer_Remote,
};
use crate::packer::{packed_text, PackTo};
use crate::{Packet, RpcDispatcher, SendEvent, Sender};

verus! {

/// The greeting the demo client sends once connected.
pub open spec fn client_greeting() -> Seq<char> {
    "msg from client!"@
}

/// The name the demo client logs in with.
pub open spec fn login_name() -> Seq<char> {
    "dennis"@
}

/// The password the demo client logs in with.
pub open spec fn login_password() -> Seq<char> {
    "ding"@
}

/// The services of the demo client.
pub struct ClientServicesImpl {}

impl ClientServicesImpl {
    pub fn new() -> (s: Self)
        ensures
            s == (ClientServicesImpl {  }),
    {
        ClientServicesImpl {  }
    }

    /// Once connected, the client says hello.
    pub fn on_connected<S: Sender>(&mut self, dispatcher: &mut ClientImpl<S>)
        ensures
            final(dispatcher).remote.sender.destination() == old(dispatcher).remote.sender.destination(),
            final(dispatcher).remote.sender.events() == old(dispatcher).remote.sender.events().push(
                SendEvent::Packet(
                    impl_in_server_bytes(ImplInServerRequest::HelloFromClient(client_greeting())),
                ),
            ),
            final(dispatcher).remote.sender.events() == old(dispatcher).remote.sender.events().push(
                SendEvent::Packet((1i32).packed() + packed_text("msg from client!"@)),
            ),
    {
        dispatcher.remote.hello_from_client("msg from client!".to_owned());
        assert(impl_in_server_bytes(ImplInServerRequest::HelloFromClient(client_greeting())) =~= (1i32).packed()
            + packed_text("msg from client!"@));
    }
}

/// The demo client's handler of the server's calls.
pub struct ClientImpl<S: Sender> {
    pub remote: ImplInServer_Remote<S>,
}

impl<S: Sender> ClientImpl<S> {
    pub fn new(remote: ImplInServer_Remote<S>) -> (c: Self)
        ensures
            c.remote == remote,
    {
        ClientImpl { remote }
    }
}

impl<S: Sender> ImplInClient for ClientImpl<S> {
    /// A greeting is answered with a login.
    open spec fn on_hello_from_server(&self, msg: Seq<char>, after: Self) -> bool {
        &&& after.remote.sender.destination() == self.remote.sender.destination()
        &&& after.remote.sender.events() == self.remote.sender.events().push(
            SendEvent::Packet(
                impl_in_server_bytes(ImplInServerRequest::Login(login_name(), login_password())),
            ),
        )
    }

    /// A login result changes nothing.
    open spec fn on_login_result(&self, ok: i32, after: Self) -> bool {
        after == *self
    }

    fn hello_from_server(&mut self, msg: String) {
        self.remote.login("dennis".to_owned(), "ding".to_owned());
    }

    fn login_result(&mut self, ok: i32) {
    }
}

impl<S: Sender> RpcDispatcher for ClientImpl<S> {
    /// The decoded call is made; a packet without one changes nothing.
    open spec fn dispatched(&self, data: Seq<u8>, pos: int, after: Self) -> bool {
        match decode_impl_in_client_spec(data, pos) {
            Some(r) => impl_in_client_effect(*self, r, after),
            None => after == *self,
        }
    }

    fn dispatch_rpc(&mut self, packet: Packet) {
        match decode_impl_in_client(packet) {
            Some(ImplInClientCall::HelloFromServer(msg)) => self.hello_from_server(msg),
            Some(ImplInClientCall::LoginResult(ok)) => self.login_result(ok),
            None => {},
        }
    }
}


/// Whatever greeting the server sends, the demo client answers with exactly
/// one call on the same connection: rpc id 2 packed as an `i32`, then the name
/// "dennis" and the password "ding" packed in that order.
pub proof fn law_greeting_answered_with_login<S: Sender>(
    c: ClientImpl<S>,
    msg: Seq<char>,
    after: ClientImpl<S>,
)
    requires
        c.on_hello_from_server(msg, after),
    ensures
        after.remote.sender.destination() == c.remote.sender.destination(),
        after.remote.sender.events() == c.remote.sender.events().push(
            SendEvent::Packet((2i32).packed() + packed_text("dennis"@) + packed_text("ding"@)),
        ),
{
    assert(impl_in_server_bytes(ImplInServerRequest::Login(login_name(), login_password())) =~= (2i32).packed()
        + packed_text("dennis"@) + packed_text("ding"@));
}

} // verus!
