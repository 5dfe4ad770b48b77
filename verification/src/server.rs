//! The demo login server: it greets a client that says hello and answers a
//! login with a result code.
use vstd::prelude::*;
use crate::protocols::{
    decode_impl_in_server, decode_impl_in_server_spec, encode_impl_in_client,
    impl_in_client_bytes, impl_in_server_effect, ImplInClient, ImplInClientCall,
    ImplInClientRequest, ImplInServer, ImplInServerCall,
};
use crate::packer::{packed_text, PackTo};
use crate::{Packet, RpcDispatcher, SendEvent, Sender};

verus! {

/// The result code the demo server answers every login with.
pub const LOGIN_RESULT_CODE: i32 = 1024;

/// The greeting the demo server answers a hello with.
pub open spec fn server_greeting() -> Seq<char> {
    "msg from server"@
}

/// The services of the demo server.
pub struct ServicesImpl {}

impl ServicesImpl {
    pub fn new() -> (s: Self)
        ensures
            s == (ServicesImpl {  }),
    {
        ServicesImpl {  }
    }
}

/// The calls the demo server makes on a client, written out by hand.
pub struct ConnectionRemote<S: Sender> {
    pub sender: S,
}

impl<S: Sender> ConnectionRemote<S> {
    pub fn new(sender: S) -> (r: Self)
        ensures
            r.sender == sender,
    {
        ConnectionRemote { sender }
    }
}

impl<S: Sender> ImplInClient for ConnectionRemote<S> {
    open spec fn on_hello_from_server(&self, msg: Seq<char>, after: Self) -> bool {
        &&& after.sender.destination() == self.sender.destination()
        &&& after.sender.events() == self.sender.events().push(
            SendEvent::Packet(impl_in_client_bytes(ImplInClientRequest::HelloFromServer(msg))),
        )
    }

    open spec fn on_login_result(&self, ok: i32, after: Self) -> bool {
        &&& after.sender.destination() == self.sender.destination()
        &&& after.sender.events() == self.sender.events().push(
            SendEvent::Packet(impl_in_client_bytes(ImplInClientRequest::LoginResult(ok))),
        )
    }

    fn hello_from_server(&mut self, msg: String) {
        let packet = encode_impl_in_client(&ImplInClientCall::HelloFromServer(msg));
        self.sender.send(packet);
    }

    fn login_result(&mut self, ok: i32) {
        let packet = encode_impl_in_client(&ImplInClientCall::LoginResult(ok));
        self.sender.send(packet);
    }
}

/// One client's connection on the demo server.
pub struct ConnectionImpl<S: Sender> {
    pub remote: ConnectionRemote<S>,
}

impl<S: Sender> ConnectionImpl<S> {
    pub fn new(remote: ConnectionRemote<S>) -> (c: Self)
        ensures
            c.remote == remote,
    {
        ConnectionImpl { remote }
    }
}

impl<S: Sender> ImplInServer for ConnectionImpl<S> {
    /// A hello is answered with the server's greeting.
    open spec fn on_hello_from_client(&self, msg: Seq<char>, after: Self) -> bool {
        &&& after.remote.sender.destination() == self.remote.sender.destination()
        &&& after.remote.sender.events() == self.remote.sender.events().push(
            SendEvent::Packet(
                impl_in_client_bytes(ImplInClientRequest::HelloFromServer(server_greeting())),
            ),
        )
    }

    /// A login is answered with the result code.
    open spec fn on_login(&self, name: Seq<char>, password: Seq<char>, after: Self) -> bool {
        &&& after.remote.sender.destination() == self.remote.sender.destination()
        &&& after.remote.sender.events() == self.remote.sender.events().push(
            SendEvent::Packet(
                impl_in_client_bytes(ImplInClientRequest::LoginResult(LOGIN_RESULT_CODE)),
            ),
        )
    }

    fn hello_from_client(&mut self, msg: String) {
        self.remote.hello_from_server("msg from server".to_owned());
    }

    fn login(&mut self, name: String, password: String) {
        self.remote.login_result(LOGIN_RESULT_CODE);
    }
}

impl<S: Sender> RpcDispatcher for ConnectionImpl<S> {
    /// The decoded call is made; a packet without one changes nothing.
    open spec fn dispatched(&self, data: Seq<u8>, pos: int, after: Self) -> bool {
        match decode_impl_in_server_spec(data, pos) {
            Some(r) => impl_in_server_effect(*self, r, after),
            None => after == *self,
        }
    }

    fn dispatch_rpc(&mut self, packet: Packet) {
        match decode_impl_in_server(packet) {
            Some(ImplInServerCall::HelloFromClient(msg)) => self.hello_from_client(msg),
            Some(ImplInServerCall::Login(name, password)) => self.login(name, password),
            None => {},
        }
    }
}


/// Whatever the client says in its hello, the demo server answers with exactly one
/// call on the same connection: rpc id 1 packed as an `i32`, then the
/// text "msg from server".
pub proof fn law_hello_answered_with_greeting<S: Sender>(
    c: ConnectionImpl<S>,
    msg: Seq<char>,
    after: ConnectionImpl<S>,
)
    requires
        c.on_hello_from_client(msg, after),
    ensures
        after.remote.sender.destination() == c.remote.sender.destination(),
        after.remote.sender.events() == c.remote.sender.events().push(
            SendEvent::Packet((1i32).packed() + packed_text("msg from server"@)),
        ),
{
    assert(impl_in_client_bytes(ImplInClientRequest::HelloFromServer(server_greeting())) =~= (1i32).packed()
        + packed_text("msg from server"@));
}

/// Whatever name and password a login carries, the demo server answers with exactly
/// one call on the same connection: rpc id 2 packed as an `i32`, then the
/// result code 1024 packed as an `i32`.
pub proof fn law_login_answered_with_result<S: Sender>(
    c: ConnectionImpl<S>,
    name: Seq<char>,
    password: Seq<char>,
    after: ConnectionImpl<S>,
)
    requires
        c.on_login(name, password, after),
    ensures
        after.remote.sender.destination() == c.remote.sender.destination(),
        after.remote.sender.events() == c.remote.sender.events().push(
            SendEvent::Packet((2i32).packed() + (1024i32).packed()),
        ),
{
    assert(impl_in_client_bytes(ImplInClientRequest::LoginResult(LOGIN_RESULT_CODE)) =~= (2i32).packed()
        + (1024i32).packed());
}

} // verus!
