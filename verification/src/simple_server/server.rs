//! The simple server: the demo login server on the simple protocol's ids.
use vstd::prelude::*;
use crate::simple_server::protocols::{
    decode_impl_in_server, decode_impl_in_server_spec, impl_in_client_bytes,
    impl_in_server_effect, ImplInClient, ImplInClientRequest, ImplInClient_Remote, ImplInServer,
    ImplInServerCall,
};
use crate::packer::{packed_text, PackTo};
use crate::{Packet, RpcDispatcher, SendEvent, Sender};

verus! {

/// The result code the simple server answers every login with.
pub const LOGIN_RESULT_CODE: i32 = 1024;

/// The greeting the simple server answers a hello with.
pub open spec fn server_greeting() -> Seq<char> {
    "msg from server"@
}

/// The services of the simple server.
pub struct ServicesImpl {}

impl ServicesImpl {
    pub fn new() -> (s: Self)
        ensures
            s == (ServicesImpl {  }),
    {
        ServicesImpl {  }
    }
}

/// One client's connection on the simple server.
pub struct ConnectionImpl<S: Sender> {
    pub remote: ImplInClient_Remote<S>,
}

impl<S: Sender> ConnectionImpl<S> {
    pub fn new(remote: ImplInClient_Remote<S>) -> (c: Self)
        ensures
            c.remote == remote,
    {
        ConnectionImpl { remote }
    }
}

impl<S: Sender> ImplInServer for ConnectionImpl<S> {
    /// A hello is answered with the server's greeting.
    open spec fn on_hello_from_client(&self, msg: Seq<char>, after: Self) -> bool {
        &&& after.remote.sender.destination() == self.remote.sender.destination()
        &&& after.remote.sender.events() == self.remote.sender.events().push(
            SendEvent::Packet(
                impl_in_client_bytes(ImplInClientRequest::HelloFromServer(server_greeting())),
            ),
        )
    }

    /// A login is answered with the result code.
    open spec fn on_login(&self, name: Seq<char>, password: Seq<char>, after: Self) -> bool {
        &&& after.remote.sender.destination() == self.remote.sender.destination()
        &&& after.remote.sender.events() == self.remote.sender.events().push(
            SendEvent::Packet(
                impl_in_client_bytes(ImplInClientRequest::LoginResult(LOGIN_RESULT_CODE)),
            ),
        )
    }

    fn hello_from_client(&mut self, msg: String) {
        self.remote.hello_from_server("msg from server".to_owned());
    }

    fn login(&mut self, name: String, password: String) {
        self.remote.login_result(LOGIN_RESULT_CODE);
    }
}

impl<S: Sender> RpcDispatcher for ConnectionImpl<S> {
    /// The decoded call is made; a packet without one changes nothing.
    open spec fn dispatched(&self, data: Seq<u8>, pos: int, after: Self) -> bool {
        match decode_impl_in_server_spec(data, pos) {
            Some(r) => impl_in_server_effect(*self, r, after),
            None => after == *self,
        }
    }

    fn dispatch_rpc(&mut self, packet: Packet) {
        match decode_impl_in_server(packet) {
            Some(ImplInServerCall::HelloFromClient(msg)) => self.hello_from_client(msg),
            Some(ImplInServerCall::Login(name, password)) => self.login(name, password),
            None => {},
        }
    }
}


/// Whatever the client says in its hello, the simple server answers with exactly one
/// call on the same connection: rpc id 10 packed as an `i32`, then the
/// text "msg from server".
pub proof fn law_hello_answered_with_greeting<S: Sender>(
    c: ConnectionImpl<S>,
    msg: Seq<char>,
    after: ConnectionImpl<S>,
)
    requires
        c.on_hello_from_client(msg, after),
    ensures
        after.remote.sender.destination() == c.remote.sender.destination(),
        after.remote.sender.events() == c.remote.sender.events().push(
            SendEvent::Packet((10i32).packed() + packed_text("msg from server"@)),
        ),
{
    assert(impl_in_client_bytes(ImplInClientRequest::HelloFromServer(server_greeting())) =~= (10i32).packed()
        + packed_text("msg from server"@));
}

/// Whatever name and password a login carries, the simple server answers with exactly
/// one call on the same connection: rpc id 11 packed as an `i32`, then the
/// result code 1024 packed as an `i32`.
pub proof fn law_login_answered_with_result<S: Sender>(
    c: ConnectionImpl<S>,
    name: Seq<char>,
    password: Seq<char>,
    after: ConnectionImpl<S>,
)
    requires
        c.on_login(name, password, after),
    ensures
        after.remote.sender.destination() == c.remote.sender.destination(),
        after.remote.sender.events() == c.remote.sender.events().push(
            SendEvent::Packet((11i32).packed() + (1024i32).packed()),
        ),
{
    assert(impl_in_client_bytes(ImplInClientRequest::LoginResult(LOGIN_RESULT_CODE)) =~= (11i32).packed()
        + (1024i32).packed());
}

} // verus!
