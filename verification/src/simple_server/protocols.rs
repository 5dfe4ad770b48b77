//! The login protocol of the simple server, with its own rpc ids.
use vstd::prelude::*;
use vstd::utf8::encode_utf8;
use crate::packer::{
    law_i32_roundtrip, law_text_roundtrip, packed_int, packed_text, unpack_text_checked_spec,
    Packet, PackTo, UnpackFrom,
};
use crate::{RpcId, SendEvent, Sender};

verus! {

/// The `ImplInClient` protocol: the calls that a server makes on its client.
pub trait ImplInClient: Sized {
    /// What `hello_from_server` does, taking the handler from `self` to `after`.
    spec fn on_hello_from_server(&self, msg: Seq<char>, after: Self) -> bool;

    /// What `login_result` does, taking the handler from `self` to `after`.
    spec fn on_login_result(&self, ok: i32, after: Self) -> bool;

    fn hello_from_server(&mut self, msg: String)
        ensures
            old(self).on_hello_from_server(msg@, *final(self)),
    ;

    fn login_result(&mut self, ok: i32)
        ensures
            old(self).on_login_result(ok, *final(self)),
    ;
}

/// Rpc id of `ImplInClient::hello_from_server`.
pub const HELLO_FROM_SERVER: RpcId = 10;

/// Rpc id of `ImplInClient::login_result`.
pub const LOGIN_RESULT: RpcId = 11;

/// A call of a `ImplInClient` method with its arguments.
pub enum ImplInClientCall {
    HelloFromServer(String),
    LoginResult(i32),
}

/// The value of a [`ImplInClientCall`]: its method and the values of its arguments.
pub ghost enum ImplInClientRequest {
    HelloFromServer(Seq<char>),
    LoginResult(i32),
}

impl View for ImplInClientCall {
    type V = ImplInClientRequest;

    open spec fn view(&self) -> ImplInClientRequest {
        match self {
            ImplInClientCall::HelloFromServer(msg) => ImplInClientRequest::HelloFromServer(msg@),
            ImplInClientCall::LoginResult(ok) => ImplInClientRequest::LoginResult(*ok),
        }
    }
}

/// What making the call `r` does to the handler `h`, ending in `after`.
pub open spec fn impl_in_client_effect<H: ImplInClient>(h: H, r: ImplInClientRequest, after: H) -> bool {
    match r {
        ImplInClientRequest::HelloFromServer(msg) => h.on_hello_from_server(msg, after),
        ImplInClientRequest::LoginResult(ok) => h.on_login_result(ok, after),
    }
}

/// The packet body that carries the call `r`: its rpc id, then its arguments.
pub open spec fn impl_in_client_bytes(r: ImplInClientRequest) -> Seq<u8> {
    match r {
        ImplInClientRequest::HelloFromServer(msg) => packed_int(HELLO_FROM_SERVER as int, 4) + packed_text(msg),
        ImplInClientRequest::LoginResult(ok) => packed_int(LOGIN_RESULT as int, 4) + packed_int(ok as int, 4),
    }
}

/// Every text argument of `r` has fewer than 32768 UTF-8 bytes.
pub open spec fn impl_in_client_texts_fit(r: ImplInClientRequest) -> bool {
    match r {
        ImplInClientRequest::HelloFromServer(msg) => encode_utf8(msg).len() < 0x8000,
        ImplInClientRequest::LoginResult(ok) => true,
    }
}

/// The call that a packet holding `buf`, read from `pos`, carries: a known rpc
/// id followed by readable arguments; trailing bytes are ignored.
pub open spec fn decode_impl_in_client_spec(buf: Seq<u8>, pos: int) -> Option<ImplInClientRequest> {
    let (id, p0) = <i32 as UnpackFrom>::unpack_spec(buf, pos);
    match id {
        None => None,
        Some(id) => {
            if id == HELLO_FROM_SERVER {
                let (msg, p1) = unpack_text_checked_spec(buf, p0);
                match msg {
                    Some(msg) => Some(ImplInClientRequest::HelloFromServer(msg)),
                    None => None,
                }
            } else if id == LOGIN_RESULT {
                let (ok, p1) = <i32 as UnpackFrom>::unpack_spec(buf, p0);
                match ok {
                    Some(ok) => Some(ImplInClientRequest::LoginResult(ok)),
                    None => None,
                }
            } else {
                None
            }
        },
    }
}

/// The packet that carries `call`, read from its start.
pub fn encode_impl_in_client(call: &ImplInClientCall) -> (p: Packet)
    ensures
        p.data() == impl_in_client_bytes(call@),
        p.read_index() == 0,
{
    let mut p = Packet::new(0);
    assert(p.data() =~= Seq::<u8>::empty());
    match call {
        ImplInClientCall::HelloFromServer(msg) => {
            HELLO_FROM_SERVER.pack_to(&mut p);
            msg.pack_to(&mut p);
        },
        ImplInClientCall::LoginResult(ok) => {
            LOGIN_RESULT.pack_to(&mut p);
            ok.pack_to(&mut p);
        },
    }
    p
}

/// The call that `input` carries from its read position, if any.
pub fn decode_impl_in_client(input: Packet) -> (r: Option<ImplInClientCall>)
    ensures
        match r {
            Some(c) => decode_impl_in_client_spec(input.data(), input.read_index() as int) == Some(c@),
            None => decode_impl_in_client_spec(input.data(), input.read_index() as int) is None,
        },
{
    let mut packet = input;
    let id = match i32::unpack_from(&mut packet) {
        Some(id) => id,
        None => return None,
    };
    if id == HELLO_FROM_SERVER {
        let msg = match packet.unpack_text_checked() {
            Some(v) => v,
            None => return None,
        };
        return Some(ImplInClientCall::HelloFromServer(msg));
    }
    if id == LOGIN_RESULT {
        let ok = match i32::unpack_from(&mut packet) {
            Some(v) => v,
            None => return None,
        };
        return Some(ImplInClientCall::LoginResult(ok));
    }
    None
}

/// Decodes the call that `packet` carries and makes it on `handler`;
/// tells whether there was one.
pub fn dispatch_impl_in_client<H: ImplInClient>(handler: &mut H, packet: Packet) -> (handled: bool)
    ensures
        match decode_impl_in_client_spec(packet.data(), packet.read_index() as int) {
            Some(r) => handled && impl_in_client_effect(*old(handler), r, *final(handler)),
            None => !handled && *final(handler) == *old(handler),
        },
{
    match decode_impl_in_client(packet) {
        Some(ImplInClientCall::HelloFromServer(msg)) => {
            handler.hello_from_server(msg);
            true
        },
        Some(ImplInClientCall::LoginResult(ok)) => {
            handler.login_result(ok);
            true
        },
        None => false,
    }
}

/// Decoding the packet that carries a call gives the call back, when its
/// texts have fewer than 32768 UTF-8 bytes.
pub proof fn law_impl_in_client_roundtrip(r: ImplInClientRequest)
    requires
        impl_in_client_texts_fit(r),
    ensures
        decode_impl_in_client_spec(impl_in_client_bytes(r), 0) == Some(r),
{
    match r {
        ImplInClientRequest::HelloFromServer(msg) => {
            assert(impl_in_client_bytes(r) =~= (Seq::<u8>::empty()) + packed_int(HELLO_FROM_SERVER as int, 4) + (packed_text(msg)));
            law_i32_roundtrip(Seq::<u8>::empty(), HELLO_FROM_SERVER, packed_text(msg));
            assert(impl_in_client_bytes(r) =~= (packed_int(HELLO_FROM_SERVER as int, 4)) + packed_text(msg) + (Seq::<u8>::empty()));
            law_text_roundtrip(packed_int(HELLO_FROM_SERVER as int, 4), msg, Seq::<u8>::empty());
        },
        ImplInClientRequest::LoginResult(ok) => {
            assert(impl_in_client_bytes(r) =~= (Seq::<u8>::empty()) + packed_int(LOGIN_RESULT as int, 4) + (packed_int(ok as int, 4)));
            law_i32_roundtrip(Seq::<u8>::empty(), LOGIN_RESULT, packed_int(ok as int, 4));
            assert(impl_in_client_bytes(r) =~= (packed_int(LOGIN_RESULT as int, 4)) + packed_int(ok as int, 4) + (Seq::<u8>::empty()));
            law_i32_roundtrip(packed_int(LOGIN_RESULT as int, 4), ok, Seq::<u8>::empty());
        },
    }
}

/// A `hello_from_server` call is carried as the rpc id 10 packed as an `i32`, then
/// `msg` packed; decoding such bytes, whatever follows them, gives
/// the call back.
pub proof fn law_impl_in_client_hello_from_server_format(msg: Seq<char>, suffix: Seq<u8>)
    requires
        encode_utf8(msg).len() < 0x8000,
    ensures
        HELLO_FROM_SERVER == 10,
        impl_in_client_bytes(ImplInClientRequest::HelloFromServer(msg)) == (10i32).packed() + packed_text(msg),
        decode_impl_in_client_spec((10i32).packed() + packed_text(msg) + suffix, 0) == Some(ImplInClientRequest::HelloFromServer(msg)),
{
    let buf = (10i32).packed() + packed_text(msg) + suffix;
    assert(impl_in_client_bytes(ImplInClientRequest::HelloFromServer(msg)) =~= (10i32).packed() + packed_text(msg));
    assert(buf =~= (Seq::<u8>::empty()) + (10i32).packed() + (packed_text(msg) + suffix));
    law_i32_roundtrip(Seq::<u8>::empty(), HELLO_FROM_SERVER, packed_text(msg) + suffix);
    assert(buf =~= ((10i32).packed()) + packed_text(msg) + (suffix));
    law_text_roundtrip((10i32).packed(), msg, suffix);
}

/// A `login_result` call is carried as the rpc id 11 packed as an `i32`, then
/// `ok` packed; decoding such bytes, whatever follows them, gives
/// the call back.
pub proof fn law_impl_in_client_login_result_format(ok: i32, suffix: Seq<u8>)
    ensures
        LOGIN_RESULT == 11,
        impl_in_client_bytes(ImplInClientRequest::LoginResult(ok)) == (11i32).packed() + ok.packed(),
        decode_impl_in_client_spec((11i32).packed() + ok.packed() + suffix, 0) == Some(ImplInClientRequest::LoginResult(ok)),
{
    let buf = (11i32).packed() + ok.packed() + suffix;
    assert(impl_in_client_bytes(ImplInClientRequest::LoginResult(ok)) =~= (11i32).packed() + ok.packed());
    assert(buf =~= (Seq::<u8>::empty()) + (11i32).packed() + (ok.packed() + suffix));
    law_i32_roundtrip(Seq::<u8>::empty(), LOGIN_RESULT, ok.packed() + suffix);
    assert(buf =~= ((11i32).packed()) + ok.packed() + (suffix));
    law_i32_roundtrip((11i32).packed(), ok, suffix);
}

/// The remote side of `ImplInClient`: each call is packed and handed to the sender.
#[allow(non_camel_case_types)]
pub struct ImplInClient_Remote<S: Sender> {
    pub sender: S,
}

impl<S: Sender> ImplInClient_Remote<S> {
    pub fn new(sender: S) -> (r: Self)
        ensures
            r.sender == sender,
    {
        ImplInClient_Remote { sender }
    }

    /// Asks the sender to close the connection.
    pub fn close(&mut self)
        ensures
            final(self).sender.destination() == old(self).sender.destination(),
            final(self).sender.events() == old(self).sender.events().push(SendEvent::Close),
    {
        self.sender.close();
    }
}

impl<S: Sender> ImplInClient for ImplInClient_Remote<S> {
    open spec fn on_hello_from_server(&self, msg: Seq<char>, after: Self) -> bool {
        &&& after.sender.destination() == self.sender.destination()
        &&& after.sender.events() == self.sender.events().push(
            SendEvent::Packet(impl_in_client_bytes(ImplInClientRequest::HelloFromServer(msg))),
        )
    }

    open spec fn on_login_result(&self, ok: i32, after: Self) -> bool {
        &&& after.sender.destination() == self.sender.destination()
        &&& after.sender.events() == self.sender.events().push(
            SendEvent::Packet(impl_in_client_bytes(ImplInClientRequest::LoginResult(ok))),
        )
    }

    fn hello_from_server(&mut self, msg: String) {
        let packet = encode_impl_in_client(&ImplInClientCall::HelloFromServer(msg));
        self.sender.send(packet);
    }

    fn login_result(&mut self, ok: i32) {
        let packet = encode_impl_in_client(&ImplInClientCall::LoginResult(ok));
        self.sender.send(packet);
    }
}

/// The `ImplInServer` protocol: the calls that a client makes on its server.
pub trait ImplInServer: Sized {
    /// What `hello_from_client` does, taking the handler from `self` to `after`.
    spec fn on_hello_from_client(&self, msg: Seq<char>, after: Self) -> bool;

    /// What `login` does, taking the handler from `self` to `after`.
    spec fn on_login(&self, name: Seq<char>, password: Seq<char>, after: Self) -> bool;

    fn hello_from_client(&mut self, msg: String)
        ensures
            old(self).on_hello_from_client(msg@, *final(self)),
    ;

    fn login(&mut self, name: String, password: String)
        ensures
            old(self).on_login(name@, password@, *final(self)),
    ;
}

/// Rpc id of `ImplInServer::hello_from_client`.
pub const HELLO_FROM_CLIENT: RpcId = 10;

/// Rpc id of `ImplInServer::login`.
pub const LOGIN: RpcId = 11;

/// A call of a `ImplInServer` method with its arguments.
pub enum ImplInServerCall {
    HelloFromClient(String),
    Login(String, String),
}

/// The value of a [`ImplInServerCall`]: its method and the values of its arguments.
pub ghost enum ImplInServerRequest {
    HelloFromClient(Seq<char>),
    Login(Seq<char>, Seq<char>),
}

impl View for ImplInServerCall {
    type V = ImplInServerRequest;

    open spec fn view(&self) -> ImplInServerRequest {
        match self {
            ImplInServerCall::HelloFromClient(msg) => ImplInServerRequest::HelloFromClient(msg@),
            ImplInServerCall::Login(name, password) => ImplInServerRequest::Login(name@, password@),
        }
    }
}

/// What making the call `r` does to the handler `h`, ending in `after`.
pub open spec fn impl_in_server_effect<H: ImplInServer>(h: H, r: ImplInServerRequest, after: H) -> bool {
    match r {
        ImplInServerRequest::HelloFromClient(msg) => h.on_hello_from_client(msg, after),
        ImplInServerRequest::Login(name, password) => h.on_login(name, password, after),
    }
}

/// The packet body that carries the call `r`: its rpc id, then its arguments.
pub open spec fn impl_in_server_bytes(r: ImplInServerRequest) -> Seq<u8> {
    match r {
        ImplInServerRequest::HelloFromClient(msg) => packed_int(HELLO_FROM_CLIENT as int, 4) + packed_text(msg),
        ImplInServerRequest::Login(name, password) => packed_int(LOGIN as int, 4) + packed_text(name) + packed_text(password),
    }
}

/// Every text argument of `r` has fewer than 32768 UTF-8 bytes.
pub open spec fn impl_in_server_texts_fit(r: ImplInServerRequest) -> bool {
    match r {
        ImplInServerRequest::HelloFromClient(msg) => encode_utf8(msg).len() < 0x8000,
        ImplInServerRequest::Login(name, password) => encode_utf8(name).len() < 0x8000 && encode_utf8(password).len() < 0x8000,
    }
}

/// The call that a packet holding `buf`, read from `pos`, carries: a known rpc
/// id followed by readable arguments; trailing bytes are ignored.
pub open spec fn decode_impl_in_server_spec(buf: Seq<u8>, pos: int) -> Option<ImplInServerRequest> {
    let (id, p0) = <i32 as UnpackFrom>::unpack_spec(buf, pos);
    match id {
        None => None,
        Some(id) => {
            if id == HELLO_FROM_CLIENT {
                let (msg, p1) = unpack_text_checked_spec(buf, p0);
                match msg {
                    Some(msg) => Some(ImplInServerRequest::HelloFromClient(msg)),
                    None => None,
                }
            } else if id == LOGIN {
                let (name, p1) = unpack_text_checked_spec(buf, p0);
                let (password, p2) = unpack_text_checked_spec(buf, p1);
                match (name, password) {
                    (Some(name), Some(password)) => Some(ImplInServerRequest::Login(name, password)),
                    _ => None,
                }
            } else {
                None
            }
        },
    }
}

/// The packet that carries `call`, read from its start.
pub fn encode_impl_in_server(call: &ImplInServerCall) -> (p: Packet)
    ensures
        p.data() == impl_in_server_bytes(call@),
        p.read_index() == 0,
{
    let mut p = Packet::new(0);
    assert(p.data() =~= Seq::<u8>::empty());
    match call {
        ImplInServerCall::HelloFromClient(msg) => {
            HELLO_FROM_CLIENT.pack_to(&mut p);
            msg.pack_to(&mut p);
        },
        ImplInServerCall::Login(name, password) => {
            LOGIN.pack_to(&mut p);
            name.pack_to(&mut p);
            password.pack_to(&mut p);
        },
    }
    p
}

/// The call that `input` carries from its read position, if any.
pub fn decode_impl_in_server(input: Packet) -> (r: Option<ImplInServerCall>)
    ensures
        match r {
            Some(c) => decode_impl_in_server_spec(input.data(), input.read_index() as int) == Some(c@),
            None => decode_impl_in_server_spec(input.data(), input.read_index() as int) is None,
        },
{
    let mut packet = input;
    let id = match i32::unpack_from(&mut packet) {
        Some(id) => id,
        None => return None,
    };
    if id == HELLO_FROM_CLIENT {
        let msg = match packet.unpack_text_checked() {
            Some(v) => v,
            None => return None,
        };
        return Some(ImplInServerCall::HelloFromClient(msg));
    }
    if id == LOGIN {
        let name = match packet.unpack_text_checked() {
            Some(v) => v,
            None => return None,
        };
        let password = match packet.unpack_text_checked() {
            Some(v) => v,
            None => return None,
        };
        return Some(ImplInServerCall::Login(name, password));
    }
    None
}

/// Decodes the call that `packet` carries and makes it on `handler`;
/// tells whether there was one.
pub fn dispatch_impl_in_server<H: ImplInServer>(handler: &mut H, packet: Packet) -> (handled: bool)
    ensures
        match decode_impl_in_server_spec(packet.data(), packet.read_index() as int) {
            Some(r) => handled && impl_in_server_effect(*old(handler), r, *final(handler)),
            None => !handled && *final(handler) == *old(handler),
        },
{
    match decode_impl_in_server(packet) {
        Some(ImplInServerCall::HelloFromClient(msg)) => {
            handler.hello_from_client(msg);
            true
        },
        Some(ImplInServerCall::Login(name, password)) => {
            handler.login(name, password);
            true
        },
        None => false,
    }
}

/// Decoding the packet that carries a call gives the call back, when its
/// texts have fewer than 32768 UTF-8 bytes.
pub proof fn law_impl_in_server_roundtrip(r: ImplInServerRequest)
    requires
        impl_in_server_texts_fit(r),
    ensures
        decode_impl_in_server_spec(impl_in_server_bytes(r), 0) == Some(r),
{
    match r {
        ImplInServerRequest::HelloFromClient(msg) => {
            assert(impl_in_server_bytes(r) =~= (Seq::<u8>::empty()) + packed_int(HELLO_FROM_CLIENT as int, 4) + (packed_text(msg)));
            law_i32_roundtrip(Seq::<u8>::empty(), HELLO_FROM_CLIENT, packed_text(msg));
            assert(impl_in_server_bytes(r) =~= (packed_int(HELLO_FROM_CLIENT as int, 4)) + packed_text(msg) + (Seq::<u8>::empty()));
            law_text_roundtrip(packed_int(HELLO_FROM_CLIENT as int, 4), msg, Seq::<u8>::empty());
        },
        ImplInServerRequest::Login(name, password) => {
            assert(impl_in_server_bytes(r) =~= (Seq::<u8>::empty()) + packed_int(LOGIN as int, 4) + (packed_text(name) + packed_text(password)));
            law_i32_roundtrip(Seq::<u8>::empty(), LOGIN, packed_text(name) + packed_text(password));
            assert(impl_in_server_bytes(r) =~= (packed_int(LOGIN as int, 4)) + packed_text(name) + (packed_text(password)));
            law_text_roundtrip(packed_int(LOGIN as int, 4), name, packed_text(password));
            assert(impl_in_server_bytes(r) =~= (packed_int(LOGIN as int, 4) + packed_text(name)) + packed_text(password) + (Seq::<u8>::empty()));
            law_text_roundtrip(packed_int(LOGIN as int, 4) + packed_text(name), password, Seq::<u8>::empty());
        },
    }
}

/// A `hello_from_client` call is carried as the rpc id 10 packed as an `i32`, then
/// `msg` packed; decoding such bytes, whatever follows them, gives
/// the call back.
pub proof fn law_impl_in_server_hello_from_client_format(msg: Seq<char>, suffix: Seq<u8>)
    requires
        encode_utf8(msg).len() < 0x8000,
    ensures
        HELLO_FROM_CLIENT == 10,
        impl_in_server_bytes(ImplInServerRequest::HelloFromClient(msg)) == (10i32).packed() + packed_text(msg),
        decode_impl_in_server_spec((10i32).packed() + packed_text(msg) + suffix, 0) == Some(ImplInServerRequest::HelloFromClient(msg)),
{
    let buf = (10i32).packed() + packed_text(msg) + suffix;
    assert(impl_in_server_bytes(ImplInServerRequest::HelloFromClient(msg)) =~= (10i32).packed() + packed_text(msg));
    assert(buf =~= (Seq::<u8>::empty()) + (10i32).packed() + (packed_text(msg) + suffix));
    law_i32_roundtrip(Seq::<u8>::empty(), HELLO_FROM_CLIENT, packed_text(msg) + suffix);
    assert(buf =~= ((10i32).packed()) + packed_text(msg) + (suffix));
    law_text_roundtrip((10i32).packed(), msg, suffix);
}

/// A `login` call is carried as the rpc id 11 packed as an `i32`, then
/// `name` and `password` packed in that order; decoding such bytes, whatever follows them, gives
/// the call back.
pub proof fn law_impl_in_server_login_format(name: Seq<char>, password: Seq<char>, suffix: Seq<u8>)
    requires
        encode_utf8(name).len() < 0x8000,
        encode_utf8(password).len() < 0x8000,
    ensures
        LOGIN == 11,
        impl_in_server_bytes(ImplInServerRequest::Login(name, password)) == (11i32).packed() + packed_text(name) + packed_text(password),
        decode_impl_in_server_spec((11i32).packed() + packed_text(name) + packed_text(password) + suffix, 0) == Some(ImplInServerRequest::Login(name, password)),
{
    let buf = (11i32).packed() + packed_text(name) + packed_text(password) + suffix;
    assert(impl_in_server_bytes(ImplInServerRequest::Login(name, password)) =~= (11i32).packed() + packed_text(name) + packed_text(password));
    assert(buf =~= (Seq::<u8>::empty()) + (11i32).packed() + (packed_text(name) + packed_text(password) + suffix));
    law_i32_roundtrip(Seq::<u8>::empty(), LOGIN, packed_text(name) + packed_text(password) + suffix);
    assert(buf =~= ((11i32).packed()) + packed_text(name) + (packed_text(password) + suffix));
    law_text_roundtrip((11i32).packed(), name, packed_text(password) + suffix);
    assert(buf =~= ((11i32).packed() + packed_text(name)) + packed_text(password) + (suffix));
    law_text_roundtrip((11i32).packed() + packed_text(name), password, suffix);
}

/// The remote side of `ImplInServer`: each call is packed and handed to the sender.
#[allow(non_camel_case_types)]
pub struct ImplInServer_Remote<S: Sender> {
    pub sender: S,
}

impl<S: Sender> ImplInServer_Remote<S> {
    pub fn new(sender: S) -> (r: Self)
        ensures
            r.sender == sender,
    {
        ImplInServer_Remote { sender }
    }

    /// Asks the sender to close the connection.
    pub fn close(&mut self)
        ensures
            final(self).sender.destination() == old(self).sender.destination(),
            final(self).sender.events() == old(self).sender.events().push(SendEvent::Close),
    {
        self.sender.close();
    }
}

impl<S: Sender> ImplInServer for ImplInServer_Remote<S> {
    open spec fn on_hello_from_client(&self, msg: Seq<char>, after: Self) -> bool {
        &&& after.sender.destination() == self.sender.destination()
        &&& after.sender.events() == self.sender.events().push(
            SendEvent::Packet(impl_in_server_bytes(ImplInServerRequest::HelloFromClient(msg))),
        )
    }

    open spec fn on_login(&self, name: Seq<char>, password: Seq<char>, after: Self) -> bool {
        &&& after.sender.destination() == self.sender.destination()
        &&& after.sender.events() == self.sender.events().push(
            SendEvent::Packet(impl_in_server_bytes(ImplInServerRequest::Login(name, password))),
        )
    }

    fn hello_from_client(&mut self, msg: String) {
        let packet = encode_impl_in_server(&ImplInServerCall::HelloFromClient(msg));
        self.sender.send(packet);
    }

    fn login(&mut self, name: String, password: String) {
        let packet = encode_impl_in_server(&ImplInServerCall::Login(name, password));
        self.sender.send(packet);
    }
}
} // verus!
