//! The echo protocol.
use vstd::prelude::*;
use vstd::utf8::encode_utf8;
use crate::packer::{
    law_i32_roundtrip, law_text_roundtrip, packed_int, packed_text, unpack_text_checked_spec,
    Packet, PackTo, UnpackFrom,
};
use crate::{RpcId, SendEvent, Sender};

verus! {

/// The `EchoClient` protocol: the call that an echo server makes on its client.
pub trait EchoClient: Sized {
    /// What `echo_back` does, taking the handler from `self` to `after`.
    spec fn on_echo_back(&self, msg: Seq<char>, after: Self) -> bool;

    fn echo_back(&mut self, msg: String)
        ensures
            old(self).on_echo_back(msg@, *final(self)),
    ;
}

/// Rpc id of `EchoClient::echo_back`.
pub const ECHO_BACK: RpcId = 1;

/// A call of a `EchoClient` method with its arguments.
pub enum EchoClientCall {
    EchoBack(String),
}

/// The value of a [`EchoClientCall`]: its method and the values of its arguments.
pub ghost enum EchoClientRequest {
    EchoBack(Seq<char>),
}

impl View for EchoClientCall {
    type V = EchoClientRequest;

    open spec fn view(&self) -> EchoClientRequest {
        match self {
            EchoClientCall::EchoBack(msg) => EchoClientRequest::EchoBack(msg@),
        }
    }
}

/// What making the call `r` does to the handler `h`, ending in `after`.
pub open spec fn echo_client_effect<H: EchoClient>(h: H, r: EchoClientRequest, after: H) -> bool {
    match r {
        EchoClientRequest::EchoBack(msg) => h.on_echo_back(msg, after),
    }
}

/// The packet body that carries the call `r`: its rpc id, then its arguments.
pub open spec fn echo_client_bytes(r: EchoClientRequest) -> Seq<u8> {
    match r {
        EchoClientRequest::EchoBack(msg) => packed_int(ECHO_BACK as int, 4) + packed_text(msg),
    }
}

/// Every text argument of `r` has fewer than 32768 UTF-8 bytes.
pub open spec fn echo_client_texts_fit(r: EchoClientRequest) -> bool {
    match r {
        EchoClientRequest::EchoBack(msg) => encode_utf8(msg).len() < 0x8000,
    }
}

/// The call that a packet holding `buf`, read from `pos`, carries: a known rpc
/// id followed by readable arguments; trailing bytes are ignored.
pub open spec fn decode_echo_client_spec(buf: Seq<u8>, pos: int) -> Option<EchoClientRequest> {
    let (id, p0) = <i32 as UnpackFrom>::unpack_spec(buf, pos);
    match id {
        None => None,
        Some(id) => {
            if id == ECHO_BACK {
                let (msg, p1) = unpack_text_checked_spec(buf, p0);
                match msg {
                    Some(msg) => Some(EchoClientRequest::EchoBack(msg)),
                    None => None,
                }
            } else {
                None
            }
        },
    }
}

/// The packet that carries `call`, read from its start.
pub fn encode_echo_client(call: &EchoClientCall) -> (p: Packet)
    ensures
        p.data() == echo_client_bytes(call@),
        p.read_index() == 0,
{
    let mut p = Packet::new(0);
    assert(p.data() =~= Seq::<u8>::empty());
    match call {
        EchoClientCall::EchoBack(msg) => {
            ECHO_BACK.pack_to(&mut p);
            msg.pack_to(&mut p);
        },
    }
    p
}

/// The call that `input` carries from its read position, if any.
pub fn decode_echo_client(input: Packet) -> (r: Option<EchoClientCall>)
    ensures
        match r {
            Some(c) => decode_echo_client_spec(input.data(), input.read_index() as int) == Some(c@),
            None => decode_echo_client_spec(input.data(), input.read_index() as int) is None,
        },
{
    let mut packet = input;
    let id = match i32::unpack_from(&mut packet) {
        Some(id) => id,
        None => return None,
    };
    if id == ECHO_BACK {
        let msg = match packet.unpack_text_checked() {
            Some(v) => v,
            None => return None,
        };
        return Some(EchoClientCall::EchoBack(msg));
    }
    None
}

/// Decodes the call that `packet` carries and makes it on `handler`;
/// tells whether there was one.
pub fn dispatch_echo_client<H: EchoClient>(handler: &mut H, packet: Packet) -> (handled: bool)
    ensures
        match decode_echo_client_spec(packet.data(), packet.read_index() as int) {
            Some(r) => handled && echo_client_effect(*old(handler), r, *final(handler)),
            None => !handled && *final(handler) == *old(handler),
        },
{
    match decode_echo_client(packet) {
        Some(EchoClientCall::EchoBack(msg)) => {
            handler.echo_back(msg);
            true
        },
        None => false,
    }
}

/// Decoding the packet that carries a call gives the call back, when its
/// texts have fewer than 32768 UTF-8 bytes.
pub proof fn law_echo_client_roundtrip(r: EchoClientRequest)
    requires
        echo_client_texts_fit(r),
    ensures
        decode_echo_client_spec(echo_client_bytes(r), 0) == Some(r),
{
    match r {
        EchoClientRequest::EchoBack(msg) => {
            assert(echo_client_bytes(r) =~= (Seq::<u8>::empty()) + packed_int(ECHO_BACK as int, 4) + (packed_text(msg)));
            law_i32_roundtrip(Seq::<u8>::empty(), ECHO_BACK, packed_text(msg));
            assert(echo_client_bytes(r) =~= (packed_int(ECHO_BACK as int, 4)) + packed_text(msg) + (Seq::<u8>::empty()));
            law_text_roundtrip(packed_int(ECHO_BACK as int, 4), msg, Seq::<u8>::empty());
        },
    }
}

/// A `echo_back` call is carried as the rpc id 1 packed as an `i32`, then
/// `msg` packed; decoding such bytes, whatever follows them, gives
/// the call back.
pub proof fn law_echo_client_echo_back_format(msg: Seq<char>, suffix: Seq<u8>)
    requires
        encode_utf8(msg).len() < 0x8000,
    ensures
        ECHO_BACK == 1,
        echo_client_bytes(EchoClientRequest::EchoBack(msg)) == (1i32).packed() + packed_text(msg),
        decode_echo_client_spec((1i32).packed() + packed_text(msg) + suffix, 0) == Some(EchoClientRequest::EchoBack(msg)),
{
    let buf = (1i32).packed() + packed_text(msg) + suffix;
    assert(echo_client_bytes(EchoClientRequest::EchoBack(msg)) =~= (1i32).packed() + packed_text(msg));
    assert(buf =~= (Seq::<u8>::empty()) + (1i32).packed() + (packed_text(msg) + suffix));
    law_i32_roundtrip(Seq::<u8>::empty(), ECHO_BACK, packed_text(msg) + suffix);
    assert(buf =~= ((1i32).packed()) + packed_text(msg) + (suffix));
    law_text_roundtrip((1i32).packed(), msg, suffix);
}

/// The remote side of `EchoClient`: each call is packed and handed to the sender.
#[allow(non_camel_case_types)]
pub struct EchoClient_Remote<S: Sender> {
    pub sender: S,
}

impl<S: Sender> EchoClient_Remote<S> {
    pub fn new(sender: S) -> (r: Self)
        ensures
            r.sender == sender,
    {
        EchoClient_Remote { sender }
    }

    /// Asks the sender to close the connection.
    pub fn close(&mut self)
        ensures
            final(self).sender.destination() == old(self).sender.destination(),
            final(self).sender.events() == old(self).sender.events().push(SendEvent::Close),
    {
        self.sender.close();
    }
}

impl<S: Sender> EchoClient for EchoClient_Remote<S> {
    open spec fn on_echo_back(&self, msg: Seq<char>, after: Self) -> bool {
        &&& after.sender.destination() == self.sender.destination()
        &&& after.sender.events() == self.sender.events().push(
            SendEvent::Packet(echo_client_bytes(EchoClientRequest::EchoBack(msg))),
        )
    }

    fn echo_back(&mut self, msg: String) {
        let packet = encode_echo_client(&EchoClientCall::EchoBack(msg));
        self.sender.send(packet);
    }
}

/// The `EchoServer` protocol: the call that an echo client makes on its server.
pub trait EchoServer: Sized {
    /// What `echo` does, taking the handler from `self` to `after`.
    spec fn on_echo(&self, msg: Seq<char>, after: Self) -> bool;

    fn echo(&mut self, msg: String)
        ensures
            old(self).on_echo(msg@, *final(self)),
    ;
}

/// Rpc id of `EchoServer::echo`.
pub const ECHO: RpcId = 1;

/// A call of a `EchoServer` method with its arguments.
pub enum EchoServerCall {
    Echo(String),
}

/// The value of a [`EchoServerCall`]: its method and the values of its arguments.
pub ghost enum EchoServerRequest {
    Echo(Seq<char>),
}

impl View for EchoServerCall {
    type V = EchoServerRequest;

    open spec fn view(&self) -> EchoServerRequest {
        match self {
            EchoServerCall::Echo(msg) => EchoServerRequest::Echo(msg@),
        }
    }
}

/// What making the call `r` does to the handler `h`, ending in `after`.
pub open spec fn echo_server_effect<H: EchoServer>(h: H, r: EchoServerRequest, after: H) -> bool {
    match r {
        EchoServerRequest::Echo(msg) => h.on_echo(msg, after),
    }
}

/// The packet body that carries the call `r`: its rpc id, then its arguments.
pub open spec fn echo_server_bytes(r: EchoServerRequest) -> Seq<u8> {
    match r {
        EchoServerRequest::Echo(msg) => packed_int(ECHO as int, 4) + packed_text(msg),
    }
}

/// Every text argument of `r` has fewer than 32768 UTF-8 bytes.
pub open spec fn echo_server_texts_fit(r: EchoServerRequest) -> bool {
    match r {
        EchoServerRequest::Echo(msg) => encode_utf8(msg).len() < 0x8000,
    }
}

/// The call that a packet holding `buf`, read from `pos`, carries: a known rpc
/// id followed by readable arguments; trailing bytes are ignored.
pub open spec fn decode_echo_server_spec(buf: Seq<u8>, pos: int) -> Option<EchoServerRequest> {
    let (id, p0) = <i32 as UnpackFrom>::unpack_spec(buf, pos);
    match id {
        None => None,
        Some(id) => {
            if id == ECHO {
                let (msg, p1) = unpack_text_checked_spec(buf, p0);
                match msg {
                    Some(msg) => Some(EchoServerRequest::Echo(msg)),
                    None => None,
                }
            } else {
                None
            }
        },
    }
}

/// The packet that carries `call`, read from its start.
pub fn encode_echo_server(call: &EchoServerCall) -> (p: Packet)
    ensures
        p.data() == echo_server_bytes(call@),
        p.read_index() == 0,
{
    let mut p = Packet::new(0);
    assert(p.data() =~= Seq::<u8>::empty());
    match call {
        EchoServerCall::Echo(msg) => {
            ECHO.pack_to(&mut p);
            msg.pack_to(&mut p);
        },
    }
    p
}

/// The call that `input` carries from its read position, if any.
pub fn decode_echo_server(input: Packet) -> (r: Option<EchoServerCall>)
    ensures
        match r {
            Some(c) => decode_echo_server_spec(input.data(), input.read_index() as int) == Some(c@),
            None => decode_echo_server_spec(input.data(), input.read_index() as int) is None,
        },
{
    let mut packet = input;
    let id = match i32::unpack_from(&mut packet) {
        Some(id) => id,
        None => return None,
    };
    if id == ECHO {
        let msg = match packet.unpack_text_checked() {
            Some(v) => v,
            None => return None,
        };
        return Some(EchoServerCall::Echo(msg));
    }
    None
}

/// Decodes the call that `packet` carries and makes it on `handler`;
/// tells whether there was one.
pub fn dispatch_echo_server<H: EchoServer>(handler: &mut H, packet: Packet) -> (handled: bool)
    ensures
        match decode_echo_server_spec(packet.data(), packet.read_index() as int) {
            Some(r) => handled && echo_server_effect(*old(handler), r, *final(handler)),
            None => !handled && *final(handler) == *old(handler),
        },
{
    match decode_echo_server(packet) {
        Some(EchoServerCall::Echo(msg)) => {
            handler.echo(msg);
            true
        },
        None => false,
    }
}

/// Decoding the packet that carries a call gives the call back, when its
/// texts have fewer than 32768 UTF-8 bytes.
pub proof fn law_echo_server_roundtrip(r: EchoServerRequest)
    requires
        echo_server_texts_fit(r),
    ensures
        decode_echo_server_spec(echo_server_bytes(r), 0) == Some(r),
{
    match r {
        EchoServerRequest::Echo(msg) => {
            assert(echo_server_bytes(r) =~= (Seq::<u8>::empty()) + packed_int(ECHO as int, 4) + (packed_text(msg)));
            law_i32_roundtrip(Seq::<u8>::empty(), ECHO, packed_text(msg));
            assert(echo_server_bytes(r) =~= (packed_int(ECHO as int, 4)) + packed_text(msg) + (Seq::<u8>::empty()));
            law_text_roundtrip(packed_int(ECHO as int, 4), msg, Seq::<u8>::empty());
        },
    }
}

/// A `echo` call is carried as the rpc id 1 packed as an `i32`, then
/// `msg` packed; decoding such bytes, whatever follows them, gives
/// the call back.
pub proof fn law_echo_server_echo_format(msg: Seq<char>, suffix: Seq<u8>)
    requires
        encode_utf8(msg).len() < 0x8000,
    ensures
        ECHO == 1,
        echo_server_bytes(EchoServerRequest::Echo(msg)) == (1i32).packed() + packed_text(msg),
        decode_echo_server_spec((1i32).packed() + packed_text(msg) + suffix, 0) == Some(EchoServerRequest::Echo(msg)),
{
    let buf = (1i32).packed() + packed_text(msg) + suffix;
    assert(echo_server_bytes(EchoServerRequest::Echo(msg)) =~= (1i32).packed() + packed_text(msg));
    assert(buf =~= (Seq::<u8>::empty()) + (1i32).packed() + (packed_text(msg) + suffix));
    law_i32_roundtrip(Seq::<u8>::empty(), ECHO, packed_text(msg) + suffix);
    assert(buf =~= ((1i32).packed()) + packed_text(msg) + (suffix));
    law_text_roundtrip((1i32).packed(), msg, suffix);
}

/// The remote side of `EchoServer`: each call is packed and handed to the sender.
#[allow(non_camel_case_types)]
pub struct EchoServer_Remote<S: Sender> {
    pub sender: S,
}

impl<S: Sender> EchoServer_Remote<S> {
    pub fn new(sender: S) -> (r: Self)
        ensures
            r.sender == sender,
    {
        EchoServer_Remote { sender }
    }

    /// Asks the sender to close the connection.
    pub fn close(&mut self)
        ensures
            final(self).sender.destination() == old(self).sender.destination(),
            final(self).sender.events() == old(self).sender.events().push(SendEvent::Close),
    {
        self.sender.close();
    }
}

impl<S: Sender> EchoServer for EchoServer_Remote<S> {
    open spec fn on_echo(&self, msg: Seq<char>, after: Self) -> bool {
        &&& after.sender.destination() == self.sender.destination()
        &&& after.sender.events() == self.sender.events().push(
            SendEvent::Packet(echo_server_bytes(EchoServerRequest::Echo(msg))),
        )
    }

    fn echo(&mut self, msg: String) {
        let packet = encode_echo_server(&EchoServerCall::Echo(msg));
        self.sender.send(packet);
    }
}
} // verus!
