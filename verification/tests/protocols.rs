use rcall::packer::{Packet, PackTo};
use rcall::protocols::{
    decode_impl_in_client, decode_impl_in_server, dispatch_impl_in_server, encode_impl_in_client,
    encode_impl_in_server, ImplInClient, ImplInClientCall, ImplInClient_Remote, ImplInServer,
    ImplInServerCall, ImplInServer_Remote, HELLO_FROM_CLIENT, LOGIN,
};
use rcall::client_impl::{ClientSender, Message};
use tokio::sync::mpsc::{channel, Receiver};
use rcall::simple_server::protocols as simple;
use rcall::echo::protocols::{decode_echo_server, encode_echo_server, EchoServerCall};

fn sender() -> (ClientSender, Receiver<Message>) {
    let (tx, rx) = channel(64);
    (ClientSender::new(tx), rx)
}

fn sent_bytes(rx: &mut Receiver<Message>) -> Vec<Vec<u8>> {
    let mut out = Vec::new();
    while let Ok(Message::SendPacket(p)) = rx.try_recv() {
        out.push(p.buffer);
    }
    out
}

#[test]
fn login_call_bytes() {
    let p = encode_impl_in_server(&ImplInServerCall::Login("ab".to_string(), "c".to_string()));
    assert_eq!(p.buffer, vec![2, 0, 0, 0, 2, 0, b'a', b'b', 1, 0, b'c']);
    assert_eq!(LOGIN, 2);
    assert_eq!(HELLO_FROM_CLIENT, 1);
}

#[test]
fn login_result_bytes() {
    let p = encode_impl_in_client(&ImplInClientCall::LoginResult(1024));
    assert_eq!(p.buffer, vec![2, 0, 0, 0, 0, 4, 0, 0]);
}

#[test]
fn calls_decode_back() {
    let p = encode_impl_in_server(&ImplInServerCall::HelloFromClient("msg from client!".to_string()));
    match decode_impl_in_server(p) {
        Some(ImplInServerCall::HelloFromClient(m)) => assert_eq!(m, "msg from client!"),
        _ => panic!("hello_from_client expected"),
    }
    let p = encode_impl_in_client(&ImplInClientCall::LoginResult(-5));
    match decode_impl_in_client(p) {
        Some(ImplInClientCall::LoginResult(v)) => assert_eq!(v, -5),
        _ => panic!("login_result expected"),
    }
}

#[test]
fn unknown_or_truncated_calls_are_refused() {
    let mut p = Packet::new(0);
    3_i32.pack_to(&mut p);
    "x".pack_to(&mut p);
    assert!(decode_impl_in_server(p).is_none());

    let mut q = Packet::new(0);
    2_i32.pack_to(&mut q);
    "only a name".pack_to(&mut q);
    assert!(decode_impl_in_server(q).is_none());

    let r = Packet::new(2);
    assert!(decode_impl_in_server(r).is_none());
}

#[test]
fn negative_text_length_is_refused() {
    let mut p = Packet::new(0);
    1_i32.pack_to(&mut p);
    (-1_i16).pack_to(&mut p);
    assert!(decode_impl_in_server(p).is_none());
}

#[test]
fn dispatch_calls_the_handler() {
    let (s, mut rx) = sender();
    let mut conn = rcall::server::ConnectionImpl::new(rcall::server::ConnectionRemote::new(s));
    let p = encode_impl_in_server(&ImplInServerCall::Login("dennis".to_string(), "ding".to_string()));
    assert!(dispatch_impl_in_server(&mut conn, p));
    let mut bad = Packet::new(0);
    9_i32.pack_to(&mut bad);
    assert!(!dispatch_impl_in_server(&mut conn, bad));
    assert_eq!(sent_bytes(&mut rx), vec![vec![2, 0, 0, 0, 0, 4, 0, 0]]);
}

#[test]
fn remote_sends_encoded_calls() {
    let (s, mut rx) = sender();
    let mut remote = ImplInServer_Remote::new(s);
    remote.hello_from_client("hi".to_string());
    remote.close();
    assert!(matches!(rx.try_recv(), Ok(Message::SendPacket(p)) if p.buffer == vec![1, 0, 0, 0, 2, 0, b'h', b'i']));
    assert!(matches!(rx.try_recv(), Ok(Message::Disconnect)));

    let (s2, mut rx2) = sender();
    let mut back = ImplInClient_Remote::new(s2);
    back.login_result(7);
    assert_eq!(sent_bytes(&mut rx2), vec![vec![2, 0, 0, 0, 7, 0, 0, 0]]);
}

#[test]
fn simple_protocol_uses_its_own_ids() {
    let p = simple::encode_impl_in_server(&simple::ImplInServerCall::HelloFromClient("a".to_string()));
    assert_eq!(p.buffer, vec![10, 0, 0, 0, 1, 0, b'a']);
    let q = simple::encode_impl_in_client(&simple::ImplInClientCall::LoginResult(1));
    assert_eq!(q.buffer, vec![11, 0, 0, 0, 1, 0, 0, 0]);
    let main_ids = encode_impl_in_server(&ImplInServerCall::HelloFromClient("a".to_string()));
    assert!(simple::decode_impl_in_server(main_ids).is_none());
}

#[test]
fn echo_protocol_round_trips() {
    let p = encode_echo_server(&EchoServerCall::Echo("some 中文 message".to_string()));
    match decode_echo_server(p) {
        Some(EchoServerCall::Echo(m)) => assert_eq!(m, "some 中文 message"),
        None => panic!("echo expected"),
    }
}
