use rcall::client::{ClientImpl, ClientServicesImpl};
use rcall::client_impl::{ClientSender, Message};
use rcall::echo::client::{EchoClientImpl, EchoClientServices};
use rcall::echo::protocols::{
    encode_echo_client, encode_echo_server, EchoClientCall, EchoClient_Remote, EchoServerCall,
    EchoServer_Remote,
};
use rcall::echo::server::EchoConnection;
use rcall::protocols::{
    encode_impl_in_client, encode_impl_in_server, ImplInClientCall, ImplInServerCall,
    ImplInServer_Remote,
};
use rcall::simple_server::protocols as simple;
use rcall::RpcDispatcher;
use tokio::sync::mpsc::{channel, Receiver};

#[derive(Debug, PartialEq)]
enum Sent {
    Bytes(Vec<u8>),
    Close,
}

fn sender() -> (ClientSender, Receiver<Message>) {
    let (tx, rx) = channel(64);
    (ClientSender::new(tx), rx)
}

fn drain(rx: &mut Receiver<Message>) -> Vec<Sent> {
    let mut out = Vec::new();
    while let Ok(m) = rx.try_recv() {
        match m {
            Message::SendPacket(p) => out.push(Sent::Bytes(p.buffer)),
            Message::Disconnect => out.push(Sent::Close),
            _ => panic!("unexpected message"),
        }
    }
    out
}

#[test]
fn demo_server_greets_and_answers_login() {
    let (s, mut rx) = sender();
    let _services = rcall::server::ServicesImpl::new();
    let mut conn = rcall::server::ConnectionImpl::new(rcall::server::ConnectionRemote::new(s));
    conn.dispatch_rpc(encode_impl_in_server(&ImplInServerCall::HelloFromClient("hi".to_string())));
    conn.dispatch_rpc(encode_impl_in_server(&ImplInServerCall::Login("a".to_string(), "b".to_string())));
    let expected = vec![
        Sent::Bytes(encode_impl_in_client(&ImplInClientCall::HelloFromServer("msg from server".to_string())).buffer),
        Sent::Bytes(encode_impl_in_client(&ImplInClientCall::LoginResult(1024)).buffer),
    ];
    assert_eq!(drain(&mut rx), expected);
}

#[test]
fn demo_client_logs_in_when_greeted() {
    let (s, mut rx) = sender();
    let mut services = ClientServicesImpl::new();
    let mut client = ClientImpl::new(ImplInServer_Remote::new(s));
    services.on_connected(&mut client);
    client.dispatch_rpc(encode_impl_in_client(&ImplInClientCall::HelloFromServer("x".to_string())));
    client.dispatch_rpc(encode_impl_in_client(&ImplInClientCall::LoginResult(1024)));
    let expected = vec![
        Sent::Bytes(encode_impl_in_server(&ImplInServerCall::HelloFromClient("msg from client!".to_string())).buffer),
        Sent::Bytes(encode_impl_in_server(&ImplInServerCall::Login("dennis".to_string(), "ding".to_string())).buffer),
    ];
    assert_eq!(drain(&mut rx), expected);
}

#[test]
fn simple_server_answers_on_its_ids() {
    let (s, mut rx) = sender();
    let _services = rcall::simple_server::server::ServicesImpl::new();
    let mut conn = rcall::simple_server::server::ConnectionImpl::new(simple::ImplInClient_Remote::new(s));
    conn.dispatch_rpc(simple::encode_impl_in_server(&simple::ImplInServerCall::Login("a".to_string(), "b".to_string())));
    conn.dispatch_rpc(encode_impl_in_server(&ImplInServerCall::Login("a".to_string(), "b".to_string())));
    assert_eq!(drain(&mut rx), vec![Sent::Bytes(vec![11, 0, 0, 0, 0, 4, 0, 0])]);
}

#[test]
fn echo_server_echoes_then_closes() {
    let (s, mut rx) = sender();
    let mut conn = EchoConnection { remote: EchoClient_Remote::new(s) };
    conn.dispatch_rpc(encode_echo_server(&EchoServerCall::Echo("ping".to_string())));
    assert_eq!(
        drain(&mut rx),
        vec![Sent::Bytes(encode_echo_client(&EchoClientCall::EchoBack("ping".to_string())).buffer), Sent::Close]
    );
}

#[test]
fn echo_client_sends_its_message() {
    let (s, mut rx) = sender();
    let mut services = EchoClientServices {};
    let mut client = EchoClientImpl { remote: EchoServer_Remote::new(s) };
    services.on_connected(&mut client);
    client.dispatch_rpc(encode_echo_client(&EchoClientCall::EchoBack("x".to_string())));
    assert_eq!(
        drain(&mut rx),
        vec![Sent::Bytes(encode_echo_server(&EchoServerCall::Echo("some 中文 message".to_string())).buffer)]
    );
}
