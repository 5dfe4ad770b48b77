use rcall::client_impl::{ClientAction, ClientCore, ClientSender, Message};
use rcall::network::{ServicesAction, ServicesEvent};
use rcall::services_impl::{ConnectionInfo, Message as ServerMessage, ServerSender};
use rcall::Sender;
use rcall::protocols::{encode_impl_in_server, ImplInServerCall};
use rcall::packer::{Packet, PackTo};
use rcall::services_impl::{ConnectIdAllocator, ConnectionTable, ServerAction};
use rcall::protocols::ImplInClient;
use rcall::{RpcDispatcher, CONNECT_ID_BEGIN};

fn packet_with(v: i32) -> Packet {
    let mut p = Packet::new(0);
    v.pack_to(&mut p);
    p
}

#[test]
fn client_writes_only_while_connected() {
    let mut c = ClientCore::new();
    assert!(!c.should_poll());
    assert!(matches!(c.dispatch_message(Message::SendPacket(packet_with(1))), ClientAction::Ignore));
    c.on_connect();
    assert!(c.should_poll());
    match c.dispatch_message(Message::SendPacket(packet_with(1))) {
        ClientAction::Write(f) => {
            assert_eq!(f.header, vec![4, 0]);
            assert_eq!(f.body, vec![1, 0, 0, 0]);
        },
        _ => panic!("write expected"),
    }
    assert!(matches!(c.dispatch_message(Message::Disconnect), ClientAction::Close));
    assert!(!c.connected());
    assert!(matches!(c.dispatch_message(Message::SendPacket(packet_with(2))), ClientAction::Ignore));
}

#[test]
fn client_routes_events() {
    let mut c = ClientCore::new();
    c.on_connect();
    assert!(matches!(c.dispatch_message(Message::Connected), ClientAction::NotifyConnected));
    match c.dispatch_message(Message::ReceivePacket(packet_with(5))) {
        ClientAction::Dispatch(p) => assert_eq!(p.buffer, vec![5, 0, 0, 0]),
        _ => panic!("dispatch expected"),
    }
    assert!(matches!(c.dispatch_message(Message::Connect("127.0.0.1".to_string(), 999)), ClientAction::Ignore));
    assert!(c.connected());
    assert!(matches!(c.dispatch_message(Message::Disconnected), ClientAction::Close));
    assert!(!c.connected());
}

type Conn = rcall::server::ConnectionImpl<ClientSender>;

fn conn() -> (Conn, tokio::sync::mpsc::Receiver<Message>) {
    let (tx, rx) = tokio::sync::mpsc::channel(64);
    (rcall::server::ConnectionImpl::new(rcall::server::ConnectionRemote::new(ClientSender::new(tx))), rx)
}

fn hello() -> Packet {
    encode_impl_in_server(&ImplInServerCall::HelloFromClient("hi".to_string()))
}

fn answered(rx: &mut tokio::sync::mpsc::Receiver<Message>) -> usize {
    let mut n = 0;
    while let Ok(Message::SendPacket(_)) = rx.try_recv() {
        n += 1;
    }
    n
}

#[test]
fn server_routes_packets_by_connection() {
    let mut table: ConnectionTable<Conn> = ConnectionTable::new();
    let (c, mut rx) = conn();
    assert!(!table.contains(100));
    assert!(!table.on_receive_packet(100, hello()));
    table.on_connected(100, c);
    assert!(table.contains(100));
    assert!(table.on_receive_packet(100, hello()));
    assert!(!table.on_receive_packet(101, hello()));
    assert_eq!(answered(&mut rx), 1);
    assert!(table.get(101).is_none());
    assert!(table.get(100).is_some());
}

#[test]
fn server_frames_packets_for_known_connections() {
    let mut table: ConnectionTable<Conn> = ConnectionTable::new();
    assert!(table.on_send_packet(7, packet_with(3)).is_none());
    table.on_connected(7, conn().0);
    let f = table.on_send_packet(7, packet_with(3)).unwrap();
    assert_eq!(f.header, vec![4, 0]);
    assert_eq!(f.body, vec![3, 0, 0, 0]);
}

#[test]
fn connection_ids_count_up_from_the_start() {
    let mut a = ConnectIdAllocator::new();
    assert!(a.has_next());
    assert_eq!(a.allocate(), CONNECT_ID_BEGIN);
    assert_eq!(a.allocate(), 101);
    assert_eq!(a.allocate(), 102);
}

#[test]
fn closing_a_connection_takes_it_out() {
    let mut table: ConnectionTable<Conn> = ConnectionTable::new();
    table.on_connected(5, conn().0);
    assert!(table.on_close(5).is_some());
    assert!(!table.contains(5));
    assert!(table.on_close(5).is_none());
    assert!(!table.on_receive_packet(5, packet_with(1)));
}

#[test]
fn connection_info_hands_packets_to_its_dispatcher() {
    let (c, mut rx) = conn();
    let mut info = ConnectionInfo::new("peer", c);
    info.dispatch_rpc(hello());
    assert_eq!(info.connection, "peer");
    assert_eq!(answered(&mut rx), 1);
}

#[test]
fn senders_put_messages_on_their_channel() {
    let (tx, mut rx) = tokio::sync::mpsc::channel::<ServerMessage<()>>(8);
    let mut s = ServerSender::new(7, tx);
    s.send(packet_with(1024));
    s.close();
    match rx.try_recv() {
        Ok(ServerMessage::SendPacket(id, p)) => {
            assert_eq!(id, 7);
            assert_eq!(p.buffer, vec![0, 4, 0, 0]);
        },
        _ => panic!("send expected"),
    }
    assert!(matches!(rx.try_recv(), Ok(ServerMessage::Close(7))));

    let (ctx, mut crx) = tokio::sync::mpsc::channel::<Message>(8);
    let mut c = ClientSender::new(ctx);
    c.send(packet_with(3));
    c.close();
    assert!(matches!(crx.try_recv(), Ok(Message::SendPacket(_))));
    assert!(matches!(crx.try_recv(), Ok(Message::Disconnect)));
}

#[test]
fn earlier_server_dispatches_known_connections_under_id_one() {
    let mut table: ConnectionTable<Conn> = ConnectionTable::new();
    table.on_connected(100, conn().0);
    assert!(matches!(table.on_services_event(&ServicesEvent::Connected(3)), ServicesAction::AddConnection(3)));
    assert!(matches!(table.on_services_event(&ServicesEvent::PacketReceived(100)), ServicesAction::Dispatch(100, 1)));
    assert!(matches!(table.on_services_event(&ServicesEvent::PacketReceived(101)), ServicesAction::Report(101)));
    assert!(matches!(table.on_services_event(&ServicesEvent::Disconnected(100)), ServicesAction::Ignore));
    assert!(matches!(table.on_services_event(&ServicesEvent::Quit), ServicesAction::Unhandled));
}

#[test]
fn login_result_goes_to_its_own_connection() {
    let (tx, mut rx) = tokio::sync::mpsc::channel::<ServerMessage<()>>(8);
    let mut r = rcall::server::ConnectionRemote::new(ServerSender::new(7, tx));
    r.login_result(1024);
    match rx.try_recv() {
        Ok(ServerMessage::SendPacket(id, q)) => {
            assert_eq!(id, 7);
            assert_eq!(q.buffer, [2_i32.to_le_bytes(), 1024_i32.to_le_bytes()].concat());
        },
        _ => panic!("send expected"),
    }
    assert!(rx.try_recv().is_err());
}

#[test]
fn server_routes_each_event() {
    type M = ServerMessage<&'static str>;
    let mut table: ConnectionTable<Conn> = ConnectionTable::new();
    let (c, mut rx) = conn();
    table.on_connected(100, c);
    assert!(matches!(table.dispatch_message(M::Connected("peer")), ServerAction::Accept("peer")));
    assert!(matches!(table.dispatch_message(M::ReceivePacket(100, hello())), ServerAction::Dispatched));
    assert_eq!(answered(&mut rx), 1);
    assert!(matches!(table.dispatch_message(M::ReceivePacket(5, hello())), ServerAction::UnknownConnection(5)));
    match table.dispatch_message(M::SendPacket(100, packet_with(9))) {
        ServerAction::Write(id, f) => {
            assert_eq!(id, 100);
            assert_eq!(f.header, vec![4, 0]);
            assert_eq!(f.body, vec![9, 0, 0, 0]);
        },
        _ => panic!("write expected"),
    }
    assert!(matches!(table.dispatch_message(M::SendPacket(5, packet_with(9))), ServerAction::Ignore));
    assert!(matches!(table.dispatch_message(M::Disconnected(100)), ServerAction::Lost(100)));
    assert!(table.contains(100));
    assert!(matches!(table.dispatch_message(M::Close(100)), ServerAction::Closed(_)));
    assert!(!table.contains(100));
    assert!(matches!(table.dispatch_message(M::Close(100)), ServerAction::Ignore));
}
