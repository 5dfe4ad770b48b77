//! The decisions of an earlier form of the server, in which every packet is
//! handed to its connection's dispatcher under rpc id 1.
use vstd::prelude::*;
use crate::services_impl::ConnectionTable;
use crate::{ConnectId, RpcId};

verus! {

/// The rpc id under which this form of the server dispatches every packet.
pub const SERVICES_RPC_ID: RpcId = 1;

/// An event of this form of the server (packets travel beside it).
pub enum ServicesEvent {
    Accept,
    Quit,
    Connected(ConnectId),
    Disconnected(ConnectId),
    PacketReceived(ConnectId),
}

/// What the server does for one event.
pub enum ServicesAction {
    /// Record the new connection.
    AddConnection(ConnectId),
    /// Hand the packet to the connection's dispatcher under this rpc id.
    Dispatch(ConnectId, RpcId),
    /// Report a packet for an unknown connection.
    Report(ConnectId),
    /// Report an event it does not handle.
    Unhandled,
    /// Nothing to do.
    Ignore,
}

impl<V> ConnectionTable<V> {
    /// The action for one event.
    pub fn on_services_event(&self, ev: &ServicesEvent) -> (a: ServicesAction)
        ensures
            match *ev {
                ServicesEvent::Connected(id) => a == ServicesAction::AddConnection(id),
                ServicesEvent::PacketReceived(id) => if self@.contains_key(id) {
                    a == ServicesAction::Dispatch(id, SERVICES_RPC_ID)
                } else {
                    a == ServicesAction::Report(id)
                },
                ServicesEvent::Disconnected(_) => a == ServicesAction::Ignore,
                ServicesEvent::Accept => a == ServicesAction::Unhandled,
                ServicesEvent::Quit => a == ServicesAction::Unhandled,
            },
    {
        match ev {
            ServicesEvent::Connected(id) => ServicesAction::AddConnection(*id),
            ServicesEvent::PacketReceived(id) => {
                if self.contains(*id) {
                    ServicesAction::Dispatch(*id, SERVICES_RPC_ID)
                } else {
                    ServicesAction::Report(*id)
                }
            },
            ServicesEvent::Disconnected(_) => ServicesAction::Ignore,
            ServicesEvent::Accept => ServicesAction::Unhandled,
            ServicesEvent::Quit => ServicesAction::Unhandled,
        }
    }
}

} // verus!
