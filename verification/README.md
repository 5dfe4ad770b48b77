# rcall

A single-threaded RPC framework. The verified library (`src/`) holds:

- `packer`: packets and the packing of integers and texts into them, with the
  exact byte format and the laws that reading gives back what was packed;
- `wire`: little-endian encoding of unsigned values;
- `transport`: the length header in front of each packet on a stream;
- `protocols`, `simple_server::protocols`, `echo::protocols`: the codecs,
  remotes and dispatchers of the protocols, with their round-trip laws;
- `client_impl`, `services_impl`: the decisions of the client and server event
  loops (which action for which event, the table of connections, connection ids)
  and the senders that put a connection's calls on its event channel, each
  message naming the connection it is for;
- `network`: the decisions of an earlier form of the server;
- `channel`: the sending end of a tokio channel, with a ghost record of the
  messages offered to it (the one tokio call the library makes);
- `server`, `client`, `simple_server::server`, `echo::{client, server}`: the demo
  services and handlers, with what each sends in answer to what.

`app/` is the runtime around it: tokio channels and sockets, the event loops
that carry out the library's decisions, floats, and the demo programs.
