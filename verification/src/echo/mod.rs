pub mod protocols;
pub mod client;
pub mod server;
