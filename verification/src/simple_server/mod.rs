pub mod protocols;
pub mod server;
