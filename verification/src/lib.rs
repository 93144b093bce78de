//! A Wayland socket proxy's core: the wire format, the rules by which messages are
//! rewritten or dropped, and the decisions of the relays and of the server.
pub mod cli;
pub mod config;
pub mod connection;
pub mod context;
pub mod filter_laws;
pub mod interfaces;
pub mod laws;
pub mod proto;
pub mod relay;
pub mod relay_laws;
pub mod remarks;
pub mod server;
pub mod server_laws;
pub mod session;
pub mod text;
pub mod text_laws;
pub mod view_laws;
pub mod wire_laws;

pub use config::Args;
pub use connection::ObjType;
pub use server::{run, run_with_stop};
pub use session::handle_connection;
