//! The core of a schema-in-code RPC runtime: the wire envelope, the client-side
//! request multiplexer and the server-side request dispatcher, written as state
//! machines whose transitions are proved against their mathematical models.

pub mod client;
pub mod client_endpoint;
pub mod client_history;
pub mod connection;
pub mod context;
pub mod envelope;
pub mod errors;
pub mod queue;
pub mod server;
pub mod server_endpoint;
pub mod server_history;
pub mod table;
pub mod util;

pub use context::Context;
pub use context::TraceId;
pub use errors::native_to_io;
pub use errors::Error;
pub use errors::IoError;
pub use errors::IoErrorKind;
pub use errors::TlsError;
pub use errors::WireError;
