//! The core of a WebSocket server: the handshake of RFC 6455 and the
//! bookkeeping of a readiness-driven reactor, without the sockets.
//!
//! `accept_key` derives the accept value from a client's key. `headers` and
//! `codec` collect the headers of the request. `client` is the state machine
//! of one connection, `server` the registry of connections and the
//! decisions of the reactor, and `readiness` what the two say to the poller.

pub mod accept_key;
pub mod client;
pub mod codec;
pub mod headers;
pub mod readiness;
pub mod server;

pub use accept_key::gen_key;
pub use client::{ClientState, ConnectionError, SocketRead, SocketWrite, Step, WebSocketClient};
pub use codec::{HandshakeCodec, HttpParser, ParseOutcome};
pub use headers::HeaderMap;
pub use readiness::{Registration, SERVER_TOKEN};
pub use server::{AcceptError, Dispatch, Incoming, NotFound, Plan, WebSocketServer};
