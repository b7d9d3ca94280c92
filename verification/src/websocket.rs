//! The WebSocket protocol engine: frame codec, message reassembly, the
//! keepalive and close state machine, and the opening handshake.

pub mod error;
pub mod frame;
pub mod handshake;
pub mod opcode;
pub mod state;

pub use self::error::Error;
pub use self::opcode::Opcode;
pub use self::frame::{receive_packet, send_packet, Packet};
pub use self::handshake::WebSocketHandshakeMiddleware;
pub use self::state::{Action, Event, Outcome, Step, WebSocketState};
