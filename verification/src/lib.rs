//! A client library for a push-based gateway protocol: the envelope
//! codec, the heartbeat state machine, the identify handshake, bounded
//! and unbounded channel models, and dispatch-based event routing for a
//! persistent message-stream connection.

pub mod codec;
pub mod connection;
pub mod data;
pub mod digits;
pub mod envelope;
pub mod heartbeat;
pub mod json;
pub mod opcode;
pub mod queue;
pub mod router;
pub mod sendable;
pub mod text;

pub use codec::{decode, encode, DecodeError};
pub use connection::{check_upgrade_status, on_frame, ConnectError, ConnectionRun, ReadStep};
pub use envelope::{GatewayPayload, GatewayPayloadData, IdentifyProperties};
pub use heartbeat::{HeartbeatScheduler, HeartbeatState};
pub use json::JsonValue;
pub use opcode::GatewayOpCodes;
pub use queue::{InboundQueue, OutboundQueue};
pub use router::{route, RouterAction, RouterConfig};
pub use sendable::{create_heartbeat_message, create_identify_message, create_message_body, IdentifyTask};
