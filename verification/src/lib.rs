//! Verified core of a LAN-first peer-to-peer file transfer protocol:
//! device identity, handshake, chunk framing, transfer sessions,
//! large-file checkpoints, NAT route planning and the offline LAN policy.

pub mod crypto;
pub mod discovery;
pub mod framing;
pub mod handshake;
pub mod identity;
pub mod installer;
pub mod lan;
pub mod large_file;
pub mod net;
pub mod routing;
pub mod scenarios;
pub mod session;
pub mod telemetry;
pub mod ui;
pub mod wire;
