//! Verified core of a QMP multiplexer: the decisions that let many QMP clients
//! share one QEMU monitor socket, the registry of managed VMs, and the text
//! handling used by the management API and its demo clients.

pub mod text;
pub mod json;
pub mod qmp;
pub mod http;
pub mod demo;
pub mod registry;
pub mod manager;
pub mod sockets;
pub mod backend;
