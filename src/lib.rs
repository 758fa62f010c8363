//! A TCP port scanner for IPv4 hosts: SYN probe frames, reply classification,
//! the probe's retry state machine and the port sweep plan.

pub mod args;
pub mod error;
pub mod interface;
pub mod logger;
pub mod packet;
pub mod port;
pub mod report;
pub mod resolver;
pub mod scan;
pub mod syn;
pub mod wire;
