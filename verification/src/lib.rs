//! Process-event monitoring over the kernel's connector channel.
//!
//! The kernel multicasts process lifecycle notifications (fork, exec, exit,
//! coredump) as datagrams of back-to-back, length-prefixed sub-messages.
//! This crate holds the verified core: building the subscription request,
//! walking the framing inside one received datagram, and decoding each
//! sub-message into a typed event. The socket itself lives with the caller.

pub mod bytes;
pub mod decode;
pub mod framing;
pub mod listen;
pub mod monitor;
pub mod wire;
