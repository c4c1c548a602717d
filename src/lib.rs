//! Host-side supervision of a VM-sandboxed task executor: the startup
//! adapter identity, the model of captured process output, the per-process
//! notification registry, the guest control-session rules and the virtual
//! ARP/ICMP responder.

pub mod ib;
pub mod notify;
pub mod output;
pub mod packet;
pub mod relay;
pub mod session;
pub mod wire;
