//! What happens to a packet on its way through the proxy.
//!
//! Every function here takes the bytes of a packet and what the kernel maps hold, and
//! says what is to be done. Nothing is written to a packet or a map here.

pub mod laws;
pub mod packet;
pub mod plan;
pub mod tc_ingress;
pub mod tc_ingress_wan;
pub mod wire_laws;
pub mod xdp_wan;
