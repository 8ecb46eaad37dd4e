//! Addressing, obfuscation and packet rules of an IPv6 NAT66 proxy that answers
//! DNS queries with synthetic addresses and carries its reply routing state in
//! the source addresses it sends from.

pub mod address;
pub mod bytes;
pub mod constants;
pub mod contract;
pub mod crypto;
pub mod daemon;
pub mod dataplane;
pub mod dns;
pub mod inspect;
pub mod keys;
pub mod numbers;
pub mod proxy_src;
pub mod text;
pub mod types;
