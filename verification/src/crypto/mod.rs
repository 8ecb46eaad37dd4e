//! Keyed and unkeyed mixing primitives for proxy-source addresses.

pub mod mix;
pub mod nibble;
pub mod prince;
pub mod rotate;
pub mod siphash;

pub use mix::hash_ctx;
pub use mix::mix64;
pub use prince::m_prime;
pub use prince::prince_decrypt;
pub use prince::prince_encrypt;
pub use siphash::siphash_2_4;
