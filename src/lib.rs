//! A concurrent ICMP echo prober: frame construction and reply parsing,
//! a pool of reusable send slots, and the table that matches replies to
//! the requests waiting for them.

pub mod error;
pub mod checksum;
pub mod codec;
pub mod pool;
pub mod table;
pub mod prober;
