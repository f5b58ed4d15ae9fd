//! A simulated IPv4 router hop: packets travelling between two virtual links have their
//! time-to-live decremented, and packets whose time-to-live is exhausted are discarded.

pub mod packet;
pub mod plug;
pub mod hop;
