//! Linux kernel personality policy: descriptor tables, memory mappings,
//! io_uring rings and packet sockets as pure, bounded state machines.

pub mod allocation;
pub mod checks;
pub mod counting;
pub mod fd;
pub mod io_uring;
pub mod mm;
pub mod packet;
pub mod powers;
mod sharing;
pub mod slots;
