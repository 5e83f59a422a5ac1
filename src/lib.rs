//! A capability-based microkernel core for 64-bit RISC-V: frame tracking,
//! capability handles, Sv39 page tables, threads and their call stacks.

pub mod machine;
pub mod frame;
pub mod page;
pub mod table;
pub mod thread;
pub mod sync;
pub mod sbi;
pub mod boot;
pub mod ptr;
pub mod abi;
