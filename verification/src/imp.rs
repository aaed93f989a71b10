//! One paging backend per instruction set architecture.  Each module
//! fixes the raw bit layout of its page-table entries and implements
//! [`crate::paging::PagingArch`] for the generic engine.

pub mod aarch64;
pub mod loongarch64;
pub mod riscv64;
pub mod x86_64;
