//! Architecture-neutral virtual-address-space (paging) engine.
//!
//! The crate models hardware multi-level page tables for four 64-bit
//! instruction set architectures behind one generic interface: each
//! backend in [`imp`] encodes and decodes raw page-table-entry words,
//! while the engine in [`vspace`] walks, builds, queries and tears down
//! the table tree, drawing table pages from an injected frame-allocator
//! capability.
//!
//! The engine owns the table tree and nothing else.  Installing a root
//! in the translation register, invalidating TLB entries after a
//! mapping changes — core-local or across cores — and serialising
//! concurrent use of one address space are the embedding kernel's job:
//! the engine holds no lock and issues no instruction.

pub mod addr;
pub mod consts;
pub mod flags;
pub mod frame;
pub mod imp;
pub mod paging;
pub mod vspace;
