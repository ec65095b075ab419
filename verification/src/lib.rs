//! **bino**: the core of an interpreter for a one-instruction machine.
//!
//! The machine's only operation copies one byte from one address to another
//! and then jumps. Addresses below [`MAP_START`] index main memory; addresses
//! from [`MAP_START`] on index a mapped region that holds a disk request, a
//! framebuffer and a keyboard snapshot. The host drives the machine with
//! events and performs the actions it asks for: the core itself touches no
//! window and no file.

use vstd::prelude::*;

pub mod address;
pub mod disk;
pub mod keyboard;
pub mod machine;
pub mod mapped;
pub mod memory;
pub mod word;

verus! {

/// A machine word.
#[allow(non_camel_case_types)]
pub type uxsize = u64;

/// A signed machine word.
#[allow(non_camel_case_types)]
pub type ixsize = i64;

/// Number of bytes in a machine word.
pub const X_SIZE: usize = 8;

/// First address of the mapped region.
pub const MAP_START: uxsize = 0xFFFF_FFFF_0000_0000;

/// Number of bytes in the keyboard snapshot.
pub const KMAP_SIZE: usize = 16;

/// Number of bytes that a transfer from main memory to the disk moves.
pub const SECTOR_SIZE: usize = 512;

/// Width of the display in pixels, where none is asked for.
pub const DEFAULT_WIDTH: usize = 600;

/// Height of the display in pixels, where none is asked for.
pub const DEFAULT_HEIGHT: usize = 400;

} // verus!
