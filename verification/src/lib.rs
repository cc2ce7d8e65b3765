//! Memory-layout re-flow for embedded firmware linking.
//!
//! The library understands just enough of a linker script to find the `RAM`
//! entry of its `MEMORY` block, measures how much of that region a linked ELF
//! actually uses, and computes a shrunk RAM window whose upper bound equals
//! the original region's upper bound.  Rewriting the script with that window
//! pushes statically allocated data to the top of RAM so that the stack,
//! placed immediately below, faults deterministically on overflow.

use vstd::prelude::*;

pub mod args;
pub mod elf;
pub mod expr;
pub mod layout;
pub mod locate;
pub mod pipeline;
pub mod rewrite;
pub mod script;
pub mod text;

verus! {

/// Stack-pointer alignment mandated by 32-bit ARM targets, the default
/// architecture this tool serves.  Callers targeting another architecture
/// pass their own alignment to the planner.
pub const SP_ALIGN: u64 = 8;

/// How a run of the tool's own logic can fail.  A linker failure is not
/// here: the caller propagates the linker's exit code unchanged.
#[derive(Clone, Copy, Debug, PartialEq, Eq, Structural)]
pub enum Error {
    /// A numeric expression did not follow the linker-script grammar.
    /// Inside the region scan this is recovered from by skipping the line.
    MalformedExpression,
    /// No scanned script declared a `RAM` region.
    RamNotFound,
    /// The `-o` output path was absent from the linker arguments.
    OutputPathNotFound,
    /// The linked program could not be read as an ELF object.
    ElfUnreadable,
    /// The `RAM` region's `ORIGIN + LENGTH` exceeds the 64-bit address space.
    RegionTooLarge,
}

} // verus!
