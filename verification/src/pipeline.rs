//! The planning pipeline: from a script's text and a linked ELF's bytes
//! to the rewritten script and the new stack start.
//!
//! The caller (which owns all I/O) reads the script and the ELF, calls
//! `plan_relink`, writes the returned script into a fresh directory and
//! re-links with `_stack_start` forced to `new_origin`.  Everything the
//! plan contains is a function of the inputs, which makes a rerun on
//! unchanged inputs reproduce it bit for bit.

use vstd::prelude::*;

use crate::Error;
use crate::elf::{SectionRecord, elf_sections_of, span_of, scan_elf_ram_usage,
    lemma_span_of_bounds};
use crate::layout::{RamWindow, spec_round_down, spec_max, plan_ram_window};
use crate::rewrite::{rewrite_spec, rewrite_linker_script};
use crate::script::{find_ram_spec, find_ram_in_linker_script, MemoryEntry};

verus! {

/// The outcome of planning: the rewritten script text and the planned
/// window, whose origin is also the forced `_stack_start` value.
pub struct RelinkPlan {
    pub script_text: String,
    pub new_origin: u64,
    pub new_length: u64,
}

/// The planned window for a region and a section list, by the layout
/// formula.
pub open spec fn window_spec(origin: u64, length: u64, sections: Seq<SectionRecord>, stack_align: u64) -> RamWindow {
    let end = (origin + length) as u64;
    let usage = span_of(sections, origin, origin + length);
    let new_origin = spec_round_down(end - usage.0, spec_max(usage.1, stack_align)) as u64;
    RamWindow { new_origin, new_length: (end - new_origin) as u64 }
}

/// What planning yields for given inputs: the rewritten script and the
/// window, or the error naming what was missing or out of range.
pub open spec fn plan_spec(
    script: Seq<char>,
    sections: Option<Seq<SectionRecord>>,
    stack_align: u64,
) -> Result<(Seq<char>, u64, u64), Error> {
    match find_ram_spec(script) {
        None => Err(Error::RamNotFound),
        Some((line, origin, length)) => {
            if origin + length > u64::MAX {
                Err(Error::RegionTooLarge)
            } else {
                match sections {
                    None => Err(Error::ElfUnreadable),
                    Some(ss) => {
                        let w = window_spec(origin, length, ss, stack_align);
                        Ok((rewrite_spec(script, line, w), w.new_origin, w.new_length))
                    },
                }
            }
        },
    }
}

/// Plans the relink for a script and the linked ELF's bytes: finds the
/// `RAM` region, measures its use, shrinks it, and produces the
/// rewritten script.  Errs when no `RAM` entry exists anywhere in the
/// script, when the region overflows the address space, or when the ELF
/// cannot be parsed — and in no other case.
pub fn plan_relink(script: &str, elf: &Vec<u8>, stack_align: u64) -> (r: Result<RelinkPlan, Error>)
    requires
        stack_align > 0,
    ensures
        r matches Ok(p) ==> plan_spec(script@, elf_sections_of(elf@), stack_align) == Ok::<
            (Seq<char>, u64, u64),
            Error,
        >((p.script_text@, p.new_origin, p.new_length)),
        r matches Err(e) ==> plan_spec(script@, elf_sections_of(elf@), stack_align) == Err::<
            (Seq<char>, u64, u64),
            Error,
        >(e),
{
    let entry: MemoryEntry = match find_ram_in_linker_script(script) {
        None => {
            return Err(Error::RamNotFound);
        },
        Some(e) => e,
    };
    if entry.length > u64::MAX - entry.origin {
        return Err(Error::RegionTooLarge);
    }
    let usage = match scan_elf_ram_usage(elf, entry) {
        Err(e) => {
            return Err(e);
        },
        Ok(u) => u,
    };
    let (used_length, used_align) = usage;
    let end = entry.end();
    proof {
        lemma_span_of_bounds(
            elf_sections_of(elf@)->Some_0,
            entry.origin,
            entry.origin + entry.length,
        );
    }
    let w = plan_ram_window(end, used_length, used_align, stack_align);
    let text = rewrite_linker_script(script, entry.line, w);
    Ok(RelinkPlan { script_text: text, new_origin: w.new_origin, new_length: w.new_length })
}

/// Planning is a function of its inputs alone: two runs over the same
/// script text, the same ELF sections and the same stack alignment yield
/// the same rewritten script and the same window, bit for bit.
pub proof fn lemma_plan_deterministic(
    script: Seq<char>,
    sections: Option<Seq<SectionRecord>>,
    stack_align: u64,
    r1: Result<(Seq<char>, u64, u64), Error>,
    r2: Result<(Seq<char>, u64, u64), Error>,
)
    requires
        r1 == plan_spec(script, sections, stack_align),
        r2 == plan_spec(script, sections, stack_align),
    ensures
        r1 == r2,
{
}

/// A successful plan always keeps the region's upper bound: the new
/// window ends exactly where the declared region ends, its origin is a
/// multiple of the effective alignment, and it is big enough for the
/// measured usage.
pub proof fn lemma_plan_window_invariants(
    origin: u64,
    length: u64,
    sections: Seq<SectionRecord>,
    stack_align: u64,
)
    requires
        origin + length <= u64::MAX,
        stack_align > 0,
    ensures
        ({
            let w = window_spec(origin, length, sections, stack_align);
            let usage = span_of(sections, origin, origin + length);
            &&& w.new_origin + w.new_length == origin + length
            &&& w.new_origin <= origin + length - usage.0
            &&& w.new_origin % spec_max(usage.1, stack_align) == 0
        }),
{
    let usage = span_of(sections, origin, origin + length);
    lemma_span_of_bounds(sections, origin, origin + length);
    let end = (origin + length) as u64;
    let w = window_spec(origin, length, sections, stack_align);
    crate::layout::lemma_round_down_props(
        end - usage.0,
        spec_max(usage.1, stack_align) as int,
    );
}

} // verus!
