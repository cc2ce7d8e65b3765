//! RAM usage scanner: measures the span and alignment of the allocated
//! ELF sections that fall inside the RAM region.
//!
//! The ELF itself is read by the `object` crate behind a trusted wrapper
//! that reduces every section to a plain record of address, size,
//! alignment and flags; all the measuring logic is verified over those
//! records.

use vstd::prelude::*;

use object::{Object, ObjectSection};

use crate::Error;
use crate::script::MemoryEntry;

verus! {

/// The `SHF_ALLOC` ELF section flag: the section occupies memory at run
/// time.
pub const SHF_ALLOC: u64 = 2;

/// What the scanner reads of one ELF section.
#[derive(Clone, Copy, Debug)]
pub struct SectionRecord {
    pub address: u64,
    pub size: u64,
    pub align: u64,
    /// `sh_flags` of an ELF section; `None` for a non-ELF object's section.
    pub elf_flags: Option<u64>,
}

/// The sections of the ELF image with the given bytes, as the `object`
/// crate reports them, in section-table order; `None` when the bytes do
/// not parse as an object file.  A function of the bytes alone.
pub uninterp spec fn elf_sections_of(data: Seq<u8>) -> Option<Seq<SectionRecord>>;

/// A section counts toward RAM usage when it is flagged allocated and its
/// whole `[address, address + size]` range lies inside the region's
/// inclusive span `[origin, end]`.
pub open spec fn section_qualifies(origin: u64, end: int, s: SectionRecord) -> bool {
    &&& s.elf_flags matches Some(f) && f & SHF_ALLOC != 0
    &&& origin <= s.address
    &&& s.address + s.size <= end
}

/// Scanner state: lowest used address, highest used end, largest
/// alignment, and whether any section qualified yet.
pub open spec fn section_step(origin: u64, end: int, st: (int, int, int, bool), s: SectionRecord) -> (
    int,
    int,
    int,
    bool,
) {
    if section_qualifies(origin, end, s) {
        (
            if st.0 < s.address {
                st.0
            } else {
                s.address as int
            },
            if st.1 > s.address + s.size {
                st.1
            } else {
                s.address + s.size
            },
            if st.2 > s.align {
                st.2
            } else {
                s.align as int
            },
            true,
        )
    } else {
        st
    }
}

pub open spec fn span_scan(
    ss: Seq<SectionRecord>,
    origin: u64,
    end: int,
    i: int,
    st: (int, int, int, bool),
) -> (int, int, int, bool)
    decreases ss.len() - i,
{
    if !(0 <= i < ss.len()) {
        st
    } else {
        span_scan(ss, origin, end, i + 1, section_step(origin, end, st, ss[i]))
    }
}

/// `(used_length, used_alignment)` of a section list for the region
/// `[origin, end]`: the union span of the qualifying sections and their
/// largest alignment, or `(0, 0)` when none qualifies.
pub open spec fn span_of(ss: Seq<SectionRecord>, origin: u64, end: int) -> (u64, u64) {
    let st = span_scan(ss, origin, end, 0, (u64::MAX as int, 0int, 0int, false));
    if st.3 {
        ((st.1 - st.0) as u64, st.2 as u64)
    } else {
        (0u64, st.2 as u64)
    }
}

/// The scanner's state stays within the region: once a section has
/// qualified, the tracked span sits inside `[origin, end]`.
proof fn lemma_span_scan_bounds(
    ss: Seq<SectionRecord>,
    origin: u64,
    end: int,
    i: int,
    st: (int, int, int, bool),
)
    requires
        origin <= end <= u64::MAX,
        st.3 ==> origin <= st.0 <= st.1 <= end,
        !st.3 ==> st == (u64::MAX as int, 0int, 0int, false),
        0 <= st.2 <= u64::MAX,
    ensures
        span_scan(ss, origin, end, i, st).3 ==> origin <= span_scan(ss, origin, end, i, st).0
            <= span_scan(ss, origin, end, i, st).1 <= end,
        !span_scan(ss, origin, end, i, st).3 ==> span_scan(ss, origin, end, i, st) == (
            u64::MAX as int,
            0int,
            0int,
            false,
        ),
        0 <= span_scan(ss, origin, end, i, st).2 <= u64::MAX,
    decreases ss.len() - i,
{
    if 0 <= i < ss.len() {
        lemma_span_scan_bounds(ss, origin, end, i + 1, section_step(origin, end, st, ss[i]));
    }
}

/// The measured usage fits the region: the span is never longer than the
/// region, and the alignment is a machine word.
pub proof fn lemma_span_of_bounds(ss: Seq<SectionRecord>, origin: u64, end: int)
    requires
        origin <= end <= u64::MAX,
    ensures
        0 <= span_of(ss, origin, end).0 <= end - origin,
        0 <= span_of(ss, origin, end).1 <= u64::MAX,
{
    lemma_span_scan_bounds(ss, origin, end, 0, (u64::MAX as int, 0int, 0int, false));
}

/// Returns `(used_length, used_alignment)` for the sections that qualify
/// for the region: the union of their address ranges and the maximum of
/// their alignments.  With no qualifying section the result is `(0, 0)` —
/// nothing uses this RAM, and the planned window will just honor the
/// stack alignment.
pub fn compute_span_of_ram_sections(ram_entry: MemoryEntry, sections: &Vec<SectionRecord>) -> (r: (
    u64,
    u64,
))
    requires
        ram_entry.origin + ram_entry.length <= u64::MAX,
    ensures
        r == span_of(sections@, ram_entry.origin, ram_entry.origin + ram_entry.length),
{
    let origin = ram_entry.origin;
    let end = ram_entry.end();
    let ghost e = ram_entry.origin + ram_entry.length;
    let mut used_start: u64 = u64::MAX;
    let mut used_end: u64 = 0;
    let mut used_align: u64 = 0;
    let mut found: bool = false;
    let n = sections.len();
    let mut i: usize = 0;
    while i < n
        invariant
            n == sections@.len(),
            0 <= i <= n,
            end == e,
            origin == ram_entry.origin,
            e <= u64::MAX,
            found ==> used_start <= used_end,
            span_scan(sections@, origin, e, 0, (u64::MAX as int, 0int, 0int, false)) == span_scan(
                sections@,
                origin,
                e,
                i as int,
                (used_start as int, used_end as int, used_align as int, found),
            ),
        decreases n - i,
    {
        let s = *(&sections[i]);
        let qualifies: bool = match s.elf_flags {
            Some(f) => (f & SHF_ALLOC) != 0 && origin <= s.address && s.address <= end && end
                - s.address >= s.size,
            None => false,
        };
        if qualifies {
            found = true;
            let s_end = s.address + s.size;
            if used_align < s.align {
                used_align = s.align;
            }
            if used_start > s.address {
                used_start = s.address;
            }
            if used_end < s_end {
                used_end = s_end;
            }
        }
        i = i + 1;
    }
    if found {
        (used_end - used_start, used_align)
    } else {
        (0, used_align)
    }
}

/// Relies on `object::File::parse` and the `ObjectSection` accessors
/// `address`, `size`, `align` and `flags`: reads the section table of an
/// ELF image into plain records, one per section, in table order.
#[verifier::external_body]
fn parse_elf_sections(data: &Vec<u8>) -> (r: Option<Vec<SectionRecord>>)
    ensures
        r matches Some(v) ==> elf_sections_of(data@) == Some(v@),
        r is None ==> elf_sections_of(data@) == None::<Seq<SectionRecord>>,
{
    let file = match object::File::parse(data.as_slice()) {
        Ok(f) => f,
        Err(_) => return None,
    };
    let mut out = Vec::new();
    for s in file.sections() {
        let elf_flags = match s.flags() {
            object::SectionFlags::Elf { sh_flags, .. } => Some(sh_flags.0),
            _ => None,
        };
        out.push(SectionRecord { address: s.address(), size: s.size(), align: s.align(), elf_flags });
    }
    Some(out)
}

/// Measures RAM usage straight from the bytes of a linked ELF: parses the
/// section table and folds the qualifying sections into
/// `(used_length, used_alignment)`.
pub fn scan_elf_ram_usage(elf: &Vec<u8>, ram_entry: MemoryEntry) -> (r: Result<(u64, u64), Error>)
    requires
        ram_entry.origin + ram_entry.length <= u64::MAX,
    ensures
        elf_sections_of(elf@) matches Some(ss) ==> r == Ok::<(u64, u64), Error>(
            span_of(ss, ram_entry.origin, ram_entry.origin + ram_entry.length),
        ),
        elf_sections_of(elf@) is None ==> r == Err::<(u64, u64), Error>(Error::ElfUnreadable),
{
    match parse_elf_sections(elf) {
        None => Err(Error::ElfUnreadable),
        Some(sections) => Ok(compute_span_of_ram_sections(ram_entry, &sections)),
    }
}

} // verus!
