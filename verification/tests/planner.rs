use flip_link::SP_ALIGN;
use flip_link::elf::SectionRecord;
use flip_link::elf::compute_span_of_ram_sections;
use flip_link::layout::{RamWindow, plan_ram_window, round_down_to_nearest_multiple};
use flip_link::rewrite::rewrite_linker_script;
use flip_link::script::{MemoryEntry, find_ram_in_linker_script};

#[test]
fn round_down_examples() {
    assert_eq!(round_down_to_nearest_multiple(0x2001_0000, 8), 0x2001_0000);
    assert_eq!(round_down_to_nearest_multiple(0x2000_fff9, 8), 0x2000_fff8);
    assert_eq!(round_down_to_nearest_multiple(7, 8), 0);
    assert_eq!(round_down_to_nearest_multiple(0, 4), 0);
}

#[test]
fn planner_zero_usage_keeps_top_of_ram() {
    // region ORIGIN = 0x20000000, LENGTH = 64K; nothing uses it
    let end: u64 = 0x20000000 + 64 * 1024;
    let w = plan_ram_window(end, 0, 0, SP_ALIGN);
    assert_eq!(w.new_origin % SP_ALIGN, 0);
    assert_eq!(w.new_origin + w.new_length, 0x2001_0000);
}

#[test]
fn planner_respects_usage_span() {
    let end: u64 = 0x2001_0000;
    let used_length: u64 = 0x123;
    let used_align: u64 = 4;
    let w = plan_ram_window(end, used_length, used_align, SP_ALIGN);
    assert!(w.new_origin <= end - used_length);
    assert_eq!((end - w.new_origin) % used_align.max(SP_ALIGN), 0);
    assert_eq!(w.new_origin + w.new_length, end);
}

#[test]
fn span_of_sections_in_region() {
    let entry = MemoryEntry {
        line: 0,
        origin: 0x2000_0000,
        length: 0x1_0000,
    };
    let sections = vec![
        // allocated, inside the region
        SectionRecord { address: 0x2000_1000, size: 0x100, align: 4, elf_flags: Some(0x3) },
        // allocated, inside the region, higher up
        SectionRecord { address: 0x2000_3000, size: 0x20, align: 16, elf_flags: Some(0x2) },
        // not allocated: ignored
        SectionRecord { address: 0x2000_2000, size: 0x10, align: 32, elf_flags: Some(0x1) },
        // outside the region: ignored
        SectionRecord { address: 0x1000_0000, size: 0x10, align: 64, elf_flags: Some(0x2) },
        // not an ELF section: ignored
        SectionRecord { address: 0x2000_4000, size: 0x10, align: 128, elf_flags: None },
    ];
    let (used_length, used_align) = compute_span_of_ram_sections(entry, &sections);
    assert_eq!(used_length, 0x2000_3020 - 0x2000_1000);
    assert_eq!(used_align, 16);
}

#[test]
fn span_of_no_sections_is_zero() {
    let entry = MemoryEntry {
        line: 0,
        origin: 0x2000_0000,
        length: 0x1_0000,
    };
    let sections: Vec<SectionRecord> = Vec::new();
    assert_eq!(compute_span_of_ram_sections(entry, &sections), (0, 0));
}

#[test]
fn section_on_region_boundary_counts() {
    let entry = MemoryEntry {
        line: 0,
        origin: 0x2000_0000,
        length: 0x1000,
    };
    // spans the whole region, ending exactly on the inclusive bound
    let sections = vec![SectionRecord {
        address: 0x2000_0000,
        size: 0x1000,
        align: 8,
        elf_flags: Some(0x2),
    }];
    assert_eq!(compute_span_of_ram_sections(entry, &sections), (0x1000, 8));
}

#[test]
fn rewrite_replaces_only_matched_line() {
    let script = "MEMORY
{
  FLASH : ORIGIN = 0x00000000, LENGTH = 256K
  RAM : ORIGIN = 0x20000000, LENGTH = 64K
}
";
    let entry = find_ram_in_linker_script(script).unwrap();
    // an unchanged window: same origin, same length
    let w = RamWindow { new_origin: entry.origin, new_length: entry.length };
    let out = rewrite_linker_script(script, entry.line, w);
    assert_eq!(
        out,
        "MEMORY
{
  FLASH : ORIGIN = 0x00000000, LENGTH = 256K
  RAM : ORIGIN = 0x20000000, LENGTH = 65536
}
"
    );
}

#[test]
fn rewrite_formats_hex_origin_and_decimal_length() {
    let script = "RAM : ORIGIN = 0x20000000, LENGTH = 64K";
    let w = RamWindow { new_origin: 0x2000_ff00, new_length: 256 };
    let out = rewrite_linker_script(script, 0, w);
    assert_eq!(out, "  RAM : ORIGIN = 0x2000ff00, LENGTH = 256\n");
}

#[test]
fn rewrite_preserves_line_count_and_comments() {
    let script = "/* top */
MEMORY {
  RAM (xrw) : ORIGIN = 0x20000000, LENGTH = 128K /* tail */
}
/* bottom */
";
    let entry = find_ram_in_linker_script(script).unwrap();
    let w = RamWindow { new_origin: 0x2002_0000, new_length: 0 };
    let out = rewrite_linker_script(script, entry.line, w);
    let original_lines: Vec<&str> = script.lines().collect();
    let new_lines: Vec<&str> = out.lines().collect();
    assert_eq!(original_lines.len(), new_lines.len());
    for (i, line) in original_lines.iter().enumerate() {
        if i == entry.line {
            assert_eq!(new_lines[i], "  RAM : ORIGIN = 0x20020000, LENGTH = 0");
        } else {
            assert_eq!(&new_lines[i], line);
        }
    }
}
