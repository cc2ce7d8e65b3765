use flip_link::Error;
use flip_link::SP_ALIGN;
use flip_link::args::{get_output_path, get_search_paths, get_search_targets};
use flip_link::locate::{LinkerScript, Locator};
use flip_link::pipeline::plan_relink;

fn push_u16(out: &mut Vec<u8>, v: u16) {
    out.extend_from_slice(&v.to_le_bytes());
}

fn push_u32(out: &mut Vec<u8>, v: u32) {
    out.extend_from_slice(&v.to_le_bytes());
}

fn push_u64(out: &mut Vec<u8>, v: u64) {
    out.extend_from_slice(&v.to_le_bytes());
}

/// A minimal little-endian ELF64 image: a null section, one `PROGBITS`
/// section per `(addr, size, align, flags)` entry given, and the section
/// name string table that the reader requires.
fn build_elf(sections: &[(u64, u64, u64, u64)]) -> Vec<u8> {
    let shnum = sections.len() as u16 + 2;
    let strtab_offset = 64 + 64 * shnum as u64;
    let mut out = Vec::new();
    // ELF header
    out.extend_from_slice(&[0x7f, b'E', b'L', b'F', 2, 1, 1, 0]);
    out.extend_from_slice(&[0u8; 8]);
    push_u16(&mut out, 2); // e_type = EXEC
    push_u16(&mut out, 0x28); // e_machine = ARM
    push_u32(&mut out, 1); // e_version
    push_u64(&mut out, 0); // e_entry
    push_u64(&mut out, 0); // e_phoff
    push_u64(&mut out, 64); // e_shoff: section headers follow the header
    push_u32(&mut out, 0); // e_flags
    push_u16(&mut out, 64); // e_ehsize
    push_u16(&mut out, 0); // e_phentsize
    push_u16(&mut out, 0); // e_phnum
    push_u16(&mut out, 64); // e_shentsize
    push_u16(&mut out, shnum);
    push_u16(&mut out, shnum - 1); // e_shstrndx: the last section
    assert_eq!(out.len(), 64);
    // null section header
    out.extend_from_slice(&[0u8; 64]);
    for &(addr, size, align, flags) in sections {
        push_u32(&mut out, 0); // sh_name
        push_u32(&mut out, 1); // sh_type = PROGBITS
        push_u64(&mut out, flags); // sh_flags
        push_u64(&mut out, addr); // sh_addr
        push_u64(&mut out, 0); // sh_offset
        push_u64(&mut out, size); // sh_size
        push_u32(&mut out, 0); // sh_link
        push_u32(&mut out, 0); // sh_info
        push_u64(&mut out, align); // sh_addralign
        push_u64(&mut out, 0); // sh_entsize
    }
    // .shstrtab: a single NUL, so every sh_name of 0 is the empty name
    push_u32(&mut out, 0); // sh_name
    push_u32(&mut out, 3); // sh_type = STRTAB
    push_u64(&mut out, 0); // sh_flags
    push_u64(&mut out, 0); // sh_addr
    push_u64(&mut out, strtab_offset); // sh_offset
    push_u64(&mut out, 1); // sh_size
    push_u32(&mut out, 0); // sh_link
    push_u32(&mut out, 0); // sh_info
    push_u64(&mut out, 1); // sh_addralign
    push_u64(&mut out, 0); // sh_entsize
    out.push(0);
    out
}

const SCRIPT: &str = "MEMORY
{
  FLASH : ORIGIN = 0x00000000, LENGTH = 256K
  RAM : ORIGIN = 0x20000000, LENGTH = 64K
}
";

#[test]
fn plan_with_used_ram_shrinks_region() {
    // one allocated section of 0x100 bytes at the bottom of RAM
    let elf = build_elf(&[(0x2000_0000, 0x100, 4, 0x3)]);
    let plan = plan_relink(SCRIPT, &elf, SP_ALIGN).unwrap();
    // 0x20010000 - 0x100, already 8-aligned
    assert_eq!(plan.new_origin, 0x2000_ff00);
    assert_eq!(plan.new_length, 0x100);
    assert_eq!(
        plan.script_text,
        "MEMORY
{
  FLASH : ORIGIN = 0x00000000, LENGTH = 256K
  RAM : ORIGIN = 0x2000ff00, LENGTH = 256
}
"
    );
}

#[test]
fn plan_with_empty_ram_keeps_whole_region_end() {
    let elf = build_elf(&[]);
    let plan = plan_relink(SCRIPT, &elf, SP_ALIGN).unwrap();
    assert_eq!(plan.new_origin % SP_ALIGN, 0);
    assert_eq!(plan.new_origin as u128 + plan.new_length as u128, 0x2001_0000);
}

#[test]
fn plan_ignores_sections_outside_ram() {
    // flash code plus two RAM sections with an alignment of 16
    let elf = build_elf(&[
        (0x0000_0000, 0x4000, 4, 0x6),
        (0x2000_0000, 0x80, 4, 0x3),
        (0x2000_0100, 0x40, 16, 0x3),
    ]);
    let plan = plan_relink(SCRIPT, &elf, SP_ALIGN).unwrap();
    // span 0x20000000..0x20000140, length 0x140; aligned down to 16
    let used = 0x140;
    assert_eq!(plan.new_origin, (0x2001_0000u64 - used) & !0xf);
    assert_eq!(plan.new_origin + plan.new_length, 0x2001_0000);
}

#[test]
fn plan_twice_is_bit_identical() {
    let elf = build_elf(&[(0x2000_0000, 0x123, 4, 0x3)]);
    let a = plan_relink(SCRIPT, &elf, SP_ALIGN).unwrap();
    let b = plan_relink(SCRIPT, &elf, SP_ALIGN).unwrap();
    assert_eq!(a.script_text, b.script_text);
    assert_eq!(a.new_origin, b.new_origin);
    assert_eq!(a.new_length, b.new_length);
}

#[test]
fn plan_without_ram_entry_reports_not_found() {
    let elf = build_elf(&[]);
    let script = "MEMORY { FLASH : ORIGIN = 0x00000000, LENGTH = 256K }";
    match plan_relink(script, &elf, SP_ALIGN) {
        Err(Error::RamNotFound) => {},
        other => panic!("expected RamNotFound, got {:?}", other.map(|p| p.new_origin)),
    }
}

#[test]
fn plan_with_unreadable_elf_reports_it() {
    let junk: Vec<u8> = vec![0x00, 0x01, 0x02, 0x03];
    match plan_relink(SCRIPT, &junk, SP_ALIGN) {
        Err(Error::ElfUnreadable) => {},
        other => panic!("expected ElfUnreadable, got {:?}", other.map(|p| p.new_origin)),
    }
}

#[test]
fn plan_with_overflowing_region_reports_it() {
    let elf = build_elf(&[]);
    // the origin wraps to the very top of the address space
    let script = "RAM : ORIGIN = 0 - 0x100, LENGTH = 0x200";
    match plan_relink(script, &elf, SP_ALIGN) {
        Err(Error::RegionTooLarge) => {},
        other => panic!("expected RegionTooLarge, got {:?}", other.map(|p| p.new_origin)),
    }
}

#[test]
fn output_path_follows_dash_o() {
    let args = vec![
        "-flavor".to_string(),
        "gnu".to_string(),
        "-o".to_string(),
        "target/app".to_string(),
    ];
    assert_eq!(get_output_path(&args), Ok("target/app".to_string()));

    let none = vec!["-flavor".to_string(), "gnu".to_string()];
    assert_eq!(get_output_path(&none), Err(Error::OutputPathNotFound));

    // a trailing `-o` with no follower does not count
    let trailing = vec!["a".to_string(), "-o".to_string()];
    assert_eq!(get_output_path(&trailing), Err(Error::OutputPathNotFound));
}

#[test]
fn search_paths_follow_each_dash_l() {
    let args = vec![
        "-L".to_string(),
        "lib/a".to_string(),
        "x".to_string(),
        "-L".to_string(),
        "lib/b".to_string(),
    ];
    assert_eq!(
        get_search_paths(&args),
        vec!["lib/a".to_string(), "lib/b".to_string()]
    );
}

#[test]
fn search_targets_strip_dash_t_prefix() {
    let args = vec![
        "-Tlink.x".to_string(),
        "-o".to_string(),
        "out".to_string(),
        "-Tdevice.x".to_string(),
    ];
    assert_eq!(
        get_search_targets(&args),
        vec!["link.x".to_string(), "device.x".to_string()]
    );
}

#[test]
fn linker_script_file_name_is_last_component() {
    let s = LinkerScript::new("/tmp/build/link.x".to_string());
    assert_eq!(s.file_name(), "link.x".to_string());
    assert_eq!(s.path(), &"/tmp/build/link.x".to_string());

    let bare = LinkerScript::new("memory.x".to_string());
    assert_eq!(bare.file_name(), "memory.x".to_string());
}

#[test]
fn locator_queues_includes_and_records_scripts() {
    let mut locator = Locator::new(
        vec![".".to_string(), "lib".to_string()],
        vec!["link.x".to_string()],
    );

    let name = locator.pop_target().unwrap();
    assert_eq!(name, "link.x".to_string());
    assert_eq!(
        locator.candidate_paths(&name),
        vec!["./link.x".to_string(), "lib/link.x".to_string()]
    );

    locator.record_found("./link.x".to_string(), "INCLUDE device.x\nRAM : ORIGIN = 0, LENGTH = 0");
    // the include is now pending; nothing else is
    let next = locator.pop_target().unwrap();
    assert_eq!(next, "device.x".to_string());
    assert_eq!(locator.pop_target(), None);
}

#[test]
fn locator_pops_last_pushed_first() {
    let mut locator = Locator::new(vec![".".to_string()], vec!["a.x".to_string(), "b.x".to_string()]);
    assert_eq!(locator.pop_target(), Some("b.x".to_string()));
    assert_eq!(locator.pop_target(), Some("a.x".to_string()));
    assert_eq!(locator.pop_target(), None);
}
