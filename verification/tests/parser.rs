use flip_link::Error;
use flip_link::expr::evaluate_expression;
use flip_link::script::{MemoryEntry, find_ram_in_linker_script, get_includes_from_linker_script};

#[test]
fn parse() {
    let linker_script = "MEMORY
        {
            FLASH : ORIGIN = 0x00000000, LENGTH = 256K
            RAM : ORIGIN = 0x20000000, LENGTH = 64K
        }

        INCLUDE device.x";

    assert_eq!(
        find_ram_in_linker_script(linker_script),
        Some(MemoryEntry {
            line: 3,
            origin: 0x20000000,
            length: 64 * 1024,
        })
    );

    assert_eq!(
        get_includes_from_linker_script(linker_script),
        vec!["device.x".to_string()]
    );
}

#[test]
fn parse_no_units() {
    let linker_script = "MEMORY
        {
            FLASH : ORIGIN = 0x00000000, LENGTH = 262144
            RAM : ORIGIN = 0x20000000, LENGTH = 65536
        }

        INCLUDE device.x";

    assert_eq!(
        find_ram_in_linker_script(linker_script),
        Some(MemoryEntry {
            line: 3,
            origin: 0x20000000,
            length: 64 * 1024,
        })
    );

    assert_eq!(
        get_includes_from_linker_script(linker_script),
        vec!["device.x".to_string()]
    );
}

#[test]
fn ignore_comment() {
    let linker_script = "MEMORY
        {
            FLASH : ORIGIN = 0x00000000, LENGTH = 256K
            RAM : ORIGIN = 0x20000000, LENGTH = 64K /* This is a comment */
        }

        INCLUDE device.x";

    assert_eq!(
        find_ram_in_linker_script(linker_script),
        Some(MemoryEntry {
            line: 3,
            origin: 0x20000000,
            length: 64 * 1024,
        })
    );

    assert_eq!(
        get_includes_from_linker_script(linker_script),
        vec!["device.x".to_string()]
    );
}

#[test]
fn test_perform_addition_hex_and_number() {
    let addition = "0x20000000 + 1000";
    let expected: i64 = 0x20000000 + 1000;

    assert_eq!(evaluate_expression(addition), Ok(expected as u64));
}

#[test]
fn test_perform_complex_maths() {
    let addition = "(0x20000000+1K)-512";
    let expected: i64 = 0x20000000 + 512;

    assert_eq!(evaluate_expression(addition), Ok(expected as u64));
}

#[test]
fn test_perform_addition_returns_number() {
    let no_addition = "0x20000000";
    let expected: i64 = 0x20000000;

    assert_eq!(evaluate_expression(no_addition), Ok(expected as u64));
}

#[test]
fn parse_plus() {
    let linker_script = "MEMORY
        {
            FLASH : ORIGIN = 0x08000000, LENGTH = 2M
            RAM : ORIGIN = 0x20000000 + 0x20000, LENGTH = 512K - 256K
        }

        INCLUDE device.x";

    assert_eq!(
        find_ram_in_linker_script(linker_script),
        Some(MemoryEntry {
            line: 3,
            origin: 0x20020000,
            length: (512 - 256) * 1024,
        })
    );

    assert_eq!(
        get_includes_from_linker_script(linker_script),
        vec!["device.x".to_string()]
    );
}

#[test]
fn parse_plus_origin_k() {
    let linker_script = "MEMORY
        {
            FLASH : ORIGIN = 0x08000000, LENGTH = 2M
            RAM : ORIGIN = 0x20020000 + 100K, LENGTH = 368K
        }

        INCLUDE device.x";

    assert_eq!(
        find_ram_in_linker_script(linker_script),
        Some(MemoryEntry {
            line: 3,
            origin: 0x20020000 + (100 * 1024),
            length: 368 * 1024,
        })
    );

    assert_eq!(
        get_includes_from_linker_script(linker_script),
        vec!["device.x".to_string()]
    );
}

#[test]
fn parse_plus_origin_no_units() {
    let linker_script = "MEMORY
        {
            FLASH : ORIGIN = 0x08000000, LENGTH = 2M
            RAM : ORIGIN = 0x20020000 + 1000, LENGTH = 368K
        }

        INCLUDE device.x";

    assert_eq!(
        find_ram_in_linker_script(linker_script),
        Some(MemoryEntry {
            line: 3,
            origin: 0x20020000 + 1000,
            length: 368 * 1024,
        })
    );

    assert_eq!(
        get_includes_from_linker_script(linker_script),
        vec!["device.x".to_string()]
    );
}

#[test]
fn parse_plus_origin_m() {
    let linker_script = "MEMORY
        {
            FLASH : ORIGIN = 0x08000000, LENGTH = 2M
            RAM : ORIGIN = 0x20020000 + 100M, LENGTH = 368K
        }

        INCLUDE device.x";

    assert_eq!(
        find_ram_in_linker_script(linker_script),
        Some(MemoryEntry {
            line: 3,
            origin: 0x20020000 + (100 * 1024 * 1024),
            length: 368 * 1024,
        })
    );

    assert_eq!(
        get_includes_from_linker_script(linker_script),
        vec!["device.x".to_string()]
    );
}

// attribute groups: https://sourceware.org/binutils/docs/ld/MEMORY.html
#[test]
fn parse_attributes() {
    let linker_script = "MEMORY
        {
            /* NOTE 1 K = 1 KiBi = 1024 bytes */
            FLASH (rx) : ORIGIN = 0x08000000, LENGTH = 1024K
            RAM (xrw)  : ORIGIN = 0x20000000, LENGTH = 128K
        }";

    assert_eq!(
        find_ram_in_linker_script(linker_script),
        Some(MemoryEntry {
            line: 4,
            origin: 0x20000000,
            length: 128 * 1024,
        })
    );
}

#[test]
fn attributes_parse_like_plain_entry() {
    let decorated = "RAM (xrw) : ORIGIN = 0x20000000, LENGTH = 128K";
    let plain = "RAM : ORIGIN = 0x20000000, LENGTH = 128K";

    let d = find_ram_in_linker_script(decorated).unwrap();
    let p = find_ram_in_linker_script(plain).unwrap();
    assert_eq!(d.origin, p.origin);
    assert_eq!(d.length, p.length);
    assert_eq!(d.line, p.line);
}

#[test]
fn parse_single_line_memory_block() {
    let linker_script =
        "MEMORY { FLASH : ORIGIN = 0x00000000, LENGTH = 256K  RAM : ORIGIN = 0x20000000, LENGTH = 64K }
INCLUDE device.x";

    let entry = find_ram_in_linker_script(linker_script).unwrap();
    assert_eq!(entry.origin, 0x20000000);
    assert_eq!(entry.length, 65536);
    assert_eq!(entry.line, 0);

    assert_eq!(
        get_includes_from_linker_script(linker_script),
        vec!["device.x".to_string()]
    );
}

#[test]
fn no_ram_entry_found() {
    let linker_script = "MEMORY
        {
            FLASH : ORIGIN = 0x00000000, LENGTH = 256K
        }";

    assert_eq!(find_ram_in_linker_script(linker_script), None);
}

#[test]
fn eval_sum_of_units() {
    assert_eq!(evaluate_expression("368K + 16K"), Ok((368 + 16) * 1024));
}

#[test]
fn eval_rejects_malformed() {
    assert_eq!(evaluate_expression("1 / 2"), Err(Error::MalformedExpression));
    assert_eq!(evaluate_expression("flash"), Err(Error::MalformedExpression));
    assert_eq!(evaluate_expression("(1 + 2"), Err(Error::MalformedExpression));
    assert_eq!(evaluate_expression(""), Err(Error::MalformedExpression));
    assert_eq!(
        evaluate_expression("0xffffffffffffffff"),
        Err(Error::MalformedExpression)
    );
}

#[test]
fn eval_unit_attaches_to_literal_only() {
    // a unit suffix multiplies a literal, not a parenthesized expression
    assert_eq!(evaluate_expression("(1+1)K"), Err(Error::MalformedExpression));
    assert_eq!(evaluate_expression("2K"), Ok(2048));
}

#[test]
fn eval_signed_intermediate() {
    // the conceptually negative intermediate must not derail the final cast
    assert_eq!(evaluate_expression("512 - 1024 + 1024"), Ok(512));
}

#[test]
fn includes_kept_in_file_order() {
    let linker_script = "INCLUDE memory.x
        MEMORY { }
        INCLUDE device.x
        INCLUDE memory.x";

    assert_eq!(
        get_includes_from_linker_script(linker_script),
        vec![
            "memory.x".to_string(),
            "device.x".to_string(),
            "memory.x".to_string()
        ]
    );
}

#[test]
fn ignores_ram_suffixed_regions() {
    let linker_script = "MEMORY
        {
            CCMRAM : ORIGIN = 0x10000000, LENGTH = 64K
            RAM : ORIGIN = 0x20000000, LENGTH = 64K
        }";

    assert_eq!(
        find_ram_in_linker_script(linker_script),
        Some(MemoryEntry {
            line: 3,
            origin: 0x20000000,
            length: 64 * 1024,
        })
    );

    let only_ccmram = "MEMORY { CCMRAM : ORIGIN = 0x10000000, LENGTH = 64K }";
    assert_eq!(find_ram_in_linker_script(only_ccmram), None);
}
