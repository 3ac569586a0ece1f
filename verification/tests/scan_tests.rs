use treesync::elf::{check_compiler_signatures, classify_binary, contains_bytes, infer_compiler, infer_language_from_symbols, window_scan};
use treesync::netinfo::{active_ssid, signal_strength};
use treesync::procstat::{digits_only, parse_proc_stat};

#[test]
fn byte_search_finds_and_misses() {
    assert!(contains_bytes(b"xxGNU ldyy", b"GNU ld"));
    assert!(!contains_bytes(b"xxGNU lyy", b"GNU ld"));
    assert!(contains_bytes(b"abc", b""));
    assert!(!contains_bytes(b"ab", b"abc"));
    assert!(contains_bytes(b"abc", b"abc"));
}

#[test]
fn window_scan_matches_only_full_width_patterns() {
    assert!(window_scan(b"..0123456789..", 10, b"0123456789"));
    assert!(!window_scan(b"..012345678..", 10, b"0123456789"));
    // A pattern of any other length matches no window at all.
    assert!(!window_scan(b"..clang..clang..", 10, b"clang"));
    assert!(window_scan(b"abc", 0, b""));
}

#[test]
fn signature_scan_labels_nothing() {
    // The scan holds each pattern against whole ten-byte windows, and
    // every pattern is shorter than ten bytes, so no image earns a
    // label — not even one carrying the raw marker text.
    assert_eq!(check_compiler_signatures(b"....rustc....GNU ld...."), Vec::<String>::new());
    assert_eq!(check_compiler_signatures(b"..clang.."), Vec::<String>::new());
    assert_eq!(check_compiler_signatures(b"nothing here"), Vec::<String>::new());
}

#[test]
fn language_is_the_first_symbol_mark() {
    let names: Vec<Vec<u8>> = vec![b"plain".to_vec(), b"_go_entry".to_vec(), b"std::sort".to_vec()];
    assert_eq!(infer_language_from_symbols(&names), "Go");
    let cpp: Vec<Vec<u8>> = vec![b"std::vector".to_vec()];
    assert_eq!(infer_language_from_symbols(&cpp), "C++");
    let py: Vec<Vec<u8>> = vec![b"Py_Init".to_vec()];
    assert_eq!(infer_language_from_symbols(&py), "Python (C API)");
    let none: Vec<Vec<u8>> = vec![b"plain".to_vec()];
    assert_eq!(infer_language_from_symbols(&none), "C");
}

#[test]
fn compiler_marks_resolve_with_rust_override() {
    let names: Vec<Vec<u8>> = vec![b"__gcc_personality".to_vec(), b"std::thing".to_vec()];
    let (compiler, language) = infer_compiler(&names, b"no marker here");
    assert_eq!(compiler, "GCC");
    assert_eq!(language, "C++");

    let clang_names: Vec<Vec<u8>> = vec![b"__clang_call".to_vec()];
    let (compiler, language) = infer_compiler(&clang_names, b"...");
    assert_eq!(compiler, "Clang");
    assert_eq!(language, "C");

    let (compiler, language) = infer_compiler(&clang_names, b"..rust..");
    assert_eq!(compiler, "rustc");
    assert_eq!(language, "Rust");

    let empty: Vec<Vec<u8>> = Vec::new();
    let (compiler, language) = infer_compiler(&empty, b"plain");
    assert_eq!(compiler, "Unknown");
    assert_eq!(language, "Unknown");
}

#[test]
fn classify_rejects_what_the_parser_rejects() {
    let garbage: Vec<u8> = vec![1, 2, 3, 4];
    assert!(classify_binary(&garbage).is_err());
}

#[test]
fn classify_reads_a_minimal_image() {
    // A minimal little-endian ELF64 relocatable image: bare header,
    // no sections, no symbols — parses with an empty symbol table.
    let mut image = vec![0u8; 64];
    image[0] = 0x7f;
    image[1] = b'E';
    image[2] = b'L';
    image[3] = b'F';
    image[4] = 2; // 64-bit
    image[5] = 1; // little endian
    image[6] = 1; // version
    image[16] = 1; // e_type: relocatable
    image[18] = 0x3e; // e_machine: x86-64
    image[20] = 1; // e_version
    image[52] = 64; // e_ehsize
    let report = classify_binary(&image).expect("a bare header parses");
    assert_eq!(report.compiler, "Unknown");
    assert_eq!(report.language, "Unknown");
    assert_eq!(report.signatures, Vec::<String>::new());
}

#[test]
fn proc_stat_parses_three_fields() {
    let parsed = parse_proc_stat("1234 (bash) S 1 5678").expect("three fields are present");
    assert_eq!(parsed.pid, "1234");
    assert_eq!(parsed.name, "bash");
    assert_eq!(parsed.state, "S");
}

#[test]
fn proc_stat_needs_three_fields() {
    assert!(parse_proc_stat("1234 (bash)").is_none());
    assert!(parse_proc_stat("").is_none());
    assert!(parse_proc_stat("   ").is_none());
}

#[test]
fn proc_stat_strips_wrapping_parentheses() {
    let parsed = parse_proc_stat("7 ((weird)) R").expect("three fields are present");
    assert_eq!(parsed.name, "weird");
}

#[test]
fn pid_directories_are_all_digits() {
    assert!(digits_only("1234"));
    assert!(digits_only(""));
    assert!(!digits_only("12a4"));
    assert!(!digits_only("self"));
}

#[test]
fn ssid_comes_from_the_active_line() {
    assert_eq!(active_ssid("no:guest\nyes:HomeNet\nno:other\n"), "HomeNet");
    assert_eq!(active_ssid("no:guest\nno:other\n"), "(not connected)");
    assert_eq!(active_ssid(""), "(not connected)");
}

#[test]
fn signal_comes_from_the_starred_line() {
    assert_eq!(signal_strength("IN-USE SIGNAL\n* 78\n  12\n"), "78");
    assert_eq!(signal_strength("IN-USE SIGNAL\n  12\n"), "unknown");
    assert_eq!(signal_strength("*\n"), "unknown");
}
