use castgen::assemble::{generate_cast, replace_all};
use castgen::document::{generate_libcast, widths};
use castgen::mask::{decimal, mask, type_name_of};

/// Occurrences of `needle` at the start of a line of `hay`.
fn line_start_count(hay: &str, needle: &str) -> usize {
    let marked = format!("\n{}", needle);
    hay.match_indices(&marked).count()
}

fn all_widths() -> Vec<u16> {
    let mut ws: Vec<u16> = Vec::new();
    let mut w: u16 = 8;
    while w <= 256 {
        ws.push(w);
        w += 8;
    }
    ws
}

#[test]
fn widths_list_is_every_multiple_of_8_up_to_256() {
    assert_eq!(widths(), all_widths());
}

#[test]
fn decimal_exact_values() {
    assert_eq!(decimal(0), "0");
    assert_eq!(decimal(8), "8");
    assert_eq!(decimal(10), "10");
    assert_eq!(decimal(256), "256");
    assert_eq!(decimal(65535), "65535");
}

#[test]
fn type_names() {
    assert_eq!(type_name_of(8), "U8");
    assert_eq!(type_name_of(40), "U40");
    assert_eq!(type_name_of(256), "U256");
}

#[test]
fn mask_shape_for_every_width() {
    for w in all_widths() {
        let m = mask(w);
        assert_eq!(m.len(), 2 + (w as usize) / 4);
        let mut expected = String::from("0x");
        for _ in 0..w / 8 {
            expected.push_str("ff");
        }
        assert_eq!(m, expected);
    }
}

#[test]
fn replace_all_replaces_every_occurrence() {
    assert_eq!(replace_all("a TYPE b TYPE c", "TYPE", "U8"), "a U8 b U8 c");
    assert_eq!(replace_all("TYPETYPE", "TYPE", "x"), "xx");
    assert_eq!(replace_all("no placeholder", "TYPE", "x"), "no placeholder");
    assert_eq!(replace_all("abc", "", "x"), "abc");
}

#[test]
fn replace_all_is_leftmost_and_does_not_rescan() {
    assert_eq!(replace_all("aaa", "aa", "b"), "ba");
    assert_eq!(replace_all("aXb", "X", "XX"), "aXXb");
}

#[test]
fn no_mini_block_below_32() {
    for w in [8u16, 16, 24] {
        let block = generate_cast(w);
        assert!(!block.contains("MINI"));
    }
}

#[test]
fn exactly_one_mini_pair_from_32_upward() {
    for w in all_widths() {
        let block = generate_cast(w);
        let mini_mask = format!("#define macro MINI_U{}_MASK()", w);
        let mini_cast = format!("#define macro UNSAFE_MINI_TO_U{}()", w);
        if w < 32 {
            assert_eq!(line_start_count(&block, &mini_mask), 0);
            assert_eq!(line_start_count(&block, &mini_cast), 0);
        } else {
            assert_eq!(line_start_count(&block, &mini_mask), 1);
            assert_eq!(line_start_count(&block, &mini_cast), 1);
        }
    }
}

#[test]
fn generator_is_deterministic() {
    assert_eq!(generate_libcast(), generate_libcast());
}

#[test]
fn blocks_appear_in_ascending_width_order() {
    let doc = generate_libcast();
    let mut last_pos: usize = 0;
    for w in all_widths() {
        let needle = format!("\n#define macro TO_U{}()", w);
        let pos = doc.find(&needle).expect("every width has a checked cast");
        assert!(pos > last_pos || w == 8);
        assert_eq!(doc.match_indices(&needle).count(), 1);
        last_pos = pos;
    }
}

#[test]
fn every_defined_macro_name_is_unique() {
    let doc = generate_libcast();
    let mut names: Vec<String> = Vec::new();
    for (pos, _) in doc.match_indices("\n#define macro ") {
        let after = &doc[pos + "\n#define macro ".len()..];
        let paren = after.find('(').expect("a macro name ends at its parameter list");
        names.push(after[..paren].to_string());
    }
    // two mandatory macros per width, two mini macros for widths from 32
    // upward, and the shared helper
    assert_eq!(names.len(), 32 * 2 + 29 * 2 + 1);
    for i in 0..names.len() {
        for j in 0..i {
            assert_ne!(names[i], names[j]);
        }
    }
}

#[test]
fn width_8_scenario() {
    assert_eq!(type_name_of(8), "U8");
    assert_eq!(mask(8), "0xff");
    let block = generate_cast(8);
    assert!(!block.contains("MINI"));
    assert_eq!(line_start_count(&block, "#define macro U8_MASK()"), 1);
    assert_eq!(line_start_count(&block, "#define macro TO_U8()"), 1);
    assert!(block.contains("#define macro U8_MASK() = takes (0) returns (1) { 0xff }"));
}

#[test]
fn width_32_scenario() {
    let m = mask(32);
    assert_eq!(m, "0xffffffff");
    assert_eq!(m.len(), 10);
    let block = generate_cast(32);
    assert_eq!(line_start_count(&block, "#define macro MINI_U32_MASK()"), 1);
    assert_eq!(line_start_count(&block, "#define macro UNSAFE_MINI_TO_U32()"), 1);
    assert!(block.contains("#define macro MINI_U32_MASK() = takes (0) returns (1) { __MINI_MASK(32) }"));
}

#[test]
fn width_256_scenario() {
    let m = mask(256);
    assert_eq!(m.len(), 66);
    let mut expected = String::from("0x");
    for _ in 0..64 {
        expected.push('f');
    }
    assert_eq!(m, expected);
    let block = generate_cast(256);
    assert_eq!(line_start_count(&block, "#define macro MINI_U256_MASK()"), 1);
}

#[test]
fn shared_helper_defined_once_after_the_last_block() {
    let doc = generate_libcast();
    let helper = "\n#define macro __MINI_MASK(bitsize)";
    assert_eq!(doc.match_indices(helper).count(), 1);
    let helper_pos = doc.find(helper).unwrap();
    let last_block_pos = doc.find("\n#define macro TO_U256()").unwrap();
    assert!(helper_pos > last_block_pos);
}

#[test]
fn document_opens_with_header_and_error_definition() {
    let doc = generate_libcast();
    assert!(doc.contains("//! # Casting Library"));
    assert_eq!(line_start_count(&doc, "#define error Overflow()"), 1);
    let error_pos = doc.find("#define error Overflow()").unwrap();
    let first_macro_pos = doc.find("\n#define macro ").unwrap();
    assert!(error_pos < first_macro_pos);
}
