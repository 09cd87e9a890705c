use vfio_tool::num::{parse_i32, parse_u32, u32_to_string};
use vfio_tool::strings::{
    contains_str, has_line_starting_with, join_lines, join_spaces, lex_le, split_lines, str_eq,
    strip_0x, trim_ws,
};

#[test]
fn string_equality_is_exact() {
    assert!(str_eq("vfio-pci", "vfio-pci"));
    assert!(!str_eq("vfio-pci", "vfio_pci"));
    assert!(!str_eq("a", "ab"));
    assert!(str_eq("", ""));
}

#[test]
fn substring_search() {
    assert!(contains_str("quiet intel_iommu=on splash", "intel_iommu=on"));
    assert!(contains_str("abc", ""));
    assert!(!contains_str("abc", "abcd"));
    assert!(contains_str("aaab", "aab"));
}

#[test]
fn trimming_pseudo_file_contents() {
    assert_eq!(trim_ws("0x020000\n"), "0x020000");
    assert_eq!(trim_ws("  10000 \r\n"), "10000");
    assert_eq!(trim_ws("\n\t "), "");
    assert_eq!(trim_ws("plain"), "plain");
}

#[test]
fn hex_prefix_stripping() {
    assert_eq!(strip_0x("0x8086"), "8086");
    assert_eq!(strip_0x("8086"), "8086");
    assert_eq!(strip_0x("0x0x15b3"), "15b3");
    assert_eq!(strip_0x("0x"), "");
}

#[test]
fn lexicographic_order() {
    assert!(lex_le("(0000:01:00.0)", "eth0"));
    assert!(lex_le("eth0", "eth1"));
    assert!(!lex_le("eth1", "eth0"));
    assert!(lex_le("eth", "eth0"));
    assert!(lex_le("eth0", "eth0"));
}

#[test]
fn unsigned_parsing() {
    assert_eq!(parse_u32("0"), Some(0));
    assert_eq!(parse_u32("4294967295"), Some(u32::MAX));
    assert_eq!(parse_u32("4294967296"), None);
    assert_eq!(parse_u32(""), None);
    assert_eq!(parse_u32("12a"), None);
    assert_eq!(parse_u32("-1"), None);
}

#[test]
fn signed_parsing() {
    assert_eq!(parse_i32("-1"), Some(-1));
    assert_eq!(parse_i32("2147483647"), Some(i32::MAX));
    assert_eq!(parse_i32("2147483648"), None);
    assert_eq!(parse_i32("-2147483648"), Some(i32::MIN));
    assert_eq!(parse_i32("-2147483649"), None);
    assert_eq!(parse_i32("-"), None);
}

#[test]
fn decimal_rendering() {
    assert_eq!(u32_to_string(0), "0");
    assert_eq!(u32_to_string(7), "7");
    assert_eq!(u32_to_string(25000), "25000");
    assert_eq!(u32_to_string(u32::MAX), "4294967295");
}

#[test]
fn line_splitting_and_joining() {
    assert_eq!(split_lines("a\nb\n"), vec!["a".to_string(), "b".to_string()]);
    assert_eq!(split_lines("a\r\nb"), vec!["a".to_string(), "b".to_string()]);
    assert_eq!(
        split_lines("a\n\nb"),
        vec!["a".to_string(), "".to_string(), "b".to_string()]
    );
    assert_eq!(split_lines(""), Vec::<String>::new());
    assert_eq!(join_lines(&vec!["a".to_string(), "b".to_string()]), "a\nb\n");
    assert_eq!(join_lines(&Vec::new()), "\n");
}

#[test]
fn space_joining() {
    assert_eq!(
        join_spaces(&vec!["intel_iommu=on".to_string(), "iommu=pt".to_string()]),
        "intel_iommu=on iommu=pt"
    );
    assert_eq!(join_spaces(&vec!["one".to_string()]), "one");
    assert_eq!(join_spaces(&Vec::new()), "");
}

#[test]
fn line_prefix_search() {
    assert!(has_line_starting_with("a\nvfio_pci 1", "vfio_pci"));
    assert!(has_line_starting_with("vfio_pci 1\nb", "vfio_pci"));
    assert!(!has_line_starting_with("a vfio_pci 1", "vfio_pci"));
}
