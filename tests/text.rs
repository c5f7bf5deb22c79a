use pkger::os::{extract_key, parse_u8};
use pkger::target::{BuildArch, BuildTarget};
use pkger::text::{contains, first_token, join, split_char, starts_with, str_eq, trim_char, u64_to_string};

#[test]
fn text_primitives() {
    assert!(str_eq("abc", "abc"));
    assert!(!str_eq("abc", "abd"));
    assert!(starts_with("http://x", "http"));
    assert!(!starts_with("htt", "http"));
    assert!(contains("hello world", "lo w"));
    assert!(!contains("hello", "world"));
    assert!(contains("x", ""));
    assert_eq!(split_char("a:b::c", ':'), vec!["a", "b", "", "c"]);
    assert_eq!(split_char("", ':'), vec![""]);
    assert_eq!(trim_char("\"quoted\"\"", '"'), "quoted");
    assert_eq!(trim_char("\"\"", '"'), "");
    assert_eq!(first_token("\t 42 rest"), Some("42".to_string()));
    assert_eq!(join(&vec!["a".to_string(), "b".to_string()], ", "), "a, b");
    assert_eq!(join(&vec![], ", "), "");
    assert_eq!(u64_to_string(0), "0");
    assert_eq!(u64_to_string(18446744073709551615), "18446744073709551615");
}

#[test]
fn release_keys_and_numbers() {
    assert_eq!(extract_key("NAME=x\nID=\"ubuntu\"\n", "ID"), Some("ubuntu".to_string()));
    assert_eq!(extract_key("ID_LIKE=debian\n", "ID"), None);
    assert_eq!(extract_key("VERSION_ID=20.04\n", "VERSION_ID"), Some("20.04".to_string()));
    assert_eq!(parse_u8("255"), Some(255));
    assert_eq!(parse_u8("+7"), Some(7));
    assert_eq!(parse_u8("256"), None);
    assert_eq!(parse_u8("1a"), None);
    assert_eq!(parse_u8("+"), None);
}

#[test]
fn target_and_arch_names() {
    assert_eq!(BuildTarget::try_from_str("deb"), Some(BuildTarget::Deb));
    assert_eq!(BuildTarget::try_from_str("gzip"), Some(BuildTarget::Gzip));
    assert_eq!(BuildTarget::try_from_str("zip"), None);
    assert_eq!(BuildArch::try_from_str("amd64"), Some(BuildArch::x86_64));
    assert_eq!(BuildArch::try_from_str("aarch64"), Some(BuildArch::Arm64));
    assert_eq!(BuildArch::x86_64.deb_name(), "amd64");
    assert_eq!(BuildArch::x86_64.pkg_name(), "x86_64");
}
