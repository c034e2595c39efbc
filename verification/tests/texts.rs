use agent_vcpu::json::{parse_list, parse_record};
use agent_vcpu::text::{
    begins_with, contains, decimal, find, pad, parse_u32, parse_u64, split_at_char, swap, trim,
    words,
};

#[test]
fn trimming_takes_white_space_off_both_ends() {
    for s in ["", "  ", " a b\t\n", "a", "\u{a0}x\u{3000}", "\u{85}y\u{2028}", "\u{200b}z"] {
        assert_eq!(trim(s), s.trim());
    }
}

#[test]
fn searching() {
    assert_eq!(find("local:iso/x", "iso/"), Some(6));
    assert_eq!(find("éiso/x", "iso/"), Some(1));
    assert_eq!(find("x", "iso/"), None);
    assert_eq!(find("abc", ""), Some(0));
    assert!(contains("abc", "bc"));
    assert!(!contains("abc", "cb"));
    assert!(begins_with("pid: 1", "pid:"));
    assert!(!begins_with("pi", "pid:"));
}

#[test]
fn cutting() {
    assert_eq!(split_at_char("a;;b", ';'), vec!["a", "", "b"]);
    assert_eq!(split_at_char("", ';'), vec![""]);
    assert_eq!(words("  a\tb \n c"), vec!["a", "b", "c"]);
    assert!(words(" ").is_empty());
}

#[test]
fn numbers_are_read_as_they_are_written() {
    for n in [0u64, 7, 10, 4294967295, 4294967296, u64::MAX] {
        assert_eq!(decimal(n), n.to_string());
        assert_eq!(parse_u64(&decimal(n)), Some(n));
        assert_eq!(parse_u32(&decimal(n)), n.to_string().parse::<u32>().ok());
    }
    for s in ["", "+", "-1", "+5", "007", " 1", "1x", "18446744073709551616"] {
        assert_eq!(parse_u64(s), s.parse::<u64>().ok());
    }
}

#[test]
fn padding_and_swapping() {
    assert_eq!(pad("7", 3), "  7");
    assert_eq!(pad("1234", 3), "1234");
    assert_eq!(swap("a=b=c", '=', "-"), "a-b-c");
}

#[test]
fn records_are_read_from_json() {
    let r = parse_record(r#"{"a":3,"b":"x","c":null,"d":-1,"e":1.5,"f":{"g":1},"h":true}"#).unwrap();
    assert_eq!(r.count("a"), Some(3));
    assert_eq!(r.text("b"), Some("x"));
    assert_eq!(r.text("a"), None);
    for key in ["b", "c", "d", "e", "f", "g", "h", "z"] {
        assert_eq!(r.count(key), None);
    }
    assert_eq!(parse_record("18446744073709551615").unwrap().count("a"), None);
    assert_eq!(
        parse_record(r#"{"n":18446744073709551615}"#).unwrap().count("n"),
        Some(u64::MAX)
    );
    assert!(parse_record("{} x").is_none());
}

#[test]
fn lists_are_read_from_json() {
    let l = parse_list(r#"[{"a":1},2,{"a":3}]"#).unwrap();
    let counts: Vec<Option<u64>> = l.iter().map(|r| r.count("a")).collect();
    assert_eq!(counts, vec![Some(1), None, Some(3)]);
    assert!(parse_list("{}").is_none());
    assert!(parse_list("[").is_none());
}
