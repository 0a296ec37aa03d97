use mineradio::text::{
    i64_to_string, parse_i64, parse_u32, split_chars, trim_str, u64_to_string,
};

fn chars(s: &str) -> Vec<char> {
    s.chars().collect()
}

#[test]
fn parse_i64_matches_std() {
    for s in ["0", "-1", "+42", "9223372036854775807", "-9223372036854775808", "9223372036854775808", "", "-", "+", "1a", " 1", "007"] {
        assert_eq!(parse_i64(&chars(s)), s.parse::<i64>().ok(), "input {:?}", s);
    }
}

#[test]
fn parse_u32_matches_std() {
    for s in ["0", "4294967295", "4294967296", "+7", "-1", "", "12x", "0010"] {
        assert_eq!(parse_u32(&chars(s)), s.parse::<u32>().ok(), "input {:?}", s);
    }
}

#[test]
fn split_keeps_empty_pieces() {
    let parts = split_chars(&chars("a;;b;"), &chars(";"));
    let got: Vec<String> = parts.iter().map(|p| p.iter().collect()).collect();
    assert_eq!(got, vec!["a", "", "b", ""]);
    let parts = split_chars(&chars("x; y; z"), &chars("; "));
    let got: Vec<String> = parts.iter().map(|p| p.iter().collect()).collect();
    assert_eq!(got, vec!["x", "y", "z"]);
}

#[test]
fn trim_and_numbers() {
    assert_eq!(trim_str("  \u{3000}hi there\t\n"), "hi there");
    assert_eq!(u64_to_string(0), "0");
    assert_eq!(u64_to_string(1234567890), "1234567890");
    assert_eq!(i64_to_string(i64::MIN), i64::MIN.to_string());
    assert_eq!(i64_to_string(-5), "-5");
}
