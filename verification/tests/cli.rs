use nezumi_ai_core::cli::args::parse_args;
use nezumi_ai_core::cli::db::{key_from_name, key_with_hash};
use nezumi_ai_core::cli::settings::{
    classify_chat_line, parse_i32, parse_usize, pick_i32, pick_usize, ChatLine,
};

fn strings(v: &[&str]) -> Vec<String> {
    v.iter().map(|s| s.to_string()).collect()
}

#[test]
fn options_and_flags() {
    let a = strings(&["model.gguf", "--name", "my model", "--think", "--gpu", "20", "--gpu", "30", "--x"]);
    let m = parse_args(&a);
    assert_eq!(m.get("name").map(|s| s.as_str()), Some("my model"));
    assert_eq!(m.get("think").map(|s| s.as_str()), Some("true"));
    assert_eq!(m.get("gpu").map(|s| s.as_str()), Some("30"));
    assert_eq!(m.get("x").map(|s| s.as_str()), Some("true"));
    assert!(m.contains_key("think"));
    assert!(!m.contains_key("model.gguf"));
    assert!(m.get("ctx").is_none());
}

#[test]
fn flag_before_option_is_true() {
    let m = parse_args(&strings(&["--think", "--temp", "0.5"]));
    assert_eq!(m.get("think").map(|s| s.as_str()), Some("true"));
    assert_eq!(m.get("temp").map(|s| s.as_str()), Some("0.5"));
    let single_dash = parse_args(&strings(&["-v", "x"]));
    assert!(!single_dash.contains_key("v"));
}

#[test]
fn keys_of_names() {
    let k = key_from_name("My Model: v1/a\\b?");
    let (norm, hash) = k.split_at(k.len() - 17);
    assert_eq!(norm, "My__sp__Model__co____sp__v1__sl__a__bs__b__");
    assert!(hash.starts_with('_'));
    assert!(hash[1..].chars().all(|c| c.is_ascii_hexdigit() && !c.is_ascii_uppercase()));
    assert_eq!(key_from_name("My Model: v1/a\\b?"), k);
    // The hash tells apart names that normalize alike.
    assert_ne!(key_from_name("a b"), key_from_name("a__sp__b"));
    assert!(key_from_name("日本").chars().all(|c| c.is_ascii_alphanumeric() || c == '_' || c == '-'));
}

#[test]
fn key_with_given_hash() {
    assert_eq!(key_with_hash("a b", 0x1f), "a__sp__b_000000000000001f");
    assert_eq!(key_with_hash("x:y?", u64::MAX), "x__co__y___ffffffffffffffff");
    assert_eq!(key_with_hash("", 0), "_0000000000000000");
}

#[test]
fn integers_as_std_reads_them() {
    for s in ["0", "42", "-7", "+8", "2147483647", "-2147483648", "2147483648", "", "-", "+", "1a", " 1", "007", "--1"] {
        assert_eq!(parse_i32(s), s.parse::<i32>().ok(), "{s}");
        assert_eq!(parse_usize(s), s.parse::<usize>().ok(), "{s}");
    }
    assert_eq!(parse_usize("18446744073709551615"), "18446744073709551615".parse::<usize>().ok());
    assert_eq!(parse_usize("18446744073709551616"), None);
}

#[test]
fn settings_precedence() {
    let given = "12".to_string();
    let bad = "x".to_string();
    assert_eq!(pick_i32(Some(&given), Some(5), 999), 12);
    assert_eq!(pick_i32(Some(&bad), Some(5), 999), 5);
    assert_eq!(pick_i32(None, None, 999), 999);
    assert_eq!(pick_usize(Some(&given), None, 512), 12);
    assert_eq!(pick_usize(None, Some(64), 512), 64);
}

#[test]
fn chat_lines() {
    assert!(matches!(classify_chat_line("   \n"), ChatLine::Empty));
    assert!(matches!(classify_chat_line(" exit\n"), ChatLine::Exit));
    assert!(matches!(classify_chat_line("quit"), ChatLine::Exit));
    assert!(matches!(classify_chat_line(":q"), ChatLine::Exit));
    match classify_chat_line("  hello there \r\n") {
        ChatLine::Say(s) => assert_eq!(s, "hello there"),
        _ => panic!("expected a message"),
    }
}
