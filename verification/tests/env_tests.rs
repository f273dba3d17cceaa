use common_utils_rs::env::get_bool;
use common_utils_rs::env::get_list;
use common_utils_rs::env::get_or_default;
use common_utils_rs::env::get_parsed;
use common_utils_rs::env::get_parsed_or_default;
use common_utils_rs::env::get_required;
use common_utils_rs::env::parse_memory_size;
use common_utils_rs::env::parse_memory_size_normalized;
use common_utils_rs::errors::EnvError;
use common_utils_rs::store::Env;

fn env_with(pairs: &[(&str, &str)]) -> Env {
    let mut env = Env::new();
    for (k, v) in pairs {
        env.set(k.to_string(), v.to_string());
    }
    env
}

#[test]
fn test_get_required_success() {
    let env = env_with(&[("REQUIRED_KEY", "value")]);
    assert_eq!(get_required(&env, "REQUIRED_KEY").unwrap(), "value");
}

#[test]
fn test_get_required_missing() {
    let env = Env::new();
    let result = get_required(&env, "MISSING_KEY");
    assert!(matches!(result, Err(EnvError::Missing(_))));
}

#[test]
fn test_get_or_default() {
    let mut env = Env::new();
    assert_eq!(get_or_default(&env, "DEFAULT_KEY", "default"), "default");
    env.set("DEFAULT_KEY".to_string(), "value".to_string());
    assert_eq!(get_or_default(&env, "DEFAULT_KEY", "default"), "value");
}

#[test]
fn test_get_parsed_success() {
    let env = env_with(&[("PARSE_KEY", "42")]);
    let result: i32 = get_parsed(&env, "PARSE_KEY").unwrap();
    assert_eq!(result, 42);
}

#[test]
fn test_get_parsed_failure() {
    let env = env_with(&[("PARSE_BAD", "abc")]);
    let result: Result<i32, _> = get_parsed(&env, "PARSE_BAD");
    assert!(matches!(result, Err(EnvError::ParseError { .. })));
}

#[test]
fn test_get_parsed_or_default() {
    let mut env = Env::new();
    let value: u64 = get_parsed_or_default(&env, "PARSE_DEFAULT", 100);
    assert_eq!(value, 100);
    env.set("PARSE_DEFAULT".to_string(), "200".to_string());
    let value: u64 = get_parsed_or_default(&env, "PARSE_DEFAULT", 100);
    assert_eq!(value, 200);
}

#[test]
fn test_get_bool_true_values() {
    let mut env = Env::new();
    let trues = ["true", "1", "yes", "on"];
    for &v in &trues {
        env.set("BOOL_KEY".to_string(), v.to_string());
        assert!(get_bool(&env, "BOOL_KEY", false));
    }
}

#[test]
fn test_get_bool_false_values() {
    let mut env = Env::new();
    let falses = ["false", "0", "no", "off", "random"];
    for &v in &falses {
        env.set("BOOL_KEY".to_string(), v.to_string());
        assert!(!get_bool(&env, "BOOL_KEY", false));
    }
}

#[test]
fn test_get_bool_default() {
    let env = Env::new();
    assert_eq!(get_bool(&env, "BOOL_DEFAULT", true), true);
    assert_eq!(get_bool(&env, "BOOL_DEFAULT", false), false);
}

#[test]
fn test_get_list_success() {
    let env = env_with(&[("LIST_KEY", "a, b ,c")]);
    let list = get_list(&env, "LIST_KEY").unwrap();
    assert_eq!(list, vec!["a", "b", "c"]);
}

#[test]
fn test_get_list_missing() {
    let env = Env::new();
    let list = get_list(&env, "LIST_MISSING");
    assert!(matches!(list, Err(EnvError::Missing(_))));
}

#[test]
fn test_parse_memory_size_kb_mb_gb_and_plain() {
    assert_eq!(parse_memory_size("1KB").unwrap(), 1024);
    assert_eq!(parse_memory_size("1MB").unwrap(), 1024 * 1024);
    assert_eq!(parse_memory_size("1GB").unwrap(), 1024 * 1024 * 1024);
    assert_eq!(parse_memory_size("123").unwrap(), 123);
}

#[test]
fn test_parse_memory_size_invalid() {
    let result = parse_memory_size("abcMB");
    assert!(matches!(result, Err(EnvError::ParseError { .. })));
}

#[test]
fn get_required_keeps_value_verbatim() {
    let env = env_with(&[("RAW", "  spaced out  ")]);
    assert_eq!(get_required(&env, "RAW").unwrap(), "  spaced out  ");
}

#[test]
fn get_required_missing_names_the_key() {
    let env = Env::new();
    match get_required(&env, "ABSENT") {
        Err(EnvError::Missing(name)) => assert_eq!(name, "ABSENT"),
        other => panic!("expected Missing, got {:?}", other),
    }
}

#[test]
fn later_set_wins() {
    let mut env = Env::new();
    env.set("K".to_string(), "first".to_string());
    env.set("K".to_string(), "second".to_string());
    assert_eq!(get_required(&env, "K").unwrap(), "second");
}

#[test]
fn get_parsed_reports_key_and_raw_value() {
    let env = env_with(&[("PORT", "eighty")]);
    match get_parsed::<u32>(&env, "PORT") {
        Err(EnvError::ParseError { key, value }) => {
            assert_eq!(key, "PORT");
            assert_eq!(value, "eighty");
        }
        other => panic!("expected ParseError, got {:?}", other),
    }
}

#[test]
fn get_parsed_accepts_signs() {
    let env = env_with(&[("PLUS", "+42"), ("MINUS", "-5")]);
    assert_eq!(get_parsed::<i32>(&env, "PLUS").unwrap(), 42);
    assert_eq!(get_parsed::<i32>(&env, "MINUS").unwrap(), -5);
}

#[test]
fn get_parsed_honours_integer_bounds() {
    let env = env_with(&[
        ("I32_MAX", "2147483647"),
        ("I32_TOO_BIG", "2147483648"),
        ("I32_MIN", "-2147483648"),
        ("I32_TOO_SMALL", "-2147483649"),
        ("U64_MAX", "18446744073709551615"),
        ("U64_TOO_BIG", "18446744073709551616"),
    ]);
    assert_eq!(get_parsed::<i32>(&env, "I32_MAX").unwrap(), i32::MAX);
    assert!(matches!(
        get_parsed::<i32>(&env, "I32_TOO_BIG"),
        Err(EnvError::ParseError { .. })
    ));
    assert_eq!(get_parsed::<i32>(&env, "I32_MIN").unwrap(), i32::MIN);
    assert!(matches!(
        get_parsed::<i32>(&env, "I32_TOO_SMALL"),
        Err(EnvError::ParseError { .. })
    ));
    assert_eq!(get_parsed::<u64>(&env, "U64_MAX").unwrap(), u64::MAX);
    assert!(matches!(
        get_parsed::<u64>(&env, "U64_TOO_BIG"),
        Err(EnvError::ParseError { .. })
    ));
}

#[test]
fn get_parsed_rejects_blanks_and_inner_spaces() {
    let env = env_with(&[("SPACED", " 42"), ("EMPTY", ""), ("SIGN_ONLY", "+")]);
    assert!(matches!(
        get_parsed::<i64>(&env, "SPACED"),
        Err(EnvError::ParseError { .. })
    ));
    assert!(matches!(
        get_parsed::<i64>(&env, "EMPTY"),
        Err(EnvError::ParseError { .. })
    ));
    assert!(matches!(
        get_parsed::<i64>(&env, "SIGN_ONLY"),
        Err(EnvError::ParseError { .. })
    ));
}

#[test]
fn get_parsed_bool_follows_the_strict_rule() {
    let env = env_with(&[("T", "true"), ("F", "false"), ("Y", "yes")]);
    assert_eq!(get_parsed::<bool>(&env, "T").unwrap(), true);
    assert_eq!(get_parsed::<bool>(&env, "F").unwrap(), false);
    assert!(matches!(
        get_parsed::<bool>(&env, "Y"),
        Err(EnvError::ParseError { .. })
    ));
}

#[test]
fn get_parsed_or_default_swallows_parse_failures() {
    let env = env_with(&[("BAD", "abc")]);
    let value: u64 = get_parsed_or_default(&env, "BAD", 100);
    assert_eq!(value, 100);
    let value: i32 = get_parsed_or_default(&env, "BAD", -3);
    assert_eq!(value, -3);
}

#[test]
fn get_bool_is_case_insensitive() {
    let mut env = Env::new();
    for v in ["TRUE", "True", "YES", "On", "ON"] {
        env.set("B".to_string(), v.to_string());
        assert!(get_bool(&env, "B", false), "{v} should be truthy");
    }
    for v in ["FALSE", "NO", "Off", "TRUTHY"] {
        env.set("B".to_string(), v.to_string());
        assert!(!get_bool(&env, "B", true), "{v} should be falsy");
    }
}

#[test]
fn get_bool_present_garbage_ignores_default() {
    let env = env_with(&[("B", "garbage")]);
    assert!(!get_bool(&env, "B", true));
}

#[test]
fn get_list_keeps_empty_pieces() {
    let env = env_with(&[("L", "a,b,")]);
    assert_eq!(get_list(&env, "L").unwrap(), vec!["a", "b", ""]);
    let env = env_with(&[("L", "")]);
    assert_eq!(get_list(&env, "L").unwrap(), vec![""]);
    let env = env_with(&[("L", ",,")]);
    assert_eq!(get_list(&env, "L").unwrap(), vec!["", "", ""]);
}

#[test]
fn get_list_trims_each_piece() {
    let env = env_with(&[("L", "  alpha  ,\tbeta , gamma\u{a0}")]);
    assert_eq!(get_list(&env, "L").unwrap(), vec!["alpha", "beta", "gamma"]);
}

#[test]
fn parse_memory_size_is_case_insensitive_and_trims() {
    assert_eq!(parse_memory_size("1kb").unwrap(), 1024);
    assert_eq!(parse_memory_size("  1KB  ").unwrap(), 1024);
    assert_eq!(parse_memory_size("10mB").unwrap(), 10 * 1024 * 1024);
}

#[test]
fn parse_memory_size_scales_each_suffix() {
    assert_eq!(parse_memory_size("512KB").unwrap(), 512 * 1024);
    assert_eq!(parse_memory_size("10MB").unwrap(), 10 * 1024 * 1024);
    assert_eq!(parse_memory_size("0GB").unwrap(), 0);
    assert_eq!(parse_memory_size("+2KB").unwrap(), 2048);
}

#[test]
fn parse_memory_size_error_carries_normalized_value() {
    match parse_memory_size("abcMB") {
        Err(EnvError::ParseError { key, value }) => {
            assert_eq!(key, "memory_size");
            assert_eq!(value, "ABCMB");
        }
        other => panic!("expected ParseError, got {:?}", other),
    }
}

#[test]
fn parse_memory_size_rejects_signs_fractions_and_blanks() {
    assert!(matches!(
        parse_memory_size("-1KB"),
        Err(EnvError::ParseError { .. })
    ));
    assert!(matches!(
        parse_memory_size("1.5MB"),
        Err(EnvError::ParseError { .. })
    ));
    assert!(matches!(
        parse_memory_size(""),
        Err(EnvError::ParseError { .. })
    ));
    assert!(matches!(
        parse_memory_size("KB"),
        Err(EnvError::ParseError { .. })
    ));
    assert!(matches!(
        parse_memory_size("1 KB"),
        Err(EnvError::ParseError { .. })
    ));
}

#[test]
fn parse_memory_size_rejects_counts_beyond_usize() {
    assert!(matches!(
        parse_memory_size("99999999999999999999999"),
        Err(EnvError::ParseError { .. })
    ));
    assert!(matches!(
        parse_memory_size("18446744073709551615KB"),
        Err(EnvError::ParseError { .. })
    ));
}

#[test]
fn parse_memory_size_normalized_expects_prepared_input() {
    assert_eq!(parse_memory_size_normalized("1KB").unwrap(), 1024);
    assert!(matches!(
        parse_memory_size_normalized("1kb"),
        Err(EnvError::ParseError { .. })
    ));
}

#[test]
fn repeated_calls_agree() {
    let env = env_with(&[("K", "7"), ("B", "yes"), ("L", "x, y")]);
    assert_eq!(
        get_required(&env, "K").unwrap(),
        get_required(&env, "K").unwrap()
    );
    assert_eq!(
        get_parsed::<u32>(&env, "K").unwrap(),
        get_parsed::<u32>(&env, "K").unwrap()
    );
    assert_eq!(get_bool(&env, "B", false), get_bool(&env, "B", false));
    assert_eq!(get_list(&env, "L").unwrap(), get_list(&env, "L").unwrap());
    assert_eq!(
        parse_memory_size("3MB").unwrap(),
        parse_memory_size("3MB").unwrap()
    );
}
