use tiphia_core::env::{env_bool, env_i64, env_list, env_nonblank, env_u32, env_u64, env_usize};

#[test]
fn numbers_are_read_from_trimmed_text() {
    assert_eq!(env_u64(" 30 "), Some(30));
    assert_eq!(env_u64("+7"), Some(7));
    assert_eq!(env_u64("-7"), None);
    assert_eq!(env_u64("3x"), None);
    assert_eq!(env_u64(""), None);
    assert_eq!(env_u32("4294967295"), Some(u32::MAX));
    assert_eq!(env_u32("4294967296"), None);
    assert_eq!(env_usize("1048576"), Some(1048576));
    assert_eq!(env_i64("-604800"), Some(-604800));
    assert_eq!(env_i64("-9223372036854775808"), Some(i64::MIN));
    assert_eq!(env_i64("9223372036854775808"), None);
    assert_eq!(env_i64("-+5"), None);
    assert_eq!(env_i64("-"), None);
    assert_eq!(env_i64(" +42"), Some(42));
}

#[test]
fn booleans_are_true_or_false() {
    assert_eq!(env_bool("true"), Some(true));
    assert_eq!(env_bool(" false\n"), Some(false));
    assert_eq!(env_bool("TRUE"), None);
    assert_eq!(env_bool("1"), None);
}

#[test]
fn lists_are_split_trimmed_and_blanks_dropped() {
    assert_eq!(env_list("https://a.com, https://b.com"), vec!["https://a.com", "https://b.com"]);
    assert_eq!(env_list(" , x ,,y,"), vec!["x", "y"]);
    assert!(env_list("").is_empty());
    assert_eq!(env_list("single"), vec!["single"]);
}

#[test]
fn blank_texts_count_as_absent() {
    assert_eq!(env_nonblank("redis://h".to_owned()), Some("redis://h".to_owned()));
    assert_eq!(env_nonblank("  ".to_owned()), None);
}
