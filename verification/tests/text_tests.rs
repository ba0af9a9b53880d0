use bevy_mod_scripting_lua_rs::{i64_to_decimal, join_strings};

#[test]
fn decimal_matches_std() {
    for i in [0i64, 7, 10, 42, -1, -42, 1000, i64::MAX, i64::MIN, -9, 99, 100] {
        assert_eq!(i64_to_decimal(i), i.to_string());
    }
}

#[test]
fn decimal_exact_values() {
    assert_eq!(i64_to_decimal(-9223372036854775808), "-9223372036854775808");
    assert_eq!(i64_to_decimal(305), "305");
}

#[test]
fn join_with_separator() {
    let parts = vec!["a".to_string(), "".to_string(), "bc".to_string()];
    assert_eq!(join_strings(&parts, "\t"), "a\t\tbc");
    assert_eq!(join_strings(&vec![], ","), "");
    assert_eq!(join_strings(&vec!["x".to_string()], ","), "x");
}
