use bevy_mod_scripting_lua_rs::errors::{
    error_message, error_text, error_value, has_string_payload, lua_err_msg, lua_err_text,
    ErrorPayload, LuaErrorKind,
};
use lua_types::gc::GcRef;
use lua_types::string::LuaString;
use lua_types::value::LuaValue;
use lua_types::LuaError;

fn str_value(text: &[u8]) -> LuaValue {
    LuaValue::Str(GcRef::new(LuaString::from_bytes(text.to_vec())))
}

#[test]
fn runtime_string_message() {
    let e = LuaError::Runtime(str_value(b"boom at 3"));
    assert_eq!(lua_err_msg(&e), "boom at 3");
    assert_eq!(lua_err_text(&e), "lua-rs: boom at 3");
}

#[test]
fn syntax_string_message() {
    let e = LuaError::Syntax(str_value(b"unexpected symbol"));
    assert_eq!(lua_err_msg(&e), "unexpected symbol");
}

#[test]
fn invalid_utf8_is_replaced() {
    let e = LuaError::Runtime(LuaValue::Str(GcRef::new(LuaString::from_bytes(vec![b'a', 0xff]))));
    assert_eq!(lua_err_msg(&e), "a\u{FFFD}");
}

#[test]
fn runtime_non_string_payload_uses_debug() {
    let e = LuaError::Runtime(LuaValue::Int(5));
    assert_eq!(lua_err_msg(&e), format!("{:?}", e));
}

#[test]
fn non_string_error_uses_debug() {
    let e = LuaError::Memory;
    assert_eq!(lua_err_msg(&e), "Memory");
    assert_eq!(lua_err_text(&e), "lua-rs: Memory");
}

#[test]
fn message_from_carried_payload() {
    let debug = "Gc".to_string();
    assert_eq!(error_message(&Some(ErrorPayload::Str(b"x y".to_vec())), &debug), "x y");
    assert_eq!(error_message(&Some(ErrorPayload::Int(3)), &debug), "Gc");
    assert_eq!(error_message(&None, &debug), "Gc");
    assert!(has_string_payload(&Some(ErrorPayload::Str(vec![]))));
    assert!(!has_string_payload(&Some(ErrorPayload::Nil)));
    assert!(!has_string_payload(&None));
}

#[test]
fn only_runtime_and_syntax_carry_values() {
    assert!(error_value(LuaErrorKind::Runtime(LuaValue::Int(1))).is_some());
    assert!(error_value(LuaErrorKind::Syntax(LuaValue::Nil)).is_some());
    assert!(error_value(LuaErrorKind::Memory).is_none());
    assert!(error_value(LuaErrorKind::Gc).is_none());
}

#[test]
fn error_text_prefixes_every_message() {
    assert_eq!(error_text(&"boom".to_string()), "lua-rs: boom");
    assert_eq!(error_text(&String::new()), "lua-rs: ");
    let e = LuaError::Yield;
    assert_eq!(lua_err_text(&e), "lua-rs: Yield");
}
