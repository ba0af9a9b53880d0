use bevy_mod_scripting_lua_rs::display::{log_call, print_line, value_to_display, LogSink, LogValue};

#[test]
fn display_of_each_kind() {
    assert_eq!(value_to_display(&LogValue::Nil), "nil");
    assert_eq!(value_to_display(&LogValue::Boolean(true)), "true");
    assert_eq!(value_to_display(&LogValue::Boolean(false)), "false");
    assert_eq!(value_to_display(&LogValue::Integer(-12)), "-12");
    assert_eq!(value_to_display(&LogValue::Number("1.5".to_string())), "1.5");
    assert_eq!(value_to_display(&LogValue::Text("hi".to_string())), "hi");
    assert_eq!(value_to_display(&LogValue::Other("Table(..)".to_string())), "Table(..)");
}

#[test]
fn print_line_joins_with_tabs() {
    let args = vec![
        LogValue::Text("frame".to_string()),
        LogValue::Integer(3),
        LogValue::Nil,
        LogValue::Boolean(true),
    ];
    assert_eq!(print_line(&args), "[lua] frame\t3\tnil\ttrue");
    assert_eq!(print_line(&vec![]), "[lua] ");
}

#[test]
fn log_call_routes_numbers_to_info() {
    let out = log_call(&LogValue::Integer(7), &"Integer(7)".to_string());
    assert!(matches!(out.sink, LogSink::Info));
    assert_eq!(out.line, "[lua-rs<-bms] log: 7");
    let out = log_call(&LogValue::Number("2.5".to_string()), &"Number(2.5)".to_string());
    assert!(matches!(out.sink, LogSink::Info));
    assert_eq!(out.line, "[lua-rs<-bms] log: 2.5");
}

#[test]
fn log_call_routes_rest_to_stderr() {
    let out = log_call(&LogValue::Text("hello".to_string()), &"String(..)".to_string());
    assert!(matches!(out.sink, LogSink::Stderr));
    assert_eq!(out.line, "[lua log] hello");
    let out = log_call(&LogValue::Nil, &"Nil".to_string());
    assert!(matches!(out.sink, LogSink::Stderr));
    assert_eq!(out.line, "[lua log] Nil");
    let out = log_call(&LogValue::Boolean(true), &"Boolean(true)".to_string());
    assert_eq!(out.line, "[lua log] Boolean(true)");
}
