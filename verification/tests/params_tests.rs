use bevy_mod_scripting_lua_rs::json::write_json_string;
use bevy_mod_scripting_lua_rs::params::{params_json, ParamRegistry, ParamSpec, ParamText};

fn spec(default: f64, min: f64, max: f64) -> ParamSpec<f64> {
    ParamSpec { default, min, max }
}

fn row(name: &str, value: &str, min: &str, max: &str) -> ParamText {
    ParamText {
        name: name.to_string(),
        value: value.to_string(),
        min: min.to_string(),
        max: max.to_string(),
    }
}

#[test]
fn declare_new_name_gives_default_and_appends() {
    let mut reg: ParamRegistry<f64> = ParamRegistry::new();
    assert_eq!(reg.declare("birth on".to_string(), spec(3.0, 0.0, 8.0)), 3.0);
    assert_eq!(reg.declare("survive min".to_string(), spec(2.0, 0.0, 8.0)), 2.0);
    assert_eq!(reg.len(), 2);
    let defs = reg.defs();
    assert_eq!(defs[0].name, "birth on");
    assert_eq!(defs[0].value, 3.0);
    assert_eq!(defs[0].min, 0.0);
    assert_eq!(defs[0].max, 8.0);
    assert_eq!(defs[1].name, "survive min");
}

#[test]
fn redeclare_keeps_value_and_first_bounds() {
    let mut reg: ParamRegistry<f64> = ParamRegistry::new();
    reg.declare("speed".to_string(), spec(1.0, 0.0, 2.0));
    assert_eq!(reg.declare("speed".to_string(), spec(5.0, -1.0, 9.0)), 1.0);
    assert_eq!(reg.len(), 1);
    assert_eq!(reg.defs()[0].min, 0.0);
    assert_eq!(reg.defs()[0].max, 2.0);
}

#[test]
fn set_then_declare_reads_set_value() {
    let mut reg: ParamRegistry<f64> = ParamRegistry::new();
    reg.declare("birth on".to_string(), spec(3.0, 0.0, 8.0));
    reg.set("birth on", 6.0);
    assert_eq!(reg.declare("birth on".to_string(), spec(3.0, 0.0, 8.0)), 6.0);
    assert_eq!(reg.defs()[0].value, 6.0);
    assert_eq!(reg.len(), 1);
}

#[test]
fn set_unknown_name_is_noop() {
    let mut reg: ParamRegistry<f64> = ParamRegistry::new();
    reg.declare("a".to_string(), spec(1.0, 0.0, 1.0));
    reg.set("b", 7.0);
    assert_eq!(reg.len(), 1);
    assert_eq!(reg.defs()[0].value, 1.0);
    assert_eq!(reg.declare("b".to_string(), spec(0.5, 0.0, 1.0)), 0.5);
}

#[test]
fn spec_from_args_fills_missing() {
    let fallback = spec(0.0, 0.0, 1.0);
    let s = ParamSpec::from_args(&vec![], fallback);
    assert_eq!((s.default, s.min, s.max), (0.0, 0.0, 1.0));
    let s = ParamSpec::from_args(&vec![4.0], spec(0.0, 0.0, 1.0));
    assert_eq!((s.default, s.min, s.max), (4.0, 0.0, 1.0));
    let s = ParamSpec::from_args(&vec![4.0, 2.0], spec(0.0, 0.0, 1.0));
    assert_eq!((s.default, s.min, s.max), (4.0, 2.0, 1.0));
    let s = ParamSpec::from_args(&vec![4.0, 2.0, 9.0, 100.0], spec(0.0, 0.0, 1.0));
    assert_eq!((s.default, s.min, s.max), (4.0, 2.0, 9.0));
}

#[test]
fn params_json_empty() {
    assert_eq!(params_json(&vec![]), "[]");
}

#[test]
fn params_json_rows_in_order() {
    let rows = vec![row("birth on", "3", "0", "8"), row("speed", "0.5", "0", "1")];
    assert_eq!(
        params_json(&rows),
        "[{\"name\":\"birth on\",\"value\":3,\"min\":0,\"max\":8},{\"name\":\"speed\",\"value\":0.5,\"min\":0,\"max\":1}]"
    );
}

#[test]
fn params_json_quotes_and_escapes_names() {
    let rows = vec![row("a\"b\\c", "1", "0", "1")];
    assert_eq!(
        params_json(&rows),
        "[{\"name\":\"a\\\"b\\\\c\",\"value\":1,\"min\":0,\"max\":1}]"
    );
}

#[test]
fn params_json_escapes_control_characters() {
    let rows = vec![row("a\u{1}b\n\u{1f}", "1", "0", "1")];
    assert_eq!(
        params_json(&rows),
        "[{\"name\":\"a\\u0001b\\u000a\\u001f\",\"value\":1,\"min\":0,\"max\":1}]"
    );
}

#[test]
fn params_json_keeps_other_characters() {
    let rows = vec![row("größe ✓\u{7f}", "null", "-1.5", "2")];
    assert_eq!(
        params_json(&rows),
        "[{\"name\":\"größe ✓\u{7f}\",\"value\":null,\"min\":-1.5,\"max\":2}]"
    );
}

#[test]
fn json_string_appends_quoted_text() {
    let mut out = "x=".to_string();
    write_json_string(&"say \"hi\"\t".to_string(), &mut out);
    assert_eq!(out, "x=\"say \\\"hi\\\"\\u0009\"");
    let mut empty = String::new();
    write_json_string(&String::new(), &mut empty);
    assert_eq!(empty, "\"\"");
}
