use mcpanel::json::{reads_as_number, set_nested_value, split_path, typed_value, JsonValue};

fn text(s: &str) -> JsonValue {
    JsonValue::Text(s.to_string())
}

fn obj(entries: Vec<(&str, JsonValue)>) -> JsonValue {
    JsonValue::Object(entries.into_iter().map(|(k, v)| (k.to_string(), v)).collect())
}

#[test]
fn numbers_read_as_doubles_do() {
    for s in ["1", "-2.5e3", ".5", "1.", "+3", "inf", "-Infinity", "NaN", "nan", "1E+7", "007"] {
        assert!(reads_as_number(s), "{}", s);
        assert!(s.parse::<f64>().is_ok(), "{}", s);
    }
    for s in ["", "1e", "e5", "1.2.3", " 1", "abc", ".", "+", "1e+", "infinit", "0x10", "1_000"] {
        assert!(!reads_as_number(s), "{}", s);
        assert!(s.parse::<f64>().is_err(), "{}", s);
    }
}

#[test]
fn paths_split_at_every_dot() {
    assert_eq!(split_path("a.b.c"), vec!["a", "b", "c"]);
    assert_eq!(split_path("debug"), vec!["debug"]);
    assert_eq!(split_path(""), vec![""]);
    assert_eq!(split_path("a..b."), vec!["a", "", "b", ""]);
}

#[test]
fn values_are_typed_as_written() {
    assert_eq!(typed_value("true", false), JsonValue::Bool(true));
    assert_eq!(typed_value("false", true), JsonValue::Bool(false));
    assert_eq!(typed_value("16", true), JsonValue::Number("16".to_string()));
    assert_eq!(typed_value("16", false), text("16"));
    assert_eq!(typed_value("True", false), text("True"));
}

#[test]
fn top_level_keys_are_replaced_or_added() {
    let config = || obj(vec![("debug", JsonValue::Bool(false)), ("locale", text("en"))]);
    let r = set_nested_value("debug", "true", false, config());
    assert_eq!(r, obj(vec![("debug", JsonValue::Bool(true)), ("locale", text("en"))]));
    let r = set_nested_value("size", "25", true, config());
    assert_eq!(
        r,
        obj(vec![("debug", JsonValue::Bool(false)), ("locale", text("en")), ("size", JsonValue::Number("25".to_string()))])
    );
}

#[test]
fn nested_paths_walk_existing_objects_only() {
    let config = || obj(vec![("history", obj(vec![("size", JsonValue::Number("25".to_string()))])), ("x", text("y"))]);
    let r = set_nested_value("history.size", "50", true, config());
    assert_eq!(r, obj(vec![("history", obj(vec![("size", JsonValue::Number("50".to_string()))])), ("x", text("y"))]));
    let r = set_nested_value("history.kept", "all", false, config());
    assert_eq!(
        r,
        obj(vec![("history", obj(vec![("size", JsonValue::Number("25".to_string())), ("kept", text("all"))])), ("x", text("y"))])
    );
    assert_eq!(set_nested_value("missing.size", "1", true, config()), config());
    assert_eq!(set_nested_value("x.y", "1", true, config()), config());
    assert_eq!(set_nested_value("a", "1", true, text("plain")), text("plain"));
}
