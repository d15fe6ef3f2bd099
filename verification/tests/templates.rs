use mcpanel::json::JsonValue;
use mcpanel::plugins::templates::{fill_variables, TemplateManager};
use mcpanel::plugins::types::TemplateVariable;

#[test]
fn default_templates_only_when_empty() {
    let mut m = TemplateManager::new("tpl".to_string());
    assert_eq!(m.templates_dir(), "tpl");
    let added = m.create_default_templates_at(5);
    assert_eq!(added.len(), 3);
    assert_eq!(added[0].name, "EssentialsX Configuration");
    assert_eq!(added[0].template_name, "default");
    assert_eq!(added[0].variables.len(), 2);
    assert_eq!(added[0].variables[0].options, Some(vec!["en".to_string(), "zh_CN".to_string(), "zh_TW".to_string()]));
    assert_eq!(added[1].plugin_name, "LuckPerms");
    assert!(added[1].variables[0].required);
    assert_eq!(added[2].version, "7.x");
    assert!(added[2].variables.is_empty());
    assert_eq!(added[2].created_at, 5);
    assert!(m.create_default_templates_at(6).is_empty());
    assert_eq!(m.get_templates(None).len(), 3);
}

#[test]
fn default_configurations_are_json() {
    let m = TemplateManager::new("tpl".to_string());
    let e = m.create_essentials_template(1).unwrap();
    let v: serde_json::Value = serde_json::from_str(&e.config_template).unwrap();
    assert_eq!(v["nickname-length"].as_i64(), Some(16));
    assert_eq!(v[" Essentials"]["locale"].as_str(), Some("en"));
    let w = m.create_worldedit_template(1).unwrap();
    let v: serde_json::Value = serde_json::from_str(&w.config_template).unwrap();
    assert_eq!(v["region-selection"]["max-block-count"].as_i64(), Some(-1));
}

#[test]
fn lookup_by_plugin_ignores_case() {
    let mut m = TemplateManager::new("tpl".to_string());
    m.create_default_templates_at(1);
    let t = m.create_template_at("Mine".to_string(), "luckperms".to_string(), "5.x".to_string(), "{}".to_string(), vec![], "d".to_string(), 9).unwrap();
    assert_eq!(t.template_name, "custom");
    assert_eq!(t.usage_count, 0);
    let lp = m.get_templates(Some("LUCKPERMS"));
    assert_eq!(lp.len(), 2);
    assert!(m.get_template(&t.id).is_some());
    assert!(m.delete_template(&t.id));
    assert!(!m.delete_template(&t.id));
    assert!(m.get_template(&t.id).is_none());
}

#[test]
fn popular_templates_by_usage() {
    let mut m = TemplateManager::new("tpl".to_string());
    let a = m.create_template_at("A".to_string(), "p".to_string(), "1".to_string(), "{}".to_string(), vec![], "d".to_string(), 1).unwrap();
    let b = m.create_template_at("B".to_string(), "p".to_string(), "1".to_string(), "{}".to_string(), vec![], "d".to_string(), 1).unwrap();
    let c = m.create_template_at("C".to_string(), "p".to_string(), "1".to_string(), "{}".to_string(), vec![TemplateVariable {
        name: "x".to_string(), var_type: "string".to_string(), default_value: "1".to_string(), description: "x".to_string(), required: false, options: None,
    }], "d".to_string(), 1).unwrap();
    m.increment_usage(&b.id);
    m.increment_usage(&b.id);
    let after = m.increment_usage(&c.id).unwrap();
    assert_eq!(after.usage_count, 1);
    assert!(m.increment_usage("missing").is_none());
    let top: Vec<String> = m.get_popular_templates(2).into_iter().map(|t| t.name).collect();
    assert_eq!(top, vec!["B".to_string(), "C".to_string()]);
    assert_eq!(m.get_popular_templates(10).len(), 3);
    let _ = a;
}

fn variable(name: &str) -> TemplateVariable {
    TemplateVariable {
        name: name.to_string(),
        var_type: "string".to_string(),
        default_value: String::new(),
        description: String::new(),
        required: false,
        options: None,
    }
}

#[test]
fn applying_a_template_fills_its_variables() {
    let mut m = TemplateManager::new("tpl".to_string());
    let config = "{\"clipboard\":{\"use-disk\":false},\"name\":\"x\",\"size\":25}".to_string();
    let vars = vec![variable("clipboard.use-disk"), variable("size"), variable("name"), variable("absent")];
    let t = m
        .create_template_at("T".to_string(), "WorldEdit".to_string(), "7".to_string(), config, vars, String::new(), 1)
        .unwrap();
    let vals = vec![
        ("clipboard.use-disk".to_string(), "true".to_string()),
        ("size".to_string(), "2.5e1".to_string()),
        ("name".to_string(), "world".to_string()),
        ("other".to_string(), "ignored".to_string()),
    ];
    let r = m.apply_template(&t.id, &vals).unwrap();
    assert_eq!(
        r,
        JsonValue::Object(vec![
            ("clipboard".to_string(), JsonValue::Object(vec![("use-disk".to_string(), JsonValue::Bool(true))])),
            ("name".to_string(), JsonValue::Text("world".to_string())),
            ("size".to_string(), JsonValue::Number("2.5e1".to_string())),
        ])
    );
    assert_eq!(m.apply_template("nope", &vals), Err("Template not found".to_string()));
}

#[test]
fn applying_a_template_with_broken_json_gives_the_parse_error() {
    let mut m = TemplateManager::new("tpl".to_string());
    let t = m
        .create_template_at("T".to_string(), "P".to_string(), "1".to_string(), "{".to_string(), vec![], String::new(), 1)
        .unwrap();
    let e = m.apply_template(&t.id, &vec![]).unwrap_err();
    assert!(e.contains("EOF while parsing"), "{}", e);
}

#[test]
fn variables_fill_in_order() {
    let config = JsonValue::Object(vec![("a".to_string(), JsonValue::Null)]);
    let vals = vec![("a".to_string(), "1".to_string()), ("a".to_string(), "2".to_string())];
    let r = fill_variables(config, &vec![variable("a"), variable("b")], &vals);
    assert_eq!(r, JsonValue::Object(vec![("a".to_string(), JsonValue::Number("1".to_string()))]));
}
