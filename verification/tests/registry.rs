use meme_bot::registry::TemplateRegistry;

#[test]
fn lookup_is_case_insensitive() {
    let mut reg = TemplateRegistry::new();
    reg.insert("Drake", "181913649");
    assert_eq!(reg.lookup("drake"), Some("181913649".to_string()));
    assert_eq!(reg.lookup("DRAKE"), Some("181913649".to_string()));
    assert_eq!(reg.lookup("DrAkE"), Some("181913649".to_string()));
    assert_eq!(reg.lookup("drake"), reg.lookup("DRAKE"));
}

#[test]
fn lookup_on_empty_registry_finds_nothing() {
    let reg = TemplateRegistry::new();
    assert_eq!(reg.lookup("drake"), None);
    assert_eq!(reg.lookup(""), None);
}

#[test]
fn insert_replaces_an_existing_name() {
    let mut reg = TemplateRegistry::new();
    reg.insert("Drake", "1");
    reg.insert("drake", "2");
    assert_eq!(reg.lookup("Drake"), Some("2".to_string()));
    assert_eq!(reg.list(), vec!["drake".to_string()]);
}

#[test]
fn reload_parses_a_json_object() {
    let mut reg = TemplateRegistry::new();
    let ok = reg.reload(r#"{"Drake":"181913649","two-buttons":"87743020"}"#);
    assert!(ok);
    assert_eq!(reg.lookup("drake"), Some("181913649".to_string()));
    assert_eq!(reg.lookup("Two-Buttons"), Some("87743020".to_string()));
    assert_eq!(reg.list(), vec!["drake".to_string(), "two-buttons".to_string()]);
}

#[test]
fn failed_reload_keeps_the_previous_mapping() {
    let mut reg = TemplateRegistry::new();
    assert!(reg.reload(r#"{"drake":"181913649"}"#));
    let before = reg.list();
    assert!(!reg.reload("not json at all"));
    assert_eq!(reg.list(), before);
    assert_eq!(reg.lookup("drake"), Some("181913649".to_string()));
    assert!(!reg.reload(r#"{"drake": 3}"#));
    assert_eq!(reg.list(), before);
}

#[test]
fn reload_replaces_the_mapping_wholesale() {
    let mut reg = TemplateRegistry::new();
    assert!(reg.reload(r#"{"a":"1"}"#));
    assert!(reg.reload(r#"{"b":"2"}"#));
    assert_eq!(reg.lookup("a"), None);
    assert_eq!(reg.lookup("b"), Some("2".to_string()));
    assert_eq!(reg.list(), vec!["b".to_string()]);
}

#[test]
fn reload_merges_names_equal_up_to_case() {
    let mut reg = TemplateRegistry::new();
    assert!(reg.reload(r#"{"A":"1","a":"2"}"#));
    assert_eq!(reg.list(), vec!["a".to_string()]);
    assert_eq!(reg.lookup("a"), Some("2".to_string()));
}

#[test]
fn reload_accepts_an_empty_object() {
    let mut reg = TemplateRegistry::new();
    assert!(reg.reload(r#"{"a":"1"}"#));
    assert!(reg.reload("{}"));
    assert_eq!(reg.list(), Vec::<String>::new());
}
