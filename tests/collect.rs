use config::{value_kind, ConfigMap, Environment, Value, ValueKind, ORIGIN};

fn vars(pairs: &[(&str, &str)]) -> Vec<(String, String)> {
    pairs
        .iter()
        .map(|(k, v)| (k.to_string(), v.to_string()))
        .collect()
}

fn string_at(m: &ConfigMap, key: &str) -> String {
    match &m.get(key).expect("key present").kind {
        ValueKind::String(s) => s.clone(),
        other => panic!("expected a string, found {:?}", other),
    }
}

#[test]
fn prefix_excludes_other_names() {
    let env = Environment::with_prefix("config");
    let m = env.collect(&vars(&[
        ("CONFIG_DEBUG", "true"),
        ("HOME", "/root"),
        ("CONFIGURE", "x"),
        ("OTHER_CONFIG_X", "y"),
        ("CONFIG", "z"),
    ]));
    assert_eq!(m.len(), 1);
    assert!(m.contains_key("debug"));
    assert!(!m.contains_key("home"));
    assert!(!m.contains_key("configure"));
    assert!(!m.contains_key("ure"));
    assert!(!m.contains_key("other_config_x"));
    assert!(!m.contains_key("config"));
}

#[test]
fn prefix_is_stripped_and_key_lowered() {
    let env = Environment::new().prefix("config");
    let m = env.collect(&vars(&[("CONFIG_DEBUG", "true")]));
    assert_eq!(m.len(), 1);
    assert_eq!(string_at(&m, "debug"), "true");
    assert!(!m.contains_key("DEBUG"));
    assert_eq!(m.get("debug").unwrap().origin.as_deref(), Some("the environment"));
}

#[test]
fn separator_becomes_dot() {
    let env = Environment::new().separator("_");
    let m = env.collect(&vars(&[("REDIS_PASSWORD", "secret")]));
    assert_eq!(m.len(), 1);
    assert_eq!(string_at(&m, "redis.password"), "secret");
}

#[test]
fn prefix_and_separator_together() {
    let env = Environment::with_prefix("app").separator("__");
    let m = env.collect(&vars(&[("APP_REDIS__HOST_NAME", "h"), ("REDIS__PORT", "1")]));
    assert_eq!(m.len(), 1);
    assert_eq!(string_at(&m, "redis.host_name"), "h");
}

#[test]
fn empty_separator_changes_nothing() {
    let env = Environment::new().separator("");
    let m = env.collect(&vars(&[("A_B", "1")]));
    assert_eq!(string_at(&m, "a_b"), "1");
}

#[test]
fn ignore_empty_drops_empty_values() {
    let env = Environment::new().ignore_empty(true);
    let m = env.collect(&vars(&[("FOO", ""), ("BAR", "x")]));
    assert!(!m.contains_key("foo"));
    assert_eq!(string_at(&m, "bar"), "x");
    assert_eq!(m.len(), 1);
}

#[test]
fn empty_values_kept_by_default() {
    let env = Environment::new();
    let m = env.collect(&vars(&[("FOO", "")]));
    assert_eq!(string_at(&m, "foo"), "");
    let m = Environment::new().ignore_empty(false).collect(&vars(&[("FOO", "")]));
    assert_eq!(string_at(&m, "foo"), "");
}

#[test]
fn numbers_are_parsed_when_asked() {
    let env = Environment::new().parse_numbers(true);
    let m = env.collect(&vars(&[
        ("PORT", "8080"),
        ("RATIO", "0.5"),
        ("NAME", "abc"),
        ("VERSION", "1.0.0"),
    ]));
    assert_eq!(m.get("port").unwrap().kind, ValueKind::Integer(8080));
    match &m.get("ratio").unwrap().kind {
        ValueKind::Float(t) => assert_eq!(t.parse::<f64>().unwrap(), 0.5),
        other => panic!("expected a float, found {:?}", other),
    }
    assert_eq!(string_at(&m, "name"), "abc");
    assert_eq!(string_at(&m, "version"), "1.0.0");
}

#[test]
fn numbers_stay_text_by_default() {
    let m = Environment::new().collect(&vars(&[("PORT", "8080"), ("RATIO", "0.5")]));
    assert_eq!(string_at(&m, "port"), "8080");
    assert_eq!(string_at(&m, "ratio"), "0.5");
}

#[test]
fn collecting_twice_gives_the_same_map() {
    let env = Environment::with_prefix("app").separator("_").parse_numbers(true);
    let input = vars(&[("APP_A_B", "1"), ("APP_C", "x"), ("D", "2"), ("APP_E", "2.5")]);
    let first = env.collect(&input);
    let second = env.collect(&input);
    assert_eq!(first.len(), second.len());
    for (k, v) in first.into_entries() {
        assert_eq!(second.get(&k), Some(&v));
        assert_eq!(v.origin.as_deref(), Some(ORIGIN));
    }
}

#[test]
fn prefix_matches_in_any_case() {
    let env = Environment::with_prefix("config");
    for name in ["CONFIG_X", "config_X", "Config_X"] {
        let m = env.collect(&vars(&[(name, "v")]));
        assert_eq!(m.len(), 1);
        assert_eq!(string_at(&m, "x"), "v");
    }
    let upper = Environment::with_prefix("CONFIG").collect(&vars(&[("config_y", "w")]));
    assert_eq!(string_at(&upper, "y"), "w");
}

#[test]
fn no_variables_give_an_empty_map() {
    let m = Environment::new().collect(&Vec::new());
    assert_eq!(m.len(), 0);
    assert!(m.into_entries().is_empty());
}

#[test]
fn later_variable_wins_on_equal_keys() {
    let env = Environment::new();
    let m = env.collect(&vars(&[("Key", "first"), ("KEY", "second")]));
    assert_eq!(m.len(), 1);
    assert_eq!(string_at(&m, "key"), "second");
}

#[test]
fn builders_replace_settings() {
    let env = Environment::with_prefix("a").prefix("b");
    let m = env.collect(&vars(&[("A_X", "1"), ("B_Y", "2")]));
    assert_eq!(m.len(), 1);
    assert_eq!(string_at(&m, "y"), "2");
}

#[test]
fn without_prefix_every_name_is_read() {
    let m = Environment::default().collect(&vars(&[("PATH", "/bin"), ("Mixed_Case", "v")]));
    assert_eq!(m.len(), 2);
    assert_eq!(string_at(&m, "path"), "/bin");
    assert_eq!(string_at(&m, "mixed_case"), "v");
}

#[test]
fn integer_forms() {
    assert_eq!(value_kind(true, "+5"), ValueKind::Integer(5));
    assert_eq!(value_kind(true, "-42"), ValueKind::Integer(-42));
    assert_eq!(value_kind(true, "9223372036854775807"), ValueKind::Integer(i64::MAX));
    assert_eq!(value_kind(true, "-9223372036854775808"), ValueKind::Integer(i64::MIN));
    assert_eq!(value_kind(true, "007"), ValueKind::Integer(7));
    assert_eq!(
        value_kind(true, "9223372036854775808"),
        ValueKind::Float("9223372036854775808".to_string())
    );
    assert_eq!(value_kind(true, "-"), ValueKind::String("-".to_string()));
    assert_eq!(value_kind(true, ""), ValueKind::String(String::new()));
    assert_eq!(value_kind(true, " 1"), ValueKind::String(" 1".to_string()));
    assert_eq!(value_kind(false, "12"), ValueKind::String("12".to_string()));
}

#[test]
fn float_forms() {
    for t in ["0.5", ".5", "5.", "1e5", "1E-3", "+2.5e+10", "inf", "-Infinity", "NaN", "nan"] {
        assert_eq!(value_kind(true, t), ValueKind::Float(t.to_string()), "{}", t);
    }
    for t in ["1.0.0", ".", "e5", "1e", "1e+", "abc", "in", "0x10", "1_000", "--1"] {
        assert_eq!(value_kind(true, t), ValueKind::String(t.to_string()), "{}", t);
    }
}

#[test]
fn float_syntax_agrees_with_std() {
    let samples = [
        "", "0", "1", "-1", "+1", "0.5", ".5", "5.", ".", "+.", "-.5", "1e5", "1E5", "1e-5",
        "1e+5", "1e", "e1", "1.5e3", "1.e3", ".e3", "inf", "INF", "Inf", "-inf", "+inf",
        "infinity", "InFiNiTy", "infinit", "nan", "NaN", "-nan", "nana", "1.0.0", "abc",
        " 1", "1 ", "1_0", "0x1", "++1", "1e5.5", "١", "1ee5", "-", "+",
    ];
    for s in samples {
        assert_eq!(config::float_syntax(s), s.parse::<f64>().is_ok(), "{:?}", s);
    }
}

#[test]
fn map_insert_replaces() {
    let mut m = ConfigMap::new();
    assert_eq!(m.len(), 0);
    m.insert("a".to_string(), Value::new(None, ValueKind::Integer(1)));
    m.insert("b".to_string(), Value::new(Some("here"), ValueKind::String("s".to_string())));
    m.insert("a".to_string(), Value::new(None, ValueKind::Integer(2)));
    assert_eq!(m.len(), 2);
    assert_eq!(m.get("a").unwrap().kind, ValueKind::Integer(2));
    assert_eq!(m.get("b").unwrap().origin.as_deref(), Some("here"));
    assert!(m.get("c").is_none());
    let mut entries = m.into_entries();
    entries.sort_by(|x, y| x.0.cmp(&y.0));
    assert_eq!(entries[0].0, "a");
    assert_eq!(entries[1].0, "b");
}
