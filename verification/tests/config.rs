use sigil::config::Config;

#[test]
fn merge_prefers_other() {
    let mut base = Config {
        gradient: Some("ocean".into()),
        font: Some("standard".into()),
        ..Config::default()
    };
    base.merge(Config {
        gradient: Some("fire".into()),
        ..Config::default()
    });
    assert_eq!(base.gradient.as_deref(), Some("fire")); // overridden
    assert_eq!(base.font.as_deref(), Some("standard")); // preserved
}

#[test]
fn named_gradients_merge_per_name() {
    let mut base = Config {
        gradients: vec![
            ("brand".to_string(), vec!["#000000".to_string()]),
            ("calm".to_string(), vec!["#111111".to_string()]),
        ],
        cycle: Some(2),
        ..Config::default()
    };
    base.merge(Config {
        gradients: vec![
            ("brand".to_string(), vec!["#ffffff".to_string()]),
            ("loud".to_string(), vec!["#ff0000".to_string()]),
        ],
        reverse: Some(true),
        ..Config::default()
    });
    assert_eq!(base.gradients.len(), 3);
    let get = |n: &str| base.gradients.iter().find(|(k, _)| k == n).map(|(_, v)| v.clone());
    assert_eq!(get("brand"), Some(vec!["#ffffff".to_string()]));
    assert_eq!(get("calm"), Some(vec!["#111111".to_string()]));
    assert_eq!(get("loud"), Some(vec!["#ff0000".to_string()]));
    assert_eq!(base.cycle, Some(2));
    assert_eq!(base.reverse, Some(true));
}

#[test]
fn merging_an_empty_config_changes_nothing() {
    let mut base = Config {
        align: Some("center".into()),
        fps: Some(12),
        ..Config::default()
    };
    base.merge(Config::empty());
    assert_eq!(base.align.as_deref(), Some("center"));
    assert_eq!(base.fps, Some(12));
    assert!(base.gradients.is_empty());
}
