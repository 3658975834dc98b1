use sigil::themes::{builtin, builtin_names};

#[test]
fn all_builtins_resolve() {
    for name in builtin_names() {
        let th = builtin(name).unwrap_or_else(|| panic!("missing {name}"));
        assert!(th.font.is_some() && th.gradient.is_some());
    }
    assert!(builtin("nope").is_none());
}

#[test]
fn lookup_is_case_insensitive() {
    assert!(builtin("CyberPunk").is_some());
}

#[test]
fn builtin_theme_contents() {
    let t = builtin("fire").unwrap();
    assert_eq!(t.font.as_deref(), Some("slant"));
    assert_eq!(t.gradient.as_deref(), Some("fire"));
    assert_eq!(t.border.as_deref(), Some("none"));
    assert_eq!(t.background, None);
    let t = builtin("retro").unwrap();
    assert_eq!(t.background.as_deref(), Some("#160042"));
    assert_eq!(t.colors, None);
    assert_eq!(builtin_names(), ["cyberpunk", "retro", "terminal", "fire", "ocean", "gold"]);
}
