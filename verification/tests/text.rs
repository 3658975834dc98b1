use sigil::text::sanitize;

#[test]
fn ascii_passes_through() {
    assert_eq!(sanitize("Hello, World! 123"), "Hello, World! 123");
}

#[test]
fn accents_are_folded() {
    assert_eq!(sanitize("café"), "cafe");
    assert_eq!(sanitize("naïve"), "naive");
    assert_eq!(sanitize("Zürich"), "Zurich");
}

#[test]
fn ligatures_spelled_out() {
    assert_eq!(sanitize("straße"), "strasse");
    assert_eq!(sanitize("æon"), "aeon");
}

#[test]
fn unrenderable_becomes_placeholder() {
    assert_eq!(sanitize("日本"), "??");
    assert_eq!(sanitize("Hi\u{1f44b}"), "Hi?");
}

#[test]
fn whitespace_becomes_spaces() {
    assert_eq!(sanitize("a\tb\nc"), "a b c");
    assert_eq!(sanitize(""), "");
}

#[test]
fn more_spellings() {
    assert_eq!(sanitize("Œuvre"), "OEuvre");
    assert_eq!(sanitize("Øl"), "Ol");
}

#[test]
fn sanitizing_twice_changes_nothing_more() {
    for s in ["café", "straße", "Hi\u{1f44b}", "a\tb", "plain ASCII ~!"] {
        let once = sanitize(s);
        assert_eq!(sanitize(&once), once);
    }
}
