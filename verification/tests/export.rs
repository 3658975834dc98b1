use sigil::cli::Format;
use sigil::color::Rgb;
use sigil::export::{to_json, wrap};
use sigil::render::{compose, Banner};

#[test]
fn json_lists_every_cell() {
    let banner = Banner { lines: vec!["a \"".to_string(), "日".to_string()], width: 3 };
    let g = compose(&banner, None, (0, 0));
    let red = Rgb::new(255, 0, 0);
    let colors = vec![vec![red; 3]; 2];
    assert_eq!(
        to_json(&g, &colors),
        "{\"width\":3,\"height\":2,\"cells\":[\
[{\"char\":\"a\",\"color\":\"#ff0000\"},{\"char\":\" \",\"color\":null},{\"char\":\"\\\"\",\"color\":\"#ff0000\"}],\
[{\"char\":\"日\",\"color\":\"#ff0000\"},{\"char\":\"\",\"color\":null},{\"char\":\" \",\"color\":null}]]}\n"
    );
}

#[test]
fn wrapping_only_fences_markdown() {
    assert_eq!(wrap(Format::Markdown, "ab\n"), "```\nab\n```\n");
    assert_eq!(wrap(Format::Raw, "ab\n"), "ab\n");
    assert_eq!(wrap(Format::Term, ""), "");
}
