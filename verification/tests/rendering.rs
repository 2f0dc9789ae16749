use cratesio_bot::package::RawPackage;
use cratesio_bot::render::render;

fn package(
    id: &str,
    name: &str,
    description: Option<&str>,
    version: &str,
    documentation: Option<&str>,
    repository: Option<&str>,
) -> RawPackage {
    RawPackage {
        id: id.to_string(),
        name: name.to_string(),
        description: description.map(|s| s.to_string()),
        latest_version: version.to_string(),
        documentation_url: documentation.map(|s| s.to_string()),
        repository_url: repository.map(|s| s.to_string()),
    }
}

#[test]
fn trending_example_record() {
    let p = package(
        "1",
        "serde",
        Some("Serialization framework"),
        "1.0.0",
        None,
        Some("https://github.com/serde-rs/serde"),
    );
    let r = render(p);
    assert_eq!(r.id, "1");
    assert_eq!(r.title, "serde 1.0.0");
    assert_eq!(r.body, "<b>serde</b> (1.0.0)\nSerialization framework");
    let labels: Vec<&str> = r.buttons.iter().map(|b| b.label.as_str()).collect();
    assert_eq!(labels, ["info", "lib.rs", "doc", "repo"]);
    let urls: Vec<&str> = r.buttons.iter().map(|b| b.url.as_str()).collect();
    assert_eq!(
        urls,
        [
            "https://crates.io/crates/serde",
            "https://lib.rs/crates/serde",
            "https://docs.rs/crate/serde",
            "https://github.com/serde-rs/serde",
        ]
    );
    assert!(r.preview_disabled);
}

#[test]
fn declared_documentation_wins_over_default() {
    let p = package("2", "tokio", None, "1.38.0", Some("https://docs.rs/tokio"), None);
    let r = render(p);
    assert_eq!(r.buttons[2].label, "doc");
    assert_eq!(r.buttons[2].url, "https://docs.rs/tokio");
}

#[test]
fn absent_description_leaves_one_line_body() {
    let p = package("3", "x", None, "0.1.0", None, None);
    let r = render(p);
    assert_eq!(r.body, "<b>x</b> (0.1.0)");
}

#[test]
fn absent_repository_leaves_three_buttons() {
    let p = package("3", "x", None, "0.1.0", None, None);
    let r = render(p);
    assert_eq!(r.buttons.len(), 3);
    assert!(r.buttons.iter().all(|b| b.label != "repo"));
}

#[test]
fn repo_button_is_always_last() {
    let p = package("4", "y", None, "2.0.0", Some("https://d.example"), Some("https://r.example"));
    let r = render(p);
    assert_eq!(r.buttons.len(), 4);
    assert_eq!(r.buttons.last().unwrap().label, "repo");
    assert_eq!(r.buttons.last().unwrap().url, "https://r.example");
}

#[test]
fn description_is_escaped_and_collapsed_with_code_spans() {
    let p = package(
        "5",
        "demo",
        Some("a <fast> &simple\n\n  `Vec<u8>` helper"),
        "0.2.0",
        None,
        None,
    );
    let r = render(p);
    assert_eq!(
        r.body,
        "<b>demo</b> (0.2.0)\na &lt;fast&gt; &amp;simple <code>Vec&lt;u8&gt;</code> helper"
    );
}

#[test]
fn version_is_escaped_in_body_but_not_title() {
    let p = package("6", "odd", None, "1.0.0-beta<2>", None, None);
    let r = render(p);
    assert_eq!(r.title, "odd 1.0.0-beta<2>");
    assert_eq!(r.body, "<b>odd</b> (1.0.0-beta&lt;2&gt;)");
}

#[test]
fn rendering_is_pure() {
    let make = || package("7", "same", Some("text `x`"), "3.1.4", None, Some("https://r.example"));
    let r1 = render(make());
    let r2 = render(make());
    assert_eq!(r1.id, r2.id);
    assert_eq!(r1.title, r2.title);
    assert_eq!(r1.body, r2.body);
    assert_eq!(r1.buttons.len(), r2.buttons.len());
    for (b1, b2) in r1.buttons.iter().zip(r2.buttons.iter()) {
        assert_eq!(b1.label, b2.label);
        assert_eq!(b1.url, b2.url);
    }
    assert_eq!(r1.preview_disabled, r2.preview_disabled);
}
