use cratesio_bot::about::AboutCommand;
use cratesio_bot::client::FetchFailure;
use cratesio_bot::lookup::{lookup_url, run, CrateInfo};

fn info(
    name: &str,
    description: &str,
    version: &str,
    documentation: Option<&str>,
    repository: Option<&str>,
) -> CrateInfo {
    CrateInfo {
        id: name.to_string(),
        name: name.to_string(),
        description: description.to_string(),
        max_version: version.to_string(),
        documentation: documentation.map(|s| s.to_string()),
        repository: repository.map(|s| s.to_string()),
    }
}

#[test]
fn lookup_url_trims_and_encodes() {
    assert_eq!(lookup_url("  serde "), "https://crates.io/api/v1/crates/serde");
    assert_eq!(lookup_url("two words"), "https://crates.io/api/v1/crates/two%20words");
    assert_eq!(lookup_url("a/b"), "https://crates.io/api/v1/crates/a%2Fb");
}

#[test]
fn successful_lookup_message() {
    let m = run(
        "serde",
        Ok(info(
            "serde",
            "A   serialization\nframework",
            "1.0.0",
            None,
            Some("https://github.com/serde-rs/serde"),
        )),
    )
    .expect("a fetched record must yield a message");
    let mut expected = String::from("<b>serde</b> (1.0.0)");
    expected.push_str(" - <a href=\"https&#x3A;&#x2F;&#x2F;crates&#x2E;io&#x2F;crates&#x2F;serde\">info</a>");
    expected.push_str(" - <a href=\"https&#x3A;&#x2F;&#x2F;docs&#x2E;rs&#x2F;crate&#x2F;serde\">doc</a>");
    expected.push_str(" - <a href=\"https&#x3A;&#x2F;&#x2F;github&#x2E;com&#x2F;serde&#x2D;rs&#x2F;serde\">repo</a>");
    expected.push_str(" - A serialization framework");
    assert_eq!(m, expected);
}

#[test]
fn lookup_without_repository_omits_its_link() {
    let m = run("x", Ok(info("x", "d", "0.1.0", Some("https://d.example"), None))).unwrap();
    assert!(!m.contains(">repo</a>"));
    assert!(m.contains(">info</a>"));
    assert!(m.contains(">doc</a>"));
}

#[test]
fn not_found_status_is_a_message_not_an_error() {
    let m = run(" serde ", Err(FetchFailure::Status(404))).unwrap();
    assert_eq!(m, "<b>serde</b> - not found");
}

#[test]
fn other_failures_stay_errors() {
    let e = run("serde", Err(FetchFailure::Status(500))).unwrap_err();
    assert_eq!(e.message, "upstream status 500");
    let e = run("serde", Err(FetchFailure::Transport("dns failure".to_string()))).unwrap_err();
    assert_eq!(e.message, "transport error: dns failure");
}

#[test]
fn about_text() {
    assert_eq!(
        AboutCommand::run("cratesio-bot", "0.1.0", "https://example.invalid/bot"),
        "cratesio-bot 0.1.0\nhttps://example.invalid/bot"
    );
}
