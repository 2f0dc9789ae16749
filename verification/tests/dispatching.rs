use cratesio_bot::client::{
    classify_status, fetch_url, fold_failure, inline_fetch_result, u16_to_decimal, FetchFailure,
    FetchMode,
};
use cratesio_bot::dispatch::{answer_results, plan_update, select_mode, UpdateEvent};
use cratesio_bot::package::RawPackage;

fn record() -> RawPackage {
    RawPackage {
        id: "1".to_string(),
        name: "serde".to_string(),
        description: Some("Serialization framework".to_string()),
        latest_version: "1.0.0".to_string(),
        documentation_url: None,
        repository_url: Some("https://github.com/serde-rs/serde".to_string()),
    }
}

#[test]
fn empty_text_selects_trending() {
    assert!(matches!(select_mode(String::new()), FetchMode::Trending));
}

#[test]
fn non_empty_text_selects_search() {
    match select_mode("tok".to_string()) {
        FetchMode::Search(q) => assert_eq!(q, "tok"),
        FetchMode::Trending => panic!("expected the search mode"),
    }
}

#[test]
fn trending_url_is_the_summary_endpoint() {
    let url = fetch_url(&FetchMode::Trending);
    assert_eq!(url, "https://crates.io/api/v1/summary");
}

#[test]
fn search_url_carries_text_and_fixed_parameters() {
    let url = fetch_url(&FetchMode::Search("tok".to_string()));
    assert_eq!(
        url,
        "https://crates.io/api/v1/crates?q=tok&sort=relevance&per_page=50"
    );
}

#[test]
fn search_url_encodes_the_query_text() {
    let url = fetch_url(&FetchMode::Search("serde json".to_string()));
    assert_eq!(
        url,
        "https://crates.io/api/v1/crates?q=serde+json&sort=relevance&per_page=50"
    );
    let url = fetch_url(&FetchMode::Search("a&b=c".to_string()));
    assert_eq!(
        url,
        "https://crates.io/api/v1/crates?q=a%26b%3Dc&sort=relevance&per_page=50"
    );
    let url = fetch_url(&FetchMode::Search("héllo".to_string()));
    assert_eq!(
        url,
        "https://crates.io/api/v1/crates?q=h%C3%A9llo&sort=relevance&per_page=50"
    );
}

#[test]
fn non_inline_updates_are_ignored() {
    assert!(plan_update(UpdateEvent::Other).is_none());
}

#[test]
fn inline_updates_yield_id_and_mode() {
    let plan = plan_update(UpdateEvent::InlineQuery {
        query_id: "q17".to_string(),
        query_text: String::new(),
    });
    let (id, mode) = plan.expect("an inline query must be planned");
    assert_eq!(id, "q17");
    assert!(matches!(mode, FetchMode::Trending));
}

#[test]
fn status_classification() {
    assert!(classify_status(200).is_none());
    assert!(classify_status(204).is_none());
    for code in [301u16, 404, 500] {
        match classify_status(code) {
            Some(FetchFailure::Status(c)) => assert_eq!(c, code),
            _ => panic!("a non-2xx status must fail"),
        }
    }
}

#[test]
fn failure_messages() {
    assert_eq!(
        fold_failure(FetchFailure::Transport("connection timed out".to_string())).message,
        "transport error: connection timed out"
    );
    assert_eq!(
        fold_failure(FetchFailure::Status(500)).message,
        "upstream status 500"
    );
    assert_eq!(
        fold_failure(FetchFailure::Decode("truncated body".to_string())).message,
        "decode error: truncated body"
    );
}

#[test]
fn decimal_writing() {
    assert_eq!(u16_to_decimal(0), "0");
    assert_eq!(u16_to_decimal(7), "7");
    assert_eq!(u16_to_decimal(404), "404");
    assert_eq!(u16_to_decimal(65535), "65535");
}

#[test]
fn every_failure_kind_yields_no_answer() {
    for failure in [
        FetchFailure::Status(500),
        FetchFailure::Transport("connection timed out".to_string()),
        FetchFailure::Decode("truncated body".to_string()),
    ] {
        let folded = inline_fetch_result(Err(failure));
        let outcome = folded.map_err(|e| e);
        assert!(answer_results(outcome).is_none());
    }
    // The dispatcher keeps working after a failure: the next update still
    // gets its answer.
    let next = answer_results(Ok(vec![record()]));
    assert_eq!(next.expect("a successful fetch must be answered").len(), 1);
}

#[test]
fn successful_fetch_passes_records_through() {
    let records = inline_fetch_result(Ok(vec![record()]));
    assert_eq!(records.unwrap().len(), 1);
}

#[test]
fn empty_query_end_to_end() {
    let plan = plan_update(UpdateEvent::InlineQuery {
        query_id: "q1".to_string(),
        query_text: String::new(),
    });
    let (_, mode) = plan.unwrap();
    assert_eq!(fetch_url(&mode), "https://crates.io/api/v1/summary");
    // The registry answers with one record.
    let results = answer_results(Ok(vec![record()])).unwrap();
    assert_eq!(results.len(), 1);
    assert_eq!(results[0].title, "serde 1.0.0");
    assert_eq!(results[0].body, "<b>serde</b> (1.0.0)\nSerialization framework");
    let labels: Vec<&str> = results[0].buttons.iter().map(|b| b.label.as_str()).collect();
    assert_eq!(labels, ["info", "lib.rs", "doc", "repo"]);
    assert_eq!(results[0].buttons[2].url, "https://docs.rs/crate/serde");
}

#[test]
fn search_with_no_records_answers_zero_results() {
    let plan = plan_update(UpdateEvent::InlineQuery {
        query_id: "q2".to_string(),
        query_text: "tok".to_string(),
    });
    let (_, mode) = plan.unwrap();
    assert_eq!(
        fetch_url(&mode),
        "https://crates.io/api/v1/crates?q=tok&sort=relevance&per_page=50"
    );
    // The registry answers with zero records: an answer is still owed.
    let results = answer_results(Ok(Vec::new()));
    assert_eq!(results.expect("zero records are an answer, not an error").len(), 0);
}
