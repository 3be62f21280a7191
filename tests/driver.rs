use together_cli::embeddings::{
    embedding_file_name, embedding_models, embedding_path, embedding_request_body, EmbeddingError,
};
use together_cli::stream::{reconnect_delay_secs, start, step, DriverAction, DriverSignal, DriverState};

#[test]
fn backoff_doubles_then_caps() {
    let got: Vec<u64> = (1..=9).map(reconnect_delay_secs).collect();
    assert_eq!(got, vec![1, 2, 4, 8, 16, 32, 60, 60, 60]);
    assert_eq!(reconnect_delay_secs(0), 0);
    assert_eq!(reconnect_delay_secs(u32::MAX), 60);
}

#[test]
fn first_attempt_opens_at_once_and_its_failure_is_retried() {
    let (s, a) = start();
    assert_eq!(a, DriverAction::Reopen { wait_secs: 0 });
    let (s1, a1) = step(s, DriverSignal::ConnectFailed);
    assert_eq!((s1, a1), (DriverState::Reconnecting { failures: 1 }, DriverAction::Reopen { wait_secs: 1 }));
    assert_eq!(
        step(s, DriverSignal::Dropped),
        (DriverState::Reconnecting { failures: 1 }, DriverAction::Reopen { wait_secs: 1 })
    );
    let (s2, a2) = step(s1, DriverSignal::ConnectFailed);
    assert_eq!((s2, a2), (DriverState::Reconnecting { failures: 2 }, DriverAction::Reopen { wait_secs: 2 }));
}

#[test]
fn drops_reconnect_with_growing_waits() {
    let (s, _) = start();
    let (s, a) = step(s, DriverSignal::Connected);
    assert_eq!((s, a), (DriverState::Streaming, DriverAction::Read));
    let (s, a) = step(s, DriverSignal::Dropped);
    assert_eq!(a, DriverAction::Reopen { wait_secs: 1 });
    let (s, a) = step(s, DriverSignal::ConnectFailed);
    assert_eq!(a, DriverAction::Reopen { wait_secs: 2 });
    let (s, a) = step(s, DriverSignal::ConnectFailed);
    assert_eq!(a, DriverAction::Reopen { wait_secs: 4 });
    let (s, a) = step(s, DriverSignal::Connected);
    assert_eq!((s, a), (DriverState::Streaming, DriverAction::Read));
    let (_, a) = step(s, DriverSignal::Dropped);
    assert_eq!(a, DriverAction::Reopen { wait_secs: 1 });
}

#[test]
fn clean_end_closes_and_failure_reports() {
    let (s, a) = step(DriverState::Streaming, DriverSignal::EndOfStream);
    assert_eq!((s, a), (DriverState::Closed, DriverAction::Stop));
    assert_eq!(step(s, DriverSignal::Connected), (DriverState::Closed, DriverAction::Stop));
    let (s, a) = step(DriverState::Streaming, DriverSignal::Fatal);
    assert_eq!((s, a), (DriverState::Failed, DriverAction::Report));
}

#[test]
fn embedding_file_is_named_by_model_and_index() {
    let text = r#"{"data": [{"index": 0, "embedding": [0.1, 0.2]}]}"#;
    assert_eq!(
        embedding_file_name("out", "org/model-1", text).unwrap(),
        "out/org_model-1_0.json"
    );
    let text = r#"{"data": [{"index": -12}]}"#;
    assert_eq!(embedding_file_name("o", "m", text).unwrap(), "o/m_-12.json");
}

#[test]
fn embedding_errors() {
    assert_eq!(embedding_file_name("o", "m", "x"), Err(EmbeddingError::NotJson));
    assert_eq!(embedding_file_name("o", "m", r#"{"x": 1}"#), Err(EmbeddingError::NoData));
    assert_eq!(embedding_file_name("o", "m", r#"{"data": []}"#), Err(EmbeddingError::NoEmbeddings));
    assert_eq!(embedding_file_name("o", "m", r#"{"data": [{"i": 1}]}"#), Err(EmbeddingError::NoIndex));
    assert_eq!(embedding_file_name("o", "m", r#"{"data": [{"index": -1}]}"#), Err(EmbeddingError::NoIndex));
    assert_eq!(EmbeddingError::NoData.describe(), "No data found in JSON");
}

#[test]
fn embedding_request_and_models() {
    assert_eq!(embedding_request_body("hi", "m"), r#"{"input": "hi", "model": "m"}"#);
    assert_eq!(embedding_models(None), vec!["togethercomputer/m2-bert-80M-2k-retrieval"]);
    assert_eq!(embedding_models(Some(vec!["a".to_string()])), vec!["a"]);
}

#[test]
fn embedding_path_replaces_every_slash() {
    assert_eq!(embedding_path("f", "a/b/c", 3), "f/a_b_c_3.json");
    assert_eq!(embedding_path("f", "plain", i64::MIN), format!("f/plain_{}.json", i64::MIN));
    assert_eq!(EmbeddingError::NoIndex.describe(), "Could not find index in JSON");
}
