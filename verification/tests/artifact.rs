use tracechain::artifact::{
    artifact_path, combine_records, validate_record, RecordError, SpanRecord,
};

#[test]
fn artifact_path_embeds_run_role_and_self_id() {
    assert_eq!(
        artifact_path("parent", "R1", "S1"),
        "logs/R1/parent-S1.json".to_string()
    );
    assert_eq!(
        artifact_path("grandchild", "run-7", "id-9"),
        "logs/run-7/grandchild-id-9.json".to_string()
    );
}

#[test]
fn validate_record_requires_resource_spans() {
    let good = SpanRecord { resource_spans: Some(vec!["a".to_string()]) };
    assert_eq!(validate_record(&good), Ok(&vec!["a".to_string()]));
    let bad = SpanRecord { resource_spans: None };
    assert_eq!(validate_record(&bad), Err(RecordError::MissingResourceSpans));
}

#[test]
fn combine_concatenates_in_order() {
    let records = vec![
        SpanRecord { resource_spans: Some(vec!["a".to_string(), "b".to_string()]) },
        SpanRecord { resource_spans: Some(vec![]) },
        SpanRecord { resource_spans: Some(vec!["c".to_string()]) },
    ];
    assert_eq!(
        combine_records(&records),
        Ok(vec!["a".to_string(), "b".to_string(), "c".to_string()])
    );
}

#[test]
fn combine_of_no_records_is_empty() {
    assert_eq!(combine_records(&vec![]), Ok(vec![]));
}

#[test]
fn combine_rejects_a_record_without_resource_spans() {
    let records = vec![
        SpanRecord { resource_spans: Some(vec!["a".to_string()]) },
        SpanRecord { resource_spans: None },
    ];
    assert_eq!(
        combine_records(&records),
        Err(RecordError::MissingResourceSpans)
    );
}
