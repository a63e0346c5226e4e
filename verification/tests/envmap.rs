use tracechain::codec::TraceParent;
use tracechain::envmap::{
    bytes_eq, merge_env, outgoing_env, parent_id_key_bytes, run_id_key_bytes,
    traceparent_key_bytes, EnvExtractor, EnvInjector, EnvPair,
};
use tracechain::lineage::derive_lineage;

fn pair(key: &[u8], value: &[u8]) -> EnvPair {
    EnvPair { key: key.to_vec(), value: value.to_vec() }
}

#[test]
fn key_names_match_the_protocol() {
    assert_eq!(traceparent_key_bytes(), b"TRACEPARENT".to_vec());
    assert_eq!(run_id_key_bytes(), b"RUN_ID".to_vec());
    assert_eq!(parent_id_key_bytes(), b"PARENT_ID".to_vec());
}

#[test]
fn bytes_eq_compares_contents() {
    assert!(bytes_eq(b"abc", b"abc"));
    assert!(!bytes_eq(b"abc", b"abd"));
    assert!(!bytes_eq(b"abc", b"ab"));
    assert!(bytes_eq(b"", b""));
}

#[test]
fn extractor_lookup_finds_entries() {
    let mut env = EnvExtractor::new();
    env.insert_pair(b"RUN_ID".to_vec(), b"R1".to_vec());
    env.insert_pair(b"OTHER".to_vec(), b"x".to_vec());
    assert_eq!(env.get(b"RUN_ID"), Some(&b"R1".to_vec()));
    assert_eq!(env.get(b"OTHER"), Some(&b"x".to_vec()));
    assert_eq!(env.get(b"MISSING"), None);
}

#[test]
fn extractor_later_entry_wins() {
    let mut env = EnvExtractor::new();
    env.insert_pair(b"RUN_ID".to_vec(), b"old".to_vec());
    env.insert_pair(b"RUN_ID".to_vec(), b"new".to_vec());
    assert_eq!(env.get(b"RUN_ID"), Some(&b"new".to_vec()));
}

#[test]
fn extractor_keys_in_entry_order() {
    let mut env = EnvExtractor::new();
    env.insert_pair(b"A".to_vec(), b"1".to_vec());
    env.insert_pair(b"B".to_vec(), b"2".to_vec());
    assert_eq!(env.keys(), vec![b"A".to_vec(), b"B".to_vec()]);
}

#[test]
fn injector_records_entries_in_order() {
    let mut injector = EnvInjector::new();
    injector.set(b"RUN_ID".to_vec(), b"R1".to_vec());
    injector.set(b"TRACEPARENT".to_vec(), b"tp".to_vec());
    assert_eq!(injector.0.len(), 2);
    assert_eq!(injector.0[0].key, b"RUN_ID".to_vec());
    assert_eq!(injector.0[1].value, b"tp".to_vec());
}

#[test]
fn merge_overrides_win_and_rest_is_kept() {
    let mut base = EnvExtractor::new();
    base.insert_pair(b"RUN_ID".to_vec(), b"stale".to_vec());
    base.insert_pair(b"PATH".to_vec(), b"/bin".to_vec());
    let overrides = vec![pair(b"RUN_ID", b"R1"), pair(b"TRACEPARENT", b"tp")];
    let merged = EnvExtractor(merge_env(&base, &overrides));
    assert_eq!(merged.get(b"RUN_ID"), Some(&b"R1".to_vec()));
    assert_eq!(merged.get(b"TRACEPARENT"), Some(&b"tp".to_vec()));
    assert_eq!(merged.get(b"PATH"), Some(&b"/bin".to_vec()));
    assert_eq!(merged.get(b"ABSENT"), None);
}

#[test]
fn outgoing_env_republishes_all_three_values() {
    let inherited = TraceParent { trace_id: 7, span_id: 9, flags: 1 }.encode();
    let lineage = derive_lineage(Some(&inherited), 0, 0xabcd).unwrap();
    let out = outgoing_env(&lineage, "R1", "self-42");
    assert_eq!(out.len(), 3);
    assert_eq!(out[0].key, b"TRACEPARENT".to_vec());
    assert_eq!(out[0].value, lineage.outgoing_wire());
    assert_eq!(
        out[0].value,
        format!("00-{:032x}-{:016x}-{:02x}", 7, 0xabcd, 1).into_bytes()
    );
    assert_eq!(out[1].key, b"RUN_ID".to_vec());
    assert_eq!(out[1].value, b"R1".to_vec());
    assert_eq!(out[2].key, b"PARENT_ID".to_vec());
    assert_eq!(out[2].value, b"self-42".to_vec());
}
