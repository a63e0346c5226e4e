use tracechain::codec::{DecodeError, TraceParent};
use tracechain::lineage::{
    derive_lineage, establish_lineage, process_start, resolve_run_id, RunIdReading, StartupError,
    ROOT_TRACE_FLAGS,
};

const T: u128 = 0x4bf92f3577b34da6a3ce929d0e0e4736;
const S: u64 = 0x00f067aa0ba902b7;

#[test]
fn root_lineage_has_fresh_trace_and_no_parent() {
    let l = derive_lineage(None, T, S).unwrap();
    assert_eq!(l.trace_id, T);
    assert_eq!(l.span_id, S);
    assert_eq!(l.parent_span_id, None);
    assert_eq!(l.flags, ROOT_TRACE_FLAGS);
}

#[test]
fn child_lineage_keeps_trace_and_parents_under_inherited_span() {
    let inherited = TraceParent { trace_id: T, span_id: S, flags: 1 }.encode();
    let minted_span: u64 = 0x1111222233334444;
    let l = derive_lineage(Some(&inherited), 0xdead, minted_span).unwrap();
    assert_eq!(l.trace_id, T);
    assert_eq!(l.parent_span_id, Some(S));
    assert_eq!(l.span_id, minted_span);
    assert_ne!(l.span_id, S);
    assert_eq!(l.flags, 1);
}

#[test]
fn child_republishes_advanced_context() {
    let inherited = TraceParent { trace_id: T, span_id: S, flags: 3 }.encode();
    let minted_span: u64 = 0x1111222233334444;
    let l = derive_lineage(Some(&inherited), 0xdead, minted_span).unwrap();
    let republished = TraceParent::decode(&l.outgoing_wire()).unwrap();
    assert_eq!(republished.trace_id, T);
    assert_eq!(republished.span_id, minted_span);
    assert_ne!(republished.span_id, S);
    assert_eq!(republished.flags, 3);
}

#[test]
fn minted_span_id_collision_is_stepped_aside() {
    let inherited = TraceParent { trace_id: T, span_id: S, flags: 1 }.encode();
    let l = derive_lineage(Some(&inherited), T, S).unwrap();
    assert_eq!(l.span_id, S + 1);
    let inherited_max = TraceParent { trace_id: T, span_id: u64::MAX, flags: 1 }.encode();
    let l2 = derive_lineage(Some(&inherited_max), T, u64::MAX).unwrap();
    assert_eq!(l2.span_id, 0);
}

#[test]
fn malformed_inherited_context_is_fatal_not_root() {
    let bad = b"00-4bf92f3577b34da6a3ce929d0e0e4736-00f067aa0ba902b7".to_vec();
    assert_eq!(
        derive_lineage(Some(&bad), T, S),
        Err(DecodeError::MalformedFormat)
    );
    let bad_id = b"00-nothex2f3577b34da6a3ce929d0e0e4736-00f067aa0ba902b7-01".to_vec();
    assert_eq!(derive_lineage(Some(&bad_id), T, S), Err(DecodeError::InvalidId));
}

#[test]
fn establish_lineage_root_properties() {
    let l = establish_lineage(None).unwrap();
    assert_eq!(l.parent_span_id, None);
    assert_eq!(l.flags, ROOT_TRACE_FLAGS);
    assert_ne!(l.trace_id, 0);
    assert_ne!(l.span_id, 0);
}

#[test]
fn establish_lineage_child_properties() {
    let inherited = TraceParent { trace_id: T, span_id: S, flags: 1 }.encode();
    let l = establish_lineage(Some(&inherited)).unwrap();
    assert_eq!(l.trace_id, T);
    assert_eq!(l.parent_span_id, Some(S));
    assert_ne!(l.span_id, S);
}

#[test]
fn run_id_inherited_text_is_reused_verbatim() {
    let rid = resolve_run_id(RunIdReading::Text("R1".to_string())).unwrap();
    assert_eq!(rid.value, "R1");
    assert!(!rid.minted);
}

#[test]
fn run_id_missing_is_minted_here() {
    let rid = resolve_run_id(RunIdReading::Missing).unwrap();
    assert!(rid.minted);
    assert_eq!(rid.value.chars().count(), 36);
}

#[test]
fn run_id_not_text_is_identity_error() {
    assert!(matches!(
        resolve_run_id(RunIdReading::NotText),
        Err(StartupError::Identity)
    ));
}

#[test]
fn process_start_orders_identity_before_decode() {
    // Both the run id and the inherited context are bad: identity wins.
    let bad = b"garbage".to_vec();
    assert!(matches!(
        process_start(RunIdReading::NotText, Some(&bad)),
        Err(StartupError::Identity)
    ));
}

#[test]
fn process_start_child() {
    let inherited = TraceParent { trace_id: T, span_id: S, flags: 1 }.encode();
    let ps = process_start(RunIdReading::Text("R1".to_string()), Some(&inherited)).unwrap();
    assert_eq!(ps.run.value, "R1");
    assert!(!ps.run.minted);
    assert_eq!(ps.lineage.trace_id, T);
    assert_eq!(ps.lineage.parent_span_id, Some(S));
}

#[test]
fn process_start_malformed_context_is_decode_error() {
    let bad = b"00-xx-yy-zz".to_vec();
    assert!(matches!(
        process_start(RunIdReading::Missing, Some(&bad)),
        Err(StartupError::Decode(DecodeError::InvalidId))
    ));
}
