use tracechain::codec::{DecodeError, TraceParent};

fn wire(trace_id: u128, span_id: u64, flags: u8) -> Vec<u8> {
    format!("00-{:032x}-{:016x}-{:02x}", trace_id, span_id, flags).into_bytes()
}

#[test]
fn encode_canonical_form() {
    let t = TraceParent {
        trace_id: 0x4bf92f3577b34da6a3ce929d0e0e4736,
        span_id: 0x00f067aa0ba902b7,
        flags: 1,
    };
    assert_eq!(
        t.encode(),
        b"00-4bf92f3577b34da6a3ce929d0e0e4736-00f067aa0ba902b7-01".to_vec()
    );
}

#[test]
fn round_trip_basic() {
    let t = TraceParent {
        trace_id: 0x4bf92f3577b34da6a3ce929d0e0e4736,
        span_id: 0x00f067aa0ba902b7,
        flags: 1,
    };
    assert_eq!(TraceParent::decode(&t.encode()), Ok(t));
}

#[test]
fn round_trip_extremes() {
    for t in [
        TraceParent { trace_id: 0, span_id: 0, flags: 0 },
        TraceParent { trace_id: u128::MAX, span_id: u64::MAX, flags: 255 },
        TraceParent { trace_id: 1, span_id: 1, flags: 16 },
    ] {
        assert_eq!(TraceParent::decode(&t.encode()), Ok(t));
    }
}

#[test]
fn encode_of_extremes_is_fixed_width() {
    let low = TraceParent { trace_id: 0, span_id: 0, flags: 0 };
    assert_eq!(low.encode(), wire(0, 0, 0));
    assert_eq!(low.encode().len(), 2 + 1 + 32 + 1 + 16 + 1 + 2);
    let high = TraceParent { trace_id: u128::MAX, span_id: u64::MAX, flags: 255 };
    assert_eq!(
        high.encode(),
        b"00-ffffffffffffffffffffffffffffffff-ffffffffffffffff-ff".to_vec()
    );
}

#[test]
fn decode_wrong_field_count_is_malformed() {
    for s in [
        &b""[..],
        &b"no dashes at all"[..],
        &b"00-4bf92f3577b34da6a3ce929d0e0e4736-00f067aa0ba902b7"[..],
        &b"00-4bf92f3577b34da6a3ce929d0e0e4736-00f067aa0ba902b7-01-extra"[..],
        &b"00-4bf92f3577b34da6a3ce929d0e0e4736-00f067aa0ba902b7-01-"[..],
    ] {
        assert_eq!(TraceParent::decode(s), Err(DecodeError::MalformedFormat));
    }
}

#[test]
fn decode_four_empty_fields_is_invalid_id() {
    // Exactly four fields, so the count is right, but the ids are empty.
    assert_eq!(TraceParent::decode(b"---"), Err(DecodeError::InvalidId));
}

#[test]
fn decode_bad_trace_id_is_invalid_id() {
    // Non-hex byte in the trace id.
    assert_eq!(
        TraceParent::decode(b"00-zbf92f3577b34da6a3ce929d0e0e4736-00f067aa0ba902b7-01"),
        Err(DecodeError::InvalidId)
    );
    // Trace id too short by one digit.
    assert_eq!(
        TraceParent::decode(b"00-bf92f3577b34da6a3ce929d0e0e4736-00f067aa0ba902b7-01"),
        Err(DecodeError::InvalidId)
    );
    // Trace id too long by one digit.
    assert_eq!(
        TraceParent::decode(b"00-04bf92f3577b34da6a3ce929d0e0e4736-00f067aa0ba902b7-01"),
        Err(DecodeError::InvalidId)
    );
}

#[test]
fn decode_bad_span_id_is_invalid_id() {
    assert_eq!(
        TraceParent::decode(b"00-4bf92f3577b34da6a3ce929d0e0e4736-00f067aa0ba902g7-01"),
        Err(DecodeError::InvalidId)
    );
    assert_eq!(
        TraceParent::decode(b"00-4bf92f3577b34da6a3ce929d0e0e4736-0f067aa0ba902b7-01"),
        Err(DecodeError::InvalidId)
    );
}

#[test]
fn decode_bad_flags_is_invalid_flags() {
    // One digit, three digits, a non-hex digit, empty.
    for s in [
        &b"00-4bf92f3577b34da6a3ce929d0e0e4736-00f067aa0ba902b7-1"[..],
        &b"00-4bf92f3577b34da6a3ce929d0e0e4736-00f067aa0ba902b7-001"[..],
        &b"00-4bf92f3577b34da6a3ce929d0e0e4736-00f067aa0ba902b7-0g"[..],
        &b"00-4bf92f3577b34da6a3ce929d0e0e4736-00f067aa0ba902b7-"[..],
    ] {
        assert_eq!(TraceParent::decode(s), Err(DecodeError::InvalidFlags));
    }
}

#[test]
fn decode_accepts_uppercase_hex() {
    let got = TraceParent::decode(b"00-4BF92F3577B34DA6A3CE929D0E0E4736-00F067AA0BA902B7-01");
    assert_eq!(
        got,
        Ok(TraceParent {
            trace_id: 0x4bf92f3577b34da6a3ce929d0e0e4736,
            span_id: 0x00f067aa0ba902b7,
            flags: 1,
        })
    );
}

#[test]
fn decode_carries_version_field_without_interpreting_it() {
    let got = TraceParent::decode(b"ff-4bf92f3577b34da6a3ce929d0e0e4736-00f067aa0ba902b7-01");
    assert_eq!(
        got,
        Ok(TraceParent {
            trace_id: 0x4bf92f3577b34da6a3ce929d0e0e4736,
            span_id: 0x00f067aa0ba902b7,
            flags: 1,
        })
    );
}

#[test]
fn id_field_order_is_checked_before_flags() {
    // Both an id field and the flags field are bad: the id error wins.
    assert_eq!(
        TraceParent::decode(b"00-short-00f067aa0ba902b7-zz"),
        Err(DecodeError::InvalidId)
    );
}
