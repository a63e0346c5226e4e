//! Trace context codec: the wire form of a span's identity.
//!
//! A span identity `(trace id, span id, flags)` travels between processes as
//! a single line of four dash-separated fields: a fixed two-character
//! version tag, the trace id as 32 hexadecimal digits, the span id as 16,
//! and the flag byte as 2.  `encode` produces the canonical lowercase form;
//! `decode` validates strictly and classifies every violation as a typed
//! error instead of panicking.

use vstd::prelude::*;

use crate::hexnum::{
    all_hex, hex_bytes, hex_value_of, hex_val, is_hex_digit, lemma_hex_bytes_shape,
    lemma_hex_roundtrip, lemma_hex_value_bound, lemma_pow16_widths, parse_hex, pow16, push_hex,
    is_hex_digit_byte,
};

verus! {

/// The field separator of the wire form, a dash.
pub const FIELD_SEP: u8 = 45;

/// First byte of the fixed version tag `00`.
pub const VERSION_BYTE: u8 = 48;

/// Width of the trace id field in hexadecimal digits.
pub const TRACE_ID_WIDTH: usize = 32;

/// Width of the span id field in hexadecimal digits.
pub const SPAN_ID_WIDTH: usize = 16;

/// Width of the flags field in hexadecimal digits.
pub const FLAGS_WIDTH: usize = 2;

/// A span's identity as carried on the wire: the 128-bit trace id shared by
/// the whole trace tree, the 64-bit id of one span, and the flag byte that
/// rides along unchanged.
#[derive(Clone, Copy, Debug, PartialEq, Eq, Structural)]
pub struct TraceParent {
    pub trace_id: u128,
    pub span_id: u64,
    pub flags: u8,
}

/// Why a wire string was rejected.
#[derive(Clone, Copy, Debug, PartialEq, Eq, Structural)]
pub enum DecodeError {
    /// Not exactly four dash-separated fields.
    MalformedFormat,
    /// A trace id or span id field that is not hexadecimal of its fixed
    /// width.
    InvalidId,
    /// A flags field that is not a single hexadecimal byte.
    InvalidFlags,
}

/// Splits `s` on the dash, `cur` being the part of the current field read
/// so far.  There is always at least one field; an empty input yields one
/// empty field, as splitting does.
pub open spec fn split_from(s: Seq<u8>, cur: Seq<u8>) -> Seq<Seq<u8>>
    decreases s.len(),
{
    if s.len() == 0 {
        seq![cur]
    } else if s[0] == FIELD_SEP {
        seq![cur] + split_from(s.drop_first(), Seq::empty())
    } else {
        split_from(s.drop_first(), cur.push(s[0]))
    }
}

/// The dash-separated fields of a wire string.
pub open spec fn fields_of(s: Seq<u8>) -> Seq<Seq<u8>> {
    split_from(s, Seq::empty())
}

/// A trace id or span id field: hexadecimal of exactly the given width.
pub open spec fn valid_id_field(f: Seq<u8>, w: nat) -> bool {
    f.len() == w && all_hex(f)
}

/// What `decode` returns, field by field: exactly four fields, ids of fixed
/// width, flags a single hexadecimal byte.  The version field is carried,
/// not interpreted.
pub open spec fn decode_spec(s: Seq<u8>) -> Result<TraceParent, DecodeError> {
    let fs = fields_of(s);
    if fs.len() != 4 {
        Err(DecodeError::MalformedFormat)
    } else if !(valid_id_field(fs[1], TRACE_ID_WIDTH as nat) && valid_id_field(
        fs[2],
        SPAN_ID_WIDTH as nat,
    )) {
        Err(DecodeError::InvalidId)
    } else if !valid_id_field(fs[3], FLAGS_WIDTH as nat) {
        Err(DecodeError::InvalidFlags)
    } else {
        Ok(
            TraceParent {
                trace_id: hex_value_of(fs[1]) as u128,
                span_id: hex_value_of(fs[2]) as u64,
                flags: hex_value_of(fs[3]) as u8,
            },
        )
    }
}

/// The canonical wire form: `00-` then the three identity fields in
/// lowercase hexadecimal at their fixed widths.
pub open spec fn encode_spec(t: TraceParent) -> Seq<u8> {
    seq![VERSION_BYTE, VERSION_BYTE, FIELD_SEP] + hex_bytes(t.trace_id as nat, TRACE_ID_WIDTH as nat)
        + seq![FIELD_SEP] + hex_bytes(t.span_id as nat, SPAN_ID_WIDTH as nat) + seq![FIELD_SEP]
        + hex_bytes(t.flags as nat, FLAGS_WIDTH as nat)
}

impl TraceParent {
    /// Serializes this identity into the canonical four-field wire form.
    /// Total: it succeeds for every identity.
    pub fn encode(&self) -> (r: Vec<u8>)
        ensures
            r@ == encode_spec(*self),
    {
        let mut out: Vec<u8> = Vec::new();
        out.push(VERSION_BYTE);
        out.push(VERSION_BYTE);
        out.push(FIELD_SEP);
        push_hex(&mut out, self.trace_id, TRACE_ID_WIDTH);
        out.push(FIELD_SEP);
        push_hex(&mut out, self.span_id as u128, SPAN_ID_WIDTH);
        out.push(FIELD_SEP);
        push_hex(&mut out, self.flags as u128, FLAGS_WIDTH);
        proof {
            assert(out@ =~= encode_spec(*self));
        }
        out
    }

    /// Parses a wire string, classifying every malformed input as a typed
    /// error: wrong field count, an id field that is not fixed-width
    /// hexadecimal, or a flags field that is not one hexadecimal byte.
    /// Never panics and never falls back to a default.
    pub fn decode(s: &[u8]) -> (r: Result<TraceParent, DecodeError>)
        ensures
            r == decode_spec(s@),
    {
        let fields = split_exec(s);
        proof {
            assert(fields_of(s@) == fields@.map_values(|f: Vec<u8>| f@));
        }
        if fields.len() != 4 {
            return Err(DecodeError::MalformedFormat);
        }
        let ghost fs = fields_of(s@);
        proof {
            assert(fs[1] == fields@[1]@);
            assert(fs[2] == fields@[2]@);
            assert(fs[3] == fields@[3]@);
        }
        if !(is_hex_field(&fields[1], TRACE_ID_WIDTH) && is_hex_field(&fields[2], SPAN_ID_WIDTH)) {
            return Err(DecodeError::InvalidId);
        }
        if !is_hex_field(&fields[3], FLAGS_WIDTH) {
            return Err(DecodeError::InvalidFlags);
        }
        proof {
            lemma_pow16_widths();
            lemma_hex_value_bound(fs[1]);
            lemma_hex_value_bound(fs[2]);
            lemma_hex_value_bound(fs[3]);
        }
        let trace_id = parse_hex(fields[1].as_slice());
        let span_id = parse_hex(fields[2].as_slice()) as u64;
        let flags = parse_hex(fields[3].as_slice()) as u8;
        Ok(TraceParent { trace_id, span_id, flags })
    }
}

/// Checks that a field is hexadecimal of exactly width `w`.
fn is_hex_field(f: &Vec<u8>, w: usize) -> (r: bool)
    ensures
        r == valid_id_field(f@, w as nat),
{
    if f.len() != w {
        return false;
    }
    let mut i: usize = 0;
    while i < f.len()
        invariant
            i <= f@.len(),
            forall|j: int| 0 <= j < i ==> is_hex_digit(#[trigger] f@[j]),
        decreases f@.len() - i,
    {
        if !is_hex_digit_byte(f[i]) {
            return false;
        }
        i = i + 1;
    }
    true
}

/// Splits a byte string on the dash, as `fields_of` describes.
fn split_exec(s: &[u8]) -> (r: Vec<Vec<u8>>)
    ensures
        fields_of(s@) == r@.map_values(|f: Vec<u8>| f@),
{
    let mut fields: Vec<Vec<u8>> = Vec::new();
    let mut cur: Vec<u8> = Vec::new();
    let mut i: usize = 0;
    proof {
        assert(s@.skip(0) =~= s@);
        assert(fields@.map_values(|f: Vec<u8>| f@) =~= Seq::<Seq<u8>>::empty());
        assert(Seq::<Seq<u8>>::empty() + split_from(s@, Seq::<u8>::empty()) =~= split_from(
            s@,
            Seq::<u8>::empty(),
        ));
    }
    while i < s.len()
        invariant
            i <= s@.len(),
            fields_of(s@) == fields@.map_values(|f: Vec<u8>| f@) + split_from(
                s@.skip(i as int),
                cur@,
            ),
        decreases s@.len() - i,
    {
        let ghost rest = s@.skip(i as int);
        proof {
            assert(rest.len() == s@.len() - i);
            assert(rest[0] == s@[i as int]);
            assert(rest.drop_first() =~= s@.skip(i + 1));
        }
        if s[i] == FIELD_SEP {
            let ghost pre_fields = fields@;
            let ghost pre_cur = cur@;
            let done = cur;
            cur = Vec::new();
            fields.push(done);
            proof {
                assert(split_from(rest, pre_cur) == seq![pre_cur] + split_from(
                    s@.skip(i + 1),
                    Seq::<u8>::empty(),
                ));
                assert(fields@.map_values(|f: Vec<u8>| f@) =~= pre_fields.map_values(
                    |f: Vec<u8>| f@,
                ) + seq![pre_cur]);
                assert(fields_of(s@) == fields@.map_values(|f: Vec<u8>| f@) + split_from(
                    s@.skip(i + 1),
                    Seq::<u8>::empty(),
                )) by {
                    assert(pre_fields.map_values(|f: Vec<u8>| f@) + (seq![pre_cur] + split_from(
                        s@.skip(i + 1),
                        Seq::<u8>::empty(),
                    )) =~= (pre_fields.map_values(|f: Vec<u8>| f@) + seq![pre_cur]) + split_from(
                        s@.skip(i + 1),
                        Seq::<u8>::empty(),
                    ));
                }
            }
        } else {
            let ghost pre_cur = cur@;
            cur.push(s[i]);
            proof {
                assert(split_from(rest, pre_cur) == split_from(
                    s@.skip(i + 1),
                    pre_cur.push(s@[i as int]),
                ));
            }
        }
        i = i + 1;
    }
    proof {
        assert(s@.skip(s@.len() as int) =~= Seq::<u8>::empty());
        assert(split_from(Seq::<u8>::empty(), cur@) == seq![cur@]);
    }
    let ghost pre_fields = fields@;
    let ghost last = cur@;
    fields.push(cur);
    proof {
        assert(fields@.map_values(|f: Vec<u8>| f@) =~= pre_fields.map_values(|f: Vec<u8>| f@)
            + seq![last]);
    }
    fields
}

/// A field made only of hexadecimal digits never contains the separator.
pub proof fn lemma_hex_field_no_sep(f: Seq<u8>)
    requires
        all_hex(f),
    ensures
        forall|i: int| 0 <= i < f.len() ==> #[trigger] f[i] != FIELD_SEP,
{
    assert forall|i: int| 0 <= i < f.len() implies #[trigger] f[i] != FIELD_SEP by {
        assert(is_hex_digit(f[i]));
    }
}

/// Splitting a string that starts with a separator-free prefix, then a
/// separator, yields that prefix as the first field.
proof fn lemma_split_prefix(a: Seq<u8>, rest: Seq<u8>, cur: Seq<u8>)
    requires
        forall|i: int| 0 <= i < a.len() ==> #[trigger] a[i] != FIELD_SEP,
    ensures
        split_from(a + seq![FIELD_SEP] + rest, cur) == seq![cur + a] + split_from(
            rest,
            Seq::empty(),
        ),
    decreases a.len(),
{
    let s = a + seq![FIELD_SEP] + rest;
    if a.len() == 0 {
        assert(s[0] == FIELD_SEP);
        assert(s.drop_first() =~= rest);
        assert(cur + a =~= cur);
    } else {
        assert(s[0] == a[0]);
        assert(s.drop_first() =~= a.drop_first() + seq![FIELD_SEP] + rest);
        lemma_split_prefix(a.drop_first(), rest, cur.push(a[0]));
        assert(cur.push(a[0]) + a.drop_first() =~= cur + a);
    }
}

/// Splitting a separator-free string yields it as the single field.
proof fn lemma_split_whole(a: Seq<u8>, cur: Seq<u8>)
    requires
        forall|i: int| 0 <= i < a.len() ==> #[trigger] a[i] != FIELD_SEP,
    ensures
        split_from(a, cur) == seq![cur + a],
    decreases a.len(),
{
    if a.len() == 0 {
        assert(cur + a =~= cur);
    } else {
        lemma_split_whole(a.drop_first(), cur.push(a[0]));
        assert(cur.push(a[0]) + a.drop_first() =~= cur + a);
    }
}

/// The canonical wire form splits into exactly the version tag and the
/// three identity fields.
proof fn lemma_encode_fields(t: TraceParent)
    ensures
        fields_of(encode_spec(t)) == seq![
            seq![VERSION_BYTE, VERSION_BYTE],
            hex_bytes(t.trace_id as nat, TRACE_ID_WIDTH as nat),
            hex_bytes(t.span_id as nat, SPAN_ID_WIDTH as nat),
            hex_bytes(t.flags as nat, FLAGS_WIDTH as nat),
        ],
{
    let ver = seq![VERSION_BYTE, VERSION_BYTE];
    let f1 = hex_bytes(t.trace_id as nat, TRACE_ID_WIDTH as nat);
    let f2 = hex_bytes(t.span_id as nat, SPAN_ID_WIDTH as nat);
    let f3 = hex_bytes(t.flags as nat, FLAGS_WIDTH as nat);
    lemma_hex_bytes_shape(t.trace_id as nat, TRACE_ID_WIDTH as nat);
    lemma_hex_bytes_shape(t.span_id as nat, SPAN_ID_WIDTH as nat);
    lemma_hex_bytes_shape(t.flags as nat, FLAGS_WIDTH as nat);
    lemma_hex_field_no_sep(f1);
    lemma_hex_field_no_sep(f2);
    lemma_hex_field_no_sep(f3);
    let r1 = f1 + seq![FIELD_SEP] + (f2 + seq![FIELD_SEP] + f3);
    assert(encode_spec(t) =~= ver + seq![FIELD_SEP] + r1);
    lemma_split_prefix(ver, r1, Seq::empty());
    lemma_split_prefix(f1, f2 + seq![FIELD_SEP] + f3, Seq::empty());
    lemma_split_prefix(f2, f3, Seq::empty());
    lemma_split_whole(f3, Seq::empty());
    assert(Seq::<u8>::empty() + ver =~= ver);
    assert(Seq::<u8>::empty() + f1 =~= f1);
    assert(Seq::<u8>::empty() + f2 =~= f2);
    assert(Seq::<u8>::empty() + f3 =~= f3);
    assert(fields_of(encode_spec(t)) =~= seq![ver, f1, f2, f3]);
}

/// Round trip: decoding the canonical wire form of any identity returns
/// exactly that identity.
pub proof fn lemma_encode_decode(t: TraceParent)
    ensures
        decode_spec(encode_spec(t)) == Ok::<TraceParent, DecodeError>(t),
{
    lemma_encode_fields(t);
    let fs = fields_of(encode_spec(t));
    lemma_hex_bytes_shape(t.trace_id as nat, TRACE_ID_WIDTH as nat);
    lemma_hex_bytes_shape(t.span_id as nat, SPAN_ID_WIDTH as nat);
    lemma_hex_bytes_shape(t.flags as nat, FLAGS_WIDTH as nat);
    lemma_pow16_widths();
    lemma_hex_roundtrip(t.trace_id as nat, TRACE_ID_WIDTH as nat);
    lemma_hex_roundtrip(t.span_id as nat, SPAN_ID_WIDTH as nat);
    lemma_hex_roundtrip(t.flags as nat, FLAGS_WIDTH as nat);
}

} // verus!
