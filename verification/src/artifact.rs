//! The persisted per-process trace artifact.
//!
//! Each process appends its finished span data to a file of its own, named
//! after its role, the run and its own id, under a run-scoped directory —
//! so an out-of-band step can find every artifact belonging to one run.
//! A record in such a file must carry a `resourceSpans` array; combining a
//! run's records concatenates those arrays, keeping each entry verbatim.
//! Reading and writing the files, and parsing their JSON into records, is
//! the boundary's concern; the shape rules and the combination are here.

use vstd::prelude::*;
use vstd::string::StringExecFns;

verus! {

/// The path of a process's trace artifact: under the run's log directory,
/// named with the process role and its own id.
pub open spec fn artifact_path_spec(role: Seq<char>, run_id: Seq<char>, self_id: Seq<char>) -> Seq<
    char,
> {
    "logs/"@ + run_id + "/"@ + role + "-"@ + self_id + ".json"@
}

/// Builds the artifact path for one process.
pub fn artifact_path(role: &str, run_id: &str, self_id: &str) -> (r: String)
    ensures
        r@ == artifact_path_spec(role@, run_id@, self_id@),
{
    let mut r = String::from_str("logs/");
    r.append(run_id);
    r.append("/");
    r.append(role);
    r.append("-");
    r.append(self_id);
    r.append(".json");
    r
}

/// One record read from a trace artifact: the entries of its
/// `resourceSpans` array, each kept verbatim as text, or nothing where the
/// record has no such array.
pub struct SpanRecord {
    pub resource_spans: Option<Vec<String>>,
}

/// Why a record set was rejected.
#[derive(Clone, Copy, Debug, PartialEq, Eq, Structural)]
pub enum RecordError {
    /// A record carries no `resourceSpans` array.
    MissingResourceSpans,
}

/// A record that carries its required `resourceSpans` array.
pub open spec fn record_valid(r: SpanRecord) -> bool {
    r.resource_spans is Some
}

/// The span entries of a valid record.
pub open spec fn record_spans(r: SpanRecord) -> Seq<Seq<char>> {
    r.resource_spans.unwrap().deep_view()
}

/// Every record of the set is valid.
pub open spec fn all_records_valid(s: Seq<SpanRecord>) -> bool {
    forall|i: int| 0 <= i < s.len() ==> record_valid(#[trigger] s[i])
}

/// The union of the sets' span entries, record order and entry order kept.
pub open spec fn combined_spans(s: Seq<SpanRecord>) -> Seq<Seq<char>>
    decreases s.len(),
{
    if s.len() == 0 {
        Seq::empty()
    } else {
        combined_spans(s.drop_last()) + record_spans(s.last())
    }
}

/// Checks one record's shape: its span entries, or the typed error where
/// the `resourceSpans` array is absent.
pub fn validate_record(r: &SpanRecord) -> (out: Result<&Vec<String>, RecordError>)
    ensures
        match out {
            Ok(v) => record_valid(*r) && v.deep_view() == record_spans(*r),
            Err(e) => !record_valid(*r) && e == RecordError::MissingResourceSpans,
        },
{
    match &r.resource_spans {
        Some(v) => Ok(v),
        None => Err(RecordError::MissingResourceSpans),
    }
}

/// Combines the records of one run: the concatenation of every record's
/// span entries, in order and verbatim, or the typed error if any record
/// lacks its `resourceSpans` array.  Succeeds exactly on valid sets.
pub fn combine_records(records: &Vec<SpanRecord>) -> (r: Result<Vec<String>, RecordError>)
    ensures
        match r {
            Ok(out) => all_records_valid(records@) && out.deep_view() == combined_spans(records@),
            Err(e) => !all_records_valid(records@) && e == RecordError::MissingResourceSpans,
        },
{
    let mut out: Vec<String> = Vec::new();
    let mut i: usize = 0;
    while i < records.len()
        invariant
            i <= records@.len(),
            all_records_valid(records@.take(i as int)),
            out.deep_view() == combined_spans(records@.take(i as int)),
        decreases records@.len() - i,
    {
        let spans = match validate_record(&records[i]) {
            Ok(v) => v,
            Err(e) => {
                return Err(e);
            },
        };
        let ghost pre = out.deep_view();
        let mut j: usize = 0;
        while j < spans.len()
            invariant
                j <= spans@.len(),
                spans.deep_view() == record_spans(records@[i as int]),
                out.deep_view() == pre + spans.deep_view().take(j as int),
            decreases spans@.len() - j,
        {
            let ghost mid = out.deep_view();
            out.push(spans[j].clone());
            proof {
                assert(out.deep_view() =~= mid.push(spans@[j as int]@));
                assert(mid.push(spans@[j as int]@) =~= pre + spans.deep_view().take(j + 1));
            }
            j = j + 1;
        }
        proof {
            assert(spans.deep_view().take(spans@.len() as int) =~= spans.deep_view());
            assert(records@.take(i + 1).drop_last() =~= records@.take(i as int));
            assert(records@.take(i + 1).last() == records@[i as int]);
            assert(all_records_valid(records@.take(i + 1))) by {
                assert(forall|k: int|
                    0 <= k < i + 1 ==> records@.take(i + 1)[k] == records@[k]);
                assert(record_valid(records@[i as int]));
            }
        }
        i = i + 1;
    }
    proof {
        assert(records@.take(records@.len() as int) =~= records@);
    }
    Ok(out)
}

} // verus!
