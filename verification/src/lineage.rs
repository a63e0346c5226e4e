//! Span lineage: how a process decides, once at startup, whether it is the
//! root of a trace or the child of the process that spawned it.
//!
//! A process inherits at most two pieces of trace state from its
//! environment: the run-wide correlation id and the wire form of its
//! parent's span identity.  From these it decides its own span's identity —
//! reusing the inherited trace id or minting a fresh one — and immediately
//! republishes the advanced context for any process it may spawn.  A
//! malformed inherited context is a fatal startup error, never a silent
//! fall-back to a root span, which would corrupt the trace tree.

use vstd::prelude::*;

use crate::codec::{decode_spec, encode_spec, DecodeError, TraceParent};

verus! {

/// Flags a root span starts with: the sampled bit, so a fresh run records
/// its spans.  A child carries its parent's flags through unchanged.
pub const ROOT_TRACE_FLAGS: u8 = 1;

/// What a process found when it read the run id from its environment.
pub enum RunIdReading {
    /// No run id: this process starts the run.
    Missing,
    /// A run id inherited as text, to be reused verbatim.
    Text(String),
    /// A run id that is present but not valid text: fatal.
    NotText,
}

/// The run-wide correlation id this process observes, and whether this
/// process minted it (true only for the process that starts the run).
pub struct RunId {
    pub value: String,
    pub minted: bool,
}

/// A startup error: the process must not start, and must not silently
/// degrade to a root span.
#[derive(Clone, Copy, Debug, PartialEq, Eq, Structural)]
pub enum StartupError {
    /// The run id is present in the environment but is not valid text.
    Identity,
    /// The inherited span context is present but malformed.
    Decode(DecodeError),
}

/// This process's place in the trace tree, decided once at startup.
#[derive(Clone, Copy, Debug, PartialEq, Eq, Structural)]
pub struct SpanLineage {
    /// Trace id shared by every span of the tree: inherited, or minted by
    /// the root.
    pub trace_id: u128,
    /// The span id of this process's own span.
    pub span_id: u64,
    /// The span id of the parent span, absent for the root process.
    pub parent_span_id: Option<u64>,
    /// Flags carried through from the parent, or the root default.
    pub flags: u8,
}

impl SpanLineage {
    /// A root lineage: the first process of a trace, with no parent span.
    pub open spec fn is_root(self) -> bool {
        self.parent_span_id is None
    }

    /// The context this process republishes for anything it spawns: the
    /// same trace, this process's own span as the parent, flags unchanged.
    pub open spec fn outgoing_spec(self) -> TraceParent {
        TraceParent { trace_id: self.trace_id, span_id: self.span_id, flags: self.flags }
    }

    /// The republished span context as a value.
    pub fn outgoing(&self) -> (r: TraceParent)
        ensures
            r == self.outgoing_spec(),
    {
        TraceParent { trace_id: self.trace_id, span_id: self.span_id, flags: self.flags }
    }

    /// The republished span context in its wire form.
    pub fn outgoing_wire(&self) -> (r: Vec<u8>)
        ensures
            r@ == encode_spec(self.outgoing_spec()),
    {
        self.outgoing().encode()
    }
}

/// A span id for this process that provably differs from the parent's:
/// the minted id, stepped once in the rare case it collides.
pub open spec fn distinct_span_id(minted: u64, avoid: u64) -> u64 {
    if minted != avoid {
        minted
    } else if avoid == u64::MAX {
        0
    } else {
        (avoid + 1) as u64
    }
}

/// The span id chain advances strictly one hop per process.
pub proof fn lemma_distinct_span_id(minted: u64, avoid: u64)
    ensures
        distinct_span_id(minted, avoid) != avoid,
{
}

/// The lineage decision as a function of the inherited wire context and
/// the ids minted for this process.  No parent: a root span under the
/// minted trace id.  A parent that decodes: a child span in the inherited
/// trace.  A parent that does not decode: the decode error, verbatim.
pub open spec fn derive_lineage_spec(
    inherited: Option<Seq<u8>>,
    minted_trace_id: u128,
    minted_span_id: u64,
) -> Result<SpanLineage, DecodeError> {
    match inherited {
        None => Ok(
            SpanLineage {
                trace_id: minted_trace_id,
                span_id: minted_span_id,
                parent_span_id: None,
                flags: ROOT_TRACE_FLAGS,
            },
        ),
        Some(w) => match decode_spec(w) {
            Ok(p) => Ok(
                SpanLineage {
                    trace_id: p.trace_id,
                    span_id: distinct_span_id(minted_span_id, p.span_id),
                    parent_span_id: Some(p.span_id),
                    flags: p.flags,
                },
            ),
            Err(e) => Err(e),
        },
    }
}

/// Decides this process's lineage from the inherited wire context, with
/// the freshly minted identifiers passed in.  Verified for every value the
/// generator could mint.
pub fn derive_lineage(
    inherited: Option<&Vec<u8>>,
    minted_trace_id: u128,
    minted_span_id: u64,
) -> (r: Result<SpanLineage, DecodeError>)
    ensures
        r == derive_lineage_spec(
            match inherited {
                Some(w) => Some(w@),
                None => None,
            },
            minted_trace_id,
            minted_span_id,
        ),
{
    match inherited {
        None => Ok(
            SpanLineage {
                trace_id: minted_trace_id,
                span_id: minted_span_id,
                parent_span_id: None,
                flags: ROOT_TRACE_FLAGS,
            },
        ),
        Some(w) => match TraceParent::decode(w.as_slice()) {
            Ok(p) => {
                let span_id = if minted_span_id != p.span_id {
                    minted_span_id
                } else if p.span_id == u64::MAX {
                    0
                } else {
                    p.span_id + 1
                };
                Ok(
                    SpanLineage {
                        trace_id: p.trace_id,
                        span_id,
                        parent_span_id: Some(p.span_id),
                        flags: p.flags,
                    },
                )
            },
            Err(e) => Err(e),
        },
    }
}

/// Relies on `uuid::Uuid::new_v4`: a version-4 identifier is 128 random
/// bits with the version and variant bits forced on, so it is never zero.
#[verifier::external_body]
fn mint_trace_id() -> (r: u128)
    ensures
        r != 0,
{
    uuid::Uuid::new_v4().as_u128()
}

/// Relies on `uuid::Uuid::new_v4` and `Uuid::as_u64_pair`: the high half
/// of a version-4 identifier contains the forced version bits, so it is
/// never zero.
#[verifier::external_body]
fn mint_span_id() -> (r: u64)
    ensures
        r != 0,
{
    uuid::Uuid::new_v4().as_u64_pair().0
}

/// Relies on `uuid::Uuid::now_v7` and its `Display` form: a time-ordered
/// identifier, rendered as the 36-character hyphenated text form.
#[verifier::external_body]
fn mint_text_id() -> (r: String)
    ensures
        r@.len() == 36,
{
    uuid::Uuid::now_v7().to_string()
}

/// Decides this process's lineage, minting the identifiers it may need.
/// Whatever the generator returns: the root case has no parent and default
/// flags; the child case reuses the inherited trace id, parents under the
/// inherited span id, and takes a distinct span id of its own; a malformed
/// inherited context is returned as its decode error.
pub fn establish_lineage(inherited: Option<&Vec<u8>>) -> (r: Result<SpanLineage, DecodeError>)
    ensures
        match inherited {
            None => r matches Ok(l) && l.parent_span_id is None && l.flags == ROOT_TRACE_FLAGS
                && l.trace_id != 0 && l.span_id != 0,
            Some(w) => match decode_spec(w@) {
                Ok(p) => r matches Ok(l) && l.trace_id == p.trace_id && l.parent_span_id == Some(
                    p.span_id,
                ) && l.flags == p.flags && l.span_id != p.span_id,
                Err(e) => r == Err::<SpanLineage, DecodeError>(e),
            },
        },
{
    let minted_trace_id = mint_trace_id();
    let minted_span_id = mint_span_id();
    derive_lineage(inherited, minted_trace_id, minted_span_id)
}

/// Resolves the run id: inherited text is reused verbatim; a missing run
/// id is minted here, marking this process as the start of the run; a run
/// id that is not valid text aborts startup.
pub fn resolve_run_id(reading: RunIdReading) -> (r: Result<RunId, StartupError>)
    ensures
        match reading {
            RunIdReading::Text(s) => r matches Ok(rid) && rid.value == s && !rid.minted,
            RunIdReading::Missing => r matches Ok(rid) && rid.minted && rid.value@.len() == 36,
            RunIdReading::NotText => r == Err::<RunId, StartupError>(StartupError::Identity),
        },
{
    match reading {
        RunIdReading::Text(s) => Ok(RunId { value: s, minted: false }),
        RunIdReading::Missing => Ok(RunId { value: mint_text_id(), minted: true }),
        RunIdReading::NotText => Err(StartupError::Identity),
    }
}

/// Everything a process decides at startup: its run id and its lineage.
pub struct ProcessStart {
    pub run: RunId,
    pub lineage: SpanLineage,
}

/// The whole startup decision, in the order the protocol fixes: resolve
/// the run id (fatal if unreadable), then the span lineage (fatal if the
/// inherited context is malformed), minting whatever is absent.
pub fn process_start(run_reading: RunIdReading, inherited: Option<&Vec<u8>>) -> (r: Result<
    ProcessStart,
    StartupError,
>)
    ensures
        match run_reading {
            RunIdReading::NotText => r == Err::<ProcessStart, StartupError>(StartupError::Identity),
            _ => match inherited {
                Some(w) => match decode_spec(w@) {
                    Ok(p) => r matches Ok(ps) && ps.lineage.trace_id == p.trace_id
                        && ps.lineage.parent_span_id == Some(p.span_id) && ps.lineage.flags
                        == p.flags && ps.lineage.span_id != p.span_id,
                    Err(e) => r == Err::<ProcessStart, StartupError>(StartupError::Decode(e)),
                },
                None => r matches Ok(ps) && ps.lineage.parent_span_id is None && ps.lineage.flags
                    == ROOT_TRACE_FLAGS,
            },
        },
        r matches Ok(ps) ==> match run_reading {
            RunIdReading::Text(s) => ps.run.value == s && !ps.run.minted,
            RunIdReading::Missing => ps.run.minted && ps.run.value@.len() == 36,
            RunIdReading::NotText => false,
        },
{
    let run = match resolve_run_id(run_reading) {
        Ok(rid) => rid,
        Err(e) => {
            return Err(e);
        },
    };
    let lineage = match establish_lineage(inherited) {
        Ok(l) => l,
        Err(e) => {
            return Err(StartupError::Decode(e));
        },
    };
    Ok(ProcessStart { run, lineage })
}

/// The run id a process observes: the inherited one, or the one it minted
/// when nothing was inherited.
pub open spec fn inherited_or_minted(inherited: Option<Seq<char>>, minted: Seq<char>) -> Seq<char> {
    match inherited {
        Some(s) => s,
        None => minted,
    }
}

/// Run-id propagation: across a three-process chain where the first
/// process finds no run id and each later process inherits the value its
/// parent observed, all three observe the identical run id — the one the
/// root minted.
pub proof fn lemma_run_id_chain(minted_root: Seq<char>, minted_child: Seq<char>, minted_gc: Seq<char>)
    ensures
        ({
            let root = inherited_or_minted(None, minted_root);
            let child = inherited_or_minted(Some(root), minted_child);
            let grandchild = inherited_or_minted(Some(child), minted_gc);
            root == minted_root && child == root && grandchild == root
        }),
{
}

/// Lineage law for a root process: started with no inherited context, it
/// builds a span under the freshly minted trace id with no parent span.
pub proof fn lemma_root_lineage(minted_trace_id: u128, minted_span_id: u64)
    ensures
        derive_lineage_spec(None, minted_trace_id, minted_span_id) matches Ok(l) && l.is_root()
            && l.trace_id == minted_trace_id && l.span_id == minted_span_id && l.flags
            == ROOT_TRACE_FLAGS,
{
}

/// Lineage law for a child process: started with a valid inherited context
/// `(T, S, F)`, it builds a span whose trace id is `T` and whose parent is
/// `S`, and republishes a wire context that decodes to `(T, S', F)` with a
/// new span id `S' != S`.
pub proof fn lemma_child_lineage(w: Seq<u8>, p: TraceParent, minted_trace_id: u128, minted_span_id: u64)
    requires
        decode_spec(w) == Ok::<TraceParent, DecodeError>(p),
    ensures
        derive_lineage_spec(Some(w), minted_trace_id, minted_span_id) matches Ok(l) && {
            let out = l.outgoing_spec();
            &&& l.trace_id == p.trace_id
            &&& l.parent_span_id == Some(p.span_id)
            &&& l.flags == p.flags
            &&& l.span_id != p.span_id
            &&& out.trace_id == p.trace_id
            &&& out.flags == p.flags
            &&& out.span_id != p.span_id
            &&& decode_spec(encode_spec(out)) == Ok::<TraceParent, DecodeError>(out)
        },
{
    let l = derive_lineage_spec(Some(w), minted_trace_id, minted_span_id)->Ok_0;
    crate::codec::lemma_encode_decode(l.outgoing_spec());
}

} // verus!
