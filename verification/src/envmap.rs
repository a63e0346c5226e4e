//! The environment hand-off: the only state shared across the process
//! boundary.
//!
//! A process publishes its trace state to the next process in the chain as
//! environment values, copied on spawn, never referenced.  This module
//! models an environment as a list of key/value byte pairs viewed as a map
//! in which the last entry for a key wins, gives the snapshot type the
//! launcher reads, and builds the merged environment for a spawned child —
//! the launcher's own environment with the republished values written over
//! it, overrides winning on conflict.

use vstd::prelude::*;
use vstd::slice::slice_to_vec;
use vstd::string::StringSliceAdditionalSpecFns;

use crate::codec::encode_spec;
use crate::lineage::SpanLineage;

verus! {

/// One environment entry.
pub struct EnvPair {
    pub key: Vec<u8>,
    pub value: Vec<u8>,
}

/// The map an entry list denotes: entries apply in order, so a later entry
/// for the same key wins.
pub open spec fn env_map(s: Seq<EnvPair>) -> Map<Seq<u8>, Seq<u8>>
    decreases s.len(),
{
    if s.len() == 0 {
        Map::empty()
    } else {
        env_map(s.drop_last()).insert(s.last().key@, s.last().value@)
    }
}

/// The name of the wire-context variable, `TRACEPARENT`.
pub open spec fn traceparent_key() -> Seq<u8> {
    seq![84u8, 82u8, 65u8, 67u8, 69u8, 80u8, 65u8, 82u8, 69u8, 78u8, 84u8]
}

/// The name of the run-correlation variable, `RUN_ID`.
pub open spec fn run_id_key() -> Seq<u8> {
    seq![82u8, 85u8, 78u8, 95u8, 73u8, 68u8]
}

/// The name of the log-attribution variable, `PARENT_ID`.
pub open spec fn parent_id_key() -> Seq<u8> {
    seq![80u8, 65u8, 82u8, 69u8, 78u8, 84u8, 95u8, 73u8, 68u8]
}

/// The bytes of `TRACEPARENT`.
pub fn traceparent_key_bytes() -> (r: Vec<u8>)
    ensures
        r@ == traceparent_key(),
{
    let mut v: Vec<u8> = Vec::new();
    v.push(84);
    v.push(82);
    v.push(65);
    v.push(67);
    v.push(69);
    v.push(80);
    v.push(65);
    v.push(82);
    v.push(69);
    v.push(78);
    v.push(84);
    proof {
        assert(v@ =~= traceparent_key());
    }
    v
}

/// The bytes of `RUN_ID`.
pub fn run_id_key_bytes() -> (r: Vec<u8>)
    ensures
        r@ == run_id_key(),
{
    let mut v: Vec<u8> = Vec::new();
    v.push(82);
    v.push(85);
    v.push(78);
    v.push(95);
    v.push(73);
    v.push(68);
    proof {
        assert(v@ =~= run_id_key());
    }
    v
}

/// The bytes of `PARENT_ID`.
pub fn parent_id_key_bytes() -> (r: Vec<u8>)
    ensures
        r@ == parent_id_key(),
{
    let mut v: Vec<u8> = Vec::new();
    v.push(80);
    v.push(65);
    v.push(82);
    v.push(69);
    v.push(78);
    v.push(84);
    v.push(95);
    v.push(73);
    v.push(68);
    proof {
        assert(v@ =~= parent_id_key());
    }
    v
}

/// Byte-string equality.
pub fn bytes_eq(a: &[u8], b: &[u8]) -> (r: bool)
    ensures
        r == (a@ == b@),
{
    if a.len() != b.len() {
        return false;
    }
    let mut i: usize = 0;
    while i < a.len()
        invariant
            a@.len() == b@.len(),
            i <= a@.len(),
            forall|j: int| 0 <= j < i ==> a@[j] == b@[j],
        decreases a@.len() - i,
    {
        if a[i] != b[i] {
            return false;
        }
        i = i + 1;
    }
    proof {
        assert(a@ =~= b@);
    }
    true
}

/// Collects the values to be injected into a spawned process's
/// environment.  The library fills it; the launcher applies it.
pub struct EnvInjector(pub Vec<EnvPair>);

impl EnvInjector {
    /// An empty injection.
    pub fn new() -> (r: Self)
        ensures
            r.0@.len() == 0,
    {
        EnvInjector(Vec::new())
    }

    /// Records that `key` is to carry `value`; a later entry for the same
    /// key wins.
    pub fn set(&mut self, key: Vec<u8>, value: Vec<u8>)
        ensures
            final(self).0@ == old(self).0@.push((EnvPair { key, value })),
            env_map(final(self).0@) == env_map(old(self).0@).insert(key@, value@),
    {
        self.0.push(EnvPair { key, value });
        proof {
            assert(self.0@.drop_last() =~= old(self).0@);
        }
    }
}

/// A snapshot of a process environment, read once at startup and treated
/// as immutable from then on.
pub struct EnvExtractor(pub Vec<EnvPair>);

impl View for EnvExtractor {
    type V = Map<Seq<u8>, Seq<u8>>;

    open spec fn view(&self) -> Map<Seq<u8>, Seq<u8>> {
        env_map(self.0@)
    }
}

/// No entry of `s` has key `k`.
spec fn key_absent(s: Seq<EnvPair>, k: Seq<u8>) -> bool {
    forall|i: int| 0 <= i < s.len() ==> (#[trigger] s[i]).key@ != k
}

/// A key none of the entries carries is not in the map.
proof fn lemma_env_map_absent(s: Seq<EnvPair>, k: Seq<u8>)
    requires
        key_absent(s, k),
    ensures
        !env_map(s).contains_key(k),
    decreases s.len(),
{
    if s.len() > 0 {
        assert(key_absent(s.drop_last(), k)) by {
            assert(forall|i: int|
                0 <= i < s.len() - 1 ==> (#[trigger] s.drop_last()[i]).key@ == s[i].key@
                    && s[i].key@ != k);
        }
        lemma_env_map_absent(s.drop_last(), k);
    }
}

/// The map holds, for each key, the value of the last entry carrying it.
proof fn lemma_env_map_last(s: Seq<EnvPair>, i: int)
    requires
        0 <= i < s.len(),
        forall|j: int| i < j < s.len() ==> (#[trigger] s[j]).key@ != s[i].key@,
    ensures
        env_map(s).contains_key(s[i].key@),
        env_map(s)[s[i].key@] == s[i].value@,
    decreases s.len(),
{
    if i == s.len() - 1 {
    } else {
        assert(s.drop_last()[i] == s[i]);
        assert(forall|j: int|
            i < j < s.len() - 1 ==> (#[trigger] s.drop_last()[j]).key@ == s[j].key@
                && s[j].key@ != s[i].key@);
        lemma_env_map_last(s.drop_last(), i);
        assert(s.last().key@ != s[i].key@);
    }
}

impl EnvExtractor {
    /// An empty snapshot.
    pub fn new() -> (r: Self)
        ensures
            r@ == Map::<Seq<u8>, Seq<u8>>::empty(),
            r.0@.len() == 0,
    {
        EnvExtractor(Vec::new())
    }

    /// Adds an entry; a later entry for the same key replaces the earlier.
    pub fn insert_pair(&mut self, key: Vec<u8>, value: Vec<u8>)
        ensures
            final(self)@ == old(self)@.insert(key@, value@),
            final(self).0@ == old(self).0@.push(EnvPair { key, value }),
    {
        self.0.push(EnvPair { key, value });
        proof {
            assert(self.0@.drop_last() =~= old(self).0@);
        }
    }

    /// Looks a key up in the snapshot.
    pub fn get(&self, key: &[u8]) -> (r: Option<&Vec<u8>>)
        ensures
            match r {
                Some(v) => self@.contains_key(key@) && self@[key@] == v@,
                None => !self@.contains_key(key@),
            },
    {
        let mut i: usize = self.0.len();
        while i > 0
            invariant
                i <= self.0@.len(),
                forall|j: int| i <= j < self.0@.len() ==> (#[trigger] self.0@[j]).key@ != key@,
            decreases i,
        {
            i = i - 1;
            if bytes_eq(self.0[i].key.as_slice(), key) {
                proof {
                    lemma_env_map_last(self.0@, i as int);
                }
                return Some(&self.0[i].value);
            }
        }
        proof {
            lemma_env_map_absent(self.0@, key@);
        }
        None
    }

    /// The keys of the snapshot's entries, in entry order.
    pub fn keys(&self) -> (r: Vec<Vec<u8>>)
        ensures
            r@.len() == self.0@.len(),
            forall|i: int| 0 <= i < r@.len() ==> r@[i]@ == (#[trigger] self.0@[i]).key@,
    {
        let mut r: Vec<Vec<u8>> = Vec::new();
        let mut i: usize = 0;
        while i < self.0.len()
            invariant
                i <= self.0@.len(),
                r@.len() == i,
                forall|j: int| 0 <= j < i ==> r@[j]@ == (#[trigger] self.0@[j]).key@,
            decreases self.0@.len() - i,
        {
            r.push(slice_to_vec(self.0[i].key.as_slice()));
            i = i + 1;
        }
        r
    }
}

/// Concatenating entry lists unites their maps, the right side winning —
/// appending overrides is exactly override-on-conflict.
pub proof fn lemma_env_map_concat(a: Seq<EnvPair>, b: Seq<EnvPair>)
    ensures
        env_map(a + b) == env_map(a).union_prefer_right(env_map(b)),
    decreases b.len(),
{
    if b.len() == 0 {
        assert(a + b =~= a);
        assert(env_map(a).union_prefer_right(env_map(b)) =~= env_map(a));
    } else {
        lemma_env_map_concat(a, b.drop_last());
        assert((a + b).drop_last() =~= a + b.drop_last());
        assert((a + b).last() == b.last());
        assert(env_map(a).union_prefer_right(env_map(b.drop_last())).insert(
            b.last().key@,
            b.last().value@,
        ) =~= env_map(a).union_prefer_right(
            env_map(b.drop_last()).insert(b.last().key@, b.last().value@),
        ));
    }
}

/// Copies a byte string.
pub fn copy_bytes(v: &[u8]) -> (r: Vec<u8>)
    ensures
        r@ == v@,
{
    slice_to_vec(v)
}

/// The environment for a spawned child: the launcher's own environment
/// with the overrides written over it — an override wins on conflict, and
/// every other inherited entry is kept.
pub fn merge_env(base: &EnvExtractor, overrides: &Vec<EnvPair>) -> (r: Vec<EnvPair>)
    ensures
        env_map(r@) == base@.union_prefer_right(env_map(overrides@)),
{
    let mut r: Vec<EnvPair> = Vec::new();
    let mut i: usize = 0;
    while i < base.0.len()
        invariant
            i <= base.0@.len(),
            r@.len() == i,
            forall|j: int| 0 <= j < i ==> #[trigger] r@[j].key@ == base.0@[j].key@
                && r@[j].value@ == base.0@[j].value@,
        decreases base.0@.len() - i,
    {
        r.push(
            EnvPair {
                key: copy_bytes(base.0[i].key.as_slice()),
                value: copy_bytes(base.0[i].value.as_slice()),
            },
        );
        i = i + 1;
    }
    let ghost base_part = r@;
    proof {
        lemma_env_map_pointwise(base_part, base.0@);
    }
    let mut k: usize = 0;
    while k < overrides.len()
        invariant
            k <= overrides@.len(),
            r@.len() == base_part.len() + k,
            r@.subrange(0, base_part.len() as int) == base_part,
            forall|j: int| 0 <= j < k ==> #[trigger] r@[base_part.len() + j].key@
                == overrides@[j].key@ && r@[base_part.len() + j].value@ == overrides@[j].value@,
        decreases overrides@.len() - k,
    {
        let ghost pre = r@;
        r.push(
            EnvPair {
                key: copy_bytes(overrides[k].key.as_slice()),
                value: copy_bytes(overrides[k].value.as_slice()),
            },
        );
        proof {
            assert(r@.subrange(0, base_part.len() as int) =~= pre.subrange(
                0,
                base_part.len() as int,
            ));
        }
        k = k + 1;
    }
    proof {
        let over_part = r@.subrange(base_part.len() as int, r@.len() as int);
        assert(r@ =~= base_part + over_part);
        assert(forall|j: int|
            0 <= j < over_part.len() ==> (#[trigger] over_part[j]) == r@[base_part.len() + j]);
        lemma_env_map_pointwise(over_part, overrides@);
        lemma_env_map_concat(base_part, over_part);
    }
    r
}

/// Entry lists equal pair by pair denote the same map.
proof fn lemma_env_map_pointwise(a: Seq<EnvPair>, b: Seq<EnvPair>)
    requires
        a.len() == b.len(),
        forall|i: int| 0 <= i < a.len() ==> (#[trigger] a[i]).key@ == b[i].key@ && a[i].value@
            == b[i].value@,
    ensures
        env_map(a) == env_map(b),
    decreases a.len(),
{
    if a.len() > 0 {
        assert(forall|i: int|
            0 <= i < a.len() - 1 ==> (#[trigger] a.drop_last()[i]).key@ == b.drop_last()[i].key@
                && a.drop_last()[i].value@ == b.drop_last()[i].value@);
        lemma_env_map_pointwise(a.drop_last(), b.drop_last());
        assert(a.last().key@ == b.last().key@ && a.last().value@ == b.last().value@);
    }
}

/// The three values a process republishes before it spawns: the advanced
/// wire context, the run id verbatim, and this process's own id for log
/// attribution.
pub fn outgoing_env(lineage: &SpanLineage, run_id: &str, self_id: &str) -> (r: Vec<EnvPair>)
    ensures
        r@.len() == 3,
        r@[0].key@ == traceparent_key(),
        r@[0].value@ == encode_spec(lineage.outgoing_spec()),
        r@[1].key@ == run_id_key(),
        r@[1].value@ == run_id.spec_bytes(),
        r@[2].key@ == parent_id_key(),
        r@[2].value@ == self_id.spec_bytes(),
{
    let mut r: Vec<EnvPair> = Vec::new();
    r.push(EnvPair { key: traceparent_key_bytes(), value: lineage.outgoing_wire() });
    r.push(EnvPair { key: run_id_key_bytes(), value: copy_bytes(run_id.as_bytes()) });
    r.push(EnvPair { key: parent_id_key_bytes(), value: copy_bytes(self_id.as_bytes()) });
    r
}

} // verus!
