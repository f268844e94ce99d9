//! Replay of a measurement log against the register values of a quote.

use vstd::prelude::*;
use crate::binding::zeros;
use crate::hashing::{sha256, sha256_of, sha384, sha384_of, sha512, sha512_of};

verus! {

/// Hash algorithm of a register or of a log entry.
#[derive(Debug, Clone, Copy, PartialEq, Eq, Structural)]
pub enum HashAlgorithm {
    Sha256,
    Sha384,
    Sha512,
}

/// One measured event: the register it extends and the digest it adds.
#[derive(Debug, Clone)]
pub struct LogEntry {
    pub index: u32,
    pub algorithm: HashAlgorithm,
    pub digest: Vec<u8>,
}

/// The value a register must hold after replay.
#[derive(Debug, Clone)]
pub struct ReferenceMeasurement {
    pub index: u32,
    pub algorithm: HashAlgorithm,
    pub reference: Vec<u8>,
}

/// Why a replay failed; each names the register index.
#[derive(Debug, Clone, Copy, PartialEq, Eq, Structural)]
pub enum ReplayError {
    /// The replayed value differs from the reference.
    RegisterMismatch(u32),
    /// An entry for the register uses another hash algorithm.
    AlgorithmMismatch(u32),
}

/// A log entry or a reference measurement as plain values:
/// register index, algorithm, and digest bytes.
pub type EntryView = (u32, HashAlgorithm, Seq<u8>);

impl View for LogEntry {
    type V = EntryView;

    open spec fn view(&self) -> EntryView {
        (self.index, self.algorithm, self.digest@)
    }
}

impl View for ReferenceMeasurement {
    type V = EntryView;

    open spec fn view(&self) -> EntryView {
        (self.index, self.algorithm, self.reference@)
    }
}

/// The entries of a log as plain values.
pub open spec fn log_view(s: Seq<LogEntry>) -> Seq<EntryView> {
    s.map_values(|e: LogEntry| e@)
}

/// The reference measurements as plain values.
pub open spec fn refs_view(s: Seq<ReferenceMeasurement>) -> Seq<EntryView> {
    s.map_values(|m: ReferenceMeasurement| m@)
}

/// Digest width in bytes of each algorithm.
pub open spec fn digest_len(a: HashAlgorithm) -> nat {
    match a {
        HashAlgorithm::Sha256 => 32,
        HashAlgorithm::Sha384 => 48,
        HashAlgorithm::Sha512 => 64,
    }
}

/// The digest of `data` under `a`.
pub open spec fn hash_of(a: HashAlgorithm, data: Seq<u8>) -> Seq<u8> {
    match a {
        HashAlgorithm::Sha256 => sha256_of(data),
        HashAlgorithm::Sha384 => sha384_of(data),
        HashAlgorithm::Sha512 => sha512_of(data),
    }
}

/// The value of register `index` after the first `n` entries of `log`:
/// it starts at zero and each entry for that register extends it with
/// `hash(value || digest)`.
pub open spec fn chain(log: Seq<EntryView>, index: u32, a: HashAlgorithm, n: int) -> Seq<u8>
    decreases n,
{
    if n <= 0 {
        zeros(digest_len(a))
    } else {
        let prev = chain(log, index, a, n - 1);
        if log[n - 1].0 == index {
            hash_of(a, prev + log[n - 1].2)
        } else {
            prev
        }
    }
}

/// Every one of the first `n` entries that targets `index` uses algorithm `a`.
pub open spec fn algorithm_consistent(log: Seq<EntryView>, index: u32, a: HashAlgorithm, n: int) -> bool {
    forall|j: int| 0 <= j < n && log[j].0 == index ==> log[j].1 == a
}

/// How the register of `m` fails to replay from `log`, if it does.
pub open spec fn register_failure(log: Seq<EntryView>, m: EntryView) -> Option<ReplayError> {
    if !algorithm_consistent(log, m.0, m.1, log.len() as int) {
        Some(ReplayError::AlgorithmMismatch(m.0))
    } else if chain(log, m.0, m.1, log.len() as int) == m.2 {
        None
    } else {
        Some(ReplayError::RegisterMismatch(m.0))
    }
}

/// The first failure among the references from position `i` on.
pub open spec fn replay_failure(log: Seq<EntryView>, refs: Seq<EntryView>, i: int) -> Option<
    ReplayError,
>
    decreases refs.len() - i,
{
    if i >= refs.len() {
        None
    } else {
        match register_failure(log, refs[i]) {
            Some(e) => Some(e),
            None => replay_failure(log, refs, i + 1),
        }
    }
}

/// The all-zero starting value of a register.
pub fn zero_digest(a: HashAlgorithm) -> (r: Vec<u8>)
    ensures
        r@ == zeros(digest_len(a)),
{
    let n: usize = match a {
        HashAlgorithm::Sha256 => 32,
        HashAlgorithm::Sha384 => 48,
        HashAlgorithm::Sha512 => 64,
    };
    let mut r: Vec<u8> = Vec::with_capacity(n);
    let mut i: usize = 0;
    while i < n
        invariant
            i <= n,
            n == digest_len(a),
            r@ == zeros(i as nat),
        decreases n - i,
    {
        r.push(0u8);
        i = i + 1;
        assert(r@ =~= zeros(i as nat));
    }
    r
}

/// `hash(acc || digest)` under `a`.
pub fn extend(a: HashAlgorithm, acc: &[u8], digest: &[u8]) -> (r: Vec<u8>)
    ensures
        r@ == hash_of(a, acc@ + digest@),
{
    let mut data: Vec<u8> = Vec::new();
    let mut i: usize = 0;
    while i < acc.len()
        invariant
            i <= acc@.len(),
            data@ == acc@.subrange(0, i as int),
        decreases acc@.len() - i,
    {
        data.push(acc[i]);
        i = i + 1;
        assert(data@ =~= acc@.subrange(0, i as int));
    }
    let mut j: usize = 0;
    while j < digest.len()
        invariant
            i == acc@.len(),
            j <= digest@.len(),
            data@ == acc@ + digest@.subrange(0, j as int),
        decreases digest@.len() - j,
    {
        data.push(digest[j]);
        j = j + 1;
        assert(data@ =~= acc@ + digest@.subrange(0, j as int));
    }
    assert(digest@.subrange(0, j as int) =~= digest@);
    match a {
        HashAlgorithm::Sha256 => sha256(data.as_slice()),
        HashAlgorithm::Sha384 => sha384(data.as_slice()),
        HashAlgorithm::Sha512 => sha512(data.as_slice()),
    }
}

/// Replays the register of `m` from `log` and compares it with the reference.
pub fn replay_register(log: &[LogEntry], m: &ReferenceMeasurement) -> (r: Result<(), ReplayError>)
    ensures
        r is Ok <==> register_failure(log_view(log@), m@) is None,
        r matches Err(e) ==> register_failure(log_view(log@), m@) == Some(e),
{
    let mut acc = zero_digest(m.algorithm);
    let mut k: usize = 0;
    while k < log.len()
        invariant
            k <= log@.len(),
            acc@ == chain(log_view(log@), m.index, m.algorithm, k as int),
            algorithm_consistent(log_view(log@), m.index, m.algorithm, k as int),
        decreases log@.len() - k,
    {
        let e = &log[k];
        assert(log_view(log@)[k as int] == log@[k as int]@);
        if e.index == m.index {
            if e.algorithm != m.algorithm {
                assert(!algorithm_consistent(log_view(log@), m.index, m.algorithm, log@.len() as int));
                return Err(ReplayError::AlgorithmMismatch(m.index));
            }
            acc = extend(m.algorithm, acc.as_slice(), e.digest.as_slice());
        }
        k = k + 1;
    }
    if crate::binding::bytes_equal(acc.as_slice(), m.reference.as_slice()) {
        Ok(())
    } else {
        Err(ReplayError::RegisterMismatch(m.index))
    }
}

/// Replays every reference register from `log`, in order, failing on the
/// first register that does not match.
pub fn replay_and_match(log: &[LogEntry], refs: &[ReferenceMeasurement]) -> (r: Result<(), ReplayError>)
    ensures
        r is Ok <==> replay_failure(log_view(log@), refs_view(refs@), 0) is None,
        r matches Err(e) ==> replay_failure(log_view(log@), refs_view(refs@), 0) == Some(e),
{
    let mut i: usize = 0;
    while i < refs.len()
        invariant
            i <= refs@.len(),
            replay_failure(log_view(log@), refs_view(refs@), 0) == replay_failure(
                log_view(log@),
                refs_view(refs@),
                i as int,
            ),
        decreases refs@.len() - i,
    {
        match replay_register(log, &refs[i]) {
            Err(e) => return Err(e),
            Ok(()) => {},
        }
        i = i + 1;
    }
    Ok(())
}

/// Replay depends on the log and the references alone: equal inputs give
/// equal outcomes, whenever and however often the replay runs.
pub proof fn lemma_replay_deterministic(
    log1: Seq<EntryView>,
    log2: Seq<EntryView>,
    refs1: Seq<EntryView>,
    refs2: Seq<EntryView>,
)
    requires
        log1 == log2,
        refs1 == refs2,
    ensures
        replay_failure(log1, refs1, 0) == replay_failure(log2, refs2, 0),
{
}

/// A register that no entry targets keeps its zero value.
pub proof fn lemma_chain_untouched(log: Seq<EntryView>, index: u32, a: HashAlgorithm, n: int)
    requires
        forall|j: int| 0 <= j < log.len() ==> log[j].0 != index,
        n <= log.len(),
    ensures
        chain(log, index, a, n) == zeros(digest_len(a)),
    decreases n,
{
    if n > 0 {
        lemma_chain_untouched(log, index, a, n - 1);
    }
}

/// With no entry for the register of `m`, replay succeeds exactly when the
/// reference is the all-zero value of the register's algorithm.
pub proof fn lemma_replay_empty_register(log: Seq<EntryView>, m: EntryView)
    requires
        forall|j: int| 0 <= j < log.len() ==> log[j].0 != m.0,
    ensures
        register_failure(log, m) is None <==> m.2 == zeros(digest_len(m.1)),
{
    lemma_chain_untouched(log, m.0, m.1, log.len() as int);
}

/// Two entries for one register chain in log order:
/// `hash(hash(0 || first) || second)`.
pub proof fn lemma_two_entry_chain(log: Seq<EntryView>, a: HashAlgorithm)
    requires
        log.len() == 2,
        log[0].0 == log[1].0,
    ensures
        chain(log, log[0].0, a, 2) == hash_of(a, hash_of(a, zeros(digest_len(a)) + log[0].2) + log[1].2),
{
    assert(chain(log, log[0].0, a, 0) == zeros(digest_len(a)));
    assert(chain(log, log[0].0, a, 1) == hash_of(a, zeros(digest_len(a)) + log[0].2));
}

} // verus!
