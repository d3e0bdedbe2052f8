//! The progress store: a map from archive path to a `(extracted, total)`
//! byte-count pair, plus the single auxiliary pair used for generic file
//! transfers.
//!
//! The store is the one piece of state shared between a running extraction
//! and its pollers; the host keeps the single instance behind a lock and
//! every operation here is one critical section. Keys are archive paths,
//! compared by their character content.

use vstd::prelude::*;

verus! {

/// Cumulative progress of one archive extraction: bytes already landed on
/// disk against the expected total. A `total` of zero means the expected
/// size is not yet known ("still initializing"), never "100% of nothing".
#[derive(Clone, Copy, PartialEq, Eq, Structural, Debug)]
pub struct ProgressEntry {
    pub extracted: u64,
    pub total: u64,
}

impl ProgressEntry {
    /// The completion convention: extraction is complete once the extracted
    /// count has reached a known, non-zero total.
    pub open spec fn is_complete(self) -> bool {
        self.extracted >= self.total && self.total > 0
    }
}

/// `delta` more than `a`, stopping at the largest representable count
/// rather than wrapping.
pub open spec fn spec_saturating_add(a: u64, delta: u64) -> u64 {
    if a + delta <= u64::MAX {
        (a + delta) as u64
    } else {
        u64::MAX
    }
}

/// What `initialize` leaves in the store: a fresh `(0, 0)` entry under the
/// key, overwriting any prior entry.
pub open spec fn spec_initialize(m: Map<Seq<char>, ProgressEntry>, k: Seq<char>) -> Map<
    Seq<char>,
    ProgressEntry,
> {
    m.insert(k, ProgressEntry { extracted: 0, total: 0 })
}

/// What `set_total` leaves in the store: the entry reset to `(0, total)`
/// once the expected size is known, or the store unchanged when the key is
/// absent (the extraction may have been superseded).
pub open spec fn spec_set_total(
    m: Map<Seq<char>, ProgressEntry>,
    k: Seq<char>,
    total: u64,
) -> Map<Seq<char>, ProgressEntry> {
    if m.contains_key(k) {
        m.insert(k, ProgressEntry { extracted: 0, total })
    } else {
        m
    }
}

/// What `add_extracted` leaves in the store: the extracted count grown by
/// `delta` (saturating), the total untouched; the store unchanged when the
/// key is absent.
pub open spec fn spec_add_extracted(
    m: Map<Seq<char>, ProgressEntry>,
    k: Seq<char>,
    delta: u64,
) -> Map<Seq<char>, ProgressEntry> {
    if m.contains_key(k) {
        m.insert(
            k,
            ProgressEntry {
                extracted: spec_saturating_add(m[k].extracted, delta),
                total: m[k].total,
            },
        )
    } else {
        m
    }
}

/// What `finalize` leaves in the store: the extracted count forced up to
/// the total, marking logical completion even if individual increments were
/// missed; the store unchanged when the key is absent.
pub open spec fn spec_finalize(m: Map<Seq<char>, ProgressEntry>, k: Seq<char>) -> Map<
    Seq<char>,
    ProgressEntry,
> {
    if m.contains_key(k) {
        m.insert(k, ProgressEntry { extracted: m[k].total, total: m[k].total })
    } else {
        m
    }
}

/// What `query` answers: the in-progress pair, or `None` when the key was
/// never initialized or the entry already satisfies the completion
/// convention — a completed extraction is erased from the poll-visible
/// surface.
pub open spec fn spec_query(m: Map<Seq<char>, ProgressEntry>, k: Seq<char>) -> Option<(u64, u64)> {
    if m.contains_key(k) && !m[k].is_complete() {
        Some((m[k].extracted, m[k].total))
    } else {
        None
    }
}

/// Character-for-character equality of two strings.
fn str_eq(a: &str, b: &str) -> (r: bool)
    ensures
        r == (a@ == b@),
{
    let a_len = a.unicode_len();
    let b_len = b.unicode_len();
    if a_len != b_len {
        return false;
    }
    let mut i: usize = 0;
    while i < a_len
        invariant
            a_len == a@.len(),
            a_len == b@.len(),
            i <= a_len,
            forall|j: int| 0 <= j < i ==> a@[j] == b@[j],
        decreases a_len - i,
    {
        if a.get_char(i) != b.get_char(i) {
            return false;
        }
        i += 1;
    }
    proof {
        assert(a@ =~= b@);
    }
    true
}

/// True when some string in `keys` has exactly the characters `k`.
spec fn has_key(keys: Seq<String>, k: Seq<char>) -> bool {
    exists|i: int| 0 <= i < keys.len() && keys[i]@ == k
}

/// The position in `keys` of the string with the characters `k`.
spec fn key_index(keys: Seq<String>, k: Seq<char>) -> int {
    choose|i: int| 0 <= i < keys.len() && keys[i]@ == k
}

/// No two strings in `keys` have the same characters.
spec fn distinct_keys(keys: Seq<String>) -> bool {
    forall|i: int, j: int| 0 <= i < j < keys.len() ==> keys[i]@ != keys[j]@
}

/// The map described by parallel key and entry sequences.
spec fn store_view(keys: Seq<String>, entries: Seq<ProgressEntry>) -> Map<
    Seq<char>,
    ProgressEntry,
> {
    Map::new(|k: Seq<char>| has_key(keys, k), |k: Seq<char>| entries[key_index(keys, k)])
}

/// Under distinct keys, the chosen index for `k` is the one known witness.
proof fn lemma_key_index_agrees(keys: Seq<String>, i: int, k: Seq<char>)
    requires
        distinct_keys(keys),
        0 <= i < keys.len(),
        keys[i]@ == k,
    ensures
        has_key(keys, k),
        key_index(keys, k) == i,
{
    assert(has_key(keys, k));
    let j = key_index(keys, k);
    assert(0 <= j < keys.len() && keys[j]@ == k);
    if j < i {
        assert(keys[j]@ != keys[i]@);
    } else if i < j {
        assert(keys[i]@ != keys[j]@);
    }
}

/// Replacing the entry at the witness index of `k` is, at the map level,
/// an insert under `k`.
proof fn lemma_update_is_insert(
    keys: Seq<String>,
    entries: Seq<ProgressEntry>,
    i: int,
    k: Seq<char>,
    e: ProgressEntry,
)
    requires
        distinct_keys(keys),
        keys.len() == entries.len(),
        0 <= i < keys.len(),
        keys[i]@ == k,
    ensures
        store_view(keys, entries.update(i, e)) == store_view(keys, entries).insert(k, e),
{
    let m_new = store_view(keys, entries.update(i, e));
    let m_old = store_view(keys, entries);
    lemma_key_index_agrees(keys, i, k);
    assert forall|q: Seq<char>| m_new.contains_key(q) implies m_new[q] == m_old.insert(k, e)[q] by {
        let w = key_index(keys, q);
        assert(0 <= w < keys.len() && keys[w]@ == q);
        if q == k {
            assert(w == i);
        } else {
            assert(w != i);
        }
    }
    assert(m_new =~= m_old.insert(k, e));
}

/// Appending a key not yet present is, at the map level, an insert under
/// it, and keeps the keys distinct.
proof fn lemma_push_is_insert(
    keys: Seq<String>,
    entries: Seq<ProgressEntry>,
    key: String,
    e: ProgressEntry,
)
    requires
        distinct_keys(keys),
        keys.len() == entries.len(),
        !has_key(keys, key@),
    ensures
        distinct_keys(keys.push(key)),
        store_view(keys.push(key), entries.push(e)) == store_view(keys, entries).insert(key@, e),
{
    let keys2 = keys.push(key);
    let entries2 = entries.push(e);
    assert forall|i: int, j: int| 0 <= i < j < keys2.len() implies keys2[i]@ != keys2[j]@ by {
        if j == keys.len() {
            assert(keys2[i] == keys[i]);
            if keys[i]@ == key@ {
                assert(has_key(keys, key@));
            }
        }
    }
    let m_new = store_view(keys2, entries2);
    let m_old = store_view(keys, entries);
    assert forall|q: Seq<char>| #[trigger] m_old.contains_key(q) implies m_new.contains_key(q)
        && key_index(keys2, q) == key_index(keys, q) by {
        let w = key_index(keys, q);
        assert(0 <= w < keys.len() && keys[w]@ == q);
        assert(keys2[w]@ == q);
        lemma_key_index_agrees(keys2, w, q);
    }
    assert(keys2[keys.len() as int]@ == key@);
    lemma_key_index_agrees(keys2, keys.len() as int, key@);
    assert forall|q: Seq<char>| #[trigger] m_new.contains_key(q) implies m_old.insert(
        key@,
        e,
    ).contains_key(q) by {
        let w = key_index(keys2, q);
        assert(0 <= w < keys2.len() && keys2[w]@ == q);
        if w < keys.len() {
            assert(keys[w]@ == q);
        }
    }
    assert(m_new =~= m_old.insert(key@, e));
}

/// The progress store itself: archive path to progress entry. One instance
/// serves the whole process, behind the host's lock; entries persist until
/// overwritten by a later `initialize` of the same key.
pub struct ProgressStore {
    keys: Vec<String>,
    entries: Vec<ProgressEntry>,
}

impl View for ProgressStore {
    type V = Map<Seq<char>, ProgressEntry>;

    closed spec fn view(&self) -> Map<Seq<char>, ProgressEntry> {
        store_view(self.keys@, self.entries@)
    }
}

impl ProgressStore {
    /// Internal shape: one entry per key, and no key twice.
    pub closed spec fn wf(&self) -> bool {
        &&& self.keys@.len() == self.entries@.len()
        &&& distinct_keys(self.keys@)
    }

    /// An empty store.
    pub fn new() -> (m: ProgressStore)
        ensures
            m.wf(),
            m@ == Map::<Seq<char>, ProgressEntry>::empty(),
    {
        let m = ProgressStore { keys: Vec::new(), entries: Vec::new() };
        proof {
            assert(m@ =~= Map::<Seq<char>, ProgressEntry>::empty());
        }
        m
    }

    /// The position of `key` in the store, if present.
    fn find_index(&self, key: &str) -> (r: Option<usize>)
        ensures
            match r {
                Some(i) => i < self.keys@.len() && self.keys@[i as int]@ == key@,
                None => !has_key(self.keys@, key@),
            },
    {
        let n = self.keys.len();
        let mut i: usize = 0;
        while i < n
            invariant
                n == self.keys@.len(),
                i <= n,
                forall|j: int| 0 <= j < i ==> self.keys@[j]@ != key@,
            decreases n - i,
        {
            if str_eq(self.keys[i].as_str(), key) {
                return Some(i);
            }
            i += 1;
        }
        None
    }

    /// Inserts a fresh `(0, 0)` entry for `key`, overwriting any prior
    /// entry: the key becomes visible to pollers before extraction begins.
    pub fn initialize(&mut self, key: &str)
        requires
            old(self).wf(),
        ensures
            final(self).wf(),
            final(self)@ == spec_initialize(old(self)@, key@),
    {
        let e = ProgressEntry { extracted: 0, total: 0 };
        match self.find_index(key) {
            Some(i) => {
                self.entries[i] = e;
                proof {
                    lemma_update_is_insert(self.keys@, old(self).entries@, i as int, key@, e);
                }
            },
            None => {
                let owned = key.to_owned();
                proof {
                    lemma_push_is_insert(self.keys@, self.entries@, owned, e);
                }
                self.keys.push(owned);
                self.entries.push(e);
            },
        }
    }

    /// Records the expected total byte count once archive metadata has been
    /// read, resetting the entry to `(0, total)`. A no-op when the key is
    /// absent: the extraction may have been superseded, and the update is
    /// silently dropped.
    pub fn set_total(&mut self, key: &str, total: u64)
        requires
            old(self).wf(),
        ensures
            final(self).wf(),
            final(self)@ == spec_set_total(old(self)@, key@, total),
    {
        match self.find_index(key) {
            Some(i) => {
                let e = ProgressEntry { extracted: 0, total };
                self.entries[i] = e;
                proof {
                    lemma_key_index_agrees(self.keys@, i as int, key@);
                    lemma_update_is_insert(self.keys@, old(self).entries@, i as int, key@, e);
                }
            },
            None => {},
        }
    }

    /// Grows the extracted count for `key` by `delta`, saturating at the
    /// largest representable count, leaving the total unchanged. A no-op
    /// when the key is absent.
    pub fn add_extracted(&mut self, key: &str, delta: u64)
        requires
            old(self).wf(),
        ensures
            final(self).wf(),
            final(self)@ == spec_add_extracted(old(self)@, key@, delta),
    {
        match self.find_index(key) {
            Some(i) => {
                proof {
                    lemma_key_index_agrees(self.keys@, i as int, key@);
                }
                let cur = self.entries[i];
                let grown = if cur.extracted <= u64::MAX - delta {
                    cur.extracted + delta
                } else {
                    u64::MAX
                };
                let e = ProgressEntry { extracted: grown, total: cur.total };
                self.entries[i] = e;
                proof {
                    lemma_update_is_insert(self.keys@, old(self).entries@, i as int, key@, e);
                }
            },
            None => {},
        }
    }

    /// Forces the extracted count up to the total for `key`, marking
    /// logical completion even if some increments were never observed. A
    /// no-op when the key is absent.
    pub fn finalize(&mut self, key: &str)
        requires
            old(self).wf(),
        ensures
            final(self).wf(),
            final(self)@ == spec_finalize(old(self)@, key@),
    {
        match self.find_index(key) {
            Some(i) => {
                proof {
                    lemma_key_index_agrees(self.keys@, i as int, key@);
                }
                let total = self.entries[i].total;
                let e = ProgressEntry { extracted: total, total };
                self.entries[i] = e;
                proof {
                    lemma_update_is_insert(self.keys@, old(self).entries@, i as int, key@, e);
                }
            },
            None => {},
        }
    }

    /// The poll-visible progress of `key`: the stored pair while extraction
    /// is genuinely under way, `None` when the key was never initialized or
    /// the entry satisfies the completion convention.
    pub fn query(&self, key: &str) -> (r: Option<(u64, u64)>)
        requires
            self.wf(),
        ensures
            r == spec_query(self@, key@),
    {
        match self.find_index(key) {
            Some(i) => {
                proof {
                    lemma_key_index_agrees(self.keys@, i as int, key@);
                }
                let e = self.entries[i];
                if e.extracted >= e.total && e.total > 0 {
                    None
                } else {
                    Some((e.extracted, e.total))
                }
            },
            None => None,
        }
    }

    /// The raw stored entry for `key`, without the completion-erasing
    /// convention of `query`.
    pub fn entry(&self, key: &str) -> (r: Option<ProgressEntry>)
        requires
            self.wf(),
        ensures
            r == if self@.contains_key(key@) {
                Some(self@[key@])
            } else {
                None::<ProgressEntry>
            },
    {
        match self.find_index(key) {
            Some(i) => {
                proof {
                    lemma_key_index_agrees(self.keys@, i as int, key@);
                }
                Some(self.entries[i])
            },
            None => None,
        }
    }
}

/// The initial value of the process-wide progress store; the host keeps
/// the one instance behind its lock.
pub fn get_progress_map() -> (m: ProgressStore)
    ensures
        m.wf(),
        m@ == Map::<Seq<char>, ProgressEntry>::empty(),
{
    ProgressStore::new()
}

/// A successful extraction records its total and ends with `finalize`;
/// whenever the recorded total is non-zero, a `query` after `finalize`
/// returns `None`: completion is erased from the poll-visible surface.
pub proof fn lemma_completed_extraction_queries_none(m: Map<Seq<char>, ProgressEntry>, k: Seq<char>)
    requires
        m.contains_key(k),
        m[k].total > 0,
    ensures
        spec_query(spec_finalize(m, k), k) == None::<(u64, u64)>,
{
}

/// `finalize` is idempotent: finalizing a key once or twice leaves the
/// same store.
pub proof fn lemma_finalize_idempotent(m: Map<Seq<char>, ProgressEntry>, k: Seq<char>)
    ensures
        spec_finalize(spec_finalize(m, k), k) == spec_finalize(m, k),
{
    if m.contains_key(k) {
        assert(spec_finalize(spec_finalize(m, k), k) =~= spec_finalize(m, k));
    }
}

/// When the observed increments already sum exactly to the total,
/// `finalize` changes nothing: the stored entry is the same with or
/// without it.
pub proof fn lemma_finalize_of_exact_sum_is_noop(m: Map<Seq<char>, ProgressEntry>, k: Seq<char>)
    requires
        m.contains_key(k),
        m[k].extracted == m[k].total,
    ensures
        spec_finalize(m, k) == m,
{
    assert(spec_finalize(m, k) =~= m);
}

/// A key never initialized answers `None` to `query`.
pub proof fn lemma_query_uninitialized(m: Map<Seq<char>, ProgressEntry>, k: Seq<char>)
    requires
        !m.contains_key(k),
    ensures
        spec_query(m, k) == None::<(u64, u64)>,
{
}

/// While `query` still reports progress against a known non-zero total,
/// the extracted count lies strictly below it: a poller never observes an
/// overshoot, because an entry at or past its total reads as `None`.
pub proof fn lemma_query_within_total(
    m: Map<Seq<char>, ProgressEntry>,
    k: Seq<char>,
    x: u64,
    t: u64,
)
    requires
        spec_query(m, k) == Some((x, t)),
        t > 0,
    ensures
        x < t,
{
}

/// Within one extraction, `add_extracted` never lowers the extracted
/// count and never touches the total: progress is monotone.
pub proof fn lemma_add_extracted_monotone(
    m: Map<Seq<char>, ProgressEntry>,
    k: Seq<char>,
    delta: u64,
)
    requires
        m.contains_key(k),
    ensures
        spec_add_extracted(m, k, delta)[k].extracted >= m[k].extracted,
        spec_add_extracted(m, k, delta)[k].total == m[k].total,
{
}

/// The single process-wide progress pair for generic file-transfer
/// operations unrelated to any archive.
#[derive(Clone, Copy, PartialEq, Eq, Structural, Debug)]
pub struct TransferProgress {
    pub current: u64,
    pub total: u64,
}

impl TransferProgress {
    /// Overwrites the pair with the caller's values.
    pub fn set(&mut self, current: u64, total: u64)
        ensures
            final(self).current == current,
            final(self).total == total,
    {
        self.current = current;
        self.total = total;
    }

    /// Reads the pair.
    pub fn get(&self) -> (r: (u64, u64))
        ensures
            r == (self.current, self.total),
    {
        (self.current, self.total)
    }
}

/// The initial value of the process-wide file-transfer pair; the host keeps
/// the one instance behind its lock.
pub fn get_file_transfer_progress_map() -> (t: TransferProgress)
    ensures
        t.current == 0,
        t.total == 0,
{
    TransferProgress { current: 0, total: 0 }
}

} // verus!
