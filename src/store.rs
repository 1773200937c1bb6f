//! The bibliography store: records keyed by citation key, with duplicate
//! detection by DOI and collision resolution by suffix letters.

use vstd::prelude::*;
use crate::text::push_char;
use crate::{fails_with, CiteNoteError, ErrorKind};

verus! {

#[verifier::external_type_specification]
#[verifier::external_body]
pub struct ExEntry(biblatex::Entry);

/// Relies on the derived `Clone` of `biblatex::Entry`: a field-by-field copy.
pub assume_specification[ <biblatex::Entry as Clone>::clone ](e: &biblatex::Entry) -> (r: biblatex::Entry)
    ensures
        r == *e,
;

/// One bibliographic record: its citation key, its DOI as read from the
/// entry (`Some("")` when the entry has none, `None` when it cannot be read),
/// and the full entry, whose fields travel with the record.
#[derive(Debug, Clone)]
pub struct Record {
    pub key: String,
    pub doi: Option<String>,
    pub entry: biblatex::Entry,
}

/// The DOI of a record as a sequence of characters, when it can be read.
pub open spec fn doi_view(d: Option<String>) -> Option<Seq<char>> {
    match d {
        Some(s) => Some(s@),
        None => None,
    }
}

/// Some record of `s` has key `k`.
pub open spec fn has_key(s: Seq<Record>, k: Seq<char>) -> bool {
    exists|i: int| 0 <= i < s.len() && #[trigger] s[i].key@ == k
}

/// No two records of `s` share a key.
pub open spec fn keys_unique(s: Seq<Record>) -> bool {
    forall|i: int, j: int|
        0 <= i < s.len() && 0 <= j < s.len() && i != j ==> #[trigger] s[i].key@ != #[trigger] s[j].key@
}

/// The DOI of the record of `s` with key `k`.
pub open spec fn stored_doi(s: Seq<Record>, k: Seq<char>) -> Option<Seq<char>> {
    doi_view(s[choose|i: int| 0 <= i < s.len() && #[trigger] s[i].key@ == k].doi)
}

/// The letters appended, one per collision, to a proposed key.
pub open spec fn suffix_letters() -> Seq<char> {
    seq![
        'a', 'b', 'c', 'd', 'e', 'f', 'g', 'h', 'i', 'j', 'k', 'l', 'm', 'n', 'o', 'p', 'q',
        'r', 's', 't', 'u', 'v', 'w', 'x', 'y',
    ]
}

/// How many keys are tried for one record.
pub const CANDIDATE_COUNT: usize = 25;

/// The `i`-th key tried for proposed key `base`: `base` followed by the first
/// `i` suffix letters.
pub open spec fn candidate(base: Seq<char>, i: int) -> Seq<char> {
    base + suffix_letters().take(i)
}

/// What adding a record does to a store.
pub enum AddOutcome {
    /// The record goes in under this key.
    Insert(Seq<char>),
    /// A record with the same key and DOI is held already: nothing changes.
    Present,
    /// A held record on the search path has a DOI that cannot be read.
    StoredDoiUnreadable,
    /// Every candidate key is held by a record with another DOI.
    Exhausted,
}

/// The search for a key, from the `i`-th candidate on.
pub open spec fn search(s: Seq<Record>, base: Seq<char>, doi: Seq<char>, i: int) -> AddOutcome
    decreases 25 - i,
{
    if i < 0 || i >= 25 {
        AddOutcome::Exhausted
    } else if !has_key(s, candidate(base, i)) {
        AddOutcome::Insert(candidate(base, i))
    } else if stored_doi(s, candidate(base, i)) is None {
        AddOutcome::StoredDoiUnreadable
    } else if stored_doi(s, candidate(base, i)) == Some(doi) {
        AddOutcome::Present
    } else {
        search(s, base, doi, i + 1)
    }
}

/// `after` is `before` with `rec` appended under key `k`.
pub open spec fn inserted(before: Seq<Record>, after: Seq<Record>, rec: Record, k: Seq<char>) -> bool {
    &&& after.len() == before.len() + 1
    &&& after.take(before.len() as int) == before
    &&& after.last().key@ == k
    &&& after.last().doi == rec.doi
    &&& after.last().entry == crate::bib::rekeyed(rec.entry, k)
}

/// The result of adding `rec` to the records `s`.
pub open spec fn add_spec(s: Seq<Record>, rec: Record, after: Seq<Record>, r: crate::Result<()>) -> bool {
    match rec.doi {
        None => fails_with(r, ErrorKind::DoiParseError) && after == s,
        Some(d) => match search(s, rec.key@, d@, 0) {
            AddOutcome::Insert(k) => r is Ok && inserted(s, after, rec, k),
            AddOutcome::Present => r is Ok && after == s,
            AddOutcome::StoredDoiUnreadable => fails_with(r, ErrorKind::DoiParseError) && after == s,
            AddOutcome::Exhausted => fails_with(r, ErrorKind::KeySpaceExhausted) && after == s,
        },
    }
}

/// The keys tried, in order, for proposed key `base`.
pub fn extend_candidates(base: &str) -> (r: Vec<String>)
    ensures
        r@.len() == CANDIDATE_COUNT,
        forall|i: int| 0 <= i < r@.len() ==> #[trigger] r@[i]@ == candidate(base@, i),
{
    let letters: Vec<char> = vec![
        'a', 'b', 'c', 'd', 'e', 'f', 'g', 'h', 'i', 'j', 'k', 'l', 'm', 'n', 'o', 'p', 'q',
        'r', 's', 't', 'u', 'v', 'w', 'x', 'y',
    ];
    assert(letters@ =~= suffix_letters());
    let mut out: Vec<String> = Vec::new();
    let mut key = String::from_str(base);
    let mut i: usize = 0;
    while i < CANDIDATE_COUNT
        invariant
            letters@ == suffix_letters(),
            i <= CANDIDATE_COUNT,
            out@.len() == i,
            key@ == candidate(base@, i as int),
            forall|j: int| 0 <= j < i ==> #[trigger] out@[j]@ == candidate(base@, j),
        decreases CANDIDATE_COUNT - i,
    {
        out.push(key.clone());
        push_char(&mut key, letters[i]);
        assert(suffix_letters().take(i + 1) =~= suffix_letters().take(i as int).push(letters@[i as int]));
        assert(key@ =~= candidate(base@, i + 1));
        i = i + 1;
    }
    out
}

/// What a held key tells about an incoming DOI.
enum KeyDoiResult {
    StoredDoiUnreadable,
    NoKey,
    KeyExists,
    DoiExists,
}

/// The bibliography store. No two records share a key.
#[derive(Debug)]
pub struct DB {
    records: Vec<Record>,
}

impl DB {
    /// The records held, in the order they were added.
    pub closed spec fn records(&self) -> Seq<Record> {
        self.records@
    }

    /// The store's invariant: keys are unique.
    pub open spec fn wf(&self) -> bool {
        keys_unique(self.records())
    }

    /// An empty store.
    pub fn new() -> (r: DB)
        ensures
            r.wf(),
            r.records() == Seq::<Record>::empty(),
    {
        DB { records: Vec::new() }
    }

    /// The number of records held.
    pub fn len(&self) -> (r: usize)
        ensures
            r == self.records().len(),
    {
        self.records.len()
    }

    /// The records held.
    pub fn get_bibliography(&self) -> (r: &Vec<Record>)
        ensures
            r@ == self.records(),
    {
        &self.records
    }

    /// The position of the record with key `key`, if one is held.
    pub fn find(&self, key: &String) -> (r: Option<usize>)
        ensures
            match r {
                Some(i) => i < self.records().len() && self.records()[i as int].key@ == key@,
                None => !has_key(self.records(), key@),
            },
    {
        let mut i: usize = 0;
        while i < self.records.len()
            invariant
                i <= self.records@.len(),
                forall|j: int| 0 <= j < i ==> #[trigger] self.records@[j].key@ != key@,
            decreases self.records@.len() - i,
        {
            if self.records[i].key == *key {
                return Some(i);
            }
            i = i + 1;
        }
        None
    }

    /// Appends `record` when its key is free; says whether it did.
    pub fn push_new(&mut self, record: Record) -> (r: bool)
        requires
            old(self).wf(),
        ensures
            final(self).wf(),
            r == !has_key(old(self).records(), record.key@),
            r ==> final(self).records() == old(self).records().push(record),
            !r ==> final(self).records() == old(self).records(),
    {
        match self.find(&record.key) {
            Some(_) => false,
            None => {
                let ghost before = self.records();
                self.records.push(record);
                assert forall|a: int, b: int|
                    0 <= a < self.records().len() && 0 <= b < self.records().len() && a != b
                    implies #[trigger] self.records()[a].key@ != #[trigger] self.records()[b].key@ by {
                    if a < before.len() && b < before.len() {
                        assert(self.records()[a] == before[a]);
                        assert(self.records()[b] == before[b]);
                    } else if a < before.len() {
                        assert(self.records()[a] == before[a]);
                    } else {
                        assert(self.records()[b] == before[b]);
                    }
                }
                true
            },
        }
    }

    fn lookup_entry_exists(&self, key: &String, doi: &String) -> (r: KeyDoiResult)
        requires
            self.wf(),
        ensures
            r is NoKey <==> !has_key(self.records(), key@),
            r is StoredDoiUnreadable <==> has_key(self.records(), key@)
                && stored_doi(self.records(), key@) is None,
            r is DoiExists <==> has_key(self.records(), key@)
                && stored_doi(self.records(), key@) == Some(doi@),
    {
        match self.find(key) {
            None => KeyDoiResult::NoKey,
            Some(i) => {
                let ghost k = choose|j: int| 0 <= j < self.records@.len() && #[trigger] self.records@[j].key@ == key@;
                assert(k == i);
                match &self.records[i].doi {
                    None => KeyDoiResult::StoredDoiUnreadable,
                    Some(stored) => {
                        assert(self.records@[k].doi == Some(*stored));
                        if *stored == *doi {
                            KeyDoiResult::DoiExists
                        } else {
                            KeyDoiResult::KeyExists
                        }
                    },
                }
            },
        }
    }

    /// Adds `record` under the first free candidate key. A held record with
    /// the same key and DOI makes the call a no-op; a held record with another
    /// DOI moves the search to the next candidate.
    pub fn add(&mut self, record: Record) -> (r: crate::Result<()>)
        requires
            old(self).wf(),
        ensures
            final(self).wf(),
            add_spec(old(self).records(), record, final(self).records(), r),
    {
        let doi = match &record.doi {
            Some(d) => d.clone(),
            None => {
                return Err(CiteNoteError::of_kind(ErrorKind::DoiParseError));
            },
        };
        let candidates = extend_candidates(record.key.as_str());
        let mut i: usize = 0;
        while i < CANDIDATE_COUNT
            invariant
                self.wf(),
                self.records() == old(self).records(),
                record.doi == Some(doi),
                candidates@.len() == CANDIDATE_COUNT,
                forall|j: int| 0 <= j < candidates@.len() ==> #[trigger] candidates@[j]@ == candidate(record.key@, j),
                i <= CANDIDATE_COUNT,
                search(self.records(), record.key@, doi@, 0) == search(self.records(), record.key@, doi@, i as int),
            decreases CANDIDATE_COUNT - i,
        {
            match self.lookup_entry_exists(&candidates[i], &doi) {
                KeyDoiResult::NoKey => {
                    let ghost before = self.records();
                    let key = candidates[i].clone();
                    let mut record = record;
                    record.entry = crate::bib::with_key(&record.entry, &key);
                    record.key = key;
                    self.records.push(record);
                    assert(self.records().take(before.len() as int) =~= before);
                    assert forall|a: int, b: int|
                        0 <= a < self.records().len() && 0 <= b < self.records().len() && a != b
                        implies #[trigger] self.records()[a].key@ != #[trigger] self.records()[b].key@ by {
                        if a < before.len() && b < before.len() {
                            assert(self.records()[a] == before[a]);
                            assert(self.records()[b] == before[b]);
                        } else if a < before.len() {
                            assert(self.records()[a] == before[a]);
                        } else {
                            assert(self.records()[b] == before[b]);
                        }
                    }
                    return Ok(());
                },
                KeyDoiResult::DoiExists => {
                    return Ok(());
                },
                KeyDoiResult::StoredDoiUnreadable => {
                    return Err(CiteNoteError::of_kind(ErrorKind::DoiParseError));
                },
                KeyDoiResult::KeyExists => {},
            }
            i = i + 1;
        }
        Err(CiteNoteError::of_kind(ErrorKind::KeySpaceExhausted))
    }
}

/// In a store with unique keys, the DOI stored under the key of record `i`
/// is that record's DOI.
proof fn lemma_stored_doi_at(s: Seq<Record>, i: int)
    requires
        keys_unique(s),
        0 <= i < s.len(),
    ensures
        has_key(s, s[i].key@),
        stored_doi(s, s[i].key@) == doi_view(s[i].doi),
{
    let k = s[i].key@;
    assert(s[i].key@ == k);
    let j = choose|j: int| 0 <= j < s.len() && #[trigger] s[j].key@ == k;
    assert(j == i);
}

/// A key that the search settles on is free in the store.
proof fn lemma_insert_key_free(s: Seq<Record>, base: Seq<char>, doi: Seq<char>, j: int, k: Seq<char>)
    requires
        search(s, base, doi, j) == AddOutcome::Insert(k),
    ensures
        !has_key(s, k),
    decreases 25 - j,
{
    if 0 <= j < 25 && has_key(s, candidate(base, j)) {
        lemma_insert_key_free(s, base, doi, j + 1, k);
    }
}

/// Appending a record under a free key keeps keys unique, and keeps what is
/// stored under every other key.
proof fn lemma_insert_keeps(s: Seq<Record>, after: Seq<Record>, rec: Record, k: Seq<char>, c: Seq<char>)
    requires
        keys_unique(s),
        !has_key(s, k),
        inserted(s, after, rec, k),
    ensures
        keys_unique(after),
        has_key(after, k),
        stored_doi(after, k) == doi_view(rec.doi),
        c != k ==> has_key(after, c) == has_key(s, c),
        c != k && has_key(s, c) ==> stored_doi(after, c) == stored_doi(s, c),
{
    let n = s.len() as int;
    assert forall|i: int| 0 <= i < n implies after[i] == s[i] by {
        assert(after.take(n)[i] == after[i]);
    }
    assert forall|a: int, b: int|
        0 <= a < after.len() && 0 <= b < after.len() && a != b
        implies #[trigger] after[a].key@ != #[trigger] after[b].key@ by {
        if a < n && b < n {
        } else if a < n {
            assert(s[a].key@ == after[a].key@);
        } else {
            assert(s[b].key@ == after[b].key@);
        }
    }
    lemma_stored_doi_at(after, n);
    if c != k {
        if has_key(s, c) {
            let i = choose|i: int| 0 <= i < s.len() && #[trigger] s[i].key@ == c;
            lemma_stored_doi_at(s, i);
            assert(after[i] == s[i]);
            lemma_stored_doi_at(after, i);
        }
        if has_key(after, c) {
            let i = choose|i: int| 0 <= i < after.len() && #[trigger] after[i].key@ == c;
            assert(i < n);
            assert(after[i] == s[i]);
        }
    }
}

proof fn lemma_present_after_insert(
    s: Seq<Record>,
    after: Seq<Record>,
    rec: Record,
    base: Seq<char>,
    doi: Seq<char>,
    j: int,
    k: Seq<char>,
)
    requires
        keys_unique(s),
        doi_view(rec.doi) == Some(doi),
        inserted(s, after, rec, k),
        search(s, base, doi, j) == AddOutcome::Insert(k),
    ensures
        search(after, base, doi, j) == AddOutcome::Present,
    decreases 25 - j,
{
    lemma_insert_key_free(s, base, doi, j, k);
    let c = candidate(base, j);
    lemma_insert_keeps(s, after, rec, k, c);
    if has_key(s, c) {
        lemma_present_after_insert(s, after, rec, base, doi, j + 1, k);
    }
}

/// Adding a record, then a record with the same proposed key and the same
/// DOI: the second add succeeds and leaves the store as the first left it.
pub proof fn lemma_add_idempotent(
    s: Seq<Record>,
    first: Record,
    mid: Seq<Record>,
    r1: crate::Result<()>,
    second: Record,
    after: Seq<Record>,
    r2: crate::Result<()>,
)
    requires
        keys_unique(s),
        second.key@ == first.key@,
        doi_view(second.doi) == doi_view(first.doi),
        add_spec(s, first, mid, r1),
        r1 is Ok,
        add_spec(mid, second, after, r2),
    ensures
        r2 is Ok,
        after == mid,
{
    let d = first.doi->Some_0@;
    if let AddOutcome::Insert(k) = search(s, first.key@, d, 0) {
        lemma_present_after_insert(s, mid, first, first.key@, d, 0, k);
    }
}

proof fn lemma_all_held(s: Seq<Record>, base: Seq<char>, doi: Seq<char>, j: int)
    requires
        0 <= j <= 25,
        forall|i: int| 0 <= i < 25 ==> #[trigger] has_key(s, candidate(base, i)),
        forall|i: int| 0 <= i < 25 ==> #[trigger] stored_doi(s, candidate(base, i)) is Some,
        forall|i: int| 0 <= i < 25 ==> #[trigger] stored_doi(s, candidate(base, i)) != Some(doi),
    ensures
        search(s, base, doi, j) == AddOutcome::Exhausted,
    decreases 25 - j,
{
    if j < 25 {
        let c = candidate(base, j);
        assert(has_key(s, c));
        assert(stored_doi(s, c) is Some);
        assert(stored_doi(s, c) != Some(doi));
        lemma_all_held(s, base, doi, j + 1);
    }
}

/// When every candidate key of a record is held by a record with another
/// readable DOI, adding it fails with `KeySpaceExhausted` and the store is
/// left unchanged.
pub proof fn lemma_key_space_exhausted(
    s: Seq<Record>,
    rec: Record,
    after: Seq<Record>,
    r: crate::Result<()>,
)
    requires
        rec.doi is Some,
        forall|i: int| 0 <= i < 25 ==> #[trigger] has_key(s, candidate(rec.key@, i)),
        forall|i: int| 0 <= i < 25 ==> #[trigger] stored_doi(s, candidate(rec.key@, i)) is Some,
        forall|i: int| 0 <= i < 25 ==> #[trigger] stored_doi(s, candidate(rec.key@, i)) != doi_view(rec.doi),
        add_spec(s, rec, after, r),
    ensures
        fails_with(r, ErrorKind::KeySpaceExhausted),
        after == s,
{
    lemma_all_held(s, rec.key@, rec.doi->Some_0@, 0);
}

/// A record whose proposed key is held by a record with another readable
/// DOI goes in under its key plus `a` when that key is free, and under its
/// key plus `ab` when that one is held too by another DOI.
pub proof fn lemma_collision_suffix(s: Seq<Record>, base: Seq<char>, doi: Seq<char>)
    requires
        has_key(s, base),
        stored_doi(s, base) is Some,
        stored_doi(s, base) != Some(doi),
    ensures
        !has_key(s, base + seq!['a']) ==> search(s, base, doi, 0) == AddOutcome::Insert(base + seq!['a']),
        has_key(s, base + seq!['a']) && stored_doi(s, base + seq!['a']) is Some
            && stored_doi(s, base + seq!['a']) != Some(doi) && !has_key(s, base + seq!['a', 'b'])
            ==> search(s, base, doi, 0) == AddOutcome::Insert(base + seq!['a', 'b']),
{
    assert(candidate(base, 0) =~= base);
    assert(candidate(base, 1) =~= base + seq!['a']);
    assert(candidate(base, 2) =~= base + seq!['a', 'b']);
    assert(search(s, base, doi, 0) == search(s, base, doi, 1));
    if has_key(s, candidate(base, 1)) && stored_doi(s, candidate(base, 1)) is Some
        && stored_doi(s, candidate(base, 1)) != Some(doi) {
        assert(search(s, base, doi, 1) == search(s, base, doi, 2));
    }
}

} // verus!
