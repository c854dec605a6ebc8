//! Acknowledgment entries and the flush of one batch of them.
use vstd::prelude::*;

verus! {

/// Largest number of entries that one delete-batch call carries.
pub const MAX_BATCH: usize = 10;

/// An acknowledgment: the message id and the receipt handle needed to delete it.
pub struct AckEntry {
    pub id: String,
    pub receipt_handle: String,
}

/// Lexicographic order on character sequences (by code point), the order of `str`.
pub open spec fn id_le(a: Seq<char>, b: Seq<char>) -> bool
    decreases a.len(),
{
    if a.len() == 0 {
        true
    } else if b.len() == 0 {
        false
    } else if a[0] != b[0] {
        (a[0] as u32) < (b[0] as u32)
    } else {
        id_le(a.drop_first(), b.drop_first())
    }
}

/// Strict lexicographic order on ids.
pub open spec fn id_lt(a: Seq<char>, b: Seq<char>) -> bool {
    id_le(a, b) && a != b
}

pub proof fn lemma_id_le_antisymmetric(a: Seq<char>, b: Seq<char>)
    requires
        id_le(a, b),
        id_le(b, a),
    ensures
        a == b,
    decreases a.len(),
{
    if a.len() > 0 && b.len() > 0 && a[0] == b[0] {
        lemma_id_le_antisymmetric(a.drop_first(), b.drop_first());
        assert(a =~= seq![a[0]] + a.drop_first());
        assert(b =~= seq![b[0]] + b.drop_first());
    } else if a.len() == 0 && b.len() == 0 {
        assert(a =~= b);
    }
}

pub proof fn lemma_id_le_transitive(a: Seq<char>, b: Seq<char>, c: Seq<char>)
    requires
        id_le(a, b),
        id_le(b, c),
    ensures
        id_le(a, c),
    decreases a.len(),
{
    if a.len() > 0 && b.len() > 0 && c.len() > 0 && a[0] == b[0] && b[0] == c[0] {
        lemma_id_le_transitive(a.drop_first(), b.drop_first(), c.drop_first());
    }
}

/// Entries ordered by id, as the standard sort leaves them.
pub open spec fn sorted_by_id(s: Seq<AckEntry>) -> bool {
    forall|i: int, j: int| 0 <= i < j < s.len() ==> id_le(#[trigger] s[i].id@, #[trigger] s[j].id@)
}

/// Relies on `slice::sort_by` comparing ids with `String::cmp`: the result is a
/// permutation of the input, ordered by id (byte order of UTF-8 is code point order).
#[verifier::external_body]
fn sort_by_id(v: &mut Vec<AckEntry>)
    ensures
        final(v)@.to_multiset() == old(v)@.to_multiset(),
        sorted_by_id(final(v)@),
{
    v.sort_by(|a, b| a.id.cmp(&b.id))
}


impl AckEntry {
    /// A field-by-field copy.
    pub fn duplicate(&self) -> (r: AckEntry)
        ensures
            r == *self,
    {
        AckEntry { id: self.id.clone(), receipt_handle: self.receipt_handle.clone() }
    }
}

/// `batch` is what one flush sends for `chunk`: one entry per id of `chunk`, each
/// taken from `chunk`, in increasing order of id.
pub open spec fn is_flush_of(batch: Seq<AckEntry>, chunk: Seq<AckEntry>) -> bool {
    &&& batch.len() <= chunk.len()
    &&& forall|a: int, b: int|
        0 <= a < b < batch.len() ==> id_lt(#[trigger] batch[a].id@, #[trigger] batch[b].id@)
    &&& forall|k: int| 0 <= k < batch.len() ==> chunk.contains(#[trigger] batch[k])
    &&& forall|m: int| 0 <= m < chunk.len() ==> has_id(batch, #[trigger] chunk[m].id@)
}

/// Some entry of `s` has this id.
pub open spec fn has_id(s: Seq<AckEntry>, id: Seq<char>) -> bool {
    exists|k: int| 0 <= k < s.len() && #[trigger] s[k].id@ == id
}

/// Keeps the first entry of each run of equal ids in a sequence sorted by id.
fn dedup_sorted(s: &Vec<AckEntry>) -> (out: Vec<AckEntry>)
    requires
        sorted_by_id(s@),
    ensures
        is_flush_of(out@, s@),
{
    let mut out: Vec<AckEntry> = Vec::new();
    // place[m] is the position in `out` of the entry that stands for s[m]
    let ghost mut place: Seq<int> = Seq::empty();
    let mut i: usize = 0;
    while i < s.len()
        invariant
            0 <= i <= s.len(),
            sorted_by_id(s@),
            out.len() <= i,
            place.len() == i,
            i > 0 ==> out.len() > 0 && out@.last().id@ == s@[i - 1].id@,
            forall|a: int, b: int|
                0 <= a < b < out.len() ==> id_lt(#[trigger] out@[a].id@, #[trigger] out@[b].id@),
            forall|k: int| 0 <= k < out.len() ==> s@.contains(#[trigger] out@[k]),
            forall|m: int|
                0 <= m < i ==> 0 <= #[trigger] place[m] < out.len() && out@[place[m]].id@
                    == s@[m].id@,
        decreases s.len() - i,
    {
        let e = &s[i];
        let fresh = out.len() == 0 || out[out.len() - 1].id != e.id;
        if fresh {
            let ghost prev = out@;
            proof {
                if i > 0 {
                    let last = prev.last();
                    assert(id_le(s@[i - 1].id@, s@[i as int].id@));
                    assert forall|a: int| 0 <= a < prev.len() implies id_lt(
                        #[trigger] prev[a].id@,
                        e.id@,
                    ) by {
                        if a < prev.len() - 1 {
                            assert(id_lt(prev[a].id@, last.id@));
                            lemma_id_le_transitive(prev[a].id@, last.id@, e.id@);
                            if prev[a].id@ == e.id@ {
                                lemma_id_le_antisymmetric(last.id@, e.id@);
                            }
                        }
                    }
                }
                assert(s@.contains(s@[i as int]));
            }
            out.push(e.duplicate());
            proof {
                assert forall|m: int| 0 <= m < i implies #[trigger] place[m] < out.len() && out@[place[m]]
                    == prev[place[m]] by {}
            }
        }
        proof {
            place = place.push(out.len() - 1);
        }
        i = i + 1;
    }
    assert forall|m: int| 0 <= m < s.len() implies has_id(out@, #[trigger] s@[m].id@) by {
        let k = place[m];
        assert(0 <= k < out.len() && out@[k].id@ == s@[m].id@);
    }
    out
}

/// What one flush sends: the deduplicated entries, and whether any were dropped.
pub struct FlushBatch {
    pub entries: Vec<AckEntry>,
    pub duplicates_removed: bool,
}

/// The ids of a sequence of entries.
pub open spec fn ids_of(s: Seq<AckEntry>) -> Seq<Seq<char>> {
    s.map_values(|e: AckEntry| e.id@)
}

/// Two entries of `s` share an id.
pub open spec fn has_duplicate_ids(s: Seq<AckEntry>) -> bool {
    exists|i: int, j: int| 0 <= i < j < s.len() && #[trigger] s[i].id@ == #[trigger] s[j].id@
}

/// Sorts `chunk` by id and keeps one entry per id.
pub fn flush_chunk(chunk: Vec<AckEntry>) -> (b: FlushBatch)
    ensures
        is_flush_of(b.entries@, chunk@),
        b.duplicates_removed == has_duplicate_ids(chunk@),
{
    let n = chunk.len();
    let mut sorted = chunk;
    sort_by_id(&mut sorted);
    let entries = dedup_sorted(&sorted);
    proof {
        broadcast use vstd::seq_lib::to_multiset_contains;
        sorted@.to_multiset_ensures();
        chunk@.to_multiset_ensures();
        assert(sorted.len() == chunk.len());
        assert forall|k: int| 0 <= k < entries.len() implies chunk@.contains(#[trigger] entries@[k]) by {
            assert(sorted@.to_multiset().count(entries@[k]) > 0);
        }
        assert forall|m: int| 0 <= m < chunk.len() implies has_id(entries@, #[trigger] chunk@[m].id@) by {
            let x = chunk@[m];
            assert(chunk@.contains(x));
            assert(sorted@.to_multiset().count(x) > 0);
            let p = choose|p: int| 0 <= p < sorted.len() && sorted@[p] == x;
            assert(sorted@[p].id@ == x.id@);
            assert(has_id(entries@, sorted@[p].id@));
        }
        lemma_flush_size(entries@, chunk@);
    }
    let duplicates_removed = entries.len() < n;
    FlushBatch { entries, duplicates_removed }
}

proof fn lemma_flush_same_ids(batch: Seq<AckEntry>, chunk: Seq<AckEntry>)
    requires
        is_flush_of(batch, chunk),
    ensures
        ids_of(batch).no_duplicates(),
        ids_of(batch).to_set() == ids_of(chunk).to_set(),
{
    let bi = ids_of(batch);
    let ci = ids_of(chunk);
    assert forall|a: int, b: int| 0 <= a < bi.len() && 0 <= b < bi.len() && a != b implies bi[a]
        != bi[b] by {
        if a < b {
            assert(id_lt(batch[a].id@, batch[b].id@));
        } else {
            assert(id_lt(batch[b].id@, batch[a].id@));
        }
    }
    assert forall|x: Seq<char>| bi.to_set().contains(x) implies ci.to_set().contains(x) by {
        let k = choose|k: int| 0 <= k < bi.len() && bi[k] == x;
        assert(chunk.contains(batch[k]));
        let m = choose|m: int| 0 <= m < chunk.len() && chunk[m] == batch[k];
        assert(ci[m] == x);
    }
    assert forall|x: Seq<char>| ci.to_set().contains(x) implies bi.to_set().contains(x) by {
        let m = choose|m: int| 0 <= m < ci.len() && ci[m] == x;
        assert(chunk[m].id@ == x);
        assert(has_id(batch, chunk[m].id@));
        let k = choose|k: int| 0 <= k < batch.len() && batch[k].id@ == chunk[m].id@;
        assert(bi[k] == x);
    }
    assert(bi.to_set() =~= ci.to_set());
}

proof fn lemma_duplicate_shrinks_set(ci: Seq<Seq<char>>, i: int, j: int)
    requires
        0 <= i < j < ci.len(),
        ci[i] == ci[j],
    ensures
        ci.to_set().len() < ci.len(),
{
    let r = ci.remove(j);
    assert forall|x: Seq<char>| ci.to_set().contains(x) implies r.to_set().contains(x) by {
        let m = choose|m: int| 0 <= m < ci.len() && ci[m] == x;
        if m < j {
            assert(r[m] == x);
        } else if m == j {
            assert(r[i] == x);
        } else {
            assert(r[m - 1] == x);
        }
    }
    assert forall|x: Seq<char>| r.to_set().contains(x) implies ci.to_set().contains(x) by {
        let m = choose|m: int| 0 <= m < r.len() && r[m] == x;
        if m < j {
            assert(ci[m] == x);
        } else {
            assert(ci[m + 1] == x);
        }
    }
    assert(r.to_set() =~= ci.to_set());
    r.lemma_cardinality_of_set();
}

/// A flush drops entries exactly when two entries of its chunk share an id.
pub proof fn lemma_flush_size(batch: Seq<AckEntry>, chunk: Seq<AckEntry>)
    requires
        is_flush_of(batch, chunk),
    ensures
        batch.len() < chunk.len() <==> has_duplicate_ids(chunk),
        batch.len() <= chunk.len(),
{
    let bi = ids_of(batch);
    let ci = ids_of(chunk);
    lemma_flush_same_ids(batch, chunk);
    bi.unique_seq_to_set();
    if has_duplicate_ids(chunk) {
        let (i, j) = choose|i: int, j: int|
            0 <= i < j < chunk.len() && #[trigger] chunk[i].id@ == #[trigger] chunk[j].id@;
        assert(ci[i] == ci[j]);
        lemma_duplicate_shrinks_set(ci, i, j);
    } else {
        assert forall|a: int, b: int| 0 <= a < ci.len() && 0 <= b < ci.len() && a != b implies ci[a]
            != ci[b] by {
            if a < b && ci[a] == ci[b] {
                assert(chunk[a].id@ == chunk[b].id@);
            } else if b < a && ci[a] == ci[b] {
                assert(chunk[b].id@ == chunk[a].id@);
            }
        }
        assert(ci.no_duplicates());
        ci.unique_seq_to_set();
    }
}

/// Where two entries of a chunk share an id, its flush holds exactly one entry
/// with that id.
pub proof fn lemma_flush_one_per_id(batch: Seq<AckEntry>, chunk: Seq<AckEntry>, i: int, j: int)
    requires
        is_flush_of(batch, chunk),
        0 <= i < chunk.len(),
        0 <= j < chunk.len(),
        i != j,
        chunk[i].id@ == chunk[j].id@,
    ensures
        exists|k: int| 0 <= k < batch.len() && #[trigger] batch[k].id@ == chunk[i].id@,
        forall|k1: int, k2: int|
            0 <= k1 < batch.len() && 0 <= k2 < batch.len() && #[trigger] batch[k1].id@
                == chunk[i].id@ && #[trigger] batch[k2].id@ == chunk[i].id@ ==> k1 == k2,
        batch.len() < chunk.len(),
{
    assert(has_id(batch, chunk[i].id@));
    assert forall|k1: int, k2: int|
        0 <= k1 < batch.len() && 0 <= k2 < batch.len() && #[trigger] batch[k1].id@
            == chunk[i].id@ && #[trigger] batch[k2].id@ == chunk[i].id@ implies k1 == k2 by {
        if k1 < k2 {
            assert(id_lt(batch[k1].id@, batch[k2].id@));
        } else if k2 < k1 {
            assert(id_lt(batch[k2].id@, batch[k1].id@));
        }
    }
    if i < j {
        assert(has_duplicate_ids(chunk));
    } else {
        assert(chunk[j].id@ == chunk[i].id@);
        assert(has_duplicate_ids(chunk));
    }
    lemma_flush_size(batch, chunk);
}

} // verus!
