//! Bounded, identifier-keyed cache of downloaded tracks with
//! least-recently-used eviction.
//!
//! The manager is the verified index and byte store: entries carry the
//! cached bytes, and recency is a logical stamp from a monotone counter
//! (larger is more recent), refreshed on every read. The embedding mirrors
//! entries to files in the cache directory — named by identifier — and
//! feeds them back through `load_cache_info` at startup, in modified-time
//! order. The tracked total size always equals the sum of the stored entry
//! sizes, and an insert first makes room by evicting strictly
//! least-recently-accessed entries until the new bytes fit under the
//! ceiling or nothing is left to evict.

use vstd::prelude::*;

verus! {

/// One cached track: identifier, the cached bytes, and the logical
/// last-accessed stamp.
pub struct CacheItem {
    pub id: u64,
    pub data: Vec<u8>,
    pub last_accessed: u64,
}

/// A file found in the cache directory at startup: the identifier parsed
/// from its name and its contents. Handed over in ascending modified-time
/// order.
pub struct ScannedEntry {
    pub id: u64,
    pub data: Vec<u8>,
}

/// Sum of the stored byte sizes of `s`.
pub open spec fn total_size(s: Seq<CacheItem>) -> int
    decreases s.len(),
{
    if s.len() == 0 {
        0
    } else {
        s[0].data@.len() + total_size(s.drop_first())
    }
}

/// Some entry of `s` carries `id`.
pub open spec fn contains_id(s: Seq<CacheItem>, id: u64) -> bool {
    exists|i: int| 0 <= i < s.len() && s[i].id == id
}

/// The position of the entry carrying `id` (meaningful when entry ids are
/// unique and `contains_id` holds).
pub open spec fn index_of(s: Seq<CacheItem>, id: u64) -> int {
    choose|i: int| 0 <= i < s.len() && s[i].id == id
}

/// The bytes stored under `id`.
pub open spec fn lookup_data(s: Seq<CacheItem>, id: u64) -> Seq<u8> {
    s[index_of(s, id)].data@
}

/// `s` with the entry carrying `id` taken out, if it is there.
pub open spec fn remove_id(s: Seq<CacheItem>, id: u64) -> Seq<CacheItem> {
    if contains_id(s, id) {
        s.remove(index_of(s, id))
    } else {
        s
    }
}

/// `post` is what least-recently-used eviction leaves of `pre` when `need`
/// bytes must fit under `max`: surviving entries are unchanged entries of
/// `pre`; every evicted entry is older than every survivor; eviction
/// stopped as soon as the bytes fit (or nothing was left); and it went no
/// further than needed — the most recently accessed evicted entry would
/// still not have fit.
pub open spec fn evicted_lru(
    pre: Seq<CacheItem>,
    post: Seq<CacheItem>,
    need: int,
    max: int,
) -> bool {
    &&& forall|j: int|
        0 <= j < post.len() ==> exists|i: int| 0 <= i < pre.len() && pre[i] == #[trigger] post[j]
    &&& forall|i: int, j: int|
        0 <= i < pre.len() && !contains_id(post, pre[i].id) && 0 <= j < post.len() ==> pre[i].last_accessed
            < post[j].last_accessed
    &&& total_size(post) + need <= max || post.len() == 0
    &&& (exists|i: int| 0 <= i < pre.len() && !contains_id(post, pre[i].id)) ==> exists|i: int|
        {
            &&& 0 <= i < pre.len()
            &&& !contains_id(post, pre[i].id)
            &&& forall|k: int|
                0 <= k < pre.len() && !contains_id(post, pre[k].id) ==> pre[k].last_accessed
                    <= pre[i].last_accessed
            &&& total_size(post) + pre[i].data@.len() + need > max
        }
}

/// `post` is `pre` with the stamp of the entry carrying `id` refreshed to
/// `stamp` and everything else in place.
pub open spec fn refreshed(
    pre: Seq<CacheItem>,
    post: Seq<CacheItem>,
    id: u64,
    stamp: u64,
) -> bool {
    &&& post.len() == pre.len()
    &&& forall|i: int|
        0 <= i < pre.len() ==> {
            &&& post[i].id == pre[i].id
            &&& post[i].data@ == pre[i].data@
            &&& post[i].last_accessed == if pre[i].id == id {
                stamp
            } else {
                pre[i].last_accessed
            }
        }
}

proof fn lemma_total_size_nonneg(s: Seq<CacheItem>)
    ensures
        total_size(s) >= 0,
    decreases s.len(),
{
    if s.len() > 0 {
        lemma_total_size_nonneg(s.drop_first());
    }
}

proof fn lemma_total_size_remove(s: Seq<CacheItem>, i: int)
    requires
        0 <= i < s.len(),
    ensures
        total_size(s.remove(i)) == total_size(s) - s[i].data@.len(),
    decreases i,
{
    if i == 0 {
        assert(s.remove(0) =~= s.drop_first());
    } else {
        lemma_total_size_remove(s.drop_first(), i - 1);
        assert(s.remove(i).drop_first() =~= s.drop_first().remove(i - 1));
    }
}

proof fn lemma_total_size_push(s: Seq<CacheItem>, x: CacheItem)
    ensures
        total_size(s.push(x)) == total_size(s) + x.data@.len(),
    decreases s.len(),
{
    if s.len() == 0 {
        assert(s.push(x)[0] == x);
        assert(s.push(x).drop_first() =~= Seq::<CacheItem>::empty());
        assert(total_size(s.push(x)) == x.data@.len() + total_size(s.push(x).drop_first()));
    } else {
        lemma_total_size_push(s.drop_first(), x);
        assert(s.push(x)[0] == s[0]);
        assert(s.push(x).drop_first() =~= s.drop_first().push(x));
        assert(total_size(s.push(x)) == s[0].data@.len() + total_size(s.push(x).drop_first()));
    }
}

proof fn lemma_total_size_same_data(a: Seq<CacheItem>, b: Seq<CacheItem>)
    requires
        a.len() == b.len(),
        forall|i: int| 0 <= i < a.len() ==> a[i].data@ == b[i].data@,
    ensures
        total_size(a) == total_size(b),
    decreases a.len(),
{
    if a.len() > 0 {
        lemma_total_size_same_data(a.drop_first(), b.drop_first());
    }
}

/// One step of the eviction loop, in the abstract: `cur` consists of
/// unchanged entries of `pre`, both have unique ids, every entry of `pre`
/// already missing from `cur` is older than everything in `cur`, and
/// position `m` holds the minimum stamp of `cur`. Removing it preserves all
/// of that, the removed entry's id is gone, and the removed entry is the
/// most recent of everything missing afterwards.
proof fn lemma_evict_step(pre: Seq<CacheItem>, cur: Seq<CacheItem>, m: int)
    requires
        forall|i: int, j: int| 0 <= i < j < pre.len() ==> pre[i].id != pre[j].id,
        forall|i: int, j: int|
            0 <= i < j < cur.len() ==> cur[i].last_accessed != cur[j].last_accessed,
        forall|j: int| 0 <= j < cur.len() ==> exists|i: int| 0 <= i < pre.len() && pre[i] == #[trigger] cur[j],
        forall|i: int, j: int|
            0 <= i < pre.len() && !contains_id(cur, pre[i].id) && 0 <= j < cur.len()
                ==> pre[i].last_accessed < cur[j].last_accessed,
        0 <= m < cur.len(),
        forall|t: int| 0 <= t < cur.len() ==> cur[m].last_accessed <= #[trigger] cur[t].last_accessed,
    ensures
        ({
            let new = cur.remove(m);
            let gone = cur[m];
            &&& forall|j: int|
                0 <= j < new.len() ==> exists|i: int| 0 <= i < pre.len() && pre[i] == #[trigger] new[j]
            &&& forall|i: int, j: int|
                0 <= i < pre.len() && !contains_id(new, pre[i].id) && 0 <= j < new.len()
                    ==> pre[i].last_accessed < new[j].last_accessed
            &&& !contains_id(new, gone.id)
            &&& exists|i: int| 0 <= i < pre.len() && pre[i] == gone
            &&& forall|k: int|
                0 <= k < pre.len() && !contains_id(new, #[trigger] pre[k].id)
                    ==> pre[k].last_accessed <= gone.last_accessed
            &&& forall|i: int, j: int| 0 <= i < j < new.len() ==> new[i].id != new[j].id
            &&& forall|i: int, j: int|
                0 <= i < j < new.len() ==> new[i].last_accessed != new[j].last_accessed
            &&& forall|i: int|
                0 <= i < new.len() ==> exists|t: int| 0 <= t < cur.len() && cur[t] == #[trigger] new[i]
            &&& total_size(new) == total_size(cur) - gone.data@.len()
        }),
{
    let new = cur.remove(m);
    let gone = cur[m];
    lemma_total_size_remove(cur, m);
    // Each surviving position is a position of `cur`.
    assert(forall|j: int|
        0 <= j < new.len() ==> #[trigger] new[j] == cur[
            if j < m {
                j
            } else {
                j + 1
            }
        ]);
    // `gone` came from `pre`.
    assert(exists|i: int| 0 <= i < pre.len() && pre[i] == gone) by {
        assert(cur[m] == cur[m]);
    }
    let gi = choose|i: int| 0 <= i < pre.len() && pre[i] == gone;
    // Strictly the oldest of `cur`: stamps are unique.
    assert(forall|j: int|
        0 <= j < new.len() ==> gone.last_accessed < #[trigger] new[j].last_accessed);
    // Its id does not survive: ids in `cur` appear once, since `cur` draws
    // distinct-id entries from `pre`.
    assert(!contains_id(new, gone.id)) by {
        if contains_id(new, gone.id) {
            let j = choose|j: int| 0 <= j < new.len() && new[j].id == gone.id;
            let j0 = if j < m {
                j
            } else {
                j + 1
            };
            let i0 = choose|i: int| 0 <= i < pre.len() && pre[i] == cur[j0];
            assert(pre[i0] == cur[j0] && pre[gi] == gone);
            assert(cur[j0].last_accessed != gone.last_accessed);
            assert(i0 != gi);
            assert(false);
        }
    }
    // An id absent from `new` either was already absent from `cur` or is the
    // removed one.
    assert(forall|i: int|
        0 <= i < pre.len() && !contains_id(new, #[trigger] pre[i].id) ==> (!contains_id(
            cur,
            pre[i].id,
        ) || pre[i] == gone)) by {
        assert(forall|i: int|
            0 <= i < pre.len() && contains_id(cur, #[trigger] pre[i].id) && pre[i].id != gone.id
                ==> contains_id(new, pre[i].id)) by {
            assert(forall|t: int|
                0 <= t < cur.len() && t != m ==> #[trigger] cur[t] == new[
                    if t < m {
                        t
                    } else {
                        t - 1
                    }
                ]);
        }
        assert(forall|i: int|
            0 <= i < pre.len() && pre[i].id == gone.id ==> pre[i] == gone) by {
            assert(pre[gi] == gone);
        }
    }
}

/// Byte-for-byte copy of `src`.
fn copy_bytes(src: &[u8]) -> (out: Vec<u8>)
    ensures
        out@ == src@,
{
    let mut out: Vec<u8> = Vec::new();
    let mut i: usize = 0;
    while i < src.len()
        invariant
            i <= src@.len(),
            out@ == src@.subrange(0, i as int),
        decreases src@.len() - i,
    {
        out.push(src[i]);
        assert(out@ =~= src@.subrange(0, i + 1));
        i = i + 1;
    }
    assert(out@ =~= src@);
    out
}

/// Sum of the byte sizes of the scanned files.
pub open spec fn total_scanned(s: Seq<ScannedEntry>) -> int
    decreases s.len(),
{
    if s.len() == 0 {
        0
    } else {
        s[0].data@.len() + total_scanned(s.drop_first())
    }
}

/// `it` records the last occurrence of its identifier among the first `n`
/// scanned files: the file at scan position `last_accessed` carried its id
/// and bytes, and no later file among those carries the id.
pub open spec fn last_occurrence_before(scanned: Seq<ScannedEntry>, n: int, it: CacheItem) -> bool {
    &&& 0 <= it.last_accessed < n <= scanned.len()
    &&& scanned[it.last_accessed as int].id == it.id
    &&& scanned[it.last_accessed as int].data@ == it.data@
    &&& forall|k: int| it.last_accessed < k < n ==> scanned[k].id != it.id
}

proof fn lemma_total_scanned_push(s: Seq<ScannedEntry>, x: ScannedEntry)
    ensures
        total_scanned(s.push(x)) == total_scanned(s) + x.data@.len(),
    decreases s.len(),
{
    if s.len() == 0 {
        assert(s.push(x)[0] == x);
        assert(s.push(x).drop_first() =~= Seq::<ScannedEntry>::empty());
        assert(total_scanned(s.push(x)) == x.data@.len() + total_scanned(s.push(x).drop_first()));
    } else {
        lemma_total_scanned_push(s.drop_first(), x);
        assert(s.push(x)[0] == s[0]);
        assert(s.push(x).drop_first() =~= s.drop_first().push(x));
        assert(total_scanned(s.push(x)) == s[0].data@.len() + total_scanned(
            s.push(x).drop_first(),
        ));
    }
}

proof fn lemma_total_scanned_prefix_le(s: Seq<ScannedEntry>, k: int)
    requires
        0 <= k <= s.len(),
    ensures
        total_scanned(s.subrange(0, k)) <= total_scanned(s),
    decreases s.len() - k,
{
    if k == s.len() {
        assert(s.subrange(0, k) =~= s);
    } else {
        lemma_total_scanned_prefix_le(s, k + 1);
        assert(s.subrange(0, k + 1) =~= s.subrange(0, k).push(s[k]));
        lemma_total_scanned_push(s.subrange(0, k), s[k]);
    }
}

/// Law: bytes stored under an identifier are read back byte-identical. In
/// any well-formed cache whose freshest entry stores `data` under `id` —
/// exactly what `cache_song` leaves behind — the lookup that
/// `get_cached_song` answers from yields `data` itself.
pub proof fn lemma_put_then_get_identical(cm: CacheManager, id: u64, data: Seq<u8>)
    requires
        cm.wf(),
        cm.items().len() >= 1,
        cm.items().last().id == id,
        cm.items().last().data@ == data,
    ensures
        contains_id(cm.items(), id),
        lookup_data(cm.items(), id) == data,
{
    let n = cm.items().len() - 1;
    assert(cm.items()[n].id == id);
    let j = index_of(cm.items(), id);
    assert(0 <= j < cm.items().len() && cm.items()[j].id == id);
    assert(j == n);
}

/// Shared handle to the one cache manager of the process.
pub struct CacheManagerState(pub CacheManager);

/// The cache: stored entries, the size ceiling, the tracked total size and
/// the recency counter.
pub struct CacheManager {
    cache_dir: String,
    max_cache_size: u64,
    current_cache_size: u64,
    clock: u64,
    items: Vec<CacheItem>,
}

impl CacheManager {
    /// The stored entries, in insertion order.
    pub closed spec fn items(&self) -> Seq<CacheItem> {
        self.items@
    }

    pub closed spec fn max_size(&self) -> int {
        self.max_cache_size as int
    }

    pub closed spec fn size(&self) -> int {
        self.current_cache_size as int
    }

    /// The recency counter: every stored stamp lies below it, so stamps
    /// order reads and writes faithfully.
    pub closed spec fn clock(&self) -> int {
        self.clock as int
    }

    /// Entry ids unique, stamps unique and below the counter, and the
    /// tracked size equal to the sum of the stored sizes.
    pub open spec fn wf(&self) -> bool {
        &&& forall|i: int, j: int|
            0 <= i < j < self.items().len() ==> self.items()[i].id != self.items()[j].id
        &&& forall|i: int, j: int|
            0 <= i < j < self.items().len() ==> self.items()[i].last_accessed
                != self.items()[j].last_accessed
        &&& forall|i: int|
            0 <= i < self.items().len() ==> self.items()[i].last_accessed < self.clock()
        &&& self.size() == total_size(self.items())
    }

    /// An empty cache over the given directory with the given size ceiling.
    /// The embedding creates the directory and hands previously cached
    /// files back through `load_cache_info`.
    pub fn new(cache_dir: String, max_cache_size: u64) -> (cm: CacheManager)
        ensures
            cm.wf(),
            cm.items() =~= Seq::<CacheItem>::empty(),
            cm.max_size() == max_cache_size,
            cm.size() == 0,
            cm.clock() == 0,
    {
        CacheManager {
            cache_dir,
            max_cache_size,
            current_cache_size: 0,
            clock: 0,
            items: Vec::new(),
        }
    }

    /// The tracked total of the stored byte sizes.
    pub fn current_size(&self) -> (s: u64)
        ensures
            s == self.size(),
    {
        self.current_cache_size
    }

    /// How many entries are stored.
    pub fn item_count(&self) -> (n: usize)
        ensures
            n == self.items().len(),
    {
        self.items.len()
    }

    /// The identifiers of the stored entries, in storage order; the disk
    /// mirror diffs these around an insert to learn what was evicted.
    pub fn entry_ids(&self) -> (ids: Vec<u64>)
        ensures
            ids@.len() == self.items().len(),
            forall|i: int| 0 <= i < ids@.len() ==> ids@[i] == self.items()[i].id,
    {
        let mut ids: Vec<u64> = Vec::new();
        let mut k: usize = 0;
        while k < self.items.len()
            invariant
                k <= self.items@.len(),
                ids@.len() == k,
                forall|i: int| 0 <= i < k ==> ids@[i] == self.items@[i].id,
            decreases self.items@.len() - k,
        {
            ids.push(self.items[k].id);
            k = k + 1;
        }
        ids
    }

    /// Position of the entry carrying `id`, if any.
    fn find_index(&self, id: u64) -> (r: Option<usize>)
        ensures
            r matches Some(i) ==> i < self.items().len() && self.items()[i as int].id == id,
            r is None ==> !contains_id(self.items(), id),
    {
        let mut k: usize = 0;
        while k < self.items.len()
            invariant
                k <= self.items@.len(),
                forall|t: int| 0 <= t < k ==> self.items@[t].id != id,
            decreases self.items@.len() - k,
        {
            if self.items[k].id == id {
                return Some(k);
            }
            k = k + 1;
        }
        None
    }

    /// Read the bytes cached under `id` and refresh the entry's recency
    /// stamp; a miss returns nothing and changes nothing.
    pub fn get_cached_song(&mut self, id: u64) -> (r: Option<Vec<u8>>)
        requires
            old(self).wf(),
            old(self).clock() < u64::MAX,
        ensures
            final(self).wf(),
            r is Some <==> contains_id(old(self).items(), id),
            !contains_id(old(self).items(), id) ==> *final(self) == *old(self),
            contains_id(old(self).items(), id) ==> ({
                &&& r matches Some(d) && d@ == lookup_data(old(self).items(), id)
                &&& refreshed(
                    old(self).items(),
                    final(self).items(),
                    id,
                    old(self).clock() as u64,
                )
                &&& final(self).clock() == old(self).clock() + 1
                &&& final(self).size() == old(self).size()
                &&& final(self).max_size() == old(self).max_size()
            }),
    {
        match self.find_index(id) {
            None => None,
            Some(i) => {
                let mut it = self.items.remove(i);
                it.last_accessed = self.clock;
                self.clock = self.clock + 1;
                let out = copy_bytes(it.data.as_slice());
                let ghost saved = it;
                self.items.insert(i, it);
                proof {
                    assert(self.items@ =~= old(self).items@.update(i as int, saved));
                    let j = index_of(old(self).items(), id);
                    assert(0 <= j < old(self).items().len() && old(self).items()[j].id == id);
                    assert(j == i as int);
                    lemma_total_size_same_data(old(self).items(), self.items@);
                }
                Some(out)
            },
        }
    }

    /// Drop the entry stored under `id`, if any; everything else stays. The
    /// disk mirror also uses this to roll the index back when writing the
    /// mirrored file fails after an insert, keeping tracked and on-disk
    /// sizes in step.
    pub fn remove_entry(&mut self, id: u64)
        requires
            old(self).wf(),
        ensures
            final(self).wf(),
            final(self).clock() == old(self).clock(),
            final(self).max_size() == old(self).max_size(),
            final(self).items() == remove_id(old(self).items(), id),
            !contains_id(final(self).items(), id),
            forall|j: int|
                0 <= j < final(self).items().len() ==> exists|t: int|
                    0 <= t < old(self).items().len() && old(self).items()[t]
                        == #[trigger] final(self).items()[j],
            forall|t: int|
                0 <= t < old(self).items().len() && old(self).items()[t].id != id ==> contains_id(
                    final(self).items(),
                    #[trigger] old(self).items()[t].id,
                ),
            total_size(final(self).items()) <= total_size(old(self).items()),
    {
        let ghost before = self.items@;
        match self.find_index(id) {
            Some(i) => {
                proof {
                    lemma_total_size_remove(before, i as int);
                    lemma_total_size_nonneg(before.remove(i as int));
                    let j = index_of(before, id);
                    assert(0 <= j < before.len() && before[j].id == id);
                    assert(j == i as int);
                }
                let dropped = self.items.remove(i);
                self.current_cache_size = self.current_cache_size - dropped.data.len() as u64;
                proof {
                    assert(forall|t: int|
                        0 <= t < before.len() && t != i as int ==> #[trigger] before[t]
                            == self.items@[
                            if t < i as int {
                                t
                            } else {
                                t - 1
                            }
                        ]);
                    assert(forall|j: int|
                        0 <= j < self.items@.len() ==> #[trigger] self.items@[j] == before[
                            if j < i as int {
                                j
                            } else {
                                j + 1
                            }
                        ]);
                    assert(!contains_id(self.items@, id)) by {
                        if contains_id(self.items@, id) {
                            let t = choose|t: int|
                                0 <= t < self.items@.len() && self.items@[t].id == id;
                            let t0 = if t < i as int {
                                t
                            } else {
                                t + 1
                            };
                            assert(before[t0].id == id && before[i as int].id == id);
                            assert(false);
                        }
                    }
                }
            },
            None => {
                proof {
                    lemma_total_size_nonneg(before);
                }
            },
        }
    }

    /// Evict least-recently-accessed entries, one at a time, until
    /// `required_space` more bytes fit under the ceiling or nothing is left
    /// to evict. The embedding removes the mirrored file of each entry this
    /// drops.
    #[verifier::rlimit(100)]
    #[verifier::spinoff_prover]
    fn ensure_space_available(&mut self, required_space: u64) -> (r: Result<(), String>)
        requires
            old(self).wf(),
        ensures
            final(self).wf(),
            r is Ok,
            final(self).clock() == old(self).clock(),
            final(self).max_size() == old(self).max_size(),
            evicted_lru(
                old(self).items(),
                final(self).items(),
                required_space as int,
                old(self).max_size(),
            ),
    {
        let ghost pre = self.items@;
        let ghost pre_self = *self;
        let ghost mut last_evicted: Option<CacheItem> = None;
        loop
            invariant
                self.wf(),
                pre_self.wf(),
                pre == pre_self.items@,
                self.clock == pre_self.clock,
                self.max_cache_size == pre_self.max_cache_size,
                self.cache_dir == pre_self.cache_dir,
                forall|j: int|
                    0 <= j < self.items@.len() ==> exists|i: int|
                        0 <= i < pre.len() && pre[i] == #[trigger] self.items@[j],
                forall|i: int, j: int|
                    0 <= i < pre.len() && !contains_id(self.items@, pre[i].id) && 0 <= j
                        < self.items@.len() ==> pre[i].last_accessed
                        < self.items@[j].last_accessed,
                match last_evicted {
                    Option::None => forall|i: int|
                        0 <= i < pre.len() ==> contains_id(self.items@, #[trigger] pre[i].id),
                    Option::Some(e) => {
                        &&& exists|i: int| 0 <= i < pre.len() && pre[i] == e
                        &&& !contains_id(self.items@, e.id)
                        &&& forall|k: int|
                            0 <= k < pre.len() && !contains_id(self.items@, #[trigger] pre[k].id)
                                ==> pre[k].last_accessed <= e.last_accessed
                        &&& total_size(self.items@) + e.data@.len() + required_space
                            > self.max_cache_size
                    },
                },
            ensures
                self.wf(),
                self.clock == pre_self.clock,
                self.max_cache_size == pre_self.max_cache_size,
                self.cache_dir == pre_self.cache_dir,
                evicted_lru(pre, self.items@, required_space as int, pre_self.max_cache_size as int),
            decreases self.items@.len(),
        {
            let over = self.current_cache_size as u128 + required_space as u128
                > self.max_cache_size as u128;
            if !(over && self.items.len() > 0) {
                proof {
                    if exists|i: int|
                        0 <= i < pre.len() && !contains_id(self.items@, #[trigger] pre[i].id) {
                        assert(last_evicted is Some);
                    }
                }
                break;
            }
            // Position of the least recently accessed entry.
            let mut min_idx: usize = 0;
            let mut k: usize = 1;
            while k < self.items.len()
                invariant
                    0 < self.items@.len(),
                    min_idx < k <= self.items@.len(),
                    forall|t: int|
                        0 <= t < k ==> self.items@[min_idx as int].last_accessed
                            <= #[trigger] self.items@[t].last_accessed,
                decreases self.items@.len() - k,
            {
                if self.items[k].last_accessed < self.items[min_idx].last_accessed {
                    min_idx = k;
                }
                k = k + 1;
            }
            let ghost cur = self.items@;
            proof {
                lemma_total_size_remove(cur, min_idx as int);
                lemma_total_size_nonneg(cur.remove(min_idx as int));
            }
            let removed = self.items.remove(min_idx);
            self.current_cache_size = self.current_cache_size - removed.data.len() as u64;
            let ghost gone = removed;
            proof {
                lemma_evict_step(pre, cur, min_idx as int);
                assert(self.items@ == cur.remove(min_idx as int));
                assert(gone == cur[min_idx as int]);
                last_evicted = Some(gone);
            }
        }
        Ok(())
    }

    /// Store `data` under `id`, replacing any previous entry with that id,
    /// after making room by least-recently-used eviction: the survivors and
    /// the new bytes fit under the ceiling unless the new entry alone is
    /// left and itself exceeds it. The stored entry carries the freshest
    /// recency stamp. The embedding writes the mirrored file after this
    /// returns.
    #[verifier::rlimit(100)]
    #[verifier::spinoff_prover]
    pub fn cache_song(&mut self, id: u64, data: &[u8]) -> (r: Result<(), String>)
        requires
            old(self).wf(),
            old(self).clock() < u64::MAX,
        ensures
            final(self).wf(),
            r is Ok,
            final(self).clock() == old(self).clock() + 1,
            final(self).max_size() == old(self).max_size(),
            final(self).items().len() >= 1,
            final(self).items().last().id == id,
            final(self).items().last().data@ == data@,
            final(self).items().last().last_accessed == old(self).clock(),
            evicted_lru(
                remove_id(old(self).items(), id),
                final(self).items().drop_last(),
                data@.len() as int,
                old(self).max_size(),
            ),
            final(self).size() <= final(self).max_size() || final(self).items().len() == 1,
    {
        // Replace: an entry already stored under this id leaves first, so
        // the id stays unique and the tracked size stays the sum.
        self.remove_entry(id);
        let ghost base = self.items@;
        let res = self.ensure_space_available(data.len() as u64);
        match res {
            Ok(()) => {},
            Err(e) => {
                return Err(e);
            },
        }
        let ghost survivors = self.items@;
        proof {
            // Survivors are unchanged entries of the replaced state, so none
            // carries `id` and every stamp lies below the counter.
            assert(forall|j: int|
                0 <= j < survivors.len() ==> #[trigger] survivors[j].id != id);
        }
        let stored = CacheItem { id, data: copy_bytes(data), last_accessed: self.clock };
        let ghost g_stored = stored;
        self.clock = self.clock + 1;
        proof {
            lemma_total_size_push(survivors, g_stored);
            lemma_total_size_nonneg(survivors);
        }
        self.current_cache_size = self.current_cache_size + data.len() as u64;
        self.items.push(stored);
        proof {
            assert(self.items@.drop_last() =~= survivors);
            assert(self.items@.last() == g_stored);
        }
        Ok(())
    }

    /// Rebuild the index from the files found in the cache directory at
    /// startup, handed over in ascending modified-time order; whatever was
    /// tracked before is replaced. Each kept entry comes from the last
    /// scanned file carrying its identifier — names that parse to the same
    /// identifier silently overwrite one another — and its recency stamp is
    /// that file's scan position, so eviction order follows modified time.
    pub fn load_cache_info(&mut self, scanned: Vec<ScannedEntry>)
        requires
            old(self).wf(),
            total_scanned(scanned@) <= u64::MAX,
        ensures
            final(self).wf(),
            final(self).max_size() == old(self).max_size(),
            final(self).clock() == scanned@.len(),
            forall|t: int|
                0 <= t < scanned@.len() ==> contains_id(
                    final(self).items(),
                    #[trigger] scanned@[t].id,
                ),
            forall|j: int|
                0 <= j < final(self).items().len() ==> last_occurrence_before(
                    scanned@,
                    scanned@.len() as int,
                    #[trigger] final(self).items()[j],
                ),
    {
        let n = scanned.len();
        self.items = Vec::new();
        self.current_cache_size = 0;
        self.clock = 0;
        let ghost m0 = self.max_cache_size;
        let ghost sc = scanned@;
        let mut k: usize = 0;
        while k < n
            invariant
                k <= n,
                n == sc.len(),
                scanned@ == sc,
                self.wf(),
                self.clock == k as u64,
                self.max_cache_size == m0,
                total_scanned(sc) <= u64::MAX,
                total_size(self.items@) <= total_scanned(sc.subrange(0, k as int)),
                forall|t: int| 0 <= t < k ==> contains_id(self.items@, #[trigger] sc[t].id),
                forall|j: int|
                    0 <= j < self.items@.len() ==> last_occurrence_before(
                        sc,
                        k as int,
                        #[trigger] self.items@[j],
                    ),
            decreases n - k,
        {
            let id = scanned[k].id;
            let dlen = scanned[k].data.len();
            let data = copy_bytes(scanned[k].data.as_slice());
            let ghost before = self.items@;
            self.remove_entry(id);
            let ghost mid = self.items@;
            proof {
                lemma_total_size_nonneg(mid);
                assert(sc.subrange(0, k + 1) =~= sc.subrange(0, k as int).push(sc[k as int]));
                lemma_total_scanned_push(sc.subrange(0, k as int), sc[k as int]);
                lemma_total_scanned_prefix_le(sc, k + 1);
            }
            let it = CacheItem { id, data, last_accessed: self.clock };
            let ghost g_it = it;
            proof {
                lemma_total_size_push(mid, g_it);
            }
            self.current_cache_size = self.current_cache_size + dlen as u64;
            self.items.push(it);
            self.clock = self.clock + 1;
            k = k + 1;
            proof {
                assert(forall|j: int| 0 <= j < mid.len() ==> self.items@[j] == mid[j]);
                assert(self.items@[mid.len() as int] == g_it);
                assert(forall|t: int|
                    0 <= t < k ==> contains_id(self.items@, #[trigger] sc[t].id)) by {
                    assert forall|t: int| 0 <= t < k implies contains_id(
                        self.items@,
                        #[trigger] sc[t].id,
                    ) by {
                        if sc[t].id == id {
                            assert(self.items@[mid.len() as int].id == sc[t].id);
                        } else {
                            assert(contains_id(before, sc[t].id));
                            let w = choose|w: int| 0 <= w < before.len() && before[w].id == sc[t].id;
                            assert(contains_id(mid, before[w].id));
                            let w2 = choose|w2: int| 0 <= w2 < mid.len() && mid[w2].id == before[w].id;
                            assert(self.items@[w2].id == sc[t].id);
                        }
                    }
                }
                assert(forall|j: int|
                    0 <= j < self.items@.len() ==> last_occurrence_before(
                        sc,
                        k as int,
                        #[trigger] self.items@[j],
                    )) by {
                    assert forall|j: int| 0 <= j < self.items@.len() implies last_occurrence_before(
                        sc,
                        k as int,
                        #[trigger] self.items@[j],
                    ) by {
                        if j < mid.len() {
                            assert(self.items@[j] == mid[j]);
                            let t = choose|t: int|
                                0 <= t < before.len() && before[t] == mid[j as int];
                            assert(last_occurrence_before(sc, k - 1, before[t]));
                            assert(mid[j as int].id != id);
                        } else {
                            assert(self.items@[j] == g_it);
                        }
                    }
                }
            }
        }
        proof {
            assert(sc.subrange(0, n as int) =~= sc);
        }
    }
}

} // verus!
