use vstd::prelude::*;

use crate::glyph_provider::{BitmapModel, GlyphId, ProviderGlyphBitmap};

verus! {

/// One cached glyph, as the cache's model sees it.
#[verifier::ext_equal]
pub struct CacheEntryModel {
    pub glyph_id: u16,
    pub bitmap: BitmapModel,
    pub weight: nat,
}

/// The state of a glyph bitmap cache: its entries from least to most
/// recently used, the bytes it accounts for, and its byte budget.
#[verifier::ext_equal]
pub struct GlyphCacheModel {
    pub entries: Seq<CacheEntryModel>,
    pub current_bytes: nat,
    pub max_bytes: nat,
}

/// `a + b`, saturated at `usize::MAX`.
pub open spec fn saturating_add_usize(a: nat, b: nat) -> nat {
    if a + b > usize::MAX {
        usize::MAX as nat
    } else {
        a + b
    }
}

/// `a - b`, saturated at zero.
pub open spec fn saturating_sub_usize(a: nat, b: nat) -> nat {
    if a >= b {
        (a - b) as nat
    } else {
        0
    }
}

/// Drops least recently used entries while the accounted bytes exceed the
/// budget and more than one entry is left.
pub open spec fn evict(entries: Seq<CacheEntryModel>, current: nat, max: nat) -> (
    Seq<CacheEntryModel>,
    nat,
)
    decreases entries.len(),
{
    if current > max && entries.len() > 1 {
        evict(entries.drop_first(), saturating_sub_usize(current, entries[0].weight), max)
    } else {
        (entries, current)
    }
}

/// The sum of the weights of the entries.
pub open spec fn total_weight(entries: Seq<CacheEntryModel>) -> nat
    decreases entries.len(),
{
    if entries.len() == 0 {
        0
    } else {
        entries[0].weight + total_weight(entries.drop_first())
    }
}

impl GlyphCacheModel {
    /// The glyph is cached.
    pub open spec fn contains(self, glyph_id: u16) -> bool {
        exists|i: int| 0 <= i < self.entries.len() && self.entries[i].glyph_id == glyph_id
    }

    /// The position of a cached glyph.
    pub open spec fn position(self, glyph_id: u16) -> int {
        choose|i: int| 0 <= i < self.entries.len() && self.entries[i].glyph_id == glyph_id
    }

    /// The cached bitmap of a glyph, if any.
    pub open spec fn lookup(self, glyph_id: u16) -> Option<BitmapModel> {
        if self.contains(glyph_id) {
            Some(self.entries[self.position(glyph_id)].bitmap)
        } else {
            None
        }
    }

    /// Every glyph occurs once, every weight is the size of its alpha map,
    /// the budget is exceeded only by a single entry, and a zero budget
    /// keeps nothing.
    pub open spec fn wf(self) -> bool {
        &&& forall|i: int, j: int|
            0 <= i < j < self.entries.len() ==> self.entries[i].glyph_id
                != self.entries[j].glyph_id
        &&& forall|i: int|
            0 <= i < self.entries.len() ==> (#[trigger] self.entries[i]).weight
                == self.entries[i].bitmap.alpha_map.len()
        &&& self.current_bytes <= self.max_bytes || self.entries.len() <= 1
        &&& self.max_bytes == 0 ==> self.entries.len() == 0
        &&& self.current_bytes <= usize::MAX
        &&& self.max_bytes <= usize::MAX
    }

    /// The cache after a hit on the entry at `i`: it becomes the most recently used.
    pub open spec fn touch(self, i: int) -> GlyphCacheModel {
        GlyphCacheModel {
            entries: self.entries.remove(i).push(self.entries[i]),
            current_bytes: self.current_bytes,
            max_bytes: self.max_bytes,
        }
    }

    /// The cache after a miss whose rendered bitmap is `bitmap`.
    pub open spec fn insert(self, glyph_id: u16, bitmap: BitmapModel) -> GlyphCacheModel {
        if self.max_bytes == 0 {
            self
        } else {
            let pushed = self.entries.push(
                CacheEntryModel { glyph_id, bitmap, weight: bitmap.alpha_map.len() },
            );
            let (entries, current) = evict(
                pushed,
                saturating_add_usize(self.current_bytes, bitmap.alpha_map.len()),
                self.max_bytes,
            );
            GlyphCacheModel { entries, current_bytes: current, max_bytes: self.max_bytes }
        }
    }

    /// The cache after an access to `glyph_id` that yields `bitmap`: a hit
    /// moves the entry to the most recent place, a miss inserts `bitmap`.
    pub open spec fn access(self, glyph_id: u16, bitmap: BitmapModel) -> GlyphCacheModel {
        if self.contains(glyph_id) {
            self.touch(self.position(glyph_id))
        } else {
            self.insert(glyph_id, bitmap)
        }
    }
}

/// One step of a run of accesses: `None` stays `None`; no glyph leaves the
/// cache as it is; an access to a glyph must yield its cached bitmap when it
/// has one (else the run is `None`) and then changes the cache as `access` says.
pub open spec fn access_step(m: Option<GlyphCacheModel>, glyph_id: Option<u16>, bitmap: BitmapModel)
    -> Option<GlyphCacheModel> {
    match m {
        None => None,
        Some(c) => match glyph_id {
            None => Some(c),
            Some(g) => if c.lookup(g) matches Some(cached) && cached != bitmap {
                None
            } else {
                Some(c.access(g, bitmap))
            },
        },
    }
}

/// The cache after a run of accesses in which step `i` accesses `glyph_ids[i]`
/// (or nothing) and yields `bitmaps[i]`; `None` when some access would have
/// yielded something other than the cached bitmap.
pub open spec fn run_accesses(
    m: GlyphCacheModel,
    glyph_ids: Seq<Option<u16>>,
    bitmaps: Seq<BitmapModel>,
) -> Option<GlyphCacheModel>
    decreases glyph_ids.len(),
{
    if glyph_ids.len() == 0 {
        Some(m)
    } else {
        access_step(
            run_accesses(m, glyph_ids.drop_last(), bitmaps.drop_last()),
            glyph_ids.last(),
            bitmaps.last(),
        )
    }
}

/// Eviction keeps a suffix of the entries, ends within the budget unless one
/// entry is left, and never accounts more bytes than it started with.
pub proof fn lemma_evict(entries: Seq<CacheEntryModel>, current: nat, max: nat) -> (k: int)
    ensures
        0 <= k <= entries.len(),
        evict(entries, current, max).0 == entries.skip(k),
        entries.len() >= 1 ==> k < entries.len(),
        evict(entries, current, max).1 <= max || evict(entries, current, max).0.len() <= 1,
        evict(entries, current, max).1 <= current,
    decreases entries.len(),
{
    if current > max && entries.len() > 1 {
        let k1 = lemma_evict(
            entries.drop_first(),
            saturating_sub_usize(current, entries[0].weight),
            max,
        );
        assert(entries.drop_first().skip(k1) =~= entries.skip(k1 + 1));
        k1 + 1
    } else {
        assert(entries.skip(0) =~= entries);
        0
    }
}

proof fn lemma_total_weight_push(entries: Seq<CacheEntryModel>, e: CacheEntryModel)
    ensures
        total_weight(entries.push(e)) == total_weight(entries) + e.weight,
    decreases entries.len(),
{
    assert(entries.push(e)[0] == if entries.len() == 0 { e } else { entries[0] });
    if entries.len() == 0 {
        assert(entries.push(e).drop_first() =~= Seq::<CacheEntryModel>::empty());
        assert(total_weight(Seq::<CacheEntryModel>::empty()) == 0);
    } else {
        assert(entries.push(e).drop_first() =~= entries.drop_first().push(e));
        lemma_total_weight_push(entries.drop_first(), e);
    }
}

proof fn lemma_evict_exact(entries: Seq<CacheEntryModel>, current: nat, max: nat)
    requires
        current == total_weight(entries),
    ensures
        evict(entries, current, max).1 == total_weight(evict(entries, current, max).0),
    decreases entries.len(),
{
    if current > max && entries.len() > 1 {
        lemma_evict_exact(
            entries.drop_first(),
            saturating_sub_usize(current, entries[0].weight),
            max,
        );
    }
}

proof fn lemma_unique_position(m: GlyphCacheModel, glyph_id: u16, i: int)
    requires
        m.wf(),
        0 <= i < m.entries.len(),
        m.entries[i].glyph_id == glyph_id,
    ensures
        m.contains(glyph_id),
        m.position(glyph_id) == i,
{
    let p: int = m.position(glyph_id);
    assert(m.entries[p].glyph_id == glyph_id);
    if p < i {
        assert(m.entries[p].glyph_id != m.entries[i].glyph_id);
    } else if i < p {
        assert(m.entries[i].glyph_id != m.entries[p].glyph_id);
    }
}

/// Every access keeps the cache well formed: glyphs stay unique and the byte
/// budget is exceeded only while a single glyph is cached.
pub proof fn lemma_access_preserves_wf(m: GlyphCacheModel, glyph_id: u16, bitmap: BitmapModel)
    requires
        m.wf(),
        bitmap.alpha_map.len() <= usize::MAX,
    ensures
        m.access(glyph_id, bitmap).wf(),
{
    if m.contains(glyph_id) {
        let p: int = m.position(glyph_id);
        let t = m.touch(p);
        assert forall|i: int, j: int| 0 <= i < j < t.entries.len() implies t.entries[i].glyph_id
            != t.entries[j].glyph_id by {
            let ii: int = if i < p { i } else { i + 1 };
            if j == t.entries.len() - 1 {
                assert(m.entries[ii].glyph_id != m.entries[p].glyph_id);
            } else {
                let jj: int = if j < p { j } else { j + 1 };
                assert(m.entries[ii].glyph_id != m.entries[jj].glyph_id);
            }
        }
        assert forall|i: int| 0 <= i < t.entries.len() implies (#[trigger] t.entries[i]).weight
            == t.entries[i].bitmap.alpha_map.len() by {
            if i == t.entries.len() - 1 {
                assert(t.entries[i] == m.entries[p]);
            } else {
                let ii: int = if i < p { i } else { i + 1 };
                assert(t.entries[i] == m.entries[ii]);
            }
        }
    } else if m.max_bytes != 0 {
        let e = CacheEntryModel { glyph_id, bitmap, weight: bitmap.alpha_map.len() };
        let pushed = m.entries.push(e);
        let cur: nat = saturating_add_usize(m.current_bytes, bitmap.alpha_map.len());
        let k: int = lemma_evict(pushed, cur, m.max_bytes);
        let r = m.insert(glyph_id, bitmap);
        assert(r.entries == pushed.skip(k));
        assert forall|i: int, j: int| 0 <= i < j < pushed.len() implies pushed[i].glyph_id
            != pushed[j].glyph_id by {
            if j == pushed.len() - 1 {
                assert(pushed[i] == m.entries[i]);
            }
        }
        assert forall|i: int| 0 <= i < pushed.len() implies (#[trigger] pushed[i]).weight
            == pushed[i].bitmap.alpha_map.len() by {
            if i < m.entries.len() {
                assert(pushed[i] == m.entries[i]);
            }
        }
        assert forall|i: int, j: int| 0 <= i < j < r.entries.len() implies r.entries[i].glyph_id
            != r.entries[j].glyph_id by {
            assert(r.entries[i] == pushed[i + k]);
            assert(r.entries[j] == pushed[j + k]);
        }
        assert forall|i: int| 0 <= i < r.entries.len() implies (#[trigger] r.entries[i]).weight
            == r.entries[i].bitmap.alpha_map.len() by {
            assert(r.entries[i] == pushed[i + k]);
        }
    }
}

/// Read after access: once an access to a glyph has returned, the cache holds
/// that glyph with the bitmap the access yielded (the cached one on a hit, the
/// rendered one on a miss), unless the budget is zero.
pub proof fn lemma_access_then_lookup(m: GlyphCacheModel, glyph_id: u16, bitmap: BitmapModel)
    requires
        m.wf(),
        m.max_bytes > 0,
        bitmap.alpha_map.len() <= usize::MAX,
    ensures
        m.access(glyph_id, bitmap).lookup(glyph_id) == Some(
            match m.lookup(glyph_id) {
                Some(b) => b,
                None => bitmap,
            },
        ),
        m.access(glyph_id, bitmap).entries.last().glyph_id == glyph_id,
{
    lemma_access_preserves_wf(m, glyph_id, bitmap);
    let r = m.access(glyph_id, bitmap);
    if m.contains(glyph_id) {
        lemma_unique_position(r, glyph_id, r.entries.len() - 1);
    } else {
        let e = CacheEntryModel { glyph_id, bitmap, weight: bitmap.alpha_map.len() };
        let pushed = m.entries.push(e);
        let cur: nat = saturating_add_usize(m.current_bytes, bitmap.alpha_map.len());
        let k: int = lemma_evict(pushed, cur, m.max_bytes);
        assert(r.entries == pushed.skip(k));
        assert(r.entries[r.entries.len() - 1] == pushed[pushed.len() - 1]);
        lemma_unique_position(r, glyph_id, r.entries.len() - 1);
    }
}

/// What holds of every cached entry, and of the entry an access would add,
/// holds of every entry after the access: an access keeps the old entries
/// (some moved or dropped) and at most adds the accessed glyph with the
/// bitmap it yielded.
pub proof fn lemma_access_keeps(
    m: GlyphCacheModel,
    glyph_id: u16,
    bitmap: BitmapModel,
    p: spec_fn(CacheEntryModel) -> bool,
)
    requires
        m.wf(),
        forall|i: int| 0 <= i < m.entries.len() ==> p(#[trigger] m.entries[i]),
        !m.contains(glyph_id) ==> p(
            CacheEntryModel { glyph_id, bitmap, weight: bitmap.alpha_map.len() },
        ),
    ensures
        forall|i: int|
            0 <= i < m.access(glyph_id, bitmap).entries.len() ==> p(
                #[trigger] m.access(glyph_id, bitmap).entries[i],
            ),
{
    let r = m.access(glyph_id, bitmap);
    if m.contains(glyph_id) {
        let q: int = m.position(glyph_id);
        assert forall|i: int| 0 <= i < r.entries.len() implies p(#[trigger] r.entries[i]) by {
            if i == r.entries.len() - 1 {
                assert(r.entries[i] == m.entries[q]);
            } else {
                let ii: int = if i < q { i } else { i + 1 };
                assert(r.entries[i] == m.entries[ii]);
            }
        }
    } else if m.max_bytes != 0 {
        let e = CacheEntryModel { glyph_id, bitmap, weight: bitmap.alpha_map.len() };
        let pushed = m.entries.push(e);
        let cur: nat = saturating_add_usize(m.current_bytes, bitmap.alpha_map.len());
        let k: int = lemma_evict(pushed, cur, m.max_bytes);
        assert forall|i: int| 0 <= i < r.entries.len() implies p(#[trigger] r.entries[i]) by {
            assert(r.entries[i] == pushed[i + k]);
            if i + k < m.entries.len() {
                assert(pushed[i + k] == m.entries[i + k]);
            }
        }
    }
}

/// A zero budget turns caching off: an access leaves the cache as it was.
pub proof fn lemma_zero_budget_keeps_nothing(
    m: GlyphCacheModel,
    glyph_id: u16,
    bitmap: BitmapModel,
)
    requires
        m.wf(),
        m.max_bytes == 0,
    ensures
        m.access(glyph_id, bitmap) == m,
        m.access(glyph_id, bitmap).entries.len() == 0,
{
}

/// Eviction is least recently used first: after an access, the entries are
/// the entries before it (with the accessed one moved or added last) less a
/// prefix of the oldest ones.
pub proof fn lemma_access_evicts_oldest(m: GlyphCacheModel, glyph_id: u16, bitmap: BitmapModel)
    -> (k: int)
    requires
        m.wf(),
        !m.contains(glyph_id),
        m.max_bytes > 0,
    ensures
        0 <= k <= m.entries.len(),
        m.access(glyph_id, bitmap).entries == m.entries.push(
            CacheEntryModel { glyph_id, bitmap, weight: bitmap.alpha_map.len() },
        ).skip(k),
{
    let e = CacheEntryModel { glyph_id, bitmap, weight: bitmap.alpha_map.len() };
    let pushed = m.entries.push(e);
    let cur: nat = saturating_add_usize(m.current_bytes, bitmap.alpha_map.len());
    lemma_evict(pushed, cur, m.max_bytes)
}

/// A miss whose new total stays within the budget evicts nothing: the new
/// glyph is added as the most recently used and its bytes are counted.
pub proof fn lemma_insert_within_budget_evicts_nothing(
    m: GlyphCacheModel,
    glyph_id: u16,
    bitmap: BitmapModel,
)
    requires
        m.wf(),
        !m.contains(glyph_id),
        m.max_bytes > 0,
        m.current_bytes + bitmap.alpha_map.len() <= m.max_bytes,
    ensures
        m.access(glyph_id, bitmap).entries == m.entries.push(
            CacheEntryModel { glyph_id, bitmap, weight: bitmap.alpha_map.len() },
        ),
        m.access(glyph_id, bitmap).entries.len() == m.entries.len() + 1,
        m.access(glyph_id, bitmap).current_bytes == m.current_bytes + bitmap.alpha_map.len(),
{
}

/// The accounted bytes equal the total weight of the cached bitmaps, and an
/// access keeps them equal: a hit always, an insertion as long as the new
/// total does not reach past `usize::MAX`.
pub proof fn lemma_access_keeps_accounting(
    m: GlyphCacheModel,
    glyph_id: u16,
    bitmap: BitmapModel,
)
    requires
        m.wf(),
        m.current_bytes == total_weight(m.entries),
        !m.contains(glyph_id) && m.max_bytes > 0 ==> total_weight(m.entries)
            + bitmap.alpha_map.len() <= usize::MAX,
    ensures
        m.access(glyph_id, bitmap).current_bytes == total_weight(
            m.access(glyph_id, bitmap).entries,
        ),
{
    if m.contains(glyph_id) {
        let p: int = m.position(glyph_id);
        lemma_total_weight_remove_push(m.entries, p);
    } else if m.max_bytes != 0 {
        let e = CacheEntryModel { glyph_id, bitmap, weight: bitmap.alpha_map.len() };
        let pushed = m.entries.push(e);
        lemma_total_weight_push(m.entries, e);
        let cur: nat = saturating_add_usize(m.current_bytes, bitmap.alpha_map.len());
        lemma_evict_exact(pushed, cur, m.max_bytes);
    }
}

proof fn lemma_total_weight_remove_push(entries: Seq<CacheEntryModel>, p: int)
    requires
        0 <= p < entries.len(),
    ensures
        total_weight(entries.remove(p).push(entries[p])) == total_weight(entries),
    decreases entries.len(),
{
    lemma_total_weight_push(entries.remove(p), entries[p]);
    lemma_total_weight_remove(entries, p);
}

proof fn lemma_total_weight_remove(entries: Seq<CacheEntryModel>, p: int)
    requires
        0 <= p < entries.len(),
    ensures
        total_weight(entries.remove(p)) + entries[p].weight == total_weight(entries),
    decreases entries.len(),
{
    if p == 0 {
        assert(entries.remove(0) =~= entries.drop_first());
    } else {
        assert(entries.remove(p).drop_first() =~= entries.drop_first().remove(p - 1));
        lemma_total_weight_remove(entries.drop_first(), p - 1);
    }
}

struct GlyphCacheEntry {
    glyph_id: GlyphId,
    bitmap: ProviderGlyphBitmap,
    weight: usize,
}

impl View for GlyphCacheEntry {
    type V = CacheEntryModel;

    closed spec fn view(&self) -> CacheEntryModel {
        CacheEntryModel {
            glyph_id: self.glyph_id.value(),
            bitmap: self.bitmap@,
            weight: self.weight as nat,
        }
    }
}

/// A least-recently-used cache of glyph bitmaps bounded by the total size of
/// their alpha maps.
pub struct GlyphBitmapCache {
    entries: Vec<GlyphCacheEntry>,
    current_bytes: usize,
    max_bytes: usize,
}

impl View for GlyphBitmapCache {
    type V = GlyphCacheModel;

    closed spec fn view(&self) -> GlyphCacheModel {
        GlyphCacheModel {
            entries: self.entries@.map_values(|e: GlyphCacheEntry| e@),
            current_bytes: self.current_bytes as nat,
            max_bytes: self.max_bytes as nat,
        }
    }
}

impl GlyphBitmapCache {
    /// The cache is well formed.
    pub open spec fn wf(&self) -> bool {
        self@.wf()
    }

    /// An empty cache with the given byte budget.
    pub fn new(max_bytes: usize) -> (r: GlyphBitmapCache)
        ensures
            r.wf(),
            r@.entries.len() == 0,
            r@.current_bytes == 0,
            r@.max_bytes == max_bytes,
    {
        let r = GlyphBitmapCache { entries: Vec::new(), current_bytes: 0, max_bytes };
        proof {
            assert(r@.entries =~= Seq::<CacheEntryModel>::empty());
        }
        r
    }

    /// The bytes the cache accounts for its bitmaps.
    pub fn current_bytes(&self) -> (r: usize)
        ensures
            r == self@.current_bytes,
    {
        self.current_bytes
    }

    /// The number of cached glyphs.
    pub fn len(&self) -> (r: usize)
        ensures
            r == self@.entries.len(),
    {
        self.entries.len()
    }

    /// Returns the cached bitmap of `glyph_id`, making it the most recently
    /// used; on a miss, calls `render`, caches a copy of its bitmap (unless the
    /// budget is zero), evicts the least recently used glyphs while the budget
    /// is exceeded by more than one glyph, and returns the rendered bitmap.
    pub fn get_or_insert_with<F: FnOnce() -> ProviderGlyphBitmap>(
        &mut self,
        glyph_id: GlyphId,
        render: F,
    ) -> (r: ProviderGlyphBitmap)
        requires
            old(self).wf(),
            !old(self)@.contains(glyph_id.value()) ==> render.requires(()),
        ensures
            final(self).wf(),
            match old(self)@.lookup(glyph_id.value()) {
                Some(b) => r@ == b,
                None => render.ensures((), r),
            },
            final(self)@ == old(self)@.access(glyph_id.value(), r@),
            final(self)@.max_bytes > 0 ==> final(self)@.lookup(glyph_id.value()) == Some(r@),
    {
        let ghost m = self@;
        let n: usize = self.entries.len();
        let mut i: usize = 0;
        while i < n
            invariant
                n == self.entries.len(),
                self@ == m,
                old(self)@ == m,
                m.wf(),
                i <= n,
                forall|j: int| 0 <= j < i ==> self@.entries[j].glyph_id != glyph_id.value(),
            decreases n - i,
        {
            proof {
                assert(self@.entries[i as int] == self.entries@[i as int]@);
            }
            if self.entries[i].glyph_id.get() == glyph_id.get() {
                proof {
                    lemma_unique_position(m, glyph_id.value(), i as int);
                }
                let entry = self.entries.remove(i);
                let result = entry.bitmap.clone();
                self.entries.push(entry);
                proof {
                    assert(entry@ == m.entries[i as int]);
                    assert(result@ == m.entries[i as int].bitmap);
                    assert(self@.entries =~= m.touch(i as int).entries);
                    assert(self@ =~= m.touch(i as int));
                    assert(m.lookup(glyph_id.value()) == Some(result@));
                    lemma_access_preserves_wf(m, glyph_id.value(), result@);
                    lemma_access_then_lookup(m, glyph_id.value(), result@);
                }
                return result;
            }
            i += 1;
        }
        proof {
            assert(!m.contains(glyph_id.value())) by {
                if m.contains(glyph_id.value()) {
                    let p: int = m.position(glyph_id.value());
                    assert(m.entries[p].glyph_id == glyph_id.value());
                }
            }
        }
        let bitmap = render();
        if self.max_bytes == 0 {
            return bitmap;
        }
        let weight: usize = bitmap.alpha_map.len();
        let copy = bitmap.clone();
        self.entries.push(GlyphCacheEntry { glyph_id, bitmap: copy, weight });
        self.current_bytes = self.current_bytes.saturating_add(weight);
        let ghost pushed = m.entries.push(
            CacheEntryModel { glyph_id: glyph_id.value(), bitmap: bitmap@, weight: weight as nat },
        );
        proof {
            assert(self@.entries =~= pushed);
        }
        while self.current_bytes > self.max_bytes && self.entries.len() > 1
            invariant
                self.max_bytes == m.max_bytes,
                evict(self@.entries, self@.current_bytes, self@.max_bytes) == evict(
                    pushed,
                    saturating_add_usize(m.current_bytes, weight as nat),
                    m.max_bytes,
                ),
            decreases self.entries.len(),
        {
            let w: usize = self.entries[0].weight;
            proof {
                assert(self@.entries[0] == self.entries@[0]@);
                assert(self@.entries.drop_first() =~= self.entries@.remove(0).map_values(
                    |e: GlyphCacheEntry| e@,
                ));
            }
            self.current_bytes = self.current_bytes.saturating_sub(w);
            self.entries.remove(0);
        }
        proof {
            lemma_access_preserves_wf(m, glyph_id.value(), bitmap@);
            lemma_access_then_lookup(m, glyph_id.value(), bitmap@);
        }
        bitmap
    }
}

} // verus!
