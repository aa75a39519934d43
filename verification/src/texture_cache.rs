//! Bookkeeping of the viewer's textures: one overview per image and tiles that are evicted,
//! least recently used first, once their bytes pass the limit.
use vstd::prelude::*;

use crate::viewer::ViewImageId;

verus! {

/// The default limit of texture bytes.
pub const MAX_CACHE_BYTES: usize = 134_217_728;

/// A tile of one image at tile column `x` and tile row `y`.
#[derive(Clone, Copy, Debug, PartialEq, Eq, Hash, Structural)]
pub struct TileKey {
    pub image: ViewImageId,
    pub x: u32,
    pub y: u32,
}

/// A texture with its size in bytes and the frame in which it was last drawn.
pub struct CacheEntry<T> {
    pub texture: T,
    pub bytes: usize,
    pub last_used: u64,
}

/// The textures of the viewer and their byte count. Keys never repeat. The entries are kept in
/// vectors of key and entry pairs: the keys are structs of several integers, for which vstd's
/// `HashMap` specification has no key model, and a `u128` cannot hold a tile's key.
pub struct TextureCache<T> {
    reduced: Vec<(ViewImageId, CacheEntry<T>)>,
    tiles: Vec<(TileKey, CacheEntry<T>)>,
    bytes: usize,
    frame: u64,
    max_bytes: usize,
}

/// Whether no key occurs twice.
pub open spec fn unique_keys<K, V>(entries: Seq<(K, V)>) -> bool {
    forall|i: int, j: int|
        0 <= i < entries.len() && 0 <= j < entries.len() && i != j ==> #[trigger] entries[i].0
            != #[trigger] entries[j].0
}

/// Whether `key` has an entry.
pub open spec fn has_key<K, V>(entries: Seq<(K, V)>, key: K) -> bool {
    exists|i: int| 0 <= i < entries.len() && #[trigger] entries[i].0 == key
}

/// The bytes of all entries.
pub open spec fn total_bytes<K, T>(entries: Seq<(K, CacheEntry<T>)>) -> nat
    decreases entries.len(),
{
    if entries.len() == 0 {
        0
    } else {
        (total_bytes(entries.drop_last()) + entries.last().1.bytes) as nat
    }
}

proof fn lemma_total_push<K, T>(entries: Seq<(K, CacheEntry<T>)>, x: (K, CacheEntry<T>))
    ensures
        total_bytes(entries.push(x)) == total_bytes(entries) + x.1.bytes,
{
    assert(entries.push(x).drop_last() =~= entries);
}

proof fn lemma_total_update<K, T>(entries: Seq<(K, CacheEntry<T>)>, i: int, x: (K, CacheEntry<T>))
    requires
        0 <= i < entries.len(),
    ensures
        total_bytes(entries.update(i, x)) == total_bytes(entries) - entries[i].1.bytes + x.1.bytes,
    decreases entries.len(),
{
    let updated = entries.update(i, x);
    if i == entries.len() - 1 {
        assert(updated.drop_last() =~= entries.drop_last());
    } else {
        assert(updated.drop_last() =~= entries.drop_last().update(i, x));
        lemma_total_update(entries.drop_last(), i, x);
    }
}

proof fn lemma_total_remove<K, T>(entries: Seq<(K, CacheEntry<T>)>, i: int)
    requires
        0 <= i < entries.len(),
    ensures
        total_bytes(entries.remove(i)) == total_bytes(entries) - entries[i].1.bytes,
    decreases entries.len(),
{
    let rest = entries.remove(i);
    if i == entries.len() - 1 {
        assert(rest =~= entries.drop_last());
    } else {
        assert(rest.drop_last() =~= entries.drop_last().remove(i));
        assert(rest.last() == entries.last());
        lemma_total_remove(entries.drop_last(), i);
    }
}

pub open spec fn saturating_add(a: int, b: int) -> int {
    if a + b > usize::MAX {
        usize::MAX as int
    } else {
        a + b
    }
}

impl<T> TextureCache<T> {
    pub closed spec fn spec_reduced(self) -> Seq<(ViewImageId, CacheEntry<T>)> {
        self.reduced@
    }

    pub closed spec fn spec_tiles(self) -> Seq<(TileKey, CacheEntry<T>)> {
        self.tiles@
    }

    pub closed spec fn spec_bytes(self) -> usize {
        self.bytes
    }

    pub closed spec fn spec_frame(self) -> u64 {
        self.frame
    }

    pub closed spec fn spec_max_bytes(self) -> usize {
        self.max_bytes
    }

    /// The byte count is the sum of the bytes of the cached textures. It holds from creation on
    /// for as long as that sum fits in a `usize`; past that the count stays at its maximum.
    pub open spec fn counts_exactly(self) -> bool {
        self.spec_bytes() == total_bytes(self.spec_reduced()) + total_bytes(self.spec_tiles())
    }

    #[verifier::type_invariant]
    spec fn inv(self) -> bool {
        unique_keys(self.reduced@) && unique_keys(self.tiles@)
    }

    /// An empty cache with the given byte limit.
    pub fn with_limit(max_bytes: usize) -> (cache: TextureCache<T>)
        ensures
            cache.spec_reduced().len() == 0,
            cache.spec_tiles().len() == 0,
            cache.spec_bytes() == 0,
            cache.spec_frame() == 0,
            cache.spec_max_bytes() == max_bytes,
            cache.counts_exactly(),
    {
        TextureCache {
            reduced: Vec::new(),
            tiles: Vec::new(),
            bytes: 0,
            frame: 0,
            max_bytes,
        }
    }

    /// An empty cache with the default limit of 128 MiB.
    pub fn new() -> (cache: TextureCache<T>)
        ensures
            cache.spec_reduced().len() == 0,
            cache.spec_tiles().len() == 0,
            cache.spec_bytes() == 0,
            cache.spec_frame() == 0,
            cache.spec_max_bytes() == MAX_CACHE_BYTES,
            cache.counts_exactly(),
    {
        TextureCache::with_limit(MAX_CACHE_BYTES)
    }

    pub fn bytes(&self) -> (b: usize)
        ensures
            b == self.spec_bytes(),
    {
        self.bytes
    }

    pub fn max_bytes(&self) -> (b: usize)
        ensures
            b == self.spec_max_bytes(),
    {
        self.max_bytes
    }

    pub fn tile_count(&self) -> (n: usize)
        ensures
            n == self.spec_tiles().len(),
    {
        self.tiles.len()
    }

    pub fn reduced_count(&self) -> (n: usize)
        ensures
            n == self.spec_reduced().len(),
    {
        self.reduced.len()
    }

    /// Starts a new frame; entries drawn in it count as in use.
    pub fn begin_frame(&mut self)
        ensures
            final(self).spec_frame() == (if old(self).spec_frame() == u64::MAX {
                u64::MAX
            } else {
                (old(self).spec_frame() + 1) as u64
            }),
            final(self).spec_reduced() == old(self).spec_reduced(),
            final(self).spec_tiles() == old(self).spec_tiles(),
            final(self).spec_bytes() == old(self).spec_bytes(),
            final(self).spec_max_bytes() == old(self).spec_max_bytes(),
    {
        proof {
            use_type_invariant(&*self);
        }
        self.frame = self.frame.saturating_add(1);
    }

    /// Keeps only the textures of one document.
    pub fn retain_document(&mut self, document: u64)
        ensures
            forall|i: int|
                0 <= i < final(self).spec_reduced().len() ==> (#[trigger] final(self).spec_reduced()[i]).0.document
                    == document && old(self).spec_reduced().contains(final(self).spec_reduced()[i]),
            forall|i: int|
                0 <= i < old(self).spec_reduced().len() && (#[trigger] old(self).spec_reduced()[i]).0.document
                    == document ==> final(self).spec_reduced().contains(old(self).spec_reduced()[i]),
            forall|i: int|
                0 <= i < final(self).spec_tiles().len() ==> (#[trigger] final(self).spec_tiles()[i]).0.image.document
                    == document && old(self).spec_tiles().contains(final(self).spec_tiles()[i]),
            forall|i: int|
                0 <= i < old(self).spec_tiles().len() && (#[trigger] old(self).spec_tiles()[i]).0.image.document
                    == document ==> final(self).spec_tiles().contains(old(self).spec_tiles()[i]),
            final(self).spec_bytes() <= old(self).spec_bytes(),
            old(self).counts_exactly() ==> final(self).counts_exactly(),
            final(self).spec_frame() == old(self).spec_frame(),
            final(self).spec_max_bytes() == old(self).spec_max_bytes(),
    {
        proof {
            use_type_invariant(&*self);
        }
        let mut reduced: Vec<(ViewImageId, CacheEntry<T>)> = Vec::new();
        std::mem::swap(&mut reduced, &mut self.reduced);
        let mut tiles: Vec<(TileKey, CacheEntry<T>)> = Vec::new();
        std::mem::swap(&mut tiles, &mut self.tiles);
        let ghost tiles_total = total_bytes(tiles@);
        let (kept_reduced, bytes) = retain_reduced(
            reduced,
            ReducedFilter::Document(document),
            self.bytes,
            Ghost(tiles_total),
        );
        let ghost reduced_total = total_bytes(kept_reduced@);
        let (kept_tiles, bytes) = retain_tiles(tiles, document, bytes, Ghost(reduced_total));
        self.reduced = kept_reduced;
        self.tiles = kept_tiles;
        self.bytes = bytes;
    }

    /// Drops the overviews of other revisions of the same document and variant.
    pub fn remove_superseded_reduced(&mut self, id: ViewImageId)
        ensures
            forall|i: int|
                0 <= i < final(self).spec_reduced().len() ==> keeps(
                    ReducedFilter::Current(id),
                    (#[trigger] final(self).spec_reduced()[i]).0,
                ) && old(self).spec_reduced().contains(final(self).spec_reduced()[i]),
            forall|i: int|
                0 <= i < old(self).spec_reduced().len() && keeps(
                    ReducedFilter::Current(id),
                    (#[trigger] old(self).spec_reduced()[i]).0,
                ) ==> final(self).spec_reduced().contains(old(self).spec_reduced()[i]),
            final(self).spec_tiles() == old(self).spec_tiles(),
            final(self).spec_bytes() <= old(self).spec_bytes(),
            old(self).counts_exactly() ==> final(self).counts_exactly(),
            final(self).spec_frame() == old(self).spec_frame(),
            final(self).spec_max_bytes() == old(self).spec_max_bytes(),
    {
        proof {
            use_type_invariant(&*self);
        }
        let mut reduced: Vec<(ViewImageId, CacheEntry<T>)> = Vec::new();
        std::mem::swap(&mut reduced, &mut self.reduced);
        let ghost tiles_total = total_bytes(self.tiles@);
        let (kept, bytes) = retain_reduced(reduced, ReducedFilter::Current(id), self.bytes, Ghost(tiles_total));
        self.reduced = kept;
        self.bytes = bytes;
    }

    /// Marks the overview of `id` as drawn in this frame and returns its position, if cached.
    pub fn use_reduced(&mut self, id: ViewImageId) -> (found: Option<usize>)
        ensures
            found is None ==> !has_key(old(self).spec_reduced(), id) && final(self).spec_reduced()
                == old(self).spec_reduced() && final(self).spec_tiles() == old(self).spec_tiles()
                && final(self).spec_bytes() == old(self).spec_bytes() && final(self).spec_frame()
                == old(self).spec_frame() && final(self).spec_max_bytes() == old(self).spec_max_bytes(),
            found matches Some(i) ==> 0 <= i < old(self).spec_reduced().len() && old(
                self,
            ).spec_reduced()[i as int].0 == id && final(self).spec_reduced() == old(
                self,
            ).spec_reduced().update(
                i as int,
                (
                    id,
                    CacheEntry {
                        last_used: old(self).spec_frame(),
                        ..old(self).spec_reduced()[i as int].1
                    },
                ),
            ) && final(self).spec_tiles() == old(self).spec_tiles() && final(self).spec_bytes()
                == old(self).spec_bytes() && final(self).spec_frame() == old(self).spec_frame()
                && final(self).spec_max_bytes() == old(self).spec_max_bytes(),
            final(self).counts_exactly() == old(self).counts_exactly(),
    {
        proof {
            use_type_invariant(&*self);
        }
        let mut entries: Vec<_> = Vec::new();
        std::mem::swap(&mut entries, &mut self.reduced);
        let mut i: usize = 0;
        while i < entries.len()
            invariant
                entries@ == old(self).spec_reduced(),
                unique_keys(entries@),
                self.frame == old(self).spec_frame(),
                self.tiles@ == old(self).spec_tiles(),
                unique_keys(self.tiles@),
                self.bytes == old(self).spec_bytes(),
                self.max_bytes == old(self).spec_max_bytes(),
                self.reduced@.len() == 0,
                i <= entries@.len(),
                forall|j: int| 0 <= j < i ==> (#[trigger] entries@[j]).0 != id,
            decreases entries@.len() - i,
        {
            if entries[i].0 == id {
                let (key, entry) = entries.remove(i);
                let frame = self.frame;
                entries.insert(i, (key, CacheEntry { texture: entry.texture, bytes: entry.bytes, last_used: frame }));
                proof {
                    assert(entries@ =~= old(self).spec_reduced().update(
                        i as int,
                        (id, CacheEntry { last_used: old(self).spec_frame(), ..old(self).spec_reduced()[i as int].1 }),
                    ));
                    lemma_total_update(
                        old(self).spec_reduced(),
                        i as int,
                        (id, CacheEntry { last_used: old(self).spec_frame(), ..old(self).spec_reduced()[i as int].1 }),
                    );
                    assert forall|a: int, b: int|
                        0 <= a < entries@.len() && 0 <= b < entries@.len() && a != b implies #[trigger] entries@[a].0
                            != #[trigger] entries@[b].0 by {
                        assert(entries@[a].0 == old(self).spec_reduced()[a].0);
                        assert(entries@[b].0 == old(self).spec_reduced()[b].0);
                    }
                }
                self.reduced = entries;
                return Some(i);
            }
            i = i + 1;
        }
        self.reduced = entries;
        None
    }

    /// The texture of the overview at a position.
    pub fn reduced_texture(&self, index: usize) -> (texture: &T)
        requires
            index < self.spec_reduced().len(),
        ensures
            *texture == self.spec_reduced()[index as int].1.texture,
    {
        &self.reduced[index].1.texture
    }

    /// Adds the overview of `id`, drawn in this frame, and counts its bytes.
    pub fn insert_reduced(&mut self, id: ViewImageId, texture: T, bytes: usize) -> (index: usize)
        requires
            !has_key(old(self).spec_reduced(), id),
        ensures
            final(self).spec_reduced() == old(self).spec_reduced().push(
                (id, CacheEntry { texture, bytes, last_used: old(self).spec_frame() }),
            ),
            index == old(self).spec_reduced().len(),
            final(self).spec_bytes() == saturating_add(old(self).spec_bytes() as int, bytes as int),
            old(self).counts_exactly() && old(self).spec_bytes() + bytes <= usize::MAX
                ==> final(self).counts_exactly(),
            final(self).spec_tiles() == old(self).spec_tiles(),
            final(self).spec_frame() == old(self).spec_frame(),
            final(self).spec_max_bytes() == old(self).spec_max_bytes(),
    {
        proof {
            use_type_invariant(&*self);
        }
        let mut entries: Vec<_> = Vec::new();
        std::mem::swap(&mut entries, &mut self.reduced);
        let index = entries.len();
        let frame = self.frame;
        entries.push((id, CacheEntry { texture, bytes, last_used: frame }));
        proof {
            lemma_total_push(old(self).spec_reduced(), (id, CacheEntry { texture, bytes, last_used: frame }));
            assert forall|a: int, b: int|
                0 <= a < entries@.len() && 0 <= b < entries@.len() && a != b implies #[trigger] entries@[a].0
                    != #[trigger] entries@[b].0 by {
                if a == index {
                    assert(old(self).spec_reduced()[b].0 != id);
                } else if b == index {
                    assert(old(self).spec_reduced()[a].0 != id);
                }
            }
        }
        self.reduced = entries;
        self.bytes = self.bytes.saturating_add(bytes);
        index
    }

    /// Draws the overview of `id`: drops the overviews of its other revisions, reuses its texture
    /// or makes and counts a new one, marks it as drawn in this frame, and returns its position.
    pub fn reduced_with<F: FnOnce() -> (T, usize)>(&mut self, id: ViewImageId, make: F) -> (index: usize)
        requires
            make.requires(()),
        ensures
            index < final(self).spec_reduced().len(),
            final(self).spec_reduced()[index as int].0 == id,
            final(self).spec_reduced()[index as int].1.last_used == old(self).spec_frame(),
            has_key(old(self).spec_reduced(), id) ==> exists|i: int|
                0 <= i < old(self).spec_reduced().len() && old(self).spec_reduced()[i].0 == id
                    && #[trigger] old(self).spec_reduced()[i].1.texture
                    == final(self).spec_reduced()[index as int].1.texture,
            forall|k: int|
                0 <= k < final(self).spec_reduced().len() && k != index ==> keeps(
                    ReducedFilter::Current(id),
                    (#[trigger] final(self).spec_reduced()[k]).0,
                ) && old(self).spec_reduced().contains(final(self).spec_reduced()[k]),
            forall|a: int|
                0 <= a < old(self).spec_reduced().len() && keeps(
                    ReducedFilter::Current(id),
                    (#[trigger] old(self).spec_reduced()[a]).0,
                ) && old(self).spec_reduced()[a].0 != id ==> final(self).spec_reduced().contains(
                    old(self).spec_reduced()[a],
                ),
            !has_key(old(self).spec_reduced(), id) ==> make.ensures(
                (),
                (
                    final(self).spec_reduced()[index as int].1.texture,
                    final(self).spec_reduced()[index as int].1.bytes,
                ),
            ),
            final(self).spec_tiles() == old(self).spec_tiles(),
            final(self).spec_frame() == old(self).spec_frame(),
            final(self).spec_max_bytes() == old(self).spec_max_bytes(),
            old(self).counts_exactly() && (has_key(old(self).spec_reduced(), id) || old(
                self,
            ).spec_bytes() + final(self).spec_reduced()[index as int].1.bytes <= usize::MAX)
                ==> final(self).counts_exactly(),
    {
        self.remove_superseded_reduced(id);
        let ghost kept = self.spec_reduced();
        proof {
            use_type_invariant(&*self);
            if has_key(old(self).spec_reduced(), id) {
                let i = choose|i: int| 0 <= i < old(self).spec_reduced().len() && #[trigger] old(self).spec_reduced()[i].0 == id;
                assert(keeps(ReducedFilter::Current(id), old(self).spec_reduced()[i].0));
                assert(kept.contains(old(self).spec_reduced()[i]));
            }
        }
        match self.use_reduced(id) {
            Some(i) => {
                proof {
                    assert(kept[i as int].0 == id);
                    assert(old(self).spec_reduced().contains(kept[i as int]));
                    let p = choose|p: int| 0 <= p < old(self).spec_reduced().len() && old(self).spec_reduced()[p] == kept[i as int];
                    assert(old(self).spec_reduced()[p].0 == id);
                    assert forall|k: int|
                        0 <= k < self.spec_reduced().len() && k != i implies keeps(
                            ReducedFilter::Current(id),
                            (#[trigger] self.spec_reduced()[k]).0,
                        ) && old(self).spec_reduced().contains(self.spec_reduced()[k]) by {
                        assert(self.spec_reduced()[k] == kept[k]);
                    }
                    assert forall|a: int|
                        0 <= a < old(self).spec_reduced().len() && keeps(
                            ReducedFilter::Current(id),
                            (#[trigger] old(self).spec_reduced()[a]).0,
                        ) && old(self).spec_reduced()[a].0 != id implies self.spec_reduced().contains(
                            old(self).spec_reduced()[a],
                        ) by {
                        let q = choose|q: int| 0 <= q < kept.len() && kept[q] == old(self).spec_reduced()[a];
                        assert(q != i);
                        assert(self.spec_reduced()[q] == kept[q]);
                    }
                }
                i
            },
            None => {
                let (texture, bytes) = make();
                let i = self.insert_reduced(id, texture, bytes);
                proof {
                    assert(self.spec_reduced()[i as int].1.texture == texture);
                    assert(self.spec_reduced()[i as int].1.bytes == bytes);
                    assert forall|k: int|
                        0 <= k < self.spec_reduced().len() && k != i implies keeps(
                            ReducedFilter::Current(id),
                            (#[trigger] self.spec_reduced()[k]).0,
                        ) && old(self).spec_reduced().contains(self.spec_reduced()[k]) by {
                        assert(self.spec_reduced()[k] == kept[k]);
                    }
                    assert forall|a: int|
                        0 <= a < old(self).spec_reduced().len() && keeps(
                            ReducedFilter::Current(id),
                            (#[trigger] old(self).spec_reduced()[a]).0,
                        ) && old(self).spec_reduced()[a].0 != id implies self.spec_reduced().contains(
                            old(self).spec_reduced()[a],
                        ) by {
                        let q = choose|q: int| 0 <= q < kept.len() && kept[q] == old(self).spec_reduced()[a];
                        assert(self.spec_reduced()[q] == kept[q]);
                    }
                }
                i
            },
        }
    }

    /// Marks tile `key` as drawn in this frame and returns its position, if cached.
    pub fn use_tile(&mut self, key: TileKey) -> (found: Option<usize>)
        ensures
            found is None ==> !has_key(old(self).spec_tiles(), key) && final(self).spec_tiles()
                == old(self).spec_tiles() && final(self).spec_reduced() == old(self).spec_reduced()
                && final(self).spec_bytes() == old(self).spec_bytes() && final(self).spec_frame()
                == old(self).spec_frame() && final(self).spec_max_bytes() == old(self).spec_max_bytes(),
            found matches Some(i) ==> 0 <= i < old(self).spec_tiles().len() && old(
                self,
            ).spec_tiles()[i as int].0 == key && final(self).spec_tiles() == old(
                self,
            ).spec_tiles().update(
                i as int,
                (
                    key,
                    CacheEntry {
                        last_used: old(self).spec_frame(),
                        ..old(self).spec_tiles()[i as int].1
                    },
                ),
            ) && final(self).spec_reduced() == old(self).spec_reduced() && final(self).spec_bytes()
                == old(self).spec_bytes() && final(self).spec_frame() == old(self).spec_frame()
                && final(self).spec_max_bytes() == old(self).spec_max_bytes(),
            final(self).counts_exactly() == old(self).counts_exactly(),
    {
        proof {
            use_type_invariant(&*self);
        }
        let mut entries: Vec<_> = Vec::new();
        std::mem::swap(&mut entries, &mut self.tiles);
        let mut i: usize = 0;
        while i < entries.len()
            invariant
                entries@ == old(self).spec_tiles(),
                unique_keys(entries@),
                self.frame == old(self).spec_frame(),
                self.reduced@ == old(self).spec_reduced(),
                unique_keys(self.reduced@),
                self.bytes == old(self).spec_bytes(),
                self.max_bytes == old(self).spec_max_bytes(),
                self.tiles@.len() == 0,
                i <= entries@.len(),
                forall|j: int| 0 <= j < i ==> (#[trigger] entries@[j]).0 != key,
            decreases entries@.len() - i,
        {
            if entries[i].0 == key {
                let (k, entry) = entries.remove(i);
                let frame = self.frame;
                entries.insert(i, (k, CacheEntry { texture: entry.texture, bytes: entry.bytes, last_used: frame }));
                proof {
                    assert(entries@ =~= old(self).spec_tiles().update(
                        i as int,
                        (key, CacheEntry { last_used: old(self).spec_frame(), ..old(self).spec_tiles()[i as int].1 }),
                    ));
                    lemma_total_update(
                        old(self).spec_tiles(),
                        i as int,
                        (key, CacheEntry { last_used: old(self).spec_frame(), ..old(self).spec_tiles()[i as int].1 }),
                    );
                    assert forall|a: int, b: int|
                        0 <= a < entries@.len() && 0 <= b < entries@.len() && a != b implies #[trigger] entries@[a].0
                            != #[trigger] entries@[b].0 by {
                        assert(entries@[a].0 == old(self).spec_tiles()[a].0);
                        assert(entries@[b].0 == old(self).spec_tiles()[b].0);
                    }
                }
                self.tiles = entries;
                return Some(i);
            }
            i = i + 1;
        }
        self.tiles = entries;
        None
    }

    /// The texture of the tile at a position.
    pub fn tile_texture(&self, index: usize) -> (texture: &T)
        requires
            index < self.spec_tiles().len(),
        ensures
            *texture == self.spec_tiles()[index as int].1.texture,
    {
        &self.tiles[index].1.texture
    }

    /// Adds tile `key`, drawn in this frame, and counts its bytes.
    pub fn insert_tile(&mut self, key: TileKey, texture: T, bytes: usize) -> (index: usize)
        requires
            !has_key(old(self).spec_tiles(), key),
        ensures
            final(self).spec_tiles() == old(self).spec_tiles().push(
                (key, CacheEntry { texture, bytes, last_used: old(self).spec_frame() }),
            ),
            index == old(self).spec_tiles().len(),
            final(self).spec_bytes() == saturating_add(old(self).spec_bytes() as int, bytes as int),
            old(self).counts_exactly() && old(self).spec_bytes() + bytes <= usize::MAX
                ==> final(self).counts_exactly(),
            final(self).spec_reduced() == old(self).spec_reduced(),
            final(self).spec_frame() == old(self).spec_frame(),
            final(self).spec_max_bytes() == old(self).spec_max_bytes(),
    {
        proof {
            use_type_invariant(&*self);
        }
        let mut entries: Vec<_> = Vec::new();
        std::mem::swap(&mut entries, &mut self.tiles);
        let index = entries.len();
        let frame = self.frame;
        entries.push((key, CacheEntry { texture, bytes, last_used: frame }));
        proof {
            lemma_total_push(old(self).spec_tiles(), (key, CacheEntry { texture, bytes, last_used: frame }));
            assert forall|a: int, b: int|
                0 <= a < entries@.len() && 0 <= b < entries@.len() && a != b implies #[trigger] entries@[a].0
                    != #[trigger] entries@[b].0 by {
                if a == index {
                    assert(old(self).spec_tiles()[b].0 != key);
                } else if b == index {
                    assert(old(self).spec_tiles()[a].0 != key);
                }
            }
        }
        self.tiles = entries;
        self.bytes = self.bytes.saturating_add(bytes);
        index
    }

    /// Evicts tiles that were not drawn in this frame, least recently used first, until the
    /// byte count is within the limit or only tiles of this frame remain.
    pub fn evict_old_tiles(&mut self)
        ensures
            final(self).spec_bytes() <= final(self).spec_max_bytes() || forall|k: int|
                0 <= k < final(self).spec_tiles().len() ==> (#[trigger] final(self).spec_tiles()[k]).1.last_used
                    == final(self).spec_frame(),
            forall|k: int|
                0 <= k < final(self).spec_tiles().len() ==> old(self).spec_tiles().contains(
                    #[trigger] final(self).spec_tiles()[k],
                ),
            forall|a: int|
                0 <= a < old(self).spec_tiles().len() && (#[trigger] old(self).spec_tiles()[a]).1.last_used
                    == old(self).spec_frame() ==> final(self).spec_tiles().contains(old(self).spec_tiles()[a]),
            forall|a: int, b: int|
                0 <= a < old(self).spec_tiles().len() && 0 <= b < final(self).spec_tiles().len()
                    && !final(self).spec_tiles().contains(#[trigger] old(self).spec_tiles()[a])
                    && (#[trigger] final(self).spec_tiles()[b]).1.last_used != final(self).spec_frame()
                    ==> old(self).spec_tiles()[a].1.last_used <= final(self).spec_tiles()[b].1.last_used,
            (exists|a: int|
                0 <= a < old(self).spec_tiles().len() && !final(self).spec_tiles().contains(
                    #[trigger] old(self).spec_tiles()[a],
                )) ==> exists|a: int|
                0 <= a < old(self).spec_tiles().len() && !final(self).spec_tiles().contains(
                    #[trigger] old(self).spec_tiles()[a],
                ) && final(self).spec_bytes() + old(self).spec_tiles()[a].1.bytes
                    > final(self).spec_max_bytes(),
            final(self).spec_bytes() <= old(self).spec_bytes(),
            old(self).counts_exactly() ==> final(self).counts_exactly(),
            final(self).spec_reduced() == old(self).spec_reduced(),
            final(self).spec_frame() == old(self).spec_frame(),
            final(self).spec_max_bytes() == old(self).spec_max_bytes(),
    {
        proof {
            use_type_invariant(&*self);
        }
        let ghost exact = old(self).counts_exactly();
        let ghost mut last: Option<int> = None;
        let ghost reduced_total = total_bytes(self.reduced@);
        let mut tiles: Vec<(TileKey, CacheEntry<T>)> = Vec::new();
        std::mem::swap(&mut tiles, &mut self.tiles);
        let ghost orig = tiles@;
        let frame = self.frame;
        let max_bytes = self.max_bytes;
        let mut bytes = self.bytes;
        let mut done = false;
        while !done && bytes > max_bytes
            invariant
                unique_keys(tiles@),
                done ==> forall|k: int| 0 <= k < tiles@.len() ==> (#[trigger] tiles@[k]).1.last_used == frame,
                forall|k: int| 0 <= k < tiles@.len() ==> orig.contains(#[trigger] tiles@[k]),
                forall|a: int|
                    0 <= a < orig.len() && (#[trigger] orig[a]).1.last_used == frame ==> tiles@.contains(orig[a]),
                forall|a: int, b: int|
                    0 <= a < orig.len() && 0 <= b < tiles@.len() && !tiles@.contains(#[trigger] orig[a])
                        && (#[trigger] tiles@[b]).1.last_used != frame ==> orig[a].1.last_used
                        <= tiles@[b].1.last_used,
                bytes <= old(self).spec_bytes(),
                exact ==> bytes == total_bytes(tiles@) + reduced_total,
                last is None ==> tiles@ == orig,
                last matches Some(a) ==> 0 <= a < orig.len() && !tiles@.contains(orig[a])
                    && bytes + orig[a].1.bytes > max_bytes,
            decreases tiles@.len() + (if done { 0int } else { 1int }),
        {
            match oldest_idle(&tiles, frame) {
                None => {
                    done = true;
                },
                Some(i) => {
                    let ghost before = tiles@;
                    let removed = tiles.remove(i);
                    proof {
                        lemma_total_remove(before, i as int);
                        lemma_remove_keeps_others(before, i as int);
                        assert forall|a: int, b: int|
                            0 <= a < orig.len() && 0 <= b < tiles@.len() && !tiles@.contains(#[trigger] orig[a])
                                && (#[trigger] tiles@[b]).1.last_used != frame implies orig[a].1.last_used
                                <= tiles@[b].1.last_used by {
                            let kb = if b < i { b } else { b + 1 };
                            assert(tiles@[b] == before[kb]);
                            if before.contains(orig[a]) {
                                let p = choose|p: int| 0 <= p < before.len() && before[p] == orig[a];
                                if p != i {
                                    assert(tiles@.contains(before[p]));
                                }
                            }
                        }
                        assert forall|a: int|
                            0 <= a < orig.len() && (#[trigger] orig[a]).1.last_used == frame implies tiles@.contains(orig[a]) by {
                            let p = choose|p: int| 0 <= p < before.len() && before[p] == orig[a];
                            assert(p != i);
                            assert(tiles@.contains(before[p]));
                        }
                        assert forall|k: int| 0 <= k < tiles@.len() implies orig.contains(#[trigger] tiles@[k]) by {
                            let kb = if k < i { k } else { k + 1 };
                            assert(tiles@[k] == before[kb]);
                        }
                    }
                    proof {
                        let a = choose|a: int| 0 <= a < orig.len() && orig[a] == before[i as int];
                        last = Some(a);
                    }
                    bytes = bytes.saturating_sub(removed.1.bytes);
                },
            }
        }
        proof {
            if last is None {
                assert forall|a: int| 0 <= a < orig.len() implies tiles@.contains(#[trigger] orig[a]) by {
                    assert(tiles@[a] == orig[a]);
                }
            }
        }
        self.tiles = tiles;
        self.bytes = bytes;
    }

    /// The position of tile `key`, if cached.
    pub fn find_tile(&self, key: TileKey) -> (found: Option<usize>)
        ensures
            found is None ==> !has_key(self.spec_tiles(), key),
            found matches Some(i) ==> i < self.spec_tiles().len() && self.spec_tiles()[i as int].0 == key,
    {
        let mut i: usize = 0;
        while i < self.tiles.len()
            invariant
                i <= self.tiles@.len(),
                forall|j: int| 0 <= j < i ==> (#[trigger] self.tiles@[j]).0 != key,
            decreases self.tiles@.len() - i,
        {
            if self.tiles[i].0 == key {
                return Some(i);
            }
            i = i + 1;
        }
        None
    }

    /// Draws tile `key`: reuses its texture or makes and counts a new one, marks it as drawn in
    /// this frame, evicts old tiles, and returns the tile's position.
    pub fn tile_with<F: FnOnce() -> (T, usize)>(&mut self, key: TileKey, make: F) -> (index: usize)
        requires
            make.requires(()),
        ensures
            index < final(self).spec_tiles().len(),
            final(self).spec_tiles()[index as int].0 == key,
            final(self).spec_tiles()[index as int].1.last_used == old(self).spec_frame(),
            has_key(old(self).spec_tiles(), key) ==> old(self).spec_tiles().contains(
                final(self).spec_tiles()[index as int],
            ) || exists|i: int|
                0 <= i < old(self).spec_tiles().len() && old(self).spec_tiles()[i].0 == key
                    && #[trigger] old(self).spec_tiles()[i].1.texture == final(self).spec_tiles()[index as int].1.texture,
            final(self).spec_bytes() <= final(self).spec_max_bytes() || forall|k: int|
                0 <= k < final(self).spec_tiles().len() ==> (#[trigger] final(self).spec_tiles()[k]).1.last_used
                    == final(self).spec_frame(),
            final(self).spec_reduced() == old(self).spec_reduced(),
            final(self).spec_frame() == old(self).spec_frame(),
            final(self).spec_max_bytes() == old(self).spec_max_bytes(),
            old(self).counts_exactly() && (has_key(old(self).spec_tiles(), key) || old(
                self,
            ).spec_bytes() + final(self).spec_tiles()[index as int].1.bytes <= usize::MAX)
                ==> final(self).counts_exactly(),
            !has_key(old(self).spec_tiles(), key) ==> make.ensures(
                (),
                (
                    final(self).spec_tiles()[index as int].1.texture,
                    final(self).spec_tiles()[index as int].1.bytes,
                ),
            ),
            forall|k: int|
                0 <= k < final(self).spec_tiles().len() && (#[trigger] final(self).spec_tiles()[k]).0
                    != key ==> old(self).spec_tiles().contains(final(self).spec_tiles()[k]),
            forall|a: int|
                0 <= a < old(self).spec_tiles().len() && (#[trigger] old(self).spec_tiles()[a]).0 != key
                    && old(self).spec_tiles()[a].1.last_used == old(self).spec_frame()
                    ==> final(self).spec_tiles().contains(old(self).spec_tiles()[a]),
            forall|a: int, b: int|
                0 <= a < old(self).spec_tiles().len() && 0 <= b < final(self).spec_tiles().len()
                    && old(self).spec_tiles()[a].0 != key && !final(self).spec_tiles().contains(
                    #[trigger] old(self).spec_tiles()[a],
                ) && (#[trigger] final(self).spec_tiles()[b]).1.last_used != final(self).spec_frame()
                    ==> old(self).spec_tiles()[a].1.last_used <= final(self).spec_tiles()[b].1.last_used,
            (exists|a: int|
                0 <= a < old(self).spec_tiles().len() && old(self).spec_tiles()[a].0 != key
                    && !final(self).spec_tiles().contains(#[trigger] old(self).spec_tiles()[a]))
                ==> exists|a: int|
                0 <= a < old(self).spec_tiles().len() && old(self).spec_tiles()[a].0 != key
                    && !final(self).spec_tiles().contains(#[trigger] old(self).spec_tiles()[a])
                    && final(self).spec_bytes() + old(self).spec_tiles()[a].1.bytes
                    > final(self).spec_max_bytes(),
    {
        let pos: usize = match self.use_tile(key) {
            Some(i) => {
                assert(old(self).spec_tiles()[i as int].0 == key);
                i
            },
            None => {
                let (texture, bytes) = make();
                let i = self.insert_tile(key, texture, bytes);
                assert(self.spec_tiles()[i as int].1.texture == texture);
                assert(self.spec_tiles()[i as int].1.bytes == bytes);
                i
            },
        };
        proof {
            use_type_invariant(&*self);
        }
        let ghost drawn = self.spec_tiles();
        assert(!has_key(old(self).spec_tiles(), key) ==> make.ensures(
            (),
            (drawn[pos as int].1.texture, drawn[pos as int].1.bytes),
        ));
        assert(drawn[pos as int].0 == key && drawn[pos as int].1.last_used == self.spec_frame());
        assert forall|p: int| 0 <= p < drawn.len() && (#[trigger] drawn[p]).0 != key implies old(
            self,
        ).spec_tiles().contains(drawn[p]) by {
            assert(p != pos);
            assert(drawn[p] == old(self).spec_tiles()[p]);
        }
        assert forall|a: int|
            0 <= a < old(self).spec_tiles().len() && (#[trigger] old(self).spec_tiles()[a]).0
                != key implies a < drawn.len() && drawn[a] == old(self).spec_tiles()[a] by {
            assert(a != pos);
        }
        self.evict_old_tiles();
        proof {
            use_type_invariant(&*self);
            assert(self.spec_tiles().contains(drawn[pos as int]));
            let fin = self.spec_tiles();
            let before = old(self).spec_tiles();
            assert forall|a: int|
                0 <= a < before.len() && (#[trigger] before[a]).0 != key && before[a].1.last_used
                    == old(self).spec_frame() implies fin.contains(before[a]) by {
                assert(drawn[a] == before[a]);
            }
            assert forall|a: int, b: int|
                0 <= a < before.len() && 0 <= b < fin.len() && before[a].0 != key && !fin.contains(
                    #[trigger] before[a],
                ) && (#[trigger] fin[b]).1.last_used != self.spec_frame() implies before[a].1.last_used
                <= fin[b].1.last_used by {
                assert(drawn[a] == before[a]);
            }
            if exists|a: int|
                0 <= a < before.len() && before[a].0 != key && !fin.contains(#[trigger] before[a]) {
                let a = choose|a: int|
                    0 <= a < before.len() && before[a].0 != key && !fin.contains(#[trigger] before[a]);
                assert(drawn[a] == before[a]);
                assert(exists|q: int| 0 <= q < drawn.len() && !fin.contains(#[trigger] drawn[q]));
                let c = choose|c: int|
                    0 <= c < drawn.len() && !fin.contains(#[trigger] drawn[c]) && self.spec_bytes()
                        + drawn[c].1.bytes > self.spec_max_bytes();
                assert(c != pos);
                assert(drawn[c].0 != key);
                let d = choose|d: int| 0 <= d < before.len() && before[d] == drawn[c];
                assert(before[d].0 != key && !fin.contains(before[d]));
            }
            assert forall|k: int|
                0 <= k < self.spec_tiles().len() && (#[trigger] self.spec_tiles()[k]).0 != key implies old(
                self,
            ).spec_tiles().contains(self.spec_tiles()[k]) by {
                let p = choose|p: int| 0 <= p < drawn.len() && drawn[p] == self.spec_tiles()[k];
                assert(drawn[p].0 != key);
            }
        }
        let ghost j = choose|j: int| 0 <= j < self.spec_tiles().len() && self.spec_tiles()[j] == drawn[pos as int];
        match self.find_tile(key) {
            Some(index) => {
                proof {
                    assert(self.spec_tiles()[j].0 == key);
                    assert(j == index);
                }
                index
            },
            None => {
                proof {
                    assert(self.spec_tiles()[j].0 == key);
                    assert(false);
                }
                0
            },
        }
    }
}

/// Removing position `i` keeps every other entry, in order, and only those.
proof fn lemma_remove_keeps_others<V>(entries: Seq<(TileKey, V)>, i: int)
    requires
        0 <= i < entries.len(),
        unique_keys(entries),
    ensures
        unique_keys(entries.remove(i)),
        forall|p: int| 0 <= p < entries.len() && p != i ==> entries.remove(i).contains(#[trigger] entries[p]),
        forall|k: int| 0 <= k < entries.remove(i).len() ==> #[trigger] entries.remove(i)[k] == entries[if k < i { k } else { k + 1 }],
        !entries.remove(i).contains(entries[i]),
{
    let rest = entries.remove(i);
    assert forall|p: int| 0 <= p < entries.len() && p != i implies rest.contains(#[trigger] entries[p]) by {
        let k = if p < i { p } else { p - 1 };
        assert(rest[k] == entries[p]);
    }
    if rest.contains(entries[i]) {
        let k = choose|k: int| 0 <= k < rest.len() && rest[k] == entries[i];
        let p = if k < i { k } else { k + 1 };
        assert(entries[p].0 == entries[i].0);
    }
    assert forall|a: int, b: int|
        0 <= a < rest.len() && 0 <= b < rest.len() && a != b implies #[trigger] rest[a].0 != #[trigger] rest[b].0 by {
        let pa = if a < i { a } else { a + 1 };
        let pb = if b < i { b } else { b + 1 };
        assert(rest[a] == entries[pa]);
        assert(rest[b] == entries[pb]);
    }
}

/// The first tile not drawn in `frame` with the oldest last use, if any.
fn oldest_idle<T>(tiles: &Vec<(TileKey, CacheEntry<T>)>, frame: u64) -> (found: Option<usize>)
    ensures
        found is None ==> forall|k: int| 0 <= k < tiles@.len() ==> (#[trigger] tiles@[k]).1.last_used == frame,
        found matches Some(i) ==> i < tiles@.len() && tiles@[i as int].1.last_used != frame && forall|k: int|
            0 <= k < tiles@.len() && (#[trigger] tiles@[k]).1.last_used != frame ==> tiles@[i as int].1.last_used
                <= tiles@[k].1.last_used,
{
    let mut best: Option<usize> = None;
    let mut k: usize = 0;
    while k < tiles.len()
        invariant
            k <= tiles@.len(),
            best is None ==> forall|j: int| 0 <= j < k ==> (#[trigger] tiles@[j]).1.last_used == frame,
            best matches Some(i) ==> i < k && tiles@[i as int].1.last_used != frame && forall|j: int|
                0 <= j < k && (#[trigger] tiles@[j]).1.last_used != frame ==> tiles@[i as int].1.last_used
                    <= tiles@[j].1.last_used,
        decreases tiles@.len() - k,
    {
        let used = tiles[k].1.last_used;
        if used != frame {
            match best {
                None => {
                    best = Some(k);
                },
                Some(i) => {
                    if used < tiles[i].1.last_used {
                        best = Some(k);
                    }
                },
            }
        }
        k = k + 1;
    }
    best
}

/// Which overview textures a pass keeps.
#[derive(Clone, Copy)]
pub enum ReducedFilter {
    /// Those of one document.
    Document(u64),
    /// All but the other revisions of the same document and variant.
    Current(ViewImageId),
}

pub open spec fn keeps(filter: ReducedFilter, key: ViewImageId) -> bool {
    match filter {
        ReducedFilter::Document(document) => key.document == document,
        ReducedFilter::Current(id) => !(key.document == id.document && key.variant == id.variant
            && key.revision != id.revision),
    }
}

fn filter_keeps(filter: ReducedFilter, key: &ViewImageId) -> (keep: bool)
    ensures
        keep == keeps(filter, *key),
{
    match filter {
        ReducedFilter::Document(document) => key.document == document,
        ReducedFilter::Current(id) => !(key.document == id.document && key.variant == id.variant
            && key.revision != id.revision),
    }
}

/// The entries that the filter keeps, and the byte count less the others' bytes.
fn retain_reduced<T>(
    entries: Vec<(ViewImageId, CacheEntry<T>)>,
    filter: ReducedFilter,
    bytes: usize,
    Ghost(other): Ghost<nat>,
) -> (kept: (Vec<(ViewImageId, CacheEntry<T>)>, usize))
    requires
        unique_keys(entries@),
    ensures
        unique_keys(kept.0@),
        forall|i: int| 0 <= i < kept.0@.len() ==> keeps(filter, (#[trigger] kept.0@[i]).0) && entries@.contains(kept.0@[i]),
        forall|i: int| 0 <= i < entries@.len() && keeps(filter, (#[trigger] entries@[i]).0) ==> kept.0@.contains(entries@[i]),
        kept.1 <= bytes,
        bytes == total_bytes(entries@) + other ==> kept.1 == total_bytes(kept.0@) + other,
{
    let ghost source = entries@;
    let mut rest = entries;
    let mut kept: Vec<(ViewImageId, CacheEntry<T>)> = Vec::new();
    let mut count = bytes;
    while rest.len() > 0
        invariant
            unique_keys(source),
            rest@ == source.subrange(0, rest@.len() as int),
            rest@.len() <= source.len(),
            forall|i: int| 0 <= i < kept@.len() ==> keeps(filter, (#[trigger] kept@[i]).0) && exists|j: int| rest@.len() <= j < source.len() && #[trigger] source[j] == kept@[i],
            forall|j: int| rest@.len() <= j < source.len() && keeps(filter, (#[trigger] source[j]).0) ==> kept@.contains(source[j]),
            unique_keys(kept@),
            count <= bytes,
            bytes == total_bytes(source) + other ==> count == total_bytes(rest@) + total_bytes(kept@)
                + other,
        decreases rest@.len(),
    {
        let ghost n = rest@.len() - 1;
        let ghost before = kept@;
        let ghost rest_before = rest@;
        let entry = rest.pop().unwrap();
        assert(entry == source[n]);
        assert(rest@ =~= rest_before.drop_last());
        assert(total_bytes(rest_before) == total_bytes(rest@) + entry.1.bytes);
        if filter_keeps(filter, &entry.0) {
            proof {
                lemma_total_push(before, entry);
            }
            proof {
                assert forall|i: int| 0 <= i < before.len() implies #[trigger] before[i].0 != entry.0 by {
                    let j = choose|j: int| n + 1 <= j < source.len() && #[trigger] source[j] == before[i];
                    assert(source[j].0 != source[n].0);
                }
            }
            kept.push(entry);
            proof {
                assert forall|i: int| 0 <= i < kept@.len() implies keeps(filter, (#[trigger] kept@[i]).0) && exists|j: int| n <= j < source.len() && #[trigger] source[j] == kept@[i] by {
                    if i < before.len() {
                        assert(kept@[i] == before[i]);
                    } else {
                        assert(source[n] == kept@[i]);
                    }
                }
                assert forall|j: int| n <= j < source.len() && keeps(filter, (#[trigger] source[j]).0) implies kept@.contains(source[j]) by {
                    if j == n {
                        assert(kept@[before.len() as int] == source[j]);
                    } else {
                        let i = choose|i: int| 0 <= i < before.len() && before[i] == source[j];
                        assert(kept@[i] == source[j]);
                    }
                }
            }
        } else {
            count = count.saturating_sub(entry.1.bytes);
        }
    }
    proof {
        assert(source.subrange(0, 0).len() == 0);
        assert forall|i: int| 0 <= i < kept@.len() implies source.contains(#[trigger] kept@[i]) by {
            let j = choose|j: int| 0 <= j < source.len() && #[trigger] source[j] == kept@[i];
        }
    }
    (kept, count)
}

/// The tiles of `document` among `entries`, and the byte count less the others' bytes.
fn retain_tiles<T>(
    entries: Vec<(TileKey, CacheEntry<T>)>,
    document: u64,
    bytes: usize,
    Ghost(other): Ghost<nat>,
) -> (kept: (Vec<(TileKey, CacheEntry<T>)>, usize))
    requires
        unique_keys(entries@),
    ensures
        unique_keys(kept.0@),
        forall|i: int| 0 <= i < kept.0@.len() ==> (#[trigger] kept.0@[i]).0.image.document == document && entries@.contains(kept.0@[i]),
        forall|i: int| 0 <= i < entries@.len() && (#[trigger] entries@[i]).0.image.document == document ==> kept.0@.contains(entries@[i]),
        kept.1 <= bytes,
        bytes == total_bytes(entries@) + other ==> kept.1 == total_bytes(kept.0@) + other,
{
    let ghost source = entries@;
    let mut rest = entries;
    let mut kept: Vec<(TileKey, CacheEntry<T>)> = Vec::new();
    let mut count = bytes;
    while rest.len() > 0
        invariant
            unique_keys(source),
            rest@ == source.subrange(0, rest@.len() as int),
            rest@.len() <= source.len(),
            forall|i: int| 0 <= i < kept@.len() ==> (#[trigger] kept@[i]).0.image.document == document && exists|j: int| rest@.len() <= j < source.len() && #[trigger] source[j] == kept@[i],
            forall|j: int| rest@.len() <= j < source.len() && (#[trigger] source[j]).0.image.document == document ==> kept@.contains(source[j]),
            unique_keys(kept@),
            count <= bytes,
            bytes == total_bytes(source) + other ==> count == total_bytes(rest@) + total_bytes(kept@)
                + other,
        decreases rest@.len(),
    {
        let ghost n = rest@.len() - 1;
        let ghost before = kept@;
        let ghost rest_before = rest@;
        let entry = rest.pop().unwrap();
        assert(entry == source[n]);
        assert(rest@ =~= rest_before.drop_last());
        assert(total_bytes(rest_before) == total_bytes(rest@) + entry.1.bytes);
        if entry.0.image.document == document {
            proof {
                lemma_total_push(before, entry);
            }
            proof {
                assert forall|i: int| 0 <= i < before.len() implies #[trigger] before[i].0 != entry.0 by {
                    let j = choose|j: int| n + 1 <= j < source.len() && #[trigger] source[j] == before[i];
                    assert(source[j].0 != source[n].0);
                }
            }
            kept.push(entry);
            proof {
                assert forall|i: int| 0 <= i < kept@.len() implies (#[trigger] kept@[i]).0.image.document == document && exists|j: int| n <= j < source.len() && #[trigger] source[j] == kept@[i] by {
                    if i < before.len() {
                        assert(kept@[i] == before[i]);
                    } else {
                        assert(source[n] == kept@[i]);
                    }
                }
                assert forall|j: int| n <= j < source.len() && (#[trigger] source[j]).0.image.document == document implies kept@.contains(source[j]) by {
                    if j == n {
                        assert(kept@[before.len() as int] == source[j]);
                    } else {
                        let i = choose|i: int| 0 <= i < before.len() && before[i] == source[j];
                        assert(kept@[i] == source[j]);
                    }
                }
            }
        } else {
            count = count.saturating_sub(entry.1.bytes);
        }
    }
    proof {
        assert forall|i: int| 0 <= i < kept@.len() implies source.contains(#[trigger] kept@[i]) by {
            let j = choose|j: int| 0 <= j < source.len() && #[trigger] source[j] == kept@[i];
        }
    }
    (kept, count)
}

} // verus!
