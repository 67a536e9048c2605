//! The world chunk cache: which chunks are loaded, which have been requested,
//! and which are waiting to be despawned.  A chunk id is tracked in at most
//! one of the loaded and requested sets; the pending-unload set accumulates
//! evicted chunks until the collaborator acknowledges them.

use vstd::prelude::*;
use crate::chunk::ChunkId;
use crate::hex::{coord_in_bounds, hex_dist};

verus! {

/// No chunk id occurs twice in the sequence.
pub open spec fn distinct_ids(s: Seq<ChunkId>) -> bool {
    forall|i: int, j: int| 0 <= i < j < s.len() ==> s[i] != s[j]
}

/// Every tracked coordinate stays in the working range.
pub open spec fn ids_in_bounds(s: Seq<ChunkId>) -> bool {
    forall|i: int| 0 <= i < s.len() ==> coord_in_bounds(#[trigger] s[i].coord)
}

/// Tracks loaded, requested and pending-unload chunks.
pub struct WorldCache {
    pub chunks: Vec<ChunkId>,
    pub requested_chunks: Vec<ChunkId>,
    pub unload_chunks_request: Vec<ChunkId>,
}

impl WorldCache {
    /// Cache well-formedness: each set is duplicate-free, a chunk is never
    /// both loaded and requested, and all coordinates are in range.
    pub open spec fn wf(self) -> bool {
        &&& distinct_ids(self.chunks@)
        &&& distinct_ids(self.requested_chunks@)
        &&& distinct_ids(self.unload_chunks_request@)
        &&& forall|x: ChunkId|
            !(self.chunks@.contains(x) && self.requested_chunks@.contains(x))
        &&& ids_in_bounds(self.chunks@)
        &&& ids_in_bounds(self.requested_chunks@)
        &&& ids_in_bounds(self.unload_chunks_request@)
    }

    /// An empty cache.
    pub fn new() -> (c: WorldCache)
        ensures
            c.wf(),
            c.chunks@.len() == 0,
            c.requested_chunks@.len() == 0,
            c.unload_chunks_request@.len() == 0,
    {
        WorldCache { chunks: Vec::new(), requested_chunks: Vec::new(), unload_chunks_request: Vec::new() }
    }

    /// Whether the chunk is loaded.
    pub fn is_loaded(&self, chunk_id: &ChunkId) -> (r: bool)
        ensures
            r == self.chunks@.contains(*chunk_id),
    {
        contains_id(&self.chunks, chunk_id)
    }

    /// Whether the chunk has been requested and not yet loaded.
    pub fn is_requested(&self, chunk_id: &ChunkId) -> (r: bool)
        ensures
            r == self.requested_chunks@.contains(*chunk_id),
    {
        contains_id(&self.requested_chunks, chunk_id)
    }

    /// Promotes a chunk to loaded, clearing any requested flag it held.
    pub fn insert_chunk(&mut self, chunk_id: ChunkId)
        requires
            old(self).wf(),
            coord_in_bounds(chunk_id.coord),
        ensures
            final(self).wf(),
            forall|x: ChunkId|
                final(self).chunks@.contains(x) <==> (old(self).chunks@.contains(x) || x
                    == chunk_id),
            forall|x: ChunkId|
                final(self).requested_chunks@.contains(x) <==> (old(
                    self,
                ).requested_chunks@.contains(x) && x != chunk_id),
            final(self).unload_chunks_request@ == old(self).unload_chunks_request@,
    {
        if !contains_id(&self.chunks, &chunk_id) {
            self.chunks.push(chunk_id);
            assert(forall|x: ChunkId|
                self.chunks@.contains(x) <==> (old(self).chunks@.contains(x) || x == chunk_id)) by {
                assert(forall|x: ChunkId|
                    old(self).chunks@.contains(x) ==> self.chunks@.contains(x)) by {
                    assert(forall|i: int|
                        0 <= i < old(self).chunks@.len() ==> self.chunks@[i] == old(
                            self,
                        ).chunks@[i]);
                }
                assert(self.chunks@[self.chunks@.len() - 1] == chunk_id);
            }
        }
        let kept: Vec<ChunkId> = remove_id(&self.requested_chunks, &chunk_id);
        self.requested_chunks = kept;
    }

    /// Marks an untracked chunk as requested; a loaded or already requested
    /// chunk is left as it is.
    pub fn mark_requested(&mut self, chunk_id: ChunkId)
        requires
            old(self).wf(),
            coord_in_bounds(chunk_id.coord),
        ensures
            final(self).wf(),
            final(self).chunks@ == old(self).chunks@,
            final(self).unload_chunks_request@ == old(self).unload_chunks_request@,
            forall|x: ChunkId|
                final(self).requested_chunks@.contains(x) <==> (old(
                    self,
                ).requested_chunks@.contains(x) || (x == chunk_id && !old(self).chunks@.contains(
                    chunk_id,
                ))),
    {
        if !contains_id(&self.chunks, &chunk_id) && !contains_id(&self.requested_chunks, &chunk_id) {
            self.requested_chunks.push(chunk_id);
            assert(self.requested_chunks@[self.requested_chunks@.len() - 1] == chunk_id);
            assert(forall|i: int|
                0 <= i < old(self).requested_chunks@.len() ==> self.requested_chunks@[i] == old(
                    self,
                ).requested_chunks@[i]);
        }
    }

    /// Evicts every loaded chunk farther than `max_distance + 1` from
    /// `center` (one ring of hysteresis), adds the evicted chunks to the
    /// pending-unload set, and returns exactly the chunks this call
    /// removed, for the collaborator to despawn.
    pub fn unload_distant(&mut self, center: ChunkId, max_distance: u32) -> (out: Vec<ChunkId>)
        requires
            old(self).wf(),
            coord_in_bounds(center.coord),
            max_distance < 0xffff_ffff,
        ensures
            final(self).wf(),
            final(self).requested_chunks@ == old(self).requested_chunks@,
            forall|x: ChunkId|
                final(self).chunks@.contains(x) <==> (old(self).chunks@.contains(x) && hex_dist(
                    x.coord,
                    center.coord,
                ) <= max_distance + 1),
            forall|x: ChunkId|
                final(self).unload_chunks_request@.contains(x) <==> (old(
                self,
                ).unload_chunks_request@.contains(x) || (old(self).chunks@.contains(x) && hex_dist(
                    x.coord,
                    center.coord,
                ) > max_distance + 1)),
            forall|x: ChunkId|
                out@.contains(x) <==> (old(self).chunks@.contains(x) && hex_dist(
                    x.coord,
                    center.coord,
                ) > max_distance + 1),
            distinct_ids(out@),
    {
        let limit: u32 = max_distance + 1;
        let ghost orig = old(self).chunks@;
        let mut kept: Vec<ChunkId> = Vec::new();
        let mut removed: Vec<ChunkId> = Vec::new();
        let mut i: usize = 0;
        while i < self.chunks.len()
            invariant
                old(self).wf(),
                coord_in_bounds(center.coord),
                self.chunks@ == old(self).chunks@,
                orig == old(self).chunks@,
                self.requested_chunks@ == old(self).requested_chunks@,
                i <= self.chunks@.len(),
                limit == max_distance + 1,
                distinct_ids(kept@),
                ids_in_bounds(kept@),
                distinct_ids(removed@),
                ids_in_bounds(removed@),
                distinct_ids(self.unload_chunks_request@),
                ids_in_bounds(self.unload_chunks_request@),
                forall|k: int|
                    0 <= k < kept@.len() ==> exists|j: int| 0 <= j < i && orig[j] == #[trigger] kept@[k],
                forall|x: ChunkId|
                    #[trigger] kept@.contains(x) ==> hex_dist(x.coord, center.coord) <= limit,
                forall|j: int|
                    0 <= j < i && hex_dist(#[trigger] orig[j].coord, center.coord) <= limit
                        ==> kept@.contains(orig[j]),
                forall|k: int|
                    0 <= k < removed@.len() ==> exists|j: int|
                        0 <= j < i && orig[j] == #[trigger] removed@[k],
                forall|x: ChunkId|
                    #[trigger] removed@.contains(x) ==> hex_dist(x.coord, center.coord) > limit,
                forall|j: int|
                    0 <= j < i && hex_dist(#[trigger] orig[j].coord, center.coord) > limit
                        ==> removed@.contains(orig[j]),
                forall|x: ChunkId|
                    self.unload_chunks_request@.contains(x) ==> (old(
                    self,
                    ).unload_chunks_request@.contains(x) || (orig.contains(x) && hex_dist(
                        x.coord,
                        center.coord,
                    ) > limit)),
                forall|x: ChunkId|
                    old(self).unload_chunks_request@.contains(x)
                        ==> self.unload_chunks_request@.contains(x),
                forall|j: int|
                    0 <= j < i && hex_dist(#[trigger] orig[j].coord, center.coord) > limit
                        ==> self.unload_chunks_request@.contains(orig[j]),
            decreases self.chunks@.len() - i,
        {
            let c: ChunkId = self.chunks[i];
            assert(orig[i as int] == c);
            assert(orig.contains(c));
            if c.distance(&center) <= limit {
                assert(!kept@.contains(c)) by {
                    if kept@.contains(c) {
                        let k = choose|k: int| 0 <= k < kept@.len() && kept@[k] == c;
                        let j = choose|j: int| 0 <= j < i && orig[j] == kept@[k];
                        assert(orig[j] == orig[i as int]);
                    }
                }
                let ghost prev = kept@;
                kept.push(c);
                assert(kept@[kept@.len() - 1] == c);
                assert(forall|k: int| 0 <= k < prev.len() ==> kept@[k] == prev[k]);
                assert forall|x: ChunkId| #[trigger] kept@.contains(x) implies hex_dist(
                    x.coord,
                    center.coord,
                ) <= limit by {
                    let k = choose|k: int| 0 <= k < kept@.len() && kept@[k] == x;
                    if k < kept@.len() - 1 {
                        assert(prev[k] == x);
                        assert(prev.contains(x));
                    }
                }
                assert(forall|k: int|
                    0 <= k < kept@.len() ==> exists|j: int|
                        0 <= j < i + 1 && orig[j] == #[trigger] kept@[k]) by {
                    assert forall|k: int| 0 <= k < kept@.len() implies exists|j: int|
                        0 <= j < i + 1 && orig[j] == #[trigger] kept@[k] by {
                        if k < kept@.len() - 1 {
                            let j = choose|j: int| 0 <= j < i && orig[j] == prev[k];
                            assert(orig[j] == kept@[k]);
                        } else {
                            assert(orig[i as int] == kept@[k]);
                        }
                    }
                }
            } else {
                assert(!removed@.contains(c)) by {
                    if removed@.contains(c) {
                        let k = choose|k: int| 0 <= k < removed@.len() && removed@[k] == c;
                        let j = choose|j: int| 0 <= j < i && orig[j] == removed@[k];
                        assert(orig[j] == orig[i as int]);
                    }
                }
                let ghost prevr = removed@;
                removed.push(c);
                assert(removed@[removed@.len() - 1] == c);
                assert(forall|k: int| 0 <= k < prevr.len() ==> removed@[k] == prevr[k]);
                assert forall|x: ChunkId| #[trigger] removed@.contains(x) implies hex_dist(
                    x.coord,
                    center.coord,
                ) > limit by {
                    let k = choose|k: int| 0 <= k < removed@.len() && removed@[k] == x;
                    if k < removed@.len() - 1 {
                        assert(prevr[k] == x);
                        assert(prevr.contains(x));
                    }
                }
                assert(forall|k: int|
                    0 <= k < removed@.len() ==> exists|j: int|
                        0 <= j < i + 1 && orig[j] == #[trigger] removed@[k]) by {
                    assert forall|k: int| 0 <= k < removed@.len() implies exists|j: int|
                        0 <= j < i + 1 && orig[j] == #[trigger] removed@[k] by {
                        if k < removed@.len() - 1 {
                            let j = choose|j: int| 0 <= j < i && orig[j] == prevr[k];
                            assert(orig[j] == removed@[k]);
                        } else {
                            assert(orig[i as int] == removed@[k]);
                        }
                    }
                }
                if !contains_id(&self.unload_chunks_request, &c) {
                    let ghost before = self.unload_chunks_request@;
                    self.unload_chunks_request.push(c);
                    assert(self.unload_chunks_request@[self.unload_chunks_request@.len() - 1] == c);
                    assert(forall|k: int|
                        0 <= k < before.len() ==> self.unload_chunks_request@[k] == before[k]);
                    assert(forall|x: ChunkId|
                        before.contains(x) ==> self.unload_chunks_request@.contains(x)) by {
                        assert forall|x: ChunkId| before.contains(x)
                            implies self.unload_chunks_request@.contains(x) by {
                            let k = choose|k: int| 0 <= k < before.len() && before[k] == x;
                            assert(self.unload_chunks_request@[k] == x);
                        }
                    }
                    assert(distinct_ids(self.unload_chunks_request@)) by {
                        assert forall|a: int, b: int|
                            0 <= a < b < self.unload_chunks_request@.len()
                            implies self.unload_chunks_request@[a]
                            != self.unload_chunks_request@[b] by {
                            if b == self.unload_chunks_request@.len() - 1 {
                                assert(before[a] == self.unload_chunks_request@[a]);
                                assert(before.contains(before[a]));
                            }
                        }
                    }
                }
            }
            i = i + 1;
        }
        assert(forall|x: ChunkId|
            kept@.contains(x) ==> (orig.contains(x) && hex_dist(x.coord, center.coord)
                <= max_distance + 1)) by {
            assert forall|x: ChunkId| kept@.contains(x) implies (orig.contains(x) && hex_dist(
                x.coord,
                center.coord,
            ) <= max_distance + 1) by {
                let k = choose|k: int| 0 <= k < kept@.len() && kept@[k] == x;
                let j = choose|j: int| 0 <= j < orig.len() && orig[j] == kept@[k];
                assert(orig.contains(orig[j]));
            }
        }
        assert(forall|x: ChunkId|
            orig.contains(x) && hex_dist(x.coord, center.coord) <= max_distance + 1
                ==> kept@.contains(x)) by {
            assert forall|x: ChunkId|
                orig.contains(x) && hex_dist(x.coord, center.coord) <= max_distance + 1
                implies kept@.contains(x) by {
                let j = choose|j: int| 0 <= j < orig.len() && orig[j] == x;
            }
        }
        assert(forall|x: ChunkId|
            removed@.contains(x) ==> (orig.contains(x) && hex_dist(x.coord, center.coord)
                > max_distance + 1)) by {
            assert forall|x: ChunkId| removed@.contains(x) implies (orig.contains(x) && hex_dist(
                x.coord,
                center.coord,
            ) > max_distance + 1) by {
                let k = choose|k: int| 0 <= k < removed@.len() && removed@[k] == x;
                let j = choose|j: int| 0 <= j < orig.len() && orig[j] == removed@[k];
                assert(orig.contains(orig[j]));
            }
        }
        assert(forall|x: ChunkId|
            orig.contains(x) && hex_dist(x.coord, center.coord) > max_distance + 1
                ==> removed@.contains(x)) by {
            assert forall|x: ChunkId|
                orig.contains(x) && hex_dist(x.coord, center.coord) > max_distance + 1
                implies removed@.contains(x) by {
                let j = choose|j: int| 0 <= j < orig.len() && orig[j] == x;
            }
        }
        assert(forall|x: ChunkId|
            (orig.contains(x) && hex_dist(x.coord, center.coord) > max_distance + 1)
                ==> self.unload_chunks_request@.contains(x)) by {
            assert forall|x: ChunkId|
                orig.contains(x) && hex_dist(x.coord, center.coord) > max_distance + 1
                implies self.unload_chunks_request@.contains(x) by {
                let j = choose|j: int| 0 <= j < orig.len() && orig[j] == x;
            }
        }
        self.chunks = kept;
        assert(forall|x: ChunkId|
            !(self.chunks@.contains(x) && self.requested_chunks@.contains(x))) by {
            assert forall|x: ChunkId| self.chunks@.contains(x)
                implies !self.requested_chunks@.contains(x) by {
                assert(orig.contains(x));
            }
        }
        removed
    }

    /// Acknowledges one pending unload, removing it from the pending set.
    pub fn unload_chunk(&mut self, chunk_id: ChunkId)
        requires
            old(self).wf(),
        ensures
            final(self).wf(),
            final(self).chunks@ == old(self).chunks@,
            final(self).requested_chunks@ == old(self).requested_chunks@,
            forall|x: ChunkId|
                final(self).unload_chunks_request@.contains(x) <==> (old(
                    self,
                ).unload_chunks_request@.contains(x) && x != chunk_id),
    {
        let kept: Vec<ChunkId> = remove_id(&self.unload_chunks_request, &chunk_id);
        self.unload_chunks_request = kept;
    }
}

/// Linear scan for a chunk id.
pub fn contains_id(v: &Vec<ChunkId>, id: &ChunkId) -> (r: bool)
    ensures
        r == v@.contains(*id),
{
    let mut i: usize = 0;
    while i < v.len()
        invariant
            i <= v@.len(),
            forall|j: int| 0 <= j < i ==> v@[j] != *id,
        decreases v@.len() - i,
    {
        if v[i].coord.q == id.coord.q && v[i].coord.r == id.coord.r && v[i].size == id.size {
            assert(v@[i as int] == *id);
            return true;
        }
        i = i + 1;
    }
    false
}

/// A copy of the vector with every occurrence of `id` removed; order and
/// multiplicity of the other elements are preserved.
fn remove_id(v: &Vec<ChunkId>, id: &ChunkId) -> (out: Vec<ChunkId>)
    requires
        distinct_ids(v@),
        ids_in_bounds(v@),
    ensures
        distinct_ids(out@),
        ids_in_bounds(out@),
        forall|x: ChunkId| out@.contains(x) <==> (v@.contains(x) && x != *id),
{
    let mut out: Vec<ChunkId> = Vec::new();
    let mut i: usize = 0;
    while i < v.len()
        invariant
            distinct_ids(v@),
            ids_in_bounds(v@),
            i <= v@.len(),
            distinct_ids(out@),
            ids_in_bounds(out@),
            forall|k: int| 0 <= k < out@.len() ==> exists|j: int| 0 <= j < i && v@[j] == #[trigger] out@[k],
            forall|x: ChunkId| #[trigger] out@.contains(x) ==> x != *id,
            forall|j: int| 0 <= j < i && #[trigger] v@[j] != *id ==> out@.contains(v@[j]),
        decreases v@.len() - i,
    {
        let c: ChunkId = v[i];
        if !(c.coord.q == id.coord.q && c.coord.r == id.coord.r && c.size == id.size) {
            assert(c != *id);
            assert(!out@.contains(c)) by {
                if out@.contains(c) {
                    let k = choose|k: int| 0 <= k < out@.len() && out@[k] == c;
                    let j = choose|j: int| 0 <= j < i && v@[j] == out@[k];
                    assert(v@[j] == v@[i as int]);
                }
            }
            let ghost prev = out@;
            out.push(c);
            assert(out@[out@.len() - 1] == c);
            assert(forall|k: int| 0 <= k < prev.len() ==> out@[k] == prev[k]);
            assert forall|x: ChunkId| #[trigger] out@.contains(x) implies x != *id by {
                let k = choose|k: int| 0 <= k < out@.len() && out@[k] == x;
                if k < out@.len() - 1 {
                    assert(prev[k] == x);
                    assert(prev.contains(x));
                }
            }
            assert(forall|k: int|
                0 <= k < out@.len() ==> exists|j: int| 0 <= j < i + 1 && v@[j] == #[trigger] out@[k]) by {
                assert forall|k: int| 0 <= k < out@.len() implies exists|j: int|
                    0 <= j < i + 1 && v@[j] == #[trigger] out@[k] by {
                    if k < out@.len() - 1 {
                        let j = choose|j: int| 0 <= j < i && v@[j] == prev[k];
                        assert(v@[j] == out@[k]);
                    } else {
                        assert(v@[i as int] == out@[k]);
                    }
                }
            }
        }
        i = i + 1;
    }
    assert(forall|x: ChunkId| out@.contains(x) ==> v@.contains(x)) by {
        assert forall|x: ChunkId| out@.contains(x) implies v@.contains(x) by {
            let k = choose|k: int| 0 <= k < out@.len() && out@[k] == x;
            let j = choose|j: int| 0 <= j < v@.len() && v@[j] == out@[k];
            assert(v@.contains(v@[j]));
        }
    }
    assert(forall|x: ChunkId| v@.contains(x) && x != *id ==> out@.contains(x)) by {
        assert forall|x: ChunkId| v@.contains(x) && x != *id implies out@.contains(x) by {
            let j = choose|j: int| 0 <= j < v@.len() && v@[j] == x;
        }
    }
    out
}

} // verus!
