//! Streaming decisions: when a chunk-discovery pass may run (request
//! cooldown), which chunks a pass loads around the viewer, and the eviction
//! pass that runs every tick.

use vstd::prelude::*;
use crate::cache::WorldCache;
use crate::chunk::ChunkId;
use crate::fixed::Fx;
use crate::hex::{coord_in_bounds, coord_interior, hex_dist, range_seq, RADIUS_LIMIT};

verus! {

/// Bound on time values (in raw millionths of a second): about thirty years.
pub open spec fn time_wf(t: Fx) -> bool {
    -1_000_000_000_000_000 <= t.raw <= 1_000_000_000_000_000
}

/// Configuration of the chunk streaming policy.
pub struct StreamingConfig {
    pub view_radius: u32,
    pub unload_distance: u32,
    pub request_cooldown: Fx,
    pub last_request_time: Fx,
}

impl Default for StreamingConfig {
    /// One ring of view, two of retention, a half-second cooldown, and a
    /// last-request time far enough in the past that the first tick is
    /// eligible.
    fn default() -> (c: StreamingConfig)
        ensures
            c.view_radius == 1,
            c.unload_distance == 2,
            c.request_cooldown.raw == 500_000,
            c.last_request_time.raw == -999_000_000,
    {
        StreamingConfig {
            view_radius: 1,
            unload_distance: 2,
            request_cooldown: Fx { raw: 500_000 },
            last_request_time: Fx { raw: -999_000_000 },
        }
    }
}

impl StreamingConfig {
    /// Whether enough time has passed since the last discovery pass: the
    /// elapsed time since `last_request_time` has reached the cooldown.
    pub fn is_request_valid(&self, now: Fx) -> (r: bool)
        requires
            time_wf(now),
            time_wf(self.last_request_time),
            time_wf(self.request_cooldown),
        ensures
            r == (now.raw - self.last_request_time.raw >= self.request_cooldown.raw),
    {
        now.raw - self.last_request_time.raw >= self.request_cooldown.raw
    }

    /// Records the time of the discovery pass that just ran.
    pub fn update_request_time(&mut self, time: Fx)
        ensures
            final(self).last_request_time == time,
            final(self).view_radius == old(self).view_radius,
            final(self).unload_distance == old(self).unload_distance,
            final(self).request_cooldown == old(self).request_cooldown,
    {
        self.last_request_time = time;
    }
}

/// Whether a chunk lies in the view disk of the given center.
pub open spec fn chunk_in_view(center: ChunkId, view_radius: int, x: ChunkId) -> bool {
    x.size == center.size && range_seq(center.coord, view_radius).contains(x.coord)
}

/// One discovery pass: if the cooldown has elapsed, loads every chunk within
/// `view_radius` of `center` that is not already loaded, stamps the pass
/// time, and returns the chunks that were newly loaded; otherwise changes
/// nothing and returns the empty list.
pub fn request_chunks(
    cache: &mut WorldCache,
    config: &mut StreamingConfig,
    center: ChunkId,
    now: Fx,
) -> (out: Vec<ChunkId>)
    requires
        old(cache).wf(),
        coord_in_bounds(center.coord),
        coord_interior(center.coord),
        old(config).view_radius <= RADIUS_LIMIT,
        time_wf(now),
        time_wf(old(config).last_request_time),
        time_wf(old(config).request_cooldown),
    ensures
        final(cache).wf(),
        final(config).view_radius == old(config).view_radius,
        final(config).unload_distance == old(config).unload_distance,
        final(config).request_cooldown == old(config).request_cooldown,
        now.raw - old(config).last_request_time.raw < old(config).request_cooldown.raw ==> ({
            &&& final(cache).chunks@ == old(cache).chunks@
            &&& final(cache).requested_chunks@ == old(cache).requested_chunks@
            &&& final(cache).unload_chunks_request@ == old(cache).unload_chunks_request@
            &&& final(config).last_request_time == old(config).last_request_time
            &&& out@.len() == 0
        }),
        now.raw - old(config).last_request_time.raw >= old(config).request_cooldown.raw ==> ({
            &&& final(config).last_request_time == now
            &&& forall|x: ChunkId|
                final(cache).chunks@.contains(x) <==> (old(cache).chunks@.contains(x)
                    || chunk_in_view(center, old(config).view_radius as int, x))
            &&& forall|x: ChunkId|
                final(cache).requested_chunks@.contains(x) <==> (old(
                    cache,
                ).requested_chunks@.contains(x) && !chunk_in_view(
                    center,
                    old(config).view_radius as int,
                    x,
                ))
            &&& final(cache).unload_chunks_request@ == old(cache).unload_chunks_request@
            &&& forall|x: ChunkId|
                out@.contains(x) <==> (chunk_in_view(center, old(config).view_radius as int, x)
                    && !old(cache).chunks@.contains(x))
        }),
{
    let mut out: Vec<ChunkId> = Vec::new();
    if !config.is_request_valid(now) {
        return out;
    }
    let cells: Vec<ChunkId> = center.range(config.view_radius);
    let ghost vr = config.view_radius as int;
    proof {
        assert forall|x: ChunkId| chunk_in_view(center, vr, x) implies (exists|j: int|
            0 <= j < cells@.len() && cells@[j] == x) by {
            let k = choose|k: int|
                0 <= k < range_seq(center.coord, vr).len() && range_seq(center.coord, vr)[k]
                    == x.coord;
            assert(cells@[k] == x);
        }
        assert forall|j: int| 0 <= j < cells@.len() implies chunk_in_view(
            center,
            vr,
            #[trigger] cells@[j],
        ) by {
            assert(range_seq(center.coord, vr).contains(range_seq(center.coord, vr)[j]));
        }
        assert forall|j: int| 0 <= j < cells@.len() implies coord_in_bounds(
            (#[trigger] cells@[j]).coord,
        ) by {
            crate::hex::lemma_range_contains(center.coord, vr, cells@[j].coord);
            assert(range_seq(center.coord, vr).contains(cells@[j].coord));
            assert(hex_dist(center.coord, cells@[j].coord) <= vr);
        }
    }
    let mut i: usize = 0;
    while i < cells.len()
        invariant
            old(cache).wf(),
            cache.wf(),
            i <= cells@.len(),
            forall|j: int| 0 <= j < cells@.len() ==> coord_in_bounds((#[trigger] cells@[j]).coord),
            forall|x: ChunkId|
                cache.chunks@.contains(x) <==> (old(cache).chunks@.contains(x) || (exists|j: int|
                    0 <= j < i && cells@[j] == x)),
            forall|x: ChunkId|
                cache.requested_chunks@.contains(x) <==> (old(cache).requested_chunks@.contains(x)
                    && !(exists|j: int| 0 <= j < i && cells@[j] == x)),
            cache.unload_chunks_request@ == old(cache).unload_chunks_request@,
            forall|x: ChunkId|
                out@.contains(x) <==> ((exists|j: int| 0 <= j < i && cells@[j] == x) && !old(
                    cache,
                ).chunks@.contains(x)),
        decreases cells@.len() - i,
    {
        let c: ChunkId = cells[i];
        let ghost pre_chunks = cache.chunks@;
        let ghost pre_requested = cache.requested_chunks@;
        let ghost pre_out = out@;
        if !cache.is_loaded(&c) {
            cache.insert_chunk(c);
            out.push(c);
            proof {
                assert(out@[out@.len() - 1] == c);
                assert(!pre_chunks.contains(c));
                assert(!old(cache).chunks@.contains(c));
                assert(cells@[i as int] == c);
                assert forall|x: ChunkId| #[trigger] out@.contains(x) implies ((exists|j: int|
                    0 <= j < i + 1 && cells@[j] == x) && !old(cache).chunks@.contains(x)) by {
                    let k = choose|k: int| 0 <= k < out@.len() && out@[k] == x;
                    if k < out@.len() - 1 {
                        assert(pre_out[k] == x);
                        assert(pre_out.contains(x));
                        let j = choose|j: int| 0 <= j < i && cells@[j] == x;
                        assert(0 <= j < i + 1 && cells@[j] == x);
                    } else {
                        assert(x == c);
                    }
                }
                assert forall|x: ChunkId|
                    ((exists|j: int| 0 <= j < i + 1 && cells@[j] == x) && !old(
                        cache,
                    ).chunks@.contains(x)) implies #[trigger] out@.contains(x) by {
                    let j = choose|j: int| 0 <= j < i + 1 && cells@[j] == x;
                    if j < i {
                        assert(pre_out.contains(x));
                        let k = choose|k: int| 0 <= k < pre_out.len() && pre_out[k] == x;
                        assert(out@[k] == x);
                    } else {
                        assert(x == c);
                        assert(out@[out@.len() - 1] == x);
                    }
                }
            }
        } else {
            proof {
                assert(cache.chunks@.contains(c));
                assert(cells@[i as int] == c);
                assert forall|x: ChunkId|
                    ((exists|j: int| 0 <= j < i + 1 && cells@[j] == x) && !old(
                        cache,
                    ).chunks@.contains(x)) implies #[trigger] out@.contains(x) by {
                    let j = choose|j: int| 0 <= j < i + 1 && cells@[j] == x;
                    if j < i {
                    } else {
                        assert(x == c);
                        assert(cache.chunks@.contains(x) && !old(cache).chunks@.contains(x));
                        assert(exists|jj: int| 0 <= jj < i && cells@[jj] == x);
                    }
                }
                assert forall|x: ChunkId| #[trigger] out@.contains(x) implies ((exists|j: int|
                    0 <= j < i + 1 && cells@[j] == x) && !old(cache).chunks@.contains(x)) by {
                    let j = choose|j: int| 0 <= j < i && cells@[j] == x;
                    assert(0 <= j < i + 1 && cells@[j] == x);
                }
            }
        }
        proof {
            assert(cells@[i as int] == c);
            assert forall|x: ChunkId|
                cache.chunks@.contains(x) <==> (old(cache).chunks@.contains(x) || (exists|j: int|
                    0 <= j < i + 1 && cells@[j] == x)) by {
                if cache.chunks@.contains(x) {
                    if pre_chunks.contains(x) {
                    } else {
                        assert(x == c);
                    }
                }
                if old(cache).chunks@.contains(x) {
                    assert(pre_chunks.contains(x));
                }
                if exists|j: int| 0 <= j < i + 1 && cells@[j] == x {
                    let j = choose|j: int| 0 <= j < i + 1 && cells@[j] == x;
                    if j < i {
                        assert(pre_chunks.contains(x));
                    } else {
                        assert(x == c);
                    }
                }
            }
        }
        i = i + 1;
    }
    proof {
        assert forall|x: ChunkId| (exists|j: int| 0 <= j < cells@.len() && cells@[j] == x)
            implies chunk_in_view(center, vr, x) by {
            let j = choose|j: int| 0 <= j < cells@.len() && cells@[j] == x;
        }
    }
    config.update_request_time(now);
    out
}

/// One eviction pass: evicts every loaded chunk beyond the configured unload
/// distance (plus one ring of hysteresis) from `center`, returning exactly
/// the chunks this pass removed, for the collaborator to despawn.
pub fn unload_distant_chunks(
    cache: &mut WorldCache,
    config: &StreamingConfig,
    center: ChunkId,
) -> (out: Vec<ChunkId>)
    requires
        old(cache).wf(),
        coord_in_bounds(center.coord),
        config.unload_distance < 0xffff_ffff,
    ensures
        final(cache).wf(),
        final(cache).requested_chunks@ == old(cache).requested_chunks@,
        forall|x: ChunkId|
            final(cache).chunks@.contains(x) <==> (old(cache).chunks@.contains(x) && hex_dist(
                x.coord,
                center.coord,
            ) <= config.unload_distance + 1),
        forall|x: ChunkId|
            final(cache).unload_chunks_request@.contains(x) <==> (old(
                cache,
            ).unload_chunks_request@.contains(x) || (old(cache).chunks@.contains(x) && hex_dist(
                x.coord,
                center.coord,
            ) > config.unload_distance + 1)),
        forall|x: ChunkId|
            out@.contains(x) <==> (old(cache).chunks@.contains(x) && hex_dist(
                x.coord,
                center.coord,
            ) > config.unload_distance + 1),
        crate::cache::distinct_ids(out@),
{
    cache.unload_distant(center, config.unload_distance)
}

} // verus!
