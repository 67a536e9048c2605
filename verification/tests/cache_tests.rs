//! The world chunk cache and the streaming decisions.

use hexterra::cache::WorldCache;
use hexterra::chunk::ChunkId;
use hexterra::fixed::Fx;
use hexterra::hex::HexCoord;
use hexterra::streaming::{request_chunks, unload_distant_chunks, StreamingConfig};

fn chunk(q: i32, r: i32) -> ChunkId {
    ChunkId::new(HexCoord::new(q, r), 8)
}

#[test]
fn insert_then_loaded() {
    let mut cache = WorldCache::new();
    let c = chunk(1, 2);
    assert!(!cache.is_loaded(&c));
    cache.insert_chunk(c);
    assert!(cache.is_loaded(&c));
    assert!(!cache.is_requested(&c));
}

#[test]
fn insert_clears_requested_flag() {
    let mut cache = WorldCache::new();
    let c = chunk(0, 0);
    cache.mark_requested(c);
    assert!(cache.is_requested(&c));
    cache.insert_chunk(c);
    assert!(cache.is_loaded(&c));
    assert!(!cache.is_requested(&c));
}

#[test]
fn mark_requested_ignores_loaded_chunks() {
    let mut cache = WorldCache::new();
    let c = chunk(3, 3);
    cache.insert_chunk(c);
    cache.mark_requested(c);
    assert!(cache.is_loaded(&c));
    assert!(!cache.is_requested(&c));
}

#[test]
fn unload_distant_keeps_hysteresis_ring() {
    // Chunks at distances 0, 1, 2, 3 from the center; with a maximum
    // distance of 1, everything within distance 2 stays (one ring of
    // hysteresis) and the chunk at distance 3 is removed and reported.
    let mut cache = WorldCache::new();
    let center = chunk(0, 0);
    let d0 = chunk(0, 0);
    let d1 = chunk(1, 0);
    let d2 = chunk(2, 0);
    let d3 = chunk(3, 0);
    cache.insert_chunk(d0);
    cache.insert_chunk(d1);
    cache.insert_chunk(d2);
    cache.insert_chunk(d3);
    let removed = cache.unload_distant(center, 1);
    assert!(cache.is_loaded(&d0));
    assert!(cache.is_loaded(&d1));
    assert!(cache.is_loaded(&d2));
    assert!(!cache.is_loaded(&d3));
    assert_eq!(removed.len(), 1);
    assert_eq!(removed[0], d3);
}

#[test]
fn unload_distant_returns_only_this_pass_and_pending_accumulates() {
    let mut cache = WorldCache::new();
    let center = chunk(0, 0);
    let far = chunk(5, 0);
    cache.insert_chunk(far);
    let removed = cache.unload_distant(center, 1);
    assert_eq!(removed, vec![far]);
    // The eviction is still pending; a pass that removes nothing returns
    // nothing, even before the collaborator acknowledges.
    let removed_again = cache.unload_distant(center, 1);
    assert_eq!(removed_again.len(), 0);
    assert_eq!(cache.unload_chunks_request.len(), 1);
    cache.unload_chunk(far);
    assert_eq!(cache.unload_chunks_request.len(), 0);
}

#[test]
fn request_cooldown_gates_discovery() {
    // With a half-second cooldown and the last pass at time zero, a tick
    // at 0.3 seconds must not trigger a pass; one at 0.6 seconds must.
    let mut config = StreamingConfig::default();
    config.request_cooldown = Fx { raw: 500_000 };
    config.last_request_time = Fx { raw: 0 };
    assert!(!config.is_request_valid(Fx { raw: 300_000 }));
    assert!(config.is_request_valid(Fx { raw: 600_000 }));
}

#[test]
fn streaming_defaults() {
    let config = StreamingConfig::default();
    assert_eq!(config.view_radius, 1);
    assert_eq!(config.unload_distance, 2);
    assert_eq!(config.request_cooldown.raw, 500_000);
}

#[test]
fn request_chunks_loads_the_view_disk_once_eligible() {
    let mut cache = WorldCache::new();
    let mut config = StreamingConfig::default();
    config.request_cooldown = Fx { raw: 500_000 };
    config.last_request_time = Fx { raw: 0 };
    let center = chunk(0, 0);

    // Not eligible yet: nothing changes.
    let loaded = request_chunks(&mut cache, &mut config, center, Fx { raw: 300_000 });
    assert_eq!(loaded.len(), 0);
    assert!(!cache.is_loaded(&center));

    // Eligible: the whole disk of radius 1 loads (7 chunks).
    let loaded = request_chunks(&mut cache, &mut config, center, Fx { raw: 600_000 });
    assert_eq!(loaded.len(), 7);
    assert!(cache.is_loaded(&center));
    assert_eq!(config.last_request_time.raw, 600_000);

    // A second eligible pass finds everything already loaded.
    let loaded = request_chunks(&mut cache, &mut config, center, Fx { raw: 1_200_000 });
    assert_eq!(loaded.len(), 0);
}

#[test]
fn eviction_pass_uses_configured_distance() {
    let mut cache = WorldCache::new();
    let config = StreamingConfig::default();
    let center = chunk(0, 0);
    cache.insert_chunk(chunk(3, 0));
    cache.insert_chunk(chunk(4, 0));
    let removed = unload_distant_chunks(&mut cache, &config, center);
    // unload_distance 2 plus one ring of hysteresis keeps distance 3.
    assert!(cache.is_loaded(&chunk(3, 0)));
    assert!(!cache.is_loaded(&chunk(4, 0)));
    assert_eq!(removed, vec![chunk(4, 0)]);
}
