//! Hex addressing: neighbors, rings, disks, lines and resolution change.

use hexterra::chunk::ChunkId;
use hexterra::hex::HexCoord;

#[test]
fn neighbors_has_six_distinct_cells_at_distance_one() {
    let h = HexCoord::new(3, -7);
    let nb = h.neighbors();
    assert_eq!(nb.len(), 6);
    for i in 0..6 {
        assert_eq!(h.distance(&nb[i]), 1);
        for j in 0..6 {
            if i != j {
                assert_ne!(nb[i], nb[j]);
            }
        }
    }
}

#[test]
fn neighbors_symmetry() {
    let h = HexCoord::new(-2, 5);
    for n in h.neighbors() {
        let back = n.neighbors();
        assert!(back.iter().any(|b| *b == h));
    }
}

#[test]
fn ring_zero_is_the_center_alone() {
    let h = HexCoord::new(4, 4);
    let ring = h.ring(0);
    assert_eq!(ring.len(), 1);
    assert_eq!(ring[0], h);
}

#[test]
fn ring_len_is_six_times_radius() {
    let h = HexCoord::new(0, 0);
    for r in 1..6u32 {
        let ring = h.ring(r);
        assert_eq!(ring.len(), (6 * r) as usize);
        for c in &ring {
            assert_eq!(h.distance(c), r);
        }
        for i in 0..ring.len() {
            for j in 0..ring.len() {
                if i != j {
                    assert_ne!(ring[i], ring[j]);
                }
            }
        }
    }
}

#[test]
fn range_is_disjoint_union_of_rings() {
    let h = HexCoord::new(-1, 2);
    let radius = 3u32;
    let disk = h.range(radius);
    assert_eq!(disk.len(), (3 * radius * (radius + 1) + 1) as usize);
    let mut concat = Vec::new();
    for r in 0..=radius {
        concat.extend(h.ring(r));
    }
    assert_eq!(disk, concat);
    for i in 0..disk.len() {
        for j in 0..disk.len() {
            if i != j {
                assert_ne!(disk[i], disk[j]);
            }
        }
    }
    for c in &disk {
        assert!(h.distance(c) <= radius);
    }
}

#[test]
fn in_range_matches_range() {
    let h = HexCoord::new(7, -1);
    assert_eq!(h.in_range(2), h.range(2));
}

#[test]
fn rings_and_spiral_concatenate_rings() {
    let h = HexCoord::new(0, 0);
    let radii = vec![1u32, 3u32];
    let out = h.rings(&radii);
    let mut expect = h.ring(1);
    expect.extend(h.ring(3));
    assert_eq!(out, expect);
    assert_eq!(h.spiral(&radii), expect);
}

#[test]
fn line_to_hits_both_endpoints() {
    let a = HexCoord::new(0, 0);
    let b = HexCoord::new(4, -2);
    let line = a.line_to(&b);
    assert_eq!(line.len(), (a.distance(&b) + 1) as usize);
    assert_eq!(line[0], a);
    assert_eq!(*line.last().unwrap(), b);
    for w in line.windows(2) {
        assert_eq!(w[0].distance(&w[1]), 1);
    }
}

#[test]
fn chunk_round_trip_is_idempotent() {
    let size = 8u8;
    for (q, r) in [(0, 0), (7, 7), (-1, -1), (15, -9), (100, 53)] {
        let h = HexCoord::new(q, r);
        let chunk = ChunkId::from_hex_coord(h, size);
        let center = chunk.to_center();
        let again = ChunkId::from_hex_coord(center, size);
        assert_eq!(again.coord, chunk.coord);
        assert_eq!(again.size, size);
    }
}

#[test]
fn chunk_center_independent_of_representative() {
    let size = 3u8;
    // All cells of one chunk footprint map to the same center.
    let base = HexCoord::new(6, -3);
    let chunk = ChunkId::from_hex_coord(base, size);
    let center = chunk.to_center();
    for dq in 0..3 {
        for dr in 0..3 {
            let h = HexCoord::new(6 + dq, -3 + dr);
            let c2 = ChunkId::from_hex_coord(h, size);
            if c2.coord == chunk.coord {
                assert_eq!(c2.to_center(), center);
            }
        }
    }
}

#[test]
fn chunk_queries_mirror_hex_queries() {
    let c = ChunkId::new(HexCoord::new(2, 2), 4);
    assert_eq!(c.q(), 2);
    assert_eq!(c.r(), 2);
    let other = ChunkId::new(HexCoord::new(5, 2), 4);
    assert_eq!(c.distance(&other), 3);
    let nb = c.neighbors();
    assert_eq!(nb.len(), 6);
    for n in &nb {
        assert_eq!(n.size, 4);
        assert_eq!(c.distance(n), 1);
    }
    assert_eq!(c.range(2).len(), 19);
    assert_eq!(c.ring(2).len(), 12);
    assert_eq!(c.rings(&vec![0, 2]).len(), 13);
}
