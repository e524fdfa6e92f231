use hexlife::math::{
    canonicalize, Aliveness, Angle, Direction, EdgePos, EdgesState, HexCoord, RestrictedHexDir,
};
use hexlife::NeighborRegion;

const ALL_DIRECTIONS: [Direction; 6] = [
    Direction::YZ,
    Direction::XZ,
    Direction::XY,
    Direction::ZY,
    Direction::ZX,
    Direction::YX,
];

const ALL_REGIONS: [NeighborRegion; 5] = [
    NeighborRegion::Four,
    NeighborRegion::Six,
    NeighborRegion::EightCross,
    NeighborRegion::EightParallel,
    NeighborRegion::Ten,
];

#[test]
fn canonical_edge_agrees_from_both_hexes() {
    for &(x, y) in &[(0i64, 0i64), (3, -7), (-12, 5), (100, 100)] {
        let c = HexCoord::new(x, y);
        for d in ALL_DIRECTIONS {
            let here = EdgePos::new(c, d);
            let there = EdgePos::new(c.step(d), d.opposite());
            assert_eq!(here, there);
        }
    }
}

#[test]
fn canonicalize_keeps_stored_directions() {
    let c = HexCoord::new(4, -2);
    assert_eq!(canonicalize(c, Direction::XY), (c, RestrictedHexDir::XY));
    assert_eq!(canonicalize(c, Direction::ZY), (c, RestrictedHexDir::ZY));
    assert_eq!(canonicalize(c, Direction::ZX), (c, RestrictedHexDir::ZX));
}

#[test]
fn canonicalize_moves_other_directions() {
    let c = HexCoord::new(4, -2);
    assert_eq!(canonicalize(c, Direction::YX), (HexCoord::new(3, -1), RestrictedHexDir::XY));
    assert_eq!(canonicalize(c, Direction::YZ), (HexCoord::new(4, -1), RestrictedHexDir::ZY));
    assert_eq!(canonicalize(c, Direction::XZ), (HexCoord::new(5, -2), RestrictedHexDir::ZX));
}

#[test]
fn edge_pos_accessors() {
    let p = EdgePos::new(HexCoord::new(1, 1), Direction::YX);
    assert_eq!(p.coord(), HexCoord::new(0, 2));
    assert_eq!(p.edge(), RestrictedHexDir::XY);
    assert_eq!(p.dir(), Direction::XY);
    let q = EdgePos::new_raw(HexCoord::new(0, 2), RestrictedHexDir::XY);
    assert_eq!(p, q);
}

#[test]
fn rotation_follows_the_clock() {
    assert_eq!(Direction::XY.rotated(Angle::Left), Direction::XZ);
    assert_eq!(Direction::XY.rotated(Angle::Right), Direction::ZY);
    assert_eq!(Direction::XY.rotated(Angle::Back), Direction::YX);
    assert_eq!(Direction::YX.rotated(Angle::Right), Direction::YZ);
    assert_eq!(Direction::ZX.rotated(Angle::Forward), Direction::ZX);
    for d in ALL_DIRECTIONS {
        assert_eq!(d.rotated(Angle::Back), d.opposite());
        assert_eq!(Direction::from_int(d.to_int()), d);
    }
}

#[test]
fn step_moves_one_hex() {
    let c = HexCoord::new(0, 0);
    assert_eq!(c.step(Direction::YZ), HexCoord::new(0, 1));
    assert_eq!(c.step(Direction::XZ), HexCoord::new(1, 0));
    assert_eq!(c.step(Direction::XY), HexCoord::new(1, -1));
    assert_eq!(c.step(Direction::ZY), HexCoord::new(0, -1));
    assert_eq!(c.step(Direction::ZX), HexCoord::new(-1, 0));
    assert_eq!(c.step(Direction::YX), HexCoord::new(-1, 1));
}

#[test]
fn pack_unpack_round_trip_all_records() {
    let states = [Aliveness::Dead, Aliveness::Barren, Aliveness::Alive];
    let mut seen = Vec::new();
    for xy in states {
        for zy in states {
            for zx in states {
                let s = EdgesState::new(xy, zy, zx);
                let packed = s.pack();
                assert!(packed < 27);
                assert_eq!(EdgesState::unpack(packed), s);
                assert!(!seen.contains(&packed));
                seen.push(packed);
            }
        }
    }
    assert_eq!(seen.len(), 27);
}

#[test]
fn pack_uses_base_three_digits() {
    let s = EdgesState::new(Aliveness::Alive, Aliveness::Barren, Aliveness::Alive);
    assert_eq!(s.pack(), 2 + 3 + 18);
    assert_eq!(EdgesState::new(Aliveness::Dead, Aliveness::Dead, Aliveness::Dead).pack(), 0);
    assert_eq!(EdgesState::new(Aliveness::Alive, Aliveness::Alive, Aliveness::Alive).pack(), 26);
    let u = EdgesState::unpack(5);
    assert_eq!(u.get(RestrictedHexDir::XY), Aliveness::Alive);
    assert_eq!(u.get(RestrictedHexDir::ZY), Aliveness::Barren);
    assert_eq!(u.get(RestrictedHexDir::ZX), Aliveness::Dead);
}

#[test]
fn edges_state_set_changes_one_edge() {
    let mut s = EdgesState::default();
    s.set(RestrictedHexDir::ZY, Aliveness::Alive);
    assert_eq!(s, EdgesState::new(Aliveness::Dead, Aliveness::Alive, Aliveness::Dead));
    s.set(RestrictedHexDir::ZX, Aliveness::Barren);
    assert_eq!(s.get(RestrictedHexDir::ZX), Aliveness::Barren);
    assert_eq!(s.get(RestrictedHexDir::XY), Aliveness::Dead);
}

#[test]
fn aliveness_codes() {
    assert_eq!(Aliveness::unconvert(0), Aliveness::Dead);
    assert_eq!(Aliveness::unconvert(1), Aliveness::Barren);
    assert_eq!(Aliveness::unconvert(2), Aliveness::Alive);
    assert_eq!(Aliveness::default(), Aliveness::Dead);
    assert_eq!(Aliveness::Alive.convert(), 2);
}

#[test]
fn region_sizes() {
    let sizes: Vec<u32> = ALL_REGIONS.iter().map(|r| r.count()).collect();
    assert_eq!(sizes, vec![4, 6, 8, 8, 10]);
    let p = EdgePos::new_raw(HexCoord::new(2, 3), RestrictedHexDir::ZX);
    for r in ALL_REGIONS {
        let n = r.neighbors(p);
        assert_eq!(n.len() as u32, r.count());
        for (i, a) in n.iter().enumerate() {
            assert_ne!(*a, p);
            for b in &n[i + 1..] {
                assert_ne!(a, b);
            }
        }
    }
}

#[test]
fn four_region_of_origin() {
    let p = EdgePos::new_raw(HexCoord::new(0, 0), RestrictedHexDir::XY);
    let n = NeighborRegion::Four.neighbors(p);
    assert_eq!(
        n,
        vec![
            EdgePos::new_raw(HexCoord::new(1, 0), RestrictedHexDir::ZX),
            EdgePos::new_raw(HexCoord::new(0, 0), RestrictedHexDir::ZY),
            EdgePos::new_raw(HexCoord::new(1, 0), RestrictedHexDir::ZY),
            EdgePos::new_raw(HexCoord::new(1, -1), RestrictedHexDir::ZX),
        ]
    );
}

#[test]
fn neighbor_relation_is_symmetric() {
    let dirs = [RestrictedHexDir::XY, RestrictedHexDir::ZY, RestrictedHexDir::ZX];
    for r in ALL_REGIONS {
        for &(x, y) in &[(0i64, 0i64), (5, -3), (-8, 9)] {
            for d in dirs {
                let p = EdgePos::new_raw(HexCoord::new(x, y), d);
                for q in r.neighbors(p) {
                    assert!(r.neighbors(q).contains(&p), "{:?} {:?} {:?}", r, p, q);
                }
            }
        }
    }
}

#[test]
fn region_labels() {
    let labels: Vec<&str> = ALL_REGIONS.iter().map(|r| r.label()).collect();
    assert_eq!(labels, vec!["4", "6", "8*", "8=", "10"]);
}

#[test]
fn canonicalize_at_the_ends_of_the_grid() {
    let c = HexCoord::new(i64::MAX, i64::MIN);
    assert_eq!(canonicalize(c, Direction::XY), (c, RestrictedHexDir::XY));
    let p = EdgePos::new(c, Direction::ZX);
    assert_eq!(p, EdgePos::new_raw(c, RestrictedHexDir::ZX));
}
