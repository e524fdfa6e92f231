use hexlife::math::{Aliveness, EdgePos, EdgesState, HexCoord, RestrictedHexDir};
use hexlife::{Board, NeighborRegion, Rule};

fn edge(x: i64, y: i64, d: RestrictedHexDir) -> EdgePos {
    EdgePos::new_raw(HexCoord::new(x, y), d)
}

fn record(xy: Aliveness, zy: Aliveness, zx: Aliveness) -> Option<EdgesState> {
    Some(EdgesState::new(xy, zy, zx))
}

use Aliveness::{Alive, Barren, Dead};
use RestrictedHexDir::{XY, ZX, ZY};

/// Every hex within `radius` of the origin, other than those listed, has no record.
fn assert_only_records(board: &Board, listed: &[(i64, i64)], radius: i64) {
    for x in -radius..=radius {
        for y in -radius..=radius {
            if !listed.contains(&(x, y)) {
                assert_eq!(board.get_edges(HexCoord::new(x, y)), None, "({}, {})", x, y);
            }
        }
    }
}

#[test]
fn empty_board_is_dead() {
    let board = Board::new();
    assert_eq!(board.get_liveness(edge(0, 0, XY)), Dead);
    assert_eq!(board.get_edges(HexCoord::new(3, 4)), None);
}

#[test]
fn set_and_get_one_edge() {
    let mut board = Board::new();
    board.set_alive(edge(2, -1, ZY), Alive);
    assert_eq!(board.get_liveness(edge(2, -1, ZY)), Alive);
    assert_eq!(board.get_liveness(edge(2, -1, XY)), Dead);
    assert_eq!(board.get_edges(HexCoord::new(2, -1)), record(Dead, Alive, Dead));
    board.set_alive(edge(2, -1, XY), Barren);
    assert_eq!(board.get_edges(HexCoord::new(2, -1)), record(Barren, Alive, Dead));
}

#[test]
fn all_dead_hex_is_removed() {
    let mut board = Board::new();
    for d in [XY, ZY, ZX] {
        board.set_alive(edge(1, 1, d), Alive);
    }
    assert_eq!(board.get_edges(HexCoord::new(1, 1)), record(Alive, Alive, Alive));
    board.set_alive(edge(1, 1, XY), Dead);
    board.set_alive(edge(1, 1, ZY), Dead);
    assert_eq!(board.get_edges(HexCoord::new(1, 1)), record(Dead, Dead, Alive));
    board.set_alive(edge(1, 1, ZX), Dead);
    assert_eq!(board.get_edges(HexCoord::new(1, 1)), None);
}

#[test]
fn killing_an_absent_edge_adds_nothing() {
    let mut board = Board::new();
    board.set_alive(edge(7, 7, ZX), Dead);
    assert_eq!(board.get_edges(HexCoord::new(7, 7)), None);
}

#[test]
fn twiddle_dead_and_alive() {
    let mut board = Board::new();
    let p = edge(0, 0, ZX);
    board.twiddle_alive(p);
    assert_eq!(board.get_liveness(p), Alive);
    board.twiddle_alive(p);
    assert_eq!(board.get_liveness(p), Dead);
    assert_eq!(board.get_edges(HexCoord::new(0, 0)), None);
}

#[test]
fn twiddle_barren_goes_alive_then_dead() {
    let mut board = Board::new();
    let p = edge(0, 0, XY);
    board.set_alive(p, Barren);
    board.twiddle_alive(p);
    assert_eq!(board.get_liveness(p), Alive);
    board.twiddle_alive(p);
    assert_eq!(board.get_liveness(p), Dead);
}

#[test]
fn clear_empties_the_board() {
    let mut board = Board::new();
    board.set_alive(edge(0, 0, XY), Alive);
    board.set_alive(edge(5, 5, ZY), Barren);
    board.clear();
    assert_eq!(board.get_edges(HexCoord::new(0, 0)), None);
    assert_eq!(board.get_edges(HexCoord::new(5, 5)), None);
}

#[test]
fn clone_is_independent() {
    let mut board = Board::new();
    board.set_alive(edge(0, 0, XY), Alive);
    let copy = board.clone();
    board.set_alive(edge(0, 0, XY), Dead);
    assert_eq!(copy.get_liveness(edge(0, 0, XY)), Alive);
    assert_eq!(board.get_liveness(edge(0, 0, XY)), Dead);
}

#[test]
fn barren_edge_decays() {
    for (birth, survive) in [(0u32, 0u32), (0b11111, 0b11111), (0b10, 0b1)] {
        let mut board = Board::new();
        board.set_alive(edge(0, 0, XY), Barren);
        board.set_alive(edge(0, 0, ZY), Alive);
        board.set_alive(edge(1, 0, ZX), Alive);
        board.apply_rule(Rule::new_raw(birth, survive, NeighborRegion::Four));
        assert_eq!(board.get_liveness(edge(0, 0, XY)), Dead);
    }
}

#[test]
fn single_edge_births_its_four_neighbors() {
    let mut board = Board::new();
    board.set_alive(edge(0, 0, XY), Alive);
    board.apply_rule(Rule::new_raw(0b11, 0, NeighborRegion::Four));
    assert_eq!(board.get_edges(HexCoord::new(0, 0)), record(Barren, Alive, Alive));
    assert_eq!(board.get_edges(HexCoord::new(1, 0)), record(Dead, Alive, Alive));
    assert_eq!(board.get_edges(HexCoord::new(1, -1)), record(Dead, Dead, Alive));
    assert_only_records(&board, &[(0, 0), (1, 0), (1, -1)], 4);
}

#[test]
fn single_edge_without_birth_on_one() {
    let mut board = Board::new();
    board.set_alive(edge(0, 0, XY), Alive);
    board.apply_rule(Rule::new_raw(0b01, 0, NeighborRegion::Four));
    assert_eq!(board.get_edges(HexCoord::new(0, 0)), record(Barren, Dead, Alive));
    assert_only_records(&board, &[(0, 0)], 4);
}

#[test]
fn isolated_edge_survives_with_bit_zero() {
    let mut board = Board::new();
    let p = edge(3, -2, ZY);
    board.set_alive(p, Alive);
    board.apply_rule(Rule::new_raw(0, 0b1, NeighborRegion::Six));
    assert_eq!(board.get_liveness(p), Alive);
    assert_eq!(board.get_edges(HexCoord::new(3, -2)), record(Dead, Alive, Dead));
    assert_only_records(&board, &[(3, -2)], 6);
}

#[test]
fn isolated_edge_turns_barren_without_bit_zero() {
    let mut board = Board::new();
    let p = edge(3, -2, ZY);
    board.set_alive(p, Alive);
    board.apply_rule(Rule::new_raw(0, 0b10, NeighborRegion::Six));
    assert_eq!(board.get_liveness(p), Barren);
    board.apply_rule(Rule::new_raw(0, 0b10, NeighborRegion::Six));
    assert_eq!(board.get_liveness(p), Dead);
    assert_only_records(&board, &[], 6);
}

#[test]
fn pair_survives_with_one_neighbor() {
    // Two touching edges see each other under every region.
    let a = edge(0, 0, XY);
    let b = edge(0, 0, ZY);
    for region in [
        NeighborRegion::Four,
        NeighborRegion::Six,
        NeighborRegion::EightCross,
        NeighborRegion::EightParallel,
        NeighborRegion::Ten,
    ] {
        let mut board = Board::new();
        board.set_alive(a, Alive);
        board.set_alive(b, Alive);
        board.apply_rule(Rule::new_raw(0, 0b10, region));
        assert_eq!(board.get_liveness(a), Alive);
        assert_eq!(board.get_liveness(b), Alive);
    }
}

#[test]
fn dead_edge_away_from_life_is_not_born() {
    // Birth with no neighbours only happens on hexes that hold a record.
    let mut board = Board::new();
    board.set_alive(edge(0, 0, XY), Alive);
    board.apply_rule(Rule::new_raw(0b1, 0b1, NeighborRegion::Four));
    assert_eq!(board.get_liveness(edge(0, 0, ZX)), Alive);
    assert_eq!(board.get_liveness(edge(10, 10, XY)), Dead);
    assert_eq!(board.get_edges(HexCoord::new(10, 10)), None);
}

#[test]
fn barren_neighbor_is_not_counted() {
    // (0,0) ZY touches (0,0) XY; a barren edge adds nothing to its count.
    let mut board = Board::new();
    board.set_alive(edge(0, 0, XY), Alive);
    board.set_alive(edge(0, 0, ZY), Barren);
    board.apply_rule(Rule::new_raw(0, 0b1, NeighborRegion::Four));
    assert_eq!(board.get_liveness(edge(0, 0, XY)), Alive);
    assert_eq!(board.get_liveness(edge(0, 0, ZY)), Dead);
}

#[test]
fn fits_bounds_near_the_edge_of_the_grid() {
    let mut board = Board::new();
    board.set_alive(edge(0, 0, XY), Alive);
    assert!(board.fits_bounds());
    board.set_alive(edge(i64::MAX - 1, 0, XY), Alive);
    assert!(!board.fits_bounds());
    board.set_alive(edge(i64::MAX - 1, 0, XY), Dead);
    assert!(board.fits_bounds());
}

#[test]
fn rule_notation() {
    assert_eq!(Rule::new_raw(0b0001000, 0b0001100, NeighborRegion::Six).to_string(), "B3/S23/@6");
    assert_eq!(Rule::new_raw(0b11, 0, NeighborRegion::Four).to_string(), "B01/S/@4");
    assert_eq!(
        Rule::new_raw(1 << 10, 0b101, NeighborRegion::Ten).to_string(),
        "Ba/S02/@10"
    );
    assert_eq!(Rule::new_raw(0, 0, NeighborRegion::EightCross).to_string(), "B/S/@8*");
    assert_eq!(Rule::new_raw(0b100000000, 1, NeighborRegion::EightParallel).to_string(), "B8/S0/@8=");
}

#[test]
fn rule_keeps_its_parts() {
    let rule = Rule::new_raw(0b1000, 0b1100, NeighborRegion::EightParallel);
    assert_eq!(rule.birth_mask(), 0b1000);
    assert_eq!(rule.survive_mask(), 0b1100);
    assert_eq!(rule.neighbor_region(), NeighborRegion::EightParallel);
    assert_eq!(rule, rule.clone());
}

#[test]
fn rule_accepts_every_bit_up_to_the_neighbor_count() {
    let rule = Rule::new_raw(0b11111, 0b11111, NeighborRegion::Four);
    assert_eq!(rule.to_string(), "B01234/S01234/@4");
    let rule = Rule::new_raw(0b111_1111_1111, 0, NeighborRegion::Ten);
    assert_eq!(rule.to_string(), "B0123456789a/S/@10");
}
