//! Laws that relate the operations on a board.

use vstd::prelude::*;
use crate::board::{lemma_with_edge, record_of, sparse, state_of, toggled, twiddled};
use crate::generation::{live_count, next_state};
use crate::rule::Rule;
use crate::math::{
    lemma_pack_round_trip, lemma_unpacked_packs, Aliveness, EdgePos, EdgesState, GridEdge,
    RestrictedHexDir,
};

verus! {

/// The edge of the hex `(x, y)` in the stored direction `dir`.
pub open spec fn edge_at(x: i64, y: i64, dir: RestrictedHexDir) -> GridEdge {
    GridEdge { x: x as int, y: y as int, dir }
}

/// A sparse board holds a record for a hex exactly when one of the hex's three
/// edges is not dead. Since every operation keeps the board sparse, setting all
/// three edges of a hex dead leaves no record of it.
pub proof fn lemma_record_iff_live_edge(m: Map<(i64, i64), u8>, x: i64, y: i64)
    requires
        sparse(m),
    ensures
        m.contains_key((x, y)) <==> (state_of(m, edge_at(x, y, RestrictedHexDir::XY))
            != Aliveness::Dead || state_of(m, edge_at(x, y, RestrictedHexDir::ZY))
            != Aliveness::Dead || state_of(m, edge_at(x, y, RestrictedHexDir::ZX))
            != Aliveness::Dead),
{
    if m.contains_key((x, y)) {
        let n = m[(x, y)] as nat;
        lemma_unpacked_packs(n);
        let s = EdgesState::unpacked(n);
        if s.xy == Aliveness::Dead && s.zy == Aliveness::Dead && s.zx == Aliveness::Dead {
            assert(s.packed() == 0);
        }
    }
}

/// Toggling an edge that is not barren twice gives back the same board.
pub proof fn lemma_twiddle_twice(m: Map<(i64, i64), u8>, p: EdgePos)
    requires
        sparse(m),
        state_of(m, p@) != Aliveness::Barren,
    ensures
        twiddled(twiddled(m, p), p) == m,
{
    let a = state_of(m, p@);
    let m1 = twiddled(m, p);
    lemma_with_edge(m, p, toggled(a), p@);
    let m2 = twiddled(m1, p);
    let k = (p.coord.x, p.coord.y);
    let r0 = record_of(m, p@);
    let r1 = record_of(m1, p@);
    lemma_pack_round_trip(r0);
    lemma_pack_round_trip(r0.with(p.edge, toggled(a)));
    if m.contains_key(k) {
        lemma_unpacked_packs(m[k] as nat);
    }
    if m1.contains_key(k) {
        lemma_unpacked_packs(m1[k] as nat);
    }
    assert(r1.with(p.edge, a) == r0);
    assert(m2 =~= m);
}

/// Toggling a barren edge makes it alive, and toggling it again makes it dead.
pub proof fn lemma_twiddle_barren(m: Map<(i64, i64), u8>, p: EdgePos)
    requires
        sparse(m),
        state_of(m, p@) == Aliveness::Barren,
    ensures
        state_of(twiddled(m, p), p@) == Aliveness::Alive,
        state_of(twiddled(twiddled(m, p), p), p@) == Aliveness::Dead,
{
    lemma_with_edge(m, p, Aliveness::Alive, p@);
    lemma_with_edge(twiddled(m, p), p, Aliveness::Dead, p@);
}

/// Toggling a live edge makes it dead, and a dead one alive.
pub proof fn lemma_twiddle_flips(m: Map<(i64, i64), u8>, p: EdgePos)
    requires
        sparse(m),
    ensures
        state_of(m, p@) == Aliveness::Alive ==> state_of(twiddled(m, p), p@) == Aliveness::Dead,
        state_of(m, p@) == Aliveness::Dead ==> state_of(twiddled(m, p), p@) == Aliveness::Alive,
{
    lemma_with_edge(m, p, toggled(state_of(m, p@)), p@);
}

/// A barren edge is dead after one generation, whatever the rule and the
/// neighbours.
pub proof fn lemma_barren_decays(m: Map<(i64, i64), u8>, rule: Rule, e: GridEdge)
    requires
        state_of(m, e) == Aliveness::Barren,
    ensures
        next_state(m, rule, e) == Aliveness::Dead,
{
}

/// A live edge without live neighbours stays alive after one generation if the
/// rule lets an edge survive with no neighbours, and turns barren otherwise.
pub proof fn lemma_isolated_edge(m: Map<(i64, i64), u8>, rule: Rule, e: GridEdge)
    requires
        state_of(m, e) == Aliveness::Alive,
        live_count(m, rule.region().neighborhood(e)) == 0,
    ensures
        next_state(m, rule, e) == if rule.survive() & 1 != 0 {
            Aliveness::Alive
        } else {
            Aliveness::Barren
        },
{
    assert(1u32 << 0u32 == 1) by (bit_vector);
}

} // verus!
