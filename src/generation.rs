//! One generation of the automaton: count the live neighbours of every edge
//! that needs it, then commit all new states at once.

use vstd::prelude::*;
use ahash::AHashMap;
use crate::board::{has_record, key_of, lemma_with_edge, state_of, Board};
use crate::math::{representable, Aliveness, EdgePos, EdgesState, GridEdge, HexCoord, RestrictedHexDir};
use crate::region::{lemma_neighbors_distinct, lemma_neighbors_symmetric, NeighborRegion};
use crate::rule::Rule;
use crate::store::{updates_entries, updates_get, updates_insert, updates_new, updates_of};

verus! {

/// A change that a generation makes to one edge.
#[derive(Debug, Clone, Copy, PartialEq, Eq, Structural)]
pub enum Update {
    /// The edge has this many live neighbours.
    NormalNeighborCount(u8),
    /// The edge is barren and dies.
    Barren,
}

/// How many edges of `s` are alive.
pub open spec fn live_count(m: Map<(i64, i64), u8>, s: Seq<GridEdge>) -> nat
    decreases s.len(),
{
    if s.len() == 0 {
        0
    } else {
        live_count(m, s.drop_last()) + if state_of(m, s.last()) == Aliveness::Alive {
            1nat
        } else {
            0nat
        }
    }
}

/// The state of `e` in the generation after the board whose records are `m`.
///
/// A barren edge dies. A live edge stays alive if the rule lets it survive with
/// its number of live neighbours, and turns barren otherwise. A dead edge comes
/// alive if the rule lets it be born with its number of live neighbours, but
/// only where it is looked at: on a hex with a record, or next to a live edge.
pub open spec fn next_state(m: Map<(i64, i64), u8>, rule: Rule, e: GridEdge) -> Aliveness {
    let n = live_count(m, rule.region().neighborhood(e));
    match state_of(m, e) {
        Aliveness::Barren => Aliveness::Dead,
        Aliveness::Alive => if rule.survives_with(n) {
            Aliveness::Alive
        } else {
            Aliveness::Barren
        },
        Aliveness::Dead => if (has_record(m, e) || n > 0) && rule.born_with(n) {
            Aliveness::Alive
        } else {
            Aliveness::Dead
        },
    }
}

/// The key of an edge in the map of pending updates.
pub open spec fn edge_key(p: EdgePos) -> (i64, i64, u8) {
    (p.coord.x, p.coord.y, p.edge.slot() as u8)
}

/// What phase two of a generation makes of an edge in state `state` with the
/// pending update `update`.
pub open spec fn resolved(rule: Rule, state: Aliveness, update: Update) -> Aliveness {
    match update {
        Update::NormalNeighborCount(count) => match state {
            Aliveness::Alive => if rule.survives_with(count as nat) {
                Aliveness::Alive
            } else {
                Aliveness::Barren
            },
            Aliveness::Dead => if rule.born_with(count as nat) {
                Aliveness::Alive
            } else {
                Aliveness::Dead
            },
            Aliveness::Barren => Aliveness::Dead,
        },
        Update::Barren => Aliveness::Dead,
    }
}

/// The state that an edge in state `state` takes on with the pending update `update`.
fn resolve(rule: Rule, state: Aliveness, update: Update) -> (r: Aliveness)
    ensures
        r == resolved(rule, state, update),
{
    match update {
        Update::NormalNeighborCount(count) => {
            match state {
                Aliveness::Alive => {
                    if count < 32 && (rule.survive_mask() & (1u32 << (count as u32))) != 0 {
                        Aliveness::Alive
                    } else {
                        Aliveness::Barren
                    }
                },
                Aliveness::Dead => {
                    if count < 32 && (rule.birth_mask() & (1u32 << (count as u32))) != 0 {
                        Aliveness::Alive
                    } else {
                        Aliveness::Dead
                    }
                },
                Aliveness::Barren => Aliveness::Dead,
            }
        },
        Update::Barren => Aliveness::Dead,
    }
}

impl Board {
    /// Advance the board by one generation of `rule`.
    pub fn apply_rule(&mut self, rule: Rule)
        requires
            old(self).wf(),
            old(self).in_bounds(),
        ensures
            final(self).wf(),
            forall|p: EdgePos| #[trigger]
                state_of(final(self)@, p@) == next_state(old(self)@, rule, p@),
            forall|p: EdgePos|
                state_of(old(self)@, p@) == Aliveness::Barren ==> #[trigger] state_of(final(self)@, p@)
                    == Aliveness::Dead,
    {
        let ghost m = self@;
        let updates = self.collect_updates(rule.neighbor_region());
        let ghost u = updates_of(updates);
        proof {
            assert forall|p: EdgePos| #[trigger] u.contains_key(edge_key(p)) implies resolved(
                rule,
                state_of(m, p@),
                u[edge_key(p)],
            ) == next_state(m, rule, p@) by {
                lemma_tally_resolves(m, rule, u, p);
            }
            assert forall|p: EdgePos| !#[trigger] u.contains_key(edge_key(p)) implies next_state(
                m,
                rule,
                p@,
            ) == state_of(m, p@) by {
                lemma_tally_resolves(m, rule, u, p);
            }
        }
        let pending = updates_entries(updates);
        let ghost mut done: Set<(i64, i64, u8)> = Set::empty();
        let mut i: usize = 0;
        while i < pending.len()
            invariant
                self.wf(),
                0 <= i <= pending.len(),
                forall|j: int|
                    0 <= j < pending.len() ==> #[trigger] u.contains_key(pending[j].0) && u[pending[j].0]
                        == pending[j].1,
                forall|k: (i64, i64, u8)| #[trigger]
                    u.contains_key(k) ==> exists|j: int| 0 <= j < pending.len() && pending[j].0 == k,
                forall|a: int, b: int| 0 <= a < b < pending.len() ==> pending[a].0 != pending[b].0,
                forall|j: int| 0 <= j < i ==> done.contains(#[trigger] pending[j].0),
                forall|k: (i64, i64, u8)| #[trigger]
                    done.contains(k) ==> exists|j: int| 0 <= j < i && pending[j].0 == k,
                keys_ok(u),
                forall|p: EdgePos| #[trigger]
                    u.contains_key(edge_key(p)) ==> resolved(rule, state_of(m, p@), u[edge_key(p)])
                        == next_state(m, rule, p@),
                forall|p: EdgePos| !#[trigger]
                    u.contains_key(edge_key(p)) ==> next_state(m, rule, p@) == state_of(m, p@),
                forall|p: EdgePos| #[trigger]
                    state_of(self@, p@) == if done.contains(edge_key(p)) {
                        next_state(m, rule, p@)
                    } else {
                        state_of(m, p@)
                    },
            decreases pending.len() - i,
        {
            let (k, update) = pending[i];
            proof {
                assert(u.contains_key(k));
                if done.contains(k) {
                    let j = choose|j: int| 0 <= j < i && pending[j].0 == k;
                }
            }
            let edge_pos = EdgePos::new_raw(HexCoord::new(k.0, k.1), RestrictedHexDir::from_slot(k.2));
            proof {
                assert(edge_key(edge_pos) == k);
                assert(state_of(self@, edge_pos@) == state_of(m, edge_pos@));
            }
            let alive = resolve(rule, self.get_liveness(edge_pos), update);
            let ghost before = self@;
            self.set_alive(edge_pos, alive);
            proof {
                done = done.insert(k);
                assert forall|p: EdgePos| #[trigger]
                    state_of(self@, p@) == if done.contains(edge_key(p)) {
                        next_state(m, rule, p@)
                    } else {
                        state_of(m, p@)
                    } by {
                    lemma_with_edge(before, edge_pos, alive, p@);
                    if p != edge_pos {
                        assert(edge_key(p) != k);
                    }
                }
                assert forall|k2: (i64, i64, u8)| #[trigger]
                    done.contains(k2) implies exists|j: int| 0 <= j < i + 1 && pending[j].0 == k2 by {
                    if k2 != k {
                        let j = choose|j: int| 0 <= j < i && pending[j].0 == k2;
                        assert(0 <= j < i + 1 && pending[j].0 == k2);
                    } else {
                        assert(pending[i as int].0 == k2);
                    }
                }
            }
            i = i + 1;
        }
        proof {
            assert forall|p: EdgePos| #[trigger]
                state_of(self@, p@) == next_state(m, rule, p@) by {
                if !done.contains(edge_key(p)) && u.contains_key(edge_key(p)) {
                    let j = choose|j: int| 0 <= j < pending.len() && pending[j].0 == edge_key(p);
                    assert(done.contains(pending[j].0));
                }
            }
        }
    }

    /// The pending updates of one generation over `region`: phase one of
    /// `apply_rule`, which reads the board and does not change it.
    fn collect_updates(&self, region: NeighborRegion) -> (r: AHashMap<(i64, i64, u8), Update>)
        requires
            self.wf(),
            self.in_bounds(),
        ensures
            keys_ok(updates_of(r)),
            forall|p: EdgePos| #[trigger]
                tallied_at(self@, region, hex_edges(self@.dom()), updates_of(r), p),
    {
        let ghost m = self@;
        let mut updates = updates_new();
        let entries = self.records();
        let ghost mut seen: Set<GridEdge> = Set::empty();
        let ghost mut keys: Set<(i64, i64)> = Set::empty();
        proof {
            assert forall|p: EdgePos| #[trigger] tallied_at(m, region, seen, updates_of(updates), p) by {
                lemma_seen_count_none(m, region.neighborhood(p@));
            }
        }
        let mut i: usize = 0;
        while i < entries.len()
            invariant
                m == self@,
                self.wf(),
                self.in_bounds(),
                0 <= i <= entries.len(),
                forall|j: int|
                    0 <= j < entries.len() ==> #[trigger] m.contains_key(entries[j].0)
                        && m[entries[j].0] == entries[j].1,
                forall|k: (i64, i64)| #[trigger]
                    m.contains_key(k) ==> exists|j: int| 0 <= j < entries.len() && entries[j].0 == k,
                forall|a: int, b: int| 0 <= a < b < entries.len() ==> entries[a].0 != entries[b].0,
                forall|j: int| 0 <= j < i ==> keys.contains(#[trigger] entries[j].0),
                forall|k: (i64, i64)| #[trigger]
                    keys.contains(k) ==> exists|j: int| 0 <= j < i && entries[j].0 == k,
                seen == hex_edges(keys),
                keys_ok(updates_of(updates)),
                forall|p: EdgePos| #[trigger] tallied_at(m, region, seen, updates_of(updates), p),
            decreases entries.len() - i,
        {
            let (coord, packed) = entries[i];
            let ghost k = entries[i as int].0;
            proof {
                assert(m.contains_key(k));
                if keys.contains(k) {
                    let j = choose|j: int| 0 <= j < i && entries[j].0 == k;
                }
                assert(!keys.contains(k));
            }
            let state = EdgesState::unpack(packed);
            let c = HexCoord::new(coord.0, coord.1);
            let xy = EdgePos::new_raw(c, RestrictedHexDir::XY);
            let zy = EdgePos::new_raw(c, RestrictedHexDir::ZY);
            let zx = EdgePos::new_raw(c, RestrictedHexDir::ZX);
            self.tally_edge(region, xy, state.get(RestrictedHexDir::XY), &mut updates, Ghost(seen));
            proof {
                seen = seen.insert(xy@);
            }
            self.tally_edge(region, zy, state.get(RestrictedHexDir::ZY), &mut updates, Ghost(seen));
            proof {
                seen = seen.insert(zy@);
            }
            self.tally_edge(region, zx, state.get(RestrictedHexDir::ZX), &mut updates, Ghost(seen));
            proof {
                seen = seen.insert(zx@);
                keys = keys.insert(k);
                assert(seen =~= hex_edges(keys));
                assert forall|k2: (i64, i64)| #[trigger]
                    keys.contains(k2) implies exists|j: int| 0 <= j < i + 1 && entries[j].0 == k2 by {
                    if k2 != k {
                        let j = choose|j: int| 0 <= j < i && entries[j].0 == k2;
                        assert(0 <= j < i + 1 && entries[j].0 == k2);
                    } else {
                        assert(entries[i as int].0 == k2);
                    }
                }
            }
            i = i + 1;
        }
        proof {
            assert(keys =~= m.dom()) by {
                assert forall|k: (i64, i64)| m.contains_key(k) implies keys.contains(k) by {
                    let j = choose|j: int| 0 <= j < entries.len() && entries[j].0 == k;
                    assert(keys.contains(entries[j].0));
                }
            }
        }
        updates
    }

    /// Count the edge `here`, whose state is `liveness`, into the pending updates.
    fn tally_edge(
        &self,
        region: NeighborRegion,
        here: EdgePos,
        liveness: Aliveness,
        updates: &mut AHashMap<(i64, i64, u8), Update>,
        Ghost(seen): Ghost<Set<GridEdge>>,
    )
        requires
            self.wf(),
            self.in_bounds(),
            has_record(self@, here@),
            liveness == state_of(self@, here@),
            !seen.contains(here@),
            keys_ok(updates_of(*old(updates))),
            forall|p: EdgePos| #[trigger]
                tallied_at(self@, region, seen, updates_of(*old(updates)), p),
        ensures
            keys_ok(updates_of(*final(updates))),
            forall|p: EdgePos| #[trigger]
                tallied_at(self@, region, seen.insert(here@), updates_of(*final(updates)), p),
    {
        let ghost m = self@;
        let ghost seen1 = seen.insert(here@);
        let ghost u0 = updates_of(*updates);
        let key = (here.coord.x, here.coord.y, here.edge.to_slot());
        proof {
            lemma_neighbors_distinct(region, here@);
            lemma_count_step(m, region, seen, here@, here@);
            assert(tallied_at(m, region, seen, u0, here));
        }
        match liveness {
            Aliveness::Barren => {
                updates_insert(updates, key, Update::Barren);
            },
            _ => {
                if updates_get(updates, key).is_none() {
                    updates_insert(updates, key, Update::NormalNeighborCount(0));
                }
            },
        }
        let ghost u1 = updates_of(*updates);
        proof {
            assert(tallied_at(m, region, seen1, u1, here));
            assert forall|p: EdgePos| p != here implies (#[trigger] tallied_at(m, region, seen, u1, p)
                <==> tallied_at(m, region, seen, u0, p)) && (tallied_at(m, region, seen1, u1, p)
                <==> tallied_at(m, region, seen1, u0, p)) by {
                assert(edge_key(p) != key);
            }
            assert forall|p: EdgePos|
                p != here && !(region.neighborhood(here@).contains(p@) && liveness
                    == Aliveness::Alive) implies #[trigger] tallied_at(m, region, seen1, u1, p) by {
                lemma_count_step(m, region, seen, here@, p@);
                assert(tallied_at(m, region, seen, u0, p));
                assert(tallied_at(m, region, seen, u1, p));
            }
        }
        if liveness == Aliveness::Alive {
            let nbrs = region.neighbors(here);
            let ghost nb = region.neighborhood(here@);
            proof {
                assert forall|p: EdgePos| #[trigger]
                    tallied_at(m, region, basis(nb, 0, seen, seen1, p@), u1, p) by {
                    if nb.contains(p@) {
                        assert(basis(nb, 0, seen, seen1, p@) == seen);
                        assert(p != here);
                        assert(tallied_at(m, region, seen, u0, p));
                        assert(tallied_at(m, region, seen, u1, p));
                    } else {
                        assert(basis(nb, 0, seen, seen1, p@) == seen1);
                        assert(tallied_at(m, region, seen1, u1, p));
                    }
                }
            }
            let mut j: usize = 0;
            while j < nbrs.len()
                invariant
                    m == self@,
                    self.wf(),
                    self.in_bounds(),
                    state_of(m, here@) == Aliveness::Alive,
                    !seen.contains(here@),
                    seen1 == seen.insert(here@),
                    nbrs@.map_values(|e: EdgePos| e@) == nb,
                    nb == region.neighborhood(here@),
                    nb.no_duplicates(),
                    !nb.contains(here@),
                    0 <= j <= nbrs.len(),
                    keys_ok(updates_of(*updates)),
                    forall|p: EdgePos| #[trigger]
                        tallied_at(m, region, basis(nb, j as int, seen, seen1, p@), updates_of(*updates), p),
                decreases nbrs.len() - j,
            {
                let neighbor = nbrs[j];
                let ghost before = updates_of(*updates);
                let nkey = (neighbor.coord.x, neighbor.coord.y, neighbor.edge.to_slot());
                proof {
                    assert(neighbor@ == nb[j as int]);
                    assert(nb.contains(neighbor@));
                    lemma_count_step(m, region, seen, here@, neighbor@);
                    lemma_seen_count_bound(m, seen, region.neighborhood(neighbor@));
                    lemma_neighbors_distinct(region, neighbor@);
                    assert(tallied_at(m, region, basis(nb, j as int, seen, seen1, neighbor@), before, neighbor));
                    assert(basis(nb, j as int, seen, seen1, neighbor@) == seen);
                    assert(nkey == edge_key(neighbor));
                }
                if self.get_liveness(neighbor) != Aliveness::Barren {
                    match updates_get(updates, nkey) {
                        None => {
                            updates_insert(updates, nkey, Update::NormalNeighborCount(1));
                        },
                        Some(Update::NormalNeighborCount(count)) => {
                            updates_insert(updates, nkey, Update::NormalNeighborCount(count + 1));
                        },
                        Some(Update::Barren) => {},
                    }
                }
                proof {
                    let after = updates_of(*updates);
                    assert(tallied_at(m, region, seen1, after, neighbor));
                    assert forall|p: EdgePos| #[trigger]
                        tallied_at(m, region, basis(nb, j + 1, seen, seen1, p@), after, p) by {
                        if p != neighbor {
                            assert(edge_key(p) != nkey);
                            assert(tallied_at(m, region, basis(nb, j as int, seen, seen1, p@), before, p));
                            if exists|i: int| j <= i < nb.len() && nb[i] == p@ {
                                let i = choose|i: int| j <= i < nb.len() && nb[i] == p@;
                                assert(i != j);
                            }
                            assert(basis(nb, j + 1, seen, seen1, p@) == basis(nb, j as int, seen, seen1, p@));
                        } else {
                            assert(basis(nb, j + 1, seen, seen1, p@) == seen1);
                        }
                    }
                }
                j = j + 1;
            }
            proof {
                assert forall|p: EdgePos| #[trigger] tallied_at(m, region, seen1, updates_of(*updates), p) by {
                    assert(tallied_at(m, region, basis(nb, j as int, seen, seen1, p@), updates_of(*updates), p));
                    assert(basis(nb, j as int, seen, seen1, p@) == seen1);
                }
            }
        }
    }
}

/// How many edges of `s` are alive and belong to `seen`.
spec fn seen_count(m: Map<(i64, i64), u8>, seen: Set<GridEdge>, s: Seq<GridEdge>) -> nat
    decreases s.len(),
{
    if s.len() == 0 {
        0
    } else {
        seen_count(m, seen, s.drop_last()) + if seen.contains(s.last()) && state_of(m, s.last())
            == Aliveness::Alive {
            1nat
        } else {
            0nat
        }
    }
}

/// The update that is pending for `e` once the edges of `seen` are counted.
spec fn expected(m: Map<(i64, i64), u8>, region: NeighborRegion, seen: Set<GridEdge>, e: GridEdge) -> Update {
    if state_of(m, e) == Aliveness::Barren {
        Update::Barren
    } else {
        Update::NormalNeighborCount(seen_count(m, seen, region.neighborhood(e)) as u8)
    }
}

/// An update is pending for `e` once the edges of `seen` are counted.
spec fn pending(m: Map<(i64, i64), u8>, region: NeighborRegion, seen: Set<GridEdge>, e: GridEdge) -> bool {
    seen.contains(e) || (state_of(m, e) != Aliveness::Barren && seen_count(
        m,
        seen,
        region.neighborhood(e),
    ) > 0)
}

/// The pending updates agree at `p` with counting the edges of `seen`.
spec fn tallied_at(
    m: Map<(i64, i64), u8>,
    region: NeighborRegion,
    seen: Set<GridEdge>,
    u: Map<(i64, i64, u8), Update>,
    p: EdgePos,
) -> bool {
    &&& u.contains_key(edge_key(p)) <==> pending(m, region, seen, p@)
    &&& u.contains_key(edge_key(p)) ==> u[edge_key(p)] == expected(m, region, seen, p@)
}

spec fn keys_ok(u: Map<(i64, i64, u8), Update>) -> bool {
    forall|k: (i64, i64, u8)| #[trigger] u.contains_key(k) ==> k.2 < 3
}

/// The edges counted for `g` while the neighbours `nb` of a live edge are
/// visited: `before` for those from index `j` on, `after` for all others.
spec fn basis(
    nb: Seq<GridEdge>,
    j: int,
    before: Set<GridEdge>,
    after: Set<GridEdge>,
    g: GridEdge,
) -> Set<GridEdge> {
    if exists|i: int| j <= i < nb.len() && nb[i] == g {
        before
    } else {
        after
    }
}

/// The edges of the hexes whose keys are in `keys`.
spec fn hex_edges(keys: Set<(i64, i64)>) -> Set<GridEdge> {
    Set::new(|g: GridEdge| representable(g) && keys.contains(key_of(g)))
}

proof fn lemma_seen_count_bound(m: Map<(i64, i64), u8>, seen: Set<GridEdge>, s: Seq<GridEdge>)
    ensures
        seen_count(m, seen, s) <= s.len(),
    decreases s.len(),
{
    if s.len() > 0 {
        lemma_seen_count_bound(m, seen, s.drop_last());
    }
}

proof fn lemma_seen_count_insert(
    m: Map<(i64, i64), u8>,
    seen: Set<GridEdge>,
    s: Seq<GridEdge>,
    e: GridEdge,
)
    requires
        !seen.contains(e),
        s.no_duplicates(),
    ensures
        seen_count(m, seen.insert(e), s) == seen_count(m, seen, s) + if s.contains(e) && state_of(
            m,
            e,
        ) == Aliveness::Alive {
            1nat
        } else {
            0nat
        },
    decreases s.len(),
{
    if s.len() > 0 {
        let t = s.drop_last();
        assert(t.no_duplicates());
        lemma_seen_count_insert(m, seen, t, e);
        if s.last() == e {
            assert(s.contains(e));
            assert(!t.contains(e));
        } else {
            assert(s.contains(e) <==> t.contains(e)) by {
                if s.contains(e) {
                    let i = choose|i: int| 0 <= i < s.len() && s[i] == e;
                    assert(t[i] == e);
                }
                if t.contains(e) {
                    let i = choose|i: int| 0 <= i < t.len() && t[i] == e;
                    assert(s[i] == e);
                }
            }
        }
    }
}

proof fn lemma_seen_count_full(m: Map<(i64, i64), u8>, seen: Set<GridEdge>, s: Seq<GridEdge>)
    requires
        forall|i: int|
            0 <= i < s.len() && state_of(m, s[i]) == Aliveness::Alive ==> seen.contains(s[i]),
    ensures
        seen_count(m, seen, s) == live_count(m, s),
    decreases s.len(),
{
    if s.len() > 0 {
        let t = s.drop_last();
        assert forall|i: int|
            0 <= i < t.len() && state_of(m, t[i]) == Aliveness::Alive implies seen.contains(t[i]) by {
            assert(t[i] == s[i]);
        }
        lemma_seen_count_full(m, seen, t);
    }
}

/// Counting one more edge `e` adds one to the count of each of its neighbours
/// if it is alive, and changes nothing else.
proof fn lemma_count_step(
    m: Map<(i64, i64), u8>,
    region: NeighborRegion,
    seen: Set<GridEdge>,
    e: GridEdge,
    g: GridEdge,
)
    requires
        !seen.contains(e),
    ensures
        seen_count(m, seen.insert(e), region.neighborhood(g)) == seen_count(
            m,
            seen,
            region.neighborhood(g),
        ) + if region.neighborhood(e).contains(g) && state_of(m, e) == Aliveness::Alive {
            1nat
        } else {
            0nat
        },
{
    lemma_neighbors_distinct(region, g);
    lemma_seen_count_insert(m, seen, region.neighborhood(g), e);
    if region.neighborhood(e).contains(g) {
        lemma_neighbors_symmetric(region, e, g);
    }
    if region.neighborhood(g).contains(e) {
        lemma_neighbors_symmetric(region, g, e);
    }
}

proof fn lemma_seen_count_none(m: Map<(i64, i64), u8>, s: Seq<GridEdge>)
    ensures
        seen_count(m, Set::empty(), s) == 0,
    decreases s.len(),
{
    if s.len() > 0 {
        lemma_seen_count_none(m, s.drop_last());
    }
}

/// Once every hex with a record is counted, the count of each edge is its
/// number of live neighbours.
proof fn lemma_all_counted(m: Map<(i64, i64), u8>, region: NeighborRegion, g: GridEdge)
    ensures
        seen_count(m, hex_edges(m.dom()), region.neighborhood(g)) == live_count(m, region.neighborhood(g)),
{
    let s = region.neighborhood(g);
    assert forall|a: int| 0 <= a < s.len() && state_of(m, s[a]) == Aliveness::Alive implies hex_edges(
        m.dom(),
    ).contains(s[a]) by {
        assert(has_record(m, s[a]));
    }
    lemma_seen_count_full(m, hex_edges(m.dom()), s);
}

/// The pending updates of a whole board give each edge its next state.
proof fn lemma_tally_resolves(m: Map<(i64, i64), u8>, rule: Rule, u: Map<(i64, i64, u8), Update>, p: EdgePos)
    requires
        tallied_at(m, rule.region(), hex_edges(m.dom()), u, p),
    ensures
        u.contains_key(edge_key(p)) ==> resolved(rule, state_of(m, p@), u[edge_key(p)]) == next_state(m, rule, p@),
        !u.contains_key(edge_key(p)) ==> next_state(m, rule, p@) == state_of(m, p@),
{
    let region = rule.region();
    lemma_all_counted(m, region, p@);
    lemma_seen_count_bound(m, hex_edges(m.dom()), region.neighborhood(p@));
    lemma_neighbors_distinct(region, p@);
    assert(hex_edges(m.dom()).contains(p@) <==> has_record(m, p@));
}

} // verus!
