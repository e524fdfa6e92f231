//! The sparse board of hex records and the state of each edge on it.

use vstd::prelude::*;
use ahash::AHashMap;
use crate::math::{
    lemma_pack_round_trip, lemma_unpacked_packs, representable, Aliveness, EdgePos, EdgesState,
    GridEdge, HexCoord,
};
use crate::store::{
    cells_clear, cells_clone, cells_entries, cells_get, cells_insert, cells_new, cells_of, cells_remove,
};

verus! {

/// The hex coordinate of an edge as a map key, where it fits in `i64`.
pub open spec fn key_of(e: GridEdge) -> (i64, i64) {
    (e.x as i64, e.y as i64)
}

/// The map holds a record for the hex of `e`.
pub open spec fn has_record(m: Map<(i64, i64), u8>, e: GridEdge) -> bool {
    representable(e) && m.contains_key(key_of(e))
}

/// The record of the hex of `e`: all dead where the map holds none.
pub open spec fn record_of(m: Map<(i64, i64), u8>, e: GridEdge) -> EdgesState {
    if has_record(m, e) {
        EdgesState::unpacked(m[key_of(e)] as nat)
    } else {
        EdgesState::all_dead()
    }
}

/// The state of the edge `e` on the board whose records are `m`.
pub open spec fn state_of(m: Map<(i64, i64), u8>, e: GridEdge) -> Aliveness {
    record_of(m, e).at(e.dir)
}

/// Every record is a valid packing with at least one edge that is not dead.
pub open spec fn sparse(m: Map<(i64, i64), u8>) -> bool {
    forall|k: (i64, i64)| #[trigger] m.contains_key(k) ==> 0 < m[k] < 27
}

/// The records after the edge at `p` is given the state `alive`: a record
/// that becomes all dead is removed.
pub open spec fn with_edge(m: Map<(i64, i64), u8>, p: EdgePos, alive: Aliveness) -> Map<(i64, i64), u8> {
    let s = record_of(m, p@).with(p.edge, alive);
    if s.packed() == 0 {
        m.remove(key_of(p@))
    } else {
        m.insert(key_of(p@), s.packed() as u8)
    }
}

/// The state that toggling gives: alive goes to dead, anything else to alive.
pub open spec fn toggled(a: Aliveness) -> Aliveness {
    if a == Aliveness::Alive {
        Aliveness::Dead
    } else {
        Aliveness::Alive
    }
}

/// The records after toggling the edge at `p`.
pub open spec fn twiddled(m: Map<(i64, i64), u8>, p: EdgePos) -> Map<(i64, i64), u8> {
    with_edge(m, p, toggled(state_of(m, p@)))
}

/// A sparse map from hex coordinates to the packed states of their three edges.
pub struct Board {
    cells: AHashMap<(i64, i64), u8>,
}

impl View for Board {
    type V = Map<(i64, i64), u8>;

    closed spec fn view(&self) -> Map<(i64, i64), u8> {
        cells_of(self.cells)
    }
}

/// Setting an edge changes that edge alone and keeps the records sparse.
pub proof fn lemma_with_edge(m: Map<(i64, i64), u8>, p: EdgePos, alive: Aliveness, e: GridEdge)
    requires
        sparse(m),
    ensures
        sparse(with_edge(m, p, alive)),
        state_of(with_edge(m, p, alive), e) == if e == p@ {
            alive
        } else {
            state_of(m, e)
        },
{
    let s = record_of(m, p@).with(p.edge, alive);
    lemma_pack_round_trip(s);
    if has_record(m, p@) {
        lemma_unpacked_packs(m[key_of(p@)] as nat);
    }
    if s.packed() == 0 {
        assert(s == EdgesState::all_dead());
    }
}

impl Clone for Board {
    fn clone(&self) -> (r: Board)
        ensures
            r@ == self@,
    {
        Board { cells: cells_clone(&self.cells) }
    }
}

impl Board {
    pub open spec fn wf(&self) -> bool {
        sparse(self@)
    }

    pub fn new() -> (r: Board)
        ensures
            r.wf(),
            r@ == Map::<(i64, i64), u8>::empty(),
    {
        Board { cells: cells_new() }
    }

    pub fn get_liveness(&self, pos: EdgePos) -> (r: Aliveness)
        requires
            self.wf(),
        ensures
            r == state_of(self@, pos@),
    {
        match cells_get(&self.cells, (pos.coord().x, pos.coord().y)) {
            None => Aliveness::Dead,
            Some(edges) => {
                let state = EdgesState::unpack(edges);
                state.get(pos.edge())
            },
        }
    }

    /// Set the edge to be alive or not.
    pub fn set_alive(&mut self, pos: EdgePos, alive: Aliveness)
        requires
            old(self).wf(),
        ensures
            final(self).wf(),
            final(self)@ == with_edge(old(self)@, pos, alive),
    {
        proof {
            lemma_with_edge(self@, pos, alive, pos@);
        }
        let key = (pos.coord().x, pos.coord().y);
        match alive {
            Aliveness::Barren | Aliveness::Alive => {
                let mut state = match cells_get(&self.cells, key) {
                    None => EdgesState::default(),
                    Some(here) => EdgesState::unpack(here),
                };
                state.set(pos.edge(), alive);
                proof {
                    lemma_pack_round_trip(state);
                }
                cells_insert(&mut self.cells, key, state.pack());
            },
            Aliveness::Dead => {
                // Don't bother creating and then immediately removing
                if let Some(here) = cells_get(&self.cells, key) {
                    let mut state = EdgesState::unpack(here);
                    state.set(pos.edge(), alive);
                    let packed = state.pack();
                    if packed == 0 {
                        cells_remove(&mut self.cells, key);
                    } else {
                        cells_insert(&mut self.cells, key, packed);
                    }
                } else {
                    assert(self@.remove(key) == self@);
                }
            },
        }
    }

    /// Go dead or barren to alive, alive to dead
    pub fn twiddle_alive(&mut self, pos: EdgePos)
        requires
            old(self).wf(),
        ensures
            final(self).wf(),
            final(self)@ == twiddled(old(self)@, pos),
    {
        let alive_here = self.get_liveness(pos);
        self.set_alive(pos, alive_here.flip());
    }

    /// Get the three edges at the given position
    pub fn get_edges(&self, pos: HexCoord) -> (r: Option<EdgesState>)
        requires
            self.wf(),
        ensures
            r == (if self@.contains_key((pos.x, pos.y)) {
                Some(EdgesState::unpacked(self@[(pos.x, pos.y)] as nat))
            } else {
                None
            }),
    {
        match cells_get(&self.cells, (pos.x, pos.y)) {
            None => None,
            Some(packed) => Some(EdgesState::unpack(packed)),
        }
    }

    /// Every hex with a record lies at least two steps from the ends of `i64`.
    pub open spec fn in_bounds(&self) -> bool {
        forall|k: (i64, i64)| #[trigger]
            self@.contains_key(k) ==> (HexCoord { x: k.0, y: k.1 }).within(2)
    }

    /// Whether every hex with a record lies at least two steps from the ends of `i64`.
    pub fn fits_bounds(&self) -> (r: bool)
        ensures
            r == self.in_bounds(),
    {
        let entries = self.records();
        let mut i: usize = 0;
        while i < entries.len()
            invariant
                0 <= i <= entries.len(),
                forall|j: int|
                    0 <= j < entries.len() ==> #[trigger] self@.contains_key(entries[j].0)
                        && self@[entries[j].0] == entries[j].1,
                forall|k: (i64, i64)| #[trigger]
                    self@.contains_key(k) ==> exists|j: int| 0 <= j < entries.len() && entries[j].0 == k,
                forall|j: int|
                    0 <= j < i ==> (HexCoord { x: #[trigger] entries[j].0.0, y: entries[j].0.1 }).within(2),
            decreases entries.len() - i,
        {
            let (x, y) = entries[i].0;
            if x < i64::MIN + 2 || x > i64::MAX - 2 || y < i64::MIN + 2 || y > i64::MAX - 2 {
                assert(self@.contains_key(entries[i as int].0));
                return false;
            }
            i = i + 1;
        }
        true
    }

    /// Every record of the board once, in an order that the map decides.
    pub(crate) fn records(&self) -> (r: Vec<((i64, i64), u8)>)
        ensures
            forall|i: int|
                0 <= i < r.len() ==> #[trigger] self@.contains_key(r[i].0) && self@[r[i].0]
                    == r[i].1,
            forall|k: (i64, i64)| #[trigger]
                self@.contains_key(k) ==> exists|i: int| 0 <= i < r.len() && r[i].0 == k,
            forall|i: int, j: int| 0 <= i < j < r.len() ==> r[i].0 != r[j].0,
    {
        let r = cells_entries(&self.cells);
        assert forall|i: int| 0 <= i < r.len() implies #[trigger] self@.contains_key(r[i].0)
            && self@[r[i].0] == r[i].1 by {
            assert(cells_of(self.cells).contains_key(r[i].0));
        }
        r
    }

    pub fn clear(&mut self)
        ensures
            final(self).wf(),
            final(self)@ == Map::<(i64, i64), u8>::empty(),
    {
        cells_clear(&mut self.cells);
    }
}

} // verus!
