//! Which edges count as the neighbours of an edge.

use vstd::prelude::*;
use crate::math::{canonical, Angle, EdgePos, GridEdge};

verus! {

/// What is considered to be a neighbor?
#[derive(Debug, Clone, Copy, PartialEq, Eq, Structural)]
pub enum NeighborRegion {
    Four,
    Six,
    EightCross,
    EightParallel,
    Ten,
}

/// The edge at angle `a` from `p`, on `p`'s own hex.
pub open spec fn beside(p: GridEdge, a: Angle) -> GridEdge {
    canonical(p.x, p.y, p.dir.direction().turn(a))
}

/// The edge at angle `a` from `p`, on the hex at `p`'s far end.
pub open spec fn across(p: GridEdge, a: Angle) -> GridEdge {
    let d = p.dir.direction();
    canonical(p.x + d.dx(), p.y + d.dy(), d.turn(a))
}

/// The edge parallel to `p`, or opposite it when `a` is `Back`, on the hex
/// that borders `p`'s own hex at angle `side`.
pub open spec fn aside(p: GridEdge, side: Angle, a: Angle) -> GridEdge {
    let d = p.dir.direction();
    let s = d.turn(side);
    canonical(p.x + s.dx(), p.y + s.dy(), d.turn(a))
}

impl NeighborRegion {
    /// How many neighbours each edge has.
    pub open spec fn size(self) -> nat {
        match self {
            NeighborRegion::Four => 4,
            NeighborRegion::Six => 6,
            NeighborRegion::EightCross => 8,
            NeighborRegion::EightParallel => 8,
            NeighborRegion::Ten => 10,
        }
    }

    /// The neighbours of `p`, in the order that `neighbors` lists them.
    pub open spec fn neighborhood(self, p: GridEdge) -> Seq<GridEdge> {
        match self {
            NeighborRegion::Four => seq![
                beside(p, Angle::Left),
                beside(p, Angle::Right),
                across(p, Angle::LeftBack),
                across(p, Angle::RightBack),
            ],
            NeighborRegion::Six => seq![
                beside(p, Angle::Left),
                beside(p, Angle::Right),
                beside(p, Angle::Back),
                across(p, Angle::LeftBack),
                across(p, Angle::RightBack),
                across(p, Angle::Forward),
            ],
            NeighborRegion::EightCross => seq![
                beside(p, Angle::Left),
                beside(p, Angle::Right),
                beside(p, Angle::LeftBack),
                beside(p, Angle::RightBack),
                across(p, Angle::Left),
                across(p, Angle::Right),
                across(p, Angle::LeftBack),
                across(p, Angle::RightBack),
            ],
            NeighborRegion::EightParallel => seq![
                beside(p, Angle::Left),
                beside(p, Angle::Right),
                across(p, Angle::LeftBack),
                across(p, Angle::RightBack),
                aside(p, Angle::Left, Angle::Forward),
                aside(p, Angle::Left, Angle::Back),
                aside(p, Angle::Right, Angle::Forward),
                aside(p, Angle::Right, Angle::Back),
            ],
            NeighborRegion::Ten => seq![
                beside(p, Angle::Left),
                beside(p, Angle::Right),
                beside(p, Angle::LeftBack),
                beside(p, Angle::RightBack),
                beside(p, Angle::Back),
                across(p, Angle::Left),
                across(p, Angle::Right),
                across(p, Angle::LeftBack),
                across(p, Angle::RightBack),
                across(p, Angle::Forward),
            ],
        }
    }

    /// The marker of the region in a rule's notation.
    pub open spec fn marker(self) -> Seq<char> {
        match self {
            NeighborRegion::Four => seq!['4'],
            NeighborRegion::Six => seq!['6'],
            NeighborRegion::EightCross => seq!['8', '*'],
            NeighborRegion::EightParallel => seq!['8', '='],
            NeighborRegion::Ten => seq!['1', '0'],
        }
    }

    pub fn label(&self) -> (r: &'static str)
        ensures
            r@ == self.marker(),
    {
        match self {
            NeighborRegion::Four => {
                proof {
                    reveal_strlit("4");
                }
                "4"
            },
            NeighborRegion::Six => {
                proof {
                    reveal_strlit("6");
                }
                "6"
            },
            NeighborRegion::EightCross => {
                proof {
                    reveal_strlit("8*");
                }
                "8*"
            },
            NeighborRegion::EightParallel => {
                proof {
                    reveal_strlit("8=");
                }
                "8="
            },
            NeighborRegion::Ten => {
                proof {
                    reveal_strlit("10");
                }
                "10"
            },
        }
    }

    pub fn count(&self) -> (r: u32)
        ensures
            r == self.size(),
    {
        match self {
            NeighborRegion::Four => 4,
            NeighborRegion::Six => 6,
            NeighborRegion::EightCross => 8,
            NeighborRegion::EightParallel => 8,
            NeighborRegion::Ten => 10,
        }
    }

    /// The positions of the edges that count as neighbours of `pos`.
    pub fn neighbors(&self, pos: EdgePos) -> (r: Vec<EdgePos>)
        requires
            pos.coord.within(2),
        ensures
            r@.map_values(|e: EdgePos| e@) == self.neighborhood(pos@),
    {
        let coord = pos.coord();
        let real_dir = pos.edge().to_hex2d();
        let neighbor_pos = coord.step(real_dir);
        let r = match self {
            NeighborRegion::Four => vec![
                EdgePos::new(coord, real_dir.rotated(Angle::Left)),
                EdgePos::new(coord, real_dir.rotated(Angle::Right)),
                EdgePos::new(neighbor_pos, real_dir.rotated(Angle::LeftBack)),
                EdgePos::new(neighbor_pos, real_dir.rotated(Angle::RightBack)),
            ],
            NeighborRegion::Six => vec![
                EdgePos::new(coord, real_dir.rotated(Angle::Left)),
                EdgePos::new(coord, real_dir.rotated(Angle::Right)),
                EdgePos::new(coord, real_dir.rotated(Angle::Back)),
                EdgePos::new(neighbor_pos, real_dir.rotated(Angle::LeftBack)),
                EdgePos::new(neighbor_pos, real_dir.rotated(Angle::RightBack)),
                EdgePos::new(neighbor_pos, real_dir),
            ],
            NeighborRegion::EightCross => vec![
                EdgePos::new(coord, real_dir.rotated(Angle::Left)),
                EdgePos::new(coord, real_dir.rotated(Angle::Right)),
                EdgePos::new(coord, real_dir.rotated(Angle::LeftBack)),
                EdgePos::new(coord, real_dir.rotated(Angle::RightBack)),
                EdgePos::new(neighbor_pos, real_dir.rotated(Angle::Left)),
                EdgePos::new(neighbor_pos, real_dir.rotated(Angle::Right)),
                EdgePos::new(neighbor_pos, real_dir.rotated(Angle::LeftBack)),
                EdgePos::new(neighbor_pos, real_dir.rotated(Angle::RightBack)),
            ],
            NeighborRegion::EightParallel => {
                let ccw_neighbor = coord.step(real_dir.rotated(Angle::Left));
                let cw_neighbor = coord.step(real_dir.rotated(Angle::Right));
                vec![
                    EdgePos::new(coord, real_dir.rotated(Angle::Left)),
                    EdgePos::new(coord, real_dir.rotated(Angle::Right)),
                    EdgePos::new(neighbor_pos, real_dir.rotated(Angle::LeftBack)),
                    EdgePos::new(neighbor_pos, real_dir.rotated(Angle::RightBack)),
                    EdgePos::new(ccw_neighbor, real_dir),
                    EdgePos::new(ccw_neighbor, real_dir.rotated(Angle::Back)),
                    EdgePos::new(cw_neighbor, real_dir),
                    EdgePos::new(cw_neighbor, real_dir.rotated(Angle::Back)),
                ]
            },
            NeighborRegion::Ten => vec![
                EdgePos::new(coord, real_dir.rotated(Angle::Left)),
                EdgePos::new(coord, real_dir.rotated(Angle::Right)),
                EdgePos::new(coord, real_dir.rotated(Angle::LeftBack)),
                EdgePos::new(coord, real_dir.rotated(Angle::RightBack)),
                EdgePos::new(coord, real_dir.rotated(Angle::Back)),
                EdgePos::new(neighbor_pos, real_dir.rotated(Angle::Left)),
                EdgePos::new(neighbor_pos, real_dir.rotated(Angle::Right)),
                EdgePos::new(neighbor_pos, real_dir.rotated(Angle::LeftBack)),
                EdgePos::new(neighbor_pos, real_dir.rotated(Angle::RightBack)),
                EdgePos::new(neighbor_pos, real_dir),
            ],
        };
        assert(r@.map_values(|e: EdgePos| e@) =~= self.neighborhood(pos@));
        r
    }
}

/// Membership in a list of at most ten edges, one index at a time.
proof fn lemma_contains_by_index(s: Seq<GridEdge>, e: GridEdge)
    requires
        s.len() <= 10,
    ensures
        s.contains(e) <==> ((s.len() > 0 && s[0] == e) || (s.len() > 1 && s[1] == e) || (
        s.len() > 2 && s[2] == e) || (s.len() > 3 && s[3] == e) || (s.len() > 4 && s[4] == e)
            || (s.len() > 5 && s[5] == e) || (s.len() > 6 && s[6] == e) || (s.len() > 7 && s[7]
            == e) || (s.len() > 8 && s[8] == e) || (s.len() > 9 && s[9] == e)),
{
    if s.contains(e) {
        let i = choose|i: int| 0 <= i < s.len() && s[i] == e;
        assert(0 <= i < 10);
    }
}

/// For every region, an edge is a neighbour of each of its neighbours.
pub proof fn lemma_neighbors_symmetric(r: NeighborRegion, p: GridEdge, q: GridEdge)
    requires
        r.neighborhood(p).contains(q),
    ensures
        r.neighborhood(q).contains(p),
{
    lemma_contains_by_index(r.neighborhood(p), q);
    lemma_contains_by_index(r.neighborhood(q), p);
}

/// The same for the positions that `neighbors` returns: if `q` is among the
/// neighbours listed for `p`, then `p` is among those listed for `q`.
pub proof fn lemma_neighbor_positions_symmetric(
    r: NeighborRegion,
    p: EdgePos,
    q: EdgePos,
    np: Seq<EdgePos>,
    nq: Seq<EdgePos>,
)
    requires
        np.map_values(|e: EdgePos| e@) == r.neighborhood(p@),
        nq.map_values(|e: EdgePos| e@) == r.neighborhood(q@),
        np.contains(q),
    ensures
        nq.contains(p),
{
    let i = choose|i: int| 0 <= i < np.len() && np[i] == q;
    assert(r.neighborhood(p@)[i] == q@);
    lemma_neighbors_symmetric(r, p@, q@);
    let j = choose|j: int| 0 <= j < r.neighborhood(q@).len() && r.neighborhood(q@)[j] == p@;
    assert(nq[j]@ == p@);
    assert(nq[j] == p);
}

/// No region lists an edge twice, nor the edge itself.
pub proof fn lemma_neighbors_distinct(r: NeighborRegion, p: GridEdge)
    ensures
        r.neighborhood(p).no_duplicates(),
        !r.neighborhood(p).contains(p),
        r.neighborhood(p).len() == r.size(),
{
    lemma_contains_by_index(r.neighborhood(p), p);
}

} // verus!
