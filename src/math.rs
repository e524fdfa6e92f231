//! Coordinates, directions, edge positions and the packed state of a hex.

use vstd::prelude::*;

verus! {

/// Axial coordinate of a hex.
#[derive(Debug, Clone, Copy, PartialEq, Eq, Hash, Structural)]
pub struct HexCoord {
    pub x: i64,
    pub y: i64,
}

/// One of the six directions around a hex.
///
/// The name gives the axis that grows first and the one that shrinks second.
#[derive(Debug, Clone, Copy, PartialEq, Eq, Hash, Structural)]
pub enum Direction {
    /// +Y -Z
    YZ,
    /// -Z +X
    XZ,
    /// +X -Y
    XY,
    /// -Y +Z
    ZY,
    /// +Z -X
    ZX,
    /// -X +Y
    YX,
}

/// A turn relative to a direction, clockwise.
#[derive(Debug, Clone, Copy, PartialEq, Eq, Hash, Structural)]
pub enum Angle {
    Forward,
    Right,
    RightBack,
    Back,
    LeftBack,
    Left,
}

impl Angle {
    /// The number of sixths of a full turn, clockwise.
    pub open spec fn index(self) -> int {
        match self {
            Angle::Forward => 0,
            Angle::Right => 1,
            Angle::RightBack => 2,
            Angle::Back => 3,
            Angle::LeftBack => 4,
            Angle::Left => 5,
        }
    }

    pub fn to_int(&self) -> (r: u8)
        ensures
            r == self.index(),
    {
        match self {
            Angle::Forward => 0,
            Angle::Right => 1,
            Angle::RightBack => 2,
            Angle::Back => 3,
            Angle::LeftBack => 4,
            Angle::Left => 5,
        }
    }
}

impl Direction {
    /// The position of the direction in clockwise order, starting at YZ.
    pub open spec fn index(self) -> int {
        match self {
            Direction::YZ => 0,
            Direction::XZ => 1,
            Direction::XY => 2,
            Direction::ZY => 3,
            Direction::ZX => 4,
            Direction::YX => 5,
        }
    }

    /// The direction at position `i`, counted modulo six.
    pub open spec fn from_index(i: int) -> Direction {
        let k = i % 6;
        if k == 0 {
            Direction::YZ
        } else if k == 1 {
            Direction::XZ
        } else if k == 2 {
            Direction::XY
        } else if k == 3 {
            Direction::ZY
        } else if k == 4 {
            Direction::ZX
        } else {
            Direction::YX
        }
    }

    /// The change of `x` for one step in this direction.
    pub open spec fn dx(self) -> int {
        match self {
            Direction::YZ => 0,
            Direction::XZ => 1,
            Direction::XY => 1,
            Direction::ZY => 0,
            Direction::ZX => -1,
            Direction::YX => -1,
        }
    }

    /// The change of `y` for one step in this direction.
    pub open spec fn dy(self) -> int {
        match self {
            Direction::YZ => 1,
            Direction::XZ => 0,
            Direction::XY => -1,
            Direction::ZY => -1,
            Direction::ZX => 0,
            Direction::YX => 1,
        }
    }

    /// This direction turned clockwise by `a`.
    pub open spec fn turn(self, a: Angle) -> Direction {
        Direction::from_index(self.index() + a.index())
    }

    pub fn to_int(&self) -> (r: u8)
        ensures
            r == self.index(),
    {
        match self {
            Direction::YZ => 0,
            Direction::XZ => 1,
            Direction::XY => 2,
            Direction::ZY => 3,
            Direction::ZX => 4,
            Direction::YX => 5,
        }
    }

    pub fn from_int(i: u8) -> (r: Direction)
        ensures
            r == Direction::from_index(i as int),
    {
        match i % 6 {
            0 => Direction::YZ,
            1 => Direction::XZ,
            2 => Direction::XY,
            3 => Direction::ZY,
            4 => Direction::ZX,
            _ => Direction::YX,
        }
    }

    pub fn rotated(self, a: Angle) -> (r: Direction)
        ensures
            r == self.turn(a),
    {
        Direction::from_int(self.to_int() + a.to_int())
    }

    pub fn opposite(self) -> (r: Direction)
        ensures
            r == self.turn(Angle::Back),
            r.dx() == -self.dx(),
            r.dy() == -self.dy(),
    {
        match self {
            Direction::YZ => Direction::ZY,
            Direction::XZ => Direction::ZX,
            Direction::XY => Direction::YX,
            Direction::ZY => Direction::YZ,
            Direction::ZX => Direction::XZ,
            Direction::YX => Direction::XY,
        }
    }
}

impl HexCoord {
    pub fn new(x: i64, y: i64) -> (r: HexCoord)
        ensures
            r.x == x,
            r.y == y,
    {
        HexCoord { x, y }
    }

    /// Both coordinates lie at least `margin` away from the ends of `i64`.
    pub open spec fn within(self, margin: int) -> bool {
        i64::MIN + margin <= self.x <= i64::MAX - margin && i64::MIN + margin <= self.y
            <= i64::MAX - margin
    }

    /// The neighbouring hex in direction `d`.
    pub fn step(self, d: Direction) -> (r: HexCoord)
        requires
            i64::MIN <= self.x + d.dx() <= i64::MAX,
            i64::MIN <= self.y + d.dy() <= i64::MAX,
        ensures
            r.x == self.x + d.dx(),
            r.y == self.y + d.dy(),
    {
        match d {
            Direction::YZ => HexCoord { x: self.x, y: self.y + 1 },
            Direction::XZ => HexCoord { x: self.x + 1, y: self.y },
            Direction::XY => HexCoord { x: self.x + 1, y: self.y - 1 },
            Direction::ZY => HexCoord { x: self.x, y: self.y - 1 },
            Direction::ZX => HexCoord { x: self.x - 1, y: self.y },
            Direction::YX => HexCoord { x: self.x - 1, y: self.y + 1 },
        }
    }
}

impl RestrictedHexDir {
    /// The direction of the grid that this stored direction is.
    pub open spec fn direction(self) -> Direction {
        match self {
            RestrictedHexDir::XY => Direction::XY,
            RestrictedHexDir::ZY => Direction::ZY,
            RestrictedHexDir::ZX => Direction::ZX,
        }
    }

    /// The position of this edge's digit in a packed record.
    pub open spec fn slot(self) -> int {
        match self {
            RestrictedHexDir::XY => 0,
            RestrictedHexDir::ZY => 1,
            RestrictedHexDir::ZX => 2,
        }
    }

    pub fn to_hex2d(&self) -> (r: Direction)
        ensures
            r == self.direction(),
    {
        match self {
            RestrictedHexDir::XY => Direction::XY,
            RestrictedHexDir::ZY => Direction::ZY,
            RestrictedHexDir::ZX => Direction::ZX,
        }
    }

    pub fn to_slot(&self) -> (r: u8)
        ensures
            r == self.slot(),
    {
        match self {
            RestrictedHexDir::XY => 0,
            RestrictedHexDir::ZY => 1,
            RestrictedHexDir::ZX => 2,
        }
    }

    pub fn from_slot(i: u8) -> (r: RestrictedHexDir)
        requires
            i < 3,
        ensures
            r.slot() == i,
    {
        match i {
            0 => RestrictedHexDir::XY,
            1 => RestrictedHexDir::ZY,
            _ => RestrictedHexDir::ZX,
        }
    }
}

/// An edge of the unbounded grid, with coordinates in mathematical integers.
pub struct GridEdge {
    pub x: int,
    pub y: int,
    pub dir: RestrictedHexDir,
}

/// The coordinates of `e` fit in `i64`.
pub open spec fn representable(e: GridEdge) -> bool {
    i64::MIN <= e.x <= i64::MAX && i64::MIN <= e.y <= i64::MAX
}

/// The canonical edge that lies in direction `d` of the hex at `(x, y)`.
///
/// A stored direction keeps the hex; any other moves to the neighbour in that
/// direction and takes the opposite direction there.
pub open spec fn canonical(x: int, y: int, d: Direction) -> GridEdge {
    match d {
        Direction::XY => GridEdge { x, y, dir: RestrictedHexDir::XY },
        Direction::ZY => GridEdge { x, y, dir: RestrictedHexDir::ZY },
        Direction::ZX => GridEdge { x, y, dir: RestrictedHexDir::ZX },
        Direction::YX => GridEdge { x: x + d.dx(), y: y + d.dy(), dir: RestrictedHexDir::XY },
        Direction::YZ => GridEdge { x: x + d.dx(), y: y + d.dy(), dir: RestrictedHexDir::ZY },
        Direction::XZ => GridEdge { x: x + d.dx(), y: y + d.dy(), dir: RestrictedHexDir::ZX },
    }
}

/// Turn an unrestricted direction into the restricted direction on the coordinate.
pub fn canonicalize(coord: HexCoord, dir: Direction) -> (r: (HexCoord, RestrictedHexDir))
    requires
        representable(canonical(coord.x as int, coord.y as int, dir)),
    ensures
        canonical(coord.x as int, coord.y as int, dir) == (GridEdge {
            x: r.0.x as int,
            y: r.0.y as int,
            dir: r.1,
        }),
{
    match dir {
        Direction::XY => (coord, RestrictedHexDir::XY),
        Direction::ZY => (coord, RestrictedHexDir::ZY),
        Direction::ZX => (coord, RestrictedHexDir::ZX),
        Direction::YX => (coord.step(dir), RestrictedHexDir::XY),
        Direction::YZ => (coord.step(dir), RestrictedHexDir::ZY),
        Direction::XZ => (coord.step(dir), RestrictedHexDir::ZX),
    }
}

/// The canonical position of one edge of the grid.
#[derive(Debug, Clone, Copy, PartialEq, Eq, Hash, Structural)]
pub struct EdgePos {
    pub coord: HexCoord,
    pub edge: RestrictedHexDir,
}

impl View for EdgePos {
    type V = GridEdge;

    open spec fn view(&self) -> GridEdge {
        GridEdge { x: self.coord.x as int, y: self.coord.y as int, dir: self.edge }
    }
}

impl EdgePos {
    /// Turn a coordinate and a raw direction into the edge's canonical position.
    pub fn new(coord: HexCoord, dir: Direction) -> (r: EdgePos)
        requires
            representable(canonical(coord.x as int, coord.y as int, dir)),
        ensures
            r@ == canonical(coord.x as int, coord.y as int, dir),
    {
        let (coord, edge) = canonicalize(coord, dir);
        EdgePos { coord, edge }
    }

    pub fn new_raw(coord: HexCoord, edge: RestrictedHexDir) -> (r: EdgePos)
        ensures
            r.coord == coord,
            r.edge == edge,
    {
        EdgePos { coord, edge }
    }

    pub fn coord(&self) -> (r: HexCoord)
        ensures
            r == self.coord,
    {
        self.coord
    }

    pub fn dir(&self) -> (r: Direction)
        ensures
            r == self.edge.direction(),
    {
        self.edge.to_hex2d()
    }

    pub fn edge(&self) -> (r: RestrictedHexDir)
        ensures
            r == self.edge,
    {
        self.edge
    }
}

/// The same edge seen from the hex on its other side gives the same position.
pub proof fn lemma_canonical_from_both_sides(x: int, y: int, d: Direction)
    ensures
        canonical(x, y, d) == canonical(x + d.dx(), y + d.dy(), d.turn(Angle::Back)),
{
}

/// `EdgePos::new(c, d)` and `EdgePos::new(c.step(d), d.opposite())` give the
/// same position: whatever two positions those calls return are equal.
pub proof fn lemma_edge_pos_from_both_sides(c: HexCoord, d: Direction, p: EdgePos, q: EdgePos)
    requires
        p@ == canonical(c.x as int, c.y as int, d),
        q@ == canonical(c.x + d.dx(), c.y + d.dy(), d.turn(Angle::Back)),
    ensures
        p == q,
{
    lemma_canonical_from_both_sides(c.x as int, c.y as int, d);
}

/// The state of one edge.
#[derive(Debug, Clone, Copy, PartialEq, Eq, Hash, Structural)]
pub enum Aliveness {
    Dead,
    Barren,
    Alive,
}

impl Aliveness {
    /// The digit that stands for this state in a packed record.
    pub open spec fn code(self) -> nat {
        match self {
            Aliveness::Dead => 0,
            Aliveness::Barren => 1,
            Aliveness::Alive => 2,
        }
    }

    pub open spec fn of_code(x: nat) -> Aliveness {
        if x == 0 {
            Aliveness::Dead
        } else if x == 1 {
            Aliveness::Barren
        } else {
            Aliveness::Alive
        }
    }

    pub fn convert(self) -> (r: u8)
        ensures
            r == self.code(),
    {
        match self {
            Aliveness::Dead => 0,
            Aliveness::Barren => 1,
            Aliveness::Alive => 2,
        }
    }

    pub fn unconvert(x: u8) -> (r: Aliveness)
        requires
            x < 3,
        ensures
            r.code() == x,
            r == Aliveness::of_code(x as nat),
    {
        match x {
            0 => Aliveness::Dead,
            1 => Aliveness::Barren,
            _ => Aliveness::Alive,
        }
    }
}

impl Aliveness {
    /// The state that toggling gives: alive goes to dead, anything else to alive.
    pub fn flip(self) -> (r: Aliveness)
        ensures
            r == crate::board::toggled(self),
    {
        match self {
            Aliveness::Dead | Aliveness::Barren => Aliveness::Alive,
            Aliveness::Alive => Aliveness::Dead,
        }
    }
}

impl Default for Aliveness {
    fn default() -> (r: Aliveness)
        ensures
            r == Aliveness::Dead,
    {
        Aliveness::Dead
    }
}

/// Hex direction, restricted to the three edges that a hex stores itself.
#[derive(Debug, Clone, Copy, PartialEq, Eq, Hash, Structural)]
pub enum RestrictedHexDir {
    /// Right
    XY,
    /// Down-right
    ZY,
    /// Down-left
    ZX,
}

/// The liveness of the three edges that a hex stores.
#[derive(Debug, Clone, Copy, PartialEq, Eq, Hash, Structural)]
pub struct EdgesState {
    pub xy: Aliveness,
    pub zy: Aliveness,
    pub zx: Aliveness,
}

/// The record of a hex whose three edges are in the given states.
pub open spec fn edges_of(xy: Aliveness, zy: Aliveness, zx: Aliveness) -> EdgesState {
    EdgesState { xy, zy, zx }
}

impl EdgesState {
    pub open spec fn at(self, edge: RestrictedHexDir) -> Aliveness {
        match edge {
            RestrictedHexDir::XY => self.xy,
            RestrictedHexDir::ZY => self.zy,
            RestrictedHexDir::ZX => self.zx,
        }
    }

    pub open spec fn with(self, edge: RestrictedHexDir, alive: Aliveness) -> EdgesState {
        match edge {
            RestrictedHexDir::XY => EdgesState { xy: alive, ..self },
            RestrictedHexDir::ZY => EdgesState { zy: alive, ..self },
            RestrictedHexDir::ZX => EdgesState { zx: alive, ..self },
        }
    }

    /// The base-3 number whose least significant digit is XY, then ZY, then ZX.
    pub open spec fn packed(self) -> nat {
        self.xy.code() + 3 * self.zy.code() + 9 * self.zx.code()
    }

    pub open spec fn unpacked(n: nat) -> EdgesState {
        EdgesState {
            xy: Aliveness::of_code(n % 3),
            zy: Aliveness::of_code((n / 3) % 3),
            zx: Aliveness::of_code((n / 9) % 3),
        }
    }

    pub open spec fn all_dead() -> EdgesState {
        edges_of(Aliveness::Dead, Aliveness::Dead, Aliveness::Dead)
    }

    pub fn new(xy: Aliveness, zy: Aliveness, zx: Aliveness) -> (r: EdgesState)
        ensures
            r == edges_of(xy, zy, zx),
    {
        EdgesState { xy, zy, zx }
    }

    pub fn get(&self, edge: RestrictedHexDir) -> (r: Aliveness)
        ensures
            r == self.at(edge),
    {
        match edge {
            RestrictedHexDir::XY => self.xy,
            RestrictedHexDir::ZY => self.zy,
            RestrictedHexDir::ZX => self.zx,
        }
    }

    pub fn set(&mut self, edge: RestrictedHexDir, alive: Aliveness)
        ensures
            *final(self) == old(self).with(edge, alive),
    {
        match edge {
            RestrictedHexDir::XY => self.xy = alive,
            RestrictedHexDir::ZY => self.zy = alive,
            RestrictedHexDir::ZX => self.zx = alive,
        }
    }

    /// Pack into a number from 0 to 26.
    pub fn pack(&self) -> (r: u8)
        ensures
            r == self.packed(),
            r < 27,
    {
        self.xy.convert() + self.zy.convert() * 3 + self.zx.convert() * 9
    }

    pub fn unpack(packed: u8) -> (r: EdgesState)
        requires
            packed < 27,
        ensures
            r == EdgesState::unpacked(packed as nat),
            r.packed() == packed,
    {
        let xy = packed % 3;
        let zy = (packed / 3) % 3;
        let zx = (packed / 9) % 3;
        proof {
            lemma_unpacked_packs(packed as nat);
        }
        EdgesState {
            xy: Aliveness::unconvert(xy),
            zy: Aliveness::unconvert(zy),
            zx: Aliveness::unconvert(zx),
        }
    }
}

impl Default for EdgesState {
    fn default() -> (r: EdgesState)
        ensures
            r == EdgesState::all_dead(),
    {
        EdgesState { xy: Aliveness::Dead, zy: Aliveness::Dead, zx: Aliveness::Dead }
    }
}

/// Every number below 27 is the packing of the record that it unpacks to.
pub proof fn lemma_unpacked_packs(n: nat)
    requires
        n < 27,
    ensures
        EdgesState::unpacked(n).packed() == n,
{
    assert(n % 3 + 3 * ((n / 3) % 3) + 9 * ((n / 9) % 3) == n) by (nonlinear_arith)
        requires n < 27;
}

/// Packing a record and unpacking the number gives the record back.
pub proof fn lemma_pack_round_trip(s: EdgesState)
    ensures
        s.packed() < 27,
        EdgesState::unpacked(s.packed()) == s,
{
    let n = s.packed();
    let (a, b, c) = (s.xy.code(), s.zy.code(), s.zx.code());
    assert(n % 3 == a && (n / 3) % 3 == b && (n / 9) % 3 == c) by (nonlinear_arith)
        requires n == a + 3 * b + 9 * c, a < 3, b < 3, c < 3;
}

} // verus!
