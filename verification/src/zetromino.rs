//! Pieces of the falling-block game: the shape catalog, the movable
//! four-mino piece, and its coordinate queries.

use rand::Rng;
use vstd::prelude::*;

verus! {

/// Number of columns of the visible playfield.
pub const PLAYFIELD_HCELLS: usize = 10;

/// Number of rows of the visible playfield.
pub const PLAYFIELD_VCELLS: usize = 20;

/// The color attached to a piece or a settled cell. The simulation treats it
/// as opaque data; a renderer picks a sprite by its ordinal.
#[derive(Clone, Copy, Debug, PartialEq, Eq, Structural)]
pub enum MinoColor {
    Grey,
    Cyan,
    Yellow,
    Purple,
    Green,
    Red,
    Blue,
    Orange,
}

impl MinoColor {
    /// The stable position of each color in the palette, used only at the
    /// rendering boundary to pick a sprite.
    pub open spec fn spec_ordinal(self) -> int {
        match self {
            MinoColor::Grey => 0,
            MinoColor::Cyan => 1,
            MinoColor::Yellow => 2,
            MinoColor::Purple => 3,
            MinoColor::Green => 4,
            MinoColor::Red => 5,
            MinoColor::Blue => 6,
            MinoColor::Orange => 7,
        }
    }

    /// Maps the color to its stable ordinal.
    pub fn ordinal(&self) -> (r: u8)
        ensures
            r as int == self.spec_ordinal(),
    {
        match self {
            MinoColor::Grey => 0,
            MinoColor::Cyan => 1,
            MinoColor::Yellow => 2,
            MinoColor::Purple => 3,
            MinoColor::Green => 4,
            MinoColor::Red => 5,
            MinoColor::Blue => 6,
            MinoColor::Orange => 7,
        }
    }
}

impl Default for MinoColor {
    /// The color of an unoccupied cell.
    fn default() -> (c: Self)
        ensures
            c == MinoColor::Grey,
    {
        MinoColor::Grey
    }
}

/// One of the seven canonical piece shapes.
#[derive(Clone, Copy, Debug, PartialEq, Eq, Structural)]
pub enum Kind {
    I,
    O,
    T,
    S,
    Z,
    J,
    L,
}

impl Kind {
    /// The kind drawn for each index of the closed range `0 .. 7`.
    pub open spec fn spec_from_index(i: int) -> Kind {
        if i == 0 {
            Kind::I
        } else if i == 1 {
            Kind::O
        } else if i == 2 {
            Kind::T
        } else if i == 3 {
            Kind::S
        } else if i == 4 {
            Kind::Z
        } else if i == 5 {
            Kind::J
        } else {
            Kind::L
        }
    }

    /// Maps an index that was sampled from the closed set of seven kinds to
    /// its kind. Out-of-range indices are unrepresentable by the caller's
    /// obligation, not mapped to a silent default.
    pub fn from_index(i: u8) -> (k: Kind)
        requires
            i < 7,
        ensures
            k == Kind::spec_from_index(i as int),
    {
        match i {
            0 => Kind::I,
            1 => Kind::O,
            2 => Kind::T,
            3 => Kind::S,
            4 => Kind::Z,
            5 => Kind::J,
            _ => Kind::L,
        }
    }
}

/// One cell coordinate: `x` is the column, `y` the row. Rows are negative in
/// the vanish zone above the visible playfield.
#[derive(Clone, Copy, Debug, PartialEq, Eq, Structural)]
pub struct Coord {
    pub x: i8,
    pub y: i8,
}

/// A rigid group of four minos with one color, translatable as a unit.
#[derive(Clone, Copy, Debug)]
pub struct Zetromino {
    pub minos: [Coord; 4],
    pub color: MinoColor,
}

/// The four spawn coordinates of each kind: anchored near the horizontal
/// center of the 10-column playfield, with the topmost row in the vanish
/// zone (negative).
pub open spec fn spec_spawn_minos(kind: Kind) -> Seq<Coord> {
    match kind {
        Kind::I => seq![
            Coord { x: 3i8, y: -1i8 },
            Coord { x: 4i8, y: -1i8 },
            Coord { x: 5i8, y: -1i8 },
            Coord { x: 6i8, y: -1i8 },
        ],
        Kind::O => seq![
            Coord { x: 4i8, y: -2i8 },
            Coord { x: 5i8, y: -2i8 },
            Coord { x: 4i8, y: -1i8 },
            Coord { x: 5i8, y: -1i8 },
        ],
        Kind::T => seq![
            Coord { x: 5i8, y: -2i8 },
            Coord { x: 4i8, y: -1i8 },
            Coord { x: 5i8, y: -1i8 },
            Coord { x: 6i8, y: -1i8 },
        ],
        Kind::S => seq![
            Coord { x: 5i8, y: -2i8 },
            Coord { x: 6i8, y: -2i8 },
            Coord { x: 5i8, y: -1i8 },
            Coord { x: 4i8, y: -1i8 },
        ],
        Kind::Z => seq![
            Coord { x: 4i8, y: -2i8 },
            Coord { x: 5i8, y: -2i8 },
            Coord { x: 5i8, y: -1i8 },
            Coord { x: 6i8, y: -1i8 },
        ],
        Kind::J => seq![
            Coord { x: 4i8, y: -2i8 },
            Coord { x: 4i8, y: -1i8 },
            Coord { x: 5i8, y: -1i8 },
            Coord { x: 6i8, y: -1i8 },
        ],
        Kind::L => seq![
            Coord { x: 6i8, y: -2i8 },
            Coord { x: 4i8, y: -1i8 },
            Coord { x: 5i8, y: -1i8 },
            Coord { x: 6i8, y: -1i8 },
        ],
    }
}

/// The color of each kind's pieces.
pub open spec fn spec_spawn_color(kind: Kind) -> MinoColor {
    match kind {
        Kind::I => MinoColor::Cyan,
        Kind::O => MinoColor::Yellow,
        Kind::T => MinoColor::Purple,
        Kind::S => MinoColor::Green,
        Kind::Z => MinoColor::Red,
        Kind::J => MinoColor::Blue,
        Kind::L => MinoColor::Orange,
    }
}

/// Holds when `p` is exactly the piece that spawning kind `kind` produces.
pub open spec fn is_spawn(p: Zetromino, kind: Kind) -> bool {
    p.minos@ == spec_spawn_minos(kind) && p.color == spec_spawn_color(kind)
}

/// Holds when `q` is `p` moved rigidly by `dx` columns and `dy` rows: the
/// color is kept and every mino is shifted by the same offset.
pub open spec fn moved_by(p: Zetromino, q: Zetromino, dx: int, dy: int) -> bool {
    &&& q.color == p.color
    &&& forall|i: int|
        0 <= i < 4 ==> (#[trigger] q.minos@[i]).x == p.minos@[i].x + dx && q.minos@[i].y
            == p.minos@[i].y + dy
}

/// Every spawn position lies wholly in the vanish zone: each mino's row is
/// negative, and its column is inside the playfield.
pub proof fn lemma_spawn_in_vanish(kind: Kind)
    ensures
        forall|i: int| 0 <= i < 4 ==> (#[trigger] spec_spawn_minos(kind)[i]).y < 0,
        forall|i: int|
            0 <= i < 4 ==> 0 <= (#[trigger] spec_spawn_minos(kind)[i]).x
                < PLAYFIELD_HCELLS as int,
{
    let s = spec_spawn_minos(kind);
    assert forall|i: int|
        0 <= i < 4 implies (#[trigger] s[i]).y < 0 && 0 <= s[i].x < PLAYFIELD_HCELLS as int by {
        assert(i == 0 || i == 1 || i == 2 || i == 3);
    }
}

/// Relies on rand's `Rng::gen_range` on `thread_rng`: the sampled value lies
/// within the given range, which `requires` keeps non-empty.
#[verifier::external_body]
fn random_index_below(n: u8) -> (r: u8)
    requires
        n > 0,
    ensures
        r < n,
{
    rand::thread_rng().gen_range(0..n)
}

impl Zetromino {
    /// Produces the piece of the given kind at its fixed spawn position.
    pub fn new(kind: Kind) -> (p: Self)
        ensures
            is_spawn(p, kind),
    {
        let half: i8 = (PLAYFIELD_HCELLS / 2) as i8;
        let p = match kind {
            Kind::I => {
                let x_0: i8 = half - 2;
                let y_0: i8 = -1;
                Self {
                    minos: [
                        Coord { x: x_0, y: y_0 },
                        Coord { x: x_0 + 1, y: y_0 },
                        Coord { x: x_0 + 2, y: y_0 },
                        Coord { x: x_0 + 3, y: y_0 },
                    ],
                    color: MinoColor::Cyan,
                }
            },
            Kind::O => {
                let x_0: i8 = half - 1;
                let y_0: i8 = -2;
                Self {
                    minos: [
                        Coord { x: x_0, y: y_0 },
                        Coord { x: x_0 + 1, y: y_0 },
                        Coord { x: x_0, y: y_0 + 1 },
                        Coord { x: x_0 + 1, y: y_0 + 1 },
                    ],
                    color: MinoColor::Yellow,
                }
            },
            Kind::T => {
                let x_0: i8 = half - 1;
                let y_0: i8 = -2;
                Self {
                    minos: [
                        Coord { x: x_0 + 1, y: y_0 },
                        Coord { x: x_0, y: y_0 + 1 },
                        Coord { x: x_0 + 1, y: y_0 + 1 },
                        Coord { x: x_0 + 2, y: y_0 + 1 },
                    ],
                    color: MinoColor::Purple,
                }
            },
            Kind::S => {
                let x_0: i8 = half - 1;
                let y_0: i8 = -2;
                Self {
                    minos: [
                        Coord { x: x_0 + 1, y: y_0 },
                        Coord { x: x_0 + 2, y: y_0 },
                        Coord { x: x_0 + 1, y: y_0 + 1 },
                        Coord { x: x_0, y: y_0 + 1 },
                    ],
                    color: MinoColor::Green,
                }
            },
            Kind::Z => {
                let x_0: i8 = half - 1;
                let y_0: i8 = -2;
                Self {
                    minos: [
                        Coord { x: x_0, y: y_0 },
                        Coord { x: x_0 + 1, y: y_0 },
                        Coord { x: x_0 + 1, y: y_0 + 1 },
                        Coord { x: x_0 + 2, y: y_0 + 1 },
                    ],
                    color: MinoColor::Red,
                }
            },
            Kind::J => {
                let x_0: i8 = half - 1;
                let y_0: i8 = -2;
                Self {
                    minos: [
                        Coord { x: x_0, y: y_0 },
                        Coord { x: x_0, y: y_0 + 1 },
                        Coord { x: x_0 + 1, y: y_0 + 1 },
                        Coord { x: x_0 + 2, y: y_0 + 1 },
                    ],
                    color: MinoColor::Blue,
                }
            },
            Kind::L => {
                let x_0: i8 = half - 1;
                let y_0: i8 = -2;
                Self {
                    minos: [
                        Coord { x: x_0 + 2, y: y_0 },
                        Coord { x: x_0, y: y_0 + 1 },
                        Coord { x: x_0 + 1, y: y_0 + 1 },
                        Coord { x: x_0 + 2, y: y_0 + 1 },
                    ],
                    color: MinoColor::Orange,
                }
            },
        };
        proof {
            assert(p.minos@ =~= spec_spawn_minos(kind));
        }
        p
    }

    /// Spawns a piece of a kind drawn uniformly from the seven kinds by the
    /// process random source.
    pub fn random_zetromino() -> (p: Self)
        ensures
            exists|k: Kind| is_spawn(p, k),
    {
        let kind = Kind::from_index(random_index_below(7));
        let p = Self::new(kind);
        proof {
            assert(is_spawn(p, kind));
        }
        p
    }

    /// Shifts every mino one row downward. The rows must have room in the
    /// machine range; a caller's collision checks bound them well before it.
    pub fn down(&mut self)
        requires
            forall|i: int| 0 <= i < 4 ==> (#[trigger] old(self).minos@[i]).y < i8::MAX,
        ensures
            moved_by(*old(self), *final(self), 0, 1),
    {
        self.minos = [
            Coord { x: self.minos[0].x, y: self.minos[0].y + 1 },
            Coord { x: self.minos[1].x, y: self.minos[1].y + 1 },
            Coord { x: self.minos[2].x, y: self.minos[2].y + 1 },
            Coord { x: self.minos[3].x, y: self.minos[3].y + 1 },
        ];
    }

    /// Shifts every mino one column to the left.
    pub fn left(&mut self)
        requires
            forall|i: int| 0 <= i < 4 ==> (#[trigger] old(self).minos@[i]).x > i8::MIN,
        ensures
            moved_by(*old(self), *final(self), -1, 0),
    {
        self.minos = [
            Coord { x: self.minos[0].x - 1, y: self.minos[0].y },
            Coord { x: self.minos[1].x - 1, y: self.minos[1].y },
            Coord { x: self.minos[2].x - 1, y: self.minos[2].y },
            Coord { x: self.minos[3].x - 1, y: self.minos[3].y },
        ];
    }

    /// Shifts every mino one column to the right.
    pub fn right(&mut self)
        requires
            forall|i: int| 0 <= i < 4 ==> (#[trigger] old(self).minos@[i]).x < i8::MAX,
        ensures
            moved_by(*old(self), *final(self), 1, 0),
    {
        self.minos = [
            Coord { x: self.minos[0].x + 1, y: self.minos[0].y },
            Coord { x: self.minos[1].x + 1, y: self.minos[1].y },
            Coord { x: self.minos[2].x + 1, y: self.minos[2].y },
            Coord { x: self.minos[3].x + 1, y: self.minos[3].y },
        ];
    }

    /// The least row among the four minos.
    pub open spec fn spec_min_y(self) -> int {
        vstd::math::min(
            vstd::math::min(self.minos@[0].y as int, self.minos@[1].y as int),
            vstd::math::min(self.minos@[2].y as int, self.minos@[3].y as int),
        )
    }

    /// The greatest row among the four minos.
    pub open spec fn spec_max_y(self) -> int {
        vstd::math::max(
            vstd::math::max(self.minos@[0].y as int, self.minos@[1].y as int),
            vstd::math::max(self.minos@[2].y as int, self.minos@[3].y as int),
        )
    }

    /// The least column among the four minos.
    pub open spec fn spec_min_x(self) -> int {
        vstd::math::min(
            vstd::math::min(self.minos@[0].x as int, self.minos@[1].x as int),
            vstd::math::min(self.minos@[2].x as int, self.minos@[3].x as int),
        )
    }

    /// The greatest column among the four minos.
    pub open spec fn spec_max_x(self) -> int {
        vstd::math::max(
            vstd::math::max(self.minos@[0].x as int, self.minos@[1].x as int),
            vstd::math::max(self.minos@[2].x as int, self.minos@[3].x as int),
        )
    }

    /// The topmost row the piece reaches.
    pub fn min_y(&self) -> (r: i8)
        ensures
            r as int == self.spec_min_y(),
    {
        let mut r = self.minos[0].y;
        if self.minos[1].y < r {
            r = self.minos[1].y;
        }
        if self.minos[2].y < r {
            r = self.minos[2].y;
        }
        if self.minos[3].y < r {
            r = self.minos[3].y;
        }
        r
    }

    /// The bottommost row the piece reaches.
    pub fn max_y(&self) -> (r: i8)
        ensures
            r as int == self.spec_max_y(),
    {
        let mut r = self.minos[0].y;
        if self.minos[1].y > r {
            r = self.minos[1].y;
        }
        if self.minos[2].y > r {
            r = self.minos[2].y;
        }
        if self.minos[3].y > r {
            r = self.minos[3].y;
        }
        r
    }

    /// The leftmost column the piece reaches.
    pub fn min_x(&self) -> (r: i8)
        ensures
            r as int == self.spec_min_x(),
    {
        let mut r = self.minos[0].x;
        if self.minos[1].x < r {
            r = self.minos[1].x;
        }
        if self.minos[2].x < r {
            r = self.minos[2].x;
        }
        if self.minos[3].x < r {
            r = self.minos[3].x;
        }
        r
    }

    /// The rightmost column the piece reaches.
    pub fn max_x(&self) -> (r: i8)
        ensures
            r as int == self.spec_max_x(),
    {
        let mut r = self.minos[0].x;
        if self.minos[1].x > r {
            r = self.minos[1].x;
        }
        if self.minos[2].x > r {
            r = self.minos[2].x;
        }
        if self.minos[3].x > r {
            r = self.minos[3].x;
        }
        r
    }
}

} // verus!
