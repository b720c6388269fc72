//! The falling piece: shape tables, movement, rotation with wall kicks,
//! fixed-point gravity, lock delay and locking into the well.

use vstd::prelude::*;

use crate::hooks::Sounds;
use crate::input::{Input, Inputs};
use crate::well::{grid_wf, Block, BlockDirections, GridModel, Tile, Well, WELL_COLS, WELL_ROWS};

verus! {

/// Orientation of the falling piece, a 4-cycle.
#[derive(Copy, Clone, Debug, PartialEq, Eq, Structural)]
pub enum Rotation {
    R0,
    R90,
    R180,
    R270,
}

impl Rotation {
    /// The next orientation counter-clockwise.
    pub open spec fn spec_ccw(&self) -> Rotation {
        match self {
            Rotation::R0 => Rotation::R270,
            Rotation::R90 => Rotation::R0,
            Rotation::R180 => Rotation::R90,
            Rotation::R270 => Rotation::R180,
        }
    }

    #[verifier::when_used_as_spec(spec_ccw)]
    pub fn ccw(&self) -> (r: Rotation)
        ensures
            r == self.spec_ccw(),
    {
        match self {
            Rotation::R0 => Rotation::R270,
            Rotation::R90 => Rotation::R0,
            Rotation::R180 => Rotation::R90,
            Rotation::R270 => Rotation::R180,
        }
    }

    /// The next orientation clockwise.
    pub open spec fn spec_cw(&self) -> Rotation {
        match self {
            Rotation::R0 => Rotation::R90,
            Rotation::R90 => Rotation::R180,
            Rotation::R180 => Rotation::R270,
            Rotation::R270 => Rotation::R0,
        }
    }

    #[verifier::when_used_as_spec(spec_cw)]
    pub fn cw(&self) -> (r: Rotation)
        ensures
            r == self.spec_cw(),
    {
        match self {
            Rotation::R0 => Rotation::R90,
            Rotation::R90 => Rotation::R180,
            Rotation::R180 => Rotation::R270,
            Rotation::R270 => Rotation::R0,
        }
    }
}

/// The seven piece shapes.
#[derive(Copy, Clone, Debug, PartialEq, Eq, Structural)]
pub enum Rotations {
    IPiece,
    OPiece,
    TPiece,
    ZPiece,
    SPiece,
    JPiece,
    LPiece,
}

/// The fixed shape table: whether the cell at `(row, col)` of the piece's
/// 4x4 bounding box is occupied in orientation `r`.  The three-wide shapes
/// live in the upper-left 3x3 corner of the box; every cell outside the box
/// is vacant.
pub open spec fn occ(s: Rotations, r: Rotation, row: int, col: int) -> bool {
    match s {
        Rotations::IPiece => match r {
            Rotation::R0 | Rotation::R180 => row == 1 && 0 <= col <= 3,
            Rotation::R90 | Rotation::R270 => col == 2 && 0 <= row <= 3,
        },
        Rotations::OPiece => 1 <= row <= 2 && 1 <= col <= 2,
        Rotations::TPiece => match r {
            Rotation::R0 => (row == 1 && 0 <= col <= 2) || (row == 2 && col == 1),
            Rotation::R90 => (col == 1 && 0 <= row <= 2) || (row == 1 && col == 0),
            Rotation::R180 => (row == 2 && 0 <= col <= 2) || (row == 1 && col == 1),
            Rotation::R270 => (col == 1 && 0 <= row <= 2) || (row == 1 && col == 2),
        },
        Rotations::ZPiece => match r {
            Rotation::R0 | Rotation::R180 => (row == 1 && 0 <= col <= 1) || (row == 2 && 1 <= col
                <= 2),
            Rotation::R90 | Rotation::R270 => (col == 2 && 0 <= row <= 1) || (col == 1 && 1 <= row
                <= 2),
        },
        Rotations::SPiece => match r {
            Rotation::R0 | Rotation::R180 => (row == 1 && 1 <= col <= 2) || (row == 2 && 0 <= col
                <= 1),
            Rotation::R90 | Rotation::R270 => (col == 0 && 0 <= row <= 1) || (col == 1 && 1 <= row
                <= 2),
        },
        Rotations::JPiece => match r {
            Rotation::R0 => (row == 1 && 0 <= col <= 2) || (row == 2 && col == 2),
            Rotation::R90 => (col == 1 && 0 <= row <= 2) || (row == 2 && col == 0),
            Rotation::R180 => (row == 2 && 0 <= col <= 2) || (row == 1 && col == 0),
            Rotation::R270 => (col == 1 && 0 <= row <= 2) || (row == 0 && col == 2),
        },
        Rotations::LPiece => match r {
            Rotation::R0 => (row == 1 && 0 <= col <= 2) || (row == 2 && col == 0),
            Rotation::R90 => (col == 1 && 0 <= row <= 2) || (row == 0 && col == 0),
            Rotation::R180 => (row == 2 && 0 <= col <= 2) || (row == 1 && col == 2),
            Rotation::R270 => (col == 1 && 0 <= row <= 2) || (row == 2 && col == 2),
        },
    }
}

/// Executable lookup into the shape table.
pub fn shape_occupied(s: Rotations, r: Rotation, row: i32, col: i32) -> (b: bool)
    ensures
        b == occ(s, r, row as int, col as int),
{
    match s {
        Rotations::IPiece => match r {
            Rotation::R0 | Rotation::R180 => row == 1 && 0 <= col && col <= 3,
            Rotation::R90 | Rotation::R270 => col == 2 && 0 <= row && row <= 3,
        },
        Rotations::OPiece => 1 <= row && row <= 2 && 1 <= col && col <= 2,
        Rotations::TPiece => match r {
            Rotation::R0 => (row == 1 && 0 <= col && col <= 2) || (row == 2 && col == 1),
            Rotation::R90 => (col == 1 && 0 <= row && row <= 2) || (row == 1 && col == 0),
            Rotation::R180 => (row == 2 && 0 <= col && col <= 2) || (row == 1 && col == 1),
            Rotation::R270 => (col == 1 && 0 <= row && row <= 2) || (row == 1 && col == 2),
        },
        Rotations::ZPiece => match r {
            Rotation::R0 | Rotation::R180 => (row == 1 && 0 <= col && col <= 1) || (row == 2 && 1
                <= col && col <= 2),
            Rotation::R90 | Rotation::R270 => (col == 2 && 0 <= row && row <= 1) || (col == 1 && 1
                <= row && row <= 2),
        },
        Rotations::SPiece => match r {
            Rotation::R0 | Rotation::R180 => (row == 1 && 1 <= col && col <= 2) || (row == 2 && 0
                <= col && col <= 1),
            Rotation::R90 | Rotation::R270 => (col == 0 && 0 <= row && row <= 1) || (col == 1 && 1
                <= row && row <= 2),
        },
        Rotations::JPiece => match r {
            Rotation::R0 => (row == 1 && 0 <= col && col <= 2) || (row == 2 && col == 2),
            Rotation::R90 => (col == 1 && 0 <= row && row <= 2) || (row == 2 && col == 0),
            Rotation::R180 => (row == 2 && 0 <= col && col <= 2) || (row == 1 && col == 0),
            Rotation::R270 => (col == 1 && 0 <= row && row <= 2) || (row == 0 && col == 2),
        },
        Rotations::LPiece => match r {
            Rotation::R0 => (row == 1 && 0 <= col && col <= 2) || (row == 2 && col == 0),
            Rotation::R90 => (col == 1 && 0 <= row && row <= 2) || (row == 0 && col == 0),
            Rotation::R180 => (row == 2 && 0 <= col && col <= 2) || (row == 1 && col == 2),
            Rotation::R270 => (col == 1 && 0 <= row && row <= 2) || (row == 2 && col == 2),
        },
    }
}

/// Every shape cell sits inside the 4x4 bounding box.
pub proof fn lemma_shape_cells_in_bounds(s: Rotations, r: Rotation)
    ensures
        forall|row: int, col: int| #[trigger] occ(s, r, row, col) ==> 0 <= row < 4 && 0 <= col < 4,
{
}

/// Every orientation of every shape occupies at least one cell.
pub proof fn lemma_shape_nonempty(s: Rotations, r: Rotation)
    ensures
        exists|row: int, col: int| occ(s, r, row, col),
{
    match s {
        Rotations::IPiece => match r {
            Rotation::R0 | Rotation::R180 => assert(occ(s, r, 1, 0)),
            Rotation::R90 | Rotation::R270 => assert(occ(s, r, 0, 2)),
        },
        Rotations::OPiece => assert(occ(s, r, 1, 1)),
        Rotations::TPiece => match r {
            Rotation::R0 => assert(occ(s, r, 1, 0)),
            Rotation::R90 => assert(occ(s, r, 0, 1)),
            Rotation::R180 => assert(occ(s, r, 2, 0)),
            Rotation::R270 => assert(occ(s, r, 0, 1)),
        },
        Rotations::ZPiece => match r {
            Rotation::R0 | Rotation::R180 => assert(occ(s, r, 1, 0)),
            Rotation::R90 | Rotation::R270 => assert(occ(s, r, 0, 2)),
        },
        Rotations::SPiece => match r {
            Rotation::R0 | Rotation::R180 => assert(occ(s, r, 1, 1)),
            Rotation::R90 | Rotation::R270 => assert(occ(s, r, 0, 0)),
        },
        Rotations::JPiece => match r {
            Rotation::R0 => assert(occ(s, r, 1, 0)),
            Rotation::R90 => assert(occ(s, r, 0, 1)),
            Rotation::R180 => assert(occ(s, r, 2, 0)),
            Rotation::R270 => assert(occ(s, r, 0, 1)),
        },
        Rotations::LPiece => match r {
            Rotation::R0 => assert(occ(s, r, 1, 0)),
            Rotation::R90 => assert(occ(s, r, 0, 0)),
            Rotation::R180 => assert(occ(s, r, 2, 0)),
            Rotation::R270 => assert(occ(s, r, 0, 1)),
        },
    }
}

/// The shape a freshly drawn piece of each colour takes.
pub open spec fn shape_of(color: Block) -> Rotations {
    match color {
        Block::Red => Rotations::IPiece,
        Block::Orange => Rotations::LPiece,
        Block::Yellow => Rotations::OPiece,
        Block::Green => Rotations::ZPiece,
        Block::Cyan => Rotations::TPiece,
        Block::Blue => Rotations::JPiece,
        Block::Purple => Rotations::SPiece,
    }
}

/// A freshly spawned piece: orientation `R0` at the canonical spawn column,
/// with a full gravity accumulator and a full lock delay.
pub open spec fn spec_new_piece(color: Block) -> Piece {
    Piece {
        rotation: Rotation::R0,
        rotations: shape_of(color),
        color,
        x: 3,
        y: 0,
        ticks_to_next_gravity: 256,
        ticks_to_lock: 30,
    }
}

/// The falling (or preview) piece.  `x`, `y` give the top-left corner of the
/// bounding box in well cells; `ticks_to_next_gravity` is the fixed-point
/// fall accumulator (256 units per cell); `ticks_to_lock` is the lock-delay
/// countdown.
#[derive(Copy, Clone, Debug, PartialEq, Eq, Structural)]
pub struct Piece {
    pub rotation: Rotation,
    pub rotations: Rotations,
    pub color: Block,
    pub x: i32,
    pub y: i32,
    pub ticks_to_next_gravity: i32,
    pub ticks_to_lock: i32,
}

/// Whether the well blocks a piece cell at grid position `(ri, ci)`: the
/// side walls and the floor block, a slot already holding a tile blocks,
/// and anything above the visible well is free.
pub open spec fn cell_blocked(g: GridModel, ri: int, ci: int) -> bool {
    ri >= WELL_ROWS || ci >= WELL_COLS || ci < 0 || (ri >= 0 && g[ri][ci] is Some)
}

impl Piece {
    /// Positions and counters a piece can actually reach: the bounding box
    /// never strays past one box width outside the walls, never rises above
    /// the spawn row, and the two counters stay within their reset values.
    pub open spec fn wf(self) -> bool {
        &&& self.pos_wf()
        &&& 1 <= self.ticks_to_next_gravity <= 256
        &&& 0 <= self.ticks_to_lock <= 30
    }

    /// The bounding box stays within one box width of the walls and inside
    /// the vertical span of the well.
    pub open spec fn pos_wf(self) -> bool {
        &&& -3 <= self.x <= 9
        &&& 0 <= self.y <= 20
    }

    /// Whether the piece, displaced by `(x_offset, y_offset)` and read in
    /// orientation `r`, overlaps a wall, the floor, or a locked tile.
    pub open spec fn collides_spec(self, g: GridModel, dx: int, dy: int, r: Rotation) -> bool {
        exists|row: int, col: int|
            0 <= row < 4 && 0 <= col < 4 && #[trigger] occ(self.rotations, r, row, col)
                && cell_blocked(g, self.y + dy + row, self.x + dx + col)
    }

    pub fn new(color: Block) -> (p: Piece)
        ensures
            p == spec_new_piece(color),
            p.wf(),
    {
        let map = match color {
            Block::Red => Rotations::IPiece,
            Block::Orange => Rotations::LPiece,
            Block::Yellow => Rotations::OPiece,
            Block::Green => Rotations::ZPiece,
            Block::Cyan => Rotations::TPiece,
            Block::Blue => Rotations::JPiece,
            Block::Purple => Rotations::SPiece,
        };
        Piece {
            rotation: Rotation::R0,
            rotations: map,
            color,
            x: 3,
            y: 0,
            ticks_to_lock: 30,
            ticks_to_next_gravity: 256,
        }
    }

    /// Test the piece against the well at an offset and orientation.
    pub fn collides_with(&self, well: &Well, x_offset: i32, y_offset: i32, r: Rotation) -> (b:
        bool)
        requires
            well.wf(),
            self.pos_wf(),
            -4 <= x_offset <= 4,
            -4 <= y_offset <= 4,
        ensures
            b == self.collides_spec(well.grid(), x_offset as int, y_offset as int, r),
    {
        let mut ri: i32 = 0;
        while ri < 4
            invariant
                well.wf(),
                self.pos_wf(),
                -4 <= x_offset <= 4,
                -4 <= y_offset <= 4,
                0 <= ri <= 4,
                forall|row: int, col: int|
                    0 <= row < ri && 0 <= col < 4 && #[trigger] occ(self.rotations, r, row, col)
                        ==> !cell_blocked(
                        well.grid(),
                        self.y + y_offset + row,
                        self.x + x_offset + col,
                    ),
            decreases 4 - ri,
        {
            let mut ci: i32 = 0;
            while ci < 4
                invariant
                    well.wf(),
                    self.pos_wf(),
                    -4 <= x_offset <= 4,
                    -4 <= y_offset <= 4,
                    0 <= ri < 4,
                    0 <= ci <= 4,
                    forall|row: int, col: int|
                        0 <= row < ri && 0 <= col < 4 && #[trigger] occ(self.rotations, r, row, col)
                            ==> !cell_blocked(
                            well.grid(),
                            self.y + y_offset + row,
                            self.x + x_offset + col,
                        ),
                    forall|col: int|
                        0 <= col < ci && #[trigger] occ(self.rotations, r, ri as int, col)
                            ==> !cell_blocked(
                            well.grid(),
                            self.y + y_offset + ri as int,
                            self.x + x_offset + col,
                        ),
                decreases 4 - ci,
            {
                if shape_occupied(self.rotations, r, ri, ci) {
                    let y_index = self.y + y_offset + ri;
                    let x_index = self.x + x_offset + ci;
                    if y_index >= WELL_ROWS as i32 || x_index >= WELL_COLS as i32 || x_index < 0 {
                        return true;
                    }
                    if y_index >= 0 {
                        if self.well_cell_occupied(well, y_index, x_index) {
                            return true;
                        }
                    }
                }
                ci = ci + 1;
            }
            ri = ri + 1;
        }
        false
    }

    /// Read one well slot at checked coordinates.
    fn well_cell_occupied(&self, well: &Well, y_index: i32, x_index: i32) -> (b: bool)
        requires
            well.wf(),
            0 <= y_index < WELL_ROWS,
            0 <= x_index < WELL_COLS,
        ensures
            b == (well.grid()[y_index as int][x_index as int] is Some),
    {
        well.get(y_index as usize, x_index as usize).is_some()
    }
}

/// Ticks of delayed auto-shift before a held direction repeats.
pub const DAS_TICKS: u16 = 16;

/// Collision tests translate: displacing the piece by `(dx, dy)` and then
/// testing at offset `(a, b)` is testing the original at `(a + dx, b + dy)`.
pub proof fn lemma_collides_translate(
    p: Piece,
    q: Piece,
    g: GridModel,
    dx: int,
    dy: int,
    a: int,
    b: int,
    r: Rotation,
)
    requires
        q.rotations == p.rotations,
        q.x == p.x + dx,
        q.y == p.y + dy,
    ensures
        q.collides_spec(g, a, b, r) == p.collides_spec(g, a + dx, b + dy, r),
{
    if q.collides_spec(g, a, b, r) {
        let (row, col) = choose|row: int, col: int|
            0 <= row < 4 && 0 <= col < 4 && #[trigger] occ(q.rotations, r, row, col)
                && cell_blocked(g, q.y + b + row, q.x + a + col);
        assert(cell_blocked(g, p.y + (b + dy) + row, p.x + (a + dx) + col));
        assert(p.collides_spec(g, a + dx, b + dy, r));
    }
    if p.collides_spec(g, a + dx, b + dy, r) {
        let (row, col) = choose|row: int, col: int|
            0 <= row < 4 && 0 <= col < 4 && #[trigger] occ(p.rotations, r, row, col)
                && cell_blocked(g, p.y + (b + dy) + row, p.x + (a + dx) + col);
        assert(cell_blocked(g, q.y + b + row, q.x + a + col));
        assert(q.collides_spec(g, a, b, r));
    }
}

/// A piece that clears a collision test keeps its bounding box between the
/// walls and above the floor.
proof fn lemma_no_collision_bounds(p: Piece, g: GridModel, dx: int, dy: int, r: Rotation)
    requires
        !p.collides_spec(g, dx, dy, r),
    ensures
        -3 <= p.x + dx <= 9,
        p.y + dy <= 20,
{
    lemma_shape_nonempty(p.rotations, r);
    lemma_shape_cells_in_bounds(p.rotations, r);
    let (row, col) = choose|row: int, col: int| occ(p.rotations, r, row, col);
    assert(!cell_blocked(g, p.y + dy + row, p.x + dx + col));
}

/// Where the piece comes to rest under a sonic drop: fall one cell at a
/// time, refreshing lock delay and gravity accumulator, until the cell
/// below is blocked.
pub open spec fn dropped(p: Piece, g: GridModel) -> Piece
    decreases 20 - p.y,
{
    if p.y < 20 && !p.collides_spec(g, 0, 1, p.rotation) {
        dropped(
            Piece { y: (p.y + 1) as i32, ticks_to_lock: 30, ticks_to_next_gravity: 256, ..p },
            g,
        )
    } else {
        p
    }
}

/// The piece after the sonic-drop step of one tick.
pub open spec fn spec_sonic(p: Piece, g: GridModel, go: bool) -> Piece {
    if go {
        dropped(p, g)
    } else {
        p
    }
}

/// The piece after the horizontal step of one tick: Left is consulted
/// first, and a move happens only where the destination is free.
pub open spec fn spec_horizontal(p: Piece, g: GridModel, iv: Inputs) -> Piece {
    if iv.key_press_or_das_spec(Input::Left, DAS_TICKS) {
        if !p.collides_spec(g, -1, 0, p.rotation) {
            Piece { x: (p.x - 1) as i32, ..p }
        } else {
            p
        }
    } else if iv.key_press_or_das_spec(Input::Right, DAS_TICKS) {
        if !p.collides_spec(g, 1, 0, p.rotation) {
            Piece { x: (p.x + 1) as i32, ..p }
        } else {
            p
        }
    } else {
        p
    }
}

/// One rotation attempt: in place first, then kicked one cell right, then
/// one cell left; rejected outright if all three collide.
pub open spec fn try_rotation(p: Piece, g: GridModel, nr: Rotation) -> Piece {
    if !p.collides_spec(g, 0, 0, nr) {
        Piece { rotation: nr, ..p }
    } else if !p.collides_spec(g, 1, 0, nr) {
        Piece { rotation: nr, x: (p.x + 1) as i32, ..p }
    } else if !p.collides_spec(g, -1, 0, nr) {
        Piece { rotation: nr, x: (p.x - 1) as i32, ..p }
    } else {
        p
    }
}

/// The piece after the rotation step of one tick: a fresh clockwise press
/// is consulted first, then a fresh counter-clockwise press.
pub open spec fn spec_rotate(p: Piece, g: GridModel, iv: Inputs) -> Piece {
    if iv.key_just_pressed_spec(Input::CW) {
        try_rotation(p, g, p.rotation.cw())
    } else if iv.key_just_pressed_spec(Input::CCW) {
        try_rotation(p, g, p.rotation.ccw())
    } else {
        p
    }
}

/// The gravity carry loop: while the accumulator is spent, fall one cell
/// where possible and recharge by one cell's worth of units.
pub open spec fn fall_loop(p: Piece, g: GridModel) -> Piece
    decreases (if p.ticks_to_next_gravity <= 0 {
        1 - p.ticks_to_next_gravity
    } else {
        0
    }),
{
    if p.ticks_to_next_gravity <= 0 {
        let moved = if p.y < 20 && !p.collides_spec(g, 0, 1, p.rotation) {
            Piece { y: (p.y + 1) as i32, ticks_to_lock: 30, ..p }
        } else {
            p
        };
        fall_loop(
            Piece { ticks_to_next_gravity: (moved.ticks_to_next_gravity + 256) as i32, ..moved },
            g,
        )
    } else {
        p
    }
}

/// The piece after the gravity step of one tick: drain the accumulator (at
/// soft-drop speed while Down is held), run the carry loop, clamp the
/// accumulator, and while resting on an obstruction count the lock delay
/// down.
pub open spec fn spec_gravity(p: Piece, g: GridModel, iv: Inputs, rate: i32) -> Piece {
    let dec: i32 = if iv.key_pressed_spec(Input::Down) {
        if rate >= 256 {
            rate
        } else {
            256
        }
    } else {
        rate
    };
    let p1 = Piece { ticks_to_next_gravity: (p.ticks_to_next_gravity - dec) as i32, ..p };
    let p2 = if p1.ticks_to_next_gravity <= 0 {
        Piece { ticks_to_next_gravity: 256, ..fall_loop(p1, g) }
    } else {
        p1
    };
    if p2.collides_spec(g, 0, 1, p2.rotation) {
        Piece { ticks_to_lock: (p2.ticks_to_lock - 1) as i32, ticks_to_next_gravity: 256, ..p2 }
    } else {
        p2
    }
}

/// The rendering-hint mask written at lock time for the piece cell at
/// `(row, col)`: which neighbouring cells of the same piece are occupied.
pub open spec fn lock_dirs(s: Rotations, r: Rotation, row: int, col: int) -> BlockDirections {
    BlockDirections {
        up: occ(s, r, row - 1, col),
        down: occ(s, r, row + 1, col),
        left: occ(s, r, row, col - 1),
        right: occ(s, r, row, col + 1),
    }
}

/// Whether the piece occupies the well cell at `(ri, ci)`.
pub open spec fn covers(p: Piece, ri: int, ci: int) -> bool {
    occ(p.rotations, p.rotation, ri - p.y, ci - p.x)
}

/// The tile the piece writes into the well cell at `(ri, ci)`.
pub open spec fn lock_tile(p: Piece, ri: int, ci: int) -> Tile {
    Tile {
        color: p.color,
        directions: lock_dirs(p.rotations, p.rotation, ri - p.y, ci - p.x),
    }
}

/// The well grid after the piece locks: every covered cell gains a tile of
/// the piece's colour, every other cell is untouched.
pub open spec fn locked_grid(p: Piece, g: GridModel) -> GridModel {
    Seq::new(
        g.len(),
        |ri: int|
            Seq::new(
                g[ri].len(),
                |ci: int|
                    if covers(p, ri, ci) {
                        Some(lock_tile(p, ri, ci))
                    } else {
                        g[ri][ci]
                    },
            ),
    )
}

/// The grid while the lock scan has processed the shape cells before scan
/// position `n` (row-major over the 4x4 box).
pub open spec fn locked_partial(p: Piece, g: GridModel, n: int) -> GridModel {
    Seq::new(
        g.len(),
        |ri: int|
            Seq::new(
                g[ri].len(),
                |ci: int|
                    if covers(p, ri, ci) && (ri - p.y) * 4 + (ci - p.x) < n {
                        Some(lock_tile(p, ri, ci))
                    } else {
                        g[ri][ci]
                    },
            ),
    )
}

/// The piece locks when it rests on an obstruction and either its lock
/// delay has run out or Down is held.
pub open spec fn should_lock(p: Piece, g: GridModel, iv: Inputs) -> bool {
    p.collides_spec(g, 0, 1, p.rotation) && (p.ticks_to_lock == 0 || iv.key_pressed_spec(
        Input::Down,
    ))
}

impl Piece {
    /// Sonic drop: on a fresh Up press, advance the piece to its resting
    /// position with a fresh lock delay.  The piece does not lock here.
    pub fn do_sonic(&mut self, well: &Well, inputs: &Inputs)
        requires
            old(self).wf(),
            well.wf(),
        ensures
            *final(self) == spec_sonic(
                *old(self),
                well.grid(),
                inputs.key_just_pressed_spec(Input::Up),
            ),
            final(self).wf(),
            final(self).x == old(self).x && final(self).rotation == old(self).rotation && final(self).rotations == old(self).rotations && final(self).color == old(self).color,
            final(self).y >= old(self).y,
            final(self).ticks_to_lock >= old(self).ticks_to_lock,
            !old(self).collides_spec(well.grid(), 0, 0, old(self).rotation) ==> !final(self).collides_spec(well.grid(), 0, 0, final(self).rotation),
    {
        let ghost orig = *self;
        let ghost g = well.grid();
        if inputs.key_just_pressed(Input::Up) {
            while !self.collides_with(well, 0, 1, self.rotation)
                invariant
                    well.wf(),
                    self.wf(),
                    g == well.grid(),
                    dropped(*self, g) == dropped(orig, g),
                    self.x == orig.x && self.rotation == orig.rotation && self.rotations
                        == orig.rotations && self.color == orig.color,
                    self.y >= orig.y,
                    self.ticks_to_lock >= orig.ticks_to_lock,
                    !orig.collides_spec(g, 0, 0, orig.rotation) ==> !self.collides_spec(
                        g,
                        0,
                        0,
                        self.rotation,
                    ),
                decreases 20 - self.y,
            {
                let ghost before = *self;
                proof {
                    lemma_no_collision_bounds(*self, g, 0, 1, self.rotation);
                }
                self.y = self.y + 1;
                self.ticks_to_lock = 30;
                self.ticks_to_next_gravity = 256;
                proof {
                    lemma_collides_translate(before, *self, g, 0, 1, 0, 0, before.rotation);
                    assert(!self.collides_spec(g, 0, 0, self.rotation));
                }
            }
            proof {
                assert(dropped(*self, g) == *self);
            }
        }
    }

    /// Horizontal auto-shift move, Left before Right.
    pub fn do_horizontal(&mut self, well: &Well, inputs: &Inputs)
        requires
            old(self).wf(),
            well.wf(),
        ensures
            *final(self) == spec_horizontal(*old(self), well.grid(), *inputs),
            final(self).wf(),
            final(self).y == old(self).y && final(self).rotation == old(self).rotation && final(self).rotations == old(self).rotations && final(self).color == old(self).color && final(self).ticks_to_lock == old(self).ticks_to_lock && final(self).ticks_to_next_gravity == old(self).ticks_to_next_gravity,
            !old(self).collides_spec(well.grid(), 0, 0, old(self).rotation) ==> !final(self).collides_spec(well.grid(), 0, 0, final(self).rotation),
    {
        let ghost orig = *self;
        let ghost g = well.grid();
        if inputs.key_press_or_das(Input::Left, DAS_TICKS) {
            if !self.collides_with(well, -1, 0, self.rotation) {
                proof {
                    lemma_no_collision_bounds(*self, g, -1, 0, self.rotation);
                }
                self.x = self.x - 1;
                proof {
                    lemma_collides_translate(orig, *self, g, -1, 0, 0, 0, orig.rotation);
                }
            }
        } else if inputs.key_press_or_das(Input::Right, DAS_TICKS) {
            if !self.collides_with(well, 1, 0, self.rotation) {
                proof {
                    lemma_no_collision_bounds(*self, g, 1, 0, self.rotation);
                }
                self.x = self.x + 1;
                proof {
                    lemma_collides_translate(orig, *self, g, 1, 0, 0, 0, orig.rotation);
                }
            }
        }
    }

    /// One rotation attempt toward `nr`.
    fn try_rotate(&mut self, well: &Well, nr: Rotation)
        requires
            old(self).wf(),
            well.wf(),
        ensures
            *final(self) == try_rotation(*old(self), well.grid(), nr),
            final(self).wf(),
            final(self).y == old(self).y && final(self).rotations == old(self).rotations && final(self).color == old(self).color && final(self).ticks_to_lock == old(self).ticks_to_lock
                && final(self).ticks_to_next_gravity == old(self).ticks_to_next_gravity,
            !old(self).collides_spec(well.grid(), 0, 0, old(self).rotation) ==> !final(self).collides_spec(well.grid(), 0, 0, final(self).rotation),
    {
        let ghost orig = *self;
        let ghost g = well.grid();
        if !self.collides_with(well, 0, 0, nr) {
            self.rotation = nr;
        } else if !self.collides_with(well, 1, 0, nr) {
            proof {
                lemma_no_collision_bounds(*self, g, 1, 0, nr);
            }
            self.rotation = nr;
            self.x = self.x + 1;
            proof {
                lemma_collides_translate(orig, *self, g, 1, 0, 0, 0, nr);
            }
        } else if !self.collides_with(well, -1, 0, nr) {
            proof {
                lemma_no_collision_bounds(*self, g, -1, 0, nr);
            }
            self.rotation = nr;
            self.x = self.x - 1;
            proof {
                lemma_collides_translate(orig, *self, g, -1, 0, 0, 0, nr);
            }
        }
    }

    /// Rotation step: a fresh clockwise press first, then counter-clockwise;
    /// each tries in place, kicked right, kicked left, and is otherwise
    /// rejected.
    pub fn do_rotate(&mut self, well: &Well, inputs: &Inputs)
        requires
            old(self).wf(),
            well.wf(),
        ensures
            *final(self) == spec_rotate(*old(self), well.grid(), *inputs),
            final(self).wf(),
            final(self).y == old(self).y && final(self).rotations == old(self).rotations && final(self).color == old(self).color && final(self).ticks_to_lock == old(self).ticks_to_lock
                && final(self).ticks_to_next_gravity == old(self).ticks_to_next_gravity,
            !old(self).collides_spec(well.grid(), 0, 0, old(self).rotation) ==> !final(self).collides_spec(well.grid(), 0, 0, final(self).rotation),
    {
        if inputs.key_just_pressed(Input::CW) {
            let nr = self.rotation.cw();
            self.try_rotate(well, nr);
        } else if inputs.key_just_pressed(Input::CCW) {
            let nr = self.rotation.ccw();
            self.try_rotate(well, nr);
        }
    }

    /// Gravity step.  The `land` cue fires exactly once per landing: on the
    /// first tick the piece rests with a full lock delay.
    pub fn do_gravity<S: Sounds>(&mut self, well: &Well, inputs: &Inputs, rate: i32, sound: &mut S)
        requires
            old(self).wf(),
            well.wf(),
            0 <= rate <= 0x0010_0000,
            old(self).collides_spec(well.grid(), 0, 1, old(self).rotation) ==> old(self).ticks_to_lock >= 1,
        ensures
            *final(self) == spec_gravity(*old(self), well.grid(), *inputs, rate),
            final(self).wf(),
            final(self).x == old(self).x && final(self).rotation == old(self).rotation && final(self).rotations == old(self).rotations && final(self).color == old(self).color,
            final(self).y >= old(self).y,
            old(self).ticks_to_lock >= 1 ==> (final(self).ticks_to_lock == 0 ==> final(self).collides_spec(well.grid(), 0, 1, final(self).rotation)),
            !old(self).collides_spec(well.grid(), 0, 0, old(self).rotation) ==> !final(self).collides_spec(well.grid(), 0, 0, final(self).rotation),
    {
        let ghost orig = *self;
        let ghost g = well.grid();
        if inputs.key_pressed(Input::Down) {
            let dec: i32 = if rate >= 256 {
                rate
            } else {
                256
            };
            self.ticks_to_next_gravity = self.ticks_to_next_gravity - dec;
        } else {
            self.ticks_to_next_gravity = self.ticks_to_next_gravity - rate;
        }
        let ghost p1 = *self;

        if self.ticks_to_next_gravity <= 0 {
            while self.ticks_to_next_gravity <= 0
                invariant
                    well.wf(),
                    g == well.grid(),
                    fall_loop(*self, g) == fall_loop(p1, g),
                    -0x0010_0000 - 256 <= self.ticks_to_next_gravity <= 256,
                    -3 <= self.x <= 9,
                    0 <= self.y <= 20,
                    self.x == orig.x && self.rotation == orig.rotation && self.rotations
                        == orig.rotations && self.color == orig.color,
                    self.y >= orig.y,
                    (self.y == orig.y && self.ticks_to_lock == orig.ticks_to_lock) || (self.y
                        > orig.y && self.ticks_to_lock == 30),
                    !orig.collides_spec(g, 0, 0, orig.rotation) ==> !self.collides_spec(
                        g,
                        0,
                        0,
                        self.rotation,
                    ),
                decreases (if self.ticks_to_next_gravity <= 0 {
                    1 - self.ticks_to_next_gravity
                } else {
                    0int
                }),
            {
                let ghost before = *self;
                if !self.collides_with(well, 0, 1, self.rotation) {
                    proof {
                        lemma_no_collision_bounds(*self, g, 0, 1, self.rotation);
                    }
                    self.y = self.y + 1;
                    self.ticks_to_lock = 30;
                    proof {
                        lemma_collides_translate(before, *self, g, 0, 1, 0, 0, before.rotation);
                        assert(!self.collides_spec(g, 0, 0, self.rotation));
                    }
                }
                self.ticks_to_next_gravity = self.ticks_to_next_gravity + 256;
            }
            proof {
                assert(fall_loop(*self, g) == *self);
            }
            self.ticks_to_next_gravity = 256;
        }
        let ghost p2 = *self;
        proof {
            if p1.ticks_to_next_gravity <= 0 {
                assert(p2 == Piece { ticks_to_next_gravity: 256, ..fall_loop(p1, g) });
            } else {
                assert(p2 == p1);
            }
        }

        let resting = self.collides_with(well, 0, 1, self.rotation);
        if resting && self.ticks_to_lock == 30 {
            sound.land();
        }
        if resting {
            proof {
                if self.y == orig.y {
                    lemma_collides_translate(orig, *self, g, 0, 0, 0, 1, orig.rotation);
                }
                assert(p2.ticks_to_lock >= 1);
            }
            self.ticks_to_lock = self.ticks_to_lock - 1;
            self.ticks_to_next_gravity = 256;
            proof {
                lemma_collides_translate(p2, *self, g, 0, 0, 0, 1, p2.rotation);
                lemma_collides_translate(p2, *self, g, 0, 0, 0, 0, p2.rotation);
            }
        }
    }

    /// Lock check and commit.  Returns whether the piece locked; on a lock
    /// its cells become tiles of the well and the piece value is done with.
    /// Locking never overwrites an occupied slot.
    pub fn do_lock<S: Sounds>(&self, well: &mut Well, inputs: &Inputs, sounds: &mut S) -> (locked:
        bool)
        requires
            old(well).wf(),
            self.wf(),
            !self.collides_spec(old(well).grid(), 0, 0, self.rotation),
        ensures
            locked == should_lock(*self, old(well).grid(), *inputs),
            locked ==> final(well).grid() == locked_grid(*self, old(well).grid()),
            !locked ==> *final(well) == *old(well),
            final(well).wf(),
            forall|ri: int, ci: int|
                0 <= ri < WELL_ROWS && 0 <= ci < WELL_COLS && old(well).grid()[ri][ci] is Some
                    ==> final(well).grid()[ri][ci] == old(well).grid()[ri][ci],
    {
        let ghost g0 = well.grid();
        let resting = self.collides_with(well, 0, 1, self.rotation);
        if resting && (self.ticks_to_lock == 0 || inputs.key_pressed(Input::Down)) {
            self.lock_to(well);
            sounds.lock();
            proof {
                lemma_shape_cells_in_bounds(self.rotations, self.rotation);
                assert forall|ri: int, ci: int|
                    0 <= ri < WELL_ROWS && 0 <= ci < WELL_COLS && g0[ri][ci] is Some implies well
                    .grid()[ri][ci] == g0[ri][ci] by {
                    if covers(*self, ri, ci) {
                        assert(cell_blocked(g0, self.y + (ri - self.y), self.x + (ci - self.x)));
                        assert(self.collides_spec(g0, 0, 0, self.rotation));
                    }
                }
            }
            true
        } else {
            false
        }
    }

    /// Write the piece's cells into the well.
    fn lock_to(&self, well: &mut Well)
        requires
            old(well).wf(),
            self.wf(),
            !self.collides_spec(old(well).grid(), 0, 0, self.rotation),
        ensures
            final(well).wf(),
            final(well).grid() == locked_grid(*self, old(well).grid()),
    {
        let ghost g0 = well.grid();
        proof {
            lemma_shape_cells_in_bounds(self.rotations, self.rotation);
            assert(well.grid() =~~= locked_partial(*self, g0, 0));
        }
        let mut ri: i32 = 0;
        while ri < 4
            invariant
                well.wf(),
                self.wf(),
                grid_wf(g0),
                0 <= ri <= 4,
                !self.collides_spec(g0, 0, 0, self.rotation),
                well.grid() == locked_partial(*self, g0, ri * 4),
            decreases 4 - ri,
        {
            let mut ci: i32 = 0;
            while ci < 4
                invariant
                    well.wf(),
                    self.wf(),
                    grid_wf(g0),
                    0 <= ri < 4,
                    0 <= ci <= 4,
                    !self.collides_spec(g0, 0, 0, self.rotation),
                    well.grid() == locked_partial(*self, g0, ri * 4 + ci),
                decreases 4 - ci,
            {
                let ghost n = ri * 4 + ci;
                proof {
                    lemma_shape_cells_in_bounds(self.rotations, self.rotation);
                }
                if shape_occupied(self.rotations, self.rotation, ri, ci) {
                    proof {
                        assert(!cell_blocked(g0, self.y + ri, self.x + ci)) by {
                            if cell_blocked(g0, self.y + ri, self.x + ci) {
                                assert(self.collides_spec(g0, 0, 0, self.rotation));
                            }
                        }
                    }
                    let up = shape_occupied(self.rotations, self.rotation, ri - 1, ci);
                    let down = shape_occupied(self.rotations, self.rotation, ri + 1, ci);
                    let left = shape_occupied(self.rotations, self.rotation, ri, ci - 1);
                    let right = shape_occupied(self.rotations, self.rotation, ri, ci + 1);
                    let tile = Tile {
                        color: self.color,
                        directions: BlockDirections { up, down, left, right },
                    };
                    well.set((self.y + ri) as usize, (self.x + ci) as usize, Some(tile));
                    proof {
                        assert(well.grid() =~~= locked_partial(*self, g0, n + 1));
                    }
                } else {
                    proof {
                        assert(well.grid() =~~= locked_partial(*self, g0, n + 1));
                    }
                }
                ci = ci + 1;
            }
            ri = ri + 1;
        }
        proof {
            assert(locked_partial(*self, g0, 16) =~~= locked_grid(*self, g0));
        }
    }
}

} // verus!
