//! The top-level state machine: one `Field` per game session, driven once
//! per fixed tick, owning the well, the sequencer, the active and preview
//! pieces, the level counter and the phase.

use vstd::prelude::*;

use crate::hooks::{Cubes, Sounds};
use crate::input::{Input, Inputs};
use crate::piece::{
    locked_grid, should_lock, spec_gravity, spec_horizontal, spec_rotate, spec_sonic, Piece,
};
use crate::randomizer::{spec_next, Randomizer};
use crate::well::{
    cleared_grid, commit_spec, empties, empty_row, full_rows_from, grid_wf,
    lemma_full_rows_from_props, row_full, GridModel, Well, WELL_COLS, WELL_ROWS,
};

verus! {

/// The phase of one game session.  No phase is terminal: the game-over
/// countdown ends in a full reset.
#[derive(Clone, Debug)]
pub enum GameState {
    ActivePiece { piece: Piece, first_frame: bool },
    ClearDelay { ticks_remaining: i32, rows_to_lower: Vec<i32> },
    PlaceDelay { ticks_remaining: i32 },
    GameOver { ticks_remaining: i32 },
}

/// One game session.
#[derive(Clone, Debug)]
pub struct Field {
    pub randomizer: Randomizer,
    pub well: Well,
    pub next: Piece,
    pub level: u32,
    pub state: GameState,
}

/// The gravity rate for a level, in 256ths of a cell per tick.
pub open spec fn spec_level_to_gravity(level: u32) -> i32 {
    if level >= 500 {
        5120
    } else if level >= 450 {
        768
    } else if level >= 420 {
        1024
    } else if level >= 400 {
        1280
    } else if level >= 360 {
        1024
    } else if level >= 330 {
        768
    } else if level >= 300 {
        512
    } else if level >= 251 {
        256
    } else if level >= 247 {
        224
    } else if level >= 243 {
        192
    } else if level >= 239 {
        160
    } else if level >= 236 {
        128
    } else if level >= 233 {
        96
    } else if level >= 230 {
        64
    } else if level >= 220 {
        32
    } else if level >= 200 {
        4
    } else if level >= 170 {
        144
    } else if level >= 160 {
        128
    } else if level >= 140 {
        112
    } else if level >= 120 {
        96
    } else if level >= 100 {
        80
    } else if level >= 90 {
        64
    } else if level >= 80 {
        48
    } else if level >= 70 {
        32
    } else if level >= 60 {
        16
    } else if level >= 50 {
        12
    } else if level >= 40 {
        10
    } else if level >= 35 {
        8
    } else if level >= 30 {
        6
    } else {
        4
    }
}

/// The gravity rate for a level, in 256ths of a cell per tick.
pub fn level_to_gravity(level: u32) -> (r: i32)
    ensures
        r == spec_level_to_gravity(level),
        4 <= r <= 5120,
{
    if level >= 500 {
        5120
    } else if level >= 450 {
        768
    } else if level >= 420 {
        1024
    } else if level >= 400 {
        1280
    } else if level >= 360 {
        1024
    } else if level >= 330 {
        768
    } else if level >= 300 {
        512
    } else if level >= 251 {
        256
    } else if level >= 247 {
        224
    } else if level >= 243 {
        192
    } else if level >= 239 {
        160
    } else if level >= 236 {
        128
    } else if level >= 233 {
        96
    } else if level >= 230 {
        64
    } else if level >= 220 {
        32
    } else if level >= 200 {
        4
    } else if level >= 170 {
        144
    } else if level >= 160 {
        128
    } else if level >= 140 {
        112
    } else if level >= 120 {
        96
    } else if level >= 100 {
        80
    } else if level >= 90 {
        64
    } else if level >= 80 {
        48
    } else if level >= 70 {
        32
    } else if level >= 60 {
        16
    } else if level >= 50 {
        12
    } else if level >= 40 {
        10
    } else if level >= 35 {
        8
    } else if level >= 30 {
        6
    } else {
        4
    }
}

/// Mathematical model of a phase.
pub enum StateModel {
    Active { piece: Piece, first_frame: bool },
    Clear { ticks: int, rows: Seq<i32> },
    Place { ticks: int },
    Over { ticks: int },
}

/// Mathematical model of a whole session.
pub struct FieldModel {
    pub grid: GridModel,
    pub next: Piece,
    pub level: u32,
    pub randomizer: Randomizer,
    pub state: StateModel,
}

impl GameState {
    /// The phase, as a mathematical value.
    pub open spec fn model(self) -> StateModel {
        match self {
            GameState::ActivePiece { piece, first_frame } => StateModel::Active {
                piece,
                first_frame,
            },
            GameState::ClearDelay { ticks_remaining, rows_to_lower } => StateModel::Clear {
                ticks: ticks_remaining as int,
                rows: rows_to_lower@,
            },
            GameState::PlaceDelay { ticks_remaining } => StateModel::Place {
                ticks: ticks_remaining as int,
            },
            GameState::GameOver { ticks_remaining } => StateModel::Over {
                ticks: ticks_remaining as int,
            },
        }
    }
}

/// The piece after the whole per-tick pipeline of the active phase: sonic
/// drop, rotation, horizontal shift (skipped on the piece's first frame),
/// then gravity.
pub open spec fn spec_piece_pipeline(
    p: Piece,
    g: GridModel,
    iv: Inputs,
    first_frame: bool,
    rate: i32,
) -> Piece {
    let p1 = spec_sonic(p, g, iv.key_just_pressed_spec(Input::Up));
    let p2 = spec_rotate(p1, g, iv);
    let p3 = if first_frame {
        p2
    } else {
        spec_horizontal(p2, g, iv)
    };
    spec_gravity(p3, g, iv, rate)
}

/// One tick of the active phase.  If the piece locks, the full rows are
/// detected and zeroed at once: with at least one the level rises by the
/// row count and the clear delay starts; with none the place delay starts.
pub open spec fn spec_active(m: FieldModel, iv: Inputs) -> FieldModel {
    match m.state {
        StateModel::Active { piece, first_frame } => {
            let p = spec_piece_pipeline(piece, m.grid, iv, first_frame, spec_level_to_gravity(
                m.level,
            ));
            if should_lock(p, m.grid, iv) {
                let lg = locked_grid(p, m.grid);
                let rows = full_rows_from(lg, 0);
                if rows.len() > 0 {
                    FieldModel {
                        grid: cleared_grid(lg),
                        level: (m.level + rows.len()) as u32,
                        state: StateModel::Clear {
                            ticks: 41,
                            rows: Seq::new(rows.len(), |k: int| rows[k] as i32),
                        },
                        ..m
                    }
                } else {
                    FieldModel { grid: lg, state: StateModel::Place { ticks: 30 }, ..m }
                }
            } else {
                FieldModel { state: StateModel::Active { piece: p, first_frame: false }, ..m }
            }
        },
        _ => m,
    }
}

/// The session after a full reset: empty well, fresh sequencer, level 0,
/// the first draw previewed and the second active.
pub open spec fn spec_reset() -> FieldModel {
    let rz0 = Randomizer::TTATGM2P { seed: 10u32, h0: 1u8, h1: 1u8, h2: 2u8, h3: 2u8 };
    let d1 = spec_next(rz0);
    let d2 = spec_next(d1.1);
    FieldModel {
        grid: empties(WELL_ROWS as int),
        next: d1.0,
        level: 0,
        randomizer: d2.1,
        state: StateModel::Active { piece: d2.0, first_frame: true },
    }
}

/// One tick of the whole state machine.
pub open spec fn spec_update(m: FieldModel, iv: Inputs) -> FieldModel {
    match m.state {
        StateModel::Active { .. } => spec_active(m, iv),
        StateModel::Clear { ticks, rows } => {
            if ticks - 1 == 0 {
                FieldModel {
                    grid: commit_spec(m.grid, rows),
                    state: StateModel::Place { ticks: 30 },
                    ..m
                }
            } else {
                FieldModel { state: StateModel::Clear { ticks: ticks - 1, rows }, ..m }
            }
        },
        StateModel::Place { ticks } => {
            if ticks - 1 != 0 {
                FieldModel { state: StateModel::Place { ticks: ticks - 1 }, ..m }
            } else {
                let next1 = if iv.key_pressed_spec(Input::CW) {
                    Piece { rotation: m.next.rotation.cw(), ..m.next }
                } else if iv.key_pressed_spec(Input::CCW) {
                    Piece { rotation: m.next.rotation.ccw(), ..m.next }
                } else {
                    m.next
                };
                let level1 = if m.level % 100 != 99 {
                    (m.level + 1) as u32
                } else {
                    m.level
                };
                if next1.collides_spec(m.grid, 0, 0, next1.rotation) {
                    FieldModel {
                        next: next1,
                        level: level1,
                        state: StateModel::Over { ticks: 300 },
                        ..m
                    }
                } else {
                    let draw = spec_next(m.randomizer);
                    spec_active(
                        FieldModel {
                            next: draw.0,
                            level: level1,
                            randomizer: draw.1,
                            state: StateModel::Active { piece: next1, first_frame: true },
                            ..m
                        },
                        iv,
                    )
                }
            }
        },
        StateModel::Over { ticks } => {
            if ticks - 1 == 0 {
                spec_reset()
            } else {
                FieldModel { state: StateModel::Over { ticks: ticks - 1 }, ..m }
            }
        },
    }
}

/// Law: no session state the machine commits holds its active piece in a
/// colliding position.  [`Field::new`] establishes the invariant and
/// [`Field::update`] preserves it, so it holds of every reachable state.
pub proof fn lemma_active_piece_never_collides(f: Field)
    requires
        f.wf(),
    ensures
        (f.state.model() matches StateModel::Active { piece, .. } ==> !piece.collides_spec(
            f.well.grid(),
            0,
            0,
            piece.rotation,
        )),
{
}

/// A spawned piece never collides on an empty grid.
proof fn lemma_spawn_no_collision(p: Piece, g: GridModel)
    requires
        grid_wf(g),
        forall|r: int| 0 <= r < WELL_ROWS ==> g[r] == empty_row(),
        p.x == 3,
        p.y == 0,
    ensures
        !p.collides_spec(g, 0, 0, p.rotation),
{
    crate::piece::lemma_shape_cells_in_bounds(p.rotations, p.rotation);
    if p.collides_spec(g, 0, 0, p.rotation) {
        let (row, col) = choose|row: int, col: int|
            0 <= row < 4 && 0 <= col < 4 && #[trigger] crate::piece::occ(
                p.rotations,
                p.rotation,
                row,
                col,
            ) && crate::piece::cell_blocked(g, p.y + row, p.x + col);
        assert(g[row] == empty_row());
        assert(g[row][3 + col] is None);
    }
}

impl Field {
    /// The whole session, as a mathematical value.
    pub open spec fn model(self) -> FieldModel {
        FieldModel {
            grid: self.well.grid(),
            next: self.next,
            level: self.level,
            randomizer: self.randomizer,
            state: self.state.model(),
        }
    }

    /// Every state the machine can reach: the well keeps its dimensions,
    /// the pieces sit inside it, an active piece never rests in a colliding
    /// position, and each delay counter stays within the span it was
    /// started with.
    pub open spec fn wf(self) -> bool {
        &&& self.well.wf()
        &&& self.next.wf()
        &&& self.next.ticks_to_lock >= 1
        &&& match self.state.model() {
            StateModel::Active { piece, first_frame } => piece.wf() && piece.ticks_to_lock >= 1
                && !piece.collides_spec(self.well.grid(), 0, 0, piece.rotation),
            StateModel::Clear { ticks, rows } => 1 <= ticks <= 41 && forall|k: int|
                0 <= k < rows.len() ==> 0 <= #[trigger] rows[k] < WELL_ROWS,
            StateModel::Place { ticks } => 1 <= ticks <= 30,
            StateModel::Over { ticks } => 1 <= ticks <= 300,
        }
    }

    /// A fresh session: empty well, fresh sequencer, level 0, the first
    /// draw previewed and the second active.
    pub fn new() -> (f: Field)
        ensures
            f.wf(),
            f.model() == spec_reset(),
    {
        let mut randomizer = Randomizer::new();
        let well = Well::new();
        let next = randomizer.next_piece();
        let piece = randomizer.next_piece();
        let f = Field {
            well,
            next,
            level: 0,
            state: GameState::ActivePiece { piece, first_frame: true },
            randomizer,
        };
        proof {
            lemma_spawn_no_collision(piece, f.well.grid());
            assert(f.model().grid =~= spec_reset().grid);
        }
        f
    }

    /// One tick of the active phase: run the piece pipeline; on a lock,
    /// detect and zero the full rows, credit the level, spawn the cosmetic
    /// cubes (columns in reverse), and start the matching delay.
    fn active_tick<S: Sounds, C: Cubes>(&mut self, inputs: &Inputs, sounds: &mut S, cubes: &mut C)
        requires
            old(self).wf(),
            old(self).state is ActivePiece,
            old(self).level <= 0xFFFF_FF00u32,
        ensures
            final(self).wf(),
            final(self).model() == spec_active(old(self).model(), *inputs),
    {
        let ghost m0 = self.model();
        let (mut piece, first_frame) = match &self.state {
            GameState::ActivePiece { piece, first_frame } => (*piece, *first_frame),
            _ => vstd::pervasive::unreached(),
        };
        piece.do_sonic(&self.well, inputs);
        piece.do_rotate(&self.well, inputs);
        if !first_frame {
            piece.do_horizontal(&self.well, inputs);
        }
        let rate = level_to_gravity(self.level);
        piece.do_gravity(&self.well, inputs, rate, sounds);
        proof {
            assert(piece == spec_piece_pipeline(
                m0.state->Active_piece,
                m0.grid,
                *inputs,
                m0.state->Active_first_frame,
                spec_level_to_gravity(m0.level),
            ));
        }

        if piece.do_lock(&mut self.well, inputs, sounds) {
            let ghost lg = self.well.grid();
            let cleared = self.well.do_clear();
            proof {
                lemma_full_rows_from_props(lg, 0);
                let rows = full_rows_from(lg, 0);
                assert forall|i: int|
                    0 <= i < cleared@.len() implies 0 <= (#[trigger] cleared@[i]).0 < WELL_ROWS
                    && cleared@[i].1@.len() == WELL_COLS by {
                    assert(crate::well::captured_indices(cleared@)[i] == cleared@[i].0 as int);
                    assert(rows[i] == cleared@[i].0 as int);
                    assert(cleared@[i].1@ == lg[cleared@[i].0 as int]);
                }
            }
            if cleared.len() > 0 {
                sounds.line_clear();
                self.level = self.level + cleared.len() as u32;

                let mut rows_to_lower: Vec<i32> = Vec::new();
                let mut k: usize = 0;
                while k < cleared.len()
                    invariant
                        k <= cleared@.len(),
                        rows_to_lower@.len() == k,
                        forall|i: int| 0 <= i < k ==> rows_to_lower@[i] == cleared@[i].0,
                    decreases cleared@.len() - k,
                {
                    let idx = cleared[k].0;
                    rows_to_lower.push(idx);
                    k = k + 1;
                }

                let mut k2: usize = 0;
                while k2 < cleared.len()
                    invariant
                        k2 <= cleared@.len(),
                        forall|i: int|
                            0 <= i < cleared@.len() ==> (#[trigger] cleared@[i]).1@.len()
                                == WELL_COLS,
                    decreases cleared@.len() - k2,
                {
                    let y_row = cleared[k2].0;
                    let mut x: usize = 0;
                    while x < WELL_COLS
                        invariant
                            k2 < cleared@.len(),
                            x <= WELL_COLS,
                            cleared@[k2 as int].1@.len() == WELL_COLS,
                        decreases WELL_COLS - x,
                    {
                        let t = cleared[k2].1[WELL_COLS - 1 - x];
                        match t {
                            Some(tile) => cubes.spawn_cube(x as i32, y_row, tile.color),
                            None => (),
                        }
                        x = x + 1;
                    }
                    k2 = k2 + 1;
                }

                self.state = GameState::ClearDelay { ticks_remaining: 41, rows_to_lower };
                proof {
                    let rows = full_rows_from(lg, 0);
                    assert(self.state.model()->Clear_rows =~= Seq::new(
                        rows.len(),
                        |i: int| rows[i] as i32,
                    ));
                    assert(self.model() == spec_active(m0, *inputs));
                }
            } else {
                self.state = GameState::PlaceDelay { ticks_remaining: 30 };
                proof {
                    assert forall|r: int| 0 <= r < WELL_ROWS implies !row_full(lg[r]) by {
                        if row_full(lg[r]) {
                            assert(full_rows_from(lg, 0).contains(r));
                        }
                    }
                    assert(cleared_grid(lg) =~= lg);
                    assert(self.model() == spec_active(m0, *inputs));
                }
            }
        } else {
            self.state = GameState::ActivePiece { piece, first_frame: false };
            proof {
                if piece.ticks_to_lock == 0 {
                    assert(piece.collides_spec(self.well.grid(), 0, 1, piece.rotation));
                    assert(should_lock(piece, self.well.grid(), *inputs));
                }
                assert(self.model() == spec_active(m0, *inputs));
            }
        }
    }

    /// Drive the state machine one tick.  Exactly one phase acts; a place
    /// delay that expires into a live spawn re-runs the active phase once
    /// within the same tick.
    #[verifier::rlimit(60)]
    pub fn update<S: Sounds, C: Cubes>(&mut self, inputs: &Inputs, sounds: &mut S, cubes: &mut C)
        requires
            old(self).wf(),
            old(self).level < 0xFFFF_FF00u32,
        ensures
            final(self).wf(),
            final(self).model() == spec_update(old(self).model(), *inputs),
    {
        let ghost m0 = self.model();
        match &mut self.state {
            GameState::ActivePiece { .. } => {
                self.active_tick(inputs, sounds, cubes);
            },
            GameState::ClearDelay { ticks_remaining, rows_to_lower } => {
                let t = *ticks_remaining - 1;
                *ticks_remaining = t;
                if t == 0 {
                    self.well.commit_clear(rows_to_lower);
                    self.state = GameState::PlaceDelay { ticks_remaining: 30 };
                }
                proof {
                    assert(self.model() == spec_update(m0, *inputs));
                }
            },
            GameState::PlaceDelay { ticks_remaining } => {
                let t = *ticks_remaining - 1;
                *ticks_remaining = t;
                if t == 0 {
                    if inputs.key_pressed(Input::CW) {
                        self.next.rotation = self.next.rotation.cw();
                    } else if inputs.key_pressed(Input::CCW) {
                        self.next.rotation = self.next.rotation.ccw();
                    }
                    if self.level % 100 != 99 {
                        self.level = self.level + 1;
                    }
                    if self.next.collides_with(&self.well, 0, 0, self.next.rotation) {
                        self.state = GameState::GameOver { ticks_remaining: 300 };
                        proof {
                            assert(self.model() == spec_update(m0, *inputs));
                        }
                    } else {
                        self.state = GameState::ActivePiece {
                            piece: self.next,
                            first_frame: true,
                        };
                        self.next = self.randomizer.next_piece();
                        sounds.block_spawn(self.next.color);
                        let ghost m1 = self.model();
                        self.active_tick(inputs, sounds, cubes);
                        proof {
                            assert(spec_update(m0, *inputs) == spec_active(m1, *inputs));
                        }
                    }
                } else {
                    proof {
                        assert(self.model() == spec_update(m0, *inputs));
                    }
                }
            },
            GameState::GameOver { ticks_remaining } => {
                let t = *ticks_remaining - 1;
                *ticks_remaining = t;
                if t == 0 {
                    let mut randomizer = Randomizer::new();
                    self.well = Well::new();
                    self.next = randomizer.next_piece();
                    let piece = randomizer.next_piece();
                    self.state = GameState::ActivePiece { piece, first_frame: true };
                    self.randomizer = randomizer;
                    self.level = 0;
                    proof {
                        lemma_spawn_no_collision(piece, self.well.grid());
                        assert(self.model().grid =~= spec_reset().grid);
                        assert(self.model() == spec_update(m0, *inputs));
                    }
                } else {
                    proof {
                        assert(self.model() == spec_update(m0, *inputs));
                    }
                }
            },
        }
    }
}

} // verus!

