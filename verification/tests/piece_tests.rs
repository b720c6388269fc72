use logic::hooks::Sounds;
use logic::input::{Input, Inputs, KeyState};
use logic::piece::{shape_occupied, Piece, Rotation, Rotations};
use logic::well::{Block, BlockDirections, Tile, Well, WELL_COLS};

fn ks(held: u16) -> KeyState {
    KeyState { held, released: 0, stamp: 0 }
}

fn idle() -> Inputs {
    Inputs::new()
}

fn up_pressed() -> Inputs {
    Inputs { up: ks(1), ..Inputs::new() }
}

fn down_held() -> Inputs {
    Inputs { down: ks(5), ..Inputs::new() }
}

fn left_pressed() -> Inputs {
    Inputs { left: ks(1), ..Inputs::new() }
}

fn right_pressed() -> Inputs {
    Inputs { right: ks(1), ..Inputs::new() }
}

fn cw_pressed() -> Inputs {
    Inputs { cw: ks(1), ..Inputs::new() }
}

struct NullSounds;

impl Sounds for NullSounds {
    fn block_spawn(&mut self, _color: Block) {
    }

    fn line_clear(&mut self) {
    }

    fn lock(&mut self) {
    }

    fn land(&mut self) {
    }
}

fn tile(color: Block) -> Option<Tile> {
    Some(Tile { color, directions: BlockDirections::new(false, false, false, false) })
}

#[test]
fn spawn_values() {
    let p = Piece::new(Block::Red);
    assert!(matches!(p.rotation, Rotation::R0));
    assert!(matches!(p.rotations, Rotations::IPiece));
    assert_eq!(p.x, 3);
    assert_eq!(p.y, 0);
    assert_eq!(p.ticks_to_lock, 30);
}

#[test]
fn colour_to_shape_table() {
    assert!(matches!(Piece::new(Block::Red).rotations, Rotations::IPiece));
    assert!(matches!(Piece::new(Block::Orange).rotations, Rotations::LPiece));
    assert!(matches!(Piece::new(Block::Yellow).rotations, Rotations::OPiece));
    assert!(matches!(Piece::new(Block::Green).rotations, Rotations::ZPiece));
    assert!(matches!(Piece::new(Block::Cyan).rotations, Rotations::TPiece));
    assert!(matches!(Piece::new(Block::Blue).rotations, Rotations::JPiece));
    assert!(matches!(Piece::new(Block::Purple).rotations, Rotations::SPiece));
}

#[test]
fn rotation_cycle() {
    assert!(matches!(Rotation::R0.cw(), Rotation::R90));
    assert!(matches!(Rotation::R90.cw(), Rotation::R180));
    assert!(matches!(Rotation::R180.cw(), Rotation::R270));
    assert!(matches!(Rotation::R270.cw(), Rotation::R0));
    assert!(matches!(Rotation::R0.ccw(), Rotation::R270));
    assert!(matches!(Rotation::R90.ccw(), Rotation::R0));
    let all = [Rotation::R0, Rotation::R90, Rotation::R180, Rotation::R270];
    for r in all {
        assert_eq!(r.cw().ccw(), r);
        assert_eq!(r.ccw().cw(), r);
    }
}

#[test]
fn shape_table_i_piece() {
    // Flat I: the whole second row of the box.
    for col in 0..4 {
        assert!(shape_occupied(Rotations::IPiece, Rotation::R0, 1, col));
        assert!(!shape_occupied(Rotations::IPiece, Rotation::R0, 0, col));
    }
    // Upright I: the third column.
    for row in 0..4 {
        assert!(shape_occupied(Rotations::IPiece, Rotation::R90, row, 2));
        assert!(!shape_occupied(Rotations::IPiece, Rotation::R90, row, 1));
    }
}

#[test]
fn collides_with_walls_floor_and_tiles() {
    let w = Well::new();
    let p = Piece::new(Block::Red);
    assert!(!p.collides_with(&w, 0, 0, p.rotation));
    // Flat I at x = 3 spans columns 3..=6: four left moves hit the wall.
    assert!(!p.collides_with(&w, -3, 0, p.rotation));
    assert!(p.collides_with(&w, -4, 0, p.rotation));
    assert!(!p.collides_with(&w, 3, 0, p.rotation));
    assert!(p.collides_with(&w, 4, 0, p.rotation));
    // Its cells sit in row y + 1: the floor is 19 cells below.
    assert!(!p.collides_with(&w, 0, 4, p.rotation));

    let mut blocked = Well::new();
    blocked.set(1, 3, tile(Block::Green));
    assert!(blocked.get(1, 3).is_some());
    assert!(p.collides_with(&blocked, 0, 0, p.rotation));
    assert!(!p.collides_with(&blocked, 1, 0, p.rotation));
}

#[test]
fn cells_above_the_well_do_not_collide() {
    // An upright I at y = 0 reaches rows 0..=3; testing one row up puts a
    // cell at row -1, which is legal and free.
    let w = Well::new();
    let mut p = Piece::new(Block::Red);
    p.rotation = Rotation::R90;
    assert!(!p.collides_with(&w, 0, -1, p.rotation));
}

#[test]
fn sonic_drop_falls_to_rest() {
    let w = Well::new();
    let mut p = Piece::new(Block::Red);
    p.ticks_to_lock = 12;
    p.do_sonic(&w, &up_pressed());
    // Flat I occupies row y + 1; it rests when that is the bottom row.
    assert_eq!(p.y, 19);
    assert_eq!(p.ticks_to_lock, 30);
    assert_eq!(p.ticks_to_next_gravity, 256);
    assert!(p.collides_with(&w, 0, 1, p.rotation));

    // Without a fresh Up press nothing moves.
    let mut q = Piece::new(Block::Red);
    q.do_sonic(&w, &idle());
    assert_eq!(q.y, 0);
}

#[test]
fn horizontal_moves_and_blocks() {
    let w = Well::new();
    let mut p = Piece::new(Block::Red);
    p.do_horizontal(&w, &left_pressed());
    assert_eq!(p.x, 2);
    p.do_horizontal(&w, &right_pressed());
    assert_eq!(p.x, 3);
    // Left wins when both fire.
    let both = Inputs { left: ks(1), right: ks(1), ..Inputs::new() };
    p.do_horizontal(&w, &both);
    assert_eq!(p.x, 2);
    // A held direction below the auto-shift threshold does nothing.
    let held_short = Inputs { left: ks(10), ..Inputs::new() };
    p.do_horizontal(&w, &held_short);
    assert_eq!(p.x, 2);
    // Past the threshold it moves every tick.
    let held_long = Inputs { left: ks(17), ..Inputs::new() };
    p.do_horizontal(&w, &held_long);
    assert_eq!(p.x, 1);
    // Against the wall the move is refused.
    p.x = -2;  // upright I at column 0
    p.rotation = Rotation::R90;
    p.do_horizontal(&w, &held_long);
    assert_eq!(p.x, -2);
}

#[test]
fn rotation_kick_right_off_the_wall() {
    let w = Well::new();
    let mut p = Piece::new(Block::Red);
    p.rotation = Rotation::R90;
    p.x = -1;  // upright I in column 1
    p.y = 5;
    p.do_rotate(&w, &cw_pressed());
    // Flat at x = -1 would reach column -1; the one-cell right kick saves it.
    assert!(matches!(p.rotation, Rotation::R180));
    assert_eq!(p.x, 0);
}

#[test]
fn rotation_rejected_when_all_kicks_collide() {
    let w = Well::new();
    let mut p = Piece::new(Block::Red);
    p.rotation = Rotation::R90;
    p.x = -2;  // upright I in column 0
    p.y = 5;
    p.do_rotate(&w, &cw_pressed());
    // Flat at x = -2, -1 or -3 always pokes through the left wall.
    assert!(matches!(p.rotation, Rotation::R90));
    assert_eq!(p.x, -2);
}

#[test]
fn gravity_accumulates_at_level_rate() {
    let w = Well::new();
    let mut s = NullSounds;
    let mut p = Piece::new(Block::Red);
    // Rate 64: a cell of fall every fourth tick.
    for _ in 0..3 {
        p.do_gravity(&w, &idle(), 64, &mut s);
        assert_eq!(p.y, 0);
    }
    p.do_gravity(&w, &idle(), 64, &mut s);
    assert_eq!(p.y, 1);
    assert_eq!(p.ticks_to_next_gravity, 256);
}

#[test]
fn soft_drop_falls_every_tick() {
    let w = Well::new();
    let mut s = NullSounds;
    let mut p = Piece::new(Block::Red);
    for i in 1..=5 {
        p.do_gravity(&w, &down_held(), 4, &mut s);
        assert_eq!(p.y, i);
    }
}

#[test]
fn fast_gravity_falls_many_cells_per_tick() {
    let w = Well::new();
    let mut s = NullSounds;
    let mut p = Piece::new(Block::Red);
    // Rate 1280 = five cells per tick.
    p.do_gravity(&w, &idle(), 1280, &mut s);
    assert_eq!(p.y, 5);
}

#[test]
fn resting_counts_down_the_lock_delay() {
    let w = Well::new();
    let mut s = NullSounds;
    let mut p = Piece::new(Block::Red);
    p.do_sonic(&w, &up_pressed());
    assert_eq!(p.y, 19);
    for i in 1..=3 {
        p.do_gravity(&w, &idle(), 4, &mut s);
        assert_eq!(p.ticks_to_lock, 30 - i);
        assert_eq!(p.y, 19);
    }
}

#[test]
fn do_lock_fires_only_when_owed() {
    let mut w = Well::new();
    let mut s = NullSounds;
    let mut p = Piece::new(Block::Cyan);
    // Falling freely: no lock even with Down held.
    assert!(!p.do_lock(&mut w, &down_held(), &mut s));
    // Resting but with delay left and no Down: no lock.
    p.do_sonic(&w, &up_pressed());
    assert!(!p.do_lock(&mut w, &idle(), &mut s));
    // Resting with Down held: locks.
    assert!(p.do_lock(&mut w, &down_held(), &mut s));
}

#[test]
fn lock_writes_footprint_and_neighbour_masks() {
    let mut w = Well::new();
    let mut s = NullSounds;
    let mut p = Piece::new(Block::Cyan);  // T piece
    p.do_sonic(&w, &up_pressed());
    // T at R0 occupies (1, 0..=2) and (2, 1) of its box; resting puts the
    // stem on the bottom row.
    assert_eq!(p.y, 18);
    assert!(p.do_lock(&mut w, &down_held(), &mut s));

    let top = 19;
    let bottom = 20;
    assert_eq!(w.get(top, 3).unwrap().color, Block::Cyan);
    assert_eq!(w.get(top, 4).unwrap().color, Block::Cyan);
    assert_eq!(w.get(top, 5).unwrap().color, Block::Cyan);
    assert_eq!(w.get(bottom, 4).unwrap().color, Block::Cyan);
    assert!(w.get(bottom, 3).is_none());
    assert!(w.get(bottom, 5).is_none());

    // Neighbour masks, bits are up/down/left/right from high to low.
    assert_eq!(w.get(top, 3).unwrap().directions.bits(), 0b0001);
    assert_eq!(w.get(top, 4).unwrap().directions.bits(), 0b0111);
    assert_eq!(w.get(top, 5).unwrap().directions.bits(), 0b0010);
    assert_eq!(w.get(bottom, 4).unwrap().directions.bits(), 0b1000);
}

#[test]
fn lock_preserves_existing_tiles() {
    let mut w = Well::new();
    let mut s = NullSounds;
    w.set(20, 0, tile(Block::Green));
    let mut p = Piece::new(Block::Red);
    p.do_sonic(&w, &up_pressed());
    assert!(p.do_lock(&mut w, &down_held(), &mut s));
    assert_eq!(w.get(20, 0).unwrap().color, Block::Green);
    for c in 3..=6 {
        assert_eq!(w.get(20, c).unwrap().color, Block::Red);
    }
}
