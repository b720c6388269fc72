use logic::field::{level_to_gravity, Field, GameState};
use logic::hooks::{Cubes, Sounds};
use logic::input::{Inputs, KeyState};
use logic::piece::{Piece, Rotation};
use logic::randomizer::Randomizer;
use logic::well::{Block, BlockDirections, Tile, Well, WELL_COLS, WELL_ROWS};

struct CountingSounds {
    spawns: usize,
    clears: usize,
    locks: usize,
    lands: usize,
}

impl CountingSounds {
    fn new() -> CountingSounds {
        CountingSounds { spawns: 0, clears: 0, locks: 0, lands: 0 }
    }
}

impl Sounds for CountingSounds {
    fn block_spawn(&mut self, _color: Block) {
        self.spawns += 1;
    }

    fn line_clear(&mut self) {
        self.clears += 1;
    }

    fn lock(&mut self) {
        self.locks += 1;
    }

    fn land(&mut self) {
        self.lands += 1;
    }
}

struct RecordingCubes {
    events: Vec<(i32, i32, Block)>,
}

impl Cubes for RecordingCubes {
    fn spawn_cube(&mut self, x: i32, y: i32, color: Block) {
        self.events.push((x, y, color));
    }
}

fn ks(held: u16) -> KeyState {
    KeyState { held, released: 0, stamp: 0 }
}

fn idle() -> Inputs {
    Inputs::new()
}

fn down_held() -> Inputs {
    Inputs { down: ks(5), ..Inputs::new() }
}

fn up_pressed() -> Inputs {
    Inputs { up: ks(1), ..Inputs::new() }
}

fn tile(color: Block) -> Option<Tile> {
    Some(Tile { color, directions: BlockDirections::new(false, false, false, false) })
}

fn field_with(well: Well, level: u32, state: GameState) -> Field {
    Field { randomizer: Randomizer::new(), well, next: Piece::new(Block::Yellow), level, state }
}

fn count_tiles(w: &Well) -> usize {
    let mut n = 0;
    for r in 0..WELL_ROWS {
        for c in 0..WELL_COLS {
            if w.get(r, c).is_some() {
                n += 1;
            }
        }
    }
    n
}

#[test]
fn gravity_table_spot_values() {
    assert_eq!(level_to_gravity(0), 4);
    assert_eq!(level_to_gravity(29), 4);
    assert_eq!(level_to_gravity(30), 6);
    assert_eq!(level_to_gravity(35), 8);
    assert_eq!(level_to_gravity(40), 10);
    assert_eq!(level_to_gravity(50), 12);
    assert_eq!(level_to_gravity(60), 16);
    assert_eq!(level_to_gravity(70), 32);
    assert_eq!(level_to_gravity(80), 48);
    assert_eq!(level_to_gravity(99), 64);
    assert_eq!(level_to_gravity(100), 80);
    assert_eq!(level_to_gravity(170), 144);
    assert_eq!(level_to_gravity(200), 4);
    assert_eq!(level_to_gravity(220), 32);
    assert_eq!(level_to_gravity(251), 256);
    assert_eq!(level_to_gravity(300), 512);
    assert_eq!(level_to_gravity(360), 1024);
    assert_eq!(level_to_gravity(400), 1280);
    assert_eq!(level_to_gravity(419), 1280);
    assert_eq!(level_to_gravity(420), 1024);
    assert_eq!(level_to_gravity(450), 768);
    assert_eq!(level_to_gravity(500), 5120);
}

#[test]
fn new_session_draws_preview_then_active() {
    let f = Field::new();
    assert_eq!(f.level, 0);
    assert_eq!(f.next.color, Block::Orange);
    match &f.state {
        GameState::ActivePiece { piece, first_frame } => {
            assert_eq!(piece.color, Block::Cyan);
            assert!(*first_frame);
            assert_eq!(piece.x, 3);
            assert_eq!(piece.y, 0);
        },
        _ => panic!("fresh session must start with an active piece"),
    }
    assert_eq!(count_tiles(&f.well), 0);
}

/// At level 99 the place-delay expiry must not raise the level: the
/// per-placement bump plateaus at century boundaries.
#[test]
fn level_99_plateaus_on_placement() {
    let mut f = field_with(Well::new(), 99, GameState::PlaceDelay { ticks_remaining: 1 });
    let mut s = CountingSounds::new();
    let mut c = RecordingCubes { events: Vec::new() };
    f.update(&idle(), &mut s, &mut c);
    assert_eq!(f.level, 99);
    match &f.state {
        GameState::ActivePiece { piece, .. } => {
            assert_eq!(piece.color, Block::Yellow);
        },
        _ => panic!("expected the preview piece to go active"),
    }
    // The new preview is the sequencer's first draw, announced once.
    assert_eq!(f.next.color, Block::Orange);
    assert_eq!(s.spawns, 1);
}

#[test]
fn ordinary_placement_increments_level() {
    let mut f = field_with(Well::new(), 150, GameState::PlaceDelay { ticks_remaining: 1 });
    let mut s = CountingSounds::new();
    let mut c = RecordingCubes { events: Vec::new() };
    f.update(&idle(), &mut s, &mut c);
    assert_eq!(f.level, 151);
}

/// A four-row clear at level 250 credits all four rows at once, independent
/// of the per-placement bump.
#[test]
fn four_row_clear_credits_level_by_four() {
    let mut w = Well::new();
    for r in 17..WELL_ROWS {
        for c in 0..WELL_COLS {
            if c != 8 {
                w.set(r, c, tile(Block::Green));
            }
        }
    }
    let mut piece = Piece::new(Block::Red);
    piece.rotation = Rotation::R90;  // upright I in column 8
    piece.x = 6;
    let mut f = field_with(w, 250, GameState::ActivePiece { piece, first_frame: true });
    let mut s = CountingSounds::new();
    let mut c = RecordingCubes { events: Vec::new() };

    // Soft-drop: one cell per tick for 17 ticks, locking on the last.
    for _ in 0..17 {
        f.update(&down_held(), &mut s, &mut c);
    }
    assert_eq!(f.level, 254);
    assert_eq!(s.clears, 1);
    assert_eq!(s.locks, 1);
    match &f.state {
        GameState::ClearDelay { ticks_remaining, rows_to_lower } => {
            assert_eq!(*ticks_remaining, 41);
            assert_eq!(rows_to_lower, &vec![17, 18, 19, 20]);
        },
        _ => panic!("expected the clear delay"),
    }
    // Four rows of ten decorative cubes each.
    assert_eq!(c.events.len(), 40);
}

/// Holding Down force-locks a fresh flat I-piece without any Up press:
/// exactly one row gains exactly its four contiguous cells, and the lock
/// cue fires exactly once.
#[test]
fn soft_drop_locks_i_piece_footprint() {
    let f0 = field_with(
        Well::new(),
        0,
        GameState::ActivePiece { piece: Piece::new(Block::Red), first_frame: true },
    );
    let mut f = f0;
    let mut s = CountingSounds::new();
    let mut c = RecordingCubes { events: Vec::new() };

    for _ in 0..19 {
        f.update(&down_held(), &mut s, &mut c);
    }
    assert_eq!(s.locks, 1);
    assert_eq!(s.lands, 1);
    assert_eq!(s.clears, 0);
    assert!(matches!(f.state, GameState::PlaceDelay { ticks_remaining: 30 }));
    for col in 3..=6 {
        assert_eq!(f.well.get(20, col).unwrap().color, Block::Red);
    }
    assert_eq!(count_tiles(&f.well), 4);

    // Nothing else locks while the place delay runs.
    for _ in 0..5 {
        f.update(&down_held(), &mut s, &mut c);
    }
    assert_eq!(s.locks, 1);
    assert!(matches!(f.state, GameState::PlaceDelay { ticks_remaining: 25 }));
}

/// Fill the bottom row with four I-pieces, watch the clear being detected
/// with its captured tiles, and after the 41-tick delay watch the rows
/// above drop by one.
#[test]
fn single_row_clear_end_to_end() {
    let mut w = Well::new();
    let mut s = CountingSounds::new();

    // Two flat I-pieces cover columns 0..=7 of the bottom row; two upright
    // ones fill columns 8 and 9 (and stack three cells above them).
    let mut p1 = Piece::new(Block::Red);
    p1.x = 0;
    p1.do_sonic(&w, &up_pressed());
    assert!(p1.do_lock(&mut w, &down_held(), &mut s));
    let mut p2 = Piece::new(Block::Red);
    p2.x = 4;
    p2.do_sonic(&w, &up_pressed());
    assert!(p2.do_lock(&mut w, &down_held(), &mut s));
    let mut p3 = Piece::new(Block::Red);
    p3.rotation = Rotation::R90;
    p3.x = 6;
    p3.do_sonic(&w, &up_pressed());
    assert!(p3.do_lock(&mut w, &down_held(), &mut s));
    let mut p4 = Piece::new(Block::Red);
    p4.rotation = Rotation::R90;
    p4.x = 7;
    p4.do_sonic(&w, &up_pressed());
    assert!(p4.do_lock(&mut w, &down_held(), &mut s));

    assert!(w.row_is_full(20));
    let mut before: Vec<Option<Tile>> = Vec::new();
    for c in 0..WELL_COLS {
        before.push(w.get(20, c));
    }

    let cleared = w.do_clear();
    assert_eq!(cleared.len(), 1);
    assert_eq!(cleared[0].0, 20);
    for c in 0..WELL_COLS {
        assert_eq!(cleared[0].1[c], before[c]);
        assert!(w.get(20, c).is_none());
    }

    // Hand the zeroed well to a session sitting in the clear delay.
    let rows: Vec<i32> = cleared.iter().map(|p| p.0).collect();
    let mut f = field_with(
        w,
        1,
        GameState::ClearDelay { ticks_remaining: 41, rows_to_lower: rows },
    );
    let mut c = RecordingCubes { events: Vec::new() };
    for i in 1..=40 {
        f.update(&idle(), &mut s, &mut c);
        match &f.state {
            GameState::ClearDelay { ticks_remaining, .. } => {
                assert_eq!(*ticks_remaining, 41 - i);
            },
            _ => panic!("the delay must run its full span"),
        }
    }
    f.update(&idle(), &mut s, &mut c);
    assert!(matches!(f.state, GameState::PlaceDelay { ticks_remaining: 30 }));

    // The upright pieces' remnants in columns 8 and 9 dropped one row.
    for c2 in 0..WELL_COLS {
        assert!(f.well.get(0, c2).is_none());
    }
    for r in 18..WELL_ROWS {
        assert_eq!(f.well.get(r, 8).unwrap().color, Block::Red);
        assert_eq!(f.well.get(r, 9).unwrap().color, Block::Red);
    }
    assert_eq!(count_tiles(&f.well), 6);
}

/// A blocked spawn at place-delay expiry goes to the game-over countdown,
/// and the countdown's end resets the whole session.
#[test]
fn game_over_then_full_reset() {
    let mut w = Well::new();
    // The preview piece is a flat I spawning into row 1, columns 3..=6.
    w.set(1, 4, tile(Block::Purple));
    let mut f = Field {
        randomizer: Randomizer::new(),
        well: w,
        next: Piece::new(Block::Red),
        level: 7,
        state: GameState::PlaceDelay { ticks_remaining: 1 },
    };
    let mut s = CountingSounds::new();
    let mut c = RecordingCubes { events: Vec::new() };

    f.update(&idle(), &mut s, &mut c);
    assert_eq!(f.level, 8);
    assert!(matches!(f.state, GameState::GameOver { ticks_remaining: 300 }));

    for _ in 0..300 {
        f.update(&idle(), &mut s, &mut c);
    }
    assert_eq!(f.level, 0);
    assert_eq!(count_tiles(&f.well), 0);
    assert_eq!(f.next.color, Block::Orange);
    match &f.state {
        GameState::ActivePiece { piece, first_frame } => {
            assert_eq!(piece.color, Block::Cyan);
            assert!(*first_frame);
        },
        _ => panic!("the reset must spawn a fresh active piece"),
    }
}

/// A buffered rotation press at place-delay expiry spawns the preview piece
/// pre-rotated.
#[test]
fn buffered_rotation_applies_at_spawn() {
    let mut f = field_with(Well::new(), 10, GameState::PlaceDelay { ticks_remaining: 1 });
    let mut s = CountingSounds::new();
    let mut c = RecordingCubes { events: Vec::new() };
    let cw = Inputs { cw: ks(3), ..Inputs::new() };
    f.update(&cw, &mut s, &mut c);
    match &f.state {
        GameState::ActivePiece { piece, .. } => {
            assert!(matches!(piece.rotation, Rotation::R90));
        },
        _ => panic!("expected a spawn"),
    }
}
