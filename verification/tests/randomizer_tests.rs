use logic::piece::Rotation;
use logic::randomizer::Randomizer;
use logic::well::Block;

fn index_of(color: Block) -> u8 {
    match color {
        Block::Red => 0,
        Block::Green => 1,
        Block::Purple => 2,
        Block::Blue => 3,
        Block::Orange => 4,
        Block::Yellow => 5,
        Block::Cyan => 6,
    }
}

#[test]
fn initial_state() {
    let rz = Randomizer::new();
    let Randomizer::TTATGM2P { seed, h0, h1, h2, h3 } = rz;
    assert_eq!(seed, 10);
    assert_eq!((h0, h1, h2, h3), (1, 1, 2, 2));
}

/// The generator is deterministic: the first dozen draws from the fixed
/// initial state.
#[test]
fn golden_sequence_from_fresh_state() {
    let mut rz = Randomizer::new();
    let expected = [
        Block::Orange,
        Block::Cyan,
        Block::Purple,
        Block::Red,
        Block::Green,
        Block::Yellow,
        Block::Orange,
        Block::Cyan,
        Block::Purple,
        Block::Blue,
        Block::Red,
        Block::Yellow,
    ];
    for (i, want) in expected.iter().enumerate() {
        let p = rz.next_piece();
        assert_eq!(p.color, *want, "draw {}", i);
    }
}

#[test]
fn drawn_pieces_spawn_canonically() {
    let mut rz = Randomizer::new();
    for _ in 0..50 {
        let p = rz.next_piece();
        assert_eq!(p.x, 3);
        assert_eq!(p.y, 0);
        assert_eq!(p.ticks_to_lock, 30);
        assert!(matches!(p.rotation, Rotation::R0));
    }
}

#[test]
fn history_holds_the_last_four_results() {
    let mut rz = Randomizer::new();
    let p1 = rz.next_piece();
    {
        let Randomizer::TTATGM2P { h0, h1, h2, h3, .. } = rz;
        assert_eq!(h0, index_of(p1.color));
        assert_eq!((h1, h2, h3), (1, 1, 2));
    }
    let p2 = rz.next_piece();
    let Randomizer::TTATGM2P { h0, h1, h2, h3, .. } = rz;
    assert_eq!(h0, index_of(p2.color));
    assert_eq!(h1, index_of(p1.color));
    assert_eq!((h2, h3), (1, 1));
}

/// Within the golden prefix no piece repeats inside any window of four
/// consecutive draws (the redraw cap is not exhausted there).
#[test]
fn no_repeat_within_four_draw_window_on_prefix() {
    let mut rz = Randomizer::new();
    let mut seen: Vec<u8> = Vec::new();
    for _ in 0..12 {
        let r = index_of(rz.next_piece().color);
        let start = if seen.len() > 4 { seen.len() - 4 } else { 0 };
        assert!(!seen[start..].contains(&r));
        seen.push(r);
    }
}

/// A long run never panics and always yields a sane piece, even when the
/// redraw cap is exhausted and a short-window repeat slips through.
#[test]
fn long_run_degrades_gracefully() {
    let mut rz = Randomizer::new();
    let mut repeats = 0usize;
    let mut seen: Vec<u8> = Vec::new();
    for _ in 0..2000 {
        let r = index_of(rz.next_piece().color);
        let start = if seen.len() > 4 { seen.len() - 4 } else { 0 };
        if seen[start..].contains(&r) {
            repeats += 1;
        }
        seen.push(r);
    }
    // The cap can run out, but only rarely.
    assert!(repeats < 200);
}
