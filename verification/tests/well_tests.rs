use logic::well::{Block, BlockDirections, Tile, Well, WELL_COLS, WELL_ROWS};

fn tile(color: Block) -> Option<Tile> {
    Some(Tile { color, directions: BlockDirections::new(false, false, false, false) })
}

#[test]
fn block_directions_accessors() {
    let d = BlockDirections::new(true, false, true, false);
    assert!(d.up());
    assert!(!d.down());
    assert!(d.left());
    assert!(!d.right());
    assert_eq!(d.bits(), 0b1010);
    let all = BlockDirections::new(true, true, true, true);
    assert_eq!(all.bits(), 0b1111);
    let none = BlockDirections::new(false, false, false, false);
    assert_eq!(none.bits(), 0);
}

#[test]
fn block_directions_match_with() {
    let d = BlockDirections::new(true, true, false, true);
    let above = BlockDirections::new(false, true, false, false);
    let below = BlockDirections::new(false, false, false, false);
    let beside = BlockDirections::new(false, false, true, false);
    let m = d.match_with(Some(above), Some(below), None, Some(beside));
    assert!(m.up());
    assert!(!m.down());
    assert!(!m.left());
    assert!(m.right());
}

#[test]
fn new_well_is_empty() {
    let w = Well::new();
    for r in 0..WELL_ROWS {
        for c in 0..WELL_COLS {
            assert!(w.get(r, c).is_none());
        }
    }
}

#[test]
fn set_and_get_roundtrip() {
    let mut w = Well::new();
    w.set(3, 7, tile(Block::Cyan));
    assert_eq!(w.get(3, 7).unwrap().color, Block::Cyan);
    assert!(w.get(3, 6).is_none());
    assert!(w.get(2, 7).is_none());
}

#[test]
fn do_clear_detects_exactly_the_full_rows() {
    let mut w = Well::new();
    for c in 0..WELL_COLS {
        w.set(5, c, tile(Block::Red));
        w.set(7, c, tile(Block::Blue));
    }
    w.set(6, 0, tile(Block::Green));

    let cleared = w.do_clear();
    assert_eq!(cleared.len(), 2);
    assert_eq!(cleared[0].0, 5);
    assert_eq!(cleared[1].0, 7);
    for c in 0..WELL_COLS {
        assert_eq!(cleared[0].1[c].unwrap().color, Block::Red);
        assert_eq!(cleared[1].1[c].unwrap().color, Block::Blue);
        assert!(w.get(5, c).is_none());
        assert!(w.get(7, c).is_none());
    }
    assert_eq!(w.get(6, 0).unwrap().color, Block::Green);
}

#[test]
fn do_clear_on_partial_board_returns_nothing() {
    let mut w = Well::new();
    w.set(20, 0, tile(Block::Red));
    let cleared = w.do_clear();
    assert!(cleared.is_empty());
    assert_eq!(w.get(20, 0).unwrap().color, Block::Red);
}

/// Non-contiguous full rows: detect, zero, then commit. The marked rows
/// vanish, every row above shifts down by the number of removed rows below
/// it, and as many fresh empty rows appear at the top.
#[test]
fn clear_then_commit_non_contiguous_rows() {
    let mut w = Well::new();
    // A marker in each row r at column r % WELL_COLS, so rows stay
    // recognisable after the shift.
    for r in 0..WELL_ROWS {
        w.set(r, r % WELL_COLS, tile(Block::Green));
    }
    // Rows 5 and 7 become full.
    for c in 0..WELL_COLS {
        w.set(5, c, tile(Block::Red));
        w.set(7, c, tile(Block::Blue));
    }

    let cleared = w.do_clear();
    let rows: Vec<i32> = cleared.iter().map(|p| p.0).collect();
    assert_eq!(rows, vec![5, 7]);
    w.commit_clear(&rows);

    // Two fresh empty rows on top.
    for c in 0..WELL_COLS {
        assert!(w.get(0, c).is_none());
        assert!(w.get(1, c).is_none());
    }
    // Old rows 0..=4 now sit at 2..=6.
    for old in 0..5 {
        let new = old + 2;
        assert_eq!(w.get(new, old % WELL_COLS).unwrap().color, Block::Green);
    }
    // Old row 6 now sits at 7.
    assert_eq!(w.get(7, 6).unwrap().color, Block::Green);
    // Rows below the last removed row are untouched.
    for old in 8..WELL_ROWS {
        assert_eq!(w.get(old, old % WELL_COLS).unwrap().color, Block::Green);
    }
}

#[test]
fn full_board_clears_every_row() {
    let mut w = Well::new();
    for r in 0..WELL_ROWS {
        for c in 0..WELL_COLS {
            w.set(r, c, tile(Block::Cyan));
        }
    }
    let cleared = w.do_clear();
    assert_eq!(cleared.len(), WELL_ROWS);
    for (k, entry) in cleared.iter().enumerate() {
        assert_eq!(entry.0, k as i32);
    }
    let rows: Vec<i32> = cleared.iter().map(|p| p.0).collect();
    w.commit_clear(&rows);
    for r in 0..WELL_ROWS {
        for c in 0..WELL_COLS {
            assert!(w.get(r, c).is_none());
        }
    }
}

#[test]
fn commit_clear_with_no_rows_changes_nothing() {
    let mut w = Well::new();
    w.set(4, 4, tile(Block::Blue));
    w.commit_clear(&Vec::new());
    assert_eq!(w.get(4, 4).unwrap().color, Block::Blue);
    assert!(!w.row_is_full(4));
}

#[test]
fn commit_clear_bottom_row() {
    let mut w = Well::new();
    w.set(0, 2, tile(Block::Purple));
    w.set(19, 5, tile(Block::Green));
    for c in 0..WELL_COLS {
        w.set(20, c, tile(Block::Yellow));
    }
    let cleared = w.do_clear();
    assert_eq!(cleared.len(), 1);
    assert_eq!(cleared[0].0, 20);
    w.commit_clear(&vec![20]);
    // Every old row dropped one: the markers moved from rows 0 and 19 to
    // rows 1 and 20, and a fresh empty row appeared on top.
    for c in 0..WELL_COLS {
        assert!(w.get(0, c).is_none());
    }
    assert_eq!(w.get(1, 2).unwrap().color, Block::Purple);
    assert_eq!(w.get(20, 5).unwrap().color, Block::Green);
    for c in 0..WELL_COLS {
        if c != 5 {
            assert!(w.get(20, c).is_none());
        }
    }
}
