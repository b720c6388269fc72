//! Deterministic simulation core of a falling-block puzzle game: the
//! piece/board state machine, collision and locking, line-clear mechanics,
//! input resolution with auto-repeat and directional tie-breaking, and the
//! history-avoiding piece sequencer.
//!
//! The crate is organised leaf-first: the [`well`] module holds the play
//! field and line-clear mechanics, [`piece`] the falling piece with its
//! movement, rotation, gravity and locking rules, [`input`] the per-tick
//! input resolver, [`randomizer`] the piece sequencer, and [`field`] the
//! top-level phase state machine driven once per fixed tick.  [`hooks`]
//! declares the cosmetic side-effect sinks, and [`proto`] the message
//! payloads of the networked variant.
//!
//! Every component carries an exact functional contract: each executable
//! step equals a spec-level mirror of itself (`Field::update` equals
//! `spec_update` over the session model, the sequencer equals `spec_next`,
//! and so on), so replays are bit-exact by construction.  On top of the
//! contracts the crate proves the standing laws of the game: a committed
//! state never holds a colliding piece, locking never overwrites an
//! occupied slot, detecting and committing a clear drops exactly the full
//! rows, a draw avoids the trailing four-piece window up to the redraw
//! cap, Left beats Right on a simultaneous press, and the auto-shift
//! window fires exactly on the press tick and past the threshold.

pub mod field;
pub mod hooks;
pub mod input;
pub mod piece;
pub mod proto;
pub mod randomizer;
pub mod well;
