//! Per-tick input resolution: debouncing, saturating held/released
//! counters, the directional tie-break, and delayed auto-shift.

use vstd::prelude::*;

verus! {

/// A logical input of the simulation.  Identity only, no payload.
#[derive(Copy, Clone, Debug, PartialEq, Eq, Structural)]
pub enum Input {
    Up,
    Down,
    Left,
    Right,
    CW,
    CCW,
}

/// One flag per input, as reported by an input source.
#[derive(Copy, Clone, Debug, PartialEq, Eq, Structural)]
pub struct InputFlags {
    pub up: bool,
    pub down: bool,
    pub left: bool,
    pub right: bool,
    pub cw: bool,
    pub ccw: bool,
}

impl InputFlags {
    /// The flag of one input.
    pub open spec fn spec_get(self, i: Input) -> bool {
        match i {
            Input::Up => self.up,
            Input::Down => self.down,
            Input::Left => self.left,
            Input::Right => self.right,
            Input::CW => self.cw,
            Input::CCW => self.ccw,
        }
    }

    pub fn get(&self, i: Input) -> (b: bool)
        ensures
            b == self.spec_get(i),
    {
        match i {
            Input::Up => self.up,
            Input::Down => self.down,
            Input::Left => self.left,
            Input::Right => self.right,
            Input::CW => self.cw,
            Input::CCW => self.ccw,
        }
    }
}

/// Everything an input source reports during one tick: which inputs saw a
/// fresh press edge, and which are currently held down.
#[derive(Copy, Clone, Debug, PartialEq, Eq, Structural)]
pub struct InputSnapshot {
    pub fresh: InputFlags,
    pub down: InputFlags,
}

/// An external input source (live keys, replay playback, the network).
/// `peek` and `consume` bracket each tick so that sources with lookahead can
/// stage and then retire one recorded frame.  The source is outside the
/// simulation: nothing is assumed about its answers.
pub trait InputProvider {
    fn peek(&mut self);

    fn consume(&mut self);

    fn key_just_pressed(&self, input: Input) -> bool;

    fn key_down(&self, input: Input) -> bool;
}

/// Resolver state for one input.
#[derive(Copy, Clone, Debug, PartialEq, Eq, Structural)]
pub struct KeyState {
    /// Ticks the input has been resolved held, saturating.
    pub held: u16,
    /// Ticks since the input was last resolved held, saturating.
    pub released: u16,
    /// Tick index of the most recent fresh press.
    pub stamp: u64,
}

/// Increment that sticks at the counter's ceiling.
pub open spec fn sat_inc(x: u16) -> u16 {
    if x == 0xFFFF {
        x
    } else {
        (x + 1) as u16
    }
}

/// One key's counters after one resolved tick.
pub open spec fn counted(k: KeyState, resolved: bool) -> KeyState {
    if resolved {
        KeyState { held: sat_inc(k.held), released: 0, stamp: k.stamp }
    } else {
        KeyState { held: 0, released: sat_inc(k.released), stamp: k.stamp }
    }
}

/// The input resolver: per-input counters and press stamps, advanced once
/// per tick from a snapshot of the external source.
#[derive(Copy, Clone, Debug, PartialEq, Eq, Structural)]
pub struct Inputs {
    pub up: KeyState,
    pub down: KeyState,
    pub left: KeyState,
    pub right: KeyState,
    pub cw: KeyState,
    pub ccw: KeyState,
}

impl Inputs {
    /// The state kept for one input.
    pub open spec fn key(self, i: Input) -> KeyState {
        match i {
            Input::Up => self.up,
            Input::Down => self.down,
            Input::Left => self.left,
            Input::Right => self.right,
            Input::CW => self.cw,
            Input::CCW => self.ccw,
        }
    }

    /// All counters and stamps at zero.
    pub fn new() -> (r: Inputs)
        ensures
            forall|i: Input| #[trigger] r.key(i) == (KeyState { held: 0, released: 0, stamp: 0 }),
    {
        let z = KeyState { held: 0, released: 0, stamp: 0 };
        Inputs { up: z, down: z, left: z, right: z, cw: z, ccw: z }
    }

    /// The press stamps after this tick's fresh presses are recorded.
    pub open spec fn stamped(self, tick: u64, fresh: InputFlags) -> Inputs {
        Inputs {
            up: KeyState { stamp: if fresh.up { tick } else { self.up.stamp }, ..self.up },
            down: KeyState { stamp: if fresh.down { tick } else { self.down.stamp }, ..self.down },
            left: KeyState { stamp: if fresh.left { tick } else { self.left.stamp }, ..self.left },
            right: KeyState {
                stamp: if fresh.right { tick } else { self.right.stamp },
                ..self.right
            },
            cw: KeyState { stamp: if fresh.cw { tick } else { self.cw.stamp }, ..self.cw },
            ccw: KeyState { stamp: if fresh.ccw { tick } else { self.ccw.stamp }, ..self.ccw },
        }
    }

    /// A directional axis may resolve held only while the raw source still
    /// holds it and no other axis was pressed more recently.
    pub open spec fn axis_cond(self, raw: InputFlags, i: Input) -> bool {
        raw.spec_get(i) && match i {
            Input::Left => self.left.stamp >= self.right.stamp && self.left.stamp >= self.up.stamp
                && self.left.stamp >= self.down.stamp,
            Input::Right => self.right.stamp >= self.left.stamp && self.right.stamp
                >= self.up.stamp && self.right.stamp >= self.down.stamp,
            Input::Up => self.up.stamp >= self.down.stamp && self.up.stamp >= self.left.stamp
                && self.up.stamp >= self.right.stamp,
            Input::Down => self.down.stamp >= self.up.stamp && self.down.stamp >= self.left.stamp
                && self.down.stamp >= self.right.stamp,
            Input::CW => true,
            Input::CCW => true,
        }
    }

    /// Resolved held state of one input.  The four directions are mutually
    /// exclusive: on a stamp tie the axis checked first wins, in the order
    /// Left, Right, Up, Down.  Rotation inputs pass straight through.
    pub open spec fn resolved_down(self, raw: InputFlags, i: Input) -> bool {
        match i {
            Input::CW => raw.cw,
            Input::CCW => raw.ccw,
            Input::Left => self.axis_cond(raw, Input::Left),
            Input::Right => !self.axis_cond(raw, Input::Left) && self.axis_cond(raw, Input::Right),
            Input::Up => !self.axis_cond(raw, Input::Left) && !self.axis_cond(raw, Input::Right)
                && self.axis_cond(raw, Input::Up),
            Input::Down => !self.axis_cond(raw, Input::Left) && !self.axis_cond(raw, Input::Right)
                && !self.axis_cond(raw, Input::Up) && self.axis_cond(raw, Input::Down),
        }
    }

    /// The whole resolver state after one tick fed by `snap`.
    pub open spec fn spec_tick(self, tick: u64, snap: InputSnapshot) -> Inputs {
        let st = self.stamped(tick, snap.fresh);
        Inputs {
            up: counted(st.up, st.resolved_down(snap.down, Input::Up)),
            down: counted(st.down, st.resolved_down(snap.down, Input::Down)),
            left: counted(st.left, st.resolved_down(snap.down, Input::Left)),
            right: counted(st.right, st.resolved_down(snap.down, Input::Right)),
            cw: counted(st.cw, st.resolved_down(snap.down, Input::CW)),
            ccw: counted(st.ccw, st.resolved_down(snap.down, Input::CCW)),
        }
    }

    /// Advance one tick from a snapshot already captured from the source.
    pub fn resolve_tick(&mut self, tick: u64, snap: &InputSnapshot)
        ensures
            *final(self) == old(self).spec_tick(tick, *snap),
    {
        let up_stamp: u64 = if snap.fresh.up { tick } else { self.up.stamp };
        let down_stamp: u64 = if snap.fresh.down { tick } else { self.down.stamp };
        let left_stamp: u64 = if snap.fresh.left { tick } else { self.left.stamp };
        let right_stamp: u64 = if snap.fresh.right { tick } else { self.right.stamp };
        let cw_stamp: u64 = if snap.fresh.cw { tick } else { self.cw.stamp };
        let ccw_stamp: u64 = if snap.fresh.ccw { tick } else { self.ccw.stamp };

        let l = snap.down.left && left_stamp >= right_stamp && left_stamp >= up_stamp && left_stamp
            >= down_stamp;
        let r = !l && snap.down.right && right_stamp >= left_stamp && right_stamp >= up_stamp
            && right_stamp >= down_stamp;
        let u = !l && !r && snap.down.up && up_stamp >= down_stamp && up_stamp >= left_stamp
            && up_stamp >= right_stamp;
        let d = !l && !r && !u && snap.down.down && down_stamp >= up_stamp && down_stamp
            >= left_stamp && down_stamp >= right_stamp;

        self.up = Self::count_key(KeyState { stamp: up_stamp, ..self.up }, u);
        self.down = Self::count_key(KeyState { stamp: down_stamp, ..self.down }, d);
        self.left = Self::count_key(KeyState { stamp: left_stamp, ..self.left }, l);
        self.right = Self::count_key(KeyState { stamp: right_stamp, ..self.right }, r);
        self.cw = Self::count_key(KeyState { stamp: cw_stamp, ..self.cw }, snap.down.cw);
        self.ccw = Self::count_key(KeyState { stamp: ccw_stamp, ..self.ccw }, snap.down.ccw);
    }

    /// Advance the counters of one key.
    fn count_key(k: KeyState, resolved: bool) -> (r: KeyState)
        ensures
            r == counted(k, resolved),
    {
        if resolved {
            KeyState {
                held: if k.held == 0xFFFF {
                    k.held
                } else {
                    k.held + 1
                },
                released: 0,
                stamp: k.stamp,
            }
        } else {
            KeyState {
                held: 0,
                released: if k.released == 0xFFFF {
                    k.released
                } else {
                    k.released + 1
                },
                stamp: k.stamp,
            }
        }
    }

    /// Consume one tick from an external source: record its fresh presses
    /// and held keys, then advance the counters.  Nothing is assumed about
    /// the source, so the new state is pinned only relative to the snapshot
    /// the source answered with.
    pub fn tick<P: InputProvider>(&mut self, tick: u64, provider: &mut P)
        ensures
            exists|snap: InputSnapshot| *final(self) == old(self).spec_tick(tick, snap),
    {
        provider.peek();
        let snap = InputSnapshot {
            fresh: InputFlags {
                up: provider.key_just_pressed(Input::Up),
                down: provider.key_just_pressed(Input::Down),
                left: provider.key_just_pressed(Input::Left),
                right: provider.key_just_pressed(Input::Right),
                cw: provider.key_just_pressed(Input::CW),
                ccw: provider.key_just_pressed(Input::CCW),
            },
            down: InputFlags {
                up: provider.key_down(Input::Up),
                down: provider.key_down(Input::Down),
                left: provider.key_down(Input::Left),
                right: provider.key_down(Input::Right),
                cw: provider.key_down(Input::CW),
                ccw: provider.key_down(Input::CCW),
            },
        };
        self.resolve_tick(tick, &snap);
        provider.consume();
    }

    /// The input is resolved held this tick.
    pub open spec fn key_pressed_spec(self, i: Input) -> bool {
        self.key(i).held > 0
    }

    pub fn key_pressed(&self, input: Input) -> (b: bool)
        ensures
            b == self.key_pressed_spec(input),
    {
        self.key_state(input).held > 0
    }

    /// The input became held this very tick.
    pub open spec fn key_just_pressed_spec(self, i: Input) -> bool {
        self.key(i).held == 1
    }

    pub fn key_just_pressed(&self, input: Input) -> (b: bool)
        ensures
            b == self.key_just_pressed_spec(input),
    {
        self.key_state(input).held == 1
    }

    /// The input was let go this very tick.
    pub open spec fn key_just_released_spec(self, i: Input) -> bool {
        self.key(i).released == 1
    }

    pub fn key_just_released(&self, input: Input) -> (b: bool)
        ensures
            b == self.key_just_released_spec(input),
    {
        self.key_state(input).released == 1
    }

    /// A fresh press fires at once; a continuous hold fires again on every
    /// tick past the auto-shift threshold.
    pub open spec fn key_press_or_das_spec(self, i: Input, das: u16) -> bool {
        self.key(i).held == 1 || self.key(i).held > das
    }

    pub fn key_press_or_das(&self, input: Input, das: u16) -> (b: bool)
        ensures
            b == self.key_press_or_das_spec(input, das),
    {
        let k = self.key_state(input);
        k.held == 1 || k.held > das
    }

    fn key_state(&self, i: Input) -> (k: KeyState)
        ensures
            k == self.key(i),
    {
        match i {
            Input::Up => self.up,
            Input::Down => self.down,
            Input::Left => self.left,
            Input::Right => self.right,
            Input::CW => self.cw,
            Input::CCW => self.ccw,
        }
    }
}

/// The resolver state after a run of ticks, each given as a tick index and
/// the snapshot the source answered with.
pub open spec fn inputs_run(st: Inputs, steps: Seq<(u64, InputSnapshot)>) -> Inputs
    decreases steps.len(),
{
    if steps.len() == 0 {
        st
    } else {
        inputs_run(st.spec_tick(steps[0].0, steps[0].1), steps.skip(1))
    }
}

/// While an input stays resolved held over a whole run, the held counter
/// counts the run's ticks one by one (below the counter's ceiling).
pub proof fn lemma_continuous_hold_counts(st: Inputs, steps: Seq<(u64, InputSnapshot)>, i: Input)
    requires
        forall|j: int|
            0 <= j < steps.len() ==> (#[trigger] inputs_run(st, steps.take(j))).stamped(
                steps[j].0,
                steps[j].1.fresh,
            ).resolved_down(steps[j].1.down, i),
        st.key(i).held + steps.len() <= 0xFFFF,
    ensures
        inputs_run(st, steps).key(i).held == st.key(i).held + steps.len(),
    decreases steps.len(),
{
    if steps.len() > 0 {
        let st1 = st.spec_tick(steps[0].0, steps[0].1);
        let rest = steps.skip(1);
        assert(steps.take(0) =~= Seq::<(u64, InputSnapshot)>::empty());
        assert(inputs_run(st, steps.take(0)) == st);
        lemma_hold_accumulates(st, steps[0].0, steps[0].1, i);
        assert forall|j: int|
            0 <= j < rest.len() implies (#[trigger] inputs_run(st1, rest.take(j))).stamped(
            rest[j].0,
            rest[j].1.fresh,
        ).resolved_down(rest[j].1.down, i) by {
            assert(steps.take(j + 1) =~= seq![steps[0]] + rest.take(j));
            assert(steps.take(j + 1)[0] == steps[0]);
            assert(steps.take(j + 1).skip(1) =~= rest.take(j));
            assert(inputs_run(st, steps.take(j + 1)) == inputs_run(st1, rest.take(j)));
            assert(rest[j] == steps[j + 1]);
        }
        lemma_continuous_hold_counts(st1, rest, i);
    }
}

/// Law: from an idle counter, a continuous hold of `n` ticks leaves the
/// held counter at exactly `n`, so the auto-shift query with threshold 16
/// fires exactly on the first tick of the hold and on every tick past the
/// sixteenth.
pub proof fn lemma_das_fires_on_press_and_past_threshold(
    st: Inputs,
    steps: Seq<(u64, InputSnapshot)>,
    i: Input,
)
    requires
        st.key(i).held == 0,
        1 <= steps.len() <= 0xFFFF,
        forall|j: int|
            0 <= j < steps.len() ==> (#[trigger] inputs_run(st, steps.take(j))).stamped(
                steps[j].0,
                steps[j].1.fresh,
            ).resolved_down(steps[j].1.down, i),
    ensures
        inputs_run(st, steps).key_press_or_das_spec(i, 16) == (steps.len() == 1 || steps.len()
            > 16),
{
    lemma_continuous_hold_counts(st, steps, i);
}

/// Law: when Left and Right are both freshly pressed and held on the same
/// tick — and no other axis was pressed later than that tick — Left resolves
/// held and Right does not.
pub proof fn lemma_left_wins_simultaneous_press(st: Inputs, tick: u64, snap: InputSnapshot)
    requires
        snap.fresh.left,
        snap.fresh.right,
        snap.down.left,
        snap.down.right,
        st.up.stamp <= tick || snap.fresh.up,
        st.down.stamp <= tick || snap.fresh.down,
    ensures
        st.spec_tick(tick, snap).key_pressed_spec(Input::Left),
        !st.spec_tick(tick, snap).key_pressed_spec(Input::Right),
{
}

/// Law: under a continuous hold of `n` ticks the auto-shift query with
/// threshold 16 fires exactly on the first tick and on every tick past the
/// sixteenth.
pub proof fn lemma_das_window(st: Inputs, i: Input)
    requires
        1 <= st.key(i).held,
    ensures
        st.key_press_or_das_spec(i, 16) == (st.key(i).held == 1 || st.key(i).held >= 17),
{
}

/// Law: while the source keeps an input resolved held, the held counter
/// counts the ticks (up to its ceiling) and the released counter stays at
/// zero, so `key_just_pressed` is true exactly on the first held tick.
pub proof fn lemma_hold_accumulates(st: Inputs, tick: u64, snap: InputSnapshot, i: Input)
    requires
        st.stamped(tick, snap.fresh).resolved_down(snap.down, i),
    ensures
        st.spec_tick(tick, snap).key(i).held == sat_inc(st.key(i).held),
        st.spec_tick(tick, snap).key(i).released == 0,
        st.spec_tick(tick, snap).key_just_pressed_spec(i) <==> st.key(i).held == 0,
{
}

} // verus!
