//! The well: a fixed grid of locked tiles, with line-clear detection and
//! the delayed commit that drops the rows above a cleared line.

use vstd::prelude::*;

verus! {

/// Width of the well, in cells.
pub const WELL_COLS: usize = 10;

/// Height of the well, in cells.
pub const WELL_ROWS: usize = 21;

/// Colour of a piece and of the tiles it leaves behind when it locks.
#[derive(Copy, Clone, Debug, PartialEq, Eq, Structural)]
pub enum Block {
    Red,
    Orange,
    Yellow,
    Green,
    Cyan,
    Blue,
    Purple,
}

/// Rendering hint frozen at lock time: which of the four neighbouring cells
/// belonged to the same piece.
#[derive(Copy, Clone, Debug, PartialEq, Eq, Structural)]
pub struct BlockDirections {
    pub up: bool,
    pub down: bool,
    pub left: bool,
    pub right: bool,
}

impl BlockDirections {
    pub fn new(up: bool, down: bool, left: bool, right: bool) -> (d: BlockDirections)
        ensures
            d == (BlockDirections { up, down, left, right }),
    {
        BlockDirections { up, down, left, right }
    }

    pub fn up(&self) -> (r: bool)
        ensures
            r == self.up,
    {
        self.up
    }

    pub fn down(&self) -> (r: bool)
        ensures
            r == self.down,
    {
        self.down
    }

    pub fn left(&self) -> (r: bool)
        ensures
            r == self.left,
    {
        self.left
    }

    pub fn right(&self) -> (r: bool)
        ensures
            r == self.right,
    {
        self.right
    }

    /// Keep each direction flag only where the named neighbour exists and
    /// points back at this cell.
    pub fn match_with(
        &self,
        up: Option<BlockDirections>,
        down: Option<BlockDirections>,
        left: Option<BlockDirections>,
        right: Option<BlockDirections>,
    ) -> (d: BlockDirections)
        ensures
            d.up == (self.up && up is Some && up->Some_0.down),
            d.down == (self.down && down is Some && down->Some_0.up),
            d.left == (self.left && left is Some && left->Some_0.right),
            d.right == (self.right && right is Some && right->Some_0.left),
    {
        BlockDirections::new(
            self.up && (match up {
                Some(it) => it.down,
                None => false,
            }),
            self.down && (match down {
                Some(it) => it.up,
                None => false,
            }),
            self.left && (match left {
                Some(it) => it.right,
                None => false,
            }),
            self.right && (match right {
                Some(it) => it.left,
                None => false,
            }),
        )
    }

    /// The four flags packed into the low four bits, up at the highest.
    pub fn bits(&self) -> (r: u8)
        ensures
            r == self.bits_spec(),
    {
        let u: u8 = if self.up { 8 } else { 0 };
        let d: u8 = if self.down { 4 } else { 0 };
        let l: u8 = if self.left { 2 } else { 0 };
        let r: u8 = if self.right { 1 } else { 0 };
        u + d + l + r
    }

    /// Mathematical value of [`BlockDirections::bits`].
    pub open spec fn bits_spec(self) -> u8 {
        ((if self.up { 8int } else { 0int }) + (if self.down { 4int } else { 0int }) + (if self.left {
            2int
        } else {
            0int
        }) + (if self.right { 1int } else { 0int })) as u8
    }
}

/// One locked cell of the well.
#[derive(Copy, Clone, Debug, PartialEq, Eq, Structural)]
pub struct Tile {
    pub color: Block,
    pub directions: BlockDirections,
}

/// The play field: `WELL_ROWS` rows of `WELL_COLS` optional tiles, row 0 at
/// the top.
#[derive(Clone, Debug)]
pub struct Well {
    pub blocks: Vec<Vec<Option<Tile>>>,
}

/// A row of the well, as a mathematical sequence.
pub type RowModel = Seq<Option<Tile>>;

/// The whole grid, as a sequence of rows.
pub type GridModel = Seq<RowModel>;

/// A row with every slot vacant.
pub open spec fn empty_row() -> RowModel {
    Seq::new(WELL_COLS as nat, |c: int| None)
}

/// A row is full when every slot holds a tile.
pub open spec fn row_full(row: RowModel) -> bool {
    forall|c: int| 0 <= c < WELL_COLS ==> row[c] is Some
}

/// A grid has the fixed well dimensions.
pub open spec fn grid_wf(g: GridModel) -> bool {
    &&& g.len() == WELL_ROWS
    &&& forall|r: int| 0 <= r < WELL_ROWS ==> (#[trigger] g[r]).len() == WELL_COLS
}

/// Indices of the full rows of `g` at or below row `i`, in ascending order.
pub open spec fn full_rows_from(g: GridModel, i: int) -> Seq<int>
    decreases g.len() - i,
    when 0 <= i <= g.len()
{
    if i >= g.len() {
        Seq::empty()
    } else if row_full(g[i]) {
        seq![i] + full_rows_from(g, i + 1)
    } else {
        full_rows_from(g, i + 1)
    }
}

/// The grid after every full row is zeroed in place.
pub open spec fn cleared_grid(g: GridModel) -> GridModel {
    Seq::new(g.len(), |r: int| if row_full(g[r]) { empty_row() } else { g[r] })
}

/// The rows `0..=i` rotated down one step: row `i` moves to the top and the
/// rows above it shift down; rows past `i` keep their place.
pub open spec fn rotate_prefix(g: GridModel, i: int) -> GridModel {
    seq![g[i]] + g.take(i) + g.skip(i + 1)
}

/// The grid after the prefix rotation is applied once per index, front of
/// the list first.
pub open spec fn commit_spec(g: GridModel, idxs: Seq<i32>) -> GridModel
    decreases idxs.len(),
{
    if idxs.len() == 0 {
        g
    } else {
        commit_spec(rotate_prefix(g, idxs[0] as int), idxs.skip(1))
    }
}

/// The row indices captured by [`Well::do_clear`].
pub open spec fn captured_indices(cleared: Seq<(i32, Vec<Option<Tile>>)>) -> Seq<int> {
    cleared.map_values(|p: (i32, Vec<Option<Tile>>)| p.0 as int)
}

/// `n` empty rows.
pub open spec fn empties(n: int) -> GridModel {
    Seq::new(n as nat, |r: int| empty_row())
}

/// Whether row index `j` occurs in the captured list.
pub open spec fn has_idx(idxs: Seq<i32>, j: int) -> bool {
    exists|k: int| 0 <= k < idxs.len() && idxs[k] == j
}

/// The rows of `h` from `j` on whose index is not in `idxs`, in order.
pub open spec fn delete_marked(h: GridModel, j: int, idxs: Seq<i32>) -> GridModel
    decreases h.len() - j,
    when 0 <= j <= h.len()
{
    if j >= h.len() {
        Seq::empty()
    } else if has_idx(idxs, j) {
        delete_marked(h, j + 1, idxs)
    } else {
        seq![h[j]] + delete_marked(h, j + 1, idxs)
    }
}

/// The rows of `g` from `i` on that are not full, in order.
pub open spec fn non_full_rows(g: GridModel, i: int) -> GridModel
    decreases g.len() - i,
    when 0 <= i <= g.len()
{
    if i >= g.len() {
        Seq::empty()
    } else if row_full(g[i]) {
        non_full_rows(g, i + 1)
    } else {
        seq![g[i]] + non_full_rows(g, i + 1)
    }
}

impl Well {
    /// The grid of this well, as a mathematical value.
    pub open spec fn grid(self) -> GridModel {
        self.blocks@.map_values(|row: Vec<Option<Tile>>| row@)
    }

    /// Contents of one cell.
    pub open spec fn cell(self, r: int, c: int) -> Option<Tile> {
        self.grid()[r][c]
    }

    /// The well keeps its fixed dimensions.
    pub open spec fn wf(self) -> bool {
        grid_wf(self.grid())
    }

    /// A fresh, empty well.
    pub fn new() -> (w: Well)
        ensures
            w.wf(),
            w.grid() == Seq::new(WELL_ROWS as nat, |r: int| empty_row()),
    {
        let mut blocks: Vec<Vec<Option<Tile>>> = Vec::new();
        let mut r: usize = 0;
        while r < WELL_ROWS
            invariant
                r <= WELL_ROWS,
                blocks@.len() == r,
                forall|i: int| 0 <= i < r ==> (#[trigger] blocks@[i])@ == empty_row(),
            decreases WELL_ROWS - r,
        {
            blocks.push(Self::empty_row_vec());
            r = r + 1;
        }
        let w = Well { blocks };
        proof {
            assert(w.grid() =~= Seq::new(WELL_ROWS as nat, |i: int| empty_row()));
        }
        w
    }

    /// One vacant row, as executable data.
    fn empty_row_vec() -> (v: Vec<Option<Tile>>)
        ensures
            v@ == empty_row(),
    {
        let mut v: Vec<Option<Tile>> = Vec::new();
        let mut c: usize = 0;
        while c < WELL_COLS
            invariant
                c <= WELL_COLS,
                v@.len() == c,
                forall|i: int| 0 <= i < c ==> v@[i] is None,
            decreases WELL_COLS - c,
        {
            v.push(None);
            c = c + 1;
        }
        proof {
            assert(v@ =~= empty_row());
        }
        v
    }

    /// Bounds-checked read of one cell.
    pub fn get(&self, r: usize, c: usize) -> (t: Option<Tile>)
        requires
            self.wf(),
            r < WELL_ROWS,
            c < WELL_COLS,
        ensures
            t == self.cell(r as int, c as int),
    {
        self.blocks[r][c]
    }

    /// Bounds-checked write of one cell.
    pub fn set(&mut self, r: usize, c: usize, t: Option<Tile>)
        requires
            old(self).wf(),
            r < WELL_ROWS,
            c < WELL_COLS,
        ensures
            final(self).wf(),
            final(self).grid() == old(self).grid().update(
                r as int,
                old(self).grid()[r as int].update(c as int, t),
            ),
    {
        proof {
            assert(self.grid()[r as int] == self.blocks@[r as int]@);
            assert(self.blocks@[r as int]@.len() == WELL_COLS);
        }
        let row: &mut Vec<Option<Tile>> = &mut self.blocks[r];
        row[c] = t;
        proof {
            assert(self.grid() =~= old(self).grid().update(
                r as int,
                old(self).grid()[r as int].update(c as int, t),
            ));
        }
    }

    /// Whether every slot of row `r` holds a tile.
    pub fn row_is_full(&self, r: usize) -> (b: bool)
        requires
            self.wf(),
            r < WELL_ROWS,
        ensures
            b == row_full(self.grid()[r as int]),
    {
        let mut c: usize = 0;
        while c < WELL_COLS
            invariant
                self.wf(),
                r < WELL_ROWS,
                c <= WELL_COLS,
                forall|i: int| 0 <= i < c ==> self.grid()[r as int][i] is Some,
            decreases WELL_COLS - c,
        {
            if self.get(r, c).is_none() {
                return false;
            }
            c = c + 1;
        }
        true
    }

    /// A copy of row `r`.
    fn copy_row(&self, r: usize) -> (v: Vec<Option<Tile>>)
        requires
            self.wf(),
            r < WELL_ROWS,
        ensures
            v@ == self.grid()[r as int],
    {
        let mut v: Vec<Option<Tile>> = Vec::new();
        let mut c: usize = 0;
        while c < WELL_COLS
            invariant
                self.wf(),
                r < WELL_ROWS,
                c <= WELL_COLS,
                v@.len() == c,
                forall|i: int| 0 <= i < c ==> v@[i] == self.grid()[r as int][i],
            decreases WELL_COLS - c,
        {
            v.push(self.get(r, c));
            c = c + 1;
        }
        proof {
            assert(v@ =~= self.grid()[r as int]);
        }
        v
    }

    /// Scan the rows top to bottom; capture each full row together with its
    /// index and zero it in place.  The captured rows come back in ascending
    /// row order; the physical drop waits for [`Well::commit_clear`].
    pub fn do_clear(&mut self) -> (cleared: Vec<(i32, Vec<Option<Tile>>)>)
        requires
            old(self).wf(),
        ensures
            final(self).wf(),
            final(self).grid() == cleared_grid(old(self).grid()),
            captured_indices(cleared@) == full_rows_from(old(self).grid(), 0),
            cleared@.len() <= WELL_ROWS,
            forall|k: int|
                0 <= k < cleared@.len() ==> (#[trigger] cleared@[k]).1@ == old(self).grid()[cleared@[k].0 as int]
                    && row_full(old(self).grid()[cleared@[k].0 as int]),
    {
        let ghost g0 = self.grid();
        let mut cleared: Vec<(i32, Vec<Option<Tile>>)> = Vec::new();
        let mut r: usize = 0;
        while r < WELL_ROWS
            invariant
                self.wf(),
                r <= WELL_ROWS,
                grid_wf(g0),
                forall|i: int| 0 <= i < r ==> self.grid()[i] == cleared_grid(g0)[i],
                forall|i: int| r <= i < WELL_ROWS ==> self.grid()[i] == g0[i],
                captured_indices(cleared@) + full_rows_from(g0, r as int) == full_rows_from(g0, 0),
                cleared@.len() <= r,
                forall|k: int|
                    0 <= k < cleared@.len() ==> (#[trigger] cleared@[k]).1@ == g0[cleared@[k].0 as int]
                        && row_full(g0[cleared@[k].0 as int]) && 0 <= cleared@[k].0 < r,
            decreases WELL_ROWS - r,
        {
            if self.row_is_full(r) {
                let captured_row = self.copy_row(r);
                let ghost prev = cleared@;
                cleared.push((r as i32, captured_row));
                proof {
                    assert(captured_indices(cleared@) =~= captured_indices(prev) + seq![r as int]);
                    assert((captured_indices(prev) + seq![r as int]) + full_rows_from(g0, r + 1)
                        =~= captured_indices(prev) + (seq![r as int] + full_rows_from(g0, r + 1)));
                }
                proof {
                    assert(self.grid()[r as int] == self.blocks@[r as int]@);
                }
                let ghost prev_grid = self.grid();
                let empty = Self::empty_row_vec();
                self.blocks[r] = empty;
                proof {
                    assert(self.grid() =~= prev_grid.update(r as int, empty_row()));
                }
            } else {
                proof {
                    assert(captured_indices(cleared@) + full_rows_from(g0, r + 1) =~= captured_indices(
                        cleared@,
                    ) + full_rows_from(g0, r as int));
                }
            }
            r = r + 1;
        }
        proof {
            assert(self.grid() =~= cleared_grid(g0));
            assert(captured_indices(cleared@) =~= full_rows_from(g0, 0));
        }
        cleared
    }

    /// Apply one downward prefix rotation per captured row index, in the
    /// order given.  Processing the original indices in ascending order
    /// removes the captured rows and drops everything above them.
    pub fn commit_clear(&mut self, rows: &Vec<i32>)
        requires
            old(self).wf(),
            forall|k: int| 0 <= k < rows@.len() ==> 0 <= #[trigger] rows@[k] < WELL_ROWS,
        ensures
            final(self).wf(),
            final(self).grid() == commit_spec(old(self).grid(), rows@),
    {
        let ghost g0 = self.grid();
        proof {
            assert(rows@.skip(0) =~= rows@);
        }
        let n = rows.len();
        let mut k: usize = 0;
        while k < n
            invariant
                self.wf(),
                k <= n,
                n == rows@.len(),
                forall|i: int| 0 <= i < n ==> 0 <= #[trigger] rows@[i] < WELL_ROWS,
                commit_spec(g0, rows@) == commit_spec(self.grid(), rows@.skip(k as int)),
            decreases n - k,
        {
            let idx = rows[k] as usize;
            let ghost prev = self.grid();
            let row = self.blocks.remove(idx);
            self.blocks.insert(0, row);
            proof {
                assert(self.grid() =~= rotate_prefix(prev, idx as int));
                assert(rows@.skip(k as int).skip(1) =~= rows@.skip(k as int + 1));
                assert(rows@.skip(k as int)[0] == rows@[k as int]);
            }
            k = k + 1;
        }
        proof {
            assert(rows@.skip(n as int) =~= Seq::<i32>::empty());
        }
    }
}

/// The captured indices are ascending, in range, and name exactly the full
/// rows.
pub proof fn lemma_full_rows_from_props(g: GridModel, i: int)
    requires
        0 <= i <= g.len(),
    ensures
        forall|k: int|
            0 <= k < full_rows_from(g, i).len() ==> i <= #[trigger] full_rows_from(g, i)[k]
                < g.len() && row_full(g[full_rows_from(g, i)[k]]),
        forall|a: int, b: int|
            0 <= a < b < full_rows_from(g, i).len() ==> full_rows_from(g, i)[a] < full_rows_from(
                g,
                i,
            )[b],
        forall|j: int| i <= j < g.len() && row_full(g[j]) ==> full_rows_from(g, i).contains(j),
        forall|j: int| full_rows_from(g, i).contains(j) ==> i <= j < g.len() && row_full(g[j]),
        full_rows_from(g, i).len() <= g.len() - i,
    decreases g.len() - i,
{
    if i < g.len() {
        lemma_full_rows_from_props(g, i + 1);
        let rest = full_rows_from(g, i + 1);
        let f = full_rows_from(g, i);
        if row_full(g[i]) {
            assert(f == seq![i] + rest);
            assert(f[0] == i);
            assert(forall|k: int| 1 <= k < f.len() ==> f[k] == rest[k - 1]);
            assert forall|j: int| f.contains(j) implies i <= j < g.len() && row_full(g[j]) by {
                let k = choose|k: int| 0 <= k < f.len() && f[k] == j;
                if k > 0 {
                    assert(rest[k - 1] == j);
                    assert(rest.contains(j));
                }
            }
            assert forall|j: int| i <= j < g.len() && row_full(g[j]) implies f.contains(j) by {
                if j == i {
                    assert(f[0] == j);
                } else {
                    assert(rest.contains(j));
                    let k = choose|k: int| 0 <= k < rest.len() && rest[k] == j;
                    assert(f[k + 1] == j);
                }
            }
        } else {
            assert(f == rest);
            assert(forall|j: int| i <= j < g.len() && row_full(g[j]) ==> j != i);
        }
    }
}

/// With nothing marked from `j` on, deleting keeps the whole suffix.
proof fn lemma_delete_marked_none(h: GridModel, j: int, idxs: Seq<i32>)
    requires
        0 <= j <= h.len(),
        forall|q: int| j <= q < h.len() ==> !has_idx(idxs, q),
    ensures
        delete_marked(h, j, idxs) == h.skip(j),
    decreases h.len() - j,
{
    if j >= h.len() {
        assert(delete_marked(h, j, idxs) =~= h.skip(j));
    } else {
        lemma_delete_marked_none(h, j + 1, idxs);
        assert(seq![h[j]] + h.skip(j + 1) =~= h.skip(j));
    }
}

/// Deleting marked rows only looks at the suffix: grids and mark sets that
/// agree from `p` on delete to the same rows.
proof fn lemma_delete_marked_agree(
    h1: GridModel,
    h2: GridModel,
    p: int,
    idxs1: Seq<i32>,
    idxs2: Seq<i32>,
)
    requires
        h1.len() == h2.len(),
        0 <= p <= h1.len(),
        forall|q: int| p <= q < h1.len() ==> h1[q] == h2[q],
        forall|q: int| p <= q < h1.len() ==> (has_idx(idxs1, q) <==> has_idx(idxs2, q)),
    ensures
        delete_marked(h1, p, idxs1) == delete_marked(h2, p, idxs2),
    decreases h1.len() - p,
{
    if p < h1.len() {
        lemma_delete_marked_agree(h1, h2, p + 1, idxs1, idxs2);
    }
}

/// How the prefix rotation rearranges the rows, index by index.
proof fn lemma_rotate_prefix_index(h: GridModel, i0: int)
    requires
        0 <= i0 < h.len(),
    ensures
        rotate_prefix(h, i0).len() == h.len(),
        rotate_prefix(h, i0)[0] == h[i0],
        forall|p: int| 1 <= p <= i0 ==> rotate_prefix(h, i0)[p] == h[p - 1],
        forall|p: int| i0 < p < h.len() ==> rotate_prefix(h, i0)[p] == h[p],
{
}

/// Past the first entry of an ascending list, dropping that entry does not
/// change membership.
proof fn lemma_has_idx_skip(idxs: Seq<i32>, q: int)
    requires
        idxs.len() > 0,
        forall|a: int, b: int| 0 <= a < b < idxs.len() ==> idxs[a] < idxs[b],
        q > idxs[0],
    ensures
        has_idx(idxs.skip(1), q) <==> has_idx(idxs, q),
{
    let rest = idxs.skip(1);
    assert(forall|k: int| 0 <= k < rest.len() ==> rest[k] == idxs[k + 1]);
    if has_idx(idxs, q) {
        let k = choose|k: int| 0 <= k < idxs.len() && idxs[k] == q;
        assert(k != 0);
        assert(rest[k - 1] == q);
        assert(has_idx(rest, q));
    }
    if has_idx(rest, q) {
        let k = choose|k: int| 0 <= k < rest.len() && rest[k] == q;
        assert(idxs[k + 1] == q);
        assert(has_idx(idxs, q));
    }
}

/// An ascending list holds nothing below its first entry.
proof fn lemma_no_idx_below_first(idxs: Seq<i32>, q: int)
    requires
        idxs.len() > 0,
        forall|a: int, b: int| 0 <= a < b < idxs.len() ==> idxs[a] < idxs[b],
        q < idxs[0],
    ensures
        !has_idx(idxs, q),
{
    if has_idx(idxs, q) {
        let k = choose|k: int| 0 <= k < idxs.len() && idxs[k] == q;
        if k != 0 {
            assert(idxs[0] < idxs[k]);
        }
    }
}

/// Past its first entry, an ascending list holds nothing at or below that
/// entry.
proof fn lemma_no_idx_rest_low(idxs: Seq<i32>, q: int)
    requires
        idxs.len() > 0,
        forall|a: int, b: int| 0 <= a < b < idxs.len() ==> idxs[a] < idxs[b],
        q <= idxs[0],
    ensures
        !has_idx(idxs.skip(1), q),
{
    let rest = idxs.skip(1);
    assert(forall|k: int| 0 <= k < rest.len() ==> rest[k] == idxs[k + 1]);
    if has_idx(rest, q) {
        let k = choose|k: int| 0 <= k < rest.len() && rest[k] == q;
        assert(idxs[k + 1] == q);
        assert(idxs[0] < idxs[k + 1]);
    }
}

/// Rotating the prefix up to the first marked row shifts the scan of the
/// unmarked rows by one position.
proof fn lemma_delete_marked_shift(h: GridModel, idxs: Seq<i32>, p: int)
    requires
        idxs.len() > 0,
        0 <= idxs[0] < h.len(),
        forall|a: int, b: int| 0 <= a < b < idxs.len() ==> idxs[a] < idxs[b],
        1 <= p <= idxs[0] + 1,
    ensures
        delete_marked(rotate_prefix(h, idxs[0] as int), p, idxs.skip(1)) == delete_marked(
            h,
            p - 1,
            idxs,
        ),
    decreases idxs[0] + 1 - p,
{
    let i0 = idxs[0] as int;
    let hr = rotate_prefix(h, i0);
    let rest = idxs.skip(1);
    lemma_rotate_prefix_index(h, i0);
    if p == i0 + 1 {
        assert(has_idx(idxs, i0));
        assert(delete_marked(h, i0, idxs) == delete_marked(h, i0 + 1, idxs));
        assert forall|q: int| i0 + 1 <= q < h.len() implies (has_idx(rest, q) <==> has_idx(
            idxs,
            q,
        )) by {
            lemma_has_idx_skip(idxs, q);
        }
        lemma_delete_marked_agree(hr, h, i0 + 1, rest, idxs);
    } else {
        lemma_delete_marked_shift(h, idxs, p + 1);
        assert(!has_idx(rest, p)) by {
            lemma_no_idx_rest_low(idxs, p);
        }
        assert(!has_idx(idxs, p - 1)) by {
            lemma_no_idx_below_first(idxs, p - 1);
        }
        assert(hr[p] == h[p - 1]);
        assert(delete_marked(hr, p, rest) == seq![h[p - 1]] + delete_marked(hr, p + 1, rest));
        assert(delete_marked(h, p - 1, idxs) == seq![h[p - 1]] + delete_marked(h, p, idxs));
    }
}

/// Committing ascending indices of empty rows piles that many empty rows on
/// top of the surviving rows.
proof fn lemma_commit_spec_deletes(h: GridModel, idxs: Seq<i32>)
    requires
        forall|k: int| 0 <= k < idxs.len() ==> 0 <= #[trigger] idxs[k] < h.len(),
        forall|a: int, b: int| 0 <= a < b < idxs.len() ==> idxs[a] < idxs[b],
        forall|k: int| 0 <= k < idxs.len() ==> h[#[trigger] idxs[k] as int] == empty_row(),
    ensures
        commit_spec(h, idxs) == empties(idxs.len() as int) + delete_marked(h, 0, idxs),
    decreases idxs.len(),
{
    if idxs.len() == 0 {
        lemma_delete_marked_none(h, 0, idxs);
        assert(h.skip(0) =~= h);
        assert(empties(0) + h =~= h);
    } else {
        let i0 = idxs[0] as int;
        let hr = rotate_prefix(h, i0);
        let rest = idxs.skip(1);
        lemma_rotate_prefix_index(h, i0);
        assert(forall|k: int| 0 <= k < rest.len() ==> rest[k] == idxs[k + 1]);
        assert(forall|k: int| 0 <= k < rest.len() ==> i0 < #[trigger] rest[k] < h.len());
        assert(forall|k: int| 0 <= k < rest.len() ==> hr[#[trigger] rest[k] as int] == empty_row());
        lemma_commit_spec_deletes(hr, rest);
        assert(commit_spec(h, idxs) == commit_spec(hr, rest));
        lemma_delete_marked_shift(h, idxs, 1);
        assert(!has_idx(rest, 0)) by {
            lemma_no_idx_rest_low(idxs, 0);
        }
        assert(delete_marked(hr, 0, rest) == seq![h[i0]] + delete_marked(hr, 1, rest));
        assert(h[i0] == empty_row());
        assert(empties(rest.len() as int) + (seq![empty_row()] + delete_marked(h, 0, idxs))
            =~= empties(idxs.len() as int) + delete_marked(h, 0, idxs));
    }
}

/// Law: running the clear detection and then committing the captured row
/// indices removes exactly the full rows, shifts every row above a removed
/// row down by the number of removed rows below it, and leaves that many
/// fresh empty rows at the top — for any mix of contiguous and separated
/// full rows.
pub proof fn lemma_clear_then_commit(g: GridModel, idxs: Seq<i32>)
    requires
        grid_wf(g),
        idxs.len() == full_rows_from(g, 0).len(),
        forall|k: int| 0 <= k < idxs.len() ==> #[trigger] idxs[k] == full_rows_from(g, 0)[k],
    ensures
        commit_spec(cleared_grid(g), idxs) == empties(idxs.len() as int) + non_full_rows(g, 0),
{
    let f = full_rows_from(g, 0);
    let gc = cleared_grid(g);
    lemma_full_rows_from_props(g, 0);
    assert(forall|k: int| 0 <= k < idxs.len() ==> 0 <= #[trigger] idxs[k] < gc.len());
    assert(forall|k: int| 0 <= k < idxs.len() ==> gc[#[trigger] idxs[k] as int] == empty_row());
    lemma_commit_spec_deletes(gc, idxs);
    assert forall|j: int| 0 <= j < g.len() implies (has_idx(idxs, j) <==> row_full(g[j])) by {
        if has_idx(idxs, j) {
            let k = choose|k: int| 0 <= k < idxs.len() && idxs[k] == j;
            assert(f[k] == j);
            assert(row_full(g[j]));
        }
        if row_full(g[j]) {
            assert(f.contains(j));
            let k = choose|k: int| 0 <= k < f.len() && f[k] == j;
            assert(idxs[k] == j);
            assert(has_idx(idxs, j));
        }
    }
    lemma_delete_vs_non_full(g, idxs, 0);
}

/// Scanning the cleared grid for unmarked rows is scanning the original
/// grid for rows that are not full.
proof fn lemma_delete_vs_non_full(g: GridModel, idxs: Seq<i32>, j: int)
    requires
        0 <= j <= g.len(),
        forall|q: int| 0 <= q < g.len() ==> (has_idx(idxs, q) <==> row_full(g[q])),
    ensures
        delete_marked(cleared_grid(g), j, idxs) == non_full_rows(g, j),
    decreases g.len() - j,
{
    if j < g.len() {
        lemma_delete_vs_non_full(g, idxs, j + 1);
    }
}

} // verus!
