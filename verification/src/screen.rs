//! The character grid and its depth buffer.
//!
//! A sample is a place on the grid, a depth key and a glyph. Plotting a
//! sample writes it into its cell when its key is larger than the one the
//! cell holds; a cleared cell holds key zero and a blank.

use vstd::prelude::*;

verus! {

/// Number of character columns of the grid.
pub const WIDTH: usize = 160;

/// Number of character rows of the grid.
pub const HEIGHT: usize = 44;

/// Number of cells of the grid, `WIDTH * HEIGHT`.
pub const CELLS: usize = 7040;

/// The glyph of a cell that nothing was drawn into.
pub const BLANK: char = ' ';

/// The glyph that the cube's edges are drawn with.
pub const EDGE_GLYPH: char = '0';

/// The depth key of a cell that nothing was drawn into.
pub const EMPTY_DEPTH: i32 = 0;

/// The depth key of a reciprocal depth that is not a number. It is below
/// every other key, so such a sample is never drawn.
pub const UNORDERED_DEPTH: i32 = -2147483648;

/// The position in the row-major buffers that a column and a row name.
///
/// Only the sum is looked at: a column left of the grid on one row names the
/// same cell as a column further right on the row above.
pub open spec fn linear_index(column: int, row: int) -> int {
    column + row * WIDTH as int
}

/// Whether a column and a row name a cell of the grid.
pub open spec fn on_screen(column: int, row: int) -> bool {
    0 <= linear_index(column, row) < CELLS as int
}

/// The buffer position of a column and a row, or `None` off the grid.
pub fn cell_index(column: i64, row: i64) -> (cell: Option<usize>)
    ensures
        on_screen(column as int, row as int) ==> cell == Some(
            linear_index(column as int, row as int) as usize,
        ),
        !on_screen(column as int, row as int) ==> cell is None,
{
    assert((row as int) * (WIDTH as int) == row as int * 160);
    let index: i128 = column as i128 + (row as i128) * (WIDTH as i128);
    if 0 <= index && index < CELLS as i128 {
        Some(index as usize)
    } else {
        None
    }
}

/// The depth key of a reciprocal depth given by its binary32 bits (one sign
/// bit, eight exponent bits, twenty-three fraction bits).
///
/// Both zeros get key zero, a positive value gets its bits below the sign,
/// a negative value the negation of them, so that keys are ordered as the
/// values are. Bits that encode no number get `UNORDERED_DEPTH`.
pub open spec fn depth_key_of(bits: u32) -> int {
    let magnitude: int = if bits >= 0x8000_0000 {
        bits - 0x8000_0000
    } else {
        bits as int
    };
    if magnitude > 0x7f80_0000 {
        UNORDERED_DEPTH as int
    } else if bits >= 0x8000_0000 {
        -magnitude
    } else {
        magnitude
    }
}

/// Computes the depth key of a reciprocal depth from its binary32 bits.
pub fn depth_key(bits: u32) -> (key: i32)
    ensures
        key == depth_key_of(bits),
{
    let negative: bool = bits >= 0x8000_0000;
    let magnitude: u32 = if negative {
        bits - 0x8000_0000
    } else {
        bits
    };
    if magnitude > 0x7f80_0000 {
        UNORDERED_DEPTH
    } else if negative {
        -(magnitude as i32)
    } else {
        magnitude as i32
    }
}

/// Whether the bits encode a number: all but those with every exponent bit
/// set and a fraction that is not zero.
pub open spec fn is_number(bits: u32) -> bool {
    depth_key_of(bits) != UNORDERED_DEPTH
}

/// Depth keys follow sign and magnitude. Both zeros have key zero and
/// nothing else has. Among numbers, a key is above zero exactly where the
/// sign bit is clear, positive numbers are ordered as their bits are,
/// negative numbers against their bits, and what is not a number lies
/// below every number.
pub proof fn lemma_depth_key_order(a: u32, b: u32)
    ensures
        depth_key_of(a) == 0 <==> a == 0 || a == 0x8000_0000,
        is_number(a) ==> (depth_key_of(a) > 0 <==> 0 < a < 0x8000_0000),
        is_number(a) && is_number(b) && a < 0x8000_0000 && b < 0x8000_0000 ==> (depth_key_of(a)
            < depth_key_of(b) <==> a < b),
        is_number(a) && is_number(b) && a >= 0x8000_0000 && b >= 0x8000_0000 ==> (depth_key_of(a)
            < depth_key_of(b) <==> a > b),
        is_number(a) && !is_number(b) ==> depth_key_of(b) < depth_key_of(a),
{
}

/// One projected point: where it lands, how near it is, what to draw.
#[derive(Clone, Copy, Debug, PartialEq, Eq, Structural)]
pub struct Sample {
    /// Screen column; may lie outside the grid.
    pub column: i64,
    /// Screen row; may lie outside the grid.
    pub row: i64,
    /// Depth key; the larger, the nearer to the camera.
    pub depth: i32,
    /// The glyph to draw.
    pub glyph: char,
}

impl Sample {
    /// The buffer position that the sample lands on.
    pub open spec fn index(self) -> int {
        linear_index(self.column as int, self.row as int)
    }

    /// Whether the sample lands on the grid.
    pub open spec fn on_screen(self) -> bool {
        on_screen(self.column as int, self.row as int)
    }

    /// A sample of one of the cube's edges, from its screen position and the
    /// binary32 bits of its reciprocal depth.
    pub fn edge(column: i64, row: i64, reciprocal_bits: u32) -> (sample: Sample)
        ensures
            sample == (Sample {
                column,
                row,
                depth: depth_key_of(reciprocal_bits) as i32,
                glyph: EDGE_GLYPH,
            }),
    {
        Sample { column, row, depth: depth_key(reciprocal_bits), glyph: EDGE_GLYPH }
    }
}

/// What a screen holds: a depth key and a glyph for each cell, row by row.
pub struct Cells {
    /// The depth key of the nearest sample drawn into each cell.
    pub depths: Seq<i32>,
    /// The glyph of each cell.
    pub glyphs: Seq<char>,
}

impl Cells {
    /// Both buffers have one entry for each cell of the grid.
    pub open spec fn wf(self) -> bool {
        self.depths.len() == CELLS && self.glyphs.len() == CELLS
    }

    /// The cleared grid: every cell blank, with the empty depth key.
    pub open spec fn blank() -> Cells {
        Cells {
            depths: Seq::new(CELLS as nat, |i: int| EMPTY_DEPTH),
            glyphs: Seq::new(CELLS as nat, |i: int| BLANK),
        }
    }

    /// Whether plotting the sample changes the grid: it lands on the grid
    /// and is strictly nearer than what its cell holds.
    pub open spec fn accepts(self, sample: Sample) -> bool {
        sample.on_screen() && sample.depth > self.depths[sample.index()]
    }

    /// The grid after plotting one sample.
    pub open spec fn plot(self, sample: Sample) -> Cells {
        if self.accepts(sample) {
            Cells {
                depths: self.depths.update(sample.index(), sample.depth),
                glyphs: self.glyphs.update(sample.index(), sample.glyph),
            }
        } else {
            self
        }
    }

    /// The grid after plotting the samples one after the other.
    pub open spec fn plot_all(self, samples: Seq<Sample>) -> Cells
        decreases samples.len(),
    {
        if samples.len() == 0 {
            self
        } else {
            self.plot_all(samples.drop_last()).plot(samples.last())
        }
    }

    /// The grid after a frame is drawn over it: what it held is cleared
    /// away, then the samples are plotted one after the other.
    pub open spec fn render(self, samples: Seq<Sample>) -> Cells {
        Cells::blank().plot_all(samples)
    }
}

/// Whether the sample with the given number lands on the given cell.
pub open spec fn lands(samples: Seq<Sample>, number: int, cell: int) -> bool {
    0 <= number < samples.len() && samples[number].on_screen() && samples[number].index() == cell
}

/// Whether the sample with the given number is the first of the nearest
/// among those that land on the given cell: none that lands there is
/// nearer, and none as near comes before it.
pub open spec fn wins(samples: Seq<Sample>, number: int, cell: int) -> bool {
    lands(samples, number, cell) && forall|other: int| #[trigger]
        lands(samples, other, cell) ==> samples[other].depth < samples[number].depth || (
        samples[other].depth == samples[number].depth && number <= other)
}

/// A character grid with its depth buffer, `WIDTH` by `HEIGHT` cells.
pub struct Screen {
    depths: Vec<i32>,
    glyphs: Vec<char>,
}

impl View for Screen {
    type V = Cells;

    closed spec fn view(&self) -> Cells {
        Cells { depths: self.depths@, glyphs: self.glyphs@ }
    }
}

impl Screen {
    /// Both buffers have one entry for each cell of the grid.
    pub open spec fn wf(&self) -> bool {
        self@.wf()
    }

    /// A cleared screen.
    pub fn new() -> (screen: Screen)
        ensures
            screen.wf(),
            screen@ == Cells::blank(),
    {
        let screen = Screen { depths: vec![EMPTY_DEPTH; CELLS], glyphs: vec![BLANK; CELLS] };
        assert(screen@.depths =~= Cells::blank().depths);
        assert(screen@.glyphs =~= Cells::blank().glyphs);
        screen
    }

    /// Clears the screen: every cell becomes blank and takes the empty
    /// depth key. The buffers are kept and overwritten in place.
    pub fn clear(&mut self)
        requires
            old(self).wf(),
        ensures
            final(self).wf(),
            final(self)@ == Cells::blank(),
    {
        let mut cell: usize = 0;
        while cell < CELLS
            invariant
                cell <= CELLS,
                self.wf(),
                forall|i: int| 0 <= i < cell ==> self@.depths[i] == EMPTY_DEPTH,
                forall|i: int| 0 <= i < cell ==> self@.glyphs[i] == BLANK,
            decreases CELLS - cell,
        {
            self.depths.set(cell, EMPTY_DEPTH);
            self.glyphs.set(cell, BLANK);
            cell += 1;
        }
        assert(self@.depths =~= Cells::blank().depths);
        assert(self@.glyphs =~= Cells::blank().glyphs);
    }

    /// Plots one sample: if it lands on the grid and is strictly nearer than
    /// what its cell holds, the cell takes its depth key and its glyph.
    /// Otherwise nothing changes; a sample off the grid is dropped.
    pub fn plot(&mut self, sample: Sample)
        requires
            old(self).wf(),
        ensures
            final(self).wf(),
            final(self)@ == old(self)@.plot(sample),
            !sample.on_screen() ==> final(self)@ == old(self)@,
    {
        match cell_index(sample.column, sample.row) {
            Some(cell) => {
                if sample.depth > self.depths[cell] {
                    self.depths.set(cell, sample.depth);
                    self.glyphs.set(cell, sample.glyph);
                }
            },
            None => {},
        }
    }

    /// Plots the samples in the order of the vector.
    pub fn plot_all(&mut self, samples: &Vec<Sample>)
        requires
            old(self).wf(),
        ensures
            final(self).wf(),
            final(self)@ == old(self)@.plot_all(samples@),
    {
        let mut done: usize = 0;
        while done < samples.len()
            invariant
                done <= samples.len(),
                self.wf(),
                self@ == old(self)@.plot_all(samples@.take(done as int)),
            decreases samples.len() - done,
        {
            assert(samples@.take(done + 1).drop_last() =~= samples@.take(done as int));
            self.plot(samples[done]);
            done += 1;
        }
        assert(samples@.take(done as int) =~= samples@);
    }

    /// Draws one frame: clears the screen, then plots the samples in the
    /// order of the vector.
    pub fn render(&mut self, samples: &Vec<Sample>)
        requires
            old(self).wf(),
        ensures
            final(self).wf(),
            final(self)@ == old(self)@.render(samples@),
    {
        self.clear();
        self.plot_all(samples);
    }

    /// The glyph of a cell, counted row by row.
    pub fn glyph_at(&self, cell: usize) -> (glyph: char)
        requires
            self.wf(),
            cell < CELLS,
        ensures
            glyph == self@.glyphs[cell as int],
    {
        self.glyphs[cell]
    }

    /// The depth key of a cell, counted row by row.
    pub fn depth_at(&self, cell: usize) -> (depth: i32)
        requires
            self.wf(),
            cell < CELLS,
        ensures
            depth == self@.depths[cell as int],
    {
        self.depths[cell]
    }
}

/// Plotting keeps the size of the grid.
pub proof fn lemma_plot_all_keeps_size(cells: Cells, samples: Seq<Sample>)
    requires
        cells.wf(),
    ensures
        cells.plot_all(samples).wf(),
    decreases samples.len(),
{
    if samples.len() > 0 {
        lemma_plot_all_keeps_size(cells, samples.drop_last());
    }
}

/// A sample that lands off the grid changes nothing.
pub proof fn lemma_off_screen_is_dropped(cells: Cells, sample: Sample)
    requires
        !sample.on_screen(),
    ensures
        cells.plot(sample) == cells,
{
}

/// A cleared cell takes exactly the samples with a depth key above zero.
pub proof fn lemma_blank_takes_positive_depths(sample: Sample)
    requires
        sample.on_screen(),
    ensures
        Cells::blank().accepts(sample) <==> sample.depth > EMPTY_DEPTH,
{
}

/// Of two samples that land on the same cell, the nearer one prevails
/// whichever is plotted first: the grid ends as if the farther one had
/// never been plotted.
pub proof fn lemma_nearer_sample_wins(cells: Cells, near: Sample, far: Sample)
    requires
        cells.wf(),
        near.on_screen(),
        far.index() == near.index(),
        near.depth > far.depth,
    ensures
        cells.plot(far).plot(near) == cells.plot(near),
        cells.plot(near).plot(far) == cells.plot(near),
        cells.accepts(near) ==> cells.plot(near).glyphs[near.index()] == near.glyph
            && cells.plot(near).depths[near.index()] == near.depth,
{
    let first_far = cells.plot(far).plot(near);
    let first_near = cells.plot(near).plot(far);
    assert(first_far.depths =~= cells.plot(near).depths);
    assert(first_far.glyphs =~= cells.plot(near).glyphs);
    assert(first_near.depths =~= cells.plot(near).depths);
    assert(first_near.glyphs =~= cells.plot(near).glyphs);
}

/// Drawing a frame does not depend on what the grid held before, so the
/// same samples drawn twice, on any two grids or one after the other on the
/// same grid, give the same cells.
pub proof fn lemma_render_is_repeatable(first: Cells, second: Cells, samples: Seq<Sample>)
    ensures
        first.render(samples) == second.render(samples),
        first.render(samples).render(samples) == first.render(samples),
        first.render(samples).wf(),
{
    lemma_plot_all_keeps_size(Cells::blank(), samples);
}

/// Whether no sample was nearer than what the cell held, and the cell is as
/// it was.
spec fn kept(cells: Cells, samples: Seq<Sample>, cell: int) -> bool {
    &&& cells.plot_all(samples).depths[cell] == cells.depths[cell]
    &&& cells.plot_all(samples).glyphs[cell] == cells.glyphs[cell]
    &&& forall|k: int| #[trigger]
        lands(samples, k, cell) ==> samples[k].depth <= cells.depths[cell]
}

/// Whether the sample with the given number wins the cell, is nearer than
/// what the cell held, and has left its depth key and its glyph there.
spec fn taken(cells: Cells, samples: Seq<Sample>, cell: int, number: int) -> bool {
    &&& wins(samples, number, cell)
    &&& samples[number].depth > cells.depths[cell]
    &&& cells.plot_all(samples).depths[cell] == samples[number].depth
    &&& cells.plot_all(samples).glyphs[cell] == samples[number].glyph
}

/// After a run of samples a cell is either kept or taken by one of them.
proof fn lemma_cell_after_plot_all(cells: Cells, samples: Seq<Sample>, cell: int)
    requires
        cells.wf(),
        0 <= cell < CELLS,
    ensures
        cells.plot_all(samples).wf(),
        kept(cells, samples, cell) || exists|k: int| taken(cells, samples, cell, k),
    decreases samples.len(),
{
    if samples.len() > 0 {
        let earlier = samples.drop_last();
        let sample = samples.last();
        let last: int = samples.len() - 1;
        let before = cells.plot_all(earlier);
        lemma_cell_after_plot_all(cells, earlier, cell);
        assert(cells.plot_all(samples) == before.plot(sample));
        assert forall|k: int| #[trigger] lands(samples, k, cell) && k < last implies lands(
            earlier,
            k,
            cell,
        ) by {}
        assert forall|k: int| #[trigger] lands(earlier, k, cell) implies lands(samples, k, cell)
            && k < last && samples[k] == earlier[k] by {}
        let nearer = lands(samples, last, cell) && sample.depth > before.depths[cell];
        if kept(cells, earlier, cell) {
            if nearer {
                assert(taken(cells, samples, cell, last));
            } else {
                assert(kept(cells, samples, cell));
            }
        } else {
            let k = choose|k: int| taken(cells, earlier, cell, k);
            if nearer {
                assert(taken(cells, samples, cell, last));
            } else {
                assert(taken(cells, samples, cell, k));
            }
        }
    }
}

/// The first of the nearest wins. After a run of samples is plotted, a cell
/// that no sample landed on with a depth key above its own is unchanged;
/// any other cell holds the depth key and the glyph of the sample that wins
/// it, the first of the nearest that landed there.
pub proof fn lemma_first_nearest_wins(cells: Cells, samples: Seq<Sample>, cell: int)
    requires
        cells.wf(),
        0 <= cell < CELLS,
    ensures
        cells.plot_all(samples).wf(),
        (forall|k: int| #[trigger]
            lands(samples, k, cell) ==> samples[k].depth <= cells.depths[cell]) ==> {
            &&& cells.plot_all(samples).depths[cell] == cells.depths[cell]
            &&& cells.plot_all(samples).glyphs[cell] == cells.glyphs[cell]
        },
        forall|k: int| #[trigger]
            wins(samples, k, cell) && samples[k].depth > cells.depths[cell] ==> {
                &&& cells.plot_all(samples).depths[cell] == samples[k].depth
                &&& cells.plot_all(samples).glyphs[cell] == samples[k].glyph
            },
{
    lemma_cell_after_plot_all(cells, samples, cell);
}

/// The two buffers of a drawn frame agree: a cell holds either the empty
/// depth key and a blank, or a depth key above it.
pub proof fn lemma_rendered_buffers_agree(cells: Cells, samples: Seq<Sample>, cell: int)
    requires
        0 <= cell < CELLS,
    ensures
        cells.render(samples).depths[cell] >= EMPTY_DEPTH,
        cells.render(samples).depths[cell] == EMPTY_DEPTH ==> cells.render(samples).glyphs[cell]
            == BLANK,
{
    lemma_cell_after_plot_all(Cells::blank(), samples, cell);
}

/// Where every sample carries the same glyph, the picture of a frame does
/// not depend on the order of drawing: a cell shows the glyph exactly where
/// a sample with a depth key above the empty one landed on it.
pub proof fn lemma_one_glyph_frame(cells: Cells, samples: Seq<Sample>, glyph: char, cell: int)
    requires
        0 <= cell < CELLS,
        forall|k: int| 0 <= k < samples.len() ==> (#[trigger] samples[k]).glyph == glyph,
    ensures
        cells.render(samples).glyphs[cell] == if exists|k: int| #[trigger]
            lands(samples, k, cell) && samples[k].depth > EMPTY_DEPTH {
            glyph
        } else {
            BLANK
        },
{
    lemma_cell_after_plot_all(Cells::blank(), samples, cell);
}

/// Where a sample lands on a cell, one of those that land there wins it.
pub proof fn lemma_some_sample_wins(samples: Seq<Sample>, cell: int, number: int)
    requires
        lands(samples, number, cell),
    ensures
        exists|k: int| wins(samples, k, cell),
    decreases samples.len(),
{
    let earlier = samples.drop_last();
    let last: int = samples.len() - 1;
    assert forall|k: int| #[trigger] lands(samples, k, cell) && k < last implies lands(
        earlier,
        k,
        cell,
    ) by {}
    assert forall|k: int| #[trigger] lands(earlier, k, cell) implies lands(samples, k, cell) && k
        < last && samples[k] == earlier[k] by {}
    if exists|k: int| lands(earlier, k, cell) {
        let some = choose|k: int| lands(earlier, k, cell);
        lemma_some_sample_wins(earlier, cell, some);
        let k = choose|k: int| wins(earlier, k, cell);
        if lands(samples, last, cell) && samples[last].depth > samples[k].depth {
            assert(wins(samples, last, cell));
        } else {
            assert(wins(samples, k, cell));
        }
    } else {
        assert(number == last);
        assert(wins(samples, last, cell));
    }
}

} // verus!
