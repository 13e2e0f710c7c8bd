//! A frame: which points of the cube are sampled, in which order, and the
//! text that a finished screen is shown as.

use vstd::prelude::*;
use crate::cube::{corner, edge, edge_ends, vertex, CUBE_WIDTH, EDGE_COUNT};
use crate::line::{walk, walk_of, WalkPoint};
use crate::screen::{Screen, HEIGHT, WIDTH};

verus! {

/// The samples of the edge with the given number, from its first corner to
/// its second.
pub open spec fn edge_walk(index: int) -> Seq<WalkPoint> {
    walk_of(corner(edge_ends(index).0), corner(edge_ends(index).1))
}

/// The samples of the edges with a number below `limit`, edge after edge.
pub open spec fn walks_below(limit: int) -> Seq<WalkPoint>
    decreases limit,
{
    if limit <= 0 {
        Seq::empty()
    } else {
        walks_below(limit - 1) + edge_walk(limit - 1)
    }
}

/// The samples of one frame in the order they are drawn: every edge in the
/// order of the edge numbers, each from its first corner to its second.
pub open spec fn frame_walk() -> Seq<WalkPoint> {
    walks_below(EDGE_COUNT as int)
}

/// The samples of one frame, in the order they are drawn.
pub fn frame_points() -> (points: Vec<WalkPoint>)
    ensures
        points@ == frame_walk(),
{
    let mut points: Vec<WalkPoint> = Vec::new();
    let mut index: usize = 0;
    while index < EDGE_COUNT
        invariant
            index <= EDGE_COUNT,
            points@ == walks_below(index as int),
        decreases EDGE_COUNT - index,
    {
        let ends: (usize, usize) = edge(index);
        let mut samples: Vec<WalkPoint> = walk(vertex(ends.0), vertex(ends.1));
        points.append(&mut samples);
        index += 1;
    }
    points
}

/// The number of samples on each edge of the cube: one for each unit of
/// its length, both ends included.
pub open spec fn samples_per_edge() -> int {
    2 * CUBE_WIDTH + 1
}

/// Every edge of the cube is cut into as many parts as it is long, so its
/// samples lie one unit apart, the first on its first corner and the last
/// on its second.
pub proof fn lemma_edge_walk(index: int, step: int)
    requires
        0 <= index < EDGE_COUNT,
        0 <= step < samples_per_edge(),
    ensures
        edge_walk(index).len() == samples_per_edge(),
        edge_walk(index)[step] == (WalkPoint {
            from: corner(edge_ends(index).0),
            to: corner(edge_ends(index).1),
            step: step as u32,
            steps: (2 * CUBE_WIDTH) as u32,
        }),
{
}

/// The samples of the first edges of a frame: their number, and which
/// sample stands where.
proof fn lemma_walks_below(limit: int, index: int, step: int)
    requires
        0 <= index < limit <= EDGE_COUNT,
        0 <= step < samples_per_edge(),
    ensures
        walks_below(limit).len() == limit * samples_per_edge(),
        walks_below(limit)[index * samples_per_edge() + step] == edge_walk(index)[step],
    decreases limit,
{
    let earlier = walks_below(limit - 1);
    lemma_edge_walk(limit - 1, 0);
    assert(limit * samples_per_edge() == limit * 21);
    assert(index * samples_per_edge() == index * 21);
    assert(walks_below(limit) == earlier + edge_walk(limit - 1));
    if limit == 1 {
        assert(earlier.len() == 0);
    } else {
        lemma_walks_below(limit - 1, if index < limit - 1 { index } else { 0 }, step);
        assert((limit - 1) * samples_per_edge() == (limit - 1) * 21);
    }
}

/// A frame has the samples of its twelve edges, edge after edge: sample
/// `step` of edge `index` is drawn as number `index * samples_per_edge() +
/// step`.
pub proof fn lemma_frame_walk(index: int, step: int)
    requires
        0 <= index < EDGE_COUNT,
        0 <= step < samples_per_edge(),
    ensures
        frame_walk().len() == EDGE_COUNT * samples_per_edge(),
        frame_walk()[index * samples_per_edge() + step] == (WalkPoint {
            from: corner(edge_ends(index).0),
            to: corner(edge_ends(index).1),
            step: step as u32,
            steps: (2 * CUBE_WIDTH) as u32,
        }),
{
    lemma_walks_below(EDGE_COUNT as int, index, step);
    lemma_edge_walk(index, step);
}

/// The control sequence that moves the terminal's cursor to the top left
/// corner: escape, `[`, `H`.
pub open spec fn cursor_home() -> Seq<char> {
    seq!['\u{1b}', '[', 'H']
}

/// The character at a position of the text after the control sequence:
/// each row of the grid is followed by a line break.
pub open spec fn row_text_char(glyphs: Seq<char>, position: int) -> char {
    let row: int = position / (WIDTH + 1);
    let column: int = position % (WIDTH + 1);
    if column == WIDTH {
        '\n'
    } else {
        glyphs[row * WIDTH + column]
    }
}

/// The text of a frame: the cursor goes home, then the `HEIGHT` rows follow
/// from the top, each of `WIDTH` glyphs and a line break.
pub open spec fn text_of(glyphs: Seq<char>) -> Seq<char> {
    cursor_home() + Seq::new(
        (HEIGHT * (WIDTH + 1)) as nat,
        |position: int| row_text_char(glyphs, position),
    )
}

/// The position of a cell's glyph in the text after the control sequence,
/// and the character there; the line break of a row stands at column
/// `WIDTH`.
proof fn lemma_row_text_char(glyphs: Seq<char>, row: int, column: int)
    requires
        0 <= row,
        0 <= column <= WIDTH,
    ensures
        row * (WIDTH + 1) == row * 161,
        row * WIDTH == row * 160,
        column < WIDTH ==> row_text_char(glyphs, row * (WIDTH + 1) + column) == glyphs[row * WIDTH
            + column],
        column == WIDTH ==> row_text_char(glyphs, row * (WIDTH + 1) + column) == '\n',
{
    let position: int = row * 161 + column;
    assert(position / 161 == row);
    assert(position % 161 == column);
    assert(position / (WIDTH + 1) == row);
    assert(position % (WIDTH + 1) == column);
}

/// The layout of a frame's text: after the control sequence every row
/// takes `WIDTH + 1` places, its glyphs from the left and then a line break.
pub proof fn lemma_text_layout(glyphs: Seq<char>, row: int, column: int)
    requires
        0 <= row < HEIGHT,
        0 <= column < WIDTH,
    ensures
        text_of(glyphs).len() == 3 + HEIGHT * (WIDTH + 1),
        text_of(glyphs).subrange(0, 3) == cursor_home(),
        text_of(glyphs)[3 + row * (WIDTH + 1) + column] == glyphs[row * WIDTH + column],
        text_of(glyphs)[3 + row * (WIDTH + 1) + WIDTH] == '\n',
{
    lemma_row_text_char(glyphs, row, column);
    lemma_row_text_char(glyphs, row, WIDTH as int);
    assert(HEIGHT * (WIDTH + 1) == HEIGHT * 161);
    assert(text_of(glyphs).subrange(0, 3) =~= cursor_home());
}

/// The text that shows the screen on a terminal, drawn over the frame
/// before it.
pub fn frame_text(screen: &Screen) -> (text: Vec<char>)
    requires
        screen.wf(),
    ensures
        text@ == text_of(screen@.glyphs),
{
    let mut text: Vec<char> = Vec::new();
    text.push('\u{1b}');
    text.push('[');
    text.push('H');
    let mut row: usize = 0;
    while row < HEIGHT
        invariant
            row <= HEIGHT,
            screen.wf(),
            text.len() == 3 + row * 161,
            text@.take(3) == cursor_home(),
            forall|p: int| 0 <= p < row * 161 ==> text[3 + p] == row_text_char(screen@.glyphs, p),
        decreases HEIGHT - row,
    {
        let mut column: usize = 0;
        while column < WIDTH
            invariant
                row < HEIGHT,
                column <= WIDTH,
                screen.wf(),
                text.len() == 3 + row * 161 + column,
                text@.take(3) == cursor_home(),
                forall|p: int|
                    0 <= p < row * 161 + column ==> text[3 + p] == row_text_char(
                        screen@.glyphs,
                        p,
                    ),
            decreases WIDTH - column,
        {
            let ghost before = text@;
            proof {
                lemma_row_text_char(screen@.glyphs, row as int, column as int);
            }
            text.push(screen.glyph_at(row * WIDTH + column));
            assert(text@.take(3) =~= before.take(3));
            column += 1;
        }
        let ghost before = text@;
        proof {
            lemma_row_text_char(screen@.glyphs, row as int, WIDTH as int);
        }
        text.push('\n');
        assert(text@.take(3) =~= before.take(3));
        row += 1;
    }
    assert(HEIGHT * (WIDTH + 1) == HEIGHT * 161);
    assert(text@ =~= text_of(screen@.glyphs));
    text
}

} // verus!
