//! The hit-test resolver: maps a clicked terminal cell back to the visible
//! color swatch rendered there, by inspecting the rendered cell content.

use vstd::prelude::*;
use crate::app::{App, visible_model};
use crate::color::{ColorEntry, ColorValue, entries_equal, entry_same};

verus! {

/// A read-only model of one rendered frame: a grid of cells, each carrying
/// the label text drawn at that cell (empty for padding, borders and
/// background).
pub struct RenderedBuffer {
    width: usize,
    height: usize,
    cells: Vec<String>,
}

impl RenderedBuffer {
    /// The grid holds exactly one label slot per cell.
    pub closed spec fn wf(&self) -> bool {
        self.cells@.len() == self.width * self.height
    }

    /// The grid width, in cells.
    pub closed spec fn spec_width(&self) -> int {
        self.width as int
    }

    /// The grid height, in cells.
    pub closed spec fn spec_height(&self) -> int {
        self.height as int
    }

    /// The coordinate names a cell of the grid.
    pub open spec fn in_bounds(&self, row: int, col: int) -> bool {
        0 <= row < self.spec_height() && 0 <= col < self.spec_width()
    }

    /// The label text drawn at a cell.
    pub closed spec fn label_at(&self, row: int, col: int) -> Seq<char> {
        self.cells@[row * self.spec_width() + col]@
    }

    /// An empty frame of the given dimensions: every cell carries no label.
    pub fn new(width: usize, height: usize) -> (b: RenderedBuffer)
        requires
            width * height <= usize::MAX,
        ensures
            b.wf(),
            b.spec_width() == width,
            b.spec_height() == height,
            forall|r: int, c: int| b.in_bounds(r, c) ==> #[trigger] b.label_at(r, c) =~= Seq::<char>::empty(),
    {
        let total = width * height;
        let mut cells: Vec<String> = Vec::new();
        let mut i: usize = 0;
        while i < total
            invariant
                i <= total,
                cells@.len() == i,
                forall|k: int| 0 <= k < i ==> #[trigger] cells@[k]@ =~= Seq::<char>::empty(),
            decreases total - i,
        {
            cells.push(String::new());
            i += 1;
        }
        let b = RenderedBuffer { width, height, cells };
        proof {
            assert forall|r: int, c: int| b.in_bounds(r, c) implies #[trigger] b.label_at(r, c)
                =~= Seq::<char>::empty() by {
                lemma_grid_index(r, c, b.spec_width(), b.spec_height());
            }
        }
        b
    }

    /// The grid width, in cells.
    pub fn width(&self) -> (w: usize)
        ensures
            w == self.spec_width(),
    {
        self.width
    }

    /// The grid height, in cells.
    pub fn height(&self) -> (h: usize)
        ensures
            h == self.spec_height(),
    {
        self.height
    }

    /// Writes the label text drawn at one cell; the rest of the frame is
    /// untouched.
    pub fn set_label(&mut self, row: usize, col: usize, label: &str)
        requires
            old(self).wf(),
            old(self).in_bounds(row as int, col as int),
        ensures
            final(self).wf(),
            final(self).spec_width() == old(self).spec_width(),
            final(self).spec_height() == old(self).spec_height(),
            final(self).label_at(row as int, col as int) == label@,
            forall|r: int, c: int|
                old(self).in_bounds(r, c) && !(r == row && c == col)
                    ==> #[trigger] final(self).label_at(r, c) == old(self).label_at(r, c),
    {
        let total = self.cells.len();
        proof {
            lemma_grid_index(row as int, col as int, self.spec_width(), self.spec_height());
            assert(row * self.spec_width() + col < total);
        }
        let idx = row * self.width + col;
        self.cells[idx] = label.to_owned();
        proof {
            assert forall|r: int, c: int|
                old(self).in_bounds(r, c) && !(r == row && c == col)
                implies #[trigger] final(self).label_at(r, c) == old(self).label_at(r, c) by {
                lemma_grid_index(r, c, old(self).spec_width(), old(self).spec_height());
                lemma_grid_index_injective(
                    r,
                    c,
                    row as int,
                    col as int,
                    old(self).spec_width(),
                );
            }
        }
    }

    /// Reads the label text drawn at one cell.
    pub fn label(&self, row: usize, col: usize) -> (l: &String)
        requires
            self.wf(),
            self.in_bounds(row as int, col as int),
        ensures
            l@ == self.label_at(row as int, col as int),
    {
        let total = self.cells.len();
        proof {
            lemma_grid_index(row as int, col as int, self.spec_width(), self.spec_height());
            assert(row * self.spec_width() + col < total);
        }
        &self.cells[row * self.width + col]
    }
}

/// A cell index computed from a row and a column lies inside the grid.
proof fn lemma_grid_index(row: int, col: int, width: int, height: int)
    requires
        0 <= row < height,
        0 <= col < width,
    ensures
        0 <= row * width + col < width * height,
{
    assert(row * width + col < width * height) by (nonlinear_arith)
        requires
            0 <= row < height,
            0 <= col < width,
    ;
    assert(0 <= row * width) by (nonlinear_arith)
        requires
            0 <= row,
            0 <= width,
    ;
}

/// Distinct cells of the grid have distinct indices.
proof fn lemma_grid_index_injective(r1: int, c1: int, r2: int, c2: int, width: int)
    requires
        0 <= c1 < width,
        0 <= c2 < width,
        0 <= r1,
        0 <= r2,
        !(r1 == r2 && c1 == c2),
    ensures
        r1 * width + c1 != r2 * width + c2,
{
    assert(r1 * width + c1 != r2 * width + c2) by (nonlinear_arith)
        requires
            0 <= c1 < width,
            0 <= c2 < width,
            0 <= r1,
            0 <= r2,
            !(r1 == r2 && c1 == c2),
    ;
}

/// The first entry of the visible set whose name is exactly the label, if
/// any.
pub open spec fn first_label_match(vis: Seq<ColorEntry>, label: Seq<char>) -> Option<
    (Seq<char>, ColorValue),
>
    decreases vis.len(),
{
    if vis.len() == 0 {
        None
    } else if vis[0].name@ == label {
        Some((vis[0].name@, vis[0].value))
    } else {
        first_label_match(vis.drop_first(), label)
    }
}

/// What `resolve` returns: nothing for a coordinate outside the frame,
/// otherwise the first visible entry whose name is the label drawn at the
/// clicked cell.
pub open spec fn resolve_model(
    buffer: RenderedBuffer,
    catalog: Seq<ColorEntry>,
    filter: Seq<char>,
    row: int,
    col: int,
) -> Option<(Seq<char>, ColorValue)> {
    if !buffer.in_bounds(row, col) {
        None
    } else {
        first_label_match(visible_model(catalog, filter), buffer.label_at(row, col))
    }
}

/// Maps a clicked cell back to the color swatch rendered there: no match
/// outside the frame or on a cell whose label names no visible entry,
/// otherwise the first matching entry in visible-set order.
pub fn resolve(buffer: &RenderedBuffer, app: &App, row: u16, column: u16) -> (r: Option<
    (String, ColorValue),
>)
    requires
        buffer.wf(),
    ensures
        match r {
            None => resolve_model(*buffer, app.catalog@, app.filter@, row as int, column as int)
                is None,
            Some(sel) => resolve_model(
                *buffer,
                app.catalog@,
                app.filter@,
                row as int,
                column as int,
            ) == Some((sel.0@, sel.1)),
        },
{
    let h = buffer.height();
    let w = buffer.width();
    if (row as usize) >= h || (column as usize) >= w {
        return None;
    }
    let label = buffer.label(row as usize, column as usize);
    let vis = app.visible_entries();
    let ghost vis_model = visible_model(app.catalog@, app.filter@);
    let n = vis.len();
    proof {
        assert(vis_model.skip(0) =~= vis_model);
    }
    let mut i: usize = 0;
    while i < n
        invariant
            i <= n,
            n == vis@.len(),
            entries_equal(vis@, vis_model),
            buffer.in_bounds(row as int, column as int),
            vis_model == visible_model(app.catalog@, app.filter@),
            label@ == buffer.label_at(row as int, column as int),
            first_label_match(vis_model, label@) == first_label_match(
                vis_model.skip(i as int),
                label@,
            ),
        decreases n - i,
    {
        proof {
            assert(entry_same(vis@[i as int], vis_model[i as int]));
            assert(vis_model.skip(i as int).drop_first() =~= vis_model.skip(i + 1));
            assert(vis_model.skip(i as int)[0] == vis_model[i as int]);
        }
        if vis[i].name.eq(label) {
            proof {
                assert(vis_model.skip(i as int)[0].name@ == label@);
                assert(first_label_match(vis_model.skip(i as int), label@) == Some(
                    (vis_model[i as int].name@, vis_model[i as int].value),
                ));
            }
            return Some((vis[i].name.clone(), vis[i].value));
        }
        i += 1;
    }
    proof {
        assert(vis_model.skip(n as int) =~= Seq::<ColorEntry>::empty());
    }
    None
}

/// Law: whatever `resolve` returns, its name and value are those of an entry
/// of the visible set at the time of the call.
pub proof fn lemma_resolve_in_visible(
    buffer: RenderedBuffer,
    catalog: Seq<ColorEntry>,
    filter: Seq<char>,
    row: int,
    col: int,
    name: Seq<char>,
    value: ColorValue,
)
    requires
        resolve_model(buffer, catalog, filter, row, col) == Some((name, value)),
    ensures
        exists|i: int|
            0 <= i < visible_model(catalog, filter).len()
                && #[trigger] visible_model(catalog, filter)[i].name@ == name && visible_model(
                catalog,
                filter,
            )[i].value == value,
{
    lemma_first_match_in_set(visible_model(catalog, filter), buffer.label_at(row, col), name, value);
}

/// A result of `first_label_match` always comes from the sequence searched.
proof fn lemma_first_match_in_set(
    vis: Seq<ColorEntry>,
    label: Seq<char>,
    name: Seq<char>,
    value: ColorValue,
)
    requires
        first_label_match(vis, label) == Some((name, value)),
    ensures
        exists|i: int|
            0 <= i < vis.len() && #[trigger] vis[i].name@ == name && vis[i].value == value,
    decreases vis.len(),
{
    if vis.len() == 0 {
    } else if vis[0].name@ == label {
        assert(vis[0].name@ == name && vis[0].value == value);
    } else {
        lemma_first_match_in_set(vis.drop_first(), label, name, value);
        let j = choose|j: int|
            0 <= j < vis.drop_first().len() && #[trigger] vis.drop_first()[j].name@ == name
                && vis.drop_first()[j].value == value;
        assert(vis[j + 1].name@ == name && vis[j + 1].value == value);
    }
}

} // verus!
