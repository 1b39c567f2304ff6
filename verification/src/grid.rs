//! The grid: typed cells placed at rows and columns.

use vstd::prelude::*;

verus! {

/// What one cell of a sheet holds.
#[derive(Clone, Debug, PartialEq, Eq)]
pub enum Cell {
    /// A cell without a value.
    Blank,
    Boolean(bool),
    /// A numeric cell that holds an integer.
    Int(i64),
    /// A numeric cell that holds the binary64 number of this bit pattern.
    Float(u64),
    Text(String),
}

/// The mathematical value of a cell.
pub enum CellView {
    Blank,
    Boolean(bool),
    Int(int),
    Float(u64),
    Text(Seq<char>),
}

impl View for Cell {
    type V = CellView;

    open spec fn view(&self) -> CellView {
        match self {
            Cell::Blank => CellView::Blank,
            Cell::Boolean(b) => CellView::Boolean(*b),
            Cell::Int(n) => CellView::Int(*n as int),
            Cell::Float(bits) => CellView::Float(*bits),
            Cell::Text(s) => CellView::Text(s@),
        }
    }
}

/// What a placement puts on the sheet: a header label, shown in the header
/// style, or a data cell.
#[derive(Clone, Debug, PartialEq, Eq)]
pub enum Content {
    Header(String),
    Value(Cell),
}

/// The mathematical value of a placement's content.
pub enum ContentView {
    Header(Seq<char>),
    Value(CellView),
}

impl View for Content {
    type V = ContentView;

    open spec fn view(&self) -> ContentView {
        match self {
            Content::Header(label) => ContentView::Header(label@),
            Content::Value(cell) => ContentView::Value(cell@),
        }
    }
}

/// How header labels look: bold or not, and the colours of the cell and of
/// its text, each as 24 bits of red, green and blue.
#[derive(Clone, Copy, Debug, PartialEq, Eq, Structural)]
pub struct HeaderStyle {
    pub bold: bool,
    pub background: u32,
    pub font_color: u32,
}

/// The one style of header labels: bold, green on dark grey.
pub fn header_style() -> (style: HeaderStyle)
    ensures
        style == (HeaderStyle { bold: true, background: 0x202020, font_color: 0x00FF00 }),
{
    HeaderStyle { bold: true, background: 0x202020, font_color: 0x00FF00 }
}

/// One piece of content at one position of the sheet.
#[derive(Clone, Debug, PartialEq, Eq)]
pub struct GridPlacement {
    pub row: u128,
    pub col: u128,
    pub content: Content,
}

/// The mathematical value of a placement.
pub struct PlacementView {
    pub row: nat,
    pub col: nat,
    pub content: ContentView,
}

impl View for GridPlacement {
    type V = PlacementView;

    open spec fn view(&self) -> PlacementView {
        PlacementView { row: self.row as nat, col: self.col as nat, content: self.content@ }
    }
}

/// A header label placed at a position.
pub open spec fn header_at(row: nat, col: nat, label: Seq<char>) -> PlacementView {
    PlacementView { row, col, content: ContentView::Header(label) }
}

/// A data cell placed at a position.
pub open spec fn value_at(row: nat, col: nat, cell: CellView) -> PlacementView {
    PlacementView { row, col, content: ContentView::Value(cell) }
}

/// No two placements share a position.
pub open spec fn no_overlap(placements: Seq<PlacementView>) -> bool {
    forall|i: int, j: int|
        0 <= i < j < placements.len() ==> !(#[trigger] placements[i].row
            == #[trigger] placements[j].row && placements[i].col == placements[j].col)
}

/// Every placement lies in the rows `top .. bottom` and the columns
/// `left .. right`, the upper bounds excluded.
pub open spec fn within(
    placements: Seq<PlacementView>,
    top: nat,
    bottom: nat,
    left: nat,
    right: nat,
) -> bool {
    forall|i: int|
        0 <= i < placements.len() ==> top <= (#[trigger] placements[i]).row < bottom && left
            <= placements[i].col < right
}

/// The content placed at a position: that of the first placement there.
pub open spec fn content_at(placements: Seq<PlacementView>, row: nat, col: nat) -> Option<
    ContentView,
>
    decreases placements.len(),
{
    if placements.len() == 0 {
        None
    } else if placements[0].row == row && placements[0].col == col {
        Some(placements[0].content)
    } else {
        content_at(placements.drop_first(), row, col)
    }
}

/// What stands at a position of two runs of placements, one after the other:
/// what the first run puts there, or else what the second does.
pub proof fn lemma_content_at_join(
    a: Seq<PlacementView>,
    b: Seq<PlacementView>,
    row: nat,
    col: nat,
)
    ensures
        content_at(a + b, row, col) == match content_at(a, row, col) {
            Some(content) => Some(content),
            None => content_at(b, row, col),
        },
    decreases a.len(),
{
    if a.len() == 0 {
        assert(a + b =~= b);
    } else {
        assert((a + b).drop_first() =~= a.drop_first() + b);
        lemma_content_at_join(a.drop_first(), b, row, col);
    }
}

/// Nothing stands at a position outside the region in which the placements
/// lie.
pub proof fn lemma_content_at_outside(
    placements: Seq<PlacementView>,
    top: nat,
    bottom: nat,
    left: nat,
    right: nat,
    row: nat,
    col: nat,
)
    requires
        within(placements, top, bottom, left, right),
        !(top <= row < bottom && left <= col < right),
    ensures
        content_at(placements, row, col) is None,
    decreases placements.len(),
{
    if placements.len() > 0 {
        let rest = placements.drop_first();
        assert forall|i: int| 0 <= i < rest.len() implies top <= (#[trigger] rest[i]).row < bottom
            && left <= rest[i].col < right by {
            assert(rest[i] == placements[i + 1]);
        }
        lemma_content_at_outside(rest, top, bottom, left, right, row, col);
    }
}

/// In placements free of overlap, what stands at the position of a placement
/// is that placement's content.
pub proof fn lemma_content_at_found(placements: Seq<PlacementView>, i: int)
    requires
        no_overlap(placements),
        0 <= i < placements.len(),
    ensures
        content_at(placements, placements[i].row, placements[i].col) == Some(
            placements[i].content,
        ),
    decreases i,
{
    if i > 0 {
        let rest = placements.drop_first();
        assert forall|a: int, b: int| 0 <= a < b < rest.len() implies !(#[trigger] rest[a].row
            == #[trigger] rest[b].row && rest[a].col == rest[b].col) by {
            assert(rest[a] == placements[a + 1] && rest[b] == placements[b + 1]);
        }
        assert(rest[i - 1] == placements[i]);
        lemma_content_at_found(rest, i - 1);
    }
}

/// The ordered placements of one sheet.
#[derive(Clone, Debug, PartialEq, Eq)]
pub struct Grid {
    pub placements: Vec<GridPlacement>,
}

impl View for Grid {
    type V = Seq<PlacementView>;

    open spec fn view(&self) -> Seq<PlacementView> {
        self.placements@.map_values(|p: GridPlacement| p@)
    }
}

impl Grid {
    /// The empty grid.
    pub fn new() -> (grid: Grid)
        ensures
            grid@ == Seq::<PlacementView>::empty(),
    {
        let grid = Grid { placements: Vec::new() };
        assert(grid@ =~= Seq::<PlacementView>::empty());
        grid
    }

    /// The number of placements.
    pub fn len(&self) -> (n: usize)
        ensures
            n == self@.len(),
    {
        self.placements.len()
    }

    /// Adds a placement after those already there.
    pub fn place(&mut self, row: u128, col: u128, content: Content)
        ensures
            final(self)@ == old(self)@.push(
                PlacementView { row: row as nat, col: col as nat, content: content@ },
            ),
    {
        self.placements.push(GridPlacement { row, col, content });
        assert(self@ =~= old(self)@.push(
            PlacementView { row: row as nat, col: col as nat, content: content@ },
        ));
    }

    /// The content placed at a position, if any: that of the first placement
    /// there.
    pub fn content_at(&self, row: u128, col: u128) -> (found: Option<&Content>)
        ensures
            match found {
                Some(content) => content_at(self@, row as nat, col as nat) == Some(content@),
                None => content_at(self@, row as nat, col as nat) is None,
            },
    {
        let mut i: usize = 0;
        assert(self@.skip(0) =~= self@);
        while i < self.placements.len()
            invariant
                i <= self.placements@.len(),
                content_at(self@, row as nat, col as nat) == content_at(
                    self@.skip(i as int),
                    row as nat,
                    col as nat,
                ),
            decreases self.placements@.len() - i,
        {
            proof {
                assert(self@.skip(i as int).drop_first() =~= self@.skip(i + 1));
                assert(self@.skip(i as int)[0] == self.placements@[i as int]@);
            }
            if self.placements[i].row == row && self.placements[i].col == col {
                return Some(&self.placements[i].content);
            }
            i += 1;
        }
        assert(self@.skip(i as int).len() == 0);
        None
    }
}

} // verus!
