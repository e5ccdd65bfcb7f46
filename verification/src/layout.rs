//! Rectangles of the terminal grid, and the division of the screen into the
//! regions of the interface.

use ratatui::layout as grid;
use vstd::prelude::*;

verus! {

/// A rectangle of terminal cells.
#[derive(Clone, Copy, PartialEq, Eq, Structural, Debug)]
pub struct Rect {
    pub x: u16,
    pub y: u16,
    pub width: u16,
    pub height: u16,
}

/// The axis along which an area is divided.
#[derive(Clone, Copy, PartialEq, Eq, Structural, Debug)]
pub enum Direction {
    Horizontal,
    Vertical,
}

/// How much of a divided area one part asks for.
#[derive(Clone, Copy, PartialEq, Eq, Structural, Debug)]
pub enum Constraint {
    /// Exactly this many cells.
    Length(u16),
    /// At least this many cells.
    Min(u16),
    /// This share of the whole, in percent.
    Percentage(u16),
}

impl Rect {
    /// Whether every cell of the rectangle is a cell of `outer`.
    pub open spec fn lies_within(self, outer: Rect) -> bool {
        &&& outer.x <= self.x
        &&& self.x + self.width <= outer.x + outer.width
        &&& outer.y <= self.y
        &&& self.y + self.height <= outer.y + outer.height
    }

    /// Whether the rectangle ends within the grid that 16 bits can address.
    pub open spec fn in_grid(self) -> bool {
        self.x + self.width <= u16::MAX && self.y + self.height <= u16::MAX
    }

    /// Where the rectangle begins along `direction`.
    pub open spec fn start(self, direction: Direction) -> int {
        match direction {
            Direction::Horizontal => self.x as int,
            Direction::Vertical => self.y as int,
        }
    }

    /// The cells of the rectangle along `direction`.
    pub open spec fn length(self, direction: Direction) -> int {
        match direction {
            Direction::Horizontal => self.width as int,
            Direction::Vertical => self.height as int,
        }
    }

    /// The cells along `direction` that can be divided: those of the
    /// rectangle that the grid holds.
    pub open spec fn span(self, direction: Direction) -> int {
        if self.start(direction) + self.length(direction) <= u16::MAX {
            self.length(direction)
        } else {
            u16::MAX - self.start(direction)
        }
    }
}

/// What a constraint asks for of `span` cells, in hundredths of a cell.
pub open spec fn demand(constraint: Constraint, span: int) -> int {
    match constraint {
        Constraint::Length(n) => 100 * n,
        Constraint::Min(n) => 100 * n,
        Constraint::Percentage(p) => p * span,
    }
}

/// What the constraints ask for together, in hundredths of a cell.
pub open spec fn total_demand(constraints: Seq<Constraint>, span: int) -> int
    decreases constraints.len(),
{
    if constraints.len() == 0 {
        0
    } else {
        total_demand(constraints.drop_last(), span) + demand(constraints.last(), span)
    }
}

/// The number of `Min` constraints among `constraints`.
pub open spec fn min_count(constraints: Seq<Constraint>) -> nat
    decreases constraints.len(),
{
    if constraints.len() == 0 {
        0
    } else {
        min_count(constraints.drop_last()) + if constraints.last() is Min {
            1nat
        } else {
            0nat
        }
    }
}

/// Whether every constraint can have what it asks for at once: together
/// they ask for no more than the span. Nothing is said of lists of more than
/// sixteen constraints, of lists in which more than one part may grow, where
/// the parts share what is left, or of a minimum of 2^15 or more, which the
/// layout hands to the solver as a signed number of 16 bits.
pub open spec fn demands_fit(constraints: Seq<Constraint>, span: int) -> bool {
    &&& constraints.len() <= 16
    &&& min_count(constraints) <= 1
    &&& total_demand(constraints, span) <= 100 * span
    &&& forall|i: int|
        0 <= i < constraints.len() ==> (#[trigger] constraints[i] matches Constraint::Min(n)
            ==> n <= i16::MAX)
}

/// Whether a part of `length` cells has what `constraint` asks for of
/// `span` cells: the very length, at least the minimum, or the share to
/// within a cell, each edge of the part being rounded to a cell.
pub open spec fn meets(constraint: Constraint, length: int, span: int) -> bool {
    match constraint {
        Constraint::Length(n) => length == n,
        Constraint::Min(n) => length >= n,
        Constraint::Percentage(p) => -100 <= 100 * length - p * span <= 100,
    }
}

/// Whether `parts` gives every constraint what it asks for: the parts
/// follow one another without a gap from the start of the area, each has
/// what its constraint asks for, and they end where the area ends if one of
/// them may grow or they ask for all of the span.
pub open spec fn laid_out(
    parts: Seq<Rect>,
    constraints: Seq<Constraint>,
    area: Rect,
    direction: Direction,
) -> bool {
    &&& forall|i: int|
        0 <= i < parts.len() ==> meets(
            constraints[i],
            (#[trigger] parts[i]).length(direction),
            area.span(direction),
        )
    &&& parts.len() > 0 ==> parts[0].start(direction) == area.start(direction)
    &&& forall|i: int|
        1 <= i < parts.len() ==> (#[trigger] parts[i]).start(direction) == parts[i - 1].start(
            direction,
        ) + parts[i - 1].length(direction)
    &&& parts.len() > 0 && (min_count(constraints) == 1 || total_demand(
        constraints,
        area.span(direction),
    ) == 100 * area.span(direction)) ==> parts.last().start(direction) + parts.last().length(
        direction,
    ) == area.start(direction) + area.span(direction)
}

/// Calls `Layout::split` of `ratatui`, on a layout that `Layout::horizontal`
/// or `Layout::vertical` makes of the constraints.
///
/// The sizes come out of a constraint solver. Of every outcome it holds
/// that there is one part for each constraint, that each part spans the area
/// across the direction of the division, and that along it each part lies
/// inside the area, which the solver is required to keep every edge within.
///
/// Where the constraints fit the area ([`demands_fit`]) the outcome is what
/// `ratatui` documents of them ([`laid_out`]): parts are aligned to the
/// start and follow without a gap, a length is the size of its part, a
/// minimum a lower bound of it, a percentage its share of the area, rounded.
/// The solver weighs a gap between parts and a missed minimum 10^8 to the
/// hundredth of a cell, a missed length 10^7 and a missed percentage 10^6,
/// and the wish of a part to grow 10^3 at most; so what can be met at once
/// is met, and a part that may grow takes what is left.
#[verifier::external_body]
fn split(direction: Direction, constraints: &Vec<Constraint>, area: Rect) -> (parts: Vec<Rect>)
    ensures
        parts@.len() == constraints@.len(),
        forall|i: int|
            0 <= i < parts@.len() && direction == Direction::Vertical ==> (#[trigger] parts@[i]).x
                == area.x && parts@[i].width == area.width,
        forall|i: int|
            0 <= i < parts@.len() && direction == Direction::Horizontal ==> (#[trigger] parts@[i]).y
                == area.y && parts@[i].height == area.height,
        forall|i: int| 0 <= i < parts@.len() ==> (#[trigger] parts@[i]).lies_within(area),
        demands_fit(constraints@, area.span(direction)) ==> laid_out(
            parts@,
            constraints@,
            area,
            direction,
        ),
{
    let constraints = constraints.iter().map(|c| match *c {
        Constraint::Length(n) => grid::Constraint::Length(n),
        Constraint::Min(n) => grid::Constraint::Min(n),
        Constraint::Percentage(n) => grid::Constraint::Percentage(n),
    });
    let layout = match direction {
        Direction::Horizontal => grid::Layout::horizontal(constraints),
        Direction::Vertical => grid::Layout::vertical(constraints),
    };
    let area = grid::Rect { x: area.x, y: area.y, width: area.width, height: area.height };
    let parts = layout.split(area);
    parts.iter().map(|r| Rect { x: r.x, y: r.y, width: r.width, height: r.height }).collect()
}

/// The regions of the screen.
#[derive(Clone, Copy, PartialEq, Eq, Structural, Debug)]
pub struct ScreenLayout {
    /// The title line.
    pub title: Rect,
    /// The box that shows the query.
    pub search: Rect,
    /// The pane of the ranked list.
    pub list: Rect,
    /// The pane that previews the entry under the cursor.
    pub preview: Rect,
    /// The line of key help or status.
    pub footer: Rect,
    /// Where the confirmation prompt goes when one is open.
    pub popup: Rect,
}

/// The bands of the screen from the top: the title line, the search box of
/// three lines, the content, which takes what is left and at least a line,
/// and the footer line.
pub fn screen_rows() -> (rows: Vec<Constraint>)
    ensures
        rows@ == seq![
            Constraint::Length(1),
            Constraint::Length(3),
            Constraint::Min(1),
            Constraint::Length(1),
        ],
{
    let mut rows: Vec<Constraint> = Vec::new();
    rows.push(Constraint::Length(1));
    rows.push(Constraint::Length(3));
    rows.push(Constraint::Min(1));
    rows.push(Constraint::Length(1));
    rows
}

/// The panes of the content from the left: the list on 70 percent of the
/// width, the preview on 30.
pub fn content_columns() -> (columns: Vec<Constraint>)
    ensures
        columns@ == seq![Constraint::Percentage(70), Constraint::Percentage(30)],
{
    let mut columns: Vec<Constraint> = Vec::new();
    columns.push(Constraint::Percentage(70));
    columns.push(Constraint::Percentage(30));
    columns
}

/// The bands that centre the prompt from top to bottom: three lines between
/// two bands of 40 percent of the height.
pub fn popup_rows() -> (rows: Vec<Constraint>)
    ensures
        rows@ == seq![
            Constraint::Percentage(40),
            Constraint::Length(3),
            Constraint::Percentage(40),
        ],
{
    let mut rows: Vec<Constraint> = Vec::new();
    rows.push(Constraint::Percentage(40));
    rows.push(Constraint::Length(3));
    rows.push(Constraint::Percentage(40));
    rows
}

/// The panes that centre the prompt from left to right: 60 percent of the
/// width between two panes of 20.
pub fn popup_columns() -> (columns: Vec<Constraint>)
    ensures
        columns@ == seq![
            Constraint::Percentage(20),
            Constraint::Percentage(60),
            Constraint::Percentage(20),
        ],
{
    let mut columns: Vec<Constraint> = Vec::new();
    columns.push(Constraint::Percentage(20));
    columns.push(Constraint::Percentage(60));
    columns.push(Constraint::Percentage(20));
    columns
}

/// Names the parts of the divided screen: of the four bands the first is
/// the title, the second the search box and the last the footer; the two
/// panes of the content are list and preview; the prompt is the middle one
/// of the three panes of its band.
pub fn regions_of(bands: &Vec<Rect>, panes: &Vec<Rect>, popup_panes: &Vec<Rect>) -> (regions:
    ScreenLayout)
    requires
        bands@.len() == 4,
        panes@.len() == 2,
        popup_panes@.len() == 3,
    ensures
        regions.title == bands@[0],
        regions.search == bands@[1],
        regions.footer == bands@[3],
        regions.list == panes@[0],
        regions.preview == panes@[1],
        regions.popup == popup_panes@[1],
{
    ScreenLayout {
        title: bands[0],
        search: bands[1],
        list: panes[0],
        preview: panes[1],
        footer: bands[3],
        popup: popup_panes[1],
    }
}

/// Divides `area` into the regions of the interface. The solver is asked
/// for the bands of [`screen_rows`], for the panes of [`content_columns`]
/// within the third band, and for the prompt for the middle pane of
/// [`popup_columns`] within the middle band of [`popup_rows`];
/// [`regions_of`] says which part becomes which region.
///
/// Every region lies inside `area`. On an area of six lines or more the
/// title is its first line, the search box the three below, the footer its
/// last line, and list and preview share what is between. They stand side by
/// side over the whole width, the list on 70 percent of it to within a cell.
/// The prompt has 20 percent of the width to its left and takes 60, each to
/// within a cell; on an area of fifteen lines or more it is three lines high
/// below 40 percent of the height. On smaller areas the solver has to give
/// way somewhere, and where is its own matter.
pub fn screen_layout(area: Rect) -> (regions: ScreenLayout)
    ensures
        regions.title.lies_within(area),
        regions.search.lies_within(area),
        regions.list.lies_within(area),
        regions.preview.lies_within(area),
        regions.footer.lies_within(area),
        regions.popup.lies_within(area),
        regions.title.x == area.x && regions.title.width == area.width,
        regions.search.x == area.x && regions.search.width == area.width,
        regions.footer.x == area.x && regions.footer.width == area.width,
        regions.list.y == regions.preview.y,
        regions.list.height == regions.preview.height,
        area.in_grid() && area.height >= 6 ==> {
            &&& regions.title.y == area.y && regions.title.height == 1
            &&& regions.search.y == area.y + 1 && regions.search.height == 3
            &&& regions.list.y == area.y + 4 && regions.list.height == area.height - 5
            &&& regions.footer.y == area.y + area.height - 1 && regions.footer.height == 1
        },
        area.in_grid() ==> {
            &&& regions.list.x == area.x
            &&& regions.preview.x == regions.list.x + regions.list.width
            &&& regions.list.width + regions.preview.width == area.width
            &&& -100 <= 100 * regions.list.width - 70 * area.width <= 100
        },
        area.in_grid() ==> {
            &&& -100 <= 100 * (regions.popup.x - area.x) - 20 * area.width <= 100
            &&& -100 <= 100 * regions.popup.width - 60 * area.width <= 100
        },
        area.in_grid() && area.height >= 15 ==> {
            &&& regions.popup.height == 3
            &&& -100 <= 100 * (regions.popup.y - area.y) - 40 * area.height <= 100
        },
{
    let rows = screen_rows();
    let columns = content_columns();
    let prompt_rows = popup_rows();
    let prompt_columns = popup_columns();
    let bands = split(Direction::Vertical, &rows, area);
    let panes = split(Direction::Horizontal, &columns, bands[2]);
    let popup_bands = split(Direction::Vertical, &prompt_rows, area);
    let popup_panes = split(Direction::Horizontal, &prompt_columns, popup_bands[1]);
    proof {
        assert(bands@[2].lies_within(area));
        assert(popup_bands@[1].lies_within(area));
        assert(panes@[0].lies_within(bands@[2]) && panes@[1].lies_within(bands@[2]));
        assert(popup_panes@[1].lies_within(popup_bands@[1]));
        reveal_with_fuel(total_demand, 5);
        reveal_with_fuel(min_count, 5);
        if area.in_grid() {
            let across = Direction::Horizontal;
            let down = Direction::Vertical;
            assert(bands@[2].span(across) == area.width);
            assert(popup_bands@[1].span(across) == area.width);
            assert(area.span(down) == area.height);
            assert(total_demand(columns@, area.width as int) == 100 * area.width);
            assert(total_demand(prompt_columns@, area.width as int) == 100 * area.width);
            assert(demands_fit(columns@, bands@[2].span(across)));
            assert(demands_fit(prompt_columns@, popup_bands@[1].span(across)));
            assert(laid_out(panes@, columns@, bands@[2], across));
            assert(laid_out(popup_panes@, prompt_columns@, popup_bands@[1], across));
            assert(meets(columns@[0], panes@[0].length(across), area.width as int));
            assert(panes@[1].start(across) == panes@[0].start(across) + panes@[0].length(across));
            assert(panes@.last() == panes@[1]);
            assert(meets(prompt_columns@[0], popup_panes@[0].length(across), area.width as int));
            assert(meets(prompt_columns@[1], popup_panes@[1].length(across), area.width as int));
            assert(popup_panes@[1].start(across) == popup_panes@[0].start(across)
                + popup_panes@[0].length(across));
            if area.height >= 6 {
                assert(total_demand(rows@, area.height as int) == 600);
                assert(min_count(rows@) == 1);
                assert(demands_fit(rows@, area.span(down)));
                assert(laid_out(bands@, rows@, area, down));
                assert(meets(rows@[0], bands@[0].length(down), area.height as int));
                assert(meets(rows@[1], bands@[1].length(down), area.height as int));
                assert(meets(rows@[3], bands@[3].length(down), area.height as int));
                assert(bands@[1].start(down) == bands@[0].start(down) + bands@[0].length(down));
                assert(bands@[2].start(down) == bands@[1].start(down) + bands@[1].length(down));
                assert(bands@[3].start(down) == bands@[2].start(down) + bands@[2].length(down));
                assert(bands@.last() == bands@[3]);
            }
            if area.height >= 15 {
                assert(total_demand(prompt_rows@, area.height as int) == 80 * area.height + 300);
                assert(min_count(prompt_rows@) == 0);
                assert(demands_fit(prompt_rows@, area.span(down)));
                assert(laid_out(popup_bands@, prompt_rows@, area, down));
                assert(meets(prompt_rows@[0], popup_bands@[0].length(down), area.height as int));
                assert(meets(prompt_rows@[1], popup_bands@[1].length(down), area.height as int));
                assert(popup_bands@[1].start(down) == popup_bands@[0].start(down)
                    + popup_bands@[0].length(down));
            }
        }
    }
    regions_of(&bands, &panes, &popup_panes)
}

} // verus!
