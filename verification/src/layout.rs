//! Rectangles of the screen and how one is divided into two.

use tui::layout as tui_layout;
use vstd::prelude::*;

verus! {

/// A rectangle of character cells.
#[derive(Clone, Copy, Debug, PartialEq, Eq, Structural)]
pub struct Area {
    pub x: u16,
    pub y: u16,
    pub width: u16,
    pub height: u16,
}

impl Area {
    /// The right and the bottom edge have coordinates.
    pub open spec fn wf(self) -> bool {
        &&& self.x + self.width <= u16::MAX
        &&& self.y + self.height <= u16::MAX
    }

    /// Whether the right and the bottom edge have coordinates.
    pub fn valid(self) -> (r: bool)
        ensures
            r == self.wf(),
    {
        self.width <= u16::MAX - self.x && self.height <= u16::MAX - self.y
    }

    /// Whether the cell at (`x`, `y`) lies in the rectangle.
    pub open spec fn covers(self, x: int, y: int) -> bool {
        &&& self.x <= x < self.x + self.width
        &&& self.y <= y < self.y + self.height
    }
}

/// Whether parts stand side by side or one below the other.
#[derive(Clone, Copy, Debug, PartialEq, Eq, Structural)]
pub enum Direction {
    Horizontal,
    Vertical,
}

/// What a part of a division asks for.
#[derive(Clone, Copy, Debug, PartialEq, Eq, Structural)]
pub enum Constraint {
    Length(u16),
    Percentage(u16),
    Min(u16),
}

/// The extent of `area` along `direction`.
pub open spec fn extent(direction: Direction, area: Area) -> u16 {
    match direction {
        Direction::Horizontal => area.width,
        Direction::Vertical => area.height,
    }
}

/// The smaller of two numbers.
pub open spec fn least(a: int, b: int) -> int {
    if a < b {
        a
    } else {
        b
    }
}

/// The divisions in use: one part asks for something, and the other takes what
/// is left.
pub open spec fn divisible(first: Constraint, second: Constraint, extent: int) -> bool {
    match (first, second) {
        (Constraint::Length(_), Constraint::Min(rest)) => rest == 0,
        (Constraint::Min(rest), Constraint::Length(_)) => rest == 0,
        (Constraint::Percentage(share), Constraint::Min(rest)) => {
            rest == 0 && share <= 100 && share * extent <= u16::MAX
        },
        _ => false,
    }
}

/// How much of `extent` the first part gets. What does not fit is cut.
pub open spec fn first_share(first: Constraint, second: Constraint, extent: int) -> int {
    match (first, second) {
        (Constraint::Length(n), _) => least(n as int, extent),
        (_, Constraint::Length(n)) => extent - least(n as int, extent),
        (Constraint::Percentage(share), _) => share * extent / 100,
        _ => 0,
    }
}

/// The first `n` columns or rows of `area`.
pub open spec fn head(direction: Direction, area: Area, n: int) -> Area {
    match direction {
        Direction::Horizontal => Area { width: n as u16, ..area },
        Direction::Vertical => Area { height: n as u16, ..area },
    }
}

/// `area` without its first `n` columns or rows.
pub open spec fn tail(direction: Direction, area: Area, n: int) -> Area {
    match direction {
        Direction::Horizontal => Area {
            x: (area.x + n) as u16,
            width: (area.width - n) as u16,
            ..area
        },
        Direction::Vertical => Area {
            y: (area.y + n) as u16,
            height: (area.height - n) as u16,
            ..area
        },
    }
}

/// The four numbers of a rectangle.
pub open spec fn corners(area: Area) -> (u16, u16, u16, u16) {
    (area.x, area.y, area.width, area.height)
}

/// Calls `tui::layout::Layout::split` on a layout without margin and with two
/// constraints. Where one part asks for a length or a percentage and the other
/// for at least nothing, the solver gives the first part its share of the
/// extent, as far as it fits, and the last part all that remains; the extent
/// across stays. A percentage is rounded down.
#[verifier::external_body]
fn layout_split(direction: Direction, first: Constraint, second: Constraint, area: Area) -> (r: Vec<
    (u16, u16, u16, u16),
>)
    requires
        area.wf(),
        divisible(first, second, extent(direction, area) as int),
    ensures
        ({
            let n = first_share(first, second, extent(direction, area) as int);
            r@ == seq![corners(head(direction, area, n)), corners(tail(direction, area, n))]
        }),
{
    let constraint = |c: Constraint| match c {
        Constraint::Length(n) => tui_layout::Constraint::Length(n),
        Constraint::Percentage(n) => tui_layout::Constraint::Percentage(n),
        Constraint::Min(n) => tui_layout::Constraint::Min(n),
    };
    let way = match direction {
        Direction::Horizontal => tui_layout::Direction::Horizontal,
        Direction::Vertical => tui_layout::Direction::Vertical,
    };
    let rect = tui_layout::Rect { x: area.x, y: area.y, width: area.width, height: area.height };
    let wishes = vec![constraint(first), constraint(second)];
    let parts = tui_layout::Layout::default().direction(way).constraints(wishes).split(rect);
    parts.iter().map(|p| (p.x, p.y, p.width, p.height)).collect()
}

/// Divides `area` along `direction`.
pub fn split(direction: Direction, first: Constraint, second: Constraint, area: Area) -> (r: (
    Area,
    Area,
))
    requires
        area.wf(),
        divisible(first, second, extent(direction, area) as int),
    ensures
        ({
            let n = first_share(first, second, extent(direction, area) as int);
            r == (head(direction, area, n), tail(direction, area, n))
        }),
        0 <= first_share(first, second, extent(direction, area) as int) <= extent(direction, area),
        r.0.wf(),
        r.1.wf(),
{
    let parts = layout_split(direction, first, second, area);
    proof {
        lemma_share_fits(first, second, extent(direction, area) as int);
    }
    (
        Area { x: parts[0].0, y: parts[0].1, width: parts[0].2, height: parts[0].3 },
        Area { x: parts[1].0, y: parts[1].1, width: parts[1].2, height: parts[1].3 },
    )
}

/// Cuts the first `lines` rows off `area`.
pub fn cut_rows(area: Area, lines: u16) -> (r: (Area, Area))
    requires
        area.wf(),
    ensures
        r.0 == head(Direction::Vertical, area, least(lines as int, area.height as int)),
        r.1 == tail(Direction::Vertical, area, least(lines as int, area.height as int)),
        r.0.wf(),
        r.1.wf(),
{
    split(Direction::Vertical, Constraint::Length(lines), Constraint::Min(0), area)
}

proof fn lemma_share_fits(first: Constraint, second: Constraint, extent: int)
    requires
        extent >= 0,
        divisible(first, second, extent),
    ensures
        0 <= first_share(first, second, extent) <= extent,
{
    if let Constraint::Percentage(share) = first {
        assert(0 <= share * extent / 100 <= extent) by (nonlinear_arith)
            requires
                0 <= share <= 100,
                extent >= 0,
        ;
    }
}

/// A division neither loses nor doubles a cell: each cell of the area lies in
/// exactly one of the two parts, and the parts hold no other cell.
pub proof fn law_split_tiles(
    direction: Direction,
    first: Constraint,
    second: Constraint,
    area: Area,
    x: int,
    y: int,
)
    requires
        area.wf(),
        divisible(first, second, extent(direction, area) as int),
    ensures
        ({
            let n = first_share(first, second, extent(direction, area) as int);
            let one = head(direction, area, n).covers(x, y);
            let other = tail(direction, area, n).covers(x, y);
            area.covers(x, y) <==> (one != other)
        }),
        ({
            let n = first_share(first, second, extent(direction, area) as int);
            !(head(direction, area, n).covers(x, y) && tail(direction, area, n).covers(x, y))
        }),
{
    lemma_share_fits(first, second, extent(direction, area) as int);
}

/// The sides of a block that show a border.
#[derive(Clone, Copy, Debug, PartialEq, Eq, Structural)]
pub struct Edges {
    pub top: bool,
    pub right: bool,
    pub bottom: bool,
    pub left: bool,
}

/// One cell where `edge` is drawn.
pub open spec fn thickness(edge: bool) -> int {
    if edge {
        1
    } else {
        0
    }
}

/// What a titled block with `edges` leaves of `area` for its content: the title
/// takes the first row, each other edge its row or column. A block needs two
/// rows and two columns.
pub open spec fn inside(edges: Edges, area: Area) -> Area {
    if area.width < 2 || area.height < 2 {
        Area { x: 0, y: 0, width: 0, height: 0 }
    } else {
        Area {
            x: (area.x + thickness(edges.left)) as u16,
            y: (area.y + 1) as u16,
            width: (area.width - thickness(edges.left) - thickness(edges.right)) as u16,
            height: (area.height - 1 - thickness(edges.bottom)) as u16,
        }
    }
}

/// Calls `tui::widgets::Block::inner` on a block with a title. The title counts
/// as a top border, whatever it says.
#[verifier::external_body]
fn block_inner(edges: Edges, title: &str, area: Area) -> (r: (u16, u16, u16, u16))
    requires
        area.wf(),
    ensures
        r == corners(inside(edges, area)),
{
    let mut borders = tui::widgets::Borders::empty();
    borders.set(tui::widgets::Borders::TOP, edges.top);
    borders.set(tui::widgets::Borders::RIGHT, edges.right);
    borders.set(tui::widgets::Borders::BOTTOM, edges.bottom);
    borders.set(tui::widgets::Borders::LEFT, edges.left);
    let rect = tui_layout::Rect { x: area.x, y: area.y, width: area.width, height: area.height };
    let inner = tui::widgets::Block::default().borders(borders).title(title).inner(rect);
    (inner.x, inner.y, inner.width, inner.height)
}

/// The area inside a block with `title` and `edges` drawn over `area`.
pub fn inner_area(edges: Edges, title: &str, area: Area) -> (r: Area)
    requires
        area.wf(),
    ensures
        r == inside(edges, area),
        r.wf(),
{
    let inner = block_inner(edges, title, area);
    Area { x: inner.0, y: inner.1, width: inner.2, height: inner.3 }
}

} // verus!
