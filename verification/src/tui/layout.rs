//! The layout of the screen: areas, and how they are split (the splitting is
//! `ratatui`'s constraint solver).

use vstd::prelude::*;
use ratatui::layout::{Constraint, Direction, Layout, Rect};

verus! {

/// A rectangle of the terminal: its top-left cell and its size.
#[derive(Clone, Copy, Debug, PartialEq, Eq, Structural)]
pub struct Area {
    pub x: u16,
    pub y: u16,
    pub width: u16,
    pub height: u16,
}

/// How big a part of a split should be.
#[derive(Clone, Copy, Debug, PartialEq, Eq, Structural)]
pub enum Size {
    /// Exactly this many cells.
    Length(u16),
    /// At least this many cells.
    Min(u16),
    /// A share of what is left, in this proportion.
    Fill(u16),
    /// This percentage of the whole.
    Percentage(u16),
}

/// The parts `ratatui` splits `area` into, one per size, top to bottom when
/// `vertical`, else left to right.
pub uninterp spec fn split_areas(area: Area, vertical: bool, sizes: Seq<Size>) -> Seq<Area>;

/// Split an area (`ratatui::layout::Layout::split`): one part per size.
#[verifier::external_body]
fn split(area: Area, vertical: bool, sizes: &Vec<Size>) -> (r: Vec<Area>)
    ensures
        r@ == split_areas(area, vertical, sizes@),
        r@.len() == sizes@.len(),
{
    let cs: Vec<Constraint> = sizes.iter().map(|s| match *s {
        Size::Length(n) => Constraint::Length(n),
        Size::Min(n) => Constraint::Min(n),
        Size::Fill(n) => Constraint::Fill(n),
        Size::Percentage(n) => Constraint::Percentage(n),
    }).collect();
    let dir = if vertical { Direction::Vertical } else { Direction::Horizontal };
    let parts = Layout::default().direction(dir).constraints(cs).split(Rect::new(area.x, area.y, area.width, area.height));
    parts.iter().map(|r| Area { x: r.x, y: r.y, width: r.width, height: r.height }).collect()
}

/// The sizes of the screen's rows: header and rule, content, ask bar, navigation.
pub open spec fn screen_rows() -> Seq<Size> {
    seq![Size::Length(2), Size::Min(1), Size::Length(1), Size::Length(1)]
}

/// The screen's four rows: the header with its rule (two rows), the content
/// (at least one row), the ask bar and the navigation line (one row each).
pub fn app_layout(area: Area) -> (r: (Area, Area, Area, Area))
    ensures
        ({
            let p = split_areas(area, true, screen_rows());
            r == (p[0], p[1], p[2], p[3])
        }),
{
    let mut sizes: Vec<Size> = Vec::new();
    sizes.push(Size::Length(2));
    sizes.push(Size::Min(1));
    sizes.push(Size::Length(1));
    sizes.push(Size::Length(1));
    assert(sizes@ =~= screen_rows());
    let p = split(area, true, &sizes);
    (p[0], p[1], p[2], p[3])
}

/// A centred part of `area`, `percent_x` percent of its width and
/// `percent_y` percent of its height (rounded down), with equal room on
/// either side.
pub fn centered_rect(area: Area, percent_x: u16, percent_y: u16) -> (r: Area)
    requires
        area.height * percent_y <= u16::MAX,
        area.width * percent_x <= u16::MAX,
    ensures
        ({
            let rows = split_areas(area, true,
                seq![Size::Fill(1), Size::Length(((area.height * percent_y) / 100) as u16), Size::Fill(1)]);
            r == split_areas(rows[1], false,
                seq![Size::Fill(1), Size::Length(((area.width * percent_x) / 100) as u16), Size::Fill(1)])[1]
        }),
{
    let h = (area.height * percent_y) / 100;
    let w = (area.width * percent_x) / 100;
    let mut rows: Vec<Size> = Vec::new();
    rows.push(Size::Fill(1));
    rows.push(Size::Length(h));
    rows.push(Size::Fill(1));
    let py = split(area, true, &rows);
    let mut cols: Vec<Size> = Vec::new();
    cols.push(Size::Fill(1));
    cols.push(Size::Length(w));
    cols.push(Size::Fill(1));
    let px = split(py[1], false, &cols);
    assert(rows@ =~= seq![Size::Fill(1), Size::Length(h), Size::Fill(1)]);
    assert(cols@ =~= seq![Size::Fill(1), Size::Length(w), Size::Fill(1)]);
    px[1]
}

/// The feed view's columns: a quarter for the feeds, the rest for the articles.
pub fn feed_columns(area: Area) -> (r: (Area, Area))
    ensures
        ({
            let p = split_areas(area, false, seq![Size::Percentage(25), Size::Percentage(75)]);
            r == (p[0], p[1])
        }),
{
    let mut sizes: Vec<Size> = Vec::new();
    sizes.push(Size::Percentage(25));
    sizes.push(Size::Percentage(75));
    assert(sizes@ =~= seq![Size::Percentage(25), Size::Percentage(75)]);
    let p = split(area, false, &sizes);
    (p[0], p[1])
}

} // verus!
