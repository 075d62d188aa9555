use ratatui::layout::{Constraint, Direction, Layout, Rect};

use vstd::prelude::*;

verus! {

/// A part of the screen.
#[derive(Clone, Copy, Debug, PartialEq, Eq, Structural)]
pub struct ScreenArea {
    pub x: u16,
    pub y: u16,
    pub width: u16,
    pub height: u16,
}

/// How much of an area a part takes.
#[derive(Clone, Copy, Debug, PartialEq, Eq, Structural)]
pub enum Extent {
    /// So many cells.
    Exactly { cells: u16 },
    /// So many cells, or more.
    AtLeast { cells: u16 },
    /// A share of the whole.
    Share { percent: u16 },
}

/// Which way an area is divided.
#[derive(Clone, Copy, Debug, PartialEq, Eq, Structural)]
pub enum Axis {
    /// From top to bottom.
    Rows,
    /// From left to right.
    Columns,
}

/// Where the parts of the screen stand.
#[derive(Clone, Copy, Debug, PartialEq, Eq, Structural)]
pub struct FrameAreas {
    /// The top line, which holds the title and the time.
    pub header: ScreenArea,
    pub title: ScreenArea,
    pub time: ScreenArea,
    pub guide: ScreenArea,
    pub table: ScreenArea,
}

/// The heights of the header, the guide and the table.
pub open spec fn frame_rows() -> Seq<Extent> {
    seq![
        Extent::Exactly { cells: 1 },
        Extent::Exactly { cells: 2 },
        Extent::AtLeast { cells: 10 },
    ]
}

/// The widths of the title and the time in the header.
pub open spec fn header_columns() -> Seq<Extent> {
    seq![Extent::Share { percent: 70 }, Extent::Share { percent: 30 }]
}

/// The cells of a stretch that lie on the screen, whose coordinates end at the
/// largest number of their width.
pub open spec fn visible(start: u16, size: u16) -> int {
    if start + size <= u16::MAX {
        size as int
    } else {
        u16::MAX - start
    }
}

/// Seven tenths of a width, to the nearest cell; a half goes up.
pub open spec fn title_width(width: int) -> int {
    (7 * width + 5) / 10
}

/// The heights of the header, the guide and the table. The table gets its ten
/// rows first, then the header its one and the guide its two, and the table the
/// rest.
pub open spec fn row_heights(height: int) -> (int, int, int) {
    if height <= 10 {
        (0, 0, height)
    } else if height == 11 {
        (1, 0, 10)
    } else if height == 12 {
        (1, 1, 10)
    } else {
        (1, 2, height - 3)
    }
}

/// Whether the rows of an area are those of the header, the guide and the table:
/// each as wide as the area, one below the other, from its top to its end.
pub open spec fn are_frame_rows(rows: Seq<ScreenArea>, area: ScreenArea) -> bool {
    let height = visible(area.y, area.height);
    let heights = row_heights(height);
    &&& rows.len() == 3
    &&& forall|i: int|
        0 <= i < 3 ==> (#[trigger] rows[i]).x == area.x && rows[i].width == area.width
    &&& rows[0].y == area.y && rows[0].height == heights.0
    &&& rows[1].y == rows[0].y + rows[0].height && rows[1].height == heights.1
    &&& rows[2].y == rows[1].y + rows[1].height && rows[2].height == heights.2
    &&& rows[2].y + rows[2].height == area.y + height
}

/// Whether the columns of an area are those of the title and the time: each as
/// high as the area, side by side, from its left side to its end.
pub open spec fn are_header_columns(columns: Seq<ScreenArea>, area: ScreenArea) -> bool {
    let width = visible(area.x, area.width);
    &&& columns.len() == 2
    &&& forall|i: int|
        0 <= i < 2 ==> (#[trigger] columns[i]).y == area.y && columns[i].height == area.height
    &&& columns[0].x == area.x && columns[0].width == title_width(width)
    &&& columns[1].x == columns[0].x + columns[0].width
    &&& columns[1].x + columns[1].width == area.x + width
}

/// Whether the parts of the screen are its rows, with the first divided into the
/// title and the time.
pub open spec fn is_frame_layout(areas: FrameAreas, screen: ScreenArea) -> bool {
    &&& are_frame_rows(seq![areas.header, areas.guide, areas.table], screen)
    &&& are_header_columns(seq![areas.title, areas.time], areas.header)
}

/// Has `ratatui::layout::Layout::split` divide an area.
///
/// What is claimed, of the two divisions that the screen needs: there is a part
/// for each extent; across the division every part is as large as the area; and
/// along it the parts follow one another without a gap, from the start of the area
/// to its end, which does not pass the largest coordinate. A minimum of rows comes
/// before exact numbers of rows, and what is left over goes to the minimum; of two
/// exact numbers that do not both fit, the first comes before the second. Columns
/// end at the nearest cell to their share.
#[verifier::external_body]
fn split_area(area: ScreenArea, axis: Axis, extents: &[Extent]) -> (parts: Vec<ScreenArea>)
    requires
        match axis {
            Axis::Rows => extents@ == frame_rows(),
            Axis::Columns => extents@ == header_columns(),
        },
    ensures
        axis is Rows ==> are_frame_rows(parts@, area),
        axis is Columns ==> are_header_columns(parts@, area),
{
    let direction = match axis {
        Axis::Rows => Direction::Vertical,
        Axis::Columns => Direction::Horizontal,
    };
    let constraints = extents.iter().map(|extent| match *extent {
        Extent::Exactly { cells } => Constraint::Length(cells),
        Extent::AtLeast { cells } => Constraint::Min(cells),
        Extent::Share { percent } => Constraint::Percentage(percent),
    });
    let whole = Rect { x: area.x, y: area.y, width: area.width, height: area.height };
    let parts = Layout::default().direction(direction).constraints(constraints).split(whole);
    parts.iter().map(|p| ScreenArea { x: p.x, y: p.y, width: p.width, height: p.height }).collect()
}

/// Divides the screen into its parts.
pub fn frame_areas(screen: ScreenArea) -> (areas: FrameAreas)
    ensures
        is_frame_layout(areas, screen),
{
    let rows: [Extent; 3] = [
        Extent::Exactly { cells: 1 },
        Extent::Exactly { cells: 2 },
        Extent::AtLeast { cells: 10 },
    ];
    let columns: [Extent; 2] = [Extent::Share { percent: 70 }, Extent::Share { percent: 30 }];
    assert(rows@ =~= frame_rows());
    assert(columns@ =~= header_columns());
    let parts: Vec<ScreenArea> = split_area(screen, Axis::Rows, rows.as_slice());
    let header: ScreenArea = parts[0];
    let line: Vec<ScreenArea> = split_area(header, Axis::Columns, columns.as_slice());
    let areas = FrameAreas {
        header,
        title: line[0],
        time: line[1],
        guide: parts[1],
        table: parts[2],
    };
    proof {
        assert(parts@ =~= seq![header, areas.guide, areas.table]);
        assert(line@ =~= seq![areas.title, areas.time]);
    }
    areas
}

/// The parts fill the screen without a gap or an overlap: the title on the upper
/// left and the time beside it, the guide below them, and the table below that,
/// down to the end. The title has seven tenths of the width, to the nearest cell.
/// The header has one row and the guide two where the table still gets ten.
pub proof fn law_parts_fill_the_screen(areas: FrameAreas, screen: ScreenArea)
    requires
        is_frame_layout(areas, screen),
        screen.x + screen.width <= u16::MAX,
        screen.y + screen.height <= u16::MAX,
    ensures
        areas.title.x == screen.x && areas.title.y == screen.y,
        areas.time.x == areas.title.x + areas.title.width && areas.time.y == screen.y,
        areas.time.x + areas.time.width == screen.x + screen.width,
        areas.time.height == areas.title.height,
        -5 <= 7 * screen.width - 10 * areas.title.width < 5,
        areas.guide.x == screen.x && areas.guide.width == screen.width,
        areas.guide.y == areas.title.y + areas.title.height,
        areas.table.x == screen.x && areas.table.width == screen.width,
        areas.table.y == areas.guide.y + areas.guide.height,
        areas.table.y + areas.table.height == screen.y + screen.height,
        screen.height >= 13 ==> areas.title.height == 1 && areas.guide.height == 2,
        screen.height >= 10 ==> areas.table.height >= 10,
        screen.height < 10 ==> areas.table.height == screen.height,
{
    let rows = seq![areas.header, areas.guide, areas.table];
    let columns = seq![areas.title, areas.time];
    assert(rows[0] == areas.header && rows[1] == areas.guide && rows[2] == areas.table);
    assert(columns[0] == areas.title && columns[1] == areas.time);
}

} // verus!
