//! Placement of pop-up boxes on the terminal screen.

use vstd::prelude::*;
use ratatui::layout::{Constraint, Direction, Layout, Rect};

verus! {

/// A rectangle of terminal cells.
#[derive(Clone, Copy, Debug, PartialEq, Eq, Structural)]
pub struct Area {
    pub x: u16,
    pub y: u16,
    pub width: u16,
    pub height: u16,
}

/// How much room one part of a split asks for.
#[derive(Clone, Copy, Debug, PartialEq, Eq, Structural)]
pub enum Span {
    /// Exactly this many cells.
    Length(u16),
    /// At least this many cells.
    Min(u16),
}

/// Whether `part` lies inside `area` along the split direction and spans
/// `area` across it: a row of a vertical split has the area's `x` and
/// `width`, a column of a horizontal split its `y` and `height`.
pub open spec fn part_of(area: Area, vertical: bool, part: Area) -> bool {
    if vertical {
        &&& part.x == area.x
        &&& part.width == area.width
        &&& area.y <= part.y
        &&& part.y + part.height <= area.y + area.height
    } else {
        &&& part.y == area.y
        &&& part.height == area.height
        &&& area.x <= part.x
        &&& part.x + part.width <= area.x + area.width
    }
}

/// Whether `inner` lies inside `outer`.
pub open spec fn inside(inner: Area, outer: Area) -> bool {
    &&& outer.x <= inner.x
    &&& inner.x + inner.width <= outer.x + outer.width
    &&& outer.y <= inner.y
    &&& inner.y + inner.height <= outer.y + outer.height
}

/// The cells a span asks for.
pub open spec fn span_cells(s: Span) -> int {
    match s {
        Span::Length(n) => n as int,
        Span::Min(n) => n as int,
    }
}

/// The cells the first `n` spans ask for together.
pub open spec fn cells_before(spans: Seq<Span>, n: int) -> int
    decreases n,
{
    if n <= 0 {
        0
    } else {
        cells_before(spans, n - 1) + span_cells(spans[n - 1])
    }
}

/// Where a split along `vertical` starts in `area`.
pub open spec fn split_start(area: Area, vertical: bool) -> int {
    if vertical {
        area.y as int
    } else {
        area.x as int
    }
}

/// How many cells `area` has along the split.
pub open spec fn split_extent(area: Area, vertical: bool) -> int {
    if vertical {
        area.height as int
    } else {
        area.width as int
    }
}

/// The part of `area` from `start` for `size` cells along the split.
pub open spec fn part_at(area: Area, vertical: bool, start: int, size: int) -> Area {
    if vertical {
        Area { x: area.x, y: start as u16, width: area.width, height: size as u16 }
    } else {
        Area { x: start as u16, y: area.y, width: size as u16, height: area.height }
    }
}

/// The spans are lengths followed by one final minimum, and together they
/// fit in `area` along the split, which ends within the screen's range.
pub open spec fn stacks_in(area: Area, vertical: bool, spans: Seq<Span>) -> bool {
    &&& spans.len() > 0
    &&& spans.last() is Min
    &&& forall|i: int| 0 <= i < spans.len() - 1 ==> #[trigger] spans[i] is Length
    &&& cells_before(spans, spans.len() as int) <= split_extent(area, vertical)
    &&& split_start(area, vertical) + split_extent(area, vertical) <= u16::MAX
}

/// Splits `area` into one part per span (ratatui's `Layout::split`, with
/// its default `Flex::Start` and no margin or spacing), top to bottom when
/// `vertical`, else left to right. The contract states:
/// - one segment per constraint;
/// - required constraints keep both ends of every segment within the area,
///   and `changes_to_rects` rounds them to cells and gives each part the
///   area's extent across the split;
/// - when the spans are lengths then one final minimum that fit, the
///   solver's optimum is unique: the spacers are empty (required-strength
///   constraints), each length holds (strong), the minimum grows to fill
///   the rest (medium, above the last spacer's growth), so the parts follow
///   one another from the area's start.
/// Where the parts lie when the spans do not fit is left unsaid, since the
/// solver may then settle ties differently from one process to the next.
#[verifier::external_body]
fn split_area(area: Area, vertical: bool, spans: &Vec<Span>) -> (r: Vec<Area>)
    ensures
        r@.len() == spans@.len(),
        forall|i: int| 0 <= i < r@.len() ==> part_of(area, vertical, #[trigger] r@[i]),
        stacks_in(area, vertical, spans@) ==> forall|i: int|
            0 <= i < r@.len() ==> #[trigger] r@[i] == part_at(
                area,
                vertical,
                split_start(area, vertical) + cells_before(spans@, i),
                if i < r@.len() - 1 {
                    span_cells(spans@[i])
                } else {
                    split_extent(area, vertical) - cells_before(spans@, i)
                },
            ),
{
    let direction = if vertical { Direction::Vertical } else { Direction::Horizontal };
    let constraints = spans.iter().map(|s| match *s {
        Span::Length(n) => Constraint::Length(n),
        Span::Min(n) => Constraint::Min(n),
    });
    let rect = Rect { x: area.x, y: area.y, width: area.width, height: area.height };
    let parts = Layout::default().direction(direction).constraints(constraints).split(rect);
    parts.iter().map(|p| Area { x: p.x, y: p.y, width: p.width, height: p.height }).collect()
}

/// The parts around a box of `size` cells centred in `total` cells: half
/// the free room, the box, and the rest.
pub open spec fn centring_spans(total: u16, size: u16) -> Seq<Span> {
    seq![
        Span::Length((if total >= size { (total - size) / 2 } else { 0 }) as u16),
        Span::Length(size),
        Span::Min(0),
    ]
}

/// The three spans that centre `size` cells in `total` cells.
pub fn centring(total: u16, size: u16) -> (r: Vec<Span>)
    ensures
        r@ == centring_spans(total, size),
{
    let free = total.saturating_sub(size);
    let r = vec![Span::Length(free / 2), Span::Length(size), Span::Min(0)];
    assert(r@ =~= centring_spans(total, size));
    r
}

/// The box of `w` by `h` cells centred in `r`, half the free room before it
/// on each axis.
pub open spec fn centred_box(r: Area, w: u16, h: u16) -> Area {
    Area {
        x: (r.x + (r.width - w) / 2) as u16,
        y: (r.y + (r.height - h) / 2) as u16,
        width: w,
        height: h,
    }
}

/// A box of `w` by `h` cells centred in `r`: the middle row of a split of
/// `r` by `centring(r.height, h)`, then the middle column of that row split
/// by `centring(r.width, w)`. The box always lies inside `r`; when it fits
/// (and `r` ends within the screen's range) it is exactly centred. Where a
/// box larger than `r` goes is not stated (see `split_area`).
pub fn center_rect(r: Area, w: u16, h: u16) -> (c: Area)
    ensures
        inside(c, r),
        w <= r.width && h <= r.height && r.x + r.width <= u16::MAX && r.y + r.height
            <= u16::MAX ==> c == centred_box(r, w, h),
{
    let vs = centring(r.height, h);
    let rows = split_area(r, true, &vs);
    let row = rows[1];
    let hs = centring(r.width, w);
    let cols = split_area(row, false, &hs);
    proof {
        reveal_with_fuel(cells_before, 4);
        if w <= r.width && h <= r.height && r.x + r.width <= u16::MAX && r.y + r.height
            <= u16::MAX {
            assert(stacks_in(r, true, vs@));
            assert(rows@[1] == part_at(r, true, r.y + cells_before(vs@, 1), span_cells(vs@[1])));
            assert(stacks_in(row, false, hs@));
            assert(cols@[1] == part_at(row, false, row.x + cells_before(hs@, 1), span_cells(hs@[1])));
        }
    }
    cols[1]
}

} // verus!
