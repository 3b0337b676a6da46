//! The canvas: the visible window of the day, the grid, and the mapping from
//! clock values to columns.

use vstd::prelude::*;
use vstd::arithmetic::div_mod::*;
use vstd::arithmetic::mul::*;
use crate::block::Block;
use crate::time_of_day::{StepType, TimeOfDay};

verus! {

/// Why a canvas, a block or a frame could not be made.
#[derive(Clone, Copy, Debug, PartialEq, Eq, Structural)]
pub enum LayoutError {
    /// The visible window does not end after it starts.
    InvalidWindow,
    /// The grid has no columns.
    ZeroWidth,
    /// An event does not end after it starts.
    InvalidInterval,
    /// A clock value lies outside the visible window.
    OutOfWindow,
    /// A block found no free lane among those that can be numbered.
    LaneOverflow,
    /// A frame was asked for without any block.
    NoBlocks,
    /// A label is longer than its block is wide.
    LabelTooWide,
}

/// How many minutes one column stands for: the visible minutes divided by
/// the number of columns, rounded up.
pub open spec fn minutes_per_column(span: int, width: int) -> int {
    if span % width == 0 {
        span / width
    } else {
        span / width + 1
    }
}

/// The column of the minute that lies `offset` minutes after the start of a
/// window of `span` minutes, on a grid of `width` columns.
pub open spec fn column_of(offset: int, span: int, width: int) -> int {
    offset / minutes_per_column(span, width)
}

/// The number of ticks at distance `step` over `span` minutes: one at the
/// start, and one after every whole step.
pub open spec fn ticks_over(step: StepType, span: int) -> int {
    span / step.minutes() + 1
}

/// Whether the ticks at distance `step` over `span` minutes are no more than
/// a sixth of the `width` columns, so that each label has six columns.
pub open spec fn ticks_fit(step: StepType, span: int, width: int) -> bool {
    ticks_over(step, span) <= width / 6
}

/// The distances between ticks that a grid may use, finest first.
pub open spec fn tick_candidates() -> Seq<StepType> {
    seq![
        StepType::Minute(15),
        StepType::Minute(30),
        StepType::Hour(1),
        StepType::Hour(2),
        StepType::Hour(3),
    ]
}

/// The distance between ticks for `span` minutes on `width` columns: the
/// first candidate that fits, and the last one if none does.
pub open spec fn tick_step(span: int, width: int) -> StepType {
    if ticks_fit(StepType::Minute(15), span, width) {
        StepType::Minute(15)
    } else if ticks_fit(StepType::Minute(30), span, width) {
        StepType::Minute(30)
    } else if ticks_fit(StepType::Hour(1), span, width) {
        StepType::Hour(1)
    } else if ticks_fit(StepType::Hour(2), span, width) {
        StepType::Hour(2)
    } else {
        StepType::Hour(3)
    }
}

/// A grid of columns that shows the part of the day between two clock values.
pub struct Canvas {
    pub(crate) width: u16,
    pub(crate) _height: u16,
    pub(crate) y_offset: u32,
    pub(crate) x_offset: u32,
    pub(crate) start_time: TimeOfDay,
    pub(crate) end_time: TimeOfDay,
}

impl Canvas {
    #[verifier::type_invariant]
    pub(crate) open spec fn inv(&self) -> bool {
        &&& self.start_time.total < self.end_time.total
        &&& self.width > 0
        &&& self.x_offset <= u16::MAX + 1
        &&& self.y_offset <= u16::MAX
    }

    /// The number of columns.
    pub closed spec fn grid_width(&self) -> int {
        self.width as int
    }

    /// The clock value of the first column.
    pub closed spec fn visible_start(&self) -> TimeOfDay {
        self.start_time
    }

    /// The clock value at which the window ends.
    pub closed spec fn visible_end(&self) -> TimeOfDay {
        self.end_time
    }

    /// The terminal cell of the grid's column 0 and row 0.
    pub closed spec fn origin(&self) -> (int, int) {
        (self.x_offset as int, self.y_offset as int)
    }

    /// What the fields hold, for the other modules of the crate.
    pub(crate) proof fn lemma_fields(&self)
        ensures
            self.grid_width() == self.width,
            self.visible_start() == self.start_time,
            self.visible_end() == self.end_time,
            self.origin() == (self.x_offset as int, self.y_offset as int),
    {
    }

    /// The number of minutes that the window shows.
    pub open spec fn span(&self) -> int {
        self.visible_end().total - self.visible_start().total
    }

    /// Whether the window ends after it starts and the grid has a column.
    /// Every canvas that `new` gives is valid.
    pub open spec fn is_valid(&self) -> bool {
        self.span() > 0 && self.grid_width() > 0
    }

    /// Whether `t` lies in the window, its two ends included.
    pub open spec fn shows(&self, t: TimeOfDay) -> bool {
        self.visible_start().total <= t.total <= self.visible_end().total
    }

    /// The column of `t`.
    pub open spec fn column(&self, t: TimeOfDay) -> int {
        column_of(t.total - self.visible_start().total, self.span(), self.grid_width())
    }

    /// The distance between the ticks of the grid.
    pub open spec fn step(&self) -> StepType {
        tick_step(self.span(), self.grid_width())
    }

    /// A canvas for the window from `start_time` to `end_time`, `dimensions.0`
    /// columns wide, whose grid begins one cell right of `offset`. The window
    /// has to end after it starts, and the grid needs a column.
    pub fn new(
        start_time: TimeOfDay,
        end_time: TimeOfDay,
        dimensions: (u16, u16),
        offset: (u16, u16),
    ) -> (r: Result<Self, LayoutError>)
        ensures
            r is Ok <==> start_time.total < end_time.total && dimensions.0 > 0,
            r == Err::<Self, LayoutError>(LayoutError::InvalidWindow) <==> start_time.total
                >= end_time.total,
            r == Err::<Self, LayoutError>(LayoutError::ZeroWidth) <==> start_time.total
                < end_time.total && dimensions.0 == 0,
            r matches Ok(canvas) ==> {
                &&& canvas.is_valid()
                &&& canvas.visible_start() == start_time
                &&& canvas.visible_end() == end_time
                &&& canvas.grid_width() == dimensions.0
                &&& canvas.origin() == (offset.0 + 1, offset.1 as int)
            },
    {
        if start_time.total >= end_time.total {
            return Err(LayoutError::InvalidWindow);
        }
        if dimensions.0 == 0 {
            return Err(LayoutError::ZeroWidth);
        }
        Ok(
            Self {
                start_time,
                end_time,
                width: dimensions.0,
                _height: dimensions.1,
                x_offset: offset.0 as u32 + 1,
                y_offset: offset.1 as u32,
            },
        )
    }

    /// The number of minutes that the window shows.
    pub fn total_minutes(&self) -> (total: u16)
        ensures
            total == self.span(),
            total > 0,
    {
        proof {
            use_type_invariant(self);
        }
        self.end_time.total - self.start_time.total
    }

    /// The column of a clock value in the window.
    pub(crate) fn column_in_window(&self, time_of_day: &TimeOfDay) -> (x: u16)
        requires
            self.shows(*time_of_day),
        ensures
            x == self.column(*time_of_day),
            x <= self.grid_width(),
    {
        proof {
            use_type_invariant(self);
            lemma_column_of_within_grid(
                time_of_day.total - self.start_time.total,
                self.span(),
                self.grid_width(),
            );
        }
        let span = self.total_minutes();
        let quotient: u32 = (span / self.width) as u32;
        let minutes_per_col: u32 = if span % self.width == 0 {
            quotient
        } else {
            quotient + 1
        };
        let offset: u32 = (time_of_day.total - self.start_time.total) as u32;
        proof {
            lemma_minutes_per_column_positive(span as int, self.width as int);
            lemma_div_is_ordered_by_denominator(offset as int, 1, minutes_per_col as int);
        }
        (offset / minutes_per_col) as u16
    }

    /// The column of `time_of_day`, for a clock value in the window; one
    /// outside it has no column.
    pub fn get_x_position_by_tod(&self, time_of_day: &TimeOfDay) -> (r: Result<u16, LayoutError>)
        ensures
            r is Ok <==> self.shows(*time_of_day),
            r matches Ok(x) ==> x == self.column(*time_of_day) && x <= self.grid_width(),
            r matches Err(e) ==> e == LayoutError::OutOfWindow,
    {
        if time_of_day.total < self.start_time.total || time_of_day.total > self.end_time.total {
            return Err(LayoutError::OutOfWindow);
        }
        Ok(self.column_in_window(time_of_day))
    }

    /// The distance between the ticks of the grid: the finest of a quarter
    /// or half an hour, one, two or three hours that leaves six columns to
    /// each label, and three hours where none does.
    pub fn get_step_type(&self) -> (step: StepType)
        ensures
            step == self.step(),
            step.minutes() > 0,
    {
        let n_labels = self.width / 6;
        let total = self.total_minutes();
        if total / 15 + 1 <= n_labels {
            return StepType::Minute(15);
        }
        if total / 30 + 1 <= n_labels {
            return StepType::Minute(30);
        }
        if total / 60 + 1 <= n_labels {
            return StepType::Hour(1);
        }
        if total / 120 + 1 <= n_labels {
            return StepType::Hour(2);
        }
        StepType::Hour(3)
    }

    /// The block of an event, with its column and width on this canvas, in
    /// lane 0 and two rows high. The event has to end after it starts, and
    /// both ends have to lie in the window.
    pub fn create_block(
        &self,
        start: TimeOfDay,
        end: TimeOfDay,
        title: String,
        description: String,
    ) -> (r: Result<Block, LayoutError>)
        ensures
            r is Ok <==> start.total < end.total && self.shows(start) && self.shows(end),
            r == Err::<Block, LayoutError>(LayoutError::InvalidInterval) <==> start.total
                >= end.total,
            r == Err::<Block, LayoutError>(LayoutError::OutOfWindow) <==> start.total < end.total
                && !(self.shows(start) && self.shows(end)),
            r matches Ok(block) ==> {
                &&& block.start == start
                &&& block.end == end
                &&& block.title == title
                &&& block.description == description
                &&& block.x == self.column(start)
                &&& block.y == 0
                &&& block.width == self.column(end) - self.column(start)
                &&& block.height == 2
            },
    {
        if end.total <= start.total {
            return Err(LayoutError::InvalidInterval);
        }
        let x1 = match self.get_x_position_by_tod(&start) {
            Ok(x) => x,
            Err(e) => {
                return Err(e);
            },
        };
        let x2 = match self.get_x_position_by_tod(&end) {
            Ok(x) => x,
            Err(e) => {
                return Err(e);
            },
        };
        proof {
            use_type_invariant(self);
            lemma_column_of_monotonic(
                start.total - self.start_time.total,
                end.total - self.start_time.total,
                self.span(),
                self.grid_width(),
            );
        }
        Ok(Block::new(start, end, title, description, x1, 0, x2 - x1, 2))
    }
}

/// A column stands for at least one minute.
pub proof fn lemma_minutes_per_column_positive(span: int, width: int)
    requires
        span > 0,
        width > 0,
    ensures
        minutes_per_column(span, width) >= 1,
{
    lemma_fundamental_div_mod(span, width);
    lemma_div_pos_is_pos(span, width);
    if span % width == 0 {
        if span / width == 0 {
            lemma_mul_basics(width);
        }
    }
}

/// Of two minutes of one window, the later one lies in the same column as
/// the earlier or in one further right.
pub proof fn lemma_column_of_monotonic(earlier: int, later: int, span: int, width: int)
    requires
        span > 0,
        width > 0,
        earlier <= later,
    ensures
        column_of(earlier, span, width) <= column_of(later, span, width),
{
    lemma_minutes_per_column_positive(span, width);
    lemma_div_is_ordered(earlier, later, minutes_per_column(span, width));
}

/// A minute of the window lies in one of the columns 0 to `width`.
pub proof fn lemma_column_of_within_grid(offset: int, span: int, width: int)
    requires
        span > 0,
        width > 0,
        0 <= offset <= span,
    ensures
        0 <= column_of(offset, span, width) <= width,
{
    let per_column = minutes_per_column(span, width);
    lemma_minutes_per_column_positive(span, width);
    lemma_fundamental_div_mod(span, width);
    lemma_mod_bound(span, width);
    assert(per_column * width >= span) by (nonlinear_arith)
        requires
            span == width * (span / width) + span % width,
            0 <= span % width < width,
            per_column == if span % width == 0 {
                span / width
            } else {
                span / width + 1
            },
    {
    }
    lemma_div_is_ordered(0, offset, per_column);
    lemma_div_is_ordered(offset, span, per_column);
    lemma_div_is_ordered(span, per_column * width, per_column);
    lemma_div_multiples_vanish(width, per_column);
}

/// The mapping from time to column never steps back: on one canvas, a clock
/// value that is not earlier than another lies in the same column or in one
/// further right.
pub proof fn lemma_column_monotonic(canvas: Canvas, earlier: TimeOfDay, later: TimeOfDay)
    requires
        canvas.is_valid(),
        earlier.total <= later.total,
    ensures
        canvas.column(earlier) <= canvas.column(later),
{
    lemma_column_of_monotonic(
        earlier.total - canvas.visible_start().total,
        later.total - canvas.visible_start().total,
        canvas.span(),
        canvas.grid_width(),
    );
}

/// Every clock value in the window of a canvas has a column on its grid.
pub proof fn lemma_column_within_grid(canvas: Canvas, t: TimeOfDay)
    requires
        canvas.is_valid(),
        canvas.shows(t),
    ensures
        0 <= canvas.column(t) <= canvas.grid_width(),
{
    lemma_column_of_within_grid(
        t.total - canvas.visible_start().total,
        canvas.span(),
        canvas.grid_width(),
    );
}

/// The distance between ticks depends on nothing but the number of columns
/// and the number of minutes shown: two canvases that agree in both have the
/// same ticks, wherever their windows start.
pub proof fn lemma_step_depends_on_width_and_span(a: Canvas, b: Canvas)
    requires
        a.grid_width() == b.grid_width(),
        a.span() == b.span(),
    ensures
        a.step() == b.step(),
{
}

/// The chosen distance is a candidate; every finer candidate does not fit;
/// and the chosen one fits unless it is the coarsest.
pub proof fn lemma_tick_step_is_first_fit(span: int, width: int)
    ensures
        exists|k: int|
            0 <= k < tick_candidates().len() && #[trigger] tick_candidates()[k] == tick_step(
                span,
                width,
            ) && (ticks_fit(tick_candidates()[k], span, width) || k == tick_candidates().len() - 1)
                && forall|j: int| 0 <= j < k ==> !ticks_fit(#[trigger] tick_candidates()[j], span, width),
{
    let c = tick_candidates();
    let k: int = if ticks_fit(c[0], span, width) {
        0
    } else if ticks_fit(c[1], span, width) {
        1
    } else if ticks_fit(c[2], span, width) {
        2
    } else if ticks_fit(c[3], span, width) {
        3
    } else {
        4
    };
    assert(c[k] == tick_step(span, width));
}

} // verus!
