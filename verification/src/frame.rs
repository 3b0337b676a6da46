//! Frames: what a canvas draws for a stacked schedule, as plain commands.
//!
//! A frame holds, in this order, the ticks of the grid with their labels,
//! the marker of the current time, the blocks, and the move of the cursor
//! to the line below everything drawn. Nothing here writes to a terminal.

use vstd::prelude::*;
use vstd::string::*;
use vstd::arithmetic::div_mod::*;
use crate::block::Block;
use crate::canvas::{ticks_over, Canvas, LayoutError};
use crate::clock::local_hour_and_minute;
use crate::stacking::{
    can_stack, is_max_lane, lemma_stacking_unique, max_lane, max_lane_of, stacking_of,
};
use crate::time_of_day::{clock_text, StepType, TimeOfDay, TimeOfDayRange};

verus! {

/// The colours that a frame uses. `Reset` stands for the terminal's own.
#[derive(Clone, Copy, Debug, PartialEq, Eq, Structural)]
pub enum Color {
    Black,
    Green,
    White,
    Reset,
}

/// One step of drawing, in terminal cells counted from the terminal's
/// top left corner.
#[derive(Clone, Debug, PartialEq, Eq)]
pub enum DrawCommand {
    /// Write `content` from cell (`x`, `y`) on, in colour `fg` on `bg`, and
    /// go back to the terminal's own style.
    Print { x: u32, y: u32, content: String, fg: Color, bg: Color },
    /// Move the cursor to cell (`x`, `y`).
    MoveTo { x: u32, y: u32 },
}

/// What a drawing command says, in numbers and text.
pub enum DrawOp {
    Print { x: int, y: int, content: Seq<char>, fg: Color, bg: Color },
    MoveTo { x: int, y: int },
}

impl View for DrawCommand {
    type V = DrawOp;

    open spec fn view(&self) -> DrawOp {
        match *self {
            DrawCommand::Print { x, y, content, fg, bg } => DrawOp::Print {
                x: x as int,
                y: y as int,
                content: content@,
                fg,
                bg,
            },
            DrawCommand::MoveTo { x, y } => DrawOp::MoveTo { x: x as int, y: y as int },
        }
    }
}

/// What a run of drawing commands says.
pub open spec fn ops(commands: Seq<DrawCommand>) -> Seq<DrawOp> {
    commands.map_values(|command: DrawCommand| command@)
}

/// What a run says after one more command: what it said, and what the
/// command says.
pub proof fn lemma_ops_push(commands: Seq<DrawCommand>, command: DrawCommand)
    ensures
        ops(commands.push(command)) == ops(commands).push(command@),
{
    assert(ops(commands.push(command)) =~= ops(commands).push(command@));
}

/// The ticks that a grid draws are the ticks that the choice of their
/// distance counted: they are no more than a sixth of the columns, unless
/// the distance is the coarsest one, three hours.
pub proof fn lemma_drawn_ticks_fit(canvas: Canvas)
    ensures
        canvas.tick_count() <= canvas.grid_width() / 6 || canvas.step() == StepType::Hour(3),
{
}

/// The text of one segment of a vertical line.
pub open spec fn bar_text() -> Seq<char> {
    seq!['\u{23B8}']
}

/// `text` followed by as many spaces as it lacks to `width` characters.
pub open spec fn padded_text(text: Seq<char>, width: int) -> Seq<char> {
    text + Seq::new((width - text.len()) as nat, |i: int| ' ')
}

/// Writing `content` at column `x` and row `y` of a grid that begins at
/// `origin`.
pub open spec fn print_op(
    origin: (int, int),
    x: int,
    y: int,
    content: Seq<char>,
    fg: Color,
    bg: Color,
) -> DrawOp {
    DrawOp::Print { x: x + origin.0, y: y + origin.1, content, fg, bg }
}

/// A vertical line in column `x` over the rows 1 to `rows`.
pub open spec fn bar_ops(origin: (int, int), x: int, rows: int, fg: Color) -> Seq<DrawOp> {
    Seq::new(rows as nat, |i: int| print_op(origin, x, 1 + i, bar_text(), fg, Color::Reset))
}

/// Whether the two labels of `block` are no longer than the block is wide.
pub open spec fn labels_fit(block: Block) -> bool {
    &&& clock_text(block.start.hour as nat, block.start.minute as nat).len() <= block.width
    &&& block.title@.len() <= block.width
}

/// The greatest row that a frame may be asked to reach down to.
pub const MAX_ROWS: u32 = 131071;

impl Canvas {
    /// The number of ticks of the grid.
    pub open spec fn tick_count(&self) -> int {
        ticks_over(self.step(), self.span())
    }

    /// The clock value of tick `k`, counted from 0.
    pub open spec fn tick_time(&self, k: int) -> TimeOfDay {
        TimeOfDay::at_minute(self.visible_start().total + k * self.step().minutes())
    }

    /// Tick `k`: a white line over the rows 1 to `max_y + 1`, then its clock
    /// value in row 0.
    pub open spec fn tick_ops(&self, k: int, max_y: int) -> Seq<DrawOp> {
        let time = self.tick_time(k);
        let x = self.column(time);
        bar_ops(self.origin(), x, max_y + 1, Color::White).push(
            print_op(
                self.origin(),
                x,
                0,
                clock_text(time.hour as nat, time.minute as nat),
                Color::White,
                Color::Reset,
            ),
        )
    }

    /// The first `ticks` ticks of the grid, from the left.
    pub open spec fn grid_ops(&self, ticks: int, max_y: int) -> Seq<DrawOp>
        decreases ticks,
    {
        if ticks <= 0 {
            Seq::empty()
        } else {
            self.grid_ops(ticks - 1, max_y) + self.tick_ops(ticks - 1, max_y)
        }
    }

    /// The marker of the time `now`: a green line over the rows 1 to
    /// `max_y + 2`, then the clock value below it.
    pub open spec fn now_ops(&self, now: TimeOfDay, max_y: int) -> Seq<DrawOp> {
        let x = self.column(now);
        bar_ops(self.origin(), x, max_y + 2, Color::Green).push(
            print_op(
                self.origin(),
                x,
                max_y + 3,
                clock_text(now.hour as nat, now.minute as nat),
                Color::Green,
                Color::Reset,
            ),
        )
    }

    /// One block: its start and, a row below, its title, both padded to the
    /// block's width, black on green, two rows below the block's lane.
    pub open spec fn block_ops(&self, block: Block) -> Seq<DrawOp> {
        seq![
            print_op(
                self.origin(),
                block.x as int,
                block.y + 2,
                padded_text(
                    clock_text(block.start.hour as nat, block.start.minute as nat),
                    block.width as int,
                ),
                Color::Black,
                Color::Green,
            ),
            print_op(
                self.origin(),
                block.x as int,
                block.y + 3,
                padded_text(block.title@, block.width as int),
                Color::Black,
                Color::Green,
            ),
        ]
    }

    /// The blocks, in the order given.
    pub open spec fn blocks_ops(&self, blocks: Seq<Block>) -> Seq<DrawOp>
        decreases blocks.len(),
    {
        if blocks.len() == 0 {
            Seq::empty()
        } else {
            self.blocks_ops(blocks.drop_last()) + self.block_ops(blocks.last())
        }
    }

    /// The row that a frame of the stacked blocks `positioned` reaches down
    /// to: the greatest lane, and below it the height of the first block and
    /// one row more.
    pub open spec fn bottom_row(positioned: Seq<Block>) -> int {
        max_lane_of(positioned) + positioned[0].height + 1
    }

    /// The move of the cursor to the start of the line below the frame.
    pub open spec fn end_op(&self, max_y: int) -> DrawOp {
        DrawOp::MoveTo { x: 0, y: max_y + self.origin().1 + 2 }
    }

    /// The frame of `blocks` at the time `now`: the grid, the marker of
    /// `now`, the stacked blocks, and the move of the cursor below them.
    pub open spec fn frame_ops(&self, blocks: Seq<Block>, now: TimeOfDay) -> Seq<DrawOp> {
        let positioned = stacking_of(blocks);
        let max_y = Self::bottom_row(positioned);
        self.grid_ops(self.tick_count(), max_y) + self.now_ops(now, max_y) + self.blocks_ops(
            positioned,
        ) + seq![self.end_op(max_y)]
    }

    /// Why there is no frame of `blocks` at the time `now`, if there is
    /// none. Of several reasons the first in this order is given: no block;
    /// a block without a lane; `now` outside the window; a label too wide.
    pub open spec fn frame_failure(&self, blocks: Seq<Block>, now: TimeOfDay) -> Option<
        LayoutError,
    > {
        if blocks.len() == 0 {
            Some(LayoutError::NoBlocks)
        } else if !can_stack(blocks) {
            Some(LayoutError::LaneOverflow)
        } else if !self.shows(now) {
            Some(LayoutError::OutOfWindow)
        } else if exists|i: int| 0 <= i < blocks.len() && !labels_fit(#[trigger] blocks[i]) {
            Some(LayoutError::LabelTooWide)
        } else {
            None
        }
    }

    /// Whether `result` is what drawing `blocks` at the time `now` gives:
    /// the frame, or the reason why there is none.
    pub open spec fn is_frame(
        &self,
        blocks: Seq<Block>,
        now: TimeOfDay,
        result: Result<Vec<DrawCommand>, LayoutError>,
    ) -> bool {
        match result {
            Ok(frame) => self.frame_failure(blocks, now) is None && ops(frame@) == self.frame_ops(
                blocks,
                now,
            ),
            Err(e) => self.frame_failure(blocks, now) == Some(e),
        }
    }

    /// The command that writes `content` at column `x` and row `y` of the
    /// grid.
    fn print(&self, x: u16, y: u32, content: String, fg: Color, bg: Color) -> (command:
        DrawCommand)
        requires
            y <= MAX_ROWS + 3,
        ensures
            command@ == print_op(self.origin(), x as int, y as int, content@, fg, bg),
    {
        proof {
            use_type_invariant(self);
            self.lemma_fields();
        }
        DrawCommand::Print { x: x as u32 + self.x_offset, y: y + self.y_offset, content, fg, bg }
    }

    /// `s` followed by as many spaces as it lacks to `width` characters.
    fn pad_string(&self, s: &str, width: usize) -> (padded: String)
        requires
            s@.len() <= width,
        ensures
            padded@ == padded_text(s@, width as int),
    {
        let len = s.unicode_len();
        let mut padded = s.to_owned();
        let mut i: usize = len;
        while i < width
            invariant
                len == s@.len(),
                len <= i <= width,
                padded@ == s@ + Seq::new((i - len) as nat, |j: int| ' '),
            decreases width - i,
        {
            proof {
                reveal_strlit(" ");
            }
            padded.append(" ");
            i = i + 1;
            assert(padded@ =~= s@ + Seq::new((i - len) as nat, |j: int| ' '));
        }
        padded
    }

    /// Appends a vertical line in column `x` over the rows 1 to `rows`.
    fn render_bar(&self, out: &mut Vec<DrawCommand>, x: u16, rows: u32, fg: Color)
        requires
            rows <= MAX_ROWS + 2,
        ensures
            ops(final(out)@) == ops(old(out)@) + bar_ops(self.origin(), x as int, rows as int, fg),
    {
        let ghost before = ops(out@);
        let mut i: u32 = 0;
        assert(ops(out@) =~= before + bar_ops(self.origin(), x as int, 0, fg));
        while i < rows
            invariant
                i <= rows <= MAX_ROWS + 2,
                ops(out@) == before + bar_ops(self.origin(), x as int, i as int, fg),
            decreases rows - i,
        {
            proof {
                reveal_strlit("\u{23B8}");
            }
            let bar = "\u{23B8}".to_owned();
            assert(bar@ =~= bar_text());
            let command = self.print(x, 1 + i, bar, fg, Color::Reset);
            proof {
                lemma_ops_push(out@, command);
                assert(bar_ops(self.origin(), x as int, i + 1, fg) =~= bar_ops(
                    self.origin(),
                    x as int,
                    i as int,
                    fg,
                ).push(command@));
            }
            out.push(command);
            i = i + 1;
            assert(ops(out@) =~= before + bar_ops(self.origin(), x as int, i as int, fg));
        }
    }

    /// Appends the ticks of the grid with their labels.
    fn render_grid(&self, out: &mut Vec<DrawCommand>, max_y: u32)
        requires
            max_y <= MAX_ROWS,
        ensures
            ops(final(out)@) == ops(old(out)@) + self.grid_ops(self.tick_count(), max_y as int),
    {
        proof {
            use_type_invariant(self);
            self.lemma_fields();
        }
        let ghost before = ops(out@);
        let step_type = self.get_step_type();
        let ghost step = step_type.minutes();
        let ghost first = self.start_time.total as int;
        let ghost last = self.end_time.total as int;
        let mut time_range = TimeOfDayRange::new(self.start_time, self.end_time, step_type).unwrap();
        let ghost mut k: int = 0;
        assert(ops(out@) =~= before + self.grid_ops(0, max_y as int));
        loop
            invariant
                max_y <= MAX_ROWS,
                step == self.step().minutes(),
                step > 0,
                first == self.visible_start().total,
                last == self.visible_end().total,
                first < last,
                time_range.start() == self.visible_start(),
                time_range.end() == self.visible_end(),
                time_range.step_type() == self.step(),
                0 <= k,
                time_range.cursor() == first + k * step,
                k > 0 ==> first + (k - 1) * step <= last,
                time_range.cursor() <= last + step,
                ops(out@) == before + self.grid_ops(k, max_y as int),
            ensures
                ops(out@) == before + self.grid_ops(self.tick_count(), max_y as int),
            decreases last + step - time_range.cursor(),
        {
            match time_range.next() {
                None => {
                    proof {
                        assert(k > 0) by (nonlinear_arith)
                            requires
                                first + k * step > last,
                                first < last,
                                k >= 0,
                        {
                        }
                        let r = (last - first) - (k - 1) * step;
                        assert(r < step && last - first == (k - 1) * step + r)
                            by (nonlinear_arith)
                            requires
                                first + k * step > last,
                                r == (last - first) - (k - 1) * step,
                        {
                        }
                        lemma_fundamental_div_mod_converse(last - first, step, k - 1, r);
                    }
                    break ;
                },
                Some(time) => {
                    let ghost at = out@;
                    let x = self.column_in_window(&time);
                    self.render_bar(out, x, max_y + 1, Color::White);
                    let label = self.print(
                        x,
                        0,
                        time.to_string(),
                        Color::White,
                        Color::Reset,
                    );
                    proof {
                        lemma_ops_push(out@, label);
                    }
                    out.push(label);
                    proof {
                        assert(time == self.tick_time(k));
                        assert(ops(out@) =~= ops(at) + self.tick_ops(k, max_y as int));
                        assert((k + 1) * step == k * step + step) by (nonlinear_arith);
                        k = k + 1;
                    }
                },
            }
        }
    }

    /// Appends the marker of the time `now`.
    fn render_now(&self, out: &mut Vec<DrawCommand>, now: TimeOfDay, max_y: u32)
        requires
            max_y <= MAX_ROWS,
            self.shows(now),
        ensures
            ops(final(out)@) == ops(old(out)@) + self.now_ops(now, max_y as int),
    {
        let ghost before = ops(out@);
        let x = self.column_in_window(&now);
        self.render_bar(out, x, max_y + 2, Color::Green);
        let label = self.print(x, max_y + 3, now.to_string(), Color::Green, Color::Reset);
        proof {
            lemma_ops_push(out@, label);
        }
        out.push(label);
        assert(ops(out@) =~= before + self.now_ops(now, max_y as int));
    }

    /// Appends one block, if its labels fit.
    fn render_block(&self, out: &mut Vec<DrawCommand>, block: &Block) -> (r: Result<
        (),
        LayoutError,
    >)
        ensures
            r is Ok <==> labels_fit(*block),
            r is Ok ==> ops(final(out)@) == ops(old(out)@) + self.block_ops(*block),
            r matches Err(e) ==> e == LayoutError::LabelTooWide,
    {
        let time_label = block.start.to_string();
        if time_label.as_str().unicode_len() > block.width as usize {
            return Err(LayoutError::LabelTooWide);
        }
        if block.title.as_str().unicode_len() > block.width as usize {
            return Err(LayoutError::LabelTooWide);
        }
        let time_line = self.print(
            block.x,
            block.y as u32 + 2,
            self.pad_string(time_label.as_str(), block.width as usize),
            Color::Black,
            Color::Green,
        );
        proof {
            lemma_ops_push(out@, time_line);
        }
        out.push(time_line);
        let title_line = self.print(
            block.x,
            block.y as u32 + 3,
            self.pad_string(block.title.as_str(), block.width as usize),
            Color::Black,
            Color::Green,
        );
        proof {
            lemma_ops_push(out@, title_line);
        }
        out.push(title_line);
        assert(ops(out@) =~= ops(old(out)@) + self.block_ops(*block));
        Ok(())
    }

    /// Appends the blocks in the order given, if the labels of all fit.
    fn render_blocks(&self, out: &mut Vec<DrawCommand>, blocks: &Vec<Block>) -> (r: Result<
        (),
        LayoutError,
    >)
        ensures
            r is Ok <==> forall|i: int| 0 <= i < blocks@.len() ==> labels_fit(#[trigger] blocks@[i]),
            r is Ok ==> ops(final(out)@) == ops(old(out)@) + self.blocks_ops(blocks@),
            r matches Err(e) ==> e == LayoutError::LabelTooWide,
    {
        let ghost before = ops(out@);
        let mut i: usize = 0;
        assert(ops(out@) =~= before + self.blocks_ops(blocks@.take(0)));
        while i < blocks.len()
            invariant
                i <= blocks.len(),
                forall|j: int| 0 <= j < i ==> labels_fit(#[trigger] blocks@[j]),
                ops(out@) == before + self.blocks_ops(blocks@.take(i as int)),
            decreases blocks.len() - i,
        {
            let ghost at = ops(out@);
            match self.render_block(out, &blocks[i]) {
                Err(e) => {
                    return Err(e);
                },
                Ok(()) => {},
            }
            proof {
                let next = blocks@.take(i + 1);
                assert(next.drop_last() =~= blocks@.take(i as int));
                assert(next.last() == blocks@[i as int]);
                assert(ops(out@) =~= before + self.blocks_ops(next));
            }
            i = i + 1;
        }
        assert(blocks@.take(i as int) =~= blocks@);
        Ok(())
    }

    /// The command that moves the cursor to the start of the line below
    /// the frame.
    fn move_cursor_to_end(&self, max_y: u32) -> (command: DrawCommand)
        requires
            max_y <= MAX_ROWS,
        ensures
            command@ == self.end_op(max_y as int),
    {
        proof {
            use_type_invariant(self);
            self.lemma_fields();
        }
        DrawCommand::MoveTo { x: 0, y: max_y + self.y_offset + 2 }
    }

    /// The frame of `blocks` at the time `now`: the blocks are stacked, then
    /// the grid, the marker of `now`, the blocks and the final move of the
    /// cursor are drawn, in this order. There is a frame only if there is a
    /// block, every block finds a lane, `now` lies in the window and every
    /// label fits its block.
    pub fn render_at(&self, blocks: Vec<Block>, now: TimeOfDay) -> (r: Result<
        Vec<DrawCommand>,
        LayoutError,
    >)
        ensures
            self.is_frame(blocks@, now, r),
    {
        if blocks.len() == 0 {
            return Err(LayoutError::NoBlocks);
        }
        let positioned = match self.position_blocks(blocks) {
            Ok(positioned) => positioned,
            Err(e) => {
                return Err(e);
            },
        };
        proof {
            use_type_invariant(self);
            self.lemma_fields();
            lemma_stacking_unique(blocks@, positioned@, stacking_of(blocks@));
        }
        if now.total < self.start_time.total || now.total > self.end_time.total {
            return Err(LayoutError::OutOfWindow);
        }
        let lane = max_lane(positioned.as_slice()).unwrap();
        proof {
            let chosen = max_lane_of(positioned@);
            assert(is_max_lane(positioned@, chosen));
            assert(chosen == lane);
        }
        let max_y: u32 = lane as u32 + positioned[0].height as u32 + 1;
        let mut frame: Vec<DrawCommand> = Vec::new();
        self.render_grid(&mut frame, max_y);
        self.render_now(&mut frame, now, max_y);
        match self.render_blocks(&mut frame, &positioned) {
            Err(e) => {
                proof {
                    let i = choose|i: int|
                        0 <= i < positioned@.len() && !labels_fit(#[trigger] positioned@[i]);
                    assert(!labels_fit(blocks@[i]));
                }
                return Err(e);
            },
            Ok(()) => {},
        }
        let end = self.move_cursor_to_end(max_y);
        proof {
            lemma_ops_push(frame@, end);
        }
        frame.push(end);
        proof {
            assert forall|i: int| 0 <= i < blocks@.len() implies labels_fit(
                #[trigger] blocks@[i],
            ) by {
                assert(labels_fit(positioned@[i]));
            }
            assert(ops(frame@) =~= self.frame_ops(blocks@, now));
        }
        Ok(frame)
    }

    /// The frame of `blocks` at the local time of the system clock, or the
    /// reason why there is none. Which time the clock gives is open; it is a
    /// time of the day.
    pub fn render(&self, blocks: Vec<Block>) -> (r: Result<Vec<DrawCommand>, LayoutError>)
        ensures
            exists|now: TimeOfDay|
                now.hour < 24 && now.minute < 60 && now.is_consistent() && #[trigger] self.is_frame(
                    blocks@,
                    now,
                    r,
                ),
    {
        let (hour, minute) = local_hour_and_minute();
        let now = TimeOfDay::new(hour, minute);
        self.render_at(blocks, now)
    }
}

} // verus!
