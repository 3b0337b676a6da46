//! Scheduled intervals and their rectangles on the grid.

use vstd::prelude::*;
use crate::time_of_day::TimeOfDay;

verus! {

/// Whether the closed spans `[a, a + a_len]` and `[b, b + b_len]` share a
/// point. Spans that only touch at an end do.
pub open spec fn spans_meet(a: int, a_len: int, b: int, b_len: int) -> bool {
    !(a + a_len < b || a > b + b_len)
}

/// A rectangle of grid cells: its column, its lane, and how far it extends
/// to the right and downwards.
pub struct Rect {
    pub x: int,
    pub y: int,
    pub width: int,
    pub height: int,
}

impl Rect {
    /// Whether two rectangles share a cell or an edge.
    pub open spec fn intersects(self, other: Rect) -> bool {
        &&& spans_meet(self.y, self.height, other.y, other.height)
        &&& spans_meet(self.x, self.width, other.x, other.width)
    }

    /// The same rectangle, moved to lane `lane`.
    pub open spec fn at_lane(self, lane: int) -> Rect {
        Rect { y: lane, ..self }
    }
}

/// An event of the schedule with the rectangle that it takes on the grid.
#[derive(Clone, Debug)]
pub struct Block {
    pub start: TimeOfDay,
    pub end: TimeOfDay,
    pub title: String,
    pub description: String,
    pub x: u16,
    pub y: u16,
    pub width: u16,
    pub height: u16,
}

impl Block {
    /// The rectangle of the block.
    pub open spec fn rect(&self) -> Rect {
        Rect { x: self.x as int, y: self.y as int, width: self.width as int, height: self.height as int }
    }

    /// Whether the rectangles of two blocks share a cell or an edge.
    pub open spec fn meets(&self, other: &Block) -> bool {
        self.rect().intersects(other.rect())
    }

    /// Whether one of `others` meets this block.
    pub open spec fn meets_any(&self, others: Seq<Block>) -> bool {
        exists|j: int| 0 <= j < others.len() && (#[trigger] others[j]).meets(self)
    }

    /// A block from its parts, each kept as given.
    pub fn new(
        start: TimeOfDay,
        end: TimeOfDay,
        title: String,
        description: String,
        x: u16,
        y: u16,
        width: u16,
        height: u16,
    ) -> (block: Self)
        ensures
            block.start == start,
            block.end == end,
            block.title == title,
            block.description == description,
            block.x == x,
            block.y == y,
            block.width == width,
            block.height == height,
    {
        Self { start, end, title, description, x, y, width, height }
    }

    /// Whether the rectangles of the two blocks share a cell or an edge:
    /// neither lies wholly above, below, left or right of the other.
    #[verifier::when_used_as_spec(meets)]
    pub fn intersects(&self, other: &Block) -> (r: bool)
        ensures
            r == self.meets(other),
    {
        let top: u32 = self.y as u32;
        let bottom: u32 = top + self.height as u32;
        let left: u32 = self.x as u32;
        let right: u32 = left + self.width as u32;
        let other_top: u32 = other.y as u32;
        let other_bottom: u32 = other_top + other.height as u32;
        let other_left: u32 = other.x as u32;
        let other_right: u32 = other_left + other.width as u32;
        !(bottom < other_top || top > other_bottom) && !(right < other_left || left > other_right)
    }

    /// Whether one of `others` intersects this block.
    pub fn intersects_any(&self, others: &[Block]) -> (r: bool)
        ensures
            r == self.meets_any(others@),
    {
        let mut i: usize = 0;
        while i < others.len()
            invariant
                i <= others.len(),
                forall|j: int| 0 <= j < i ==> !(#[trigger] others@[j]).meets(self),
            decreases others.len() - i,
        {
            if others[i].intersects(self) {
                return true;
            }
            i = i + 1;
        }
        false
    }
}

/// Intersection does not depend on the order of the two blocks.
pub proof fn lemma_intersects_symmetric(a: Block, b: Block)
    ensures
        a.meets(&b) == b.meets(&a),
{
}

/// Blocks that only touch intersect: where one ends in the column, or in the
/// lane, in which the other begins, and their spans in the other direction
/// meet, the two intersect.
pub proof fn lemma_shared_edge_intersects(a: Block, b: Block)
    ensures
        a.x + a.width == b.x && spans_meet(a.y as int, a.height as int, b.y as int, b.height as int)
            ==> a.meets(&b),
        a.y + a.height == b.y && spans_meet(a.x as int, a.width as int, b.x as int, b.width as int)
            ==> a.meets(&b),
{
}

} // verus!
