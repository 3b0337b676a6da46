//! Stacking: blocks that would collide are moved down into lanes of their own.
//!
//! Blocks are placed in the order given. Each takes the first lane, counted
//! from 0, in which it intersects none of the blocks placed before it. The
//! result uses no two lanes for blocks that collide, but it is not the
//! packing with the fewest lanes.

use vstd::prelude::*;
use crate::block::{spans_meet, Block};
use crate::canvas::{Canvas, LayoutError};

verus! {

/// Whether `block`, moved to `lane`, intersects none of `placed`.
pub open spec fn lane_is_free(placed: Seq<Block>, block: Block, lane: int) -> bool {
    forall|j: int|
        0 <= j < placed.len() ==> !(#[trigger] placed[j]).rect().intersects(
            block.rect().at_lane(lane),
        )
}

/// Whether `lane` is the first lane, counted from 0, in which `block`
/// intersects none of `placed`.
pub open spec fn is_first_free_lane(placed: Seq<Block>, block: Block, lane: int) -> bool {
    &&& 0 <= lane
    &&& lane_is_free(placed, block, lane)
    &&& forall|below: int| 0 <= below < lane ==> !#[trigger] lane_is_free(placed, block, below)
}

/// Whether `output` is `input` stacked: the same blocks in the same order,
/// each changed in its lane alone, and each in the first lane that is free
/// of the blocks before it.
pub open spec fn is_stacking(input: Seq<Block>, output: Seq<Block>) -> bool {
    &&& output.len() == input.len()
    &&& forall|i: int|
        0 <= i < input.len() ==> {
            &&& #[trigger] output[i] == (Block { y: output[i].y, ..input[i] })
            &&& is_first_free_lane(output.take(i), input[i], output[i].y as int)
        }
}

/// Whether `input` can be stacked in lanes that can be numbered.
pub open spec fn can_stack(input: Seq<Block>) -> bool {
    exists|output: Seq<Block>| is_stacking(input, output)
}

/// The stacking of `input`, where there is one.
pub open spec fn stacking_of(input: Seq<Block>) -> Seq<Block> {
    choose|output: Seq<Block>| is_stacking(input, output)
}

/// The greatest lane of `blocks`, where there is a block.
pub open spec fn max_lane_of(blocks: Seq<Block>) -> int {
    choose|lane: int| is_max_lane(blocks, lane)
}

/// Whether `lane` is the greatest lane of `blocks`.
pub open spec fn is_max_lane(blocks: Seq<Block>, lane: int) -> bool {
    &&& exists|i: int| 0 <= i < blocks.len() && (#[trigger] blocks[i]).y == lane
    &&& forall|i: int| 0 <= i < blocks.len() ==> (#[trigger] blocks[i]).y <= lane
}

impl Canvas {
    /// Stacks `blocks`: each block, in the order given, is moved to the first
    /// lane in which it intersects none of those placed before it. Where a
    /// block finds no such lane among the lanes that can be numbered, there
    /// is no stacking and the call fails.
    pub fn position_blocks(&self, blocks: Vec<Block>) -> (r: Result<Vec<Block>, LayoutError>)
        ensures
            match r {
                Ok(positioned) => is_stacking(blocks@, positioned@),
                Err(e) => e == LayoutError::LaneOverflow && forall|output: Seq<Block>|
                    !is_stacking(blocks@, output),
            },
    {
        let mut positioned: Vec<Block> = Vec::new();
        let mut i: usize = 0;
        while i < blocks.len()
            invariant
                i <= blocks.len(),
                is_stacking(blocks@.take(i as int), positioned@),
            decreases blocks.len() - i,
        {
            let block = &blocks[i];
            let mut new_block = Block {
                start: block.start,
                end: block.end,
                title: block.title.clone(),
                description: block.description.clone(),
                x: block.x,
                y: 0,
                width: block.width,
                height: block.height,
            };
            loop
                invariant
                    i < blocks.len(),
                    is_stacking(blocks@.take(i as int), positioned@),
                    new_block == (Block { y: new_block.y, ..blocks@[i as int] }),
                    forall|below: int|
                        0 <= below < new_block.y ==> !#[trigger] lane_is_free(
                            positioned@,
                            blocks@[i as int],
                            below,
                        ),
                ensures
                    is_first_free_lane(positioned@, blocks@[i as int], new_block.y as int),
                decreases u16::MAX - new_block.y,
            {
                if !new_block.intersects_any(positioned.as_slice()) {
                    break;
                }
                let ghost hit = choose|j: int|
                    0 <= j < positioned@.len() && (#[trigger] positioned@[j]).meets(&new_block);
                assert(positioned@[hit].rect().intersects(
                    blocks@[i as int].rect().at_lane(new_block.y as int),
                ));
                assert(!lane_is_free(positioned@, blocks@[i as int], new_block.y as int));
                if new_block.y == u16::MAX {
                    proof {
                        assert forall|output: Seq<Block>| !is_stacking(blocks@, output) by {
                            if is_stacking(blocks@, output) {
                                lemma_stacking_prefix(blocks@, output, i as int);
                                lemma_stacking_unique(
                                    blocks@.take(i as int),
                                    positioned@,
                                    output.take(i as int),
                                );
                                let lane = output[i as int].y as int;
                                assert(is_first_free_lane(
                                    output.take(i as int),
                                    blocks@[i as int],
                                    lane,
                                ));
                                assert(!lane_is_free(positioned@, blocks@[i as int], lane));
                            }
                        }
                    }
                    return Err(LayoutError::LaneOverflow);
                }
                new_block.y = new_block.y + 1;
            }
            proof {
                let ghost before = positioned@;
                let ghost after = positioned@.push(new_block);
                assert forall|k: int| 0 <= k < i + 1 implies {
                    &&& #[trigger] after[k] == (Block {
                        y: after[k].y,
                        ..blocks@.take(i + 1)[k]
                    })
                    &&& is_first_free_lane(
                        after.take(k),
                        blocks@.take(i + 1)[k],
                        after[k].y as int,
                    )
                } by {
                    if k < i {
                        assert(before[k] == after[k]);
                        assert(before.take(k) =~= after.take(k));
                        assert(blocks@.take(i as int)[k] == blocks@.take(i + 1)[k]);
                    } else {
                        assert(after.take(k) =~= before);
                    }
                }
            }
            positioned.push(new_block);
            i = i + 1;
        }
        assert(blocks@.take(i as int) =~= blocks@);
        Ok(positioned)
    }
}

/// The greatest lane among `blocks`, if there is a block.
pub fn max_lane(blocks: &[Block]) -> (r: Option<u16>)
    ensures
        r is None <==> blocks@.len() == 0,
        r matches Some(lane) ==> is_max_lane(blocks@, lane as int),
{
    if blocks.len() == 0 {
        return None;
    }
    let mut lane: u16 = blocks[0].y;
    let mut i: usize = 1;
    while i < blocks.len()
        invariant
            1 <= i <= blocks.len(),
            exists|k: int| 0 <= k < i && (#[trigger] blocks@[k]).y == lane,
            forall|k: int| 0 <= k < i ==> (#[trigger] blocks@[k]).y <= lane,
        decreases blocks.len() - i,
    {
        if blocks[i].y > lane {
            lane = blocks[i].y;
        }
        i = i + 1;
    }
    Some(lane)
}

/// The first blocks of a stacking are the stacking of the first blocks.
pub proof fn lemma_stacking_prefix(input: Seq<Block>, output: Seq<Block>, n: int)
    requires
        is_stacking(input, output),
        0 <= n <= input.len(),
    ensures
        is_stacking(input.take(n), output.take(n)),
{
    assert forall|i: int| 0 <= i < n implies {
        &&& #[trigger] output.take(n)[i] == (Block { y: output.take(n)[i].y, ..input.take(n)[i] })
        &&& is_first_free_lane(output.take(n).take(i), input.take(n)[i], output.take(n)[i].y as int)
    } by {
        assert(output.take(n)[i] == output[i]);
        assert(output.take(n).take(i) =~= output.take(i));
    }
}

/// A block has at most one first free lane.
pub proof fn lemma_first_free_lane_unique(placed: Seq<Block>, block: Block, a: int, b: int)
    requires
        is_first_free_lane(placed, block, a),
        is_first_free_lane(placed, block, b),
    ensures
        a == b,
{
    if a < b {
        assert(!lane_is_free(placed, block, a));
    } else if b < a {
        assert(!lane_is_free(placed, block, b));
    }
}

/// Stacking is determined by its input: two stackings of the same blocks are
/// equal.
pub proof fn lemma_stacking_unique(input: Seq<Block>, a: Seq<Block>, b: Seq<Block>)
    requires
        is_stacking(input, a),
        is_stacking(input, b),
    ensures
        a == b,
    decreases input.len(),
{
    if input.len() > 0 {
        let n = input.len() - 1;
        lemma_stacking_prefix(input, a, n);
        lemma_stacking_prefix(input, b, n);
        lemma_stacking_unique(input.take(n), a.take(n), b.take(n));
        assert(a[n] == (Block { y: a[n].y, ..input[n] }));
        assert(b[n] == (Block { y: b[n].y, ..input[n] }));
        lemma_first_free_lane_unique(a.take(n), input[n], a[n].y as int, b[n].y as int);
        assert forall|i: int| 0 <= i < a.len() implies a[i] == b[i] by {
            if i < n {
                assert(a.take(n)[i] == b.take(n)[i]);
            }
        }
    }
    assert(a =~= b);
}

/// After stacking no two blocks intersect, and two blocks in the same lane
/// do not even touch in their columns.
pub proof fn lemma_stacked_blocks_disjoint(input: Seq<Block>, output: Seq<Block>)
    requires
        is_stacking(input, output),
    ensures
        forall|i: int, j: int|
            #![trigger output[i], output[j]]
            0 <= i < output.len() && 0 <= j < output.len() && i != j ==> !output[i].meets(
                &output[j],
            ),
        forall|i: int, j: int|
            #![trigger output[i], output[j]]
            0 <= i < output.len() && 0 <= j < output.len() && i != j && output[i].y == output[j].y
                ==> !spans_meet(
                output[i].x as int,
                output[i].width as int,
                output[j].x as int,
                output[j].width as int,
            ),
{
    assert forall|i: int, j: int|
        #![trigger output[i], output[j]]
        0 <= i < output.len() && 0 <= j < output.len() && i != j implies !output[i].meets(
        &output[j],
    ) by {
        let (lo, hi) = if i < j {
            (i, j)
        } else {
            (j, i)
        };
        assert(output[hi] == (Block { y: output[hi].y, ..input[hi] }));
        assert(is_first_free_lane(output.take(hi), input[hi], output[hi].y as int));
        assert(output.take(hi)[lo] == output[lo]);
        assert(!output[lo].rect().intersects(input[hi].rect().at_lane(output[hi].y as int)));
    }
}

} // verus!
