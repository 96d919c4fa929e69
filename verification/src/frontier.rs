//! Blocks on the frontier of a drawn boundary.
//!
//! A block's perimeter is a list of road sides; a boundary is itself a
//! perimeter.  A block lies on the frontier when the boundary uses one of
//! the block's perimeter roads — on either side, so the frontier holds the
//! blocks just inside and just outside the boundary.

use vstd::prelude::*;

verus! {

/// Identifier of one block, unique within a run.
#[derive(Clone, Copy, Debug, PartialEq, Eq, Structural, Hash)]
pub struct BlockID(pub usize);

/// Identifier of one road.
#[derive(Clone, Copy, Debug, PartialEq, Eq, Structural, Hash)]
pub struct RoadID(pub usize);

/// Which side of a road a perimeter runs along.
#[derive(Clone, Copy, Debug, PartialEq, Eq, Structural)]
pub enum SideOfRoad {
    Right,
    Left,
}

/// One side of one road.
#[derive(Clone, Copy, Debug, PartialEq, Eq, Structural)]
pub struct RoadSideID {
    pub road: RoadID,
    pub side: SideOfRoad,
}

/// The ordered road sides enclosing a region.
pub struct Perimeter {
    pub roads: Vec<RoadSideID>,
}

impl View for Perimeter {
    type V = Seq<RoadSideID>;

    open spec fn view(&self) -> Seq<RoadSideID> {
        self.roads@
    }
}

/// A single, unmerged block, known by its perimeter.
pub struct Block {
    pub perimeter: Perimeter,
}

/// Some side of `road` appears in `roads`.
pub open spec fn uses_road(roads: Seq<RoadSideID>, road: RoadID) -> bool {
    exists|i: int| 0 <= i < roads.len() && roads[i].road == road
}

/// The boundary uses one of the block's perimeter roads, on either side.
pub open spec fn on_frontier(boundary: Seq<RoadSideID>, block: Seq<RoadSideID>) -> bool {
    exists|j: int| 0 <= j < block.len() && uses_road(boundary, block[j].road)
}

/// Whether some side of `road` appears in `perim`.
fn perim_uses_road(perim: &Perimeter, road: RoadID) -> (r: bool)
    ensures
        r == uses_road(perim@, road),
{
    let n = perim.roads.len();
    let mut i: usize = 0;
    while i < n
        invariant
            n == perim@.len(),
            i <= n,
            forall|k: int| 0 <= k < i ==> perim@[k].road != road,
        decreases n - i,
    {
        if perim.roads[i].road == road {
            return true;
        }
        i += 1;
    }
    false
}

/// Whether `block` lies on the frontier of `boundary`.
fn block_on_frontier(boundary: &Perimeter, block: &Block) -> (r: bool)
    ensures
        r == on_frontier(boundary@, block.perimeter@),
{
    let n = block.perimeter.roads.len();
    let mut j: usize = 0;
    while j < n
        invariant
            n == block.perimeter@.len(),
            j <= n,
            forall|k: int| 0 <= k < j ==> !uses_road(boundary@, block.perimeter@[k].road),
        decreases n - j,
    {
        if perim_uses_road(boundary, block.perimeter.roads[j].road) {
            return true;
        }
        j += 1;
    }
    false
}

/// `id` names a block of `blocks` that lies on the frontier of `boundary`.
pub open spec fn is_frontier_block(
    boundary: Seq<RoadSideID>,
    blocks: Seq<(BlockID, Block)>,
    id: BlockID,
) -> bool {
    exists|i: int|
        0 <= i < blocks.len() && blocks[i].0 == id && on_frontier(
            boundary,
            blocks[i].1.perimeter@,
        )
}

/// `id` appears in `r`.
pub open spec fn listed(r: Seq<BlockID>, id: BlockID) -> bool {
    exists|k: int| 0 <= k < r.len() && r[k] == id
}

/// The identifiers of the frontier blocks, in input order.
pub open spec fn frontier_ids(
    boundary: Seq<RoadSideID>,
    blocks: Seq<(BlockID, Block)>,
) -> Seq<BlockID> {
    blocks.filter(|pr: (BlockID, Block)| on_frontier(boundary, pr.1.perimeter@)).map_values(
        |pr: (BlockID, Block)| pr.0,
    )
}

/// The identifiers of the blocks adjacent to the drawn boundary, just
/// inside or outside: exactly those whose perimeter shares a road with it,
/// in input order.
pub fn calculate_frontier(perim: &Perimeter, blocks: &Vec<(BlockID, Block)>) -> (r: Vec<BlockID>)
    ensures
        forall|k: int| 0 <= k < r@.len() ==> is_frontier_block(perim@, blocks@, #[trigger] r@[k]),
        forall|i: int|
            0 <= i < blocks@.len() ==> (on_frontier(perim@, #[trigger] blocks@[i].1.perimeter@)
                ==> listed(r@, blocks@[i].0)),
        r@ == frontier_ids(perim@, blocks@),
{
    let ghost pred = |pr: (BlockID, Block)| on_frontier(perim@, pr.1.perimeter@);
    let ghost to_id = |pr: (BlockID, Block)| pr.0;
    let n = blocks.len();
    let mut out: Vec<BlockID> = Vec::new();
    let mut i: usize = 0;
    proof {
        reveal(Seq::filter);
        assert(out@ =~= blocks@.subrange(0, 0).filter(pred).map_values(to_id));
    }
    while i < n
        invariant
            n == blocks@.len(),
            i <= n,
            pred == (|pr: (BlockID, Block)| on_frontier(perim@, pr.1.perimeter@)),
            to_id == (|pr: (BlockID, Block)| pr.0),
            out@ == blocks@.subrange(0, i as int).filter(pred).map_values(to_id),
            forall|k: int|
                0 <= k < out@.len() ==> is_frontier_block(perim@, blocks@, #[trigger] out@[k]),
            forall|w: int|
                0 <= w < i ==> (on_frontier(perim@, #[trigger] blocks@[w].1.perimeter@) ==> listed(
                    out@,
                    blocks@[w].0,
                )),
        decreases n - i,
    {
        let ghost pre = out@;
        if block_on_frontier(perim, &blocks[i].1) {
            out.push(blocks[i].0);
            proof {
                assert(out@[pre.len() as int] == blocks@[i as int].0);
                assert(is_frontier_block(perim@, blocks@, blocks@[i as int].0));
                assert forall|w: int|
                    0 <= w < i + 1 && on_frontier(
                        perim@,
                        #[trigger] blocks@[w].1.perimeter@,
                    ) implies listed(out@, blocks@[w].0) by {
                    if w < i {
                        let k = choose|k: int| 0 <= k < pre.len() && pre[k] == blocks@[w].0;
                        assert(out@[k] == blocks@[w].0);
                    } else {
                        assert(out@[pre.len() as int] == blocks@[w].0);
                    }
                }
            }
        }
        proof {
            reveal(Seq::filter);
            let s1 = blocks@.subrange(0, i + 1 as int);
            assert(s1.drop_last() =~= blocks@.subrange(0, i as int));
            assert(s1.last() == blocks@[i as int]);
            if pred(blocks@[i as int]) {
                assert(out@ =~= pre.push(blocks@[i as int].0));
                assert(s1.filter(pred).map_values(to_id) =~= blocks@.subrange(0, i as int).filter(
                    pred,
                ).map_values(to_id).push(blocks@[i as int].0));
            }
            assert(out@ == s1.filter(pred).map_values(to_id));
        }
        i += 1;
    }
    proof {
        assert(blocks@.subrange(0, n as int) =~= blocks@);
    }
    out
}

} // verus!
