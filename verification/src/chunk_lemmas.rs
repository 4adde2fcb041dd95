use vstd::prelude::*;
use crate::block::Block;
use crate::chunk::ChunkView;
use crate::color::Color;
use crate::coordinate::Coordinate;

verus! {

/// A coordinate whose largest index reaches the edge is outside the cube:
/// a read there finds nothing, and a write there leaves the chunk as it was,
/// whatever is written.
pub proof fn lemma_out_of_bounds_is_inert(
    chunk: ChunkView,
    coord: Coordinate,
    block: Option<Block>,
)
    requires
        chunk.wf(),
        coord.spec_max_element() >= chunk.size,
    ensures
        chunk.get(coord) is None,
        chunk.set(coord, block) == chunk,
{
}

/// Inside the cube a read returns what the last write to the cell put
/// there: the block after a block was written, nothing after the cell was
/// cleared.
pub proof fn lemma_set_then_get(chunk: ChunkView, coord: Coordinate, block: Option<Block>)
    requires
        chunk.in_bounds(coord),
    ensures
        chunk.set(coord, block).get(coord) == block,
{
}

/// A write touches one cell: every other cell reads as before, and the edge
/// of the cube stays.
pub proof fn lemma_set_leaves_others(
    chunk: ChunkView,
    coord: Coordinate,
    block: Option<Block>,
    other: Coordinate,
)
    requires
        other != coord,
    ensures
        chunk.set(coord, block).get(other) == chunk.get(other),
        chunk.set(coord, block).size == chunk.size,
{
}

/// A write keeps the occupied cells inside the cube.
pub proof fn lemma_set_preserves_wf(chunk: ChunkView, coord: Coordinate, block: Option<Block>)
    requires
        chunk.wf(),
    ensures
        chunk.set(coord, block).wf(),
{
}

/// A fresh empty chunk is not dirty; a write inside the cube makes a chunk
/// dirty, and a write outside leaves the flag alone.
pub proof fn lemma_dirty_flag(
    size: nat,
    chunk: ChunkView,
    coord: Coordinate,
    block: Option<Block>,
)
    ensures
        !ChunkView::empty(size).changed,
        chunk.in_bounds(coord) ==> chunk.set(coord, block).changed,
        !chunk.in_bounds(coord) ==> chunk.set(coord, block).changed == chunk.changed,
{
}

/// In a flat ground every cell of the cube below the height holds a block of
/// the colour, and every other cell is empty.
pub proof fn lemma_ground_cells(size: nat, height: nat, color: Color, coord: Coordinate)
    ensures
        ChunkView::ground(size, height, color).wf(),
        ChunkView::ground(size, height, color).get(coord) == if coord.spec_max_element() < size
            && coord.y < height {
            Some(Block { color })
        } else {
            None
        },
{
}

/// Among the first `n` places, the listing holds a pair exactly when the
/// cell is occupied by that block and its place is below `n`.
proof fn lemma_assigned_below(chunk: ChunkView, n: nat, block: Block, coord: Coordinate)
    requires
        chunk.wf(),
        chunk.size <= usize::MAX,
        n <= chunk.block_count(),
    ensures
        chunk.assigned_below(n).contains((block, coord)) <==> (chunk.get(coord) == Some(block)
            && chunk.index_of(coord) < n),
    decreases n,
{
    if n > 0 {
        let rest = chunk.assigned_below((n - 1) as nat);
        let last = chunk.coordinate_at(n - 1);
        lemma_assigned_below(chunk, (n - 1) as nat, block, coord);
        chunk.lemma_coordinate_round_trip(n - 1);
        if chunk.get(coord) is Some {
            chunk.lemma_index_round_trip(coord);
        }
        match chunk.get(last) {
            Some(found) => {
                let grown = rest.push((found, last));
                assert(grown[grown.len() - 1] == (found, last));
                assert(forall|i: int| 0 <= i < rest.len() ==> grown[i] == rest[i]);
                if rest.contains((block, coord)) {
                    let i = choose|i: int| 0 <= i < rest.len() && rest[i] == (block, coord);
                    assert(grown[i] == (block, coord));
                }
            },
            None => {},
        }
    }
}

/// The listing of a chunk holds a pair of block and coordinate exactly when
/// that cell is occupied by that block.
pub proof fn lemma_assigned_lists_occupied(chunk: ChunkView, block: Block, coord: Coordinate)
    requires
        chunk.wf(),
        chunk.size <= usize::MAX,
    ensures
        chunk.assigned().contains((block, coord)) <==> chunk.get(coord) == Some(block),
{
    lemma_assigned_below(chunk, chunk.block_count(), block, coord);
    if chunk.get(coord) is Some {
        chunk.lemma_index_round_trip(coord);
    }
}

} // verus!
