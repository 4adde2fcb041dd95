use vstd::prelude::*;
use bevy::ecs::entity::Entity;
use crate::block::Block;
use crate::color::Color;
use crate::coordinate::Coordinate;
use crate::lattice::{
    lemma_digits_linear_index, lemma_linear_index_bound, lemma_linear_index_digits, linear_index,
};

verus! {

/// What a chunk is, apart from how it is stored: the edge of the cube, the
/// occupied cells with their blocks, and the dirty flag.
pub struct ChunkView {
    pub size: nat,
    pub cells: Map<Coordinate, Block>,
    pub changed: bool,
}

impl ChunkView {
    /// A coordinate is inside the cube when all three indices are below the
    /// edge, that is when its largest index is.
    pub open spec fn in_bounds(self, coord: Coordinate) -> bool {
        coord.spec_max_element() < self.size
    }

    /// Only cells inside the cube are occupied.
    pub open spec fn wf(self) -> bool {
        forall|coord: Coordinate| #[trigger]
            self.cells.dom().contains(coord) ==> self.in_bounds(coord)
    }

    /// The number of cells.
    pub open spec fn block_count(self) -> nat {
        self.size * self.size * self.size
    }

    /// The block at a coordinate, if the cell is occupied.
    pub open spec fn get(self, coord: Coordinate) -> Option<Block> {
        if self.cells.dom().contains(coord) {
            Some(self.cells[coord])
        } else {
            None
        }
    }

    /// The chunk after a write: outside the cube nothing changes; inside, the
    /// cell takes the new content and the chunk is dirty.
    pub open spec fn set(self, coord: Coordinate, block: Option<Block>) -> ChunkView {
        if !self.in_bounds(coord) {
            self
        } else {
            ChunkView {
                size: self.size,
                cells: match block {
                    Some(b) => self.cells.insert(coord, b),
                    None => self.cells.remove(coord),
                },
                changed: true,
            }
        }
    }

    /// The place of a cell in the flat numbering: `x` runs fastest, then `y`,
    /// then `z`.
    pub open spec fn index_of(self, coord: Coordinate) -> int {
        coord.x + coord.y * self.size + coord.z * self.size * self.size
    }

    /// The cell at a place of the flat numbering.
    pub open spec fn coordinate_at(self, index: int) -> Coordinate {
        Coordinate {
            x: (index % (self.size as int)) as usize,
            y: ((index / (self.size as int)) % (self.size as int)) as usize,
            z: (index / (self.size * self.size) as int) as usize,
        }
    }

    /// The occupied cells among the first `n` of the flat numbering, in that
    /// order, each with its block.
    pub open spec fn assigned_below(self, n: nat) -> Seq<(Block, Coordinate)>
        decreases n,
    {
        if n == 0 {
            Seq::empty()
        } else {
            let rest = self.assigned_below((n - 1) as nat);
            let coord = self.coordinate_at(n - 1);
            match self.get(coord) {
                Some(block) => rest.push((block, coord)),
                None => rest,
            }
        }
    }

    /// All occupied cells in the order of the flat numbering.
    pub open spec fn assigned(self) -> Seq<(Block, Coordinate)> {
        self.assigned_below(self.block_count())
    }

    /// A chunk of the given edge with no block in it, not dirty.
    pub open spec fn empty(size: nat) -> ChunkView {
        ChunkView { size, cells: Map::empty(), changed: false }
    }

    /// A chunk whose cells below the given height hold a block of the given
    /// colour and whose other cells are empty. It is dirty when a block was
    /// placed.
    pub open spec fn ground(size: nat, height: nat, color: Color) -> ChunkView {
        ChunkView {
            size,
            cells: Map::new(
                |coord: Coordinate| coord.spec_max_element() < size && coord.y < height,
                |coord: Coordinate| Block { color },
            ),
            changed: size > 0 && height > 0,
        }
    }

    /// Inside the cube the flat numbering can be undone: the place of a cell
    /// is below the number of cells, and the cell at that place is the cell
    /// itself.
    pub proof fn lemma_index_round_trip(self, coord: Coordinate)
        requires
            self.in_bounds(coord),
        ensures
            0 <= self.index_of(coord) < self.block_count(),
            self.coordinate_at(self.index_of(coord)) == coord,
            self.index_of(coord) == linear_index(
                coord.x as int,
                coord.y as int,
                coord.z as int,
                self.size as int,
                self.size as int,
            ),
    {
        let n = self.size as int;
        assert(coord.z * n * n == coord.z * (n * n)) by (nonlinear_arith);
        lemma_linear_index_bound(coord.x as int, coord.y as int, coord.z as int, n, n, n);
        lemma_linear_index_digits(coord.x as int, coord.y as int, coord.z as int, n, n);
    }

    /// Every place below the number of cells is the place of exactly the
    /// cell found there, and that cell is inside the cube. The edge is one
    /// that a machine index can hold.
    pub proof fn lemma_coordinate_round_trip(self, index: int)
        requires
            0 <= index < self.block_count(),
            self.size <= usize::MAX,
        ensures
            self.in_bounds(self.coordinate_at(index)),
            self.index_of(self.coordinate_at(index)) == index,
    {
        let n = self.size as int;
        assert(n > 0) by (nonlinear_arith)
            requires
                0 <= index < n * n * n,
                n >= 0,
        ;
        lemma_digits_linear_index(index, n, n);
        let d2 = index / (n * n);
        assert(d2 < n) by (nonlinear_arith)
            requires
                0 <= index < n * n * n,
                n > 0,
                d2 == index / (n * n),
        {
            assert(n * n > 0);
            assert((n * n) * (index / (n * n)) + index % (n * n) == index);
            assert(index % (n * n) >= 0);
            if d2 >= n {
                assert((n * n) * d2 >= (n * n) * n);
            }
        }
        let coord = self.coordinate_at(index);
        assert(coord.x == index % n);
        assert(coord.y == (index / n) % n);
        assert(coord.z == d2);
        assert(coord.z * n * n == coord.z * (n * n)) by (nonlinear_arith);
    }

    /// Two cells inside the cube with the same place are the same cell.
    pub proof fn lemma_index_injective(self, a: Coordinate, b: Coordinate)
        requires
            self.in_bounds(a),
            self.in_bounds(b),
            self.index_of(a) == self.index_of(b),
        ensures
            a == b,
    {
        self.lemma_index_round_trip(a);
        self.lemma_index_round_trip(b);
    }
}

/// A cubic region of voxel storage.
#[derive(Debug)]
pub struct Chunk {
    blocks: Vec<Option<Block>>,
    data_changed: bool,
    size: usize,
}

impl View for Chunk {
    type V = ChunkView;

    closed spec fn view(&self) -> ChunkView {
        ChunkView {
            size: self.size as nat,
            cells: Map::new(
                |coord: Coordinate|
                    coord.spec_max_element() < self.size && self.blocks@[self.slot(coord)] is Some,
                |coord: Coordinate| self.blocks@[self.slot(coord)]->Some_0,
            ),
            changed: self.data_changed,
        }
    }
}

impl Clone for Chunk {
    fn clone(&self) -> (copy: Self)
        ensures
            copy@ == self@,
    {
        proof {
            use_type_invariant(self);
        }
        let mut blocks: Vec<Option<Block>> = Vec::new();
        let mut index: usize = 0;
        while index < self.blocks.len()
            invariant
                index <= self.blocks.len(),
                blocks@ == self.blocks@.subrange(0, index as int),
            decreases self.blocks.len() - index,
        {
            blocks.push(self.blocks[index]);
            index += 1;
            assert(blocks@ =~= self.blocks@.subrange(0, index as int));
        }
        assert(blocks@ =~= self.blocks@);
        let copy = Self { blocks, data_changed: self.data_changed, size: self.size };
        assert(copy@.cells =~= self@.cells);
        copy
    }
}

impl Default for Chunk {
    /// The chunk of edge 0, which has no cell.
    fn default() -> (chunk: Self)
        ensures
            chunk@ == ChunkView::empty(0),
    {
        Chunk::empty(0)
    }
}

impl Chunk {
    /// What holds of every chunk that a program has in hand: it stores one
    /// slot for each cell of its cube.
    #[verifier::type_invariant]
    pub closed spec fn well_formed(self) -> bool {
        self.blocks@.len() == self.size * self.size * self.size
    }

    closed spec fn slot(self, coord: Coordinate) -> int {
        coord.x + coord.y * self.size + coord.z * self.size * self.size
    }

    /// The number of cells of a cube with the given edge, if a machine index
    /// can hold it. A chunk can be made for exactly those edges for which it
    /// can.
    pub fn checked_block_count(size: usize) -> (count: Option<usize>)
        ensures
            count == if size * size * size <= usize::MAX {
                Some((size * size * size) as usize)
            } else {
                None
            },
    {
        assert(size * size <= size * size * size || size == 0) by (nonlinear_arith);
        match size.checked_mul(size) {
            Some(square) => square.checked_mul(size),
            None => None,
        }
    }

    /// A chunk of the given edge with every cell empty.
    pub fn empty(size: usize) -> (chunk: Self)
        requires
            size * size * size <= usize::MAX,
        ensures
            chunk@ == ChunkView::empty(size as nat),
    {
        assert(size * size <= size * size * size || size == 0) by (nonlinear_arith);
        let block_count = size * size * size;
        let mut blocks: Vec<Option<Block>> = Vec::new();
        let mut filled: usize = 0;
        while filled < block_count
            invariant
                filled <= block_count,
                blocks@.len() == filled,
                forall|i: int| 0 <= i < filled ==> blocks@[i] is None,
            decreases block_count - filled,
        {
            blocks.push(None);
            filled += 1;
        }
        let chunk = Self { blocks, data_changed: false, size };
        assert(chunk@.cells =~= Map::<Coordinate, Block>::empty()) by {
            assert forall|coord: Coordinate| coord.spec_max_element() < size implies 0
                <= chunk.slot(coord) < block_count by {
                chunk.lemma_slot(coord);
            }
        }
        chunk
    }

    /// The edge of the cube. The number of cells, its third power, is a
    /// number that a machine index holds.
    pub fn size(&self) -> (size: usize)
        ensures
            size == self@.size,
            self@.block_count() <= usize::MAX,
    {
        proof {
            use_type_invariant(self);
            self.lemma_view_wf();
        }
        self.size
    }

    /// The number of cells, the cube of the edge.
    pub fn block_count(&self) -> (count: usize)
        ensures
            count == self@.block_count(),
    {
        proof {
            use_type_invariant(self);
        }
        self.blocks.len()
    }

    /// Whether a write has happened since the flag was last cleared.
    pub fn data_changed(&self) -> (changed: bool)
        ensures
            changed == self@.changed,
    {
        self.data_changed
    }

    /// Marks the chunk as dirty without touching a cell.
    pub fn set_changed(&mut self)
        ensures
            final(self)@ == (ChunkView { changed: true, ..old(self)@ }),
    {
        proof {
            use_type_invariant(&*self);
        }
        self.data_changed = true;
        assert(self@.cells =~= old(self)@.cells);
    }

    /// Clears the dirty flag, as the observer that redraws the chunk does.
    pub fn clear_changed(&mut self)
        ensures
            final(self)@ == (ChunkView { changed: false, ..old(self)@ }),
    {
        proof {
            use_type_invariant(&*self);
        }
        self.data_changed = false;
        assert(self@.cells =~= old(self)@.cells);
    }

    /// The occupied cells of a chunk all lie inside its cube, and its edge is
    /// one that a machine index holds. So is the number of its cells, for a
    /// chunk that a program has in hand; with it, every cell inside the cube
    /// has a place that a machine index holds.
    pub proof fn lemma_view_wf(self)
        ensures
            self@.wf(),
            self@.size <= usize::MAX,
            self.well_formed() ==> self@.block_count() <= usize::MAX,
    {
        if self.well_formed() {
            assert(self.blocks.len() == self.blocks@.len());
        }
    }

    proof fn lemma_slot(self, coord: Coordinate)
        requires
            coord.spec_max_element() < self.size,
        ensures
            self.slot(coord) == self@.index_of(coord),
            0 <= self.slot(coord) < self.size * self.size * self.size,
    {
        assert(self@.size == self.size);
        self@.lemma_index_round_trip(coord);
    }

    /// The block at a coordinate; nothing where the coordinate is outside the
    /// cube or the cell is empty.
    pub fn get_block(&self, coord: Coordinate) -> (block: Option<Block>)
        ensures
            block == self@.get(coord),
    {
        if coord.max_element() >= self.size {
            None
        } else {
            proof {
                use_type_invariant(self);
                self.lemma_slot(coord);
                assert(self.blocks.len() <= usize::MAX);
            }
            let index = self.coordinate_to_index(coord);
            self.blocks[index]
        }
    }

    /// Writes a cell: a block to fill it, nothing to clear it. A coordinate
    /// outside the cube is ignored; a write inside marks the chunk dirty.
    pub fn set_block(&mut self, coord: Coordinate, new_block: Option<Block>)
        ensures
            final(self)@ == old(self)@.set(coord, new_block),
    {
        if coord.max_element() < self.size {
            proof {
                use_type_invariant(&*self);
                self.lemma_slot(coord);
                assert(self.blocks.len() <= usize::MAX);
            }
            let index = self.coordinate_to_index(coord);
            self.blocks[index] = new_block;
            self.data_changed = true;
            proof {
                let before = *old(self);
                let after = *self;
                assert forall|other: Coordinate|
                    other.spec_max_element() < self.size && other != coord implies after.slot(other)
                    != after.slot(coord) by {
                    after.lemma_slot(other);
                    after.lemma_slot(coord);
                    if after.slot(other) == after.slot(coord) {
                        after@.lemma_index_injective(other, coord);
                    }
                }
                assert forall|other: Coordinate| other.spec_max_element() < self.size implies 0
                    <= #[trigger] after.slot(other) < self.blocks@.len() by {
                    after.lemma_slot(other);
                }
                assert(after@.cells =~= before@.set(coord, new_block).cells);
            }
        }
    }

    /// Every occupied cell with its block, in the order of the flat
    /// numbering.
    pub fn get_assigned_blocks_with_coords(&self) -> (assigned: Vec<(Block, Coordinate)>)
        ensures
            assigned@ == self@.assigned(),
    {
        proof {
            use_type_invariant(self);
        }
        let mut assigned: Vec<(Block, Coordinate)> = Vec::new();
        let mut index: usize = 0;
        while index < self.blocks.len()
            invariant
                index <= self.blocks.len(),
                self.blocks@.len() == self.size * self.size * self.size,
                assigned@ == self@.assigned_below(index as nat),
            decreases self.blocks.len() - index,
        {
            proof {
                self@.lemma_coordinate_round_trip(index as int);
                self.lemma_slot(self@.coordinate_at(index as int));
            }
            match self.blocks[index] {
                Some(block) => {
                    let coord = self.index_to_coordinate(index);
                    assigned.push((block, coord));
                },
                None => {},
            }
            index += 1;
        }
        assigned
    }

    /// A chunk whose cells below `ground_height` hold a block of the given
    /// colour, for every `x` and `z` of the cube, and whose other cells are
    /// empty.
    pub fn flat_ground(ground_height: usize, color: Color, chunk_size: usize) -> (chunk: Self)
        requires
            chunk_size * chunk_size * chunk_size <= usize::MAX,
        ensures
            chunk@ == ChunkView::ground(chunk_size as nat, ground_height as nat, color),
    {
        let mut chunk = Chunk::empty(chunk_size);
        let height = if ground_height < chunk_size {
            ground_height
        } else {
            chunk_size
        };
        let block = Block::new(color);
        let mut x: usize = 0;
        while x < chunk_size
            invariant
                x <= chunk_size,
                height <= chunk_size,
                block == (Block { color }),
                chunk@.size == chunk_size,
                chunk@.changed == (x > 0 && height > 0),
                chunk@.cells =~= Map::new(
                    |c: Coordinate| c.spec_max_element() < chunk_size && c.y < height && c.x < x,
                    |c: Coordinate| block,
                ),
            decreases chunk_size - x,
        {
            let mut y: usize = 0;
            while y < height
                invariant
                    x < chunk_size,
                    y <= height,
                    height <= chunk_size,
                    block == (Block { color }),
                    chunk@.size == chunk_size,
                    chunk@.changed == ((x > 0 && height > 0) || y > 0),
                    chunk@.cells =~= Map::new(
                        |c: Coordinate|
                            c.spec_max_element() < chunk_size && c.y < height && (c.x < x || (c.x
                                == x && c.y < y)),
                        |c: Coordinate| block,
                    ),
                decreases height - y,
            {
                let mut z: usize = 0;
                while z < chunk_size
                    invariant
                        x < chunk_size,
                        y < height,
                        z <= chunk_size,
                        height <= chunk_size,
                        block == (Block { color }),
                        chunk@.size == chunk_size,
                        chunk@.changed == ((x > 0 && height > 0) || y > 0 || z > 0),
                        chunk@.cells =~= Map::new(
                            |c: Coordinate|
                                c.spec_max_element() < chunk_size && c.y < height && (c.x < x || (
                                c.x == x && (c.y < y || (c.y == y && c.z < z)))),
                            |c: Coordinate| block,
                        ),
                    decreases chunk_size - z,
                {
                    let coord = Coordinate::new(x, y, z);
                    chunk.set_block(coord, Some(block));
                    z += 1;
                }
                y += 1;
            }
            x += 1;
        }
        assert(chunk@.cells =~= ChunkView::ground(
            chunk_size as nat,
            ground_height as nat,
            color,
        ).cells);
        chunk
    }

    /// The place of a cell in the flat numbering: `x + y * size + z * size * size`.
    pub fn coordinate_to_index(&self, coord: Coordinate) -> (index: usize)
        requires
            self@.index_of(coord) <= usize::MAX,
        ensures
            index == self@.index_of(coord),
    {
        let size = self.size;
        assert(coord.y * size <= usize::MAX && coord.z * size <= coord.z * size * size
            && coord.z * size * size <= usize::MAX) by (nonlinear_arith)
            requires
                coord.x + coord.y * size + coord.z * size * size <= usize::MAX,
        ;
        coord.x + coord.y * self.size + coord.z * self.size * self.size
    }

    /// The cell at a place of the flat numbering: the inverse of
    /// `coordinate_to_index` on the cells of the cube.
    pub fn index_to_coordinate(&self, index: usize) -> (coord: Coordinate)
        requires
            self@.size > 0,
        ensures
            coord == self@.coordinate_at(index as int),
    {
        proof {
            use_type_invariant(self);
            assert(self.blocks.len() <= usize::MAX);
        }
        let size = self.size;
        assert(size * size <= size * size * size) by (nonlinear_arith)
            requires
                size > 0,
        ;
        assert(size * size > 0) by (nonlinear_arith)
            requires
                size > 0,
        ;
        let x = index % size;
        let y = (index / size) % size;
        let z = index / (size * size);
        Coordinate::new(x, y, z)
    }
}

/// The request to draw a chunk anew.
#[derive(Clone, Copy, Debug)]
pub struct OnRedrawChunkRequest {
    pub chunk: Entity,
}

impl OnRedrawChunkRequest {
    pub fn new(chunk: Entity) -> (request: Self)
        ensures
            request.chunk == chunk,
    {
        Self { chunk }
    }
}

/// Looks whether a chunk is dirty. A dirty chunk gives a request to redraw
/// it, under the name by which the scene knows it, and is dirty no longer.
pub fn check_chunk_that_changed(chunk: &mut Chunk, entity: Entity) -> (request: Option<
    OnRedrawChunkRequest,
>)
    ensures
        final(chunk)@ == (ChunkView { changed: false, ..old(chunk)@ }),
        request == if old(chunk)@.changed {
            Some(OnRedrawChunkRequest { chunk: entity })
        } else {
            None
        },
{
    if chunk.data_changed() {
        chunk.clear_changed();
        Some(OnRedrawChunkRequest::new(entity))
    } else {
        None
    }
}

} // verus!
