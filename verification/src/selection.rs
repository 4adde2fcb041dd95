use vstd::prelude::*;
use vstd::arithmetic::div_mod::lemma_fundamental_div_mod;
use crate::block::Block;
use crate::chunk::{Chunk, ChunkView};
use crate::color::Color;
use crate::color_library::OnColorClicked;
use crate::coordinate::Coordinate;
use crate::lattice::{
    lemma_digits_linear_index, lemma_linear_index_bound, lemma_linear_index_digits, linear_index,
};
use crate::mouse_events::{MouseButton, OnMouseDrag, OnMousePressed};
use crate::mouse_target::MouseTarget;

verus! {

/// The smaller of two indices.
pub open spec fn lower(a: usize, b: usize) -> usize {
    if a <= b {
        a
    } else {
        b
    }
}

/// How many indices lie between two indices, both counted.
pub open spec fn span(a: usize, b: usize) -> int {
    if a <= b {
        b - a + 1
    } else {
        a - b + 1
    }
}

/// How many cells the box spanned by two corners has.
pub open spec fn box_volume(start: Coordinate, end: Coordinate) -> int {
    span(start.x, end.x) * span(start.y, end.y) * span(start.z, end.z)
}

/// The cell at place `i` of the box with lowest corner `low` that is `ny`
/// cells deep in `y` and `nz` cells deep in `z`, when the cells are listed
/// with `z` running fastest, then `y`, then `x`.
pub open spec fn box_cell(low: Coordinate, ny: int, nz: int, i: int) -> Coordinate {
    Coordinate {
        x: (low.x + i / (ny * nz)) as usize,
        y: (low.y + (i / nz) % ny) as usize,
        z: (low.z + i % nz) as usize,
    }
}

/// Every cell of the box spanned by two corners, whichever way round the
/// corners are given, the corners included: `x` ascending, within one `x`
/// the `y` ascending, within one `y` the `z` ascending.
pub open spec fn coordinates_between(start: Coordinate, end: Coordinate) -> Seq<Coordinate> {
    let low = Coordinate {
        x: lower(start.x, end.x),
        y: lower(start.y, end.y),
        z: lower(start.z, end.z),
    };
    Seq::new(
        box_volume(start, end) as nat,
        |i: int| box_cell(low, span(start.y, end.y), span(start.z, end.z), i),
    )
}

/// The cell that the loops of `get_coordinates_between` reach at offsets
/// `(i, j, k)` from the lowest corner stands at its place in the listing.
proof fn lemma_box_cell(low: Coordinate, nx: int, ny: int, nz: int, i: int, j: int, k: int)
    requires
        0 <= i < nx,
        0 <= j < ny,
        0 <= k < nz,
        low.x + i <= usize::MAX,
        low.y + j <= usize::MAX,
        low.z + k <= usize::MAX,
    ensures
        0 <= i * (ny * nz) + j * nz + k < nx * ny * nz,
        box_cell(low, ny, nz, i * (ny * nz) + j * nz + k) == (Coordinate {
            x: (low.x + i) as usize,
            y: (low.y + j) as usize,
            z: (low.z + k) as usize,
        }),
{
    let place = i * (ny * nz) + j * nz + k;
    assert(ny * nz == nz * ny && nx * ny * nz == nz * ny * nx) by (nonlinear_arith);
    assert(place == linear_index(k, j, i, nz, ny));
    lemma_linear_index_digits(k, j, i, nz, ny);
    lemma_linear_index_bound(k, j, i, nz, ny, nx);
}

/// How many indices lie between two indices, both counted, if a machine
/// index can hold the number.
fn checked_span(a: usize, b: usize) -> (count: Option<usize>)
    ensures
        count == if span(a, b) <= usize::MAX {
            Some(span(a, b) as usize)
        } else {
            None
        },
{
    if a <= b {
        (b - a).checked_add(1)
    } else {
        (a - b).checked_add(1)
    }
}

/// How many cells the box spanned by two corners has, if a machine index can
/// hold the number. The box can be listed exactly when it can.
pub fn checked_box_volume(start: Coordinate, end: Coordinate) -> (volume: Option<usize>)
    ensures
        volume == if box_volume(start, end) <= usize::MAX {
            Some(box_volume(start, end) as usize)
        } else {
            None
        },
{
    let ghost gx = span(start.x, end.x);
    let ghost gy = span(start.y, end.y);
    let ghost gz = span(start.z, end.z);
    assert(gx <= gx * gy && gy <= gx * gy && gx * gy <= gx * gy * gz && gz <= gx * gy * gz)
        by (nonlinear_arith)
        requires
            gx >= 1,
            gy >= 1,
            gz >= 1,
    ;
    match (
        checked_span(start.x, end.x),
        checked_span(start.y, end.y),
        checked_span(start.z, end.z),
    ) {
        (Some(nx), Some(ny), Some(nz)) => match nx.checked_mul(ny) {
            Some(area) => area.checked_mul(nz),
            None => None,
        },
        _ => None,
    }
}

/// A coordinate is listed in the box between two corners exactly when each
/// of its indices lies between the corners' indices.
pub proof fn lemma_between_contains(start: Coordinate, end: Coordinate, coord: Coordinate)
    requires
        box_volume(start, end) <= usize::MAX,
    ensures
        coordinates_between(start, end).contains(coord) <==> {
            &&& lower(start.x, end.x) <= coord.x < lower(start.x, end.x) + span(start.x, end.x)
            &&& lower(start.y, end.y) <= coord.y < lower(start.y, end.y) + span(start.y, end.y)
            &&& lower(start.z, end.z) <= coord.z < lower(start.z, end.z) + span(start.z, end.z)
        },
{
    let low = Coordinate {
        x: lower(start.x, end.x),
        y: lower(start.y, end.y),
        z: lower(start.z, end.z),
    };
    let nx = span(start.x, end.x);
    let ny = span(start.y, end.y);
    let nz = span(start.z, end.z);
    let listing = coordinates_between(start, end);
    assert(nx * ny * nz == nz * ny * nx && ny * nz == nz * ny) by (nonlinear_arith);
    if listing.contains(coord) {
        let p = choose|p: int| 0 <= p < listing.len() && listing[p] == coord;
        lemma_digits_linear_index(p, nz, ny);
        lemma_fundamental_div_mod(p, nz * ny);
        assert(p / (nz * ny) < nx) by (nonlinear_arith)
            requires
                0 <= p < nz * ny * nx,
                nz * ny > 0,
                p == (nz * ny) * (p / (nz * ny)) + p % (nz * ny),
                p % (nz * ny) >= 0,
        {
            if p / (nz * ny) >= nx {
                assert((nz * ny) * (p / (nz * ny)) >= (nz * ny) * nx);
            }
        }
    }
    if low.x <= coord.x < low.x + nx && low.y <= coord.y < low.y + ny && low.z <= coord.z < low.z
        + nz {
        let i = coord.x - low.x;
        let j = coord.y - low.y;
        let k = coord.z - low.z;
        lemma_box_cell(low, nx, ny, nz, i, j, k);
        let p = i * (ny * nz) + j * nz + k;
        assert(listing[p] == coord);
    }
}

/// Every cell of the box spanned by two corners, in ascending order of `x`,
/// then `y`, then `z`.
pub fn get_coordinates_between(start: Coordinate, end: Coordinate) -> (result: Vec<Coordinate>)
    requires
        box_volume(start, end) <= usize::MAX,
    ensures
        result@ == coordinates_between(start, end),
{
    let (low_x, high_x) = if start.x <= end.x {
        (start.x, end.x)
    } else {
        (end.x, start.x)
    };
    let (low_y, high_y) = if start.y <= end.y {
        (start.y, end.y)
    } else {
        (end.y, start.y)
    };
    let (low_z, high_z) = if start.z <= end.z {
        (start.z, end.z)
    } else {
        (end.z, start.z)
    };
    let ghost low = Coordinate { x: low_x, y: low_y, z: low_z };
    let ghost gx = span(start.x, end.x);
    let ghost gy = span(start.y, end.y);
    let ghost gz = span(start.z, end.z);
    assert(gx <= gx * gy * gz && gy <= gx * gy * gz && gz <= gx * gy * gz) by (nonlinear_arith)
        requires
            gx >= 1,
            gy >= 1,
            gz >= 1,
    ;
    let nx: usize = high_x - low_x + 1;
    let ny: usize = high_y - low_y + 1;
    let nz: usize = high_z - low_z + 1;
    let mut result: Vec<Coordinate> = Vec::new();
    let mut i: usize = 0;
    while i < nx
        invariant
            i <= nx,
            nx == gx,
            ny == gy,
            nz == gz,
            nx >= 1 && ny >= 1 && nz >= 1,
            low == (Coordinate { x: low_x, y: low_y, z: low_z }),
            low_x + nx - 1 <= usize::MAX,
            low_y + ny - 1 <= usize::MAX,
            low_z + nz - 1 <= usize::MAX,
            result@.len() == i * (ny * nz),
            forall|p: int| 0 <= p < result@.len() ==> result@[p] == box_cell(low, gy, gz, p),
        decreases nx - i,
    {
        let mut j: usize = 0;
        while j < ny
            invariant
                i < nx,
                j <= ny,
                nx == gx,
                ny == gy,
                nz == gz,
                nx >= 1 && ny >= 1 && nz >= 1,
                low == (Coordinate { x: low_x, y: low_y, z: low_z }),
                low_x + nx - 1 <= usize::MAX,
                low_y + ny - 1 <= usize::MAX,
                low_z + nz - 1 <= usize::MAX,
                result@.len() == i * (ny * nz) + j * nz,
                forall|p: int| 0 <= p < result@.len() ==> result@[p] == box_cell(low, gy, gz, p),
            decreases ny - j,
        {
            let mut k: usize = 0;
            while k < nz
                invariant
                    i < nx,
                    j < ny,
                    k <= nz,
                    nx == gx,
                    ny == gy,
                    nz == gz,
                    nx >= 1 && ny >= 1 && nz >= 1,
                    low == (Coordinate { x: low_x, y: low_y, z: low_z }),
                    low_x + nx - 1 <= usize::MAX,
                    low_y + ny - 1 <= usize::MAX,
                    low_z + nz - 1 <= usize::MAX,
                    result@.len() == i * (ny * nz) + j * nz + k,
                    forall|p: int|
                        0 <= p < result@.len() ==> result@[p] == box_cell(low, gy, gz, p),
                decreases nz - k,
            {
                proof {
                    lemma_box_cell(low, gx, gy, gz, i as int, j as int, k as int);
                }
                result.push(Coordinate::new(low_x + i, low_y + j, low_z + k));
                k += 1;
            }
            j += 1;
            assert(i * (ny * nz) + (j - 1) * nz + nz == i * (ny * nz) + j * nz)
                by (nonlinear_arith);
        }
        i += 1;
        assert((i - 1) * (ny * nz) + ny * nz == i * (ny * nz)) by (nonlinear_arith);
    }
    assert(nx * (ny * nz) == gx * gy * gz) by (nonlinear_arith)
        requires
            nx == gx,
            ny == gy,
            nz == gz,
    ;
    assert(result@ =~= coordinates_between(start, end));
    result
}

/// The predicate that holds of every coordinate but one.
pub open spec fn other_than(coord: Coordinate) -> spec_fn(Coordinate) -> bool {
    |c: Coordinate| c != coord
}

/// A selection after one coordinate was toggled: a coordinate that was
/// selected leaves it, wherever and however often it stood there; one that
/// was not selected joins it at the end.
pub open spec fn toggled(selection: Seq<Coordinate>, coord: Coordinate) -> Seq<Coordinate> {
    if selection.contains(coord) {
        selection.filter(other_than(coord))
    } else {
        selection.push(coord)
    }
}

/// A selection after a gesture from `start` to `end`: without both ends it
/// stays; a gesture that ends where it began toggles that cell; any other
/// replaces the selection by the box between the two ends.
pub open spec fn updated(
    selection: Seq<Coordinate>,
    start: Option<Coordinate>,
    end: Option<Coordinate>,
) -> Seq<Coordinate> {
    match (start, end) {
        (Some(s), Some(e)) => if s == e {
            toggled(selection, s)
        } else {
            coordinates_between(s, e)
        },
        _ => selection,
    }
}

/// Whether the box that a gesture from `start` to `end` selects can be
/// listed: it has no more cells than a machine index counts.
pub open spec fn gesture_fits(start: Option<Coordinate>, end: Option<Coordinate>) -> bool {
    match (start, end) {
        (Some(s), Some(e)) => s != e ==> box_volume(s, e) <= usize::MAX,
        _ => true,
    }
}

/// A chunk after the occupied cells among `coords` were given a block of the
/// colour: the same cells are occupied as before; those named in `coords`
/// hold the new block, the others their old one; the chunk is dirty if it
/// was or if one of the coordinates named an occupied cell.
pub open spec fn recolored(chunk: ChunkView, coords: Seq<Coordinate>, color: Color) -> ChunkView {
    ChunkView {
        size: chunk.size,
        cells: Map::new(
            |c: Coordinate| chunk.cells.dom().contains(c),
            |c: Coordinate|
                if coords.contains(c) {
                    Block { color }
                } else {
                    chunk.cells[c]
                },
        ),
        changed: chunk.changed || exists|i: int|
            0 <= i < coords.len() && chunk.cells.dom().contains(#[trigger] coords[i]),
    }
}

/// A chunk after the cells named in `coords` were cleared: they are empty,
/// the others as before; the chunk is dirty if it was or if one of the
/// coordinates lies inside the cube.
pub open spec fn cleared(chunk: ChunkView, coords: Seq<Coordinate>) -> ChunkView {
    ChunkView {
        size: chunk.size,
        cells: Map::new(
            |c: Coordinate| chunk.cells.dom().contains(c) && !coords.contains(c),
            |c: Coordinate| chunk.cells[c],
        ),
        changed: chunk.changed || exists|i: int|
            0 <= i < coords.len() && chunk.in_bounds(#[trigger] coords[i]),
    }
}

/// The cells picked for the next edit, in the order in which they were
/// picked.
#[derive(Debug)]
pub struct CurrentSelection {
    coordinates: Vec<Coordinate>,
}

impl View for CurrentSelection {
    type V = Seq<Coordinate>;

    closed spec fn view(&self) -> Seq<Coordinate> {
        self.coordinates@
    }
}

impl Default for CurrentSelection {
    /// Nothing selected.
    fn default() -> (selection: Self)
        ensures
            selection@ == Seq::<Coordinate>::empty(),
    {
        Self { coordinates: Vec::new() }
    }
}

impl CurrentSelection {
    /// The selected coordinates, in order.
    pub fn coordinates(&self) -> (coordinates: &Vec<Coordinate>)
        ensures
            coordinates@ == self@,
    {
        &self.coordinates
    }

    pub fn clear_selection(&mut self)
        ensures
            final(self)@ == Seq::<Coordinate>::empty(),
    {
        self.coordinates.clear();
    }

    /// Whether a coordinate is selected.
    pub fn contains(&self, coord: Coordinate) -> (found: bool)
        ensures
            found == self@.contains(coord),
    {
        let mut index: usize = 0;
        while index < self.coordinates.len()
            invariant
                index <= self.coordinates.len(),
                forall|i: int| 0 <= i < index ==> self.coordinates@[i] != coord,
            decreases self.coordinates.len() - index,
        {
            if self.coordinates[index] == coord {
                return true;
            }
            index += 1;
        }
        false
    }
}

/// Takes a coordinate out of the selection if it is in it, and puts it in if
/// it is not.
pub fn toggle_coordinate_in_selection(coord: Coordinate, selection: &mut CurrentSelection)
    ensures
        final(selection)@ == toggled(old(selection)@, coord),
{
    if selection.contains(coord) {
        let ghost before = selection@;
        let mut kept: Vec<Coordinate> = Vec::new();
        let mut index: usize = 0;
        while index < selection.coordinates.len()
            invariant
                index <= selection.coordinates.len(),
                selection@ == before,
                kept@ == before.subrange(0, index as int).filter(other_than(coord)),
            decreases selection.coordinates.len() - index,
        {
            let item = selection.coordinates[index];
            proof {
                reveal(Seq::filter);
                let longer = before.subrange(0, index + 1);
                assert(longer.drop_last() =~= before.subrange(0, index as int));
                assert(longer.last() == item);
            }
            if item != coord {
                kept.push(item);
            }
            index += 1;
        }
        assert(before.subrange(0, index as int) =~= before);
        selection.coordinates = kept;
    } else {
        selection.coordinates.push(coord);
    }
}

/// Replaces the selection by the box between two corners.
pub fn select_group(current_selection: &mut CurrentSelection, start: Coordinate, end: Coordinate)
    requires
        box_volume(start, end) <= usize::MAX,
    ensures
        final(current_selection)@ == coordinates_between(start, end),
{
    current_selection.coordinates = get_coordinates_between(start, end);
}

/// Applies a gesture from `start` to `end` to the selection.
pub fn update_selection(
    current_selection: &mut CurrentSelection,
    start: Option<Coordinate>,
    end: Option<Coordinate>,
)
    requires
        gesture_fits(start, end),
    ensures
        final(current_selection)@ == updated(old(current_selection)@, start, end),
{
    match (start, end) {
        (Some(start), Some(end)) => {
            if start == end {
                toggle_coordinate_in_selection(start, current_selection);
            } else {
                select_group(current_selection, start, end);
            }
        },
        _ => {},
    }
}

/// Gives every selected cell that holds a block a block of the colour.
/// Selected cells that are empty stay empty.
pub fn apply_color_to_selection(
    color: Color,
    current_selection: &CurrentSelection,
    chunk: &mut Chunk,
)
    ensures
        final(chunk)@ == recolored(old(chunk)@, current_selection@, color),
{
    let ghost before = chunk@;
    let ghost coords = current_selection@;
    let mut index: usize = 0;
    proof {
        chunk.lemma_view_wf();
        assert(chunk@.cells =~= recolored(before, coords.subrange(0, 0), color).cells);
    }
    while index < current_selection.coordinates.len()
        invariant
            index <= current_selection.coordinates.len(),
            coords == current_selection@,
            before.wf(),
            chunk@.wf(),
            chunk@ == recolored(before, coords.subrange(0, index as int), color),
        decreases current_selection.coordinates.len() - index,
    {
        let coord = current_selection.coordinates[index];
        let ghost prefix = coords.subrange(0, index as int);
        let ghost longer = coords.subrange(0, index + 1);
        let ghost held = chunk@;
        if chunk.get_block(coord).is_some() {
            chunk.set_block(coord, Some(Block::new(color)));
        }
        proof {
            assert(longer[index as int] == coord);
            assert(forall|i: int| 0 <= i < prefix.len() ==> longer[i] == prefix[i]);
            assert forall|c: Coordinate| longer.contains(c) <==> (prefix.contains(c) || c
                == coord) by {
                if prefix.contains(c) {
                    let i = choose|i: int| 0 <= i < prefix.len() && prefix[i] == c;
                    assert(longer[i] == c);
                }
                if longer.contains(c) {
                    let i = choose|i: int| 0 <= i < longer.len() && longer[i] == c;
                    if i < prefix.len() {
                        assert(prefix[i] == c);
                    }
                }
            }
            let target = recolored(before, longer, color);
            assert(chunk@.cells =~= target.cells);
            if target.changed && !chunk@.changed {
                let i = choose|i: int|
                    0 <= i < longer.len() && before.cells.dom().contains(#[trigger] longer[i]);
                if i < prefix.len() {
                    assert(prefix[i] == longer[i]);
                }
            }
            if chunk@.changed && !before.changed {
                if held.changed {
                    let i = choose|i: int|
                        0 <= i < prefix.len() && before.cells.dom().contains(
                            #[trigger] prefix[i],
                        );
                    assert(longer[i] == prefix[i]);
                } else {
                    assert(before.cells.dom().contains(longer[index as int]));
                }
            }
        }
        index += 1;
    }
    assert(coords.subrange(0, index as int) =~= coords);
}

/// Clears every selected cell.
pub fn delete_selected_blocks(current_selection: &CurrentSelection, chunk: &mut Chunk)
    ensures
        final(chunk)@ == cleared(old(chunk)@, current_selection@),
{
    let ghost before = chunk@;
    let ghost coords = current_selection@;
    let mut index: usize = 0;
    proof {
        chunk.lemma_view_wf();
        assert(chunk@.cells =~= cleared(before, coords.subrange(0, 0)).cells);
    }
    while index < current_selection.coordinates.len()
        invariant
            index <= current_selection.coordinates.len(),
            coords == current_selection@,
            before.wf(),
            chunk@.wf(),
            chunk@ == cleared(before, coords.subrange(0, index as int)),
        decreases current_selection.coordinates.len() - index,
    {
        let coord = current_selection.coordinates[index];
        let ghost prefix = coords.subrange(0, index as int);
        let ghost longer = coords.subrange(0, index + 1);
        let ghost held = chunk@;
        chunk.set_block(coord, None);
        proof {
            assert(longer[index as int] == coord);
            assert(forall|i: int| 0 <= i < prefix.len() ==> longer[i] == prefix[i]);
            assert forall|c: Coordinate| longer.contains(c) <==> (prefix.contains(c) || c
                == coord) by {
                if prefix.contains(c) {
                    let i = choose|i: int| 0 <= i < prefix.len() && prefix[i] == c;
                    assert(longer[i] == c);
                }
                if longer.contains(c) {
                    let i = choose|i: int| 0 <= i < longer.len() && longer[i] == c;
                    if i < prefix.len() {
                        assert(prefix[i] == c);
                    }
                }
            }
            let target = cleared(before, longer);
            assert(chunk@.cells =~= target.cells);
            if target.changed && !chunk@.changed {
                let i = choose|i: int|
                    0 <= i < longer.len() && before.in_bounds(#[trigger] longer[i]);
                if i < prefix.len() {
                    assert(prefix[i] == longer[i]);
                }
            }
            if chunk@.changed && !before.changed {
                if held.changed {
                    let i = choose|i: int|
                        0 <= i < prefix.len() && before.in_bounds(#[trigger] prefix[i]);
                    assert(longer[i] == prefix[i]);
                } else {
                    assert(before.in_bounds(longer[index as int]));
                }
            }
        }
        index += 1;
    }
    assert(coords.subrange(0, index as int) =~= coords);
}

/// The cell that a target looks at, if there is a target.
pub open spec fn looked_at(target: Option<MouseTarget>) -> Option<Coordinate> {
    match target {
        Some(target) => Some(target.in_coord),
        None => None,
    }
}

/// Whether a press picks a cell: it is made with the left button on a target.
pub open spec fn press_selects(press: OnMousePressed) -> bool {
    press.button == MouseButton::Left && press.target is Some
}

/// Whether a drag changes the selection: it is made with the left button and
/// has ended.
pub open spec fn drag_selects(drag: OnMouseDrag) -> bool {
    drag.button == MouseButton::Left && drag.spec_drag_ended()
}

/// A selection after a row of presses: each press that selects toggles the
/// cell it looks at.
pub open spec fn after_presses(
    selection: Seq<Coordinate>,
    presses: Seq<OnMousePressed>,
) -> Seq<Coordinate>
    decreases presses.len(),
{
    if presses.len() == 0 {
        selection
    } else {
        let before = after_presses(selection, presses.drop_last());
        if press_selects(presses.last()) {
            toggled(before, presses.last().target->Some_0.in_coord)
        } else {
            before
        }
    }
}

/// A selection after a row of drags: each drag that selects is a gesture
/// between the cells that its two ends look at.
pub open spec fn after_drags(selection: Seq<Coordinate>, drags: Seq<OnMouseDrag>) -> Seq<
    Coordinate,
>
    decreases drags.len(),
{
    if drags.len() == 0 {
        selection
    } else {
        let before = after_drags(selection, drags.drop_last());
        if drag_selects(drags.last()) {
            updated(before, looked_at(drags.last().start), looked_at(drags.last().end))
        } else {
            before
        }
    }
}

/// Whether the box of every drag that selects can be listed.
pub open spec fn selecting_drags_fit(drags: Seq<OnMouseDrag>) -> bool {
    forall|i: int|
        0 <= i < drags.len() && drag_selects(#[trigger] drags[i]) ==> gesture_fits(
            looked_at(drags[i].start),
            looked_at(drags[i].end),
        )
}

/// A chunk after the selection was recoloured once for each click, in order.
pub open spec fn after_color_clicks(
    chunk: ChunkView,
    coords: Seq<Coordinate>,
    clicks: Seq<OnColorClicked>,
) -> ChunkView
    decreases clicks.len(),
{
    if clicks.len() == 0 {
        chunk
    } else {
        recolored(after_color_clicks(chunk, coords, clicks.drop_last()), coords, clicks.last().color)
    }
}

/// Toggles the cell under each press made with the left button.
pub fn handle_mouse_pressed(
    on_mouse_pressed: &Vec<OnMousePressed>,
    current_selection: &mut CurrentSelection,
)
    ensures
        final(current_selection)@ == after_presses(old(current_selection)@, on_mouse_pressed@),
{
    let ghost before = current_selection@;
    let mut index: usize = 0;
    while index < on_mouse_pressed.len()
        invariant
            index <= on_mouse_pressed.len(),
            current_selection@ == after_presses(
                before,
                on_mouse_pressed@.subrange(0, index as int),
            ),
        decreases on_mouse_pressed.len() - index,
    {
        proof {
            let longer = on_mouse_pressed@.subrange(0, index + 1);
            assert(longer.drop_last() =~= on_mouse_pressed@.subrange(0, index as int));
            assert(longer.last() == on_mouse_pressed@[index as int]);
        }
        let mouse_press = on_mouse_pressed[index];
        if mouse_press.button == MouseButton::Left {
            match mouse_press.target {
                Some(target) => {
                    toggle_coordinate_in_selection(target.in_coord, current_selection);
                },
                None => {},
            }
        }
        index += 1;
    }
    assert(on_mouse_pressed@.subrange(0, index as int) =~= on_mouse_pressed@);
}

/// Applies each drag that ended with the left button to the selection.
pub fn handle_drag_selection(
    on_mouse_drag: &Vec<OnMouseDrag>,
    current_selection: &mut CurrentSelection,
)
    requires
        selecting_drags_fit(on_mouse_drag@),
    ensures
        final(current_selection)@ == after_drags(old(current_selection)@, on_mouse_drag@),
{
    let ghost before = current_selection@;
    let mut index: usize = 0;
    while index < on_mouse_drag.len()
        invariant
            index <= on_mouse_drag.len(),
            selecting_drags_fit(on_mouse_drag@),
            current_selection@ == after_drags(before, on_mouse_drag@.subrange(0, index as int)),
        decreases on_mouse_drag.len() - index,
    {
        proof {
            let longer = on_mouse_drag@.subrange(0, index + 1);
            assert(longer.drop_last() =~= on_mouse_drag@.subrange(0, index as int));
            assert(longer.last() == on_mouse_drag@[index as int]);
        }
        let mouse_drag = on_mouse_drag[index];
        if mouse_drag.button == MouseButton::Left && mouse_drag.drag_ended() {
            let start = match mouse_drag.start {
                Some(target) => Some(target.in_coord),
                None => None,
            };
            let end = match mouse_drag.end {
                Some(target) => Some(target.in_coord),
                None => None,
            };
            update_selection(current_selection, start, end);
        }
        index += 1;
    }
    assert(on_mouse_drag@.subrange(0, index as int) =~= on_mouse_drag@);
}

/// Recolours the selected blocks once for each colour clicked, in order.
pub fn handle_color_change_input(
    current_selection: &CurrentSelection,
    on_color_clicked: &Vec<OnColorClicked>,
    chunk: &mut Chunk,
)
    ensures
        final(chunk)@ == after_color_clicks(old(chunk)@, current_selection@, on_color_clicked@),
{
    let ghost before = chunk@;
    let mut index: usize = 0;
    while index < on_color_clicked.len()
        invariant
            index <= on_color_clicked.len(),
            chunk@ == after_color_clicks(
                before,
                current_selection@,
                on_color_clicked@.subrange(0, index as int),
            ),
        decreases on_color_clicked.len() - index,
    {
        proof {
            let longer = on_color_clicked@.subrange(0, index + 1);
            assert(longer.drop_last() =~= on_color_clicked@.subrange(0, index as int));
            assert(longer.last() == on_color_clicked@[index as int]);
        }
        let color = on_color_clicked[index].color;
        apply_color_to_selection(color, current_selection, chunk);
        index += 1;
    }
    assert(on_color_clicked@.subrange(0, index as int) =~= on_color_clicked@);
}

/// When the delete key went down in this tick, clears the selected cells and
/// then the selection itself.
pub fn delete_selection_on_keypress(
    clear_selection_key_pressed: bool,
    current_selection: &mut CurrentSelection,
    chunk: &mut Chunk,
)
    ensures
        final(chunk)@ == if clear_selection_key_pressed {
            cleared(old(chunk)@, old(current_selection)@)
        } else {
            old(chunk)@
        },
        final(current_selection)@ == if clear_selection_key_pressed {
            Seq::<Coordinate>::empty()
        } else {
            old(current_selection)@
        },
{
    if clear_selection_key_pressed {
        delete_selected_blocks(current_selection, chunk);
        clear_current_selection(current_selection);
    }
}

/// Empties the selection, as leaving the select mode does.
pub fn clear_current_selection(current_selection: &mut CurrentSelection)
    ensures
        final(current_selection)@ == Seq::<Coordinate>::empty(),
{
    current_selection.clear_selection();
}

} // verus!
