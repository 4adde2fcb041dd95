use vstd::prelude::*;
use crate::block::Block;
use crate::chunk::{Chunk, ChunkView};
use crate::color_library::{ColorLibrary, ColorLibraryView};
use crate::coordinate::Coordinate;
use crate::mouse_events::{MouseButton, OnMouseDrag, OnMousePressed};
use crate::mouse_target::MouseTarget;
use crate::selection::{box_volume, coordinates_between, get_coordinates_between};

verus! {

/// The request to write a cell: a block to place, or nothing to leave the
/// cell empty.
#[derive(Clone, Copy, Debug)]
pub struct OnPlaceBlockRequest {
    pub block: Option<Block>,
    pub coord: Coordinate,
}

impl OnPlaceBlockRequest {
    pub fn new(block: Option<Block>, coord: Coordinate) -> (request: Self)
        ensures
            request == (OnPlaceBlockRequest { block, coord }),
    {
        Self { block, coord }
    }
}

/// The request to clear a cell.
#[derive(Clone, Copy, Debug)]
pub struct OnRemoveBlockRequest {
    pub coord: Coordinate,
}

impl OnRemoveBlockRequest {
    pub fn new(coord: Coordinate) -> (request: Self)
        ensures
            request == (OnRemoveBlockRequest { coord }),
    {
        Self { coord }
    }
}

/// The request that places a block of the library's selected colour at a
/// cell. A library without a selected colour gives a request without block.
pub open spec fn place_request(library: ColorLibraryView, coord: Coordinate) -> OnPlaceBlockRequest {
    OnPlaceBlockRequest {
        block: match library.selected_color() {
            Some(color) => Some(Block { color }),
            None => None,
        },
        coord,
    }
}

/// Whether a press places a block: it is made with the left button on a
/// target while the remove key is up.
pub open spec fn press_builds(press: OnMousePressed, remove_key_pressed: bool) -> bool {
    press.button == MouseButton::Left && !remove_key_pressed && press.target is Some
}

/// Whether a press removes a block: it is made with the left button on a
/// target while the remove key is down.
pub open spec fn press_removes(press: OnMousePressed, remove_key_pressed: bool) -> bool {
    press.button == MouseButton::Left && remove_key_pressed && press.target is Some
}

/// Whether a drag places blocks: it is made with the left button, has ended,
/// has a target at both ends, and the remove key is up.
pub open spec fn drag_builds(drag: OnMouseDrag, remove_key_pressed: bool) -> bool {
    &&& drag.button == MouseButton::Left
    &&& drag.spec_drag_ended()
    &&& !remove_key_pressed
    &&& drag.start is Some
    &&& drag.end is Some
}

/// The place requests of a row of presses: each press that builds asks for a
/// block at the cell outside the surface it hit.
pub open spec fn press_place_requests(
    presses: Seq<OnMousePressed>,
    remove_key_pressed: bool,
    library: ColorLibraryView,
) -> Seq<OnPlaceBlockRequest>
    decreases presses.len(),
{
    if presses.len() == 0 {
        Seq::empty()
    } else {
        let rest = press_place_requests(presses.drop_last(), remove_key_pressed, library);
        let press = presses.last();
        if press_builds(press, remove_key_pressed) {
            rest.push(place_request(library, press.target->Some_0.out_coord))
        } else {
            rest
        }
    }
}

/// The remove requests of a row of presses: each press that removes asks to
/// clear the cell inside the surface it hit.
pub open spec fn press_remove_requests(
    presses: Seq<OnMousePressed>,
    remove_key_pressed: bool,
) -> Seq<OnRemoveBlockRequest>
    decreases presses.len(),
{
    if presses.len() == 0 {
        Seq::empty()
    } else {
        let rest = press_remove_requests(presses.drop_last(), remove_key_pressed);
        let press = presses.last();
        if press_removes(press, remove_key_pressed) {
            rest.push(OnRemoveBlockRequest { coord: press.target->Some_0.in_coord })
        } else {
            rest
        }
    }
}

/// The place requests for every cell of a box, in the order in which the box
/// lists its cells.
pub open spec fn box_place_requests(
    start: Coordinate,
    end: Coordinate,
    library: ColorLibraryView,
) -> Seq<OnPlaceBlockRequest> {
    Seq::new(
        coordinates_between(start, end).len(),
        |i: int| place_request(library, coordinates_between(start, end)[i]),
    )
}

/// The place requests of a row of drags: each drag that builds asks for a
/// block at every cell of the box between the cells outside the surfaces at
/// its two ends.
pub open spec fn drag_place_requests(
    drags: Seq<OnMouseDrag>,
    remove_key_pressed: bool,
    library: ColorLibraryView,
) -> Seq<OnPlaceBlockRequest>
    decreases drags.len(),
{
    if drags.len() == 0 {
        Seq::empty()
    } else {
        let rest = drag_place_requests(drags.drop_last(), remove_key_pressed, library);
        let drag = drags.last();
        if drag_builds(drag, remove_key_pressed) {
            rest + box_place_requests(
                drag.start->Some_0.out_coord,
                drag.end->Some_0.out_coord,
                library,
            )
        } else {
            rest
        }
    }
}

/// Whether the box of every drag that builds can be listed.
pub open spec fn drags_fit(drags: Seq<OnMouseDrag>, remove_key_pressed: bool) -> bool {
    forall|i: int|
        0 <= i < drags.len() && drag_builds(#[trigger] drags[i], remove_key_pressed) ==> box_volume(
            drags[i].start->Some_0.out_coord,
            drags[i].end->Some_0.out_coord,
        ) <= usize::MAX
}

/// A chunk after a row of place requests was carried out, the first first.
pub open spec fn after_placements(
    chunk: ChunkView,
    requests: Seq<OnPlaceBlockRequest>,
) -> ChunkView
    decreases requests.len(),
{
    if requests.len() == 0 {
        chunk
    } else {
        after_placements(chunk, requests.drop_last()).set(
            requests.last().coord,
            requests.last().block,
        )
    }
}

/// A chunk after a row of remove requests was carried out, the first first.
pub open spec fn after_removals(chunk: ChunkView, requests: Seq<OnRemoveBlockRequest>) -> ChunkView
    decreases requests.len(),
{
    if requests.len() == 0 {
        chunk
    } else {
        after_removals(chunk, requests.drop_last()).set(requests.last().coord, None)
    }
}

/// The request to place a block of the selected colour at a cell.
pub fn send_place_block_request(color_library: &ColorLibrary, coord: Coordinate) -> (request:
    OnPlaceBlockRequest)
    ensures
        request == place_request(color_library@, coord),
{
    let block = match color_library.selected_color() {
        Some(color) => Some(Block::new(color)),
        None => None,
    };
    OnPlaceBlockRequest::new(block, coord)
}

/// The request to clear the cell that a target looks at.
pub fn send_remove_block_request(target: MouseTarget) -> (request: OnRemoveBlockRequest)
    ensures
        request == (OnRemoveBlockRequest { coord: target.in_coord }),
{
    OnRemoveBlockRequest::new(target.in_coord)
}

/// Turns the presses of a tick into place requests.
pub fn handle_mouse_press(
    on_mouse_pressed: &Vec<OnMousePressed>,
    remove_key_pressed: bool,
    color_library: &ColorLibrary,
) -> (requests: Vec<OnPlaceBlockRequest>)
    ensures
        requests@ == press_place_requests(on_mouse_pressed@, remove_key_pressed, color_library@),
{
    let mut requests: Vec<OnPlaceBlockRequest> = Vec::new();
    let mut index: usize = 0;
    while index < on_mouse_pressed.len()
        invariant
            index <= on_mouse_pressed.len(),
            requests@ == press_place_requests(
                on_mouse_pressed@.subrange(0, index as int),
                remove_key_pressed,
                color_library@,
            ),
        decreases on_mouse_pressed.len() - index,
    {
        proof {
            let longer = on_mouse_pressed@.subrange(0, index + 1);
            assert(longer.drop_last() =~= on_mouse_pressed@.subrange(0, index as int));
            assert(longer.last() == on_mouse_pressed@[index as int]);
        }
        let mouse_pressed = on_mouse_pressed[index];
        index += 1;
        if mouse_pressed.button != MouseButton::Left || remove_key_pressed {
            continue ;
        }
        match mouse_pressed.target {
            Some(target) => {
                requests.push(send_place_block_request(color_library, target.out_coord));
            },
            None => {},
        }
    }
    assert(on_mouse_pressed@.subrange(0, index as int) =~= on_mouse_pressed@);
    requests
}

/// Turns the drags of a tick into place requests.
pub fn handle_mouse_drag(
    on_mouse_drag: &Vec<OnMouseDrag>,
    remove_key_pressed: bool,
    color_library: &ColorLibrary,
) -> (requests: Vec<OnPlaceBlockRequest>)
    requires
        drags_fit(on_mouse_drag@, remove_key_pressed),
    ensures
        requests@ == drag_place_requests(on_mouse_drag@, remove_key_pressed, color_library@),
{
    let mut requests: Vec<OnPlaceBlockRequest> = Vec::new();
    let mut index: usize = 0;
    while index < on_mouse_drag.len()
        invariant
            index <= on_mouse_drag.len(),
            drags_fit(on_mouse_drag@, remove_key_pressed),
            requests@ == drag_place_requests(
                on_mouse_drag@.subrange(0, index as int),
                remove_key_pressed,
                color_library@,
            ),
        decreases on_mouse_drag.len() - index,
    {
        proof {
            let longer = on_mouse_drag@.subrange(0, index + 1);
            assert(longer.drop_last() =~= on_mouse_drag@.subrange(0, index as int));
            assert(longer.last() == on_mouse_drag@[index as int]);
        }
        let mouse_drag = on_mouse_drag[index];
        index += 1;
        if mouse_drag.button != MouseButton::Left || !mouse_drag.drag_ended()
            || remove_key_pressed {
            continue ;
        }
        match (mouse_drag.start, mouse_drag.end) {
            (Some(start), Some(end)) => {
                let ghost before = requests@;
                let ghost wanted = box_place_requests(
                    start.out_coord,
                    end.out_coord,
                    color_library@,
                );
                let coords = get_coordinates_between(start.out_coord, end.out_coord);
                let mut place: usize = 0;
                while place < coords.len()
                    invariant
                        place <= coords.len(),
                        coords@ == coordinates_between(start.out_coord, end.out_coord),
                        wanted == box_place_requests(
                            start.out_coord,
                            end.out_coord,
                            color_library@,
                        ),
                        requests@ == before + wanted.subrange(0, place as int),
                    decreases coords.len() - place,
                {
                    requests.push(send_place_block_request(color_library, coords[place]));
                    place += 1;
                    assert(requests@ =~= before + wanted.subrange(0, place as int));
                }
                assert(wanted.subrange(0, place as int) =~= wanted);
            },
            _ => {},
        }
    }
    assert(on_mouse_drag@.subrange(0, index as int) =~= on_mouse_drag@);
    requests
}

/// Turns the presses of a tick into remove requests.
pub fn handle_remove_input(on_mouse_pressed: &Vec<OnMousePressed>, remove_key_pressed: bool) -> (requests:
    Vec<OnRemoveBlockRequest>)
    ensures
        requests@ == press_remove_requests(on_mouse_pressed@, remove_key_pressed),
{
    let mut requests: Vec<OnRemoveBlockRequest> = Vec::new();
    let mut index: usize = 0;
    while index < on_mouse_pressed.len()
        invariant
            index <= on_mouse_pressed.len(),
            requests@ == press_remove_requests(
                on_mouse_pressed@.subrange(0, index as int),
                remove_key_pressed,
            ),
        decreases on_mouse_pressed.len() - index,
    {
        proof {
            let longer = on_mouse_pressed@.subrange(0, index + 1);
            assert(longer.drop_last() =~= on_mouse_pressed@.subrange(0, index as int));
            assert(longer.last() == on_mouse_pressed@[index as int]);
        }
        let mouse_pressed = on_mouse_pressed[index];
        index += 1;
        if mouse_pressed.button != MouseButton::Left || !remove_key_pressed {
            continue ;
        }
        match mouse_pressed.target {
            Some(target) => {
                requests.push(send_remove_block_request(target));
            },
            None => {},
        }
    }
    assert(on_mouse_pressed@.subrange(0, index as int) =~= on_mouse_pressed@);
    requests
}

/// Carries out the place requests of a tick on a chunk, in order.
pub fn handle_place_request(place_events: &Vec<OnPlaceBlockRequest>, chunk: &mut Chunk)
    ensures
        final(chunk)@ == after_placements(old(chunk)@, place_events@),
{
    let ghost before = chunk@;
    let mut index: usize = 0;
    while index < place_events.len()
        invariant
            index <= place_events.len(),
            chunk@ == after_placements(before, place_events@.subrange(0, index as int)),
        decreases place_events.len() - index,
    {
        proof {
            let longer = place_events@.subrange(0, index + 1);
            assert(longer.drop_last() =~= place_events@.subrange(0, index as int));
            assert(longer.last() == place_events@[index as int]);
        }
        let event = place_events[index];
        chunk.set_block(event.coord, event.block);
        index += 1;
    }
    assert(place_events@.subrange(0, index as int) =~= place_events@);
}

/// Carries out the remove requests of a tick on a chunk, in order.
pub fn handle_remove_request(remove_events: &Vec<OnRemoveBlockRequest>, chunk: &mut Chunk)
    ensures
        final(chunk)@ == after_removals(old(chunk)@, remove_events@),
{
    let ghost before = chunk@;
    let mut index: usize = 0;
    while index < remove_events.len()
        invariant
            index <= remove_events.len(),
            chunk@ == after_removals(before, remove_events@.subrange(0, index as int)),
        decreases remove_events.len() - index,
    {
        proof {
            let longer = remove_events@.subrange(0, index + 1);
            assert(longer.drop_last() =~= remove_events@.subrange(0, index as int));
            assert(longer.last() == remove_events@[index as int]);
        }
        let event = remove_events[index];
        chunk.set_block(event.coord, None);
        index += 1;
    }
    assert(remove_events@.subrange(0, index as int) =~= remove_events@);
}

} // verus!
