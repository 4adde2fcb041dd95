use voxel_editor::block::Block;
use voxel_editor::chunk::{check_chunk_that_changed, Chunk};
use voxel_editor::color::Color;
use voxel_editor::coordinate::Coordinate;
use bevy::ecs::entity::Entity;

fn test_block() -> Option<Block> {
    Some(Block::new(Color::white()))
}

#[test]
fn created_chunk_has_correct_block_count() {
    let chunk = Chunk::empty(3);

    assert_eq!(chunk.block_count(), 27);

    let chunk = Chunk::empty(5);

    assert_eq!(chunk.block_count(), 125);

    let chunk = Chunk::empty(10);

    assert_eq!(chunk.block_count(), 1000);
}

#[test]
fn can_get_block() {
    let chunk = Chunk::empty(4);
    let coord = Coordinate::new(0, 0, 0);

    let block = chunk.get_block(coord);

    assert_eq!(block, None);
}

#[test]
fn can_change_block() {
    let mut chunk = Chunk::empty(4);
    let coord = Coordinate::new(0, 0, 0);

    assert_eq!(chunk.get_block(coord), None);

    chunk.set_block(coord, test_block());

    assert_eq!(chunk.get_block(coord), test_block());
}

#[test]
fn chunk_can_be_created_as_flat_ground() {
    let ground_height = 2;

    let chunk = Chunk::flat_ground(ground_height, Color::white(), 4);

    let ground_coord = Coordinate::new(0, ground_height - 1, 0);
    let empty_coord = Coordinate::new(0, ground_height, 0);

    assert_eq!(chunk.get_block(ground_coord), test_block());
    assert_eq!(chunk.get_block(empty_coord), None);
}

#[test]
fn chunk_tracks_if_data_changed() {
    let mut chunk = Chunk::empty(4);

    assert_eq!(chunk.data_changed(), false);

    chunk.set_block(Coordinate::new(1, 1, 1), test_block());

    assert_eq!(chunk.data_changed(), true);
}

#[test]
fn can_calculate_index_from_coordinate() {
    let size = 4;
    let chunk = Chunk::empty(size);

    assert_eq!(chunk.coordinate_to_index(Coordinate::new(3, 0, 0)), 3);
    assert_eq!(chunk.coordinate_to_index(Coordinate::new(2, 2, 2)), 42);

    let size = 10;
    let chunk = Chunk::empty(size);

    assert_eq!(chunk.coordinate_to_index(Coordinate::new(3, 0, 0)), 3);
    assert_eq!(chunk.coordinate_to_index(Coordinate::new(2, 2, 2)), 222);
}

#[test]
fn can_calculate_coordinate_from_index() {
    let size = 4;
    let chunk = Chunk::empty(size);

    assert_eq!(chunk.index_to_coordinate(2), Coordinate::new(2, 0, 0));
    assert_eq!(chunk.index_to_coordinate(58), Coordinate::new(2, 2, 3));

    let size = 10;
    let chunk = Chunk::empty(size);

    assert_eq!(chunk.index_to_coordinate(3), Coordinate::new(3, 0, 0));
    assert_eq!(chunk.index_to_coordinate(232), Coordinate::new(2, 3, 2));
}

#[test]
fn max_element_is_the_largest_index() {
    assert_eq!(Coordinate::new(1, 2, 3).max_element(), 3);
    assert_eq!(Coordinate::new(7, 2, 3).max_element(), 7);
    assert_eq!(Coordinate::new(1, 9, 3).max_element(), 9);
    assert_eq!(Coordinate::new(4, 4, 4).max_element(), 4);
    assert_eq!(Coordinate::new(0, 0, 0).max_element(), 0);
}

#[test]
fn reads_outside_the_cube_find_nothing() {
    let chunk = Chunk::flat_ground(4, Color::white(), 4);

    assert_eq!(chunk.get_block(Coordinate::new(4, 0, 0)), None);
    assert_eq!(chunk.get_block(Coordinate::new(0, 4, 0)), None);
    assert_eq!(chunk.get_block(Coordinate::new(0, 0, 4)), None);
    assert_eq!(chunk.get_block(Coordinate::new(usize::MAX, usize::MAX, usize::MAX)), None);
    assert_eq!(chunk.get_block(Coordinate::new(3, 3, 3)), test_block());
}

#[test]
fn writes_outside_the_cube_change_nothing() {
    let mut chunk = Chunk::empty(4);

    chunk.set_block(Coordinate::new(4, 0, 0), test_block());
    chunk.set_block(Coordinate::new(0, 4, 0), test_block());
    chunk.set_block(Coordinate::new(0, 0, 4), None);
    chunk.set_block(Coordinate::new(usize::MAX, 1, 1), test_block());

    assert_eq!(chunk.data_changed(), false);
    assert!(chunk.get_assigned_blocks_with_coords().is_empty());
    // (4, 0, 0) would share its flat index with (0, 1, 0) if it were not rejected.
    assert_eq!(chunk.get_block(Coordinate::new(0, 1, 0)), None);
}

#[test]
fn a_write_is_read_back_and_a_clear_empties_the_cell() {
    let mut chunk = Chunk::empty(3);
    let coord = Coordinate::new(2, 1, 0);
    let red = Block::new(Color::rgb_bits(1.0f32.to_bits(), 0, 0));

    chunk.set_block(coord, Some(red));
    assert_eq!(chunk.get_block(coord), Some(red));
    assert_eq!(chunk.get_block(Coordinate::new(1, 2, 0)), None);

    chunk.set_block(coord, None);
    assert_eq!(chunk.get_block(coord), None);
}

#[test]
fn clearing_an_empty_cell_still_marks_the_chunk() {
    let mut chunk = Chunk::empty(2);

    chunk.set_block(Coordinate::new(1, 1, 1), None);

    assert_eq!(chunk.data_changed(), true);
}

#[test]
fn index_and_coordinate_undo_each_other() {
    let chunk = Chunk::empty(5);

    for index in 0..chunk.block_count() {
        let coord = chunk.index_to_coordinate(index);
        assert!(coord.max_element() < 5);
        assert_eq!(chunk.coordinate_to_index(coord), index);
    }
    for x in 0..5 {
        for y in 0..5 {
            for z in 0..5 {
                let coord = Coordinate::new(x, y, z);
                let index = chunk.coordinate_to_index(coord);
                assert_eq!(index, x + y * 5 + z * 25);
                assert_eq!(chunk.index_to_coordinate(index), coord);
            }
        }
    }
}

#[test]
fn flat_ground_fills_every_column_up_to_the_height() {
    let chunk = Chunk::flat_ground(2, Color::lime_green(), 4);
    let block = Some(Block::new(Color::lime_green()));

    for x in 0..4 {
        for z in 0..4 {
            assert_eq!(chunk.get_block(Coordinate::new(x, 0, z)), block);
            assert_eq!(chunk.get_block(Coordinate::new(x, 1, z)), block);
            assert_eq!(chunk.get_block(Coordinate::new(x, 2, z)), None);
            assert_eq!(chunk.get_block(Coordinate::new(x, 3, z)), None);
        }
    }
    assert_eq!(chunk.size(), 4);
    assert_eq!(chunk.block_count(), 64);
    assert_eq!(chunk.data_changed(), true);
    assert_eq!(chunk.get_assigned_blocks_with_coords().len(), 32);
}

#[test]
fn flat_ground_edge_cases() {
    let none = Chunk::flat_ground(0, Color::white(), 4);
    assert_eq!(none.data_changed(), false);
    assert!(none.get_assigned_blocks_with_coords().is_empty());

    let full = Chunk::flat_ground(9, Color::white(), 3);
    assert_eq!(full.get_assigned_blocks_with_coords().len(), 27);
    assert_eq!(full.data_changed(), true);

    let nothing = Chunk::flat_ground(3, Color::white(), 0);
    assert_eq!(nothing.block_count(), 0);
    assert_eq!(nothing.data_changed(), false);
    assert_eq!(nothing.get_block(Coordinate::new(0, 0, 0)), None);
}

#[test]
fn assigned_blocks_come_in_index_order() {
    let mut chunk = Chunk::empty(3);
    let white = Block::new(Color::white());
    let gray = Block::new(Color::gray());

    chunk.set_block(Coordinate::new(1, 0, 2), Some(white));
    chunk.set_block(Coordinate::new(2, 1, 0), Some(gray));
    chunk.set_block(Coordinate::new(0, 0, 0), Some(white));
    chunk.set_block(Coordinate::new(2, 2, 2), Some(gray));
    chunk.set_block(Coordinate::new(2, 2, 2), None);

    let assigned = chunk.get_assigned_blocks_with_coords();

    assert_eq!(
        assigned,
        vec![
            (white, Coordinate::new(0, 0, 0)),
            (gray, Coordinate::new(2, 1, 0)),
            (white, Coordinate::new(1, 0, 2)),
        ]
    );
}

#[test]
fn checked_block_count_tells_which_edges_fit() {
    assert_eq!(Chunk::checked_block_count(0), Some(0));
    assert_eq!(Chunk::checked_block_count(16), Some(4096));
    assert_eq!(Chunk::checked_block_count(usize::MAX), None);
    assert_eq!(Chunk::checked_block_count(1 << (usize::BITS / 2)), None);
}

#[test]
fn a_dirty_chunk_asks_for_one_redraw() {
    let mut chunk = Chunk::empty(2);
    let name = Entity::from_raw(77);

    assert!(check_chunk_that_changed(&mut chunk, name).is_none());

    chunk.set_block(Coordinate::new(0, 0, 0), test_block());
    let request = check_chunk_that_changed(&mut chunk, name);

    assert_eq!(request.map(|request| request.chunk), Some(name));
    assert_eq!(chunk.data_changed(), false);
    assert!(check_chunk_that_changed(&mut chunk, name).is_none());
    assert_eq!(chunk.get_block(Coordinate::new(0, 0, 0)), test_block());

    chunk.set_changed();
    assert!(check_chunk_that_changed(&mut chunk, name).is_some());
}

#[test]
fn a_copy_of_a_chunk_holds_the_same_blocks() {
    let mut chunk = Chunk::flat_ground(1, Color::cyan(), 2);
    let copy = chunk.clone();

    chunk.set_block(Coordinate::new(0, 0, 0), None);

    assert_eq!(copy.get_block(Coordinate::new(0, 0, 0)), Some(Block::new(Color::cyan())));
    assert_eq!(copy.size(), 2);
    assert_eq!(copy.data_changed(), true);
    assert_eq!(Chunk::default().block_count(), 0);
}
