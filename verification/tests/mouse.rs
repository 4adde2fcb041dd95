use voxel_editor::coordinate::Coordinate;
use bevy::ecs::entity::Entity;
use voxel_editor::mouse_events::{
    handle_mouse_press, send_mouse_drag_events, send_mouse_pressed_events, EventPhase,
    InteractionSelector, MouseButton, OnMouseDrag,
};
use voxel_editor::mouse_target::{Interaction, MouseInteraction, MouseTarget, RayHit};
use voxel_editor::vector::Vector;

const X: [f32; 3] = [1.0, 0.0, 0.0];
const Y: [f32; 3] = [0.0, 1.0, 0.0];

fn vector(value: [f32; 3]) -> Vector {
    Vector::from_bits(value[0].to_bits(), value[1].to_bits(), value[2].to_bits())
}

/// The hit point in voxel units, moved half a voxel along the normal
/// (`side` 1.0) or against it (`side` -1.0).
fn half_step(point: [f32; 3], normal: [f32; 3], block_scale: f32, side: f32) -> Vector {
    vector([
        point[0] / block_scale + side * (normal[0] / 2.0),
        point[1] / block_scale + side * (normal[1] / 2.0),
        point[2] / block_scale + side * (normal[2] / 2.0),
    ])
}

fn from_raycast(point: [f32; 3], normal: [f32; 3], block_scale: f32) -> MouseTarget {
    MouseTarget::from_raycast(
        RayHit::new(vector(point), vector(normal)),
        half_step(point, normal, block_scale, -1.0),
        half_step(point, normal, block_scale, 1.0),
    )
}

fn target_at(x: f32) -> MouseTarget {
    from_raycast([x, 1.5, 2.0], Y, 1.0)
}

#[test]
fn can_create_target_block_from_raycast() {
    let block_scale = 1.0;

    let target_block = from_raycast([1.0, 0.0, 1.8], X, block_scale);

    assert_eq!(target_block.normal, vector(X));
}

#[test]
fn target_block_calculates_in_coord() {
    let block_scale = 1.0;
    let target_block = from_raycast([1.5, 0.0, 1.8], X, block_scale);

    assert_eq!(target_block.in_coord, Coordinate::new(1, 0, 2));

    let target_block = from_raycast([7.8, 3.4, 7.2], Y, block_scale);

    assert_eq!(target_block.in_coord, Coordinate::new(8, 3, 7));
}

#[test]
fn target_block_calculates_out_coord() {
    let block_scale = 1.0;
    let target_block = from_raycast([3.5, 0.0, 2.8], X, block_scale);

    assert_eq!(target_block.out_coord, Coordinate::new(4, 0, 3));

    let target_block = from_raycast([5.8, 2.4, 3.2], Y, block_scale);

    assert_eq!(target_block.out_coord, Coordinate::new(6, 3, 3));
}

#[test]
fn target_target_block_accounts_for_block_scale() {
    let block_scale = 2.0;

    let target_block = from_raycast([3.0, 0.0, 0.0], X, block_scale);

    assert_eq!(target_block.in_coord, Coordinate::new(1, 0, 0));
    assert_eq!(target_block.out_coord, Coordinate::new(2, 0, 0));

    let block_scale = 3.5;

    let target_block = from_raycast([4.0, 0.0, 2.0], X, block_scale);

    assert_eq!(target_block.in_coord, Coordinate::new(1, 0, 1));
    assert_eq!(target_block.out_coord, Coordinate::new(2, 0, 1));
}

#[test]
fn mouse_interaction_can_create_mouse_target_from_raycast() {
    let point = [2.0, 1.5, 2.0];
    let block_scale = 1.0;

    let target = from_raycast(point, Y, block_scale);

    assert_eq!(target.point, vector(point));
    assert_eq!(target.normal, vector(Y));
    assert_eq!(target.in_coord, Coordinate::new(2, 1, 2));
    assert_eq!(target.out_coord, Coordinate::new(2, 2, 2));
}

#[test]
fn mouse_interaction_target_block_accounts_for_block_scale() {
    let block_scale = 2.0;

    let target = from_raycast([2.0, 1.5, 2.0], Y, block_scale);

    assert_eq!(target.in_coord, Coordinate::new(1, 0, 1));
    assert_eq!(target.out_coord, Coordinate::new(1, 1, 1));
}

#[test]
fn mouse_target_can_create_mouse_target_from_raycast() {
    let point = [2.0, 1.5, 2.0];
    let block_scale = 1.0;

    let target = from_raycast(point, Y, block_scale);

    assert_eq!(target.point, vector(point));
    assert_eq!(target.normal, vector(Y));
    assert_eq!(target.in_coord, Coordinate::new(2, 1, 2));
    assert_eq!(target.out_coord, Coordinate::new(2, 2, 2));
}

#[test]
fn mouse_target_target_block_accounts_for_block_scale() {
    let block_scale = 2.0;

    let target = from_raycast([2.0, 1.5, 2.0], Y, block_scale);

    assert_eq!(target.in_coord, Coordinate::new(1, 0, 1));
    assert_eq!(target.out_coord, Coordinate::new(1, 1, 1));
}

#[test]
fn a_face_hit_names_the_voxel_behind_and_the_voxel_in_front() {
    let target = from_raycast([1.5, 0.0, 1.8], X, 1.0);

    assert_eq!(target.in_coord, Coordinate::new(1, 0, 2));
    assert_eq!(target.out_coord, Coordinate::new(2, 0, 2));
}

#[test]
fn a_hit_below_the_origin_lands_in_cell_zero() {
    let target = from_raycast([-3.2, -0.5, 0.2], [0.0, -1.0, 0.0], 1.0);

    assert_eq!(target.in_coord, Coordinate::new(0, 0, 0));
    assert_eq!(target.out_coord, Coordinate::new(0, 0, 0));
}

#[test]
fn a_position_is_cut_off_to_its_cell() {
    assert_eq!(Coordinate::from(vector([1.0, 0.0, 2.0])), Coordinate::new(1, 0, 2));
    assert_eq!(Coordinate::from(vector([7.9, 3.4, 7.2])), Coordinate::new(7, 3, 7));
    assert_eq!(Coordinate::from(vector([-0.9, -3.0, 0.99])), Coordinate::new(0, 0, 0));
    assert_eq!(
        Coordinate::from(vector([f32::NAN, f32::INFINITY, f32::NEG_INFINITY])),
        Coordinate::new(0, usize::MAX, 0)
    );
    assert_eq!(
        Coordinate::from(vector([15.999, 16.0, 1e30])),
        Coordinate::new(15, 16, usize::MAX)
    );
}

#[test]
fn a_position_is_snapped_to_its_nearest_cell() {
    assert_eq!(Coordinate::nearest(vector([1.0, 0.49, 1.8])), Coordinate::new(1, 0, 2));
    assert_eq!(Coordinate::nearest(vector([0.5, 1.5, 2.5])), Coordinate::new(1, 2, 3));
    assert_eq!(Coordinate::nearest(vector([-0.4, -0.5, -7.0])), Coordinate::new(0, 0, 0));
    assert_eq!(
        Coordinate::nearest(vector([f32::NAN, f32::INFINITY, 1e30])),
        Coordinate::new(0, usize::MAX, usize::MAX)
    );
}

#[test]
fn the_same_target_twice_is_announced_once() {
    let mut state = MouseInteraction::default();
    let hit = Some(target_at(2.0));

    let first = state.update_mouse_target(hit);
    let second = state.update_mouse_target(hit);

    assert_eq!(first.map(|notice| notice.target), Some(hit));
    assert!(second.is_none());
    assert_eq!(state.target, hit);
}

#[test]
fn a_new_target_and_a_lost_target_are_announced() {
    let mut state = MouseInteraction::default();

    assert!(state.update_mouse_target(None).is_none());

    let first = Some(target_at(2.0));
    let other = Some(target_at(3.0));
    assert!(state.update_mouse_target(first).is_some());

    let moved = state.update_mouse_target(other);
    assert_eq!(moved.map(|notice| notice.target), Some(other));
    assert_eq!(state.target, other);

    let lost = state.update_mouse_target(None);
    assert_eq!(lost.map(|notice| notice.target), Some(None));
    assert_eq!(state.target, None);

    assert!(state.update_mouse_target(None).is_none());
}

#[test]
fn normals_that_differ_only_in_the_sign_of_zero_are_the_same() {
    let mut state = MouseInteraction::default();
    let plus = Some(from_raycast([2.0, 1.5, 2.0], [0.0, 1.0, 0.0], 1.0));
    let minus = Some(from_raycast([2.0, 1.5, 2.0], [-0.0, 1.0, -0.0], 1.0));

    assert!(state.update_mouse_target(plus).is_some());
    assert!(state.update_mouse_target(minus).is_none());
    assert_eq!(
        state.target.map(|target| target.normal.x.to_bits()),
        Some(0.0f32.to_bits())
    );
}

#[test]
fn a_pointer_gliding_over_one_face_keeps_its_target() {
    let mut state = MouseInteraction::default();
    let first = from_raycast([2.1, 1.5, 2.1], Y, 1.0);
    let later = from_raycast([2.4, 1.5, 1.7], Y, 1.0);
    assert_eq!(first.in_coord, later.in_coord);
    assert_eq!(first.out_coord, later.out_coord);
    assert_ne!(first.point, later.point);
    assert_eq!(first, later);

    assert!(state.update_mouse_target(Some(first)).is_some());
    assert!(state.update_mouse_target(Some(later)).is_none());
    assert!(state.update_mouse_target(Some(first)).is_none());

    assert_eq!(state.target.map(|target| target.point), Some(first.point));
}

#[test]
fn another_face_of_the_same_voxel_is_another_target() {
    let mut state = MouseInteraction::default();
    let top = MouseTarget::new(
        vector([2.0, 1.5, 2.0]),
        vector(Y),
        Coordinate::new(2, 1, 2),
        Coordinate::new(2, 2, 2),
    );
    let side = MouseTarget::new(
        vector([2.0, 1.5, 2.0]),
        vector(X),
        Coordinate::new(2, 1, 2),
        Coordinate::new(2, 2, 2),
    );
    let behind = MouseTarget::new(
        vector([2.0, 1.5, 2.0]),
        vector(Y),
        Coordinate::new(2, 0, 2),
        Coordinate::new(2, 2, 2),
    );
    let in_front = MouseTarget::new(
        vector([2.0, 1.5, 2.0]),
        vector(Y),
        Coordinate::new(2, 0, 2),
        Coordinate::new(2, 1, 2),
    );

    assert!(state.update_mouse_target(Some(top)).is_some());
    assert!(state.update_mouse_target(Some(side)).is_some());
    assert!(state.update_mouse_target(Some(top)).is_some());
    assert!(state.update_mouse_target(Some(behind)).is_some());
    assert!(state.update_mouse_target(Some(in_front)).is_some());
    assert!(state.update_mouse_target(Some(in_front)).is_none());
}

#[test]
fn a_nan_in_the_hit_point_does_not_disturb_the_target() {
    let mut state = MouseInteraction::default();
    let odd = Some(from_raycast([f32::NAN, 1.5, 2.0], Y, 1.0));

    assert!(state.update_mouse_target(odd).is_some());
    assert!(state.update_mouse_target(odd).is_none());
}

#[test]
fn a_target_with_a_nan_in_its_normal_is_announced_every_tick() {
    let mut state = MouseInteraction::default();
    let odd = Some(MouseTarget::new(
        vector([2.0, 1.5, 2.0]),
        vector([f32::NAN, 1.0, 0.0]),
        Coordinate::new(2, 1, 2),
        Coordinate::new(2, 2, 2),
    ));

    assert!(state.update_mouse_target(odd).is_some());
    assert!(state.update_mouse_target(odd).is_some());
}

#[test]
fn the_phases_of_a_gesture_are_ordered() {
    assert!(EventPhase::Started < EventPhase::Ongoing);
    assert!(EventPhase::Ongoing < EventPhase::Ended);
    assert_eq!(EventPhase::Started.max(EventPhase::Ended), EventPhase::Ended);
}

#[test]
fn the_pointer_is_over_the_interface_when_an_element_is_hovered_or_pressed() {
    let mut state = MouseInteraction::default();
    assert_eq!(state.mouse_on_ui, false);

    state.update_mouse_on_ui(&vec![Interaction::Idle, Interaction::Hovered]);
    assert_eq!(state.mouse_on_ui, true);

    state.update_mouse_on_ui(&vec![Interaction::Idle, Interaction::Idle]);
    assert_eq!(state.mouse_on_ui, false);

    state.update_mouse_on_ui(&vec![Interaction::Pressed]);
    assert_eq!(state.mouse_on_ui, true);

    state.update_mouse_on_ui(&Vec::new());
    assert_eq!(state.mouse_on_ui, false);
}

#[test]
fn the_ray_is_cast_from_the_active_camera_unless_the_pointer_is_over_the_interface() {
    let mut state = MouseInteraction::default();
    assert_eq!(state.ray_camera(), None);

    state.set_active_camera(Entity::from_raw(5));
    assert_eq!(state.active_camera, Some(Entity::from_raw(5)));
    assert_eq!(state.ray_camera(), Some(Entity::from_raw(5)));

    state.update_mouse_on_ui(&vec![Interaction::Hovered]);
    assert_eq!(state.ray_camera(), None);
}

fn interaction_with(target: Option<MouseTarget>) -> MouseInteraction {
    let mut state = MouseInteraction::default();
    state.update_mouse_target(target);
    state
}

fn describe(event: &OnMouseDrag) -> (EventPhase, MouseButton, Option<MouseTarget>, Option<MouseTarget>) {
    (event.phase, event.button, event.start, event.end)
}

#[test]
fn a_button_going_down_remembers_the_target() {
    let state = interaction_with(Some(target_at(2.0)));
    let mut selector = InteractionSelector::default();

    handle_mouse_press(&state, &mut selector, &Vec::new());
    assert_eq!(selector.start_target, None);

    handle_mouse_press(&state, &mut selector, &vec![MouseButton::Right]);
    assert_eq!(selector.start_target, state.target);

    selector.reset();
    assert_eq!(selector.start_target, None);
}

#[test]
fn a_gesture_is_a_drag_only_between_two_targets_that_lie_apart() {
    let start = Some(target_at(2.0));
    let with_target = interaction_with(Some(target_at(5.0)));
    let without_target = interaction_with(None);
    let started = InteractionSelector { start_target: start };
    let idle = InteractionSelector::default();

    assert_eq!(started.interaction_is_drag(&with_target, true), true);
    assert_eq!(started.interaction_is_drag(&with_target, false), false);
    assert_eq!(started.interaction_is_drag(&without_target, true), false);
    assert_eq!(idle.interaction_is_drag(&with_target, true), false);
    assert_eq!(started.interaction_is_press(&with_target, true), false);
    assert_eq!(started.interaction_is_press(&with_target, false), true);
    assert_eq!(idle.interaction_is_press(&without_target, true), true);
}

#[test]
fn released_buttons_give_presses_unless_the_gesture_was_a_drag() {
    let mut state = interaction_with(Some(target_at(5.0)));
    state.update_mouse_on_ui(&vec![Interaction::Hovered]);
    let selector = InteractionSelector { start_target: Some(target_at(2.0)) };
    let released = vec![MouseButton::Left, MouseButton::Other(7)];

    let presses = send_mouse_pressed_events(&state, &selector, &released, false);

    assert_eq!(presses.len(), 2);
    assert_eq!(presses[0].button, MouseButton::Left);
    assert_eq!(presses[1].button, MouseButton::Other(7));
    assert_eq!(presses[0].on_ui, true);
    assert_eq!(presses[1].target, state.target);

    assert!(send_mouse_pressed_events(&state, &selector, &released, true).is_empty());
    assert!(send_mouse_pressed_events(&state, &selector, &Vec::new(), false).is_empty());
}

#[test]
fn a_drag_reports_held_buttons_and_ends_with_the_first_release() {
    let start = Some(target_at(2.0));
    let end = Some(target_at(5.0));
    let state = interaction_with(end);
    let mut selector = InteractionSelector { start_target: start };
    let held = vec![MouseButton::Left, MouseButton::Middle];
    let released = vec![MouseButton::Right, MouseButton::Left];

    let events = send_mouse_drag_events(&state, &mut selector, &held, &released, true);

    let got: Vec<_> = events.iter().map(describe).collect();
    assert_eq!(
        got,
        vec![
            (EventPhase::Ongoing, MouseButton::Left, start, end),
            (EventPhase::Ongoing, MouseButton::Middle, start, end),
            (EventPhase::Ended, MouseButton::Right, start, end),
        ]
    );
    assert_eq!(events[0].drag_ended(), false);
    assert_eq!(events[2].drag_ended(), true);
    assert_eq!(selector.start_target, None);
}

#[test]
fn a_drag_that_goes_on_keeps_its_start() {
    let start = Some(target_at(2.0));
    let state = interaction_with(Some(target_at(5.0)));
    let mut selector = InteractionSelector { start_target: start };

    let events =
        send_mouse_drag_events(&state, &mut selector, &vec![MouseButton::Left], &Vec::new(), true);

    assert_eq!(events.len(), 1);
    assert_eq!(events[0].phase, EventPhase::Ongoing);
    assert_eq!(selector.start_target, start);
}

#[test]
fn without_a_drag_no_drag_event_is_sent() {
    let start = Some(target_at(2.0));
    let state = interaction_with(Some(target_at(2.0)));
    let mut selector = InteractionSelector { start_target: start };
    let buttons = vec![MouseButton::Left];

    assert!(send_mouse_drag_events(&state, &mut selector, &buttons, &buttons, false).is_empty());
    assert_eq!(selector.start_target, start);

    let lost = interaction_with(None);
    assert!(send_mouse_drag_events(&lost, &mut selector, &buttons, &buttons, true).is_empty());
    assert_eq!(selector.start_target, start);
}
