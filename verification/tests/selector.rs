use voxel_editor::color::Color;
use voxel_editor::mouse_target::Interaction;
use voxel_editor::selector::{
    build_buttons_from_colors, build_buttons_ui, button_interaction, check_if_selected,
    update_button_highlight, ButtonNode, SelectorButton,
};

fn rgb(red: f32, green: f32, blue: f32) -> Color {
    Color::rgb_bits(red.to_bits(), green.to_bits(), blue.to_bits())
}

fn red() -> Color {
    rgb(1.0, 0.0, 0.0)
}

fn green() -> Color {
    rgb(0.0, 1.0, 0.0)
}

fn blue() -> Color {
    rgb(0.0, 0.0, 1.0)
}

fn find_selected_color(buttons: &Vec<SelectorButton>) -> Option<Color> {
    buttons
        .iter()
        .find(|button| button.is_highlighted)
        .map(|button| button.color)
}

fn count_highlighted_buttons(buttons: &Vec<SelectorButton>) -> usize {
    buttons
        .iter()
        .filter(|button| button.is_highlighted)
        .count()
}

#[test]
fn selector_can_create_selector_button() {
    let selector = SelectorButton::new(green());

    assert_eq!(selector.color, green());
}

#[test]
fn selector_can_build_ui_node_from_selector_button() {
    let selector = SelectorButton::new(green());

    let node: (ButtonNode, SelectorButton) = selector.to_ui();

    assert_eq!(node.0.background_color, green());
}

#[test]
fn can_set_button_highlighted() {
    let mut selector = SelectorButton::new(green());

    assert_eq!(selector.is_highlighted, false);

    selector.is_highlighted = true;

    assert_eq!(selector.is_highlighted, true);
}

#[test]
fn selector_button_highlighted_changes_border_color() {
    let mut selector = SelectorButton::new(green());
    selector.is_highlighted = true;

    let node: (ButtonNode, SelectorButton) = selector.to_ui();

    assert_eq!(node.0.border_color, Color::white());
}

#[test]
fn selector_selected_color_gets_highlighted() {
    let buttons = build_buttons_from_colors(vec![red(), green()]);
    let nodes: Vec<(ButtonNode, SelectorButton)> = build_buttons_ui(buttons, Some(green()));

    let selected_button = &nodes[1].0;

    assert_eq!(selected_button.background_color, green());
    assert_eq!(selected_button.border_color, Color::white());
}

#[test]
fn correctly_updates_button_highlights_when_color_changed() {
    let mut buttons = build_buttons_from_colors(vec![red(), green(), blue()]);
    buttons[0].is_highlighted = true;

    assert_eq!(find_selected_color(&buttons), Some(red()));
    assert_eq!(count_highlighted_buttons(&buttons), 1);

    for button in buttons.iter_mut() {
        update_button_highlight(button, &mut Color::white(), green());
    }

    assert_eq!(find_selected_color(&buttons), Some(green()));
    assert_eq!(count_highlighted_buttons(&buttons), 1);
}

#[test]
fn a_plain_button_has_a_dark_gray_border() {
    let selector = SelectorButton::new(green());

    assert_eq!(selector.border_color(), Color::dark_gray());
    assert_eq!(selector.to_ui().0.border_color, rgb(0.25, 0.25, 0.25));
    assert_eq!(selector.to_ui().1.color, green());
    assert_eq!(selector.to_ui().1.is_highlighted, false);
}

#[test]
fn buttons_that_are_not_selected_are_not_highlighted() {
    let buttons = build_buttons_from_colors(vec![red(), green(), red()]);
    let nodes = build_buttons_ui(buttons, Some(red()));

    assert_eq!(nodes.len(), 3);
    assert_eq!(nodes[0].1.is_highlighted, true);
    assert_eq!(nodes[1].1.is_highlighted, false);
    assert_eq!(nodes[1].0.border_color, Color::dark_gray());
    assert_eq!(nodes[2].1.is_highlighted, true);

    let none = build_buttons_ui(build_buttons_from_colors(vec![red()]), None);
    assert_eq!(none[0].1.is_highlighted, false);
    assert_eq!(check_if_selected(&SelectorButton::new(red()), None), false);
    assert_eq!(check_if_selected(&SelectorButton::new(red()), Some(red())), true);
    assert_eq!(check_if_selected(&SelectorButton::new(red()), Some(blue())), false);
}

#[test]
fn the_border_is_redrawn_only_when_the_highlight_changes() {
    let marker = rgb(0.3, 0.3, 0.3);

    let mut button = SelectorButton::new(red());
    let mut border = marker;
    update_button_highlight(&mut button, &mut border, blue());
    assert_eq!(button.is_highlighted, false);
    assert_eq!(border, marker);

    update_button_highlight(&mut button, &mut border, red());
    assert_eq!(button.is_highlighted, true);
    assert_eq!(border, Color::white());

    border = marker;
    update_button_highlight(&mut button, &mut border, red());
    assert_eq!(button.is_highlighted, true);
    assert_eq!(border, marker);

    update_button_highlight(&mut button, &mut border, green());
    assert_eq!(button.is_highlighted, false);
    assert_eq!(border, Color::dark_gray());
}

#[test]
fn pressed_buttons_raise_clicks_in_order() {
    let buttons = vec![
        (SelectorButton::new(red()), Interaction::Hovered),
        (SelectorButton::new(green()), Interaction::Pressed),
        (SelectorButton::new(blue()), Interaction::Idle),
        (SelectorButton::new(red()), Interaction::Pressed),
    ];

    let clicks = button_interaction(&buttons);

    assert_eq!(clicks.len(), 2);
    assert_eq!(clicks[0].color, green());
    assert_eq!(clicks[1].color, red());
    assert!(button_interaction(&Vec::new()).is_empty());
}
