use vstd::prelude::*;
use crate::color::Color;
use crate::color_library::{ColorLibrary, OnColorClicked};
use crate::mouse_target::Interaction;

verus! {

/// A button that offers one colour of the library. The highlighted button
/// is the one whose colour is selected.
#[derive(Clone, Copy, Debug)]
pub struct SelectorButton {
    pub color: Color,
    pub is_highlighted: bool,
}

/// What a selector button looks like on screen: its face and its border.
#[derive(Clone, Copy, Debug)]
pub struct ButtonNode {
    pub background_color: Color,
    pub border_color: Color,
}

/// The border of a button: white when it is highlighted, dark gray when not.
pub open spec fn border_of(is_highlighted: bool) -> Color {
    if is_highlighted {
        Color::spec_white()
    } else {
        Color::spec_dark_gray()
    }
}

/// Whether a button's colour is the selected one.
pub open spec fn is_selected(button: SelectorButton, selected_color: Option<Color>) -> bool {
    match selected_color {
        Some(color) => button.color.same_color(color),
        None => false,
    }
}

/// A button with its highlight set to whether its colour is the selected one.
pub open spec fn with_highlight(
    button: SelectorButton,
    selected_color: Option<Color>,
) -> SelectorButton {
    SelectorButton { is_highlighted: is_selected(button, selected_color), ..button }
}

impl SelectorButton {
    pub open spec fn spec_to_ui(&self) -> (ButtonNode, SelectorButton) {
        (
            ButtonNode { background_color: self.color, border_color: border_of(self.is_highlighted) },
            *self,
        )
    }

    /// A button for a colour, not highlighted.
    pub fn new(color: Color) -> (button: Self)
        ensures
            button == (SelectorButton { color, is_highlighted: false }),
    {
        Self { color, is_highlighted: false }
    }

    /// The button's looks together with the button itself: the face has the
    /// button's colour.
    #[verifier::when_used_as_spec(spec_to_ui)]
    pub fn to_ui(&self) -> (node: (ButtonNode, SelectorButton))
        ensures
            node == self.spec_to_ui(),
    {
        (ButtonNode { background_color: self.color, border_color: self.border_color() }, *self)
    }

    pub fn border_color(&self) -> (border: Color)
        ensures
            border == border_of(self.is_highlighted),
    {
        if self.is_highlighted {
            Color::white()
        } else {
            Color::dark_gray()
        }
    }
}

/// One button for each colour, in order, none highlighted.
pub fn build_buttons_from_colors(colors: Vec<Color>) -> (buttons: Vec<SelectorButton>)
    ensures
        buttons@ == Seq::new(
            colors@.len(),
            |i: int| SelectorButton { color: colors@[i], is_highlighted: false },
        ),
{
    let mut buttons: Vec<SelectorButton> = Vec::new();
    let mut index: usize = 0;
    while index < colors.len()
        invariant
            index <= colors.len(),
            buttons@.len() == index,
            forall|i: int|
                0 <= i < index ==> buttons@[i] == (SelectorButton {
                    color: colors@[i],
                    is_highlighted: false,
                }),
        decreases colors.len() - index,
    {
        buttons.push(SelectorButton::new(colors[index]));
        index += 1;
    }
    assert(buttons@ =~= Seq::new(
        colors@.len(),
        |i: int| SelectorButton { color: colors@[i], is_highlighted: false },
    ));
    buttons
}

/// The looks of every button, in order, each highlighted exactly when its
/// colour is the selected one.
pub fn build_buttons_ui(buttons: Vec<SelectorButton>, selected_color: Option<Color>) -> (nodes: Vec<
    (ButtonNode, SelectorButton),
>)
    ensures
        nodes@ == Seq::new(
            buttons@.len(),
            |i: int| with_highlight(buttons@[i], selected_color).spec_to_ui(),
        ),
{
    let mut nodes: Vec<(ButtonNode, SelectorButton)> = Vec::new();
    let mut index: usize = 0;
    while index < buttons.len()
        invariant
            index <= buttons.len(),
            nodes@.len() == index,
            forall|i: int|
                0 <= i < index ==> nodes@[i] == with_highlight(
                    buttons@[i],
                    selected_color,
                ).spec_to_ui(),
        decreases buttons.len() - index,
    {
        let mut button = buttons[index];
        button.is_highlighted = check_if_selected(&button, selected_color);
        nodes.push(button.to_ui());
        index += 1;
    }
    assert(nodes@ =~= Seq::new(
        buttons@.len(),
        |i: int| with_highlight(buttons@[i], selected_color).spec_to_ui(),
    ));
    nodes
}

pub fn check_if_selected(button: &SelectorButton, selected_color: Option<Color>) -> (selected: bool)
    ensures
        selected == is_selected(*button, selected_color),
{
    match selected_color {
        Some(color) => button.color == color,
        None => false,
    }
}

/// Brings one button in line with a newly selected colour. The button is
/// highlighted afterwards exactly when it has that colour; its border is
/// redrawn only when the highlight changed.
pub fn update_button_highlight(
    button: &mut SelectorButton,
    border: &mut Color,
    selected_color: Color,
)
    ensures
        *final(button) == with_highlight(*old(button), Some(selected_color)),
        *final(border) == if final(button).is_highlighted != old(button).is_highlighted {
            border_of(final(button).is_highlighted)
        } else {
            *old(border)
        },
{
    let has_selected_color = button.color == selected_color;
    if button.is_highlighted != has_selected_color {
        button.is_highlighted = has_selected_color;
        *border = button.border_color();
    }
}

/// The clicks of a tick: one for each button that is pressed, in order.
pub open spec fn clicks_of(buttons: Seq<(SelectorButton, Interaction)>) -> Seq<OnColorClicked>
    decreases buttons.len(),
{
    if buttons.len() == 0 {
        Seq::empty()
    } else {
        let rest = clicks_of(buttons.drop_last());
        if buttons.last().1 == Interaction::Pressed {
            rest.push(OnColorClicked { color: buttons.last().0.color })
        } else {
            rest
        }
    }
}

/// Raises a click for each button that is pressed.
pub fn button_interaction(buttons: &Vec<(SelectorButton, Interaction)>) -> (clicks: Vec<
    OnColorClicked,
>)
    ensures
        clicks@ == clicks_of(buttons@),
{
    let mut clicks: Vec<OnColorClicked> = Vec::new();
    let mut index: usize = 0;
    while index < buttons.len()
        invariant
            index <= buttons.len(),
            clicks@ == clicks_of(buttons@.subrange(0, index as int)),
        decreases buttons.len() - index,
    {
        proof {
            let longer = buttons@.subrange(0, index + 1);
            assert(longer.drop_last() =~= buttons@.subrange(0, index as int));
            assert(longer.last() == buttons@[index as int]);
        }
        let (button, interaction) = buttons[index];
        if interaction == Interaction::Pressed {
            clicks.push(OnColorClicked::new(button.color));
        }
        index += 1;
    }
    assert(buttons@.subrange(0, index as int) =~= buttons@);
    clicks
}

/// Moves the selection of a library that holds a colour on by one place when
/// the key for the next colour went down in this tick.
pub fn select_next_color_on_key(next_color_key_pressed: bool, color_library: &mut ColorLibrary)
    requires
        next_color_key_pressed ==> old(color_library)@.colors.len() > 0,
    ensures
        final(color_library)@ == if next_color_key_pressed {
            old(color_library)@.select_next()
        } else {
            old(color_library)@
        },
{
    if next_color_key_pressed {
        color_library.select_next();
    }
}

} // verus!
