use vstd::prelude::*;
use crate::mouse_target::{MouseInteraction, MouseTarget};

verus! {

/// A button of the pointing device.
#[derive(Clone, Copy, Debug, PartialEq, Eq, Structural)]
pub enum MouseButton {
    Left,
    Right,
    Middle,
    Other(u16),
}

/// Where a gesture that lasts over several ticks stands. The phases are
/// ordered as a gesture passes through them.
#[derive(Clone, Copy, Debug, PartialEq, Eq, PartialOrd, Ord, Structural)]
pub enum EventPhase {
    Started,
    Ongoing,
    Ended,
}

/// A button went down and came up again without the pointer travelling.
#[derive(Clone, Copy, Debug)]
pub struct OnMousePressed {
    pub button: MouseButton,
    pub on_ui: bool,
    pub target: Option<MouseTarget>,
}

/// The pointer travels, or has travelled, with a button held: from the target
/// it had when the button went down to the one it has now.
#[derive(Clone, Copy, Debug)]
pub struct OnMouseDrag {
    pub phase: EventPhase,
    pub button: MouseButton,
    pub start: Option<MouseTarget>,
    pub end: Option<MouseTarget>,
}

impl OnMouseDrag {
    pub open spec fn spec_drag_ended(&self) -> bool {
        self.phase == EventPhase::Ended
    }

    /// Whether this is the event that closes the gesture.
    #[verifier::when_used_as_spec(spec_drag_ended)]
    pub fn drag_ended(&self) -> (ended: bool)
        ensures
            ended == (self.phase == EventPhase::Ended),
    {
        self.phase == EventPhase::Ended
    }
}

/// Tells a press from a drag. It remembers the target on which a button went
/// down; which button it was plays no part.
#[derive(Clone, Copy, Debug)]
pub struct InteractionSelector {
    pub start_target: Option<MouseTarget>,
}

impl InteractionSelector {
    /// A gesture is a drag when there is a target now, there was one when the
    /// button went down, and the two hit points lie farther apart than the
    /// drag threshold. `beyond_threshold` is the outcome of that measurement,
    /// which is made outside the core; it counts only when both targets exist.
    pub open spec fn is_drag(self, mouse_interaction: MouseInteraction, beyond_threshold: bool) -> bool {
        mouse_interaction.target is Some && self.start_target is Some && beyond_threshold
    }

    pub fn interaction_is_drag(
        &self,
        mouse_interaction: &MouseInteraction,
        beyond_threshold: bool,
    ) -> (drag: bool)
        ensures
            drag == self.is_drag(*mouse_interaction, beyond_threshold),
    {
        match mouse_interaction.target {
            Some(_) => match self.start_target {
                Some(_) => beyond_threshold,
                None => false,
            },
            None => false,
        }
    }

    /// Whatever is not a drag is a press.
    pub fn interaction_is_press(
        &self,
        mouse_interaction: &MouseInteraction,
        beyond_threshold: bool,
    ) -> (press: bool)
        ensures
            press == !self.is_drag(*mouse_interaction, beyond_threshold),
    {
        !self.interaction_is_drag(mouse_interaction, beyond_threshold)
    }

    /// Forgets the target on which the button went down.
    pub fn reset(&mut self)
        ensures
            final(self).start_target is None,
    {
        self.start_target = None;
    }
}

impl Default for InteractionSelector {
    fn default() -> (selector: Self)
        ensures
            selector.start_target is None,
    {
        Self { start_target: None }
    }
}

/// The press events of a tick: one for each button released, in the order
/// given, when the gesture was no drag; none when it was.
pub open spec fn pressed_events(
    mouse_interaction: MouseInteraction,
    selector: InteractionSelector,
    released: Seq<MouseButton>,
    beyond_threshold: bool,
) -> Seq<OnMousePressed> {
    if selector.is_drag(mouse_interaction, beyond_threshold) {
        Seq::empty()
    } else {
        Seq::new(
            released.len(),
            |i: int|
                OnMousePressed {
                    button: released[i],
                    on_ui: mouse_interaction.mouse_on_ui,
                    target: mouse_interaction.target,
                },
        )
    }
}

/// The drag events of a tick. While the gesture is a drag each held button
/// gives an ongoing event, in the order given; then the first released
/// button, if there is one, gives the event that ends the drag. The buttons
/// released after it give nothing, because the end of the drag makes the
/// selector forget where it began. No drag, no event.
pub open spec fn drag_events(
    mouse_interaction: MouseInteraction,
    selector: InteractionSelector,
    held: Seq<MouseButton>,
    released: Seq<MouseButton>,
    beyond_threshold: bool,
) -> Seq<OnMouseDrag> {
    if !selector.is_drag(mouse_interaction, beyond_threshold) {
        Seq::empty()
    } else {
        let ongoing = Seq::new(
            held.len(),
            |i: int|
                OnMouseDrag {
                    phase: EventPhase::Ongoing,
                    button: held[i],
                    start: selector.start_target,
                    end: mouse_interaction.target,
                },
        );
        if released.len() > 0 {
            ongoing.push(
                OnMouseDrag {
                    phase: EventPhase::Ended,
                    button: released[0],
                    start: selector.start_target,
                    end: mouse_interaction.target,
                },
            )
        } else {
            ongoing
        }
    }
}

/// The selector after the drag events of a tick were sent: reset when a drag
/// ended in this tick, else unchanged.
pub open spec fn selector_after_drag(
    mouse_interaction: MouseInteraction,
    selector: InteractionSelector,
    released: Seq<MouseButton>,
    beyond_threshold: bool,
) -> InteractionSelector {
    if selector.is_drag(mouse_interaction, beyond_threshold) && released.len() > 0 {
        InteractionSelector { start_target: None }
    } else {
        selector
    }
}

/// When a button goes down the selector remembers the target of that moment.
pub fn handle_mouse_press(
    mouse_interaction: &MouseInteraction,
    interaction_selector: &mut InteractionSelector,
    just_pressed: &Vec<MouseButton>,
)
    ensures
        final(interaction_selector).start_target == if just_pressed@.len() > 0 {
            mouse_interaction.target
        } else {
            old(interaction_selector).start_target
        },
{
    if just_pressed.len() > 0 {
        interaction_selector.start_target = mouse_interaction.target;
    }
}

/// The press events to send in a tick in which the buttons `just_released`
/// came up.
pub fn send_mouse_pressed_events(
    mouse_interaction: &MouseInteraction,
    interaction_selector: &InteractionSelector,
    just_released: &Vec<MouseButton>,
    beyond_threshold: bool,
) -> (events: Vec<OnMousePressed>)
    ensures
        events@ == pressed_events(
            *mouse_interaction,
            *interaction_selector,
            just_released@,
            beyond_threshold,
        ),
{
    let mut events: Vec<OnMousePressed> = Vec::new();
    let ghost expected = pressed_events(
        *mouse_interaction,
        *interaction_selector,
        just_released@,
        beyond_threshold,
    );
    let mut index: usize = 0;
    while index < just_released.len()
        invariant
            index <= just_released.len(),
            expected == pressed_events(
                *mouse_interaction,
                *interaction_selector,
                just_released@,
                beyond_threshold,
            ),
            interaction_selector.is_drag(*mouse_interaction, beyond_threshold) ==> events@.len()
                == 0,
            !interaction_selector.is_drag(*mouse_interaction, beyond_threshold) ==> events@
                == expected.subrange(0, index as int),
        decreases just_released.len() - index,
    {
        if interaction_selector.interaction_is_press(mouse_interaction, beyond_threshold) {
            events.push(
                OnMousePressed {
                    button: just_released[index],
                    on_ui: mouse_interaction.mouse_on_ui,
                    target: mouse_interaction.target,
                },
            );
            assert(events@ =~= expected.subrange(0, index + 1));
        }
        index += 1;
    }
    assert(events@ =~= expected);
    events
}

/// The drag events to send in a tick in which the buttons `pressed` are held
/// and the buttons `just_released` came up. The end of a drag resets the
/// selector.
pub fn send_mouse_drag_events(
    mouse_interaction: &MouseInteraction,
    interaction_selector: &mut InteractionSelector,
    pressed: &Vec<MouseButton>,
    just_released: &Vec<MouseButton>,
    beyond_threshold: bool,
) -> (events: Vec<OnMouseDrag>)
    ensures
        events@ == drag_events(
            *mouse_interaction,
            *old(interaction_selector),
            pressed@,
            just_released@,
            beyond_threshold,
        ),
        *final(interaction_selector) == selector_after_drag(
            *mouse_interaction,
            *old(interaction_selector),
            just_released@,
            beyond_threshold,
        ),
{
    let ghost selector = *interaction_selector;
    let ghost dragging = selector.is_drag(*mouse_interaction, beyond_threshold);
    let ghost ongoing = Seq::new(
        pressed@.len(),
        |i: int|
            OnMouseDrag {
                phase: EventPhase::Ongoing,
                button: pressed@[i],
                start: selector.start_target,
                end: mouse_interaction.target,
            },
    );
    let mut events: Vec<OnMouseDrag> = Vec::new();
    let mut index: usize = 0;
    while index < pressed.len()
        invariant
            index <= pressed.len(),
            *interaction_selector == selector,
            dragging == selector.is_drag(*mouse_interaction, beyond_threshold),
            ongoing.len() == pressed@.len(),
            forall|i: int|
                0 <= i < pressed@.len() ==> #[trigger] ongoing[i] == (OnMouseDrag {
                    phase: EventPhase::Ongoing,
                    button: pressed@[i],
                    start: selector.start_target,
                    end: mouse_interaction.target,
                }),
            !dragging ==> events@.len() == 0,
            dragging ==> events@ == ongoing.subrange(0, index as int),
        decreases pressed.len() - index,
    {
        if interaction_selector.interaction_is_drag(mouse_interaction, beyond_threshold) {
            events.push(
                OnMouseDrag {
                    phase: EventPhase::Ongoing,
                    button: pressed[index],
                    start: interaction_selector.start_target,
                    end: mouse_interaction.target,
                },
            );
            assert(events@ =~= ongoing.subrange(0, index + 1));
        }
        index += 1;
    }
    assert(dragging ==> events@ =~= ongoing);
    let mut index: usize = 0;
    while index < just_released.len()
        invariant
            index <= just_released.len(),
            dragging == selector.is_drag(*mouse_interaction, beyond_threshold),
            *interaction_selector == if dragging && index > 0 {
                InteractionSelector { start_target: None }
            } else {
                selector
            },
            !dragging ==> events@.len() == 0,
            dragging && index == 0 ==> events@ == ongoing,
            dragging && index > 0 ==> events@ == ongoing.push(
                OnMouseDrag {
                    phase: EventPhase::Ended,
                    button: just_released@[0],
                    start: selector.start_target,
                    end: mouse_interaction.target,
                },
            ),
        decreases just_released.len() - index,
    {
        if interaction_selector.interaction_is_drag(mouse_interaction, beyond_threshold) {
            events.push(
                OnMouseDrag {
                    phase: EventPhase::Ended,
                    button: just_released[index],
                    start: interaction_selector.start_target,
                    end: mouse_interaction.target,
                },
            );
            interaction_selector.reset();
        }
        index += 1;
    }
    assert(events@ =~= drag_events(
        *mouse_interaction,
        selector,
        pressed@,
        just_released@,
        beyond_threshold,
    ));
    events
}

} // verus!
