use vstd::prelude::*;

verus! {

/// What the editor does with the pointer: place and remove blocks, or pick
/// cells for a later edit.
#[derive(Clone, Copy, Debug, PartialEq, Eq, Structural)]
pub enum EditorMode {
    Build,
    Select,
}

/// The mode the editor is in.
#[derive(Clone, Copy, Debug)]
pub struct CurrentEditorMode {
    mode: EditorMode,
}

/// The mode that follows a mode when the switch key is pressed: the other one.
pub open spec fn next_editor_mode(mode: EditorMode) -> EditorMode {
    match mode {
        EditorMode::Build => EditorMode::Select,
        EditorMode::Select => EditorMode::Build,
    }
}

impl CurrentEditorMode {
    pub closed spec fn spec_mode(&self) -> EditorMode {
        self.mode
    }

    pub fn new(mode: EditorMode) -> (current: Self)
        ensures
            current.spec_mode() == mode,
    {
        Self { mode }
    }

    #[verifier::when_used_as_spec(spec_mode)]
    pub fn mode(&self) -> (mode: EditorMode)
        ensures
            mode == self.spec_mode(),
    {
        self.mode
    }
}

impl Default for CurrentEditorMode {
    /// The editor starts in build mode.
    fn default() -> (current: Self)
        ensures
            current.spec_mode() == EditorMode::Build,
    {
        Self { mode: EditorMode::Build }
    }
}

#[verifier::when_used_as_spec(next_editor_mode)]
pub fn get_next_editor_mode(mode: EditorMode) -> (next: EditorMode)
    ensures
        next == next_editor_mode(mode),
{
    match mode {
        EditorMode::Build => EditorMode::Select,
        EditorMode::Select => EditorMode::Build,
    }
}

/// Switches to the other mode when the switch key went down in this tick.
pub fn switch_editor_mode(mode_switch_key_pressed: bool, editor_mode: &mut CurrentEditorMode)
    ensures
        final(editor_mode).spec_mode() == if mode_switch_key_pressed {
            next_editor_mode(old(editor_mode).spec_mode())
        } else {
            old(editor_mode).spec_mode()
        },
{
    if mode_switch_key_pressed {
        editor_mode.mode = get_next_editor_mode(editor_mode.mode);
    }
}

} // verus!
