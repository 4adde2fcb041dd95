use vstd::prelude::*;

verus! {

/// `bevy::ecs::entity::Entity`, the engine's name for an object of the scene
/// (a camera, a chunk), declared so that it can stand in fields and
/// signatures. The core stores such a name and hands it back; nothing is
/// claimed of what is inside.
#[verifier::external_type_specification]
#[verifier::external_body]
pub struct ExEntity(bevy::ecs::entity::Entity);

} // verus!
