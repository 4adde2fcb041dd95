use vstd::prelude::*;
use vstd::std_specs::cmp::PartialEqSpecImpl;
use bevy::ecs::entity::Entity;
use crate::coordinate::Coordinate;
use crate::vector::Vector;

verus! {

/// Where a ray met a surface: the point of the hit and the outward normal of
/// the surface there, a vector of length one. A hit lives for one resolution
/// of the target.
#[derive(Clone, Copy, Debug)]
pub struct RayHit {
    pub point: Vector,
    pub normal: Vector,
}

impl RayHit {
    pub fn new(point: Vector, normal: Vector) -> (hit: Self)
        ensures
            hit == (RayHit { point, normal }),
    {
        Self { point, normal }
    }
}

/// What the pointer rests on: the point where its ray meets a surface, the
/// outward normal of that surface, the voxel on the near side of the surface
/// (`in_coord`, the one looked at) and the voxel just outside it along the
/// normal (`out_coord`).
///
/// A target is the normal and the two coordinates: two targets are equal
/// when their normals are equal as vectors and their coordinates are the
/// same. The hit point is carried along as the place where the ray met the
/// surface when the target was resolved; it plays no part in the comparison,
/// so a pointer that glides over one face of a voxel keeps one and the same
/// target.
#[derive(Clone, Copy, Debug)]
pub struct MouseTarget {
    pub point: Vector,
    pub normal: Vector,
    pub in_coord: Coordinate,
    pub out_coord: Coordinate,
}

impl MouseTarget {
    /// Equality of two targets: the same normal, the same voxel behind the
    /// surface and the same voxel in front of it.
    pub open spec fn same_target(self, other: MouseTarget) -> bool {
        &&& self.normal.same_vector(other.normal)
        &&& self.in_coord == other.in_coord
        &&& self.out_coord == other.out_coord
    }

    /// Whether the normal is a vector of numbers, none of its components a
    /// NaN. A normal of length one always is. A target whose normal is not
    /// equals no target, itself included.
    pub open spec fn has_numeric_normal(self) -> bool {
        !self.normal.has_nan()
    }

    /// The target of a hit. `in_position` is the hit point in voxel units
    /// moved half a voxel against the normal, `out_position` the same point
    /// moved half a voxel along it; the caller does that arithmetic. Each of
    /// the two is snapped to the nearest cell, so that a hit anywhere on a
    /// face, its edges included, names the voxel behind the face and the
    /// voxel in front of it.
    pub fn from_raycast(hit: RayHit, in_position: Vector, out_position: Vector) -> (target: Self)
        ensures
            target == (MouseTarget {
                point: hit.point,
                normal: hit.normal,
                in_coord: Coordinate::spec_nearest(in_position),
                out_coord: Coordinate::spec_nearest(out_position),
            }),
    {
        Self {
            point: hit.point,
            normal: hit.normal,
            in_coord: Coordinate::nearest(in_position),
            out_coord: Coordinate::nearest(out_position),
        }
    }

    pub fn new(point: Vector, normal: Vector, in_coord: Coordinate, out_coord: Coordinate) -> (target:
        Self)
        ensures
            target == (MouseTarget { point, normal, in_coord, out_coord }),
    {
        Self { point, normal, in_coord, out_coord }
    }
}

impl PartialEq for MouseTarget {
    fn eq(&self, other: &MouseTarget) -> (r: bool) {
        self.normal == other.normal && self.in_coord == other.in_coord && self.out_coord
            == other.out_coord
    }
}

impl PartialEqSpecImpl for MouseTarget {
    open spec fn obeys_eq_spec() -> bool {
        true
    }

    open spec fn eq_spec(&self, other: &MouseTarget) -> bool {
        self.same_target(*other)
    }
}

/// Whether a newly resolved target is the one already held: both absent, or
/// both present and equal.
pub open spec fn targets_match(held: Option<MouseTarget>, resolved: Option<MouseTarget>) -> bool {
    match (held, resolved) {
        (None, None) => true,
        (Some(a), Some(b)) => a.same_target(b),
        _ => false,
    }
}

/// Whether a resolved target, if there is one, has a normal free of NaN.
pub open spec fn target_is_numeric(resolved: Option<MouseTarget>) -> bool {
    match resolved {
        Some(target) => target.has_numeric_normal(),
        None => true,
    }
}

/// The notice that the pointer's target is now another one, or is lost.
#[derive(Clone, Copy, Debug)]
pub struct OnMouseTargetChanged {
    pub target: Option<MouseTarget>,
}

/// How an interface element stands to the pointer.
#[derive(Clone, Copy, Debug, PartialEq, Eq, Structural)]
pub enum Interaction {
    Pressed,
    Hovered,
    Idle,
}

/// Whether one of the interface elements is under the pointer, hovered or
/// pressed.
pub open spec fn any_under_pointer(nodes: Seq<Interaction>) -> bool {
    exists|i: int| 0 <= i < nodes.len() && nodes[i] != Interaction::Idle
}

/// The state of the pointer between two ticks: the camera through which it
/// looks, whether it is over the interface, and the target it last resolved.
#[derive(Clone, Copy, Debug)]
pub struct MouseInteraction {
    pub active_camera: Option<Entity>,
    pub mouse_on_ui: bool,
    pub target: Option<MouseTarget>,
}

impl MouseInteraction {
    /// The state after a tick that resolved `resolved`, and the notice that
    /// the tick raises. While the target stays the same the state stays as it
    /// is and no notice is raised, wherever on the surface the ray landed.
    /// When a target appears, is lost, or differs from the one held in its
    /// normal or in one of its two coordinates, the resolved target is held
    /// from then on and one notice carries it.
    pub open spec fn resolve(self, resolved: Option<MouseTarget>) -> (
        MouseInteraction,
        Option<OnMouseTargetChanged>,
    ) {
        if targets_match(self.target, resolved) {
            (self, None)
        } else {
            (
                MouseInteraction { target: resolved, ..self },
                Some(OnMouseTargetChanged { target: resolved }),
            )
        }
    }

    /// The camera to cast the pointer's ray from: none while the pointer is
    /// over the interface, else the active camera if one is set.
    pub open spec fn spec_ray_camera(&self) -> Option<Entity> {
        if self.mouse_on_ui {
            None
        } else {
            self.active_camera
        }
    }

    pub fn set_active_camera(&mut self, camera_entity: Entity)
        ensures
            *final(self) == (MouseInteraction { active_camera: Some(camera_entity), ..*old(self) }),
    {
        self.active_camera = Some(camera_entity);
    }

    /// Takes note of whether the pointer is over the interface: it is when
    /// one of the elements is hovered or pressed.
    pub fn update_mouse_on_ui(&mut self, nodes: &Vec<Interaction>)
        ensures
            *final(self) == (MouseInteraction {
                mouse_on_ui: any_under_pointer(nodes@),
                ..*old(self)
            }),
    {
        let mut found = false;
        let mut index: usize = 0;
        while index < nodes.len()
            invariant
                index <= nodes.len(),
                found == any_under_pointer(nodes@.subrange(0, index as int)),
            decreases nodes.len() - index,
        {
            let ghost before = nodes@.subrange(0, index as int);
            let ghost after = nodes@.subrange(0, index + 1);
            match nodes[index] {
                Interaction::Idle => {
                    proof {
                        if any_under_pointer(after) {
                            let i = choose|i: int| 0 <= i < after.len() && after[i] != Interaction::Idle;
                            assert(before[i] == after[i]);
                        }
                        if any_under_pointer(before) {
                            let i = choose|i: int|
                                0 <= i < before.len() && before[i] != Interaction::Idle;
                            assert(after[i] == before[i]);
                        }
                    }
                },
                _ => {
                    found = true;
                    assert(after[index as int] != Interaction::Idle);
                },
            }
            index += 1;
        }
        assert(nodes@.subrange(0, index as int) =~= nodes@);
        self.mouse_on_ui = found;
    }

    #[verifier::when_used_as_spec(spec_ray_camera)]
    pub fn ray_camera(&self) -> (camera: Option<Entity>)
        ensures
            camera == self.spec_ray_camera(),
    {
        if self.mouse_on_ui {
            None
        } else {
            self.active_camera
        }
    }

    /// One tick of target tracking. `resolved` is what the ray found this
    /// tick. The target held is replaced and a notice returned only when
    /// `resolved` differs from it in presence, normal or coordinates.
    pub fn update_mouse_target(&mut self, resolved: Option<MouseTarget>) -> (notice: Option<
        OnMouseTargetChanged,
    >)
        ensures
            (*final(self), notice) == old(self).resolve(resolved),
    {
        if self.target == resolved {
            None
        } else {
            self.target = resolved;
            Some(OnMouseTargetChanged { target: resolved })
        }
    }
}

impl Default for MouseInteraction {
    /// No camera, pointer off the interface, no target.
    fn default() -> (state: Self)
        ensures
            state == (MouseInteraction { active_camera: None, mouse_on_ui: false, target: None }),
    {
        Self { active_camera: None, mouse_on_ui: false, target: None }
    }
}

/// A target whose normal is free of NaN equals itself.
pub proof fn lemma_target_reflexive(resolved: Option<MouseTarget>)
    requires
        target_is_numeric(resolved),
    ensures
        targets_match(resolved, resolved),
{
}

/// Resolving the same target twice in a row raises a notice at most the
/// first time: whatever was held before, the second tick raises none and
/// leaves the state as the first tick left it. The target's normal is free
/// of NaN, as that of every normal of length one is; the hit point may be
/// anything.
pub proof fn lemma_same_target_notifies_once(
    state: MouseInteraction,
    resolved: Option<MouseTarget>,
)
    requires
        target_is_numeric(resolved),
    ensures
        state.resolve(resolved).0.resolve(resolved).1 is None,
        state.resolve(resolved).0.resolve(resolved).0 == state.resolve(resolved).0,
{
    let first = state.resolve(resolved).0;
    if targets_match(state.target, resolved) {
    } else {
        assert(first.target == resolved);
        lemma_target_reflexive(resolved);
    }
}

/// Where the ray lands on the surface does not matter: a tick that resolves
/// a target with the normal and the coordinates of the one held raises no
/// notice and leaves the state as it is, whatever the two hit points are.
pub proof fn lemma_point_is_not_compared(
    state: MouseInteraction,
    held: MouseTarget,
    resolved: MouseTarget,
)
    requires
        state.target == Some(held),
        held.has_numeric_normal(),
        resolved.normal == held.normal,
        resolved.in_coord == held.in_coord,
        resolved.out_coord == held.out_coord,
    ensures
        state.resolve(Some(resolved)).1 is None,
        state.resolve(Some(resolved)).0 == state,
{
}

/// A notice is raised exactly when a target appears, is lost, or differs
/// from the one held in its normal or in one of its two coordinates. It then
/// carries the resolved target, which is held from then on; without a notice
/// the state stays as it is.
pub proof fn lemma_notice_on_change_only(state: MouseInteraction, resolved: Option<MouseTarget>)
    ensures
        state.resolve(resolved).1 is Some <==> !targets_match(state.target, resolved),
        state.resolve(resolved).1 is Some ==> state.resolve(resolved).1->Some_0.target == resolved
            && state.resolve(resolved).0.target == resolved,
        state.resolve(resolved).1 is None ==> state.resolve(resolved).0 == state,
{
}

} // verus!
