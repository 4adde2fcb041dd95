//! The verified core of a voxel world editor: chunk storage addressed by
//! lattice coordinates, the bookkeeping around a pointer target, and the
//! rules that turn pointer gestures into edits of a chunk.
//!
//! The core does no floating-point arithmetic. Real-valued quantities
//! (colours, hit points, surface normals) are carried as bit patterns; the
//! core compares them and snaps positions to the lattice, both in integer
//! arithmetic on the patterns.

pub mod scalar;
pub mod vector;
pub mod color;
pub mod block;
pub mod coordinate;
pub mod lattice;
pub mod chunk;
pub mod chunk_lemmas;
pub mod entity;
pub mod mouse_target;
pub mod mouse_events;
pub mod selection;
pub mod color_library;
pub mod selector;
pub mod editor_modes;
pub mod building;
