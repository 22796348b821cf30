//! The logic of a small set of renderers, kept apart from the engine and the
//! graphics API that run it.
//!
//! The tilemap renderer: tile storage and animation tables (`tilemap`), the
//! per-frame snapshot (`extract`), mesh building (`mesh`), draw ordering and
//! pipeline variants (`queue`) and the staging of per-tilemap GPU data
//! (`bind`). Beside it: the pipeline variants of a full-screen noise effect
//! (`noise`), storage-buffer staging (`buffer`) and the triangulation of OBJ
//! polygons (`geometry`) of a standalone mesh renderer. Entities are named by
//! their 64-bit id (`entity`).

pub mod bind;
pub mod buffer;
pub mod entity;
pub mod extract;
pub mod geometry;
pub mod mesh;
pub mod noise;
pub mod queue;
pub mod tilemap;
