//! Verified core of a satellite-coverage heatmap renderer.
//!
//! Polygon-plus-weight data is meshed into level-of-detail triangle lists,
//! accumulated additively into an intensity texture by a render pipeline,
//! normalized by the maximum observed weight read back from the device, and
//! painted through a colour ramp.  This crate holds the parts of that
//! pipeline that are plain computation: the mesh builder (simplification and
//! ear-clipping triangulation), the camera transform with its geographic
//! clamping, the render-pass state machine, and the readback byte decoding.
//! Geographic coordinates and zoom factors are carried as fixed-point
//! integers in units of one millionth (microdegrees, micro-zoom), so that
//! every step is exact and checkable.

pub mod api;
pub mod camera;
pub mod dataset;
pub mod date;
pub mod db;
pub mod geom;
pub mod granule;
pub mod heatmap_data;
pub mod heatmap_response;
pub mod input;
pub mod machine;
pub mod mesh;
pub mod outline_response;
pub mod readback;
pub mod simplify;
pub mod text;
pub mod triangulate;
