//! Subtitle layers as a scene graph.
//!
//! A pipeline lays subtitles out into intermediate layers ([`layers`]): runs of
//! text with their effects, vector drawings and bitmaps. This crate turns them
//! into one flat scene ([`scene`]) that a graphics framework draws, and decides
//! what a backend does around it ([`backend`]).
//!
//! The measures of a scene are formulas over the numbers of the layers
//! ([`formula`]), so that everything up to the arithmetic itself is settled and
//! proved here. The modules whose names end in `_laws` state what holds of
//! every text run, every text layer, every scene and every two scenes.

pub mod assembly;
pub mod assembly_laws;
pub mod backend;
pub mod backend_laws;
pub mod cover_laws;
pub mod drawing_laws;
pub mod effects;
pub mod fonts;
pub mod formula;
pub mod frame;
pub mod geometry;
pub mod joining_laws;
pub mod layers;
pub mod measure_laws;
pub mod merge_laws;
pub mod mesh;
pub mod number_laws;
pub mod picture_laws;
pub mod pipeline;
pub mod region;
pub mod run;
pub mod run_laws;
pub mod scene;
pub mod shear_laws;
pub mod single;
pub mod text;
pub mod text_laws;
pub mod turning_laws;
