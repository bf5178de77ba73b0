//! The integer and text logic of a software renderer for blocky character
//! models: tint gradients and the greyscale tint rule, texel grids and their
//! clamped reads, texture-layout and face rules, the combinatorics of frustum
//! clipping and fan triangulation, keyframe lookup with wrap-around, the
//! cosmetic catalogue with its variant, colour, texture and tint-path rules,
//! hair culling under head accessories, and asset providers.
pub mod text;
pub mod table;
pub mod tint;
pub mod tint_config;
pub mod texture;
pub mod overlay;
pub mod models;
pub mod faces;
pub mod uv;
pub mod clip;
pub mod keyframes;
pub mod joints;
pub mod cosmetics;
pub mod resolve;
pub mod hair;
pub mod skin;
pub mod assets;
pub mod render_type;
pub mod avatar;
