//! Core logic of the casino game's renderer: the asset registry that hands out
//! texture and font keys, glyph lookup for bitmap fonts, draw-call bucketing for
//! the atlas renderer, flipbook frame stepping and a few small numeric helpers.
pub mod layer;
pub mod slots;
pub mod assets;
pub mod font;
pub mod atlas;
pub mod gpu_matrix;
pub mod flipbook;
pub mod surface;
pub mod window;
pub mod pixels;
