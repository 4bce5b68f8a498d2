//! Discrete core of a voxel ray tracer: cube faces, the uniform grid's cell
//! lists and walker, ASCII layer scenes, palettes, textures, the framebuffer
//! and the row-band tiling of a frame.

mod color;
mod face;
mod framebuffer;
mod grid;
mod layers;
mod light;
mod palette;
mod scene;
mod selection;
mod texture;
mod tiling;

pub use color::Color;
pub use face::{Face, FaceRole};
pub use framebuffer::Framebuffer;
pub use grid::{neighbor_cell, CellGrid, CellRange};
pub use layers::{pad_rows, rows_of_layer};
pub use light::LightKind;
pub use palette::Palette;
pub use scene::{
    is_solid, layer_placements, scene_placements, shape_of, Placement, Shape, SolidRule,
};
pub use selection::BlockSelector;
pub use texture::Texture;
pub use tiling::{render_band, row_bands};
