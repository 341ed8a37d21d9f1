pub mod camera;
pub mod egui;
pub mod gbuffer;
pub mod line;
pub mod material;
pub mod mesh;
pub mod model;
pub mod render;
pub mod shadow_map;
pub mod shapes;
pub mod skybox;
pub mod texture;
pub mod texture_buffer;
pub mod utils;
