pub mod gpu_types;
pub mod pipeline;
pub mod renderer;
pub mod storage;
pub mod system;
