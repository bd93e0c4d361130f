pub mod complex;
pub mod engine;
pub mod projector;
pub mod render;
pub mod scale;
pub mod connectivity;
pub mod sampler;
pub mod view;
