pub mod debug_form;
pub mod guidance;
pub mod pathfinder4;
pub mod render;
pub mod request;
pub mod scenarios;
pub mod text;
pub mod voices;
pub mod wire;
