//! What the screens show and how they answer to keys, without the drawing.
pub mod app;
pub mod app_laws;
pub mod heading;
pub mod highlight;
pub mod lanes;
pub mod mask;
pub mod order;
pub mod pages;
pub mod show_laws;
