pub mod app;
pub mod editing;
pub mod lemmas;
pub mod navigation;
pub mod reorder;
pub mod text;
