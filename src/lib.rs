//! Random file picking with recency memory, and similarity-based sorting of
//! loose files into folders with reversible moves.

pub mod executor;
pub mod filters;
pub mod models;
pub mod paths;
pub mod planner;
pub mod randomiser;
pub mod selection;
pub mod settings;
pub mod similarity;
pub mod state;
pub mod text;
pub mod undo;
