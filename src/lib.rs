//! Picks recipes from a fixed catalog without repeats within a session, and
//! plans the cached document and image derived from each recipe.
pub mod artifact;
pub mod catalog;
pub mod json;
pub mod recipe;
pub mod session;
pub mod text;
