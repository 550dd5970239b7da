//! Extraction pipeline for structured recipe records.
//!
//! The library walks an already-parsed markup tree, locates named structural
//! landmarks, and translates inconsistent text into typed values: a duration
//! grammar for total/prep/cook times, a closed unit vocabulary, a fixed-point
//! decimal reading of quantities, and a nutrition payload embedded as JSON in
//! a script tag. Fetching documents and persisting the finished record are
//! the caller's concern; the library only computes.

mod db;
mod dom;
mod duration;
mod errors;
mod json;
mod numbers;
mod nutrition;
mod recipes;
mod text;
mod units;

pub use db::Example;
pub use dom::DomNode;
pub use dom::Pred;
pub use dom::find_all;
pub use dom::find_first;
pub use dom::find_nth;
pub use dom::get_attr;
pub use dom::node_text;
pub use duration::U32Ext;
pub use errors::RecipeError;
pub use nutrition::Macros;
pub use nutrition::Nutrient;
pub use nutrition::RawSlot;
pub use recipes::Ingredient;
pub use recipes::Instruction;
pub use recipes::Recipe;
pub use recipes::collect_recipe_links;
pub use text::clean_text;
pub use units::Unit;
