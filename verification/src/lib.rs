//! Runtime interface casting driven by generated cast tables.
//!
//! A concrete type declares the interfaces it can be viewed through and the
//! structural markers it carries. From that declaration the generator
//! computes the complete set of view identifiers the type can be cast to,
//! and the dispatcher answers cast requests for each of the five pointer
//! kinds against that set.

pub mod path;
pub mod marker;
pub mod meta;
pub mod config;
pub mod view_id;
pub mod table;
pub mod dyn_cast;
pub mod generics;
pub mod derive;
pub mod laws;
pub mod leaf_module;
