//! Turns an INI-style configuration document into a template, where each
//! assigned value is replaced by a `{{ variable }}` placeholder, and a listing
//! of those variables with their values.
use vstd::prelude::*;

pub mod text;
pub mod error;
pub mod classify;
pub mod render;
pub mod transform;
pub mod laws;

verus! {

} // verus!
