//! The logic of a small blog: articles, the forms that create them, and the
//! text that the blog's pages and database queries are made of.
use vstd::prelude::*;

pub mod text;
pub mod posted;
pub mod blog;
pub mod pages;
pub mod laws;
pub mod output_laws;

verus! {

} // verus!
