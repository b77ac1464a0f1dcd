use vstd::prelude::*;

pub mod annotations;
pub mod common;
pub mod config;
pub mod error;
pub mod ir;
pub mod mysql;
pub mod normalize;
pub mod ops;
pub mod postgres;
pub mod schema;
pub mod sqlite;
pub mod strset;
pub mod testkit;
pub mod text;
pub mod version;

verus! {

} // verus!
