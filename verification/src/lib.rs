use vstd::prelude::*;

pub mod text;
pub mod ua;
pub mod ids;
pub mod event_data;
pub mod collector;
pub mod dates;
pub mod queries;
pub mod dashboard;
pub mod auth;
pub mod templates;
pub mod models;
pub mod migrate;
pub mod paths;
pub mod cards;
pub mod properties;
pub mod geo;
pub mod pdf;
pub mod seo;
pub mod seed;

verus! {
}
