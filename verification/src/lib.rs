//! Tool catalog of a machine shop: reading the JSON catalog, normalizing its
//! records, collecting the attribute names of each schema, filtering, and the
//! state behind a browsing view.

pub mod filter;
pub mod item;
pub mod json;
pub mod keys;
pub mod record;
pub mod state;
pub mod text;
