//! Steam game catalogue: the data model, the request and cursor encodings,
//! and the decisions of the catalogue worker, with their contracts.

pub mod graphql;
pub mod steam;
pub mod utils;
