//! A small blogging backend library: an in-memory post store, the three
//! request-handling operations (create a post, list the feed, fetch a post
//! by id), the JSON wire format they speak, and the content-type middleware,
//! each with a verified contract.

pub mod model;
pub mod database;
pub mod ids;
pub mod json;
pub mod text;
pub mod shared;
pub mod handler;
pub mod laws;
