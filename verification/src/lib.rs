//! A small post service core: a single `Post` entity with create, paginated
//! list, full-replace update and delete operations, together with the
//! request-handling layer that maps parsed HTTP input to responses, the
//! connection-pool configuration and the startup schema migration step.

pub mod errors;
pub mod handlers;
pub mod json;
pub mod laws;
pub mod params;
pub mod pool;
pub mod post;
pub mod store;
