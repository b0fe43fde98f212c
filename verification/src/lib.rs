//! The logic of a FUSE filesystem whose files and directories mirror the
//! objects of a REST API: the endpoint table, the attributes reported for
//! each endpoint, directory listings, file reads, and the decoding of the
//! API's JSON answers into objects.

pub mod backend;
pub mod definition;
pub mod directory;
pub mod endpoint;
pub mod filesystem;
pub mod laws;
pub mod timestamp;

pub use backend::ApiObject;
pub use definition::{ApiDefinition, BackendType};
pub use endpoint::FSEndPoint;
pub use filesystem::ApiFS;
