//! The definition of the API that the filesystem mirrors.
use vstd::prelude::*;

verus! {

/// The kind of service behind the API.
#[derive(Clone, Copy, Debug, PartialEq, Eq, Structural)]
pub enum BackendType {
    REST,
}

/// Where the API lives and which of its endpoints the filesystem shows.
#[derive(Clone, Debug)]
pub struct ApiDefinition {
    pub api_type: BackendType,
    pub url: String,
    pub endpoints: Vec<String>,
}

} // verus!
