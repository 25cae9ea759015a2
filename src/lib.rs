//! Local configuration and identity resolution for a deployment-platform
//! command-line client: linked projects keyed by directory, token
//! precedence, atomic persistence plans and update-check throttling.

pub mod config;
pub mod environment;
pub mod paths;
pub mod persist;
pub mod project_map;
pub mod prompt;
pub mod semver;
pub mod timestamp;
