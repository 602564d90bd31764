//! Finds the dependencies of a Cargo manifest that have a newer stable
//! release and prepares the `cargo add` invocations that update them.
pub mod apply;
pub mod dependency;
pub mod manifest;
pub mod registry;
pub mod resolve;

pub use apply::{update_args, update_message};
pub use dependency::{Crate, DependencyView};
pub use manifest::{
    dependencies_of, dependency_from_value, find_entry, join_strings, parse_cargo, ConfigValue,
    ManifestError,
};
pub use registry::{registry_url, CRATES_API, USER_AGENT};
pub use resolve::{resolved_update, select_updates};
