//! Reading a package manifest (`Cargo.toml`) into a verified model of the
//! package: its targets, their build profiles, and its dependencies.

pub mod paths;
pub mod model;
pub mod schema;
pub mod normalize;
pub mod layout;
pub mod manifest;
pub mod toml_value;
pub mod decode;
pub mod read;
pub mod laws;

pub use decode::decode_manifest;
pub use layout::{
    inferred_bin_targets, inferred_example_targets, inferred_lib_target, inferred_test_targets, project_layout, Layout,
    ProjectListing,
};
pub use model::{Manifest, ManifestError, SourceId};
pub use normalize::normalize;
pub use read::{manifest_from_document, parse, to_manifest};
pub use schema::{
    DetailedTomlDependency, TomlBuildCommandsList, TomlDependency, TomlManifest, TomlProject, TomlTarget,
};
pub use toml_value::TomlValue;
