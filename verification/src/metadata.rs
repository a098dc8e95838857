//! The normalized view of the workspace that the metadata reader hands this
//! library: packages, their build targets, and each package's tool-scoped
//! configuration table. The reader (an external subprocess and its schema)
//! produces these plain values once per run; nothing here is mutated.

use vstd::prelude::*;
use crate::manifest::{Abi, Bindings};
use crate::paths::SegPath;

verus! {

/// The tool-scoped configuration table of one package.
#[derive(Debug, Clone, PartialEq, Eq)]
pub struct Wapm {
    /// Registry namespace the package is published under. Required.
    pub namespace: String,
    /// Overrides the crate's own name in the published package name.
    pub package: Option<String>,
    /// Extra flags handed through to the publisher.
    pub wasmer_extra_flags: Option<String>,
    /// Execution environment the module is compiled against.
    pub abi: Abi,
    /// Ordered mapping of mount path to host path.
    pub fs: Vec<(String, String)>,
    /// Reference to an interface-description file.
    pub bindings: Option<Bindings>,
}

/// The full metadata table of one package, as far as this tool reads it.
#[derive(Debug, Clone, PartialEq, Eq)]
pub struct MetadataTable {
    pub wapm: Wapm,
}

/// What the metadata reader found in a package's opaque metadata: nothing,
/// a table it could not read (with the schema-violation message), or the
/// table itself.
#[derive(Debug, Clone, PartialEq, Eq)]
pub enum ConfigTable {
    Absent,
    Malformed { message: String },
    Present { table: MetadataTable },
}

/// One build target a package declares.
#[derive(Debug, Clone, PartialEq, Eq)]
pub struct TargetInfo {
    pub name: String,
    /// Kind tags of the target as the workspace metadata reports them
    /// (for instance a binary is tagged `bin`).
    pub kinds: Vec<String>,
}

/// One package of the workspace, as the metadata reader normalized it.
#[derive(Debug, Clone, PartialEq, Eq)]
pub struct PackageInfo {
    /// Workspace-unique identifier.
    pub id: String,
    pub name: String,
    pub version: String,
    pub description: Option<String>,
    pub license: Option<String>,
    /// Path of the license file, relative to the manifest directory.
    pub license_file: Option<SegPath>,
    /// Path of the readme, relative to the manifest directory.
    pub readme: Option<SegPath>,
    pub repository: Option<String>,
    pub homepage: Option<String>,
    /// Path of the package's own manifest file.
    pub manifest_path: SegPath,
    pub targets: Vec<TargetInfo>,
    pub config: ConfigTable,
}

/// Everything one metadata query returns that this library reads.
#[derive(Debug, Clone, PartialEq, Eq)]
pub struct WorkspaceMeta {
    pub packages: Vec<PackageInfo>,
    /// Identifiers of the packages that are workspace members.
    pub workspace_members: Vec<String>,
    pub target_directory: SegPath,
    /// Identifier of the workspace root package, if the workspace has one.
    pub root_id: Option<String>,
}

} // verus!
