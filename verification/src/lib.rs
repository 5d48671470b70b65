//! Verified core of a manifest-driven bundle builder.
//!
//! The library models the build pipeline: resolving a manifest's artifacts,
//! deciding where each fetched artifact is placed (server tree, client tree,
//! both, or neither), constructing the paths and URLs the pipeline uses, and
//! sequencing the pipeline stages as an explicit state machine.  All file,
//! network and process I/O lives outside the library; the library computes
//! the decisions and proves them correct.
pub mod bytestr;
pub mod pipeline;
pub mod plan;

use vstd::prelude::*;

verus! {

/// Placement of one artifact across the two distribution trees, derived once
/// from the artifact's two placement flags.
#[derive(Clone, Copy, Debug, PartialEq, Eq, Structural)]
pub enum Placement {
    ServerOnly,
    ClientOnly,
    Both,
    Neither,
}

/// A single downloadable add-on unit referenced by the manifest.
/// Paths and URLs throughout the library are byte strings.
pub struct ArtifactSpec {
    pub source_url: Vec<u8>,
    pub include_in_server: bool,
    pub include_in_client: bool,
    pub depends_on: Option<Vec<Vec<u8>>>,
}

impl ArtifactSpec {
    /// The placement the two flags denote.
    pub open spec fn spec_placement(&self) -> Placement {
        if self.include_in_server && self.include_in_client {
            Placement::Both
        } else if self.include_in_server {
            Placement::ServerOnly
        } else if self.include_in_client {
            Placement::ClientOnly
        } else {
            Placement::Neither
        }
    }

    /// Derive the placement tag from the two flags.
    pub fn placement(&self) -> (p: Placement)
        ensures
            p == self.spec_placement(),
    {
        if self.include_in_server && self.include_in_client {
            Placement::Both
        } else if self.include_in_server {
            Placement::ServerOnly
        } else if self.include_in_client {
            Placement::ClientOnly
        } else {
            Placement::Neither
        }
    }
}

/// The build-info block of a manifest.  It only feeds the output directory
/// name and the loader download URL; it is never mutated.
pub struct BuildInfo {
    pub name: Vec<u8>,
    pub runtime_version: Vec<u8>,
    pub loader_kind: Vec<u8>,
    pub launcher_channel: Vec<u8>,
}

/// A validated manifest: build info and the named artifacts.  The external
/// loader guarantees the artifact names are unique; `wf` records that.
pub struct BuildManifest {
    pub info: BuildInfo,
    pub artifacts: Vec<(Vec<u8>, ArtifactSpec)>,
}

impl BuildManifest {
    /// Artifact names are pairwise distinct.
    pub open spec fn wf(&self) -> bool {
        forall|i: int, j: int|
            0 <= i < j < self.artifacts@.len() ==> self.artifacts@[i].0@ != self.artifacts@[j].0@
    }
}

/// A fetched artifact between fetch and placement: where the staged file
/// lies, and the manifest name it resolves.
pub struct FetchedArtifact {
    pub local_path: Vec<u8>,
    pub logical_name: Vec<u8>,
}

} // verus!
