//! The files of one generation's installation.

use vstd::prelude::*;
use vstd::string::*;
use crate::generation::Generation;
use crate::identifier::Identifier;
use crate::index::Slot;
use crate::layout::{destination, destination_text, staged, staged_text};

verus! {

/// One file to install: where its unsigned source lies, where its signed
/// form is staged, and where it belongs on the partition.
#[derive(Clone, Debug)]
pub struct Artifact {
    pub kind: Slot,
    pub source: String,
    pub staged: String,
    pub destination: String,
}

/// The artifacts of one generation, under its identifier, and the path of
/// its loader entry.
#[derive(Clone, Debug)]
pub struct ArtifactSet {
    pub identifier: Identifier,
    pub stub: Artifact,
    pub kernel: Artifact,
    pub initrd: Artifact,
    pub entry: String,
}

/// The path of the unsigned source of an artifact: kernel and initrd lie
/// where the generation says, the stub is built in the staging area.
pub open spec fn source_text(generation: Generation, staging: Seq<char>, kind: Slot) -> Seq<char> {
    match kind {
        Slot::Kernel => generation.kernel@,
        Slot::Initrd => generation.initrd@,
        _ => staged_text(staging, generation.name(), Slot::Stub) + ".unsigned"@,
    }
}

/// Whether an artifact is the one of this kind of the generation, for a
/// partition mounted at `mountpoint` and a staging area at `staging`.
pub open spec fn planned(
    artifact: Artifact,
    generation: Generation,
    mountpoint: Seq<char>,
    staging: Seq<char>,
    kind: Slot,
) -> bool {
    &&& artifact.kind == kind
    &&& artifact.source@ == source_text(generation, staging, kind)
    &&& artifact.staged@ == staged_text(staging, generation.name(), kind)
    &&& artifact.destination@ == destination_text(mountpoint, generation.name(), kind)
}

/// The paths of one artifact of a generation.
fn artifact(generation: &Generation, mountpoint: &str, staging: &str, kind: Slot) -> (result:
    Artifact)
    requires
        kind != Slot::Entry,
    ensures
        planned(result, *generation, mountpoint@, staging@, kind),
{
    let id = generation.identifier();
    let source = match kind {
        Slot::Kernel => generation.kernel.clone(),
        Slot::Initrd => generation.initrd.clone(),
        _ => {
            let mut path = staged(staging, id, Slot::Stub);
            path.append(".unsigned");
            path
        },
    };
    Artifact {
        kind,
        source,
        staged: staged(staging, id, kind),
        destination: destination(mountpoint, id, kind),
    }
}

impl ArtifactSet {
    /// The artifact set of a generation, for a partition mounted at
    /// `mountpoint` and a staging area at `staging`.
    pub fn plan(generation: &Generation, mountpoint: &str, staging: &str) -> (set: ArtifactSet)
        ensures
            set.identifier == generation.name(),
            planned(set.stub, *generation, mountpoint@, staging@, Slot::Stub),
            planned(set.kernel, *generation, mountpoint@, staging@, Slot::Kernel),
            planned(set.initrd, *generation, mountpoint@, staging@, Slot::Initrd),
            set.entry@ == destination_text(mountpoint@, generation.name(), Slot::Entry),
    {
        let id = generation.identifier();
        ArtifactSet {
            identifier: id,
            stub: artifact(generation, mountpoint, staging, Slot::Stub),
            kernel: artifact(generation, mountpoint, staging, Slot::Kernel),
            initrd: artifact(generation, mountpoint, staging, Slot::Initrd),
            entry: destination(mountpoint, id, Slot::Entry),
        }
    }

    /// The artifact of a kind; the loader entry is no artifact.
    pub fn get(&self, kind: Slot) -> (result: Option<&Artifact>)
        ensures
            result == match kind {
                Slot::Stub => Some(&self.stub),
                Slot::Kernel => Some(&self.kernel),
                Slot::Initrd => Some(&self.initrd),
                Slot::Entry => None,
            },
    {
        match kind {
            Slot::Stub => Some(&self.stub),
            Slot::Kernel => Some(&self.kernel),
            Slot::Initrd => Some(&self.initrd),
            Slot::Entry => None,
        }
    }
}

} // verus!
