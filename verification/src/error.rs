//! What can go wrong in a run.

use vstd::prelude::*;
use vstd::string::*;
use crate::identifier::{token_text, Identifier};
use crate::index::Slot;

verus! {

/// A field of a generation's descriptor.
#[derive(Clone, Copy, Debug, PartialEq, Eq, Structural)]
pub enum Field {
    Version,
    Label,
    Toplevel,
    Kernel,
    Initrd,
    OsRelease,
}

/// An error that ends the run. The diagnostic is what the failing tool
/// printed, word for word.
#[derive(Clone, Debug)]
pub enum InstallError {
    /// A required field of the descriptor is absent or of the wrong shape.
    MalformedDescriptor { field: Field },
    /// The kernel or the initrd that the descriptor names does not exist.
    MissingArtifact { artifact: Slot },
    /// The stub of the generation could not be built.
    StubBuildError { generation: Identifier, diagnostic: String },
    /// One of the generation's three artifacts could not be signed.
    SigningFailed { generation: Identifier, artifact: Slot, diagnostic: String },
    /// A signed artifact could not be moved to its place on the partition.
    PublishError { generation: Identifier, artifact: Slot, diagnostic: String },
    /// The loader entry of the generation could not be written.
    LoaderWriteError { generation: Identifier, diagnostic: String },
}

/// A file of an evicted artifact set that could not be deleted. The run
/// goes on and reports it at its end.
#[derive(Clone, Debug)]
pub struct GcError {
    pub identifier: Identifier,
    pub file: Slot,
    pub diagnostic: String,
}

/// The word for one of the four files of an artifact set.
pub open spec fn slot_word(slot: Slot) -> Seq<char> {
    match slot {
        Slot::Entry => "loader entry"@,
        Slot::Stub => "stub"@,
        Slot::Kernel => "kernel"@,
        Slot::Initrd => "initrd"@,
    }
}

/// The word for a field of a descriptor.
pub open spec fn field_word(field: Field) -> Seq<char> {
    match field {
        Field::Version => "version"@,
        Field::Label => "label"@,
        Field::Toplevel => "toplevel"@,
        Field::Kernel => "kernel"@,
        Field::Initrd => "initrd"@,
        Field::OsRelease => "osRelease"@,
    }
}

/// What an error says: which stage failed for which generation, and after
/// a colon what the failing tool printed.
pub open spec fn message(error: InstallError) -> Seq<char> {
    match error {
        InstallError::MalformedDescriptor { field } => "malformed descriptor: "@ + field_word(
            field,
        ),
        InstallError::MissingArtifact { artifact } => "missing artifact: "@ + slot_word(artifact),
        InstallError::StubBuildError { generation, diagnostic } => "failed to build the stub of "@
            + token_text(generation) + ": "@ + diagnostic@,
        InstallError::SigningFailed { generation, artifact, diagnostic } => "failed to sign the "@
            + slot_word(artifact) + " of "@ + token_text(generation) + ": "@ + diagnostic@,
        InstallError::PublishError { generation, artifact, diagnostic } =>
            "failed to publish the "@ + slot_word(artifact) + " of "@ + token_text(generation)
                + ": "@ + diagnostic@,
        InstallError::LoaderWriteError { generation, diagnostic } =>
            "failed to write the loader entry of "@ + token_text(generation) + ": "@
                + diagnostic@,
    }
}

/// What a failed deletion says.
pub open spec fn gc_message(error: GcError) -> Seq<char> {
    "failed to delete the "@ + slot_word(error.file) + " of "@ + token_text(error.identifier)
        + ": "@ + error.diagnostic@
}

/// The word for one of the four files of an artifact set.
pub fn word_of_slot(slot: Slot) -> (word: &'static str)
    ensures
        word@ == slot_word(slot),
{
    match slot {
        Slot::Entry => "loader entry",
        Slot::Stub => "stub",
        Slot::Kernel => "kernel",
        Slot::Initrd => "initrd",
    }
}

/// The word for a field of a descriptor.
pub fn word_of_field(field: Field) -> (word: &'static str)
    ensures
        word@ == field_word(field),
{
    match field {
        Field::Version => "version",
        Field::Label => "label",
        Field::Toplevel => "toplevel",
        Field::Kernel => "kernel",
        Field::Initrd => "initrd",
        Field::OsRelease => "osRelease",
    }
}

/// Writes "`verb` the `slot` of `generation`: `diagnostic`".
fn blame(verb: &str, slot: Slot, generation: &Identifier, diagnostic: &str) -> (text: String)
    ensures
        text@ == verb@ + slot_word(slot) + " of "@ + token_text(*generation) + ": "@
            + diagnostic@,
{
    let mut text = verb.to_owned();
    text.append(word_of_slot(slot));
    text.append(" of ");
    let token = generation.token();
    text.append(token.as_str());
    text.append(": ");
    text.append(diagnostic);
    text
}

impl InstallError {
    /// The error in words.
    pub fn describe(&self) -> (text: String)
        ensures
            text@ == message(*self),
    {
        match self {
            InstallError::MalformedDescriptor { field } => {
                let mut text = "malformed descriptor: ".to_owned();
                text.append(word_of_field(*field));
                text
            },
            InstallError::MissingArtifact { artifact } => {
                let mut text = "missing artifact: ".to_owned();
                text.append(word_of_slot(*artifact));
                text
            },
            InstallError::StubBuildError { generation, diagnostic } => {
                let mut text = "failed to build the stub of ".to_owned();
                let token = generation.token();
                text.append(token.as_str());
                text.append(": ");
                text.append(diagnostic.as_str());
                text
            },
            InstallError::SigningFailed { generation, artifact, diagnostic } => blame(
                "failed to sign the ",
                *artifact,
                generation,
                diagnostic.as_str(),
            ),
            InstallError::PublishError { generation, artifact, diagnostic } => blame(
                "failed to publish the ",
                *artifact,
                generation,
                diagnostic.as_str(),
            ),
            InstallError::LoaderWriteError { generation, diagnostic } => {
                let mut text = "failed to write the loader entry of ".to_owned();
                let token = generation.token();
                text.append(token.as_str());
                text.append(": ");
                text.append(diagnostic.as_str());
                text
            },
        }
    }
}

impl GcError {
    /// The failed deletion in words.
    pub fn describe(&self) -> (text: String)
        ensures
            text@ == gc_message(*self),
    {
        blame("failed to delete the ", self.file, &self.identifier, self.diagnostic.as_str())
    }
}

} // verus!
