//! What the stub of a generation embeds.

use vstd::prelude::*;
use vstd::string::*;
use crate::generation::Generation;
use crate::index::Slot;
use crate::layout::{command_line, joined, reference, reference_text};

verus! {

/// A section that is added to the template of the stub.
#[derive(Clone, Debug)]
pub struct Section {
    pub name: String,
    pub contents: String,
}

/// Names and contents of a list of sections.
pub open spec fn section_texts(sections: Seq<Section>) -> Seq<(Seq<char>, Seq<char>)> {
    Seq::new(sections.len(), |i: int| (sections[i].name@, sections[i].contents@))
}

/// The sections of a generation's stub: the kernel command line, and the
/// places on the partition where the stub finds kernel and initrd.
pub open spec fn embedded(generation: Generation) -> Seq<(Seq<char>, Seq<char>)> {
    seq![
        (".cmdline"@, joined(generation.kernel_params@)),
        (".kernelp"@, reference_text(generation.name(), Slot::Kernel)),
        (".initrdp"@, reference_text(generation.name(), Slot::Initrd)),
    ]
}

/// The sections to embed in the stub of a generation.
pub fn sections(generation: &Generation) -> (list: Vec<Section>)
    ensures
        section_texts(list@) == embedded(*generation),
{
    let id = generation.identifier();
    let mut list: Vec<Section> = Vec::new();
    list.push(
        Section { name: ".cmdline".to_owned(), contents: command_line(&generation.kernel_params) },
    );
    list.push(Section { name: ".kernelp".to_owned(), contents: reference(id, Slot::Kernel) });
    list.push(Section { name: ".initrdp".to_owned(), contents: reference(id, Slot::Initrd) });
    list
}

} // verus!
