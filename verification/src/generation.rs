//! Generations and their descriptors.

use vstd::prelude::*;
use vstd::string::*;
use crate::error::{Field, InstallError};
use crate::identifier::{digest_of, law_versions_tell_tokens_apart, token_text, Identifier};
use crate::index::Slot;

verus! {

/// A named variant of a generation's boot parameters.
#[derive(Clone, Debug)]
pub struct Specialisation {
    pub name: String,
    pub kernel: String,
    pub initrd: String,
    pub kernel_params: Vec<String>,
}

/// One immutable, versioned system build.
#[derive(Clone, Debug)]
pub struct Generation {
    pub version: u64,
    pub label: String,
    pub toplevel: String,
    pub kernel: String,
    pub initrd: String,
    pub kernel_params: Vec<String>,
    pub os_release: Option<String>,
    pub specialisations: Vec<Specialisation>,
}

impl Generation {
    /// The identifier of the generation's artifact set. It depends on the
    /// version and on the path of the system tree, on nothing else.
    pub open spec fn name(&self) -> Identifier {
        Identifier {
            version: self.version,
            digest: digest_of(vstd::utf8::encode_utf8(self.toplevel@)),
        }
    }

    /// Derives the identifier under which the generation is installed.
    pub fn identifier(&self) -> (id: Identifier)
        ensures
            id == self.name(),
    {
        Identifier::new(self.version, self.toplevel.as_str())
    }
}

/// A generation's descriptor as it was read from disk: every field that
/// the installer consumes, present or not.
#[derive(Clone, Debug)]
pub struct Descriptor {
    pub version: Option<u64>,
    pub label: Option<String>,
    pub toplevel: Option<String>,
    pub kernel: Option<String>,
    pub initrd: Option<String>,
    pub kernel_params: Vec<String>,
    pub os_release: Option<String>,
    pub specialisations: Vec<Specialisation>,
}

/// Whether a path starts at the root of the file system.
pub open spec fn absolute(path: Seq<char>) -> bool {
    path.len() > 0 && path[0] == '/'
}

/// Whether a text is not empty and holds no line break.
pub open spec fn single_line(text: Seq<char>) -> bool {
    text.len() > 0 && forall|i: int| 0 <= i < text.len() ==> text[i] != '\n'
}

/// Whether a path is given and absolute.
pub open spec fn given_absolute(path: Option<String>) -> bool {
    path matches Some(p) && absolute(p@)
}

/// The first thing that is wrong with a descriptor, if anything is. The
/// fields are looked at in the order version, label, toplevel, kernel,
/// initrd, OS release; then the kernel and the initrd must exist.
pub open spec fn complaint(d: Descriptor, kernel_exists: bool, initrd_exists: bool) -> Option<
    InstallError,
> {
    if d.version is None {
        Some(InstallError::MalformedDescriptor { field: Field::Version })
    } else if !(d.label matches Some(l) && single_line(l@)) {
        Some(InstallError::MalformedDescriptor { field: Field::Label })
    } else if !given_absolute(d.toplevel) {
        Some(InstallError::MalformedDescriptor { field: Field::Toplevel })
    } else if !given_absolute(d.kernel) {
        Some(InstallError::MalformedDescriptor { field: Field::Kernel })
    } else if !given_absolute(d.initrd) {
        Some(InstallError::MalformedDescriptor { field: Field::Initrd })
    } else if d.os_release is Some && !given_absolute(d.os_release) {
        Some(InstallError::MalformedDescriptor { field: Field::OsRelease })
    } else if !kernel_exists {
        Some(InstallError::MissingArtifact { artifact: Slot::Kernel })
    } else if !initrd_exists {
        Some(InstallError::MissingArtifact { artifact: Slot::Initrd })
    } else {
        None
    }
}

/// The generation that a descriptor without fault describes.
pub open spec fn described(d: Descriptor) -> Generation {
    Generation {
        version: d.version->0,
        label: d.label->0,
        toplevel: d.toplevel->0,
        kernel: d.kernel->0,
        initrd: d.initrd->0,
        kernel_params: d.kernel_params,
        os_release: d.os_release,
        specialisations: d.specialisations,
    }
}

/// Tells whether a path starts at the root of the file system.
pub fn is_absolute(path: &str) -> (result: bool)
    ensures
        result == absolute(path@),
{
    path.unicode_len() > 0 && path.get_char(0) == '/'
}

/// Tells whether a text is not empty and holds no line break.
pub fn is_single_line(text: &str) -> (result: bool)
    ensures
        result == single_line(text@),
{
    let length: usize = text.unicode_len();
    if length == 0 {
        return false;
    }
    let mut i: usize = 0;
    while i < length
        invariant
            length == text@.len(),
            i <= length,
            forall|k: int| 0 <= k < i ==> text@[k] != '\n',
        decreases length - i,
    {
        if text.get_char(i) == '\n' {
            return false;
        }
        i += 1;
    }
    true
}

/// Tells whether a path is given and absolute.
fn is_given_absolute(path: &Option<String>) -> (result: bool)
    ensures
        result == given_absolute(*path),
{
    match path {
        Some(p) => is_absolute(p.as_str()),
        None => false,
    }
}

/// Makes a generation of its descriptor, or says what is wrong with it.
/// `kernel_exists` and `initrd_exists` tell whether the files that the
/// descriptor names are there.
pub fn read(descriptor: Descriptor, kernel_exists: bool, initrd_exists: bool) -> (result: Result<
    Generation,
    InstallError,
>)
    ensures
        match result {
            Ok(generation) => complaint(descriptor, kernel_exists, initrd_exists) is None
                && generation == described(descriptor),
            Err(error) => complaint(descriptor, kernel_exists, initrd_exists) == Some(error),
        },
{
    if descriptor.version.is_none() {
        return Err(InstallError::MalformedDescriptor { field: Field::Version });
    }
    let label_fits: bool = match &descriptor.label {
        Some(l) => is_single_line(l.as_str()),
        None => false,
    };
    if !label_fits {
        return Err(InstallError::MalformedDescriptor { field: Field::Label });
    }
    if !is_given_absolute(&descriptor.toplevel) {
        return Err(InstallError::MalformedDescriptor { field: Field::Toplevel });
    }
    if !is_given_absolute(&descriptor.kernel) {
        return Err(InstallError::MalformedDescriptor { field: Field::Kernel });
    }
    if !is_given_absolute(&descriptor.initrd) {
        return Err(InstallError::MalformedDescriptor { field: Field::Initrd });
    }
    if descriptor.os_release.is_some() && !is_given_absolute(&descriptor.os_release) {
        return Err(InstallError::MalformedDescriptor { field: Field::OsRelease });
    }
    if !kernel_exists {
        return Err(InstallError::MissingArtifact { artifact: Slot::Kernel });
    }
    if !initrd_exists {
        return Err(InstallError::MissingArtifact { artifact: Slot::Initrd });
    }
    let Descriptor {
        version,
        label,
        toplevel,
        kernel,
        initrd,
        kernel_params,
        os_release,
        specialisations,
    } = descriptor;
    Ok(
        Generation {
            version: version.unwrap(),
            label: label.unwrap(),
            toplevel: toplevel.unwrap(),
            kernel: kernel.unwrap(),
            initrd: initrd.unwrap(),
            kernel_params,
            os_release,
            specialisations,
        },
    )
}

/// Naming is stable: generations of the same version and the same system
/// tree have the same identifier, whatever else differs, the label
/// included.
pub proof fn law_same_generation_same_name(a: Generation, b: Generation)
    requires
        a.version == b.version,
        a.toplevel@ == b.toplevel@,
    ensures
        a.name() == b.name(),
        token_text(a.name()) == token_text(b.name()),
{
}

/// Generations of different versions are installed under different names,
/// even where everything else is the same.
pub proof fn law_other_version_other_name(a: Generation, b: Generation)
    requires
        a.version != b.version,
    ensures
        a.name() != b.name(),
        token_text(a.name()) != token_text(b.name()),
{
    law_versions_tell_tokens_apart(a.name(), b.name());
}

} // verus!
