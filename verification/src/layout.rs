//! Where the files of an artifact set lie on the partition, and how they
//! are found again.

use vstd::prelude::*;
use vstd::string::*;
use crate::identifier::{decimal, lemma_token_shape, render_decimal, token_text, Identifier};
use crate::index::{holds, lemma_put, InstalledIndex, Slot};

verus! {

/// The ending of the name of a file, which tells the four files of an
/// artifact set apart.
pub open spec fn suffix(slot: Slot) -> Seq<char> {
    match slot {
        Slot::Entry => ".conf"@,
        Slot::Stub => ".efi"@,
        Slot::Kernel => "-kernel.efi"@,
        Slot::Initrd => "-initrd.efi"@,
    }
}

/// The directory of a file, from the root of the partition: loader entries
/// lie in one directory, the artifacts in another.
pub open spec fn directory(slot: Slot) -> Seq<char> {
    match slot {
        Slot::Entry => "loader/entries"@,
        _ => "EFI/Linux"@,
    }
}

/// The name of a file: the text of the identifier and the ending.
pub open spec fn file_name_text(id: Identifier, slot: Slot) -> Seq<char> {
    token_text(id) + suffix(slot)
}

/// The path of a file as the firmware sees it, from the root of the
/// partition.
pub open spec fn reference_text(id: Identifier, slot: Slot) -> Seq<char> {
    "/"@ + directory(slot) + "/"@ + file_name_text(id, slot)
}

/// The path of a file below the directory where the partition is mounted.
pub open spec fn destination_text(mountpoint: Seq<char>, id: Identifier, slot: Slot) -> Seq<char> {
    mountpoint + reference_text(id, slot)
}

/// The path of a file in the staging area.
pub open spec fn staged_text(staging: Seq<char>, id: Identifier, slot: Slot) -> Seq<char> {
    staging + "/"@ + file_name_text(id, slot)
}

/// The contents of a loader entry: the title, the version, and the stub
/// that the entry boots.
pub open spec fn entry_text(label: Seq<char>, id: Identifier) -> Seq<char> {
    "title "@ + label + "\nversion Generation "@ + decimal(id.version as nat) + "\nefi "@
        + reference_text(id, Slot::Stub) + "\n"@
}

/// Words with a space between each two of them.
pub open spec fn joined(words: Seq<String>) -> Seq<char>
    decreases words.len(),
{
    if words.len() == 0 {
        Seq::empty()
    } else if words.len() == 1 {
        words[0]@
    } else {
        joined(words.drop_last()) + " "@ + words.last()@
    }
}

/// Whether a directory listing names the file of `id`.
pub open spec fn listed(names: Seq<String>, id: Identifier, slot: Slot) -> bool {
    exists|i: int| 0 <= i < names.len() && (#[trigger] names[i])@ == file_name_text(id, slot)
}

/// The endings are of different lengths or differ in a character.
pub proof fn lemma_suffixes()
    ensures
        suffix(Slot::Entry).len() == 5,
        suffix(Slot::Stub).len() == 4,
        suffix(Slot::Kernel).len() == 11,
        suffix(Slot::Initrd).len() == 11,
        suffix(Slot::Kernel)[1] == 'k',
        suffix(Slot::Initrd)[1] == 'i',
{
    reveal_strlit(".conf");
    reveal_strlit(".efi");
    reveal_strlit("-kernel.efi");
    reveal_strlit("-initrd.efi");
}

/// A file name names one file: two names are the same only if identifier
/// and kind are.
pub proof fn law_file_names_differ(a: Identifier, s: Slot, b: Identifier, t: Slot)
    requires
        file_name_text(a, s) == file_name_text(b, t),
    ensures
        a == b,
        s == t,
{
    let name = file_name_text(a, s);
    lemma_token_shape(a);
    lemma_token_shape(b);
    lemma_suffixes();
    let ta = token_text(a);
    let tb = token_text(b);
    let ka = ta.len() - 17;
    let kb = tb.len() - 17;
    assert(ta =~= name.take(ka + 17));
    assert(tb =~= name.take(kb + 17));
    assert(suffix(s) =~= name.skip(ka + 17));
}

/// The ending of the name of a file.
pub fn suffix_of(slot: Slot) -> (text: &'static str)
    ensures
        text@ == suffix(slot),
{
    match slot {
        Slot::Entry => ".conf",
        Slot::Stub => ".efi",
        Slot::Kernel => "-kernel.efi",
        Slot::Initrd => "-initrd.efi",
    }
}

/// The directory of a file, from the root of the partition.
pub fn directory_of(slot: Slot) -> (text: &'static str)
    ensures
        text@ == directory(slot),
{
    match slot {
        Slot::Entry => "loader/entries",
        _ => "EFI/Linux",
    }
}

/// The name of a file of an artifact set.
pub fn file_name(id: Identifier, slot: Slot) -> (name: String)
    ensures
        name@ == file_name_text(id, slot),
{
    let mut name = id.token();
    name.append(suffix_of(slot));
    name
}

/// The path of a file as the firmware sees it.
pub fn reference(id: Identifier, slot: Slot) -> (path: String)
    ensures
        path@ == reference_text(id, slot),
{
    let mut path = "/".to_owned();
    path.append(directory_of(slot));
    path.append("/");
    let name = file_name(id, slot);
    path.append(name.as_str());
    path
}

/// The path of a file below the directory where the partition is mounted.
pub fn destination(mountpoint: &str, id: Identifier, slot: Slot) -> (path: String)
    ensures
        path@ == destination_text(mountpoint@, id, slot),
{
    let mut path = mountpoint.to_owned();
    let inner = reference(id, slot);
    path.append(inner.as_str());
    path
}

/// The path of a file in the staging area.
pub fn staged(staging: &str, id: Identifier, slot: Slot) -> (path: String)
    ensures
        path@ == staged_text(staging@, id, slot),
{
    let mut path = staging.to_owned();
    path.append("/");
    let name = file_name(id, slot);
    path.append(name.as_str());
    path
}

/// The contents of the loader entry of a generation.
pub fn entry_contents(label: &str, id: Identifier) -> (text: String)
    ensures
        text@ == entry_text(label@, id),
{
    let mut text = "title ".to_owned();
    text.append(label);
    text.append("\nversion Generation ");
    let version = render_decimal(id.version);
    text.append(version.as_str());
    text.append("\nefi ");
    let stub = reference(id, Slot::Stub);
    text.append(stub.as_str());
    text.append("\n");
    text
}

/// The kernel command line: the parameters with a space between each two.
pub fn command_line(parameters: &Vec<String>) -> (line: String)
    ensures
        line@ == joined(parameters@),
{
    let count: usize = parameters.len();
    let mut line = String::new();
    let mut i: usize = 0;
    while i < count
        invariant
            count == parameters@.len(),
            i <= count,
            line@ == joined(parameters@.take(i as int)),
        decreases count - i,
    {
        proof {
            assert(parameters@.take(i + 1).drop_last() =~= parameters@.take(i as int));
        }
        if i > 0 {
            line.append(" ");
        }
        line.append(parameters[i].as_str());
        i += 1;
    }
    proof {
        assert(parameters@.take(count as int) =~= parameters@);
    }
    line
}

/// Reads a file name as that of one kind of file.
fn parse_as(name: &str, slot: Slot) -> (result: Option<Identifier>)
    ensures
        match result {
            Some(id) => name@ == file_name_text(id, slot),
            None => forall|id: Identifier| file_name_text(id, slot) != name@,
        },
{
    let ending = suffix_of(slot);
    let ending_length: usize = ending.unicode_len();
    let length: usize = name.unicode_len();
    if length <= ending_length {
        return None;
    }
    let head = name.substring_char(0, length - ending_length);
    match Identifier::parse(head) {
        Some(id) => {
            let rendered = file_name(id, slot);
            let given = name.to_owned();
            if rendered == given {
                Some(id)
            } else {
                proof {
                    assert forall|other: Identifier| file_name_text(other, slot) != name@ by {
                        if file_name_text(other, slot) == name@ {
                            assert(token_text(other) =~= head@);
                        }
                    }
                }
                None
            }
        },
        None => {
            proof {
                assert forall|other: Identifier| file_name_text(other, slot) != name@ by {
                    if file_name_text(other, slot) == name@ {
                        assert(token_text(other) =~= head@);
                    }
                }
            }
            None
        },
    }
}

/// Reads the name of a file of an artifact set. Any other name is none of
/// ours.
pub fn parse_file_name(name: &str) -> (result: Option<(Identifier, Slot)>)
    ensures
        match result {
            Some((id, slot)) => name@ == file_name_text(id, slot),
            None => forall|id: Identifier, slot: Slot| file_name_text(id, slot) != name@,
        },
{
    if let Some(id) = parse_as(name, Slot::Kernel) {
        return Some((id, Slot::Kernel));
    }
    if let Some(id) = parse_as(name, Slot::Initrd) {
        return Some((id, Slot::Initrd));
    }
    if let Some(id) = parse_as(name, Slot::Stub) {
        return Some((id, Slot::Stub));
    }
    if let Some(id) = parse_as(name, Slot::Entry) {
        return Some((id, Slot::Entry));
    }
    None
}

/// A listing that is longer by one name lists what the shorter one lists,
/// and the file of that name.
proof fn lemma_listed_step(names: Seq<String>, i: int, id: Identifier, slot: Slot)
    requires
        0 <= i < names.len(),
    ensures
        listed(names.take(i + 1), id, slot) == (listed(names.take(i), id, slot) || names[i]@
            == file_name_text(id, slot)),
{
    let shorter = names.take(i);
    let longer = names.take(i + 1);
    if listed(shorter, id, slot) {
        let k = choose|k: int|
            0 <= k < shorter.len() && (#[trigger] shorter[k])@ == file_name_text(id, slot);
    }
    if names[i]@ == file_name_text(id, slot) {
        assert(longer[i] == names[i]);
    }
    if listed(longer, id, slot) {
        let k = choose|k: int|
            0 <= k < longer.len() && (#[trigger] longer[k])@ == file_name_text(id, slot);
    }
}

/// Whether a file of this kind belongs in the directory of loader entries.
pub open spec fn among_entries(slot: Slot) -> bool {
    slot == Slot::Entry
}

/// Notes the files of one directory listing in the index. Names that are
/// none of ours, or of a kind that belongs in the other directory, are
/// passed over.
fn scan_listing(index: &mut InstalledIndex, names: &Vec<String>, entries: bool)
    requires
        old(index).wf(),
    ensures
        final(index).wf(),
        forall|id: Identifier, slot: Slot| #[trigger]
            holds(final(index)@, id, slot) == (holds(old(index)@, id, slot) || (among_entries(slot)
                == entries && listed(names@, id, slot))),
{
    let count: usize = names.len();
    let mut i: usize = 0;
    while i < count
        invariant
            count == names@.len(),
            i <= count,
            index.wf(),
            forall|id: Identifier, slot: Slot| #[trigger]
                holds(index@, id, slot) == (holds(old(index)@, id, slot) || (among_entries(slot)
                    == entries && listed(names@.take(i as int), id, slot))),
        decreases count - i,
    {
        let ghost before = index@;
        let parsed = parse_file_name(names[i].as_str());
        let mut noted: bool = false;
        if let Some((found, kind)) = parsed {
            let belongs: bool = match kind {
                Slot::Entry => entries,
                _ => !entries,
            };
            if belongs {
                index.record(found, kind);
                noted = true;
            }
        }
        proof {
            assert forall|id: Identifier, slot: Slot| #[trigger]
                holds(index@, id, slot) == (holds(old(index)@, id, slot) || (among_entries(slot)
                    == entries && listed(names@.take(i + 1), id, slot))) by {
                lemma_listed_step(names@, i as int, id, slot);
                assert(holds(before, id, slot) == (holds(old(index)@, id, slot) || (among_entries(
                    slot,
                ) == entries && listed(names@.take(i as int), id, slot))));
                match parsed {
                    Some((found, kind)) => {
                        if names@[i as int]@ == file_name_text(id, slot) {
                            law_file_names_differ(found, kind, id, slot);
                        }
                        if noted {
                            lemma_put(before, found, kind);
                        }
                    },
                    None => {},
                }
            }
        }
        i += 1;
    }
    proof {
        assert(names@.take(count as int) =~= names@);
    }
}

/// Builds the index of a partition from the names of the files in the
/// directory of artifacts and in the directory of loader entries.
pub fn scan(artifacts: &Vec<String>, entries: &Vec<String>) -> (index: InstalledIndex)
    ensures
        index.wf(),
        forall|id: Identifier, slot: Slot| #[trigger]
            holds(index@, id, slot) == if slot == Slot::Entry {
                listed(entries@, id, slot)
            } else {
                listed(artifacts@, id, slot)
            },
{
    let mut index = InstalledIndex::new();
    scan_listing(&mut index, artifacts, false);
    scan_listing(&mut index, entries, true);
    index
}

} // verus!
