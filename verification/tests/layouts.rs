//! Names and paths of the files, and the scan of a partition.

use lanzatool::error::{word_of_field, word_of_slot, Field, InstallError};
use lanzatool::identifier::Identifier;
use lanzatool::index::Slot;
use lanzatool::layout::{
    command_line, destination, directory_of, entry_contents, file_name, parse_file_name,
    reference, scan, staged, suffix_of,
};
use lanzatool::generation::Generation;
use lanzatool::machine::{next_file, Event};
use lanzatool::stub::sections;

fn id() -> Identifier {
    Identifier { version: 3, digest: 0xabc }
}

#[test]
fn the_four_files_have_their_names() {
    assert_eq!(file_name(id(), Slot::Stub), "3-0000000000000abc.efi");
    assert_eq!(file_name(id(), Slot::Kernel), "3-0000000000000abc-kernel.efi");
    assert_eq!(file_name(id(), Slot::Initrd), "3-0000000000000abc-initrd.efi");
    assert_eq!(file_name(id(), Slot::Entry), "3-0000000000000abc.conf");
    assert_eq!(suffix_of(Slot::Stub), ".efi");
    assert_eq!(directory_of(Slot::Entry), "loader/entries");
    assert_eq!(directory_of(Slot::Kernel), "EFI/Linux");
}

#[test]
fn the_four_files_have_their_places() {
    assert_eq!(reference(id(), Slot::Stub), "/EFI/Linux/3-0000000000000abc.efi");
    assert_eq!(reference(id(), Slot::Entry), "/loader/entries/3-0000000000000abc.conf");
    assert_eq!(
        destination("/boot", id(), Slot::Kernel),
        "/boot/EFI/Linux/3-0000000000000abc-kernel.efi"
    );
    assert_eq!(
        destination("/efi", id(), Slot::Entry),
        "/efi/loader/entries/3-0000000000000abc.conf"
    );
    assert_eq!(
        staged("/tmp/stage", id(), Slot::Initrd),
        "/tmp/stage/3-0000000000000abc-initrd.efi"
    );
}

#[test]
fn the_loader_entry_names_title_version_and_stub() {
    assert_eq!(
        entry_contents("LanzaOS", id()),
        "title LanzaOS\nversion Generation 3\nefi /EFI/Linux/3-0000000000000abc.efi\n"
    );
}

#[test]
fn the_command_line_joins_the_parameters() {
    assert_eq!(command_line(&Vec::new()), "");
    assert_eq!(command_line(&vec!["quiet".to_string()]), "quiet");
    assert_eq!(
        command_line(&vec![
            "amd_iommu=on".to_string(),
            "iommu=pt".to_string(),
            "loglevel=4".to_string()
        ]),
        "amd_iommu=on iommu=pt loglevel=4"
    );
}

#[test]
fn file_names_are_read_back() {
    for slot in [Slot::Entry, Slot::Stub, Slot::Kernel, Slot::Initrd] {
        assert_eq!(parse_file_name(&file_name(id(), slot)), Some((id(), slot)));
    }
    assert_eq!(
        parse_file_name("12-00000000deadbeef-kernel.efi"),
        Some((Identifier { version: 12, digest: 0xdead_beef }, Slot::Kernel))
    );
}

#[test]
fn foreign_file_names_are_none_of_ours() {
    for name in [
        "",
        ".efi",
        "windows.efi",
        "3-0000000000000abc",
        "3-0000000000000abc.EFI",
        "3-0000000000000abc.efi.bak",
        "3-0000000000000abc-kernel",
        "3-0000000000000abc-kernel.conf",
        "03-0000000000000abc.efi",
        "3-0000000000000abc-stub.efi",
        "nixos-generation-3.conf",
    ] {
        assert_eq!(parse_file_name(name), None, "{:?}", name);
    }
}

#[test]
fn a_scan_finds_the_files_of_each_directory() {
    let other = Identifier { version: 4, digest: 0xdef };
    let artifacts = vec![
        file_name(id(), Slot::Kernel),
        "windows.efi".to_string(),
        file_name(other, Slot::Stub),
        file_name(id(), Slot::Stub),
        file_name(id(), Slot::Initrd),
        // An entry among the artifacts is out of place.
        file_name(other, Slot::Entry),
    ];
    let entries = vec![
        file_name(id(), Slot::Entry),
        "memtest.conf".to_string(),
        // An artifact among the entries is out of place.
        file_name(other, Slot::Kernel),
    ];
    let index = scan(&artifacts, &entries);
    assert_eq!(index.len(), 2);
    assert!(index.is_complete(id()));
    assert!(index.holds(id(), Slot::Entry));
    assert!(index.holds(other, Slot::Stub));
    assert!(!index.holds(other, Slot::Kernel));
    assert!(!index.holds(other, Slot::Entry));
    assert_eq!(index.get(0).unwrap().id, other);
    assert_eq!(index.get(1).unwrap().id, id());

    let nothing = scan(&Vec::new(), &Vec::new());
    assert_eq!(nothing.len(), 0);
}

#[test]
fn deletion_goes_from_the_entry_to_what_it_refers_to() {
    assert_eq!(next_file(Slot::Entry), Slot::Stub);
    assert_eq!(next_file(Slot::Stub), Slot::Kernel);
    assert_eq!(next_file(Slot::Kernel), Slot::Initrd);
    assert_eq!(next_file(Slot::Initrd), Slot::Initrd);
}

#[test]
fn the_exit_of_a_tool_is_read_as_an_event() {
    assert!(matches!(Event::of_tool(true, "fine".to_string()), Event::Succeeded));
    match Event::of_tool(false, "sbsign: no such key".to_string()) {
        Event::Failed(failure) => {
            assert!(!failure.not_found);
            assert_eq!(failure.diagnostic, "sbsign: no such key");
        }
        Event::Succeeded => panic!("a failed tool is no success"),
    }
}

#[test]
fn errors_say_what_failed() {
    assert_eq!(
        InstallError::MalformedDescriptor { field: Field::OsRelease }.describe(),
        "malformed descriptor: osRelease"
    );
    assert_eq!(
        InstallError::MissingArtifact { artifact: Slot::Initrd }.describe(),
        "missing artifact: initrd"
    );
    assert_eq!(
        InstallError::StubBuildError { generation: id(), diagnostic: "too large".to_string() }
            .describe(),
        "failed to build the stub of 3-0000000000000abc: too large"
    );
    assert_eq!(
        InstallError::SigningFailed {
            generation: id(),
            artifact: Slot::Kernel,
            diagnostic: "bad key\n".to_string()
        }
        .describe(),
        "failed to sign the kernel of 3-0000000000000abc: bad key\n"
    );
    assert_eq!(
        InstallError::PublishError {
            generation: id(),
            artifact: Slot::Stub,
            diagnostic: "full".to_string()
        }
        .describe(),
        "failed to publish the stub of 3-0000000000000abc: full"
    );
    assert_eq!(
        InstallError::LoaderWriteError { generation: id(), diagnostic: "ro".to_string() }
            .describe(),
        "failed to write the loader entry of 3-0000000000000abc: ro"
    );
    assert_eq!(word_of_slot(Slot::Entry), "loader entry");
    assert_eq!(word_of_field(Field::Toplevel), "toplevel");
}

#[test]
fn the_stub_embeds_command_line_and_the_places_of_kernel_and_initrd() {
    let generation = Generation {
        version: 7,
        label: "LanzaOS".to_string(),
        toplevel: "a".to_string(),
        kernel: "/a/kernel".to_string(),
        initrd: "/a/initrd".to_string(),
        kernel_params: vec!["quiet".to_string(), "loglevel=4".to_string()],
        os_release: None,
        specialisations: Vec::new(),
    };
    let embedded: Vec<(String, String)> =
        sections(&generation).into_iter().map(|s| (s.name, s.contents)).collect();
    assert_eq!(
        embedded,
        vec![
            (".cmdline".to_string(), "quiet loglevel=4".to_string()),
            (".kernelp".to_string(), "/EFI/Linux/7-af63dc4c8601ec8c-kernel.efi".to_string()),
            (".initrdp".to_string(), "/EFI/Linux/7-af63dc4c8601ec8c-initrd.efi".to_string()),
        ]
    );
}
