//! Descriptors, key pairs and the command surface.

use lanzatool::cli::{install, Cli, CommandError, Commands, InstallCommand};
use lanzatool::error::{Field, InstallError};
use lanzatool::generation::{is_absolute, is_single_line, read, Descriptor, Specialisation};
use lanzatool::index::Slot;
use lanzatool::keys::KeyPair;
use lanzatool::retention::RetentionPolicy;

fn descriptor() -> Descriptor {
    Descriptor {
        version: Some(3),
        label: Some("LanzaOS".to_string()),
        toplevel: Some("/nix/store/top".to_string()),
        kernel: Some("/nix/store/top/kernel".to_string()),
        initrd: Some("/nix/store/top/initrd".to_string()),
        kernel_params: vec!["quiet".to_string()],
        os_release: Some("/nix/store/top/os-release".to_string()),
        specialisations: vec![Specialisation {
            name: "rescue".to_string(),
            kernel: "/nix/store/rescue/kernel".to_string(),
            initrd: "/nix/store/rescue/initrd".to_string(),
            kernel_params: Vec::new(),
        }],
    }
}

fn malformed(field: Field, descriptor: Descriptor) {
    match read(descriptor, true, true) {
        Err(InstallError::MalformedDescriptor { field: found }) => assert_eq!(found, field),
        other => panic!("unexpected: {:?}", other),
    }
}

#[test]
fn a_sound_descriptor_gives_its_generation() {
    let generation = read(descriptor(), true, true).unwrap();
    assert_eq!(generation.version, 3);
    assert_eq!(generation.label, "LanzaOS");
    assert_eq!(generation.toplevel, "/nix/store/top");
    assert_eq!(generation.kernel, "/nix/store/top/kernel");
    assert_eq!(generation.initrd, "/nix/store/top/initrd");
    assert_eq!(generation.kernel_params, vec!["quiet".to_string()]);
    assert_eq!(generation.os_release, Some("/nix/store/top/os-release".to_string()));
    assert_eq!(generation.specialisations.len(), 1);
    assert_eq!(generation.specialisations[0].name, "rescue");

    let plain = read(Descriptor { os_release: None, ..descriptor() }, true, true).unwrap();
    assert_eq!(plain.os_release, None);
}

#[test]
fn a_missing_field_is_a_malformed_descriptor() {
    malformed(Field::Version, Descriptor { version: None, ..descriptor() });
    malformed(Field::Label, Descriptor { label: None, ..descriptor() });
    malformed(Field::Toplevel, Descriptor { toplevel: None, ..descriptor() });
    malformed(Field::Kernel, Descriptor { kernel: None, ..descriptor() });
    malformed(Field::Initrd, Descriptor { initrd: None, ..descriptor() });
}

#[test]
fn a_field_of_the_wrong_shape_is_a_malformed_descriptor() {
    malformed(Field::Label, Descriptor { label: Some(String::new()), ..descriptor() });
    malformed(
        Field::Label,
        Descriptor { label: Some("Lanza\nefi /evil.efi".to_string()), ..descriptor() },
    );
    malformed(
        Field::Toplevel,
        Descriptor { toplevel: Some("store/top".to_string()), ..descriptor() },
    );
    malformed(Field::Kernel, Descriptor { kernel: Some(String::new()), ..descriptor() });
    malformed(Field::Initrd, Descriptor { initrd: Some("./initrd".to_string()), ..descriptor() });
    malformed(
        Field::OsRelease,
        Descriptor { os_release: Some("os-release".to_string()), ..descriptor() },
    );
}

#[test]
fn the_first_fault_is_reported() {
    malformed(Field::Version, Descriptor { version: None, label: None, ..descriptor() });
    malformed(Field::Label, Descriptor { label: None, kernel: None, ..descriptor() });
    match read(Descriptor { initrd: None, ..descriptor() }, false, false) {
        Err(InstallError::MalformedDescriptor { field }) => assert_eq!(field, Field::Initrd),
        other => panic!("unexpected: {:?}", other),
    }
}

#[test]
fn a_kernel_or_initrd_that_is_not_there_is_a_missing_artifact() {
    match read(descriptor(), false, true) {
        Err(InstallError::MissingArtifact { artifact }) => assert_eq!(artifact, Slot::Kernel),
        other => panic!("unexpected: {:?}", other),
    }
    match read(descriptor(), true, false) {
        Err(InstallError::MissingArtifact { artifact }) => assert_eq!(artifact, Slot::Initrd),
        other => panic!("unexpected: {:?}", other),
    }
    match read(descriptor(), false, false) {
        Err(InstallError::MissingArtifact { artifact }) => assert_eq!(artifact, Slot::Kernel),
        other => panic!("unexpected: {:?}", other),
    }
}

#[test]
fn paths_and_labels_are_told_apart() {
    assert!(is_absolute("/"));
    assert!(is_absolute("/nix/store"));
    assert!(!is_absolute(""));
    assert!(!is_absolute("nix/store"));
    assert!(!is_absolute("\u{e9}/x"));
    assert!(is_single_line("LanzaOS 23.05 (\u{e9}t\u{e9})"));
    assert!(!is_single_line(""));
    assert!(!is_single_line("\n"));
    assert!(!is_single_line("two\nlines"));
    assert!(!is_single_line("trailing\n"));
}

#[test]
fn a_key_pair_keeps_its_two_paths() {
    let pair = KeyPair::new("keys/db.pem", "keys/db.key");
    assert_eq!(pair.public_key, "keys/db.pem");
    assert_eq!(pair.private_key, "keys/db.key");
}

fn command(limit: usize) -> InstallCommand {
    InstallCommand {
        systemd_boot_loader_config: "/etc/loader.conf".to_string(),
        public_key: "/keys/db.pem".to_string(),
        private_key: "/keys/db.key".to_string(),
        configuration_limit: limit,
        efi_boot_path: "/systemd/systemd-bootx64.efi".to_string(),
        esp: "/boot".to_string(),
        generations: vec![
            "/nix/var/nix/profiles/system-1-link".to_string(),
            "/nix/var/nix/profiles/system-2-link".to_string(),
        ],
    }
}

#[test]
fn an_install_command_makes_its_request() {
    let cli = Cli { commands: Commands::Install(command(2)) };
    let request = cli.call(Some("/stub/linuxx64.efi.stub".to_string())).unwrap();
    assert_eq!(request.stub, "/stub/linuxx64.efi.stub");
    assert_eq!(request.loader_config, "/etc/loader.conf");
    assert_eq!(request.key_pair.public_key, "/keys/db.pem");
    assert_eq!(request.key_pair.private_key, "/keys/db.key");
    assert_eq!(request.policy, RetentionPolicy::new(2));
    assert_eq!(request.policy.limit(), 2);
    assert_eq!(request.esp, "/boot");
    assert_eq!(request.efi_boot_path, "/systemd/systemd-bootx64.efi");
    assert_eq!(
        request.generations,
        vec![
            "/nix/var/nix/profiles/system-1-link".to_string(),
            "/nix/var/nix/profiles/system-2-link".to_string()
        ]
    );
}

#[test]
fn a_limit_of_zero_keeps_everything() {
    let request = Commands::Install(command(0)).call(Some("stub".to_string())).unwrap();
    assert_eq!(request.policy.limit(), usize::MAX);
    let one = install(command(1), Some("stub".to_string())).unwrap();
    assert_eq!(one.policy.limit(), 1);
}

#[test]
fn without_the_stub_there_is_nothing_to_install() {
    let cli = Cli { commands: Commands::Install(command(1)) };
    assert_eq!(cli.call(None).unwrap_err(), CommandError::MissingStub);
    assert_eq!(Commands::Install(command(1)).call(None).unwrap_err(), CommandError::MissingStub);
    assert_eq!(install(command(1), None).unwrap_err(), CommandError::MissingStub);
}
