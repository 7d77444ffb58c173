//! Whole runs against a partition that is held in memory.

use lanzatool::artifact::{Artifact, ArtifactSet};
use lanzatool::cli::{Cli, Commands, InstallCommand};
use lanzatool::error::InstallError;
use lanzatool::generation::Generation;
use lanzatool::identifier::Identifier;
use lanzatool::index::Slot;
use lanzatool::installer::{forecast, Installer};
use lanzatool::layout::{
    destination, entry_contents, file_name, parse_file_name, scan, staged,
};
use lanzatool::machine::{Action, Event, Failure};
use lanzatool::retention::RetentionPolicy;
use lanzatool::stub::sections;
use std::collections::BTreeMap;

const ESP: &str = "/boot";
const STAGING: &str = "/run/staging";

/// The files of a partition and of a staging area, by path.
struct Partition {
    files: BTreeMap<String, String>,
    staging: BTreeMap<String, String>,
}

/// What is made to fail in a run.
#[derive(Clone, Copy)]
enum Sabotage {
    Nothing,
    Build(usize),
    Sign(usize, Slot),
    Publish(usize, Slot),
    Entry(usize),
    Remove(u64, Slot),
}

fn generation(version: u64) -> Generation {
    Generation {
        version,
        label: "LanzaOS".to_string(),
        toplevel: format!("/nix/store/toplevel-{}", version),
        kernel: format!("/nix/store/toplevel-{}/kernel", version),
        initrd: format!("/nix/store/toplevel-{}/initrd", version),
        kernel_params: vec!["amd_iommu=on".to_string(), "loglevel=4".to_string()],
        os_release: Some(format!("/nix/store/toplevel-{}/os-release", version)),
        specialisations: Vec::new(),
    }
}

fn generations(versions: &[u64]) -> Vec<Generation> {
    versions.iter().map(|v| generation(*v)).collect()
}

fn id(version: u64) -> Identifier {
    generation(version).identifier()
}

fn empty() -> Partition {
    Partition { files: BTreeMap::new(), staging: BTreeMap::new() }
}

fn listing(partition: &Partition, directory: &str) -> Vec<String> {
    let prefix = format!("{}/{}/", ESP, directory);
    partition
        .files
        .keys()
        .filter(|path| path.starts_with(&prefix))
        .map(|path| path[prefix.len()..].to_string())
        .collect()
}

fn stub_count(partition: &Partition) -> usize {
    listing(partition, "EFI/Linux")
        .iter()
        .filter(|name| matches!(parse_file_name(name), Some((_, Slot::Stub))))
        .count()
}

fn has(partition: &Partition, version: u64, slot: Slot) -> bool {
    partition.files.contains_key(&destination(ESP, id(version), slot))
}

fn has_all(partition: &Partition, version: u64) -> bool {
    has(partition, version, Slot::Entry)
        && has(partition, version, Slot::Stub)
        && has(partition, version, Slot::Kernel)
        && has(partition, version, Slot::Initrd)
}

fn has_none(partition: &Partition, version: u64) -> bool {
    !has(partition, version, Slot::Entry)
        && !has(partition, version, Slot::Stub)
        && !has(partition, version, Slot::Kernel)
        && !has(partition, version, Slot::Initrd)
}

fn failure(text: &str) -> Event {
    Event::Failed(Failure { not_found: false, diagnostic: text.to_string() })
}

fn planned(generation: &Generation, kind: Slot) -> Artifact {
    ArtifactSet::plan(generation, ESP, STAGING).get(kind).unwrap().clone()
}

fn perform(
    partition: &mut Partition,
    installer: &Installer,
    action: Action,
    sabotage: Sabotage,
) -> Event {
    match action {
        Action::BuildStub { generation } => {
            if matches!(sabotage, Sabotage::Build(g) if g == generation) {
                return failure("objcopy: section too large");
            }
            let wanted = installer.generation(generation).unwrap();
            let path = planned(wanted, Slot::Stub).source;
            let embedded: Vec<String> = sections(wanted)
                .iter()
                .map(|section| format!("{}={}", section.name, section.contents))
                .collect();
            partition.staging.insert(path, embedded.join(";"));
            Event::Succeeded
        }
        Action::Sign { generation, artifact } => {
            if matches!(sabotage, Sabotage::Sign(g, a) if g == generation && a == artifact) {
                return failure("sbsign: invalid key");
            }
            let wanted = planned(installer.generation(generation).unwrap(), artifact);
            match partition.staging.get(&wanted.source) {
                None if artifact == Slot::Stub => {
                    return Event::Failed(Failure {
                        not_found: true,
                        diagnostic: "no stub to sign".to_string(),
                    });
                }
                _ => {}
            }
            partition.staging.insert(wanted.staged, format!("signed:{}", wanted.source));
            Event::Succeeded
        }
        Action::Publish { generation, artifact } => {
            if matches!(sabotage, Sabotage::Publish(g, a) if g == generation && a == artifact) {
                return failure("rename: no space left on device");
            }
            let wanted = planned(installer.generation(generation).unwrap(), artifact);
            match partition.staging.remove(&wanted.staged) {
                Some(contents) => {
                    partition.files.insert(wanted.destination, contents);
                    Event::Succeeded
                }
                None => Event::Failed(Failure {
                    not_found: true,
                    diagnostic: "nothing staged".to_string(),
                }),
            }
        }
        Action::Retract { generation, artifact } => {
            let wanted = planned(installer.generation(generation).unwrap(), artifact);
            partition.files.remove(&wanted.destination);
            Event::Succeeded
        }
        Action::WriteEntry { generation } => {
            if matches!(sabotage, Sabotage::Entry(g) if g == generation) {
                return failure("write: read-only file system");
            }
            let wanted = installer.generation(generation).unwrap();
            let set = ArtifactSet::plan(wanted, ESP, STAGING);
            partition.files.insert(set.entry, entry_contents(&wanted.label, set.identifier));
            Event::Succeeded
        }
        Action::Remove { identifier, file } => {
            if matches!(sabotage, Sabotage::Remove(v, f) if v == identifier.version && f == file) {
                return failure("unlink: permission denied");
            }
            match partition.files.remove(&destination(ESP, identifier, file)) {
                Some(_) => Event::Succeeded,
                None => Event::Failed(Failure {
                    not_found: true,
                    diagnostic: "no such file".to_string(),
                }),
            }
        }
        Action::Finish => unreachable!(),
    }
}

/// Runs an installation to its end and hands back the installer and the
/// actions that it asked for.
fn run(
    partition: &mut Partition,
    versions: &[u64],
    limit: usize,
    sabotage: Sabotage,
) -> (Installer, Vec<Action>) {
    partition.staging.clear();
    let index = scan(&listing(partition, "EFI/Linux"), &listing(partition, "loader/entries"));
    let mut installer = Installer::new(generations(versions), RetentionPolicy::new(limit), index);
    let mut actions: Vec<Action> = Vec::new();
    loop {
        let action = installer.action();
        if action == Action::Finish {
            break;
        }
        actions.push(action);
        let event = perform(partition, &installer, action, sabotage);
        installer.advance(event);
    }
    assert!(installer.is_finished());
    (installer, actions)
}

fn succeeded(installer: &Installer) -> bool {
    installer.fault().is_none()
}

#[test]
fn keep_only_configured_number_of_generations() {
    let mut partition = empty();
    let versions: [u64; 3] = [1, 2, 3];

    // Install all 3 generations.
    let (output0, _) = run(&mut partition, &versions, configured(0), Sabotage::Nothing);
    assert!(succeeded(&output0));
    assert_eq!(stub_count(&partition), 3);

    // Install again with a limit of 2: one is deleted.
    let (output1, _) = run(&mut partition, &versions, configured(2), Sabotage::Nothing);
    assert!(succeeded(&output1));
    assert_eq!(stub_count(&partition), 2);
}

/// The number of sets to keep, as it comes back from the command line.
fn configured(limit: usize) -> usize {
    let cli = Cli {
        commands: Commands::Install(InstallCommand {
            systemd_boot_loader_config: "loader.conf".to_string(),
            public_key: "db.pem".to_string(),
            private_key: "db.key".to_string(),
            configuration_limit: limit,
            efi_boot_path: "systemd-bootx64.efi".to_string(),
            esp: ESP.to_string(),
            generations: Vec::new(),
        }),
    };
    let policy = cli.call(Some("linuxx64.efi.stub".to_string())).unwrap().policy;
    assert_eq!(policy, RetentionPolicy::new(limit));
    limit
}

#[test]
fn three_generations_under_a_limit_of_three_all_stay() {
    let mut partition = empty();
    let (installer, _) = run(&mut partition, &[1, 2, 3], 3, Sabotage::Nothing);
    assert!(succeeded(&installer));
    assert!(installer.failures().is_empty());
    assert!(has_all(&partition, 1));
    assert!(has_all(&partition, 2));
    assert!(has_all(&partition, 3));
    assert_eq!(stub_count(&partition), 3);
    assert_eq!(installer.index().complete_sets(), 3);
    assert_eq!(partition.files.len(), 12);
}

#[test]
fn a_second_run_under_a_limit_of_two_deletes_the_oldest() {
    let mut partition = empty();
    run(&mut partition, &[1, 2, 3], 3, Sabotage::Nothing);
    let (installer, actions) = run(&mut partition, &[1, 2, 3], 2, Sabotage::Nothing);
    assert!(succeeded(&installer));
    assert!(has_none(&partition, 1));
    assert!(has_all(&partition, 2));
    assert!(has_all(&partition, 3));
    assert_eq!(stub_count(&partition), 2);
    assert_eq!(partition.files.len(), 8);
    assert_eq!(
        actions,
        vec![
            Action::WriteEntry { generation: 0 },
            Action::WriteEntry { generation: 1 },
            Action::WriteEntry { generation: 2 },
            Action::Remove { identifier: id(1), file: Slot::Entry },
            Action::Remove { identifier: id(1), file: Slot::Stub },
            Action::Remove { identifier: id(1), file: Slot::Kernel },
            Action::Remove { identifier: id(1), file: Slot::Initrd },
        ]
    );
}

#[test]
fn a_requested_generation_beyond_the_limit_is_deleted_all_the_same() {
    let mut partition = empty();
    let (first, _) = run(&mut partition, &[1], 1, Sabotage::Nothing);
    assert!(succeeded(&first));
    assert!(has_all(&partition, 1));
    let (second, _) = run(&mut partition, &[1, 2], 1, Sabotage::Nothing);
    assert!(succeeded(&second));
    assert!(has_none(&partition, 1));
    assert!(has_all(&partition, 2));
    assert_eq!(stub_count(&partition), 1);
    assert_eq!(partition.files.len(), 4);
}

#[test]
fn a_fresh_generation_is_built_signed_published_and_entered_in_this_order() {
    let mut partition = empty();
    let (_, actions) = run(&mut partition, &[5], 1, Sabotage::Nothing);
    assert_eq!(
        actions,
        vec![
            Action::BuildStub { generation: 0 },
            Action::Sign { generation: 0, artifact: Slot::Stub },
            Action::Sign { generation: 0, artifact: Slot::Kernel },
            Action::Sign { generation: 0, artifact: Slot::Initrd },
            Action::Publish { generation: 0, artifact: Slot::Kernel },
            Action::Publish { generation: 0, artifact: Slot::Initrd },
            Action::Publish { generation: 0, artifact: Slot::Stub },
            Action::WriteEntry { generation: 0 },
        ]
    );
}

#[test]
fn running_twice_leaves_the_same_bytes() {
    for limit in [1usize, 2, 3, 5] {
        let mut partition = empty();
        run(&mut partition, &[4], 5, Sabotage::Nothing);
        let (first, _) = run(&mut partition, &[3, 1, 2], limit, Sabotage::Nothing);
        assert!(succeeded(&first));
        let after_first = partition.files.clone();
        let (second, _) = run(&mut partition, &[3, 1, 2], limit, Sabotage::Nothing);
        assert!(succeeded(&second));
        assert_eq!(partition.files, after_first);
    }
}

#[test]
fn the_highest_versions_stay_whether_requested_or_not() {
    let mut partition = empty();
    run(&mut partition, &[10, 40], 5, Sabotage::Nothing);
    let (installer, _) = run(&mut partition, &[20, 30], 3, Sabotage::Nothing);
    assert!(succeeded(&installer));
    assert!(has_none(&partition, 10));
    assert!(has_all(&partition, 20));
    assert!(has_all(&partition, 30));
    assert!(has_all(&partition, 40));
    assert_eq!(installer.index().complete_sets(), 3);
    assert_eq!(installer.index().len(), 3);

    // With fewer sets than the limit all of them stay.
    let (roomy, _) = run(&mut partition, &[20], 7, Sabotage::Nothing);
    assert!(succeeded(&roomy));
    assert_eq!(roomy.index().complete_sets(), 3);
}

#[test]
fn a_failed_signing_leaves_nothing_of_the_generation() {
    for artifact in [Slot::Stub, Slot::Kernel, Slot::Initrd] {
        let mut partition = empty();
        run(&mut partition, &[1], 3, Sabotage::Nothing);
        let before = partition.files.clone();
        let (installer, actions) = run(&mut partition, &[1, 2, 3], 3, Sabotage::Sign(1, artifact));
        match installer.fault() {
            Some(InstallError::SigningFailed { generation, artifact: failed, diagnostic }) => {
                assert_eq!(*generation, id(2));
                assert_eq!(*failed, artifact);
                assert_eq!(diagnostic, "sbsign: invalid key");
            }
            other => panic!("unexpected outcome: {:?}", other),
        }
        assert!(has_none(&partition, 2));
        assert!(has_none(&partition, 3));
        assert_eq!(partition.files, before);
        assert!(!actions.iter().any(|a| matches!(a, Action::Publish { .. })));
        assert!(!actions.iter().any(|a| matches!(a, Action::Remove { .. })));
        assert_eq!(
            installer.fault().as_ref().unwrap().describe(),
            format!(
                "failed to sign the {} of {}: sbsign: invalid key",
                match artifact {
                    Slot::Stub => "stub",
                    Slot::Kernel => "kernel",
                    _ => "initrd",
                },
                id(2).token()
            )
        );
    }
}

#[test]
fn a_failure_keeps_what_earlier_generations_of_the_run_published() {
    let mut partition = empty();
    let (installer, _) = run(&mut partition, &[1, 2], 3, Sabotage::Sign(1, Slot::Kernel));
    assert!(!succeeded(&installer));
    assert!(has_all(&partition, 1));
    assert!(has_none(&partition, 2));
}

#[test]
fn a_failed_build_ends_the_run() {
    let mut partition = empty();
    let (installer, actions) = run(&mut partition, &[1, 2], 3, Sabotage::Build(0));
    match installer.fault() {
        Some(InstallError::StubBuildError { generation, diagnostic }) => {
            assert_eq!(*generation, id(1));
            assert_eq!(diagnostic, "objcopy: section too large");
        }
        other => panic!("unexpected outcome: {:?}", other),
    }
    assert_eq!(actions, vec![Action::BuildStub { generation: 0 }]);
    assert!(partition.files.is_empty());
}

#[test]
fn a_failed_publication_is_taken_back() {
    let mut partition = empty();
    let (installer, actions) = run(&mut partition, &[1], 3, Sabotage::Publish(0, Slot::Stub));
    match installer.fault() {
        Some(InstallError::PublishError { generation, artifact, diagnostic }) => {
            assert_eq!(*generation, id(1));
            assert_eq!(*artifact, Slot::Stub);
            assert_eq!(diagnostic, "rename: no space left on device");
        }
        other => panic!("unexpected outcome: {:?}", other),
    }
    assert!(partition.files.is_empty());
    assert_eq!(installer.index().len(), 0);
    assert_eq!(
        actions[actions.len() - 2..].to_vec(),
        vec![
            Action::Retract { generation: 0, artifact: Slot::Initrd },
            Action::Retract { generation: 0, artifact: Slot::Kernel },
        ]
    );

    let mut other = empty();
    let (early, steps) = run(&mut other, &[1], 3, Sabotage::Publish(0, Slot::Kernel));
    assert!(matches!(
        early.fault(),
        Some(InstallError::PublishError { artifact: Slot::Kernel, .. })
    ));
    assert!(!steps.iter().any(|a| matches!(a, Action::Retract { .. })));
    assert!(other.files.is_empty());
}

#[test]
fn a_failed_entry_ends_the_run_with_the_set_in_place() {
    let mut partition = empty();
    let (installer, _) = run(&mut partition, &[1, 2], 3, Sabotage::Entry(0));
    assert!(matches!(installer.fault(), Some(InstallError::LoaderWriteError { .. })));
    assert!(has(&partition, 1, Slot::Stub));
    assert!(has(&partition, 1, Slot::Kernel));
    assert!(has(&partition, 1, Slot::Initrd));
    assert!(!has(&partition, 1, Slot::Entry));
    assert!(has_none(&partition, 2));

    // The next run finds the set and only writes the entry.
    let (repair, actions) = run(&mut partition, &[1], 3, Sabotage::Nothing);
    assert!(succeeded(&repair));
    assert_eq!(actions, vec![Action::WriteEntry { generation: 0 }]);
    assert!(has_all(&partition, 1));
}

#[test]
fn a_failed_deletion_is_reported_and_the_others_go_on() {
    let mut partition = empty();
    run(&mut partition, &[1, 2, 3], 3, Sabotage::Nothing);
    let (installer, _) = run(&mut partition, &[3], 1, Sabotage::Remove(2, Slot::Stub));
    assert!(succeeded(&installer));
    let failures = installer.failures();
    assert_eq!(failures.len(), 1);
    assert_eq!(failures[0].identifier, id(2));
    assert_eq!(failures[0].file, Slot::Stub);
    assert_eq!(failures[0].diagnostic, "unlink: permission denied");
    assert_eq!(
        failures[0].describe(),
        format!("failed to delete the stub of {}: unlink: permission denied", id(2).token())
    );
    // What the stub refers to stays with it; the entry before it is gone.
    assert!(!has(&partition, 2, Slot::Entry));
    assert!(has(&partition, 2, Slot::Stub));
    assert!(has(&partition, 2, Slot::Kernel));
    assert!(has(&partition, 2, Slot::Initrd));
    assert!(has_none(&partition, 1));
    assert!(has_all(&partition, 3));
}

#[test]
fn leftovers_of_a_broken_set_are_deleted() {
    let mut partition = empty();
    run(&mut partition, &[1, 2], 2, Sabotage::Nothing);
    partition.files.remove(&destination(ESP, id(2), Slot::Initrd));
    partition.files.insert(format!("{}/EFI/Linux/windows.efi", ESP), "foreign".to_string());
    let (installer, _) = run(&mut partition, &[1], 2, Sabotage::Nothing);
    assert!(succeeded(&installer));
    assert!(has_all(&partition, 1));
    assert!(has_none(&partition, 2));
    assert!(partition.files.contains_key(&format!("{}/EFI/Linux/windows.efi", ESP)));
    assert_eq!(partition.files.len(), 5);
}

#[test]
fn a_broken_set_that_is_requested_is_installed_anew() {
    let mut partition = empty();
    run(&mut partition, &[1], 1, Sabotage::Nothing);
    partition.files.remove(&destination(ESP, id(1), Slot::Kernel));
    let (installer, actions) = run(&mut partition, &[1], 1, Sabotage::Nothing);
    assert!(succeeded(&installer));
    assert_eq!(actions.len(), 8);
    assert!(has_all(&partition, 1));
    assert_eq!(
        partition.files[&destination(ESP, id(1), Slot::Kernel)],
        "signed:/nix/store/toplevel-1/kernel"
    );
}

#[test]
fn an_empty_request_only_collects() {
    let mut partition = empty();
    run(&mut partition, &[1, 2], 2, Sabotage::Nothing);
    let (installer, actions) = run(&mut partition, &[], 1, Sabotage::Nothing);
    assert!(succeeded(&installer));
    assert_eq!(actions.len(), 4);
    assert!(has_none(&partition, 1));
    assert!(has_all(&partition, 2));

    let mut bare = empty();
    let (idle, nothing) = run(&mut bare, &[], 1, Sabotage::Nothing);
    assert!(succeeded(&idle));
    assert!(nothing.is_empty());
}

#[test]
fn a_finished_run_stays_finished() {
    let mut partition = empty();
    let (mut installer, _) = run(&mut partition, &[1], 1, Sabotage::Nothing);
    installer.advance(failure("late"));
    installer.advance(Event::Succeeded);
    assert!(installer.is_finished());
    assert_eq!(installer.action(), Action::Finish);
    assert!(succeeded(&installer));
    assert_eq!(installer.policy().limit(), 1);
    assert!(installer.generation(1).is_none());
}

#[test]
fn the_stub_is_published_after_what_it_refers_to() {
    let mut partition = empty();
    let index = scan(&Vec::new(), &Vec::new());
    let mut installer = Installer::new(generations(&[1]), RetentionPolicy::new(1), index);
    loop {
        let action = installer.action();
        if action == Action::Finish {
            break;
        }
        let event = perform(&mut partition, &installer, action, Sabotage::Nothing);
        installer.advance(event);
        let one = id(1);
        let index = installer.index();
        if index.holds(one, Slot::Entry) {
            assert!(index.holds(one, Slot::Stub));
        }
        if index.holds(one, Slot::Stub) {
            assert!(index.holds(one, Slot::Kernel) && index.holds(one, Slot::Initrd));
        }
    }
    assert_eq!(
        partition.files[&destination(ESP, id(1), Slot::Stub)],
        format!(
            "signed:{}.unsigned",
            staged(STAGING, id(1), Slot::Stub)
        )
    );
    assert_eq!(
        partition.files[&destination(ESP, id(1), Slot::Entry)],
        format!(
            "title LanzaOS\nversion Generation 1\nefi /EFI/Linux/{}\n",
            file_name(id(1), Slot::Stub)
        )
    );
}

#[test]
fn an_artifact_set_names_sources_staging_and_destinations() {
    let wanted = generation(1);
    let set = ArtifactSet::plan(&wanted, ESP, STAGING);
    let token = id(1).token();
    assert_eq!(set.identifier, id(1));
    assert_eq!(set.stub.kind, Slot::Stub);
    assert_eq!(set.stub.source, format!("/run/staging/{}.efi.unsigned", token));
    assert_eq!(set.stub.staged, format!("/run/staging/{}.efi", token));
    assert_eq!(set.stub.destination, format!("/boot/EFI/Linux/{}.efi", token));
    assert_eq!(set.kernel.kind, Slot::Kernel);
    assert_eq!(set.kernel.source, "/nix/store/toplevel-1/kernel");
    assert_eq!(set.kernel.staged, format!("/run/staging/{}-kernel.efi", token));
    assert_eq!(set.kernel.destination, format!("/boot/EFI/Linux/{}-kernel.efi", token));
    assert_eq!(set.initrd.kind, Slot::Initrd);
    assert_eq!(set.initrd.source, "/nix/store/toplevel-1/initrd");
    assert_eq!(set.initrd.staged, format!("/run/staging/{}-initrd.efi", token));
    assert_eq!(set.initrd.destination, format!("/boot/EFI/Linux/{}-initrd.efi", token));
    assert_eq!(set.entry, format!("/boot/loader/entries/{}.conf", token));
    assert!(set.get(Slot::Entry).is_none());
    assert_eq!(set.get(Slot::Kernel).unwrap().source, set.kernel.source);
}

#[test]
fn a_forecast_tells_what_a_run_leaves() {
    let mut partition = empty();
    run(&mut partition, &[1, 2, 5], 3, Sabotage::Nothing);
    partition.files.remove(&destination(ESP, id(2), Slot::Stub));
    let before = scan(&listing(&partition, "EFI/Linux"), &listing(&partition, "loader/entries"));
    let foretold = forecast(generations(&[4, 3]), RetentionPolicy::new(2), before);
    let (installer, _) = run(&mut partition, &[4, 3], 2, Sabotage::Nothing);
    assert!(succeeded(&installer));
    let left = installer.index();
    assert_eq!(foretold.len(), 2);
    assert_eq!(left.len(), 2);
    for place in 0..2 {
        assert_eq!(foretold.get(place), left.get(place));
    }
    assert_eq!(foretold.get(0).unwrap().id, id(5));
    assert_eq!(foretold.get(1).unwrap().id, id(4));
    assert!(has_all(&partition, 5));
    assert!(has_all(&partition, 4));
    assert_eq!(partition.files.len(), 8);

    let nothing = forecast(Vec::new(), RetentionPolicy::new(1), scan(&Vec::new(), &Vec::new()));
    assert_eq!(nothing.len(), 0);
}

#[test]
fn a_run_ends_in_a_result() {
    let mut partition = empty();
    let (fine, _) = run(&mut partition, &[1, 2], 1, Sabotage::Remove(1, Slot::Kernel));
    match fine.into_result() {
        Ok(failures) => {
            assert_eq!(failures.len(), 1);
            assert_eq!(failures[0].file, Slot::Kernel);
        }
        Err(error) => panic!("unexpected: {:?}", error),
    }
    let (failed, _) = run(&mut partition, &[3], 1, Sabotage::Sign(0, Slot::Initrd));
    match failed.into_result() {
        Err(InstallError::SigningFailed { artifact, .. }) => assert_eq!(artifact, Slot::Initrd),
        other => panic!("unexpected: {:?}", other.map(|failures| failures.len())),
    }
}

#[test]
fn a_generation_requested_twice_is_installed_once() {
    let mut partition = empty();
    let (installer, actions) = run(&mut partition, &[1, 1], 2, Sabotage::Nothing);
    assert!(succeeded(&installer));
    assert_eq!(actions.len(), 9);
    assert_eq!(actions[8], Action::WriteEntry { generation: 1 });
    assert_eq!(installer.index().len(), 1);
    assert!(has_all(&partition, 1));
    assert_eq!(partition.files.len(), 4);
}
