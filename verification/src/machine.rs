//! The course of a run, as a machine that is told how each action ended
//! and answers with the next action.

use vstd::prelude::*;
use crate::error::{GcError, InstallError};
use crate::identifier::Identifier;
use crate::index::{canonical, lemma_put, lemma_take_out, presence, put, take_out, Record, Slot};
use crate::retention::evicted;

verus! {

/// What a run waits for while it installs one generation.
#[derive(Clone, Copy, Debug, PartialEq, Eq, Structural)]
pub enum Step {
    /// The stub is being built in the staging area.
    BuildStub,
    /// The stub is being signed.
    SignStub,
    /// The kernel is being signed.
    SignKernel,
    /// The initrd is being signed.
    SignInitrd,
    /// The signed kernel is being moved to the partition.
    PublishKernel,
    /// The signed initrd is being moved to the partition.
    PublishInitrd,
    /// The signed stub is being moved to the partition.
    PublishStub,
    /// The loader entry is being written.
    WriteEntry,
    /// The initrd is being taken back after a failed publication.
    RetractInitrd,
    /// The kernel is being taken back after a failed publication.
    RetractKernel,
}

/// Where a run stands.
#[derive(Clone, Copy, Debug, PartialEq, Eq, Structural)]
pub enum Stage {
    /// The generation at `cursor` of the request is being installed.
    Installing { cursor: usize, step: Step },
    /// A file of the identifier at `position` of the evictions is being
    /// deleted.
    Collecting { position: usize, file: Slot },
    /// The run has ended.
    Finished,
}

/// Where a run stands, with places as numbers of any size.
pub enum Phase {
    /// The generation at `cursor` of the request is being installed.
    Installing { cursor: nat, step: Step },
    /// A file of the identifier at `position` of the evictions is being
    /// deleted.
    Collecting { position: nat, file: Slot },
    /// The run has ended.
    Finished,
}

impl View for Stage {
    type V = Phase;

    open spec fn view(&self) -> Phase {
        match *self {
            Stage::Installing { cursor, step } => Phase::Installing { cursor: cursor as nat, step },
            Stage::Collecting { position, file } => Phase::Collecting {
                position: position as nat,
                file,
            },
            Stage::Finished => Phase::Finished,
        }
    }
}

/// What the caller is to do next. Generations are named by their place in
/// the request.
#[derive(Clone, Copy, Debug, PartialEq, Eq, Structural)]
pub enum Action {
    /// Build the unsigned stub of the generation in the staging area.
    BuildStub { generation: usize },
    /// Sign one artifact of the generation into the staging area.
    Sign { generation: usize, artifact: Slot },
    /// Move one signed artifact from the staging area to the partition.
    Publish { generation: usize, artifact: Slot },
    /// Delete one artifact of the generation from the partition.
    Retract { generation: usize, artifact: Slot },
    /// Write the loader entry of the generation.
    WriteEntry { generation: usize },
    /// Delete one file of an evicted artifact set.
    Remove { identifier: Identifier, file: Slot },
    /// Nothing: the run has ended.
    Finish,
}

/// How an action failed.
#[derive(Clone, Debug)]
pub struct Failure {
    /// The file that the action was to read, move or delete is not there.
    pub not_found: bool,
    /// What the failing tool or call reported.
    pub diagnostic: String,
}

/// How an action ended.
#[derive(Clone, Debug)]
pub enum Event {
    Succeeded,
    Failed(Failure),
}

/// How the exit of a tool is read: success as success, anything else as a
/// failure with what the tool printed.
pub open spec fn tool_event(succeeded: bool, output: String) -> Event {
    if succeeded {
        Event::Succeeded
    } else {
        Event::Failed(Failure { not_found: false, diagnostic: output })
    }
}

impl Event {
    /// Reads the exit of a tool.
    pub fn of_tool(succeeded: bool, output: String) -> (event: Event)
        ensures
            event == tool_event(succeeded, output),
    {
        if succeeded {
            Event::Succeeded
        } else {
            Event::Failed(Failure { not_found: false, diagnostic: output })
        }
    }
}

/// The file that is deleted after `file` when an artifact set is evicted:
/// first the entry, then what it refers to.
pub open spec fn following(file: Slot) -> Slot {
    match file {
        Slot::Entry => Slot::Stub,
        Slot::Stub => Slot::Kernel,
        Slot::Kernel => Slot::Initrd,
        Slot::Initrd => Slot::Initrd,
    }
}

/// The state of a run.
pub struct Machine {
    /// The identifiers of the requested generations, in the order given.
    pub requested: Seq<Identifier>,
    /// The retention limit.
    pub limit: nat,
    /// The files on the partition, as far as the run knows.
    pub index: Seq<Record>,
    /// Where the run stands.
    pub stage: Phase,
    /// The identifiers to evict, once the run collects.
    pub evictions: Seq<Identifier>,
    /// The error that ends the run, if any.
    pub fault: Option<InstallError>,
    /// The deletions that failed.
    pub failures: Seq<GcError>,
}

impl Machine {
    /// The invariant of a run.
    pub open spec fn wf(self) -> bool {
        &&& canonical(self.index)
        &&& match self.stage {
            Phase::Installing { cursor, step } => {
                &&& cursor < self.requested.len()
                &&& self.fault is Some <==> step == Step::RetractInitrd || step
                    == Step::RetractKernel
                &&& self.failures.len() == 0
            },
            Phase::Collecting { position, file } => {
                &&& position < self.evictions.len()
                &&& self.fault is None
            },
            Phase::Finished => true,
        }
    }

    /// The run with another step of the same generation.
    pub open spec fn at(self, cursor: nat, step: Step) -> Machine {
        Machine { stage: Phase::Installing { cursor, step }, ..self }
    }

    /// The run after a file has been written.
    pub open spec fn wrote(self, id: Identifier, slot: Slot) -> Machine {
        Machine { index: put(self.index, id, slot), ..self }
    }

    /// The run after a file has been deleted.
    pub open spec fn removed(self, id: Identifier, slot: Slot) -> Machine {
        Machine { index: take_out(self.index, id, slot), ..self }
    }

    /// The run with the error that will end it.
    pub open spec fn blamed(self, error: InstallError) -> Machine {
        Machine { fault: Some(error), ..self }
    }

    /// The run, ended.
    pub open spec fn finished(self) -> Machine {
        Machine { stage: Phase::Finished, ..self }
    }

    /// The run as it turns to the generation at `cursor`. A generation
    /// whose artifact set is fully present only gets its loader entry
    /// written. When no generation is left the run turns to collection: it
    /// fixes what to evict, and ends at once where that is nothing.
    pub open spec fn arrive(self, cursor: nat) -> Machine {
        if cursor < self.requested.len() {
            if presence(self.index, self.requested[cursor as int]).complete() {
                self.at(cursor, Step::WriteEntry)
            } else {
                self.at(cursor, Step::BuildStub)
            }
        } else {
            Machine { evictions: evicted(self.index, self.limit), ..self }.collect(0)
        }
    }

    /// The run as it turns to the eviction at `position`.
    pub open spec fn collect(self, position: nat) -> Machine {
        if position < self.evictions.len() {
            Machine { stage: Phase::Collecting { position, file: Slot::Entry }, ..self }
        } else {
            self.finished()
        }
    }

    /// The run before its first action.
    pub open spec fn start(requested: Seq<Identifier>, limit: nat, index: Seq<Record>) -> Machine {
        Machine {
            requested,
            limit,
            index,
            stage: Phase::Finished,
            evictions: Seq::empty(),
            fault: None,
            failures: Seq::empty(),
        }.arrive(0)
    }

    /// The action that the run waits for.
    pub open spec fn pending(self) -> Action {
        match self.stage {
            Phase::Installing { cursor, step } => match step {
                Step::BuildStub => Action::BuildStub { generation: cursor as usize },
                Step::SignStub => Action::Sign {
                    generation: cursor as usize,
                    artifact: Slot::Stub,
                },
                Step::SignKernel => Action::Sign {
                    generation: cursor as usize,
                    artifact: Slot::Kernel,
                },
                Step::SignInitrd => Action::Sign {
                    generation: cursor as usize,
                    artifact: Slot::Initrd,
                },
                Step::PublishKernel => Action::Publish {
                    generation: cursor as usize,
                    artifact: Slot::Kernel,
                },
                Step::PublishInitrd => Action::Publish {
                    generation: cursor as usize,
                    artifact: Slot::Initrd,
                },
                Step::PublishStub => Action::Publish {
                    generation: cursor as usize,
                    artifact: Slot::Stub,
                },
                Step::WriteEntry => Action::WriteEntry { generation: cursor as usize },
                Step::RetractInitrd => Action::Retract {
                    generation: cursor as usize,
                    artifact: Slot::Initrd,
                },
                Step::RetractKernel => Action::Retract {
                    generation: cursor as usize,
                    artifact: Slot::Kernel,
                },
            },
            Phase::Collecting { position, file } => Action::Remove {
                identifier: self.evictions[position as int],
                file,
            },
            Phase::Finished => Action::Finish,
        }
    }

    /// The run after the pending action of an installation has succeeded.
    /// Kernel and initrd are published before the stub that refers to them,
    /// the stub before the entry that refers to it.
    pub open spec fn installed_step(self, cursor: nat, step: Step) -> Machine {
        let id = self.requested[cursor as int];
        match step {
            Step::BuildStub => self.at(cursor, Step::SignStub),
            Step::SignStub => self.at(cursor, Step::SignKernel),
            Step::SignKernel => self.at(cursor, Step::SignInitrd),
            Step::SignInitrd => self.at(cursor, Step::PublishKernel),
            Step::PublishKernel => self.wrote(id, Slot::Kernel).at(cursor, Step::PublishInitrd),
            Step::PublishInitrd => self.wrote(id, Slot::Initrd).at(cursor, Step::PublishStub),
            Step::PublishStub => self.wrote(id, Slot::Stub).at(cursor, Step::WriteEntry),
            Step::WriteEntry => self.wrote(id, Slot::Entry).arrive(cursor + 1),
            Step::RetractInitrd => self.removed(id, Slot::Initrd).at(cursor, Step::RetractKernel),
            Step::RetractKernel => self.removed(id, Slot::Kernel).finished(),
        }
    }

    /// The run after the pending action of an installation has failed. A
    /// failure before anything was published ends the run. A failed
    /// publication ends it once what this generation had published is
    /// taken back.
    pub open spec fn failed_step(self, cursor: nat, step: Step, failure: Failure) -> Machine {
        let id = self.requested[cursor as int];
        let diagnostic = failure.diagnostic;
        match step {
            Step::BuildStub => self.blamed(
                InstallError::StubBuildError { generation: id, diagnostic },
            ).finished(),
            Step::SignStub => self.blamed(
                InstallError::SigningFailed { generation: id, artifact: Slot::Stub, diagnostic },
            ).finished(),
            Step::SignKernel => self.blamed(
                InstallError::SigningFailed { generation: id, artifact: Slot::Kernel, diagnostic },
            ).finished(),
            Step::SignInitrd => self.blamed(
                InstallError::SigningFailed { generation: id, artifact: Slot::Initrd, diagnostic },
            ).finished(),
            Step::PublishKernel => self.blamed(
                InstallError::PublishError { generation: id, artifact: Slot::Kernel, diagnostic },
            ).finished(),
            Step::PublishInitrd => self.blamed(
                InstallError::PublishError { generation: id, artifact: Slot::Initrd, diagnostic },
            ).at(cursor, Step::RetractKernel),
            Step::PublishStub => self.blamed(
                InstallError::PublishError { generation: id, artifact: Slot::Stub, diagnostic },
            ).at(cursor, Step::RetractInitrd),
            Step::WriteEntry => self.blamed(
                InstallError::LoaderWriteError { generation: id, diagnostic },
            ).finished(),
            Step::RetractInitrd => if failure.not_found {
                self.removed(id, Slot::Initrd).at(cursor, Step::RetractKernel)
            } else {
                self.at(cursor, Step::RetractKernel)
            },
            Step::RetractKernel => if failure.not_found {
                self.removed(id, Slot::Kernel).finished()
            } else {
                self.finished()
            },
        }
    }

    /// The run after a file of an evicted set is gone, deleted now or not
    /// there in the first place.
    pub open spec fn deleted_step(self, position: nat, file: Slot) -> Machine {
        let gone = self.removed(self.evictions[position as int], file);
        if file == Slot::Initrd {
            gone.collect(position + 1)
        } else {
            Machine { stage: Phase::Collecting { position, file: following(file) }, ..gone }
        }
    }

    /// The run after a file of an evicted set could not be deleted: the
    /// failure is noted, the files that this one refers to stay, and the run
    /// turns to the next eviction.
    pub open spec fn undeleted_step(self, position: nat, file: Slot, failure: Failure) -> Machine {
        Machine {
            failures: self.failures.push(
                GcError {
                    identifier: self.evictions[position as int],
                    file,
                    diagnostic: failure.diagnostic,
                },
            ),
            ..self
        }.collect(position + 1)
    }

    /// The run after its pending action has ended as `event` says.
    pub open spec fn next(self, event: Event) -> Machine {
        match self.stage {
            Phase::Installing { cursor, step } => match event {
                Event::Succeeded => self.installed_step(cursor, step),
                Event::Failed(failure) => self.failed_step(cursor, step, failure),
            },
            Phase::Collecting { position, file } => match event {
                Event::Succeeded => self.deleted_step(position, file),
                Event::Failed(failure) => if failure.not_found {
                    self.deleted_step(position, file)
                } else {
                    self.undeleted_step(position, file, failure)
                },
            },
            Phase::Finished => self,
        }
    }

    /// The run after `count` actions in a row have succeeded.
    pub open spec fn succeed(self, count: nat) -> Machine
        decreases count,
    {
        if count == 0 {
            self
        } else {
            self.next(Event::Succeeded).succeed((count - 1) as nat)
        }
    }

    /// Whether no file on the partition refers to a missing one, and the
    /// files of the set at hand are those that the step expects.
    pub open spec fn safe(self) -> bool {
        &&& forall|id: Identifier| (#[trigger] presence(self.index, id)).bootable()
        &&& match self.stage {
            Phase::Installing { cursor, step } => {
                let r = presence(self.index, self.requested[cursor as int]);
                match step {
                    Step::PublishInitrd => !r.stub && r.kernel,
                    Step::PublishStub => !r.stub && r.kernel && r.initrd,
                    Step::WriteEntry => r.complete(),
                    _ => !r.stub,
                }
            },
            Phase::Collecting { position, file } => {
                let r = presence(self.index, self.evictions[position as int]);
                match file {
                    Slot::Entry => true,
                    Slot::Stub => !r.entry,
                    _ => !r.entry && !r.stub,
                }
            },
            Phase::Finished => true,
        }
    }
}

/// Every step keeps the invariant of a run.
pub proof fn lemma_next_wf(m: Machine, event: Event)
    requires
        m.wf(),
    ensures
        m.next(event).wf(),
        m.next(event).requested == m.requested,
        m.next(event).limit == m.limit,
{
    match m.stage {
        Phase::Installing { cursor, step } => {
            let id = m.requested[cursor as int];
            lemma_put(m.index, id, Slot::Kernel);
            lemma_put(m.index, id, Slot::Initrd);
            lemma_put(m.index, id, Slot::Stub);
            lemma_put(m.index, id, Slot::Entry);
            lemma_take_out(m.index, id, Slot::Kernel);
            lemma_take_out(m.index, id, Slot::Initrd);
        },
        Phase::Collecting { position, file } => {
            lemma_take_out(m.index, m.evictions[position as int], file);
        },
        Phase::Finished => {},
    }
}

/// A run that starts on a partition where no file refers to a missing one
/// starts in a safe state, whatever is requested.
pub proof fn law_a_sound_partition_starts_safe(
    requested: Seq<Identifier>,
    limit: nat,
    index: Seq<Record>,
)
    requires
        canonical(index),
        forall|id: Identifier| (#[trigger] presence(index, id)).bootable(),
    ensures
        Machine::start(requested, limit, index).safe(),
{
}

/// At no time does a file on the partition refer to a missing one: no
/// loader entry to a missing stub, no stub to a missing kernel or initrd.
/// This holds however the actions end.
pub proof fn law_no_file_refers_to_a_missing_one(m: Machine, event: Event)
    requires
        m.wf(),
        m.safe(),
    ensures
        m.next(event).safe(),
{
    match m.stage {
        Phase::Installing { cursor, step } => {
            let id = m.requested[cursor as int];
            let slot = match step {
                Step::PublishKernel | Step::RetractKernel => Slot::Kernel,
                Step::PublishInitrd | Step::RetractInitrd => Slot::Initrd,
                Step::PublishStub => Slot::Stub,
                _ => Slot::Entry,
            };
            lemma_put(m.index, id, slot);
            lemma_take_out(m.index, id, slot);
        },
        Phase::Collecting { position, file } => {
            let id = m.evictions[position as int];
            lemma_take_out(m.index, id, file);
        },
        Phase::Finished => {},
    }
}

/// A failed deletion never fails the run: the run notes it, leaves the
/// partition as it is, and turns to the next eviction.
pub proof fn law_failed_deletion_is_noted(m: Machine, failure: Failure)
    requires
        m.wf(),
        m.stage is Collecting,
        !failure.not_found,
    ensures
        ({
            let after = m.next(Event::Failed(failure));
            &&& after.fault is None
            &&& after.index == m.index
            &&& after.evictions == m.evictions
            &&& after.failures == m.failures.push(
                GcError {
                    identifier: m.evictions[m.stage->position as int],
                    file: m.stage->file,
                    diagnostic: failure.diagnostic,
                },
            )
            &&& after == after.collect(m.stage->position + 1)
        }),
{
}

/// An error ends the run without a collection: once there is an error it
/// stays the same, and no file of another artifact set is deleted.
pub proof fn law_no_collection_after_an_error(m: Machine, event: Event)
    requires
        m.wf(),
        m.fault is Some,
    ensures
        !(m.pending() is Remove),
        m.next(event).fault == m.fault,
        !(m.next(event).stage is Collecting),
        !(m.next(event).pending() is Remove),
{
}

/// Whether all generations before the one at hand are installed, with all
/// four files.
pub open spec fn installed_so_far(m: Machine) -> bool {
    match m.stage {
        Phase::Installing { cursor, step } => forall|i: int|
            0 <= i < cursor ==> (#[trigger] presence(m.index, m.requested[i])).complete()
                && presence(m.index, m.requested[i]).entry,
        _ => true,
    }
}

/// While a run installs, the generations that had their turn stay
/// installed.
pub proof fn law_installed_generations_stay(m: Machine, event: Event)
    requires
        m.wf(),
        m.safe(),
        installed_so_far(m),
    ensures
        installed_so_far(m.next(event)),
{
    match m.stage {
        Phase::Installing { cursor, step } => {
            let id = m.requested[cursor as int];
            let slot = match step {
                Step::PublishKernel | Step::RetractKernel => Slot::Kernel,
                Step::PublishInitrd | Step::RetractInitrd => Slot::Initrd,
                Step::PublishStub => Slot::Stub,
                _ => Slot::Entry,
            };
            lemma_put(m.index, id, slot);
            lemma_take_out(m.index, id, slot);
        },
        _ => {},
    }
}

/// Collection waits for the installation: it starts only when the entry of
/// the last requested generation has been written, and then every requested
/// generation is on the partition with all four files. A collection
/// therefore knows of every generation that the run was to install.
pub proof fn law_collection_waits_for_installation(m: Machine, event: Event)
    requires
        m.wf(),
        m.safe(),
        installed_so_far(m),
        m.stage is Installing,
        m.next(event).fault is None,
        !(m.next(event).stage is Installing),
    ensures
        event is Succeeded,
        m.stage->step == Step::WriteEntry,
        m.stage->cursor == m.requested.len() - 1,
        m.next(event).evictions == evicted(m.next(event).index, m.limit),
        forall|i: int|
            0 <= i < m.requested.len() ==> (#[trigger] presence(
                m.next(event).index,
                m.requested[i],
            )).complete() && presence(m.next(event).index, m.requested[i]).entry,
{
    let cursor = m.stage->cursor;
    let id = m.requested[cursor as int];
    lemma_put(m.index, id, Slot::Entry);
}

/// The artifact that is signed after `signed` others.
pub open spec fn signing_order(signed: nat) -> Slot {
    if signed == 0 {
        Slot::Stub
    } else if signed == 1 {
        Slot::Kernel
    } else {
        Slot::Initrd
    }
}

/// The artifact that is published after `published` others.
pub open spec fn publishing_order(published: nat) -> Slot {
    if published == 0 {
        Slot::Kernel
    } else if published == 1 {
        Slot::Initrd
    } else {
        Slot::Stub
    }
}

/// Where signing fails for one of a generation's three artifacts, the run
/// ends with that error and the partition is as it was before the
/// generation's turn: neither the stub nor what was signed before the
/// failure has reached it.
pub proof fn law_failed_signing_publishes_nothing(m: Machine, signed: nat, failure: Failure)
    requires
        m.wf(),
        m.stage is Installing,
        m.stage->step == Step::BuildStub,
        signed < 3,
    ensures
        ({
            let end = m.succeed(signed + 1).next(Event::Failed(failure));
            &&& end.stage is Finished
            &&& end.pending() == Action::Finish
            &&& end.index == m.index
            &&& end.fault == Some(
                InstallError::SigningFailed {
                    generation: m.requested[m.stage->cursor as int],
                    artifact: signing_order(signed),
                    diagnostic: failure.diagnostic,
                },
            )
        }),
{
    reveal_with_fuel(Machine::succeed, 4);
}

/// Where a publication fails, the run takes back what the generation had
/// published, and ends with that error. If the taking back succeeds, the
/// partition holds no file that it did not hold before the generation's
/// turn, and the files of all other identifiers are as they were.
pub proof fn law_failed_publication_is_taken_back(m: Machine, published: nat, failure: Failure)
    requires
        m.wf(),
        m.safe(),
        m.stage is Installing,
        m.stage->step == Step::PublishKernel,
        published < 3,
    ensures
        ({
            let id = m.requested[m.stage->cursor as int];
            let end = m.succeed(published).next(Event::Failed(failure)).succeed(published);
            &&& end.stage is Finished
            &&& end.fault == Some(
                InstallError::PublishError {
                    generation: id,
                    artifact: publishing_order(published),
                    diagnostic: failure.diagnostic,
                },
            )
            &&& forall|other: Identifier|
                other != id ==> #[trigger] presence(end.index, other) == presence(m.index, other)
            &&& forall|slot: Slot|
                #[trigger] presence(end.index, id).has(slot) ==> presence(m.index, id).has(slot)
        }),
{
    reveal_with_fuel(Machine::succeed, 4);
    let id = m.requested[m.stage->cursor as int];
    let a = put(m.index, id, Slot::Kernel);
    let b = put(a, id, Slot::Initrd);
    lemma_put(m.index, id, Slot::Kernel);
    lemma_put(a, id, Slot::Initrd);
    let c = take_out(b, id, Slot::Initrd);
    lemma_take_out(b, id, Slot::Initrd);
    lemma_take_out(c, id, Slot::Kernel);
    lemma_take_out(a, id, Slot::Kernel);
}

/// The file that is deleted after `file` when an artifact set is evicted.
pub fn next_file(file: Slot) -> (next: Slot)
    ensures
        next == following(file),
{
    match file {
        Slot::Entry => Slot::Stub,
        Slot::Stub => Slot::Kernel,
        Slot::Kernel => Slot::Initrd,
        Slot::Initrd => Slot::Initrd,
    }
}

} // verus!
