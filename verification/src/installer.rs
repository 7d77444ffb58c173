//! The installer: it decides, action by action, what a run does to the
//! partition.

use vstd::prelude::*;
use crate::error::{GcError, InstallError};
use crate::generation::Generation;
use crate::identifier::Identifier;
use crate::index::{InstalledIndex, Slot};
use crate::machine::{lemma_next_wf, next_file, Action, Event, Failure, Machine, Stage, Step};
use crate::outcome::outcome;
use crate::retention::RetentionPolicy;
use crate::run::{
    actions_at_most, law_successful_run, lemma_nearer_the_end, lemma_one_end, lemma_succeed_add,
};

verus! {

/// The identifiers of a list of generations, in the same order.
pub open spec fn names(generations: Seq<Generation>) -> Seq<Identifier> {
    Seq::new(generations.len(), |i: int| generations[i].name())
}

/// A run: the requested generations, the retention limit, what is known of
/// the partition, and how far the run has come.
///
/// The caller asks for the pending action, performs it, and tells the
/// installer how it ended, until the pending action is `Finish`.
pub struct Installer {
    generations: Vec<Generation>,
    requested: Vec<Identifier>,
    policy: RetentionPolicy,
    index: InstalledIndex,
    stage: Stage,
    evictions: Vec<Identifier>,
    fault: Option<InstallError>,
    failures: Vec<GcError>,
}

impl View for Installer {
    type V = Machine;

    closed spec fn view(&self) -> Machine {
        Machine {
            requested: self.requested@,
            limit: self.policy.bound(),
            index: self.index@,
            stage: self.stage@,
            evictions: self.evictions@,
            fault: self.fault,
            failures: self.failures@,
        }
    }
}

impl Installer {
    /// The requested generations.
    pub closed spec fn generations(&self) -> Seq<Generation> {
        self.generations@
    }

    /// The invariant of an installer: its run meets the invariant of runs,
    /// and runs on the identifiers of its generations.
    pub closed spec fn wf(&self) -> bool {
        &&& self@.wf()
        &&& self.requested@ == names(self.generations@)
    }

    /// A run of a well-formed installer meets the invariant of runs, on the
    /// identifiers of the installer's generations.
    pub proof fn lemma_wf(&self)
        requires
            self.wf(),
        ensures
            self@.wf(),
            self@.requested == names(self.generations()),
    {
    }

    /// Sets up a run that installs `generations`, in the order given, on a
    /// partition that holds what `index` lists, and then keeps as many
    /// artifact sets as the policy allows.
    pub fn new(
        generations: Vec<Generation>,
        policy: RetentionPolicy,
        index: InstalledIndex,
    ) -> (installer: Installer)
        requires
            index.wf(),
        ensures
            installer.wf(),
            installer.generations() == generations@,
            installer@ == Machine::start(names(generations@), policy.bound(), index@),
    {
        let count: usize = generations.len();
        let mut requested: Vec<Identifier> = Vec::new();
        let mut i: usize = 0;
        while i < count
            invariant
                count == generations@.len(),
                i <= count,
                requested@ == names(generations@.take(i as int)),
            decreases count - i,
        {
            requested.push(generations[i].identifier());
            i += 1;
        }
        proof {
            assert(generations@.take(count as int) =~= generations@);
        }
        let mut installer = Installer {
            generations,
            requested,
            policy,
            index,
            stage: Stage::Finished,
            evictions: Vec::new(),
            fault: None,
            failures: Vec::new(),
        };
        installer.arrive(0);
        installer
    }

    /// Turns to the generation at `cursor`, or to collection.
    fn arrive(&mut self, cursor: usize)
        requires
            old(self).index.wf(),
            cursor <= old(self).requested@.len(),
        ensures
            final(self)@ == old(self)@.arrive(cursor as nat),
            final(self).generations@ == old(self).generations@,
            final(self).requested@ == old(self).requested@,
    {
        if cursor < self.requested.len() {
            let step = if self.index.is_complete(self.requested[cursor]) {
                Step::WriteEntry
            } else {
                Step::BuildStub
            };
            self.stage = Stage::Installing { cursor, step };
        } else {
            self.evictions = self.policy.evictions(&self.index);
            self.collect(0);
        }
    }

    /// Turns to the eviction at `position`, or ends the run.
    fn collect(&mut self, position: usize)
        ensures
            final(self)@ == old(self)@.collect(position as nat),
            final(self).generations@ == old(self).generations@,
            final(self).requested@ == old(self).requested@,
    {
        if position < self.evictions.len() {
            self.stage = Stage::Collecting { position, file: Slot::Entry };
        } else {
            self.stage = Stage::Finished;
        }
    }

    /// Ends the run with an error.
    fn fail(&mut self, error: InstallError)
        ensures
            final(self)@ == old(self)@.blamed(error).finished(),
            final(self).generations@ == old(self).generations@,
            final(self).requested@ == old(self).requested@,
    {
        self.fault = Some(error);
        self.stage = Stage::Finished;
    }

    /// The action that the run waits for.
    pub fn action(&self) -> (action: Action)
        requires
            self.wf(),
        ensures
            action == self@.pending(),
    {
        match self.stage {
            Stage::Installing { cursor, step } => match step {
                Step::BuildStub => Action::BuildStub { generation: cursor },
                Step::SignStub => Action::Sign { generation: cursor, artifact: Slot::Stub },
                Step::SignKernel => Action::Sign { generation: cursor, artifact: Slot::Kernel },
                Step::SignInitrd => Action::Sign { generation: cursor, artifact: Slot::Initrd },
                Step::PublishKernel => Action::Publish {
                    generation: cursor,
                    artifact: Slot::Kernel,
                },
                Step::PublishInitrd => Action::Publish {
                    generation: cursor,
                    artifact: Slot::Initrd,
                },
                Step::PublishStub => Action::Publish { generation: cursor, artifact: Slot::Stub },
                Step::WriteEntry => Action::WriteEntry { generation: cursor },
                Step::RetractInitrd => Action::Retract {
                    generation: cursor,
                    artifact: Slot::Initrd,
                },
                Step::RetractKernel => Action::Retract {
                    generation: cursor,
                    artifact: Slot::Kernel,
                },
            },
            Stage::Collecting { position, file } => Action::Remove {
                identifier: self.evictions[position],
                file,
            },
            Stage::Finished => Action::Finish,
        }
    }

    /// Takes note of how the pending action ended, and moves on.
    pub fn advance(&mut self, event: Event)
        requires
            old(self).wf(),
        ensures
            final(self).wf(),
            final(self)@ == old(self)@.next(event),
            final(self).generations() == old(self).generations(),
    {
        proof {
            lemma_next_wf(self@, event);
        }
        let generations: usize = self.requested.len();
        let evictions: usize = self.evictions.len();
        match self.stage {
            Stage::Installing { cursor, step } => {
                let id: Identifier = self.requested[cursor];
                match event {
                    Event::Succeeded => match step {
                        Step::BuildStub => {
                            self.stage = Stage::Installing { cursor, step: Step::SignStub };
                        },
                        Step::SignStub => {
                            self.stage = Stage::Installing { cursor, step: Step::SignKernel };
                        },
                        Step::SignKernel => {
                            self.stage = Stage::Installing { cursor, step: Step::SignInitrd };
                        },
                        Step::SignInitrd => {
                            self.stage = Stage::Installing { cursor, step: Step::PublishKernel };
                        },
                        Step::PublishKernel => {
                            self.index.record(id, Slot::Kernel);
                            self.stage = Stage::Installing { cursor, step: Step::PublishInitrd };
                        },
                        Step::PublishInitrd => {
                            self.index.record(id, Slot::Initrd);
                            self.stage = Stage::Installing { cursor, step: Step::PublishStub };
                        },
                        Step::PublishStub => {
                            self.index.record(id, Slot::Stub);
                            self.stage = Stage::Installing { cursor, step: Step::WriteEntry };
                        },
                        Step::WriteEntry => {
                            self.index.record(id, Slot::Entry);
                            self.arrive(cursor + 1);
                        },
                        Step::RetractInitrd => {
                            self.index.forget(id, Slot::Initrd);
                            self.stage = Stage::Installing { cursor, step: Step::RetractKernel };
                        },
                        Step::RetractKernel => {
                            self.index.forget(id, Slot::Kernel);
                            self.stage = Stage::Finished;
                        },
                    },
                    Event::Failed(failure) => {
                        let Failure { not_found, diagnostic } = failure;
                        match step {
                            Step::BuildStub => {
                                self.fail(
                                    InstallError::StubBuildError { generation: id, diagnostic },
                                );
                            },
                            Step::SignStub => {
                                self.fail(
                                    InstallError::SigningFailed {
                                        generation: id,
                                        artifact: Slot::Stub,
                                        diagnostic,
                                    },
                                );
                            },
                            Step::SignKernel => {
                                self.fail(
                                    InstallError::SigningFailed {
                                        generation: id,
                                        artifact: Slot::Kernel,
                                        diagnostic,
                                    },
                                );
                            },
                            Step::SignInitrd => {
                                self.fail(
                                    InstallError::SigningFailed {
                                        generation: id,
                                        artifact: Slot::Initrd,
                                        diagnostic,
                                    },
                                );
                            },
                            Step::PublishKernel => {
                                self.fail(
                                    InstallError::PublishError {
                                        generation: id,
                                        artifact: Slot::Kernel,
                                        diagnostic,
                                    },
                                );
                            },
                            Step::PublishInitrd => {
                                self.fault = Some(
                                    InstallError::PublishError {
                                        generation: id,
                                        artifact: Slot::Initrd,
                                        diagnostic,
                                    },
                                );
                                self.stage = Stage::Installing {
                                    cursor,
                                    step: Step::RetractKernel,
                                };
                            },
                            Step::PublishStub => {
                                self.fault = Some(
                                    InstallError::PublishError {
                                        generation: id,
                                        artifact: Slot::Stub,
                                        diagnostic,
                                    },
                                );
                                self.stage = Stage::Installing {
                                    cursor,
                                    step: Step::RetractInitrd,
                                };
                            },
                            Step::WriteEntry => {
                                self.fail(
                                    InstallError::LoaderWriteError { generation: id, diagnostic },
                                );
                            },
                            Step::RetractInitrd => {
                                if not_found {
                                    self.index.forget(id, Slot::Initrd);
                                }
                                self.stage = Stage::Installing {
                                    cursor,
                                    step: Step::RetractKernel,
                                };
                            },
                            Step::RetractKernel => {
                                if not_found {
                                    self.index.forget(id, Slot::Kernel);
                                }
                                self.stage = Stage::Finished;
                            },
                        }
                    },
                }
            },
            Stage::Collecting { position, file } => {
                let id: Identifier = self.evictions[position];
                match event {
                    Event::Succeeded => {
                        self.deleted(position, file);
                    },
                    Event::Failed(failure) => {
                        if failure.not_found {
                            self.deleted(position, file);
                        } else {
                            self.failures.push(
                                GcError { identifier: id, file, diagnostic: failure.diagnostic },
                            );
                            self.collect(position + 1);
                        }
                    },
                }
            },
            Stage::Finished => {},
        }
    }

    /// Takes note that a file of an evicted set is gone.
    fn deleted(&mut self, position: usize, file: Slot)
        requires
            old(self).index.wf(),
            position < old(self).evictions@.len(),
        ensures
            final(self)@ == old(self)@.deleted_step(position as nat, file),
            final(self).generations@ == old(self).generations@,
            final(self).requested@ == old(self).requested@,
    {
        let evictions: usize = self.evictions.len();
        let id: Identifier = self.evictions[position];
        self.index.forget(id, file);
        match file {
            Slot::Initrd => {
                self.collect(position + 1);
            },
            _ => {
                self.stage = Stage::Collecting { position, file: next_file(file) };
            },
        }
    }

    /// Whether the run has ended.
    pub fn is_finished(&self) -> (result: bool)
        ensures
            result == (self@.stage is Finished),
    {
        match self.stage {
            Stage::Finished => true,
            _ => false,
        }
    }

    /// What the run knows of the partition.
    pub fn index(&self) -> (index: &InstalledIndex)
        requires
            self.wf(),
        ensures
            index.wf(),
            index@ == self@.index,
    {
        &self.index
    }

    /// The retention policy.
    pub fn policy(&self) -> (policy: RetentionPolicy)
        ensures
            policy.bound() == self@.limit,
    {
        self.policy
    }

    /// The generation at a place of the request.
    pub fn generation(&self, place: usize) -> (generation: Option<&Generation>)
        ensures
            match generation {
                Some(g) => place < self.generations().len() && *g == self.generations()[
                    place as int
                ],
                None => place >= self.generations().len(),
            },
    {
        if place < self.generations.len() {
            Some(&self.generations[place])
        } else {
            None
        }
    }

    /// The error that ends the run, if there is one.
    pub fn fault(&self) -> (fault: &Option<InstallError>)
        ensures
            *fault == self@.fault,
    {
        &self.fault
    }

    /// The deletions that failed, in the order in which they were tried.
    pub fn failures(&self) -> (failures: &Vec<GcError>)
        ensures
            failures@ == self@.failures,
    {
        &self.failures
    }

    /// How the run ended: with the error that ended it, or else with the
    /// deletions that failed, which do not make the run a failure.
    pub fn into_result(self) -> (result: Result<Vec<GcError>, InstallError>)
        ensures
            match result {
                Ok(failures) => self@.fault is None && failures@ == self@.failures,
                Err(error) => self@.fault == Some(error),
            },
    {
        match self.fault {
            Some(error) => Err(error),
            None => Ok(self.failures),
        }
    }
}

/// Foretells what a run leaves on the partition if every action succeeds:
/// the requested generations and the sets that were there before, as far
/// as the policy lets them stay. Nothing is done to the partition.
pub fn forecast(
    generations: Vec<Generation>,
    policy: RetentionPolicy,
    index: InstalledIndex,
) -> (left: InstalledIndex)
    requires
        index.wf(),
    ensures
        left.wf(),
        left@ == outcome(index@, names(generations@), policy.bound()),
{
    let ghost start = Machine::start(names(generations@), policy.bound(), index@);
    let ghost enough: nat;
    proof {
        enough = law_successful_run(names(generations@), policy.bound(), index@);
    }
    let mut installer = Installer::new(generations, policy, index);
    let ghost mut done: nat = 0;
    while !installer.is_finished()
        invariant
            installer.wf(),
            installer@ == start.succeed(done),
        decreases actions_at_most(installer@),
    {
        proof {
            lemma_nearer_the_end(installer@, Event::Succeeded);
            lemma_succeed_add(start, done, 1);
            assert(start.succeed(done).succeed(1) == start.succeed(done).next(Event::Succeeded))
                by {
                reveal_with_fuel(Machine::succeed, 2);
            }
            done = done + 1;
        }
        installer.advance(Event::Succeeded);
    }
    proof {
        lemma_one_end(start, done, enough);
    }
    installer.index
}

} // verus!
