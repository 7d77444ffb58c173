//! The command surface: what an invocation asks for.

use vstd::prelude::*;
use vstd::string::*;
use crate::keys::KeyPair;
use crate::retention::{configured_bound, RetentionPolicy};

verus! {

/// The arguments of the `install` command.
#[derive(Clone, Debug)]
pub struct InstallCommand {
    /// The loader configuration to put on the partition.
    pub systemd_boot_loader_config: String,
    /// The certificate with the public key.
    pub public_key: String,
    /// The private key.
    pub private_key: String,
    /// The number of artifact sets to keep; zero keeps all of them.
    pub configuration_limit: usize,
    /// The boot loader to put on the partition.
    pub efi_boot_path: String,
    /// The directory where the partition is mounted.
    pub esp: String,
    /// The links to the generations to install, in order.
    pub generations: Vec<String>,
}

/// The commands.
#[derive(Clone, Debug)]
pub enum Commands {
    Install(InstallCommand),
}

/// An invocation.
#[derive(Clone, Debug)]
pub struct Cli {
    pub commands: Commands,
}

/// What an installation is to do, with everything that it needs to know.
#[derive(Clone, Debug)]
pub struct Request {
    /// The template of the bootable stub.
    pub stub: String,
    /// The loader configuration to put on the partition.
    pub loader_config: String,
    /// The key pair that signs.
    pub key_pair: KeyPair,
    /// The retention policy.
    pub policy: RetentionPolicy,
    /// The directory where the partition is mounted.
    pub esp: String,
    /// The boot loader to put on the partition.
    pub efi_boot_path: String,
    /// The links to the generations to install, in order.
    pub generations: Vec<String>,
}

/// Why a command cannot be carried out.
#[derive(Clone, Copy, Debug, PartialEq, Eq, Structural)]
pub enum CommandError {
    /// The environment does not say where the template of the stub lies.
    MissingStub,
}

/// The request that an `install` command makes, given the template of the
/// stub.
pub open spec fn requested(command: InstallCommand, stub: String, request: Request) -> bool {
    &&& request.stub == stub
    &&& request.loader_config == command.systemd_boot_loader_config
    &&& request.key_pair.public_key@ == command.public_key@
    &&& request.key_pair.private_key@ == command.private_key@
    &&& request.policy.bound() == configured_bound(command.configuration_limit)
    &&& request.esp == command.esp
    &&& request.efi_boot_path == command.efi_boot_path
    &&& request.generations == command.generations
}

/// Turns the arguments of `install` into a request. `stub` is the path of
/// the stub's template as the environment gives it; without it there is
/// nothing to install.
pub fn install(command: InstallCommand, stub: Option<String>) -> (result: Result<
    Request,
    CommandError,
>)
    ensures
        match result {
            Ok(request) => stub matches Some(path) && requested(command, path, request),
            Err(error) => stub is None && error == CommandError::MissingStub,
        },
{
    let stub = match stub {
        Some(path) => path,
        None => {
            return Err(CommandError::MissingStub);
        },
    };
    let key_pair = KeyPair::new(command.public_key.as_str(), command.private_key.as_str());
    let policy = RetentionPolicy::new(command.configuration_limit);
    Ok(
        Request {
            stub,
            loader_config: command.systemd_boot_loader_config,
            key_pair,
            policy,
            esp: command.esp,
            efi_boot_path: command.efi_boot_path,
            generations: command.generations,
        },
    )
}

impl Commands {
    /// The request that the command makes.
    pub fn call(self, stub: Option<String>) -> (result: Result<Request, CommandError>)
        ensures
            match result {
                Ok(request) => stub matches Some(path) && requested(
                    self->Install_0,
                    path,
                    request,
                ),
                Err(error) => stub is None && error == CommandError::MissingStub,
            },
    {
        match self {
            Commands::Install(command) => install(command, stub),
        }
    }
}

impl Cli {
    /// The request that the invocation makes.
    pub fn call(self, stub: Option<String>) -> (result: Result<Request, CommandError>)
        ensures
            match result {
                Ok(request) => stub matches Some(path) && requested(
                    self.commands->Install_0,
                    path,
                    request,
                ),
                Err(error) => stub is None && error == CommandError::MissingStub,
            },
    {
        self.commands.call(stub)
    }
}

} // verus!
