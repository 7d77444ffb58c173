//! Installation and retention of signed boot artifacts on an EFI System
//! Partition.
//!
//! A system that is rebuilt as versioned generations needs, for each
//! generation that it can boot, a signed stub, a signed kernel and a signed
//! initrd on the partition, and a loader entry that offers them. This crate
//! holds the decisions of a run that installs generations and deletes the
//! artifact sets beyond a retention limit: how a generation's files are
//! named, what is done in which order, what a failure leaves behind, and
//! which sets stay. Every effect on the file system is left to the caller,
//! who performs one action at a time and reports how it ended.
//!
//! - [`generation`] reads descriptors into generations;
//! - [`identifier`] derives the identifier of a generation and its text;
//! - [`layout`] names the files of an artifact set, finds them again in a
//!   directory listing, and writes loader entries;
//! - [`artifact`] and [`stub`] say which files an installation makes and
//!   what the stub embeds;
//! - [`index`] lists what is on the partition;
//! - [`retention`] decides which artifact sets stay;
//! - [`machine`] is the course of a run, step by step, with the laws that
//!   hold of every step;
//! - [`outcome`] and [`run`] say what whole runs leave on the partition;
//! - [`installer`] carries a run out;
//! - [`keys`], [`cli`] and [`error`] hold the key pair, the command surface
//!   and the errors.

pub mod artifact;
pub mod cli;
pub mod error;
pub mod generation;
pub mod identifier;
pub mod index;
pub mod installer;
pub mod keys;
pub mod layout;
pub mod machine;
pub mod outcome;
pub mod retention;
pub mod run;
pub mod stub;
