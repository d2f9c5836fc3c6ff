//! A process sandboxing library.
//!
//! Callers describe a filesystem view (path mappings, soft links, empty
//! directories), an identity (uid/gid overrides) and a permitted kernel
//! surface (devices, sockets, network, sysctl) through a fluent builder, and
//! spawn a command confined to that view.  This crate holds the decision
//! logic of sandbox construction — path validation, identity and privilege
//! planning, mount-table interpretation, the loopback and overlay-control
//! protocols, and child lifecycle tracking — with machine-checked contracts.
//! The operating-system calls that carry those decisions out live outside the
//! library and consume the plans produced here.

pub mod creds;
pub mod error;
pub mod launch;
pub mod mapping;
pub mod mountinfo;
pub mod net;
pub mod num;
pub mod path;
pub mod privs;
pub mod process;
pub mod profile;
pub mod sandbox;
pub mod sandboxfs;
pub mod unshare;
pub mod util;

pub use error::SandboxError;
pub use mapping::{ErrorKind, Mapping, MappingError, MappingModel, Mappings};
pub use process::{ChildModel, ChildState};
pub use profile::Profile;
pub use sandbox::{Sandbox, SandboxModel};
