//! A content-addressed builder of ext4 root filesystems for micro VMs.
//!
//! Everything that decides is here and verified; everything that acts is
//! asked for. An operation that needs files, programs or the time is a
//! [`procedure::Procedure`]: it says what it wants next, is handed the reply,
//! and in the end gives its result. What a procedure wants and what a reply
//! makes of it are stated as functions of its state, and the laws of the store
//! are stated over [`disk::Disk`], a model of what requests do to files.

pub mod build;
pub mod buildkit;
pub mod cli;
pub mod disk;
pub mod doctor;
pub mod error;
pub mod ext4;
pub mod host;
pub mod key;
pub mod number;
pub mod path;
pub mod procedure;
pub mod store;
pub mod text;
pub mod zfs;

pub use build::{BuildOutcome, BuildRequest, CacheHit};
pub use buildkit::{BuildSpec, ContextSource, DockerfileSource};
pub use error::Error;
pub use ext4::{write_ext4_from_tar, Ext4Options, Ext4Stats, SizePolicy};
pub use key::RecipeKey;
pub use store::{GcPolicy, InstallKind, Store};
