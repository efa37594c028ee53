//! A verified library for turning a fully resolved environment lock into a
//! single portable artifact, and for reading such an artifact back on a
//! matching host.
//!
//! The library works on plain values: byte strings, vectors and the types
//! declared here. Reading the lock file, moving bytes over the network and
//! placing files on disk belong to the thin harness around it; everything
//! that decides or computes — classifying the locked packages, validating an
//! injected working set, rendering the bucket indexes and the environment
//! descriptor, encoding and decoding the artifact, and gating an unpack on
//! the pack's metadata — lives here, each function behind a proved contract.
#![verifier::loop_isolation(false)]
use vstd::prelude::*;

pub mod archive;
pub mod bytes;
pub mod download;
pub mod envfile;
pub mod jsonfmt;
pub mod lockmodel;
pub mod metadata;
pub mod pack;
pub mod radix64;
pub mod record;
pub mod repodata;
pub mod sfx;
pub mod specmatch;
pub mod text;
pub mod unpack;
