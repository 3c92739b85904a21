//! Typed, validated access to the OpenBSD sysctl management information base
//! (MIB): a kernel-exposed tree of named, typed, sometimes-mutable values.
//!
//! A caller supplies a dotted path such as `kern.ostype`, optionally with an
//! `=value` suffix for writes. The library tokenizes the path, resolves it
//! against a declarative namespace schema to the kernel's numeric address
//! array plus shape and mutability metadata, plans the one- or two-phase
//! kernel call protocol, and converts between raw byte buffers and typed
//! values. The privileged call itself is left to the embedding program,
//! which drives the [`invoke`] state machine.

use vstd::prelude::*;

pub mod codec;
pub mod codec_laws;
pub mod error;
pub mod invoke;
pub mod literal;
pub mod namespace;
pub mod path;
pub mod resolve;
pub mod resolve_laws;
pub mod schema;
pub mod shape;

verus! {

/// The number of elements the kernel accepts in one MIB address array
/// (`CTL_MAXNAME`).
pub const CTL_MAXNAME: usize = 12;

} // verus!
