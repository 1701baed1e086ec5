//! Core logic of a hot-patch dispatch mechanism for long-running,
//! entity-component-system style applications.
//!
//! A running process receives, from an external transport, a *jump table*
//! mapping old code addresses to new code addresses.  The pieces here are the
//! bookkeeping that makes such a patch safe to act on:
//!
//! - [`patch_channel`]: the capacity-one mailbox that coalesces incoming jump
//!   tables and emits a single notification per tick;
//! - [`trampoline`]: the stable-address outer function / swappable inner
//!   implementation pair, and how a jump table moves the inner address;
//! - [`dispatch`]: the process-wide registry that detects, per registered
//!   function identity, whether the code address changed since the last check;
//! - [`world`]: a plain-value model of the shared entity/component/resource
//!   store and of deferred command buffers;
//! - [`extract`]: validation of a declared parameter list against the world
//!   (skip conditions, borrow exclusivity) and single-match extraction;
//! - [`harness`]: the run-time behaviour of a generated hot-patchable system:
//!   record provenance, validate, run at most once, commit commands;
//! - [`reload`]: reload-position spans and the despawn of entities spawned by
//!   an earlier run of a rerun-on-patch routine;
//! - [`schema`]: field-by-field migration of a component value from an old
//!   struct layout to a new one, with default fill;
//! - [`migration`]: the registry of migratable type identities and the sweep
//!   that rewrites live entities when an identity changed;
//! - [`overlay`]: the schedule overlay that swaps groups of systems in and
//!   out of dedicated sub-schedules, keeping the last good graph on failure;
//! - [`macro_shape`]: the build-time decisions taken when a tagged function
//!   is turned into a trampoline: attribute parsing, calling convention,
//!   rejected shapes.
//!
//! The unsafe act of redirecting code addresses in the process image, the
//! actual code generation, and the frame loop that drives ticks are the
//! host's business; everything here is expressed over plain values (addresses
//! and type identities as opaque `u64` tokens, component data as tagged
//! fields) so that each rule can be stated and checked precisely.

pub mod dispatch;
pub mod extract;
pub mod harness;
pub mod macro_shape;
pub mod migration;
pub mod overlay;
pub mod patch_channel;
pub mod reload;
pub mod schema;
pub mod trampoline;
pub mod world;
