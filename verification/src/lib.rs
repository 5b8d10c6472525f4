//! A minimalistic inversion-of-control (IoC) container.
//!
//! Callers register factory functions or cloneable values keyed by their
//! result type and later resolve instances of a requested type; a factory
//! receives the container at resolution time, so it may recursively resolve
//! its own dependencies whatever the registration order. Alongside every
//! registration of a type `T` the container installs a deferred producer: a
//! resolvable `Box<dyn Fn() -> T>` that reproduces `T` on demand without
//! needing the container to still be in scope.
//!
//! The container is specified and verified over its model: two mappings from
//! type identity to stored factory, the direct registrations and the
//! deferred producers. The keyed operations — `register_erased`, `lookup`,
//! `extend` — carry exact contracts over those mappings, as do the
//! diagnostic texts; the laws in [`laws`] state the overwrite, merge and
//! ordering policies. The identity of a requested type and the type-erased
//! invocation of a stored factory come from the trusted boundary in
//! [`erased`], which promises nothing about either, so the generic entry
//! points `register` and `try_resolve` state only what holds for every
//! identity the naming function could return.

pub mod container;
pub mod diagnostics;
pub mod erased;
pub mod identity;
pub mod laws;
pub mod order;
pub mod store;

pub use container::AutoResolvable;
pub use container::Container;
