//! The trusted boundary around std's type-erasure machinery.
//!
//! The container stores factories for many different result types side by
//! side, so each factory is boxed and erased before it is stored: a slot for
//! result type `T` always holds a `Box<dyn Fn(&Container) -> T + Send + Sync>`
//! behind an `Arc<dyn Any + Send + Sync>`. Every stored factory is therefore
//! shareable across threads, which is what lets a fully populated container
//! be shared for concurrent resolution. Verus sees a slot as an opaque value;
//! everything that crosses the erasure boundary is gathered here, in small
//! trusted functions.

use crate::container::{AutoResolvable, Container};
use std::any::Any;
use std::sync::Arc;
use vstd::prelude::*;

verus! {

/// A type-erased factory, exactly as the resolution engine stores it.
///
/// The hidden field holds a `Box<dyn Fn(&Container) -> T + Send + Sync>` for
/// the `T` the slot was built for, erased to `Arc<dyn Any + Send + Sync>`.
/// To the verified code a slot is an opaque value: it can be stored,
/// compared in specifications and handed back, but only `invoke_erased`
/// looks inside.
#[verifier::external_body]
pub struct ErasedFactory {
    inner: Arc<dyn Any + Send + Sync>,
}

impl Clone for ErasedFactory {
    /// Relies on `Arc::clone`: the new handle shares the same stored factory.
    #[verifier::external_body]
    fn clone(&self) -> (result: Self)
        ensures
            result == *self,
    {
        ErasedFactory { inner: Arc::clone(&self.inner) }
    }
}

/// Relies on the `Debug` rendering of `std::marker::PhantomData`, which
/// names the marked type: the returned text holds `T`'s nominal name inside
/// the marker's envelope, which `identity::strip_marker` removes. Nothing is
/// assumed of the text.
#[verifier::external_body]
pub(crate) fn raw_type_marker_of<T: 'static>() -> String {
    format!("{:?}", std::marker::PhantomData::<T>)
}

/// Relies on the `Debug` rendering of `std::marker::PhantomData`, as above,
/// for the boxed zero-argument producer of `T`: a nominal shape distinct
/// from `T`'s own.
#[verifier::external_body]
pub(crate) fn raw_producer_marker_of<T: 'static>() -> String {
    format!("{:?}", std::marker::PhantomData::<Box<dyn Fn() -> T>>)
}

/// Relies on `String::push`: appends the character to the string.
#[verifier::external_body]
pub(crate) fn push_char(s: &mut String, c: char)
    ensures
        final(s)@ == old(s)@.push(c),
{
    s.push(c);
}

/// Erases a factory closure to a slot. Relies on `Arc::new` and the coercion
/// to `dyn Any`: the slot holds exactly the given factory, boxed.
#[verifier::external_body]
pub(crate) fn make_factory_slot<T, F>(factory: &F) -> ErasedFactory where
    T: 'static,
    F: Fn(&Container) -> T + 'static + Send + Sync + Clone,
 {
    let factory = factory.clone();
    let boxed: Box<dyn Fn(&Container) -> T + Send + Sync> = Box::new(
        move |container| factory(container),
    );
    ErasedFactory { inner: Arc::new(boxed) }
}

/// Erases the deferred flavor of a factory: a slot that, invoked with a
/// container, captures a clone of that container and returns a
/// `Box<dyn Fn() -> T>` which runs the original factory against the captured
/// snapshot. Relies on `Clone::clone` for the snapshot and `Arc::new` for
/// the erasure.
#[verifier::external_body]
pub(crate) fn make_deferred_slot<T, F>(factory: &F) -> ErasedFactory where
    T: 'static,
    F: Fn(&Container) -> T + 'static + Send + Sync + Clone,
 {
    let factory = factory.clone();
    let boxed: Box<dyn Fn(&Container) -> Box<dyn Fn() -> T> + Send + Sync> = Box::new(
        move |container: &Container|
            {
                let factory = factory.clone();
                let container = container.clone();
                Box::new(move || factory(&container))
            },
    );
    ErasedFactory { inner: Arc::new(boxed) }
}

/// Erases a clone-and-return factory: a slot whose factory hands out a fresh
/// clone of the given value on every invocation; the value is captured in
/// the stored factory, so it must itself be shareable. Relies on
/// `Clone::clone`.
#[verifier::external_body]
pub(crate) fn make_clone_slot<T: Clone + Send + Sync + 'static>(value: &T) -> ErasedFactory {
    let value = value.clone();
    let boxed: Box<dyn Fn(&Container) -> T + Send + Sync> = Box::new(
        move |_container| value.clone(),
    );
    ErasedFactory { inner: Arc::new(boxed) }
}

/// Erases the deferred flavor of a clone-and-return factory: its producer
/// clones the value without needing any container. Relies on `Clone::clone`.
#[verifier::external_body]
pub(crate) fn make_deferred_clone_slot<T: Clone + Send + Sync + 'static>(
    value: &T,
) -> ErasedFactory {
    let value = value.clone();
    let boxed: Box<dyn Fn(&Container) -> Box<dyn Fn() -> T> + Send + Sync> = Box::new(
        move |_container: &Container|
            {
                let value = value.clone();
                Box::new(move || value.clone())
            },
    );
    ErasedFactory { inner: Arc::new(boxed) }
}

/// Erases the composed factory of an auto-resolvable registration: the
/// stored factory runs `R`'s adapter against the live container and hands
/// the outcome to `registration_fn`, exactly as a caller of `register`
/// would compose them. Relies on `Arc::new` and the coercion to `dyn Any`.
#[verifier::external_body]
pub(crate) fn make_autoresolvable_slot<R, T, F>(registration_fn: &F) -> ErasedFactory where
    R: AutoResolvable,
    T: 'static,
    F: Fn(Option<R>) -> T + 'static + Send + Sync + Clone,
 {
    let registration_fn = registration_fn.clone();
    let boxed: Box<dyn Fn(&Container) -> T + Send + Sync> = Box::new(
        move |container| registration_fn(R::try_resolve(container)),
    );
    ErasedFactory { inner: Arc::new(boxed) }
}

/// Erases the deferred flavor of an auto-resolvable registration, as
/// `make_deferred_slot` does for a plain factory. Relies on `Clone::clone`
/// for the container snapshot and `Arc::new` for the erasure.
#[verifier::external_body]
pub(crate) fn make_autoresolvable_deferred_slot<R, T, F>(registration_fn: &F) -> ErasedFactory where
    R: AutoResolvable,
    T: 'static,
    F: Fn(Option<R>) -> T + 'static + Send + Sync + Clone,
 {
    let registration_fn = registration_fn.clone();
    let boxed: Box<dyn Fn(&Container) -> Box<dyn Fn() -> T> + Send + Sync> = Box::new(
        move |container: &Container|
            {
                let registration_fn = registration_fn.clone();
                let container = container.clone();
                Box::new(move || registration_fn(R::try_resolve(&container)))
            },
    );
    ErasedFactory { inner: Arc::new(boxed) }
}

/// Invokes the factory held by a slot against the given container.
///
/// Relies on `<dyn Any>::downcast_ref` and the `Fn` call: `None` exactly when
/// the slot does not hold a factory producing `T` (the internal-consistency
/// violation); otherwise the stored factory runs once, with the container,
/// and its value is returned. The factory is caller-supplied code and may
/// itself fail to return.
#[verifier::external_body]
pub(crate) fn invoke_erased<T: 'static>(slot: &ErasedFactory, container: &Container) -> Option<T> {
    let factory = slot.inner.downcast_ref::<Box<dyn Fn(&Container) -> T + Send + Sync>>()?;
    Some(factory(container))
}

/// Relies on `Option::expect`: every call panics, with `message` as the
/// panic payload, and never returns. The stated result type only lets the
/// diverging call stand for a value.
#[verifier::external_body]
pub(crate) fn fail_resolution<T>(message: &str) -> T {
    let missing: Option<T> = None;
    missing.expect(message)
}

} // verus!
