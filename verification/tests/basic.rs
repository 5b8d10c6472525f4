//! The basic registration surface: values registered by cloning and
//! factories registered under the type they produce.

use std::rc::Rc;
use std::sync::Arc;
use wonderbox::Container;

trait Foo: Send + Sync {}

struct FooImpl {}

impl FooImpl {
    fn new() -> Self {
        FooImpl {}
    }
}

impl Foo for FooImpl {}

#[test]
fn main_resolves_none_when_not_registered() {
    let container = Container::new();
    let resolved = container.try_resolve::<String>();
    assert!(resolved.is_none())
}

#[test]
fn resolves_string() {
    let mut container = Container::new();
    container.register_clone(String::new());

    let resolved = container.try_resolve::<String>();
    assert!(resolved.is_some())
}

#[test]
fn resolves_rc_of_trait_object() {
    let mut container = Container::new();
    // A value registered by cloning is captured in the stored factory, and
    // every stored factory is shareable across threads; the shareable
    // shared-ownership wrapper for a trait object is `Arc`.
    container.register_clone(Arc::new(FooImpl::new()) as Arc<dyn Foo>);

    let resolved = container.try_resolve::<Arc<dyn Foo>>();
    assert!(resolved.is_some())
}

#[test]
fn main_resolves_factory_of_rc_of_trait_object() {
    let mut container = Container::new();
    let factory = |_container: &Container| Rc::new(FooImpl::new()) as Rc<dyn Foo>;
    container.register_factory(factory);

    let resolved = container.try_resolve::<Rc<dyn Foo>>();
    assert!(resolved.is_some())
}

#[test]
fn main_resolves_factory_of_box_of_trait_object() {
    let mut container = Container::new();
    let factory = |_container: &Container| Box::new(FooImpl::new()) as Box<dyn Foo>;
    container.register_factory(factory);

    let resolved = container.try_resolve::<Box<dyn Foo>>();
    assert!(resolved.is_some())
}
