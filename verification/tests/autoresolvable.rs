//! Registration of types whose constructor dependencies are resolved
//! automatically. The `AutoResolvable` adapters that a code generator would
//! emit from a constructor are written out by hand here: one adapter per
//! type, resolving each constructor parameter from the container in
//! declaration order and short-circuiting to `None` on a missing one.

use wonderbox::{AutoResolvable, Container};

#[derive(Debug, Default)]
struct Plain;

impl Plain {
    fn new() -> Self {
        Plain::default()
    }
}

impl AutoResolvable for Plain {
    fn try_resolve(_container: &Container) -> Option<Self> {
        Some(Plain::new())
    }
}

#[derive(Debug, Default)]
struct Foo {
    stored_string: String,
}

impl Foo {
    fn new(stored_string: String) -> Self {
        Self { stored_string }
    }
}

impl AutoResolvable for Foo {
    fn try_resolve(container: &Container) -> Option<Self> {
        Some(Self::new(container.try_resolve::<String>()?))
    }
}

trait AsText {}

impl AsText for Foo {}

#[derive(Debug, Default)]
struct Generic<T> {
    stored_generic: T,
}

impl<T> Generic<T> {
    fn new(stored_generic: T) -> Self {
        Self { stored_generic }
    }
}

impl<T: 'static> AutoResolvable for Generic<T> {
    fn try_resolve(container: &Container) -> Option<Self> {
        Some(Self::new(container.try_resolve::<T>()?))
    }
}

trait Marker {}

impl<T> Marker for Generic<T> {}

#[test]
fn attribute_compiles_test() {
    let _foo = Plain::new();
}

#[test]
fn autoresolved_empty_ctor_can_be_registered_test() {
    let mut container = Container::new();
    container.register_autoresolvable(|plain: Option<Plain>| plain.unwrap());
}

#[test]
fn autoresolved_empty_ctor_can_be_resolved_test() {
    let mut container = Container::new();
    container.register_autoresolvable(|plain: Option<Plain>| plain.unwrap());

    let resolved = container.try_resolve::<Plain>();
    assert!(resolved.is_some())
}

#[test]
fn autoresolved_empty_ctor_generates_factory_test() {
    let mut container = Container::new();
    container.register_autoresolvable(|plain: Option<Plain>| plain.unwrap());

    let resolved = container.try_resolve::<Box<dyn Fn() -> Plain>>();
    assert!(resolved.is_some())
}

#[test]
fn autoresolved_ctor_with_params_can_be_registered_test() {
    let mut container = Container::new();
    container.register_clone("foo".to_string());
    container.register_autoresolvable(|foo: Option<Foo>| foo.unwrap());
}

#[test]
fn autoresolved_ctor_with_params_can_be_resolved_test() {
    let mut container = Container::new();
    container.register_clone("foo".to_string());
    container.register_autoresolvable(|foo: Option<Foo>| foo.unwrap());

    let foo = container.try_resolve::<Foo>();
    assert!(foo.is_some());
    assert_eq!(foo.unwrap().stored_string, "foo");
}

#[test]
fn autoresolved_ctor_with_params_can_be_resolved_as_trait_object_test() {
    let mut container = Container::new();
    container.register_clone("foo".to_string());
    container.register_autoresolvable(|foo: Option<Foo>| Box::new(foo.unwrap()) as Box<dyn AsText>);

    let resolved = container.try_resolve::<Box<dyn AsText>>();
    assert!(resolved.is_some())
}

#[test]
fn autoresolved_ctor_with_params_generates_factory_test() {
    let mut container = Container::new();
    container.register_clone("foo".to_string());
    container.register_autoresolvable(|foo: Option<Foo>| foo.unwrap());

    let resolved = container.try_resolve::<Box<dyn Fn() -> Foo>>();
    assert!(resolved.is_some())
}

#[test]
fn autoresolved_ctor_missing_dependency_resolves_none() {
    let mut container = Container::new();
    container.register_autoresolvable(|foo: Option<Foo>| foo);

    let resolved = container.try_resolve::<Option<Foo>>();
    assert!(resolved.unwrap().is_none())
}

#[test]
fn autoresolves_generics_test() {
    let mut container = Container::new();
    container.register(|_| "foo".to_string());
    container.register_autoresolvable(|generic: Option<Generic<String>>| {
        Box::new(generic.unwrap()) as Box<dyn Marker>
    });

    let resolved = container.try_resolve::<Box<dyn Marker>>();
    assert!(resolved.is_some())
}

#[test]
fn autoresolves_generics_of_different_types_test() {
    let mut container = Container::new();
    container.register(|_| "foo".to_string());
    container.register_clone(123u32);
    container.register_autoresolvable(|generic: Option<Generic<String>>| generic.unwrap());
    container.register_autoresolvable(|generic: Option<Generic<u32>>| generic.unwrap());

    assert_eq!(container.resolve::<Generic<String>>().stored_generic, "foo");
    assert_eq!(container.resolve::<Generic<u32>>().stored_generic, 123);
}
