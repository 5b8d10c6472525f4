//! Behavioral properties of the container: clone independence, one factory
//! run per resolution, last-write-wins registration, merge precedence,
//! registration-order independence, the deferred producers, and the exact
//! diagnostic texts.

use std::sync::atomic::{AtomicUsize, Ordering};
use std::sync::Arc;
use wonderbox::identity::{producer_key_of, strip_marker, type_key_of};
use wonderbox::Container;

trait Foo {}

struct FooImpl;

impl Foo for FooImpl {}

trait Bar {}

#[derive(Debug, PartialEq)]
struct Wrapper {
    stored: String,
}

#[derive(Debug, PartialEq)]
struct Outer(String);

#[test]
fn clone_registration_returns_equal_and_independent_values() {
    let mut container = Container::new();
    container.register_clone(vec![1u32, 2, 3]);

    let first = container.try_resolve::<Vec<u32>>().unwrap();
    let mut second = container.try_resolve::<Vec<u32>>().unwrap();
    assert_eq!(first, vec![1, 2, 3]);
    assert_eq!(second, first);

    second.push(4);
    assert_eq!(first, vec![1, 2, 3]);
    let third = container.try_resolve::<Vec<u32>>().unwrap();
    assert_eq!(third, vec![1, 2, 3]);
}

#[test]
fn factory_runs_once_per_resolution_and_producer_outlives_container() {
    let invocations = Arc::new(AtomicUsize::new(0));
    let counter = invocations.clone();

    let mut container = Container::new();
    container.register(move |_| {
        counter.fetch_add(1, Ordering::SeqCst);
        7u64
    });
    assert_eq!(invocations.load(Ordering::SeqCst), 0);

    assert_eq!(container.try_resolve::<u64>().unwrap(), 7);
    assert_eq!(invocations.load(Ordering::SeqCst), 1);
    assert_eq!(container.try_resolve::<u64>().unwrap(), 7);
    assert_eq!(invocations.load(Ordering::SeqCst), 2);

    let producer = container.try_resolve::<Box<dyn Fn() -> u64>>().unwrap();
    assert_eq!(invocations.load(Ordering::SeqCst), 2);

    drop(container);
    assert_eq!(producer(), 7);
    assert_eq!(producer(), 7);
    assert_eq!(invocations.load(Ordering::SeqCst), 4);
}

#[test]
fn second_registration_replaces_first() {
    let mut container = Container::new();
    container.register_clone(10u32);
    container.register(|_| 20u32);

    assert_eq!(container.try_resolve::<u32>().unwrap(), 20);
    let producer = container.try_resolve::<Box<dyn Fn() -> u32>>().unwrap();
    assert_eq!(producer(), 20);
}

#[test]
fn merged_container_resolves_from_both_and_prefers_absorbed() {
    let mut first = Container::new();
    first.register_clone(1u32);
    first.register_clone("kept".to_string());

    let mut second = Container::new();
    second.register_clone(2i64);
    second.register_clone("absorbed".to_string());

    first.extend(second);

    assert_eq!(first.try_resolve::<u32>().unwrap(), 1);
    assert_eq!(first.try_resolve::<i64>().unwrap(), 2);
    assert_eq!(first.try_resolve::<String>().unwrap(), "absorbed");
}

#[test]
fn dependent_factories_resolve_regardless_of_registration_order() {
    let mut forward = Container::new();
    forward.register(|container: &Container| Outer(container.resolve::<String>()));
    forward.register(|container: &Container| {
        let n = container.resolve::<u32>();
        format!("n={}", n)
    });
    forward.register_clone(3u32);
    assert_eq!(forward.resolve::<Outer>(), Outer("n=3".to_string()));

    let mut backward = Container::new();
    backward.register_clone(3u32);
    backward.register(|container: &Container| {
        let n = container.resolve::<u32>();
        format!("n={}", n)
    });
    backward.register(|container: &Container| Outer(container.resolve::<String>()));
    assert_eq!(backward.resolve::<Outer>(), Outer("n=3".to_string()));
}

#[test]
fn factory_embeds_cloned_seed_and_producer_repeats_it() {
    let mut container = Container::new();
    container.register_clone("seed".to_string());
    container.register(|container: &Container| Wrapper { stored: container.resolve::<String>() });

    let wrapper = container.resolve::<Wrapper>();
    assert_eq!(wrapper.stored, "seed");

    let producer = container.resolve::<Box<dyn Fn() -> Wrapper>>();
    let first = producer();
    let second = producer();
    assert_eq!(first.stored, "seed");
    assert_eq!(second.stored, "seed");
}

fn assert_shareable<T: Send + Sync>(_value: &T) {}

#[test]
fn populated_container_is_shareable() {
    let mut container = Container::new();
    container.register_clone("seed".to_string());
    container.register(|container: &Container| Wrapper { stored: container.resolve::<String>() });
    assert_shareable(&container);

    assert_eq!(container.resolve::<Wrapper>().stored, "seed");
}

#[test]
fn never_registered_type_resolves_none() {
    let container = Container::new();
    assert!(container.try_resolve::<i32>().is_none());

    let mut populated = Container::new();
    populated.register_clone("text".to_string());
    assert!(populated.try_resolve::<i32>().is_none());
}

#[test]
fn registers_default_constructed_value() {
    let mut container = Container::new();
    container.register_default::<u32>();
    assert_eq!(container.try_resolve::<u32>().unwrap(), 0);

    container.register_default::<String>();
    assert_eq!(container.try_resolve::<String>().unwrap(), "");
}

#[test]
fn default_container_is_empty() {
    let container: Container = Default::default();
    assert!(container.try_resolve::<String>().is_none());
    assert_eq!(container.resolution_failure_help(), "No registered types were found.");
}

#[test]
fn empty_container_help_states_no_registrations() {
    let container = Container::new();
    assert_eq!(container.resolution_failure_help(), "No registered types were found.");
}

#[test]
fn missing_trait_object_diagnostic_lists_sorted_identities() {
    let mut container = Container::new();
    container.register_clone("x".to_string());
    container.register(|_| Box::new(FooImpl) as Box<dyn Foo>);

    assert!(container.try_resolve::<Box<dyn Bar>>().is_none());

    let mut names = vec![type_key_of::<String>(), type_key_of::<Box<dyn Foo>>()];
    names.sort();
    let expected = format!(
        "The following registered types were found.\n- {}\n- {}\nIn addition, the following factories were generated for each type `T`.\n- std::boxed::Box<dyn Fn() -> T>",
        names[0], names[1]
    );
    assert_eq!(container.resolution_failure_help(), expected);
}

#[test]
fn registered_type_names_lists_each_registration() {
    let mut container = Container::new();
    container.register_clone(1u8);
    container.register_clone(2u16);

    let mut names = container.registered_type_names();
    names.sort();
    assert_eq!(names, vec![type_key_of::<u16>(), type_key_of::<u8>()]);
}

#[test]
fn pretty_print_lists_lines_in_sorted_order() {
    let mut container = Container::new();
    container.register_clone(1u8);
    container.register_clone(2u16);

    assert_eq!(
        container.pretty_print_registered_types(),
        format!("- {}\n- {}\n", type_key_of::<u16>(), type_key_of::<u8>())
    );
}

#[test]
fn type_keys_name_the_type_itself() {
    assert_eq!(type_key_of::<u8>(), "u8");
    let producer = producer_key_of::<u8>();
    assert!(producer.contains("Fn() -> u8"));
    assert_ne!(producer, "u8");
    assert_eq!(type_key_of::<Box<dyn Fn() -> u8>>(), producer);
}

#[test]
fn strip_marker_removes_only_the_envelope() {
    assert_eq!(strip_marker("PhantomData<u8>".to_string()), "u8");
    assert_eq!(strip_marker("plain text".to_string()), "plain text");
    assert_eq!(strip_marker("PhantomData<".to_string()), "PhantomData<");
}
