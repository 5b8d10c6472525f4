//! The container and its resolution engine.
//!
//! A `Container` maps type identities to type-erased factories: the direct
//! registrations, and a second mapping with the automatically installed
//! deferred producers (one per registration, under the producer identity).
//! Resolution looks the requested identity up — direct registrations first —
//! and invokes the stored factory with the live container, so a factory can
//! recursively resolve its own dependencies whatever the registration order.

use crate::diagnostics::{help_text_matches, miss_message, mismatch_message, rendered};
use crate::erased::{
    fail_resolution, invoke_erased, make_autoresolvable_deferred_slot, make_autoresolvable_slot,
    make_clone_slot, make_deferred_clone_slot, make_deferred_slot, make_factory_slot,
    ErasedFactory,
};
use crate::identity::{producer_key_of, type_key_of};
use crate::order::{lex_leq, sort_names};
use crate::store::{string_views, TypeMap};
use vstd::prelude::*;
use vstd::relations::sorted_by;
use vstd::string::StringExecFns;

verus! {

broadcast use vstd::map::group_map_axioms, vstd::seq::group_seq_axioms, vstd::set::group_set_axioms;

/// The IoC container: an append-or-overwrite store of type-erased factories,
/// keyed by type identity, with a resolution engine over it.
///
/// Every stored factory is `Send + Sync` — the registration functions demand
/// it of factories and of cloneable values — so a fully populated container
/// is itself `Send + Sync`: it can be shared across threads, and concurrent
/// resolutions through `&Container` are safe, since resolution never mutates
/// the stores. Registration takes `&mut Container` and is thereby statically
/// exclusive.
#[derive(Clone)]
pub struct Container {
    registered_types: TypeMap,
    registered_type_factories: TypeMap,
}

/// Implemented — typically by a generated or hand-written adapter — for types
/// whose constructor dependencies can be resolved from a container.
pub trait AutoResolvable: Sized {
    /// Produces a value by resolving each constructor dependency from the
    /// container, `None` when one of them is missing.
    fn try_resolve(container: &Container) -> Option<Self>;
}

impl Container {
    /// The direct registrations: type identity to stored factory.
    pub closed spec fn registrations(&self) -> Map<Seq<char>, ErasedFactory> {
        self.registered_types@
    }

    /// The deferred-producer registrations installed alongside the direct
    /// ones: producer identity to producer factory.
    pub closed spec fn deferred(&self) -> Map<Seq<char>, ErasedFactory> {
        self.registered_type_factories@
    }

    /// Both stores hold at most one factory per identity.
    pub closed spec fn wf(&self) -> bool {
        self.registered_types.wf() && self.registered_type_factories.wf()
    }

    /// Creates a new empty container.
    pub fn new() -> (result: Container)
        ensures
            result.wf(),
            result.registrations() == Map::<Seq<char>, ErasedFactory>::empty(),
            result.deferred() == Map::<Seq<char>, ErasedFactory>::empty(),
    {
        Container { registered_types: TypeMap::new(), registered_type_factories: TypeMap::new() }
    }

    /// Stores the factory under the given identity — overwriting any earlier
    /// binding — and the deferred producer under the producer identity.
    pub fn register_erased(
        &mut self,
        key: String,
        slot: ErasedFactory,
        producer_key: String,
        producer_slot: ErasedFactory,
    )
        requires
            old(self).wf(),
        ensures
            final(self).wf(),
            final(self).registrations() == old(self).registrations().insert(key@, slot),
            final(self).deferred() == old(self).deferred().insert(producer_key@, producer_slot),
    {
        self.registered_types.insert(key, slot);
        self.registered_type_factories.insert(producer_key, producer_slot);
    }

    /// Registers a function that returns the implementation of a type.
    /// The factory receives the container at resolution time, so it can
    /// resolve its own dependencies, registered before or after it.
    ///
    /// One direct binding and one deferred-producer binding are written; the
    /// identities are computed from `T` alone, by the trusted naming
    /// functions, so nothing more can be stated about them here.
    pub fn register<T, F>(&mut self, implementation_factory: F) where
        T: 'static,
        F: Fn(&Container) -> T + 'static + Send + Sync + Clone,

        requires
            old(self).wf(),
        ensures
            final(self).wf(),
            exists|key: Seq<char>, slot: ErasedFactory|
                final(self).registrations() == old(self).registrations().insert(key, slot),
            exists|key: Seq<char>, slot: ErasedFactory|
                final(self).deferred() == old(self).deferred().insert(key, slot),
    {
        let slot = make_factory_slot::<T, F>(&implementation_factory);
        let producer_slot = make_deferred_slot::<T, F>(&implementation_factory);
        let key = type_key_of::<T>();
        let producer_key = producer_key_of::<T>();
        self.register_erased(key, slot, producer_key, producer_slot);
    }

    /// Registers a value to be handed out by cloning: every resolution of
    /// `T` returns a fresh clone of `implementation`. The value is captured
    /// in the stored factory, and every stored factory is shareable across
    /// threads, so the value must be `Send + Sync`.
    pub fn register_clone<T: Clone + Send + Sync + 'static>(&mut self, implementation: T)
        requires
            old(self).wf(),
        ensures
            final(self).wf(),
            exists|key: Seq<char>, slot: ErasedFactory|
                final(self).registrations() == old(self).registrations().insert(key, slot),
            exists|key: Seq<char>, slot: ErasedFactory|
                final(self).deferred() == old(self).deferred().insert(key, slot),
    {
        let slot = make_clone_slot::<T>(&implementation);
        let producer_slot = make_deferred_clone_slot::<T>(&implementation);
        let key = type_key_of::<T>();
        let producer_key = producer_key_of::<T>();
        self.register_erased(key, slot, producer_key, producer_slot);
    }

    /// Registers a default-constructed instance of the type, handed out by
    /// cloning: a convenience over [`Container::register_clone`].
    pub fn register_default<T: Default + Clone + Send + Sync + 'static>(&mut self)
        requires
            old(self).wf(),
        ensures
            final(self).wf(),
            exists|key: Seq<char>, slot: ErasedFactory|
                final(self).registrations() == old(self).registrations().insert(key, slot),
            exists|key: Seq<char>, slot: ErasedFactory|
                final(self).deferred() == old(self).deferred().insert(key, slot),
    {
        self.register_clone(T::default());
    }

    /// Registers a factory under the type it produces; a synonym of
    /// [`Container::register`] with the type parameters spelt the other way.
    pub fn register_factory<Factory, Implementation>(&mut self, implementation_factory: Factory) where
        Implementation: 'static,
        Factory: Fn(&Container) -> Implementation + 'static + Send + Sync + Clone,

        requires
            old(self).wf(),
        ensures
            final(self).wf(),
            exists|key: Seq<char>, slot: ErasedFactory|
                final(self).registrations() == old(self).registrations().insert(key, slot),
            exists|key: Seq<char>, slot: ErasedFactory|
                final(self).deferred() == old(self).deferred().insert(key, slot),
    {
        self.register::<Implementation, Factory>(implementation_factory);
    }

    /// Registers a type while automatically resolving its dependencies:
    /// the stored factory runs `ResolvedType`'s adapter against the live
    /// container and hands the outcome to `registration_fn`.
    pub fn register_autoresolvable<ResolvedType, RegisteredType, F>(
        &mut self,
        registration_fn: F,
    ) where
        ResolvedType: AutoResolvable,
        RegisteredType: 'static,
        F: Fn(Option<ResolvedType>) -> RegisteredType + 'static + Send + Sync + Clone,

        requires
            old(self).wf(),
        ensures
            final(self).wf(),
            exists|key: Seq<char>, slot: ErasedFactory|
                final(self).registrations() == old(self).registrations().insert(key, slot),
            exists|key: Seq<char>, slot: ErasedFactory|
                final(self).deferred() == old(self).deferred().insert(key, slot),
    {
        let slot = make_autoresolvable_slot::<ResolvedType, RegisteredType, F>(&registration_fn);
        let producer_slot = make_autoresolvable_deferred_slot::<ResolvedType, RegisteredType, F>(
            &registration_fn,
        );
        let key = type_key_of::<RegisteredType>();
        let producer_key = producer_key_of::<RegisteredType>();
        self.register_erased(key, slot, producer_key, producer_slot);
    }

    /// Absorbs every registration of `container` into this one; on an
    /// identity bound in both, `container`'s factory wins.
    pub fn extend(&mut self, container: Container)
        requires
            old(self).wf(),
        ensures
            final(self).wf(),
            final(self).registrations() == old(self).registrations().union_prefer_right(
                container.registrations(),
            ),
            final(self).deferred() == old(self).deferred().union_prefer_right(
                container.deferred(),
            ),
    {
        let Container { registered_types, registered_type_factories } = container;
        self.registered_types.merge(registered_types);
        self.registered_type_factories.merge(registered_type_factories);
    }

    /// Looks an identity up without invoking anything: the direct
    /// registration when there is one, else the deferred-producer entry.
    pub fn lookup(&self, key: &String) -> (result: Option<&ErasedFactory>)
        ensures
            result.is_some() == (self.registrations().contains_key(key@)
                || self.deferred().contains_key(key@)),
            match result {
                Some(slot) => *slot == (if self.registrations().contains_key(key@) {
                    self.registrations()[key@]
                } else {
                    self.deferred()[key@]
                }),
                None => true,
            },
    {
        match self.registered_types.get(key) {
            Some(slot) => Some(slot),
            None => self.registered_type_factories.get(key),
        }
    }

    /// Retrieves the registered implementation of the specified type, `None`
    /// when its identity was never registered — a normal, expected outcome.
    ///
    /// When the identity is found, the stored factory runs once against this
    /// container. Should the stored factory not match the identity it was
    /// filed under — impossible while every binding is written by the
    /// registration functions — the call aborts with the
    /// internal-consistency diagnostic instead of returning wrong data.
    pub fn try_resolve<T: 'static>(&self) -> (resolved: Option<T>)
        requires
            self.wf(),
        ensures
            self.registrations().dom().is_empty() && self.deferred().dom().is_empty()
                ==> resolved.is_none(),
    {
        let key = type_key_of::<T>();
        match self.lookup(&key) {
            None => None,
            Some(slot) => match invoke_erased::<T>(slot, self) {
                Some(value) => Some(value),
                None => {
                    let message = self.mismatch_failure_message(&key);
                    Some(fail_resolution::<T>(message.as_str()))
                },
            },
        }
    }

    /// Retrieves the registered implementation of the specified type;
    /// aborts with the resolution-failure diagnostic — naming the requested
    /// type and listing what is registered — when the identity was never
    /// registered. A normal return therefore always carries a resolved
    /// value; the miss case never returns, so nothing further can be
    /// promised here.
    pub fn resolve<T: 'static>(&self) -> T
        requires
            self.wf(),
    {
        match self.try_resolve::<T>() {
            Some(value) => value,
            None => {
                let name = type_key_of::<T>();
                let message = self.miss_failure_message(&name);
                fail_resolution::<T>(message.as_str())
            },
        }
    }

    /// The registered identities, one string per direct registration.
    pub fn registered_type_names(&self) -> (result: Vec<String>)
        requires
            self.wf(),
        ensures
            string_views(result@).no_duplicates(),
            string_views(result@).to_set() == self.registrations().dom(),
    {
        self.registered_types.keys()
    }

    /// The sorted listing of registered identities, one `- name` line each.
    pub fn pretty_print_registered_types(&self) -> (result: String)
        requires
            self.wf(),
        ensures
            exists|names: Seq<Seq<char>>|
                {
                    &&& names.no_duplicates()
                    &&& sorted_by(names, lex_leq())
                    &&& names.to_set() == self.registrations().dom()
                    &&& result@ == #[trigger] rendered(names)
                },
    {
        let raw = self.registered_type_names();
        let ghost raw_views = string_views(raw@);
        let names = sort_names(raw);
        let ghost views = string_views(names@);
        let n = names.len();
        let mut result = String::new();
        let mut i: usize = 0;
        proof {
            assert(views.take(0) =~= Seq::<Seq<char>>::empty());
        }
        while i < n
            invariant
                n == names@.len(),
                i <= n,
                result@ == rendered(string_views(names@).take(i as int)),
            decreases n - i,
        {
            result.append("- ");
            result.append(names[i].as_str());
            result.append("\n");
            proof {
                let views = string_views(names@);
                assert(views.take(i + 1).drop_last() =~= views.take(i as int));
                assert(views.take(i + 1).last() == names@[i as int]@);
                assert(result@ =~= rendered(views.take(i as int)) + crate::diagnostics::line_for(
                    names@[i as int]@,
                ));
            }
            i = i + 1;
        }
        proof {
            assert(views.take(n as int) =~= views);
            crate::diagnostics::lemma_same_multiset_same_set(raw_views, views);
            assert(result@ == rendered(views));
        }
        result
    }

    /// The help text of the resolution-failure diagnostic: the plain note
    /// when the container is empty, else the sorted listing of every
    /// registered identity plus the producer-factory note.
    pub fn resolution_failure_help(&self) -> (result: String)
        requires
            self.wf(),
        ensures
            help_text_matches(self.registrations().dom(), result@),
    {
        if self.registered_types.is_empty() {
            String::from_str("No registered types were found.")
        } else {
            let mut result = String::from_str("The following registered types were found.\n");
            let listing = self.pretty_print_registered_types();
            result.append(listing.as_str());
            result.append(
                "In addition, the following factories were generated for each type `T`.\n- std::boxed::Box<dyn Fn() -> T>",
            );
            proof {
                let names = choose|names: Seq<Seq<char>>|
                    {
                        &&& names.no_duplicates()
                        &&& sorted_by(names, lex_leq())
                        &&& names.to_set() == self.registrations().dom()
                        &&& listing@ == #[trigger] rendered(names)
                    };
                assert(result@ =~= crate::diagnostics::help_with_listing(names));
            }
            result
        }
    }

    /// The full diagnostic of a failed `resolve`, for the given type name.
    fn miss_failure_message(&self, requested: &String) -> (result: String)
        requires
            self.wf(),
        ensures
            exists|help: Seq<char>|
                #[trigger] help_text_matches(self.registrations().dom(), help) && result@
                    == miss_message(requested@, help),
    {
        let mut result = String::from_str("Wonderbox failed to resolve the type `");
        result.append(requested.as_str());
        result.append("`.\nHelp: ");
        let help = self.resolution_failure_help();
        result.append(help.as_str());
        proof {
            assert(result@ =~= miss_message(requested@, help@));
        }
        result
    }

    /// The full diagnostic of an internal-consistency violation, for the
    /// given type name.
    fn mismatch_failure_message(&self, requested: &String) -> (result: String)
        requires
            self.wf(),
        ensures
            exists|help: Seq<char>|
                #[trigger] help_text_matches(self.registrations().dom(), help) && result@
                    == mismatch_message(requested@, help),
    {
        let mut result = String::from_str("Internal error: the factory stored for the type `");
        result.append(requested.as_str());
        result.append("` does not produce it.\nHelp: ");
        let help = self.resolution_failure_help();
        result.append(help.as_str());
        proof {
            assert(result@ =~= mismatch_message(requested@, help@));
        }
        result
    }
}

impl Default for Container {
    /// Creates a new empty container.
    fn default() -> (result: Container)
        ensures
            result.wf(),
            result.registrations() == Map::<Seq<char>, ErasedFactory>::empty(),
            result.deferred() == Map::<Seq<char>, ErasedFactory>::empty(),
    {
        Container::new()
    }
}

} // verus!
