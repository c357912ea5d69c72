use vstd::prelude::*;
use crate::errors::{ErrorKind, PluginError};
use crate::loader::{Created, Opened};
use libloading::Library;

verus! {

/// One lifecycle action that a registry has performed.
pub enum Event<T> {
    /// `on_plugin_load` was fired on this plugin.
    Loaded(T),
    /// `on_plugin_unload` was fired on this plugin, which was then destroyed.
    Unloaded(T),
    /// This library was let go of, which unmaps it.
    Released(Library),
}

/// The registry as contracts see it.
#[verifier::ext_equal]
pub struct RegistryView<T> {
    /// The live plugins, in load order.
    pub plugins: Seq<T>,
    /// The mapped libraries, in load order.
    pub libraries: Seq<Library>,
    /// For each live plugin, the position in `libraries` of the library whose
    /// factory constructed it.
    pub origins: Seq<int>,
    /// Every hook firing and every release so far, oldest first.
    pub history: Seq<Event<T>>,
}

/// The unload hooks of a teardown: one firing for every plugin, in load order.
pub open spec fn hook_trace<T>(plugins: Seq<T>) -> Seq<Event<T>> {
    Seq::new(plugins.len(), |i: int| Event::Unloaded(plugins[i]))
}

/// The releases of a teardown: one for every library, in load order.
pub open spec fn release_trace<T>(libraries: Seq<Library>) -> Seq<Event<T>> {
    Seq::new(libraries.len(), |j: int| Event::Released(libraries[j]))
}

/// The actions of a teardown, in the order in which they happen: first every
/// unload hook, then every release.
pub open spec fn teardown_trace<T>(plugins: Seq<T>, libraries: Seq<Library>) -> Seq<Event<T>> {
    hook_trace(plugins) + release_trace(libraries)
}

impl<T> RegistryView<T> {
    /// The registry that holds nothing and has done nothing.
    pub open spec fn empty() -> RegistryView<T> {
        RegistryView {
            plugins: Seq::empty(),
            libraries: Seq::empty(),
            origins: Seq::empty(),
            history: Seq::empty(),
        }
    }

    /// Whether nothing is held, so that a teardown has nothing to do.
    pub open spec fn is_idle(self) -> bool {
        self.plugins.len() == 0 && self.libraries.len() == 0
    }

    /// Lifetime coupling: the library that each live plugin came out of is
    /// still held, and therefore still mapped.
    pub open spec fn coupled(self) -> bool {
        &&& self.origins.len() == self.plugins.len()
        &&& forall|i: int|
            0 <= i < self.origins.len() ==> 0 <= #[trigger] self.origins[i] < self.libraries.len()
    }

    /// The registry after the loader has answered: a mapped library is stored
    /// behind the others, a failure changes nothing.
    pub open spec fn admit_library(self, opened: Opened) -> RegistryView<T> {
        match opened {
            Ok(library) => RegistryView { libraries: self.libraries.push(library), ..self },
            Err(_) => self,
        }
    }

    /// The registry after the factory lookup on its newest library has
    /// answered: a fresh plugin has its load hook fired and is stored behind
    /// the others, a failure changes nothing.
    pub open spec fn admit_plugin(self, created: Created<T>) -> RegistryView<T> {
        match created {
            Ok(plugin) => RegistryView {
                plugins: self.plugins.push(plugin),
                origins: self.origins.push(self.libraries.len() - 1),
                history: self.history.push(Event::Loaded(plugin)),
                ..self
            },
            Err(_) => self,
        }
    }

    /// The registry after a teardown: nothing is held, and the history has
    /// grown by the teardown's actions.
    pub open spec fn unload(self) -> RegistryView<T> {
        RegistryView {
            plugins: Seq::empty(),
            libraries: Seq::empty(),
            origins: Seq::empty(),
            history: self.history + teardown_trace(self.plugins, self.libraries),
        }
    }

    /// The registry after it was discarded: torn down if it still held
    /// anything, untouched if not.
    pub open spec fn teardown(self) -> RegistryView<T> {
        if self.is_idle() {
            self
        } else {
            self.unload()
        }
    }
}

/// What a load reports once the loader has answered.
pub open spec fn library_verdict(opened: Opened) -> Result<(), PluginError> {
    match opened {
        Ok(_) => Ok(()),
        Err(cause) => Err(PluginError { kind: ErrorKind::Load, cause }),
    }
}

/// What a load reports once the factory lookup has answered.
pub open spec fn plugin_verdict<T>(created: Created<T>) -> Result<(), PluginError> {
    match created {
        Ok(_) => Ok(()),
        Err(cause) => Err(PluginError { kind: ErrorKind::SymbolResolution, cause }),
    }
}

/// A load that succeeds adds exactly one plugin and exactly one library, each
/// behind those that were there, and keeps the coupling.
pub proof fn successful_load_grows_both_by_one<T>(
    before: RegistryView<T>,
    library: Library,
    plugin: T,
)
    ensures
        ({
            let after = before.admit_library(Ok(library)).admit_plugin(Ok(plugin));
            &&& after.plugins == before.plugins.push(plugin)
            &&& after.libraries == before.libraries.push(library)
            &&& after.plugins.len() == before.plugins.len() + 1
            &&& after.libraries.len() == before.libraries.len() + 1
            &&& after.history == before.history.push(Event::Loaded(plugin))
            &&& before.coupled() ==> after.coupled()
        }),
{
}

/// A load whose file cannot be mapped reports a load error and leaves the
/// registry exactly as it was.
pub proof fn failed_open_changes_nothing<T>(before: RegistryView<T>, cause: libloading::Error)
    ensures
        before.admit_library(Err(cause)) == before,
        library_verdict(Err(cause)) == Err::<(), PluginError>(
            PluginError { kind: ErrorKind::Load, cause },
        ),
{
}

/// A load whose library lacks the factory reports a symbol resolution error
/// and keeps the library: the library count grows by one, the plugins and the
/// history stay as they were.
pub proof fn failed_lookup_keeps_the_library<T>(
    before: RegistryView<T>,
    library: Library,
    cause: libloading::Error,
)
    ensures
        ({
            let after = before.admit_library(Ok(library)).admit_plugin(Err(cause));
            &&& after.libraries == before.libraries.push(library)
            &&& after.libraries.len() == before.libraries.len() + 1
            &&& after.plugins == before.plugins
            &&& after.origins == before.origins
            &&& after.history == before.history
            &&& before.coupled() ==> after.coupled()
        }),
        plugin_verdict::<T>(Err(cause)) == Err::<(), PluginError>(
            PluginError { kind: ErrorKind::SymbolResolution, cause },
        ),
{
}

/// A teardown fires the unload hook on every plugin, in load order, and then
/// releases every library, in load order: every hook firing comes before
/// every release.
pub proof fn teardown_fires_every_hook_before_any_release<T>(
    plugins: Seq<T>,
    libraries: Seq<Library>,
)
    ensures
        ({
            let trace = teardown_trace(plugins, libraries);
            &&& trace.len() == plugins.len() + libraries.len()
            &&& forall|i: int|
                0 <= i < plugins.len() ==> #[trigger] trace[i] == Event::Unloaded(plugins[i])
            &&& forall|j: int|
                0 <= j < libraries.len() ==> #[trigger] trace[plugins.len() + j]
                    == Event::<T>::Released(libraries[j])
            &&& forall|a: int, b: int|
                0 <= a < trace.len() && 0 <= b < trace.len() && #[trigger] trace[a] is Unloaded
                    && #[trigger] trace[b] is Released ==> a < b
        }),
{
}

/// Tearing down twice is tearing down once: the second teardown finds
/// nothing, fires no hook, releases nothing, and leaves both sequences empty.
pub proof fn unload_is_idempotent<T>(before: RegistryView<T>)
    ensures
        teardown_trace(before.unload().plugins, before.unload().libraries) == Seq::<
            Event<T>,
        >::empty(),
        before.unload().unload() == before.unload(),
        before.unload().is_idle(),
{
    let once = before.unload();
    assert(teardown_trace(once.plugins, once.libraries) =~= Seq::<Event<T>>::empty());
    assert(once.unload() =~= once);
}

/// On a registry that holds nothing, a teardown is a no-op.
pub proof fn unload_of_nothing_changes_nothing<T>(before: RegistryView<T>)
    requires
        before.is_idle(),
        before.coupled(),
    ensures
        before.unload() == before,
{
    assert(teardown_trace(before.plugins, before.libraries) =~= Seq::<Event<T>>::empty());
    assert(before.unload() =~= before);
}

/// Discarding a registry that still holds a plugin or a library runs the very
/// teardown that an explicit unload runs: the same hooks in the same order,
/// then the same releases. Discarding one that holds nothing does nothing, as
/// an unload of it would.
pub proof fn teardown_is_unload<T>(before: RegistryView<T>)
    ensures
        !before.is_idle() ==> before.teardown() == before.unload(),
        before.is_idle() && before.coupled() ==> before.teardown() == before.unload(),
        before.teardown().history == before.history + teardown_trace(
            before.plugins,
            before.libraries,
        ),
{
    if before.is_idle() {
        assert(teardown_trace(before.plugins, before.libraries) =~= Seq::<Event<T>>::empty());
        assert(before.history + teardown_trace(before.plugins, before.libraries)
            =~= before.history);
        if before.coupled() {
            unload_of_nothing_changes_nothing(before);
        }
    }
}

/// From the empty registry, loads and teardowns only ever reach registries in
/// which every live plugin's library is still held.
pub proof fn coupling_is_kept<T>(before: RegistryView<T>, opened: Opened, created: Created<T>)
    requires
        before.coupled(),
    ensures
        RegistryView::<T>::empty().coupled(),
        before.admit_library(opened).coupled(),
        opened is Ok ==> before.admit_library(opened).admit_plugin(created).coupled(),
        before.unload().coupled(),
        before.teardown().coupled(),
{
}

} // verus!
