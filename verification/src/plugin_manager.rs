use vstd::prelude::*;
use crate::discovery::{
    in_load_order, is_plugin_file, load_order, plugin_file, plugin_file_count,
    plugin_file_count_of_a_rearrangement,
};
use crate::errors::{ErrorKind, PluginError};
use crate::lifecycle::{
    hook_trace, library_verdict, plugin_verdict, release_trace, teardown_is_unload,
    teardown_trace, Event, RegistryView,
};
use crate::loader::{Created, Opened};
use crate::plugin::Plugin;
use libloading::Library;

verus! {

/// Whether a load of `filename` that starts on `before` may end in `after`
/// with `verdict`, given what `open` and `create` can answer:
///
/// - success: `open` mapped a library and `create` made a plugin from it; the
///   plugin's load hook was called and returned, and both are stored behind
///   the others;
/// - a load error: `open` failed with the error's cause; nothing changed;
/// - a symbol resolution error: `open` mapped a library, which is stored, and
///   `create` failed on it with the error's cause; nothing else changed.
pub open spec fn load_outcome<T: Plugin, P, O: Fn(P) -> Opened, C: Fn(&Library) -> Created<T>>(
    before: RegistryView<T>,
    filename: P,
    open: &O,
    create: &C,
    after: RegistryView<T>,
    verdict: Result<(), PluginError>,
) -> bool {
    match verdict {
        Ok(()) => {
            let library = after.libraries.last();
            let plugin = after.plugins.last();
            &&& open.ensures((filename,), Ok(library))
            &&& create.ensures((&library,), Ok(plugin))
            &&& call_ensures(T::on_plugin_load, (&plugin,), ())
            &&& after == before.admit_library(Ok(library)).admit_plugin(Ok(plugin))
        },
        Err(error) => match error.kind {
            ErrorKind::Load => {
                &&& open.ensures((filename,), Err(error.cause))
                &&& after == before
            },
            ErrorKind::SymbolResolution => {
                let library = after.libraries.last();
                &&& open.ensures((filename,), Ok(library))
                &&& create.ensures((&library,), Err(error.cause))
                &&& after == before.admit_library(Ok(library))
            },
        },
    }
}

/// Whether `after` is what `before` becomes when every plugin library among
/// `entries` is loaded, one after the other in the order of `entries`, and
/// every one of these loads succeeds.
pub open spec fn all_loaded<T: Plugin, O: Fn(&String) -> Opened, C: Fn(&Library) -> Created<T>>(
    before: RegistryView<T>,
    entries: Seq<String>,
    extension: Seq<char>,
    open: &O,
    create: &C,
    after: RegistryView<T>,
) -> bool
    decreases entries.len(),
{
    if entries.len() == 0 {
        after == before
    } else if !plugin_file(entries.last()@, extension) {
        all_loaded(before, entries.drop_last(), extension, open, create, after)
    } else {
        exists|between: RegistryView<T>|
            {
                &&& all_loaded(before, entries.drop_last(), extension, open, create, between)
                &&& #[trigger] load_outcome(
                    between,
                    &entries.last(),
                    open,
                    create,
                    after,
                    Ok(()),
                )
            }
    }
}

/// Whether a batch over these entries may call `open` and `create` as it
/// needs to: `open` on every entry that is a plugin library, and `create` on
/// every library that `open` can give for such an entry.
pub open spec fn batch_may_run<T: Plugin, O: Fn(&String) -> Opened, C: Fn(&Library) -> Created<T>>(
    entries: Seq<String>,
    extension: Seq<char>,
    open: &O,
    create: &C,
) -> bool {
    &&& forall|name: String|
        entries.contains(name) && plugin_file(name@, extension) ==> #[trigger] open.requires(
            (&name,),
        )
    &&& forall|name: String, library: Library|
        entries.contains(name) && plugin_file(name@, extension) && #[trigger] open.ensures(
            (&name,),
            Ok(library),
        ) ==> create.requires((&library,))
}

/// Whether a batch over `listing` that starts on `before` may end in `after`
/// with `verdict`: either every plugin library of the listing was loaded, or
/// those in front of the first that failed were, and that one's failure is the
/// verdict.
pub open spec fn batch_outcome<T: Plugin, O: Fn(&String) -> Opened, C: Fn(&Library) -> Created<T>>(
    before: RegistryView<T>,
    listing: Seq<String>,
    extension: Seq<char>,
    open: &O,
    create: &C,
    after: RegistryView<T>,
    verdict: Result<(), PluginError>,
) -> bool {
    match verdict {
        Ok(()) => all_loaded(before, listing, extension, open, create, after),
        Err(_) => exists|failed: int, between: RegistryView<T>|
            {
                &&& 0 <= failed < listing.len()
                &&& plugin_file(listing[failed]@, extension)
                &&& all_loaded(before, listing.take(failed), extension, open, create, between)
                &&& #[trigger] load_outcome(
                    between,
                    &listing[failed],
                    open,
                    create,
                    after,
                    verdict,
                )
            },
    }
}

/// A batch in which every load succeeds adds one plugin and one library for
/// each plugin library among the entries, behind those that were there, and
/// keeps the coupling.
pub proof fn all_loaded_grows_by_the_plugin_files<
    T: Plugin,
    O: Fn(&String) -> Opened,
    C: Fn(&Library) -> Created<T>,
>(
    before: RegistryView<T>,
    entries: Seq<String>,
    extension: Seq<char>,
    open: &O,
    create: &C,
    after: RegistryView<T>,
)
    requires
        all_loaded(before, entries, extension, open, create, after),
    ensures
        after.plugins.len() == before.plugins.len() + plugin_file_count(entries, extension),
        after.libraries.len() == before.libraries.len() + plugin_file_count(entries, extension),
        after.plugins.take(before.plugins.len() as int) == before.plugins,
        after.libraries.take(before.libraries.len() as int) == before.libraries,
        before.coupled() ==> after.coupled(),
    decreases entries.len(),
{
    if entries.len() == 0 {
        assert(after.plugins.take(before.plugins.len() as int) =~= before.plugins);
        assert(after.libraries.take(before.libraries.len() as int) =~= before.libraries);
    } else if !plugin_file(entries.last()@, extension) {
        all_loaded_grows_by_the_plugin_files(
            before,
            entries.drop_last(),
            extension,
            open,
            create,
            after,
        );
    } else {
        let between = choose|between: RegistryView<T>|
            {
                &&& all_loaded(before, entries.drop_last(), extension, open, create, between)
                &&& #[trigger] load_outcome(
                    between,
                    &entries.last(),
                    open,
                    create,
                    after,
                    Ok(()),
                )
            };
        all_loaded_grows_by_the_plugin_files(
            before,
            entries.drop_last(),
            extension,
            open,
            create,
            between,
        );
        assert(after.plugins.take(before.plugins.len() as int) =~= between.plugins.take(
            before.plugins.len() as int,
        ));
        assert(after.libraries.take(before.libraries.len() as int) =~= between.libraries.take(
            before.libraries.len() as int,
        ));
    }
}

/// Owns the loaded plugins and the libraries that hold their code, and calls
/// the lifecycle hooks at the right moments.
///
/// A plugin's code and dispatch table lie inside the library that constructed
/// it, so a library has to stay mapped for as long as any plugin out of it is
/// alive. The registry therefore never lets go of a single library: both
/// sequences shrink only in [`PluginManager::unload`], which destroys every
/// plugin before it releases the first library.
///
/// `T` is what the registry stores for a plugin; a host that loads plugins of
/// many types stores `Box<dyn Plugin>`.
///
/// The registry has no destructor of its own. When it is dropped as it
/// stands, its plugins are destroyed before its libraries are unmapped, but no
/// unload hook is fired: whoever owns a registry calls
/// [`PluginManager::teardown`] from its destructor.
///
/// The fields are public so that a host can build on the registry, for example
/// to call further functions on every plugin.
pub struct PluginManager<T> {
    /// The live plugins, in load order.
    pub plugins: Vec<T>,
    /// The mapped libraries, in load order.
    pub loaded_libraries: Vec<Library>,
    /// For each live plugin, the position of the library that it came out of.
    pub origins: Ghost<Seq<int>>,
    /// Every hook firing and every release so far, oldest first.
    pub history: Ghost<Seq<Event<T>>>,
}

impl<T> View for PluginManager<T> {
    type V = RegistryView<T>;

    open spec fn view(&self) -> RegistryView<T> {
        RegistryView {
            plugins: self.plugins@,
            libraries: self.loaded_libraries@,
            origins: self.origins@,
            history: self.history@,
        }
    }
}

impl<T: Plugin> PluginManager<T> {
    /// A registry that holds nothing.
    pub fn new() -> (manager: Self)
        ensures
            manager@ == RegistryView::<T>::empty(),
            manager@.coupled(),
    {
        PluginManager {
            plugins: Vec::new(),
            loaded_libraries: Vec::new(),
            origins: Ghost(Seq::empty()),
            history: Ghost(Seq::empty()),
        }
    }

    /// Takes the loader's answer for a path. A mapped library is stored before
    /// anything else is done with it; a failure is reported as a load error
    /// and leaves the registry as it was.
    pub fn admit_library(&mut self, opened: Opened) -> (verdict: Result<(), PluginError>)
        ensures
            final(self)@ == old(self)@.admit_library(opened),
            verdict == library_verdict(opened),
            old(self)@.coupled() ==> final(self)@.coupled(),
    {
        match opened {
            Ok(library) => {
                self.loaded_libraries.push(library);
                Ok(())
            },
            Err(cause) => Err(PluginError::new(ErrorKind::Load, cause)),
        }
    }

    /// Takes the answer of the factory lookup on the newest stored library. A
    /// fresh plugin becomes the registry's own: its load hook is fired, then
    /// it is stored. A failure is reported as a symbol resolution error; the
    /// library that was looked into stays registered.
    pub fn admit_plugin(&mut self, created: Created<T>) -> (verdict: Result<(), PluginError>)
        ensures
            final(self)@ == old(self)@.admit_plugin(created),
            verdict == plugin_verdict(created),
            created matches Ok(plugin) ==> call_ensures(T::on_plugin_load, (&plugin,), ()),
            old(self)@.coupled() && old(self)@.libraries.len() > 0 ==> final(self)@.coupled(),
    {
        match created {
            Ok(plugin) => {
                let load_hook = T::on_plugin_load;
                load_hook(&plugin);
                proof {
                    self.origins = Ghost(self.origins@.push(self.loaded_libraries@.len() - 1));
                    self.history = Ghost(self.history@.push(Event::Loaded(plugin)));
                }
                self.plugins.push(plugin);
                Ok(())
            },
            Err(cause) => Err(PluginError::new(ErrorKind::SymbolResolution, cause)),
        }
    }

    /// Loads one plugin from the dynamic library at `filename`.
    ///
    /// Mapping a file and calling into it cannot be done in safe code, so the
    /// host supplies both steps: `open` maps the file, and `create` resolves
    /// the factory named by [`factory_symbol`] in the library it is lent,
    /// calls it, and takes ownership of the plugin that the factory made.
    /// The registry decides when each is called and what is kept:
    ///
    /// 1. `open` is called with `filename`. If it fails, the load fails with
    ///    [`ErrorKind::Load`] and the registry is unchanged.
    /// 2. The library is stored, and `create` is lent the stored handle. If it
    ///    fails, the load fails with [`ErrorKind::SymbolResolution`]; the
    ///    library stays registered.
    /// 3. The plugin's load hook is fired, the plugin is stored, and the load
    ///    succeeds.
    pub fn load_plugin<P, O, C>(&mut self, filename: P, open: &O, create: &C) -> (verdict: Result<
        (),
        PluginError,
    >) where O: Fn(P) -> Opened, C: Fn(&Library) -> Created<T>
        requires
            open.requires((filename,)),
            forall|library: Library| #[trigger]
                open.ensures((filename,), Ok(library)) ==> create.requires((&library,)),
        ensures
            load_outcome(old(self)@, filename, open, create, final(self)@, verdict),
            verdict is Ok ==> {
                &&& final(self)@.plugins.len() == old(self)@.plugins.len() + 1
                &&& final(self)@.libraries.len() == old(self)@.libraries.len() + 1
                &&& call_ensures(T::on_plugin_load, (&final(self)@.plugins.last(),), ())
            },
            verdict matches Err(error) && error.kind == ErrorKind::Load ==> final(self)@ == old(
                self,
            )@,
            verdict matches Err(error) && error.kind == ErrorKind::SymbolResolution ==> {
                &&& final(self)@.plugins == old(self)@.plugins
                &&& final(self)@.libraries.len() == old(self)@.libraries.len() + 1
            },
            old(self)@.coupled() ==> final(self)@.coupled(),
    {
        let opened = open(filename);
        match self.admit_library(opened) {
            Err(error) => {
                return Err(error);
            },
            Ok(()) => {},
        }
        let newest = self.loaded_libraries.len() - 1;
        let created = create(&self.loaded_libraries[newest]);
        self.admit_plugin(created)
    }

    /// Loads every plugin library of a directory.
    ///
    /// `entries` are the names under which the host found the directory's
    /// files, each in the form that `open` takes, and `extension` is what a
    /// dynamic library's name ends in on this platform. The entries are put
    /// into lexicographic order, so that the plugins of a directory are loaded
    /// in the same order on every run, and then loaded as
    /// [`PluginManager::load_in_order`] does: entries that are no plugin
    /// libraries are passed over, and the first load that fails ends the
    /// batch.
    pub fn load_plugins<O, C>(
        &mut self,
        entries: Vec<String>,
        extension: &str,
        open: &O,
        create: &C,
    ) -> (verdict: Result<(), PluginError>) where
        O: Fn(&String) -> Opened,
        C: Fn(&Library) -> Created<T>,

        requires
            batch_may_run(entries@, extension@, open, create),
        ensures
            exists|listing: Seq<String>|
                {
                    &&& #[trigger] load_order(entries@, listing)
                    &&& batch_outcome(
                        old(self)@,
                        listing,
                        extension@,
                        open,
                        create,
                        final(self)@,
                        verdict,
                    )
                },
            verdict is Ok ==> {
                &&& final(self)@.plugins.len() == old(self)@.plugins.len() + plugin_file_count(
                    entries@,
                    extension@,
                )
                &&& final(self)@.libraries.len() == old(self)@.libraries.len()
                    + plugin_file_count(entries@, extension@)
            },
            old(self)@.coupled() ==> final(self)@.coupled(),
    {
        let listing = in_load_order(entries);
        proof {
            plugin_file_count_of_a_rearrangement(entries@, listing@, extension@);
            assert forall|name: String| listing@.contains(name) implies entries@.contains(
                name,
            ) by {
                vstd::seq_lib::to_multiset_contains(listing@, name);
                vstd::seq_lib::to_multiset_contains(entries@, name);
            }
        }
        self.load_in_order(&listing, extension, open, create)
    }

    /// Loads the plugin libraries among `listing`, one after the other in the
    /// order of the listing.
    ///
    /// Each entry that [`is_plugin_file`] accepts is loaded with
    /// [`PluginManager::load_plugin`]; the others are passed over. The first
    /// load that fails ends the batch: its error is returned, the plugins
    /// loaded before it stay loaded, and the entries after it are not looked
    /// at.
    pub fn load_in_order<O, C>(
        &mut self,
        listing: &Vec<String>,
        extension: &str,
        open: &O,
        create: &C,
    ) -> (verdict: Result<(), PluginError>) where
        O: Fn(&String) -> Opened,
        C: Fn(&Library) -> Created<T>,

        requires
            batch_may_run(listing@, extension@, open, create),
        ensures
            batch_outcome(
                old(self)@,
                listing@,
                extension@,
                open,
                create,
                final(self)@,
                verdict,
            ),
            verdict is Ok ==> {
                &&& final(self)@.plugins.len() == old(self)@.plugins.len() + plugin_file_count(
                    listing@,
                    extension@,
                )
                &&& final(self)@.libraries.len() == old(self)@.libraries.len()
                    + plugin_file_count(listing@, extension@)
            },
            old(self)@.coupled() ==> final(self)@.coupled(),
    {
        let mut seen: usize = 0;
        while seen < listing.len()
            invariant
                0 <= seen <= listing@.len(),
                batch_may_run(listing@, extension@, open, create),
                all_loaded(old(self)@, listing@.take(seen as int), extension@, open, create, self@),
                old(self)@.coupled() ==> self@.coupled(),
            decreases listing@.len() - seen,
        {
            let ghost between = self@;
            proof {
                assert(listing@.take(seen + 1).drop_last() =~= listing@.take(seen as int));
                assert(listing@.take(seen + 1).last() == listing@[seen as int]);
            }
            if is_plugin_file(listing[seen].as_str(), extension) {
                assert(listing@.contains(listing@[seen as int]));
                match self.load_plugin(&listing[seen], open, create) {
                    Err(error) => {
                        return Err(error);
                    },
                    Ok(()) => {},
                }
                assert(load_outcome(between, &listing@[seen as int], open, create, self@, Ok(())));
            }
            seen = seen + 1;
        }
        proof {
            assert(listing@.take(seen as int) =~= listing@);
            all_loaded_grows_by_the_plugin_files(
                old(self)@,
                listing@,
                extension@,
                open,
                create,
                self@,
            );
        }
        Ok(())
    }

    /// Unloads every plugin and then every library.
    ///
    /// First each plugin, in load order, is taken out of the registry, has its
    /// unload hook fired, and is destroyed. Only when no plugin is left is each
    /// library, in load order, taken out and released. On a registry that
    /// holds nothing this does nothing.
    pub fn unload(&mut self)
        ensures
            final(self)@ == old(self)@.unload(),
            forall|i: int|
                0 <= i < old(self)@.plugins.len() ==> call_ensures(
                    T::on_plugin_unload,
                    (&#[trigger] old(self)@.plugins[i],),
                    (),
                ),
            final(self)@.coupled(),
    {
        let ghost plugins = self.plugins@;
        let ghost libraries = self.loaded_libraries@;
        let ghost earlier = self.history@;
        let mut fired: usize = 0;
        let count = self.plugins.len();
        while fired < count
            invariant
                0 <= fired <= count == plugins.len(),
                self.plugins@ =~= plugins.skip(fired as int),
                self.loaded_libraries@ == libraries,
                self.history@ =~= earlier + hook_trace(plugins.take(fired as int)),
                forall|i: int|
                    0 <= i < fired ==> call_ensures(
                        T::on_plugin_unload,
                        (&#[trigger] plugins[i],),
                        (),
                    ),
            decreases count - fired,
        {
            let plugin = self.plugins.remove(0);
            let unload_hook = T::on_plugin_unload;
            unload_hook(&plugin);
            proof {
                self.history = Ghost(self.history@.push(Event::Unloaded(plugin)));
                assert(hook_trace(plugins.take(fired + 1)) =~= hook_trace(
                    plugins.take(fired as int),
                ).push(Event::Unloaded(plugins[fired as int])));
            }
            fired = fired + 1;
        }
        proof {
            self.origins = Ghost(Seq::empty());
            assert(plugins.take(fired as int) =~= plugins);
        }
        let mut released: usize = 0;
        let held = self.loaded_libraries.len();
        while released < held
            invariant
                0 <= released <= held == libraries.len(),
                self.plugins@ =~= Seq::<T>::empty(),
                self.origins@ == Seq::<int>::empty(),
                self.loaded_libraries@ =~= libraries.skip(released as int),
                self.history@ =~= earlier + hook_trace(plugins) + release_trace(
                    libraries.take(released as int),
                ),
            decreases held - released,
        {
            let library = self.loaded_libraries.remove(0);
            proof {
                self.history = Ghost(self.history@.push(Event::Released(library)));
                assert(release_trace::<T>(libraries.take(released + 1)) =~= release_trace::<T>(
                    libraries.take(released as int),
                ).push(Event::Released(libraries[released as int])));
            }
            released = released + 1;
        }
        proof {
            assert(libraries.take(released as int) =~= libraries);
            assert(self.history@ =~= earlier + teardown_trace(plugins, libraries));
            assert(self@ =~= old(self)@.unload());
        }
    }

    /// What has to run when the registry is discarded: if it still holds a
    /// plugin or a library, the teardown of [`PluginManager::unload`], so that
    /// every unload hook is fired before a library is unmapped however the
    /// registry's life ends. An owner calls this from its destructor.
    pub fn teardown(&mut self)
        ensures
            final(self)@ == old(self)@.teardown(),
            !old(self)@.is_idle() || old(self)@.coupled() ==> final(self)@ == old(self)@.unload(),
            final(self)@.history == old(self)@.history + teardown_trace(
                old(self)@.plugins,
                old(self)@.libraries,
            ),
            forall|i: int|
                0 <= i < old(self)@.plugins.len() ==> call_ensures(
                    T::on_plugin_unload,
                    (&#[trigger] old(self)@.plugins[i],),
                    (),
                ),
            old(self)@.coupled() ==> final(self)@.coupled(),
    {
        if self.plugins.len() > 0 || self.loaded_libraries.len() > 0 {
            self.unload();
        }
        proof {
            teardown_is_unload(old(self)@);
        }
    }
}

} // verus!
