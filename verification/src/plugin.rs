use vstd::prelude::*;

verus! {

/// What every loaded object offers to the host: a name and two lifecycle hooks.
///
/// The hooks return nothing. A plugin that fails in one of them has to report
/// that on a channel of its own.
pub trait Plugin {
    /// A stable, human-readable identifier. Has no side effects and may be
    /// called any number of times.
    fn name(&self) -> String;

    /// Fired once, right after the plugin was constructed and before the load
    /// that brought it reports success.
    fn on_plugin_load(&self);

    /// Fired once, before the plugin is destroyed.
    fn on_plugin_unload(&self);
}

/// A boxed plugin is a plugin: every call goes on to the object in the box.
/// This is what lets one registry hold plugins of many types, as
/// `Box<dyn Plugin>`.
impl<T: Plugin + ?Sized> Plugin for Box<T> {
    fn name(&self) -> (name: String)
        ensures
            call_ensures(T::name, (&**self,), name),
    {
        let name_of = T::name;
        name_of(&**self)
    }

    fn on_plugin_load(&self)
        ensures
            call_ensures(T::on_plugin_load, (&**self,), ()),
    {
        let load_hook = T::on_plugin_load;
        load_hook(&**self)
    }

    fn on_plugin_unload(&self)
        ensures
            call_ensures(T::on_plugin_unload, (&**self,), ()),
    {
        let unload_hook = T::on_plugin_unload;
        unload_hook(&**self)
    }
}

} // verus!
