//! The plugin system: hooks that plugins provide and that are called, in the
//! order of registration, before and after a build and when a package is made.

use vstd::prelude::*;
use vstd::string::*;
use crate::env_manager::{Binding, bindings_of, distinct_vars, var_slot, with_var, law_set_then_value};
use crate::error::ForgeKitError;
use crate::text::same_text;

verus! {

/// Build context passed to plugins
#[derive(Debug, Clone)]
pub struct BuildContext {
    pub project_path: String,
    pub target: String,
}

/// Package context passed to plugins
#[derive(Debug, Clone)]
pub struct PackageContext {
    pub project_path: String,
    pub output_path: String,
}

/// What every plugin provides. What it answers and what its hooks do, and
/// whether they succeed, is up to the plugin. A hook that a plugin does not
/// provide does nothing and succeeds.
pub trait Plugin: Send + Sync {
    /// Get plugin name
    fn name(&self) -> (r: &str);

    /// Get plugin version
    fn version(&self) -> (r: &str);

    /// Called before build starts
    fn on_pre_build(&self, _context: &BuildContext) -> (r: Result<(), ForgeKitError>)
        default_ensures
            r is Ok,
    {
        Ok(())
    }

    /// Called after build completes
    fn on_post_build(&self, _context: &BuildContext) -> (r: Result<(), ForgeKitError>)
        default_ensures
            r is Ok,
    {
        Ok(())
    }

    /// Called during packaging
    fn on_package(&self, _context: &PackageContext) -> (r: Result<(), ForgeKitError>)
        default_ensures
            r is Ok,
    {
        Ok(())
    }
}

/// One registered plugin.
struct Registered {
    plugin: Box<dyn Plugin>,
}

/// Keeps the registered plugins and calls their hooks.
pub struct PluginManager {
    plugins: Vec<Registered>,
    registry: Vec<(String, String)>,
}

impl PluginManager {
    /// The number of registered plugins.
    pub closed spec fn count(&self) -> nat {
        self.plugins@.len()
    }

    /// The names of the registered plugins with the version last registered
    /// under each name, in the order in which the names first came.
    pub closed spec fn listed(&self) -> Seq<Binding> {
        bindings_of(self.registry@)
    }

    /// What every manager upholds: each name is listed once.
    pub open spec fn wf(&self) -> bool {
        distinct_vars(self.listed())
    }

    /// Create a new plugin manager
    pub fn new() -> (r: Self)
        ensures
            r.wf(),
            r.count() == 0,
            r.listed() == Seq::<Binding>::empty(),
    {
        let r = PluginManager { plugins: Vec::new(), registry: Vec::new() };
        assert(r.listed() =~= Seq::<Binding>::empty());
        r
    }

    /// Registers a plugin: its hooks are called after those of the plugins
    /// registered before it, and the name that it gives is listed with the
    /// version that it gives.
    pub fn register(&mut self, plugin: Box<dyn Plugin>)
        requires
            old(self).wf(),
        ensures
            final(self).wf(),
            final(self).count() == old(self).count() + 1,
            exists|name: Seq<char>, version: Seq<char>|
                final(self).listed() == with_var(old(self).listed(), name, version),
    {
        let name = String::from_str(plugin.name());
        let version = String::from_str(plugin.version());
        let ghost before = self.listed();
        let ghost k = name@;
        let ghost v = version@;
        let mut i: usize = 0;
        while i < self.registry.len() && !same_text(self.registry[i].0.as_str(), name.as_str())
            invariant
                i <= self.registry@.len(),
                self.listed() == before,
                self.count() == old(self).count(),
                forall|j: int| 0 <= j < i ==> before[j].0 != name@,
            decreases self.registry@.len() - i,
        {
            i += 1;
        }
        proof {
            law_set_then_value(before, k, v);
            if i < self.registry@.len() {
                assert(before[i as int].0 == k);
                let j = var_slot(before, k);
                assert(0 <= j < before.len() && before[j].0 == k);
                assert(j == i);
            }
        }
        if i < self.registry.len() {
            self.registry[i] = (name, version);
            assert(self.listed() =~= before.update(i as int, (k, v)));
        } else {
            self.registry.push((name, version));
            assert(self.listed() =~= before.push((k, v)));
        }
        assert(self.listed() == with_var(before, k, v));
        let ghost earlier = self.plugins@;
        let slot = Registered { plugin };
        proof {
            vstd::seq::axiom_seq_push_len(earlier, slot);
        }
        self.plugins.push(slot);
    }

    /// Get list of registered plugins
    pub fn list_plugins(&self) -> (r: Vec<(String, String)>)
        ensures
            bindings_of(r@) == self.listed(),
    {
        let mut out: Vec<(String, String)> = Vec::new();
        let mut i: usize = 0;
        while i < self.registry.len()
            invariant
                i <= self.registry@.len(),
                out@.len() == i,
                forall|j: int|
                    0 <= j < i ==> (#[trigger] out@[j]).0@ == self.registry@[j].0@ && out@[j].1@
                        == self.registry@[j].1@,
            decreases self.registry@.len() - i,
        {
            out.push((self.registry[i].0.clone(), self.registry[i].1.clone()));
            i += 1;
        }
        assert(bindings_of(out@) =~= self.listed());
        out
    }

    /// Calls the pre-build hook of each plugin in the order of
    /// registration, up to the first that fails; its failure is the result.
    pub fn call_pre_build(&self, context: &BuildContext) -> (r: Result<(), ForgeKitError>)
        ensures
            self.count() == 0 ==> r is Ok,
    {
        let mut i: usize = 0;
        while i < self.plugins.len()
            invariant
                i <= self.plugins@.len(),
            decreases self.plugins@.len() - i,
        {
            match self.plugins[i].plugin.on_pre_build(context) {
                Ok(_) => {},
                Err(e) => {
                    return Err(e);
                },
            }
            i += 1;
        }
        Ok(())
    }

    /// Calls the post-build hook of each plugin in the order of
    /// registration, up to the first that fails; its failure is the result.
    pub fn call_post_build(&self, context: &BuildContext) -> (r: Result<(), ForgeKitError>)
        ensures
            self.count() == 0 ==> r is Ok,
    {
        let mut i: usize = 0;
        while i < self.plugins.len()
            invariant
                i <= self.plugins@.len(),
            decreases self.plugins@.len() - i,
        {
            match self.plugins[i].plugin.on_post_build(context) {
                Ok(_) => {},
                Err(e) => {
                    return Err(e);
                },
            }
            i += 1;
        }
        Ok(())
    }

    /// Calls the package hook of each plugin in the order of registration,
    /// up to the first that fails; its failure is the result.
    pub fn call_package(&self, context: &PackageContext) -> (r: Result<(), ForgeKitError>)
        ensures
            self.count() == 0 ==> r is Ok,
    {
        let mut i: usize = 0;
        while i < self.plugins.len()
            invariant
                i <= self.plugins@.len(),
            decreases self.plugins@.len() - i,
        {
            match self.plugins[i].plugin.on_package(context) {
                Ok(_) => {},
                Err(e) => {
                    return Err(e);
                },
            }
            i += 1;
        }
        Ok(())
    }

    /// Get plugin count
    pub fn plugin_count(&self) -> (r: usize)
        ensures
            r == self.count(),
    {
        self.plugins.len()
    }
}

impl Default for PluginManager {
    fn default() -> (r: Self)
        ensures
            r.wf(),
            r.count() == 0,
            r.listed() == Seq::<Binding>::empty(),
    {
        PluginManager::new()
    }
}

/// Built-in example plugin
#[derive(Debug, Clone)]
pub struct ExamplePlugin;

impl Plugin for ExamplePlugin {
    fn name(&self) -> (r: &str)
        ensures
            r@ == "example-plugin"@,
    {
        "example-plugin"
    }

    fn version(&self) -> (r: &str)
        ensures
            r@ == "0.1.0"@,
    {
        "0.1.0"
    }

    fn on_pre_build(&self, context: &BuildContext) -> (r: Result<(), ForgeKitError>)
        ensures
            r is Ok,
    {
        Ok(())
    }

    fn on_post_build(&self, context: &BuildContext) -> (r: Result<(), ForgeKitError>)
        ensures
            r is Ok,
    {
        Ok(())
    }
}

} // verus!
