//! Plugins contributed by loaded modules: the capability every plugin offers,
//! the proxy that ties a plugin to the module it came from, the registrar a
//! module hands its plugins to, and the host's registry of all of them.
use vstd::prelude::*;
use crate::abi::{AbiVersion, LoadError, check_compatibility};
use crate::events::LakituEvents;

verus! {

/// A failure a plugin reports from its enable or disable hook; what it means
/// is the plugin's own affair.
#[derive(Debug)]
pub struct PluginError {
    pub message: String,
}

/// What the host calls on every plugin. The code of a loaded module supplies
/// the implementations; the host assumes nothing of them.
pub trait LakituPlugin {
    /// The callbacks this plugin registers against events.
    type Handler;

    fn get_name(&self) -> &str;

    fn get_version(&self) -> &str;

    fn get_author(&self) -> &str;

    fn get_description(&self) -> &str;

    fn plugin_enable(&self) -> Result<(), PluginError>;

    fn plugin_disable(&self) -> Result<(), PluginError>;

    fn register_events(&self, events: &mut LakituEvents<Self::Handler>);
}

/// A plugin together with a handle on the module that it came from. As long as
/// the proxy lives, so does the handle, and with it the module's code.
pub struct LakituPluginProxy<P, M> {
    plugin: P,
    module: M,
}

impl<P, M> LakituPluginProxy<P, M> {
    pub closed spec fn spec_plugin(&self) -> P {
        self.plugin
    }

    pub closed spec fn spec_module(&self) -> M {
        self.module
    }

    pub fn get_plugin(&self) -> (r: &P)
        ensures
            *r == self.spec_plugin(),
    {
        &self.plugin
    }

    pub fn get_module(&self) -> (r: &M)
        ensures
            *r == self.spec_module(),
    {
        &self.module
    }
}

impl<P: LakituPlugin, M> LakituPlugin for LakituPluginProxy<P, M> {
    type Handler = P::Handler;

    fn get_name(&self) -> (r: &str)
        ensures
            call_ensures(P::get_name, (&self.spec_plugin(),), r),
    {
        self.plugin.get_name()
    }

    fn get_version(&self) -> (r: &str)
        ensures
            call_ensures(P::get_version, (&self.spec_plugin(),), r),
    {
        self.plugin.get_version()
    }

    fn get_author(&self) -> (r: &str)
        ensures
            call_ensures(P::get_author, (&self.spec_plugin(),), r),
    {
        self.plugin.get_author()
    }

    fn get_description(&self) -> (r: &str)
        ensures
            call_ensures(P::get_description, (&self.spec_plugin(),), r),
    {
        self.plugin.get_description()
    }

    fn plugin_enable(&self) -> (r: Result<(), PluginError>)
        ensures
            call_ensures(P::plugin_enable, (&self.spec_plugin(),), r),
    {
        self.plugin.plugin_enable()
    }

    fn plugin_disable(&self) -> (r: Result<(), PluginError>)
        ensures
            call_ensures(P::plugin_disable, (&self.spec_plugin(),), r),
    {
        self.plugin.plugin_disable()
    }

    fn register_events(&self, events: &mut LakituEvents<P::Handler>) {
        self.plugin.register_events(events)
    }
}

/// A plugin proxy under the name it was registered with.
pub type PluginEntry<P, M> = (String, LakituPluginProxy<P, M>);

pub open spec fn entry_names<P, M>(s: Seq<PluginEntry<P, M>>) -> Seq<Seq<char>> {
    s.map_values(|e: PluginEntry<P, M>| e.0@)
}

pub open spec fn entry_plugins<P, M>(s: Seq<PluginEntry<P, M>>) -> Seq<P> {
    s.map_values(|e: PluginEntry<P, M>| e.1.spec_plugin())
}

pub open spec fn entry_modules<P, M>(s: Seq<PluginEntry<P, M>>) -> Seq<M> {
    s.map_values(|e: PluginEntry<P, M>| e.1.spec_module())
}

/// Whether `name` is among the first `end` entries.
fn has_name<P, M>(entries: &Vec<PluginEntry<P, M>>, end: usize, name: &String) -> (r: bool)
    requires
        end <= entries@.len(),
    ensures
        r == entry_names(entries@).take(end as int).contains(name@),
{
    let ghost names = entry_names(entries@).take(end as int);
    let mut i: usize = 0;
    while i < end
        invariant
            end <= entries@.len(),
            names == entry_names(entries@).take(end as int),
            i <= end,
            forall|j: int| 0 <= j < i ==> entry_names(entries@)[j] != name@,
        decreases end - i,
    {
        if entries[i].0 == *name {
            assert(names[i as int] == name@);
            return true;
        }
        i += 1;
    }
    false
}

/// Collects the plugins of one module while its registration entry point
/// runs. It can only be had from [`LakituPlugins::gate`], so a module's entry
/// point is never reached before the module passed the version gate.
pub struct PluginRegistrar<P, M> {
    plugins: Vec<PluginEntry<P, M>>,
    module: M,
    declared: AbiVersion,
}

impl<P, M: Clone> PluginRegistrar<P, M> {
    pub closed spec fn entries(&self) -> Seq<PluginEntry<P, M>> {
        self.plugins@
    }

    pub closed spec fn module(&self) -> M {
        self.module
    }

    /// The version stamps of the module this registrar collects for.
    pub closed spec fn declared(&self) -> (Seq<char>, Seq<char>) {
        self.declared@
    }

    pub open spec fn names(&self) -> Seq<Seq<char>> {
        entry_names(self.entries())
    }

    pub open spec fn plugins(&self) -> Seq<P> {
        entry_plugins(self.entries())
    }

    /// Every proxy holds a handle cloned from the registrar's module.
    pub open spec fn wf(&self) -> bool {
        forall|i: int|
            0 <= i < self.entries().len() ==> cloned::<M>(
                self.module(),
                #[trigger] entry_modules(self.entries())[i],
            )
    }

    /// `after` is `before` with the pair of `name` and `plugin` appended.
    /// Names may repeat within one module; the host refuses a repeated name
    /// when it commits the module.
    pub open spec fn registered(before: Self, after: Self, name: Seq<char>, plugin: P) -> bool {
        &&& after.wf()
        &&& after.module() == before.module()
        &&& after.declared() == before.declared()
        &&& after.names() == before.names().push(name)
        &&& after.plugins() == before.plugins().push(plugin)
    }

    fn new(module: M, declared: AbiVersion) -> (r: PluginRegistrar<P, M>)
        ensures
            r.wf(),
            r.module() == module,
            r.declared() == declared@,
            r.entries().len() == 0,
    {
        PluginRegistrar { plugins: Vec::new(), module, declared }
    }

    /// Registers `plugin` under `name`, bound to this registrar's module.
    pub fn register_named(&mut self, name: String, plugin: P)
        requires
            old(self).wf(),
        ensures
            Self::registered(*old(self), *final(self), name@, plugin),
    {
        let ghost old_names = self.names();
        let ghost old_plugins = self.plugins();
        let ghost old_modules = entry_modules(self.entries());
        let proxy = LakituPluginProxy { plugin, module: self.module.clone() };
        self.plugins.push((name, proxy));
        assert(self.names() =~= old_names.push(name@));
        assert(self.plugins() =~= old_plugins.push(plugin));
        assert(entry_modules(self.entries()) =~= old_modules.push(proxy.module));
    }
}

impl<P: LakituPlugin, M: Clone> PluginRegistrar<P, M> {
    /// Registers `plugin` under the name it reports: the one operation a
    /// module's registration entry point calls.
    pub fn register_plugin(&mut self, plugin: P)
        requires
            old(self).wf(),
        ensures
            exists|name: &str|
                call_ensures(P::get_name, (&plugin,), name) && Self::registered(
                    *old(self),
                    *final(self),
                    name@,
                    plugin,
                ),
    {
        let reported = plugin.get_name();
        let name = reported.to_owned();
        self.register_named(name, plugin);
        assert(call_ensures(P::get_name, (&plugin,), reported));
    }
}

/// The name at position `i` of `incoming` is already among `present`, or
/// appears earlier in `incoming`.
pub open spec fn clashes(present: Seq<Seq<char>>, incoming: Seq<Seq<char>>, i: int) -> bool {
    present.contains(incoming[i]) || incoming.take(i).contains(incoming[i])
}

/// None of the first `n` names of `incoming` clashes.
pub open spec fn fresh_prefix(present: Seq<Seq<char>>, incoming: Seq<Seq<char>>, n: int) -> bool {
    forall|j: int| 0 <= j < n ==> !#[trigger] clashes(present, incoming, j)
}

/// `name` is the first name of `incoming`, in its order, that clashes.
pub open spec fn first_clash(present: Seq<Seq<char>>, incoming: Seq<Seq<char>>, name: Seq<char>) -> bool {
    exists|i: int|
        0 <= i < incoming.len() && incoming[i] == name && clashes(present, incoming, i)
            && fresh_prefix(present, incoming, i)
}

/// The plugins of all loaded modules by name, and the modules themselves,
/// which stay resident for the life of the host.
pub struct LakituPlugins<P, M> {
    host: AbiVersion,
    plugins: Vec<PluginEntry<P, M>>,
    libraries: Vec<M>,
}

impl<P, M: Clone> LakituPlugins<P, M> {
    pub closed spec fn host(&self) -> (Seq<char>, Seq<char>) {
        self.host@
    }

    pub closed spec fn entries(&self) -> Seq<PluginEntry<P, M>> {
        self.plugins@
    }

    pub closed spec fn libraries(&self) -> Seq<M> {
        self.libraries@
    }

    pub open spec fn names(&self) -> Seq<Seq<char>> {
        entry_names(self.entries())
    }

    pub open spec fn plugins(&self) -> Seq<P> {
        entry_plugins(self.entries())
    }

    /// The proxy at position `i` holds a handle cloned from a resident module.
    pub open spec fn held_resident(&self, i: int) -> bool {
        exists|j: int|
            0 <= j < self.libraries().len() && cloned::<M>(
                #[trigger] self.libraries()[j],
                entry_modules(self.entries())[i],
            )
    }

    /// Names are unique, and every proxy is tied to a resident module.
    pub open spec fn wf(&self) -> bool {
        &&& self.names().no_duplicates()
        &&& forall|i: int| 0 <= i < self.entries().len() ==> #[trigger] self.held_resident(i)
    }

    /// An empty registry for a host built with the version stamps `host`.
    pub fn new(host: AbiVersion) -> (r: LakituPlugins<P, M>)
        ensures
            r.wf(),
            r.host() == host@,
            r.entries().len() == 0,
            r.libraries().len() == 0,
    {
        LakituPlugins { host, plugins: Vec::new(), libraries: Vec::new() }
    }

    pub fn get_plugins(&self) -> (r: &Vec<PluginEntry<P, M>>)
        ensures
            r@ == self.entries(),
    {
        &self.plugins
    }

    pub fn get_libraries(&self) -> (r: &Vec<M>)
        ensures
            r@ == self.libraries(),
    {
        &self.libraries
    }

    /// The version gate. A module whose stamps equal the host's gets a fresh
    /// registrar bound to it, which its registration entry point fills; any
    /// other module is refused, and the host is left as it was.
    pub fn gate(&self, module: M, declared: &AbiVersion) -> (r: Result<PluginRegistrar<P, M>, LoadError>)
        ensures
            r is Ok <==> declared@ == self.host(),
            r matches Ok(g) ==> g.wf() && g.module() == module && g.declared() == declared@
                && g.entries().len() == 0,
            r matches Err(e) ==> e matches LoadError::IncompatibleVersion { expected, found }
                && expected@ == self.host() && found@ == declared@,
    {
        match check_compatibility(&self.host, declared) {
            Ok(()) => Ok(PluginRegistrar::new(module, declared.clone_version())),
            Err(e) => Err(e),
        }
    }

    /// Commits what a module registered. A module whose stamps differ from
    /// the host's is refused; so is one that brings a name already present or
    /// a name twice, and the first such name is reported. A refused module
    /// leaves the host as it was. Otherwise every plugin joins the registry in
    /// registration order, tied to the module, and the module becomes
    /// resident.
    pub fn load(&mut self, registrar: PluginRegistrar<P, M>) -> (r: Result<(), LoadError>)
        requires
            old(self).wf(),
            registrar.wf(),
        ensures
            final(self).wf(),
            final(self).host() == old(self).host(),
            r is Ok <==> registrar.declared() == old(self).host() && fresh_prefix(
                old(self).names(),
                registrar.names(),
                registrar.names().len() as int,
            ),
            r is Ok ==> final(self).names() == old(self).names() + registrar.names()
                && final(self).plugins() == old(self).plugins() + registrar.plugins()
                && final(self).libraries() == old(self).libraries().push(registrar.module()),
            r is Ok ==> forall|k: int|
                old(self).entries().len() <= k < final(self).entries().len() ==> cloned::<M>(
                    registrar.module(),
                    #[trigger] entry_modules(final(self).entries())[k],
                ),
            registrar.declared() != old(self).host() ==> (r matches Err(
                LoadError::IncompatibleVersion { expected, found },
            ) && expected@ == old(self).host() && found@ == registrar.declared()),
            registrar.declared() == old(self).host() && r is Err ==> (r matches Err(
                LoadError::DuplicateName { name },
            ) && first_clash(old(self).names(), registrar.names(), name@)),
            r is Err ==> *final(self) == *old(self),
    {
        let PluginRegistrar { plugins: mut incoming, module, declared } = registrar;
        assert(declared@ == registrar.declared());
        let checked = check_compatibility(&self.host, &declared);
        if let Err(e) = checked {
            assert(checked->Err_0 is IncompatibleVersion);
            return Err(e);
        }
        let ghost present = self.names();
        let ghost fresh = registrar.names();
        let mut i: usize = 0;
        while i < incoming.len()
            invariant
                i <= incoming@.len(),
                *self == *old(self),
                self.wf(),
                incoming@ == registrar.entries(),
                present == self.names(),
                present == entry_names(self.plugins@),
                fresh == entry_names(incoming@),
                fresh_prefix(present, fresh, i as int),
                registrar.declared() == old(self).host(),
            decreases incoming@.len() - i,
        {
            let n = self.plugins.len();
            if has_name(&self.plugins, n, &incoming[i].0) || has_name(&incoming, i, &incoming[i].0) {
                assert(present.take(n as int) =~= present);
                assert(fresh[i as int] == incoming[i as int].0@);
                assert(clashes(present, fresh, i as int));
                return Err(LoadError::DuplicateName { name: incoming[i].0.clone() });
            }
            assert(present.take(n as int) =~= present);
            assert(!clashes(present, fresh, i as int));
            i += 1;
        }
        let ghost old_entries = self.plugins@;
        let ghost old_libraries = self.libraries@;
        self.plugins.append(&mut incoming);
        self.libraries.push(module);
        assert(self.names() =~= present + fresh);
        assert(self.plugins() =~= old(self).plugins() + registrar.plugins());
        assert forall|k: int|
            old_entries.len() <= k < self.entries().len() implies cloned::<M>(
            module,
            #[trigger] entry_modules(self.entries())[k],
        ) by {
            assert(entry_modules(self.entries())[k] == entry_modules(registrar.entries())[k
                - old_entries.len()]);
        }
        assert forall|i: int| 0 <= i < self.entries().len() implies #[trigger] self.held_resident(i) by {
            if i < old_entries.len() {
                assert(old(self).held_resident(i));
                let j = choose|j: int|
                    0 <= j < old_libraries.len() && cloned::<M>(
                        #[trigger] old_libraries[j],
                        entry_modules(old_entries)[i],
                    );
                assert(self.libraries()[j] == old_libraries[j]);
                assert(entry_modules(self.entries())[i] == entry_modules(old_entries)[i]);
            } else {
                assert(cloned::<M>(module, entry_modules(self.entries())[i]));
                assert(self.libraries()[old_libraries.len() as int] == module);
            }
        }
        assert(self.names().no_duplicates()) by {
            assert forall|a: int, b: int|
                0 <= a < b < self.names().len() implies self.names()[a] != self.names()[b] by {
                if b >= present.len() {
                    let bb = b - present.len();
                    assert(!clashes(present, fresh, bb));
                    if a >= present.len() {
                        assert(fresh.take(bb)[a - present.len()] == fresh[a - present.len()]);
                    }
                }
            }
        }
        Ok(())
    }
}

impl<P: LakituPlugin, M: Clone> LakituPlugins<P, M> {
    /// Enables every plugin, in registry order. A plugin whose enable hook
    /// succeeds then registers its events and handlers; one whose hook fails
    /// stays registered but takes no part in events. The outcome of each hook
    /// is reported at the plugin's position, and no failure stops the rest.
    pub fn enable_plugins(&self, events: &mut LakituEvents<P::Handler>) -> (r: Vec<Result<(), PluginError>>)
        ensures
            r@.len() == self.entries().len(),
            forall|i: int|
                0 <= i < r@.len() ==> call_ensures(
                    P::plugin_enable,
                    (&self.plugins()[i],),
                    #[trigger] r@[i],
                ),
            (forall|i: int| 0 <= i < r@.len() ==> #[trigger] r@[i] is Err) ==> final(events)@ == old(
                events,
            )@,
    {
        let mut outcomes: Vec<Result<(), PluginError>> = Vec::new();
        let mut i: usize = 0;
        while i < self.plugins.len()
            invariant
                i <= self.entries().len(),
                outcomes@.len() == i,
                forall|j: int|
                    0 <= j < i ==> call_ensures(
                        P::plugin_enable,
                        (&self.plugins()[j],),
                        #[trigger] outcomes@[j],
                    ),
                (forall|j: int| 0 <= j < i ==> #[trigger] outcomes@[j] is Err) ==> events@ == old(
                    events,
                )@,
            decreases self.entries().len() - i,
        {
            let ghost before = outcomes@;
            let proxy = &self.plugins[i].1;
            let outcome = proxy.plugin_enable();
            let enabled = outcome.is_ok();
            if enabled {
                proxy.register_events(events);
            }
            outcomes.push(outcome);
            assert(forall|j: int| 0 <= j < i ==> outcomes@[j] == before[j]);
            assert(self.plugins()[i as int] == proxy.spec_plugin());
            assert(!enabled ==> outcomes@[i as int] is Err);
            i += 1;
        }
        outcomes
    }
}

/// Once a module has loaded a plugin under some name, a second module that
/// registers a plugin under the same name is refused by `load`, which then
/// leaves the registry as the first load made it.
pub proof fn lemma_second_duplicate_refused(
    present: Seq<Seq<char>>,
    first: Seq<Seq<char>>,
    second: Seq<Seq<char>>,
    name: Seq<char>,
)
    requires
        first.contains(name),
        second.contains(name),
    ensures
        (present + first).contains(name),
        !fresh_prefix(present + first, second, second.len() as int),
{
    let i = choose|i: int| 0 <= i < first.len() && first[i] == name;
    assert((present + first)[present.len() + i] == name);
    let k = choose|k: int| 0 <= k < second.len() && second[k] == name;
    assert(clashes(present + first, second, k));
}

/// Every plugin of a well-formed registry holds a handle cloned from one of
/// the resident modules, which the registry never drops: the module's code
/// stays loaded for as long as the plugin's proxy lives.
pub proof fn lemma_proxy_keeps_module<P, M: Clone>(h: LakituPlugins<P, M>, i: int)
    requires
        h.wf(),
        0 <= i < h.entries().len(),
    ensures
        exists|j: int|
            0 <= j < h.libraries().len() && cloned::<M>(
                #[trigger] h.libraries()[j],
                entry_modules(h.entries())[i],
            ),
{
    assert(h.held_resident(i));
}

} // verus!
