use std::rc::Rc;
use std::sync::{Arc, RwLock};

use lakitu::abi::{check_compatibility, AbiVersion, LoadError};
use lakitu::events::{Event, EventNotFound, LakituEvents};
use lakitu::plugins::{LakituPlugin, LakituPlugins, PluginError, PluginRegistrar};

struct TestPlugin {
    name: String,
    version: String,
    fails_to_enable: bool,
    event: Option<String>,
}

fn plugin(name: &str, version: &str) -> TestPlugin {
    TestPlugin {
        name: name.to_string(),
        version: version.to_string(),
        fails_to_enable: false,
        event: None,
    }
}

impl LakituPlugin for TestPlugin {
    type Handler = String;

    fn get_name(&self) -> &str {
        &self.name
    }

    fn get_version(&self) -> &str {
        &self.version
    }

    fn get_author(&self) -> &str {
        "tester"
    }

    fn get_description(&self) -> &str {
        "a plugin for tests"
    }

    fn plugin_enable(&self) -> Result<(), PluginError> {
        if self.fails_to_enable {
            Err(PluginError { message: format!("{} cannot start", self.name) })
        } else {
            Ok(())
        }
    }

    fn plugin_disable(&self) -> Result<(), PluginError> {
        Ok(())
    }

    fn register_events(&self, events: &mut LakituEvents<String>) {
        if let Some(event) = &self.event {
            let index = events.register_event(Event::new(event.clone()));
            events
                .register_event_handler(index, format!("{} handles {}", self.name, event))
                .unwrap();
        }
    }
}

type Module = Rc<String>;

fn host_version() -> AbiVersion {
    AbiVersion::new("rustc 1.70.0".to_string(), "0.1.0".to_string())
}

fn names(host: &LakituPlugins<TestPlugin, Module>) -> Vec<String> {
    host.get_plugins().iter().map(|e| e.0.clone()).collect()
}

fn load_module(
    host: &mut LakituPlugins<TestPlugin, Module>,
    file: &str,
    declared: AbiVersion,
    plugins: Vec<TestPlugin>,
) -> Result<(), LoadError> {
    let mut registrar = host.gate(Rc::new(file.to_string()), &declared)?;
    for p in plugins {
        registrar.register_plugin(p);
    }
    host.load(registrar)
}

#[test]
fn equal_stamps_pass_the_gate() {
    assert!(check_compatibility(&host_version(), &host_version()).is_ok());
}

#[test]
fn toolchain_mismatch_is_refused_with_both_pairs() {
    let declared = AbiVersion::new("rustc 1.69.0".to_string(), "0.1.0".to_string());
    match check_compatibility(&host_version(), &declared) {
        Err(LoadError::IncompatibleVersion { expected, found }) => {
            assert_eq!(expected.toolchain_version, "rustc 1.70.0");
            assert_eq!(expected.interface_version, "0.1.0");
            assert_eq!(found.toolchain_version, "rustc 1.69.0");
            assert_eq!(found.interface_version, "0.1.0");
        }
        _ => panic!("a different toolchain must be refused"),
    }
}

#[test]
fn mismatched_modules_commit_nothing() {
    let mut host: LakituPlugins<TestPlugin, Module> = LakituPlugins::new(host_version());
    let stamps = [
        ("rustc 1.70.1", "0.1.0"),
        ("rustc 1.70.0", "0.2.0"),
        ("", ""),
        ("rustc 1.70.0 ", "0.1.0"),
    ];
    for (toolchain, interface) in stamps {
        let declared = AbiVersion::new(toolchain.to_string(), interface.to_string());
        let r = load_module(&mut host, "libx.so", declared, vec![plugin("x", "1.0")]);
        assert!(matches!(r, Err(LoadError::IncompatibleVersion { .. })));
    }
    assert!(host.get_plugins().is_empty());
    assert!(host.get_libraries().is_empty());
}

#[test]
fn duplicate_name_across_modules_keeps_the_first() {
    let mut host: LakituPlugins<TestPlugin, Module> = LakituPlugins::new(host_version());
    load_module(&mut host, "liba.so", host_version(), vec![plugin("alpha", "1.0")]).unwrap();
    let r = load_module(
        &mut host,
        "libb.so",
        host_version(),
        vec![plugin("beta", "1.0"), plugin("alpha", "2.0")],
    );
    match r {
        Err(LoadError::DuplicateName { name }) => assert_eq!(name, "alpha"),
        _ => panic!("the second alpha must be refused"),
    }
    assert_eq!(names(&host), vec!["alpha".to_string()]);
    assert_eq!(host.get_plugins()[0].1.get_version(), "1.0");
    assert_eq!(host.get_libraries().len(), 1);
    assert_eq!(*host.get_libraries()[0], "liba.so");
}

#[test]
fn same_name_twice_within_one_module_is_refused() {
    let mut registrar: PluginRegistrar<TestPlugin, Module> =
        LakituPlugins::new(host_version()).gate(Rc::new("liba.so".to_string()), &host_version()).ok().unwrap();
    registrar.register_plugin(plugin("alpha", "1.0"));
    registrar.register_plugin(plugin("gamma", "1.0"));
    registrar.register_plugin(plugin("alpha", "2.0"));
    let mut host: LakituPlugins<TestPlugin, Module> = LakituPlugins::new(host_version());
    match host.load(registrar) {
        Err(LoadError::DuplicateName { name }) => assert_eq!(name, "alpha"),
        _ => panic!("a name registered twice by one module must be refused"),
    }
    assert!(host.get_plugins().is_empty());
    assert!(host.get_libraries().is_empty());
}

#[test]
fn registrar_of_another_host_version_is_refused_by_load() {
    let other = AbiVersion::new("rustc 1.71.0".to_string(), "0.1.0".to_string());
    let other_host: LakituPlugins<TestPlugin, Module> = LakituPlugins::new(other.clone_version());
    let mut registrar = other_host.gate(Rc::new("libz.so".to_string()), &other).ok().unwrap();
    registrar.register_plugin(plugin("zeta", "1.0"));
    let mut host: LakituPlugins<TestPlugin, Module> = LakituPlugins::new(host_version());
    match host.load(registrar) {
        Err(LoadError::IncompatibleVersion { expected, found }) => {
            assert_eq!(expected.toolchain_version, "rustc 1.70.0");
            assert_eq!(found.toolchain_version, "rustc 1.71.0");
        }
        _ => panic!("a registrar for other stamps must be refused"),
    }
    assert!(host.get_plugins().is_empty());
    assert!(host.get_libraries().is_empty());
}

#[test]
fn proxies_keep_their_module_resident() {
    let mut host: LakituPlugins<TestPlugin, Module> = LakituPlugins::new(host_version());
    let module = Rc::new("liba.so".to_string());
    let mut registrar = host.gate(Rc::clone(&module), &host_version()).ok().unwrap();
    registrar.register_plugin(plugin("alpha", "1.0"));
    registrar.register_plugin(plugin("beta", "1.0"));
    host.load(registrar).unwrap();
    drop(module);
    let resident = &host.get_libraries()[0];
    for entry in host.get_plugins() {
        assert!(Rc::ptr_eq(entry.1.get_module(), resident));
    }
    assert_eq!(Rc::strong_count(resident), 3);
}

#[test]
fn proxy_forwards_identity() {
    let mut host: LakituPlugins<TestPlugin, Module> = LakituPlugins::new(host_version());
    load_module(&mut host, "liba.so", host_version(), vec![plugin("alpha", "1.0")]).unwrap();
    let proxy = &host.get_plugins()[0].1;
    assert_eq!(proxy.get_name(), "alpha");
    assert_eq!(proxy.get_version(), "1.0");
    assert_eq!(proxy.get_author(), "tester");
    assert_eq!(proxy.get_description(), "a plugin for tests");
    assert_eq!(proxy.get_plugin().get_name(), "alpha");
    assert!(proxy.plugin_disable().is_ok());
}

#[test]
fn handlers_are_kept_in_call_order() {
    let mut events: LakituEvents<u32> = LakituEvents::new();
    events.register_event(Event::new("before".to_string()));
    let index = events.register_event(Event::new("on_message".to_string()));
    assert_eq!(index, 1);
    for h in 0..5u32 {
        assert_eq!(events.register_event_handler(index, 10 * h), Ok(h as usize));
    }
    let event = &events.get_events()[index];
    assert_eq!(event.get_name(), "on_message");
    assert_eq!(event.handler_count(), 5);
    assert_eq!(*event.get_handlers(), vec![0, 10, 20, 30, 40]);
    assert_eq!(events.get_events()[0].handler_count(), 0);
}

#[test]
fn handler_on_missing_event_changes_nothing() {
    let mut events: LakituEvents<u32> = LakituEvents::new();
    assert_eq!(events.register_event_handler(0, 7), Err(EventNotFound { index: 0 }));
    let index = events.register_event(Event::new("tick".to_string()));
    events.register_event_handler(index, 1).unwrap();
    assert_eq!(events.register_event_handler(1, 2), Err(EventNotFound { index: 1 }));
    assert_eq!(events.register_event_handler(usize::MAX, 2), Err(EventNotFound { index: usize::MAX }));
    assert_eq!(events.len(), 1);
    assert_eq!(*events.get_events()[0].get_handlers(), vec![1]);
}

#[test]
fn two_writers_get_distinct_indices() {
    let events: Arc<RwLock<LakituEvents<u32>>> = Arc::new(RwLock::new(LakituEvents::new()));
    let first = Arc::clone(&events);
    let second = Arc::clone(&events);
    let ia = first.write().unwrap().register_event(Event::new("a".to_string()));
    let ib = second.write().unwrap().register_event(Event::new("b".to_string()));
    assert_ne!(ia, ib);
    let registry = events.read().unwrap();
    assert_eq!(registry.len(), 2);
    assert_eq!(registry.get_events()[ia].get_name(), "a");
    assert_eq!(registry.get_events()[ib].get_name(), "b");
}

#[test]
fn failed_enable_leaves_plugin_registered_without_events() {
    let mut host: LakituPlugins<TestPlugin, Module> = LakituPlugins::new(host_version());
    let mut broken = plugin("broken", "0.1");
    broken.fails_to_enable = true;
    broken.event = Some("on_error".to_string());
    let mut alpha = plugin("alpha", "1.0");
    alpha.event = Some("on_message".to_string());
    load_module(&mut host, "liba.so", host_version(), vec![broken, alpha]).unwrap();
    let mut events: LakituEvents<String> = LakituEvents::new();
    let outcomes = host.enable_plugins(&mut events);
    assert_eq!(outcomes.len(), 2);
    assert_eq!(outcomes[0].as_ref().unwrap_err().message, "broken cannot start");
    assert!(outcomes[1].is_ok());
    assert_eq!(names(&host), vec!["broken".to_string(), "alpha".to_string()]);
    assert_eq!(events.len(), 1);
    assert_eq!(events.get_events()[0].get_name(), "on_message");
}

#[test]
fn alpha_loads_and_mismatched_module_is_refused() {
    let mut host: LakituPlugins<TestPlugin, Module> = LakituPlugins::new(host_version());
    let mut alpha = plugin("alpha", "1.0");
    alpha.event = Some("on_message".to_string());
    load_module(&mut host, "liba.so", host_version(), vec![alpha]).unwrap();

    let declared_b = AbiVersion::new("rustc 1.70.0".to_string(), "0.2.0".to_string());
    let refused = host.gate(Rc::new("libb.so".to_string()), &declared_b);
    assert!(matches!(refused, Err(LoadError::IncompatibleVersion { .. })));

    let mut events: LakituEvents<String> = LakituEvents::new();
    let outcomes = host.enable_plugins(&mut events);
    assert!(outcomes.iter().all(|o| o.is_ok()));

    assert_eq!(names(&host), vec!["alpha".to_string()]);
    assert_eq!(host.get_libraries().len(), 1);
    assert_eq!(events.len(), 1);
    let event = &events.get_events()[0];
    assert_eq!(event.get_name(), "on_message");
    assert_eq!(*event.get_handlers(), vec!["alpha handles on_message".to_string()]);
}

#[test]
fn register_named_binds_the_registrar_module() {
    let module = Rc::new("libc.so".to_string());
    let host: LakituPlugins<TestPlugin, Module> = LakituPlugins::new(host_version());
    let mut registrar = host.gate(Rc::clone(&module), &host_version()).ok().unwrap();
    registrar.register_named("custom".to_string(), plugin("reported", "1.0"));
    let mut host = host;
    host.load(registrar).unwrap();
    assert_eq!(names(&host), vec!["custom".to_string()]);
    assert!(Rc::ptr_eq(host.get_plugins()[0].1.get_module(), &module));
    assert!(Rc::ptr_eq(&host.get_libraries()[0], &module));
}
