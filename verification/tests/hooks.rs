use ri::hooks::{
    hook_kind_from_ordinal, hook_kind_ordinal, module_phase_from_ordinal, module_phase_ordinal, RiHookBus, RiHookEvent,
    RiHookKind, RiModulePhase,
};
use std::cell::RefCell;

type Handler = Box<dyn Fn(&RefCell<Vec<String>>, &RiHookEvent) -> Result<(), String>>;

fn recorder(name: &'static str) -> Handler {
    Box::new(move |log: &RefCell<Vec<String>>, ev: &RiHookEvent| {
        let module = ev.module.clone().unwrap_or_default();
        let phase = ev.phase.map(|p| p.as_str().to_string()).unwrap_or_default();
        log.borrow_mut().push(format!("{name}:{:?}:{module}:{phase}", ev.kind));
        Ok(())
    })
}

fn failing(name: &'static str) -> Handler {
    Box::new(move |log: &RefCell<Vec<String>>, _ev: &RiHookEvent| {
        log.borrow_mut().push(format!("{name}:fail"));
        Err(format!("{name} failed"))
    })
}

#[test]
fn phase_names() {
    assert_eq!(RiModulePhase::Init.as_str(), "init");
    assert_eq!(RiModulePhase::BeforeStart.as_str(), "before_start");
    assert_eq!(RiModulePhase::Start.as_str(), "start");
    assert_eq!(RiModulePhase::AfterStart.as_str(), "after_start");
    assert_eq!(RiModulePhase::BeforeShutdown.as_str(), "before_shutdown");
    assert_eq!(RiModulePhase::Shutdown.as_str(), "shutdown");
    assert_eq!(RiModulePhase::AfterShutdown.as_str(), "after_shutdown");
    assert_eq!(RiModulePhase::AsyncInit.as_str(), "async_init");
    assert_eq!(RiModulePhase::AsyncBeforeStart.as_str(), "async_before_start");
    assert_eq!(RiModulePhase::AsyncStart.as_str(), "async_start");
    assert_eq!(RiModulePhase::AsyncAfterStart.as_str(), "async_after_start");
    assert_eq!(RiModulePhase::AsyncBeforeShutdown.as_str(), "async_before_shutdown");
    assert_eq!(RiModulePhase::AsyncShutdown.as_str(), "async_shutdown");
    assert_eq!(RiModulePhase::AsyncAfterShutdown.as_str(), "async_after_shutdown");
}

#[test]
fn event_new_keeps_fields() {
    let ev = RiHookEvent::new(RiHookKind::Startup, Some("db".to_string()), Some(RiModulePhase::Start));
    assert_eq!(ev.kind, RiHookKind::Startup);
    assert_eq!(ev.module.as_deref(), Some("db"));
    assert_eq!(ev.phase, Some(RiModulePhase::Start));
}

#[test]
fn config_reload_event() {
    let ev = RiHookEvent::config_reload("config.yaml".to_string());
    assert_eq!(ev.kind, RiHookKind::ConfigReload);
    assert_eq!(ev.module.as_deref(), Some("config_manager"));
    assert_eq!(ev.phase, None);
}

#[test]
fn emit_without_handlers_is_ok() {
    let bus: RiHookBus<Handler> = RiHookBus::new();
    let log = RefCell::new(Vec::new());
    assert!(bus.emit::<_, String>(&RiHookKind::Startup, &log).is_ok());
    assert!(log.borrow().is_empty());
}

#[test]
fn handlers_run_in_registration_order_for_their_kind() {
    let mut bus: RiHookBus<Handler> = RiHookBus::default();
    bus.register(RiHookKind::Startup, "a".to_string(), recorder("a"));
    bus.register(RiHookKind::Shutdown, "x".to_string(), recorder("x"));
    bus.register(RiHookKind::Startup, "b".to_string(), recorder("b"));
    let log = RefCell::new(Vec::new());
    assert!(bus.emit::<_, String>(&RiHookKind::Startup, &log).is_ok());
    assert_eq!(*log.borrow(), vec!["a:Startup::".to_string(), "b:Startup::".to_string()]);
}

#[test]
fn emit_with_passes_module_and_phase() {
    let mut bus: RiHookBus<Handler> = RiHookBus::new();
    bus.register(RiHookKind::BeforeModulesInit, "m".to_string(), recorder("m"));
    let log = RefCell::new(Vec::new());
    let r = bus.emit_with::<_, String>(&RiHookKind::BeforeModulesInit, &log, Some("cache"), Some(RiModulePhase::AsyncInit));
    assert!(r.is_ok());
    assert_eq!(*log.borrow(), vec!["m:BeforeModulesInit:cache:async_init".to_string()]);
}

#[test]
fn first_error_stops_the_run() {
    let mut bus: RiHookBus<Handler> = RiHookBus::new();
    bus.register(RiHookKind::Startup, "a".to_string(), recorder("a"));
    bus.register(RiHookKind::Startup, "bad".to_string(), failing("bad"));
    bus.register(RiHookKind::Startup, "c".to_string(), recorder("c"));
    let log = RefCell::new(Vec::new());
    let r = bus.emit::<_, String>(&RiHookKind::Startup, &log);
    assert_eq!(r, Err("bad failed".to_string()));
    assert_eq!(*log.borrow(), vec!["a:Startup::".to_string(), "bad:fail".to_string()]);
}

#[test]
fn ordinals_decode_with_defaults() {
    assert_eq!(hook_kind_from_ordinal(0), RiHookKind::Startup);
    assert_eq!(hook_kind_from_ordinal(1), RiHookKind::Shutdown);
    assert_eq!(hook_kind_from_ordinal(8), RiHookKind::ConfigReload);
    assert_eq!(hook_kind_from_ordinal(9), RiHookKind::Startup);
    assert_eq!(hook_kind_from_ordinal(-3), RiHookKind::Startup);
    assert_eq!(module_phase_from_ordinal(-1), None);
    assert_eq!(module_phase_from_ordinal(0), Some(RiModulePhase::Init));
    assert_eq!(module_phase_from_ordinal(13), Some(RiModulePhase::AsyncAfterShutdown));
    assert_eq!(module_phase_from_ordinal(14), Some(RiModulePhase::Init));
}

#[test]
fn has_handlers_per_kind() {
    let mut bus: RiHookBus<Handler> = RiHookBus::new();
    assert!(!bus.has_handlers(&RiHookKind::Startup));
    bus.register(RiHookKind::Shutdown, "s".to_string(), recorder("s"));
    assert!(!bus.has_handlers(&RiHookKind::Startup));
    assert!(bus.has_handlers(&RiHookKind::Shutdown));
}

#[test]
fn ordinals_round_trip() {
    let kinds = [
        RiHookKind::Startup,
        RiHookKind::Shutdown,
        RiHookKind::BeforeModulesInit,
        RiHookKind::AfterModulesInit,
        RiHookKind::BeforeModulesStart,
        RiHookKind::AfterModulesStart,
        RiHookKind::BeforeModulesShutdown,
        RiHookKind::AfterModulesShutdown,
        RiHookKind::ConfigReload,
    ];
    for (i, k) in kinds.iter().enumerate() {
        assert_eq!(hook_kind_ordinal(*k), i as i32);
        assert_eq!(hook_kind_from_ordinal(hook_kind_ordinal(*k)), *k);
    }
    assert_eq!(module_phase_ordinal(None), -1);
    assert_eq!(module_phase_ordinal(Some(RiModulePhase::AsyncShutdown)), 12);
    for n in 0..14 {
        assert_eq!(module_phase_ordinal(module_phase_from_ordinal(n)), n);
    }
}
