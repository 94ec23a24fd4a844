use abscissa::component::name::Name;
use abscissa::component::{Component, Version};
use abscissa::error::FrameworkError;
use abscissa::registry::{after_config_at, before_shutdown_at, describe, Entry, Registry};
use std::cell::RefCell;
use std::rc::Rc;

type Log = Rc<RefCell<Vec<String>>>;

struct Probe {
    id: &'static str,
    deps: Vec<&'static str>,
    fail_init: bool,
    fail_shutdown: bool,
    seen: Option<u32>,
    log: Log,
}

fn probe(id: &'static str, deps: &[&'static str], log: &Log) -> Probe {
    Probe { id, deps: deps.to_vec(), fail_init: false, fail_shutdown: false, seen: None, log: log.clone() }
}

impl Component for Probe {
    type Config = u32;

    fn id(&self) -> Name {
        Name(self.id)
    }

    fn version(&self) -> Version {
        Version::new(1, 2, 3)
    }

    fn dependencies(&self) -> Vec<Name> {
        self.deps.iter().map(|d| Name(d)).collect()
    }

    fn after_config(&mut self, config: &u32) -> Result<(), String> {
        self.log.borrow_mut().push(format!("init {}", self.id));
        if self.fail_init {
            Err(format!("{} refused {}", self.id, config))
        } else {
            self.seen = Some(*config);
            Ok(())
        }
    }

    fn before_shutdown(&mut self) -> Result<(), String> {
        self.log.borrow_mut().push(format!("stop {}", self.id));
        if self.fail_shutdown {
            Err(format!("{} would not stop", self.id))
        } else {
            Ok(())
        }
    }
}

fn names(list: &[&'static str]) -> Vec<Name> {
    list.iter().map(|n| Name(n)).collect()
}

fn new_log() -> Log {
    Rc::new(RefCell::new(Vec::new()))
}

#[test]
fn logger_database_api_are_ordered_by_dependency() {
    let log = new_log();
    let mut registry = Registry::new();
    let result = registry.register(vec![
        probe("Logger", &[], &log),
        probe("Database", &["Logger"], &log),
        probe("Api", &["Logger", "Database"], &log),
    ]);
    assert_eq!(result, Ok(()));
    assert_eq!(registry.order(), names(&["Logger", "Database", "Api"]));
    assert_eq!(registry.ids(), names(&["Logger", "Database", "Api"]));
    assert_eq!(registry.len(), 3);
    assert!(!registry.is_empty());
}

#[test]
fn order_is_the_same_on_every_run() {
    for _ in 0..5 {
        let log = new_log();
        let mut registry = Registry::new();
        let result = registry.register(vec![
            probe("Api", &["Logger", "Database"], &log),
            probe("Database", &["Logger"], &log),
            probe("Logger", &[], &log),
        ]);
        assert_eq!(result, Ok(()));
        assert_eq!(registry.order(), names(&["Logger", "Database", "Api"]));
    }
}

#[test]
fn ties_are_broken_by_registration_order() {
    let log = new_log();
    let mut registry = Registry::new();
    let result = registry.register(vec![
        probe("d", &["b"], &log),
        probe("c", &[], &log),
        probe("b", &[], &log),
        probe("a", &["c"], &log),
    ]);
    assert_eq!(result, Ok(()));
    // "c" is the earliest that is ready, then "d" cannot go before "b"
    assert_eq!(registry.order(), names(&["c", "b", "d", "a"]));
}

#[test]
fn dependency_on_an_unregistered_component_is_no_constraint() {
    let log = new_log();
    let mut registry = Registry::new();
    let result = registry.register(vec![probe("a", &["missing"], &log), probe("b", &["a"], &log)]);
    assert_eq!(result, Ok(()));
    assert_eq!(registry.order(), names(&["a", "b"]));
}

#[test]
fn empty_registration_succeeds() {
    let mut registry: Registry<Probe> = Registry::new();
    assert!(registry.is_empty());
    assert_eq!(registry.register(vec![]), Ok(()));
    assert_eq!(registry.len(), 0);
    assert_eq!(registry.order(), names(&[]));
    assert_eq!(registry.broadcast_after_config(&1), Ok(()));
    assert_eq!(registry.broadcast_shutdown(), vec![]);
}

#[test]
fn two_component_cycle_is_rejected_and_names_both() {
    let log = new_log();
    let mut registry = Registry::new();
    let result = registry.register(vec![probe("A", &["B"], &log), probe("B", &["A"], &log)]);
    assert_eq!(result, Err(FrameworkError::CyclicDependency(names(&["A", "B"]))));
    assert!(registry.is_empty());
    assert_eq!(registry.broadcast_after_config(&1), Ok(()));
    assert!(log.borrow().is_empty());
}

#[test]
fn self_dependency_is_a_cycle() {
    let log = new_log();
    let mut registry = Registry::new();
    let result = registry.register(vec![probe("solo", &["solo"], &log)]);
    assert_eq!(result, Err(FrameworkError::CyclicDependency(names(&["solo"]))));
}

#[test]
fn cycle_error_names_what_cannot_be_ordered() {
    let log = new_log();
    let mut registry = Registry::new();
    let result = registry.register(vec![
        probe("free", &[], &log),
        probe("x", &["z"], &log),
        probe("y", &["x"], &log),
        probe("z", &["y"], &log),
        probe("after", &["x", "free"], &log),
    ]);
    assert_eq!(result, Err(FrameworkError::CyclicDependency(names(&["x", "y", "z", "after"]))));
    assert_eq!(registry.len(), 0);
}

#[test]
fn duplicate_identity_is_rejected_and_nothing_is_inserted() {
    let log = new_log();
    let mut registry = Registry::new();
    assert_eq!(registry.register(vec![probe("first", &[], &log)]), Ok(()));
    let result = registry.register(vec![
        probe("second", &["first"], &log),
        probe("first", &[], &log),
        probe("third", &[], &log),
    ]);
    assert_eq!(result, Err(FrameworkError::DuplicateComponent(Name("first"))));
    assert_eq!(registry.len(), 1);
    assert_eq!(registry.ids(), names(&["first"]));
    assert_eq!(registry.order(), names(&["first"]));
    assert!(registry.get(&Name("second")).is_none());
}

#[test]
fn duplicate_within_one_batch_reports_the_repeated_identity() {
    let log = new_log();
    let mut registry = Registry::new();
    let result = registry.register(vec![
        probe("a", &[], &log),
        probe("b", &[], &log),
        probe("b", &[], &log),
        probe("a", &[], &log),
    ]);
    assert_eq!(result, Err(FrameworkError::DuplicateComponent(Name("b"))));
    assert!(registry.is_empty());
}

#[test]
fn duplicate_is_reported_before_a_cycle() {
    let log = new_log();
    let mut registry = Registry::new();
    let result = registry.register(vec![
        probe("a", &["b"], &log),
        probe("b", &["a"], &log),
        probe("a", &[], &log),
    ]);
    assert_eq!(result, Err(FrameworkError::DuplicateComponent(Name("a"))));
}

#[test]
fn later_registration_is_ordered_with_the_earlier_one() {
    let log = new_log();
    let mut registry = Registry::new();
    assert_eq!(registry.register(vec![probe("app", &["store"], &log)]), Ok(()));
    assert_eq!(registry.order(), names(&["app"]));
    assert_eq!(registry.register(vec![probe("store", &[], &log)]), Ok(()));
    assert_eq!(registry.ids(), names(&["app", "store"]));
    assert_eq!(registry.order(), names(&["store", "app"]));
}

#[test]
fn later_registration_that_closes_a_cycle_is_rejected() {
    let log = new_log();
    let mut registry = Registry::new();
    assert_eq!(registry.register(vec![probe("a", &["b"], &log)]), Ok(()));
    let result = registry.register(vec![probe("b", &["a"], &log)]);
    assert_eq!(result, Err(FrameworkError::CyclicDependency(names(&["a", "b"]))));
    assert_eq!(registry.ids(), names(&["a"]));
    assert_eq!(registry.order(), names(&["a"]));
}

#[test]
fn after_config_goes_round_in_dependency_order() {
    let log = new_log();
    let mut registry = Registry::new();
    registry
        .register(vec![
            probe("Api", &["Logger", "Database"], &log),
            probe("Database", &["Logger"], &log),
            probe("Logger", &[], &log),
        ])
        .unwrap();
    assert_eq!(registry.broadcast_after_config(&7), Ok(()));
    assert_eq!(*log.borrow(), vec!["init Logger", "init Database", "init Api"]);
    assert_eq!(registry.get(&Name("Api")).unwrap().seen, Some(7));
    assert_eq!(registry.get(&Name("Logger")).unwrap().seen, Some(7));
}

#[test]
fn failing_after_config_stops_the_round() {
    let log = new_log();
    let mut registry = Registry::new();
    let mut database = probe("Database", &["Logger"], &log);
    database.fail_init = true;
    registry
        .register(vec![
            probe("Logger", &[], &log),
            database,
            probe("Api", &["Logger", "Database"], &log),
            probe("Metrics", &["Api"], &log),
        ])
        .unwrap();
    let result = registry.broadcast_after_config(&9);
    assert_eq!(
        result,
        Err(FrameworkError::ComponentInitError(Name("Database"), "Database refused 9".to_string()))
    );
    // before the failing one: exactly once; after it: never
    assert_eq!(*log.borrow(), vec!["init Logger", "init Database"]);
    assert_eq!(registry.get(&Name("Logger")).unwrap().seen, Some(9));
    assert_eq!(registry.get(&Name("Api")).unwrap().seen, None);
    assert_eq!(registry.get(&Name("Metrics")).unwrap().seen, None);
}

#[test]
fn shutdown_is_the_reverse_of_init() {
    let log = new_log();
    let mut registry = Registry::new();
    registry
        .register(vec![
            probe("Logger", &[], &log),
            probe("Database", &["Logger"], &log),
            probe("Api", &["Logger", "Database"], &log),
        ])
        .unwrap();
    registry.broadcast_after_config(&1).unwrap();
    let errors = registry.broadcast_shutdown();
    assert!(errors.is_empty());
    assert_eq!(
        *log.borrow(),
        vec!["init Logger", "init Database", "init Api", "stop Api", "stop Database", "stop Logger"]
    );
}

#[test]
fn failing_shutdown_does_not_stop_the_others() {
    let log = new_log();
    let mut registry = Registry::new();
    let mut api = probe("Api", &["Logger", "Database"], &log);
    api.fail_shutdown = true;
    let mut logger = probe("Logger", &[], &log);
    logger.fail_shutdown = true;
    registry.register(vec![logger, probe("Database", &["Logger"], &log), api]).unwrap();
    let errors = registry.broadcast_shutdown();
    assert_eq!(*log.borrow(), vec!["stop Api", "stop Database", "stop Logger"]);
    assert_eq!(
        errors,
        vec![
            FrameworkError::ComponentShutdownError(Name("Api"), "Api would not stop".to_string()),
            FrameworkError::ComponentShutdownError(
                Name("Logger"),
                "Logger would not stop".to_string()
            ),
        ]
    );
}

#[test]
fn get_finds_by_identity_and_none_when_absent() {
    let log = new_log();
    let mut registry = Registry::new();
    registry.register(vec![probe("a", &[], &log), probe("b", &["a"], &log)]).unwrap();
    assert_eq!(registry.get(&Name("b")).unwrap().id, "b");
    assert!(registry.get(&Name("c")).is_none());
    assert!(registry.get_mut(&Name("c")).is_none());
    registry.get_mut(&Name("a")).unwrap().seen = Some(42);
    assert_eq!(registry.get(&Name("a")).unwrap().seen, Some(42));
    assert_eq!(registry.get(&Name("b")).unwrap().seen, None);
}

#[test]
fn entries_are_registered_under_what_they_declare() {
    let log = new_log();
    let mut registry = Registry::new();
    let result = registry.register_entries(vec![
        Entry { id: Name("late"), dependencies: names(&["early"]), component: probe("x", &[], &log) },
        Entry { id: Name("early"), dependencies: vec![], component: probe("y", &["x"], &log) },
    ]);
    assert_eq!(result, Ok(()));
    assert_eq!(registry.order(), names(&["early", "late"]));
    assert_eq!(registry.get(&Name("late")).unwrap().id, "x");
    assert!(registry.get(&Name("x")).is_none());
}

#[test]
fn describe_asks_each_component() {
    let log = new_log();
    let entries = describe(vec![probe("a", &["b", "c"], &log), probe("b", &[], &log)]);
    assert_eq!(entries.len(), 2);
    assert_eq!(entries[0].id, Name("a"));
    assert_eq!(entries[0].dependencies, names(&["b", "c"]));
    assert_eq!(entries[1].id, Name("b"));
    assert_eq!(entries[1].dependencies, names(&[]));
    assert_eq!(entries[1].component.id, "b");
}

#[test]
fn default_hooks_declare_nothing_and_succeed() {
    struct Bare;
    impl Component for Bare {
        type Config = ();
        fn id(&self) -> Name {
            Name("bare")
        }
        fn version(&self) -> Version {
            Version::new(0, 1, 0)
        }
        fn after_config(&mut self, _config: &()) -> Result<(), String> {
            Ok(())
        }
    }
    let mut bare = Bare;
    assert_eq!(bare.dependencies(), vec![]);
    assert_eq!(bare.before_shutdown(), Ok(()));
    assert_eq!(bare.version(), Version { major: 0, minor: 1, patch: 0 });
}

#[test]
fn one_hook_call_reaches_one_component() {
    let log = new_log();
    let mut refusing = probe("b", &[], &log);
    refusing.fail_init = true;
    refusing.fail_shutdown = true;
    let mut components = vec![probe("a", &[], &log), refusing, probe("c", &[], &log)];
    assert_eq!(after_config_at(&mut components, 0, &4), Ok(()));
    assert_eq!(after_config_at(&mut components, 1, &4), Err("b refused 4".to_string()));
    assert_eq!(*log.borrow(), vec!["init a", "init b"]);
    assert_eq!(components[0].seen, Some(4));
    assert_eq!(components[1].seen, None);
    assert_eq!(components[2].seen, None);
    assert_eq!(before_shutdown_at(&mut components, 2), Ok(()));
    assert_eq!(before_shutdown_at(&mut components, 1), Err("b would not stop".to_string()));
    assert_eq!(*log.borrow(), vec!["init a", "init b", "stop c", "stop b"]);
}

#[test]
fn hooks_get_the_configuration_that_was_broadcast() {
    let log = new_log();
    let mut registry = Registry::new();
    registry.register(vec![probe("a", &[], &log), probe("b", &["a"], &log)]).unwrap();
    registry.broadcast_after_config(&11).unwrap();
    assert_eq!(registry.get(&Name("a")).unwrap().seen, Some(11));
    assert_eq!(registry.get(&Name("b")).unwrap().seen, Some(11));
    registry.broadcast_after_config(&12).unwrap();
    assert_eq!(registry.get(&Name("b")).unwrap().seen, Some(12));
    assert_eq!(*log.borrow(), vec!["init a", "init b", "init a", "init b"]);
}

#[test]
fn cycle_error_leaves_out_what_can_be_ordered() {
    let log = new_log();
    let mut registry = Registry::new();
    // "tail" depends on the cycle and is named; "head" is depended on by it and is not
    let result = registry.register(vec![
        probe("head", &[], &log),
        probe("p", &["q", "head"], &log),
        probe("q", &["p"], &log),
        probe("tail", &["q"], &log),
        probe("apart", &["head"], &log),
    ]);
    assert_eq!(result, Err(FrameworkError::CyclicDependency(names(&["p", "q", "tail"]))));
}
