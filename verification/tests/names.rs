use abscissa::commands::new::NewCommand;
use abscissa::component::name::{contains_name, Name};
use abscissa::component::{Component, Version};
use abscissa::order::{find_duplicate, sort};
use abscissa::properties::name::{App, Author, Type};
use abscissa::properties::{title_for, Edition, FrameworkProperties, Properties};
use abscissa::runtime::TokioComponent;
use abscissa::terminal::component::TerminalComponent;
use abscissa::error::FrameworkError;
use abscissa::logging::{logging_config, LoggingConfig};
use abscissa::testing::runner::CmdRunner;
use std::str::FromStr;
use std::time::Duration;
use termcolor::ColorChoice;

#[test]
fn component_name_is_its_string() {
    let name = Name("abscissa::terminal");
    assert_eq!(name.as_ref(), "abscissa::terminal");
    assert_eq!(name.to_string(), "abscissa::terminal");
    assert!(name.same(&Name("abscissa::terminal")));
    assert!(!name.same(&Name("abscissa::terminal2")));
    assert!(!Name("").same(&Name("a")));
    assert!(Name("a") < Name("b"));
}

#[test]
fn contains_name_looks_through_the_list() {
    let list = vec![Name("a"), Name("b")];
    assert!(contains_name(&list, &Name("b")));
    assert!(!contains_name(&list, &Name("c")));
    assert!(!contains_name(&vec![], &Name("a")));
}

#[test]
fn find_duplicate_gives_the_first_repeat() {
    assert_eq!(find_duplicate(&vec![]), None);
    assert_eq!(find_duplicate(&vec![Name("a"), Name("b"), Name("c")]), None);
    assert_eq!(find_duplicate(&vec![Name("a"), Name("b"), Name("b"), Name("a")]), Some(2));
    assert_eq!(find_duplicate(&vec![Name("a"), Name("b"), Name("a"), Name("b")]), Some(2));
}

#[test]
fn sort_places_the_earliest_ready_component_first() {
    let ids = vec![Name("c"), Name("b"), Name("a")];
    let deps = vec![vec![Name("b")], vec![Name("a"), Name("a")], vec![]];
    assert_eq!(sort(&ids, &deps), vec![2, 1, 0]);
    let free = vec![vec![], vec![], vec![]];
    assert_eq!(sort(&ids, &free), vec![0, 1, 2]);
    let cyclic = vec![vec![Name("b")], vec![Name("c")], vec![]];
    assert_eq!(sort(&ids, &cyclic), vec![2]);
    assert_eq!(sort(&vec![], &vec![]), vec![]);
}

#[test]
fn app_name_from_str_keeps_the_string() {
    let app = App::from_str("my_cool_app").unwrap();
    assert_eq!("parsed".parse::<App>(), Ok(App("parsed".to_string())));
    assert_eq!(app.as_ref(), "my_cool_app");
    assert_eq!(app.to_string(), "my_cool_app");
    assert_eq!(app, App("my_cool_app".to_string()));
}

#[test]
fn author_from_string() {
    let author = Author::from("Ada".to_string());
    assert_eq!(author.as_ref(), "Ada");
    let other: Author = "Grace".to_string().into();
    assert_eq!(other, Author("Grace".to_string()));
}

#[test]
fn type_from_camel_case_keeps_the_name() {
    assert_eq!(Type::from_camel_case("MyCoolApp").as_ref(), "MyCoolApp");
    assert_eq!(Type::from_camel_case("not_camel").as_ref(), "not_camel");
}

#[test]
fn type_from_snake_case_is_pascal_case() {
    assert_eq!(Type::from_snake_case("my_cool_app_config").as_ref(), "MyCoolAppConfig");
    assert_eq!(Type::from_snake_case("_leading_under").as_ref(), "LeadingUnder");
    assert_eq!(Type::from_snake_case("double__under").as_ref(), "DoubleUnder");
    assert_eq!(Type::from_snake_case("z42").as_ref(), "Z42");
    assert_eq!(Type::from_snake_case("").as_ref(), "");
    assert_eq!(Type::from_snake_case("é_ß").as_ref(), "éß");
    assert_eq!(Type::from_snake_case("aBc_dEf").as_ref(), "ABcDEf");
}

#[test]
fn title_is_the_name_in_camel_case() {
    assert_eq!(title_for("my_cool_app"), "MyCoolApp");
    assert_eq!(title_for("kebab-case"), "KebabCase");
    assert_eq!(title_for("XMLHttpRequest"), "XmlHttpRequest");
}

#[test]
fn properties_follow_from_the_name() {
    let p = Properties::new("0.5.0", "my_cool_app", "A Title".to_string(), None);
    assert_eq!(p.abscissa, FrameworkProperties::new("0.5.0"));
    assert_eq!(p.abscissa.version, "0.5.0");
    assert_eq!(p.name.as_ref(), "my_cool_app");
    assert_eq!(p.title, "A Title");
    assert_eq!(p.description, "A Title");
    assert!(p.authors.is_empty());
    assert_eq!(p.version, Version { major: 0, minor: 1, patch: 0 });
    assert_eq!(p.edition, Edition::Rust2018);
    assert_eq!(p.patch_crates_io, None);
    assert_eq!(p.application_type.as_ref(), "MyCoolAppApplication");
    assert_eq!(p.command_type.as_ref(), "MyCoolAppCommand");
    assert_eq!(p.config_type.as_ref(), "MyCoolAppConfig");
    assert_eq!(p.error_type.as_ref(), "MyCoolAppError");
    assert_eq!(p.error_kind_type.as_ref(), "MyCoolAppErrorKind");
}

#[test]
fn new_command_needs_a_path() {
    let command = NewCommand::default();
    assert_eq!(command.app_path(), Err("no app_path given".to_string()));
    assert_eq!(command.parse_options("x", "0.5.0"), Err("no app_path given".to_string()));
}

#[test]
fn new_command_derives_the_properties() {
    let command = NewCommand {
        patch_crates_io: Some("abscissa = { path = '/src' }".to_string()),
        app_path: Some("/tmp/generated_test_app".to_string()),
    };
    assert_eq!(command.app_path(), Ok("/tmp/generated_test_app"));
    let p = command.parse_options("generated_test_app", "0.5.0").unwrap();
    assert_eq!(p.name.as_ref(), "generated_test_app");
    assert_eq!(p.title, "GeneratedTestApp");
    assert_eq!(p.description, "GeneratedTestApp");
    assert_eq!(p.patch_crates_io, Some("abscissa = { path = '/src' }".to_string()));
    assert_eq!(p.application_type.as_ref(), "GeneratedTestAppApplication");
    assert_eq!(p.error_kind_type.as_ref(), "GeneratedTestAppErrorKind");
    assert_eq!(p, Properties::new("0.5.0", "generated_test_app", "GeneratedTestApp".to_string(),
        Some("abscissa = { path = '/src' }".to_string())));
}

#[test]
fn terminal_component_carries_the_color_choice() {
    let mut terminal: TerminalComponent<u8> = TerminalComponent::new(ColorChoice::Never);
    assert_eq!(terminal.color_choice(), ColorChoice::Never);
    assert_eq!(terminal.id(), Name("abscissa::terminal::TerminalComponent"));
    assert_eq!(terminal.id(), abscissa::terminal::component::id());
    assert_eq!(terminal.version(), Version::new(0, 0, 0));
    assert_eq!(terminal.dependencies(), vec![]);
    assert_eq!(terminal.after_config(&3), Ok(()));
    assert_eq!(terminal.before_shutdown(), Ok(()));
    assert_eq!(terminal.color_choice(), ColorChoice::Never);
    let auto: TerminalComponent<()> = TerminalComponent::new(ColorChoice::Auto);
    assert_eq!(auto.color_choice(), ColorChoice::Auto);
}

#[test]
fn runtime_component_holds_the_runtime_until_it_is_taken() {
    let mut component: TokioComponent<String, ()> = TokioComponent::from("rt".to_string());
    assert_eq!(component.id(), Name("abscissa::runtime::TokioComponent"));
    assert_eq!(component.id(), abscissa::runtime::id());
    assert_eq!(component.version(), Version::new(0, 5, 0));
    assert_eq!(component.after_config(&()), Ok(()));
    assert_eq!(component.runtime(), Ok(&"rt".to_string()));
    component.runtime_mut().unwrap().push('!');
    assert_eq!(component.runtime(), Ok(&"rt!".to_string()));
    assert_eq!(component.take_runtime(), Ok("rt!".to_string()));
    let taken = FrameworkError::ComponentError("Tokio runtime has already been taken!".to_string());
    assert_eq!(component.runtime(), Err(taken.clone()));
    assert_eq!(component.runtime_mut(), Err(taken.clone()));
    assert_eq!(component.take_runtime(), Err(taken));
}

#[test]
fn runtime_component_from_the_outcome_of_starting() {
    let started: Result<TokioComponent<u8, ()>, FrameworkError> = TokioComponent::new(Ok(7));
    assert_eq!(started.unwrap().runtime(), Ok(&7));
    let failed: Result<TokioComponent<u8, ()>, FrameworkError> =
        TokioComponent::new(Err("too many threads".to_string()));
    assert_eq!(
        failed.err(),
        Some(FrameworkError::ComponentError(
            "couldn't start Tokio runtime: too many threads".to_string()
        ))
    );
}

#[test]
fn runtime_component_holds_a_real_runtime() {
    let runtime = tokio::runtime::Builder::new_current_thread().build().unwrap();
    let mut component: TokioComponent<tokio::runtime::Runtime, ()> = TokioComponent::from(runtime);
    let value = component.runtime().unwrap().block_on(async { 21 * 2 });
    assert_eq!(value, 42);
    assert!(component.take_runtime().is_ok());
    assert!(component.runtime().is_err());
}

#[test]
fn runner_defaults_to_cargo_run() {
    let runner = CmdRunner::default();
    assert_eq!(runner.program, "cargo");
    assert_eq!(runner.args, vec!["run", "--"]);
    assert_eq!(runner.timeout, None);
    assert!(!runner.capture_stdout);
    assert!(!runner.capture_stderr);
    assert!(runner.print_info);
    assert!(runner.exclusive);
    assert_eq!(runner.effective_timeout(), Duration::from_secs(30 * 60));
    assert_eq!(runner.timeout_or(Duration::from_millis(1)), Duration::from_millis(1));
    assert_eq!(runner.command_line(), "cargo run --");
}

#[test]
fn runner_for_a_target_binary() {
    let runner = CmdRunner::target_bin("abscissa");
    assert_eq!(runner.args, vec!["run", "--bin", "abscissa", "--"]);
    assert!(runner.exclusive);
    assert_eq!(runner.command_line(), "cargo run --bin abscissa --");
}

#[test]
fn runner_builder_sets_one_thing_at_a_time() {
    let mut runner = CmdRunner::new("echo");
    assert_eq!(runner.program, "echo");
    assert!(runner.args.is_empty());
    assert!(!runner.exclusive);
    assert!(runner.print_info);
    assert_eq!(runner.command_line(), "echo ");
    runner.arg("one");
    runner.args(&vec!["two".to_string(), "three".to_string()]);
    assert_eq!(runner.args, vec!["one", "two", "three"]);
    assert_eq!(runner.command_line(), "echo one two three");
    runner.timeout(Duration::from_millis(250));
    assert_eq!(runner.timeout, Some(Duration::from_millis(250)));
    assert_eq!(runner.effective_timeout(), Duration::from_millis(250));
    assert_eq!(runner.timeout_or(Duration::from_secs(9)), Duration::from_millis(250));
    runner.capture_stdout();
    assert!(runner.capture_stdout && !runner.capture_stderr);
    runner.capture_stderr();
    assert!(runner.capture_stderr);
    runner.quiet();
    assert!(!runner.print_info);
    runner.exclusive();
    runner.exclusive();
    assert!(runner.exclusive);
    assert_eq!(runner.args, vec!["one", "two", "three"]);
    assert_eq!(runner.program, "echo");
}

#[test]
fn logging_is_verbose_only_when_asked() {
    assert_eq!(logging_config(true), LoggingConfig::verbose());
    assert_eq!(logging_config(false), LoggingConfig::default());
    assert!(LoggingConfig::verbose().verbose);
    assert!(!LoggingConfig::default().verbose);
}

#[test]
fn components_of_the_library_declare_nothing_and_shut_down() {
    let mut terminal: TerminalComponent<u8> = TerminalComponent::new(ColorChoice::Always);
    assert_eq!(terminal.dependencies(), vec![]);
    assert_eq!(terminal.before_shutdown(), Ok(()));
    assert_eq!(terminal.color_choice(), ColorChoice::Always);
    let mut runtime: TokioComponent<u8, ()> = TokioComponent::from(1);
    assert_eq!(runtime.dependencies(), vec![]);
    assert_eq!(runtime.before_shutdown(), Ok(()));
    assert_eq!(runtime.runtime(), Ok(&1));
}
