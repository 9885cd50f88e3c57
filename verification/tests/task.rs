use bundle_task::bundles::{Bundle, BundleKind};
use bundle_task::config::{Configuration, EntrySpec, Options, OptionsConfig};
use bundle_task::error::BundleError;
use bundle_task::output::Artifact;
use bundle_task::task::{engine_request, execute, EngineRequest};
use std::cell::RefCell;

fn minify_options(flag: Option<bool>) -> Option<Options> {
    Some(Options { config: Some(OptionsConfig { minify: flag }) })
}

fn configuration(entry: EntrySpec, options: Option<Options>) -> Configuration {
    Configuration { working_directory: "/proj".to_string(), entry, options }
}

fn named_bundle(name: &str, source: &str) -> Bundle<String> {
    Bundle { kind: BundleKind::Named { name: name.to_string() }, module: source.to_string() }
}

fn lib_bundle(name: &str, source: &str) -> Bundle<String> {
    Bundle { kind: BundleKind::Lib { name: name.to_string() }, module: source.to_string() }
}

fn dynamic_bundle(source: &str) -> Bundle<String> {
    Bundle { kind: BundleKind::Dynamic, module: source.to_string() }
}

fn print_module(module: &String, source_maps: bool, minify: bool) -> Result<Artifact, String> {
    if module.contains("syntax error") {
        return Err(format!("cannot print: {}", module));
    }
    let code = if minify { module.replace(' ', "") } else { module.clone() };
    let map = if source_maps { Some(format!("{{\"sources\":[\"{}\"]}}", module)) } else { None };
    Ok(Artifact { code, map })
}

#[test]
fn request_carries_directory_options_and_entries() {
    let config = configuration(
        EntrySpec::NamedFiles(vec![("main".to_string(), "src/index.js".to_string())]),
        minify_options(Some(true)),
    );
    let request = engine_request(&config);
    assert_eq!(request.working_directory, "/proj");
    assert_eq!(request.options, Options { config: Some(OptionsConfig { minify: Some(true) }) });
    assert_eq!(request.entries.len(), 1);
    assert_eq!(request.entries.get("main"), Some(&"/proj/src/index.js".to_string()));
}

#[test]
fn request_without_options_carries_neutral_options() {
    let config = configuration(EntrySpec::SingleFile("a.js".to_string()), None);
    let request = engine_request(&config);
    assert_eq!(request.options, Options { config: None });
    assert_eq!(request.entries.get("a.js"), Some(&"/proj/a.js".to_string()));
}

#[test]
fn named_entry_with_minify_is_rendered_minified_with_map() {
    let config = configuration(
        EntrySpec::NamedFiles(vec![("main".to_string(), "src/index.js".to_string())]),
        minify_options(Some(true)),
    );
    let engine = |request: EngineRequest| -> Result<Vec<Bundle<String>>, String> {
        assert_eq!(request.working_directory, "/proj");
        assert_eq!(request.entries.len(), 1);
        match request.entries.get("main") {
            Some(path) if path == "/proj/src/index.js" => {
                Ok(vec![named_bundle("main", "export default 1 ;")])
            }
            other => Err(format!("unexpected entry: {:?}", other)),
        }
    };
    let output = execute(&config, engine, &print_module).expect("the task succeeds");
    assert_eq!(output.len(), 1);
    let artifact = output.get("main").expect("the output holds main");
    assert_eq!(artifact.code, "exportdefault1;");
    assert!(artifact.map.is_some());
}

#[test]
fn missing_entry_file_fails_the_task_with_the_load_error() {
    let config = Configuration::new(None, EntrySpec::SingleFile("a.js".to_string()), None);
    let engine = |request: EngineRequest| -> Result<Vec<Bundle<String>>, String> {
        let path = request.entries.get("a.js").cloned().unwrap_or_default();
        Err(format!("failed to load {}: No such file or directory", path))
    };
    let outcome = execute(&config, engine, &print_module);
    assert_eq!(
        outcome,
        Err(BundleError::Engine("failed to load a.js: No such file or directory".to_string()))
    );
    assert!(outcome.unwrap_err().message().contains("failed to load"));
}

#[test]
fn engine_failure_renders_nothing() {
    let config = configuration(EntrySpec::MultipleFiles(vec!["a.js".to_string()]), None);
    let calls = RefCell::new(0u32);
    let printer = |module: &String, source_maps: bool, minify: bool| {
        *calls.borrow_mut() += 1;
        print_module(module, source_maps, minify)
    };
    let outcome = execute(
        &config,
        |_request: EngineRequest| -> Result<Vec<Bundle<String>>, String> {
            Err("cannot resolve ./missing".to_string())
        },
        &printer,
    );
    assert_eq!(outcome, Err(BundleError::Engine("cannot resolve ./missing".to_string())));
    assert_eq!(*calls.borrow(), 0);
}

#[test]
fn dynamic_bundle_fails_the_task_however_many_others_there_are() {
    let config = configuration(
        EntrySpec::MultipleFiles(vec!["a.js".to_string(), "b.js".to_string()]),
        None,
    );
    let calls = RefCell::new(0u32);
    let printer = |module: &String, source_maps: bool, minify: bool| {
        *calls.borrow_mut() += 1;
        print_module(module, source_maps, minify)
    };
    let outcome = execute(
        &config,
        |_request: EngineRequest| -> Result<Vec<Bundle<String>>, String> {
            Ok(vec![
                named_bundle("a.js", "a"),
                lib_bundle("b.js", "b"),
                dynamic_bundle("lazy"),
                named_bundle("c.js", "c"),
            ])
        },
        &printer,
    );
    assert_eq!(outcome, Err(BundleError::Unsupported("dynamic code splitting".to_string())));
    assert!(outcome.unwrap_err().message().contains("dynamic code splitting"));
    assert_eq!(*calls.borrow(), 0);
}

#[test]
fn dynamic_bundle_takes_precedence_over_a_render_failure() {
    let config = configuration(EntrySpec::SingleFile("a.js".to_string()), None);
    let outcome = execute(
        &config,
        |_request: EngineRequest| -> Result<Vec<Bundle<String>>, String> {
            Ok(vec![named_bundle("a.js", "syntax error"), dynamic_bundle("lazy")])
        },
        &print_module,
    );
    assert_eq!(outcome, Err(BundleError::Unsupported("dynamic code splitting".to_string())));
}

#[test]
fn render_failure_fails_the_task_and_stops_rendering() {
    let config = configuration(EntrySpec::SingleFile("a.js".to_string()), None);
    let seen = RefCell::new(Vec::new());
    let printer = |module: &String, source_maps: bool, minify: bool| {
        seen.borrow_mut().push(module.clone());
        print_module(module, source_maps, minify)
    };
    let outcome = execute(
        &config,
        |_request: EngineRequest| -> Result<Vec<Bundle<String>>, String> {
            Ok(vec![
                named_bundle("a", "fine"),
                named_bundle("b", "syntax error here"),
                named_bundle("c", "never printed"),
            ])
        },
        &printer,
    );
    assert_eq!(outcome, Err(BundleError::Render("cannot print: syntax error here".to_string())));
    assert_eq!(*seen.borrow(), vec!["fine".to_string(), "syntax error here".to_string()]);
}

#[test]
fn every_bundle_is_rendered_once_with_source_maps_on() {
    let config = configuration(EntrySpec::SingleFile("a.js".to_string()), minify_options(Some(false)));
    let seen = RefCell::new(Vec::new());
    let printer = |module: &String, source_maps: bool, minify: bool| {
        seen.borrow_mut().push((module.clone(), source_maps, minify));
        print_module(module, source_maps, minify)
    };
    let output = execute(
        &config,
        |_request: EngineRequest| -> Result<Vec<Bundle<String>>, String> {
            Ok(vec![named_bundle("a", "one"), lib_bundle("b", "two")])
        },
        &printer,
    )
    .expect("the task succeeds");
    assert_eq!(
        *seen.borrow(),
        vec![("one".to_string(), true, false), ("two".to_string(), true, false)]
    );
    assert_eq!(output.len(), 2);
    assert_eq!(output.get("a").map(|artifact| artifact.code.as_str()), Some("one"));
    assert_eq!(output.get("b").map(|artifact| artifact.code.as_str()), Some("two"));
    assert!(output.values().all(|artifact| artifact.map.is_some()));
}

#[test]
fn omitted_minify_renders_unminified() {
    for options in [None, Some(Options { config: None }), minify_options(None)] {
        let config = configuration(EntrySpec::SingleFile("a.js".to_string()), options);
        let output = execute(
            &config,
            |_request: EngineRequest| -> Result<Vec<Bundle<String>>, String> {
                Ok(vec![named_bundle("a.js", "let a = 1 ;")])
            },
            &print_module,
        )
        .expect("the task succeeds");
        assert_eq!(output.get("a.js").map(|artifact| artifact.code.as_str()), Some("let a = 1 ;"));
    }
}

#[test]
fn later_bundle_of_one_name_replaces_the_earlier() {
    let config = configuration(EntrySpec::SingleFile("a.js".to_string()), None);
    let output = execute(
        &config,
        |_request: EngineRequest| -> Result<Vec<Bundle<String>>, String> {
            Ok(vec![named_bundle("main", "first"), lib_bundle("main", "second")])
        },
        &print_module,
    )
    .expect("the task succeeds");
    assert_eq!(output.len(), 1);
    assert_eq!(output.get("main").map(|artifact| artifact.code.as_str()), Some("second"));
}

#[test]
fn no_bundles_give_empty_output() {
    let config = configuration(EntrySpec::MultipleFiles(Vec::new()), None);
    let engine = |request: EngineRequest| -> Result<Vec<Bundle<String>>, String> {
        assert!(request.entries.is_empty());
        Ok(Vec::new())
    };
    let output = execute(&config, engine, &print_module).expect("the task succeeds");
    assert!(output.is_empty());
}

#[test]
fn same_task_twice_gives_the_same_output() {
    let config = configuration(
        EntrySpec::MultipleFiles(vec!["a.js".to_string(), "b.js".to_string()]),
        minify_options(Some(true)),
    );
    let engine = |_request: EngineRequest| -> Result<Vec<Bundle<String>>, String> {
        Ok(vec![named_bundle("a.js", "a = 1"), named_bundle("b.js", "b = 2")])
    };
    let first = execute(&config, engine, &print_module);
    let second = execute(&config, engine, &print_module);
    assert!(first.is_ok());
    assert_eq!(first, second);
}
