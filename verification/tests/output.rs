use bundle_task::error::RenderError;
use bundle_task::output::{render, Artifact};
use std::cell::RefCell;

fn print_source(module: &String, source_maps: bool, minify: bool) -> Result<Artifact, String> {
    if module.is_empty() {
        return Err("nothing to print".to_string());
    }
    let code = if minify { module.replace(' ', "") } else { module.clone() };
    let map = if source_maps { Some(format!("map of {}", module)) } else { None };
    Ok(Artifact { code, map })
}

#[test]
fn render_hands_the_printed_artifact_on() {
    let module = "let a = 1;".to_string();
    let rendered = render(&module, true, false, &print_source);
    assert_eq!(
        rendered,
        Ok(Artifact {
            code: "let a = 1;".to_string(),
            map: Some("map of let a = 1;".to_string()),
        })
    );
}

#[test]
fn render_passes_the_minify_flag() {
    let module = "let a = 1;".to_string();
    let rendered = render(&module, true, true, &print_source);
    assert_eq!(rendered.map(|artifact| artifact.code), Ok("leta=1;".to_string()));
}

#[test]
fn render_passes_the_source_map_flag() {
    let module = "let a = 1;".to_string();
    let rendered = render(&module, false, false, &print_source);
    assert_eq!(rendered, Ok(Artifact { code: "let a = 1;".to_string(), map: None }));
}

#[test]
fn render_turns_a_printer_failure_into_a_render_error() {
    let rendered = render(&String::new(), true, true, &print_source);
    assert_eq!(rendered, Err(RenderError { cause: "nothing to print".to_string() }));
}

#[test]
fn render_calls_the_printer_once() {
    let calls = RefCell::new(Vec::new());
    let printer = |module: &u8, source_maps: bool, minify: bool| -> Result<Artifact, String> {
        calls.borrow_mut().push((*module, source_maps, minify));
        Ok(Artifact { code: String::new(), map: None })
    };
    let rendered = render(&7u8, true, false, &printer);
    assert!(rendered.is_ok());
    assert_eq!(*calls.borrow(), vec![(7u8, true, false)]);
}

#[test]
fn rendering_twice_gives_the_same_artifact() {
    let module = "export default 42;".to_string();
    let first = render(&module, true, true, &print_source);
    let second = render(&module, true, true, &print_source);
    assert!(first.is_ok());
    assert_eq!(first, second);
    let failed_first = render(&String::new(), true, false, &print_source);
    let failed_second = render(&String::new(), true, false, &print_source);
    assert!(failed_first.is_err());
    assert_eq!(failed_first, failed_second);
}
