use bundle_task::bundles::{accept_bundles, Bundle, BundleKind};
use bundle_task::error::BundleError;

fn named(name: &str, module: u32) -> Bundle<u32> {
    Bundle { kind: BundleKind::Named { name: name.to_string() }, module }
}

fn lib(name: &str, module: u32) -> Bundle<u32> {
    Bundle { kind: BundleKind::Lib { name: name.to_string() }, module }
}

fn dynamic(module: u32) -> Bundle<u32> {
    Bundle { kind: BundleKind::Dynamic, module }
}

#[test]
fn named_and_lib_bundles_are_accepted_in_order() {
    let accepted = accept_bundles(vec![named("main", 1), lib("vendor", 2), named("worker", 3)]);
    assert_eq!(
        accepted,
        Ok(vec![("main".to_string(), 1), ("vendor".to_string(), 2), ("worker".to_string(), 3)])
    );
}

#[test]
fn no_bundles_are_accepted_as_none() {
    assert_eq!(accept_bundles(Vec::<Bundle<u32>>::new()), Ok(Vec::new()));
}

#[test]
fn dynamic_bundle_alone_is_rejected() {
    assert_eq!(
        accept_bundles(vec![dynamic(1)]),
        Err(BundleError::Unsupported("dynamic code splitting".to_string()))
    );
}

#[test]
fn dynamic_bundle_rejects_the_others_wherever_it_stands() {
    let expected = Err(BundleError::Unsupported("dynamic code splitting".to_string()));
    assert_eq!(accept_bundles(vec![dynamic(0), named("a", 1), lib("b", 2)]), expected);
    assert_eq!(accept_bundles(vec![named("a", 1), dynamic(0), lib("b", 2)]), expected);
    assert_eq!(accept_bundles(vec![named("a", 1), lib("b", 2), dynamic(0)]), expected);
}

#[test]
fn bundles_of_one_name_are_both_accepted() {
    let accepted = accept_bundles(vec![named("main", 1), lib("main", 2)]);
    assert_eq!(accepted, Ok(vec![("main".to_string(), 1), ("main".to_string(), 2)]));
}
