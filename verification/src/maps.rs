//! The two hash maps of a task, both `fxhash::FxHashMap`s keyed by output name:
//! the resolved entries and the rendered output. Verus does not look into
//! them; what they hold is named here, and the calls that fill them are
//! trusted to do to the contents what the standard library documents.

use crate::output::{Artifact, ArtifactView};
use fxhash::FxHashMap;
use vstd::prelude::*;

verus! {

/// The hasher of `fxhash`.
#[verifier::external_type_specification]
#[verifier::external_body]
pub struct ExFxHasher(fxhash::FxHasher);

/// The hasher builder of `std` that `fxhash::FxHashMap` is defined with.
#[verifier::external_type_specification]
#[verifier::external_body]
#[verifier::reject_recursive_types(H)]
pub struct ExBuildHasherDefault<H>(std::hash::BuildHasherDefault<H>);

/// The map from output name to input path that the entries of a task resolve
/// to.
pub type ResolvedEntryMap = FxHashMap<String, String>;

/// The map from output name to artifact that a task succeeds with.
pub type RenderedOutput = FxHashMap<String, Artifact>;

/// What a map of output names and input paths holds.
pub uninterp spec fn resolved_paths(entries: FxHashMap<String, String>) -> Map<Seq<char>, Seq<char>>;

/// What a map of output names and artifacts holds.
pub uninterp spec fn rendered_artifacts(output: FxHashMap<String, Artifact>) -> Map<
    Seq<char>,
    ArtifactView,
>;

/// Makes an empty map of entries by `Default::default`.
///
/// Trusted: the new map holds nothing.
#[verifier::external_body]
pub(crate) fn no_entries() -> (entries: FxHashMap<String, String>)
    ensures
        resolved_paths(entries) == (Map::<Seq<char>, Seq<char>>::empty()),
{
    FxHashMap::default()
}

/// Calls `HashMap::insert` on a map of entries and drops the path that it
/// replaced, if any.
///
/// Trusted: afterwards the map holds `path` under `name`, in place of what was
/// under that name, and every other entry as before.
#[verifier::external_body]
pub(crate) fn insert_entry(entries: &mut FxHashMap<String, String>, name: String, path: String)
    ensures
        resolved_paths(*final(entries)) == resolved_paths(*old(entries)).insert(name@, path@),
{
    entries.insert(name, path);
}

/// Makes an empty map of artifacts by `Default::default`.
///
/// Trusted: the new map holds nothing.
#[verifier::external_body]
pub(crate) fn no_output() -> (output: FxHashMap<String, Artifact>)
    ensures
        rendered_artifacts(output) == (Map::<Seq<char>, ArtifactView>::empty()),
{
    FxHashMap::default()
}

/// Calls `HashMap::insert` on a map of artifacts and drops the artifact that
/// it replaced, if any.
///
/// Trusted: afterwards the map holds `artifact` under `name`, in place of what
/// was under that name, and every other entry as before.
#[verifier::external_body]
pub(crate) fn insert_artifact(
    output: &mut FxHashMap<String, Artifact>,
    name: String,
    artifact: Artifact,
)
    ensures
        rendered_artifacts(*final(output)) == rendered_artifacts(*old(output)).insert(
            name@,
            artifact@,
        ),
{
    output.insert(name, artifact);
}

} // verus!
