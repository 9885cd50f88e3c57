//! The bundles that the engine hands back, and which of them are accepted.

use crate::error::{BundleError, Failure, DYNAMIC_CODE_SPLITTING};
use vstd::prelude::*;

verus! {

/// The kind of a bundle. `Named` and `Lib` bundles are treated alike; a
/// `Dynamic` bundle is one made for loading on demand.
#[derive(Clone, Debug, PartialEq, Eq)]
pub enum BundleKind {
    Named { name: String },
    Lib { name: String },
    Dynamic,
}

impl BundleKind {
    /// The output name that the kind carries; a dynamic bundle carries none.
    pub open spec fn output_name(self) -> Option<Seq<char>> {
        match self {
            BundleKind::Named { name } => Some(name@),
            BundleKind::Lib { name } => Some(name@),
            BundleKind::Dynamic => None,
        }
    }
}

/// One linked module graph with its kind. The module is whatever the engine
/// links and the printing service prints; nothing here looks into it.
#[derive(Clone, Debug, PartialEq, Eq)]
pub struct Bundle<M> {
    pub kind: BundleKind,
    pub module: M,
}

/// Some bundle among `bundles` is dynamic.
pub open spec fn has_dynamic<M>(bundles: Seq<Bundle<M>>) -> bool {
    exists|i: int| 0 <= i < bundles.len() && (#[trigger] bundles[i]).kind is Dynamic
}

/// `accepted` holds the name and the module of each of `bundles`, in order.
pub open spec fn accepts<M>(bundles: Seq<Bundle<M>>, accepted: Seq<(String, M)>) -> bool {
    &&& accepted.len() == bundles.len()
    &&& forall|i: int|
        0 <= i < bundles.len() ==> bundles[i].kind.output_name() == Some((#[trigger] accepted[i]).0@)
            && accepted[i].1 == bundles[i].module
}

/// Accepts the bundles of a task: each `Named` or `Lib` bundle under the name
/// it carries. One dynamic bundle among them, wherever it stands, rejects them
/// all.
pub fn accept_bundles<M>(bundles: Vec<Bundle<M>>) -> (accepted: Result<Vec<(String, M)>, BundleError>)
    ensures
        has_dynamic(bundles@) <==> accepted is Err,
        accepted matches Err(error) ==> error@ == Failure::Unsupported(DYNAMIC_CODE_SPLITTING@),
        accepted matches Ok(pairs) ==> accepts(bundles@, pairs@),
{
    let mut pairs: Vec<(String, M)> = Vec::new();
    for bundle in it: bundles
        invariant
            pairs.len() == it.index(),
            it.seq() == bundles@,
            forall|i: int| 0 <= i < it.index() ==> !((#[trigger] bundles@[i]).kind is Dynamic),
            forall|i: int|
                0 <= i < it.index() ==> bundles@[i].kind.output_name() == Some(
                    (#[trigger] pairs@[i]).0@,
                ) && pairs@[i].1 == bundles@[i].module,
    {
        match bundle.kind {
            BundleKind::Named { name } => {
                pairs.push((name, bundle.module));
            },
            BundleKind::Lib { name } => {
                pairs.push((name, bundle.module));
            },
            BundleKind::Dynamic => {
                return Err(BundleError::dynamic_code_splitting());
            },
        }
    }
    Ok(pairs)
}

} // verus!
