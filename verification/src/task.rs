//! The bundle task: entry resolution, the engine, acceptance of its bundles
//! and the rendering of each, as one unit of work with one outcome.

use crate::bundles::{accept_bundles, accepts, has_dynamic, Bundle};
use crate::config::{
    effective_minify, effective_options, minify_of, omits_minify, options_or_neutral,
    Configuration, Options,
};
use crate::entries::{resolve, resolved_entries};
use crate::error::{BundleError, Failure, RenderError, DYNAMIC_CODE_SPLITTING, UNIMPLEMENTED};
use crate::keyed::{
    last_wins, lemma_last_given, lemma_last_wins_empty, lemma_last_wins_len, lemma_last_wins_push,
};
use crate::maps::{
    insert_artifact, no_output, rendered_artifacts, resolved_paths, RenderedOutput, ResolvedEntryMap,
};
use crate::output::{render, renders_to, Artifact, ArtifactView};
use vstd::prelude::*;

verus! {

/// What the engine is started on.
#[derive(Clone, Debug, PartialEq, Eq)]
pub struct EngineRequest {
    /// The directory that the engine works in.
    pub working_directory: String,
    /// The options that the engine is bound to.
    pub options: Options,
    /// The entry points: output names with their input paths.
    pub entries: ResolvedEntryMap,
}

impl EngineRequest {
    /// The request is the one that `config` calls for: its working directory,
    /// its options or else the neutral ones, and its entries resolved.
    pub open spec fn is_for(self, config: Configuration) -> bool {
        &&& self.working_directory@ == config.working_directory@
        &&& self.options == options_or_neutral(config.options)
        &&& resolved_paths(self.entries) == resolved_entries(
            config.working_directory@,
            config.entry@,
        )
    }
}

/// Makes the request that the engine is started on.
pub fn engine_request(config: &Configuration) -> (request: EngineRequest)
    ensures
        request.is_for(*config),
{
    EngineRequest {
        working_directory: config.working_directory.clone(),
        options: effective_options(&config.options),
        entries: resolve(config.working_directory.as_str(), &config.entry),
    }
}

/// What the two collaborators of a task answered in the course of one run:
/// the engine once, and the output renderer once for every module it was
/// given, in the order of the bundles.
pub struct Run<M> {
    pub linked: Result<Vec<Bundle<M>>, String>,
    pub rendered: Seq<Result<Artifact, RenderError>>,
}

/// The cause of the first failure among `rendered`, if any of them failed.
pub open spec fn first_failure(rendered: Seq<Result<Artifact, RenderError>>) -> Option<Seq<char>>
    decreases rendered.len(),
{
    if rendered.len() == 0 {
        None
    } else {
        match first_failure(rendered.drop_last()) {
            Some(cause) => Some(cause),
            None => match rendered.last() {
                Ok(_) => None,
                Err(error) => Some(error.cause@),
            },
        }
    }
}

/// The output name of each bundle with the artifact rendered for it, for as
/// many bundles as were rendered.
pub open spec fn output_pairs<M>(
    bundles: Seq<Bundle<M>>,
    rendered: Seq<Result<Artifact, RenderError>>,
) -> Seq<(Seq<char>, ArtifactView)> {
    Seq::new(rendered.len(), |i: int| (bundles[i].kind.output_name()->0, rendered[i]->Ok_0@))
}

impl<M> Run<M> {
    /// The bundles that are rendered: all that the engine linked, unless the
    /// engine failed or one of them is dynamic, and then none.
    pub open spec fn accepted(self) -> Seq<Bundle<M>> {
        match self.linked {
            Ok(bundles) => if has_dynamic(bundles@) {
                Seq::empty()
            } else {
                bundles@
            },
            Err(_) => Seq::empty(),
        }
    }

    /// The renderer was asked for the accepted bundles in turn, with source
    /// maps on and with `minify`, once each, and not again after its first
    /// failure.
    pub open spec fn rendered_in_turn<P: Fn(&M, bool, bool) -> Result<Artifact, String>>(
        self,
        printer: &P,
        minify: bool,
    ) -> bool {
        &&& self.rendered.len() <= self.accepted().len()
        &&& forall|i: int|
            0 <= i < self.rendered.len() ==> renders_to(
                printer,
                &self.accepted()[i].module,
                true,
                minify,
                #[trigger] self.rendered[i],
            )
        &&& forall|i: int| 0 <= i < self.rendered.len() - 1 ==> (#[trigger] self.rendered[i]) is Ok
        &&& self.rendered.len() < self.accepted().len() ==> self.rendered.len() > 0
            && self.rendered.last() is Err
    }

    /// The outcome of the task. A failure of the engine, a dynamic bundle and a
    /// failure of the renderer each end it without output, in this order of
    /// precedence; else the output holds the artifact of every bundle under
    /// the bundle's name, the later of two bundles of one name.
    pub open spec fn outcome(self) -> Result<Map<Seq<char>, ArtifactView>, Failure> {
        match self.linked {
            Err(cause) => Err(Failure::Engine(cause@)),
            Ok(bundles) => if has_dynamic(bundles@) {
                Err(Failure::Unsupported(DYNAMIC_CODE_SPLITTING@))
            } else {
                match first_failure(self.rendered) {
                    Some(cause) => Err(Failure::Render(cause)),
                    None => Ok(last_wins(output_pairs(bundles@, self.rendered))),
                }
            },
        }
    }
}

/// The outcome of a task as a value of the model.
pub open spec fn outcome_view(outcome: Result<RenderedOutput, BundleError>) -> Result<
    Map<Seq<char>, ArtifactView>,
    Failure,
> {
    match outcome {
        Ok(output) => Ok(rendered_artifacts(output)),
        Err(error) => Err(error@),
    }
}

/// `outcome` is what a task on `config` may end with when it works through
/// `engine` and `printer`: there is a run in which the engine answered the
/// request of `config`, the renderer was asked in turn, and the run's outcome
/// is `outcome`.
pub open spec fn ends_with<
    M,
    E: FnOnce(EngineRequest) -> Result<Vec<Bundle<M>>, String>,
    P: Fn(&M, bool, bool) -> Result<Artifact, String>,
>(
    config: Configuration,
    engine: E,
    printer: &P,
    outcome: Result<RenderedOutput, BundleError>,
) -> bool {
    exists|request: EngineRequest, run: Run<M>|
        #![trigger engine.ensures((request,), run.linked)]
        {
            &&& request.is_for(config)
            &&& engine.ensures((request,), run.linked)
            &&& run.rendered_in_turn(printer, minify_of(config.options))
            &&& outcome_view(outcome) == run.outcome()
        }
}

/// Runs one bundling task from beginning to end: resolves the entries, starts
/// the engine on them, accepts its bundles, renders each with source maps on
/// and the effective minify flag, and collects the artifacts under the
/// bundles' names. The first failure ends the task, and a failed task returns
/// no output.
pub fn execute<
    M,
    E: FnOnce(EngineRequest) -> Result<Vec<Bundle<M>>, String>,
    P: Fn(&M, bool, bool) -> Result<Artifact, String>,
>(config: &Configuration, engine: E, printer: &P) -> (outcome: Result<RenderedOutput, BundleError>)
    requires
        forall|request: EngineRequest| request.is_for(*config) ==> engine.requires((request,)),
        forall|request: EngineRequest, bundles: Vec<Bundle<M>>, i: int|
            request.is_for(*config) && #[trigger] engine.ensures((request,), Ok(bundles)) && 0 <= i
                < bundles@.len() ==> printer.requires(
                (&(#[trigger] bundles@[i]).module, true, minify_of(config.options)),
            ),
    ensures
        ends_with(*config, engine, printer, outcome),
{
    let request = engine_request(config);
    let minify = effective_minify(&config.options);
    let linked = engine(request);
    let ghost mut run = Run { linked, rendered: Seq::empty() };
    let bundles = match linked {
        Ok(bundles) => bundles,
        Err(cause) => {
            let outcome = Err(BundleError::Engine(cause));
            proof {
                assert(run.rendered_in_turn(printer, minify));
                assert(engine.ensures((request,), run.linked));
            }
            return outcome;
        },
    };
    let accepted = match accept_bundles(bundles) {
        Ok(accepted) => accepted,
        Err(error) => {
            proof {
                assert(run.rendered_in_turn(printer, minify));
                assert(engine.ensures((request,), run.linked));
            }
            return Err(error);
        },
    };
    let mut output = no_output();
    proof {
        lemma_last_wins_empty::<ArtifactView>();
        assert(output_pairs(bundles@, run.rendered) =~= Seq::empty());
    }
    for pair in it: accepted
        invariant
            it.seq() == accepted@,
            accepts(bundles@, accepted@),
            !has_dynamic(bundles@),
            run.linked == Ok::<Vec<Bundle<M>>, String>(bundles),
            run.rendered.len() == it.index(),
            engine.ensures((request,), run.linked),
            request.is_for(*config),
            minify == minify_of(config.options),
            forall|i: int|
                0 <= i < bundles@.len() ==> printer.requires(
                    (&(#[trigger] bundles@[i]).module, true, minify),
                ),
            forall|i: int|
                0 <= i < run.rendered.len() ==> renders_to(
                    printer,
                    &bundles@[i].module,
                    true,
                    minify,
                    #[trigger] run.rendered[i],
                ),
            forall|i: int| 0 <= i < run.rendered.len() ==> (#[trigger] run.rendered[i]) is Ok,
            first_failure(run.rendered) is None,
            rendered_artifacts(output) == last_wins(output_pairs(bundles@, run.rendered)),
    {
        let ghost before = run.rendered;
        let ghost n = before.len() as int;
        let rendered = render(&pair.1, true, minify, printer);
        proof {
            run = Run { linked: run.linked, rendered: before.push(rendered) };
            assert(run.rendered.drop_last() =~= before);
            assert(pair == accepted@[n]);
            assert(bundles@[n].module == pair.1);
        }
        match rendered {
            Ok(artifact) => {
                proof {
                    let name = bundles@[n].kind.output_name()->0;
                    assert(output_pairs(bundles@, run.rendered) =~= output_pairs(
                        bundles@,
                        before,
                    ).push((name, artifact@)));
                    lemma_last_wins_push(output_pairs(bundles@, before), name, artifact@);
                }
                insert_artifact(&mut output, pair.0, artifact);
            },
            Err(error) => {
                proof {
                    assert(run.accepted() == bundles@);
                    assert(run.rendered_in_turn(printer, minify));
                    assert(engine.ensures((request,), run.linked));
                }
                return Err(BundleError::Render(error.cause));
            },
        }
    }
    proof {
        assert(run.accepted() == bundles@);
        assert(run.rendered_in_turn(printer, minify));
        assert(engine.ensures((request,), run.linked));
    }
    Ok(output)
}

/// The render at position `i` failed, and none before it.
pub open spec fn is_first_failure(rendered: Seq<Result<Artifact, RenderError>>, i: int) -> bool {
    &&& 0 <= i < rendered.len()
    &&& rendered[i] is Err
    &&& forall|j: int| 0 <= j < i ==> (#[trigger] rendered[j]) is Ok
}

/// No render failed exactly when every render gave an artifact; and where one
/// failed, the first failure is the cause of the first that did.
pub proof fn lemma_first_failure(rendered: Seq<Result<Artifact, RenderError>>)
    ensures
        first_failure(rendered) is None <==> forall|i: int|
            0 <= i < rendered.len() ==> (#[trigger] rendered[i]) is Ok,
        first_failure(rendered) is Some ==> exists|i: int|
            #[trigger] is_first_failure(rendered, i) && rendered[i]->Err_0.cause@ == first_failure(
                rendered,
            )->0,
    decreases rendered.len(),
{
    if rendered.len() > 0 {
        let front = rendered.drop_last();
        lemma_first_failure(front);
        assert forall|i: int| 0 <= i < front.len() implies front[i] == rendered[i] by {}
        if first_failure(front) is Some {
            let i = choose|i: int|
                #[trigger] is_first_failure(front, i) && front[i]->Err_0.cause@ == first_failure(
                    front,
                )->0;
            assert(rendered[i] == front[i]);
            assert forall|j: int| 0 <= j < i implies (#[trigger] rendered[j]) is Ok by {
                assert(front[j] is Ok);
            }
            assert(is_first_failure(rendered, i));
        } else {
            let i = rendered.len() - 1;
            assert forall|j: int| 0 <= j < i implies (#[trigger] rendered[j]) is Ok by {
                assert(front[j] is Ok);
            }
            if rendered.last() is Err {
                assert(rendered[i] is Err);
                assert(is_first_failure(rendered, i));
            } else {
                assert forall|j: int| 0 <= j < rendered.len() implies (#[trigger] rendered[j]) is Ok by {
                    if j < i {
                        assert(front[j] is Ok);
                    }
                }
            }
        }
    }
}

/// A failure of the engine is the failure of the task: whatever the engine
/// could not load, resolve or link, the task ends with the engine's cause and
/// without output, and nothing is rendered.
pub proof fn lemma_engine_failure_is_fatal<M>(run: Run<M>)
    requires
        run.linked is Err,
    ensures
        run.outcome() == Err::<Map<Seq<char>, ArtifactView>, Failure>(
            Failure::Engine(run.linked->Err_0@),
        ),
        run.accepted().len() == 0,
{
}

/// One dynamic bundle rejects the whole task: whatever else the engine linked
/// and however the renderer would answer, the task ends as unsupported, with
/// dynamic code splitting named in its message, and nothing is rendered.
pub proof fn lemma_dynamic_rejects_all<M>(run: Run<M>)
    requires
        run.linked is Ok,
        has_dynamic(run.linked->Ok_0@),
    ensures
        run.outcome() == Err::<Map<Seq<char>, ArtifactView>, Failure>(
            Failure::Unsupported(DYNAMIC_CODE_SPLITTING@),
        ),
        run.outcome()->Err_0.message() == UNIMPLEMENTED@ + DYNAMIC_CODE_SPLITTING@,
        run.accepted().len() == 0,
{
}

/// A failure of the renderer is the failure of the task: the artifacts that
/// were rendered before it are dropped, and the bundles after it are not
/// rendered.
pub proof fn lemma_render_failure_is_fatal<M, P: Fn(&M, bool, bool) -> Result<Artifact, String>>(
    run: Run<M>,
    printer: &P,
    minify: bool,
    i: int,
)
    requires
        run.rendered_in_turn(printer, minify),
        0 <= i < run.rendered.len(),
        run.rendered[i] is Err,
    ensures
        i == run.rendered.len() - 1,
        run.outcome() == Err::<Map<Seq<char>, ArtifactView>, Failure>(
            Failure::Render(run.rendered[i]->Err_0.cause@),
        ),
{
    lemma_first_failure(run.rendered);
    if i < run.rendered.len() - 1 {
        assert(run.rendered[i] is Ok);
    }
    assert(run.accepted().len() > 0);
    let k = choose|k: int|
        #[trigger] is_first_failure(run.rendered, k) && run.rendered[k]->Err_0.cause@
            == first_failure(run.rendered)->0;
    if k < i {
        assert(run.rendered[k] is Ok);
    }
}

/// A task has output only where nothing failed, and then all of it: the engine
/// linked, no bundle is dynamic, every bundle was rendered, and the output
/// holds under each bundle's name the artifact of the last bundle of that
/// name. There is no partial output.
pub proof fn lemma_output_is_complete<M, P: Fn(&M, bool, bool) -> Result<Artifact, String>>(
    run: Run<M>,
    printer: &P,
    minify: bool,
)
    requires
        run.rendered_in_turn(printer, minify),
        run.outcome() is Ok,
    ensures
        run.linked is Ok,
        !has_dynamic(run.linked->Ok_0@),
        run.rendered.len() == run.linked->Ok_0@.len(),
        forall|i: int| 0 <= i < run.rendered.len() ==> (#[trigger] run.rendered[i]) is Ok,
        run.outcome()->Ok_0 == last_wins(output_pairs(run.linked->Ok_0@, run.rendered)),
        run.outcome()->Ok_0.dom().finite(),
        run.outcome()->Ok_0.len() <= run.linked->Ok_0@.len(),
        forall|i: int|
            0 <= i < run.linked->Ok_0@.len() ==> run.outcome()->Ok_0.contains_key(
                (#[trigger] run.linked->Ok_0@[i]).kind.output_name()->0,
            ),
{
    let bundles = run.linked->Ok_0@;
    let pairs = output_pairs(bundles, run.rendered);
    lemma_first_failure(run.rendered);
    if run.rendered.len() < bundles.len() {
        assert(run.rendered[run.rendered.len() - 1] is Err);
    }
    lemma_last_wins_len(pairs);
    assert forall|i: int| 0 <= i < bundles.len() implies run.outcome()->Ok_0.contains_key(
        (#[trigger] bundles[i]).kind.output_name()->0,
    ) by {
        lemma_last_given(pairs, bundles[i].kind.output_name()->0);
        assert(pairs[i].0 == bundles[i].kind.output_name()->0);
    }
}

/// A task whose options give no minify flag has every module rendered
/// unminified.
pub proof fn lemma_renders_unminified_by_default<
    M,
    P: Fn(&M, bool, bool) -> Result<Artifact, String>,
>(config: Configuration, run: Run<M>, printer: &P)
    requires
        omits_minify(config.options),
        run.rendered_in_turn(printer, minify_of(config.options)),
    ensures
        run.rendered_in_turn(printer, false),
{
}

/// Where the engine links, no bundle is dynamic and the renderer gives an
/// artifact for every module, the task succeeds.
pub proof fn lemma_success<M, P: Fn(&M, bool, bool) -> Result<Artifact, String>>(
    run: Run<M>,
    printer: &P,
    minify: bool,
)
    requires
        run.rendered_in_turn(printer, minify),
        run.linked is Ok,
        !has_dynamic(run.linked->Ok_0@),
        forall|i: int| 0 <= i < run.rendered.len() ==> (#[trigger] run.rendered[i]) is Ok,
    ensures
        run.outcome() is Ok,
        run.rendered.len() == run.linked->Ok_0@.len(),
{
    lemma_first_failure(run.rendered);
    if run.rendered.len() < run.linked->Ok_0@.len() {
        assert(run.rendered[run.rendered.len() - 1] is Err);
    }
}

} // verus!
