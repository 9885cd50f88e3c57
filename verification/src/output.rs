//! Rendered output: the artifact of each bundle, and the output renderer that
//! asks the printing service for it.

use crate::error::RenderError;
use vstd::prelude::*;

verus! {

/// What the printing service makes of one linked module.
#[derive(Clone, Debug, PartialEq, Eq)]
pub struct Artifact {
    /// The printed text.
    pub code: String,
    /// The source map, where one was made.
    pub map: Option<String>,
}

/// An artifact as a value of the model.
pub struct ArtifactView {
    pub code: Seq<char>,
    pub map: Option<Seq<char>>,
}

impl View for Artifact {
    type V = ArtifactView;

    open spec fn view(&self) -> ArtifactView {
        ArtifactView {
            code: self.code@,
            map: match self.map {
                Some(map) => Some(map@),
                None => None,
            },
        }
    }
}

/// What the printing service answered, as a value of the model.
pub open spec fn printed_view(printed: Result<Artifact, String>) -> Result<ArtifactView, Seq<char>> {
    match printed {
        Ok(artifact) => Ok(artifact@),
        Err(cause) => Err(cause@),
    }
}

/// What the renderer returned, as a value of the model.
pub open spec fn rendered_view(rendered: Result<Artifact, RenderError>) -> Result<
    ArtifactView,
    Seq<char>,
> {
    match rendered {
        Ok(artifact) => Ok(artifact@),
        Err(error) => Err(error.cause@),
    }
}

/// `rendered` is what the renderer may return for `module` when it works
/// through `printer`: the printer's own answer to the same three arguments,
/// an artifact as it is and a failure as a render error.
pub open spec fn renders_to<M, P: Fn(&M, bool, bool) -> Result<Artifact, String>>(
    printer: &P,
    module: &M,
    source_maps: bool,
    minify: bool,
    rendered: Result<Artifact, RenderError>,
) -> bool {
    match rendered {
        Ok(artifact) => printer.ensures((module, source_maps, minify), Ok(artifact)),
        Err(error) => printer.ensures((module, source_maps, minify), Err(error.cause)),
    }
}

/// Renders one linked module. The printing service is called once, with the
/// module and the two flags as they were given.
pub fn render<M, P: Fn(&M, bool, bool) -> Result<Artifact, String>>(
    module: &M,
    source_maps: bool,
    minify: bool,
    printer: &P,
) -> (rendered: Result<Artifact, RenderError>)
    requires
        printer.requires((module, source_maps, minify)),
    ensures
        renders_to(printer, module, source_maps, minify, rendered),
{
    match printer(module, source_maps, minify) {
        Ok(artifact) => Ok(artifact),
        Err(cause) => Err(RenderError { cause }),
    }
}

/// The printing service is a function of its arguments: whatever it may answer
/// to a module and two flags, it answers the same text every time.
pub open spec fn is_pure<M, P: Fn(&M, bool, bool) -> Result<Artifact, String>>(printer: &P) -> bool {
    forall|
        module: &M,
        source_maps: bool,
        minify: bool,
        first: Result<Artifact, String>,
        second: Result<Artifact, String>,
    |
        #![trigger
            printer.ensures((module, source_maps, minify), first),
            printer.ensures((module, source_maps, minify), second),
        ]
        printer.ensures((module, source_maps, minify), first) && printer.ensures(
            (module, source_maps, minify),
            second,
        ) ==> printed_view(first) == printed_view(second)
}

/// Rendering the same module twice with the same flags gives the same
/// artifact, character for character, where the printing service is a
/// function of its arguments.
pub proof fn lemma_render_is_repeatable<M, P: Fn(&M, bool, bool) -> Result<Artifact, String>>(
    printer: &P,
    module: &M,
    source_maps: bool,
    minify: bool,
    first: Result<Artifact, RenderError>,
    second: Result<Artifact, RenderError>,
)
    requires
        is_pure(printer),
        renders_to(printer, module, source_maps, minify, first),
        renders_to(printer, module, source_maps, minify, second),
    ensures
        rendered_view(first) == rendered_view(second),
{
    let printed_first: Result<Artifact, String> = match first {
        Ok(artifact) => Ok(artifact),
        Err(error) => Err(error.cause),
    };
    let printed_second: Result<Artifact, String> = match second {
        Ok(artifact) => Ok(artifact),
        Err(error) => Err(error.cause),
    };
    assert(printer.ensures((module, source_maps, minify), printed_first));
    assert(printer.ensures((module, source_maps, minify), printed_second));
    assert(printed_view(printed_first) == printed_view(printed_second));
}

} // verus!
