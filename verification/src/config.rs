//! The configuration that a bundling task is started with.

use vstd::prelude::*;

verus! {

/// One declared entry point: the name of the output and the path of its root
/// module, relative to the working directory.
pub struct Declaration {
    pub name: Seq<char>,
    pub path: Seq<char>,
}

/// The entry points of a task, in one of the three shapes a caller may give.
#[derive(Clone, Debug, PartialEq, Eq)]
pub enum EntrySpec {
    /// One file; the output is named after it.
    SingleFile(String),
    /// Several files; each output is named after its file.
    MultipleFiles(Vec<String>),
    /// Output names with the file of each, in the order declared.
    NamedFiles(Vec<(String, String)>),
}

impl View for EntrySpec {
    type V = Seq<Declaration>;

    /// The declarations that the entry stands for, in order.
    open spec fn view(&self) -> Seq<Declaration> {
        match self {
            EntrySpec::SingleFile(name) => seq![Declaration { name: name@, path: name@ }],
            EntrySpec::MultipleFiles(names) => Seq::new(
                names@.len(),
                |i: int| Declaration { name: names@[i]@, path: names@[i]@ },
            ),
            EntrySpec::NamedFiles(pairs) => Seq::new(
                pairs@.len(),
                |i: int| Declaration { name: pairs@[i].0@, path: pairs@[i].1@ },
            ),
        }
    }
}

/// The part of the bundler options that carries the minify flag.
#[derive(Clone, Copy, Debug, PartialEq, Eq)]
pub struct OptionsConfig {
    pub minify: Option<bool>,
}

/// Bundler options, as far as the task reads them.
#[derive(Clone, Copy, Debug, PartialEq, Eq)]
pub struct Options {
    pub config: Option<OptionsConfig>,
}

/// The minify flag that `options` asks for: `false` wherever a level of the
/// chain `options.config.minify` is absent.
pub open spec fn minify_of(options: Option<Options>) -> bool {
    match options {
        Some(Options { config: Some(OptionsConfig { minify: Some(flag) }) }) => flag,
        _ => false,
    }
}

/// `options` gives no minify flag, at whichever level the chain breaks off.
pub open spec fn omits_minify(options: Option<Options>) -> bool {
    ||| options is None
    ||| options->0.config is None
    ||| options->0.config->0.minify is None
}

/// The options that hold when none are given: every level absent.
pub open spec fn neutral_options() -> Options {
    Options { config: None }
}

/// The options that the engine is bound to.
pub open spec fn options_or_neutral(options: Option<Options>) -> Options {
    match options {
        Some(given) => given,
        None => neutral_options(),
    }
}

impl Options {
    /// The neutral options value.
    pub fn neutral() -> (options: Options)
        ensures
            options == neutral_options(),
    {
        Options { config: None }
    }
}

/// Reads the effective minify flag off optional options.
pub fn effective_minify(options: &Option<Options>) -> (minify: bool)
    ensures
        minify == minify_of(*options),
{
    match options {
        Some(given) => match &given.config {
            Some(config) => match config.minify {
                Some(flag) => flag,
                None => false,
            },
            None => false,
        },
        None => false,
    }
}

/// The options to bind the engine to: those given, or else the neutral ones.
pub fn effective_options(options: &Option<Options>) -> (effective: Options)
    ensures
        effective == options_or_neutral(*options),
{
    match options {
        Some(given) => *given,
        None => Options::neutral(),
    }
}

/// Options that give no minify flag leave minification off.
pub proof fn lemma_minify_defaults_to_false(options: Option<Options>)
    requires
        omits_minify(options),
    ensures
        !minify_of(options),
{
}

/// Binding the engine to the neutral options never changes the minify flag.
pub proof fn lemma_neutral_keeps_minify(options: Option<Options>)
    ensures
        minify_of(Some(options_or_neutral(options))) == minify_of(options),
{
}

/// Everything a task is given, fixed for its whole run.
#[derive(Clone, Debug, PartialEq, Eq)]
pub struct Configuration {
    /// The directory that relative entry paths are resolved against.
    pub working_directory: String,
    /// The entry points.
    pub entry: EntrySpec,
    /// The bundler options, if any.
    pub options: Option<Options>,
}

impl Configuration {
    /// Puts a configuration together from what the caller supplied. A caller
    /// that names no working directory gets the empty one.
    pub fn new(working_directory: Option<String>, entry: EntrySpec, options: Option<Options>) -> (config:
        Configuration)
        ensures
            config.working_directory@ == match working_directory {
                Some(given) => given@,
                None => Seq::empty(),
            },
            config.entry == entry,
            config.options == options,
    {
        let working_directory = match working_directory {
            Some(given) => given,
            None => String::new(),
        };
        Configuration { working_directory, entry, options }
    }
}

} // verus!
