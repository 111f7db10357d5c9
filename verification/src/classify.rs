//! The path classifier: which build action a source file calls for, and
//! where its output belongs.

use crate::config::Config;
use crate::glob::{any_pattern_matches, matches_any};
use crate::path::{
    append, bytes_eq, bytes_of, extension, file_name, file_stem, get_extension, get_file_name,
    get_file_stem, get_parent, is_relative, is_under, join, join_paths,
    lemma_file_name_is_one_component, lemma_file_name_of_join, lemma_join_is_associative,
    lemma_join_is_relative, lemma_last_index_of, lemma_parent_is_relative,
    lemma_stem_and_extension, lemma_strip_root_is_relative, lemma_strip_root_of_join, lies_under,
    parent, strip_root, strip_root_prefix, DOT, SEPARATOR,
};
use vstd::prelude::*;

verus! {

/// The extension of a document that the renderer compiles.
pub open spec fn document_extension() -> Seq<u8> {
    bytes_of("typ")
}

/// The file name of the document that stands for its directory.
pub open spec fn index_document() -> Seq<u8> {
    bytes_of("index.typ")
}

/// The extension of a rendered page.
pub open spec fn page_extension() -> Seq<u8> {
    bytes_of("html")
}

/// The file name of the page that stands for its directory.
pub open spec fn index_page() -> Seq<u8> {
    bytes_of("index.html")
}

/// What building one source file amounts to, with paths as byte sequences.
pub enum BuildAction {
    /// Nothing is done for the file.
    Noop,
    /// The file is copied verbatim to the destination.
    Passthrough(Seq<u8>),
    /// The file is a template: the whole content tree is built again.
    RecompileAll,
    /// The file is a document that is rendered to the destination.
    CompileToPath(Seq<u8>),
}

/// What building one source file amounts to.
#[derive(Debug)]
pub enum CompileOutput {
    /// Nothing is done for the file.
    Noop,
    /// The file is copied verbatim to the destination.
    Passthrough(Vec<u8>),
    /// The file is a template: the whole content tree is built again.
    RecompileAll,
    /// The file is a document that is rendered to the destination.
    CompileToPath(Vec<u8>),
}

impl View for CompileOutput {
    type V = BuildAction;

    open spec fn view(&self) -> BuildAction {
        match *self {
            CompileOutput::Noop => BuildAction::Noop,
            CompileOutput::Passthrough(dst) => BuildAction::Passthrough(dst@),
            CompileOutput::RecompileAll => BuildAction::RecompileAll,
            CompileOutput::CompileToPath(dst) => BuildAction::CompileToPath(dst@),
        }
    }
}

/// Why a path cannot be classified.
#[derive(Clone, Copy, Debug, PartialEq, Eq, Structural)]
pub enum ClassifyError {
    /// The path is a document that lies neither below the template root nor
    /// below the content root.
    OutsideRoots,
}

/// Whether a document is rendered under its own name rather than as the
/// index page of a directory named after it.
pub open spec fn keeps_name(full_path: Seq<u8>, literal_paths: bool) -> bool {
    literal_paths || file_name(full_path) == index_document()
}

/// Where the page rendered from a document belongs. `rel` is the document's
/// path relative to the content root.
pub open spec fn page_destination(
    full_path: Seq<u8>,
    rel: Seq<u8>,
    output_root: Seq<u8>,
    literal_paths: bool,
) -> Seq<u8> {
    let dir = join(output_root, parent(rel));
    if keeps_name(full_path, literal_paths) {
        join(dir, file_stem(full_path) + seq![DOT] + page_extension())
    } else {
        join(join(dir, file_stem(full_path)), index_page())
    }
}

/// The build action for `full_path`, given whether a passthrough glob matches
/// its path relative to the content root. The rules apply in this order: a
/// matched file below the content root is passed through; a file that is no
/// document needs nothing; a document below the template root rebuilds
/// everything; a document below the content root is rendered.
pub open spec fn classify(full_path: Seq<u8>, config: Config, matched: bool) -> Result<
    BuildAction,
    ClassifyError,
> {
    let in_content = strip_root(full_path, config.spec_content_root());
    if matched && in_content is Some {
        Ok(BuildAction::Passthrough(join(config.spec_output_root(), in_content->0)))
    } else if extension(full_path) != Some(document_extension()) {
        Ok(BuildAction::Noop)
    } else if is_under(full_path, config.spec_template_root()) {
        Ok(BuildAction::RecompileAll)
    } else if in_content is Some {
        Ok(
            BuildAction::CompileToPath(
                page_destination(
                    full_path,
                    in_content->0,
                    config.spec_output_root(),
                    config.literal_paths,
                ),
            ),
        )
    } else {
        Err(ClassifyError::OutsideRoots)
    }
}

/// Whether a passthrough glob of the configuration matches the path of
/// `full_path` relative to the content root.
pub open spec fn passthrough_applies(full_path: Seq<u8>, config: Config) -> bool {
    match strip_root(full_path, config.spec_content_root()) {
        Some(rel) => any_pattern_matches(config.passthrough_copy_globs@, rel),
        None => false,
    }
}

/// Whether a result holds the given classification: the same action with the
/// same destination, or the same error.
pub open spec fn is_classification(
    r: Result<CompileOutput, ClassifyError>,
    expected: Result<BuildAction, ClassifyError>,
) -> bool {
    match r {
        Ok(action) => expected == Ok::<BuildAction, ClassifyError>(action@),
        Err(e) => expected == Err::<BuildAction, ClassifyError>(e),
    }
}

/// A file below the content root that a passthrough glob matches is passed
/// through to the same relative path below the output root, whatever its
/// extension.
pub proof fn lemma_passthrough_keeps_relative_path(full_path: Seq<u8>, config: Config)
    requires
        passthrough_applies(full_path, config),
    ensures
        classify(full_path, config, passthrough_applies(full_path, config)) == Ok::<
            BuildAction,
            ClassifyError,
        >(
            BuildAction::Passthrough(
                join(
                    config.spec_output_root(),
                    strip_root(full_path, config.spec_content_root())->0,
                ),
            ),
        ),
{
}

/// A file that is passed through lies as far below the output root as it lies
/// below the content root.
pub proof fn lemma_passthrough_mirrors_content(full_path: Seq<u8>, config: Config)
    requires
        passthrough_applies(full_path, config),
    ensures
        classify(full_path, config, true) matches Ok(BuildAction::Passthrough(dst)) && strip_root(
            dst,
            config.spec_output_root(),
        ) == strip_root(full_path, config.spec_content_root()),
{
    lemma_strip_root_is_relative(full_path, config.spec_content_root());
    lemma_strip_root_of_join(
        config.spec_output_root(),
        strip_root(full_path, config.spec_content_root())->0,
    );
}

/// Two files that are passed through to the same destination lie at the same
/// path below the content root.
pub proof fn lemma_passthrough_destination_fixes_relative_path(
    first: Seq<u8>,
    second: Seq<u8>,
    config: Config,
)
    requires
        passthrough_applies(first, config),
        passthrough_applies(second, config),
        classify(first, config, true) == classify(second, config, true),
    ensures
        strip_root(first, config.spec_content_root()) == strip_root(
            second,
            config.spec_content_root(),
        ),
{
    lemma_passthrough_mirrors_content(first, config);
    lemma_passthrough_mirrors_content(second, config);
}

/// The page of a document lies below the output root, wherever below the
/// content root the document lies.
pub proof fn lemma_page_lies_under_output_root(
    full_path: Seq<u8>,
    rel: Seq<u8>,
    output_root: Seq<u8>,
    literal_paths: bool,
)
    requires
        is_relative(rel),
    ensures
        is_under(page_destination(full_path, rel, output_root, literal_paths), output_root),
{
    reveal_strlit("index.html");
    assert("index.html".is_ascii());
    let index = index_page();
    assert(index.len() == 10 && index[0] != SEPARATOR);
    let up = parent(rel);
    let stem = file_stem(full_path);
    lemma_parent_is_relative(rel);
    lemma_file_name_is_one_component(full_path);
    lemma_last_index_of(file_name(full_path), DOT);
    assert(is_relative(stem));
    if keeps_name(full_path, literal_paths) {
        let name = stem + seq![DOT] + page_extension();
        assert(name.len() > 0 && name[0] != SEPARATOR);
        lemma_join_is_relative(up, name);
        lemma_join_is_associative(output_root, up, name);
        lemma_strip_root_of_join(output_root, join(up, name));
    } else {
        lemma_join_is_relative(up, stem);
        lemma_join_is_relative(join(up, stem), index);
        lemma_join_is_associative(output_root, up, stem);
        lemma_join_is_associative(output_root, join(up, stem), index);
        lemma_strip_root_of_join(output_root, join(join(up, stem), index));
    }
}

/// Whatever is written for a source file is written below the output root:
/// the destination of a file that is passed through, and the page of a
/// document.
pub proof fn lemma_destinations_lie_under_output_root(
    full_path: Seq<u8>,
    config: Config,
    matched: bool,
)
    ensures
        match classify(full_path, config, matched) {
            Ok(BuildAction::Passthrough(dst)) => is_under(dst, config.spec_output_root()),
            Ok(BuildAction::CompileToPath(dst)) => is_under(dst, config.spec_output_root()),
            _ => true,
        },
{
    let in_content = strip_root(full_path, config.spec_content_root());
    if in_content is Some {
        lemma_strip_root_is_relative(full_path, config.spec_content_root());
        lemma_strip_root_of_join(config.spec_output_root(), in_content->0);
        lemma_page_lies_under_output_root(
            full_path,
            in_content->0,
            config.spec_output_root(),
            config.literal_paths,
        );
    }
}

/// A document below the template root, which no passthrough rule claims,
/// rebuilds everything.
pub proof fn lemma_template_document_rebuilds_all(
    full_path: Seq<u8>,
    config: Config,
    matched: bool,
)
    requires
        extension(full_path) == Some(document_extension()),
        is_under(full_path, config.spec_template_root()),
        !(matched && is_under(full_path, config.spec_content_root())),
    ensures
        classify(full_path, config, matched) == Ok::<BuildAction, ClassifyError>(
            BuildAction::RecompileAll,
        ),
{
}

/// A document below the content root, which is neither passed through nor a
/// template, is rendered to the destination that `page_destination` gives.
pub proof fn lemma_content_document_is_rendered(
    full_path: Seq<u8>,
    config: Config,
    matched: bool,
)
    requires
        extension(full_path) == Some(document_extension()),
        is_under(full_path, config.spec_content_root()),
        !is_under(full_path, config.spec_template_root()),
        !matched,
    ensures
        classify(full_path, config, matched) == Ok::<BuildAction, ClassifyError>(
            BuildAction::CompileToPath(
                page_destination(
                    full_path,
                    strip_root(full_path, config.spec_content_root())->0,
                    config.spec_output_root(),
                    config.literal_paths,
                ),
            ),
        ),
{
}

/// The page of a document that keeps its name (the index document, or any
/// document under literal paths) has the document's stem and the page
/// extension, in the directory that mirrors the document's. The page of any
/// other document is the index page of a directory named after its stem.
pub proof fn lemma_page_destination(
    full_path: Seq<u8>,
    rel: Seq<u8>,
    output_root: Seq<u8>,
    literal_paths: bool,
)
    requires
        extension(full_path) is Some,
    ensures
        keeps_name(full_path, literal_paths) ==> {
            let page = page_destination(full_path, rel, output_root, literal_paths);
            &&& extension(page) == Some(page_extension())
            &&& file_stem(page) == file_stem(full_path)
            &&& page == join(
                join(output_root, parent(rel)),
                file_stem(full_path) + seq![DOT] + page_extension(),
            )
        },
        !keeps_name(full_path, literal_paths) ==> {
            let page = page_destination(full_path, rel, output_root, literal_paths);
            &&& file_name(page) == index_page()
            &&& page == join(
                join(join(output_root, parent(rel)), file_stem(full_path)),
                index_page(),
            )
        },
{
    reveal_strlit("html");
    reveal_strlit("index.html");
    assert("html".is_ascii());
    assert("index.html".is_ascii());
    let html = page_extension();
    let index = index_page();
    assert(html.len() == 4);
    assert(index.len() == 10);
    let stem = file_stem(full_path);
    let dir = join(output_root, parent(rel));
    lemma_file_name_is_one_component(full_path);
    lemma_last_index_of(file_name(full_path), DOT);
    if keeps_name(full_path, literal_paths) {
        lemma_stem_and_extension(dir, stem, html);
    } else {
        lemma_file_name_of_join(join(dir, stem), index);
    }
}

/// A source file, one below the content root or below the template root, is
/// always classified.
pub proof fn lemma_sources_are_classified(full_path: Seq<u8>, config: Config, matched: bool)
    requires
        is_under(full_path, config.spec_content_root()) || is_under(
            full_path,
            config.spec_template_root(),
        ),
    ensures
        classify(full_path, config, matched) is Ok,
{
}

/// A relative path that is not empty, joined onto the content root, is
/// always classified.
pub proof fn lemma_content_paths_are_classified(rel: Seq<u8>, config: Config, matched: bool)
    requires
        rel.len() > 0,
        is_relative(rel),
    ensures
        classify(join(config.spec_content_root(), rel), config, matched) is Ok,
{
    lemma_strip_root_of_join(config.spec_content_root(), rel);
}

impl CompileOutput {
    /// Classifies a source file under a configuration.
    pub fn from_full_path(full_path: &[u8], config: &Config) -> (r: Result<
        CompileOutput,
        ClassifyError,
    >)
        ensures
            is_classification(
                r,
                classify(full_path@, *config, passthrough_applies(full_path@, *config)),
            ),
    {
        let content_root = config.content_root();
        let matched = match strip_root_prefix(full_path, content_root.as_slice()) {
            Some(rel) => matches_any(&config.passthrough_copy_globs, rel.as_slice()),
            None => false,
        };
        CompileOutput::from_match(full_path, config, matched)
    }

    /// Classifies a source file, given whether a passthrough glob matches its
    /// path relative to the content root.
    pub fn from_match(full_path: &[u8], config: &Config, matched: bool) -> (r: Result<
        CompileOutput,
        ClassifyError,
    >)
        ensures
            is_classification(r, classify(full_path@, *config, matched)),
    {
        let content_root = config.content_root();
        let in_content = strip_root_prefix(full_path, content_root.as_slice());
        if matched {
            if let Some(rel) = &in_content {
                let output_root = config.output_root();
                return Ok(
                    CompileOutput::Passthrough(
                        join_paths(output_root.as_slice(), rel.as_slice()),
                    ),
                );
            }
        }
        let is_document = match get_extension(full_path) {
            Some(ext) => bytes_eq(ext.as_slice(), "typ".as_bytes()),
            None => false,
        };
        if !is_document {
            return Ok(CompileOutput::Noop);
        }
        let template_root = config.template_root();
        if lies_under(full_path, template_root.as_slice()) {
            return Ok(CompileOutput::RecompileAll);
        }
        match in_content {
            Some(rel) => {
                let output_root = config.output_root();
                Ok(
                    CompileOutput::CompileToPath(
                        destination_of(
                            full_path,
                            rel.as_slice(),
                            output_root.as_slice(),
                            config.literal_paths,
                        ),
                    ),
                )
            },
            None => Err(ClassifyError::OutsideRoots),
        }
    }
}

/// Computes where the page rendered from a document belongs.
pub fn destination_of(full_path: &[u8], rel: &[u8], output_root: &[u8], literal_paths: bool) -> (r:
    Vec<u8>)
    ensures
        r@ == page_destination(full_path@, rel@, output_root@, literal_paths),
{
    let rel_parent = get_parent(rel);
    let dir = join_paths(output_root, rel_parent.as_slice());
    let name = get_file_name(full_path);
    let mut stem = get_file_stem(full_path);
    if literal_paths || bytes_eq(name.as_slice(), "index.typ".as_bytes()) {
        stem.push(DOT);
        append(&mut stem, "html".as_bytes());
        join_paths(dir.as_slice(), stem.as_slice())
    } else {
        let page_dir = join_paths(dir.as_slice(), stem.as_slice());
        join_paths(page_dir.as_slice(), "index.html".as_bytes())
    }
}

} // verus!
