//! The resolved configuration of one site.

use crate::path::{bytes_of, join, join_paths};
use vstd::prelude::*;

verus! {

/// Whether a listing of the source files is written before a full build, and
/// whether it carries the data that each document declares.
#[derive(Clone, Copy, Debug, PartialEq, Eq, Structural)]
pub enum FileListing {
    /// No listing is written.
    Disabled,
    /// Every source file is listed with an empty value.
    Enabled,
    /// Every source file is listed; a document carries the data queried from it.
    IncludeData,
}

/// The resolved configuration of one site. It does not change while the
/// process runs.
pub struct Config {
    /// The directory that holds the whole project.
    pub project_root: Vec<u8>,
    /// The directory of documents and assets, relative to the project root.
    pub content_dir: Vec<u8>,
    /// The directory of shared templates, relative to the project root.
    pub template_dir: Vec<u8>,
    /// The directory of generated files, relative to the project root.
    pub output_dir: Vec<u8>,
    /// Globs, relative to the content root, of files that are copied verbatim.
    pub passthrough_copy_globs: Vec<String>,
    /// The command run before a full build; empty for none.
    pub init: Vec<Vec<u8>>,
    /// The command that filters each rendered document; empty for none.
    pub post_processing_typ: Vec<Vec<u8>>,
    /// Further arguments handed to the renderer.
    pub compilation_extra_args: Vec<Vec<u8>>,
    /// Whether `name.typ` becomes `name.html` instead of `name/index.html`.
    pub literal_paths: bool,
    /// Whether and how the file listing is written.
    pub file_listing: FileListing,
    /// Whether the first full build is left out.
    pub ignore_initial: bool,
    /// Whether the sources are watched for changes.
    pub watch: bool,
    /// Whether the output is served with live reload.
    pub serve: bool,
    /// Whether debug messages are logged.
    pub verbose: bool,
    /// Whether trace messages are logged.
    pub trace: bool,
}

impl Config {
    /// The content root: the directory of documents and assets.
    pub open spec fn spec_content_root(&self) -> Seq<u8> {
        join(self.project_root@, self.content_dir@)
    }

    /// The template root: the directory of shared templates.
    pub open spec fn spec_template_root(&self) -> Seq<u8> {
        join(self.project_root@, self.template_dir@)
    }

    /// The output root: the directory of generated files.
    pub open spec fn spec_output_root(&self) -> Seq<u8> {
        join(self.project_root@, self.output_dir@)
    }

    /// A configuration for the project at `project_root` with the customary
    /// directory names, no commands, no globs and every switch off.
    pub fn new(project_root: Vec<u8>) -> (c: Config)
        ensures
            c.project_root@ == project_root@,
            c.content_dir@ == bytes_of("src"),
            c.template_dir@ == bytes_of("templates"),
            c.output_dir@ == bytes_of("_site"),
            c.passthrough_copy_globs@.len() == 0,
            c.init@.len() == 0,
            c.post_processing_typ@.len() == 0,
            c.compilation_extra_args@.len() == 0,
            !c.literal_paths,
            c.file_listing == FileListing::Disabled,
            !c.ignore_initial,
            !c.watch,
            !c.serve,
            !c.verbose,
            !c.trace,
    {
        Config {
            project_root,
            content_dir: vstd::slice::slice_to_vec("src".as_bytes()),
            template_dir: vstd::slice::slice_to_vec("templates".as_bytes()),
            output_dir: vstd::slice::slice_to_vec("_site".as_bytes()),
            passthrough_copy_globs: Vec::new(),
            init: Vec::new(),
            post_processing_typ: Vec::new(),
            compilation_extra_args: Vec::new(),
            literal_paths: false,
            file_listing: FileListing::Disabled,
            ignore_initial: false,
            watch: false,
            serve: false,
            verbose: false,
            trace: false,
        }
    }

    /// The content root as a path.
    pub fn content_root(&self) -> (r: Vec<u8>)
        ensures
            r@ == self.spec_content_root(),
    {
        join_paths(self.project_root.as_slice(), self.content_dir.as_slice())
    }

    /// The template root as a path.
    pub fn template_root(&self) -> (r: Vec<u8>)
        ensures
            r@ == self.spec_template_root(),
    {
        join_paths(self.project_root.as_slice(), self.template_dir.as_slice())
    }

    /// The output root as a path.
    pub fn output_root(&self) -> (r: Vec<u8>)
        ensures
            r@ == self.spec_output_root(),
    {
        join_paths(self.project_root.as_slice(), self.output_dir.as_slice())
    }
}

} // verus!
