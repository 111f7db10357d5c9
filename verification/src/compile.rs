//! The compilation executor's decisions: what is run and written for one
//! source file, for a batch and for a full build, and how the outcomes of the
//! processes fold into a build result.

use crate::classify::{classify, passthrough_applies, BuildAction, ClassifyError, CompileOutput};
use crate::config::{Config, FileListing};
use crate::path::{append, bytes_of, get_parent, join, join_paths, parent};
use crate::text::{push_text, push_texts, texts};
use vstd::prelude::*;
use vstd::slice::slice_to_vec;

verus! {

/// The program that renders documents.
pub open spec fn renderer_program() -> Seq<u8> {
    bytes_of("typst")
}

/// The command line that renders one document to standard output: the
/// program, the compile command with source, output target, format and
/// project root, then the configured extra arguments.
pub open spec fn compile_command(source: Seq<u8>, config: Config) -> Seq<Seq<u8>> {
    seq![
        renderer_program(),
        bytes_of("--color"),
        bytes_of("always"),
        bytes_of("c"),
        source,
        bytes_of("-"),
        bytes_of("--features"),
        bytes_of("html"),
        bytes_of("--format"),
        bytes_of("html"),
        bytes_of("--root"),
        config.project_root@,
    ] + texts(config.compilation_extra_args@)
}

/// The command line that queries one document for its declared data.
pub open spec fn query_command(source: Seq<u8>, config: Config) -> Seq<Seq<u8>> {
    seq![
        renderer_program(),
        bytes_of("--color"),
        bytes_of("always"),
        bytes_of("query"),
        source,
        bytes_of("<data>"),
        bytes_of("--features"),
        bytes_of("html"),
        bytes_of("--root"),
        config.project_root@,
    ] + texts(config.compilation_extra_args@)
}

/// Builds the command line that renders one document.
pub fn renderer_command(source: &[u8], config: &Config) -> (r: Vec<Vec<u8>>)
    ensures
        texts(r@) == compile_command(source@, *config),
{
    let mut args: Vec<Vec<u8>> = Vec::new();
    assert(texts(args@) =~= Seq::<Seq<u8>>::empty());
    push_text(&mut args, "typst".as_bytes());
    push_text(&mut args, "--color".as_bytes());
    push_text(&mut args, "always".as_bytes());
    push_text(&mut args, "c".as_bytes());
    push_text(&mut args, source);
    push_text(&mut args, "-".as_bytes());
    push_text(&mut args, "--features".as_bytes());
    push_text(&mut args, "html".as_bytes());
    push_text(&mut args, "--format".as_bytes());
    push_text(&mut args, "html".as_bytes());
    push_text(&mut args, "--root".as_bytes());
    push_text(&mut args, config.project_root.as_slice());
    push_texts(&mut args, &config.compilation_extra_args);
    assert(texts(args@) =~= compile_command(source@, *config));
    args
}

/// Builds the command line that queries one document for its declared data.
pub fn renderer_query_command(source: &[u8], config: &Config) -> (r: Vec<Vec<u8>>)
    ensures
        texts(r@) == query_command(source@, *config),
{
    let mut args: Vec<Vec<u8>> = Vec::new();
    assert(texts(args@) =~= Seq::<Seq<u8>>::empty());
    push_text(&mut args, "typst".as_bytes());
    push_text(&mut args, "--color".as_bytes());
    push_text(&mut args, "always".as_bytes());
    push_text(&mut args, "query".as_bytes());
    push_text(&mut args, source);
    push_text(&mut args, "<data>".as_bytes());
    push_text(&mut args, "--features".as_bytes());
    push_text(&mut args, "html".as_bytes());
    push_text(&mut args, "--root".as_bytes());
    push_text(&mut args, config.project_root.as_slice());
    push_texts(&mut args, &config.compilation_extra_args);
    assert(texts(args@) =~= query_command(source@, *config));
    args
}

/// Copies a configured command line; `None` where none is configured.
pub fn configured_command(command: &Vec<Vec<u8>>) -> (r: Option<Vec<Vec<u8>>>)
    ensures
        match r {
            Some(c) => command@.len() > 0 && texts(c@) == texts(command@),
            None => command@.len() == 0,
        },
{
    if command.len() == 0 {
        None
    } else {
        let mut copy: Vec<Vec<u8>> = Vec::new();
        assert(texts(copy@) =~= Seq::<Seq<u8>>::empty());
        push_texts(&mut copy, command);
        assert(texts(copy@) =~= texts(command@));
        Some(copy)
    }
}

/// Whether a file is built on its own or as part of a full build.
#[derive(Clone, Copy, Debug, PartialEq, Eq, Structural)]
pub enum BuildScope {
    /// The file is built because it changed.
    Single,
    /// The file is built because everything is.
    Full,
}

/// What is run and written for one source file, over byte sequences.
pub enum Plan {
    /// Nothing.
    Nothing,
    /// A full build.
    RebuildAll,
    /// The directory is created and the source copied to the destination.
    Copy { source: Seq<u8>, destination: Seq<u8>, directory: Seq<u8> },
    /// The renderer runs, its output goes through the filter where one is
    /// configured, the directory is created and the result written to the
    /// destination.
    Render {
        renderer: Seq<Seq<u8>>,
        filter: Option<Seq<Seq<u8>>>,
        destination: Seq<u8>,
        directory: Seq<u8>,
    },
}

/// What is run and written for one source file.
#[derive(Debug)]
pub enum CompilePlan {
    /// Nothing.
    Nothing,
    /// A full build.
    RebuildAll,
    /// The directory is created and the source copied to the destination.
    Copy { source: Vec<u8>, destination: Vec<u8>, directory: Vec<u8> },
    /// The renderer runs, its output goes through the filter where one is
    /// configured, the directory is created and the result written to the
    /// destination.
    Render {
        renderer: Vec<Vec<u8>>,
        filter: Option<Vec<Vec<u8>>>,
        destination: Vec<u8>,
        directory: Vec<u8>,
    },
}

impl View for CompilePlan {
    type V = Plan;

    open spec fn view(&self) -> Plan {
        match *self {
            CompilePlan::Nothing => Plan::Nothing,
            CompilePlan::RebuildAll => Plan::RebuildAll,
            CompilePlan::Copy { source, destination, directory } => Plan::Copy {
                source: source@,
                destination: destination@,
                directory: directory@,
            },
            CompilePlan::Render { renderer, filter, destination, directory } => Plan::Render {
                renderer: texts(renderer@),
                filter: match filter {
                    Some(f) => Some(texts(f@)),
                    None => None,
                },
                destination: destination@,
                directory: directory@,
            },
        }
    }
}

/// The filter that a configuration asks for.
pub open spec fn configured_filter(config: Config) -> Option<Seq<Seq<u8>>> {
    if config.post_processing_typ@.len() > 0 {
        Some(texts(config.post_processing_typ@))
    } else {
        None
    }
}

/// What is run and written for `source` once it is classified. A template
/// that changed on its own rebuilds everything; inside a full build it needs
/// nothing, so that a full build never starts another.
pub open spec fn plan_of(source: Seq<u8>, config: Config, action: BuildAction, scope: BuildScope)
    -> Plan {
    match action {
        BuildAction::Noop => Plan::Nothing,
        BuildAction::RecompileAll => match scope {
            BuildScope::Single => Plan::RebuildAll,
            BuildScope::Full => Plan::Nothing,
        },
        BuildAction::Passthrough(dst) => Plan::Copy {
            source,
            destination: dst,
            directory: parent(dst),
        },
        BuildAction::CompileToPath(dst) => Plan::Render {
            renderer: compile_command(source, config),
            filter: configured_filter(config),
            destination: dst,
            directory: parent(dst),
        },
    }
}

/// Inside a full build no file sets off another full build, so a full build
/// is at most one level deep.
pub proof fn lemma_full_build_is_one_level(source: Seq<u8>, config: Config, action: BuildAction)
    ensures
        !(plan_of(source, config, action, BuildScope::Full) is RebuildAll),
        plan_of(source, config, action, BuildScope::Single) is RebuildAll <==> action
            is RecompileAll,
{
}

/// Plans the build of one source file from its classification.
pub fn plan_action(source: &[u8], config: &Config, action: CompileOutput, scope: BuildScope) -> (r:
    CompilePlan)
    ensures
        r@ == plan_of(source@, *config, action@, scope),
{
    match action {
        CompileOutput::Noop => CompilePlan::Nothing,
        CompileOutput::RecompileAll => match scope {
            BuildScope::Single => CompilePlan::RebuildAll,
            BuildScope::Full => CompilePlan::Nothing,
        },
        CompileOutput::Passthrough(dst) => {
            let directory = get_parent(dst.as_slice());
            CompilePlan::Copy { source: slice_to_vec(source), destination: dst, directory }
        },
        CompileOutput::CompileToPath(dst) => {
            let directory = get_parent(dst.as_slice());
            let renderer = renderer_command(source, config);
            let filter = configured_command(&config.post_processing_typ);
            CompilePlan::Render { renderer, filter, destination: dst, directory }
        },
    }
}

/// What `plan_single` owes for a source file.
pub open spec fn planned(source: Seq<u8>, config: Config, scope: BuildScope) -> Result<
    Plan,
    ClassifyError,
> {
    match classify(source, config, passthrough_applies(source, config)) {
        Ok(action) => Ok(plan_of(source, config, action, scope)),
        Err(e) => Err(e),
    }
}

/// Classifies one source file and plans its build.
pub fn plan_single(source: &[u8], config: &Config, scope: BuildScope) -> (r: Result<
    CompilePlan,
    ClassifyError,
>)
    ensures
        match r {
            Ok(plan) => planned(source@, *config, scope) == Ok::<Plan, ClassifyError>(plan@),
            Err(e) => planned(source@, *config, scope) == Err::<Plan, ClassifyError>(e),
        },
{
    match CompileOutput::from_full_path(source, config) {
        Ok(action) => Ok(plan_action(source, config, action, scope)),
        Err(e) => Err(e),
    }
}

/// How a process ended and what it wrote.
#[derive(Debug)]
pub struct ProcessOutput {
    /// Whether the process exited with status zero.
    pub success: bool,
    /// The exit code, where the process exited with one.
    pub code: Option<i32>,
    /// What the process wrote to standard output.
    pub stdout: Vec<u8>,
    /// What the process wrote to standard error.
    pub stderr: Vec<u8>,
}

/// Which step of a build failed.
#[derive(Clone, Copy, Debug, PartialEq, Eq, Structural)]
pub enum FailedStep {
    /// The command that runs before a full build.
    Init,
    /// The renderer.
    Renderer,
    /// The filter after the renderer.
    Filter,
}

/// A failed build of one unit of work.
#[derive(Debug)]
pub struct BuildFailure {
    /// The step that failed.
    pub step: FailedStep,
    /// Whether the process ran: `false` where it could not be started.
    pub started: bool,
    /// The source file that was being built; empty for the init command.
    pub source: Vec<u8>,
    /// The exit code of the process that failed.
    pub code: Option<i32>,
    /// What the renderer, or the init command, wrote to standard error.
    pub stderr: Vec<u8>,
    /// What the filter wrote to standard error; empty where none ran.
    pub filter_stderr: Vec<u8>,
}

/// A failed build over byte sequences.
pub struct Failure {
    /// The step that failed.
    pub step: FailedStep,
    /// Whether the process ran.
    pub started: bool,
    /// The source file that was being built.
    pub source: Seq<u8>,
    /// The exit code of the process that failed.
    pub code: Option<i32>,
    /// What the renderer, or the init command, wrote to standard error.
    pub stderr: Seq<u8>,
    /// What the filter wrote to standard error.
    pub filter_stderr: Seq<u8>,
}

impl View for BuildFailure {
    type V = Failure;

    open spec fn view(&self) -> Failure {
        Failure {
            step: self.step,
            started: self.started,
            source: self.source@,
            code: self.code,
            stderr: self.stderr@,
            filter_stderr: self.filter_stderr@,
        }
    }
}

/// The message of a failure. For a process that could not be started it says
/// which program is missing; for a process that ran it names the step, and
/// the file that failed.
pub open spec fn failure_message(failure: Failure) -> Seq<u8> {
    if failure.started {
        match failure.step {
            FailedStep::Init => bytes_of("Running init command failed."),
            _ => bytes_of("Compiling ") + failure.source + bytes_of(" failed."),
        }
    } else {
        match failure.step {
            FailedStep::Init => bytes_of("Couldn't run the init command."),
            FailedStep::Renderer => bytes_of(
                "Failed to run Typst compiler. Maybe you don't have it installed? https://typst.app/open-source/#download",
            ),
            FailedStep::Filter => bytes_of("Failed to run the post-processing command."),
        }
    }
}

/// The failure of a step whose process could not be started.
pub open spec fn not_started(step: FailedStep, source: Seq<u8>) -> Failure {
    Failure {
        step,
        started: false,
        source,
        code: None,
        stderr: Seq::empty(),
        filter_stderr: Seq::empty(),
    }
}

impl BuildFailure {
    /// The message of the failure.
    pub fn message(&self) -> (r: Vec<u8>)
        ensures
            r@ == failure_message(self@),
    {
        if self.started {
            match self.step {
                FailedStep::Init => slice_to_vec("Running init command failed.".as_bytes()),
                _ => {
                    let mut out: Vec<u8> = slice_to_vec("Compiling ".as_bytes());
                    append(&mut out, self.source.as_slice());
                    append(&mut out, " failed.".as_bytes());
                    out
                },
            }
        } else {
            match self.step {
                FailedStep::Init => slice_to_vec("Couldn't run the init command.".as_bytes()),
                FailedStep::Renderer => slice_to_vec(
                    "Failed to run Typst compiler. Maybe you don't have it installed? https://typst.app/open-source/#download".as_bytes(),
                ),
                FailedStep::Filter => slice_to_vec(
                    "Failed to run the post-processing command.".as_bytes(),
                ),
            }
        }
    }

    /// The failure of a step whose process could not be started.
    pub fn spawn_failure(step: FailedStep, source: &[u8]) -> (r: BuildFailure)
        ensures
            r@ == not_started(step, source@),
    {
        BuildFailure {
            step,
            started: false,
            source: slice_to_vec(source),
            code: None,
            stderr: Vec::new(),
            filter_stderr: Vec::new(),
        }
    }
}

/// The outcome of one unit of work, over byte sequences: the bytes to write,
/// or the failure.
pub open spec fn rendered(
    source: Seq<u8>,
    renderer: ProcessOutput,
    filter: Option<ProcessOutput>,
) -> Result<Seq<u8>, Failure> {
    let filter_stderr = match filter {
        Some(f) => f.stderr@,
        None => Seq::empty(),
    };
    if !renderer.success {
        Err(
            Failure {
                step: FailedStep::Renderer,
                started: true,
                source,
                code: renderer.code,
                stderr: renderer.stderr@,
                filter_stderr,
            },
        )
    } else {
        match filter {
            Some(f) => if f.success {
                Ok(f.stdout@)
            } else {
                Err(
                    Failure {
                        step: FailedStep::Filter,
                        started: true,
                        source,
                        code: f.code,
                        stderr: renderer.stderr@,
                        filter_stderr,
                    },
                )
            },
            None => Ok(renderer.stdout@),
        }
    }
}

/// What is written for a document depends only on what the processes
/// printed and how they ended: building again with the same outputs gives
/// the same bytes, or the same failure.
pub proof fn lemma_render_is_repeatable(
    source: Seq<u8>,
    first: ProcessOutput,
    first_filter: Option<ProcessOutput>,
    second: ProcessOutput,
    second_filter: Option<ProcessOutput>,
)
    requires
        same_output(first, second),
        first_filter is Some <==> second_filter is Some,
        first_filter is Some ==> same_output(first_filter->0, second_filter->0),
    ensures
        rendered(source, first, first_filter) == rendered(source, second, second_filter),
{
}

/// Whether two processes ended alike and printed the same.
pub open spec fn same_output(a: ProcessOutput, b: ProcessOutput) -> bool {
    a.success == b.success && a.code == b.code && a.stdout@ == b.stdout@ && a.stderr@ == b.stderr@
}

/// Folds the outcomes of the renderer and of the filter, where one ran, into
/// the bytes to write to the destination, or into the failure. The build
/// fails if either process did; the failure carries what both wrote to
/// standard error.
pub fn render_outcome(source: &[u8], renderer: ProcessOutput, filter: Option<ProcessOutput>) -> (r:
    Result<Vec<u8>, BuildFailure>)
    ensures
        match r {
            Ok(bytes) => rendered(source@, renderer, filter) == Ok::<Seq<u8>, Failure>(bytes@),
            Err(e) => rendered(source@, renderer, filter) == Err::<Seq<u8>, Failure>(e@),
        },
{
    if !renderer.success {
        let filter_stderr = match filter {
            Some(f) => f.stderr,
            None => Vec::new(),
        };
        return Err(
            BuildFailure {
                step: FailedStep::Renderer,
                started: true,
                source: slice_to_vec(source),
                code: renderer.code,
                stderr: renderer.stderr,
                filter_stderr,
            },
        );
    }
    match filter {
        Some(f) => {
            if f.success {
                Ok(f.stdout)
            } else {
                Err(
                    BuildFailure {
                        step: FailedStep::Filter,
                        started: true,
                        source: slice_to_vec(source),
                        code: f.code,
                        stderr: renderer.stderr,
                        filter_stderr: f.stderr,
                    },
                )
            }
        },
        None => Ok(renderer.stdout),
    }
}

/// The outcome of the init command: a failure unless it exited with zero.
pub fn init_outcome(init: ProcessOutput) -> (r: Result<(), BuildFailure>)
    ensures
        match r {
            Ok(_) => init.success,
            Err(e) => !init.success && e@ == (Failure {
                step: FailedStep::Init,
                started: true,
                source: Seq::empty(),
                code: init.code,
                stderr: init.stderr@,
                filter_stderr: Seq::empty(),
            }),
        },
{
    if init.success {
        Ok(())
    } else {
        Err(
            BuildFailure {
                step: FailedStep::Init,
                started: true,
                source: Vec::new(),
                code: init.code,
                stderr: init.stderr,
                filter_stderr: Vec::new(),
            },
        )
    }
}

/// The index of the first failed unit of a batch.
pub open spec fn first_failure<E>(outcomes: Seq<Result<(), E>>) -> Option<int>
    decreases outcomes.len(),
{
    if outcomes.len() == 0 {
        None
    } else {
        match first_failure(outcomes.drop_last()) {
            Some(i) => Some(i),
            None => if outcomes.last() is Err {
                Some(outcomes.len() - 1)
            } else {
                None
            },
        }
    }
}

/// The first failure is a failure with only successes before it; without
/// one, every unit succeeded.
pub proof fn lemma_first_failure<E>(outcomes: Seq<Result<(), E>>)
    ensures
        match first_failure(outcomes) {
            Some(i) => 0 <= i < outcomes.len() && outcomes[i] is Err && forall|j: int|
                0 <= j < i ==> outcomes[j] is Ok,
            None => forall|j: int| 0 <= j < outcomes.len() ==> outcomes[j] is Ok,
        },
    decreases outcomes.len(),
{
    if outcomes.len() > 0 {
        let head = outcomes.drop_last();
        lemma_first_failure(head);
        assert forall|j: int| 0 <= j < head.len() implies head[j] == outcomes[j] by {}
    }
}

/// A failure with only successes before it is the first failure.
pub proof fn lemma_first_failure_unique<E>(outcomes: Seq<Result<(), E>>, i: int)
    requires
        0 <= i < outcomes.len(),
        outcomes[i] is Err,
        forall|j: int| 0 <= j < i ==> outcomes[j] is Ok,
    ensures
        first_failure(outcomes) == Some(i),
{
    lemma_first_failure(outcomes);
}

/// The result of a batch whose units have all finished: the first failure in
/// the order of the units, or success if there is none.
pub open spec fn batch_outcome<E>(outcomes: Seq<Result<(), E>>) -> Result<(), E> {
    match first_failure(outcomes) {
        Some(i) => outcomes[i],
        None => Ok(()),
    }
}

/// A batch in which exactly one unit failed reports that unit's failure.
pub proof fn lemma_single_failure_fails_batch<E>(outcomes: Seq<Result<(), E>>, failed: int)
    requires
        0 <= failed < outcomes.len(),
        outcomes[failed] is Err,
        forall|j: int| 0 <= j < outcomes.len() && j != failed ==> outcomes[j] is Ok,
    ensures
        batch_outcome(outcomes) == outcomes[failed],
{
    lemma_first_failure_unique(outcomes, failed);
}

/// A batch succeeds exactly if every unit did.
pub proof fn lemma_batch_succeeds_iff_all_do<E>(outcomes: Seq<Result<(), E>>)
    ensures
        batch_outcome(outcomes) is Ok <==> forall|j: int|
            0 <= j < outcomes.len() ==> outcomes[j] is Ok,
{
    lemma_first_failure(outcomes);
}

/// Folds the outcomes of all units of a batch into the batch's result. Every
/// unit has run to its end before this is called; the first failure wins.
pub fn batch_result<E>(outcomes: Vec<Result<(), E>>) -> (r: Result<(), E>)
    ensures
        r == batch_outcome(outcomes@),
{
    let mut rest = outcomes;
    let mut i: usize = 0;
    while i < rest.len()
        invariant
            i <= rest.len(),
            rest@ == outcomes@,
            forall|j: int| 0 <= j < i ==> outcomes@[j] is Ok,
        decreases rest.len() - i,
    {
        if rest[i].is_err() {
            proof {
                lemma_first_failure_unique(outcomes@, i as int);
            }
            return rest.swap_remove(i);
        }
        i = i + 1;
    }
    proof {
        lemma_first_failure(outcomes@);
    }
    Ok(())
}

/// The plans of a batch: one for each source file, in order, each planned on
/// its own.
pub open spec fn is_batch_plan(
    plans: Seq<Result<CompilePlan, ClassifyError>>,
    sources: Seq<Vec<u8>>,
    config: Config,
    scope: BuildScope,
) -> bool {
    &&& plans.len() == sources.len()
    &&& forall|i: int|
        0 <= i < sources.len() ==> match #[trigger] plans[i] {
            Ok(plan) => planned(sources[i]@, config, scope) == Ok::<Plan, ClassifyError>(plan@),
            Err(e) => planned(sources[i]@, config, scope) == Err::<Plan, ClassifyError>(e),
        }
}

/// Plans one unit of work for every source file of a batch.
pub fn plan_batch(sources: &Vec<Vec<u8>>, config: &Config, scope: BuildScope) -> (r: Vec<
    Result<CompilePlan, ClassifyError>,
>)
    ensures
        is_batch_plan(r@, sources@, *config, scope),
{
    let mut plans: Vec<Result<CompilePlan, ClassifyError>> = Vec::new();
    let mut i: usize = 0;
    while i < sources.len()
        invariant
            i <= sources.len(),
            is_batch_plan(plans@, sources@.take(i as int), *config, scope),
        decreases sources.len() - i,
    {
        let plan = plan_single(sources[i].as_slice(), config, scope);
        plans.push(plan);
        i = i + 1;
    }
    assert(sources@.take(sources@.len() as int) =~= sources@);
    plans
}

/// What a full build does before it compiles the content tree, over byte
/// sequences.
pub struct Preparation {
    /// The init command to run to its end first, if one is configured.
    pub init: Option<Seq<Seq<u8>>>,
    /// Where the file listing is written, unless it is disabled.
    pub listing: Option<Seq<u8>>,
}

/// What a full build does before it compiles the content tree.
#[derive(Debug)]
pub struct ScratchPlan {
    /// The init command to run to its end first, if one is configured.
    pub init: Option<Vec<Vec<u8>>>,
    /// Where the file listing is written, unless it is disabled.
    pub listing: Option<Vec<u8>>,
}

impl View for ScratchPlan {
    type V = Preparation;

    open spec fn view(&self) -> Preparation {
        Preparation {
            init: match self.init {
                Some(c) => Some(texts(c@)),
                None => None,
            },
            listing: match self.listing {
                Some(p) => Some(p@),
                None => None,
            },
        }
    }
}

/// What a full build under `config` does before it compiles: it runs the init
/// command where one is configured, then writes the listing to `files.json`
/// in the project root unless listing is disabled.
pub open spec fn preparation(config: Config) -> Preparation {
    Preparation {
        init: if config.init@.len() > 0 {
            Some(texts(config.init@))
        } else {
            None
        },
        listing: if config.file_listing == FileListing::Disabled {
            None
        } else {
            Some(join(config.project_root@, bytes_of("files.json")))
        },
    }
}

/// Plans what a full build does before it compiles the content tree.
pub fn plan_from_scratch(config: &Config) -> (r: ScratchPlan)
    ensures
        r@ == preparation(*config),
{
    let init = configured_command(&config.init);
    let listing = match config.file_listing {
        FileListing::Disabled => None,
        _ => Some(join_paths(config.project_root.as_slice(), "files.json".as_bytes())),
    };
    ScratchPlan { init, listing }
}

} // verus!
