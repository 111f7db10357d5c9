//! The rebuild controller: what a batch of file-system changes leads to.

use crate::classify::{classify, passthrough_applies, BuildAction, ClassifyError, CompileOutput};
use crate::text::{push_text, texts};
use crate::config::Config;
use crate::path::{is_under, lies_under};
use vstd::prelude::*;

verus! {

/// What happened to the paths of a change.
#[derive(Clone, Copy, Debug, PartialEq, Eq, Structural)]
pub enum ChangeKind {
    /// A file appeared.
    Create,
    /// A file was modified where it stands.
    Modify,
    /// Anything else: access, removal, an unknown change.
    Other,
}

/// What the controller does for one change.
#[derive(Debug)]
pub enum Rebuild {
    /// Nothing: the change concerns no source file.
    Skip,
    /// A full build.
    Full,
    /// A batch build of exactly these paths.
    Batch(Vec<Vec<u8>>),
}

/// What the controller does for one change, over byte sequences.
pub enum RebuildPlan {
    /// Nothing.
    Skip,
    /// A full build.
    Full,
    /// A batch build of exactly these paths.
    Batch(Seq<Seq<u8>>),
}

impl View for Rebuild {
    type V = RebuildPlan;

    open spec fn view(&self) -> RebuildPlan {
        match *self {
            Rebuild::Skip => RebuildPlan::Skip,
            Rebuild::Full => RebuildPlan::Full,
            Rebuild::Batch(paths) => RebuildPlan::Batch(texts(paths@)),
        }
    }
}

/// Whether a path is a source: it lies below the content root or below the
/// template root.
pub open spec fn is_source(path: Seq<u8>, config: Config) -> bool {
    is_under(path, config.spec_content_root()) || is_under(path, config.spec_template_root())
}

/// The sources among the given paths, in their order.
pub open spec fn sources_among(paths: Seq<Seq<u8>>, config: Config) -> Seq<Seq<u8>>
    decreases paths.len(),
{
    if paths.len() == 0 {
        Seq::empty()
    } else {
        let rest = sources_among(paths.drop_last(), config);
        if is_source(paths.last(), config) {
            rest.push(paths.last())
        } else {
            rest
        }
    }
}

/// The sources among some paths are sources, and are all of the paths where
/// every path is a source.
pub proof fn lemma_sources_among(paths: Seq<Seq<u8>>, config: Config)
    ensures
        sources_among(paths, config).len() <= paths.len(),
        forall|i: int|
            0 <= i < sources_among(paths, config).len() ==> is_source(
                #[trigger] sources_among(paths, config)[i],
                config,
            ),
        (forall|i: int| 0 <= i < paths.len() ==> is_source(#[trigger] paths[i], config))
            ==> sources_among(paths, config) == paths,
    decreases paths.len(),
{
    if paths.len() > 0 {
        let head = paths.drop_last();
        lemma_sources_among(head, config);
        if forall|i: int| 0 <= i < paths.len() ==> is_source(#[trigger] paths[i], config) {
            assert forall|i: int| 0 <= i < head.len() implies is_source(
                #[trigger] head[i],
                config,
            ) by {
                assert(head[i] == paths[i]);
            }
            assert(is_source(paths[paths.len() - 1], config));
            assert(sources_among(paths, config) =~= paths);
        }
    }
}

/// Whether a path is a source.
pub fn is_source_path(path: &[u8], config: &Config) -> (r: bool)
    ensures
        r == is_source(path@, *config),
{
    let content_root = config.content_root();
    if lies_under(path, content_root.as_slice()) {
        return true;
    }
    let template_root = config.template_root();
    lies_under(path, template_root.as_slice())
}

/// Keeps the sources among the given paths.
pub fn relevant_paths(paths: &Vec<Vec<u8>>, config: &Config) -> (r: Vec<Vec<u8>>)
    ensures
        texts(r@) == sources_among(texts(paths@), *config),
{
    let mut out: Vec<Vec<u8>> = Vec::new();
    let mut i: usize = 0;
    assert(texts(out@) =~= Seq::<Seq<u8>>::empty());
    assert(texts(paths@.take(0)) =~= Seq::<Seq<u8>>::empty());
    while i < paths.len()
        invariant
            i <= paths.len(),
            texts(out@) == sources_among(texts(paths@.take(i as int)), *config),
        decreases paths.len() - i,
    {
        assert(texts(paths@.take(i as int + 1)).drop_last() =~= texts(paths@.take(i as int)));
        assert(texts(paths@.take(i as int + 1)).last() == paths@[i as int]@);
        if is_source_path(paths[i].as_slice(), config) {
            push_text(&mut out, paths[i].as_slice());
        }
        i = i + 1;
    }
    assert(paths@.take(paths@.len() as int) =~= paths@);
    out
}

/// What one change leads to: nothing unless files were created or modified
/// and some of them are sources; a full build where files were created, since
/// a new file can change how its neighbours are routed; otherwise a batch
/// build of exactly the changed sources.
pub open spec fn rebuild_for(kind: ChangeKind, paths: Seq<Seq<u8>>, config: Config) -> RebuildPlan {
    let sources = sources_among(paths, config);
    if kind == ChangeKind::Other || sources.len() == 0 {
        RebuildPlan::Skip
    } else if kind == ChangeKind::Create {
        RebuildPlan::Full
    } else {
        RebuildPlan::Batch(sources)
    }
}

/// Decides what one change leads to.
pub fn rebuild_decision(kind: ChangeKind, paths: &Vec<Vec<u8>>, config: &Config) -> (r: Rebuild)
    ensures
        r@ == rebuild_for(kind, texts(paths@), *config),
{
    let sources = relevant_paths(paths, config);
    assert(texts(sources@).len() == sources@.len());
    match kind {
        ChangeKind::Other => Rebuild::Skip,
        ChangeKind::Create => {
            if sources.len() == 0 {
                Rebuild::Skip
            } else {
                Rebuild::Full
            }
        },
        ChangeKind::Modify => {
            if sources.len() == 0 {
                Rebuild::Skip
            } else {
                Rebuild::Batch(sources)
            }
        },
    }
}

/// Whether a change to the path shows in the built site: its build action is
/// anything but "nothing".
pub open spec fn affects_site(path: Seq<u8>, config: Config) -> bool {
    classify(path, config, passthrough_applies(path, config)) != Ok::<BuildAction, ClassifyError>(
        BuildAction::Noop,
    )
}

/// Whether a change to some path of the list shows in the built site.
pub open spec fn any_affects_site(paths: Seq<Seq<u8>>, config: Config) -> bool {
    exists|i: int| 0 <= i < paths.len() && #[trigger] affects_site(paths[i], config)
}

/// Whether open pages are told to reload after a rebuild: always after a full
/// build, after a batch build if some path of it affects the site.
pub open spec fn reload_needed(rebuild: RebuildPlan, config: Config) -> bool {
    match rebuild {
        RebuildPlan::Skip => false,
        RebuildPlan::Full => true,
        RebuildPlan::Batch(paths) => any_affects_site(paths, config),
    }
}

/// Whether a change to the path shows in the built site.
pub fn path_affects_site(path: &[u8], config: &Config) -> (r: bool)
    ensures
        r == affects_site(path@, *config),
{
    match CompileOutput::from_full_path(path, config) {
        Ok(CompileOutput::Noop) => false,
        _ => true,
    }
}

/// Decides whether one reload signal is sent after a rebuild. None is sent
/// unless the development server runs.
pub fn reload_after(rebuild: &Rebuild, config: &Config) -> (r: bool)
    ensures
        r == (config.serve && reload_needed(rebuild@, *config)),
{
    if !config.serve {
        return false;
    }
    match rebuild {
        Rebuild::Skip => false,
        Rebuild::Full => true,
        Rebuild::Batch(paths) => {
            let mut i: usize = 0;
            while i < paths.len()
                invariant
                    i <= paths.len(),
                    config.serve,
                    rebuild@ == RebuildPlan::Batch(texts(paths@)),
                    forall|j: int|
                        0 <= j < i ==> !#[trigger] affects_site(texts(paths@)[j], *config),
                decreases paths.len() - i,
            {
                if path_affects_site(paths[i].as_slice(), config) {
                    proof {
                        let changed = texts(paths@);
                        assert(changed.len() == paths@.len());
                        assert(changed[i as int] == paths@[i as int]@);
                        assert(0 <= i < changed.len() && affects_site(changed[i as int], *config));
                    }
                    return true;
                }
                i = i + 1;
            }
            false
        },
    }
}

/// When a build runs.
#[derive(Clone, Copy, Debug, PartialEq, Eq, Structural)]
pub enum BuildStage {
    /// The first full build, before anything is watched.
    Initial,
    /// A rebuild that a change set off.
    Watching,
}

/// What follows a failed build.
#[derive(Clone, Copy, Debug, PartialEq, Eq, Structural)]
pub enum FailurePolicy {
    /// The error is reported and the process ends with a failure status.
    Exit,
    /// The error is logged and the watch loop goes on.
    Continue,
}

/// Decides what follows a failed build: only the first build is fatal.
pub fn on_build_failure(stage: BuildStage) -> (r: FailurePolicy)
    ensures
        r == match stage {
            BuildStage::Initial => FailurePolicy::Exit,
            BuildStage::Watching => FailurePolicy::Continue,
        },
{
    match stage {
        BuildStage::Initial => FailurePolicy::Exit,
        BuildStage::Watching => FailurePolicy::Continue,
    }
}

/// What the program does from start to end.
#[derive(Clone, Copy, Debug, PartialEq, Eq, Structural)]
pub struct RunPlan {
    /// Whether it starts with a full build.
    pub build_first: bool,
    /// Whether it then serves the output with live reload.
    pub serve: bool,
    /// Whether it then watches the project for changes.
    pub watch: bool,
}

/// Plans a run: the full build comes first unless it is to be left out; the
/// project is watched if watching or serving is asked for.
pub fn plan_run(config: &Config) -> (r: RunPlan)
    ensures
        r == (RunPlan {
            build_first: !config.ignore_initial,
            serve: config.serve,
            watch: config.watch || config.serve,
        }),
{
    RunPlan {
        build_first: !config.ignore_initial,
        serve: config.serve,
        watch: config.watch || config.serve,
    }
}

} // verus!
