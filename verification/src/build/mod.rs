//! From a configuration to an archive, and from the archive to an image.
//!
//! A build runs in one line: the values for the templates are derived from
//! the configuration, the three templates are rendered, the archive is
//! assembled in its fixed order, and the archive either goes to a file or to
//! a backend that builds the image. Reading files and talking to a backend
//! happen outside; this module decides what is read, what is written and
//! what is built.

pub mod archive;
pub mod containers;
pub mod context;
pub mod error;
pub mod header;
pub mod scripts;
pub mod tar_helpers;
pub mod templates;

use vstd::prelude::*;
use vstd::string::StrSliceExecFns;
use vstd::utf8::encode_utf8;
use crate::build::archive::{
    all_representable, archive_bytes, lemma_archive_layout, lemma_entry_layout, paths_of,
    paths_unique, Archive, ArchiveEntryView, ENTRY_MODE,
};
use crate::build::containers::{image_tag, image_tag_of, DOCKERFILE_NAME};
use crate::build::context::{context_of, EnvOverrides, EnvOverridesView, TemplateContext};
use crate::build::error::{BuildError, BuildErrorView};
use crate::build::header::{
    declared_size, is_plain_name, lemma_plain_name_is_plain_path, stored_name, tar_name_field,
    BLOCK_SIZE,
};
use crate::build::scripts::{
    covers, lemma_collection_ignores_completion_order, lemma_failed_reading_fails_collection,
    reading_view, CollectorView, ScriptCollector,
};
use crate::build::tar_helpers::{
    append_event_handlers, first_refused, script_entries_of, script_entry, ScriptEntries,
};
use crate::build::templates::{
    entries_map, is_render_error, is_template_error, rendered_of, Rendered, RenderedView,
    TemplateRegistry,
};
use crate::cli::ContainerBackend;
use crate::config::{BuildConfig, BuildConfigView};

verus! {

/// Path of the configuration inside the archive.
pub const CONFIG_NAME: &'static str = "config.toml";

/// Path of the ignore file inside the archive.
pub const DOCKER_IGNORE_NAME: &'static str = ".dockerignore";

/// Path of the install script inside the archive.
pub const INSTALL_NAME: &'static str = "install.sh";

/// Path of the entrypoint script inside the archive.
pub const ENTRYPOINT_NAME: &'static str = "entrypoint.sh";

/// Content of the ignore file: what a build of the image leaves out.
pub const DOCKER_IGNORE: &'static str = "./Dockerfile\n./.dockerignore";

/// What a build hands over at its end.
#[derive(Debug)]
pub enum BuildOutput {
    /// The archive is to be written to `path` as it is, and nothing built.
    Archive { path: String, bytes: Vec<u8> },
    /// The archive is to be built into an image tagged `tag` by `backend`.
    Image { tag: String, backend: ContainerBackend, verbose: bool, archive: Vec<u8> },
}

/// Model of a [`BuildOutput`].
pub enum BuildOutputView {
    Archive { path: Seq<char>, bytes: Seq<u8> },
    Image { tag: Seq<char>, backend: ContainerBackend, verbose: bool, archive: Seq<u8> },
}

impl View for BuildOutput {
    type V = BuildOutputView;

    open spec fn view(&self) -> BuildOutputView {
        match *self {
            BuildOutput::Archive { path, bytes } => BuildOutputView::Archive {
                path: path@,
                bytes: bytes@,
            },
            BuildOutput::Image { tag, backend, verbose, archive } => BuildOutputView::Image {
                tag: tag@,
                backend,
                verbose,
                archive: archive@,
            },
        }
    }
}

/// What the command line asks of a build.
#[derive(Debug)]
pub struct BuildRequest {
    /// Where the archive is to be written; `None` asks for an image.
    pub output: Option<String>,
    /// The tag of the image; `None` asks for the default one.
    pub tag: Option<String>,
    /// The backend that builds the image.
    pub container_backend: ContainerBackend,
    /// Whether the backend's error stream is passed on.
    pub verbose: bool,
}

/// Model of a [`BuildRequest`].
pub struct BuildRequestView {
    pub output: Option<Seq<char>>,
    pub tag: Option<Seq<char>>,
    pub container_backend: ContainerBackend,
    pub verbose: bool,
}

impl View for BuildRequest {
    type V = BuildRequestView;

    open spec fn view(&self) -> BuildRequestView {
        BuildRequestView {
            output: self.output.deep_view(),
            tag: self.tag.deep_view(),
            container_backend: self.container_backend,
            verbose: self.verbose,
        }
    }
}

/// The entry of a text: its UTF-8 bytes under `path`.
pub open spec fn text_entry(path: Seq<char>, text: Seq<char>) -> ArchiveEntryView {
    ArchiveEntryView { path, content: encode_utf8(text), mode: ENTRY_MODE }
}

/// The five entries that every archive starts with, in their fixed order:
/// the configuration, the Dockerfile, the ignore file, the install script
/// and the entrypoint script.
pub open spec fn fixed_entries(config: Seq<char>, rendered: RenderedView) -> Seq<ArchiveEntryView> {
    seq![
        text_entry(CONFIG_NAME@, config),
        text_entry(DOCKERFILE_NAME@, rendered.dockerfile),
        text_entry(DOCKER_IGNORE_NAME@, DOCKER_IGNORE@),
        text_entry(INSTALL_NAME@, rendered.install),
        text_entry(ENTRYPOINT_NAME@, rendered.entrypoint),
    ]
}

/// What is handed over for an archive of `entries`: its bytes for the file
/// at the requested path, or, where no path is requested, for an image
/// under the requested tag or else the default one.
pub open spec fn output_of(
    request: BuildRequestView,
    cfg: BuildConfigView,
    entries: Seq<ArchiveEntryView>,
) -> BuildOutputView {
    match request.output {
        Some(path) => BuildOutputView::Archive { path, bytes: archive_bytes(entries) },
        None => BuildOutputView::Image {
            tag: image_tag_of(request.tag, cfg),
            backend: request.container_backend,
            verbose: request.verbose,
            archive: archive_bytes(entries),
        },
    }
}

/// A build that has its rendered texts ends as `r`: with the archive of the
/// five fixed entries and then the scripts in the order of their
/// declarations, each of them an entry that can stand in an archive and no
/// two of them under the same path; or, where scripts were not read, with
/// the error that names them and says why; or, where a declared path cannot
/// stand in an archive, or is the path of a fixed entry or of a script
/// declared before it, with the error that names the first such path.
pub open spec fn ends_as(
    r: Result<BuildOutput, BuildError>,
    request: BuildRequestView,
    config: Seq<char>,
    cfg: BuildConfigView,
    rendered: RenderedView,
    scripts: CollectorView,
) -> bool {
    match script_entries_of(paths_of(fixed_entries(config, rendered)), scripts) {
        ScriptEntries::Entries(entries) => r matches Ok(out) && out@ == output_of(
            request,
            cfg,
            fixed_entries(config, rendered) + entries,
        ) && all_representable(fixed_entries(config, rendered) + entries) && paths_unique(
            fixed_entries(config, rendered) + entries,
        ),
        ScriptEntries::NotRead(error) => r matches Err(e) && e@ == error,
        ScriptEntries::Refused(path) => r matches Err(e) && e@ matches BuildErrorView::Archive {
            path: p,
            ..
        } && p == path,
    }
}

/// The archive of the five fixed entries.
pub fn fixed_archive(config_content: &str, rendered: &Rendered) -> (archive: Archive)
    ensures
        archive@ == fixed_entries(config_content@, rendered@),
        paths_unique(archive@),
{
    proof {
        lemma_fixed_names_are_plain();
        lemma_fixed_paths(config_content@, rendered@);
    }
    let mut archive = Archive::new();
    append_text(&mut archive, CONFIG_NAME, config_content);
    append_text(&mut archive, DOCKERFILE_NAME, rendered.dockerfile.as_str());
    append_text(&mut archive, DOCKER_IGNORE_NAME, DOCKER_IGNORE);
    append_text(&mut archive, INSTALL_NAME, rendered.install.as_str());
    append_text(&mut archive, ENTRYPOINT_NAME, rendered.entrypoint.as_str());
    archive
}

/// Appends `text` under a plain file name that the archive does not hold
/// yet; this cannot fail.
fn append_text(archive: &mut Archive, name: &str, text: &str)
    requires
        is_plain_name(name@),
        forall|i: int| 0 <= i < old(archive)@.len() ==> (#[trigger] old(archive)@[i]).path != name@,
    ensures
        final(archive)@ == old(archive)@.push(text_entry(name@, text@)),
        paths_unique(old(archive)@) ==> paths_unique(final(archive)@),
{
    assert(!paths_of(archive@).contains(name@)) by {
        if paths_of(archive@).contains(name@) {
            let k = choose|k: int| 0 <= k < paths_of(archive@).len() && paths_of(archive@)[k] == name@;
            assert(archive@[k].path == name@);
        }
    }
    proof {
        lemma_plain_name_is_plain_path(name@);
    }
    match archive.append(name, text.as_bytes_vec(), ENTRY_MODE) {
        Ok(()) => {},
        Err(_) => unreached(),
    }
}

/// The names of the five fixed entries are plain file names, so a header
/// can be made for each of them.
pub proof fn lemma_fixed_names_are_plain()
    ensures
        is_plain_name(CONFIG_NAME@),
        is_plain_name(DOCKERFILE_NAME@),
        is_plain_name(DOCKER_IGNORE_NAME@),
        is_plain_name(INSTALL_NAME@),
        is_plain_name(ENTRYPOINT_NAME@),
{
    reveal_strlit("config.toml");
    reveal_strlit("Dockerfile");
    reveal_strlit(".dockerignore");
    reveal_strlit("install.sh");
    reveal_strlit("entrypoint.sh");
    assert(DOCKER_IGNORE_NAME@ =~= seq![
        '.',
        'd',
        'o',
        'c',
        'k',
        'e',
        'r',
        'i',
        'g',
        'n',
        'o',
        'r',
        'e',
    ]);
    assert(ENTRYPOINT_NAME@ =~= seq![
        'e',
        'n',
        't',
        'r',
        'y',
        'p',
        'o',
        'i',
        'n',
        't',
        '.',
        's',
        'h',
    ]);
}

/// The end of a build whose templates are rendered: assembles the archive,
/// the five fixed entries first and then the collected scripts in the order
/// of their declarations, and hands it over for the file or for the image.
///
/// Nothing is handed over where a script was not read or a declared path
/// cannot stand in an archive: there is no archive of a part.
pub fn build_from_rendered(
    request: BuildRequest,
    config_content: &str,
    cfg: &BuildConfig,
    rendered: &Rendered,
    scripts: &ScriptCollector,
) -> (r: Result<BuildOutput, BuildError>)
    ensures
        ends_as(r, request@, config_content@, cfg@, rendered@, scripts@),
{
    let mut archive = fixed_archive(config_content, rendered);
    match append_event_handlers(&mut archive, scripts) {
        Ok(()) => {},
        Err(e) => {
            return Err(e);
        },
    }
    let bytes = archive.to_bytes();
    match request.output {
        Some(path) => Ok(BuildOutput::Archive { path, bytes }),
        None => {
            let tag = image_tag(request.tag, cfg);
            Ok(
                BuildOutput::Image {
                    tag,
                    backend: request.container_backend,
                    verbose: request.verbose,
                    archive: bytes,
                },
            )
        },
    }
}

/// A build whose templates are rendered and whose declared scripts are
/// being read: it has one slot for each script that the configuration
/// declares, in the order of the declarations.
pub struct PendingBuild {
    request: BuildRequest,
    config_content: String,
    cfg: BuildConfig,
    rendered: Rendered,
    scripts: ScriptCollector,
}

/// Model of a [`PendingBuild`].
pub struct PendingBuildView {
    pub request: BuildRequestView,
    pub config: Seq<char>,
    pub cfg: BuildConfigView,
    pub rendered: RenderedView,
    pub scripts: CollectorView,
}

impl View for PendingBuild {
    type V = PendingBuildView;

    closed spec fn view(&self) -> PendingBuildView {
        PendingBuildView {
            request: self.request@,
            config: self.config_content@,
            cfg: self.cfg@,
            rendered: self.rendered@,
            scripts: self.scripts@,
        }
    }
}

impl PendingBuildView {
    /// The scripts that are collected are those that the configuration
    /// declares, in the order of their declarations.
    pub open spec fn collects_declared_scripts(self) -> bool {
        self.scripts.paths == self.cfg.integrations.event_handlers
    }

    /// The build after the reading of the script at `index` ended with
    /// `outcome`.
    pub open spec fn record(self, index: int, outcome: Result<Seq<char>, Seq<char>>) -> PendingBuildView {
        PendingBuildView { scripts: self.scripts.record(index, outcome), ..self }
    }

    /// The build after the readings ended in the order `order`, the reading
    /// of script `i` with `outcomes[i]`.
    pub open spec fn record_all(
        self,
        order: Seq<int>,
        outcomes: Seq<Result<Seq<char>, Seq<char>>>,
    ) -> PendingBuildView {
        PendingBuildView { scripts: self.scripts.record_all(order, outcomes), ..self }
    }

    /// No reading has ended yet.
    pub open spec fn fresh(self) -> bool {
        self.scripts == CollectorView::start(self.cfg.integrations.event_handlers)
    }

    /// The build ends as `r`.
    pub open spec fn ends_as(self, r: Result<BuildOutput, BuildError>) -> bool {
        ends_as(r, self.request, self.config, self.cfg, self.rendered, self.scripts)
    }
}

/// The texts that the templates are rendered to for a configuration under
/// the overrides of the environment, or the name of the first template
/// that does not render.
pub open spec fn rendered_for(cfg: BuildConfigView, env: EnvOverridesView) -> Result<
    RenderedView,
    Seq<char>,
> {
    rendered_of(entries_map(context_of(cfg, env)))
}

/// The first half of a build, up to the reading of the scripts.
///
/// `config_content` is the text of the configuration file and `cfg` what was
/// parsed from it; `env` holds the overrides of the environment and
/// `templates` the three templates.
///
/// The templates are rendered with the values that
/// [`TemplateContext::build`] derives, and with nothing else. Where one
/// does not render, the build fails with a render error that names the
/// first that did not, and no script is asked for. Else the build goes on
/// with the three texts: it waits for the reading of every script that the
/// configuration declares, and ends as [`PendingBuild::finish`] says.
pub fn build_with_output(
    request: BuildRequest,
    config_content: String,
    cfg: BuildConfig,
    env: &EnvOverrides,
    templates: &TemplateRegistry,
) -> (r: Result<PendingBuild, BuildError>)
    ensures
        match rendered_for(cfg@, env@) {
            Ok(rendered) => r matches Ok(pending) && pending@ == (PendingBuildView {
                request: request@,
                config: config_content@,
                cfg: cfg@,
                rendered,
                scripts: CollectorView::start(cfg@.integrations.event_handlers),
            }),
            Err(name) => r matches Err(e) && is_render_error(e@, name),
        },
        r matches Err(e) ==> is_template_error(e@),
        r matches Ok(pending) ==> pending@.fresh(),
{
    let ctx = TemplateContext::build(&cfg, env);
    match templates.render_all(&ctx) {
        Ok(rendered) => {
            let scripts = ScriptCollector::new(&cfg.integrations.event_handlers);
            Ok(PendingBuild { request, config_content, cfg, rendered, scripts })
        },
        Err(e) => Err(e),
    }
}

impl PendingBuild {
    #[verifier::type_invariant]
    spec fn holds_declared_scripts(self) -> bool {
        self@.collects_declared_scripts()
    }

    /// The paths of the scripts to read, in the order of their declarations.
    pub fn script_paths(&self) -> (paths: &Vec<String>)
        ensures
            paths.deep_view() == self@.cfg.integrations.event_handlers,
            paths.deep_view() == self@.scripts.paths,
    {
        proof {
            use_type_invariant(self);
        }
        &self.cfg.integrations.event_handlers
    }

    /// The three rendered texts.
    pub fn rendered(&self) -> (rendered: &Rendered)
        ensures
            rendered@ == self@.rendered,
    {
        &self.rendered
    }

    /// Takes note that the reading of the script at `index` ended with
    /// `outcome`: its text, or why it could not be read. Readings may end
    /// in any order.
    pub fn record(self, index: usize, outcome: Result<String, String>) -> (next: PendingBuild)
        ensures
            next@ == self@.record(index as int, reading_view(outcome)),
    {
        proof {
            use_type_invariant(&self);
        }
        let PendingBuild { request, config_content, cfg, rendered, scripts } = self;
        let mut scripts = scripts;
        scripts.record(index, outcome);
        PendingBuild { request, config_content, cfg, rendered, scripts }
    }

    /// Whether the reading of every declared script has ended.
    pub fn is_complete(&self) -> (done: bool)
        ensures
            done == self@.scripts.complete(),
    {
        self.scripts.is_complete()
    }

    /// The end of the build: what [`build_from_rendered`] makes of the
    /// rendered texts and the scripts as they were read. The scripts are
    /// those that the configuration declares, in that order.
    pub fn finish(self) -> (r: Result<BuildOutput, BuildError>)
        ensures
            self@.collects_declared_scripts(),
            self@.ends_as(r),
    {
        proof {
            use_type_invariant(&self);
        }
        let PendingBuild { request, config_content, cfg, rendered, scripts } = self;
        build_from_rendered(request, config_content.as_str(), &cfg, &rendered, &scripts)
    }
}

/// The entries of scripts that were all read: each declared path with the
/// text of its own reading, in the order of the declarations.
pub open spec fn declared_script_entries(paths: Seq<Seq<char>>, texts: Seq<Seq<char>>) -> Seq<
    ArchiveEntryView,
> {
    Seq::new(paths.len(), |i: int| script_entry((paths[i], texts[i])))
}

/// `path` is the path of one of the five fixed entries.
pub open spec fn is_fixed_name(path: Seq<char>) -> bool {
    path == CONFIG_NAME@ || path == DOCKERFILE_NAME@ || path == DOCKER_IGNORE_NAME@ || path
        == INSTALL_NAME@ || path == ENTRYPOINT_NAME@
}

/// The declared paths can all stand in the archive behind the fixed
/// entries: the archive format can hold each, none is the path of a fixed
/// entry, and no two are the same.
pub open spec fn scripts_storable(paths: Seq<Seq<char>>) -> bool {
    &&& forall|i: int| 0 <= i < paths.len() ==> tar_name_field(#[trigger] paths[i]) is Some
    &&& forall|i: int| 0 <= i < paths.len() ==> !is_fixed_name(#[trigger] paths[i])
    &&& forall|i: int, j: int|
        0 <= i < j < paths.len() ==> #[trigger] paths[i] != #[trigger] paths[j]
}

/// The five fixed entries have five paths: no two are the same, and a path
/// is among them exactly if it is the path of a fixed entry.
pub proof fn lemma_fixed_paths(config: Seq<char>, rendered: RenderedView)
    ensures
        paths_unique(fixed_entries(config, rendered)),
        forall|path: Seq<char>|
            #[trigger] paths_of(fixed_entries(config, rendered)).contains(path) <==> is_fixed_name(
                path,
            ),
{
    reveal_strlit("config.toml");
    reveal_strlit("Dockerfile");
    reveal_strlit(".dockerignore");
    reveal_strlit("install.sh");
    reveal_strlit("entrypoint.sh");
    assert(CONFIG_NAME@[0] == 'c' && DOCKERFILE_NAME@[0] == 'D' && DOCKER_IGNORE_NAME@[0] == '.'
        && INSTALL_NAME@[0] == 'i' && ENTRYPOINT_NAME@[0] == 'e');
    let paths = paths_of(fixed_entries(config, rendered));
    assert(paths[0] == CONFIG_NAME@ && paths[1] == DOCKERFILE_NAME@ && paths[2]
        == DOCKER_IGNORE_NAME@ && paths[3] == INSTALL_NAME@ && paths[4] == ENTRYPOINT_NAME@);
}

/// The order in which the readings of the scripts end does not reach the
/// archive: whichever ends first, the scripts stand behind the five fixed
/// entries in the order of their declarations, each under its declared path
/// with its own text.
pub proof fn lemma_archive_ignores_completion_order(
    pending: PendingBuildView,
    texts: Seq<Seq<char>>,
    order: Seq<int>,
    r: Result<BuildOutput, BuildError>,
)
    requires
        pending.fresh(),
        texts.len() == pending.cfg.integrations.event_handlers.len(),
        covers(order, texts.len()),
        scripts_storable(pending.cfg.integrations.event_handlers),
        pending.record_all(
            order,
            texts.map_values(|t: Seq<char>| Ok::<Seq<char>, Seq<char>>(t)),
        ).ends_as(r),
    ensures
        r matches Ok(out) && out@ == output_of(
            pending.request,
            pending.cfg,
            fixed_entries(pending.config, pending.rendered) + declared_script_entries(
                pending.cfg.integrations.event_handlers,
                texts,
            ),
        ),
        forall|i: int|
            0 <= i < texts.len() ==> (#[trigger] (fixed_entries(pending.config, pending.rendered)
                + declared_script_entries(pending.cfg.integrations.event_handlers, texts))[5 + i])
                == script_entry((pending.cfg.integrations.event_handlers[i], texts[i])),
{
    let paths = pending.cfg.integrations.event_handlers;
    let outcomes = texts.map_values(|t: Seq<char>| Ok::<Seq<char>, Seq<char>>(t));
    let end = CollectorView::start(paths).record_all(order, outcomes);
    lemma_collection_ignores_completion_order(paths, outcomes, order);
    assert(end.all_read());
    lemma_storable_scripts_are_not_refused(pending.config, pending.rendered, paths);
    assert(end.scripts().map_values(|s: (Seq<char>, Seq<char>)| script_entry(s))
        =~= declared_script_entries(paths, texts));
}

/// Behind the fixed entries no declared path is refused exactly where the
/// declared paths can all stand there.
pub proof fn lemma_storable_scripts_are_not_refused(
    config: Seq<char>,
    rendered: RenderedView,
    paths: Seq<Seq<char>>,
)
    ensures
        first_refused(paths_of(fixed_entries(config, rendered)), paths) is None
            <==> scripts_storable(paths),
{
    lemma_fixed_paths(config, rendered);
    lemma_first_refused(paths_of(fixed_entries(config, rendered)), paths);
}

/// No path is refused exactly where the archive format can hold each of
/// the paths, none is taken, and no two are the same. A refused path is
/// one of the paths.
pub proof fn lemma_first_refused(taken: Seq<Seq<char>>, paths: Seq<Seq<char>>)
    ensures
        first_refused(taken, paths) is None <==> {
            &&& forall|i: int| 0 <= i < paths.len() ==> tar_name_field(#[trigger] paths[i]) is Some
            &&& forall|i: int| 0 <= i < paths.len() ==> !taken.contains(#[trigger] paths[i])
            &&& forall|i: int, j: int|
                0 <= i < j < paths.len() ==> #[trigger] paths[i] != #[trigger] paths[j]
        },
        first_refused(taken, paths) matches Some(path) ==> paths.contains(path),
    decreases paths.len(),
{
    if paths.len() > 0 {
        let first = paths.first();
        let rest = paths.drop_first();
        let seen = taken.push(first);
        lemma_first_refused(seen, rest);
        assert(paths[0] == first);
        assert forall|i: int| 1 <= i < paths.len() implies paths[i] == #[trigger] rest[i - 1] by {}
        assert forall|x: Seq<char>| seen.contains(x) <==> taken.contains(x) || x == first by {
            if taken.contains(x) {
                let k = choose|k: int| 0 <= k < taken.len() && taken[k] == x;
                assert(seen[k] == x);
            }
            if x == first {
                assert(seen[taken.len() as int] == x);
            }
        }
        if tar_name_field(first) is Some && !taken.contains(first) {
            if first_refused(seen, rest) is None {
                assert forall|i: int| 0 <= i < paths.len() implies tar_name_field(
                    #[trigger] paths[i],
                ) is Some && !taken.contains(paths[i]) by {
                    if i > 0 {
                        assert(paths[i] == rest[i - 1]);
                        assert(!seen.contains(rest[i - 1]));
                    }
                }
                assert forall|i: int, j: int| 0 <= i < j < paths.len() implies #[trigger] paths[i]
                    != #[trigger] paths[j] by {
                    assert(paths[j] == rest[j - 1]);
                    if i == 0 {
                        assert(!seen.contains(rest[j - 1]));
                    } else {
                        assert(paths[i] == rest[i - 1]);
                    }
                }
            } else {
                let path = first_refused(seen, rest)->0;
                let k = choose|k: int| 0 <= k < rest.len() && rest[k] == path;
                assert(paths[k + 1] == path);
                if forall|i: int| 0 <= i < paths.len() ==> tar_name_field(#[trigger] paths[i]) is Some {
                    if forall|i: int| 0 <= i < paths.len() ==> !taken.contains(#[trigger] paths[i]) {
                        if forall|i: int, j: int|
                            0 <= i < j < paths.len() ==> #[trigger] paths[i] != #[trigger] paths[j] {
                            assert forall|i: int| 0 <= i < rest.len() implies tar_name_field(
                                #[trigger] rest[i],
                            ) is Some && !seen.contains(rest[i]) by {
                                assert(rest[i] == paths[i + 1]);
                                assert(paths[0] != paths[i + 1]);
                            }
                            assert forall|i: int, j: int| 0 <= i < j < rest.len() implies #[trigger] rest[i]
                                != #[trigger] rest[j] by {
                                assert(rest[i] == paths[i + 1] && rest[j] == paths[j + 1]);
                            }
                            assert(false);
                        }
                    }
                }
            }
        }
    }
}

/// Scripts whose declared paths can all stand behind the fixed entries
/// leave the paths of the archive unique.
pub proof fn lemma_archive_paths_unique(
    config: Seq<char>,
    rendered: RenderedView,
    paths: Seq<Seq<char>>,
    texts: Seq<Seq<char>>,
)
    requires
        scripts_storable(paths),
        texts.len() == paths.len(),
    ensures
        paths_unique(fixed_entries(config, rendered) + declared_script_entries(paths, texts)),
{
    lemma_fixed_paths(config, rendered);
    let fixed = fixed_entries(config, rendered);
    let scripts = declared_script_entries(paths, texts);
    let all = fixed + scripts;
    assert forall|i: int, j: int| 0 <= i < j < all.len() implies (#[trigger] all[i]).path != (
    #[trigger] all[j]).path by {
        if j < 5 {
            assert(all[i] == fixed[i] && all[j] == fixed[j]);
        } else if i < 5 {
            assert(all[i] == fixed[i] && all[j].path == paths[j - 5]);
            assert(paths_of(fixed)[i] == fixed[i].path);
            assert(is_fixed_name(fixed[i].path));
        } else {
            assert(all[i].path == paths[i - 5] && all[j].path == paths[j - 5]);
        }
    }
}

/// A script that was not read fails the build: the error names its path,
/// and neither an archive nor an image is handed over.
pub proof fn lemma_unread_script_fails_build(
    pending: PendingBuildView,
    index: int,
    r: Result<BuildOutput, BuildError>,
)
    requires
        pending.scripts.paths.len() == pending.scripts.slots.len(),
        0 <= index < pending.scripts.slots.len(),
        !pending.scripts.is_read(index),
        pending.ends_as(r),
    ensures
        r matches Err(e) && e@ matches BuildErrorView::ScriptCollection { paths, causes }
            && paths.contains(pending.scripts.paths[index]) && paths.len() == causes.len(),
{
    lemma_failed_reading_fails_collection(pending.scripts, index);
}

/// The configuration comes back from the archive as it went in: the
/// archive starts with the header of `config.toml`, which declares the
/// length of the configuration's bytes, and these bytes follow it
/// unchanged, whatever else the archive holds.
pub proof fn lemma_archive_returns_config(
    config: Seq<char>,
    rendered: RenderedView,
    scripts: Seq<ArchiveEntryView>,
)
    requires
        all_representable(fixed_entries(config, rendered) + scripts),
    ensures
        ({
            let bytes = archive_bytes(fixed_entries(config, rendered) + scripts);
            let header = bytes.subrange(0, BLOCK_SIZE as int);
            let content = bytes.subrange(BLOCK_SIZE as int, BLOCK_SIZE + encode_utf8(config).len());
            &&& stored_name(header) == tar_name_field(CONFIG_NAME@).unwrap()
            &&& declared_size(header) == encode_utf8(config).len()
            &&& content == encode_utf8(config)
            &&& vstd::utf8::decode_utf8(content) == config
        }),
{
    let entries = fixed_entries(config, rendered) + scripts;
    let first = text_entry(CONFIG_NAME@, config);
    let bytes = archive_bytes(entries);
    lemma_archive_layout(entries, 0);
    lemma_entry_layout(first);
    assert(bytes.subrange(0, BLOCK_SIZE as int) =~= first.bytes().subrange(0, BLOCK_SIZE as int));
    assert(bytes.subrange(BLOCK_SIZE as int, BLOCK_SIZE + encode_utf8(config).len())
        =~= first.bytes().subrange(BLOCK_SIZE as int, BLOCK_SIZE + encode_utf8(config).len()));
    vstd::utf8::encode_utf8_decode_utf8(config);
}

/// Building twice gives the same: the rendered texts are a function of the
/// configuration and the overrides of the environment alone, and so is the
/// tag of an image that is given none.
pub proof fn lemma_rendering_repeats(
    first: BuildConfigView,
    second: BuildConfigView,
    first_env: EnvOverridesView,
    second_env: EnvOverridesView,
)
    requires
        first == second,
        first_env == second_env,
    ensures
        rendered_for(first, first_env) == rendered_for(second, second_env),
        image_tag_of(None, first) == image_tag_of(None, second),
        crate::build::containers::server_tag_of(first) == crate::build::containers::server_tag_of(
            second,
        ),
{
}

/// A build is a function of what it is given: with the same request, the
/// same configuration and the same rendered texts, and scripts read with
/// the same texts, what is handed over is the same, tag and bytes.
pub proof fn lemma_build_repeats(
    pending: PendingBuildView,
    first: Result<BuildOutput, BuildError>,
    second: Result<BuildOutput, BuildError>,
)
    requires
        pending.ends_as(first),
        pending.ends_as(second),
    ensures
        first is Ok <==> second is Ok,
        first matches Ok(a) ==> second matches Ok(b) && a@ == b@,
{
}

} // verus!
