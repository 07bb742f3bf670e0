//! The three templates of an image and their rendering.
//!
//! The templates are fixed: the library holds their sources, and they only
//! print values of the context and test whether a value is there. Rendering
//! is done by `tera`. Verus does not read that crate. What it renders one of
//! the three templates to, with given texts as values, is known here only
//! by a name: the library states what it hands to the renderer, and that
//! its result is the renderer's.

use vstd::prelude::*;
use vstd::string::StringExecFns;
use crate::build::context::TemplateContext;
use crate::build::error::{BuildError, BuildErrorView};

verus! {

/// `tera::Tera`: the engine that holds the parsed templates. Nothing of it
/// is known here but which sources were registered, by the name
/// `registered_templates`.
#[verifier::external_type_specification]
#[verifier::external_body]
pub struct ExTera(tera::Tera);

/// `tera::Context`: the values that a template is rendered with. Nothing
/// of it is known here but the texts that were inserted, by the name
/// `context_values`.
#[verifier::external_type_specification]
#[verifier::external_body]
pub struct ExTeraContext(tera::Context);

/// `tera::Error`: the error of a template that does not parse or render.
/// It is only carried to where its text is taken.
#[verifier::external_type_specification]
#[verifier::external_body]
pub struct ExTeraError(tera::Error);

/// Name under which the Dockerfile template is registered.
pub const DOCKERFILE_TEMPLATE: &'static str = "dockerfile";

/// Name under which the template of the install script is registered.
pub const INSTALL_TEMPLATE: &'static str = "install.sh";

/// Name under which the template of the entrypoint script is registered.
pub const ENTRYPOINT_TEMPLATE: &'static str = "entrypoint.sh";

/// Source of the Dockerfile template.
pub const DOCKERFILE_SOURCE: &'static str = "\
FROM ghcr.io/basalt-rs/basalt-web:{{ web_tag }} AS web\n\
FROM ghcr.io/basalt-rs/basalt-server:{{ server_tag }}\n\
\n\
WORKDIR /basalt\n\
COPY config.toml /basalt/config.toml\n\
COPY install.sh /basalt/install.sh\n\
COPY entrypoint.sh /basalt/entrypoint.sh\n\
{% if web_client %}COPY --from=web /web /basalt/web\n\
ENV BASALT_WEB_CLIENT={{ web_client }}\n\
{% endif %}RUN sh /basalt/install.sh\n\
\n\
EXPOSE 9550\n\
ENTRYPOINT [\"sh\", \"/basalt/entrypoint.sh\"]\n";

/// Source of the template of the install script: the install text of the
/// languages, then the custom snippet, each where there is one.
pub const INSTALL_SOURCE: &'static str = "\
{% if base_install %}{{ base_install }}\n\
{% endif %}{% if custom_install %}{{ custom_install }}\n\
{% endif %}";

/// Source of the template of the entrypoint script: the init text of the
/// languages, then the custom snippet, each where there is one, then the
/// start of the server.
pub const ENTRYPOINT_SOURCE: &'static str = "\
{% if base_init %}{{ base_init }}\n\
{% endif %}{% if custom_init %}{{ custom_init }}\n\
{% endif %}exec basalt-server run /basalt/config.toml\n";

/// The templates registered in a `tera::Tera`, each name with the source it
/// was registered with.
pub uninterp spec fn registered_templates(t: tera::Tera) -> Map<Seq<char>, Seq<char>>;

/// Whether `tera::Tera::add_raw_template` accepts `source` under `name`
/// in an engine with the templates `registered`: whether the source parses
/// as a template and every template it extends or imports is at hand.
pub uninterp spec fn tera_accepts(
    registered: Map<Seq<char>, Seq<char>>,
    name: Seq<char>,
    source: Seq<char>,
) -> bool;

/// The values of a `tera::Context` that were inserted as text, by key.
pub uninterp spec fn context_values(c: tera::Context) -> Map<Seq<char>, Seq<char>>;

/// Whether every value of a `tera::Context` is a text.
pub uninterp spec fn context_only_texts(c: tera::Context) -> bool;

/// Whether a `tera::Tera` has the filters, functions, tests and escaping
/// that `tera::Tera::default` gives it, and no others.
pub uninterp spec fn engine_as_made(t: tera::Tera) -> bool;

/// The text that `tera::Tera::render` gives for the template `name` of the
/// library with the texts `values`, and `None` where it fails.
pub uninterp spec fn rendered_built_in(name: Seq<char>, values: Map<Seq<char>, Seq<char>>) -> Option<
    Seq<char>,
>;

/// The map without entries.
pub open spec fn no_entries() -> Map<Seq<char>, Seq<char>> {
    Map::empty()
}

/// `tera::Tera::default`: an engine without templates, as it is made.
#[verifier::external_body]
fn tera_default() -> (t: tera::Tera)
    ensures
        registered_templates(t) == no_entries(),
        engine_as_made(t),
{
    tera::Tera::default()
}

/// `tera::Tera::add_raw_template`, for one of the three templates with its
/// own source, on an engine that holds nothing but some of the three. It
/// succeeds exactly where the engine accepts the source under that name
/// beside what is registered, which this library knows only by the name
/// `tera_accepts`. Where it succeeds, `name` is registered with the source
/// `content`, in place of what was registered under that name, and nothing
/// else of the engine changes. After a failure nothing is said of the
/// engine, so that it cannot be used again.
#[verifier::external_body]
fn tera_add_raw_template(t: &mut tera::Tera, name: &str, content: &str) -> (r: Result<(), tera::Error>)
    requires
        registered_templates(*old(t)).submap_of(built_in_sources()),
        built_in_sources().dom().contains(name@),
        built_in_sources()[name@] == content@,
    ensures
        r is Ok <==> tera_accepts(registered_templates(*old(t)), name@, content@),
        r is Ok ==> registered_templates(*final(t)) == registered_templates(*old(t)).insert(
            name@,
            content@,
        ),
        r is Ok ==> (engine_as_made(*old(t)) ==> engine_as_made(*final(t))),
{
    t.add_raw_template(name, content)
}

/// `tera::Context::new`: a context without values.
#[verifier::external_body]
fn context_new() -> (c: tera::Context)
    ensures
        context_values(c) == no_entries(),
        context_only_texts(c),
{
    tera::Context::new()
}

/// `tera::Context::insert` with a text: `key` then has the value `value`,
/// and a context of texts stays one.
#[verifier::external_body]
fn context_insert(c: &mut tera::Context, key: &str, value: &str)
    ensures
        context_values(*final(c)) == context_values(*old(c)).insert(key@, value@),
        context_only_texts(*old(c)) ==> context_only_texts(*final(c)),
{
    c.insert(key, value)
}

/// `tera::Tera::render` on an engine as it is made that holds the three
/// templates and no other, with a context of texts. The three templates
/// read nothing but the context, so that the outcome depends on the name
/// and the texts alone: it is known by the name `rendered_built_in`. It
/// fails where no template is registered under `name`. Nothing is claimed
/// of the error.
#[verifier::external_body]
fn tera_render(t: &tera::Tera, name: &str, c: &tera::Context) -> (r: Result<String, tera::Error>)
    requires
        registered_templates(*t) == built_in_sources(),
        engine_as_made(*t),
        context_only_texts(*c),
    ensures
        r is Ok <==> rendered_built_in(name@, context_values(*c)) is Some,
        r matches Ok(text) ==> rendered_built_in(name@, context_values(*c)) == Some(text@),
        !registered_templates(*t).dom().contains(name@) ==> r is Err,
{
    t.render(name, c)
}

/// The text of a `tera::Error`, as its `Display` gives it.
#[verifier::external_body]
fn tera_error_text(e: &tera::Error) -> (text: String) {
    e.to_string()
}

/// The text of the error that a `tera::Error` was caused by, if it names
/// one, as `std::error::Error::source` and `Display` give it.
#[verifier::external_body]
fn tera_error_source_text(e: &tera::Error) -> (text: Option<String>) {
    match std::error::Error::source(e) {
        Some(inner) => Some(inner.to_string()),
        None => None,
    }
}

/// The entries as a map: each key with the value of its last entry.
pub open spec fn entries_map(entries: Seq<(Seq<char>, Seq<char>)>) -> Map<Seq<char>, Seq<char>>
    decreases entries.len(),
{
    if entries.len() == 0 {
        Map::empty()
    } else {
        entries_map(entries.drop_last()).insert(entries.last().0, entries.last().1)
    }
}

/// The sources of the three templates under their names.
pub open spec fn template_sources(
    dockerfile: Seq<char>,
    install: Seq<char>,
    entrypoint: Seq<char>,
) -> Map<Seq<char>, Seq<char>> {
    no_entries().insert(DOCKERFILE_TEMPLATE@, dockerfile).insert(
        INSTALL_TEMPLATE@,
        install,
    ).insert(ENTRYPOINT_TEMPLATE@, entrypoint)
}

/// The three templates of the library: each name with its source.
pub open spec fn built_in_sources() -> Map<Seq<char>, Seq<char>> {
    template_sources(DOCKERFILE_SOURCE@, INSTALL_SOURCE@, ENTRYPOINT_SOURCE@)
}

/// The first of the three templates of the library that the engine does
/// not accept, if there is one.
pub open spec fn refused_built_in() -> Option<Seq<char>> {
    refused_template(DOCKERFILE_SOURCE@, INSTALL_SOURCE@, ENTRYPOINT_SOURCE@)
}

/// The three templates have three names: the map of the library's
/// templates holds exactly these, each with its own source.
pub proof fn lemma_built_in_sources()
    ensures
        DOCKERFILE_TEMPLATE@ != INSTALL_TEMPLATE@,
        DOCKERFILE_TEMPLATE@ != ENTRYPOINT_TEMPLATE@,
        INSTALL_TEMPLATE@ != ENTRYPOINT_TEMPLATE@,
        forall|name: Seq<char>|
            #[trigger] built_in_sources().dom().contains(name) <==> is_template_name(name),
        built_in_sources()[DOCKERFILE_TEMPLATE@] == DOCKERFILE_SOURCE@,
        built_in_sources()[INSTALL_TEMPLATE@] == INSTALL_SOURCE@,
        built_in_sources()[ENTRYPOINT_TEMPLATE@] == ENTRYPOINT_SOURCE@,
{
    reveal_strlit("dockerfile");
    reveal_strlit("install.sh");
    reveal_strlit("entrypoint.sh");
    assert(DOCKERFILE_TEMPLATE@[0] == 'd' && INSTALL_TEMPLATE@[0] == 'i' && ENTRYPOINT_TEMPLATE@[0]
        == 'e');
}

/// The first of the three sources that the engine does not accept, by the
/// name of its template, in the order in which they are registered: the
/// Dockerfile, the install script, the entrypoint script.
pub open spec fn refused_template(
    dockerfile: Seq<char>,
    install: Seq<char>,
    entrypoint: Seq<char>,
) -> Option<Seq<char>> {
    let first = no_entries().insert(DOCKERFILE_TEMPLATE@, dockerfile);
    let second = first.insert(INSTALL_TEMPLATE@, install);
    if !tera_accepts(no_entries(), DOCKERFILE_TEMPLATE@, dockerfile) {
        Some(DOCKERFILE_TEMPLATE@)
    } else if !tera_accepts(first, INSTALL_TEMPLATE@, install) {
        Some(INSTALL_TEMPLATE@)
    } else if !tera_accepts(second, ENTRYPOINT_TEMPLATE@, entrypoint) {
        Some(ENTRYPOINT_TEMPLATE@)
    } else {
        None
    }
}

/// What rendering the three templates with `values` comes to: the three
/// texts, or the name of the first template, in the order install script,
/// entrypoint script, Dockerfile, that does not render.
pub open spec fn rendered_of(values: Map<Seq<char>, Seq<char>>) -> Result<RenderedView, Seq<char>> {
    match (
        rendered_built_in(INSTALL_TEMPLATE@, values),
        rendered_built_in(ENTRYPOINT_TEMPLATE@, values),
        rendered_built_in(DOCKERFILE_TEMPLATE@, values),
    ) {
        (None, _, _) => Err(INSTALL_TEMPLATE@),
        (Some(_), None, _) => Err(ENTRYPOINT_TEMPLATE@),
        (Some(_), Some(_), None) => Err(DOCKERFILE_TEMPLATE@),
        (Some(install), Some(entrypoint), Some(dockerfile)) => Ok(
            RenderedView { dockerfile, install, entrypoint },
        ),
    }
}

/// `name` is the name of one of the three templates.
pub open spec fn is_template_name(name: Seq<char>) -> bool {
    name == DOCKERFILE_TEMPLATE@ || name == INSTALL_TEMPLATE@ || name == ENTRYPOINT_TEMPLATE@
}

/// The error is a render error that names `template`.
pub open spec fn is_render_error(e: BuildErrorView, template: Seq<char>) -> bool {
    e matches BuildErrorView::Render { template: t, .. } && t == template
}

/// The error is a render error that names one of the three templates.
pub open spec fn is_template_error(e: BuildErrorView) -> bool {
    e matches BuildErrorView::Render { template, .. } && is_template_name(template)
}

/// The three rendered texts of an image.
#[derive(Debug)]
pub struct Rendered {
    pub dockerfile: String,
    pub install: String,
    pub entrypoint: String,
}

/// Model of [`Rendered`].
pub struct RenderedView {
    pub dockerfile: Seq<char>,
    pub install: Seq<char>,
    pub entrypoint: Seq<char>,
}

impl View for Rendered {
    type V = RenderedView;

    open spec fn view(&self) -> RenderedView {
        RenderedView {
            dockerfile: self.dockerfile@,
            install: self.install@,
            entrypoint: self.entrypoint@,
        }
    }
}

impl DeepView for Rendered {
    type V = RenderedView;

    open spec fn deep_view(&self) -> RenderedView {
        self.view()
    }
}

/// What three renderings come to: the three texts where all succeeded, else
/// the first error in the order install script, entrypoint script,
/// Dockerfile.
pub open spec fn gathered(
    install: Result<Seq<char>, BuildErrorView>,
    entrypoint: Result<Seq<char>, BuildErrorView>,
    dockerfile: Result<Seq<char>, BuildErrorView>,
) -> Result<RenderedView, BuildErrorView> {
    match (install, entrypoint, dockerfile) {
        (Err(e), _, _) => Err(e),
        (Ok(_), Err(e), _) => Err(e),
        (Ok(_), Ok(_), Err(e)) => Err(e),
        (Ok(i), Ok(e), Ok(d)) => Ok(RenderedView { dockerfile: d, install: i, entrypoint: e }),
    }
}

/// Model of the outcome of one rendering.
pub open spec fn outcome_view(r: Result<String, BuildError>) -> Result<Seq<char>, BuildErrorView> {
    match r {
        Ok(text) => Ok(text@),
        Err(e) => Err(e@),
    }
}

/// Model of the outcome of the three renderings.
pub open spec fn rendered_view(r: Result<Rendered, BuildError>) -> Result<
    RenderedView,
    BuildErrorView,
> {
    match r {
        Ok(rendered) => Ok(rendered@),
        Err(e) => Err(e@),
    }
}

/// Puts three renderings together: all three texts, or the first error in
/// the order install script, entrypoint script, Dockerfile. No text is
/// handed on where one rendering failed.
pub fn gather(
    install: Result<String, BuildError>,
    entrypoint: Result<String, BuildError>,
    dockerfile: Result<String, BuildError>,
) -> (r: Result<Rendered, BuildError>)
    ensures
        rendered_view(r) == gathered(
            outcome_view(install),
            outcome_view(entrypoint),
            outcome_view(dockerfile),
        ),
{
    let install = match install {
        Ok(text) => text,
        Err(e) => {
            return Err(e);
        },
    };
    let entrypoint = match entrypoint {
        Ok(text) => text,
        Err(e) => {
            return Err(e);
        },
    };
    let dockerfile = match dockerfile {
        Ok(text) => text,
        Err(e) => {
            return Err(e);
        },
    };
    Ok(Rendered { dockerfile, install, entrypoint })
}

/// The templates of an image, parsed once and then only read.
pub struct TemplateRegistry {
    tera: tera::Tera,
}

impl TemplateRegistry {
    /// The registered templates, each name with its source.
    pub closed spec fn sources(&self) -> Map<Seq<char>, Seq<char>> {
        registered_templates(self.tera)
    }

    #[verifier::type_invariant]
    spec fn holds_the_three_templates(self) -> bool {
        registered_templates(self.tera) == built_in_sources() && engine_as_made(self.tera)
    }

    /// Registers the three templates of the library, the Dockerfile first,
    /// then the install script, then the entrypoint script. The renderer
    /// decides whether a source is a template; should it refuse one, the
    /// error names the first that it refused, and there is no registry.
    pub fn new() -> (r: Result<TemplateRegistry, BuildError>)
        ensures
            match refused_built_in() {
                None => r matches Ok(registry) && registry.sources() == built_in_sources(),
                Some(name) => r matches Err(e) && is_render_error(e@, name),
            },
            r matches Err(e) ==> is_template_error(e@),
    {
        proof {
            lemma_built_in_sources();
        }
        let mut tera = tera_default();
        match tera_add_raw_template(&mut tera, DOCKERFILE_TEMPLATE, DOCKERFILE_SOURCE) {
            Ok(()) => {},
            Err(e) => {
                return Err(render_error(DOCKERFILE_TEMPLATE, &e));
            },
        }
        match tera_add_raw_template(&mut tera, INSTALL_TEMPLATE, INSTALL_SOURCE) {
            Ok(()) => {},
            Err(e) => {
                return Err(render_error(INSTALL_TEMPLATE, &e));
            },
        }
        match tera_add_raw_template(&mut tera, ENTRYPOINT_TEMPLATE, ENTRYPOINT_SOURCE) {
            Ok(()) => {},
            Err(e) => {
                return Err(render_error(ENTRYPOINT_TEMPLATE, &e));
            },
        }
        Ok(TemplateRegistry { tera })
    }

    /// Renders the template `name` with the values of `ctx`: the text that
    /// the renderer gives for that template with exactly these values, or,
    /// where it gives none, a render error that names the template. A
    /// registry holds the three templates and no other: under any other
    /// name the rendering fails.
    pub fn render(&self, name: &str, ctx: &TemplateContext) -> (r: Result<String, BuildError>)
        ensures
            match rendered_built_in(name@, entries_map(ctx@)) {
                Some(text) => r matches Ok(t) && t@ == text,
                None => r matches Err(e) && is_render_error(e@, name@),
            },
            !is_template_name(name@) ==> r is Err,
            self.sources() == built_in_sources(),
    {
        proof {
            use_type_invariant(self);
            lemma_built_in_sources();
        }
        let values = to_tera_context(ctx);
        match tera_render(&self.tera, name, &values) {
            Ok(text) => Ok(text),
            Err(e) => Err(render_error(name, &e)),
        }
    }

    /// Renders the install script, the entrypoint script and the Dockerfile
    /// with the values of `ctx`: all three texts, or the error of the first
    /// of them, in that order, that did not render.
    pub fn render_all(&self, ctx: &TemplateContext) -> (r: Result<Rendered, BuildError>)
        ensures
            match rendered_of(entries_map(ctx@)) {
                Ok(rendered) => r matches Ok(texts) && texts@ == rendered,
                Err(name) => r matches Err(e) && is_render_error(e@, name),
            },
            r matches Err(e) ==> is_template_error(e@),
    {
        let install = self.render(INSTALL_TEMPLATE, ctx);
        let entrypoint = self.render(ENTRYPOINT_TEMPLATE, ctx);
        let dockerfile = self.render(DOCKERFILE_TEMPLATE, ctx);
        gather(install, entrypoint, dockerfile)
    }
}

/// The render error for `template` with the text of the renderer's error.
fn render_error(template: &str, e: &tera::Error) -> (error: BuildError)
    ensures
        is_render_error(error@, template@),
{
    let mut cause = tera_error_text(e);
    match tera_error_source_text(e) {
        Some(inner) => {
            cause.append(": ");
            cause.append(inner.as_str());
        },
        None => {},
    }
    BuildError::Render { template: String::from_str(template), cause }
}

/// The renderer's context with the values of `ctx`, and no others.
fn to_tera_context(ctx: &TemplateContext) -> (c: tera::Context)
    ensures
        context_values(c) == entries_map(ctx@),
        context_only_texts(c),
{
    let mut c = context_new();
    let mut i: usize = 0;
    while i < ctx.len()
        invariant
            i <= ctx@.len(),
            context_values(c) == entries_map(ctx@.take(i as int)),
            context_only_texts(c),
        decreases ctx@.len() - i,
    {
        assert(ctx@.take(i as int + 1).drop_last() == ctx@.take(i as int));
        context_insert(&mut c, ctx.key(i), ctx.value(i));
        i += 1;
    }
    assert(ctx@.take(i as int) == ctx@);
    c
}

} // verus!
