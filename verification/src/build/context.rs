//! The values that the templates are rendered with.

use vstd::prelude::*;
use vstd::string::StringExecFns;
use crate::build::containers::{get_server_tag, server_tag_of, APP_VERSION};
use crate::build::tar_helpers::{base_init_of, base_install_of, make_base_init, make_base_install};
use crate::config::{BuildConfig, BuildConfigView};
use crate::text::{same_text, trim, trim_of};

verus! {

/// Name of the environment variable that overrides the server tag.
pub const SERVER_TAG_VAR: &'static str = "BASALT_SERVER_TAG";

/// Name of the environment variable that overrides the web tag.
pub const WEB_TAG_VAR: &'static str = "BASALT_WEB_TAG";

/// What the environment sets in place of derived values.
#[derive(Clone, Debug)]
pub struct EnvOverrides {
    /// The value of `BASALT_SERVER_TAG`, if it is set.
    pub server_tag: Option<String>,
    /// The value of `BASALT_WEB_TAG`, if it is set.
    pub web_tag: Option<String>,
}

/// Model of [`EnvOverrides`].
pub struct EnvOverridesView {
    pub server_tag: Option<Seq<char>>,
    pub web_tag: Option<Seq<char>>,
}

impl View for EnvOverrides {
    type V = EnvOverridesView;

    open spec fn view(&self) -> EnvOverridesView {
        EnvOverridesView {
            server_tag: self.server_tag.deep_view(),
            web_tag: self.web_tag.deep_view(),
        }
    }
}

/// The placeholders of the templates with their values, in a fixed order.
pub struct TemplateContext {
    entries: Vec<(String, String)>,
}

impl View for TemplateContext {
    type V = Seq<(Seq<char>, Seq<char>)>;

    closed spec fn view(&self) -> Seq<(Seq<char>, Seq<char>)> {
        self.entries.deep_view()
    }
}

/// The server tag that the templates see: the override, else the derived one.
pub open spec fn context_server_tag(cfg: BuildConfigView, env: EnvOverridesView) -> Seq<char> {
    match env.server_tag {
        Some(tag) => tag,
        None => server_tag_of(cfg),
    }
}

/// The web tag that the templates see: the override, else the tool's version.
pub open spec fn context_web_tag(env: EnvOverridesView) -> Seq<char> {
    match env.web_tag {
        Some(tag) => tag,
        None => APP_VERSION@,
    }
}

/// The custom install snippet, trimmed, where the configuration has one.
pub open spec fn custom_install_of(cfg: BuildConfigView) -> Option<Seq<char>> {
    match cfg.setup {
        Some(setup) => match setup.install {
            Some(install) => Some(trim_of(install)),
            None => None,
        },
        None => None,
    }
}

/// The custom init snippet, trimmed, where the configuration has one.
pub open spec fn custom_init_of(cfg: BuildConfigView) -> Option<Seq<char>> {
    match cfg.setup {
        Some(setup) => match setup.init {
            Some(init) => Some(trim_of(init)),
            None => None,
        },
        None => None,
    }
}

/// One entry under `key` where there is a value, none where there is not.
pub open spec fn optional_entry(key: Seq<char>, value: Option<Seq<char>>) -> Seq<
    (Seq<char>, Seq<char>),
> {
    match value {
        Some(v) => seq![(key, v)],
        None => Seq::empty(),
    }
}

/// The context of a configuration under the overrides of the environment.
pub open spec fn context_of(cfg: BuildConfigView, env: EnvOverridesView) -> Seq<
    (Seq<char>, Seq<char>),
> {
    seq![
        ("server_tag"@, context_server_tag(cfg, env)),
        ("web_tag"@, context_web_tag(env)),
        ("base_install"@, base_install_of(cfg.languages)),
        ("base_init"@, base_init_of(cfg.languages)),
    ] + optional_entry("custom_install"@, custom_install_of(cfg)) + optional_entry(
        "custom_init"@,
        custom_init_of(cfg),
    ) + seq![("web_client"@, cfg.web_client)]
}

/// The value that the entries give to `key`: that of the last entry under it.
pub open spec fn value_of(entries: Seq<(Seq<char>, Seq<char>)>, key: Seq<char>) -> Option<
    Seq<char>,
>
    decreases entries.len(),
{
    if entries.len() == 0 {
        None
    } else if entries.last().0 == key {
        Some(entries.last().1)
    } else {
        value_of(entries.drop_last(), key)
    }
}

impl TemplateContext {
    /// The context for rendering the templates of `cfg`.
    ///
    /// An override of the environment wins over the derived server tag and
    /// over the tool's version as web tag. Custom snippets are present only
    /// where the configuration has them; they are trimmed and otherwise
    /// taken as they are. The web client is passed through.
    pub fn build(cfg: &BuildConfig, env: &EnvOverrides) -> (ctx: TemplateContext)
        ensures
            ctx@ == context_of(cfg@, env@),
    {
        let mut entries: Vec<(String, String)> = Vec::new();
        let server_tag = match &env.server_tag {
            Some(tag) => tag.clone(),
            None => get_server_tag(cfg),
        };
        entries.push((String::from_str("server_tag"), server_tag));
        let web_tag = match &env.web_tag {
            Some(tag) => tag.clone(),
            None => String::from_str(APP_VERSION),
        };
        entries.push((String::from_str("web_tag"), web_tag));
        entries.push((String::from_str("base_install"), make_base_install(cfg)));
        entries.push((String::from_str("base_init"), make_base_init(cfg)));
        if let Some(setup) = &cfg.setup {
            if let Some(install) = &setup.install {
                entries.push((String::from_str("custom_install"), trim(install.as_str())));
            }
            if let Some(init) = &setup.init {
                entries.push((String::from_str("custom_init"), trim(init.as_str())));
            }
        }
        entries.push((String::from_str("web_client"), cfg.web_client.clone()));
        let ctx = TemplateContext { entries };
        ctx
    }

    /// The number of placeholders.
    pub fn len(&self) -> (n: usize)
        ensures
            n == self@.len(),
    {
        self.entries.len()
    }

    /// The name of the placeholder at position `index`.
    pub fn key(&self, index: usize) -> (key: &str)
        requires
            index < self@.len(),
        ensures
            key@ == self@[index as int].0,
    {
        self.entries[index].0.as_str()
    }

    /// The value of the placeholder at position `index`.
    pub fn value(&self, index: usize) -> (value: &str)
        requires
            index < self@.len(),
        ensures
            value@ == self@[index as int].1,
    {
        self.entries[index].1.as_str()
    }

    /// The value of the placeholder `key`, if the context has it.
    pub fn get(&self, key: &str) -> (value: Option<&str>)
        ensures
            value.deep_view() == value_of(self@, key@),
    {
        let mut i: usize = self.entries.len();
        assert(self@.take(i as int) == self@);
        while i > 0
            invariant
                i <= self.entries.len(),
                value_of(self@, key@) == value_of(self@.take(i as int), key@),
            decreases i,
        {
            assert(self@.take(i as int).drop_last() == self@.take(i as int - 1));
            if same_text(self.entries[i - 1].0.as_str(), key) {
                return Some(self.entries[i - 1].1.as_str());
            }
            i -= 1;
        }
        None
    }
}

/// The context is a function of the configuration and the overrides: equal
/// configurations under equal overrides give equal contexts and equal
/// default image tags.
pub proof fn lemma_context_repeats(
    a: BuildConfigView,
    b: BuildConfigView,
    env_a: EnvOverridesView,
    env_b: EnvOverridesView,
)
    requires
        a == b,
        env_a == env_b,
    ensures
        context_of(a, env_a) == context_of(b, env_b),
        crate::build::containers::image_tag_of(None, a) == crate::build::containers::image_tag_of(
            None,
            b,
        ),
{
}

} // verus!
