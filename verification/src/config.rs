//! The part of a competition configuration that a build reads.
//!
//! A configuration is parsed and validated elsewhere; a build holds what it
//! needs from it as plain values and never changes them.

use vstd::prelude::*;

verus! {

/// A language offered to competitors.
#[derive(Clone, Debug)]
pub enum Language {
    /// A language the tool knows, with the commands that install and
    /// initialise its chosen version, where it has any.
    BuiltIn { install_command: Option<String>, init_command: Option<String> },
    /// A language the configuration defines itself; it brings no commands.
    Custom,
}

/// Model of a [`Language`].
pub enum LanguageView {
    BuiltIn { install_command: Option<Seq<char>>, init_command: Option<Seq<char>> },
    Custom,
}

impl View for Language {
    type V = LanguageView;

    open spec fn view(&self) -> LanguageView {
        match *self {
            Language::BuiltIn { install_command, init_command } => LanguageView::BuiltIn {
                install_command: install_command.deep_view(),
                init_command: init_command.deep_view(),
            },
            Language::Custom => LanguageView::Custom,
        }
    }
}

impl DeepView for Language {
    type V = LanguageView;

    open spec fn deep_view(&self) -> LanguageView {
        self.view()
    }
}

/// Shell snippets of the configuration's own, run after the built-in ones.
#[derive(Clone, Debug)]
pub struct Setup {
    pub install: Option<String>,
    pub init: Option<String>,
}

/// Model of a [`Setup`].
pub struct SetupView {
    pub install: Option<Seq<char>>,
    pub init: Option<Seq<char>>,
}

impl View for Setup {
    type V = SetupView;

    open spec fn view(&self) -> SetupView {
        SetupView { install: self.install.deep_view(), init: self.init.deep_view() }
    }
}

impl DeepView for Setup {
    type V = SetupView;

    open spec fn deep_view(&self) -> SetupView {
        self.view()
    }
}

/// What the competition is connected to.
#[derive(Clone, Debug)]
pub struct Integrations {
    /// Paths of the event-handler scripts, in the order they were declared.
    pub event_handlers: Vec<String>,
    /// One descriptor for each webhook.
    pub webhooks: Vec<String>,
}

/// Model of [`Integrations`].
pub struct IntegrationsView {
    pub event_handlers: Seq<Seq<char>>,
    pub webhooks: Seq<Seq<char>>,
}

impl View for Integrations {
    type V = IntegrationsView;

    open spec fn view(&self) -> IntegrationsView {
        IntegrationsView {
            event_handlers: self.event_handlers.deep_view(),
            webhooks: self.webhooks.deep_view(),
        }
    }
}

/// A competition configuration, as far as a build reads it.
#[derive(Clone, Debug)]
pub struct BuildConfig {
    pub languages: Vec<Language>,
    pub setup: Option<Setup>,
    pub web_client: String,
    pub integrations: Integrations,
    pub port: u16,
    /// Hash of the configuration's content; opaque to the build.
    pub hash: String,
}

/// Model of a [`BuildConfig`].
pub struct BuildConfigView {
    pub languages: Seq<LanguageView>,
    pub setup: Option<SetupView>,
    pub web_client: Seq<char>,
    pub integrations: IntegrationsView,
    pub port: u16,
    pub hash: Seq<char>,
}

impl View for BuildConfig {
    type V = BuildConfigView;

    open spec fn view(&self) -> BuildConfigView {
        BuildConfigView {
            languages: self.languages.deep_view(),
            setup: self.setup.deep_view(),
            web_client: self.web_client@,
            integrations: self.integrations@,
            port: self.port,
            hash: self.hash@,
        }
    }
}

impl BuildConfigView {
    /// The configuration declares at least one event-handler script.
    pub open spec fn needs_scripting(self) -> bool {
        self.integrations.event_handlers.len() > 0
    }

    /// The configuration declares at least one webhook.
    pub open spec fn needs_webhooks(self) -> bool {
        self.integrations.webhooks.len() > 0
    }
}

} // verus!
