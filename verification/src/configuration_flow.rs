//! The two pages of the configuration: the providers, and the models behind them.

use crate::config_update;
use crate::config_update::providers;
use crate::config_update::providers::{GroupView, Settings, SettingsView};
use crate::config_update::{ConfigScreen, ConfigView, EnvKey, Outcome};
use crate::config_update::presets::PresetProvider;
use crate::keys::{KeyCode, KeyEvent};
use crate::text;
use vstd::prelude::*;

verus! {

/// The page that is open.
#[derive(Debug, Clone, Copy, PartialEq, Eq, Structural)]
pub enum Page {
    Providers,
    Models,
}

/// What is to be done after a key.
#[derive(Debug, Clone, Copy, PartialEq, Eq, Structural)]
pub enum FlowStep {
    Stay,
    Done(Outcome),
    /// Set up the page of the models with the settings of the providers.
    OpenModels,
    /// Hand the key to the page of the models.
    ModelKey,
}

/// Both pages. Going back never loses what was set on the first.
#[derive(Debug)]
pub struct ConfigurationFlow {
    pub providers: ConfigScreen,
    pub page: Page,
}

/// Both pages.
#[verifier::ext_equal]
pub struct FlowView {
    pub providers: ConfigView,
    pub page: Page,
}

impl View for ConfigurationFlow {
    type V = FlowView;

    open spec fn view(&self) -> FlowView {
        FlowView { providers: self.providers@, page: self.page }
    }
}

/// What a key does, where `parses` tells whether the typed text is a URL.
pub open spec fn after_key(v: FlowView, key: KeyEvent, parses: bool) -> (FlowView, FlowStep) {
    if key.modifiers.control && key.code == KeyCode::Char('c') {
        (v, FlowStep::Done(Outcome::Cancelled))
    } else {
        match v.page {
            Page::Models => (v, FlowStep::ModelKey),
            Page::Providers => {
                let (screen, outcome) = config_update::after_key(v.providers, key, parses);
                match outcome {
                    Some(Outcome::Continue) => (
                        FlowView { providers: screen, page: Page::Models },
                        FlowStep::OpenModels,
                    ),
                    Some(Outcome::Saved) => (
                        FlowView { providers: screen, page: Page::Models },
                        FlowStep::OpenModels,
                    ),
                    Some(o) => (FlowView { providers: screen, ..v }, FlowStep::Done(o)),
                    None => (FlowView { providers: screen, ..v }, FlowStep::Stay),
                }
            },
        }
    }
}

/// What comes of an outcome of the page of the models: leaving it leads back to the
/// providers, with the settings as they are by then.
pub open spec fn after_models(v: FlowView, outcome: Option<Outcome>, s: SettingsView) -> (
    FlowView,
    Option<Outcome>,
) {
    if outcome == Some(Outcome::Cancelled) {
        (
            FlowView {
                providers: config_update::replaced(v.providers, s),
                page: Page::Providers,
            },
            None,
        )
    } else {
        (v, outcome)
    }
}

/// The settings of the open page.
pub open spec fn current_settings(v: FlowView, models: SettingsView) -> SettingsView {
    match v.page {
        Page::Providers => v.providers.settings,
        Page::Models => models,
    }
}

impl ConfigurationFlow {
    /// The flow at its first page.
    pub fn new(settings: Settings, presets: Vec<PresetProvider>, openai_env: EnvKey) -> (r: Self)
        ensures
            r@ == (FlowView {
                providers: config_update::opened(
                    settings@,
                    config_update::presets::preset_views(presets@),
                    openai_env@,
                ),
                page: Page::Providers,
            }),
            r@.providers.wf(),
    {
        ConfigurationFlow {
            providers: ConfigScreen::new_with_presets(settings, presets, openai_env),
            page: Page::Providers,
        }
    }

    /// Takes a key, where `parses` tells whether the typed text is a URL.
    pub fn handle_key_judged(&mut self, key: KeyEvent, parses: bool) -> (r: FlowStep)
        requires
            old(self)@.providers.wf(),
            old(self)@.providers.settings.providers.len() < usize::MAX,
        ensures
            (final(self)@, r) == after_key(old(self)@, key, parses),
            final(self)@.providers.wf(),
    {
        if key.modifiers.control && key.code == KeyCode::Char('c') {
            return FlowStep::Done(Outcome::Cancelled);
        }
        match self.page {
            Page::Models => FlowStep::ModelKey,
            Page::Providers => {
                let outcome = self.providers.handle_key_judged(key, parses);
                match outcome {
                    Some(Outcome::Continue) | Some(Outcome::Saved) => {
                        self.page = Page::Models;
                        FlowStep::OpenModels
                    },
                    Some(o) => FlowStep::Done(o),
                    None => FlowStep::Stay,
                }
            },
        }
    }

    /// Takes a key.
    pub fn handle_key(&mut self, key: KeyEvent) -> (r: FlowStep)
        requires
            old(self)@.providers.wf(),
            old(self)@.providers.settings.providers.len() < usize::MAX,
        ensures
            (final(self)@, r) == after_key(
                old(self)@,
                key,
                config_update::is_url(text::trimmed(old(self)@.providers.form.input)),
            ),
            final(self)@.providers.wf(),
    {
        let typed = text::string_of(&self.providers.form.input);
        let parses = config_update::parses_as_url(&text::trim(&typed));
        self.handle_key_judged(key, parses)
    }

    /// The settings as they are by now, where `models` are those of the page of the
    /// models.
    pub fn settings<'a>(&'a self, models: &'a Settings) -> (r: &'a Settings)
        ensures
            r@ == current_settings(self@, models@),
    {
        match self.page {
            Page::Providers => &self.providers.settings,
            Page::Models => models,
        }
    }

    /// Takes what came of a key on the page of the models, and its settings.
    pub fn take_model_outcome(&mut self, outcome: Option<Outcome>, settings: Settings) -> (r:
        Option<Outcome>)
        requires
            old(self)@.providers.wf(),
        ensures
            (final(self)@, r) == after_models(old(self)@, outcome, settings@),
            final(self)@.providers.wf(),
    {
        match outcome {
            Some(Outcome::Cancelled) => {
                self.providers.replace_settings(settings);
                self.page = Page::Providers;
                None
            },
            o => o,
        }
    }
}

// ---------------------------------------------------------------------------
// Laws
// ---------------------------------------------------------------------------

/// The groups are no more than the providers, and none holds more names.
proof fn groups_are_few(v: Seq<providers::ProviderView>, n: int)
    requires
        0 <= n <= v.len(),
    ensures
        providers::groups_of(v, n).len() <= n,
        forall|g: int|
            0 <= g < providers::groups_of(v, n).len() ==> (#[trigger] providers::groups_of(
                v,
                n,
            )[g]).keys.len() <= n,
    decreases n,
{
    if n > 0 {
        groups_are_few(v, n - 1);
        let before = providers::groups_of(v, n - 1);
        let after = providers::groups_of(v, n);
        if providers::is_offered(v[n - 1]) {
            let kind = v[n - 1].kind;
            if let Some(at) = providers::group_at(before, kind, 0) {
                providers::group_at_is(before, kind, 0);
                assert forall|g: int| 0 <= g < after.len() implies (#[trigger] after[g]).keys.len()
                    <= n by {
                    assert(before[g].keys.len() <= n - 1);
                }
            } else {
                providers::group_place_bounds(before, kind, 0);
                let at = providers::group_place(before, kind, 0);
                assert forall|g: int| 0 <= g < after.len() implies (#[trigger] after[g]).keys.len()
                    <= n by {
                    if g < at {
                        assert(after[g] == before[g]);
                    } else if g > at {
                        assert(after[g] == before[g - 1]);
                    }
                }
            }
        }
    }
}

/// Where a name is found, it stands.
proof fn key_index_is(keys: Seq<Seq<char>>, key: Seq<char>, i: int)
    requires
        0 <= i,
        config_update::key_index(keys, key, i) is Some,
    ensures
        i <= config_update::key_index(keys, key, i)->0 < keys.len(),
        keys[config_update::key_index(keys, key, i)->0] == key,
    decreases keys.len() - i,
{
    if i < keys.len() && keys[i] != key {
        key_index_is(keys, key, i + 1);
    }
}

/// Where a name is found in the groups, it stands.
proof fn key_place_is(groups: Seq<GroupView>, key: Seq<char>, g: int)
    requires
        0 <= g,
        config_update::key_place(groups, key, g) is Some,
    ensures
        g <= (config_update::key_place(groups, key, g)->0).0 < groups.len(),
        0 <= (config_update::key_place(groups, key, g)->0).1
            < groups[(config_update::key_place(groups, key, g)->0).0].keys.len(),
        groups[(config_update::key_place(groups, key, g)->0).0].keys[(config_update::key_place(
            groups,
            key,
            g,
        )->0).1] == key,
    decreases groups.len() - g,
{
    if g < groups.len() {
        if config_update::key_index(groups[g].keys, key, 0) is Some {
            key_index_is(groups[g].keys, key, 0);
        } else {
            key_place_is(groups, key, g + 1);
        }
    }
}

/// Going back from the models loses nothing: the settings are those of the models,
/// and the name that was marked stays marked where it is still offered.
pub proof fn law_going_back_keeps_the_draft(v: FlowView, s: SettingsView, key: Seq<char>)
    requires
        s.providers.len() <= usize::MAX,
        config_update::selected_key(v.providers.groups, v.providers.picker) == Some(key),
        config_update::key_place(
            providers::groups_of(s.providers, s.providers.len() as int),
            key,
            0,
        ) is Some,
    ensures
        after_models(v, Some(Outcome::Cancelled), s).0.page == Page::Providers,
        after_models(v, Some(Outcome::Cancelled), s).0.providers.settings == s,
        config_update::selected_key(
            after_models(v, Some(Outcome::Cancelled), s).0.providers.groups,
            after_models(v, Some(Outcome::Cancelled), s).0.providers.picker,
        ) == Some(key),
{
    let groups = providers::groups_of(s.providers, s.providers.len() as int);
    groups_are_few(s.providers, s.providers.len() as int);
    key_place_is(groups, key, 0);
    let at = config_update::key_place(groups, key, 0)->0;
    assert(groups[at.0].keys.len() <= s.providers.len());
}

/// Control-C leaves the flow from either page, and changes nothing.
pub proof fn law_control_c_leaves(v: FlowView, key: KeyEvent, parses: bool)
    requires
        key.modifiers.control,
        key.code == KeyCode::Char('c'),
    ensures
        after_key(v, key, parses) == (v, FlowStep::Done(Outcome::Cancelled)),
{
}

} // verus!
