//! The screen on which providers of models are chosen and set up.

pub mod presets;
pub mod providers;
pub mod rows;

use crate::config_update::presets::{PresetProvider, PresetRow, PresetView};
use crate::config_update::providers::{
    GroupView, ProviderConfig, ProviderGroup, ProviderView, Settings, SettingsView,
    DEFAULT_MAX_TOKENS,
};
use crate::keys::{KeyCode, KeyEvent};
use crate::text;
use vstd::prelude::*;

verus! {

/// How a screen was left.
#[derive(Debug, Clone, Copy, PartialEq, Eq, Structural)]
pub enum Outcome {
    Saved,
    Cancelled,
    /// The whole flow was left, not only the page.
    Quit,
    Continue,
}

/// The page of the screen.
#[derive(Debug, Clone, Copy, PartialEq, Eq, Structural)]
pub enum Step {
    Select,
    Add,
    Configured,
    Edit,
    Preview,
}

/// What can be chosen on the first page.
#[derive(Debug, Clone, Copy, PartialEq, Eq, Structural)]
pub enum SelectAction {
    Continue,
    UseConfigured,
    AddFromPreset,
    AddCustom,
}

/// How many actions the first page offers.
pub const SELECT_ACTION_COUNT: usize = 4;

/// A row of the form: a field that can be edited, or an action.
#[derive(Debug, Clone, Copy, PartialEq, Eq, Structural)]
pub enum Field {
    Alias,
    ApiBase,
    ApiKey,
    Save,
    Cancel,
}

/// How many rows the form has.
pub const FIELD_COUNT: usize = 5;

/// The row of the form at a place.
pub open spec fn field_at(i: int) -> Field {
    if i == 0 {
        Field::Alias
    } else if i == 1 {
        Field::ApiBase
    } else if i == 2 {
        Field::ApiKey
    } else if i == 3 {
        Field::Save
    } else {
        Field::Cancel
    }
}

/// The place of a row in the form.
pub open spec fn field_index(f: Field) -> int {
    match f {
        Field::Alias => 0,
        Field::ApiBase => 1,
        Field::ApiKey => 2,
        Field::Save => 3,
        Field::Cancel => 4,
    }
}

/// What a row of the form is called.
pub open spec fn field_label(f: Field) -> Seq<char> {
    match f {
        Field::Alias => "alias"@,
        Field::ApiBase => "api_base"@,
        Field::ApiKey => "api_key"@,
        Field::Save => "► Save"@,
        Field::Cancel => "✕ Cancel"@,
    }
}

/// Whether text is a URL.
pub uninterp spec fn is_url(s: Seq<char>) -> bool;

/// Calls `Url::parse` of the `url` crate and tells whether it gives a URL. The result
/// depends on the text alone.
#[verifier::external_body]
pub(crate) fn parses_as_url(s: &str) -> (r: bool)
    ensures
        r == is_url(s@),
{
    url::Url::parse(s).is_ok()
}

/// Whether a value is refused, where `parses` tells whether it is a URL: an address
/// that is there has to be one.
pub open spec fn is_refused(f: Field, value: Seq<char>, parses: bool) -> bool {
    f == Field::ApiBase && text::trimmed(value).len() > 0 && !parses
}

/// What is said of a value that is refused.
pub open spec fn refusal() -> Seq<char> {
    "api_base must be a valid URL"@
}

impl Field {
    /// What the row is called.
    pub fn label(self) -> (r: &'static str)
        ensures
            r@ == field_label(self),
    {
        match self {
            Field::Alias => "alias",
            Field::ApiBase => "api_base",
            Field::ApiKey => "api_key",
            Field::Save => "► Save",
            Field::Cancel => "✕ Cancel",
        }
    }

    /// The row of the form at a place.
    pub fn at(i: usize) -> (r: Field)
        ensures
            r == field_at(i as int),
    {
        if i == 0 {
            Field::Alias
        } else if i == 1 {
            Field::ApiBase
        } else if i == 2 {
            Field::ApiKey
        } else if i == 3 {
            Field::Save
        } else {
            Field::Cancel
        }
    }

    /// The place of the row in the form.
    pub fn index(self) -> (r: usize)
        ensures
            r as int == field_index(self),
            r < FIELD_COUNT,
    {
        match self {
            Field::Alias => 0,
            Field::ApiBase => 1,
            Field::ApiKey => 2,
            Field::Save => 3,
            Field::Cancel => 4,
        }
    }

    /// Judges a value, where `parses` tells whether it is a URL.
    pub fn judge(self, value: &str, parses: bool) -> (r: Result<(), String>)
        ensures
            match r {
                Ok(_) => !is_refused(self, value@, parses),
                Err(e) => is_refused(self, value@, parses) && e@ == refusal(),
            },
    {
        match self {
            Field::ApiBase => {
                if text::trim(value).as_str().is_empty() || parses {
                    Ok(())
                } else {
                    Err("api_base must be a valid URL".to_string())
                }
            },
            _ => Ok(()),
        }
    }

    /// Judges a value.
    pub fn validate(self, value: &str) -> (r: Result<(), String>)
        ensures
            match r {
                Ok(_) => !is_refused(self, value@, is_url(text::trimmed(value@))),
                Err(e) => is_refused(self, value@, is_url(text::trimmed(value@))) && e@
                    == refusal(),
            },
    {
        let trimmed = text::trim(value);
        let parses = parses_as_url(&trimmed);
        self.judge(value, parses)
    }
}

// ---------------------------------------------------------------------------
// The screen
// ---------------------------------------------------------------------------

/// What is marked in the lists, and how far they are scrolled.
#[derive(Debug, Clone, Copy, PartialEq, Eq, Structural)]
pub struct Picker {
    pub group_selected: usize,
    pub selected_in_group: usize,
    pub preset_selected: usize,
    pub picker_selected: usize,
    pub provider_scroll_offset: usize,
    pub preset_scroll_offset: usize,
}

/// The page that is open, and the text that is typed.
#[derive(Debug)]
pub struct Form {
    pub step: Step,
    pub field: Field,
    pub editing: bool,
    pub input: Vec<char>,
    pub cursor: usize,
}

/// The page that is open, and the text that is typed.
#[verifier::ext_equal]
pub struct FormView {
    pub step: Step,
    pub field: Field,
    pub editing: bool,
    pub input: Seq<char>,
    pub cursor: int,
}

impl View for Form {
    type V = FormView;

    open spec fn view(&self) -> FormView {
        FormView {
            step: self.step,
            field: self.field,
            editing: self.editing,
            input: self.input@,
            cursor: self.cursor as int,
        }
    }
}

/// The variable that holds the key of a new provider, and whether it is set.
#[derive(Debug)]
pub struct EnvKey {
    pub variable: Option<String>,
    pub resolves: bool,
}

/// The variable that holds the key of a new provider, and whether it is set.
#[verifier::ext_equal]
pub struct EnvKeyView {
    pub variable: Option<Seq<char>>,
    pub resolves: bool,
}

impl View for EnvKey {
    type V = EnvKeyView;

    open spec fn view(&self) -> EnvKeyView {
        EnvKeyView { variable: text::opt_view(self.variable), resolves: self.resolves }
    }
}

/// The screen on which providers are chosen and set up.
#[derive(Debug)]
pub struct ConfigScreen {
    pub settings: Settings,
    pub presets: Vec<PresetProvider>,
    pub groups: Vec<ProviderGroup>,
    pub picker: Picker,
    pub preset_search: Vec<char>,
    pub form: Form,
    pub error: Option<String>,
    pub openai_env: EnvKey,
}

/// The screen on which providers are chosen and set up.
#[verifier::ext_equal]
pub struct ConfigView {
    pub settings: SettingsView,
    pub presets: Seq<PresetView>,
    pub groups: Seq<GroupView>,
    pub picker: Picker,
    pub search: Seq<char>,
    pub form: FormView,
    pub error: Option<Seq<char>>,
    pub openai_env: EnvKeyView,
}

impl View for ConfigScreen {
    type V = ConfigView;

    open spec fn view(&self) -> ConfigView {
        ConfigView {
            settings: self.settings@,
            presets: presets::preset_views(self.presets@),
            groups: providers::group_views(self.groups@),
            picker: self.picker,
            search: self.preset_search@,
            form: self.form@,
            error: text::opt_view(self.error),
            openai_env: self.openai_env@,
        }
    }
}

impl ConfigView {
    /// Whether the cursor stands in the text, and the marked row can be moved.
    pub open spec fn wf(self) -> bool {
        &&& 0 <= self.form.cursor <= self.form.input.len()
        &&& self.picker.picker_selected < usize::MAX
    }
}

// ---------------------------------------------------------------------------
// What is chosen
// ---------------------------------------------------------------------------

/// The place of a name among names, from `i` on.
pub open spec fn key_index(keys: Seq<Seq<char>>, key: Seq<char>, i: int) -> Option<int>
    decreases keys.len() - i,
{
    if i < 0 || i >= keys.len() {
        None
    } else if keys[i] == key {
        Some(i)
    } else {
        key_index(keys, key, i + 1)
    }
}

/// The group and the place in it of a name, from the group `g` on.
pub open spec fn key_place(groups: Seq<GroupView>, key: Seq<char>, g: int) -> Option<(int, int)>
    decreases groups.len() - g,
{
    if g < 0 || g >= groups.len() {
        None
    } else {
        match key_index(groups[g].keys, key, 0) {
            Some(i) => Some((g, i)),
            None => key_place(groups, key, g + 1),
        }
    }
}

/// The name that is marked.
pub open spec fn selected_key(groups: Seq<GroupView>, p: Picker) -> Option<Seq<char>> {
    if p.group_selected < groups.len() && p.selected_in_group
        < groups[p.group_selected as int].keys.len() {
        Some(groups[p.group_selected as int].keys[p.selected_in_group as int])
    } else {
        None
    }
}

/// The first name of all.
pub open spec fn first_key(groups: Seq<GroupView>) -> Option<Seq<char>> {
    if groups.len() > 0 && groups[0].keys.len() > 0 {
        Some(groups[0].keys[0])
    } else {
        None
    }
}

/// What is marked when a name is chosen, or the first where none is.
pub open spec fn target_place(groups: Seq<GroupView>, key: Option<Seq<char>>) -> (int, int) {
    let target = match key {
        Some(k) => Some(k),
        None => first_key(groups),
    };
    match target {
        Some(k) => match key_place(groups, k, 0) {
            Some(at) => at,
            None => (0, 0),
        },
        None => (0, 0),
    }
}

/// The screen with the groups formed anew and a name marked.
pub open spec fn reselected(v: ConfigView, key: Option<Seq<char>>) -> ConfigView {
    let groups = providers::groups_of(
        v.settings.providers,
        v.settings.providers.len() as int,
    );
    let at = target_place(groups, key);
    ConfigView {
        groups,
        picker: Picker {
            group_selected: at.0 as usize,
            selected_in_group: at.1 as usize,
            provider_scroll_offset: 0,
            ..v.picker
        },
        ..v
    }
}

/// What a provider is called: its alias, unless that is blank, else its name.
pub open spec fn provider_label(s: SettingsView, key: Seq<char>) -> Seq<char> {
    match providers::provider_at(s.providers, key, 0) {
        Some(i) => match s.providers[i].alias {
            Some(a) => if text::trimmed(a).len() > 0 {
                a
            } else {
                key
            },
            None => key,
        },
        None => key,
    }
}

/// The provider that is marked.
pub open spec fn selected_provider(v: ConfigView) -> Option<ProviderView> {
    match selected_key(v.groups, v.picker) {
        Some(key) => match providers::provider_at(v.settings.providers, key, 0) {
            Some(i) => Some(v.settings.providers[i]),
            None => None,
        },
        None => None,
    }
}

/// The names in the first `n` groups, one behind the other.
pub open spec fn picker_keys(groups: Seq<GroupView>, n: int) -> Seq<Seq<char>>
    decreases n,
{
    if n <= 0 {
        Seq::empty()
    } else {
        picker_keys(groups, n - 1) + groups[n - 1].keys
    }
}

/// All names that can be marked.
pub open spec fn all_keys(v: ConfigView) -> Seq<Seq<char>> {
    picker_keys(v.groups, v.groups.len() as int)
}

/// The action that is marked on the first page.
pub open spec fn marked_action(p: Picker) -> SelectAction {
    if p.picker_selected == 0 {
        SelectAction::UseConfigured
    } else if p.picker_selected == 1 {
        SelectAction::Continue
    } else if p.picker_selected == 2 {
        SelectAction::AddFromPreset
    } else if p.picker_selected == 3 {
        SelectAction::AddCustom
    } else {
        SelectAction::Continue
    }
}

/// The lesser of two numbers.
pub open spec fn lesser(a: int, b: int) -> int {
    if a < b {
        a
    } else {
        b
    }
}

/// One less, but not below nothing.
pub open spec fn one_less(a: int) -> int {
    if a > 0 {
        a - 1
    } else {
        0
    }
}

/// The screen with a row of the list of names marked.
#[verifier::opaque]
pub open spec fn row_selected(v: ConfigView, row: int) -> ConfigView {
    let keys = all_keys(v);
    let at = lesser(row, one_less(keys.len() as int));
    let w = ConfigView {
        picker: Picker { picker_selected: at as usize, ..v.picker },
        ..v
    };
    if at < keys.len() {
        reselected(w, Some(keys[at]))
    } else {
        w
    }
}

/// The screen with both roles at the marked provider.
pub open spec fn activated(v: ConfigView) -> ConfigView {
    match selected_key(v.groups, v.picker) {
        Some(key) => ConfigView { settings: providers::bound_to(v.settings, key), ..v },
        None => v,
    }
}

/// A provider with nothing set but its kind and how many tokens a response may have.
pub open spec fn blank_provider(key: Seq<char>, env: EnvKeyView) -> ProviderView {
    ProviderView {
        key,
        kind: "openai"@,
        alias: Some(key),
        api_key: None,
        api_base: None,
        api_key_env: None,
        default_env: env.variable,
        env_resolves: env.resolves,
        max_tokens: 8192,
    }
}

/// The settings with a provider that both roles use.
pub open spec fn joined_by(s: SettingsView, p: ProviderView) -> SettingsView {
    providers::bound_to(
        SettingsView { providers: providers::with_provider(s.providers, p), ..s },
        p.key,
    )
}

/// The screen with a provider added, marked and used by both roles.
pub open spec fn provider_added(v: ConfigView, p: ProviderView) -> ConfigView {
    reselected(ConfigView { settings: joined_by(v.settings, p), ..v }, Some(p.key))
}

/// The screen with a provider of the user's own, ready to be edited.
#[verifier::opaque]
pub open spec fn custom_added(v: ConfigView) -> ConfigView {
    let key = providers::free_key(v.settings.providers, "custom"@);
    let w = provider_added(v, blank_provider(key, v.openai_env));
    ConfigView {
        form: FormView { step: Step::Edit, field: Field::Alias, ..w.form },
        error: None,
        ..w
    }
}

/// The provider that a preset gives.
pub open spec fn preset_provider(p: PresetView, key: Seq<char>) -> ProviderView {
    ProviderView {
        key,
        kind: p.kind,
        alias: Some(p.name),
        api_key: None,
        api_base: if p.base_url.len() == 0 {
            None
        } else {
            Some(p.base_url)
        },
        api_key_env: p.env_key,
        default_env: p.default_env,
        env_resolves: p.env_resolves,
        max_tokens: 8192,
    }
}

/// The name from which a preset gets its own.
pub open spec fn preset_base(p: PresetView) -> Seq<char> {
    if text::trimmed(p.name).len() == 0 {
        "custom"@
    } else {
        text::trimmed(p.name)
    }
}

/// The settings with the first model of a preset for each role that has none.
pub open spec fn models_filled(s: SettingsView, models: Seq<Seq<char>>) -> SettingsView {
    if models.len() > 0 && models[0].len() > 0 {
        SettingsView {
            main: providers::with_model(s.main, models[0]),
            sub: providers::with_model(s.sub, models[0]),
            ..s
        }
    } else {
        s
    }
}

/// The screen with the provider of the marked preset added.
#[verifier::opaque]
pub open spec fn preset_added(v: ConfigView) -> ConfigView {
    if v.picker.preset_selected >= v.presets.len() {
        ConfigView { error: Some("no preset selected"@), ..v }
    } else {
        let p = v.presets[v.picker.preset_selected as int];
        let key = providers::free_key(v.settings.providers, preset_base(p));
        let w = provider_added(v, preset_provider(p, key));
        ConfigView { settings: models_filled(w.settings, p.models), error: None, ..w }
    }
}

/// A value that is kept, unless it is empty.
pub open spec fn nonempty(value: Seq<char>) -> Option<Seq<char>> {
    if value.len() == 0 {
        None
    } else {
        Some(value)
    }
}

/// The provider with a field set.
pub open spec fn field_set(p: ProviderView, f: Field, value: Seq<char>) -> ProviderView {
    match f {
        Field::Alias => ProviderView { alias: nonempty(value), ..p },
        Field::ApiBase => ProviderView { api_base: nonempty(value), ..p },
        Field::ApiKey => ProviderView { api_key: nonempty(value), ..p },
        _ => p,
    }
}

/// The screen with a field of the marked provider set, or why it was not.
#[verifier::opaque]
pub open spec fn committed(v: ConfigView, f: Field, value: Seq<char>, parses: bool) -> (
    ConfigView,
    Result<(), Seq<char>>,
) {
    if is_refused(f, value, parses) {
        (ConfigView { error: Some(refusal()), ..v }, Err(refusal()))
    } else {
        let none = "no provider selected"@;
        match selected_key(v.groups, v.picker) {
            None => (ConfigView { error: Some(none), ..v }, Err(none)),
            Some(key) => match providers::provider_at(v.settings.providers, key, 0) {
                None => (ConfigView { error: Some(none), ..v }, Err(none)),
                Some(i) => (
                    ConfigView {
                        settings: SettingsView {
                            providers: v.settings.providers.update(
                                i,
                                field_set(v.settings.providers[i], f, text::trimmed(value)),
                            ),
                            ..v.settings
                        },
                        error: None,
                        ..v
                    },
                    Ok(()),
                ),
            },
        }
    }
}

/// The presets that are found.
pub open spec fn found(v: ConfigView) -> Seq<int> {
    presets::found_presets(v.presets, presets::query_of(v.search), v.presets.len() as int)
}

// ---------------------------------------------------------------------------
// What keys do
// ---------------------------------------------------------------------------

/// The screen with a page open.
pub open spec fn at_step(v: ConfigView, step: Step) -> ConfigView {
    ConfigView { form: FormView { step, ..v.form }, ..v }
}

/// The screen with an error shown.
pub open spec fn failing(v: ConfigView, e: Seq<char>) -> ConfigView {
    ConfigView { error: Some(e), ..v }
}

/// The screen with the catalog of presets open, unless there is none.
pub open spec fn catalog_opened(v: ConfigView, fresh_search: bool) -> ConfigView {
    if v.presets.len() == 0 {
        failing(v, "no preset templates available"@)
    } else {
        ConfigView {
            picker: Picker { preset_selected: 0, preset_scroll_offset: 0, ..v.picker },
            search: if fresh_search {
                Seq::empty()
            } else {
                v.search
            },
            form: FormView { step: Step::Add, ..v.form },
            error: None,
            ..v
        }
    }
}

/// The screen with the list of names open, unless there is none.
pub open spec fn list_opened(v: ConfigView) -> ConfigView {
    if all_keys(v).len() == 0 {
        failing(v, "no configured provider available"@)
    } else {
        ConfigView {
            picker: Picker { picker_selected: 0, provider_scroll_offset: 0, ..v.picker },
            form: FormView { step: Step::Configured, ..v.form },
            error: None,
            ..v
        }
    }
}

/// The screen with another row marked on the first page.
pub open spec fn marking(v: ConfigView, row: int) -> ConfigView {
    ConfigView { picker: Picker { picker_selected: row as usize, ..v.picker }, ..v }
}

/// What a key does on the first page.
#[verifier::opaque]
pub open spec fn select_key(v: ConfigView, code: KeyCode) -> (ConfigView, Option<Outcome>) {
    match code {
        KeyCode::Char('a') => (catalog_opened(v, false), None),
        KeyCode::Char('n') => (custom_added(v), None),
        KeyCode::Up => (marking(v, one_less(v.picker.picker_selected as int)), None),
        KeyCode::Char('k') => (marking(v, one_less(v.picker.picker_selected as int)), None),
        KeyCode::Down => (
            marking(v, lesser(v.picker.picker_selected + 1, SELECT_ACTION_COUNT - 1)),
            None,
        ),
        KeyCode::Char('j') => (
            marking(v, lesser(v.picker.picker_selected + 1, SELECT_ACTION_COUNT - 1)),
            None,
        ),
        KeyCode::Enter => match marked_action(v.picker) {
            SelectAction::AddFromPreset => (catalog_opened(v, true), None),
            SelectAction::AddCustom => (custom_added(v), None),
            SelectAction::UseConfigured => (list_opened(v), None),
            SelectAction::Continue => (v, Some(Outcome::Continue)),
        },
        KeyCode::Char('c') => if selected_key(v.groups, v.picker) is Some {
            (activated(v), Some(Outcome::Continue))
        } else {
            (failing(v, "select a provider before continuing"@), None)
        },
        KeyCode::Esc => (v, Some(Outcome::Cancelled)),
        _ => (v, None),
    }
}

/// The place of a number among numbers, or nothing where it is not among them.
pub open spec fn place_or_first(list: Seq<int>, i: int, k: int) -> int
    decreases list.len() - k,
{
    if k < 0 || k >= list.len() {
        0
    } else if list[k] == i {
        k
    } else {
        place_or_first(list, i, k + 1)
    }
}

/// The screen with the preset at a place of the list marked.
pub open spec fn preset_marked(v: ConfigView, list: Seq<int>, k: int) -> ConfigView {
    if 0 <= k < list.len() {
        ConfigView { picker: Picker { preset_selected: list[k] as usize, ..v.picker }, ..v }
    } else {
        v
    }
}

/// The screen with another search text.
pub open spec fn searching(v: ConfigView, search: Seq<char>) -> ConfigView {
    ConfigView { search, picker: Picker { preset_scroll_offset: 0, ..v.picker }, ..v }
}

/// The preset that is marked stands at this place of the list.
pub open spec fn marked_place(v: ConfigView) -> int {
    place_or_first(found(v), v.picker.preset_selected as int, 0)
}

/// What a key does in the catalog of presets.
#[verifier::opaque]
pub open spec fn add_key(v: ConfigView, key: KeyEvent) -> (ConfigView, Option<Outcome>) {
    match key.code {
        KeyCode::Up => (preset_marked(v, found(v), one_less(marked_place(v))), None),
        KeyCode::Down => (
            preset_marked(
                v,
                found(v),
                lesser(marked_place(v) + 1, one_less(found(v).len() as int)),
            ),
            None,
        ),
        KeyCode::Enter => if found(v).contains(v.picker.preset_selected as int) {
            (preset_added(v), Some(Outcome::Continue))
        } else {
            (v, None)
        },
        KeyCode::Backspace => (
            searching(
                v,
                if v.search.len() > 0 {
                    v.search.drop_last()
                } else {
                    v.search
                },
            ),
            None,
        ),
        KeyCode::Char(c) => if c == 'k' {
            (preset_marked(v, found(v), one_less(marked_place(v))), None)
        } else if c == 'j' {
            (
                preset_marked(
                    v,
                    found(v),
                    lesser(marked_place(v) + 1, one_less(found(v).len() as int)),
                ),
                None,
            )
        } else if key.modifiers.control {
            (v, None)
        } else {
            let w = searching(v, v.search.push(c));
            (preset_marked(w, found(w), 0), None)
        },
        KeyCode::Esc => (
            ConfigView {
                search: Seq::empty(),
                picker: Picker { picker_selected: 0, ..v.picker },
                form: FormView { step: Step::Select, ..v.form },
                ..v
            },
            None,
        ),
        _ => (v, None),
    }
}

/// The screen back on the first page.
pub open spec fn back_to_select(v: ConfigView) -> ConfigView {
    ConfigView {
        picker: Picker { picker_selected: 0, ..v.picker },
        form: FormView { step: Step::Select, ..v.form },
        error: None,
        ..v
    }
}

/// What a key does in the list of names.
#[verifier::opaque]
pub open spec fn configured_key(v: ConfigView, code: KeyCode) -> (ConfigView, Option<Outcome>) {
    let count = all_keys(v).len() as int;
    let at = v.picker.picker_selected as int;
    match code {
        KeyCode::Esc => (back_to_select(v), None),
        KeyCode::Up => if count == 0 {
            (v, None)
        } else {
            (row_selected(v, one_less(at)), None)
        },
        KeyCode::Char('k') => if count == 0 {
            (v, None)
        } else {
            (row_selected(v, one_less(at)), None)
        },
        KeyCode::Down => if count == 0 {
            (v, None)
        } else {
            (row_selected(v, lesser(at + 1, one_less(count))), None)
        },
        KeyCode::Char('j') => if count == 0 {
            (v, None)
        } else {
            (row_selected(v, lesser(at + 1, one_less(count))), None)
        },
        KeyCode::Enter => if count > 0 && selected_key(v.groups, v.picker) is Some {
            (activated(v), Some(Outcome::Continue))
        } else {
            (v, None)
        },
        _ => (v, None),
    }
}

/// What a field holds before it is edited.
pub open spec fn field_value(v: ConfigView) -> Seq<char> {
    let held = match v.form.field {
        Field::Alias => match selected_key(v.groups, v.picker) {
            Some(key) => Some(provider_label(v.settings, key)),
            None => None,
        },
        Field::ApiBase => match selected_provider(v) {
            Some(p) => p.api_base,
            None => None,
        },
        Field::ApiKey => match selected_provider(v) {
            Some(p) => p.api_key,
            None => None,
        },
        _ => None,
    };
    match held {
        Some(t) => t,
        None => Seq::empty(),
    }
}

/// The screen with the marked field being edited.
pub open spec fn edit_begun(v: ConfigView) -> ConfigView {
    let t = field_value(v);
    ConfigView {
        form: FormView { editing: true, input: t, cursor: t.len() as int, ..v.form },
        ..v
    }
}

/// What a key does on the form.
#[verifier::opaque]
pub open spec fn edit_key(v: ConfigView, code: KeyCode) -> (ConfigView, Option<Outcome>) {
    let i = field_index(v.form.field);
    match code {
        KeyCode::Up => (
            ConfigView { form: FormView { field: field_at((i + 4) % 5), ..v.form }, ..v },
            None,
        ),
        KeyCode::Down => (
            ConfigView { form: FormView { field: field_at((i + 1) % 5), ..v.form }, ..v },
            None,
        ),
        KeyCode::Enter => match v.form.field {
            Field::Save => (at_step(v, Step::Preview), None),
            Field::Cancel => (v, Some(Outcome::Cancelled)),
            _ => (edit_begun(v), None),
        },
        KeyCode::Esc => (
            ConfigView {
                picker: Picker { picker_selected: 0, ..v.picker },
                form: FormView { step: Step::Select, ..v.form },
                ..v
            },
            None,
        ),
        _ => (v, None),
    }
}

/// What a key does on the last page.
#[verifier::opaque]
pub open spec fn preview_key(v: ConfigView, code: KeyCode) -> (ConfigView, Option<Outcome>) {
    match code {
        KeyCode::Enter => (activated(v), Some(Outcome::Saved)),
        KeyCode::Esc => (at_step(v, Step::Edit), None),
        _ => (v, None),
    }
}

/// What a key does to the text that is typed, without ending it.
pub open spec fn typed_key(f: FormView, code: KeyCode) -> FormView {
    match code {
        KeyCode::Esc => FormView { editing: false, ..f },
        KeyCode::Backspace => if f.cursor > 0 {
            FormView { input: f.input.remove(f.cursor - 1), cursor: f.cursor - 1, ..f }
        } else {
            f
        },
        KeyCode::Left => FormView { cursor: one_less(f.cursor), ..f },
        KeyCode::Right => FormView { cursor: lesser(f.cursor + 1, f.input.len() as int), ..f },
        KeyCode::Char(c) => FormView {
            input: f.input.insert(f.cursor, c),
            cursor: f.cursor + 1,
            ..f
        },
        _ => f,
    }
}

/// What the typed text does when it is confirmed: the field is set, the groups are
/// formed anew, and the same name stays marked.
#[verifier::opaque]
pub open spec fn confirmed(v: ConfigView, parses: bool) -> ConfigView {
    let w = ConfigView {
        form: FormView { editing: false, input: Seq::empty(), cursor: 0, ..v.form },
        ..v
    };
    let x = committed(w, v.form.field, v.form.input, parses).0;
    reselected(x, selected_key(x.groups, x.picker))
}

/// What a key does while text is typed.
pub open spec fn editing_key(v: ConfigView, code: KeyCode, parses: bool) -> ConfigView {
    if code == KeyCode::Enter {
        confirmed(v, parses)
    } else {
        ConfigView { form: typed_key(v.form, code), ..v }
    }
}

/// What a key does, and how the screen is left, where `parses` tells whether the
/// typed text is a URL.
pub open spec fn after_key(v: ConfigView, key: KeyEvent, parses: bool) -> (
    ConfigView,
    Option<Outcome>,
) {
    if key.modifiers.control && key.code == KeyCode::Char('c') {
        (v, Some(Outcome::Cancelled))
    } else if v.form.editing {
        (editing_key(v, key.code, parses), None)
    } else if v.form.step != Step::Add && key.modifiers.plain() && key.code == KeyCode::Char('q') {
        (v, Some(Outcome::Quit))
    } else {
        match v.form.step {
            Step::Select => select_key(v, key.code),
            Step::Add => add_key(v, key),
            Step::Configured => configured_key(v, key.code),
            Step::Edit => edit_key(v, key.code),
            Step::Preview => preview_key(v, key.code),
        }
    }
}

// ---------------------------------------------------------------------------
// The code
// ---------------------------------------------------------------------------

/// The place of a name among names.
fn find_key(keys: &Vec<String>, key: &str) -> (r: Option<usize>)
    ensures
        match r {
            Some(i) => i < keys@.len() && key_index(text::views(keys@), key@, 0) == Some(
                i as int,
            ),
            None => key_index(text::views(keys@), key@, 0) is None,
        },
{
    let ghost all = text::views(keys@);
    let mut i: usize = 0;
    while i < keys.len()
        invariant
            i <= keys@.len(),
            all == text::views(keys@),
            key_index(all, key@, 0) == key_index(all, key@, i as int),
        decreases keys@.len() - i,
    {
        assert(all[i as int] == keys@[i as int]@);
        if text::same(keys[i].as_str(), key) {
            return Some(i);
        }
        i += 1;
    }
    None
}

/// The group and the place in it of a name.
fn find_place(groups: &Vec<ProviderGroup>, key: &str) -> (r: Option<(usize, usize)>)
    ensures
        match r {
            Some(at) => key_place(providers::group_views(groups@), key@, 0) == Some(
                (at.0 as int, at.1 as int),
            ),
            None => key_place(providers::group_views(groups@), key@, 0) is None,
        },
{
    let ghost all = providers::group_views(groups@);
    let mut g: usize = 0;
    while g < groups.len()
        invariant
            g <= groups@.len(),
            all == providers::group_views(groups@),
            key_place(all, key@, 0) == key_place(all, key@, g as int),
        decreases groups@.len() - g,
    {
        assert(all[g as int] == groups@[g as int]@);
        if let Some(i) = find_key(&groups[g].keys, key) {
            return Some((g, i));
        }
        g += 1;
    }
    None
}

/// What is marked when a name is chosen, or the first where none is.
fn find_target(groups: &Vec<ProviderGroup>, key: &Option<String>) -> (r: (usize, usize))
    ensures
        (r.0 as int, r.1 as int) == target_place(
            providers::group_views(groups@),
            text::opt_view(*key),
        ),
{
    let ghost all = providers::group_views(groups@);
    let found = match key {
        Some(k) => find_place(groups, k.as_str()),
        None => {
            if groups.len() > 0 && groups[0].keys.len() > 0 {
                assert(all[0] == groups@[0]@);
                find_place(groups, groups[0].keys[0].as_str())
            } else {
                None
            }
        },
    };
    match found {
        Some(at) => at,
        None => (0, 0),
    }
}

/// The lesser of two numbers.
fn min_of(a: usize, b: usize) -> (r: usize)
    ensures
        r as int == lesser(a as int, b as int),
{
    if a < b {
        a
    } else {
        b
    }
}

/// One less, but not below nothing.
fn less_one(a: usize) -> (r: usize)
    ensures
        r as int == one_less(a as int),
{
    if a > 0 {
        a - 1
    } else {
        0
    }
}

/// The place of a number among numbers.
fn find_index(list: &Vec<usize>, i: usize) -> (r: usize)
    ensures
        r as int == place_or_first(presets::indices(list@), i as int, 0),
        r < list@.len() || (r == 0 && list@.len() == 0),
{
    let ghost all = presets::indices(list@);
    let mut k: usize = 0;
    while k < list.len()
        invariant
            k <= list@.len(),
            all == presets::indices(list@),
            place_or_first(all, i as int, 0) == place_or_first(all, i as int, k as int),
        decreases list@.len() - k,
    {
        assert(all[k as int] == list@[k as int] as int);
        if list[k] == i {
            return k;
        }
        k += 1;
    }
    0
}

/// Whether a number is among numbers.
fn has_index(list: &Vec<usize>, i: usize) -> (r: bool)
    ensures
        r == presets::indices(list@).contains(i as int),
{
    let ghost all = presets::indices(list@);
    let mut k: usize = 0;
    while k < list.len()
        invariant
            k <= list@.len(),
            all == presets::indices(list@),
            forall|j: int| 0 <= j < k ==> #[trigger] all[j] != i as int,
        decreases list@.len() - k,
    {
        assert(all[k as int] == list@[k as int] as int);
        if list[k] == i {
            assert(all.contains(i as int));
            return true;
        }
        k += 1;
    }
    false
}

impl Form {
    /// Takes a key for the text that is typed.
    fn type_key(&mut self, code: KeyCode)
        requires
            old(self).cursor <= old(self).input@.len(),
        ensures
            final(self)@ == typed_key(old(self)@, code),
            final(self).cursor <= final(self).input@.len(),
    {
        let ghost before = self.input@;
        match code {
            KeyCode::Esc => {
                self.editing = false;
            },
            KeyCode::Backspace => {
                if self.cursor > 0 {
                    self.cursor = self.cursor - 1;
                    let _ = self.input.remove(self.cursor);
                }
            },
            KeyCode::Left => {
                self.cursor = less_one(self.cursor);
            },
            KeyCode::Right => {
                if self.cursor < self.input.len() {
                    self.cursor = self.cursor + 1;
                }
            },
            KeyCode::Char(c) => {
                self.input.insert(self.cursor, c);
                let total: usize = self.input.len();
                assert(self.cursor < total);
                self.cursor = self.cursor + 1;
            },
            _ => {},
        }
    }
}

impl ConfigScreen {
    /// A screen for the given settings.
    pub fn new(settings: Settings, openai_env: EnvKey) -> (r: Self)
        ensures
            r@ == opened(settings@, Seq::empty(), openai_env@),
            r@.wf(),
    {
        let none: Vec<PresetProvider> = Vec::new();
        assert(presets::preset_views(none@) =~= Seq::empty());
        Self::new_with_presets(settings, none, openai_env)
    }

    /// A screen for the given settings and presets.
    pub fn new_with_presets(
        settings: Settings,
        presets: Vec<PresetProvider>,
        openai_env: EnvKey,
    ) -> (r: Self)
        ensures
            r@ == opened(settings@, presets::preset_views(presets@), openai_env@),
            r@.wf(),
    {
        let groups: Vec<ProviderGroup> = Vec::new();
        let mut screen = ConfigScreen {
            settings,
            presets,
            groups,
            picker: Picker {
                group_selected: 0,
                selected_in_group: 0,
                preset_selected: 0,
                picker_selected: 0,
                provider_scroll_offset: 0,
                preset_scroll_offset: 0,
            },
            preset_search: Vec::new(),
            form: Form {
                step: Step::Select,
                field: Field::ApiBase,
                editing: false,
                input: Vec::new(),
                cursor: 0,
            },
            error: None,
            openai_env,
        };
        assert(screen@ =~= unopened(
            settings@,
            presets::preset_views(presets@),
            openai_env@,
        ));
        screen.select_provider_key(&None);
        screen
    }

    /// The name that is marked.
    pub fn selected_key(&self) -> (r: Option<String>)
        ensures
            text::opt_view(r) == selected_key(self@.groups, self@.picker),
    {
        if self.picker.group_selected < self.groups.len() {
            let g = &self.groups[self.picker.group_selected];
            assert(self@.groups[self.picker.group_selected as int] == g@);
            if self.picker.selected_in_group < g.keys.len() {
                return Some(g.keys[self.picker.selected_in_group].as_str().to_string());
            }
        }
        None
    }

    /// The provider that is marked.
    pub fn selected_provider(&self) -> (r: Option<&ProviderConfig>)
        ensures
            match r {
                Some(p) => selected_provider(self@) == Some(p@),
                None => selected_provider(self@) is None,
            },
    {
        match self.selected_key() {
            Some(key) => self.settings.get(&key),
            None => None,
        }
    }

    /// Whether a key is at hand for the marked provider.
    pub fn key_resolvable(&self) -> (r: bool)
        ensures
            r == (match selected_provider(self@) {
                Some(p) => providers::has_key(p),
                None => false,
            }),
    {
        match self.selected_provider() {
            Some(p) => p.key_resolvable(),
            None => false,
        }
    }

    /// What a provider is called.
    pub fn provider_label(&self, key: &str) -> (r: String)
        ensures
            r@ == provider_label(self@.settings, key@),
    {
        if let Some(p) = self.settings.get(key) {
            if let Some(a) = &p.alias {
                if !text::trim(a.as_str()).as_str().is_empty() {
                    return a.as_str().to_string();
                }
            }
        }
        key.to_string()
    }

    /// Forms the groups anew and marks a name.
    fn select_provider_key(&mut self, key: &Option<String>)
        ensures
            final(self)@ == reselected(old(self)@, text::opt_view(*key)),
            old(self)@.wf() ==> final(self)@.wf(),
    {
        self.groups = providers::provider_groups(&self.settings);
        let at = find_target(&self.groups, key);
        self.picker = Picker {
            group_selected: at.0,
            selected_in_group: at.1,
            provider_scroll_offset: 0,
            ..self.picker
        };
    }

    /// Replaces the settings; the same name stays marked.
    pub fn replace_settings(&mut self, settings: Settings)
        ensures
            final(self)@ == replaced(old(self)@, settings@),
            old(self)@.wf() ==> final(self)@.wf(),
    {
        let selected = self.selected_key();
        self.settings = settings;
        self.select_provider_key(&selected);
        self.picker = Picker { picker_selected: 0, ..self.picker };
    }

    /// All names that can be marked.
    pub fn provider_picker_keys(&self) -> (r: Vec<String>)
        ensures
            text::views(r@) == all_keys(self@),
    {
        let ghost all = self@.groups;
        let mut out: Vec<String> = Vec::new();
        let mut i: usize = 0;
        assert(text::views(out@) =~= picker_keys(all, 0));
        while i < self.groups.len()
            invariant
                i <= self.groups@.len(),
                all == self@.groups,
                text::views(out@) == picker_keys(all, i as int),
            decreases self.groups@.len() - i,
        {
            let ghost before = out@;
            assert(all[i as int] == self.groups@[i as int]@);
            let mut keys = text::copy_strings(&self.groups[i].keys);
            let ghost added = keys@;
            out.append(&mut keys);
            assert(text::views(out@) =~= text::views(before) + text::views(added));
            i += 1;
        }
        out
    }

    /// The action that is marked on the first page.
    pub fn selected_select_action(&self) -> (r: SelectAction)
        ensures
            r == marked_action(self@.picker),
    {
        match self.picker.picker_selected {
            0 => SelectAction::UseConfigured,
            1 => SelectAction::Continue,
            2 => SelectAction::AddFromPreset,
            3 => SelectAction::AddCustom,
            _ => SelectAction::Continue,
        }
    }

    /// Marks a row of the list of names.
    pub fn select_picker_row(&mut self, row: usize)
        requires
            old(self)@.wf(),
        ensures
            final(self)@ == row_selected(old(self)@, row as int),
            final(self)@.wf(),
    {
        reveal(row_selected);
        let keys = self.provider_picker_keys();
        let total: usize = keys.len();
        assert(all_keys(self@).len() == total);
        let at: usize = min_of(row, less_one(total));
        self.picker = Picker { picker_selected: at, ..self.picker };
        if at < total {
            let key = Some(keys[at].as_str().to_string());
            self.select_provider_key(&key);
        }
    }

    /// Has both roles use the marked provider.
    pub fn activate_selected_provider(&mut self) -> (r: bool)
        ensures
            final(self)@ == activated(old(self)@),
            r == (selected_key(old(self)@.groups, old(self)@.picker) is Some),
            old(self)@.wf() ==> final(self)@.wf(),
    {
        match self.selected_key() {
            Some(key) => {
                self.settings.bind(&key);
                true
            },
            None => false,
        }
    }

    /// The presets that are found.
    pub fn filtered_presets(&self) -> (r: Vec<usize>)
        ensures
            presets::indices(r@) == found(self@),
            forall|k: int| 0 <= k < r@.len() ==> (#[trigger] r@[k]) < self.presets@.len(),
    {
        presets::filter_presets(&self.presets, &text::string_of(&self.preset_search))
    }

    /// The rows of the catalog of presets.
    pub fn preset_rows(&self) -> (r: Vec<PresetRow>)
        ensures
            presets::row_views(r@) == presets::rows_of(
                self@.presets,
                found(self@),
                found(self@).len() as int,
            ),
    {
        let list = self.filtered_presets();
        assert(found(self@).len() == list@.len());
        presets::catalog_rows(&self.presets, &list)
    }

    /// Adds a provider, marks it and has both roles use it.
    fn add_provider(&mut self, p: ProviderConfig)
        ensures
            final(self)@ == provider_added(old(self)@, p@),
            old(self)@.wf() ==> final(self)@.wf(),
    {
        let key = p.key.as_str().to_string();
        self.settings.insert(p);
        self.settings.bind(&key);
        self.select_provider_key(&Some(key));
    }

    /// Adds a provider of the user's own and opens the form.
    pub fn add_custom_api(&mut self)
        requires
            old(self)@.wf(),
            old(self)@.settings.providers.len() < usize::MAX,
        ensures
            final(self)@ == custom_added(old(self)@),
            final(self)@.wf(),
    {
        reveal(custom_added);
        assert(self.settings.providers@.len() == self@.settings.providers.len());
        let key = self.settings.free_key("custom");
        let p = ProviderConfig {
            key: key.as_str().to_string(),
            kind: "openai".to_string(),
            alias: Some(key),
            api_key: None,
            api_base: None,
            api_key_env: None,
            default_env: text::copy_opt(&self.openai_env.variable),
            env_resolves: self.openai_env.resolves,
            max_tokens: DEFAULT_MAX_TOKENS,
        };
        self.add_provider(p);
        self.form.step = Step::Edit;
        self.form.field = Field::Alias;
        self.error = None;
    }

    /// The provider that a preset gives, under a free name.
    fn provider_of_preset(&self, p: &PresetProvider) -> (r: ProviderConfig)
        requires
            self@.settings.providers.len() < usize::MAX,
        ensures
            r@ == preset_provider(
                p@,
                providers::free_key(self@.settings.providers, preset_base(p@)),
            ),
    {
        assert(self.settings.providers@.len() == self@.settings.providers.len());
        let trimmed = text::trim(p.name.as_str());
        let base = if trimmed.as_str().is_empty() {
            "custom".to_string()
        } else {
            trimmed
        };
        ProviderConfig {
            key: self.settings.free_key(&base),
            kind: p.kind.as_str().to_string(),
            alias: Some(p.name.as_str().to_string()),
            api_key: None,
            api_base: if p.base_url.as_str().is_empty() {
                None
            } else {
                Some(p.base_url.as_str().to_string())
            },
            api_key_env: text::copy_opt(&p.env_key),
            default_env: text::copy_opt(&p.default_env),
            env_resolves: p.env_resolves,
            max_tokens: DEFAULT_MAX_TOKENS,
        }
    }

    /// Adds the provider of the marked preset.
    pub fn add_selected_preset(&mut self)
        requires
            old(self)@.wf(),
            old(self)@.settings.providers.len() < usize::MAX,
        ensures
            final(self)@ == preset_added(old(self)@),
            final(self)@.wf(),
    {
        reveal(preset_added);
        let at: usize = self.picker.preset_selected;
        if at >= self.presets.len() {
            self.error = Some("no preset selected".to_string());
            return;
        }
        assert(self@.presets[at as int] == self.presets@[at as int]@);
        let p = self.provider_of_preset(&self.presets[at]);
        let models = text::copy_strings(&self.presets[at].models);
        self.add_provider(p);
        if models.len() > 0 && !models[0].as_str().is_empty() {
            self.settings.fill_models(models[0].as_str());
        }
        self.error = None;
    }

    /// Sets a field of the marked provider, where `parses` tells whether the value is
    /// a URL.
    pub fn commit_judged(&mut self, field: Field, value: &str, parses: bool) -> (r: Result<
        (),
        String,
    >)
        ensures
            final(self)@ == committed(old(self)@, field, value@, parses).0,
            result_view(r) == committed(old(self)@, field, value@, parses).1,
            old(self)@.wf() ==> final(self)@.wf(),
    {
        reveal(committed);
        if let Err(e) = field.judge(value, parses) {
            self.error = Some(e.as_str().to_string());
            return Err(e);
        }
        let at = match self.selected_key() {
            Some(key) => self.settings.find(&key),
            None => None,
        };
        match at {
            None => {
                self.error = Some("no provider selected".to_string());
                Err("no provider selected".to_string())
            },
            Some(i) => {
                self.set_field(i, field, text::trim(value));
                self.error = None;
                Ok(())
            },
        }
    }

    /// Sets a field of a provider.
    fn set_field(&mut self, i: usize, field: Field, value: String)
        requires
            i < old(self).settings.providers@.len(),
        ensures
            final(self)@ == (ConfigView {
                settings: SettingsView {
                    providers: old(self)@.settings.providers.update(
                        i as int,
                        field_set(
                            old(self)@.settings.providers[i as int],
                            field,
                            value@,
                        ),
                    ),
                    ..old(self)@.settings
                },
                ..old(self)@
            }),
    {
        let ghost before = self@.settings.providers;
        assert(before[i as int] == self.settings.providers@[i as int]@);
        let kept = if value.as_str().is_empty() {
            None
        } else {
            Some(value)
        };
        let p = with_field(&self.settings.providers[i], field, kept);
        let ghost pv = p@;
        self.settings.providers.set(i, p);
        assert(providers::provider_views(self.settings.providers@) =~= before.update(
            i as int,
            pv,
        ));
    }

    /// Sets a field of the marked provider.
    pub fn commit(&mut self, field: Field, value: &str) -> (r: Result<(), String>)
        ensures
            final(self)@ == committed(
                old(self)@,
                field,
                value@,
                is_url(text::trimmed(value@)),
            ).0,
            result_view(r) == committed(
                old(self)@,
                field,
                value@,
                is_url(text::trimmed(value@)),
            ).1,
            old(self)@.wf() ==> final(self)@.wf(),
    {
        let parses = parses_as_url(&text::trim(value));
        self.commit_judged(field, value, parses)
    }
}

/// The same provider with a field set.
fn with_field(p: &ProviderConfig, field: Field, value: Option<String>) -> (r: ProviderConfig)
    requires
        value is Some ==> value->0@.len() > 0,
    ensures
        r@ == field_set(
            p@,
            field,
            match value {
                Some(t) => t@,
                None => Seq::empty(),
            },
        ),
{
    let mut out = ProviderConfig {
        key: p.key.as_str().to_string(),
        kind: p.kind.as_str().to_string(),
        alias: text::copy_opt(&p.alias),
        api_key: text::copy_opt(&p.api_key),
        api_base: text::copy_opt(&p.api_base),
        api_key_env: text::copy_opt(&p.api_key_env),
        default_env: text::copy_opt(&p.default_env),
        env_resolves: p.env_resolves,
        max_tokens: p.max_tokens,
    };
    assert(out@ =~= p@);
    match field {
        Field::Alias => {
            out.alias = value;
        },
        Field::ApiBase => {
            out.api_base = value;
        },
        Field::ApiKey => {
            out.api_key = value;
        },
        _ => {},
    }
    out
}

/// What a result says.
pub open spec fn result_view(r: Result<(), String>) -> Result<(), Seq<char>> {
    match r {
        Ok(_) => Ok(()),
        Err(e) => Err(e@),
    }
}

/// A screen before its groups are formed.
pub open spec fn unopened(s: SettingsView, p: Seq<PresetView>, env: EnvKeyView) -> ConfigView {
    ConfigView {
        settings: s,
        presets: p,
        groups: Seq::empty(),
        picker: Picker {
            group_selected: 0,
            selected_in_group: 0,
            preset_selected: 0,
            picker_selected: 0,
            provider_scroll_offset: 0,
            preset_scroll_offset: 0,
        },
        search: Seq::empty(),
        form: FormView {
            step: Step::Select,
            field: Field::ApiBase,
            editing: false,
            input: Seq::empty(),
            cursor: 0,
        },
        error: None,
        openai_env: env,
    }
}

/// A screen for settings and presets: the first name of all is marked.
pub open spec fn opened(s: SettingsView, p: Seq<PresetView>, env: EnvKeyView) -> ConfigView {
    reselected(unopened(s, p, env), None)
}

/// The screen with other settings.
pub open spec fn replaced(v: ConfigView, s: SettingsView) -> ConfigView {
    let w = reselected(
        ConfigView { settings: s, ..v },
        selected_key(v.groups, v.picker),
    );
    ConfigView { picker: Picker { picker_selected: 0, ..w.picker }, ..w }
}

impl ConfigScreen {
    /// Opens the catalog of presets.
    fn open_catalog(&mut self, fresh_search: bool)
        requires
            old(self)@.wf(),
        ensures
            final(self)@ == catalog_opened(old(self)@, fresh_search),
            final(self)@.wf(),
    {
        assert(self@.presets.len() == self.presets@.len());
        if self.presets.len() == 0 {
            self.error = Some("no preset templates available".to_string());
            return;
        }
        if fresh_search {
            self.preset_search = Vec::new();
        }
        self.picker = Picker { preset_selected: 0, preset_scroll_offset: 0, ..self.picker };
        self.form.step = Step::Add;
        self.error = None;
    }

    /// Opens the list of names.
    fn open_list(&mut self)
        requires
            old(self)@.wf(),
        ensures
            final(self)@ == list_opened(old(self)@),
            final(self)@.wf(),
    {
        let keys = self.provider_picker_keys();
        assert(all_keys(self@).len() == keys@.len());
        if keys.len() == 0 {
            self.error = Some("no configured provider available".to_string());
            return;
        }
        self.picker = Picker { picker_selected: 0, provider_scroll_offset: 0, ..self.picker };
        self.form.step = Step::Configured;
        self.error = None;
    }

    /// Takes a key on the first page.
    fn handle_select_key(&mut self, code: KeyCode) -> (r: Option<Outcome>)
        requires
            old(self)@.wf(),
            old(self)@.settings.providers.len() < usize::MAX,
        ensures
            (final(self)@, r) == select_key(old(self)@, code),
            final(self)@.wf(),
    {
        reveal(select_key);
        match code {
            KeyCode::Char('a') => self.open_catalog(false),
            KeyCode::Char('n') => self.add_custom_api(),
            KeyCode::Up | KeyCode::Char('k') => {
                let row: usize = less_one(self.picker.picker_selected);
                self.picker = Picker { picker_selected: row, ..self.picker };
            },
            KeyCode::Down | KeyCode::Char('j') => {
                let row: usize = min_of(
                    self.picker.picker_selected + 1,
                    SELECT_ACTION_COUNT - 1,
                );
                self.picker = Picker { picker_selected: row, ..self.picker };
            },
            KeyCode::Enter => match self.selected_select_action() {
                SelectAction::AddFromPreset => self.open_catalog(true),
                SelectAction::AddCustom => self.add_custom_api(),
                SelectAction::UseConfigured => self.open_list(),
                SelectAction::Continue => {
                    return Some(Outcome::Continue);
                },
            },
            KeyCode::Char('c') => {
                if self.activate_selected_provider() {
                    return Some(Outcome::Continue);
                }
                self.error = Some("select a provider before continuing".to_string());
            },
            KeyCode::Esc => {
                return Some(Outcome::Cancelled);
            },
            _ => {},
        }
        None
    }

    /// Marks the preset before or behind the marked one.
    fn move_preset(&mut self, up: bool)
        requires
            old(self)@.wf(),
        ensures
            final(self)@ == preset_marked(
                old(self)@,
                found(old(self)@),
                if up {
                    one_less(marked_place(old(self)@))
                } else {
                    lesser(
                        marked_place(old(self)@) + 1,
                        one_less(found(old(self)@).len() as int),
                    )
                },
            ),
            final(self)@.wf(),
    {
        let list = self.filtered_presets();
        let total: usize = list.len();
        assert(found(self@).len() == total);
        let at: usize = find_index(&list, self.picker.preset_selected);
        let next: usize = if up {
            less_one(at)
        } else if total == 0 {
            0
        } else {
            min_of(at + 1, less_one(total))
        };
        if next < total {
            assert(found(self@)[next as int] == list@[next as int] as int);
            self.picker = Picker { preset_selected: list[next], ..self.picker };
        }
    }

    /// Adds a character to the search text.
    fn search_for(&mut self, c: char)
        requires
            old(self)@.wf(),
        ensures
            final(self)@ == ({
                let w = searching(old(self)@, old(self)@.search.push(c));
                preset_marked(w, found(w), 0)
            }),
            final(self)@.wf(),
    {
        self.preset_search.push(c);
        self.picker = Picker { preset_scroll_offset: 0, ..self.picker };
        let list = self.filtered_presets();
        assert(found(self@).len() == list@.len());
        if list.len() > 0 {
            assert(found(self@)[0] == list@[0] as int);
            self.picker = Picker { preset_selected: list[0], ..self.picker };
        }
    }

    /// Takes a key in the catalog of presets.
    fn handle_add_key(&mut self, key: KeyEvent) -> (r: Option<Outcome>)
        requires
            old(self)@.wf(),
            old(self)@.settings.providers.len() < usize::MAX,
        ensures
            (final(self)@, r) == add_key(old(self)@, key),
            final(self)@.wf(),
    {
        reveal(add_key);
        match key.code {
            KeyCode::Up => self.move_preset(true),
            KeyCode::Down => self.move_preset(false),
            KeyCode::Enter => {
                let list = self.filtered_presets();
                if has_index(&list, self.picker.preset_selected) {
                    self.add_selected_preset();
                    return Some(Outcome::Continue);
                }
            },
            KeyCode::Backspace => {
                let _ = self.preset_search.pop();
                self.picker = Picker { preset_scroll_offset: 0, ..self.picker };
            },
            KeyCode::Char(c) => {
                if c == 'k' {
                    self.move_preset(true);
                } else if c == 'j' {
                    self.move_preset(false);
                } else if !key.modifiers.control {
                    self.search_for(c);
                }
            },
            KeyCode::Esc => {
                self.preset_search = Vec::new();
                self.form.step = Step::Select;
                self.picker = Picker { picker_selected: 0, ..self.picker };
            },
            _ => {},
        }
        None
    }

    /// Takes a key in the list of names.
    fn handle_configured_key(&mut self, code: KeyCode) -> (r: Option<Outcome>)
        requires
            old(self)@.wf(),
        ensures
            (final(self)@, r) == configured_key(old(self)@, code),
            final(self)@.wf(),
    {
        reveal(configured_key);
        let total: usize = self.provider_picker_keys().len();
        assert(all_keys(self@).len() == total);
        let at: usize = self.picker.picker_selected;
        match code {
            KeyCode::Esc => {
                self.form.step = Step::Select;
                self.picker = Picker { picker_selected: 0, ..self.picker };
                self.error = None;
            },
            KeyCode::Up | KeyCode::Char('k') => {
                if total > 0 {
                    self.select_picker_row(less_one(at));
                }
            },
            KeyCode::Down | KeyCode::Char('j') => {
                if total > 0 {
                    self.select_picker_row(min_of(at + 1, less_one(total)));
                }
            },
            KeyCode::Enter => {
                if total > 0 && self.activate_selected_provider() {
                    return Some(Outcome::Continue);
                }
            },
            _ => {},
        }
        None
    }

    /// What the marked field holds before it is edited.
    fn current_value(&self) -> (r: String)
        ensures
            r@ == field_value(self@),
    {
        let held = match self.form.field {
            Field::Alias => match self.selected_key() {
                Some(key) => Some(self.provider_label(&key)),
                None => None,
            },
            Field::ApiBase => match self.selected_provider() {
                Some(p) => text::copy_opt(&p.api_base),
                None => None,
            },
            Field::ApiKey => match self.selected_provider() {
                Some(p) => text::copy_opt(&p.api_key),
                None => None,
            },
            _ => None,
        };
        match held {
            Some(t) => t,
            None => String::new(),
        }
    }

    /// Takes a key on the form.
    fn handle_edit_key(&mut self, code: KeyCode) -> (r: Option<Outcome>)
        requires
            old(self)@.wf(),
        ensures
            (final(self)@, r) == edit_key(old(self)@, code),
            final(self)@.wf(),
    {
        reveal(edit_key);
        match code {
            KeyCode::Up => {
                let i: usize = self.form.field.index();
                self.form.field = Field::at((i + 4) % 5);
            },
            KeyCode::Down => {
                let i: usize = self.form.field.index();
                self.form.field = Field::at((i + 1) % 5);
            },
            KeyCode::Enter => match self.form.field {
                Field::Save => {
                    self.form.step = Step::Preview;
                },
                Field::Cancel => {
                    return Some(Outcome::Cancelled);
                },
                _ => {
                    let value = text::chars_of(&self.current_value());
                    self.form.cursor = value.len();
                    self.form.input = value;
                    self.form.editing = true;
                },
            },
            KeyCode::Esc => {
                self.form.step = Step::Select;
                self.picker = Picker { picker_selected: 0, ..self.picker };
            },
            _ => {},
        }
        None
    }

    /// Takes a key on the last page.
    fn handle_preview_key(&mut self, code: KeyCode) -> (r: Option<Outcome>)
        requires
            old(self)@.wf(),
        ensures
            (final(self)@, r) == preview_key(old(self)@, code),
            final(self)@.wf(),
    {
        reveal(preview_key);
        match code {
            KeyCode::Enter => {
                let _ = self.activate_selected_provider();
                Some(Outcome::Saved)
            },
            KeyCode::Esc => {
                self.form.step = Step::Edit;
                None
            },
            _ => None,
        }
    }

    /// Confirms the text that is typed, where `parses` tells whether it is a URL.
    fn confirm(&mut self, parses: bool)
        requires
            old(self)@.wf(),
        ensures
            final(self)@ == confirmed(old(self)@, parses),
            final(self)@.wf(),
    {
        reveal(confirmed);
        let value = text::string_of(&self.form.input);
        let field = self.form.field;
        self.form.input = Vec::new();
        self.form.cursor = 0;
        self.form.editing = false;
        let _ = self.commit_judged(field, &value, parses);
        let selected = self.selected_key();
        self.select_provider_key(&selected);
    }

    /// Takes a key, where `parses` tells whether the typed text is a URL.
    pub fn handle_key_judged(&mut self, key: KeyEvent, parses: bool) -> (r: Option<Outcome>)
        requires
            old(self)@.wf(),
            old(self)@.settings.providers.len() < usize::MAX,
        ensures
            (final(self)@, r) == after_key(old(self)@, key, parses),
            final(self)@.wf(),
    {
        if key.modifiers.control && key.code == KeyCode::Char('c') {
            return Some(Outcome::Cancelled);
        }
        if self.form.editing {
            if key.code == KeyCode::Enter {
                self.confirm(parses);
            } else {
                self.form.type_key(key.code);
            }
            return None;
        }
        if self.form.step != Step::Add && key.modifiers.is_empty() && key.code == KeyCode::Char(
            'q',
        ) {
            return Some(Outcome::Quit);
        }
        match self.form.step {
            Step::Select => self.handle_select_key(key.code),
            Step::Add => self.handle_add_key(key),
            Step::Configured => self.handle_configured_key(key.code),
            Step::Edit => self.handle_edit_key(key.code),
            Step::Preview => self.handle_preview_key(key.code),
        }
    }

    /// Takes a key. Tells how the screen is left, if it is.
    pub fn handle_key(&mut self, key: KeyEvent) -> (r: Option<Outcome>)
        requires
            old(self)@.wf(),
            old(self)@.settings.providers.len() < usize::MAX,
        ensures
            (final(self)@, r) == after_key(
                old(self)@,
                key,
                is_url(text::trimmed(old(self)@.form.input)),
            ),
            final(self)@.wf(),
    {
        let typed = text::string_of(&self.form.input);
        let parses = parses_as_url(&text::trim(&typed));
        self.handle_key_judged(key, parses)
    }
}

// ---------------------------------------------------------------------------
// Laws
// ---------------------------------------------------------------------------

/// A value that is refused changes nothing but the error that is shown.
pub proof fn law_refused_values_change_nothing(v: ConfigView, f: Field, value: Seq<char>)
    requires
        is_refused(f, value, false),
    ensures
        committed(v, f, value, false).1 == Err::<(), Seq<char>>(refusal()),
        committed(v, f, value, false).0 == (ConfigView { error: Some(refusal()), ..v }),
{
    reveal(committed);
}

/// Leaving the screen by control-C or by `q` changes no setting.
pub proof fn law_leaving_changes_no_setting(v: ConfigView, key: KeyEvent, parses: bool)
    requires
        after_key(v, key, parses).1 == Some(Outcome::Cancelled) || after_key(v, key, parses).1
            == Some(Outcome::Quit),
    ensures
        after_key(v, key, parses).0 == v,
{
    reveal(select_key);
    reveal(add_key);
    reveal(configured_key);
    reveal(edit_key);
    reveal(preview_key);
}

/// A provider that is added stands in the settings, both roles use it, and no other
/// provider is lost.
pub proof fn law_added_provider_is_used(v: ConfigView, p: ProviderView)
    ensures
        provider_added(v, p).settings.main.provider == p.key,
        provider_added(v, p).settings.sub.provider == p.key,
        provider_added(v, p).settings.providers == providers::with_provider(
            v.settings.providers,
            p,
        ),
{
}

/// What is typed and taken back leaves the text as it was.
pub proof fn law_backspace_undoes_typing(f: FormView, c: char)
    requires
        0 <= f.cursor <= f.input.len(),
    ensures
        typed_key(typed_key(f, KeyCode::Char(c)), KeyCode::Backspace) == f,
{
    assert(f.input.insert(f.cursor, c).remove(f.cursor) =~= f.input);
}

/// A value that is accepted is in the field that was edited, without the white space round it,
/// and an empty one clears the field. No other field, no other provider and no role changes.
pub proof fn law_accepted_values_are_in_their_field(
    v: ConfigView,
    f: Field,
    value: Seq<char>,
    parses: bool,
    key: Seq<char>,
    i: int,
    k: int,
)
    requires
        !is_refused(f, value, parses),
        selected_key(v.groups, v.picker) == Some(key),
        providers::provider_at(v.settings.providers, key, 0) == Some(i),
        0 <= i < v.settings.providers.len(),
        0 <= k < v.settings.providers.len(),
    ensures
        ({
            let (after, r) = committed(v, f, value, parses);
            let t = text::trimmed(value);
            let kept = if t.len() == 0 {
                None
            } else {
                Some(t)
            };
            let was = v.settings.providers[i];
            let is = after.settings.providers[i];
            &&& r is Ok
            &&& after.error is None
            &&& after.settings.providers.len() == v.settings.providers.len()
            &&& k != i ==> after.settings.providers[k] == v.settings.providers[k]
            &&& after.settings.main == v.settings.main
            &&& after.settings.sub == v.settings.sub
            &&& f == Field::Alias ==> is == (ProviderView { alias: kept, ..was })
            &&& f == Field::ApiBase ==> is == (ProviderView { api_base: kept, ..was })
            &&& f == Field::ApiKey ==> is == (ProviderView { api_key: kept, ..was })
        }),
{
    reveal(committed);
}

/// Where no provider is marked, nothing is set, and that is said.
pub proof fn law_values_need_a_provider(v: ConfigView, f: Field, value: Seq<char>, parses: bool)
    requires
        selected_key(v.groups, v.picker) is None,
        !is_refused(f, value, parses),
    ensures
        committed(v, f, value, parses).1 is Err,
        committed(v, f, value, parses).0.settings == v.settings,
        committed(v, f, value, parses).0.error is Some,
{
    reveal(committed);
}

} // verus!
