//! The screens on which providers, models and the environment are set up.

use autoreport::config_update::presets::{filter_presets, PresetProvider};
use autoreport::config_update::providers::{
    provider_groups, ProviderConfig, Settings,
};
use autoreport::config_update::{
    ConfigScreen, EnvKey, Field, Outcome, SelectAction, Step,
};
use autoreport::configuration_flow::{ConfigurationFlow, FlowStep, Page};
use autoreport::environment_setup;
use autoreport::environment_setup::{
    centered_content_area, initial_language, laid_out, EnvRow, EnvStep, EnvironmentScreen,
    PythonCandidate, PythonConfig, ReportLanguage, ResourcePlan, ToolStatus, CONTENT_WIDTH,
};
use autoreport::geometry::Rect;
use autoreport::keys::{KeyCode, KeyEvent, Modifiers};

fn key(code: KeyCode) -> KeyEvent {
    KeyEvent::new(code, Modifiers::none())
}

fn no_env() -> EnvKey {
    EnvKey {
        variable: None,
        resolves: false,
    }
}

fn provider(name: &str) -> ProviderConfig {
    ProviderConfig {
        key: name.to_string(),
        kind: "anthropic".to_string(),
        alias: None,
        api_key: Some("sk-test".to_string()),
        api_base: None,
        api_key_env: None,
        default_env: None,
        env_resolves: false,
        max_tokens: 8192,
    }
}

fn settings_with(p: ProviderConfig) -> Settings {
    let mut s = Settings::new();
    s.insert(p);
    s
}

fn preset(name: &str, kind: &str, base_url: &str) -> PresetProvider {
    PresetProvider {
        name: name.to_string(),
        kind: kind.to_string(),
        base_url: base_url.to_string(),
        models: Vec::new(),
        env_key: None,
        default_env: None,
        env_resolves: false,
    }
}

fn typed(screen: &ConfigScreen) -> String {
    screen.preset_search.iter().collect()
}

// ---------------------------------------------------------------------------
// Providers
// ---------------------------------------------------------------------------

#[test]
fn validate_allows_empty_api_key() {
    assert!(Field::ApiKey.validate("").is_ok());
}

#[test]
fn validate_api_base_must_be_url() {
    assert!(Field::ApiBase.validate("not a url").is_err());
    assert!(Field::ApiBase.validate("https://api.x.com/v1").is_ok());
    assert!(Field::ApiBase.validate("").is_ok()); // optional
}

#[test]
fn refused_addresses_are_explained() {
    assert_eq!(
        Field::ApiBase.validate("not a url").unwrap_err(),
        "api_base must be a valid URL"
    );
    assert!(Field::ApiBase.judge("anything", true).is_ok());
    assert!(Field::Alias.judge("anything", false).is_ok());
}

#[test]
fn groups_are_built_by_provider_kind() {
    let mut s = settings_with(provider("a"));
    let mut b = provider("b");
    b.kind = "google".to_string();
    s.insert(b);
    let screen = ConfigScreen::new(s, no_env());
    assert_eq!(screen.groups.len(), 2);
    assert_eq!(screen.groups[0].kind, "anthropic");
    assert_eq!(screen.groups[1].kind, "google");
}

#[test]
fn hides_legacy_unconfigured_preset_entries() {
    let stale = |name: &str| ProviderConfig {
        kind: "legacy".to_string(),
        api_key: None,
        api_base: Some("https://legacy.example".to_string()),
        alias: None,
        ..provider(name)
    };
    let mut s = settings_with(provider("ready"));
    s.insert(stale("stale-preset"));
    s.insert(ProviderConfig {
        alias: Some("Added provider".to_string()),
        ..stale("added")
    });

    let screen = ConfigScreen::new(s, no_env());
    let visible: Vec<&str> = screen
        .groups
        .iter()
        .flat_map(|group| group.keys.iter().map(String::as_str))
        .collect();
    assert!(visible.contains(&"ready"));
    assert!(visible.contains(&"added"));
    assert!(!visible.contains(&"stale-preset"));
}

#[test]
fn commit_field_writes_into_selected_api() {
    let mut screen = ConfigScreen::new(settings_with(provider("a")), no_env());
    screen
        .commit(Field::ApiBase, "https://api.example.com/v1")
        .unwrap();
    assert_eq!(
        screen.settings.get("a").unwrap().api_base.as_deref(),
        Some("https://api.example.com/v1")
    );
}

#[test]
fn provider_review_defers_persistence_to_the_outer_flow() {
    let mut screen = ConfigScreen::new(
        settings_with(ProviderConfig {
            alias: Some("a".to_string()),
            api_key: None,
            ..provider("a")
        }),
        no_env(),
    );
    screen.commit(Field::ApiKey, "sk-saved").unwrap();
    screen.form.step = Step::Preview;
    assert_eq!(
        screen.handle_key(key(KeyCode::Enter)),
        Some(Outcome::Saved)
    );
}

#[test]
fn add_custom_api_works_with_an_empty_provider_list() {
    let mut screen = ConfigScreen::new(Settings::new(), no_env());
    screen.add_custom_api();
    assert_eq!(screen.selected_key(), Some("custom".to_string()));
    assert_eq!(screen.settings.get("custom").unwrap().kind, "openai");
    assert_eq!(screen.settings.get("custom").unwrap().max_tokens, 8192);
    assert_eq!(screen.form.step, Step::Edit);
}

#[test]
fn presets_are_additive_and_alias_can_be_overridden() {
    let gateway = PresetProvider {
        models: vec!["gpt-test".to_string()],
        env_key: Some("OPENAI_API_KEY".to_string()),
        ..preset("OpenAI Gateway", "openai", "https://example.test/v1")
    };
    let mut screen = ConfigScreen::new_with_presets(Settings::new(), vec![gateway], no_env());
    screen.handle_key(key(KeyCode::Char('a')));
    assert_eq!(
        screen.handle_key(key(KeyCode::Enter)),
        Some(Outcome::Continue)
    );
    assert_eq!(screen.settings.providers.len(), 1);
    assert_eq!(screen.selected_key(), Some("OpenAI Gateway".to_string()));
    assert_eq!(screen.settings.main.provider, "OpenAI Gateway");
    assert_eq!(screen.settings.sub.provider, "OpenAI Gateway");
    assert_eq!(screen.settings.main.model, "gpt-test");
    assert_eq!(
        screen
            .settings
            .get("OpenAI Gateway")
            .unwrap()
            .alias
            .as_deref(),
        Some("OpenAI Gateway")
    );

    screen.commit(Field::Alias, "work-openai").unwrap();
    assert_eq!(screen.provider_label("OpenAI Gateway"), "work-openai");

    screen.form.step = Step::Select;
    screen.handle_key(key(KeyCode::Char('a')));
    assert_eq!(
        screen.handle_key(key(KeyCode::Enter)),
        Some(Outcome::Continue)
    );
    assert_eq!(screen.settings.providers.len(), 2);
    assert!(screen
        .settings
        .providers
        .iter()
        .all(|p| p.kind == "openai"));
    assert_eq!(
        screen
            .settings
            .get("OpenAI Gateway-2")
            .unwrap()
            .alias
            .as_deref(),
        Some("OpenAI Gateway")
    );
}

#[test]
fn picker_actions_follow_the_requested_order() {
    let mut screen = ConfigScreen::new(Settings::new(), no_env());
    assert_eq!(screen.picker.picker_selected, 0);
    assert_eq!(screen.selected_select_action(), SelectAction::UseConfigured);
    screen.handle_key(key(KeyCode::Down));
    assert_eq!(screen.picker.picker_selected, 1);
    assert_eq!(screen.selected_select_action(), SelectAction::Continue);
    screen.handle_key(key(KeyCode::Down));
    assert_eq!(screen.picker.picker_selected, 2);
    assert_eq!(screen.selected_select_action(), SelectAction::AddFromPreset);
    screen.handle_key(key(KeyCode::Down));
    assert_eq!(screen.picker.picker_selected, 3);
    assert_eq!(screen.selected_select_action(), SelectAction::AddCustom);
    assert_eq!(screen.handle_key(key(KeyCode::Enter)), None);
    assert_eq!(screen.form.step, Step::Edit);
}

#[test]
fn q_quits_from_provider_selection_without_advancing_the_flow() {
    let mut screen = ConfigScreen::new(Settings::new(), no_env());
    assert_eq!(
        screen.handle_key(key(KeyCode::Char('q'))),
        Some(Outcome::Quit)
    );
    assert_eq!(screen.form.step, Step::Select);
}

#[test]
fn q_remains_available_as_preset_search_input() {
    let mut screen = ConfigScreen::new_with_presets(
        Settings::new(),
        vec![preset("Qdrant Gateway", "openai", "https://example.test/v1")],
        no_env(),
    );
    screen.handle_key(key(KeyCode::Char('a')));
    assert_eq!(screen.form.step, Step::Add);
    assert_eq!(screen.handle_key(key(KeyCode::Char('q'))), None);
    assert_eq!(typed(&screen), "q");
}

#[test]
fn configured_provider_picker_shows_only_added_provider_names() {
    let settings = settings_with(ProviderConfig {
        alias: Some("Team API".to_string()),
        ..provider("team")
    });
    let mut screen = ConfigScreen::new_with_presets(
        settings,
        vec![preset("Catalog API", "openai", "https://example.test/v1")],
        no_env(),
    );
    screen.picker.picker_selected = 0;
    screen.handle_key(key(KeyCode::Enter));
    assert_eq!(screen.form.step, Step::Configured);
    assert_eq!(screen.provider_picker_keys(), vec!["team"]);
    assert_eq!(
        screen.handle_key(key(KeyCode::Enter)),
        Some(Outcome::Continue)
    );
    assert_eq!(screen.settings.main.provider, "team");
    assert_eq!(screen.settings.sub.provider, "team");
}

#[test]
fn preset_catalog_filters_without_losing_the_original_preset_index() {
    let presets = vec![
        preset("Alpha", "openai", ""),
        preset("Beta", "anthropic", ""),
    ];
    let mut screen = ConfigScreen::new_with_presets(Settings::new(), presets, no_env());
    screen.handle_key(key(KeyCode::Char('a')));
    screen.handle_key(key(KeyCode::Char('b')));
    assert_eq!(screen.filtered_presets(), vec![1]);
    assert_eq!(screen.picker.preset_selected, 1);
    screen.handle_key(key(KeyCode::Enter));
    assert_eq!(screen.selected_key(), Some("Beta".to_string()));
}

#[test]
fn cancel_does_not_save() {
    let mut screen = ConfigScreen::new(Settings::new(), no_env());
    screen.commit(Field::ApiKey, "ignored").ok();
    assert!(screen.settings.providers.is_empty());
    assert!(!screen.key_resolvable());
    let leave = KeyEvent::new(KeyCode::Char('c'), Modifiers::control());
    assert_eq!(screen.handle_key(leave), Some(Outcome::Cancelled));
    assert!(!screen.key_resolvable());
}

#[test]
fn refused_values_change_nothing() {
    let mut screen = ConfigScreen::new(settings_with(provider("a")), no_env());
    assert!(screen.commit(Field::ApiBase, "not a url").is_err());
    assert!(screen.settings.get("a").unwrap().api_base.is_none());
}

#[test]
fn a_field_is_edited_by_keys() {
    let mut screen = ConfigScreen::new(settings_with(provider("a")), no_env());
    screen.form.step = Step::Edit;
    screen.form.field = Field::Alias;
    assert_eq!(screen.handle_key(key(KeyCode::Enter)), None);
    assert!(screen.form.editing);
    screen.handle_key(key(KeyCode::Backspace));
    for c in "team".chars() {
        screen.handle_key(key(KeyCode::Char(c)));
    }
    screen.handle_key(key(KeyCode::Char('x')));
    screen.handle_key(key(KeyCode::Backspace));
    screen.handle_key(key(KeyCode::Enter));
    assert_eq!(
        screen.settings.get("a").unwrap().alias.as_deref(),
        Some("team")
    );
    assert!(!screen.form.editing);
}

#[test]
fn stored_keys_are_not_shown() {
    let mut screen = ConfigScreen::new(settings_with(provider("a")), no_env());
    screen.form.step = Step::Preview;
    let text: Vec<String> = screen.preview_lines().iter().map(|l| l.to_text()).collect();
    assert!(!text.iter().any(|l| l.contains("sk-test")));
    assert!(text
        .iter()
        .any(|l| l.contains("configured · stored securely in auth.json")));
    assert!(screen.footer(10).chars().count() <= 9);
}

#[test]
fn typed_keys_are_masked() {
    let mut screen = ConfigScreen::new(settings_with(provider("a")), no_env());
    screen.form.step = Step::Edit;
    screen.form.field = Field::ApiKey;
    screen.handle_key(key(KeyCode::Enter));
    for c in "zz9".chars() {
        screen.handle_key(key(KeyCode::Char(c)));
    }
    let page = screen.edit_page();
    assert!(!page.items.iter().any(|l| l.to_text().contains("zz9")));
    assert!(page.items.iter().any(|l| l.to_text().contains("•••")));
}

#[test]
fn the_pages_list_what_can_be_chosen() {
    let mut screen = ConfigScreen::new_with_presets(
        settings_with(provider("a")),
        vec![preset("Alpha", "openai", "https://a.test")],
        no_env(),
    );
    assert_eq!(screen.select_page().items.len(), 4);
    assert_eq!(screen.select_page().selected, Some(0));
    assert!(!screen.header_line().to_text().is_empty());
    assert!(!screen.group_summary().is_empty());
    screen.form.step = Step::Configured;
    assert!(screen
        .configured_page()
        .items
        .iter()
        .any(|l| l.to_text().contains('a')));
    screen.form.step = Step::Add;
    let add = screen.add_page();
    assert!(add
        .items
        .iter()
        .any(|l| l.to_text().contains("https://a.test")));
}

#[test]
fn added_names_replace_none() {
    let mut s = settings_with(provider("custom"));
    assert_eq!(s.free_key("custom"), "custom-2");
    s.insert(provider("custom-2"));
    assert_eq!(s.free_key("custom"), "custom-3");
    assert_eq!(s.free_key("other"), "other");
}

#[test]
fn groups_hold_names_in_order() {
    let mut s = settings_with(provider("b"));
    s.insert(provider("a"));
    let groups = provider_groups(&s);
    assert_eq!(groups.len(), 1);
    assert_eq!(groups[0].keys, vec!["a".to_string(), "b".to_string()]);
}

#[test]
fn searches_ignore_case() {
    let presets = vec![preset("OpenRouter", "openai", ""), preset("X", "google", "")];
    assert_eq!(filter_presets(&presets, "ROUTER"), vec![0]);
    assert_eq!(filter_presets(&presets, ""), vec![0, 1]);
    assert!(filter_presets(&presets, "zzz").is_empty());
}

// ---------------------------------------------------------------------------
// The flow
// ---------------------------------------------------------------------------

fn work() -> Settings {
    settings_with(ProviderConfig {
        kind: "openai".to_string(),
        alias: Some("Work API".to_string()),
        api_key: Some("test".to_string()),
        ..provider("work")
    })
}

#[test]
fn continue_opens_models_without_discarding_provider_draft() {
    let mut flow = ConfigurationFlow::new(work(), Vec::new(), no_env());
    flow.providers
        .commit(Field::ApiBase, "https://example.test/v1")
        .unwrap();
    assert_eq!(
        flow.handle_key(key(KeyCode::Char('c'))),
        FlowStep::OpenModels
    );
    assert_eq!(flow.page, Page::Models);
    assert_eq!(
        flow.providers
            .settings
            .get("work")
            .unwrap()
            .api_base
            .as_deref(),
        Some("https://example.test/v1")
    );
}

#[test]
fn back_from_models_restores_the_provider_page_and_draft() {
    let mut flow = ConfigurationFlow::new(work(), Vec::new(), no_env());
    flow.providers.picker.selected_in_group = 0;
    flow.handle_key(key(KeyCode::Char('c')));
    let mut settings = work();
    settings.main.model = "gpt-test".to_string();
    assert_eq!(flow.settings(&settings).main.model, "gpt-test");
    assert_eq!(flow.handle_key(key(KeyCode::Esc)), FlowStep::ModelKey);
    assert_eq!(
        flow.take_model_outcome(Some(Outcome::Cancelled), settings),
        None
    );
    assert_eq!(flow.page, Page::Providers);
    assert_eq!(flow.providers.settings.main.model, "gpt-test");
    assert_eq!(flow.providers.selected_key(), Some("work".to_string()));
}

#[test]
fn q_exits_the_whole_flow_instead_of_returning_to_providers() {
    let mut flow = ConfigurationFlow::new(work(), Vec::new(), no_env());
    assert_eq!(
        flow.handle_key(key(KeyCode::Char('c'))),
        FlowStep::OpenModels
    );
    assert_eq!(flow.page, Page::Models);
    assert_eq!(
        flow.handle_key(key(KeyCode::Char('q'))),
        FlowStep::ModelKey
    );
    assert_eq!(
        flow.take_model_outcome(Some(Outcome::Quit), work()),
        Some(Outcome::Quit)
    );
    assert_eq!(flow.page, Page::Models);
}

#[test]
fn completing_both_model_assignments_returns_saved() {
    let mut flow = ConfigurationFlow::new(work(), Vec::new(), no_env());
    assert_eq!(
        flow.handle_key(key(KeyCode::Char('c'))),
        FlowStep::OpenModels
    );
    let typed = [
        KeyCode::Enter,
        KeyCode::Enter,
        KeyCode::Char('m'),
        KeyCode::Enter,
        KeyCode::Down,
        KeyCode::Enter,
        KeyCode::Enter,
        KeyCode::Char('s'),
        KeyCode::Enter,
        KeyCode::Char('s'),
    ];
    for code in typed {
        assert_eq!(flow.handle_key(key(code)), FlowStep::ModelKey);
        assert_eq!(flow.take_model_outcome(None, work()), None);
    }
    assert_eq!(flow.handle_key(key(KeyCode::Enter)), FlowStep::ModelKey);
    assert_eq!(
        flow.take_model_outcome(Some(Outcome::Saved), work()),
        Some(Outcome::Saved)
    );
}

#[test]
fn control_c_leaves_from_everywhere() {
    let leave = KeyEvent::new(KeyCode::Char('c'), Modifiers::control());
    let mut flow = ConfigurationFlow::new(work(), Vec::new(), no_env());
    assert_eq!(flow.handle_key(leave), FlowStep::Done(Outcome::Cancelled));
    flow.handle_key(key(KeyCode::Char('c')));
    assert_eq!(flow.handle_key(leave), FlowStep::Done(Outcome::Cancelled));
}

// ---------------------------------------------------------------------------
// The environment
// ---------------------------------------------------------------------------

fn candidate(source: &str, label: &str) -> PythonCandidate {
    PythonCandidate {
        version: "3.12".to_string(),
        config: PythonConfig {
            source: source.to_string(),
            executable: format!("/opt/{label}/python"),
            package_manager: "pip".to_string(),
            label: label.to_string(),
        },
    }
}

fn managed() -> PythonConfig {
    PythonConfig::managed("/home/me/.autoreport/venv/bin/python", "uv")
}

fn tools() -> ToolStatus {
    ToolStatus {
        latex: true,
        typst: false,
        mineru: false,
    }
}

fn nothing_planned() -> ResourcePlan {
    ResourcePlan {
        created: Vec::new(),
        preserved: Vec::new(),
        stored_python: None,
    }
}

fn shown(rows: &[EnvRow]) -> String {
    let mut out = String::new();
    for row in rows {
        match row {
            EnvRow::Text(l) => out.push_str(&l.to_text()),
            EnvRow::Choice { label, selected } => {
                out.push_str(if *selected { "› " } else { "  " });
                out.push_str(label);
            }
            EnvRow::Numbered {
                index,
                label,
                selected,
            } => {
                out.push_str(if *selected { "› " } else { "  " });
                out.push_str(&format!("{}. {label}", index + 1));
            }
        }
        out.push('\n');
    }
    out
}

#[test]
fn page_renders_python_choice_and_tool_section() {
    let screen = EnvironmentScreen::new(Vec::new(), managed(), ReportLanguage::Latex);
    let rendered = shown(&screen.draw(tools(), &nothing_planned()));
    assert!(rendered.contains("Python environment"));
    assert!(rendered.contains("Custom Python executable"));
    assert!(rendered.contains("AutoReport managed venv"));
    assert!(rendered.contains("Local tools"));
    assert!(rendered.contains("LaTeX ✓"));
    assert!(rendered.contains("Typst ·"));
}

#[test]
fn final_review_is_read_only() {
    let mut screen =
        EnvironmentScreen::language_only(Vec::new(), managed(), ReportLanguage::Latex);
    screen.step = environment_setup::Step::FinalReview;
    let before = format!("{screen:?}");
    let rows = screen.draw(tools(), &nothing_planned());
    assert!(!rows.is_empty());
    assert_eq!(format!("{screen:?}"), before);
}

#[test]
fn language_page_uses_the_shared_selection_menu_style() {
    let screen = EnvironmentScreen::language_only(Vec::new(), managed(), ReportLanguage::Latex);
    let rows = screen.draw(tools(), &nothing_planned());
    let rendered = shown(&rows);
    assert!(rendered.contains("› LaTeX · Report/main.tex"));
    assert!(rendered.contains("Typst · Report/main.typ"));
    assert!(rendered.contains("Local tools"));
    let area = centered_content_area(
        Rect::new(0, 0, 100, 20),
        CONTENT_WIDTH,
        rows.len() as u16,
    );
    assert!(area.x > 0);
    assert!(area.y > 0);
}

#[test]
fn the_environment_is_reviewed_before_it_is_stored() {
    let mut screen = EnvironmentScreen::new(
        vec![candidate("system", "System · /usr/bin/python3")],
        managed(),
        ReportLanguage::Latex,
    );
    assert!(matches!(screen.handle_key(key(KeyCode::Enter)), EnvStep::Stay));
    assert_eq!(screen.step, environment_setup::Step::Review);
    assert!(matches!(
        screen.handle_key(key(KeyCode::Enter)),
        EnvStep::SavePython
    ));
    screen.take_python_saved(Err("full".to_string()));
    assert_eq!(screen.step, environment_setup::Step::Review);
    assert_eq!(screen.error.as_deref(), Some("full"));
    screen.take_python_saved(Ok(()));
    assert_eq!(screen.step, environment_setup::Step::Language);
    screen.handle_key(key(KeyCode::Down));
    screen.handle_key(key(KeyCode::Enter));
    assert_eq!(screen.step, environment_setup::Step::FinalReview);
    assert!(matches!(
        screen.handle_key(key(KeyCode::Enter)),
        EnvStep::SaveProject(ReportLanguage::Typst)
    ));
    assert_eq!(screen.take_project_saved(Err("x".to_string())), None);
    assert_eq!(screen.take_project_saved(Ok(())), Some(Outcome::Saved));
}

#[test]
fn digits_mark_conda_environments() {
    let mut screen = EnvironmentScreen::new(
        vec![
            candidate("system", "System"),
            candidate("conda", "Conda · base"),
            candidate("conda", "Conda · lab"),
        ],
        managed(),
        ReportLanguage::Latex,
    );
    screen.handle_key(key(KeyCode::Char('2')));
    assert_eq!(screen.selected, 2);
    let rendered = shown(&screen.draw(tools(), &nothing_planned()));
    assert!(rendered.contains("› 2. lab · 3.12"));
    assert!(rendered.contains("  1. base · 3.12"));
}

#[test]
fn typed_paths_are_checked() {
    let mut screen = EnvironmentScreen::new(Vec::new(), managed(), ReportLanguage::Latex);
    screen.handle_key(key(KeyCode::Enter));
    assert_eq!(screen.step, environment_setup::Step::Custom);
    for c in " /p ".chars() {
        screen.handle_key(key(KeyCode::Char(c)));
    }
    match screen.handle_key(key(KeyCode::Enter)) {
        EnvStep::CheckCustom(path) => assert_eq!(path, "/p"),
        other => panic!("unexpected step {other:?}"),
    }
    screen.take_check(Err("no such file".to_string()));
    assert_eq!(screen.error.as_deref(), Some("no such file"));
    screen.take_check(Ok(managed()));
    assert_eq!(screen.step, environment_setup::Step::Review);
}

#[test]
fn the_language_of_the_project_is_marked() {
    assert_eq!(
        initial_language(Some(ReportLanguage::Typst), false),
        ReportLanguage::Typst
    );
    assert_eq!(initial_language(None, true), ReportLanguage::Typst);
    assert_eq!(initial_language(None, false), ReportLanguage::Latex);
}

#[test]
fn files_that_failed_are_joined() {
    assert!(laid_out(&Vec::new()).is_ok());
    assert_eq!(
        laid_out(&vec!["a".to_string(), "b".to_string()]).unwrap_err(),
        "a; b"
    );
}
