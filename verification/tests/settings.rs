//! Settings: layers, the list, files and the environment.
use alan::controller::Poll;
use alan::json::is_empty_group;
use alan::llm::ReasoningEffort;
use alan::permissions::Policy;
use alan::session::record::Session;
use alan::settings::controller::{SettingsController, Stamp};
use alan::settings::env::from_env;
use alan::settings::layers::{
    env_layer, parse_bool, parse_var, Layer, Layers, SettingsLayer, ToolsLayer, Variables,
};
use alan::settings::overlay::{Marker, Row, SettingsOverlay};
use alan::settings::schema::{next_effort, show, Kind, SettingDef, SettingValue, SETTING_COUNT};
use alan::settings::storage::{
    global_path, project_settings, project_target, prune_empty_groups, repo_root, set_path,
    write_key, Ancestor,
};
use alan::settings::{Settings, Tools, DEFAULT_MODEL};
use alan::startup::{
    alan_data_dir, auth_path, build_env_patch_settings, build_tool_policy,
    configured_session_id, has_flag, load_or_create_settings, log_directory, parse_bool_env,
    parse_provider_order, parse_reasoning_effort, select_model, sessions_path, settings_path,
    Environment, ProviderEntry,
};
use alan::store::JsonStore;
use alan::local_model_store::JsonLocalModelStore;
use alan::stored_settings::{self, default_settings_path, ProviderOrder, SettingsStore};

fn silent() -> SettingsLayer {
    SettingsLayer::default()
}

fn model(name: &str) -> SettingsLayer {
    SettingsLayer {
        model: Some(name.into()),
        ..silent()
    }
}

fn effort(effort: ReasoningEffort) -> SettingsLayer {
    SettingsLayer {
        reasoning_effort: Some(effort),
        ..silent()
    }
}

fn tools(web_search: Option<bool>, web_fetch: Option<bool>) -> SettingsLayer {
    SettingsLayer {
        tools: Some(ToolsLayer {
            web_search,
            web_fetch,
        }),
        ..silent()
    }
}

fn layers(global: SettingsLayer, project: SettingsLayer) -> Layers {
    Layers {
        global,
        project,
        env: silent(),
    }
}

#[test]
fn defaults_apply_when_every_layer_is_silent() {
    let settings = layers(silent(), silent()).resolve();
    assert_eq!(settings.model, DEFAULT_MODEL);
    assert_eq!(settings.reasoning_effort, ReasoningEffort::Auto);
    assert_eq!(settings.tools, Tools::default());
}

#[test]
fn a_higher_layer_wins_per_field_not_per_layer() {
    let mut global = model("opus");
    global.reasoning_effort = Some(ReasoningEffort::High);
    let settings = layers(global, model("haiku")).resolve();
    assert_eq!(settings.model, "haiku");
    // Untouched by the higher layer, so the lower one still applies.
    assert_eq!(settings.reasoning_effort, ReasoningEffort::High);
}

#[test]
fn nested_groups_merge_rather_than_replace() {
    let settings = layers(tools(Some(true), Some(true)), tools(Some(false), None)).resolve();
    assert!(!settings.tools.web_search);
    assert!(settings.tools.web_fetch, "web_fetch must survive");
}

#[test]
fn silence_and_an_explicit_none_resolve_differently() {
    let silence = layers(silent(), silent()).resolve();
    let explicit = layers(effort(ReasoningEffort::Off), silent()).resolve();

    assert_eq!(silence.reasoning_effort, ReasoningEffort::Auto);
    assert_eq!(explicit.reasoning_effort, ReasoningEffort::Off);
}

#[test]
fn env_outranks_the_file() {
    let settings = Layers {
        global: model("from-file"),
        project: silent(),
        env: model("from-env"),
    }
    .resolve();
    assert_eq!(settings.model, "from-env");
}

#[test]
fn layers_an_unset_variable_is_not_an_error_but_a_bad_one_is() {
    assert!(matches!(
        parse_var("ALAN_TEST_MISSING_VAR", &None, parse_bool, "a boolean"),
        Ok(None)
    ));
    assert!(parse_var(
        "PATH",
        &Some("/usr/bin".into()),
        |_| None::<bool>,
        "a boolean"
    )
    .is_err());
    assert_eq!(
        parse_var("X", &Some(" Maybe ".into()), parse_bool, "a boolean"),
        Err("X: expected a boolean, got \"Maybe\"".into())
    );
    assert_eq!(
        parse_var("X", &Some("  ".into()), parse_bool, "a boolean"),
        Ok(None)
    );
}

#[test]
fn a_set_variable_is_case_insensitive() {
    assert_eq!(
        parse_var(
            "ALAN_TEST_CASE",
            &Some("ON".into()),
            parse_bool,
            "a boolean"
        )
        .unwrap(),
        Some(true)
    );
}

#[test]
fn env_an_unset_variable_is_not_an_error_but_a_bad_one_is() {
    assert!(matches!(
        from_env("ALAN_TEST_MISSING_VAR", &None, alan::settings::env::parse_bool, "a boolean"),
        Ok(None)
    ));
    assert!(from_env(
        "PATH",
        &Some("/usr/bin".into()),
        |_| None::<bool>,
        "a boolean"
    )
    .is_err());

    assert_eq!(alan::settings::env::parse_bool("nope"), None);
    assert_eq!(alan::settings::env::parse_bool("ON"), Some(true));
    assert_eq!(alan::settings::env::parse_effort("XHigh"), Some(ReasoningEffort::XHigh));
}

#[test]
fn the_environment_is_a_layer() {
    let vars = |effort: Option<&str>, fetch: Option<&str>| Variables {
        model: Some(" m ".into()),
        reasoning_effort: effort.map(|text| text.into()),
        web_search: None,
        web_fetch: fetch.map(|text| text.into()),
    };
    let layer = env_layer(&vars(Some("Low"), Some("no"))).unwrap();
    assert_eq!(layer.model.as_deref(), Some("m"));
    assert_eq!(layer.reasoning_effort, Some(ReasoningEffort::Low));
    assert_eq!(
        layer.tools,
        Some(ToolsLayer {
            web_search: None,
            web_fetch: Some(false)
        })
    );
    assert_eq!(
        env_layer(&vars(Some("ultra"), Some("maybe"))).unwrap_err(),
        "ALAN_REASONING_EFFORT: expected one of auto, none, minimal, low, medium, high, xhigh, max, got \"ultra\""
    );
    assert_eq!(
        env_layer(&vars(None, Some("maybe"))).unwrap_err(),
        "ALAN_OPENROUTER_WEB_FETCH: expected a boolean, got \"maybe\""
    );
}

#[test]
fn origins_are_the_highest_with_an_opinion() {
    let layers = Layers {
        global: model("g"),
        project: tools(Some(true), None),
        env: effort(ReasoningEffort::Max),
    };
    assert_eq!(layers.origin_layer("model"), Layer::Global);
    assert_eq!(layers.origin_layer("tools.web_search"), Layer::Project);
    assert_eq!(layers.origin_layer("tools.web_fetch"), Layer::Default);
    assert_eq!(layers.origin_layer("reasoning_effort"), Layer::Env);
    assert_eq!(layers.origin_layer("other"), Layer::Default);
    let labels: Vec<_> = [Layer::Default, Layer::Global, Layer::Project, Layer::Env]
        .iter()
        .map(|layer| layer.label())
        .collect();
    assert_eq!(labels, ["default", "global", "project", "env"]);
}

fn overlay_at(scope: Layer, key: &str) -> SettingsOverlay {
    let selected = (0..SETTING_COUNT)
        .position(|i| SettingDef::nth(i).key() == key)
        .expect("key");
    SettingsOverlay {
        scope,
        selected,
        editing: false,
        seed: None,
    }
}

fn row<'a>(rows: &'a [Row], label: &str) -> &'a Row {
    rows.iter().find(|row| row.label == label).expect("row")
}

#[test]
fn markers_distinguish_owned_inherited_and_overridden() {
    let mut global = tools(None, Some(true));
    global.model = Some("from-global".into());
    let layers = layers(global, tools(Some(true), None));
    let mut overlay = overlay_at(Layer::Project, "model");
    let rows = overlay.rows(&layers);

    assert_eq!(row(&rows, "web search").marker, Marker::SetHere);
    assert_eq!(
        row(&rows, "model").marker,
        Marker::Inherited(Layer::Global),
        "a lower layer set it, so editing here would take over"
    );

    // From global scope the project file is now the one imposing a value.
    overlay.toggle_scope();
    let rows = overlay.rows(&layers);
    assert_eq!(row(&rows, "model").marker, Marker::SetHere);
    assert_eq!(
        row(&rows, "web search").marker,
        Marker::Overridden(Layer::Project),
        "editing here is stored but inert"
    );
    assert!(!row(&rows, "model").cycles);
    assert!(row(&rows, "web search").cycles);
}

#[test]
fn a_row_shows_its_own_scopes_value_not_the_resolved_one() {
    let layers = layers(effort(ReasoningEffort::Low), effort(ReasoningEffort::Max));
    let mut overlay = overlay_at(Layer::Global, "reasoning_effort");

    let rows = overlay.rows(&layers);
    let row_of = row(&rows, "reasoning effort");
    assert_eq!(
        row_of.value, "low",
        "global's own value, not the resolved max"
    );
    assert_eq!(row_of.marker, Marker::Overridden(Layer::Project));

    // And cycling starts from what the row showed.
    assert_eq!(
        overlay.next_value(&layers.resolve_as_of(Layer::Global)),
        Some(serde_json::Value::String("medium".into())),
        "cycles from low, not from max"
    );
    assert_eq!(
        overlay.shown_value(&layers.resolve_as_of(Layer::Global)),
        "low"
    );

    overlay.toggle_scope();
    assert_eq!(
        row(&overlay.rows(&layers), "reasoning effort").value,
        "max"
    );
}

#[test]
fn enter_cycles_bools_and_enums_but_not_text() {
    let layers = layers(effort(ReasoningEffort::Low), silent());
    let current = layers.resolve();

    let overlay = overlay_at(Layer::Global, "tools.web_search");
    assert_eq!(
        overlay.next_value(&current),
        Some(serde_json::Value::Bool(true))
    );

    let overlay = overlay_at(Layer::Global, "reasoning_effort");
    assert_eq!(
        overlay.next_value(&current),
        Some(serde_json::Value::String("medium".into())),
        "cycles to the next option, not a toggle"
    );

    let overlay = overlay_at(Layer::Global, "model");
    assert_eq!(
        overlay.next_value(&current),
        None,
        "text rows need a prompt"
    );
}

#[test]
fn an_empty_edit_clears_the_key_rather_than_setting_an_empty_value() {
    assert_eq!(SettingsOverlay::parse_edit("   "), None);
    assert_eq!(
        SettingsOverlay::parse_edit("opus"),
        Some(serde_json::Value::String("opus".into()))
    );
}

#[test]
fn selection_wraps_in_both_directions() {
    let mut overlay = SettingsOverlay::new(false);
    assert_eq!(overlay.scope, Layer::Global);
    assert_eq!(SettingsOverlay::new(true).scope, Layer::Project);
    overlay.move_by(-1);
    assert_eq!(overlay.selected, SETTING_COUNT - 1);
    overlay.move_by(1);
    assert_eq!(overlay.selected, 0);
    overlay.move_by(isize::MIN);
    assert_eq!(overlay.selected, 0);
    overlay.move_by(-7);
    assert_eq!(overlay.selected, 1);
}

#[test]
fn keys_are_unique() {
    let mut keys: Vec<_> = (0..SETTING_COUNT)
        .map(|i| SettingDef::nth(i).key())
        .collect();
    keys.sort_unstable();
    let count = keys.len();
    keys.dedup();
    assert_eq!(keys.len(), count, "duplicate key in the settings");
}

#[test]
fn enum_options_all_parse() {
    let mut option = ReasoningEffort::Auto;
    for _ in 0..8 {
        assert!(
            ReasoningEffort::from_word(option.as_str()).is_some(),
            "{option:?} does not parse"
        );
        option = next_effort(option);
    }
    assert_eq!(option, ReasoningEffort::Auto);
    assert_eq!(SettingDef::ReasoningEffort.kind(), Kind::Enum);
    assert!(SettingDef::Model.project_safe());
    assert_eq!(show(SettingValue::Bool(true)), "on");
    assert_eq!(show(SettingValue::Bool(false)), "off");
    assert_eq!(show(SettingValue::Text("x".into())), "x");
}

fn json(text: &str) -> serde_json::Value {
    serde_json::from_str(text).unwrap()
}

fn written(existing: Option<&str>, key: &str, value: Option<serde_json::Value>) -> serde_json::Value {
    let text = write_key("f", &existing.map(|t| t.to_string()), key, value).expect("write");
    assert!(text.ends_with("}\n"));
    json(&text)
}

#[test]
fn a_write_preserves_keys_this_build_does_not_know() {
    let raw = written(
        Some(r#"{"model":"opus","from_the_future":{"a":1}}"#),
        "model",
        Some(json("\"haiku\"")),
    );
    assert_eq!(raw["model"], "haiku");
    assert_eq!(raw["from_the_future"]["a"], 1, "unknown keys survive");
}

#[test]
fn a_write_creates_nested_groups_and_clearing_prunes_them() {
    let raw = written(Some("{}"), "tools.web_search", Some(json("true")));
    assert_eq!(raw["tools"]["web_search"], true);

    let raw = written(Some(&raw.to_string()), "tools.web_search", None);
    assert!(
        raw.get("tools").is_none(),
        "an empty group is noise in a file that lists only what you changed: {raw}"
    );
    assert_eq!(written(None, "a.b.c", Some(json("1"))), json(r#"{"a":{"b":{"c":1}}}"#));
    assert_eq!(written(None, "a.b.c", None), json(r#"{"a":{"b":{}}}"#));
}

#[test]
fn a_write_refuses_rather_than_clobbering_a_value_where_a_group_belongs() {
    let file = Some(r#"{"tools":42}"#.to_string());
    let error = write_key("f", &file, "tools.web_search", Some(json("true"))).expect_err("must refuse");
    assert_eq!(
        error,
        "f: `tools` is not an object, so `tools.web_search` cannot be set — fix the file first"
    );
    assert_eq!(
        write_key("f", &Some("[1]".into()), "a", None),
        Err("f: settings must be a JSON object".into())
    );
    assert!(write_key("f", &Some("{".into()), "a", None)
        .unwrap_err()
        .contains("EOF"));
    let mut root = json(r#"{"a":{"b":{"c":7}}}"#);
    assert_eq!(
        set_path(&mut root, "a.b.c.d", Some(json("1"))),
        Err("a.b.c".into())
    );
    assert_eq!(root, json(r#"{"a":{"b":{"c":7}}}"#));
    assert_eq!(set_path(&mut root, "a.b.x", Some(json("1"))), Ok(()));
    assert_eq!(root, json(r#"{"a":{"b":{"c":7,"x":1}}}"#));
    assert_eq!(set_path(&mut json("5"), "a", None), Err("".into()));
    assert_eq!(
        prune_empty_groups(json(r#"{"a":{},"b":{"c":{}},"d":[]}"#)),
        json(r#"{"b":{"c":{}},"d":[]}"#)
    );
    assert!(is_empty_group(&json("{}")));
    assert!(!is_empty_group(&json("[]")));
}

fn ancestor(path: &str, has_settings: bool, is_repository: bool) -> Ancestor {
    Ancestor {
        path: path.into(),
        has_settings,
        is_repository,
    }
}

#[test]
fn project_settings_stop_at_the_repository() {
    let walk = vec![
        ancestor("/r/a/b", false, false),
        ancestor("/r/a", true, false),
        ancestor("/r", true, true),
    ];
    assert_eq!(
        project_settings(&walk).as_deref(),
        Some("/r/a/.alan/settings.json")
    );
    assert_eq!(project_target("/r/a/b", &walk), "/r/.alan/settings.json");
    assert_eq!(repo_root(&walk), Some(2));
    let walk = vec![
        ancestor("/r/a", false, true),
        ancestor("/r", true, false),
    ];
    assert_eq!(project_settings(&walk), None);
    let walk = vec![ancestor("/x", false, false)];
    assert_eq!(project_target("/x", &walk), "/x/.alan/settings.json");
    assert_eq!(global_path("/home/.alan"), "/home/.alan/settings.json");
}

fn stamps(modified: u64) -> Vec<Stamp> {
    vec![Stamp {
        path: "/g/settings.json".into(),
        modified: Some(modified),
    }]
}

fn started(name: &str) -> SettingsController {
    SettingsController::new(layers(model(name), silent()), stamps(1), 0)
}

#[test]
fn an_unchanged_file_is_not_reloaded() {
    let mut controller = started("opus");
    for now in [1000, 5000] {
        assert_eq!(
            controller.poll(now, stamps(1), Err("unread".into())),
            Ok(Poll::Idle)
        );
    }
    assert!(!controller.is_due(5999));
    assert!(controller.is_due(6000));
}

#[test]
fn editing_the_file_applies_without_a_command() {
    let mut controller = started("first");
    assert_eq!(controller.current().model, "first");
    assert_eq!(
        controller.poll(999, stamps(2), Ok(layers(model("second"), silent()))),
        Ok(Poll::Idle),
        "too early to look"
    );
    assert_eq!(
        controller.poll(1000, stamps(2), Ok(layers(model("second"), silent()))),
        Ok(Poll::Changed)
    );
    assert_eq!(controller.current().model, "second");
}

#[test]
fn a_broken_edit_keeps_the_previous_settings() {
    let mut controller = started("good");
    let error = controller
        .poll(1000, stamps(2), Err("settings.json: broken".into()))
        .expect_err("a broken file must report");

    assert_eq!(error, "settings.json: broken — previous settings kept");
    assert_eq!(controller.current().model, "good", "old values stay");
}

#[test]
fn a_broken_file_is_reported_once_not_every_check() {
    let mut controller = started("good");
    assert!(controller
        .poll(1000, stamps(2), Err("broken".into()))
        .is_err());

    assert_eq!(
        controller.poll(2000, stamps(2), Err("broken".into())),
        Ok(Poll::Idle),
        "no second complaint until the file changes again"
    );
}

#[test]
fn an_identical_rewrite_is_not_a_change() {
    let mut controller = started("same");
    assert_eq!(
        controller.poll(1000, stamps(2), Ok(layers(model("same"), silent()))),
        Ok(Poll::Idle)
    );
    assert_eq!(
        controller.written(stamps(3), Ok(layers(model("other"), silent()))),
        Ok(true)
    );
}

#[test]
fn a_project_file_appearing_is_noticed() {
    let mut controller = started("global");
    assert_eq!(controller.current().model, "global");
    let mut seen = stamps(1);
    seen.push(Stamp {
        path: "/p/.alan/settings.json".into(),
        modified: Some(1),
    });
    assert_eq!(
        controller.poll(1000, seen, Ok(layers(model("global"), model("project")))),
        Ok(Poll::Changed)
    );
    assert_eq!(controller.current().model, "project");
    assert_eq!(controller.origin("model"), Layer::Project);
}

#[test]
fn the_project_file_outranks_the_global_one_per_field() {
    let mut global = tools(Some(true), None);
    global.model = Some("global".into());
    let controller =
        SettingsController::new(layers(global, model("project")), Vec::new(), 0);

    assert_eq!(controller.current().model, "project");
    assert_eq!(controller.origin("model"), Layer::Project);
    // Untouched by the project file, so the global one still applies.
    assert!(controller.current().tools.web_search);
    assert_eq!(controller.origin("tools.web_search"), Layer::Global);
    assert_eq!(controller.origin("tools.web_fetch"), Layer::Default);
    assert_eq!(controller.as_of(Layer::Global).model, "global");
    let path = |scope, file: Option<&str>| {
        SettingsController::path(scope, file.map(|f| f.into()), "t".into(), "g".into())
    };
    assert_eq!(path(Layer::Project, Some("f")), "f");
    assert_eq!(path(Layer::Project, None), "t");
    assert_eq!(path(Layer::Global, Some("f")), "g");
}

#[test]
fn server_tools_follow_the_settings() {
    let available = vec![
        "openrouter:web_search".to_string(),
        "other".to_string(),
        "openrouter:web_fetch".to_string(),
    ];
    let mut settings = Settings::default();
    assert!(settings.server_tools(&available).is_empty());
    settings.tools.web_fetch = true;
    assert_eq!(settings.server_tools(&available), ["openrouter:web_fetch"]);
}

#[test]
fn set_get_remove_roundtrip() {
    let store = JsonStore::new("s.json".into());
    assert_eq!(store.path(), "s.json");
    assert_eq!(store.lock_path(), "s.json.lock");
    let file = store.set(&None, "model".into(), json("\"gpt-4o-mini\"")).unwrap();
    let file = store
        .set(&Some(file), "web_fetch".into(), json("true"))
        .unwrap();
    let file = Some(file);
    assert_eq!(
        store.get(&file, "model").unwrap(),
        Some(json("\"gpt-4o-mini\""))
    );
    assert!(store.contains(&file, "web_fetch").unwrap());

    let file = store.remove(&file, "model").unwrap();
    assert!(file.is_some());
    assert_eq!(store.remove(&file, "model").unwrap(), None);
    assert_eq!(store.get(&file, "model").unwrap(), None);
    assert_eq!(store.get(&file, "web_fetch").unwrap(), Some(json("true")));
}

#[test]
fn missing_file_opens_empty() {
    let store = JsonStore::new("s.json".into());
    assert!(!store.contains(&None, "model").unwrap());
    assert_eq!(store.get(&None, "model").unwrap(), None);
    assert_eq!(store.remove(&None, "model").unwrap(), None);
}

#[test]
fn invalid_content_is_an_error() {
    let store = JsonStore::new("s.json".into());
    for content in ["[1, 2, 3]", "not json"] {
        let file = Some(content.to_string());
        assert_eq!(
            store.get(&file, "model"),
            Err("failed to parse json store s.json".into())
        );
        assert!(store.set(&file, "a".into(), json("1")).is_err());
        assert!(store.remove(&file, "a").is_err());
        assert!(store.contains(&file, "a").is_err());
    }
    assert_eq!(
        store.lock_error(true, "x"),
        "json store s.json is locked by another process"
    );
    assert_eq!(
        store.lock_error(false, "x"),
        "failed to lock json store s.json: x"
    );
}

#[test]
fn local_models_are_a_list() {
    let store = JsonLocalModelStore::new("l.json".into());
    assert_eq!(store.load(&None), Ok(None));
    let file = store.save(&None, json(r#"[{"model_id":"llama3"}]"#)).unwrap();
    assert_eq!(
        store.load(&Some(file)).unwrap(),
        Some(json(r#"[{"model_id":"llama3"}]"#))
    );
    assert_eq!(
        store.load(&Some(r#"{"local_models":5}"#.into())),
        Ok(None)
    );
    assert!(store.load(&Some("[]".into())).is_err());
}

#[test]
fn lists_and_whole_numbers_come_back() {
    let store = JsonStore::new("s.json".into());
    let allow = json(
        r#"[{"command":"bun","args":null},{"command":"cargo","args":"test"},18446744073709551615,-7,true,[]]"#,
    );
    let file = store.set(&None, "allow".into(), allow.clone()).unwrap();
    assert_eq!(store.get(&Some(file), "allow").unwrap(), Some(allow));
    let list = json(r#"["a","b"]"#);
    assert_eq!(written(Some("{}"), "order", Some(list.clone()))["order"], list);
    let raw = written(Some(r#"{"n":3,"order":["a",1]}"#), "model", Some(json("\"x\"")));
    assert_eq!(raw["n"], 3);
    assert_eq!(raw["order"], json(r#"["a",1]"#));
}

#[test]
fn patches_change_only_what_they_name() {
    let mut settings = stored_settings::Settings::with_defaults();
    assert_eq!(settings.model.as_deref(), Some("openai/gpt-4o-mini"));
    assert_eq!(settings.provider.as_deref(), Some("openrouter"));
    assert_eq!(settings.reasoning, Some(ReasoningEffort::Low));
    settings.tool_policy = Some(Policy::Slip);
    settings.apply_patch(stored_settings::PatchSettings {
        web_fetch: Some(true),
        provider_orders: Some(vec![ProviderOrder {
            model: "m".into(),
            order: vec!["a".into(), "b".into()],
        }]),
        ..stored_settings::PatchSettings::default()
    });
    assert_eq!(settings.model.as_deref(), Some("openai/gpt-4o-mini"));
    assert_eq!(settings.web_fetch, Some(true));
    assert_eq!(settings.tool_policy, Some(Policy::Slip));
    assert_eq!(settings.provider_order("m"), ["a", "b"]);
    assert!(settings.provider_order("x").is_empty());
    settings.apply_patch(stored_settings::PatchSettings {
        openrouter_provider_order: Some(vec!["c".into()]),
        ..stored_settings::PatchSettings::default()
    });
    assert_eq!(settings.provider_order("m"), ["a", "b"]);
    assert_eq!(settings.provider_order("x"), ["c"]);
    let store = SettingsStore::new("p".into());
    assert_eq!((store.key.as_str(), store.store.path()), ("settings", "p"));
}

fn environment() -> Environment {
    Environment {
        model: None,
        web_fetch: None,
        web_search: None,
        reasoning_effort: None,
        provider_order: None,
        provider: None,
    }
}

#[test]
fn the_environment_patches_the_settings() {
    let env = Environment {
        web_fetch: Some(" TRUE ".into()),
        web_search: Some("off".into()),
        reasoning_effort: Some("High".into()),
        provider_order: Some(" deepseek, ,xiaomi/fp8 ".into()),
        provider: Some("zai".into()),
        ..environment()
    };
    let patch = build_env_patch_settings(&env, &Some("stored".into())).unwrap();
    assert_eq!(patch.model, None);
    assert_eq!(patch.openrouter_provider_order, None);
    assert_eq!(patch.web_fetch, Some(true));
    assert_eq!(patch.web_search, Some(false));
    assert_eq!(patch.reasoning, Some(ReasoningEffort::High));
    assert_eq!(patch.provider.as_deref(), Some("zai"));
    let orders = patch.provider_orders.unwrap();
    assert_eq!(orders[0].model, "stored");
    assert_eq!(orders[0].order, ["deepseek", "xiaomi/fp8"]);
    let patch = build_env_patch_settings(
        &Environment {
            model: Some("given".into()),
            ..env
        },
        &Some("stored".into()),
    )
    .unwrap();
    assert_eq!(patch.provider_orders.unwrap()[0].model, "given");
}

#[test]
fn bad_variables_are_named() {
    assert_eq!(
        parse_bool_env("X", " Maybe "),
        Err("X must be a boolean (true/false), got \"maybe\"".into())
    );
    assert_eq!(
        parse_reasoning_effort("ultra"),
        Err("ALAN_REASONING_EFFORT must be one of none, minimal, low, medium, high, xhigh, max; got \"ultra\"".into())
    );
    assert_eq!(
        parse_provider_order(" , "),
        Err("ALAN_OR_MODEL_PROVIDER must not be empty".into())
    );
    assert!(build_env_patch_settings(
        &Environment {
            web_search: Some("x".into()),
            ..environment()
        },
        &None
    )
    .is_err());
    assert_eq!(configured_session_id(&None), Ok(None));
    assert_eq!(
        configured_session_id(&Some(" id ".into())),
        Ok(Some("id".into()))
    );
    assert_eq!(
        configured_session_id(&Some("  ".into())),
        Err("ALAN_SESSION must not be empty".into())
    );
}

#[test]
fn directories_are_found() {
    let (a, h) = (Some("/alan".to_string()), Some("/home/me".to_string()));
    assert_eq!(alan_data_dir(&a, &h), Ok("/alan/.alan".into()));
    assert_eq!(alan_data_dir(&None, &h), Ok("/home/me/.alan".into()));
    assert_eq!(
        alan_data_dir(&None, &None),
        Err("cannot determine Alan home directory".into())
    );
    assert_eq!(log_directory(&Some("/l".into()), &a, &h), Ok("/l".into()));
    assert_eq!(
        log_directory(&None, &a, &h),
        Ok("/alan/.alan/logs".into())
    );
    assert_eq!(
        log_directory(&None, &None, &None),
        Err("cannot determine Alan home directory for logs".into())
    );
}

#[test]
fn files_have_their_places() {
    assert_eq!(settings_path("/a/.alan"), "/a/.alan/settings.json");
    assert_eq!(auth_path("/a/.alan"), "/a/.alan/auth.json");
    assert_eq!(sessions_path("/a/.alan"), "/a/.alan/sessions");
    assert_eq!(
        default_settings_path(&None, &Some("/h".into())),
        Ok("/h/.alan/settings.json".into())
    );
    assert_eq!(
        default_settings_path(&Some("/a".into()), &Some("/h".into())),
        Ok("/a/.alan/settings.json".into())
    );
    assert!(default_settings_path(&None, &None).is_err());
    let args = vec!["alan".to_string(), "--blank".to_string()];
    assert!(has_flag(&args, "--blank"));
    assert!(!has_flag(&args, "--save"));
}

#[test]
fn a_first_run_writes_its_settings() {
    let (settings, write) = load_or_create_settings(None);
    assert!(write);
    assert_eq!(settings.reasoning, Some(ReasoningEffort::Low));
    let mut stored = stored_settings::Settings::default();
    stored.tool_policy = Some(Policy::Free);
    let (settings, write) = load_or_create_settings(Some(stored));
    assert!(!write);
    assert_eq!(build_tool_policy(&settings).state.policy, Policy::Free);
    assert_eq!(
        build_tool_policy(&stored_settings::Settings::default()).state.policy,
        Policy::Strict
    );
}

#[test]
fn stored_settings_keep_to_their_key() {
    let store = SettingsStore::new("p".into());
    assert_eq!(store.load(&None), Ok(None));
    let file = Some(r#"{"other":1}"#.to_string());
    let text = store.save(&file, json(r#"{"model":"m"}"#)).unwrap();
    assert_eq!(json(&text), json(r#"{"other":1,"settings":{"model":"m"}}"#));
    assert_eq!(
        store.load(&Some(text)),
        Ok(Some(json(r#"{"model":"m"}"#)))
    );
    assert!(store.save(&Some("x".into()), json("1")).is_err());
    assert!(store.load(&Some("[]".into())).is_err());
}

#[test]
fn the_first_provider_is_bound() {
    let mut settings = Settings::default();
    settings.tools.web_search = true;
    assert_eq!(
        settings.bind(&Vec::new()).unwrap_err(),
        "no provider configured"
    );
    let binding = settings
        .bind(&vec![ProviderEntry {
            id: "openrouter".into(),
            server_tools: vec!["openrouter:web_fetch".into(), "openrouter:web_search".into()],
        }])
        .unwrap();
    assert_eq!(binding.provider, "openrouter");
    assert_eq!(binding.model, DEFAULT_MODEL);
    assert_eq!(binding.server_tools, ["openrouter:web_search"]);
    assert_eq!(binding.reasoning_effort, ReasoningEffort::Auto);
}

#[test]
fn the_model_to_start_with() {
    let providers = vec![
        ProviderEntry {
            id: "zai".into(),
            server_tools: vec![],
        },
        ProviderEntry {
            id: "openrouter".into(),
            server_tools: vec!["openrouter:web_fetch".into(), "openrouter:web_search".into()],
        },
    ];
    let mut settings = stored_settings::Settings::default();
    settings.web_search = Some(true);
    let selection = match select_model(&providers, &settings, &None) {
        Ok(selection) => selection,
        Err(error) => panic!("{error}"),
    };
    assert_eq!(selection.provider, 1);
    assert_eq!(selection.model_id, "openai/gpt-4o-mini");
    assert_eq!(selection.server_tools, ["openrouter:web_search"]);
    assert_eq!(selection.reasoning_effort, ReasoningEffort::Auto);
    let session = Session::new("/p".into(), "zai".into(), "glm".into(), None, 0);
    match select_model(&providers, &settings, &Some(session)) {
        Ok(selection) => {
            assert_eq!(selection.provider, 0);
            assert_eq!(selection.model_id, "glm");
        }
        Err(error) => panic!("{error}"),
    }
    settings.provider = Some("nobody".into());
    match select_model(&providers, &settings, &None) {
        Ok(_) => panic!("no such provider"),
        Err(error) => assert_eq!(error, "Provider not found: nobody"),
    }
}
