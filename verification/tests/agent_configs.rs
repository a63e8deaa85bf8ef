use api_for_cursor::agents::{
    agent_name, agent_status, cline_configured, cline_global, cline_model_info, cline_secrets,
    cost_limit_models, get_supported_agents, has_cursorapi, kilo_config, opencode_config,
    parse_agent_id, pi_config, pi_model, unresolved_error, vscode_config, vscode_listed, AgentId,
    Status, StatusProbe, BRAND, LOCAL_API_KEY,
};
use api_for_cursor::json::{Json, JsonObject};

const URL: &str = "http://127.0.0.1:8787/v1";

fn obj(pairs: Vec<(&str, Json)>) -> Json {
    let mut o = JsonObject::new();
    for (k, v) in pairs {
        o.insert(k.to_string(), v);
    }
    Json::Object(o)
}

fn st(s: &str) -> Json {
    Json::string(s)
}

fn get<'a>(j: &'a Json, path: &[&str]) -> Option<&'a Json> {
    let mut cur = j;
    for k in path {
        cur = cur.get(k)?;
    }
    Some(cur)
}

fn text_at(j: &Json, path: &[&str]) -> Option<String> {
    get(j, path).and_then(|v| v.as_str().cloned())
}

fn number_at(j: &Json, path: &[&str]) -> Option<String> {
    match get(j, path) {
        Some(Json::Number(n)) => Some(n.clone()),
        _ => None,
    }
}

fn bool_at(j: &Json, path: &[&str]) -> Option<bool> {
    match get(j, path) {
        Some(Json::Bool(b)) => Some(*b),
        _ => None,
    }
}

fn keys(j: &Json) -> Vec<String> {
    match j {
        Json::Object(o) => {
            let mut k: Vec<String> = o.entries().iter().map(|(k, _)| k.clone()).collect();
            k.sort();
            k
        }
        _ => Vec::new(),
    }
}

fn render(j: &Json) -> String {
    match j {
        Json::Null => "null".to_string(),
        Json::Bool(b) => b.to_string(),
        Json::Number(n) => n.clone(),
        Json::Str(s) => format!("{s:?}"),
        Json::Array(a) => format!("[{}]", a.iter().map(render).collect::<Vec<_>>().join(",")),
        Json::Object(o) => {
            let mut e: Vec<String> =
                o.entries().iter().map(|(k, v)| format!("{k:?}:{}", render(v))).collect();
            e.sort();
            format!("{{{}}}", e.join(","))
        }
    }
}

#[test]
fn cost_limit_models_list_both_composers() {
    let m = cost_limit_models();
    assert_eq!(keys(&m), vec!["composer-2.5", "composer-2.5-fast"]);
    assert_eq!(text_at(&m, &["composer-2.5", "name"]).unwrap(), "Composer 2.5");
    assert_eq!(number_at(&m, &["composer-2.5", "cost", "input"]).unwrap(), "0.5");
    assert_eq!(number_at(&m, &["composer-2.5", "cost", "output"]).unwrap(), "2.5");
    assert_eq!(number_at(&m, &["composer-2.5-fast", "cost", "input"]).unwrap(), "3.0");
    assert_eq!(number_at(&m, &["composer-2.5-fast", "cost", "output"]).unwrap(), "15.0");
    assert_eq!(number_at(&m, &["composer-2.5-fast", "limit", "context"]).unwrap(), "200000");
    assert_eq!(number_at(&m, &["composer-2.5-fast", "limit", "output"]).unwrap(), "65536");
}

#[test]
fn opencode_from_nothing() {
    let out = opencode_config(None, URL);
    assert_eq!(keys(&out), vec!["model", "provider"]);
    assert_eq!(text_at(&out, &["model"]).unwrap(), "cursorapi/composer-2.5-fast");
    assert_eq!(text_at(&out, &["provider", "cursorapi", "npm"]).unwrap(), "@ai-sdk/openai-compatible");
    assert_eq!(text_at(&out, &["provider", "cursorapi", "name"]).unwrap(), BRAND);
    assert_eq!(text_at(&out, &["provider", "cursorapi", "options", "baseURL"]).unwrap(), URL);
    assert_eq!(text_at(&out, &["provider", "cursorapi", "options", "apiKey"]).unwrap(), LOCAL_API_KEY);
    assert_eq!(render(get(&out, &["provider", "cursorapi", "models"]).unwrap()), render(&cost_limit_models()));
}

#[test]
fn opencode_keeps_foreign_settings_and_drops_retired_providers() {
    let existing = obj(vec![
        ("theme", st("dark")),
        ("model", st("cursor/composer")),
        (
            "provider",
            obj(vec![("cursor", st("x")), ("cursorsdk", st("y")), ("openai", st("z"))]),
        ),
    ]);
    let out = opencode_config(Some(existing), URL);
    assert_eq!(text_at(&out, &["theme"]).unwrap(), "dark");
    assert_eq!(text_at(&out, &["model"]).unwrap(), "cursorapi/composer-2.5-fast");
    assert_eq!(keys(get(&out, &["provider"]).unwrap()), vec!["cursorapi", "openai"]);
    assert_eq!(text_at(&out, &["provider", "openai"]).unwrap(), "z");
}

#[test]
fn opencode_keeps_a_chosen_model() {
    let existing = obj(vec![("model", st("openai/gpt-4o"))]);
    let out = opencode_config(Some(existing), URL);
    assert_eq!(text_at(&out, &["model"]).unwrap(), "openai/gpt-4o");
    let existing = obj(vec![("model", Json::number("3"))]);
    let out = opencode_config(Some(existing), URL);
    assert_eq!(text_at(&out, &["model"]).unwrap(), "cursorapi/composer-2.5-fast");
    let existing = obj(vec![("model", st("cursorsdk/x"))]);
    let out = opencode_config(Some(existing), URL);
    assert_eq!(text_at(&out, &["model"]).unwrap(), "cursorapi/composer-2.5-fast");
}

#[test]
fn opencode_replaces_a_document_that_is_no_object() {
    let out = opencode_config(Some(Json::Array(vec![st("x")])), URL);
    assert_eq!(keys(&out), vec!["model", "provider"]);
}

#[test]
fn opencode_twice_is_opencode_once() {
    let existing = obj(vec![("theme", st("dark")), ("provider", obj(vec![("cursor", st("x"))]))]);
    let once = opencode_config(Some(existing), URL);
    let twice = opencode_config(Some(once.duplicate()), URL);
    assert_eq!(render(&once), render(&twice));
}

#[test]
fn kilo_from_nothing_and_with_a_model() {
    let out = kilo_config(None, URL);
    assert_eq!(text_at(&out, &["$schema"]).unwrap(), "https://app.kilo.ai/config.json");
    assert_eq!(text_at(&out, &["model"]).unwrap(), "cursorapi/composer-2.5");
    assert_eq!(text_at(&out, &["provider", "cursorapi", "options", "baseURL"]).unwrap(), URL);
    assert!(get(&out, &["provider", "cursorapi", "npm"]).is_none());
    let out = kilo_config(Some(obj(vec![("model", Json::Null)])), URL);
    assert!(matches!(get(&out, &["model"]), Some(Json::Null)));
    let twice = kilo_config(Some(out.duplicate()), URL);
    assert_eq!(render(&out), render(&twice));
}

#[test]
fn provider_entries_are_merged_into_existing_ones() {
    let mine = || {
        obj(vec![
            ("name", st("mine")),
            ("options", obj(vec![("timeout", Json::number("5")), ("baseURL", st("old"))])),
        ])
    };
    let existing = obj(vec![("provider", obj(vec![("cursorapi", mine())]))]);
    let out = kilo_config(Some(existing), URL);
    let e = get(&out, &["provider", "cursorapi"]).unwrap();
    assert_eq!(text_at(e, &["name"]).unwrap(), "mine");
    assert_eq!(keys(get(e, &["options"]).unwrap()), vec!["apiKey", "baseURL", "timeout"]);
    assert_eq!(number_at(e, &["options", "timeout"]).unwrap(), "5");
    assert_eq!(text_at(e, &["options", "baseURL"]).unwrap(), URL);
    assert_eq!(text_at(e, &["options", "apiKey"]).unwrap(), "cursor-local");
    assert_eq!(render(get(e, &["models"]).unwrap()), render(&cost_limit_models()));

    let existing = obj(vec![("provider", obj(vec![("cursorapi", mine())]))]);
    let out = opencode_config(Some(existing), URL);
    let e = get(&out, &["provider", "cursorapi"]).unwrap();
    assert_eq!(text_at(e, &["name"]).unwrap(), BRAND);
    assert_eq!(number_at(e, &["options", "timeout"]).unwrap(), "5");
    assert_eq!(text_at(e, &["options", "baseURL"]).unwrap(), URL);

    let existing = obj(vec![("providers", obj(vec![("cursorapi", obj(vec![("headers", st("h"))]))]))]);
    let out = pi_config(Some(existing), URL);
    let e = get(&out, &["providers", "cursorapi"]).unwrap();
    assert_eq!(text_at(e, &["headers"]).unwrap(), "h");
    assert_eq!(text_at(e, &["baseUrl"]).unwrap(), URL);
}

#[test]
fn pi_from_nothing() {
    let out = pi_config(None, URL);
    assert_eq!(keys(&out), vec!["providers"]);
    let p = get(&out, &["providers", "cursorapi"]).unwrap();
    assert_eq!(text_at(p, &["baseUrl"]).unwrap(), URL);
    assert_eq!(text_at(p, &["apiKey"]).unwrap(), "cursor-local");
    assert_eq!(bool_at(p, &["authHeader"]), Some(true));
    assert_eq!(text_at(p, &["api"]).unwrap(), "openai-completions");
    match get(p, &["models"]) {
        Some(Json::Array(models)) => {
            assert_eq!(models.len(), 2);
            assert_eq!(render(&models[0]), render(&pi_model("composer-2.5", "Composer 2.5", "0.5", "2.5")));
            assert_eq!(text_at(&models[1], &["id"]).unwrap(), "composer-2.5-fast");
            assert_eq!(number_at(&models[1], &["cost", "output"]).unwrap(), "15.0");
            assert_eq!(number_at(&models[1], &["cost", "cacheRead"]).unwrap(), "0");
            assert_eq!(bool_at(&models[1], &["reasoning"]), Some(false));
            assert_eq!(text_at(&models[1], &["compat", "maxTokensField"]).unwrap(), "max_tokens");
        }
        _ => panic!("models must be an array"),
    }
}

#[test]
fn pi_keeps_other_providers() {
    let existing = obj(vec![("providers", obj(vec![("local", st("x"))])), ("extra", Json::Bool(true))]);
    let out = pi_config(Some(existing), URL);
    assert_eq!(keys(get(&out, &["providers"]).unwrap()), vec!["cursorapi", "local"]);
    assert_eq!(bool_at(&out, &["extra"]), Some(true));
}

#[test]
fn cline_global_and_secrets() {
    let existing = obj(vec![("remoteRulesToggles", st("keep")), ("other", st("o"))]);
    let g = cline_global(Some(existing), URL);
    assert_eq!(text_at(&g, &["actModeApiProvider"]).unwrap(), "openai");
    assert_eq!(text_at(&g, &["planModeApiProvider"]).unwrap(), "openai");
    assert_eq!(text_at(&g, &["actModeOpenAiModelId"]).unwrap(), "composer-2.5");
    assert_eq!(text_at(&g, &["planModeOpenAiModelId"]).unwrap(), "composer-2.5-fast");
    assert_eq!(render(get(&g, &["actModeOpenAiModelInfo"]).unwrap()), render(&cline_model_info("0.5", "2.5")));
    assert_eq!(number_at(&g, &["planModeOpenAiModelInfo", "inputPrice"]).unwrap(), "3.0");
    assert_eq!(number_at(&g, &["planModeOpenAiModelInfo", "temperature"]).unwrap(), "0");
    assert_eq!(text_at(&g, &["planModeOpenAiModelInfo", "systemRole"]).unwrap(), "system");
    assert_eq!(text_at(&g, &["openAiBaseUrl"]).unwrap(), URL);
    assert_eq!(bool_at(&g, &["welcomeViewCompleted"]), Some(true));
    assert_eq!(text_at(&g, &["remoteRulesToggles"]).unwrap(), "keep");
    assert_eq!(keys(get(&g, &["remoteWorkflowToggles"]).unwrap()), Vec::<String>::new());
    assert_eq!(text_at(&g, &["other"]).unwrap(), "o");
    assert!(cline_configured(&Some(g)));
    let sec = cline_secrets(Some(obj(vec![("other", st("s"))])));
    assert_eq!(text_at(&sec, &["openAiApiKey"]).unwrap(), "cursor-local");
    assert_eq!(text_at(&sec, &["other"]).unwrap(), "s");
}

#[test]
fn cline_status_needs_both_settings() {
    assert!(!cline_configured(&None));
    assert!(!cline_configured(&Some(obj(vec![("openAiBaseUrl", st(URL))]))));
    assert!(!cline_configured(&Some(obj(vec![
        ("openAiBaseUrl", Json::Null),
        ("actModeOpenAiModelId", st("composer-2.5")),
    ]))));
    assert!(cline_configured(&Some(obj(vec![
        ("openAiBaseUrl", st("x")),
        ("actModeOpenAiModelId", st("composer-2.5")),
    ]))));
}

#[test]
fn vscode_replaces_its_own_entries_and_keeps_others() {
    let existing = Json::Array(vec![
        obj(vec![("name", st("CursorAPI"))]),
        obj(vec![("name", st("Other"))]),
        obj(vec![("name", st(BRAND)), ("baseUrl", st("old"))]),
        st("loose"),
    ]);
    let out = vscode_config(Some(existing), URL);
    match &out {
        Json::Array(items) => {
            assert_eq!(items.len(), 3);
            assert_eq!(text_at(&items[0], &["name"]).unwrap(), "Other");
            assert!(matches!(&items[1], Json::Str(s) if s == "loose"));
            assert_eq!(text_at(&items[2], &["name"]).unwrap(), BRAND);
            assert_eq!(text_at(&items[2], &["provider"]).unwrap(), "openai-compatible");
            assert_eq!(text_at(&items[2], &["baseUrl"]).unwrap(), URL);
            assert_eq!(render(get(&items[2], &["models"]).unwrap()), "[\"composer-2.5\",\"composer-2.5-fast\"]");
        }
        _ => panic!("expected an array"),
    }
    assert!(vscode_listed(&Some(out.duplicate())));
    let twice = vscode_config(Some(out.duplicate()), URL);
    assert_eq!(render(&out), render(&twice));
}

#[test]
fn vscode_from_a_document_that_is_no_array() {
    let out = vscode_config(Some(obj(vec![("name", st("x"))])), URL);
    match out {
        Json::Array(items) => assert_eq!(items.len(), 1),
        _ => panic!("expected an array"),
    }
    assert!(!vscode_listed(&Some(obj(vec![("name", st(BRAND))]))));
    assert!(!vscode_listed(&None));
}

#[test]
fn recognises_cursorapi_sections() {
    assert!(has_cursorapi(&Some(obj(vec![("provider", obj(vec![("cursorapi", Json::Null)]))])), "provider"));
    assert!(!has_cursorapi(&Some(obj(vec![("provider", obj(vec![("other", Json::Null)]))])), "provider"));
    assert!(!has_cursorapi(&Some(st("provider")), "provider"));
    assert!(!has_cursorapi(&None, "providers"));
}

fn probe(located: bool, installed: bool, document: Option<Json>, text: Option<&str>) -> StatusProbe {
    StatusProbe { located, installed, document, text: text.map(|t| t.to_string()) }
}

#[test]
fn agent_statuses() {
    assert_eq!(agent_status("opencode", &probe(true, false, Some(opencode_config(None, URL)), None)), "configured");
    assert_eq!(agent_status("opencode", &probe(false, false, Some(opencode_config(None, URL)), None)), "not_configured");
    assert_eq!(agent_status("codex", &probe(true, false, None, Some("[model_providers.cursorapi]"))), "not_installed");
    assert_eq!(agent_status("codex", &probe(true, true, None, Some("x\n[model_providers.cursorapi]\n"))), "configured");
    assert_eq!(agent_status("codex", &probe(true, true, None, Some("[model_providers.other]"))), "not_configured");
    assert_eq!(agent_status("codex", &probe(false, true, None, None)), "not_configured");
    assert_eq!(agent_status("vscode", &probe(true, false, None, None)), "not_installed");
    assert_eq!(agent_status("vscode", &probe(false, true, None, None)), "not_installed");
    assert_eq!(agent_status("vscode", &probe(true, true, None, None)), "not_configured");
    assert_eq!(agent_status("vscode", &probe(true, true, Some(vscode_config(None, URL)), None)), "configured");
    assert_eq!(agent_status("cline", &probe(true, true, Some(cline_global(None, URL)), None)), "configured");
    assert_eq!(agent_status("kilo", &probe(true, true, Some(kilo_config(None, URL)), None)), "configured");
    assert_eq!(agent_status("kilo", &probe(true, true, Some(pi_config(None, URL)), None)), "not_configured");
    assert_eq!(agent_status("pi", &probe(true, true, Some(pi_config(None, URL)), None)), "configured");
    assert_eq!(agent_status("zed", &probe(true, true, None, None)), "not_configured");
    assert_eq!(Status::NotInstalled.label(), "not_installed");
}

#[test]
fn agent_names_and_ids() {
    assert_eq!(agent_name("opencode"), "opencode");
    assert_eq!(agent_name("codex"), "Codex");
    assert_eq!(agent_name("vscode"), "VS Code");
    assert_eq!(agent_name("cline"), "Cline");
    assert_eq!(agent_name("kilo"), "Kilo Code");
    assert_eq!(agent_name("pi"), "pi");
    assert_eq!(agent_name("aider"), "Unknown");
    assert_eq!(parse_agent_id("kilo"), Ok(AgentId::Kilo));
    assert_eq!(parse_agent_id("Codex"), Err("unknown agent: Codex".to_string()));
    assert_eq!(unresolved_error(AgentId::Codex), "cannot resolve .codex path");
    assert_eq!(unresolved_error(AgentId::VsCode), "cannot resolve VS Code path");
}

#[test]
fn supported_agents_in_order() {
    let probes: Vec<StatusProbe> = (0..6).map(|_| probe(true, true, None, None)).collect();
    let list = get_supported_agents(URL.to_string(), &probes).unwrap();
    let ids: Vec<&str> = list.iter().map(|a| a.id.as_str()).collect();
    assert_eq!(ids, vec!["opencode", "codex", "vscode", "cline", "kilo", "pi"]);
    let names: Vec<&str> = list.iter().map(|a| a.name.as_str()).collect();
    assert_eq!(names, vec!["opencode", "Codex", "VS Code", "Cline", "Kilo Code", "pi"]);
    let statuses: Vec<&str> = list.iter().map(|a| a.status.as_str()).collect();
    assert_eq!(
        statuses,
        vec!["not_configured", "not_configured", "not_configured", "not_configured", "not_configured", "not_configured"]
    );
}
