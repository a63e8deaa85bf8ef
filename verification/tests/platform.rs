use std::path::PathBuf;

use api_for_cursor::autostart::{
    autostart_removed, current_exe_command, is_autostart_enabled, RegistryOutcome, RUN_KEY_PATH,
    VALUE_NAME,
};
use api_for_cursor::backup::{backup_name, epoch_ms, needs_backup};
use api_for_cursor::credentials::{
    after_legacy, after_primary, deletion_outcome, key_presence, normalize_key, KeyLookup,
    KeyStep, StoreOutcome,
};
use api_for_cursor::location::{
    cline_dir, codex_dir, config_home, config_home_from, kilo_path, opencode_path, pi_path,
    vscode_app, vscode_candidates, Location,
};
use api_for_cursor::server::{
    bridge_candidate, bridge_env, finish_launch, get_base_url, log_line, pick_bridge_port, plan_launch,
    server_event_action, ServerEvent,
    server_env, snapshot, strip_verbatim, Launch, LaunchPlan, ServerState, ServerStatus,
    DEFAULT_BRIDGE_PORT,
};
use api_for_cursor::settings::{
    default_port, get_settings, load, port, settings_dir, settings_path, with_port, Settings,
    DEFAULT_PORT,
};

fn segs(l: &Location) -> Vec<String> {
    l.segments.clone()
}

fn base() -> Location {
    Location::at(PathBuf::from("/home/u"))
}

#[test]
fn agent_locations() {
    let l = opencode_path(Some(base().join(".config"))).unwrap();
    assert_eq!(segs(&l), vec![".config", "opencode", "opencode.json"]);
    assert_eq!(l.base, PathBuf::from("/home/u"));
    assert_eq!(segs(&codex_dir(Some(base())).unwrap()), vec![".codex"]);
    assert_eq!(segs(&cline_dir(Some(base())).unwrap()), vec![".cline", "data"]);
    assert_eq!(segs(&kilo_path(Some(base())).unwrap()), vec!["kilo", "kilo.jsonc"]);
    assert_eq!(segs(&pi_path(Some(base())).unwrap()), vec![".pi", "agent", "models.json"]);
    assert!(opencode_path(None).is_none());
    assert!(pi_path(None).is_none());
}

#[test]
fn config_home_prefers_an_absolute_xdg_value() {
    let l = config_home_from(Some("/xdg".to_string()), true, Some(base())).unwrap();
    assert_eq!(l.base, PathBuf::from("/xdg"));
    assert!(l.segments.is_empty());
    let l = config_home_from(Some("/xdg".to_string()), false, Some(base())).unwrap();
    assert_eq!(l.base, PathBuf::from("/home/u"));
    assert_eq!(segs(&l), vec![".config"]);
    let l = config_home_from(Some(String::new()), true, Some(base())).unwrap();
    assert_eq!(segs(&l), vec![".config"]);
    assert!(config_home_from(None, false, None).is_none());
    let abs = "/etc".to_string();
    let l = config_home(Some(abs.clone())).unwrap();
    assert_eq!(l.base, PathBuf::from(abs));
}

#[test]
fn vscode_app_takes_the_first_present() {
    let c = vscode_candidates(&base());
    assert_eq!(c.len(), 5);
    assert_eq!(segs(&c[1]), vec!["Code - Insiders", "User"]);
    assert_eq!(c[4].base, PathBuf::from("/home/u"));
    let (l, name, installed) = vscode_app(Some(base()), &vec![false, false, true, true, false]).unwrap();
    assert_eq!(name, "VSCodium");
    assert!(installed);
    assert_eq!(segs(&l), vec!["VSCodium", "User"]);
    let (l, name, installed) = vscode_app(Some(base()), &vec![false; 5]).unwrap();
    assert_eq!(name, "Code");
    assert!(!installed);
    assert_eq!(segs(&l), vec!["Code", "User"]);
    assert!(vscode_app(None, &vec![true; 5]).is_none());
}

#[test]
fn settings_defaults_and_port() {
    assert_eq!(default_port(), 8787);
    assert_eq!(DEFAULT_PORT, 8787);
    assert_eq!(load(None), Settings { port: 8787, autostart: false });
    assert_eq!(Settings::default(), Settings { port: 8787, autostart: false });
    let stored = Settings { port: 9000, autostart: true };
    assert_eq!(load(Some(stored)), stored);
    assert_eq!(port(Some(stored)), 9000);
    assert_eq!(port(None), 8787);
    assert_eq!(get_settings(None), Ok(Settings { port: 8787, autostart: false }));
    let changed = with_port(Some(stored), 1234);
    assert_eq!(changed, Settings { port: 1234, autostart: true });
    assert_eq!(port(Some(changed)), 1234);
    assert_eq!(with_port(None, 5), Settings { port: 5, autostart: false });
}

#[test]
fn settings_locations() {
    assert_eq!(segs(&settings_dir(Some(base())).unwrap()), vec!["API for Cursor"]);
    assert_eq!(segs(&settings_path(Some(base())).unwrap()), vec!["API for Cursor", "settings.json"]);
    assert_eq!(settings_path(None).err().unwrap(), "could not resolve %APPDATA%");
}

#[test]
fn server_state_and_status() {
    let mut s = ServerState::new();
    assert_eq!(snapshot(&s), ServerStatus { running: false, port: 0 });
    assert!(s.already_running().is_none());
    s.mark_started(8787);
    assert_eq!(s.already_running(), Some(ServerStatus { running: true, port: 8787 }));
    s.mark_stopped();
    assert_eq!(snapshot(&s), ServerStatus { running: false, port: 8787 });
}

#[test]
fn base_url_uses_the_running_port_first() {
    assert_eq!(get_base_url(9001, 8787), "http://127.0.0.1:9001/v1");
    assert_eq!(get_base_url(0, 8787), "http://127.0.0.1:8787/v1");
    assert_eq!(get_base_url(0, 0), "http://127.0.0.1:0/v1");
}

#[test]
fn strips_verbatim_prefixes() {
    assert_eq!(strip_verbatim(r"\\?\C:\Program Files\x"), r"C:\Program Files\x");
    assert_eq!(strip_verbatim(r"\\?\UNC\server\share\bridge"), r"\\server\share\bridge");
    assert_eq!(strip_verbatim(r"C:\plain"), r"C:\plain");
    assert_eq!(strip_verbatim(r"\\server\share"), r"\\server\share");
}

#[test]
fn bridge_ports() {
    assert_eq!(DEFAULT_BRIDGE_PORT, 8792);
    assert_eq!(bridge_candidate(0), Some(8792));
    assert_eq!(bridge_candidate(100), Some(8892));
    assert_eq!(bridge_candidate(101), None);
    assert_eq!(pick_bridge_port(&vec![false, false, true]), 8794);
    assert_eq!(pick_bridge_port(&vec![true]), 8792);
    assert_eq!(pick_bridge_port(&vec![false; 101]), 8792);
    assert_eq!(pick_bridge_port(&Vec::new()), 8792);
}

fn pairs(v: &[(String, String)]) -> Vec<(&str, &str)> {
    v.iter().map(|(k, x)| (k.as_str(), x.as_str())).collect()
}

#[test]
fn process_environments() {
    let b = bridge_env(8793, "abc");
    assert_eq!(
        pairs(&b),
        vec![
            ("CURSOR_SDK_BRIDGE_HOST", "127.0.0.1"),
            ("CURSOR_SDK_BRIDGE_PORT", "8793"),
            ("CURSOR_SDK_BRIDGE_TOKEN", "abc"),
            ("CURSOR_SDK_BRIDGE_RUN_TIMEOUT_MS", "120000"),
        ]
    );
    let s = server_env(8787, "crsr_key", Some((8793, "abc")));
    assert_eq!(
        pairs(&s),
        vec![
            ("PORT", "8787"),
            ("CURSOR_API_KEY", "crsr_key"),
            ("CURSOR_SDK_BRIDGE_URL", "http://127.0.0.1:8793/sdk"),
            ("CURSOR_SDK_BRIDGE_TOKEN", "abc"),
        ]
    );
    let s = server_env(8787, "", None);
    assert_eq!(pairs(&s), vec![("PORT", "8787"), ("CURSOR_API_KEY", "")]);
}

fn started(l: Launch) -> LaunchPlan {
    match l {
        Launch::Start(p) => p,
        Launch::Running(_) => panic!("expected a plan"),
    }
}

#[test]
fn tokens_are_fresh_lowercase_hex() {
    let a = started(plan_launch(&ServerState::new(), 8787, Ok(String::new()), &vec![true])).token;
    let b = started(plan_launch(&ServerState::new(), 8787, Ok(String::new()), &vec![true])).token;
    assert_eq!(a.len(), 32);
    assert!(a.chars().all(|c| c.is_ascii_digit() || ('a'..='f').contains(&c)));
    assert_ne!(a, b);
}

#[test]
fn launch_plans() {
    let mut running = ServerState::new();
    running.mark_started(9000);
    match plan_launch(&running, 8787, Ok("k".to_string()), &vec![true]) {
        Launch::Running(st) => assert_eq!(st, ServerStatus { running: true, port: 9000 }),
        Launch::Start(_) => panic!("a running server is not started again"),
    }
    let plan = started(plan_launch(&ServerState::new(), 8787, Ok("crsr_key".to_string()), &vec![false, true]));
    assert_eq!(plan.port, 8787);
    assert_eq!(plan.api_key, "crsr_key");
    assert_eq!(plan.bridge_port, 8793);
    let token = plan.token.clone();
    assert_eq!(
        pairs(&plan.bridge_env),
        vec![
            ("CURSOR_SDK_BRIDGE_HOST", "127.0.0.1"),
            ("CURSOR_SDK_BRIDGE_PORT", "8793"),
            ("CURSOR_SDK_BRIDGE_TOKEN", token.as_str()),
            ("CURSOR_SDK_BRIDGE_RUN_TIMEOUT_MS", "120000"),
        ]
    );
    assert_eq!(
        pairs(&plan.server_env(true)),
        vec![
            ("PORT", "8787"),
            ("CURSOR_API_KEY", "crsr_key"),
            ("CURSOR_SDK_BRIDGE_URL", "http://127.0.0.1:8793/sdk"),
            ("CURSOR_SDK_BRIDGE_TOKEN", token.as_str()),
        ]
    );
    assert_eq!(pairs(&plan.server_env(false)), vec![("PORT", "8787"), ("CURSOR_API_KEY", "crsr_key")]);
    let unread = started(plan_launch(&ServerState::new(), 8787, Err("locked".to_string()), &vec![]));
    assert_eq!(unread.api_key, "");
    assert_eq!(unread.bridge_port, 8792);
}

#[test]
fn log_lines() {
    assert_eq!(log_line("bridge", "ready"), "[bridge] ready");
}

#[test]
fn key_lookup_steps() {
    match after_primary(KeyLookup::Found("k".to_string())) {
        KeyStep::Done(Ok(k)) => assert_eq!(k, "k"),
        _ => panic!("a found key is the answer"),
    }
    match after_primary(KeyLookup::Failed("locked".to_string())) {
        KeyStep::Done(Err(e)) => assert_eq!(e, "locked"),
        _ => panic!("a failure is the answer"),
    }
    assert!(matches!(after_primary(KeyLookup::Missing), KeyStep::TryLegacy));
    assert_eq!(after_legacy(KeyLookup::Found("old".to_string())), (Ok("old".to_string()), true));
    assert_eq!(after_legacy(KeyLookup::Missing), (Ok(String::new()), false));
    assert_eq!(after_legacy(KeyLookup::Failed("e".to_string())), (Err("e".to_string()), false));
}

#[test]
fn key_presence_and_deletion() {
    assert_eq!(key_presence(Ok("crsr".to_string())), Ok(true));
    assert_eq!(key_presence(Ok(String::new())), Ok(false));
    assert_eq!(key_presence(Err("e".to_string())), Err("e".to_string()));
    assert_eq!(deletion_outcome(StoreOutcome::Succeeded), Ok(()));
    assert_eq!(deletion_outcome(StoreOutcome::NoEntry), Ok(()));
    assert_eq!(deletion_outcome(StoreOutcome::Failed("x".to_string())), Err("x".to_string()));
    assert_eq!(normalize_key("  crsr_abc \n"), "crsr_abc");
}

#[test]
fn autostart_values() {
    assert_eq!(RUN_KEY_PATH, r"Software\Microsoft\Windows\CurrentVersion\Run");
    assert_eq!(VALUE_NAME, "APIforCursor");
    assert_eq!(
        current_exe_command(r"C:\Program Files\API for Cursor\app.exe"),
        r#""C:\Program Files\API for Cursor\app.exe" --hidden"#
    );
    assert_eq!(is_autostart_enabled(RegistryOutcome::Done), Ok(true));
    assert_eq!(is_autostart_enabled(RegistryOutcome::NotFound), Ok(false));
    assert_eq!(is_autostart_enabled(RegistryOutcome::Failed("denied".to_string())), Err("denied".to_string()));
    assert_eq!(autostart_removed(RegistryOutcome::NotFound), Ok(()));
    assert_eq!(autostart_removed(RegistryOutcome::Done), Ok(()));
    assert_eq!(autostart_removed(RegistryOutcome::Failed("x".to_string())), Err("x".to_string()));
}

#[test]
fn backups() {
    assert!(needs_backup(&Some("old".to_string()), "new"));
    assert!(!needs_backup(&Some("same".to_string()), "same"));
    assert!(!needs_backup(&None, "new"));
    assert_eq!(
        backup_name(Some("opencode.json".to_string()), 1717000000123),
        "opencode.json.api-for-cursor-backup.1717000000123"
    );
    assert_eq!(backup_name(None, 7), "config.api-for-cursor-backup.7");
    assert!(epoch_ms() > 1_600_000_000_000);
}

#[test]
fn server_events() {
    assert_eq!(
        server_event_action(ServerEvent::Output("listening".to_string())),
        (Some("[server] listening".to_string()), false)
    );
    assert_eq!(
        server_event_action(ServerEvent::Terminated),
        (Some("[server] process terminated".to_string()), true)
    );
    assert_eq!(server_event_action(ServerEvent::Other), (None, false));
}

#[test]
fn finishing_a_launch() {
    let plan = started(plan_launch(&ServerState::new(), 8787, Ok(String::new()), &vec![true]));
    let mut state = ServerState::new();
    let (r, stop) = finish_launch(&mut state, &plan, true, Err("no sidecar".to_string()));
    assert_eq!(r, Err("no sidecar".to_string()));
    assert!(stop);
    assert_eq!(state, ServerState::new());
    let (_, stop) = finish_launch(&mut state, &plan, false, Err("no sidecar".to_string()));
    assert!(!stop);
    let (r, stop) = finish_launch(&mut state, &plan, true, Ok(()));
    assert_eq!(r, Ok(ServerStatus { running: true, port: 8787 }));
    assert!(!stop);
}
