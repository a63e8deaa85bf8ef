use api_for_cursor::codex::{
    codex_config, codex_provider_block, remove_toml_block, CODEX_FAST_PROFILE, CODEX_PROFILE,
};
use api_for_cursor::text::{
    chars_of, contains, decimal_string, join_lines, split_lines, starts_with, string_from_chars,
    to_lowercase, trim, trim_end, trim_start,
};

fn s(v: &[char]) -> String {
    v.iter().collect()
}

#[test]
fn trims_unicode_whitespace() {
    let c = chars_of("\u{3000} \t a b \r\n\u{a0}");
    assert_eq!(s(&trim(&c)), "a b");
    assert_eq!(s(&trim_start(&c)), "a b \r\n\u{a0}");
    assert_eq!(s(&trim_end(&c)), "\u{3000} \t a b");
    assert_eq!(s(&trim(&chars_of("   "))), "");
}

#[test]
fn splits_lines_like_std() {
    for text in ["", "a", "a\n", "a\r\nb", "a\n\nb\n", "a\r", "x\r\r\ny", "\n", "\r\n\r\n"] {
        let got: Vec<String> = split_lines(&chars_of(text)).iter().map(|l| s(l)).collect();
        let want: Vec<String> = text.lines().map(|l| l.to_string()).collect();
        assert_eq!(got, want, "lines of {text:?}");
    }
}

#[test]
fn joins_lines_with_newlines() {
    let ls = vec![chars_of("a"), chars_of(""), chars_of("b")];
    assert_eq!(join_lines(&ls), "a\n\nb");
    assert_eq!(join_lines(&Vec::new()), "");
}

#[test]
fn renders_decimals() {
    assert_eq!(decimal_string(0), "0");
    assert_eq!(decimal_string(8787), "8787");
    assert_eq!(decimal_string(u128::MAX), u128::MAX.to_string());
}

#[test]
fn finds_prefixes_and_infixes() {
    let t = chars_of("[model_providers.cursorapi]\nname");
    assert!(starts_with(&t, &chars_of("[model")));
    assert!(!starts_with(&t, &chars_of("model")));
    assert!(contains(&t, &chars_of("cursorapi]\nna")));
    assert!(!contains(&t, &chars_of("cursorsdk")));
    assert!(contains(&t, &chars_of("")));
}

#[test]
fn lowercases_and_collects() {
    assert_eq!(to_lowercase("[Profiles.CursorAPI]"), "[profiles.cursorapi]");
    assert_eq!(string_from_chars(&['x', 'y']), "xy");
}

#[test]
fn removes_a_table_up_to_the_next_header() {
    let content = "a = 1\n[profiles.cursorapi]\nmodel = \"x\"\n\n[other]\nb = 2";
    assert_eq!(
        remove_toml_block(content, "profiles.cursorapi"),
        "a = 1\n[other]\nb = 2"
    );
}

#[test]
fn removes_a_table_ignoring_case_and_surrounding_space() {
    let content = "  [PROFILES.CursorAPI]  \nx = 1\n  [next]\ny = 2\n";
    assert_eq!(remove_toml_block(content, "profiles.cursorapi"), "  [next]\ny = 2");
}

#[test]
fn removes_every_occurrence_and_to_the_end() {
    let content = "[t]\na\n[t]\nb\n[u]\nc\n[t]\nd\ne";
    assert_eq!(remove_toml_block(content, "t"), "[u]\nc");
}

#[test]
fn keeps_text_without_the_table() {
    let content = "a\r\nb\n\nc\n";
    assert_eq!(remove_toml_block(content, "t"), "a\nb\n\nc");
}

#[test]
fn keeps_a_sub_table_when_only_the_parent_is_removed() {
    let content = "[model_providers.cursorapi]\nname = \"x\"\n[model_providers.cursorapi.auth]\ncommand = \"cmd\"";
    assert_eq!(
        remove_toml_block(content, "model_providers.cursorapi"),
        "[model_providers.cursorapi.auth]\ncommand = \"cmd\""
    );
}

const BLOCK: &str = "[model_providers.cursorapi]\nname = \"API for Cursor\"\nbase_url = \"http://127.0.0.1:8787/v1\"\nwire_api = \"responses\"\n\n[model_providers.cursorapi.auth]\ncommand = \"cmd\"\nargs = [\"/c\", \"echo cursor-local\"]\nrefresh_interval_ms = 300000\n";

#[test]
fn removing_a_table_twice_removes_nothing_more() {
    let content = "a = 1\n[x]\nb = 2\n[y]\nc = 3\n[X]\nd = 4";
    let once = remove_toml_block(content, "x");
    assert_eq!(once, "a = 1\n[y]\nc = 3");
    assert_eq!(remove_toml_block(&once, "x"), once);
}

#[test]
fn codex_block_has_the_documented_shape() {
    assert_eq!(codex_provider_block("http://127.0.0.1:8787/v1"), BLOCK);
}

#[test]
fn codex_config_of_nothing_is_the_block() {
    assert_eq!(codex_config(None, "http://127.0.0.1:8787/v1"), BLOCK);
    assert_eq!(codex_config(Some("  \n\n".to_string()), "http://127.0.0.1:8787/v1"), BLOCK);
}

#[test]
fn codex_config_replaces_managed_tables_and_keeps_the_rest() {
    let existing = "model = \"o3\"\n\n[model_providers.cursorapi]\nname = \"old\"\n\n[model_providers.cursorapi.auth]\ncommand = \"old\"\n\n[profiles.cursorapi]\nmodel = \"old\"\n\n[profiles.cursorapi-fast]\nmodel = \"old\"\n\n[mcp_servers.x]\ncommand = \"y\"\n\n";
    let out = codex_config(Some(existing.to_string()), "http://127.0.0.1:8787/v1");
    assert_eq!(out, format!("model = \"o3\"\n\n[mcp_servers.x]\ncommand = \"y\"\n\n{BLOCK}"));
}

#[test]
fn codex_config_twice_is_codex_config_once() {
    let existing = "model = \"o3\"\r\n[profiles.cursorapi]\nx = 1\n[other]\nk = \"v\"\n";
    let once = codex_config(Some(existing.to_string()), "http://127.0.0.1:9000/v1");
    let twice = codex_config(Some(once.clone()), "http://127.0.0.1:9000/v1");
    assert_eq!(once, twice);
}

#[test]
fn codex_config_twice_differs_when_a_kept_line_ends_in_a_carriage_return() {
    // Each pass reads lines as `str::lines` does, which drops one carriage
    // return before a line feed; five of them outlast the first pass.
    let existing = "a = 1\r\r\r\r\r\nb = 2\n";
    let once = codex_config(Some(existing.to_string()), "http://127.0.0.1:9000/v1");
    assert!(once.starts_with("a = 1\r\nb = 2\n\n"));
    let twice = codex_config(Some(once.clone()), "http://127.0.0.1:9000/v1");
    assert!(twice.starts_with("a = 1\nb = 2\n\n"));
    assert_ne!(once, twice);
}

#[test]
fn codex_config_twice_with_a_url_holding_a_line_feed() {
    let existing = "model = \"o3\"\n";
    let once = codex_config(Some(existing.to_string()), "x\ny");
    let twice = codex_config(Some(once.clone()), "x\ny");
    assert_eq!(once, twice);
    let once = codex_config(Some(existing.to_string()), "x\n[extra]");
    let twice = codex_config(Some(once.clone()), "x\n[extra]");
    assert_ne!(once, twice);
}

#[test]
fn codex_profiles_name_the_models() {
    assert_eq!(CODEX_PROFILE, "model_provider = \"cursorapi\"\nmodel = \"composer-2.5\"\n");
    assert_eq!(
        CODEX_FAST_PROFILE,
        "model_provider = \"cursorapi\"\nmodel = \"composer-2.5-fast\"\n"
    );
}
