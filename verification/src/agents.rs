//! What each coding agent's configuration becomes when it is pointed at the
//! local API, and how its current configuration is recognised. JSON
//! configurations are merged into what is already there; only the entries
//! the API owns are replaced. The local key literal is always written, never
//! the user's real key.

use vstd::prelude::*;
use crate::json::{json_view, items_view, lemma_items_push, lemma_json_view, view_get, Json, JsonObject, JsonView};
use crate::text::{has_prefix, starts_with, chars_of};

verus! {

broadcast use lemma_json_view;

/// The key that agents send to the local API.
pub const LOCAL_API_KEY: &'static str = "cursor-local";

/// The provider name written into agent configurations.
pub const BRAND: &'static str = "API for Cursor";

// ---------------------------------------------------------------------------
// Shared values
// ---------------------------------------------------------------------------

/// An empty object.
pub open spec fn empty_object() -> Map<Seq<char>, JsonView> {
    Map::empty()
}

/// The object map of `j`, or an empty map when `j` is no object.
pub open spec fn object_or_empty(j: JsonView) -> Map<Seq<char>, JsonView> {
    match j {
        JsonView::Object(m) => m,
        _ => empty_object(),
    }
}

/// The parsed document, or `default` when there is none.
pub open spec fn document_or(existing: Option<JsonView>, default: JsonView) -> JsonView {
    match existing {
        Some(d) => d,
        None => default,
    }
}

/// `m[key]`, or an empty object when `key` is absent.
pub open spec fn member_or_empty(m: Map<Seq<char>, JsonView>, key: Seq<char>) -> JsonView {
    if m.contains_key(key) {
        m[key]
    } else {
        JsonView::Object(empty_object())
    }
}

/// One model of the `cost`/`limit` shape.
pub open spec fn cost_limit_model_view(name: Seq<char>, input: Seq<char>, output: Seq<char>) -> JsonView {
    JsonView::Object(
        empty_object().insert("name"@, JsonView::Str(name)).insert(
            "cost"@,
            JsonView::Object(
                empty_object().insert("input"@, JsonView::Number(input)).insert(
                    "output"@,
                    JsonView::Number(output),
                ),
            ),
        ).insert(
            "limit"@,
            JsonView::Object(
                empty_object().insert("context"@, JsonView::Number("200000"@)).insert(
                    "output"@,
                    JsonView::Number("65536"@),
                ),
            ),
        ),
    )
}

/// The model block that opencode and kilo share.
pub open spec fn cost_limit_models_view() -> JsonView {
    JsonView::Object(
        empty_object().insert(
            "composer-2.5"@,
            cost_limit_model_view("Composer 2.5"@, "0.5"@, "2.5"@),
        ).insert("composer-2.5-fast"@, cost_limit_model_view("Composer 2.5 Fast"@, "3.0"@, "15.0"@)),
    )
}

/// The `options` object that points a provider at the local API.
pub open spec fn options_view(old: JsonView, base_url: Seq<char>) -> JsonView {
    JsonView::Object(
        object_or_empty(old).insert("baseURL"@, JsonView::Str(base_url)).insert(
            "apiKey"@,
            JsonView::Str(LOCAL_API_KEY@),
        ),
    )
}

fn cost_limit_model(name: &str, input: &str, output: &str) -> (j: Json)
    ensures
        j@ == cost_limit_model_view(name@, input@, output@),
{
    let mut cost = JsonObject::new();
    cost.insert("input".to_string(), Json::number(input));
    cost.insert("output".to_string(), Json::number(output));
    let mut limit = JsonObject::new();
    limit.insert("context".to_string(), Json::number("200000"));
    limit.insert("output".to_string(), Json::number("65536"));
    let mut m = JsonObject::new();
    m.insert("name".to_string(), Json::string(name));
    m.insert("cost".to_string(), Json::Object(cost));
    m.insert("limit".to_string(), Json::Object(limit));
    Json::Object(m)
}

/// The model block used by opencode and kilo (`cost`/`limit` shape).
pub fn cost_limit_models() -> (j: Json)
    ensures
        j@ == cost_limit_models_view(),
{
    let mut m = JsonObject::new();
    m.insert("composer-2.5".to_string(), cost_limit_model("Composer 2.5", "0.5", "2.5"));
    m.insert(
        "composer-2.5-fast".to_string(),
        cost_limit_model("Composer 2.5 Fast", "3.0", "15.0"),
    );
    Json::Object(m)
}

fn options(old: Json, base_url: &str) -> (j: Json)
    ensures
        j@ == options_view(old@, base_url@),
{
    let mut m = as_object(old);
    m.insert("baseURL".to_string(), Json::string(base_url));
    m.insert("apiKey".to_string(), Json::string(LOCAL_API_KEY));
    Json::Object(m)
}

/// The object inside `value`, or an empty one when `value` is no object.
pub fn as_object(value: Json) -> (o: JsonObject)
    ensures
        o@ == object_or_empty(value@),
{
    match value {
        Json::Object(o) => o,
        _ => JsonObject::new(),
    }
}

/// The parsed document, or `default` when the file was missing or did not
/// parse.
pub fn read_json_or(parsed: Option<Json>, default: Json) -> (j: Json)
    ensures
        j@ == document_or(
            match parsed {
                Some(p) => Some(p@),
                None => None,
            },
            default@,
        ),
{
    match parsed {
        Some(p) => p,
        None => default,
    }
}

/// A copy of `m[key]`, or an empty object when `key` is absent.
fn member_copy_or_empty(m: &JsonObject, key: &str) -> (j: Json)
    ensures
        j@ == member_or_empty(m@, key@),
{
    match m.get(key) {
        Some(v) => v.duplicate(),
        None => Json::Object(JsonObject::new()),
    }
}

/// The meaning of an optional parsed document.
pub open spec fn opt_view(d: Option<Json>) -> Option<JsonView> {
    match d {
        Some(j) => Some(j@),
        None => None,
    }
}

// ---------------------------------------------------------------------------
// opencode
// ---------------------------------------------------------------------------

/// The provider entry that opencode gets, merged into the one it had (`old`,
/// an empty object when it had none): `npm`, `name` and `models` are set, the
/// URL and key are set among the `options`, and every other setting stays.
pub open spec fn opencode_provider_view(old: JsonView, base_url: Seq<char>) -> JsonView {
    let o = object_or_empty(old);
    JsonView::Object(
        o.insert("npm"@, JsonView::Str("@ai-sdk/openai-compatible"@)).insert(
            "name"@,
            JsonView::Str(BRAND@),
        ).insert("options"@, options_view(member_or_empty(o, "options"@), base_url)).insert(
            "models"@,
            cost_limit_models_view(),
        ),
    )
}

/// Whether opencode's `model` setting must be replaced: it is missing, is no
/// string, or names one of the retired providers `cursor/` or `cursorsdk/`.
pub open spec fn opencode_needs_model(root: Map<Seq<char>, JsonView>) -> bool {
    match view_get(JsonView::Object(root), "model"@) {
        Some(JsonView::Str(m)) => has_prefix(m, "cursor/"@) || has_prefix(m, "cursorsdk/"@),
        _ => true,
    }
}

/// The opencode configuration after pointing it at the local API: the
/// retired `cursor` and `cursorsdk` providers are dropped, `cursorapi` is
/// set, and the default model is set when it must be.
pub open spec fn opencode_config_view(existing: Option<JsonView>, base_url: Seq<char>) -> JsonView {
    let root = object_or_empty(document_or(existing, JsonView::Object(empty_object())));
    let kept = object_or_empty(member_or_empty(root, "provider"@)).remove("cursor"@).remove(
        "cursorsdk"@,
    );
    let provider = kept.insert(
        "cursorapi"@,
        opencode_provider_view(member_or_empty(kept, "cursorapi"@), base_url),
    );
    let root = root.insert("provider"@, JsonView::Object(provider));
    if opencode_needs_model(root) {
        JsonView::Object(root.insert("model"@, JsonView::Str("cursorapi/composer-2.5-fast"@)))
    } else {
        JsonView::Object(root)
    }
}

/// Whether a document (a missing one counts as `{}`) has
/// `provider.cursorapi`.
pub open spec fn has_cursorapi_under(existing: Option<JsonView>, section: Seq<char>) -> bool {
    let root = document_or(existing, JsonView::Object(empty_object()));
    match view_get(root, section) {
        Some(p) => view_get(p, "cursorapi"@) is Some,
        None => false,
    }
}

/// Whether `s` is a string that starts with `p`.
fn str_starts_with(s: &String, p: &str) -> (b: bool)
    ensures
        b == has_prefix(s@, p@),
{
    let sc = chars_of(s.as_str());
    let pc = chars_of(p);
    starts_with(sc.as_slice(), pc.as_slice())
}

/// Points opencode at the local API (see [`opencode_config_view`]).
pub fn opencode_config(existing: Option<Json>, base_url: &str) -> (j: Json)
    ensures
        j@ == opencode_config_view(opt_view(existing), base_url@),
{
    let mut root = as_object(read_json_or(existing, Json::Object(JsonObject::new())));
    let mut provider = as_object(member_copy_or_empty(&root, "provider"));
    provider.remove("cursor");
    provider.remove("cursorsdk");
    let mut entry = as_object(member_copy_or_empty(&provider, "cursorapi"));
    let opts = options(member_copy_or_empty(&entry, "options"), base_url);
    entry.insert("npm".to_string(), Json::string("@ai-sdk/openai-compatible"));
    entry.insert("name".to_string(), Json::string(BRAND));
    entry.insert("options".to_string(), opts);
    entry.insert("models".to_string(), cost_limit_models());
    provider.insert("cursorapi".to_string(), Json::Object(entry));
    root.insert("provider".to_string(), Json::Object(provider));
    let needs_model = match root.get("model") {
        Some(m) => match m.as_str() {
            Some(name) => str_starts_with(name, "cursor/") || str_starts_with(name, "cursorsdk/"),
            None => true,
        },
        None => true,
    };
    if needs_model {
        root.insert("model".to_string(), Json::string("cursorapi/composer-2.5-fast"));
    }
    Json::Object(root)
}

/// Whether a parsed document has the key `section` holding an object with
/// `cursorapi` (a missing document counts as `{}`).
pub fn has_cursorapi(existing: &Option<Json>, section: &str) -> (b: bool)
    ensures
        b == has_cursorapi_under(opt_view(*existing), section@),
{
    match existing {
        Some(root) => match root.get(section) {
            Some(p) => p.get("cursorapi").is_some(),
            None => false,
        },
        None => false,
    }
}

/// Pointing opencode at the local API a second time changes nothing.
pub proof fn law_opencode_idempotent(existing: Option<JsonView>, base_url: Seq<char>)
    ensures
        opencode_config_view(Some(opencode_config_view(existing, base_url)), base_url)
            == opencode_config_view(existing, base_url),
{
    reveal_strlit("provider");
    reveal_strlit("model");
    reveal_strlit("cursor");
    reveal_strlit("cursorsdk");
    reveal_strlit("cursorapi");
    reveal_strlit("cursor/");
    reveal_strlit("cursorsdk/");
    reveal_strlit("cursorapi/composer-2.5-fast");
    lemma_opencode_keys_distinct();
    let root = object_or_empty(document_or(existing, JsonView::Object(empty_object())));
    let kept = object_or_empty(member_or_empty(root, "provider"@)).remove("cursor"@).remove(
        "cursorsdk"@,
    );
    let e1 = opencode_provider_view(member_or_empty(kept, "cursorapi"@), base_url);
    let p1 = kept.insert("cursorapi"@, e1);
    let r1 = root.insert("provider"@, JsonView::Object(p1));
    let m1 = object_or_empty(opencode_config_view(existing, base_url));
    assert(m1["provider"@] == JsonView::Object(p1));
    let kept2 = p1.remove("cursor"@).remove("cursorsdk"@);
    assert(kept2 =~= p1);
    lemma_opencode_entry_idem(member_or_empty(kept, "cursorapi"@), base_url);
    let p2 = kept2.insert("cursorapi"@, opencode_provider_view(member_or_empty(kept2, "cursorapi"@), base_url));
    assert(p2 =~= p1);
    assert(m1.insert("provider"@, JsonView::Object(p2)) =~= m1);
    let fixed = "cursorapi/composer-2.5-fast"@;
    assert(fixed.take(7)[6] == 'a');
    assert(fixed.take(10)[6] == 'a');
    assert(!has_prefix(fixed, "cursor/"@));
    assert(!has_prefix(fixed, "cursorsdk/"@));
    if opencode_needs_model(r1) {
        assert(m1["model"@] == JsonView::Str(fixed));
        assert(!opencode_needs_model(m1));
    } else {
        assert(m1 == r1);
        assert(view_get(JsonView::Object(m1), "model"@) == view_get(JsonView::Object(r1), "model"@));
    }
}

/// After opencode is pointed at the local API it reports as configured.
pub proof fn law_opencode_configured(existing: Option<JsonView>, base_url: Seq<char>)
    ensures
        has_cursorapi_under(Some(opencode_config_view(existing, base_url)), "provider"@),
{
    lemma_opencode_keys_distinct();
}

proof fn lemma_entry_keys_distinct()
    ensures
        "options"@ != "models"@,
        "options"@ != "npm"@,
        "options"@ != "name"@,
{
    reveal_strlit("options");
    reveal_strlit("models");
    reveal_strlit("npm");
    reveal_strlit("name");
    assert("options"@.len() != "models"@.len());
    assert("options"@.len() != "npm"@.len());
    assert("options"@.len() != "name"@.len());
}

/// Setting the URL and key among options that already hold them changes
/// nothing.
proof fn lemma_options_idem(old: JsonView, base_url: Seq<char>)
    ensures
        options_view(options_view(old, base_url), base_url) == options_view(old, base_url),
{
    let o1 = object_or_empty(options_view(old, base_url));
    assert(o1.insert("baseURL"@, JsonView::Str(base_url)).insert("apiKey"@, JsonView::Str(LOCAL_API_KEY@)) =~= o1);
}

/// Merging opencode's provider entry into one already merged changes nothing.
proof fn lemma_opencode_entry_idem(old: JsonView, base_url: Seq<char>)
    ensures
        opencode_provider_view(opencode_provider_view(old, base_url), base_url)
            == opencode_provider_view(old, base_url),
{
    lemma_entry_keys_distinct();
    let o = object_or_empty(old);
    let opts = options_view(member_or_empty(o, "options"@), base_url);
    lemma_options_idem(member_or_empty(o, "options"@), base_url);
    let o1 = object_or_empty(opencode_provider_view(old, base_url));
    assert(member_or_empty(o1, "options"@) == opts);
    assert(o1.insert("npm"@, JsonView::Str("@ai-sdk/openai-compatible"@)).insert(
        "name"@,
        JsonView::Str(BRAND@),
    ).insert("options"@, options_view(opts, base_url)).insert("models"@, cost_limit_models_view())
        =~= o1);
}

/// Merging kilo's provider entry into one already merged changes nothing.
proof fn lemma_kilo_entry_idem(old: JsonView, base_url: Seq<char>)
    ensures
        kilo_provider_view(kilo_provider_view(old, base_url), base_url) == kilo_provider_view(
            old,
            base_url,
        ),
{
    lemma_entry_keys_distinct();
    let o = object_or_empty(old);
    let opts = options_view(member_or_empty(o, "options"@), base_url);
    lemma_options_idem(member_or_empty(o, "options"@), base_url);
    let o1 = object_or_empty(kilo_provider_view(old, base_url));
    assert(member_or_empty(o1, "options"@) == opts);
    assert(o1.insert("options"@, options_view(opts, base_url)).insert(
        "models"@,
        cost_limit_models_view(),
    ) =~= o1);
}

proof fn lemma_opencode_keys_distinct()
    ensures
        "provider"@ != "model"@,
        "cursorapi"@ != "cursor"@,
        "cursorapi"@ != "cursorsdk"@,
{
    reveal_strlit("provider");
    reveal_strlit("model");
    reveal_strlit("cursor");
    reveal_strlit("cursorsdk");
    reveal_strlit("cursorapi");
    assert("provider"@.len() != "model"@.len());
    assert("cursorapi"@.len() != "cursor"@.len());
    assert("cursorapi"@[6] != "cursorsdk"@[6]);
}

/// Pointing opencode at the local API keeps every top-level setting other
/// than `provider` and `model` as it was.
pub proof fn law_opencode_keeps_other_settings(
    existing: Map<Seq<char>, JsonView>,
    base_url: Seq<char>,
    key: Seq<char>,
)
    requires
        key != "provider"@,
        key != "model"@,
    ensures
        object_or_empty(opencode_config_view(Some(JsonView::Object(existing)), base_url)).contains_key(
            key,
        ) == existing.contains_key(key),
        existing.contains_key(key) ==> object_or_empty(
            opencode_config_view(Some(JsonView::Object(existing)), base_url),
        )[key] == existing[key],
{
}


// ---------------------------------------------------------------------------
// kilo
// ---------------------------------------------------------------------------

/// The document kilo starts from when it has none.
pub open spec fn kilo_default_view() -> JsonView {
    JsonView::Object(
        empty_object().insert("$schema"@, JsonView::Str("https://app.kilo.ai/config.json"@)),
    )
}

/// The provider entry that kilo gets, merged into the one it had (`old`, an
/// empty object when it had none): `models` is set, the URL and key are set
/// among the `options`, and every other setting stays.
pub open spec fn kilo_provider_view(old: JsonView, base_url: Seq<char>) -> JsonView {
    let o = object_or_empty(old);
    JsonView::Object(
        o.insert("options"@, options_view(member_or_empty(o, "options"@), base_url)).insert(
            "models"@,
            cost_limit_models_view(),
        ),
    )
}

/// The kilo configuration after pointing it at the local API: `cursorapi`
/// is set among the providers, and the default model is set when there is
/// none.
pub open spec fn kilo_config_view(existing: Option<JsonView>, base_url: Seq<char>) -> JsonView {
    let root = object_or_empty(document_or(existing, kilo_default_view()));
    let kept = object_or_empty(member_or_empty(root, "provider"@));
    let provider = kept.insert(
        "cursorapi"@,
        kilo_provider_view(member_or_empty(kept, "cursorapi"@), base_url),
    );
    let root = root.insert("provider"@, JsonView::Object(provider));
    if root.contains_key("model"@) {
        JsonView::Object(root)
    } else {
        JsonView::Object(root.insert("model"@, JsonView::Str("cursorapi/composer-2.5"@)))
    }
}

/// The document kilo starts from when it has none.
pub fn kilo_default() -> (j: Json)
    ensures
        j@ == kilo_default_view(),
{
    let mut m = JsonObject::new();
    m.insert("$schema".to_string(), Json::string("https://app.kilo.ai/config.json"));
    Json::Object(m)
}

/// Points kilo at the local API (see [`kilo_config_view`]).
pub fn kilo_config(existing: Option<Json>, base_url: &str) -> (j: Json)
    ensures
        j@ == kilo_config_view(opt_view(existing), base_url@),
{
    let mut root = as_object(read_json_or(existing, kilo_default()));
    let mut provider = as_object(member_copy_or_empty(&root, "provider"));
    let mut entry = as_object(member_copy_or_empty(&provider, "cursorapi"));
    let opts = options(member_copy_or_empty(&entry, "options"), base_url);
    entry.insert("options".to_string(), opts);
    entry.insert("models".to_string(), cost_limit_models());
    provider.insert("cursorapi".to_string(), Json::Object(entry));
    root.insert("provider".to_string(), Json::Object(provider));
    if !root.contains_key("model") {
        root.insert("model".to_string(), Json::string("cursorapi/composer-2.5"));
    }
    Json::Object(root)
}

proof fn lemma_kilo_keys_distinct()
    ensures
        "provider"@ != "model"@,
{
    reveal_strlit("provider");
    reveal_strlit("model");
    assert("provider"@.len() != "model"@.len());
}

/// Pointing kilo at the local API a second time changes nothing.
pub proof fn law_kilo_idempotent(existing: Option<JsonView>, base_url: Seq<char>)
    ensures
        kilo_config_view(Some(kilo_config_view(existing, base_url)), base_url) == kilo_config_view(
            existing,
            base_url,
        ),
{
    lemma_kilo_keys_distinct();
    let m1 = object_or_empty(kilo_config_view(existing, base_url));
    let p1 = object_or_empty(m1["provider"@]);
    let root = object_or_empty(document_or(existing, kilo_default_view()));
    let kept = object_or_empty(member_or_empty(root, "provider"@));
    lemma_kilo_entry_idem(member_or_empty(kept, "cursorapi"@), base_url);
    assert(p1.insert("cursorapi"@, kilo_provider_view(member_or_empty(p1, "cursorapi"@), base_url)) =~= p1);
    assert(m1.insert("provider"@, JsonView::Object(p1)) =~= m1);
}

/// After kilo is pointed at the local API it reports as configured.
pub proof fn law_kilo_configured(existing: Option<JsonView>, base_url: Seq<char>)
    ensures
        has_cursorapi_under(Some(kilo_config_view(existing, base_url)), "provider"@),
{
    lemma_kilo_keys_distinct();
}

/// Pointing kilo at the local API keeps every top-level setting other than
/// `provider` and `model` as it was, and keeps a `model` that is set.
pub proof fn law_kilo_keeps_other_settings(
    existing: Map<Seq<char>, JsonView>,
    base_url: Seq<char>,
    key: Seq<char>,
)
    requires
        key != "provider"@,
    ensures
        object_or_empty(kilo_config_view(Some(JsonView::Object(existing)), base_url)).contains_key(
            key,
        ) == (existing.contains_key(key) || key == "model"@),
        existing.contains_key(key) ==> object_or_empty(
            kilo_config_view(Some(JsonView::Object(existing)), base_url),
        )[key] == existing[key],
{
    lemma_kilo_keys_distinct();
}

// ---------------------------------------------------------------------------
// pi
// ---------------------------------------------------------------------------

/// One model of pi's shape.
pub open spec fn pi_model_view(id: Seq<char>, name: Seq<char>, input: Seq<char>, output: Seq<char>) -> JsonView {
    JsonView::Object(
        empty_object().insert("name"@, JsonView::Str(name)).insert(
            "cost"@,
            JsonView::Object(
                empty_object().insert("input"@, JsonView::Number(input)).insert(
                    "output"@,
                    JsonView::Number(output),
                ).insert("cacheRead"@, JsonView::Number("0"@)).insert(
                    "cacheWrite"@,
                    JsonView::Number("0"@),
                ),
            ),
        ).insert(
            "limit"@,
            JsonView::Object(
                empty_object().insert("context"@, JsonView::Number("200000"@)).insert(
                    "output"@,
                    JsonView::Number("65536"@),
                ),
            ),
        ).insert("id"@, JsonView::Str(id)).insert("api"@, JsonView::Str("openai-completions"@)).insert(
            "reasoning"@,
            JsonView::Bool(false),
        ).insert("input"@, JsonView::Array(seq![JsonView::Str("text"@)])).insert(
            "contextWindow"@,
            JsonView::Number("200000"@),
        ).insert("maxTokens"@, JsonView::Number("65536"@)).insert(
            "compat"@,
            JsonView::Object(
                empty_object().insert("supportsUsageInStreaming"@, JsonView::Bool(true)).insert(
                    "maxTokensField"@,
                    JsonView::Str("max_tokens"@),
                ).insert("requiresAssistantAfterToolResult"@, JsonView::Bool(false)),
            ),
        ),
    )
}

/// The provider entry that pi gets.
pub open spec fn pi_provider_view(old: JsonView, base_url: Seq<char>) -> JsonView {
    JsonView::Object(
        object_or_empty(old).insert("baseUrl"@, JsonView::Str(base_url)).insert(
            "apiKey"@,
            JsonView::Str(LOCAL_API_KEY@),
        ).insert("authHeader"@, JsonView::Bool(true)).insert(
            "api"@,
            JsonView::Str("openai-completions"@),
        ).insert(
            "models"@,
            JsonView::Array(
                seq![
                    pi_model_view("composer-2.5"@, "Composer 2.5"@, "0.5"@, "2.5"@),
                    pi_model_view("composer-2.5-fast"@, "Composer 2.5 Fast"@, "3.0"@, "15.0"@),
                ],
            ),
        ),
    )
}

/// The document pi starts from when it has none.
pub open spec fn pi_default_view() -> JsonView {
    JsonView::Object(empty_object().insert("providers"@, JsonView::Object(empty_object())))
}

/// The pi configuration after pointing it at the local API: `cursorapi` is
/// set among the providers.
pub open spec fn pi_config_view(existing: Option<JsonView>, base_url: Seq<char>) -> JsonView {
    let root = object_or_empty(document_or(existing, pi_default_view()));
    let kept = object_or_empty(member_or_empty(root, "providers"@));
    let providers = kept.insert(
        "cursorapi"@,
        pi_provider_view(member_or_empty(kept, "cursorapi"@), base_url),
    );
    JsonView::Object(root.insert("providers"@, JsonView::Object(providers)))
}

/// One model of pi's shape; prices are given by the text of their literals.
pub fn pi_model(id: &str, name: &str, input: &str, output: &str) -> (j: Json)
    ensures
        j@ == pi_model_view(id@, name@, input@, output@),
{
    let mut cost = JsonObject::new();
    cost.insert("input".to_string(), Json::number(input));
    cost.insert("output".to_string(), Json::number(output));
    cost.insert("cacheRead".to_string(), Json::number("0"));
    cost.insert("cacheWrite".to_string(), Json::number("0"));
    let mut limit = JsonObject::new();
    limit.insert("context".to_string(), Json::number("200000"));
    limit.insert("output".to_string(), Json::number("65536"));
    let mut input_kinds: Vec<Json> = Vec::new();
    let text = Json::string("text");
    proof {
        lemma_items_push(input_kinds@, text);
    }
    input_kinds.push(text);
    assert(items_view(input_kinds@) =~= seq![JsonView::Str("text"@)]);
    let mut compat = JsonObject::new();
    compat.insert("supportsUsageInStreaming".to_string(), Json::Bool(true));
    compat.insert("maxTokensField".to_string(), Json::string("max_tokens"));
    compat.insert("requiresAssistantAfterToolResult".to_string(), Json::Bool(false));
    let mut m = JsonObject::new();
    m.insert("name".to_string(), Json::string(name));
    m.insert("cost".to_string(), Json::Object(cost));
    m.insert("limit".to_string(), Json::Object(limit));
    m.insert("id".to_string(), Json::string(id));
    m.insert("api".to_string(), Json::string("openai-completions"));
    m.insert("reasoning".to_string(), Json::Bool(false));
    m.insert("input".to_string(), Json::Array(input_kinds));
    m.insert("contextWindow".to_string(), Json::number("200000"));
    m.insert("maxTokens".to_string(), Json::number("65536"));
    m.insert("compat".to_string(), Json::Object(compat));
    Json::Object(m)
}

/// The document pi starts from when it has none.
pub fn pi_default() -> (j: Json)
    ensures
        j@ == pi_default_view(),
{
    let mut m = JsonObject::new();
    m.insert("providers".to_string(), Json::Object(JsonObject::new()));
    Json::Object(m)
}

/// Points pi at the local API (see [`pi_config_view`]).
pub fn pi_config(existing: Option<Json>, base_url: &str) -> (j: Json)
    ensures
        j@ == pi_config_view(opt_view(existing), base_url@),
{
    let mut root = as_object(read_json_or(existing, pi_default()));
    let mut providers = as_object(member_copy_or_empty(&root, "providers"));
    let mut models: Vec<Json> = Vec::new();
    let first = pi_model("composer-2.5", "Composer 2.5", "0.5", "2.5");
    let second = pi_model("composer-2.5-fast", "Composer 2.5 Fast", "3.0", "15.0");
    proof {
        lemma_items_push(models@, first);
        lemma_items_push(models@.push(first), second);
    }
    models.push(first);
    models.push(second);
    let mut entry = as_object(member_copy_or_empty(&providers, "cursorapi"));
    entry.insert("baseUrl".to_string(), Json::string(base_url));
    entry.insert("apiKey".to_string(), Json::string(LOCAL_API_KEY));
    entry.insert("authHeader".to_string(), Json::Bool(true));
    entry.insert("api".to_string(), Json::string("openai-completions"));
    entry.insert("models".to_string(), Json::Array(models));
    assert(items_view(models@) =~= seq![
        pi_model_view("composer-2.5"@, "Composer 2.5"@, "0.5"@, "2.5"@),
        pi_model_view("composer-2.5-fast"@, "Composer 2.5 Fast"@, "3.0"@, "15.0"@),
    ]);
    providers.insert("cursorapi".to_string(), Json::Object(entry));
    root.insert("providers".to_string(), Json::Object(providers));
    Json::Object(root)
}

/// Pointing pi at the local API a second time changes nothing.
pub proof fn law_pi_idempotent(existing: Option<JsonView>, base_url: Seq<char>)
    ensures
        pi_config_view(Some(pi_config_view(existing, base_url)), base_url) == pi_config_view(
            existing,
            base_url,
        ),
{
    let m1 = object_or_empty(pi_config_view(existing, base_url));
    let p1 = object_or_empty(m1["providers"@]);
    let e1 = object_or_empty(p1["cursorapi"@]);
    assert(object_or_empty(pi_provider_view(p1["cursorapi"@], base_url)) =~= e1);
    assert(p1.insert("cursorapi"@, pi_provider_view(member_or_empty(p1, "cursorapi"@), base_url)) =~= p1);
    assert(m1.insert("providers"@, JsonView::Object(p1)) =~= m1);
}

/// After pi is pointed at the local API it reports as configured.
pub proof fn law_pi_configured(existing: Option<JsonView>, base_url: Seq<char>)
    ensures
        has_cursorapi_under(Some(pi_config_view(existing, base_url)), "providers"@),
{
}

/// Pointing pi at the local API keeps every top-level setting other than
/// `providers` as it was.
pub proof fn law_pi_keeps_other_settings(
    existing: Map<Seq<char>, JsonView>,
    base_url: Seq<char>,
    key: Seq<char>,
)
    requires
        key != "providers"@,
    ensures
        object_or_empty(pi_config_view(Some(JsonView::Object(existing)), base_url)).contains_key(
            key,
        ) == existing.contains_key(key),
        existing.contains_key(key) ==> object_or_empty(
            pi_config_view(Some(JsonView::Object(existing)), base_url),
        )[key] == existing[key],
{
}

/// The `cursorapi` entries are merged, not replaced: every setting of an
/// entry other than those the API manages stays as it was, and so does
/// every option other than the URL and the key.
pub proof fn law_provider_entries_merge(
    old: Map<Seq<char>, JsonView>,
    old_options: Map<Seq<char>, JsonView>,
    base_url: Seq<char>,
    key: Seq<char>,
)
    ensures
        key != "npm"@ && key != "name"@ && key != "options"@ && key != "models"@ ==> {
            let e = object_or_empty(opencode_provider_view(JsonView::Object(old), base_url));
            &&& e.contains_key(key) == old.contains_key(key)
            &&& old.contains_key(key) ==> e[key] == old[key]
        },
        key != "options"@ && key != "models"@ ==> {
            let e = object_or_empty(kilo_provider_view(JsonView::Object(old), base_url));
            &&& e.contains_key(key) == old.contains_key(key)
            &&& old.contains_key(key) ==> e[key] == old[key]
        },
        key != "baseUrl"@ && key != "apiKey"@ && key != "authHeader"@ && key != "api"@ && key
            != "models"@ ==> {
            let e = object_or_empty(pi_provider_view(JsonView::Object(old), base_url));
            &&& e.contains_key(key) == old.contains_key(key)
            &&& old.contains_key(key) ==> e[key] == old[key]
        },
        key != "baseURL"@ && key != "apiKey"@ ==> {
            let o = object_or_empty(options_view(JsonView::Object(old_options), base_url));
            &&& o.contains_key(key) == old_options.contains_key(key)
            &&& old_options.contains_key(key) ==> o[key] == old_options[key]
        },
{
}

// ---------------------------------------------------------------------------
// What the configurations are for
// ---------------------------------------------------------------------------

proof fn lemma_price_keys_distinct()
    ensures
        "input"@ != "output"@,
        "input"@ != "cacheRead"@,
        "input"@ != "cacheWrite"@,
        "output"@ != "cacheRead"@,
        "output"@ != "cacheWrite"@,
        "cost"@ != "limit"@,
        "cost"@ != "id"@,
        "cost"@ != "api"@,
        "cost"@ != "reasoning"@,
        "cost"@ != "input"@,
        "cost"@ != "contextWindow"@,
        "cost"@ != "maxTokens"@,
        "cost"@ != "compat"@,
        "cost"@ != "name"@,
        "name"@ != "limit"@,
        "name"@ != "id"@,
        "name"@ != "api"@,
        "name"@ != "reasoning"@,
        "name"@ != "input"@,
        "name"@ != "contextWindow"@,
        "name"@ != "maxTokens"@,
        "name"@ != "compat"@,
        "id"@ != "api"@,
        "id"@ != "reasoning"@,
        "id"@ != "input"@,
        "id"@ != "contextWindow"@,
        "id"@ != "maxTokens"@,
        "id"@ != "compat"@,
        "composer-2.5"@ != "composer-2.5-fast"@,
{
    reveal_strlit("input");
    reveal_strlit("output");
    reveal_strlit("cacheRead");
    reveal_strlit("cacheWrite");
    reveal_strlit("cost");
    reveal_strlit("limit");
    reveal_strlit("id");
    reveal_strlit("api");
    reveal_strlit("reasoning");
    reveal_strlit("contextWindow");
    reveal_strlit("maxTokens");
    reveal_strlit("compat");
    reveal_strlit("name");
    reveal_strlit("composer-2.5");
    reveal_strlit("composer-2.5-fast");
    assert("input"@.len() != "output"@.len());
    assert("input"@.len() != "cacheRead"@.len());
    assert("input"@.len() != "cacheWrite"@.len());
    assert("output"@.len() != "cacheRead"@.len());
    assert("output"@.len() != "cacheWrite"@.len());
    assert("cost"@.len() != "limit"@.len());
    assert("cost"@.len() != "id"@.len());
    assert("cost"@.len() != "api"@.len());
    assert("cost"@.len() != "reasoning"@.len());
    assert("cost"@.len() != "input"@.len());
    assert("cost"@.len() != "contextWindow"@.len());
    assert("cost"@.len() != "maxTokens"@.len());
    assert("cost"@.len() != "compat"@.len());
    assert("cost"@[0] != "name"@[0]);
    assert("name"@.len() != "limit"@.len());
    assert("name"@.len() != "id"@.len());
    assert("name"@.len() != "api"@.len());
    assert("name"@.len() != "reasoning"@.len());
    assert("name"@.len() != "input"@.len());
    assert("name"@.len() != "contextWindow"@.len());
    assert("name"@.len() != "maxTokens"@.len());
    assert("name"@.len() != "compat"@.len());
    assert("id"@.len() != "api"@.len());
    assert("id"@.len() != "reasoning"@.len());
    assert("id"@.len() != "input"@.len());
    assert("id"@.len() != "contextWindow"@.len());
    assert("id"@.len() != "maxTokens"@.len());
    assert("id"@.len() != "compat"@.len());
    assert("composer-2.5"@.len() != "composer-2.5-fast"@.len());
}

/// A pi model carries the name and id it was given, and prices its input
/// and output tokens at the input and output prices it was given.
pub proof fn law_pi_model_prices(id: Seq<char>, name: Seq<char>, input: Seq<char>, output: Seq<char>)
    ensures
        view_get(pi_model_view(id, name, input, output), "id"@) == Some(JsonView::Str(id)),
        view_get(pi_model_view(id, name, input, output), "name"@) == Some(JsonView::Str(name)),
        view_get(pi_model_view(id, name, input, output), "cost"@) matches Some(c) && view_get(
            c,
            "input"@,
        ) == Some(JsonView::Number(input)) && view_get(c, "output"@) == Some(
            JsonView::Number(output),
        ),
{
    lemma_price_keys_distinct();
}

/// A model of the `cost`/`limit` shape carries the name it was given and
/// prices input and output tokens at the prices it was given.
pub proof fn law_cost_limit_model_prices(name: Seq<char>, input: Seq<char>, output: Seq<char>)
    ensures
        view_get(cost_limit_model_view(name, input, output), "name"@) == Some(JsonView::Str(name)),
        view_get(cost_limit_model_view(name, input, output), "cost"@) matches Some(c) && view_get(
            c,
            "input"@,
        ) == Some(JsonView::Number(input)) && view_get(c, "output"@) == Some(
            JsonView::Number(output),
        ),
{
    lemma_price_keys_distinct();
}

/// The prices of a model of the `cost`/`limit` shape, or of pi's shape.
pub open spec fn prices(model: JsonView) -> Option<(JsonView, JsonView)> {
    match view_get(model, "cost"@) {
        Some(c) => match (view_get(c, "input"@), view_get(c, "output"@)) {
            (Some(i), Some(o)) => Some((i, o)),
            _ => None,
        },
        None => None,
    }
}

/// Whatever pi's file held, its `cursorapi` provider lists `composer-2.5`
/// (input 0.5, output 2.5) and then `composer-2.5-fast` (input 3.0, output
/// 15.0); opencode's and kilo's list the same two models at the same prices.
pub proof fn law_model_prices(existing: Option<JsonView>, base_url: Seq<char>)
    ensures
        view_get(
            object_or_empty(pi_config_view(existing, base_url))["providers"@],
            "cursorapi"@,
        ) matches Some(e) && view_get(e, "models"@) matches Some(JsonView::Array(ms)) && ms.len()
            == 2 && view_get(ms[0], "id"@) == Some(JsonView::Str("composer-2.5"@)) && prices(ms[0])
            == Some((JsonView::Number("0.5"@), JsonView::Number("2.5"@))) && view_get(ms[1], "id"@)
            == Some(JsonView::Str("composer-2.5-fast"@)) && prices(ms[1]) == Some(
            (JsonView::Number("3.0"@), JsonView::Number("15.0"@)),
        ),
        view_get(cost_limit_models_view(), "composer-2.5"@) matches Some(m) && prices(m) == Some(
            (JsonView::Number("0.5"@), JsonView::Number("2.5"@)),
        ),
        view_get(cost_limit_models_view(), "composer-2.5-fast"@) matches Some(m) && prices(m)
            == Some((JsonView::Number("3.0"@), JsonView::Number("15.0"@))),
{
    lemma_price_keys_distinct();
    law_pi_model_prices("composer-2.5"@, "Composer 2.5"@, "0.5"@, "2.5"@);
    law_pi_model_prices("composer-2.5-fast"@, "Composer 2.5 Fast"@, "3.0"@, "15.0"@);
    law_cost_limit_model_prices("Composer 2.5"@, "0.5"@, "2.5"@);
    law_cost_limit_model_prices("Composer 2.5 Fast"@, "3.0"@, "15.0"@);
}

/// Pointing kilo at the local API keeps every other provider as it was and
/// adds `cursorapi`.
pub proof fn law_kilo_keeps_other_providers(
    existing: Map<Seq<char>, JsonView>,
    base_url: Seq<char>,
    key: Seq<char>,
)
    requires
        key != "cursorapi"@,
    ensures
        ({
            let before = object_or_empty(member_or_empty(existing, "provider"@));
            let after = object_or_empty(
                object_or_empty(kilo_config_view(Some(JsonView::Object(existing)), base_url))["provider"@],
            );
            &&& after.contains_key(key) == before.contains_key(key)
            &&& before.contains_key(key) ==> after[key] == before[key]
            &&& after.contains_key("cursorapi"@)
        }),
{
    lemma_kilo_keys_distinct();
}

/// Pointing opencode at the local API keeps every provider other than the
/// retired `cursor` and `cursorsdk` as it was, drops those two, and adds
/// `cursorapi`.
pub proof fn law_opencode_keeps_other_providers(
    existing: Map<Seq<char>, JsonView>,
    base_url: Seq<char>,
    key: Seq<char>,
)
    requires
        key != "cursorapi"@,
    ensures
        ({
            let before = object_or_empty(member_or_empty(existing, "provider"@));
            let after = object_or_empty(
                object_or_empty(opencode_config_view(Some(JsonView::Object(existing)), base_url))["provider"@],
            );
            &&& key != "cursor"@ && key != "cursorsdk"@ ==> after.contains_key(key)
                == before.contains_key(key)
            &&& key != "cursor"@ && key != "cursorsdk"@ && before.contains_key(key) ==> after[key]
                == before[key]
            &&& !after.contains_key("cursor"@)
            &&& !after.contains_key("cursorsdk"@)
            &&& after.contains_key("cursorapi"@)
        }),
{
    lemma_opencode_keys_distinct();
    reveal_strlit("model");
    reveal_strlit("provider");
    let root = existing;
    let r1 = root.insert(
        "provider"@,
        object_or_empty(opencode_config_view(Some(JsonView::Object(existing)), base_url))["provider"@],
    );
    assert(object_or_empty(opencode_config_view(Some(JsonView::Object(existing)), base_url))["provider"@]
        == r1["provider"@]);
}

/// Pointing pi at the local API keeps every other provider as it was and
/// adds `cursorapi`.
pub proof fn law_pi_keeps_other_providers(
    existing: Map<Seq<char>, JsonView>,
    base_url: Seq<char>,
    key: Seq<char>,
)
    requires
        key != "cursorapi"@,
    ensures
        ({
            let before = object_or_empty(member_or_empty(existing, "providers"@));
            let after = object_or_empty(
                object_or_empty(pi_config_view(Some(JsonView::Object(existing)), base_url))["providers"@],
            );
            &&& after.contains_key(key) == before.contains_key(key)
            &&& before.contains_key(key) ==> after[key] == before[key]
            &&& after.contains_key("cursorapi"@)
        }),
{
}

/// Whether the settings name a model that the user chose: a string that
/// names neither of the retired providers (`cursor/…`, `cursorsdk/…`).
pub open spec fn names_chosen_model(settings: Map<Seq<char>, JsonView>) -> bool {
    settings.contains_key("model"@) && match settings["model"@] {
        JsonView::Str(m) => !has_prefix(m, "cursor/"@) && !has_prefix(m, "cursorsdk/"@),
        _ => false,
    }
}

/// opencode keeps a model the user chose (see [`names_chosen_model`]) as it
/// is; a missing model, one that is no string, or one of a retired provider
/// becomes `cursorapi/composer-2.5-fast`.
pub proof fn law_opencode_keeps_chosen_model(existing: Map<Seq<char>, JsonView>, base_url: Seq<char>)
    ensures
        ({
            let after = object_or_empty(opencode_config_view(Some(JsonView::Object(existing)), base_url));
            &&& after.contains_key("model"@)
            &&& names_chosen_model(existing) ==> after["model"@] == existing["model"@]
            &&& !names_chosen_model(existing) ==> after["model"@] == JsonView::Str(
                "cursorapi/composer-2.5-fast"@,
            )
        }),
{
    lemma_opencode_keys_distinct();
}

/// VS Code counts as configured exactly when some entry of its list, at any
/// place, is named after this API.
pub proof fn law_vscode_listed_when_any_entry_named(items: Seq<JsonView>)
    ensures
        vscode_listed_view(Some(JsonView::Array(items))) <==> exists|i: int|
            0 <= i < items.len() && view_get(#[trigger] items[i], "name"@) == Some(
                JsonView::Str(BRAND@),
            ),
{
    if vscode_listed_view(Some(JsonView::Array(items))) {
        let i = choose|i: int| 0 <= i < items.len() && entry_name(#[trigger] items[i]) == BRAND@;
        reveal_strlit("API for Cursor");
        assert(BRAND@.len() > 0);
        assert(view_get(items[i], "name"@) == Some(JsonView::Str(BRAND@)));
    }
    if exists|i: int|
        0 <= i < items.len() && view_get(#[trigger] items[i], "name"@) == Some(
            JsonView::Str(BRAND@),
        ) {
        let i = choose|i: int|
            0 <= i < items.len() && view_get(#[trigger] items[i], "name"@) == Some(
                JsonView::Str(BRAND@),
            );
        assert(entry_name(items[i]) == BRAND@);
    }
}

// ---------------------------------------------------------------------------
// cline
// ---------------------------------------------------------------------------

/// cline's description of one model; prices by the text of their literals.
pub open spec fn cline_model_info_view(input: Seq<char>, output: Seq<char>) -> JsonView {
    JsonView::Object(
        empty_object().insert("maxTokens"@, JsonView::Number("65536"@)).insert(
            "contextWindow"@,
            JsonView::Number("200000"@),
        ).insert("supportsImages"@, JsonView::Bool(true)).insert(
            "supportsPromptCache"@,
            JsonView::Bool(false),
        ).insert("inputPrice"@, JsonView::Number(input)).insert(
            "outputPrice"@,
            JsonView::Number(output),
        ).insert("temperature"@, JsonView::Number("0"@)).insert(
            "supportsTools"@,
            JsonView::Bool(true),
        ).insert("supportsStreaming"@, JsonView::Bool(true)).insert(
            "systemRole"@,
            JsonView::Str("system"@),
        ),
    )
}

/// `m` with `key` set to an empty object unless it is already there.
pub open spec fn with_default_object(m: Map<Seq<char>, JsonView>, key: Seq<char>) -> Map<
    Seq<char>,
    JsonView,
> {
    if m.contains_key(key) {
        m
    } else {
        m.insert(key, JsonView::Object(empty_object()))
    }
}

/// cline's global state after pointing it at the local API.
pub open spec fn cline_global_view(existing: Option<JsonView>, base_url: Seq<char>) -> JsonView {
    let g = object_or_empty(document_or(existing, JsonView::Object(empty_object()))).insert(
        "actModeApiProvider"@,
        JsonView::Str("openai"@),
    ).insert("planModeApiProvider"@, JsonView::Str("openai"@)).insert(
        "actModeOpenAiModelId"@,
        JsonView::Str("composer-2.5"@),
    ).insert("planModeOpenAiModelId"@, JsonView::Str("composer-2.5-fast"@)).insert(
        "actModeOpenAiModelInfo"@,
        cline_model_info_view("0.5"@, "2.5"@),
    ).insert("planModeOpenAiModelInfo"@, cline_model_info_view("3.0"@, "15.0"@)).insert(
        "openAiHeaders"@,
        JsonView::Object(empty_object()),
    ).insert("openAiBaseUrl"@, JsonView::Str(base_url)).insert(
        "welcomeViewCompleted"@,
        JsonView::Bool(true),
    );
    JsonView::Object(
        with_default_object(
            with_default_object(g, "remoteRulesToggles"@),
            "remoteWorkflowToggles"@,
        ),
    )
}

/// cline's secrets after pointing it at the local API.
pub open spec fn cline_secrets_view(existing: Option<JsonView>) -> JsonView {
    JsonView::Object(
        object_or_empty(document_or(existing, JsonView::Object(empty_object()))).insert(
            "openAiApiKey"@,
            JsonView::Str(LOCAL_API_KEY@),
        ),
    )
}

/// Whether cline's global state (a missing one counts as `{}`) names a base
/// URL and uses `composer-2.5` in act mode.
pub open spec fn cline_configured_view(existing: Option<JsonView>) -> bool {
    let g = document_or(existing, JsonView::Object(empty_object()));
    &&& view_get(g, "openAiBaseUrl"@) matches Some(JsonView::Str(_))
    &&& view_get(g, "actModeOpenAiModelId"@) == Some(JsonView::Str("composer-2.5"@))
}

/// cline's description of one model; prices by the text of their literals.
pub fn cline_model_info(input: &str, output: &str) -> (j: Json)
    ensures
        j@ == cline_model_info_view(input@, output@),
{
    let mut m = JsonObject::new();
    m.insert("maxTokens".to_string(), Json::number("65536"));
    m.insert("contextWindow".to_string(), Json::number("200000"));
    m.insert("supportsImages".to_string(), Json::Bool(true));
    m.insert("supportsPromptCache".to_string(), Json::Bool(false));
    m.insert("inputPrice".to_string(), Json::number(input));
    m.insert("outputPrice".to_string(), Json::number(output));
    m.insert("temperature".to_string(), Json::number("0"));
    m.insert("supportsTools".to_string(), Json::Bool(true));
    m.insert("supportsStreaming".to_string(), Json::Bool(true));
    m.insert("systemRole".to_string(), Json::string("system"));
    Json::Object(m)
}

/// Points cline's global state at the local API (see [`cline_global_view`]).
pub fn cline_global(existing: Option<Json>, base_url: &str) -> (j: Json)
    ensures
        j@ == cline_global_view(opt_view(existing), base_url@),
{
    let mut g = as_object(read_json_or(existing, Json::Object(JsonObject::new())));
    g.insert("actModeApiProvider".to_string(), Json::string("openai"));
    g.insert("planModeApiProvider".to_string(), Json::string("openai"));
    g.insert("actModeOpenAiModelId".to_string(), Json::string("composer-2.5"));
    g.insert("planModeOpenAiModelId".to_string(), Json::string("composer-2.5-fast"));
    g.insert("actModeOpenAiModelInfo".to_string(), cline_model_info("0.5", "2.5"));
    g.insert("planModeOpenAiModelInfo".to_string(), cline_model_info("3.0", "15.0"));
    g.insert("openAiHeaders".to_string(), Json::Object(JsonObject::new()));
    g.insert("openAiBaseUrl".to_string(), Json::string(base_url));
    g.insert("welcomeViewCompleted".to_string(), Json::Bool(true));
    if !g.contains_key("remoteRulesToggles") {
        g.insert("remoteRulesToggles".to_string(), Json::Object(JsonObject::new()));
    }
    if !g.contains_key("remoteWorkflowToggles") {
        g.insert("remoteWorkflowToggles".to_string(), Json::Object(JsonObject::new()));
    }
    Json::Object(g)
}

/// Stores the local key in cline's secrets (see [`cline_secrets_view`]).
pub fn cline_secrets(existing: Option<Json>) -> (j: Json)
    ensures
        j@ == cline_secrets_view(opt_view(existing)),
{
    let mut m = as_object(read_json_or(existing, Json::Object(JsonObject::new())));
    m.insert("openAiApiKey".to_string(), Json::string(LOCAL_API_KEY));
    Json::Object(m)
}

/// Whether cline's global state shows it pointed at the local API (see
/// [`cline_configured_view`]).
pub fn cline_configured(existing: &Option<Json>) -> (b: bool)
    ensures
        b == cline_configured_view(opt_view(*existing)),
{
    match existing {
        Some(g) => {
            let has_url = match g.get("openAiBaseUrl") {
                Some(v) => v.as_str().is_some(),
                None => false,
            };
            let act_model = match g.get("actModeOpenAiModelId") {
                Some(v) => match v.as_str() {
                    Some(id) => *id == "composer-2.5".to_string(),
                    None => false,
                },
                None => false,
            };
            has_url && act_model
        },
        None => false,
    }
}

proof fn lemma_cline_keys_distinct()
    ensures
        "openAiBaseUrl"@ != "remoteRulesToggles"@,
        "openAiBaseUrl"@ != "remoteWorkflowToggles"@,
        "actModeOpenAiModelId"@ != "remoteRulesToggles"@,
        "actModeOpenAiModelId"@ != "remoteWorkflowToggles"@,
        "actModeOpenAiModelId"@ != "openAiBaseUrl"@,
        "actModeOpenAiModelId"@ != "planModeApiProvider"@,
        "actModeOpenAiModelId"@ != "planModeOpenAiModelId"@,
        "actModeOpenAiModelId"@ != "actModeOpenAiModelInfo"@,
        "actModeOpenAiModelId"@ != "planModeOpenAiModelInfo"@,
        "actModeOpenAiModelId"@ != "openAiHeaders"@,
        "actModeOpenAiModelId"@ != "welcomeViewCompleted"@,
        "openAiBaseUrl"@ != "welcomeViewCompleted"@,
{
    reveal_strlit("openAiBaseUrl");
    reveal_strlit("remoteRulesToggles");
    reveal_strlit("remoteWorkflowToggles");
    reveal_strlit("actModeOpenAiModelId");
    reveal_strlit("planModeApiProvider");
    reveal_strlit("planModeOpenAiModelId");
    reveal_strlit("actModeOpenAiModelInfo");
    reveal_strlit("planModeOpenAiModelInfo");
    reveal_strlit("openAiHeaders");
    reveal_strlit("welcomeViewCompleted");
    assert("openAiBaseUrl"@.len() != "remoteRulesToggles"@.len());
    assert("openAiBaseUrl"@.len() != "remoteWorkflowToggles"@.len());
    assert("actModeOpenAiModelId"@.len() != "remoteRulesToggles"@.len());
    assert("actModeOpenAiModelId"@.len() != "remoteWorkflowToggles"@.len());
    assert("actModeOpenAiModelId"@.len() != "openAiBaseUrl"@.len());
    assert("actModeOpenAiModelId"@.len() != "planModeApiProvider"@.len());
    assert("actModeOpenAiModelId"@.len() != "planModeOpenAiModelId"@.len());
    assert("actModeOpenAiModelId"@[19] != "actModeOpenAiModelInfo"@[19]);
    assert("actModeOpenAiModelId"@.len() != "planModeOpenAiModelInfo"@.len());
    assert("actModeOpenAiModelId"@.len() != "openAiHeaders"@.len());
    assert("actModeOpenAiModelId"@[0] != "welcomeViewCompleted"@[0]);
    assert("openAiBaseUrl"@.len() != "welcomeViewCompleted"@.len());
}

/// Pointing cline at the local API a second time changes neither its global
/// state nor its secrets.
pub proof fn law_cline_idempotent(
    existing_global: Option<JsonView>,
    existing_secrets: Option<JsonView>,
    base_url: Seq<char>,
)
    ensures
        cline_global_view(Some(cline_global_view(existing_global, base_url)), base_url)
            == cline_global_view(existing_global, base_url),
        cline_secrets_view(Some(cline_secrets_view(existing_secrets))) == cline_secrets_view(
            existing_secrets,
        ),
{
    let g1 = object_or_empty(cline_global_view(existing_global, base_url));
    let g2 = object_or_empty(cline_global_view(Some(cline_global_view(existing_global, base_url)), base_url));
    assert(g2 =~= g1);
    let s1 = object_or_empty(cline_secrets_view(existing_secrets));
    assert(s1.insert("openAiApiKey"@, JsonView::Str(LOCAL_API_KEY@)) =~= s1);
}

/// Pointing cline at the local API keeps every global setting other than the
/// nine it sets as it was (the two toggle maps are only added when missing),
/// and every secret other than `openAiApiKey`.
pub proof fn law_cline_keeps_other_settings(
    existing_global: Map<Seq<char>, JsonView>,
    existing_secrets: Map<Seq<char>, JsonView>,
    base_url: Seq<char>,
    key: Seq<char>,
)
    requires
        key != "actModeApiProvider"@,
        key != "planModeApiProvider"@,
        key != "actModeOpenAiModelId"@,
        key != "planModeOpenAiModelId"@,
        key != "actModeOpenAiModelInfo"@,
        key != "planModeOpenAiModelInfo"@,
        key != "openAiHeaders"@,
        key != "openAiBaseUrl"@,
        key != "welcomeViewCompleted"@,
    ensures
        object_or_empty(
            cline_global_view(Some(JsonView::Object(existing_global)), base_url),
        ).contains_key(key) == (existing_global.contains_key(key) || key == "remoteRulesToggles"@
            || key == "remoteWorkflowToggles"@),
        existing_global.contains_key(key) ==> object_or_empty(
            cline_global_view(Some(JsonView::Object(existing_global)), base_url),
        )[key] == existing_global[key],
        key != "openAiApiKey"@ ==> object_or_empty(
            cline_secrets_view(Some(JsonView::Object(existing_secrets))),
        ).contains_key(key) == existing_secrets.contains_key(key),
        key != "openAiApiKey"@ && existing_secrets.contains_key(key) ==> object_or_empty(
            cline_secrets_view(Some(JsonView::Object(existing_secrets))),
        )[key] == existing_secrets[key],
{
}

/// cline's model descriptions price input and output tokens at the prices
/// they were given; act mode uses `composer-2.5` at 0.5 and 2.5, plan mode
/// `composer-2.5-fast` at 3.0 and 15.0.
pub proof fn law_cline_prices(
    input: Seq<char>,
    output: Seq<char>,
    existing: Option<JsonView>,
    base_url: Seq<char>,
)
    ensures
        view_get(cline_model_info_view(input, output), "inputPrice"@) == Some(
            JsonView::Number(input),
        ),
        view_get(cline_model_info_view(input, output), "outputPrice"@) == Some(
            JsonView::Number(output),
        ),
        view_get(cline_global_view(existing, base_url), "actModeOpenAiModelInfo"@) == Some(
            cline_model_info_view("0.5"@, "2.5"@),
        ),
        view_get(cline_global_view(existing, base_url), "planModeOpenAiModelInfo"@) == Some(
            cline_model_info_view("3.0"@, "15.0"@),
        ),
        view_get(cline_global_view(existing, base_url), "actModeOpenAiModelId"@) == Some(
            JsonView::Str("composer-2.5"@),
        ),
        view_get(cline_global_view(existing, base_url), "planModeOpenAiModelId"@) == Some(
            JsonView::Str("composer-2.5-fast"@),
        ),
{
    reveal_strlit("inputPrice");
    reveal_strlit("outputPrice");
    reveal_strlit("temperature");
    reveal_strlit("supportsTools");
    reveal_strlit("supportsStreaming");
    reveal_strlit("systemRole");
    reveal_strlit("actModeOpenAiModelInfo");
    reveal_strlit("planModeOpenAiModelInfo");
    reveal_strlit("actModeOpenAiModelId");
    reveal_strlit("planModeOpenAiModelId");
    reveal_strlit("openAiHeaders");
    reveal_strlit("openAiBaseUrl");
    reveal_strlit("welcomeViewCompleted");
    reveal_strlit("remoteRulesToggles");
    reveal_strlit("remoteWorkflowToggles");
    assert("inputPrice"@.len() != "outputPrice"@.len());
    assert("inputPrice"@.len() != "temperature"@.len());
    assert("inputPrice"@.len() != "supportsTools"@.len());
    assert("inputPrice"@.len() != "supportsStreaming"@.len());
    assert("inputPrice"@[0] != "systemRole"@[0]);
    assert("outputPrice"@[0] != "temperature"@[0]);
    assert("outputPrice"@.len() != "supportsTools"@.len());
    assert("outputPrice"@.len() != "supportsStreaming"@.len());
    assert("outputPrice"@[0] != "systemRole"@[0]);
    assert("actModeOpenAiModelInfo"@[0] != "planModeOpenAiModelInfo"@[0]);
    assert("actModeOpenAiModelInfo"@[0] != "openAiHeaders"@[0]);
    assert("actModeOpenAiModelInfo"@[0] != "openAiBaseUrl"@[0]);
    assert("actModeOpenAiModelInfo"@[0] != "welcomeViewCompleted"@[0]);
    assert("actModeOpenAiModelInfo"@[0] != "remoteRulesToggles"@[0]);
    assert("actModeOpenAiModelInfo"@[0] != "remoteWorkflowToggles"@[0]);
    assert("planModeOpenAiModelInfo"@[0] != "openAiHeaders"@[0]);
    assert("planModeOpenAiModelInfo"@[0] != "openAiBaseUrl"@[0]);
    assert("planModeOpenAiModelInfo"@[0] != "welcomeViewCompleted"@[0]);
    assert("planModeOpenAiModelInfo"@[0] != "remoteRulesToggles"@[0]);
    assert("planModeOpenAiModelInfo"@[0] != "remoteWorkflowToggles"@[0]);
    assert("actModeOpenAiModelId"@[0] != "planModeOpenAiModelInfo"@[0]);
    assert("actModeOpenAiModelId"@.len() != "actModeOpenAiModelInfo"@.len());
    assert("planModeOpenAiModelId"@.len() != "planModeOpenAiModelInfo"@.len());
    assert("planModeOpenAiModelId"@[0] != "openAiHeaders"@[0]);
    assert("planModeOpenAiModelId"@[0] != "openAiBaseUrl"@[0]);
    assert("planModeOpenAiModelId"@[0] != "welcomeViewCompleted"@[0]);
    assert("planModeOpenAiModelId"@[0] != "remoteRulesToggles"@[0]);
    assert("planModeOpenAiModelId"@[0] != "remoteWorkflowToggles"@[0]);
    assert("planModeOpenAiModelInfo"@[0] != "actModeOpenAiModelId"@[0]);
    lemma_cline_keys_distinct();
}

/// After cline is pointed at the local API it reports as configured.
pub proof fn law_cline_configured(existing: Option<JsonView>, base_url: Seq<char>)
    ensures
        cline_configured_view(Some(cline_global_view(existing, base_url))),
{
    lemma_cline_keys_distinct();
}

// ---------------------------------------------------------------------------
// VS Code
// ---------------------------------------------------------------------------

/// The language-model entry that VS Code gets.
pub open spec fn vscode_entry_view(base_url: Seq<char>) -> JsonView {
    JsonView::Object(
        empty_object().insert("name"@, JsonView::Str(BRAND@)).insert(
            "provider"@,
            JsonView::Str("openai-compatible"@),
        ).insert("baseUrl"@, JsonView::Str(base_url)).insert(
            "models"@,
            JsonView::Array(seq![JsonView::Str("composer-2.5"@), JsonView::Str("composer-2.5-fast"@)]),
        ),
    )
}

/// An entry's `name` when it is a string, else the empty text.
pub open spec fn entry_name(j: JsonView) -> Seq<char> {
    match view_get(j, "name"@) {
        Some(JsonView::Str(n)) => n,
        _ => seq![],
    }
}

/// Whether an entry belongs to someone else: it is neither this API's entry
/// nor the one its earlier versions wrote (`CursorAPI`).
pub open spec fn is_foreign_entry(j: JsonView) -> bool {
    entry_name(j) != "CursorAPI"@ && entry_name(j) != BRAND@
}

/// The foreign entries of `items`, in order.
pub open spec fn foreign_entries(items: Seq<JsonView>) -> Seq<JsonView>
    decreases items.len(),
{
    if items.len() == 0 {
        seq![]
    } else if is_foreign_entry(items.last()) {
        foreign_entries(items.drop_last()).push(items.last())
    } else {
        foreign_entries(items.drop_last())
    }
}

/// The items of an array, or none when `j` is no array.
pub open spec fn array_or_empty(j: JsonView) -> Seq<JsonView> {
    match j {
        JsonView::Array(a) => a,
        _ => seq![],
    }
}

/// VS Code's language-model list after pointing it at the local API: the
/// foreign entries in order, then this API's entry.
pub open spec fn vscode_config_view(existing: Option<JsonView>, base_url: Seq<char>) -> JsonView {
    JsonView::Array(
        foreign_entries(array_or_empty(document_or(existing, JsonView::Array(seq![])))).push(
            vscode_entry_view(base_url),
        ),
    )
}

/// Whether VS Code's list (a missing one counts as `[]`) holds an entry named
/// after this API.
pub open spec fn vscode_listed_view(existing: Option<JsonView>) -> bool {
    match document_or(existing, JsonView::Array(seq![])) {
        JsonView::Array(a) => names_brand(a),
        _ => false,
    }
}

/// Whether some entry of `items` is named after this API.
pub open spec fn names_brand(items: Seq<JsonView>) -> bool {
    exists|i: int| 0 <= i < items.len() && entry_name(#[trigger] items[i]) == BRAND@
}

/// An entry's `name` when it is a string, else the empty text.
fn entry_name_of(item: &Json) -> (n: String)
    ensures
        n@ == entry_name(item@),
{
    match item.get("name") {
        Some(v) => match v.as_str() {
            Some(s) => s.clone(),
            None => String::new(),
        },
        None => String::new(),
    }
}

/// Points VS Code at the local API (see [`vscode_config_view`]).
pub fn vscode_config(existing: Option<Json>, base_url: &str) -> (j: Json)
    ensures
        j@ == vscode_config_view(opt_view(existing), base_url@),
{
    let doc = read_json_or(existing, Json::Array(Vec::new()));
    assert(items_view(Seq::<Json>::empty()) =~= seq![]);
    let items: Vec<Json> = match doc {
        Json::Array(a) => a,
        _ => Vec::new(),
    };
    let ghost all = items_view(items@);
    assert(all == array_or_empty(doc@));
    let mut kept: Vec<Json> = Vec::new();
    let mut i: usize = 0;
    proof {
        crate::json::lemma_items_len(items@);
        assert(all.take(0) =~= seq![]);
    }
    while i < items.len()
        invariant
            all == items_view(items@),
            all.len() == items@.len(),
            i <= items@.len(),
            items_view(kept@) == foreign_entries(all.take(i as int)),
        decreases items.len() - i,
    {
        let name = entry_name_of(&items[i]);
        proof {
            crate::json::lemma_items_index(items@, i as int);
            assert(all.take(i + 1).drop_last() =~= all.take(i as int));
            assert(all.take(i + 1).last() == all[i as int]);
        }
        if !(name == "CursorAPI".to_string()) && !(name == BRAND.to_string()) {
            let c = items[i].duplicate();
            proof {
                lemma_items_push(kept@, c);
            }
            kept.push(c);
        }
        i = i + 1;
    }
    assert(all.take(all.len() as int) =~= all);
    let mut entry = JsonObject::new();
    entry.insert("name".to_string(), Json::string(BRAND));
    entry.insert("provider".to_string(), Json::string("openai-compatible"));
    entry.insert("baseUrl".to_string(), Json::string(base_url));
    let mut models: Vec<Json> = Vec::new();
    let a = Json::string("composer-2.5");
    let b = Json::string("composer-2.5-fast");
    proof {
        lemma_items_push(models@, a);
        lemma_items_push(models@.push(a), b);
    }
    models.push(a);
    models.push(b);
    assert(items_view(models@) =~= seq![JsonView::Str("composer-2.5"@), JsonView::Str("composer-2.5-fast"@)]);
    entry.insert("models".to_string(), Json::Array(models));
    let e = Json::Object(entry);
    proof {
        lemma_items_push(kept@, e);
    }
    kept.push(e);
    Json::Array(kept)
}

/// Whether VS Code's list holds an entry named after this API (see
/// [`vscode_listed_view`]).
pub fn vscode_listed(existing: &Option<Json>) -> (b: bool)
    ensures
        b == vscode_listed_view(opt_view(*existing)),
{
    match existing {
        Some(Json::Array(items)) => {
            let ghost all = items_view(items@);
            proof {
                crate::json::lemma_items_len(items@);
            }
            let mut i: usize = 0;
            while i < items.len()
                invariant
                    *existing == Some(Json::Array(*items)),
                    all == items_view(items@),
                    all.len() == items@.len(),
                    i <= items@.len(),
                    forall|j: int| 0 <= j < i ==> entry_name(#[trigger] all[j]) != BRAND@,
                decreases items.len() - i,
            {
                let name = entry_name_of(&items[i]);
                proof {
                    crate::json::lemma_items_index(items@, i as int);
                }
                if name == BRAND.to_string() {
                    assert(entry_name(all[i as int]) == BRAND@);
                    assert(json_view(Json::Array(*items)) == JsonView::Array(all));
                    assert(opt_view(*existing) == Some(JsonView::Array(all)));
                    assert(0 <= i < all.len() && entry_name(all[i as int]) == BRAND@);
                    assert(names_brand(all));
                    return true;
                }
                i = i + 1;
            }
            false
        },
        Some(_) => false,
        None => false,
    }
}

proof fn lemma_foreign_push(items: Seq<JsonView>, j: JsonView)
    ensures
        foreign_entries(items.push(j)) == if is_foreign_entry(j) {
            foreign_entries(items).push(j)
        } else {
            foreign_entries(items)
        },
{
    assert(items.push(j).drop_last() =~= items);
}

proof fn lemma_foreign_idempotent(items: Seq<JsonView>)
    ensures
        foreign_entries(foreign_entries(items)) == foreign_entries(items),
    decreases items.len(),
{
    if items.len() > 0 {
        lemma_foreign_idempotent(items.drop_last());
        if is_foreign_entry(items.last()) {
            lemma_foreign_push(foreign_entries(items.drop_last()), items.last());
        }
    }
}

proof fn lemma_vscode_entry_name(base_url: Seq<char>)
    ensures
        entry_name(vscode_entry_view(base_url)) == BRAND@,
        !is_foreign_entry(vscode_entry_view(base_url)),
{
    reveal_strlit("name");
    reveal_strlit("provider");
    reveal_strlit("baseUrl");
    reveal_strlit("models");
    assert("name"@.len() != "provider"@.len());
    assert("name"@.len() != "baseUrl"@.len());
    assert("name"@.len() != "models"@.len());
}

/// Pointing VS Code at the local API a second time changes nothing.
pub proof fn law_vscode_idempotent(existing: Option<JsonView>, base_url: Seq<char>)
    ensures
        vscode_config_view(Some(vscode_config_view(existing, base_url)), base_url)
            == vscode_config_view(existing, base_url),
{
    let f = foreign_entries(array_or_empty(document_or(existing, JsonView::Array(seq![]))));
    lemma_vscode_entry_name(base_url);
    lemma_foreign_push(f, vscode_entry_view(base_url));
    lemma_foreign_idempotent(array_or_empty(document_or(existing, JsonView::Array(seq![]))));
}

/// After VS Code is pointed at the local API its list names this API.
pub proof fn law_vscode_listed(existing: Option<JsonView>, base_url: Seq<char>)
    ensures
        vscode_listed_view(Some(vscode_config_view(existing, base_url))),
{
    let a = array_or_empty(vscode_config_view(existing, base_url));
    lemma_vscode_entry_name(base_url);
    assert(entry_name(a[a.len() - 1]) == BRAND@);
}

/// Pointing VS Code at the local API keeps every foreign entry, in order.
pub proof fn law_vscode_keeps_foreign_entries(existing: Seq<JsonView>, base_url: Seq<char>)
    ensures
        array_or_empty(vscode_config_view(Some(JsonView::Array(existing)), base_url)).drop_last()
            == foreign_entries(existing),
{
    assert(array_or_empty(vscode_config_view(Some(JsonView::Array(existing)), base_url)).drop_last()
        =~= foreign_entries(existing));
}

// ---------------------------------------------------------------------------
// Agents, their names and their status
// ---------------------------------------------------------------------------

/// The agents that can be pointed at the local API.
#[derive(PartialEq, Eq, Structural, Clone, Copy, Debug)]
pub enum AgentId {
    OpenCode,
    Codex,
    VsCode,
    Cline,
    Kilo,
    Pi,
}

/// How far an agent is set up to use the local API.
#[derive(PartialEq, Eq, Structural, Clone, Copy, Debug)]
pub enum Status {
    Configured,
    NotConfigured,
    NotInstalled,
}

/// What an agent's status is reported as.
pub open spec fn status_label(s: Status) -> Seq<char> {
    match s {
        Status::Configured => "configured"@,
        Status::NotConfigured => "not_configured"@,
        Status::NotInstalled => "not_installed"@,
    }
}

impl Status {
    /// The word this status is reported as.
    pub fn label(&self) -> (r: &'static str)
        ensures
            r@ == status_label(*self),
    {
        match self {
            Status::Configured => "configured",
            Status::NotConfigured => "not_configured",
            Status::NotInstalled => "not_installed",
        }
    }
}

/// The identifier an agent is known by.
pub open spec fn agent_key(a: AgentId) -> Seq<char> {
    match a {
        AgentId::OpenCode => "opencode"@,
        AgentId::Codex => "codex"@,
        AgentId::VsCode => "vscode"@,
        AgentId::Cline => "cline"@,
        AgentId::Kilo => "kilo"@,
        AgentId::Pi => "pi"@,
    }
}

/// The name an agent is shown under.
pub open spec fn agent_title(a: AgentId) -> Seq<char> {
    match a {
        AgentId::OpenCode => "opencode"@,
        AgentId::Codex => "Codex"@,
        AgentId::VsCode => "VS Code"@,
        AgentId::Cline => "Cline"@,
        AgentId::Kilo => "Kilo Code"@,
        AgentId::Pi => "pi"@,
    }
}

/// The agents in the order they are listed.
pub open spec fn agent_order() -> Seq<AgentId> {
    seq![
        AgentId::OpenCode,
        AgentId::Codex,
        AgentId::VsCode,
        AgentId::Cline,
        AgentId::Kilo,
        AgentId::Pi,
    ]
}

/// The agent whose identifier is `id`, if any.
pub open spec fn agent_of(id: Seq<char>) -> Option<AgentId> {
    if id == "opencode"@ {
        Some(AgentId::OpenCode)
    } else if id == "codex"@ {
        Some(AgentId::Codex)
    } else if id == "vscode"@ {
        Some(AgentId::VsCode)
    } else if id == "cline"@ {
        Some(AgentId::Cline)
    } else if id == "kilo"@ {
        Some(AgentId::Kilo)
    } else if id == "pi"@ {
        Some(AgentId::Pi)
    } else {
        None
    }
}

/// Whether two texts are equal.
fn same_text(a: &str, b: &str) -> (r: bool)
    ensures
        r == (a@ == b@),
{
    a.to_string() == b.to_string()
}

impl AgentId {
    /// The agents in the order they are listed.
    pub fn all() -> (v: Vec<AgentId>)
        ensures
            v@ == agent_order(),
    {
        let v = vec![
            AgentId::OpenCode,
            AgentId::Codex,
            AgentId::VsCode,
            AgentId::Cline,
            AgentId::Kilo,
            AgentId::Pi,
        ];
        assert(v@ =~= agent_order());
        v
    }

    /// The identifier this agent is known by.
    pub fn key(&self) -> (r: &'static str)
        ensures
            r@ == agent_key(*self),
    {
        match self {
            AgentId::OpenCode => "opencode",
            AgentId::Codex => "codex",
            AgentId::VsCode => "vscode",
            AgentId::Cline => "cline",
            AgentId::Kilo => "kilo",
            AgentId::Pi => "pi",
        }
    }

    /// The name this agent is shown under.
    pub fn title(&self) -> (r: &'static str)
        ensures
            r@ == agent_title(*self),
    {
        match self {
            AgentId::OpenCode => "opencode",
            AgentId::Codex => "Codex",
            AgentId::VsCode => "VS Code",
            AgentId::Cline => "Cline",
            AgentId::Kilo => "Kilo Code",
            AgentId::Pi => "pi",
        }
    }

    /// The agent whose identifier is `id`, if any.
    pub fn from_key(id: &str) -> (r: Option<AgentId>)
        ensures
            r == agent_of(id@),
    {
        if same_text(id, "opencode") {
            Some(AgentId::OpenCode)
        } else if same_text(id, "codex") {
            Some(AgentId::Codex)
        } else if same_text(id, "vscode") {
            Some(AgentId::VsCode)
        } else if same_text(id, "cline") {
            Some(AgentId::Cline)
        } else if same_text(id, "kilo") {
            Some(AgentId::Kilo)
        } else if same_text(id, "pi") {
            Some(AgentId::Pi)
        } else {
            None
        }
    }
}

/// The name shown for the agent `id`; `Unknown` for an identifier no agent
/// has.
pub open spec fn agent_name_view(id: Seq<char>) -> Seq<char> {
    match agent_of(id) {
        Some(a) => agent_title(a),
        None => "Unknown"@,
    }
}

/// The name shown for the agent `id`; `Unknown` for an identifier no agent
/// has.
pub fn agent_name(id: &str) -> (r: &'static str)
    ensures
        r@ == agent_name_view(id@),
{
    match AgentId::from_key(id) {
        Some(a) => a.title(),
        None => "Unknown",
    }
}

/// The agent that configuring `id` addresses, or the error that an unknown
/// identifier is answered with.
pub fn parse_agent_id(id: &str) -> (r: Result<AgentId, String>)
    ensures
        r is Ok <==> agent_of(id@) is Some,
        r matches Ok(a) ==> Some(a) == agent_of(id@),
        r matches Err(e) ==> e@ == "unknown agent: "@ + id@,
{
    match AgentId::from_key(id) {
        Some(a) => Ok(a),
        None => {
            let mut e = "unknown agent: ".to_string();
            e.append(id);
            Err(e)
        },
    }
}

/// What is known of an agent's configuration on this machine.
pub struct StatusProbe {
    /// Whether the configuration's location could be resolved.
    pub located: bool,
    /// Whether the agent's own directory exists (used for Codex and VS Code).
    pub installed: bool,
    /// The configuration file parsed as JSON, when it could be read and parsed.
    pub document: Option<Json>,
    /// The configuration file's text, when it could be read.
    pub text: Option<String>,
}

/// The header whose presence marks Codex as configured.
pub const CODEX_PROVIDER_HEADER: &'static str = "[model_providers.cursorapi]";

/// The status of agent `a` given what is known of its configuration.
pub open spec fn status_view(
    a: AgentId,
    located: bool,
    installed: bool,
    document: Option<JsonView>,
    text: Option<Seq<char>>,
) -> Status {
    match a {
        AgentId::OpenCode => if located && has_cursorapi_under(document, "provider"@) {
            Status::Configured
        } else {
            Status::NotConfigured
        },
        AgentId::Codex => if !located {
            Status::NotConfigured
        } else if !installed {
            Status::NotInstalled
        } else if text matches Some(t) && crate::text::has_infix(t, CODEX_PROVIDER_HEADER@) {
            Status::Configured
        } else {
            Status::NotConfigured
        },
        AgentId::VsCode => if !located || !installed {
            Status::NotInstalled
        } else if vscode_listed_view(document) {
            Status::Configured
        } else {
            Status::NotConfigured
        },
        AgentId::Cline => if located && cline_configured_view(document) {
            Status::Configured
        } else {
            Status::NotConfigured
        },
        AgentId::Kilo => if located && has_cursorapi_under(document, "provider"@) {
            Status::Configured
        } else {
            Status::NotConfigured
        },
        AgentId::Pi => if located && has_cursorapi_under(document, "providers"@) {
            Status::Configured
        } else {
            Status::NotConfigured
        },
    }
}

/// The meaning of an optional text.
pub open spec fn opt_text(t: Option<String>) -> Option<Seq<char>> {
    match t {
        Some(s) => Some(s@),
        None => None,
    }
}

/// The status of agent `a` given what is known of its configuration.
pub fn agent_status_of(a: AgentId, probe: &StatusProbe) -> (s: Status)
    ensures
        s == status_view(a, probe.located, probe.installed, opt_view(probe.document), opt_text(probe.text)),
{
    match a {
        AgentId::OpenCode => if probe.located && has_cursorapi(&probe.document, "provider") {
            Status::Configured
        } else {
            Status::NotConfigured
        },
        AgentId::Codex => {
            if !probe.located {
                Status::NotConfigured
            } else if !probe.installed {
                Status::NotInstalled
            } else {
                match &probe.text {
                    Some(t) => {
                        let tc = chars_of(t.as_str());
                        let hc = chars_of(CODEX_PROVIDER_HEADER);
                        if crate::text::contains(tc.as_slice(), hc.as_slice()) {
                            Status::Configured
                        } else {
                            Status::NotConfigured
                        }
                    },
                    None => Status::NotConfigured,
                }
            }
        },
        AgentId::VsCode => if !probe.located || !probe.installed {
            Status::NotInstalled
        } else if vscode_listed(&probe.document) {
            Status::Configured
        } else {
            Status::NotConfigured
        },
        AgentId::Cline => if probe.located && cline_configured(&probe.document) {
            Status::Configured
        } else {
            Status::NotConfigured
        },
        AgentId::Kilo => if probe.located && has_cursorapi(&probe.document, "provider") {
            Status::Configured
        } else {
            Status::NotConfigured
        },
        AgentId::Pi => if probe.located && has_cursorapi(&probe.document, "providers") {
            Status::Configured
        } else {
            Status::NotConfigured
        },
    }
}

/// The status reported for the agent `id`: `not_configured` for an
/// identifier no agent has.
pub open spec fn agent_status_view(id: Seq<char>, probe: StatusProbe) -> Seq<char> {
    match agent_of(id) {
        Some(a) => status_label(
            status_view(a, probe.located, probe.installed, opt_view(probe.document), opt_text(probe.text)),
        ),
        None => "not_configured"@,
    }
}

/// The status reported for the agent `id` given what is known of its
/// configuration; `not_configured` for an identifier no agent has.
pub fn agent_status(id: &str, probe: &StatusProbe) -> (r: String)
    ensures
        r@ == agent_status_view(id@, *probe),
{
    match AgentId::from_key(id) {
        Some(a) => agent_status_of(a, probe).label().to_string(),
        None => "not_configured".to_string(),
    }
}

/// An agent as it is listed: identifier, shown name, and status word (one of
/// `configured`, `not_configured`, `not_installed`).
pub struct AgentInfo {
    pub id: String,
    pub name: String,
    pub status: String,
}

/// Lists the supported agents in their fixed order, each with its name and
/// the status that its probe (given in the same order) shows.
pub fn get_supported_agents(_base_url: String, probes: &Vec<StatusProbe>) -> (r: Result<
    Vec<AgentInfo>,
    String,
>)
    requires
        probes@.len() == agent_order().len(),
    ensures
        r matches Ok(list) && list@.len() == agent_order().len() && forall|i: int|
            0 <= i < list@.len() ==> {
                &&& (#[trigger] list@[i]).id@ == agent_key(agent_order()[i])
                &&& list@[i].name@ == agent_title(agent_order()[i])
                &&& list@[i].status@ == agent_status_view(agent_key(agent_order()[i]), probes@[i])
            },
{
    let ids = AgentId::all();
    let mut list: Vec<AgentInfo> = Vec::new();
    let mut i: usize = 0;
    while i < ids.len()
        invariant
            ids@ == agent_order(),
            probes@.len() == agent_order().len(),
            i <= ids@.len(),
            list@.len() == i,
            forall|j: int|
                0 <= j < i ==> {
                    &&& (#[trigger] list@[j]).id@ == agent_key(agent_order()[j])
                    &&& list@[j].name@ == agent_title(agent_order()[j])
                    &&& list@[j].status@ == agent_status_view(
                        agent_key(agent_order()[j]),
                        probes@[j],
                    )
                },
        decreases ids.len() - i,
    {
        let a = ids[i];
        let key = a.key();
        proof {
            lemma_agent_key_roundtrip(a);
        }
        let info = AgentInfo {
            id: key.to_string(),
            name: agent_name(key).to_string(),
            status: agent_status(key, &probes[i]),
        };
        list.push(info);
        i = i + 1;
    }
    Ok(list)
}

/// Each agent's identifier names that agent.
pub proof fn lemma_agent_key_roundtrip(a: AgentId)
    ensures
        agent_of(agent_key(a)) == Some(a),
{
    reveal_strlit("opencode");
    reveal_strlit("codex");
    reveal_strlit("vscode");
    reveal_strlit("cline");
    reveal_strlit("kilo");
    reveal_strlit("pi");
    assert("opencode"@.len() == 8 && "codex"@.len() == 5 && "vscode"@.len() == 6);
    assert("cline"@.len() == 5 && "kilo"@.len() == 4 && "pi"@.len() == 2);
    assert("codex"@[1] != "cline"@[1]);
}

// ---------------------------------------------------------------------------
// Configuring, then asking again
// ---------------------------------------------------------------------------

/// The error given when an agent's configuration cannot be located.
pub open spec fn unresolved_view(a: AgentId) -> Seq<char> {
    match a {
        AgentId::OpenCode => "cannot resolve opencode path"@,
        AgentId::Codex => "cannot resolve .codex path"@,
        AgentId::VsCode => "cannot resolve VS Code path"@,
        AgentId::Cline => "cannot resolve .cline path"@,
        AgentId::Kilo => "cannot resolve kilo path"@,
        AgentId::Pi => "cannot resolve pi path"@,
    }
}

/// The error given when an agent's configuration cannot be located.
pub fn unresolved_error(a: AgentId) -> (e: String)
    ensures
        e@ == unresolved_view(a),
{
    match a {
        AgentId::OpenCode => "cannot resolve opencode path".to_string(),
        AgentId::Codex => "cannot resolve .codex path".to_string(),
        AgentId::VsCode => "cannot resolve VS Code path".to_string(),
        AgentId::Cline => "cannot resolve .cline path".to_string(),
        AgentId::Kilo => "cannot resolve kilo path".to_string(),
        AgentId::Pi => "cannot resolve pi path".to_string(),
    }
}

/// Every agent that has been pointed at the local API reports `configured`
/// when its configuration is looked at again, whatever it held before.
pub proof fn law_configure_then_configured(
    existing: Option<JsonView>,
    existing_text: Seq<char>,
    base_url: Seq<char>,
)
    ensures
        status_view(AgentId::OpenCode, true, true, Some(opencode_config_view(existing, base_url)), None)
            == Status::Configured,
        status_view(
            AgentId::Codex,
            true,
            true,
            None,
            Some(crate::codex::codex_config_view(existing_text, base_url)),
        ) == Status::Configured,
        status_view(AgentId::VsCode, true, true, Some(vscode_config_view(existing, base_url)), None)
            == Status::Configured,
        status_view(AgentId::Cline, true, true, Some(cline_global_view(existing, base_url)), None)
            == Status::Configured,
        status_view(AgentId::Kilo, true, true, Some(kilo_config_view(existing, base_url)), None)
            == Status::Configured,
        status_view(AgentId::Pi, true, true, Some(pi_config_view(existing, base_url)), None)
            == Status::Configured,
{
    law_opencode_configured(existing, base_url);
    crate::codex::law_codex_configured(existing_text, base_url);
    law_vscode_listed(existing, base_url);
    law_cline_configured(existing, base_url);
    law_kilo_configured(existing, base_url);
    law_pi_configured(existing, base_url);
}

} // verus!
