//! The Codex agent keeps its settings in TOML, which is edited as text: the
//! managed tables are cut out line by line and written again at the end.

use vstd::prelude::*;
use crate::agents::{BRAND, CODEX_PROVIDER_HEADER};
use crate::lines::{
    clean_line, has_trimmed_match, lemma_first_newline_props, lemma_join_concat,
    lemma_join_of_lines, lemma_lines_at_first, lemma_lines_clean, lemma_lines_of_join_exact,
    lemma_lines_single, lemma_resplit_aligned, lemma_trim_start_drop_last, resplit,
    lemma_lines_concat, lemma_lines_no_newline, lemma_lines_nonempty, lemma_lines_of_join,
    lemma_lines_of_join_from, lemma_lines_split, lemma_lines_trim_end, lemma_trim_by_end,
    lemma_trim_end_idem, lemma_trim_end_last, lemma_trim_strip_cr, no_crlf, no_newline,
};
use crate::text::first_newline;
use crate::text::{
    chars_of, copy_range, has_infix, has_prefix, is_ws, join_lines, join_seq, lemma_join_push,
    lines_seq, lowercase, split_lines, strip_cr, string_from_chars, to_lowercase, trim, trim_end,
    trim_end_seq, trim_seq, trim_start, trim_start_seq, views,
};

verus! {

// ---------------------------------------------------------------------------
// Specification of the table removal
// ---------------------------------------------------------------------------

/// The lowercased bracketed form `[header]` that a header line must equal.
pub open spec fn header_target(header: Seq<char>) -> Seq<char> {
    lowercase(seq!['['] + header + seq![']'])
}

/// Whether `line`, trimmed and lowercased, is the header `target`.
pub open spec fn is_header_line(line: Seq<char>, target: Seq<char>) -> bool {
    lowercase(trim_seq(line)) == target
}

/// Whether `line` opens a table: its first non-whitespace character is `[`.
pub open spec fn opens_table(line: Seq<char>) -> bool {
    let t = trim_start_seq(line);
    t.len() > 0 && t[0] == '['
}

/// The lines that survive the removal of every table whose header line is
/// `target`. `skipping` is set while inside such a table: its lines are
/// dropped until a line that opens a table.
pub open spec fn kept_lines(ls: Seq<Seq<char>>, target: Seq<char>, skipping: bool) -> Seq<
    Seq<char>,
>
    decreases ls.len(),
{
    if ls.len() == 0 {
        seq![]
    } else if skipping && !opens_table(ls[0]) {
        kept_lines(ls.drop_first(), target, true)
    } else if is_header_line(ls[0], target) {
        kept_lines(ls.drop_first(), target, true)
    } else {
        seq![ls[0]] + kept_lines(ls.drop_first(), target, false)
    }
}

/// `content` without the tables headed `[header]` (compared after trimming
/// and lowercasing), each up to the next line that opens a table or the end;
/// the remaining lines joined by `'\n'`.
pub open spec fn without_table(content: Seq<char>, header: Seq<char>) -> Seq<char> {
    join_seq(kept_lines(lines_seq(content), header_target(header), false), seq!['\n'])
}

proof fn lemma_kept_unfold(ls: Seq<Seq<char>>, target: Seq<char>, i: int, skipping: bool)
    requires
        0 <= i < ls.len(),
    ensures
        kept_lines(ls.skip(i), target, skipping) == if skipping && !opens_table(ls[i]) {
            kept_lines(ls.skip(i + 1), target, true)
        } else if is_header_line(ls[i], target) {
            kept_lines(ls.skip(i + 1), target, true)
        } else {
            seq![ls[i]] + kept_lines(ls.skip(i + 1), target, false)
        },
{
    assert(ls.skip(i).drop_first() =~= ls.skip(i + 1));
}

/// Removes from `content` every table headed `[header]`, matched on the
/// trimmed line without regard to case, from its header line up to (not
/// including) the next line whose first non-whitespace character is `[`, or
/// to the end. The other lines are kept in order and joined by `'\n'`.
pub fn remove_toml_block(content: &str, header: &str) -> (r: String)
    ensures
        r@ == without_table(content@, header@),
{
    let header_chars = chars_of(header);
    let mut bracketed: Vec<char> = Vec::new();
    bracketed.push('[');
    let mut h: usize = 0;
    while h < header_chars.len()
        invariant
            h <= header_chars@.len(),
            bracketed@ == seq!['['] + header_chars@.take(h as int),
        decreases header_chars.len() - h,
    {
        bracketed.push(header_chars[h]);
        h = h + 1;
        assert(bracketed@ =~= seq!['['] + header_chars@.take(h as int));
    }
    bracketed.push(']');
    assert(header_chars@.take(header_chars@.len() as int) =~= header@);
    assert(bracketed@ =~= seq!['['] + header@ + seq![']']);
    let bracketed_text = string_from_chars(bracketed.as_slice());
    let target = to_lowercase(bracketed_text.as_str());

    let chars = chars_of(content);
    let lines = split_lines(chars.as_slice());
    let ghost all = views(lines@);
    let mut out: Vec<Vec<char>> = Vec::new();
    let mut i: usize = 0;
    assert(all.skip(0) =~= all);
    assert(views(out@) =~= seq![]);
    while i < lines.len()
        invariant
            all == views(lines@),
            all.len() == lines@.len(),
            target@ == header_target(header@),
            i <= lines@.len(),
            kept_lines(all, target@, false) == views(out@) + kept_lines(
                all.skip(i as int),
                target@,
                false,
            ),
        decreases lines.len() - i,
    {
        let trimmed = trim(lines[i].as_slice());
        let trimmed_text = string_from_chars(trimmed.as_slice());
        let low = to_lowercase(trimmed_text.as_str());
        if low == target {
            proof {
                lemma_kept_unfold(all, target@, i as int, false);
            }
            let ghost start = i;
            i = i + 1;
            while i < lines.len()
                invariant
                    all == views(lines@),
                    all.len() == lines@.len(),
                    start < i <= lines@.len(),
                    kept_lines(all, target@, false) == views(out@) + kept_lines(
                        all.skip(i as int),
                        target@,
                        true,
                    ),
                ensures
                    start < i <= lines@.len(),
                    i < lines@.len() ==> opens_table(all[i as int]),
                    kept_lines(all, target@, false) == views(out@) + kept_lines(
                        all.skip(i as int),
                        target@,
                        true,
                    ),
                decreases lines.len() - i,
            {
                let t = trim_start(lines[i].as_slice());
                if t.len() > 0 && t[0] == '[' {
                    break;
                }
                proof {
                    lemma_kept_unfold(all, target@, i as int, true);
                }
                i = i + 1;
            }
            proof {
                if i < lines@.len() {
                    lemma_kept_unfold(all, target@, i as int, true);
                    lemma_kept_unfold(all, target@, i as int, false);
                } else {
                    assert(all.skip(i as int) =~= Seq::<Seq<char>>::empty());
                }
            }
        } else {
            proof {
                lemma_kept_unfold(all, target@, i as int, false);
            }
            let line = copy_range(lines[i].as_slice(), 0, lines[i].len());
            assert(line@ =~= lines@[i as int]@);
            let ghost before = out@;
            out.push(line);
            proof {
                assert(views(out@) =~= views(before).push(line@));
                assert(views(out@) + kept_lines(all.skip(i + 1), target@, false) =~= views(before)
                    + (seq![all[i as int]] + kept_lines(all.skip(i + 1), target@, false)));
            }
            i = i + 1;
        }
    }
    assert(all.skip(lines@.len() as int) =~= Seq::<Seq<char>>::empty());
    assert(views(out@) + kept_lines(Seq::<Seq<char>>::empty(), target@, false) =~= views(out@));
    join_lines(&out)
}

// ---------------------------------------------------------------------------
// Codex configuration
// ---------------------------------------------------------------------------

/// What follows the base URL in the provider block.
pub const CODEX_BLOCK_TAIL: &'static str = "\"\nwire_api = \"responses\"\n\n[model_providers.cursorapi.auth]\ncommand = \"cmd\"\nargs = [\"/c\", \"echo cursor-local\"]\nrefresh_interval_ms = 300000\n";

/// The profile file `cursorapi.config.toml`.
pub const CODEX_PROFILE: &'static str = "model_provider = \"cursorapi\"\nmodel = \"composer-2.5\"\n";

/// The profile file `cursorapi-fast.config.toml`.
pub const CODEX_FAST_PROFILE: &'static str = "model_provider = \"cursorapi\"\nmodel = \"composer-2.5-fast\"\n";

/// The provider block appended to Codex's `config.toml`.
pub open spec fn codex_block(base_url: Seq<char>) -> Seq<char> {
    CODEX_PROVIDER_HEADER@ + "\nname = \""@ + BRAND@ + "\"\nbase_url = \""@ + base_url
        + CODEX_BLOCK_TAIL@
}

/// `existing` without the four tables the API manages: the provider's auth
/// sub-table first, then the provider, then both profiles.
pub open spec fn codex_cleaned(existing: Seq<char>) -> Seq<char> {
    without_table(
        without_table(
            without_table(
                without_table(existing, "model_providers.cursorapi.auth"@),
                "model_providers.cursorapi"@,
            ),
            "profiles.cursorapi"@,
        ),
        "profiles.cursorapi-fast"@,
    )
}

/// Codex's `config.toml` after pointing it at the local API: the rest of the
/// file without trailing whitespace, a blank line when there is a rest, and
/// the provider block.
pub open spec fn codex_config_view(existing: Seq<char>, base_url: Seq<char>) -> Seq<char> {
    let rest = trim_end_seq(codex_cleaned(existing));
    if rest.len() == 0 {
        codex_block(base_url)
    } else {
        rest + "\n\n"@ + codex_block(base_url)
    }
}

/// The provider block appended to Codex's `config.toml`.
pub fn codex_provider_block(base_url: &str) -> (r: String)
    ensures
        r@ == codex_block(base_url@),
{
    let mut b = CODEX_PROVIDER_HEADER.to_string();
    b.append("\nname = \"");
    b.append(BRAND);
    b.append("\"\nbase_url = \"");
    b.append(base_url);
    b.append(CODEX_BLOCK_TAIL);
    b
}

/// Codex's `config.toml` after pointing it at the local API (see
/// [`codex_config_view`]); a file that could not be read counts as empty.
pub fn codex_config(existing: Option<String>, base_url: &str) -> (r: String)
    ensures
        r@ == codex_config_view(
            match existing {
                Some(t) => t@,
                None => seq![],
            },
            base_url@,
        ),
{
    let content = match existing {
        Some(t) => t,
        None => String::new(),
    };
    let content = remove_toml_block(content.as_str(), "model_providers.cursorapi.auth");
    let content = remove_toml_block(content.as_str(), "model_providers.cursorapi");
    let content = remove_toml_block(content.as_str(), "profiles.cursorapi");
    let content = remove_toml_block(content.as_str(), "profiles.cursorapi-fast");
    let chars = chars_of(content.as_str());
    let rest = trim_end(chars.as_slice());
    let mut out = string_from_chars(rest.as_slice());
    if rest.len() > 0 {
        out.append("\n\n");
    }
    let block = codex_provider_block(base_url);
    out.append(block.as_str());
    out
}

/// After Codex is pointed at the local API its `config.toml` holds the
/// provider header that marks it as configured.
pub proof fn law_codex_configured(existing: Seq<char>, base_url: Seq<char>)
    ensures
        has_infix(codex_config_view(existing, base_url), CODEX_PROVIDER_HEADER@),
{
    let rest = trim_end_seq(codex_cleaned(existing));
    let h = CODEX_PROVIDER_HEADER@;
    let out = codex_config_view(existing, base_url);
    let at: int = if rest.len() == 0 {
        0
    } else {
        rest.len() + 2int
    };
    reveal_strlit("\n\n");
    assert(out.subrange(at, at + h.len()) =~= h);
}

/// Pointing Codex at the local API leaves its `config.toml` ending with the
/// provider block, preceded by everything else the file held apart from the
/// managed tables.
pub proof fn law_codex_block_last(existing: Seq<char>, base_url: Seq<char>)
    ensures
        codex_config_view(existing, base_url).len() >= codex_block(base_url).len(),
        codex_config_view(existing, base_url).skip(
            codex_config_view(existing, base_url).len() - codex_block(base_url).len(),
        ) == codex_block(base_url),
        has_prefix(codex_config_view(existing, base_url), trim_end_seq(codex_cleaned(existing))),
{
    let out = codex_config_view(existing, base_url);
    let b = codex_block(base_url);
    assert(out.skip(out.len() - b.len()) =~= b);
    assert(out.take(trim_end_seq(codex_cleaned(existing)).len() as int) =~= trim_end_seq(
        codex_cleaned(existing),
    ));
}

/// Removing a table from text that has no line heading it keeps every line.
pub proof fn law_remove_absent_table(content: Seq<char>, header: Seq<char>)
    requires
        forall|i: int|
            0 <= i < lines_seq(content).len() ==> !is_header_line(
                #[trigger] lines_seq(content)[i],
                header_target(header),
            ),
    ensures
        without_table(content, header) == join_seq(lines_seq(content), seq!['\n']),
{
    lemma_kept_no_header(lines_seq(content), header_target(header));
}

proof fn lemma_kept_no_header(ls: Seq<Seq<char>>, target: Seq<char>)
    requires
        forall|i: int| 0 <= i < ls.len() ==> !is_header_line(#[trigger] ls[i], target),
    ensures
        kept_lines(ls, target, false) == ls,
    decreases ls.len(),
{
    if ls.len() > 0 {
        let rest = ls.drop_first();
        assert forall|i: int| 0 <= i < rest.len() implies !is_header_line(
            #[trigger] rest[i],
            target,
        ) by {
            assert(rest[i] == ls[i + 1]);
        }
        lemma_kept_no_header(rest, target);
        assert(ls[0] == ls[0]);
        assert(!is_header_line(ls[0], target));
        assert(seq![ls[0]] + rest =~= ls);
    }
}

// ---------------------------------------------------------------------------
// Configuring Codex twice
// ---------------------------------------------------------------------------

/// The block's `base_url` setting: `base_url = "<url>"`.
pub open spec fn codex_url_line(base_url: Seq<char>) -> Seq<char> {
    "base_url = \""@ + base_url + "\""@
}

/// The lines of the provider block after the URL setting.
pub open spec fn codex_block_tail_lines() -> Seq<Seq<char>> {
    seq![
        "wire_api = \"responses\""@,
        Seq::<char>::empty(),
        "[model_providers.cursorapi.auth]"@,
        "command = \"cmd\""@,
        "args = [\"/c\", \"echo cursor-local\"]"@,
        "refresh_interval_ms = 300000"@,
    ]
}

/// The lines of the provider block.
pub open spec fn codex_block_lines(base_url: Seq<char>) -> Seq<Seq<char>> {
    seq![CODEX_PROVIDER_HEADER@, "name = \"API for Cursor\""@] + lines_seq(
        codex_url_line(base_url),
    ) + codex_block_tail_lines()
}

/// No line of the block's URL setting after its first opens a table: the
/// base URL holds no line feed followed by a line whose first character
/// that is not whitespace is `[`.
pub open spec fn url_opens_no_table(base_url: Seq<char>) -> bool {
    let ls = lines_seq(codex_url_line(base_url));
    forall|i: int| 1 <= i < ls.len() ==> !opens_table(#[trigger] ls[i])
}

/// The provider block is its header, its name line, the URL setting, and
/// the tail's lines, each ended by a line feed.
proof fn lemma_codex_block_text(base_url: Seq<char>)
    ensures
        codex_block(base_url) == CODEX_PROVIDER_HEADER@ + seq!['\n'] + ("name = \"API for Cursor\""@
            + seq!['\n'] + (codex_url_line(base_url) + seq!['\n'] + (join_seq(
            codex_block_tail_lines(),
            seq!['\n'],
        ) + seq!['\n']))),
{
    reveal_strlit("[model_providers.cursorapi]");
    reveal_strlit("\nname = \"");
    reveal_strlit("API for Cursor");
    reveal_strlit("\"\nbase_url = \"");
    reveal_strlit("\"\nwire_api = \"responses\"\n\n[model_providers.cursorapi.auth]\ncommand = \"cmd\"\nargs = [\"/c\", \"echo cursor-local\"]\nrefresh_interval_ms = 300000\n");
    reveal_strlit("name = \"API for Cursor\"");
    reveal_strlit("base_url = \"");
    reveal_strlit("\"");
    reveal_strlit("wire_api = \"responses\"");
    reveal_strlit("[model_providers.cursorapi.auth]");
    reveal_strlit("command = \"cmd\"");
    reveal_strlit("args = [\"/c\", \"echo cursor-local\"]");
    reveal_strlit("refresh_interval_ms = 300000");
    reveal_with_fuel(join_seq, 7);
    let ls = codex_block_tail_lines();
    assert(codex_block(base_url) =~= CODEX_PROVIDER_HEADER@ + seq!['\n'] + (
    "name = \"API for Cursor\""@ + seq!['\n'] + (codex_url_line(base_url) + seq!['\n'] + (join_seq(
        ls,
        seq!['\n'],
    ) + seq!['\n']))));
}

/// Every line kept has the property that all lines had, and is no header of
/// the removed table.
proof fn lemma_kept_keeps(
    ls: Seq<Seq<char>>,
    target: Seq<char>,
    skipping: bool,
    p: spec_fn(Seq<char>) -> bool,
)
    requires
        forall|i: int| 0 <= i < ls.len() ==> p(#[trigger] ls[i]),
    ensures
        forall|j: int|
            0 <= j < kept_lines(ls, target, skipping).len() ==> p(
                #[trigger] kept_lines(ls, target, skipping)[j],
            ) && !is_header_line(kept_lines(ls, target, skipping)[j], target),
    decreases ls.len(),
{
    if ls.len() > 0 {
        let rest = ls.drop_first();
        assert forall|i: int| 0 <= i < rest.len() implies p(#[trigger] rest[i]) by {
            assert(rest[i] == ls[i + 1]);
        }
        assert(p(ls[0]));
        lemma_kept_keeps(rest, target, true, p);
        lemma_kept_keeps(rest, target, false, p);
        let k = kept_lines(ls, target, skipping);
        if !(skipping && !opens_table(ls[0])) && !is_header_line(ls[0], target) {
            let kr = kept_lines(rest, target, false);
            assert(k == seq![ls[0]] + kr);
            assert forall|j: int| 0 <= j < k.len() implies p(#[trigger] k[j]) && !is_header_line(
                k[j],
                target,
            ) by {
                if j > 0 {
                    assert(k[j] == kr[j - 1]);
                }
            }
        } else {
            assert(k == kept_lines(rest, target, true));
        }
    }
}

/// Lines that head no removed table pass through, and the removal goes on
/// after them as at the start.
proof fn lemma_kept_free_prefix(a: Seq<Seq<char>>, b: Seq<Seq<char>>, target: Seq<char>)
    requires
        forall|i: int| 0 <= i < a.len() ==> !is_header_line(#[trigger] a[i], target),
    ensures
        kept_lines(a + b, target, false) == a + kept_lines(b, target, false),
    decreases a.len(),
{
    if a.len() == 0 {
        assert(a + b =~= b);
    } else {
        let rest = a.drop_first();
        assert forall|i: int| 0 <= i < rest.len() implies !is_header_line(#[trigger] rest[i], target) by {
            assert(rest[i] == a[i + 1]);
        }
        lemma_kept_free_prefix(rest, b, target);
        assert((a + b)[0] == a[0]);
        assert(!is_header_line(a[0], target));
        assert((a + b).drop_first() =~= rest + b);
        assert(a =~= seq![a[0]] + rest);
    }
}

/// Lines of which nothing is kept, whatever the state, add nothing.
proof fn lemma_kept_append_nothing(m: Seq<Seq<char>>, q: Seq<Seq<char>>, target: Seq<char>, skipping: bool)
    requires
        kept_lines(q, target, true) == Seq::<Seq<char>>::empty(),
        kept_lines(q, target, false) == Seq::<Seq<char>>::empty(),
    ensures
        kept_lines(m + q, target, skipping) == kept_lines(m, target, skipping),
    decreases m.len(),
{
    if m.len() == 0 {
        assert(m + q =~= q);
    } else {
        lemma_kept_append_nothing(m.drop_first(), q, target, true);
        lemma_kept_append_nothing(m.drop_first(), q, target, false);
        assert((m + q)[0] == m[0]);
        assert((m + q).drop_first() =~= m.drop_first() + q);
    }
}

/// Inside a removed table, lines that open no table are all dropped.
proof fn lemma_kept_skip_all(ls: Seq<Seq<char>>, target: Seq<char>)
    requires
        forall|i: int| 0 <= i < ls.len() ==> !opens_table(#[trigger] ls[i]),
    ensures
        kept_lines(ls, target, true) == Seq::<Seq<char>>::empty(),
    decreases ls.len(),
{
    if ls.len() > 0 {
        let rest = ls.drop_first();
        assert forall|i: int| 0 <= i < rest.len() implies !opens_table(#[trigger] rest[i]) by {
            assert(rest[i] == ls[i + 1]);
        }
        assert(!opens_table(ls[0]));
        lemma_kept_skip_all(rest, target);
    }
}

/// The targets of the four tables the API manages, in the order they are
/// removed.
pub open spec fn codex_targets() -> Seq<Seq<char>> {
    seq![
        header_target("model_providers.cursorapi.auth"@),
        header_target("model_providers.cursorapi"@),
        header_target("profiles.cursorapi"@),
        header_target("profiles.cursorapi-fast"@),
    ]
}

/// `line` heads none of the tables `targets`.
pub open spec fn heads_none(line: Seq<char>, targets: Seq<Seq<char>>) -> bool {
    forall|k: int| 0 <= k < targets.len() ==> !is_header_line(line, #[trigger] targets[k])
}

/// After a table is removed, no line heads it, and no line heads a table
/// that no line headed before.
proof fn lemma_round_heads_none(s: Seq<char>, header: Seq<char>, targets: Seq<Seq<char>>)
    requires
        forall|j: int| 0 <= j < lines_seq(s).len() ==> heads_none(#[trigger] lines_seq(s)[j], targets),
    ensures
        forall|j: int|
            0 <= j < lines_seq(without_table(s, header)).len() ==> heads_none(
                #[trigger] lines_seq(without_table(s, header))[j],
                targets.push(header_target(header)),
            ),
{
    let ls = lines_seq(s);
    let t = header_target(header);
    lemma_lines_no_newline(s);
    let p = |l: Seq<char>| no_newline(l) && heads_none(l, targets);
    assert forall|i: int| 0 <= i < ls.len() implies p(#[trigger] ls[i]) by {}
    lemma_kept_keeps(ls, t, false, p);
    let k = kept_lines(ls, t, false);
    assert forall|i: int| 0 <= i < k.len() implies no_newline(#[trigger] k[i]) by {
        assert(p(k[i]));
    }
    lemma_lines_of_join_from(k);
    let out = lines_seq(join_seq(k, seq!['\n']));
    let all = targets.push(t);
    assert forall|j: int| 0 <= j < out.len() implies heads_none(#[trigger] out[j], all) by {
        let i = choose|i: int| 0 <= i < k.len() && (#[trigger] out[j] == k[i] || out[j] == strip_cr(k[i]));
        assert(p(k[i]) && !is_header_line(k[i], t));
        lemma_trim_strip_cr(k[i]);
        assert(trim_seq(out[j]) == trim_seq(k[i]));
        assert forall|m: int| 0 <= m < all.len() implies !is_header_line(out[j], #[trigger] all[m]) by {
            if m < targets.len() {
                assert(all[m] == targets[m]);
            } else {
                assert(all[m] == t);
            }
        }
    }
}

/// No line of what is left of a file after the managed tables are removed,
/// trimmed at its end, heads one of them.
proof fn lemma_rest_heads_none(existing: Seq<char>)
    ensures
        forall|j: int|
            0 <= j < lines_seq(trim_end_seq(codex_cleaned(existing))).len() ==> heads_none(
                #[trigger] lines_seq(trim_end_seq(codex_cleaned(existing)))[j],
                codex_targets(),
            ),
{
    let h1 = "model_providers.cursorapi.auth"@;
    let h2 = "model_providers.cursorapi"@;
    let h3 = "profiles.cursorapi"@;
    let h4 = "profiles.cursorapi-fast"@;
    let s1 = without_table(existing, h1);
    let s2 = without_table(s1, h2);
    let s3 = without_table(s2, h3);
    let s4 = without_table(s3, h4);
    let none = Seq::<Seq<char>>::empty();
    assert forall|j: int| 0 <= j < lines_seq(existing).len() implies heads_none(
        #[trigger] lines_seq(existing)[j],
        none,
    ) by {}
    lemma_round_heads_none(existing, h1, none);
    lemma_round_heads_none(s1, h2, none.push(header_target(h1)));
    lemma_round_heads_none(s2, h3, none.push(header_target(h1)).push(header_target(h2)));
    lemma_round_heads_none(
        s3,
        h4,
        none.push(header_target(h1)).push(header_target(h2)).push(header_target(h3)),
    );
    assert(none.push(header_target(h1)).push(header_target(h2)).push(header_target(h3)).push(
        header_target(h4),
    ) =~= codex_targets());
    assert(s4 == codex_cleaned(existing));
    lemma_lines_trim_end(s4);
    let tl = lines_seq(trim_end_seq(s4));
    let sl = lines_seq(s4);
    assert forall|j: int| 0 <= j < tl.len() implies heads_none(#[trigger] tl[j], codex_targets()) by {
        assert(has_trimmed_match(tl[j], sl));
        let i = choose|i: int| 0 <= i < sl.len() && trim_end_seq(tl[j]) == trim_end_seq(#[trigger] sl[i]);
        lemma_trim_by_end(tl[j], sl[i]);
        assert(heads_none(sl[i], codex_targets()));
    }
}

/// A line whose first character is not whitespace is its own trimmed start.
proof fn lemma_trim_start_plain(l: Seq<char>)
    requires
        l.len() > 0,
        !is_ws(l[0]),
    ensures
        trim_start_seq(l) == l,
        opens_table(l) == (l[0] == '['),
{
}

/// A text that begins with a character other than a line feed or carriage
/// return has a first line that begins with it.
proof fn lemma_first_line_start(t: Seq<char>)
    requires
        t.len() > 0,
        t[0] != '\n',
        t[0] != '\r',
    ensures
        lines_seq(t).len() > 0,
        lines_seq(t)[0].len() > 0,
        lines_seq(t)[0][0] == t[0],
{
    lemma_first_newline_props(t);
    if first_newline(t) < t.len() {
        lemma_lines_at_first(t);
        assert(first_newline(t) > 0);
        let a = t.take(first_newline(t) as int);
        assert(a[0] == t[0]);
        if a.len() == 1 {
            assert(strip_cr(a) == a);
        } else {
            assert(strip_cr(a)[0] == a[0]);
        }
    } else {
        assert(no_newline(t));
        lemma_lines_single(t);
    }
}

/// What the lines of the provider block are, and how the table removal
/// treats each of them.
proof fn lemma_block_facts(base_url: Seq<char>)
    requires
        url_opens_no_table(base_url),
    ensures
        ({
            let bl = codex_block_lines(base_url);
            &&& lines_seq(codex_block(base_url)) == bl
            &&& bl.len() >= 7
            &&& forall|i: int| 0 <= i < bl.len() ==> no_newline(#[trigger] bl[i])
            &&& opens_table(bl[0])
            &&& clean_line(bl[0])
            &&& bl[0].len() > 0
            &&& opens_table(bl[bl.len() - 4])
            &&& forall|i: int| 1 <= i < bl.len() && i != bl.len() - 4 ==> !opens_table(#[trigger] bl[i])
            &&& is_header_line(bl[bl.len() - 4], codex_targets()[0])
            &&& is_header_line(bl[0], codex_targets()[1])
        }),
{
    reveal_strlit("[model_providers.cursorapi]");
    reveal_strlit("name = \"API for Cursor\"");
    reveal_strlit("base_url = \"");
    reveal_strlit("\"");
    reveal_strlit("wire_api = \"responses\"");
    reveal_strlit("[model_providers.cursorapi.auth]");
    reveal_strlit("command = \"cmd\"");
    reveal_strlit("args = [\"/c\", \"echo cursor-local\"]");
    reveal_strlit("refresh_interval_ms = 300000");
    reveal_strlit("model_providers.cursorapi.auth");
    reveal_strlit("model_providers.cursorapi");
    let h1 = CODEX_PROVIDER_HEADER@;
    let name = "name = \"API for Cursor\""@;
    let u = codex_url_line(base_url);
    let tl = codex_block_tail_lines();
    let ul = lines_seq(u);
    let bl = codex_block_lines(base_url);
    assert(u[0] == 'b');
    assert(u.last() == '"');
    lemma_first_line_start(u);
    lemma_lines_no_newline(u);
    assert forall|i: int| 0 <= i < tl.len() implies clean_line(#[trigger] tl[i]) by {}
    // The lines.
    lemma_codex_block_text(base_url);
    let j = join_seq(tl, seq!['\n']);
    reveal_with_fuel(join_seq, 7);
    assert(j.last() == '0');
    lemma_lines_concat(j, Seq::<char>::empty());
    assert(j + seq!['\n'] + Seq::<char>::empty() =~= j + seq!['\n']);
    assert(lines_seq(Seq::<char>::empty()) =~= Seq::<Seq<char>>::empty());
    lemma_lines_of_join(tl);
    assert(lines_seq(j + seq!['\n']) == tl) by {
        assert(lines_seq(j) + Seq::<Seq<char>>::empty() =~= lines_seq(j));
    }
    lemma_lines_concat(u, j + seq!['\n']);
    assert(no_newline(name));
    lemma_lines_split(name, u + seq!['\n'] + (j + seq!['\n']));
    assert(no_newline(h1));
    lemma_lines_split(h1, name + seq!['\n'] + (u + seq!['\n'] + (j + seq!['\n'])));
    assert(strip_cr(name) == name);
    assert(strip_cr(h1) == h1);
    assert(lines_seq(codex_block(base_url)) =~= bl);
    // Each line.
    let n = bl.len();
    assert(n == 2 + ul.len() + 6);
    assert(bl[0] == h1);
    assert(bl[1] == name);
    assert forall|i: int| 0 <= i < ul.len() implies #[trigger] bl[i + 2] == ul[i] by {}
    assert forall|i: int| 0 <= i < 6 implies #[trigger] bl[2 + ul.len() + i] == tl[i] by {}
    lemma_trim_start_plain(h1);
    lemma_trim_start_plain(name);
    lemma_trim_start_plain(ul[0]);
    lemma_trim_start_plain(tl[0]);
    assert(trim_start_seq(tl[1]) == tl[1]);
    lemma_trim_start_plain(tl[2]);
    lemma_trim_start_plain(tl[3]);
    lemma_trim_start_plain(tl[4]);
    lemma_trim_start_plain(tl[5]);
    assert(n - 4 == 2 + ul.len() + 2);
    assert forall|i: int| 0 <= i < n implies no_newline(#[trigger] bl[i]) by {
        if 2 <= i < 2 + ul.len() {
            assert(bl[i] == ul[i - 2]);
        } else if i >= 2 + ul.len() {
            assert(bl[i] == tl[i - 2 - ul.len()]);
            assert(clean_line(tl[i - 2 - ul.len()]));
        }
    }
    assert forall|i: int| 1 <= i < n && i != n - 4 implies !opens_table(#[trigger] bl[i]) by {
        if 2 <= i < 2 + ul.len() {
            assert(bl[i] == ul[i - 2]);
        } else if i >= 2 + ul.len() {
            assert(bl[i] == tl[i - 2 - ul.len()]);
        }
    }
    assert(bl[n - 4] == tl[2]);
    assert(trim_seq(tl[2]) == tl[2]);
    assert(trim_seq(h1) == h1);
    assert(seq!['['] + "model_providers.cursorapi.auth"@ + seq![']'] =~= tl[2]);
    assert(seq!['['] + "model_providers.cursorapi"@ + seq![']'] =~= h1);
}

/// What can be left of the start of the provider block after the auth
/// table is removed: nothing, a blank line, or (after an optional blank
/// line) the provider header followed by lines that open no table.
spec fn block_remnant(ls: Seq<Seq<char>>, header_line: Seq<char>) -> bool {
    ||| ls.len() == 0
    ||| ls[0].len() == 0 && (ls.len() == 1 || (ls[1] == header_line && forall|i: int|
        2 <= i < ls.len() ==> !opens_table(#[trigger] ls[i])))
    ||| ls[0] == header_line && forall|i: int| 1 <= i < ls.len() ==> !opens_table(#[trigger] ls[i])
}

/// Removing the auth table from an optional blank line, the provider header
/// and lines that open no table leaves a remnant of that shape.
proof fn lemma_remnant_after_auth(
    blank: Seq<Seq<char>>,
    header_line: Seq<char>,
    r: Seq<Seq<char>>,
    target: Seq<char>,
)
    requires
        blank == Seq::<Seq<char>>::empty() || blank == seq![Seq::<char>::empty()],
        opens_table(header_line),
        forall|i: int| 0 <= i < r.len() ==> !opens_table(#[trigger] r[i]),
    ensures
        block_remnant(kept_lines(blank + seq![header_line] + r, target, false), header_line),
{
    let hr = seq![header_line] + r;
    lemma_kept_keeps(r, target, false, |l: Seq<char>| !opens_table(l));
    lemma_kept_skip_all(r, target);
    assert(hr[0] == header_line);
    assert(hr.drop_first() =~= r);
    let x = kept_lines(hr, target, false);
    assert(kept_lines(hr, target, true) == x);
    let kr = kept_lines(r, target, false);
    if !is_header_line(header_line, target) {
        assert(x == seq![header_line] + kr);
        assert forall|i: int| 1 <= i < x.len() implies !opens_table(#[trigger] x[i]) by {
            assert(x[i] == kr[i - 1]);
        }
    } else {
        assert(x.len() == 0);
    }
    if blank.len() == 0 {
        assert(blank + seq![header_line] + r =~= hr);
    } else {
        let m = blank + seq![header_line] + r;
        assert(m[0] == Seq::<char>::empty());
        assert(m.drop_first() =~= hr);
        assert(!opens_table(Seq::<char>::empty()));
        let k = kept_lines(m, target, false);
        if !is_header_line(Seq::<char>::empty(), target) {
            assert(k == seq![Seq::<char>::empty()] + x);
            if x.len() > 0 {
                assert(k[1] == x[0]);
                assert forall|i: int| 2 <= i < k.len() implies !opens_table(#[trigger] k[i]) by {
                    assert(k[i] == x[i - 1]);
                }
            }
        } else {
            assert(k == x);
        }
    }
}

/// Dropping a final blank line keeps the shape of a remnant.
proof fn lemma_remnant_drop_blank(ls: Seq<Seq<char>>, header_line: Seq<char>)
    requires
        block_remnant(ls, header_line),
        header_line.len() > 0,
        ls.len() > 0,
        ls.last().len() == 0,
    ensures
        block_remnant(ls.drop_last(), header_line),
{
    let d = ls.drop_last();
    if ls[0].len() == 0 && ls.len() > 1 {
        assert(ls.len() > 2);
        assert(d[0] == ls[0]);
        assert(d[1] == ls[1]);
        assert forall|i: int| 2 <= i < d.len() implies !opens_table(#[trigger] d[i]) by {
            assert(d[i] == ls[i]);
        }
    } else if ls[0] == header_line {
        assert(d[0] == ls[0]);
        assert forall|i: int| 1 <= i < d.len() implies !opens_table(#[trigger] d[i]) by {
            assert(d[i] == ls[i]);
        }
    }
}

/// Removing the provider table from a remnant leaves at most a blank line.
proof fn lemma_remnant_after_provider(ls: Seq<Seq<char>>, header_line: Seq<char>, target: Seq<char>)
    requires
        block_remnant(ls, header_line),
        opens_table(header_line),
        is_header_line(header_line, target),
    ensures
        kept_lines(ls, target, false) == Seq::<Seq<char>>::empty() || kept_lines(ls, target, false)
            == seq![Seq::<char>::empty()],
{
    assert(!opens_table(Seq::<char>::empty()));
    if ls.len() > 0 {
        if ls[0].len() == 0 {
            let rest = ls.drop_first();
            if rest.len() > 0 {
                assert(rest[0] == header_line);
                let r2 = rest.drop_first();
                assert forall|i: int| 0 <= i < r2.len() implies !opens_table(#[trigger] r2[i]) by {
                    assert(r2[i] == ls[i + 2]);
                }
                lemma_kept_skip_all(r2, target);
                assert(kept_lines(rest, target, true) == kept_lines(r2, target, true));
                assert(kept_lines(rest, target, false) == kept_lines(r2, target, true));
            } else {
                assert(kept_lines(rest, target, true) == Seq::<Seq<char>>::empty());
                assert(kept_lines(rest, target, false) == Seq::<Seq<char>>::empty());
            }
            if is_header_line(ls[0], target) {
                assert(kept_lines(ls, target, false) == kept_lines(rest, target, true));
            } else {
                assert(kept_lines(ls, target, false) == seq![ls[0]] + kept_lines(rest, target, false));
                assert(ls[0] =~= Seq::<char>::empty());
                assert(seq![ls[0]] + Seq::<Seq<char>>::empty() =~= seq![Seq::<char>::empty()]);
            }
        } else {
            let rest = ls.drop_first();
            assert(ls[0] == header_line);
            assert forall|i: int| 0 <= i < rest.len() implies !opens_table(#[trigger] rest[i]) by {
                assert(rest[i] == ls[i + 1]);
            }
            lemma_kept_skip_all(rest, target);
            assert(kept_lines(ls, target, false) == kept_lines(rest, target, true));
        }
    }
}

/// A line that opens no table still opens none without a final carriage
/// return.
proof fn lemma_strip_cr_opens_none(l: Seq<char>)
    requires
        !opens_table(l),
    ensures
        !opens_table(strip_cr(l)),
{
    if l.len() > 0 && l.last() == '\r' {
        assert(is_ws('\r'));
        lemma_trim_start_drop_last(l);
        let t = trim_start_seq(l);
        if t.len() > 1 {
            assert(t.drop_last()[0] == t[0]);
        }
    }
}

/// Splitting a joined remnant again keeps its shape.
proof fn lemma_remnant_resplit(z: Seq<Seq<char>>, header_line: Seq<char>)
    requires
        block_remnant(z, header_line),
        clean_line(header_line),
        header_line.len() > 0,
    ensures
        block_remnant(resplit(z), header_line),
{
    lemma_resplit_aligned(z);
    let w = resplit(z);
    assert(strip_cr(header_line) == header_line);
    assert(strip_cr(Seq::<char>::empty()) =~= Seq::<char>::empty());
    if w.len() > 0 {
        assert(w[0] == z[0] || w[0] == strip_cr(z[0]));
        if z[0].len() == 0 {
            assert(w[0] =~= Seq::<char>::empty());
            if w.len() > 1 {
                assert(w[1] == z[1] || w[1] == strip_cr(z[1]));
                assert(w[1] == header_line);
                assert forall|i: int| 2 <= i < w.len() implies !opens_table(#[trigger] w[i]) by {
                    assert(w[i] == z[i] || w[i] == strip_cr(z[i]));
                    assert(!opens_table(z[i]));
                    lemma_strip_cr_opens_none(z[i]);
                }
            }
        } else {
            assert(z[0] == header_line);
            assert(w[0] == header_line);
            assert forall|i: int| 1 <= i < w.len() implies !opens_table(#[trigger] w[i]) by {
                assert(w[i] == z[i] || w[i] == strip_cr(z[i]));
                assert(!opens_table(z[i]));
                lemma_strip_cr_opens_none(z[i]);
            }
        }
    }
}

/// The lines of a configured file, as the first removal sees them: those of
/// the rest, a blank line when there is a rest, and the block's lines.
proof fn lemma_configured_lines(existing: Seq<char>, base_url: Seq<char>)
    requires
        url_opens_no_table(base_url),
    ensures
        ({
            let rest = trim_end_seq(codex_cleaned(existing));
            let blank = if rest.len() == 0 {
                Seq::<Seq<char>>::empty()
            } else {
                seq![Seq::<char>::empty()]
            };
            lines_seq(codex_config_view(existing, base_url)) == lines_seq(rest) + blank
                + codex_block_lines(base_url)
        }),
{
    let rest = trim_end_seq(codex_cleaned(existing));
    let b = codex_block(base_url);
    lemma_block_facts(base_url);
    if rest.len() == 0 {
        assert(lines_seq(rest) =~= Seq::<Seq<char>>::empty());
        assert(Seq::<Seq<char>>::empty() + Seq::<Seq<char>>::empty() + codex_block_lines(base_url)
            =~= codex_block_lines(base_url));
    } else {
        lemma_trim_end_last(codex_cleaned(existing));
        assert(is_ws('\n') && is_ws('\r'));
        reveal_strlit("\n\n");
        let nb = seq!['\n'] + b;
        assert(rest + "\n\n"@ + b =~= rest + seq!['\n'] + nb);
        lemma_lines_concat(rest, nb);
        lemma_lines_split(Seq::<char>::empty(), b);
        assert(Seq::<char>::empty() + seq!['\n'] + b =~= nb);
        assert(strip_cr(Seq::<char>::empty()) =~= Seq::<char>::empty());
        assert(lines_seq(rest) + (seq![Seq::<char>::empty()] + codex_block_lines(base_url))
            =~= lines_seq(rest) + seq![Seq::<char>::empty()] + codex_block_lines(base_url));
    }
}

/// Configuring Codex a second time finds, once the managed tables are
/// removed, the same rest as the first time.
#[verifier::rlimit(40)]
proof fn lemma_second_pass(existing: Seq<char>, base_url: Seq<char>)
    requires
        url_opens_no_table(base_url),
        no_crlf(trim_end_seq(codex_cleaned(existing))),
    ensures
        trim_end_seq(codex_cleaned(codex_config_view(existing, base_url))) == trim_end_seq(
            codex_cleaned(existing),
        ),
{
    let rest = trim_end_seq(codex_cleaned(existing));
    let p = lines_seq(rest);
    let bl = codex_block_lines(base_url);
    let targets = codex_targets();
    let out1 = codex_config_view(existing, base_url);
    let empty_line = Seq::<char>::empty();
    let blank = if rest.len() == 0 {
        Seq::<Seq<char>>::empty()
    } else {
        seq![empty_line]
    };
    lemma_rest_heads_none(existing);
    lemma_block_facts(base_url);
    lemma_configured_lines(existing, base_url);
    lemma_trim_end_last(codex_cleaned(existing));
    assert(is_ws('\n') && is_ws('\r'));
    lemma_lines_clean(rest);
    lemma_join_of_lines(rest);
    lemma_trim_end_idem(codex_cleaned(existing));
    if rest.len() == 0 {
        assert(p =~= Seq::<Seq<char>>::empty());
    }
    assert(p.len() > 0 <==> rest.len() > 0) by {
        if rest.len() > 0 {
            lemma_lines_nonempty(rest);
        }
    }
    // First removal: the auth table.
    let n = bl.len();
    let h1 = bl[0];
    let r = bl.subrange(1, n - 4);
    let q = bl.skip(n - 4);
    let m = blank + seq![h1] + r;
    assert(blank + bl =~= m + q);
    assert forall|i: int| 0 <= i < r.len() implies !opens_table(#[trigger] r[i]) by {
        assert(r[i] == bl[i + 1]);
    }
    let tail = q.drop_first();
    assert forall|i: int| 0 <= i < tail.len() implies !opens_table(#[trigger] tail[i]) by {
        assert(tail[i] == bl[n - 3 + i]);
    }
    lemma_kept_skip_all(tail, targets[0]);
    assert(q[0] == bl[n - 4]);
    assert(kept_lines(q, targets[0], true) == kept_lines(tail, targets[0], true));
    assert(kept_lines(q, targets[0], false) == kept_lines(tail, targets[0], true));
    lemma_kept_append_nothing(m, q, targets[0], false);
    assert forall|i: int| 0 <= i < p.len() implies !is_header_line(#[trigger] p[i], targets[0]) by {
        assert(heads_none(p[i], targets));
    }
    lemma_kept_free_prefix(p, blank + bl, targets[0]);
    assert(p + blank + bl =~= p + (blank + bl));
    let z = kept_lines(m, targets[0], false);
    assert(kept_lines(lines_seq(out1), targets[0], false) == p + z);
    lemma_remnant_after_auth(blank, h1, r, targets[0]);
    assert forall|i: int| 0 <= i < m.len() implies no_newline(#[trigger] m[i]) by {
        if blank.len() == 1 && i == 0 {
            assert(m[0] == empty_line);
        } else {
            assert(m[i] == bl[i - blank.len()]);
        }
    }
    lemma_kept_keeps(m, targets[0], false, |l: Seq<char>| no_newline(l));
    let s1 = without_table(out1, "model_providers.cursorapi.auth"@);
    assert(s1 == join_seq(p + z, seq!['\n']));
    // The lines after the first removal.
    assert forall|i: int| 0 <= i < z.len() implies no_newline(#[trigger] z[i]) by {}
    lemma_lines_of_join_exact(z);
    let z1 = resplit(z);
    lemma_remnant_resplit(z, h1);
    assert(lines_seq(s1) == p + z1) by {
        if p.len() > 0 {
            if z.len() > 0 {
                lemma_join_concat(p, z, seq!['\n']);
                lemma_lines_concat(rest, join_seq(z, seq!['\n']));
            } else {
                assert(p + z =~= p);
                assert(z1 =~= Seq::<Seq<char>>::empty());
                assert(p + z1 =~= p);
            }
        } else {
            assert(p + z =~= z);
            assert(p + z1 =~= z1);
        }
    }
    // Second removal: the provider table.
    assert forall|i: int| 0 <= i < p.len() implies !is_header_line(#[trigger] p[i], targets[1]) by {
        assert(heads_none(p[i], targets));
    }
    lemma_kept_free_prefix(p, z1, targets[1]);
    lemma_remnant_after_provider(z1, h1, targets[1]);
    let y = kept_lines(z1, targets[1], false);
    let s2 = without_table(s1, "model_providers.cursorapi"@);
    assert(s2 == join_seq(p + y, seq!['\n']));
    assert(lines_seq(s2) == p) by {
        if p.len() > 0 {
            if y.len() == 0 {
                assert(p + y =~= p);
            } else {
                assert(p + y =~= p.push(empty_line));
                lemma_join_push(p, empty_line, seq!['\n']);
                lemma_lines_concat(rest, empty_line);
                assert(rest + seq!['\n'] =~= rest + seq!['\n'] + empty_line);
                assert(lines_seq(empty_line) =~= Seq::<Seq<char>>::empty());
                assert(p + Seq::<Seq<char>>::empty() =~= p);
            }
        } else {
            assert(p + y =~= y);
            assert(join_seq(y, seq!['\n']) =~= empty_line);
        }
    }
    // The last two removals find nothing.
    assert forall|i: int| 0 <= i < p.len() implies !is_header_line(#[trigger] p[i], targets[2]) by {
        assert(heads_none(p[i], targets));
    }
    assert forall|i: int| 0 <= i < p.len() implies !is_header_line(#[trigger] p[i], targets[3]) by {
        assert(heads_none(p[i], targets));
    }
    lemma_kept_no_header(p, targets[2]);
    lemma_kept_no_header(p, targets[3]);
    let s3 = without_table(s2, "profiles.cursorapi"@);
    assert(s3 == rest);
    let s4 = without_table(s3, "profiles.cursorapi-fast"@);
    assert(s4 == rest);
    assert(codex_cleaned(out1) == s4);
}

/// Configuring Codex twice leaves `config.toml` as configuring it once did.
/// It fails only when the base URL holds a line feed followed by a line
/// that opens a table (the next pass keeps that table), or when what is kept
/// of the file holds `"\r\n"` (the next pass reads lines as `str::lines`
/// does and writes them back joined by `"\n"`).
pub proof fn law_codex_idempotent(existing: Seq<char>, base_url: Seq<char>)
    requires
        url_opens_no_table(base_url),
        no_crlf(trim_end_seq(codex_cleaned(existing))),
    ensures
        codex_config_view(codex_config_view(existing, base_url), base_url) == codex_config_view(
            existing,
            base_url,
        ),
{
    lemma_second_pass(existing, base_url);
}

/// After a table is removed no line heads it any more, so removing it again
/// drops nothing: the text only comes back split into lines and joined, and
/// its lines stay the same unless one of them ends in a carriage return or
/// the last is empty (splitting drops those).
pub proof fn law_remove_table_twice(content: Seq<char>, header: Seq<char>)
    ensures
        forall|j: int|
            0 <= j < lines_seq(without_table(content, header)).len() ==> !is_header_line(
                #[trigger] lines_seq(without_table(content, header))[j],
                header_target(header),
            ),
        without_table(without_table(content, header), header) == join_seq(
            lines_seq(without_table(content, header)),
            seq!['\n'],
        ),
        ({
            let ls = lines_seq(without_table(content, header));
            (forall|j: int| 0 <= j < ls.len() ==> clean_line(#[trigger] ls[j])) && (ls.len() > 0
                ==> ls.last().len() > 0) ==> lines_seq(
                without_table(without_table(content, header), header),
            ) == ls
        }),
{
    let none = Seq::<Seq<char>>::empty();
    let r = without_table(content, header);
    assert forall|j: int| 0 <= j < lines_seq(content).len() implies heads_none(
        #[trigger] lines_seq(content)[j],
        none,
    ) by {}
    lemma_round_heads_none(content, header, none);
    assert forall|j: int| 0 <= j < lines_seq(r).len() implies !is_header_line(
        #[trigger] lines_seq(r)[j],
        header_target(header),
    ) by {
        assert(heads_none(lines_seq(r)[j], none.push(header_target(header))));
        assert(none.push(header_target(header))[0] == header_target(header));
    }
    law_remove_absent_table(r, header);
    let ls = lines_seq(r);
    if (forall|j: int| 0 <= j < ls.len() ==> clean_line(#[trigger] ls[j])) && (ls.len() > 0
        ==> ls.last().len() > 0) {
        lemma_lines_of_join(ls);
    }
}

} // verus!
