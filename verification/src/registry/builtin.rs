//! Built-in MCP server registry of verified servers.

use crate::registry::{
    entries_view, strings_from, strings_view, EntryView, RegistryEntry, RegistrySource,
};
use crate::text::{
    all_ascii, concat, contains, contains_seq, is_ws, lemma_lower_blank, lemma_lower_join,
    lemma_words_blank, lemma_words_join, lower, split_whitespace, string_from_chars, to_lower,
    to_string, words,
};
use vstd::prelude::*;

verus! {

/// A built-in entry: an npm package run with `npx -y <package>@latest`.
pub open spec fn builtin_view(
    name: Seq<char>,
    description: Seq<char>,
    package: Seq<char>,
    extra_arg: Option<Seq<char>>,
    env_vars: Seq<Seq<char>>,
    keywords: Seq<Seq<char>>,
) -> EntryView {
    EntryView {
        name,
        description,
        transport: "stdio"@,
        command: Some("npx"@),
        args: seq!["-y"@, package + "@latest"@] + match extra_arg {
            Some(a) => seq![a],
            None => Seq::empty(),
        },
        url: None,
        headers: Seq::empty(),
        env_vars,
        keywords,
        source: RegistrySource::Builtin,
        trust_score: 1000,
        npm_package: Some(package),
    }
}

/// The built-in registry, in order.
pub open spec fn builtin_table() -> Seq<EntryView> {
    seq![
        builtin_view(
            "playwright"@,
            "Browser automation via Playwright MCP — navigate, click, fill, screenshot"@,
            "@playwright/mcp"@,
            None,
            seq![],
            seq!["browser"@, "web"@, "automation"@, "click"@, "screenshot"@, "navigate"@, "playwright"@],
        ),
        builtin_view(
            "puppeteer"@,
            "Headless browser control via Puppeteer — navigate, screenshot, scrape"@,
            "@modelcontextprotocol/server-puppeteer"@,
            None,
            seq![],
            seq!["browser"@, "web"@, "puppeteer"@, "headless"@, "scrape"@],
        ),
        builtin_view(
            "filesystem"@,
            "Read, write, search files on the local filesystem"@,
            "@modelcontextprotocol/server-filesystem"@,
            Some("/tmp"@),
            seq![],
            seq!["file"@, "filesystem"@, "read"@, "write"@, "directory"@, "search"@],
        ),
        builtin_view(
            "postgres"@,
            "Query PostgreSQL databases — read-only by default"@,
            "@modelcontextprotocol/server-postgres"@,
            None,
            seq!["POSTGRES_CONNECTION_STRING"@],
            seq!["database"@, "postgres"@, "sql"@, "query"@, "postgresql"@],
        ),
        builtin_view(
            "sqlite"@,
            "Query SQLite databases"@,
            "@modelcontextprotocol/server-sqlite"@,
            None,
            seq![],
            seq!["database"@, "sqlite"@, "sql"@, "query"@],
        ),
        builtin_view(
            "github"@,
            "Interact with GitHub — repos, issues, PRs, code search"@,
            "@modelcontextprotocol/server-github"@,
            None,
            seq!["GITHUB_PERSONAL_ACCESS_TOKEN"@],
            seq!["github"@, "git"@, "repo"@, "issues"@, "pull request"@, "code"@],
        ),
        builtin_view(
            "brave-search"@,
            "Web search via Brave Search API"@,
            "@modelcontextprotocol/server-brave-search"@,
            None,
            seq!["BRAVE_API_KEY"@],
            seq!["search"@, "web"@, "brave"@, "internet"@, "query"@],
        ),
        builtin_view(
            "memory"@,
            "Knowledge graph-based persistent memory for AI agents"@,
            "@modelcontextprotocol/server-memory"@,
            None,
            seq![],
            seq!["memory"@, "knowledge"@, "graph"@, "persistent"@, "remember"@],
        ),
        builtin_view(
            "fetch"@,
            "Fetch web pages and convert to markdown"@,
            "@modelcontextprotocol/server-fetch"@,
            None,
            seq![],
            seq!["fetch"@, "http"@, "web"@, "url"@, "download"@, "markdown"@],
        ),
        builtin_view(
            "slack"@,
            "Send and read Slack messages, manage channels"@,
            "@modelcontextprotocol/server-slack"@,
            None,
            seq!["SLACK_BOT_TOKEN"@],
            seq!["slack"@, "chat"@, "messaging"@, "team"@, "channel"@],
        ),
        builtin_view(
            "redis"@,
            "Read/write Redis key-value store"@,
            "@modelcontextprotocol/server-redis"@,
            None,
            seq!["REDIS_URL"@],
            seq!["redis"@, "cache"@, "key-value"@, "database"@],
        ),
        builtin_view(
            "sequential-thinking"@,
            "Step-by-step reasoning and problem decomposition"@,
            "@modelcontextprotocol/server-sequential-thinking"@,
            None,
            seq![],
            seq!["thinking"@, "reasoning"@, "logic"@, "planning"@, "decompose"@],
        ),
        builtin_view(
            "google-maps"@,
            "Search places, get directions, geocoding via Google Maps"@,
            "@modelcontextprotocol/server-google-maps"@,
            None,
            seq!["GOOGLE_MAPS_API_KEY"@],
            seq!["maps"@, "location"@, "directions"@, "geocoding"@, "places"@, "google"@],
        ),
        builtin_view(
            "everart"@,
            "AI image generation via EverArt"@,
            "@modelcontextprotocol/server-everart"@,
            None,
            seq!["EVERART_API_KEY"@],
            seq!["image"@, "art"@, "generate"@, "ai"@, "creative"@],
        ),
    ]
}

/// The content of a list of string slices.
pub open spec fn strs_view(v: Seq<&str>) -> Seq<Seq<char>> {
    Seq::new(v.len(), |i: int| v[i]@)
}

fn builtin_entry(
    name: &str,
    description: &str,
    package: &str,
    extra_arg: Option<&str>,
    env_vars: &[&str],
    keywords: &[&str],
) -> (r: RegistryEntry)
    ensures
        r@ == builtin_view(
            name@,
            description@,
            package@,
            match extra_arg {
                Some(a) => Some(a@),
                None => None,
            },
            strs_view(env_vars@),
            strs_view(keywords@),
        ),
{
    let mut args: Vec<String> = Vec::new();
    args.push(to_string("-y"));
    args.push(concat(package, "@latest"));
    match extra_arg {
        Some(a) => args.push(to_string(a)),
        None => {},
    }
    let env = strings_from(env_vars);
    let kws = strings_from(keywords);
    let r = RegistryEntry {
        name: to_string(name),
        description: to_string(description),
        transport: to_string("stdio"),
        command: Some(to_string("npx")),
        args,
        url: None,
        headers: Vec::new(),
        env_vars: env,
        keywords: kws,
        source: RegistrySource::Builtin,
        trust_score: 1000,
        npm_package: Some(to_string(package)),
    };
    proof {
        assert(strings_view(r.env_vars@) =~= strs_view(env_vars@));
        assert(strings_view(r.keywords@) =~= strs_view(keywords@));
        let ghost extra = match extra_arg {
            Some(a) => seq![a@],
            None => Seq::<Seq<char>>::empty(),
        };
        assert(strings_view(r.args@) =~= seq!["-y"@, package@ + "@latest"@] + extra);
        assert(crate::registry::pairs_view(r.headers@) =~= Seq::empty());
    }
    r
}

/// All built-in registry entries, in order.
pub fn all_entries() -> (r: Vec<RegistryEntry>)
    ensures
        entries_view(r@) == builtin_table(),
{
    let env0: &[&str] = &[];
    let kw0: &[&str] = &["browser", "web", "automation", "click", "screenshot", "navigate", "playwright"];
    proof {
        assert(strs_view(env0@) =~= seq![]);
        assert(strs_view(kw0@) =~= seq!["browser"@, "web"@, "automation"@, "click"@, "screenshot"@, "navigate"@, "playwright"@]);
    }
    let e0 = builtin_entry("playwright", "Browser automation via Playwright MCP — navigate, click, fill, screenshot", "@playwright/mcp", None, env0, kw0);
    assert(e0@ == builtin_table()[0]);
    let env1: &[&str] = &[];
    let kw1: &[&str] = &["browser", "web", "puppeteer", "headless", "scrape"];
    proof {
        assert(strs_view(env1@) =~= seq![]);
        assert(strs_view(kw1@) =~= seq!["browser"@, "web"@, "puppeteer"@, "headless"@, "scrape"@]);
    }
    let e1 = builtin_entry("puppeteer", "Headless browser control via Puppeteer — navigate, screenshot, scrape", "@modelcontextprotocol/server-puppeteer", None, env1, kw1);
    assert(e1@ == builtin_table()[1]);
    let env2: &[&str] = &[];
    let kw2: &[&str] = &["file", "filesystem", "read", "write", "directory", "search"];
    proof {
        assert(strs_view(env2@) =~= seq![]);
        assert(strs_view(kw2@) =~= seq!["file"@, "filesystem"@, "read"@, "write"@, "directory"@, "search"@]);
    }
    let e2 = builtin_entry("filesystem", "Read, write, search files on the local filesystem", "@modelcontextprotocol/server-filesystem", Some("/tmp"), env2, kw2);
    assert(e2@ == builtin_table()[2]);
    let env3: &[&str] = &["POSTGRES_CONNECTION_STRING"];
    let kw3: &[&str] = &["database", "postgres", "sql", "query", "postgresql"];
    proof {
        assert(strs_view(env3@) =~= seq!["POSTGRES_CONNECTION_STRING"@]);
        assert(strs_view(kw3@) =~= seq!["database"@, "postgres"@, "sql"@, "query"@, "postgresql"@]);
    }
    let e3 = builtin_entry("postgres", "Query PostgreSQL databases — read-only by default", "@modelcontextprotocol/server-postgres", None, env3, kw3);
    assert(e3@ == builtin_table()[3]);
    let env4: &[&str] = &[];
    let kw4: &[&str] = &["database", "sqlite", "sql", "query"];
    proof {
        assert(strs_view(env4@) =~= seq![]);
        assert(strs_view(kw4@) =~= seq!["database"@, "sqlite"@, "sql"@, "query"@]);
    }
    let e4 = builtin_entry("sqlite", "Query SQLite databases", "@modelcontextprotocol/server-sqlite", None, env4, kw4);
    assert(e4@ == builtin_table()[4]);
    let env5: &[&str] = &["GITHUB_PERSONAL_ACCESS_TOKEN"];
    let kw5: &[&str] = &["github", "git", "repo", "issues", "pull request", "code"];
    proof {
        assert(strs_view(env5@) =~= seq!["GITHUB_PERSONAL_ACCESS_TOKEN"@]);
        assert(strs_view(kw5@) =~= seq!["github"@, "git"@, "repo"@, "issues"@, "pull request"@, "code"@]);
    }
    let e5 = builtin_entry("github", "Interact with GitHub — repos, issues, PRs, code search", "@modelcontextprotocol/server-github", None, env5, kw5);
    assert(e5@ == builtin_table()[5]);
    let env6: &[&str] = &["BRAVE_API_KEY"];
    let kw6: &[&str] = &["search", "web", "brave", "internet", "query"];
    proof {
        assert(strs_view(env6@) =~= seq!["BRAVE_API_KEY"@]);
        assert(strs_view(kw6@) =~= seq!["search"@, "web"@, "brave"@, "internet"@, "query"@]);
    }
    let e6 = builtin_entry("brave-search", "Web search via Brave Search API", "@modelcontextprotocol/server-brave-search", None, env6, kw6);
    assert(e6@ == builtin_table()[6]);
    let env7: &[&str] = &[];
    let kw7: &[&str] = &["memory", "knowledge", "graph", "persistent", "remember"];
    proof {
        assert(strs_view(env7@) =~= seq![]);
        assert(strs_view(kw7@) =~= seq!["memory"@, "knowledge"@, "graph"@, "persistent"@, "remember"@]);
    }
    let e7 = builtin_entry("memory", "Knowledge graph-based persistent memory for AI agents", "@modelcontextprotocol/server-memory", None, env7, kw7);
    assert(e7@ == builtin_table()[7]);
    let env8: &[&str] = &[];
    let kw8: &[&str] = &["fetch", "http", "web", "url", "download", "markdown"];
    proof {
        assert(strs_view(env8@) =~= seq![]);
        assert(strs_view(kw8@) =~= seq!["fetch"@, "http"@, "web"@, "url"@, "download"@, "markdown"@]);
    }
    let e8 = builtin_entry("fetch", "Fetch web pages and convert to markdown", "@modelcontextprotocol/server-fetch", None, env8, kw8);
    assert(e8@ == builtin_table()[8]);
    let env9: &[&str] = &["SLACK_BOT_TOKEN"];
    let kw9: &[&str] = &["slack", "chat", "messaging", "team", "channel"];
    proof {
        assert(strs_view(env9@) =~= seq!["SLACK_BOT_TOKEN"@]);
        assert(strs_view(kw9@) =~= seq!["slack"@, "chat"@, "messaging"@, "team"@, "channel"@]);
    }
    let e9 = builtin_entry("slack", "Send and read Slack messages, manage channels", "@modelcontextprotocol/server-slack", None, env9, kw9);
    assert(e9@ == builtin_table()[9]);
    let env10: &[&str] = &["REDIS_URL"];
    let kw10: &[&str] = &["redis", "cache", "key-value", "database"];
    proof {
        assert(strs_view(env10@) =~= seq!["REDIS_URL"@]);
        assert(strs_view(kw10@) =~= seq!["redis"@, "cache"@, "key-value"@, "database"@]);
    }
    let e10 = builtin_entry("redis", "Read/write Redis key-value store", "@modelcontextprotocol/server-redis", None, env10, kw10);
    assert(e10@ == builtin_table()[10]);
    let env11: &[&str] = &[];
    let kw11: &[&str] = &["thinking", "reasoning", "logic", "planning", "decompose"];
    proof {
        assert(strs_view(env11@) =~= seq![]);
        assert(strs_view(kw11@) =~= seq!["thinking"@, "reasoning"@, "logic"@, "planning"@, "decompose"@]);
    }
    let e11 = builtin_entry("sequential-thinking", "Step-by-step reasoning and problem decomposition", "@modelcontextprotocol/server-sequential-thinking", None, env11, kw11);
    assert(e11@ == builtin_table()[11]);
    let env12: &[&str] = &["GOOGLE_MAPS_API_KEY"];
    let kw12: &[&str] = &["maps", "location", "directions", "geocoding", "places", "google"];
    proof {
        assert(strs_view(env12@) =~= seq!["GOOGLE_MAPS_API_KEY"@]);
        assert(strs_view(kw12@) =~= seq!["maps"@, "location"@, "directions"@, "geocoding"@, "places"@, "google"@]);
    }
    let e12 = builtin_entry("google-maps", "Search places, get directions, geocoding via Google Maps", "@modelcontextprotocol/server-google-maps", None, env12, kw12);
    assert(e12@ == builtin_table()[12]);
    let env13: &[&str] = &["EVERART_API_KEY"];
    let kw13: &[&str] = &["image", "art", "generate", "ai", "creative"];
    proof {
        assert(strs_view(env13@) =~= seq!["EVERART_API_KEY"@]);
        assert(strs_view(kw13@) =~= seq!["image"@, "art"@, "generate"@, "ai"@, "creative"@]);
    }
    let e13 = builtin_entry("everart", "AI image generation via EverArt", "@modelcontextprotocol/server-everart", None, env13, kw13);
    assert(e13@ == builtin_table()[13]);
    let r = vec![e0, e1, e2, e3, e4, e5, e6, e7, e8, e9, e10, e11, e12, e13];
    assert(entries_view(r@) =~= builtin_table());
    r
}

// ── search ─────────────────────────────────────────────────────────

/// Whether a (lower-case) word occurs in the lower-cased name, description
/// or one of the keywords of an entry.
pub open spec fn word_hits(e: EntryView, w: Seq<char>) -> bool {
    ||| contains_seq(lower(e.name), w)
    ||| contains_seq(lower(e.description), w)
    ||| exists|k: int| 0 <= k < e.keywords.len() && contains_seq(lower(e.keywords[k]), w)
}

/// Whether an entry matches a query: some white-space separated word of the
/// lower-cased query hits it.
pub open spec fn entry_matches(e: EntryView, query: Seq<char>) -> bool {
    let ws = words(lower(query));
    exists|i: int| 0 <= i < ws.len() && word_hits(e, ws[i])
}

/// The match test of a query, as a predicate.
pub open spec fn matches_query(query: Seq<char>) -> spec_fn(EntryView) -> bool {
    |e: EntryView| entry_matches(e, query)
}

fn word_hits_entry(e: &RegistryEntry, w: &str) -> (r: bool)
    ensures
        r == word_hits(e@, w@),
{
    let name = to_lower(e.name.as_str());
    if contains(name.as_str(), w) {
        return true;
    }
    let desc = to_lower(e.description.as_str());
    if contains(desc.as_str(), w) {
        return true;
    }
    let mut k: usize = 0;
    while k < e.keywords.len()
        invariant
            0 <= k <= e.keywords.len(),
            !contains_seq(lower(e@.name), w@),
            !contains_seq(lower(e@.description), w@),
            forall|j: int| 0 <= j < k ==> !contains_seq(lower(e@.keywords[j]), w@),
        decreases e.keywords.len() - k,
    {
        let kw = to_lower(e.keywords[k].as_str());
        if contains(kw.as_str(), w) {
            assert(e@.keywords[k as int] == e.keywords@[k as int]@);
            return true;
        }
        k = k + 1;
    }
    false
}

/// The words of a query, lower-cased, as strings.
fn query_words(query: &str) -> (r: Vec<String>)
    ensures
        r@.len() == words(lower(query@)).len(),
        forall|i: int| 0 <= i < r@.len() ==> #[trigger] r@[i]@ == words(lower(query@))[i],
{
    let lowered = to_lower(query);
    let ws = split_whitespace(lowered.as_str());
    let mut out: Vec<String> = Vec::new();
    let mut i: usize = 0;
    while i < ws.len()
        invariant
            0 <= i <= ws.len(),
            out@.len() == i,
            ws@.len() == words(lowered@).len(),
            forall|j: int| 0 <= j < ws@.len() ==> #[trigger] ws@[j]@ == words(lowered@)[j],
            forall|j: int| 0 <= j < i ==> #[trigger] out@[j]@ == words(lowered@)[j],
        decreases ws.len() - i,
    {
        out.push(string_from_chars(ws[i].as_slice()));
        i = i + 1;
    }
    out
}

/// The entries that match a query, in their order.
pub fn search_entries(entries: Vec<RegistryEntry>, query: &str) -> (r: Vec<RegistryEntry>)
    ensures
        entries_view(r@) == entries_view(entries@).filter(matches_query(query@)),
{
    let ws = query_words(query);
    let ghost ev = entries_view(entries@);
    let ghost pred = matches_query(query@);
    let mut out: Vec<RegistryEntry> = Vec::new();
    let mut rest = entries;
    let ghost orig = rest@;
    let n = rest.len();
    let mut i: usize = 0;
    assert(ev.take(0).filter(pred) =~= Seq::<EntryView>::empty());
    assert(entries_view(out@) =~= Seq::<EntryView>::empty());
    while rest.len() > 0
        invariant
            ev == entries_view(orig),
            pred == matches_query(query@),
            i + rest@.len() == orig.len(),
            orig.len() == n,
            rest@ == orig.skip(i as int),
            entries_view(out@) == ev.take(i as int).filter(pred),
            ws@.len() == words(lower(query@)).len(),
            forall|j: int| 0 <= j < ws@.len() ==> #[trigger] ws@[j]@ == words(lower(query@))[j],
        decreases rest.len(),
    {
        let e = rest.remove(0);
        assert(e == orig[i as int]);
        let mut hit = false;
        let mut k: usize = 0;
        while k < ws.len()
            invariant
                0 <= k <= ws.len(),
                ws@.len() == words(lower(query@)).len(),
                forall|j: int| 0 <= j < ws@.len() ==> #[trigger] ws@[j]@ == words(lower(query@))[j],
                hit == (exists|j: int| 0 <= j < k && word_hits(e@, words(lower(query@))[j])),
            decreases ws.len() - k,
        {
            if word_hits_entry(&e, ws[k].as_str()) {
                hit = true;
            }
            k = k + 1;
        }
        assert(hit == entry_matches(e@, query@));
        proof {
            reveal_with_fuel(Seq::filter, 1);
            assert(ev.take(i + 1).drop_last() =~= ev.take(i as int));
            assert(ev.take(i + 1).last() == e@);
        }
        let ghost before = out@;
        assert(rest@ =~= orig.skip(i + 1));
        if hit {
            out.push(e);
            assert(entries_view(out@) =~= entries_view(before).push(e@));
        }
        i = i + 1;
    }
    assert(ev.take(i as int) =~= ev);
    out
}

/// Searches the built-in entries by keyword.
pub fn search(query: &str) -> (r: Vec<RegistryEntry>)
    ensures
        entries_view(r@) == builtin_table().filter(matches_query(query@)),
{
    search_entries(all_entries(), query)
}

// ── laws of search ────────────────────────────────────────────────

/// Whether an entry matches one query or the other.
pub open spec fn matches_either(q1: Seq<char>, q2: Seq<char>) -> spec_fn(EntryView) -> bool {
    |e: EntryView| entry_matches(e, q1) || entry_matches(e, q2)
}

/// A query that has no words once lower-cased (a blank one) finds nothing.
pub proof fn law_search_blank(query: Seq<char>)
    requires
        words(lower(query)).len() == 0,
    ensures
        builtin_table().filter(matches_query(query)) == Seq::<EntryView>::empty(),
{
    broadcast use vstd::seq_lib::group_filter_ensures;

    let f = builtin_table().filter(matches_query(query));
    if f.len() > 0 {
        assert(matches_query(query)(f[0]));
    }
    assert(f =~= Seq::<EntryView>::empty());
}

/// A query whose words are those of two queries together (such as the two
/// joined by a space, where lower-casing keeps them apart) finds exactly
/// the entries that either query finds, in registry order.
pub proof fn law_search_joined(query: Seq<char>, q1: Seq<char>, q2: Seq<char>)
    requires
        words(lower(query)) == words(lower(q1)) + words(lower(q2)),
    ensures
        builtin_table().filter(matches_query(query)) == builtin_table().filter(
            matches_either(q1, q2),
        ),
{
    let w = words(lower(query));
    let w1 = words(lower(q1));
    let w2 = words(lower(q2));
    assert forall|e: EntryView| #[trigger] matches_query(query)(e) == matches_either(q1, q2)(e) by {
        if entry_matches(e, q1) {
            let i = choose|i: int| 0 <= i < w1.len() && word_hits(e, w1[i]);
            assert(w[i] == w1[i]);
        }
        if entry_matches(e, q2) {
            let i = choose|i: int| 0 <= i < w2.len() && word_hits(e, w2[i]);
            assert(w[w1.len() + i] == w2[i]);
        }
        if entry_matches(e, query) {
            let i = choose|i: int| 0 <= i < w.len() && word_hits(e, w[i]);
            if i < w1.len() {
                assert(w1[i] == w[i]);
            } else {
                assert(w2[i - w1.len()] == w[i]);
            }
        }
    }
    assert(matches_query(query) =~= matches_either(q1, q2));
}

/// An ASCII query made of white space alone, the empty query among them,
/// finds nothing.
pub proof fn law_search_blank_ascii(query: Seq<char>)
    requires
        all_ascii(query),
        forall|i: int| 0 <= i < query.len() ==> is_ws(#[trigger] query[i]),
    ensures
        builtin_table().filter(matches_query(query)) == Seq::<EntryView>::empty(),
{
    lemma_lower_blank(query);
    lemma_words_blank(lower(query));
    law_search_blank(query);
}

/// Two ASCII queries joined by a space find exactly the entries that
/// either finds, in registry order.
pub proof fn law_search_joined_ascii(q1: Seq<char>, q2: Seq<char>)
    requires
        all_ascii(q1),
        all_ascii(q2),
    ensures
        builtin_table().filter(matches_query(q1 + seq![' '] + q2)) == builtin_table().filter(
            matches_either(q1, q2),
        ),
{
    lemma_lower_join(q1, q2);
    lemma_words_join(lower(q1), lower(q2));
    law_search_joined(q1 + seq![' '] + q2, q1, q2);
}

} // verus!
