//! Self-foraging registry: MCP server entries, where they come from, and how
//! results of several sources are ranked.

pub mod builtin;
pub mod remote;

use vstd::prelude::*;

verus! {

/// Where a registry entry came from.
#[derive(Debug, Clone, Copy, PartialEq, Eq, Structural)]
pub enum RegistrySource {
    Builtin,
    Smithery,
    Npm,
    McpRegistry,
    Custom,
}

impl RegistrySource {
    /// The display name of the source.
    pub open spec fn name_spec(self) -> Seq<char> {
        match self {
            RegistrySource::Builtin => "builtin"@,
            RegistrySource::Smithery => "smithery"@,
            RegistrySource::Npm => "npm"@,
            RegistrySource::McpRegistry => "mcp-registry"@,
            RegistrySource::Custom => "custom"@,
        }
    }

    /// The display name of the source, such as `mcp-registry`.
    pub fn to_string(&self) -> (r: String)
        ensures
            r@ == self.name_spec(),
    {
        let s = match self {
            RegistrySource::Builtin => "builtin",
            RegistrySource::Smithery => "smithery",
            RegistrySource::Npm => "npm",
            RegistrySource::McpRegistry => "mcp-registry",
            RegistrySource::Custom => "custom",
        };
        crate::text::to_string(s)
    }
}

/// A discovered MCP server entry.
#[derive(Debug, Clone)]
pub struct RegistryEntry {
    pub name: String,
    pub description: String,
    pub transport: String,
    /// Command to run (for stdio).
    pub command: Option<String>,
    /// Arguments for the command.
    pub args: Vec<String>,
    /// URL (for http/sse).
    pub url: Option<String>,
    /// Headers (for http/sse), each name at most once.
    pub headers: Vec<(String, String)>,
    /// Environment variables needed.
    pub env_vars: Vec<String>,
    /// Keywords for search matching.
    pub keywords: Vec<String>,
    /// Source of this entry.
    pub source: RegistrySource,
    /// Trust score in thousandths: 0 (none) to 1000 (full).
    pub trust_score: u16,
    /// npm package name (if applicable).
    pub npm_package: Option<String>,
}

/// The content of a registry entry.
pub struct EntryView {
    pub name: Seq<char>,
    pub description: Seq<char>,
    pub transport: Seq<char>,
    pub command: Option<Seq<char>>,
    pub args: Seq<Seq<char>>,
    pub url: Option<Seq<char>>,
    pub headers: Seq<(Seq<char>, Seq<char>)>,
    pub env_vars: Seq<Seq<char>>,
    pub keywords: Seq<Seq<char>>,
    pub source: RegistrySource,
    pub trust_score: u16,
    pub npm_package: Option<Seq<char>>,
}

/// The content of a list of strings.
pub open spec fn strings_view(v: Seq<String>) -> Seq<Seq<char>> {
    Seq::new(v.len(), |i: int| v[i]@)
}

/// The content of a list of string pairs.
pub open spec fn pairs_view(v: Seq<(String, String)>) -> Seq<(Seq<char>, Seq<char>)> {
    Seq::new(v.len(), |i: int| (v[i].0@, v[i].1@))
}

/// The content of an optional string.
pub open spec fn opt_str_view(v: Option<String>) -> Option<Seq<char>> {
    match v {
        Some(s) => Some(s@),
        None => None,
    }
}

impl View for RegistryEntry {
    type V = EntryView;

    open spec fn view(&self) -> EntryView {
        EntryView {
            name: self.name@,
            description: self.description@,
            transport: self.transport@,
            command: opt_str_view(self.command),
            args: strings_view(self.args@),
            url: opt_str_view(self.url),
            headers: pairs_view(self.headers@),
            env_vars: strings_view(self.env_vars@),
            keywords: strings_view(self.keywords@),
            source: self.source,
            trust_score: self.trust_score,
            npm_package: opt_str_view(self.npm_package),
        }
    }
}

/// The content of a list of entries.
pub open spec fn entries_view(v: Seq<RegistryEntry>) -> Seq<EntryView> {
    Seq::new(v.len(), |i: int| v[i]@)
}

/// Copies a list of strings.
pub fn clone_strings(v: &Vec<String>) -> (r: Vec<String>)
    ensures
        strings_view(r@) == strings_view(v@),
{
    let mut out: Vec<String> = Vec::new();
    let mut i: usize = 0;
    while i < v.len()
        invariant
            0 <= i <= v.len(),
            out@.len() == i,
            forall|j: int| 0 <= j < i ==> #[trigger] out@[j]@ == v@[j]@,
        decreases v.len() - i,
    {
        out.push(v[i].clone());
        i = i + 1;
    }
    assert(strings_view(out@) =~= strings_view(v@));
    out
}

/// Strings made from string slices.
pub fn strings_from(v: &[&str]) -> (r: Vec<String>)
    ensures
        r@.len() == v@.len(),
        forall|j: int| 0 <= j < v@.len() ==> #[trigger] r@[j]@ == v@[j]@,
{
    let mut out: Vec<String> = Vec::new();
    let mut i: usize = 0;
    while i < v.len()
        invariant
            0 <= i <= v.len(),
            out@.len() == i,
            forall|j: int| 0 <= j < i ==> #[trigger] out@[j]@ == v@[j]@,
        decreases v.len() - i,
    {
        out.push(crate::text::to_string(v[i]));
        i = i + 1;
    }
    out
}

// ── ranking ────────────────────────────────────────────────────────

/// Entries ordered by trust, highest first.
pub open spec fn sorted_by_trust(s: Seq<RegistryEntry>) -> bool {
    forall|i: int, j: int| 0 <= i < j < s.len() ==> s[i].trust_score >= s[j].trust_score
}

/// Whether an entry has trust score `t`.
pub open spec fn trust_is(t: u16) -> spec_fn(RegistryEntry) -> bool {
    |e: RegistryEntry| e.trust_score == t
}

proof fn lemma_filter_insert(a: Seq<RegistryEntry>, b: Seq<RegistryEntry>, x: RegistryEntry, t: u16)
    requires
        forall|k: int| 0 <= k < b.len() ==> b[k].trust_score < x.trust_score,
    ensures
        (a + seq![x] + b).filter(trust_is(t)) == (if x.trust_score == t {
            (a + b).filter(trust_is(t)).push(x)
        } else {
            (a + b).filter(trust_is(t))
        }),
{
    broadcast use vstd::seq_lib::group_filter_ensures;
    broadcast use Seq::filter_distributes_over_add;

    reveal_with_fuel(Seq::filter, 2);
    let p = trust_is(t);
    assert((a + seq![x] + b).filter(p) == (a + seq![x]).filter(p) + b.filter(p));
    assert((a + seq![x]).filter(p) == a.filter(p) + seq![x].filter(p));
    assert((a + b).filter(p) == a.filter(p) + b.filter(p));
    assert(seq![x].drop_last() =~= Seq::<RegistryEntry>::empty());
    if x.trust_score == t {
        assert(b.filter(p).len() == 0) by {
            if b.filter(p).len() > 0 {
                b.lemma_filter_pred(p, 0);
                let e = b.filter(p)[0];
                assert(b.filter(p).contains(e));
                b.lemma_filter_contains_rev(p, e);
            }
        }
        assert(b.filter(p) =~= Seq::<RegistryEntry>::empty());
        assert((a + seq![x] + b).filter(p) =~= (a + b).filter(p).push(x));
    } else {
        assert(seq![x].filter(p) =~= Seq::<RegistryEntry>::empty());
        assert((a + seq![x] + b).filter(p) =~= (a + b).filter(p));
    }
}

/// Orders entries by trust score, highest first, keeping the order of the
/// entries of equal score (a stable sort).
pub fn rank_by_trust(entries: Vec<RegistryEntry>) -> (r: Vec<RegistryEntry>)
    ensures
        sorted_by_trust(r@),
        forall|t: u16| #[trigger] r@.filter(trust_is(t)) == entries@.filter(trust_is(t)),
{
    let ghost orig = entries@;
    let n = entries.len();
    let mut rest = entries;
    let mut out: Vec<RegistryEntry> = Vec::new();
    let mut i: usize = 0;
    proof {
        reveal_with_fuel(Seq::filter, 1);
        assert(orig.take(0) =~= Seq::<RegistryEntry>::empty());
        assert(out@ =~= Seq::<RegistryEntry>::empty());
    }
    while rest.len() > 0
        invariant
            orig.len() == n,
            i + rest@.len() == n,
            rest@ == orig.skip(i as int),
            sorted_by_trust(out@),
            forall|t: u16| #[trigger] out@.filter(trust_is(t)) == orig.take(i as int).filter(trust_is(t)),
        decreases rest.len(),
    {
        let x = rest.remove(0);
        assert(x == orig[i as int]);
        assert(rest@ =~= orig.skip(i + 1));
        let mut p: usize = 0;
        while p < out.len() && out[p].trust_score >= x.trust_score
            invariant
                0 <= p <= out.len(),
                forall|k: int| 0 <= k < p ==> out@[k].trust_score >= x.trust_score,
            decreases out.len() - p,
        {
            p = p + 1;
        }
        let ghost a = out@.take(p as int);
        let ghost b = out@.skip(p as int);
        proof {
            assert(out@ =~= a + b);
            assert forall|k: int| 0 <= k < b.len() implies b[k].trust_score < x.trust_score by {
                assert(out@[p as int].trust_score < x.trust_score);
                assert(b[k] == out@[p + k]);
            }
        }
        let ghost old_out = out@;
        out.insert(p, x);
        proof {
            assert(out@ =~= a + seq![x] + b);
            assert forall|t: u16| #[trigger] out@.filter(trust_is(t)) == orig.take(i + 1).filter(trust_is(t)) by {
                lemma_filter_insert(a, b, x, t);
                reveal_with_fuel(Seq::filter, 1);
                assert(orig.take(i + 1).drop_last() =~= orig.take(i as int));
                assert(orig.take(i + 1).last() == x);
            }
            assert forall|k1: int, k2: int| 0 <= k1 < k2 < out@.len() implies out@[k1].trust_score
                >= out@[k2].trust_score by {
                if k1 < p && k2 < p {
                    assert(out@[k1] == old_out[k1] && out@[k2] == old_out[k2]);
                } else if k1 < p && k2 == p {
                    assert(out@[k1] == old_out[k1]);
                } else if k1 < p {
                    assert(out@[k1] == old_out[k1] && out@[k2] == old_out[k2 - 1]);
                } else if k1 == p {
                    assert(out@[k2] == b[k2 - p - 1]);
                } else {
                    assert(out@[k1] == old_out[k1 - 1] && out@[k2] == old_out[k2 - 1]);
                }
            }
        }
        i = i + 1;
    }
    assert(orig.take(i as int) =~= orig);
    out
}

/// All entries of the built-in registry.
pub fn builtin_entries() -> (r: Vec<RegistryEntry>)
    ensures
        entries_view(r@) == builtin::builtin_table(),
{
    builtin::all_entries()
}

/// The results of several sources, one after the other, ranked by trust
/// (highest first, the order of equal scores kept).
pub fn merge_ranked(batches: Vec<Vec<RegistryEntry>>) -> (r: Vec<RegistryEntry>)
    ensures
        sorted_by_trust(r@),
        forall|t: u16| #[trigger] r@.filter(trust_is(t)) == batches_seq(batches@).filter(trust_is(t)),
{
    let ghost orig = batches@;
    let n = batches.len();
    let mut rest = batches;
    let mut all: Vec<RegistryEntry> = Vec::new();
    let mut i: usize = 0;
    assert(batches_seq(orig.take(0)) =~= Seq::<RegistryEntry>::empty());
    while rest.len() > 0
        invariant
            orig.len() == n,
            i + rest@.len() == n,
            rest@ == orig.skip(i as int),
            all@ == batches_seq(orig.take(i as int)),
        decreases rest.len(),
    {
        let mut b = rest.remove(0);
        assert(b == orig[i as int]);
        assert(rest@ =~= orig.skip(i + 1));
        let ghost before = all@;
        all.append(&mut b);
        assert(orig.take(i + 1).drop_last() =~= orig.take(i as int));
        i = i + 1;
    }
    assert(orig.take(i as int) =~= orig);
    rank_by_trust(all)
}

/// The entries of several batches, one batch after the other.
pub open spec fn batches_seq(b: Seq<Vec<RegistryEntry>>) -> Seq<RegistryEntry>
    decreases b.len(),
{
    if b.len() == 0 {
        Seq::empty()
    } else {
        batches_seq(b.drop_last()) + b.last()@
    }
}

} // verus!
