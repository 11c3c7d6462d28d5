//! Presets: templates from which providers are added.

use crate::config_update::providers;
use crate::order;
use crate::text;
use vstd::prelude::*;

verus! {

/// A template for a provider.
#[derive(Debug)]
pub struct PresetProvider {
    pub name: String,
    pub kind: String,
    pub base_url: String,
    pub models: Vec<String>,
    pub env_key: Option<String>,
    /// The variable that holds the key where none is named.
    pub default_env: Option<String>,
    /// Whether the environment gives a key.
    pub env_resolves: bool,
}

/// A template for a provider.
#[verifier::ext_equal]
pub struct PresetView {
    pub name: Seq<char>,
    pub kind: Seq<char>,
    pub base_url: Seq<char>,
    pub models: Seq<Seq<char>>,
    pub env_key: Option<Seq<char>>,
    pub default_env: Option<Seq<char>>,
    pub env_resolves: bool,
}

impl View for PresetProvider {
    type V = PresetView;

    open spec fn view(&self) -> PresetView {
        PresetView {
            name: self.name@,
            kind: self.kind@,
            base_url: self.base_url@,
            models: text::views(self.models@),
            env_key: text::opt_view(self.env_key),
            default_env: text::opt_view(self.default_env),
            env_resolves: self.env_resolves,
        }
    }
}

/// What presets hold.
pub open spec fn preset_views(v: Seq<PresetProvider>) -> Seq<PresetView> {
    v.map_values(|p: PresetProvider| p@)
}

/// What is looked for: the search text without white space around it, in lower case.
pub open spec fn query_of(search: Seq<char>) -> Seq<char> {
    text::ascii_lowered(text::trimmed(search))
}

/// Whether a preset is found: what is looked for stands in its name, its kind or its
/// address.
pub open spec fn is_found(p: PresetView, query: Seq<char>) -> bool {
    query.len() == 0 || text::occurs(
        text::ascii_lowered(p.name + " "@ + p.kind + " "@ + p.base_url),
        query,
    )
}

/// Whether one preset may stand before another: by the place of its kind, by what
/// the kind is called, and by its name in lower case.
pub open spec fn preset_le(a: PresetView, b: PresetView) -> bool {
    if providers::kind_rank(a.kind) != providers::kind_rank(b.kind) {
        providers::kind_rank(a.kind) < providers::kind_rank(b.kind)
    } else if providers::kind_label(a.kind) != providers::kind_label(b.kind) {
        order::lex_le(providers::kind_label(a.kind), providers::kind_label(b.kind))
    } else {
        order::lex_le(text::ascii_lowered(a.name), text::ascii_lowered(b.name))
    }
}

/// Where a preset goes among others that stand in order, from `k` on: before the
/// first that may not stand before it.
pub open spec fn preset_place(v: Seq<PresetView>, found: Seq<int>, i: int, k: int) -> int
    decreases found.len() - k,
{
    if k < 0 || k >= found.len() || !preset_le(v[found[k]], v[i]) {
        k
    } else {
        preset_place(v, found, i, k + 1)
    }
}

/// The presets that are found among the first `n`, in order.
pub open spec fn found_presets(v: Seq<PresetView>, query: Seq<char>, n: int) -> Seq<int>
    decreases n,
{
    if n <= 0 {
        Seq::empty()
    } else {
        let before = found_presets(v, query, n - 1);
        if is_found(v[n - 1], query) {
            before.insert(preset_place(v, before, n - 1, 0), n - 1)
        } else {
            before
        }
    }
}

/// The numbers that machine integers stand for.
pub open spec fn indices(v: Seq<usize>) -> Seq<int> {
    Seq::new(v.len(), |i: int| v[i] as int)
}

/// Whether a preset is found.
fn matches_query(p: &PresetProvider, query: &str) -> (r: bool)
    ensures
        r == is_found(p@, query@),
{
    if query.is_empty() {
        return true;
    }
    let mut all = p.name.as_str().to_string();
    all.push_str(" ");
    all.push_str(p.kind.as_str());
    all.push_str(" ");
    all.push_str(p.base_url.as_str());
    text::contains(&text::to_ascii_lowercase(&all), query)
}

/// Whether one preset may stand before another.
fn may_precede(a: &PresetProvider, b: &PresetProvider) -> (r: bool)
    ensures
        r == preset_le(a@, b@),
{
    let ra: u8 = providers::rank_of(a.kind.as_str());
    let rb: u8 = providers::rank_of(b.kind.as_str());
    if ra != rb {
        return ra < rb;
    }
    let la = providers::label_of(a.kind.as_str());
    let lb = providers::label_of(b.kind.as_str());
    if !text::same(&la, &lb) {
        return order::in_order(&la, &lb);
    }
    order::in_order(
        &text::to_ascii_lowercase(a.name.as_str()),
        &text::to_ascii_lowercase(b.name.as_str()),
    )
}

/// The presets that are found, in order.
pub fn filter_presets(presets: &Vec<PresetProvider>, search: &str) -> (r: Vec<usize>)
    ensures
        indices(r@) == found_presets(
            preset_views(presets@),
            query_of(search@),
            presets@.len() as int,
        ),
        forall|k: int| 0 <= k < r@.len() ==> (#[trigger] r@[k]) < presets@.len(),
{
    let query = text::to_ascii_lowercase(&text::trim(search));
    let ghost all = preset_views(presets@);
    let mut out: Vec<usize> = Vec::new();
    let mut i: usize = 0;
    assert(indices(out@) =~= found_presets(all, query@, 0));
    while i < presets.len()
        invariant
            i <= presets@.len(),
            all == preset_views(presets@),
            indices(out@) == found_presets(all, query@, i as int),
            forall|k: int| 0 <= k < out@.len() ==> (#[trigger] out@[k]) < i,
        decreases presets@.len() - i,
    {
        assert(all[i as int] == presets@[i as int]@);
        if matches_query(&presets[i], &query) {
            let ghost before = indices(out@);
            let mut at: usize = 0;
            while at < out.len()
                invariant
                    at <= out@.len(),
                    i < presets@.len(),
                    all == preset_views(presets@),
                    before == indices(out@),
                    forall|k: int| 0 <= k < out@.len() ==> (#[trigger] out@[k]) < i,
                    preset_place(all, before, i as int, 0) == preset_place(
                        all,
                        before,
                        i as int,
                        at as int,
                    ),
                ensures
                    at <= out@.len(),
                    at as int == preset_place(all, before, i as int, 0),
                decreases out@.len() - at,
            {
                assert(before[at as int] == out@[at as int] as int);
                assert(all[out@[at as int] as int] == presets@[out@[at as int] as int]@);
                assert(all[i as int] == presets@[i as int]@);
                if !may_precede(&presets[out[at]], &presets[i]) {
                    break;
                }
                at += 1;
            }
            let ghost kept = out@;
            out.insert(at, i);
            assert(indices(out@) =~= before.insert(at as int, i as int));
            assert forall|k: int| 0 <= k < out@.len() implies (#[trigger] out@[k]) < i + 1 by {
                if k < at {
                    assert(out@[k] == kept[k]);
                } else if k > at {
                    assert(out@[k] == kept[k - 1]);
                }
            }
        }
        i += 1;
    }
    out
}

// ---------------------------------------------------------------------------
// Rows
// ---------------------------------------------------------------------------

/// A row of the catalog: a preset by its place, or the heading of a group.
#[derive(Debug)]
pub struct PresetRow {
    pub preset: Option<usize>,
    pub label: String,
}

/// A row of the catalog.
#[verifier::ext_equal]
pub struct RowView {
    pub preset: Option<int>,
    pub label: Seq<char>,
}

impl View for PresetRow {
    type V = RowView;

    open spec fn view(&self) -> RowView {
        RowView {
            preset: match self.preset {
                Some(i) => Some(i as int),
                None => None,
            },
            label: self.label@,
        }
    }
}

/// What rows hold.
pub open spec fn row_views(v: Seq<PresetRow>) -> Seq<RowView> {
    v.map_values(|r: PresetRow| r@)
}

/// Whether a heading stands before the preset `k`: it is the first of its kind in
/// the list.
pub open spec fn opens_group(v: Seq<PresetView>, found: Seq<int>, k: int) -> bool {
    k == 0 || v[found[k - 1]].kind != v[found[k]].kind
}

/// The rows of the first `n` presets that were found.
pub open spec fn rows_of(v: Seq<PresetView>, found: Seq<int>, n: int) -> Seq<RowView>
    decreases n,
{
    if n <= 0 {
        Seq::empty()
    } else {
        let before = rows_of(v, found, n - 1);
        let p = v[found[n - 1]];
        let headed = if opens_group(v, found, n - 1) {
            before.push(RowView { preset: None, label: providers::kind_label(p.kind) })
        } else {
            before
        };
        headed.push(RowView { preset: Some(found[n - 1]), label: p.name })
    }
}

/// Puts a row behind others.
fn add_row(rows: &mut Vec<PresetRow>, row: PresetRow)
    ensures
        row_views(final(rows)@) == row_views(old(rows)@).push(row@),
{
    let ghost before = row_views(rows@);
    rows.push(row);
    assert(row_views(rows@) =~= before.push(row@));
}

/// The rows of the catalog.
pub fn catalog_rows(presets: &Vec<PresetProvider>, found: &Vec<usize>) -> (r: Vec<PresetRow>)
    requires
        forall|k: int| 0 <= k < found@.len() ==> (#[trigger] found@[k]) < presets@.len(),
    ensures
        row_views(r@) == rows_of(
            preset_views(presets@),
            indices(found@),
            found@.len() as int,
        ),
{
    let ghost all = preset_views(presets@);
    let ghost list = indices(found@);
    let mut rows: Vec<PresetRow> = Vec::new();
    let mut i: usize = 0;
    assert(row_views(rows@) =~= rows_of(all, list, 0));
    while i < found.len()
        invariant
            i <= found@.len(),
            all == preset_views(presets@),
            list == indices(found@),
            forall|k: int| 0 <= k < found@.len() ==> (#[trigger] found@[k]) < presets@.len(),
            row_views(rows@) == rows_of(all, list, i as int),
        decreases found@.len() - i,
    {
        let p = &presets[found[i]];
        assert(list[i as int] == found@[i as int] as int);
        assert(all[list[i as int]] == p@);
        let opens = if i == 0 {
            true
        } else {
            let last = &presets[found[i - 1]];
            assert(list[i - 1] == found@[i - 1] as int);
            assert(all[list[i - 1]] == last@);
            !text::same(last.kind.as_str(), p.kind.as_str())
        };
        assert(opens == opens_group(all, list, i as int));
        if opens {
            add_row(
                &mut rows,
                PresetRow { preset: None, label: providers::label_of(p.kind.as_str()) },
            );
        }
        add_row(
            &mut rows,
            PresetRow { preset: Some(found[i]), label: p.name.as_str().to_string() },
        );
        i += 1;
    }
    rows
}

// ---------------------------------------------------------------------------
// Laws
// ---------------------------------------------------------------------------

/// The place of a preset lies among the others.
proof fn preset_place_bounds(v: Seq<PresetView>, found: Seq<int>, i: int, k: int)
    requires
        0 <= k <= found.len(),
    ensures
        k <= preset_place(v, found, i, k) <= found.len(),
        forall|j: int|
            k <= j < preset_place(v, found, i, k) ==> preset_le(v[#[trigger] found[j]], v[i]),
        preset_place(v, found, i, k) < found.len() ==> !preset_le(
            v[found[preset_place(v, found, i, k)]],
            v[i],
        ),
    decreases found.len() - k,
{
    if k < found.len() && preset_le(v[found[k]], v[i]) {
        preset_place_bounds(v, found, i, k + 1);
    }
}

/// A search finds just the presets that hold what is looked for, each once.
pub proof fn law_search_finds_what_matches(v: Seq<PresetView>, query: Seq<char>, n: int, i: int)
    requires
        0 <= n <= v.len(),
    ensures
        found_presets(v, query, n).contains(i) <==> 0 <= i < n && is_found(v[i], query),
        found_presets(v, query, n).no_duplicates(),
        found_presets(v, query, n).len() <= n,
    decreases n,
{
    if n > 0 {
        law_search_finds_what_matches(v, query, n - 1, i);
        law_search_finds_what_matches(v, query, n - 1, n - 1);
        let before = found_presets(v, query, n - 1);
        let after = found_presets(v, query, n);
        if is_found(v[n - 1], query) {
            preset_place_bounds(v, before, n - 1, 0);
            let at = preset_place(v, before, n - 1, 0);
            assert(after[at] == n - 1);
            if before.contains(i) {
                let k = before.index_of(i);
                if k < at {
                    assert(after[k] == i);
                } else {
                    assert(after[k + 1] == i);
                }
            }
            if after.contains(i) && i != n - 1 {
                let k = after.index_of(i);
                if k < at {
                    assert(before[k] == i);
                } else {
                    assert(before[k - 1] == i);
                }
            }
            assert forall|a: int, b: int|
                0 <= a < after.len() && 0 <= b < after.len() && a != b implies after[a]
                != after[b] by {
                let x = if a < at {
                    a
                } else {
                    a - 1
                };
                let y = if b < at {
                    b
                } else {
                    b - 1
                };
                if a == at {
                    assert(after[b] == before[y]);
                    assert(before.contains(before[y]));
                } else if b == at {
                    assert(after[a] == before[x]);
                    assert(before.contains(before[x]));
                } else {
                    assert(after[a] == before[x] && after[b] == before[y]);
                }
            }
        }
    }
}

/// The order of presets is total.
proof fn presets_are_ordered(a: PresetView, b: PresetView)
    ensures
        preset_le(a, b) || preset_le(b, a),
{
    order::lex_total(providers::kind_label(a.kind), providers::kind_label(b.kind));
    order::lex_total(text::ascii_lowered(a.name), text::ascii_lowered(b.name));
}

/// The order of presets is transitive.
proof fn preset_order_carries(a: PresetView, b: PresetView, c: PresetView)
    requires
        preset_le(a, b),
        preset_le(b, c),
    ensures
        preset_le(a, c),
{
    let la = providers::kind_label(a.kind);
    let lb = providers::kind_label(b.kind);
    let lc = providers::kind_label(c.kind);
    if providers::kind_rank(a.kind) == providers::kind_rank(b.kind) && providers::kind_rank(
        b.kind,
    ) == providers::kind_rank(c.kind) {
        if la != lb && lb != lc {
            order::lex_transitive(la, lb, lc);
            if la == lc {
                order::lex_antisymmetric(la, lb);
            }
        } else if la == lb && lb == lc {
            order::lex_transitive(
                text::ascii_lowered(a.name),
                text::ascii_lowered(b.name),
                text::ascii_lowered(c.name),
            );
        }
    }
}

/// Whether presets stand in order.
pub open spec fn presets_in_order(v: Seq<PresetView>, found: Seq<int>) -> bool {
    forall|a: int, b: int|
        0 <= a <= b < found.len() ==> preset_le(v[#[trigger] found[a]], v[#[trigger] found[b]])
}

/// What a search finds stands in order.
pub proof fn law_found_presets_are_in_order(v: Seq<PresetView>, query: Seq<char>, n: int)
    requires
        0 <= n <= v.len(),
    ensures
        presets_in_order(v, found_presets(v, query, n)),
    decreases n,
{
    if n > 0 {
        law_found_presets_are_in_order(v, query, n - 1);
        let before = found_presets(v, query, n - 1);
        let after = found_presets(v, query, n);
        if is_found(v[n - 1], query) {
            preset_place_bounds(v, before, n - 1, 0);
            let at = preset_place(v, before, n - 1, 0);
            assert forall|a: int, b: int| 0 <= a <= b < after.len() implies preset_le(
                v[#[trigger] after[a]],
                v[#[trigger] after[b]],
            ) by {
                let x = if a < at {
                    a
                } else {
                    a - 1
                };
                let y = if b < at {
                    b
                } else {
                    b - 1
                };
                if a == at && b == at {
                    order::lex_reflexive(text::ascii_lowered(v[n - 1].name));
                } else if b == at {
                    assert(after[a] == before[x]);
                    assert(preset_le(v[before[x]], v[n - 1]));
                } else if a == at {
                    assert(after[b] == before[y]);
                    presets_are_ordered(v[n - 1], v[before[at]]);
                    assert(preset_le(v[before[at]], v[before[y]]));
                    preset_order_carries(v[n - 1], v[before[at]], v[before[y]]);
                } else {
                    assert(after[a] == before[x] && after[b] == before[y]);
                }
            }
        }
    }
}

} // verus!
