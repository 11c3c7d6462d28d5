//! Providers of models: the settings that hold them, and the groups in which they
//! are offered.

use crate::order;
use crate::text;
use vstd::prelude::*;

verus! {

// ---------------------------------------------------------------------------
// Settings
// ---------------------------------------------------------------------------

/// How many tokens a response of a new provider may have.
pub const DEFAULT_MAX_TOKENS: u32 = 8192;

/// A provider of models.
#[derive(Debug)]
pub struct ProviderConfig {
    /// The name under which the settings hold the provider.
    pub key: String,
    pub kind: String,
    pub alias: Option<String>,
    pub api_key: Option<String>,
    pub api_base: Option<String>,
    /// The variable that holds the key.
    pub api_key_env: Option<String>,
    /// The variable that holds the key where none is named.
    pub default_env: Option<String>,
    /// Whether the environment gives a key.
    pub env_resolves: bool,
    /// How many tokens a response may have.
    pub max_tokens: u32,
}

/// A provider of models.
#[verifier::ext_equal]
pub struct ProviderView {
    pub key: Seq<char>,
    pub kind: Seq<char>,
    pub alias: Option<Seq<char>>,
    pub api_key: Option<Seq<char>>,
    pub api_base: Option<Seq<char>>,
    pub api_key_env: Option<Seq<char>>,
    pub default_env: Option<Seq<char>>,
    pub env_resolves: bool,
    pub max_tokens: u32,
}

impl View for ProviderConfig {
    type V = ProviderView;

    open spec fn view(&self) -> ProviderView {
        ProviderView {
            key: self.key@,
            kind: self.kind@,
            alias: text::opt_view(self.alias),
            api_key: text::opt_view(self.api_key),
            api_base: text::opt_view(self.api_base),
            api_key_env: text::opt_view(self.api_key_env),
            default_env: text::opt_view(self.default_env),
            env_resolves: self.env_resolves,
            max_tokens: self.max_tokens,
        }
    }
}

/// What providers hold.
pub open spec fn provider_views(v: Seq<ProviderConfig>) -> Seq<ProviderView> {
    v.map_values(|p: ProviderConfig| p@)
}

/// The provider and the model of a role.
#[derive(Debug)]
pub struct ModelChoice {
    pub provider: String,
    pub model: String,
}

/// The provider and the model of a role.
#[verifier::ext_equal]
pub struct ChoiceView {
    pub provider: Seq<char>,
    pub model: Seq<char>,
}

impl View for ModelChoice {
    type V = ChoiceView;

    open spec fn view(&self) -> ChoiceView {
        ChoiceView { provider: self.provider@, model: self.model@ }
    }
}

/// The providers, in the order of their names, and what the two roles use.
#[derive(Debug)]
pub struct Settings {
    pub providers: Vec<ProviderConfig>,
    pub main: ModelChoice,
    pub sub: ModelChoice,
}

/// The providers and what the two roles use.
#[verifier::ext_equal]
pub struct SettingsView {
    pub providers: Seq<ProviderView>,
    pub main: ChoiceView,
    pub sub: ChoiceView,
}

impl View for Settings {
    type V = SettingsView;

    open spec fn view(&self) -> SettingsView {
        SettingsView {
            providers: provider_views(self.providers@),
            main: self.main@,
            sub: self.sub@,
        }
    }
}

/// Settings that hold nothing.
pub open spec fn no_settings() -> SettingsView {
    SettingsView {
        providers: Seq::empty(),
        main: ChoiceView { provider: Seq::empty(), model: Seq::empty() },
        sub: ChoiceView { provider: Seq::empty(), model: Seq::empty() },
    }
}

/// Where the provider of a name stands, from `i` on.
pub open spec fn provider_at(v: Seq<ProviderView>, key: Seq<char>, i: int) -> Option<int>
    decreases v.len() - i,
{
    if i < 0 || i >= v.len() {
        None
    } else if v[i].key == key {
        Some(i)
    } else {
        provider_at(v, key, i + 1)
    }
}

/// Where a provider of a new name goes, from `i` on: before the first name that
/// comes later.
pub open spec fn provider_place(v: Seq<ProviderView>, key: Seq<char>, i: int) -> int
    decreases v.len() - i,
{
    if i < 0 || i >= v.len() || !order::lex_le(v[i].key, key) {
        i
    } else {
        provider_place(v, key, i + 1)
    }
}

/// The providers with one more.
pub open spec fn with_provider(v: Seq<ProviderView>, p: ProviderView) -> Seq<ProviderView> {
    v.insert(provider_place(v, p.key, 0), p)
}

/// The settings with both roles at a provider.
pub open spec fn bound_to(s: SettingsView, key: Seq<char>) -> SettingsView {
    SettingsView {
        main: ChoiceView { provider: key, ..s.main },
        sub: ChoiceView { provider: key, ..s.sub },
        ..s
    }
}

/// A model for each role that has none.
pub open spec fn with_model(c: ChoiceView, model: Seq<char>) -> ChoiceView {
    if c.model.len() == 0 {
        ChoiceView { model, ..c }
    } else {
        c
    }
}

impl Settings {
    /// Settings that hold nothing.
    pub fn new() -> (r: Self)
        ensures
            r@ == no_settings(),
    {
        let r = Settings {
            providers: Vec::new(),
            main: ModelChoice { provider: String::new(), model: String::new() },
            sub: ModelChoice { provider: String::new(), model: String::new() },
        };
        assert(r@ =~= no_settings());
        r
    }

    /// Where the provider of a name stands.
    pub fn find(&self, key: &str) -> (r: Option<usize>)
        ensures
            match r {
                Some(i) => i < self.providers@.len() && provider_at(
                    self@.providers,
                    key@,
                    0,
                ) == Some(i as int),
                None => provider_at(self@.providers, key@, 0) is None,
            },
    {
        let mut i: usize = 0;
        while i < self.providers.len()
            invariant
                i <= self.providers@.len(),
                provider_at(self@.providers, key@, 0) == provider_at(
                    self@.providers,
                    key@,
                    i as int,
                ),
            decreases self.providers@.len() - i,
        {
            assert(self@.providers[i as int] == self.providers@[i as int]@);
            if text::same(self.providers[i].key.as_str(), key) {
                return Some(i);
            }
            i += 1;
        }
        None
    }

    /// The provider of a name.
    pub fn get(&self, key: &str) -> (r: Option<&ProviderConfig>)
        ensures
            match r {
                Some(p) => provider_at(self@.providers, key@, 0) is Some && p@
                    == self@.providers[provider_at(self@.providers, key@, 0)->0],
                None => provider_at(self@.providers, key@, 0) is None,
            },
    {
        match self.find(key) {
            Some(i) => Some(&self.providers[i]),
            None => None,
        }
    }

    /// Adds a provider.
    pub fn insert(&mut self, p: ProviderConfig)
        ensures
            final(self)@ == (SettingsView {
                providers: with_provider(old(self)@.providers, p@),
                ..old(self)@
            }),
    {
        let ghost before = self@.providers;
        let mut i: usize = 0;
        while i < self.providers.len()
            invariant
                i <= self.providers@.len(),
                before == self@.providers,
                provider_place(before, p@.key, 0) == provider_place(before, p@.key, i as int),
            ensures
                i <= self.providers@.len(),
                i as int == provider_place(before, p@.key, 0),
            decreases self.providers@.len() - i,
        {
            assert(before[i as int] == self.providers@[i as int]@);
            if !order::in_order(self.providers[i].key.as_str(), p.key.as_str()) {
                break;
            }
            i += 1;
        }
        self.providers.insert(i, p);
        assert(self@.providers =~= before.insert(i as int, p@));
    }

    /// Has both roles use a provider.
    pub fn bind(&mut self, key: &str)
        ensures
            final(self)@ == bound_to(old(self)@, key@),
    {
        self.main.provider = key.to_string();
        self.sub.provider = key.to_string();
    }

    /// Gives a model to each role that has none.
    pub fn fill_models(&mut self, model: &str)
        ensures
            final(self)@ == (SettingsView {
                main: with_model(old(self)@.main, model@),
                sub: with_model(old(self)@.sub, model@),
                ..old(self)@
            }),
    {
        if self.main.model.as_str().is_empty() {
            self.main.model = model.to_string();
        }
        if self.sub.model.as_str().is_empty() {
            self.sub.model = model.to_string();
        }
    }
}

// ---------------------------------------------------------------------------
// Names that are free
// ---------------------------------------------------------------------------

/// The name that is tried in the round `k`.
pub open spec fn candidate(base: Seq<char>, k: int) -> Seq<char> {
    if k <= 1 {
        base
    } else {
        base + "-"@ + text::decimal_of(k as nat)
    }
}

/// Whether a name is taken.
pub open spec fn is_taken(v: Seq<ProviderView>, key: Seq<char>) -> bool {
    provider_at(v, key, 0) is Some
}

/// Whether the name of the round `k` is free and those of the rounds before are not.
pub open spec fn is_first_free(v: Seq<ProviderView>, base: Seq<char>, k: int) -> bool {
    &&& 1 <= k
    &&& !is_taken(v, candidate(base, k))
    &&& forall|j: int| 1 <= j < k ==> is_taken(v, #[trigger] candidate(base, j))
}

/// The first name that is free.
pub open spec fn free_key(v: Seq<ProviderView>, base: Seq<char>) -> Seq<char> {
    candidate(base, choose|k: int| is_first_free(v, base, k))
}

/// Different numbers have different digits.
proof fn decimal_injective(a: nat, b: nat)
    requires
        text::decimal_of(a) == text::decimal_of(b),
    ensures
        a == b,
    decreases a,
{
    let da = text::decimal_of(a);
    let db = text::decimal_of(b);
    if a < 10 && b < 10 {
        assert(da[0] == db[0]);
        assert(da[0] == text::digit(a));
        assert(db[0] == text::digit(b));
        assert(text::digit(a) as int == 48 + a);
        assert(text::digit(b) as int == 48 + b);
    } else if a < 10 {
        decimal_nonempty(b / 10);
        assert(db.len() == text::decimal_of(b / 10).len() + 1);
        assert(da.len() == 1);
    } else if b < 10 {
        decimal_nonempty(a / 10);
        assert(da.len() == text::decimal_of(a / 10).len() + 1);
        assert(db.len() == 1);
    } else {
        assert(da.last() == db.last());
        assert(text::digit(a % 10) as int == 48 + a % 10);
        assert(text::digit(b % 10) as int == 48 + b % 10);
        assert(da.drop_last() =~= text::decimal_of(a / 10));
        assert(db.drop_last() =~= text::decimal_of(b / 10));
        decimal_injective(a / 10, b / 10);
        assert(da.last() == text::digit(a % 10));
        assert(db.last() == text::digit(b % 10));
        assert(a == 10 * (a / 10) + a % 10);
        assert(b == 10 * (b / 10) + b % 10);
    }
}

/// A number has a digit.
proof fn decimal_nonempty(a: nat)
    ensures
        text::decimal_of(a).len() > 0,
{
}

/// Different rounds try different names.
proof fn candidates_differ(base: Seq<char>, j: int, k: int)
    requires
        1 <= j < k,
    ensures
        candidate(base, j) != candidate(base, k),
{
    reveal_strlit("-");
    if j == 1 {
        assert(candidate(base, k).len() > base.len());
    } else if candidate(base, j) == candidate(base, k) {
        let dash = base + "-"@;
        assert(candidate(base, j).skip(dash.len() as int) =~= text::decimal_of(j as nat));
        assert(candidate(base, k).skip(dash.len() as int) =~= text::decimal_of(k as nat));
        decimal_injective(j as nat, k as nat);
    }
}

/// Where a name is taken, a provider has it.
proof fn taken_has_place(v: Seq<ProviderView>, key: Seq<char>, i: int)
    requires
        0 <= i,
        provider_at(v, key, i) is Some,
    ensures
        i <= provider_at(v, key, i)->0 < v.len(),
        v[provider_at(v, key, i)->0].key == key,
    decreases v.len() - i,
{
    if i < v.len() && v[i].key != key {
        taken_has_place(v, key, i + 1);
    }
}

/// No more names of rounds are taken than there are providers.
proof fn taken_rounds_are_few(v: Seq<ProviderView>, base: Seq<char>, n: int)
    requires
        0 <= n,
        forall|j: int| 1 <= j <= n ==> is_taken(v, #[trigger] candidate(base, j)),
    ensures
        n <= v.len(),
{
    let rounds = vstd::set_lib::set_int_range(1, n + 1);
    let place = |j: int| provider_at(v, candidate(base, j), 0)->0;
    let places = rounds.map(place);
    let all = vstd::set_lib::set_int_range(0, v.len() as int);
    vstd::set_lib::lemma_int_range(1, n + 1);
    vstd::set_lib::lemma_int_range(0, v.len() as int);
    assert forall|j: int| rounds.contains(j) implies all.contains(#[trigger] place(j)) && v[place(
        j,
    )].key == candidate(base, j) by {
        assert(is_taken(v, candidate(base, j)));
        taken_has_place(v, candidate(base, j), 0);
    }
    assert forall|j: int, k: int|
        rounds.contains(j) && rounds.contains(k) && #[trigger] place(j) == #[trigger] place(
            k,
        ) implies j == k by {
        if j < k {
            candidates_differ(base, j, k);
        } else if k < j {
            candidates_differ(base, k, j);
        }
    }
    assert(vstd::relations::injective_on(place, rounds));
    vstd::set_lib::lemma_map_size(rounds, places, place);
    assert(places.subset_of(all));
    vstd::set_lib::lemma_len_subset(places, all);
}

/// The first free name is free, and it is the name of the only round that counts.
proof fn first_free_is_unique(v: Seq<ProviderView>, base: Seq<char>, k: int)
    requires
        is_first_free(v, base, k),
    ensures
        free_key(v, base) == candidate(base, k),
{
    let c = choose|j: int| is_first_free(v, base, j);
    assert(is_first_free(v, base, c));
    if c < k {
        assert(is_taken(v, candidate(base, c)));
    } else if k < c {
        assert(is_taken(v, candidate(base, k)));
    }
}

impl Settings {
    /// The first name that is free: the given one, or that with a number behind it.
    pub fn free_key(&self, base: &str) -> (r: String)
        requires
            self.providers@.len() < usize::MAX,
        ensures
            r@ == free_key(self@.providers, base@),
            !is_taken(self@.providers, r@),
    {
        let count: usize = self.providers.len();
        let mut k: usize = 1;
        loop
            invariant
                1 <= k <= count + 1,
                count == self.providers@.len(),
                count < usize::MAX,
                forall|j: int|
                    1 <= j < k ==> is_taken(
                        self@.providers,
                        #[trigger] candidate(base@, j),
                    ),
            decreases count + 1 - k,
        {
            let name = if k == 1 {
                base.to_string()
            } else {
                let mut t = base.to_string();
                t.push_str("-");
                t.push_str(&text::decimal(k as u64));
                t
            };
            assert(name@ == candidate(base@, k as int));
            if self.find(&name).is_none() {
                proof {
                    assert(is_first_free(self@.providers, base@, k as int));
                    first_free_is_unique(self@.providers, base@, k as int);
                }
                return name;
            }
            proof {
                assert forall|j: int| 1 <= j <= k implies is_taken(
                    self@.providers,
                    #[trigger] candidate(base@, j),
                ) by {}
                taken_rounds_are_few(self@.providers, base@, k as int);
            }
            k += 1;
        }
    }
}

// ---------------------------------------------------------------------------
// Kinds and groups
// ---------------------------------------------------------------------------

/// The place of a kind among the groups.
pub open spec fn kind_rank(kind: Seq<char>) -> int {
    if kind == "anthropic"@ {
        0
    } else if kind == "openai"@ {
        1
    } else if kind == "openai-responses"@ {
        2
    } else if kind == "google"@ {
        3
    } else if kind == "deepseek"@ {
        4
    } else if kind == "openrouter"@ {
        5
    } else {
        99
    }
}

/// What a kind is called.
pub open spec fn kind_label(kind: Seq<char>) -> Seq<char> {
    if kind == "anthropic"@ {
        "Anthropic"@
    } else if kind == "openai"@ {
        "OpenAI-Compatible"@
    } else if kind == "openai-responses"@ {
        "OpenAI Responses"@
    } else if kind == "google"@ {
        "Google"@
    } else if kind == "deepseek"@ {
        "DeepSeek"@
    } else if kind == "openrouter"@ {
        "OpenRouter"@
    } else {
        kind
    }
}

/// The place of a kind among the groups.
pub fn rank_of(kind: &str) -> (r: u8)
    ensures
        r as int == kind_rank(kind@),
{
    if text::same(kind, "anthropic") {
        0
    } else if text::same(kind, "openai") {
        1
    } else if text::same(kind, "openai-responses") {
        2
    } else if text::same(kind, "google") {
        3
    } else if text::same(kind, "deepseek") {
        4
    } else if text::same(kind, "openrouter") {
        5
    } else {
        99
    }
}

/// What a kind is called.
pub fn label_of(kind: &str) -> (r: String)
    ensures
        r@ == kind_label(kind@),
{
    if text::same(kind, "anthropic") {
        "Anthropic".to_string()
    } else if text::same(kind, "openai") {
        "OpenAI-Compatible".to_string()
    } else if text::same(kind, "openai-responses") {
        "OpenAI Responses".to_string()
    } else if text::same(kind, "google") {
        "Google".to_string()
    } else if text::same(kind, "deepseek") {
        "DeepSeek".to_string()
    } else if text::same(kind, "openrouter") {
        "OpenRouter".to_string()
    } else {
        kind.to_string()
    }
}

/// Whether one kind is listed before another: by its place, then by what it is
/// called.
pub open spec fn kind_before(a: Seq<char>, b: Seq<char>) -> bool {
    kind_rank(a) < kind_rank(b) || (kind_rank(a) == kind_rank(b) && kind_label(a) != kind_label(b)
        && order::lex_le(kind_label(a), kind_label(b)))
}

/// Whether one kind is listed before another.
pub fn kind_precedes(a: &str, b: &str) -> (r: bool)
    ensures
        r == kind_before(a@, b@),
{
    let ra: u8 = rank_of(a);
    let rb: u8 = rank_of(b);
    if ra != rb {
        return ra < rb;
    }
    let la = label_of(a);
    let lb = label_of(b);
    !text::same(&la, &lb) && order::in_order(&la, &lb)
}

/// The providers of one kind, by their names.
#[derive(Debug)]
pub struct ProviderGroup {
    pub kind: String,
    pub label: String,
    pub keys: Vec<String>,
}

/// The providers of one kind.
#[verifier::ext_equal]
pub struct GroupView {
    pub kind: Seq<char>,
    pub label: Seq<char>,
    pub keys: Seq<Seq<char>>,
}

impl View for ProviderGroup {
    type V = GroupView;

    open spec fn view(&self) -> GroupView {
        GroupView { kind: self.kind@, label: self.label@, keys: text::views(self.keys@) }
    }
}

/// What groups hold.
pub open spec fn group_views(v: Seq<ProviderGroup>) -> Seq<GroupView> {
    v.map_values(|g: ProviderGroup| g@)
}

/// Whether a key is at hand for a provider.
pub open spec fn has_key(p: ProviderView) -> bool {
    p.env_resolves || (p.api_key is Some && text::trimmed(p.api_key->0).len() > 0)
}

/// Whether a provider is offered: a key is at hand, or the user named it.
pub open spec fn is_offered(p: ProviderView) -> bool {
    has_key(p) || p.alias is Some
}

/// The group of a kind, from `i` on.
pub open spec fn group_at(groups: Seq<GroupView>, kind: Seq<char>, i: int) -> Option<int>
    decreases groups.len() - i,
{
    if i < 0 || i >= groups.len() {
        None
    } else if groups[i].kind == kind {
        Some(i)
    } else {
        group_at(groups, kind, i + 1)
    }
}

/// Where the group of a new kind goes, from `i` on.
pub open spec fn group_place(groups: Seq<GroupView>, kind: Seq<char>, i: int) -> int
    decreases groups.len() - i,
{
    if i < 0 || i >= groups.len() || kind_before(kind, groups[i].kind) {
        i
    } else {
        group_place(groups, kind, i + 1)
    }
}

/// The groups with one more provider.
pub open spec fn with_member(groups: Seq<GroupView>, kind: Seq<char>, key: Seq<char>) -> Seq<
    GroupView,
> {
    match group_at(groups, kind, 0) {
        Some(i) => groups.update(i, GroupView { keys: groups[i].keys.push(key), ..groups[i] }),
        None => groups.insert(
            group_place(groups, kind, 0),
            GroupView { kind, label: kind_label(kind), keys: seq![key] },
        ),
    }
}

/// The groups of the first `n` providers.
pub open spec fn groups_of(v: Seq<ProviderView>, n: int) -> Seq<GroupView>
    decreases n,
{
    if n <= 0 {
        Seq::empty()
    } else if is_offered(v[n - 1]) {
        with_member(groups_of(v, n - 1), v[n - 1].kind, v[n - 1].key)
    } else {
        groups_of(v, n - 1)
    }
}

impl ProviderConfig {
    /// Whether a key is at hand.
    pub fn key_resolvable(&self) -> (r: bool)
        ensures
            r == has_key(self@),
    {
        if self.env_resolves {
            return true;
        }
        match &self.api_key {
            Some(k) => !text::trim(k.as_str()).as_str().is_empty(),
            None => false,
        }
    }
}

/// Adds a provider to the groups.
fn add_member(groups: &mut Vec<ProviderGroup>, kind: &str, key: &str)
    ensures
        group_views(final(groups)@) == with_member(group_views(old(groups)@), kind@, key@),
{
    let ghost before = group_views(groups@);
    let mut i: usize = 0;
    while i < groups.len()
        invariant
            i <= groups@.len(),
            before == group_views(groups@),
            before == group_views(old(groups)@),
            group_at(before, kind@, 0) == group_at(before, kind@, i as int),
        decreases groups@.len() - i,
    {
        assert(before[i as int] == groups@[i as int]@);
        if text::same(groups[i].kind.as_str(), kind) {
            let g = &groups[i];
            let mut keys = text::copy_strings(&g.keys);
            let ghost old_keys = text::views(keys@);
            keys.push(key.to_string());
            assert(text::views(keys@) =~= old_keys.push(key@));
            let next = ProviderGroup {
                kind: g.kind.as_str().to_string(),
                label: g.label.as_str().to_string(),
                keys,
            };
            let ghost nv = next@;
            groups.set(i, next);
            assert(group_views(groups@) =~= before.update(i as int, nv));
            return;
        }
        i += 1;
    }
    let mut at: usize = 0;
    while at < groups.len()
        invariant
            at <= groups@.len(),
            before == group_views(groups@),
            group_place(before, kind@, 0) == group_place(before, kind@, at as int),
        ensures
            at <= groups@.len(),
            at as int == group_place(before, kind@, 0),
        decreases groups@.len() - at,
    {
        assert(before[at as int] == groups@[at as int]@);
        if kind_precedes(kind, groups[at].kind.as_str()) {
            break;
        }
        at += 1;
    }
    let mut keys: Vec<String> = Vec::new();
    keys.push(key.to_string());
    assert(text::views(keys@) =~= seq![key@]);
    let g = ProviderGroup { kind: kind.to_string(), label: label_of(kind), keys };
    let ghost gv = g@;
    groups.insert(at, g);
    assert(group_views(groups@) =~= before.insert(at as int, gv));
}

/// The groups in which the providers are offered.
pub fn provider_groups(settings: &Settings) -> (r: Vec<ProviderGroup>)
    ensures
        group_views(r@) == groups_of(
            settings@.providers,
            settings@.providers.len() as int,
        ),
{
    let ghost all = settings@.providers;
    let mut groups: Vec<ProviderGroup> = Vec::new();
    let mut i: usize = 0;
    assert(group_views(groups@) =~= groups_of(all, 0));
    while i < settings.providers.len()
        invariant
            i <= settings.providers@.len(),
            all == settings@.providers,
            group_views(groups@) == groups_of(all, i as int),
        decreases settings.providers@.len() - i,
    {
        let p = &settings.providers[i];
        assert(all[i as int] == p@);
        if p.key_resolvable() || p.alias.is_some() {
            add_member(&mut groups, p.kind.as_str(), p.key.as_str());
        }
        i += 1;
    }
    groups
}

// ---------------------------------------------------------------------------
// Laws
// ---------------------------------------------------------------------------

/// Whether groups are listed in order, each kind once.
pub open spec fn groups_in_order(groups: Seq<GroupView>) -> bool {
    forall|i: int, j: int|
        0 <= i < j < groups.len() ==> kind_before(#[trigger] groups[i].kind, #[trigger] groups[j].kind)
}

/// Of two kinds one is listed first.
proof fn kinds_are_ordered(a: Seq<char>, b: Seq<char>)
    requires
        a != b,
    ensures
        kind_before(a, b) || kind_before(b, a),
{
    order::lex_total(kind_label(a), kind_label(b));
}

/// The order of kinds is transitive.
proof fn kind_order_carries(a: Seq<char>, b: Seq<char>, c: Seq<char>)
    requires
        kind_before(a, b),
        kind_before(b, c),
    ensures
        kind_before(a, c),
{
    if kind_rank(a) == kind_rank(b) && kind_rank(b) == kind_rank(c) {
        order::lex_transitive(kind_label(a), kind_label(b), kind_label(c));
        if kind_label(a) == kind_label(c) {
            order::lex_antisymmetric(kind_label(a), kind_label(b));
        }
    }
}

/// What stands around the place of a new kind.
proof fn group_place_splits(groups: Seq<GroupView>, kind: Seq<char>, i: int)
    requires
        0 <= i <= groups.len(),
        groups_in_order(groups),
        group_at(groups, kind, i) is None,
    ensures
        i <= group_place(groups, kind, i) <= groups.len(),
        forall|k: int|
            i <= k < group_place(groups, kind, i) ==> kind_before(#[trigger] groups[k].kind, kind),
        forall|k: int|
            group_place(groups, kind, i) <= k < groups.len() ==> kind_before(
                kind,
                #[trigger] groups[k].kind,
            ),
    decreases groups.len() - i,
{
    if i < groups.len() {
        if kind_before(kind, groups[i].kind) {
            assert forall|k: int| i <= k < groups.len() implies kind_before(
                kind,
                #[trigger] groups[k].kind,
            ) by {
                if k > i {
                    kind_order_carries(kind, groups[i].kind, groups[k].kind);
                }
            }
        } else {
            kinds_are_ordered(kind, groups[i].kind);
            group_place_splits(groups, kind, i + 1);
        }
    }
}

/// The groups stand in order, each kind in one group, whatever the providers are.
pub proof fn law_groups_are_in_order(v: Seq<ProviderView>, n: int)
    requires
        0 <= n <= v.len(),
    ensures
        groups_in_order(groups_of(v, n)),
    decreases n,
{
    if n > 0 {
        law_groups_are_in_order(v, n - 1);
        let before = groups_of(v, n - 1);
        if is_offered(v[n - 1]) && group_at(before, v[n - 1].kind, 0) is None {
            group_place_splits(before, v[n - 1].kind, 0);
        } else if is_offered(v[n - 1]) {
            let at = group_at(before, v[n - 1].kind, 0)->0;
            group_at_is(before, v[n - 1].kind, 0);
            let after = groups_of(v, n);
            assert forall|i: int, j: int| 0 <= i < j < after.len() implies kind_before(
                #[trigger] after[i].kind,
                #[trigger] after[j].kind,
            ) by {
                assert(kind_before(before[i].kind, before[j].kind));
            }
        }
    }
}

/// The group that is found is of the kind.
pub proof fn group_at_is(groups: Seq<GroupView>, kind: Seq<char>, i: int)
    requires
        0 <= i,
        group_at(groups, kind, i) is Some,
    ensures
        i <= group_at(groups, kind, i)->0 < groups.len(),
        groups[group_at(groups, kind, i)->0].kind == kind,
    decreases groups.len() - i,
{
    if i < groups.len() && groups[i].kind != kind {
        group_at_is(groups, kind, i + 1);
    }
}

/// Whether a name stands in one of the groups.
pub open spec fn is_listed(groups: Seq<GroupView>, kind: Seq<char>, key: Seq<char>) -> bool {
    exists|g: int, k: int|
        0 <= g < groups.len() && groups[g].kind == kind && 0 <= k < groups[g].keys.len()
            && #[trigger] groups[g].keys[k] == key
}

/// Every provider that is offered stands in the group of its kind.
pub proof fn law_offered_providers_are_listed(v: Seq<ProviderView>, n: int, i: int)
    requires
        0 <= i < n <= v.len(),
        is_offered(v[i]),
    ensures
        is_listed(groups_of(v, n), v[i].kind, v[i].key),
    decreases n,
{
    let before = groups_of(v, n - 1);
    let after = groups_of(v, n);
    let kind = v[n - 1].kind;
    let key = v[n - 1].key;
    if is_offered(v[n - 1]) {
        if let Some(at) = group_at(before, kind, 0) {
            group_at_is(before, kind, 0);
            let last = before[at].keys.len() as int;
            assert(after[at].keys[last] == key);
            if i < n - 1 {
                law_offered_providers_are_listed(v, n - 1, i);
                let (g, k) = choose|g: int, k: int|
                    0 <= g < before.len() && before[g].kind == v[i].kind && 0 <= k
                        < before[g].keys.len() && #[trigger] before[g].keys[k] == v[i].key;
                assert(after[g].keys[k] == v[i].key);
            }
        } else {
            group_place_bounds(before, kind, 0);
            let at = group_place(before, kind, 0);
            assert(after[at].keys[0] == key);
            if i < n - 1 {
                law_offered_providers_are_listed(v, n - 1, i);
                let (g, k) = choose|g: int, k: int|
                    0 <= g < before.len() && before[g].kind == v[i].kind && 0 <= k
                        < before[g].keys.len() && #[trigger] before[g].keys[k] == v[i].key;
                if g < at {
                    assert(after[g].keys[k] == v[i].key);
                } else {
                    assert(after[g + 1].keys[k] == v[i].key);
                }
            }
        }
    } else {
        law_offered_providers_are_listed(v, n - 1, i);
    }
}

/// The place of a group lies among the groups.
pub proof fn group_place_bounds(groups: Seq<GroupView>, kind: Seq<char>, i: int)
    requires
        0 <= i <= groups.len(),
    ensures
        i <= group_place(groups, kind, i) <= groups.len(),
    decreases groups.len() - i,
{
    if i < groups.len() && !kind_before(kind, groups[i].kind) {
        group_place_bounds(groups, kind, i + 1);
    }
}

/// There is always a name that is free, and none of the first names is.
proof fn some_round_is_free(v: Seq<ProviderView>, base: Seq<char>, n: int)
    requires
        0 <= n <= v.len() + 1,
        forall|j: int| 1 <= j <= n ==> is_taken(v, #[trigger] candidate(base, j)),
    ensures
        exists|k: int| is_first_free(v, base, k),
    decreases v.len() + 1 - n,
{
    taken_rounds_are_few(v, base, n);
    if is_taken(v, candidate(base, n + 1)) {
        assert forall|j: int| 1 <= j <= n + 1 implies is_taken(
            v,
            #[trigger] candidate(base, j),
        ) by {}
        some_round_is_free(v, base, n + 1);
    } else {
        assert(is_first_free(v, base, n + 1));
    }
}

/// The name that a new provider gets is never taken, whatever providers there are.
pub proof fn law_free_names_are_free(v: Seq<ProviderView>, base: Seq<char>)
    ensures
        !is_taken(v, free_key(v, base)),
        !is_taken(v, base) ==> free_key(v, base) == base,
{
    some_round_is_free(v, base, 0);
    let k = choose|k: int| is_first_free(v, base, k);
    assert(is_first_free(v, base, k));
    if !is_taken(v, base) && k > 1 {
        assert(is_taken(v, candidate(base, 1)));
    }
}

/// A provider that is added stands beside all that were there: none is written over.
pub proof fn law_added_providers_replace_none(v: Seq<ProviderView>, p: ProviderView, i: int)
    requires
        0 <= i < v.len(),
    ensures
        with_provider(v, p).contains(v[i]),
        with_provider(v, p).contains(p),
        with_provider(v, p).len() == v.len() + 1,
{
    provider_place_bounds(v, p.key, 0);
    let at = provider_place(v, p.key, 0);
    let w = with_provider(v, p);
    assert(w[at] == p);
    if i < at {
        assert(w[i] == v[i]);
    } else {
        assert(w[i + 1] == v[i]);
    }
}

/// The place of a provider lies among the providers.
proof fn provider_place_bounds(v: Seq<ProviderView>, key: Seq<char>, i: int)
    requires
        0 <= i <= v.len(),
    ensures
        i <= provider_place(v, key, i) <= v.len(),
    decreases v.len() - i,
{
    if i < v.len() && order::lex_le(v[i].key, key) {
        provider_place_bounds(v, key, i + 1);
    }
}

/// A provider is offered where a key for it is at hand, in the environment or in the settings
/// and not blank, or where the user gave it a name; and both roles use the one that is chosen,
/// with the models that they have.
pub proof fn law_offered_providers_can_be_used(p: ProviderView, s: SettingsView, key: Seq<char>)
    ensures
        p.env_resolves ==> is_offered(p),
        p.alias is Some ==> is_offered(p),
        p.api_key is Some && text::trimmed(p.api_key->0).len() > 0 ==> is_offered(p),
        !p.env_resolves && p.alias is None && (p.api_key is None || text::trimmed(
            p.api_key->0,
        ).len() == 0) ==> !is_offered(p),
        bound_to(s, key).main.provider == key,
        bound_to(s, key).sub.provider == key,
        bound_to(s, key).main.model == s.main.model,
        bound_to(s, key).sub.model == s.sub.model,
        bound_to(s, key).providers == s.providers,
{
}

/// A provider that is looked up by its name is one with that name, the first of them.
pub proof fn law_providers_are_found_by_name(v: Seq<ProviderView>, key: Seq<char>, k: int)
    ensures
        match provider_at(v, key, 0) {
            Some(i) => {
                &&& 0 <= i < v.len()
                &&& v[i].key == key
                &&& 0 <= k < i ==> v[k].key != key
            },
            None => 0 <= k < v.len() ==> v[k].key != key,
        },
{
    provider_found(v, key, 0, k);
}

/// A provider that is looked up from `i` on.
proof fn provider_found(v: Seq<ProviderView>, key: Seq<char>, i: int, k: int)
    requires
        0 <= i,
    ensures
        match provider_at(v, key, i) {
            Some(j) => {
                &&& i <= j < v.len()
                &&& v[j].key == key
                &&& i <= k < j ==> v[k].key != key
            },
            None => i <= k < v.len() ==> v[k].key != key,
        },
    decreases v.len() - i,
{
    if i < v.len() && v[i].key != key {
        provider_found(v, key, i + 1, k);
    }
}

} // verus!
