//! The rows of the screen.

use crate::bottom_pane::approval_overlay::prefixed;
use crate::config_update;
use crate::config_update::presets;
use crate::config_update::presets::{PresetProvider, PresetRow, PresetView, RowView};
use crate::config_update::providers;
use crate::config_update::providers::{ProviderConfig, ProviderView};
use crate::config_update::{ConfigScreen, ConfigView, Field, FormView, Step};
use crate::style;
use crate::style::{Line, Span, SpanView, Tone};
use crate::text;
use vstd::prelude::*;

verus! {

/// A page with a list: what stands above it, its items, and the marked one.
#[derive(Debug)]
pub struct ListPage {
    pub title: Vec<Line>,
    pub items: Vec<Line>,
    pub selected: Option<usize>,
}

/// A page with a list.
#[verifier::ext_equal]
pub struct PageView {
    pub title: Seq<Seq<SpanView>>,
    pub items: Seq<Seq<SpanView>>,
    pub selected: Option<int>,
}

impl View for ListPage {
    type V = PageView;

    open spec fn view(&self) -> PageView {
        PageView {
            title: style::line_views(self.title@),
            items: style::line_views(self.items@),
            selected: match self.selected {
                Some(i) => Some(i as int),
                None => None,
            },
        }
    }
}

/// The two rows above a list.
pub open spec fn title_rows(name: Seq<char>, hint: Seq<char>) -> Seq<Seq<SpanView>> {
    seq![seq![style::span(name, Tone::WhiteBold)], seq![style::span(hint, Tone::Muted)]]
}

/// The two rows above a list.
fn title_lines(name: &str, hint: &str) -> (r: Vec<Line>)
    ensures
        style::line_views(r@) == title_rows(name@, hint@),
{
    let mut out: Vec<Line> = Vec::new();
    style::add_line(&mut out, Line::one(name, Tone::WhiteBold));
    style::add_line(&mut out, Line::one(hint, Tone::Muted));
    assert(style::line_views(out@) =~= title_rows(name@, hint@));
    out
}

// ---------------------------------------------------------------------------
// The head
// ---------------------------------------------------------------------------

/// The marked group and how many names it holds.
pub open spec fn group_summary(v: ConfigView) -> Seq<char> {
    if v.picker.group_selected < v.groups.len() {
        let g = v.groups[v.picker.group_selected as int];
        g.label + " ("@ + text::decimal_of(g.keys.len()) + ")"@
    } else {
        "No providers"@
    }
}

/// What the marked provider is called, or a word where there is none.
pub open spec fn marked_label(v: ConfigView, none: Seq<char>) -> Seq<char> {
    match config_update::selected_key(v.groups, v.picker) {
        Some(key) => config_update::provider_label(v.settings, key),
        None => none,
    }
}

/// The row above the form.
pub open spec fn header_row(v: ConfigView) -> Seq<SpanView> {
    seq![
        style::span(text::padded("group"@, 9), Tone::MutedBold),
        style::span(group_summary(v), Tone::CyanBold),
        style::span("   "@, Tone::Plain),
        style::span(text::padded("API"@, 9), Tone::MutedBold),
        style::span(marked_label(v, "-"@), Tone::YellowBold),
    ]
}

// ---------------------------------------------------------------------------
// The lists
// ---------------------------------------------------------------------------

/// The items of the first page.
pub open spec fn action_rows(no_keys: bool) -> Seq<Seq<SpanView>> {
    seq![
        seq![
            style::span("◉  "@, Tone::Cyan),
            style::span(
                "Use configured provider"@,
                if no_keys {
                    Tone::Muted
                } else {
                    Tone::White
                },
            ),
            style::span("  Choose from providers already added"@, Tone::Muted),
        ],
        seq![
            style::span("→  "@, Tone::Cyan),
            style::span("Continue to model assignment"@, Tone::White),
        ],
        seq![
            style::span("+  "@, Tone::Cyan),
            style::span("Add from preset"@, Tone::White),
            style::span("  Browse grouped provider presets"@, Tone::Muted),
        ],
        seq![
            style::span("+  "@, Tone::Cyan),
            style::span("Add custom provider"@, Tone::White),
            style::span("  OpenAI-compatible endpoint"@, Tone::Muted),
        ],
    ]
}

/// The first page.
pub open spec fn select_page(v: ConfigView) -> PageView {
    PageView {
        title: title_rows(
            "Configure providers · 1/2"@,
            "Choose how to select the provider shared by Main and Sub agents"@,
        ),
        items: action_rows(config_update::all_keys(v).len() == 0),
        selected: Some(v.picker.picker_selected as int),
    }
}

/// The items of the list of names from `i` on.
pub open spec fn name_rows(v: ConfigView, keys: Seq<Seq<char>>, i: int) -> Seq<Seq<SpanView>>
    decreases keys.len() - i,
{
    if i < 0 || i >= keys.len() {
        Seq::empty()
    } else {
        seq![
            seq![style::span(config_update::provider_label(v.settings, keys[i]), Tone::White)],
        ] + name_rows(v, keys, i + 1)
    }
}

/// The page with the list of names.
pub open spec fn configured_page(v: ConfigView) -> PageView {
    let keys = config_update::all_keys(v);
    PageView {
        title: title_rows(
            "Use configured provider"@,
            "Only providers already added to config are shown"@,
        ),
        items: if keys.len() == 0 {
            seq![
                seq![
                    style::span("No configured providers — go back and add one"@, Tone::Yellow),
                ],
            ]
        } else {
            name_rows(v, keys, 0)
        },
        selected: if keys.len() == 0 {
            None
        } else {
            Some(v.picker.picker_selected as int)
        },
    }
}

/// The longest name of the first `n` presets that were found.
pub open spec fn longest_name(v: Seq<PresetView>, found: Seq<int>, n: int) -> int
    decreases n,
{
    if n <= 0 {
        0
    } else {
        let before = longest_name(v, found, n - 1);
        let len = v[found[n - 1]].name.len() as int;
        if len > before {
            len
        } else {
            before
        }
    }
}

/// How many columns the names take.
pub open spec fn name_width(v: Seq<PresetView>, found: Seq<int>) -> int {
    if found.len() == 0 {
        1
    } else {
        config_update::lesser(longest_name(v, found, found.len() as int), 32)
    }
}

/// The item of a row of the catalog.
pub open spec fn catalog_item(v: Seq<PresetView>, row: RowView, columns: int) -> Seq<SpanView> {
    match row.preset {
        None => seq![style::span("  "@ + row.label, Tone::CyanBold)],
        Some(i) => seq![
            style::span("  "@ + text::padded(v[i].name, columns) + "  "@, Tone::White),
            style::span(
                if v[i].base_url.len() == 0 {
                    "default endpoint"@
                } else {
                    v[i].base_url
                },
                Tone::Muted,
            ),
        ],
    }
}

/// The items of the catalog from `i` on.
pub open spec fn catalog_items(
    v: Seq<PresetView>,
    rows: Seq<RowView>,
    columns: int,
    i: int,
) -> Seq<Seq<SpanView>>
    decreases rows.len() - i,
{
    if i < 0 || i >= rows.len() {
        Seq::empty()
    } else {
        seq![catalog_item(v, rows[i], columns)] + catalog_items(v, rows, columns, i + 1)
    }
}

/// The row of a preset, or the first one.
pub open spec fn row_of_preset(rows: Seq<RowView>, preset: int, i: int) -> int
    decreases rows.len() - i,
{
    if i < 0 || i >= rows.len() {
        0
    } else if rows[i].preset == Some(preset) {
        i
    } else {
        row_of_preset(rows, preset, i + 1)
    }
}

/// The page with the catalog of presets.
pub open spec fn add_page(v: ConfigView) -> PageView {
    let found = config_update::found(v);
    let rows = presets::rows_of(v.presets, found, found.len() as int);
    PageView {
        title: title_rows(
            "Add from preset"@,
            if v.search.len() == 0 {
                "Search presets…"@
            } else {
                "Search presets: "@ + v.search
            },
        ),
        items: if rows.len() == 0 {
            seq![seq![style::span("No matching presets"@, Tone::Muted)]]
        } else {
            catalog_items(v.presets, rows, name_width(v.presets, found), 0)
        },
        selected: if rows.len() == 0 {
            None
        } else {
            Some(row_of_preset(rows, v.picker.preset_selected as int, 0))
        },
    }
}

// ---------------------------------------------------------------------------
// The form
// ---------------------------------------------------------------------------

/// The variable that holds the key of a provider.
pub open spec fn key_variable(p: ProviderView) -> Option<Seq<char>> {
    match p.api_key_env {
        Some(e) => Some(e),
        None => p.default_env,
    }
}

/// What a field of a provider shows. A key does not show.
pub open spec fn shown_value(v: ConfigView, p: ProviderView, f: Field) -> Seq<char> {
    match f {
        Field::Alias => marked_label(v, Seq::empty()),
        Field::ApiBase => match p.api_base {
            Some(t) => t,
            None => Seq::empty(),
        },
        Field::ApiKey => match p.api_key {
            Some(_) => "•••••••• (stored securely)"@,
            None => match key_variable(p) {
                Some(e) => "(from "@ + e + ")"@,
                None => "(not set)"@,
            },
        },
        _ => Seq::empty(),
    }
}

/// Typed text as it shows.
pub open spec fn typed_shown(s: Seq<char>, mask: bool) -> Seq<char> {
    if mask {
        text::repeated('•', s.len())
    } else {
        s
    }
}

/// The spans of the text that is typed, with the character under the cursor on its
/// own.
pub open spec fn typed_spans(f: FormView, mask: bool) -> Seq<SpanView> {
    let at = f.cursor;
    let end = if at < f.input.len() {
        at + 1
    } else {
        at
    };
    seq![
        style::span(typed_shown(f.input.take(at), mask), Tone::Plain),
        style::span(
            if at < f.input.len() {
                typed_shown(f.input.subrange(at, end), mask)
            } else {
                " "@
            },
            Tone::Cursor,
        ),
        style::span(typed_shown(f.input.skip(end), mask), Tone::Plain),
    ]
}

/// The row of a field.
pub open spec fn field_row(v: ConfigView, p: ProviderView, f: Field) -> Seq<SpanView> {
    seq![
        style::span(text::padded(config_update::field_label(f), 14), Tone::Bold),
        style::span(" "@, Tone::Plain),
    ] + (if v.form.field == f && v.form.editing {
        typed_spans(v.form, f == Field::ApiKey)
    } else {
        seq![style::span(shown_value(v, p, f), Tone::Plain)]
    })
}

/// The rows of the form, and the marked one.
pub open spec fn edit_page(v: ConfigView) -> PageView {
    match config_update::selected_provider(v) {
        None => PageView { title: Seq::empty(), items: Seq::empty(), selected: None },
        Some(p) => PageView {
            title: seq![
                seq![style::span("Editing API: "@ + marked_label(v, "?"@), Tone::YellowBold)],
                seq![style::span("Enter a value, then move to Save"@, Tone::Muted)],
                Seq::empty(),
            ],
            items: seq![
                field_row(v, p, Field::Alias),
                field_row(v, p, Field::ApiBase),
                field_row(v, p, Field::ApiKey),
                seq![style::span(config_update::field_label(Field::Save), Tone::GreenBold)],
                seq![style::span(config_update::field_label(Field::Cancel), Tone::RedBold)],
            ],
            selected: Some(config_update::field_index(v.form.field)),
        },
    }
}

// ---------------------------------------------------------------------------
// The last page
// ---------------------------------------------------------------------------

/// A row with a label and a value.
pub open spec fn detail_row(label: Seq<char>, value: Seq<char>) -> Seq<SpanView> {
    seq![
        style::span(text::padded(label, 11), Tone::MutedBold),
        style::span(" "@, Tone::Plain),
        style::span(value, Tone::White),
    ]
}

/// What is said of the key of a provider.
pub open spec fn key_status(p: ProviderView) -> Seq<char> {
    if p.api_key is Some && text::trimmed(p.api_key->0).len() > 0 {
        "configured · stored securely in auth.json"@
    } else if providers::has_key(p) {
        "resolved from environment"@
    } else {
        "not configured"@
    }
}

/// What is there, or a word where it is not.
pub open spec fn or_word(o: Option<Seq<char>>, none: Seq<char>) -> Seq<char> {
    match o {
        Some(t) => t,
        None => none,
    }
}

/// The rows of the last page.
pub open spec fn preview_rows(v: ConfigView) -> Seq<Seq<SpanView>> {
    match config_update::selected_provider(v) {
        None => Seq::empty(),
        Some(p) => seq![
            seq![style::span("Review this API before saving"@, Tone::WhiteBold)],
            Seq::empty(),
            detail_row("provider"@, marked_label(v, "-"@)),
            detail_row("kind"@, p.kind),
            detail_row("api_base"@, or_word(p.api_base, "(default)"@)),
            detail_row("api_key"@, key_status(p)),
            detail_row("env var"@, or_word(key_variable(p), "-"@)),
            Seq::empty(),
            seq![
                style::span(
                    "The public config omits the key; auth.json stores it with restricted permissions."@,
                    Tone::Muted,
                ),
            ],
        ],
    }
}

/// The keys that can be pressed.
pub open spec fn key_hint(step: Step, editing: bool) -> Seq<char> {
    if editing {
        " Enter: confirm field   Esc: cancel edit"@
    } else {
        match step {
            Step::Select => "↑/↓ move  Enter select  Esc cancel  q quit"@,
            Step::Add => "Type to search  ↑/↓ move  Enter add  Esc back"@,
            Step::Configured => "↑/↓ move  Enter use  Esc back  q quit"@,
            Step::Edit => " ↑/↓: field   Enter: edit/action   Esc: back  q quit"@,
            Step::Preview => " Enter: save & finish   Esc: back to edit  q quit"@,
        }
    }
}

/// The row at the bottom: the keys and the error, cut to the columns that there are.
pub open spec fn footer_text(v: ConfigView, columns: u16) -> Seq<char> {
    let hint = key_hint(v.form.step, v.form.editing);
    let whole = match v.error {
        Some(e) => hint + "   ⚠ "@ + e,
        None => hint,
    };
    text::first_chars(
        whole,
        if columns > 0 {
            columns - 1
        } else {
            0
        },
    )
}

// ---------------------------------------------------------------------------
// The code
// ---------------------------------------------------------------------------

/// A row of three spans.
fn three(a: &str, ta: Tone, b: &str, tb: Tone, c: &str, tc: Tone) -> (r: Line)
    ensures
        r@ == seq![style::span(a@, ta), style::span(b@, tb), style::span(c@, tc)],
{
    let mut line = Line::empty();
    line.push(a, ta);
    line.push(b, tb);
    line.push(c, tc);
    assert(line@ =~= seq![style::span(a@, ta), style::span(b@, tb), style::span(c@, tc)]);
    line
}

/// A row of two spans.
fn two(a: &str, ta: Tone, b: &str, tb: Tone) -> (r: Line)
    ensures
        r@ == seq![style::span(a@, ta), style::span(b@, tb)],
{
    let mut line = Line::empty();
    line.push(a, ta);
    line.push(b, tb);
    assert(line@ =~= seq![style::span(a@, ta), style::span(b@, tb)]);
    line
}

/// The items of the first page.
fn action_lines(no_keys: bool) -> (r: Vec<Line>)
    ensures
        style::line_views(r@) == action_rows(no_keys),
{
    let tone = if no_keys {
        Tone::Muted
    } else {
        Tone::White
    };
    let mut out: Vec<Line> = Vec::new();
    style::add_line(
        &mut out,
        three(
            "◉  ",
            Tone::Cyan,
            "Use configured provider",
            tone,
            "  Choose from providers already added",
            Tone::Muted,
        ),
    );
    style::add_line(
        &mut out,
        two("→  ", Tone::Cyan, "Continue to model assignment", Tone::White),
    );
    style::add_line(
        &mut out,
        three(
            "+  ",
            Tone::Cyan,
            "Add from preset",
            Tone::White,
            "  Browse grouped provider presets",
            Tone::Muted,
        ),
    );
    style::add_line(
        &mut out,
        three(
            "+  ",
            Tone::Cyan,
            "Add custom provider",
            Tone::White,
            "  OpenAI-compatible endpoint",
            Tone::Muted,
        ),
    );
    assert(style::line_views(out@) =~= action_rows(no_keys));
    out
}

/// The item of a row of the catalog.
fn catalog_line(presets: &Vec<PresetProvider>, row: &PresetRow, columns: usize) -> (r: Line)
    requires
        row.preset is Some ==> row.preset->0 < presets@.len(),
    ensures
        r@ == catalog_item(presets::preset_views(presets@), row@, columns as int),
{
    match row.preset {
        None => Line::one(&prefixed("  ", row.label.as_str()), Tone::CyanBold),
        Some(i) => {
            let p = &presets[i];
            assert(presets::preset_views(presets@)[i as int] == p@);
            let mut name = prefixed("  ", &text::pad(p.name.as_str(), columns));
            name.push_str("  ");
            let endpoint = if p.base_url.as_str().is_empty() {
                "default endpoint"
            } else {
                p.base_url.as_str()
            };
            two(&name, Tone::White, endpoint, Tone::Muted)
        },
    }
}

/// The typed text as it shows.
fn show_typed(chars: &Vec<char>, from: usize, to: usize, mask: bool) -> (r: String)
    requires
        from <= to <= chars@.len(),
    ensures
        r@ == typed_shown(chars@.subrange(from as int, to as int), mask),
{
    if mask {
        text::repeat('•', to - from)
    } else {
        text::string_of_range(chars, from, to)
    }
}

/// A row with a label and a value.
fn detail_line(label: &str, value: &str) -> (r: Line)
    ensures
        r@ == detail_row(label@, value@),
{
    three(&text::pad(label, 11), Tone::MutedBold, " ", Tone::Plain, value, Tone::White)
}

/// The variable that holds the key of a provider.
fn variable_of(p: &ProviderConfig) -> (r: Option<String>)
    ensures
        text::opt_view(r) == key_variable(p@),
{
    match &p.api_key_env {
        Some(e) => Some(e.as_str().to_string()),
        None => text::copy_opt(&p.default_env),
    }
}

/// What is said of the key of a provider.
fn status_of_key(p: &ProviderConfig) -> (r: &'static str)
    ensures
        r@ == key_status(p@),
{
    if let Some(k) = &p.api_key {
        if !text::trim(k.as_str()).as_str().is_empty() {
            return "configured · stored securely in auth.json";
        }
    }
    if p.key_resolvable() {
        "resolved from environment"
    } else {
        "not configured"
    }
}

/// What is there, or a word where it is not.
fn unwrap_or_word(o: &Option<String>, none: &str) -> (r: String)
    ensures
        r@ == or_word(text::opt_view(*o), none@),
{
    match o {
        Some(t) => t.as_str().to_string(),
        None => none.to_string(),
    }
}

impl ConfigScreen {
    /// The marked group and how many names it holds.
    pub fn group_summary(&self) -> (r: String)
        ensures
            r@ == group_summary(self@),
    {
        if self.picker.group_selected < self.groups.len() {
            let g = &self.groups[self.picker.group_selected];
            assert(self@.groups[self.picker.group_selected as int] == g@);
            let mut out = g.label.as_str().to_string();
            out.push_str(" (");
            out.push_str(&text::decimal(g.keys.len() as u64));
            out.push_str(")");
            out
        } else {
            "No providers".to_string()
        }
    }

    /// What the marked provider is called, or a word where there is none.
    fn label_of_marked(&self, none: &str) -> (r: String)
        ensures
            r@ == marked_label(self@, none@),
    {
        match self.selected_key() {
            Some(key) => self.provider_label(&key),
            None => none.to_string(),
        }
    }

    /// The row above the form.
    pub fn header_line(&self) -> (r: Line)
        ensures
            r@ == header_row(self@),
    {
        let mut line = Line::empty();
        line.add(Span::of(text::pad("group", 9), Tone::MutedBold));
        line.add(Span::of(self.group_summary(), Tone::CyanBold));
        line.push("   ", Tone::Plain);
        line.add(Span::of(text::pad("API", 9), Tone::MutedBold));
        line.add(Span::of(self.label_of_marked("-"), Tone::YellowBold));
        assert(line@ =~= header_row(self@));
        line
    }

    /// The first page.
    pub fn select_page(&self) -> (r: ListPage)
        ensures
            r@ == select_page(self@),
    {
        let keys = self.provider_picker_keys();
        assert(config_update::all_keys(self@).len() == keys@.len());
        ListPage {
            title: title_lines(
                "Configure providers · 1/2",
                "Choose how to select the provider shared by Main and Sub agents",
            ),
            items: action_lines(keys.len() == 0),
            selected: Some(self.picker.picker_selected),
        }
    }

    /// The page with the list of names.
    pub fn configured_page(&self) -> (r: ListPage)
        ensures
            r@ == configured_page(self@),
    {
        let title = title_lines(
            "Use configured provider",
            "Only providers already added to config are shown",
        );
        let keys = self.provider_picker_keys();
        let ghost all = config_update::all_keys(self@);
        assert(all.len() == keys@.len());
        let mut items: Vec<Line> = Vec::new();
        assert(style::line_views(items@) =~= Seq::<Seq<SpanView>>::empty());
        if keys.len() == 0 {
            style::add_line(
                &mut items,
                Line::one("No configured providers — go back and add one", Tone::Yellow),
            );
            assert(style::line_views(items@) =~= configured_page(self@).items);
            return ListPage { title, items, selected: None };
        }
        let ghost goal = name_rows(self@, all, 0);
        let mut i: usize = 0;
        assert(goal =~= style::line_views(items@) + name_rows(self@, all, 0));
        while i < keys.len()
            invariant
                i <= keys@.len(),
                all == text::views(keys@),
                goal == style::line_views(items@) + name_rows(self@, all, i as int),
            decreases keys@.len() - i,
        {
            let ghost before = style::line_views(items@);
            let line = Line::one(&self.provider_label(keys[i].as_str()), Tone::White);
            let ghost row = line@;
            assert(all[i as int] == keys@[i as int]@);
            style::add_line(&mut items, line);
            assert(goal =~= before.push(row) + name_rows(self@, all, i + 1));
            i += 1;
        }
        assert(goal =~= style::line_views(items@));
        ListPage { title, items, selected: Some(self.picker.picker_selected) }
    }

    /// How many columns the names of presets take.
    fn columns_of_names(&self, list: &Vec<usize>) -> (r: usize)
        requires
            forall|k: int| 0 <= k < list@.len() ==> (#[trigger] list@[k]) < self.presets@.len(),
        ensures
            r as int == name_width(self@.presets, presets::indices(list@)),
    {
        let ghost all = self@.presets;
        let ghost found = presets::indices(list@);
        if list.len() == 0 {
            return 1;
        }
        let mut most: usize = 0;
        let mut i: usize = 0;
        while i < list.len()
            invariant
                i <= list@.len(),
                all == self@.presets,
                found == presets::indices(list@),
                forall|k: int|
                    0 <= k < list@.len() ==> (#[trigger] list@[k]) < self.presets@.len(),
                most as int == longest_name(all, found, i as int),
            decreases list@.len() - i,
        {
            let p = &self.presets[list[i]];
            assert(found[i as int] == list@[i as int] as int);
            assert(all[found[i as int]] == p@);
            let len: usize = text::chars_of(p.name.as_str()).len();
            if len > most {
                most = len;
            }
            i += 1;
        }
        if most < 32 {
            most
        } else {
            32
        }
    }

    /// The page with the catalog of presets.
    pub fn add_page(&self) -> (r: ListPage)
        ensures
            r@ == add_page(self@),
    {
        let title = if self.preset_search.len() == 0 {
            title_lines("Add from preset", "Search presets…")
        } else {
            let hint = prefixed("Search presets: ", &text::string_of(&self.preset_search));
            title_lines("Add from preset", &hint)
        };
        let list = self.filtered_presets();
        let ghost found = config_update::found(self@);
        assert(found.len() == list@.len());
        let rows = presets::catalog_rows(&self.presets, &list);
        let ghost all = presets::rows_of(self@.presets, found, found.len() as int);
        assert(all.len() == rows@.len());
        let columns: usize = self.columns_of_names(&list);
        let mut items: Vec<Line> = Vec::new();
        assert(style::line_views(items@) =~= Seq::<Seq<SpanView>>::empty());
        if rows.len() == 0 {
            style::add_line(&mut items, Line::one("No matching presets", Tone::Muted));
            assert(style::line_views(items@) =~= add_page(self@).items);
            return ListPage { title, items, selected: None };
        }
        proof {
            rows_stay_inside(self@.presets, found, found.len() as int);
        }
        let ghost goal = catalog_items(self@.presets, all, columns as int, 0);
        let mut i: usize = 0;
        let mut marked: usize = 0;
        let mut seen = false;
        assert(goal =~= style::line_views(items@) + catalog_items(
            self@.presets,
            all,
            columns as int,
            0,
        ));
        let ghost preset = self.picker.preset_selected as int;
        while i < rows.len()
            invariant
                i <= rows@.len(),
                all == presets::row_views(rows@),
                preset == self.picker.preset_selected as int,
                presets::preset_views(self.presets@) == self@.presets,
                forall|k: int|
                    0 <= k < all.len() && (#[trigger] all[k]).preset is Some ==> 0
                        <= all[k].preset->0 < self.presets@.len(),
                goal == style::line_views(items@) + catalog_items(
                    self@.presets,
                    all,
                    columns as int,
                    i as int,
                ),
                row_of_preset(all, preset, 0) == (if seen {
                    marked as int
                } else {
                    row_of_preset(all, preset, i as int)
                }),
                !seen ==> marked == 0,
            decreases rows@.len() - i,
        {
            let ghost before = style::line_views(items@);
            assert(all[i as int] == rows@[i as int]@);
            let line = catalog_line(&self.presets, &rows[i], columns);
            let ghost row = line@;
            style::add_line(&mut items, line);
            assert(goal =~= before.push(row) + catalog_items(
                self@.presets,
                all,
                columns as int,
                i + 1,
            ));
            if !seen {
                if let Some(k) = rows[i].preset {
                    if k == self.picker.preset_selected {
                        marked = i;
                        seen = true;
                    }
                }
            }
            i += 1;
        }
        assert(goal =~= style::line_views(items@));
        ListPage { title, items, selected: Some(marked) }
    }

    /// What a field of a provider shows.
    fn show_value(&self, p: &ProviderConfig, field: Field) -> (r: String)
        ensures
            r@ == shown_value(self@, p@, field),
    {
        proof {
            reveal_strlit("");
            assert(""@ =~= Seq::<char>::empty());
        }
        match field {
            Field::Alias => self.label_of_marked(""),
            Field::ApiBase => match &p.api_base {
                Some(t) => t.as_str().to_string(),
                None => String::new(),
            },
            Field::ApiKey => {
                if p.api_key.is_some() {
                    return "•••••••• (stored securely)".to_string();
                }
                match variable_of(p) {
                    Some(e) => {
                        let mut out = prefixed("(from ", &e);
                        out.push_str(")");
                        out
                    },
                    None => "(not set)".to_string(),
                }
            },
            _ => String::new(),
        }
    }

    /// The row of a field.
    fn field_line(&self, p: &ProviderConfig, field: Field) -> (r: Line)
        requires
            self@.wf(),
        ensures
            r@ == field_row(self@, p@, field),
    {
        let mut line = Line::empty();
        line.add(Span::of(text::pad(field.label(), 14), Tone::Bold));
        line.push(" ", Tone::Plain);
        let ghost head = line@;
        if self.form.field == field && self.form.editing {
            let mask = field == Field::ApiKey;
            let at: usize = self.form.cursor;
            let total: usize = self.form.input.len();
            let end: usize = if at < total {
                at + 1
            } else {
                at
            };
            let ghost input = self.form.input@;
            assert(input.subrange(0, at as int) =~= input.take(at as int));
            assert(input.subrange(end as int, total as int) =~= input.skip(end as int));
            line.add(Span::of(show_typed(&self.form.input, 0, at, mask), Tone::Plain));
            if at < total {
                line.add(Span::of(show_typed(&self.form.input, at, end, mask), Tone::Cursor));
            } else {
                line.push(" ", Tone::Cursor);
            }
            line.add(Span::of(show_typed(&self.form.input, end, total, mask), Tone::Plain));
            assert(line@ =~= head + typed_spans(self@.form, mask));
        } else {
            line.add(Span::of(self.show_value(p, field), Tone::Plain));
            assert(line@ =~= head + seq![style::span(shown_value(self@, p@, field), Tone::Plain)]);
        }
        assert(line@ =~= field_row(self@, p@, field));
        line
    }

    /// The rows of the form, and the marked one.
    pub fn edit_page(&self) -> (r: ListPage)
        requires
            self@.wf(),
        ensures
            r@ == edit_page(self@),
    {
        let mut title: Vec<Line> = Vec::new();
        let mut items: Vec<Line> = Vec::new();
        assert(style::line_views(title@) =~= Seq::<Seq<SpanView>>::empty());
        assert(style::line_views(items@) =~= Seq::<Seq<SpanView>>::empty());
        match self.selected_provider() {
            None => ListPage { title, items, selected: None },
            Some(p) => {
                let name = prefixed("Editing API: ", &self.label_of_marked("?"));
                style::add_line(&mut title, Line::one(&name, Tone::YellowBold));
                style::add_line(
                    &mut title,
                    Line::one("Enter a value, then move to Save", Tone::Muted),
                );
                style::add_line(&mut title, Line::empty());
                style::add_line(&mut items, self.field_line(p, Field::Alias));
                style::add_line(&mut items, self.field_line(p, Field::ApiBase));
                style::add_line(&mut items, self.field_line(p, Field::ApiKey));
                style::add_line(&mut items, Line::one(Field::Save.label(), Tone::GreenBold));
                style::add_line(&mut items, Line::one(Field::Cancel.label(), Tone::RedBold));
                assert(style::line_views(title@) =~= edit_page(self@).title);
                assert(style::line_views(items@) =~= edit_page(self@).items);
                ListPage { title, items, selected: Some(self.form.field.index()) }
            },
        }
    }

    /// The rows of the last page.
    pub fn preview_lines(&self) -> (r: Vec<Line>)
        ensures
            style::line_views(r@) == preview_rows(self@),
    {
        let mut out: Vec<Line> = Vec::new();
        assert(style::line_views(out@) =~= Seq::<Seq<SpanView>>::empty());
        match self.selected_provider() {
            None => {},
            Some(p) => {
                style::add_line(
                    &mut out,
                    Line::one("Review this API before saving", Tone::WhiteBold),
                );
                style::add_line(&mut out, Line::empty());
                style::add_line(&mut out, detail_line("provider", &self.label_of_marked("-")));
                style::add_line(&mut out, detail_line("kind", p.kind.as_str()));
                style::add_line(
                    &mut out,
                    detail_line("api_base", &unwrap_or_word(&p.api_base, "(default)")),
                );
                style::add_line(&mut out, detail_line("api_key", status_of_key(p)));
                style::add_line(
                    &mut out,
                    detail_line("env var", &unwrap_or_word(&variable_of(p), "-")),
                );
                style::add_line(&mut out, Line::empty());
                style::add_line(
                    &mut out,
                    Line::one(
                        "The public config omits the key; auth.json stores it with restricted permissions.",
                        Tone::Muted,
                    ),
                );
                assert(style::line_views(out@) =~= preview_rows(self@));
            },
        }
        out
    }

    /// The row at the bottom.
    pub fn footer(&self, columns: u16) -> (r: String)
        ensures
            r@ == footer_text(self@, columns),
    {
        let hint = if self.form.editing {
            " Enter: confirm field   Esc: cancel edit"
        } else {
            match self.form.step {
                Step::Select => "↑/↓ move  Enter select  Esc cancel  q quit",
                Step::Add => "Type to search  ↑/↓ move  Enter add  Esc back",
                Step::Configured => "↑/↓ move  Enter use  Esc back  q quit",
                Step::Edit => " ↑/↓: field   Enter: edit/action   Esc: back  q quit",
                Step::Preview => " Enter: save & finish   Esc: back to edit  q quit",
            }
        };
        let mut whole = hint.to_string();
        if let Some(e) = &self.error {
            whole.push_str("   ⚠ ");
            whole.push_str(e.as_str());
        }
        let room: usize = if columns > 0 {
            (columns - 1) as usize
        } else {
            0
        };
        text::take_chars(&whole, room)
    }
}

/// The rows of the catalog name presets that were found.
proof fn rows_stay_inside(v: Seq<PresetView>, found: Seq<int>, n: int)
    requires
        0 <= n <= found.len(),
    ensures
        forall|k: int|
            0 <= k < presets::rows_of(v, found, n).len() && (#[trigger] presets::rows_of(
                v,
                found,
                n,
            )[k]).preset is Some ==> exists|j: int|
                0 <= j < n && presets::rows_of(v, found, n)[k].preset->0 == #[trigger] found[j],
    decreases n,
{
    if n > 0 {
        rows_stay_inside(v, found, n - 1);
    }
}

// ---------------------------------------------------------------------------
// Laws
// ---------------------------------------------------------------------------

/// A stored key does not show on the form: two keys give the same rows.
pub proof fn law_stored_keys_do_not_show(
    v: ConfigView,
    p: ProviderView,
    f: Field,
    a: Seq<char>,
    b: Seq<char>,
)
    requires
        !(v.form.field == f && v.form.editing),
    ensures
        field_row(v, ProviderView { api_key: Some(a), ..p }, f) == field_row(
            v,
            ProviderView { api_key: Some(b), ..p },
            f,
        ),
{
}

/// A key that is typed does not show: what is drawn of it depends on nothing but its
/// length.
pub proof fn law_typed_keys_do_not_show(f: FormView, other: Seq<char>)
    requires
        other.len() == f.input.len(),
        0 <= f.cursor <= f.input.len(),
    ensures
        typed_spans(FormView { input: other, ..f }, true) == typed_spans(f, true),
{
    let at = f.cursor;
    let end = if at < f.input.len() {
        at + 1
    } else {
        at
    };
    assert(typed_shown(other.take(at), true) =~= typed_shown(f.input.take(at), true));
    assert(typed_shown(other.skip(end), true) =~= typed_shown(f.input.skip(end), true));
    if at < f.input.len() {
        assert(typed_shown(other.subrange(at, end), true) =~= typed_shown(
            f.input.subrange(at, end),
            true,
        ));
    }
}

} // verus!
